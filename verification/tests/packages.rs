use std::io::Read;

use letsdeb_core::compression::CompressType;
use letsdeb_core::container::{Artifact, MemberMeta};
use letsdeb_core::error::BuildError;
use letsdeb_core::package::{
    archive_file, collect_parts, compress_files, deb_file, do_build_deb, marker,
};
use letsdeb_core::path::CanonPath;
use letsdeb_core::tree::{Content, Entry, Tree};

fn path(parts: &[&str]) -> CanonPath {
    CanonPath::from_components(parts.iter().map(|s| s.to_string()).collect())
}

fn file(name: &str, mode: u32, content: &[u8]) -> Entry {
    Entry {
        name: name.to_string(),
        mode,
        uid: 1000,
        gid: 1000,
        mtime: 1_700_000_000,
        content: Content::File(content.to_vec()),
    }
}

fn dir(name: &str, children: Vec<Entry>) -> Entry {
    Entry {
        name: name.to_string(),
        mode: 0o775,
        uid: 1000,
        gid: 1000,
        mtime: 1_700_000_000,
        content: Content::Dir(children),
    }
}

fn meta() -> MemberMeta {
    MemberMeta { mtime: 1_700_000_000, uid: 0, gid: 0, mode: 0o100644 }
}

fn payload_root() -> Tree {
    Tree {
        path: path(&["srv", "pkg", "root"]),
        entries: vec![dir("usr", vec![dir("bin", vec![file("foo", 0o755, b"#!/bin/sh\n")])])],
    }
}

fn control_dir(at: &[&str]) -> Tree {
    Tree {
        path: path(at),
        entries: vec![
            file("control", 0o600, b"Package: foo\nVersion: 1.0\n"),
            file("postinst", 0o600, b"#!/bin/sh\nexit 0\n"),
        ],
    }
}

fn ar_members(bytes: &[u8]) -> Vec<(String, Vec<u8>)> {
    let mut archive = ar::Archive::new(bytes);
    let mut found = Vec::new();
    while let Some(entry) = archive.next_entry() {
        let mut entry = entry.unwrap();
        let name = String::from_utf8(entry.header().identifier().to_vec()).unwrap();
        let mut data = Vec::new();
        entry.read_to_end(&mut data).unwrap();
        found.push((name, data));
    }
    found
}

fn gunzip(bytes: &[u8]) -> Vec<u8> {
    let mut out = Vec::new();
    flate2::read::GzDecoder::new(bytes).read_to_end(&mut out).unwrap();
    out
}

fn unxz(bytes: &[u8]) -> Vec<u8> {
    let mut out = Vec::new();
    xz::read::XzDecoder::new(bytes).read_to_end(&mut out).unwrap();
    out
}

fn untar(bytes: &[u8]) -> Vec<(String, u32, u64, u64, Vec<u8>)> {
    let mut archive = tar::Archive::new(bytes);
    let mut seen = Vec::new();
    for entry in archive.entries().unwrap() {
        let mut entry = entry.unwrap();
        let path = String::from_utf8(entry.path_bytes().into_owned()).unwrap();
        let mode = entry.header().mode().unwrap();
        let uid = entry.header().uid().unwrap();
        let gid = entry.header().gid().unwrap();
        let mut data = Vec::new();
        entry.read_to_end(&mut data).unwrap();
        seen.push((path, mode, uid, gid, data));
    }
    seen
}

fn names(seen: &[(String, u32, u64, u64, Vec<u8>)]) -> Vec<String> {
    seen.iter().map(|s| s.0.clone()).collect()
}

#[test]
fn marker_is_the_three_bytes_of_the_version() {
    let m: Artifact = marker();
    assert_eq!(m.name, "debian-binary");
    assert_eq!(m.bytes, b"2.0");
    assert_eq!(m.bytes.len(), 3);
}

#[test]
fn compress_files_names_the_file_after_tree_and_codec() {
    let tree = payload_root();
    for (kind, name) in [
        (CompressType::Xz { level: 1 }, "data.tar.xz"),
        (CompressType::Gz { level: 1 }, "data.tar.gz"),
        (CompressType::Zstd { level: 1 }, "data.tar.zstd"),
    ] {
        let out = compress_files(&tree, &kind, &Vec::new(), "data").unwrap();
        assert_eq!(out.name, name);
    }
    let out = compress_files(&tree, &CompressType::Gz { level: 1 }, &Vec::new(), "control").unwrap();
    assert_eq!(out.name, "control.tar.gz");
}

#[test]
fn compress_files_holds_the_tar_stream_of_the_tree() {
    let out = compress_files(&payload_root(), &CompressType::Gz { level: 6 }, &Vec::new(), "data").unwrap();
    let seen = untar(&gunzip(&out.bytes));
    assert_eq!(names(&seen), vec!["usr", "usr/bin", "usr/bin/foo"]);
    assert_eq!(seen[2].4, b"#!/bin/sh\n");
}

#[test]
fn compress_files_leaves_out_what_is_listed() {
    let list = vec![path(&["srv", "pkg", "root", "usr", "bin"])];
    let out = compress_files(&payload_root(), &CompressType::Xz { level: 0 }, &list, "data").unwrap();
    let seen = untar(&unxz(&out.bytes));
    assert_eq!(names(&seen), vec!["usr"]);
}

#[test]
fn compress_files_rejects_a_level_the_codec_cannot_be_called_with() {
    let r = compress_files(&payload_root(), &CompressType::Gz { level: 12 }, &Vec::new(), "data");
    assert!(matches!(r, Err(BuildError::LevelRejected(12))));
}

#[test]
fn gz_build_of_one_file_and_two_control_entries() {
    let package = do_build_deb(
        payload_root(),
        control_dir(&["srv", "pkg", "control"]),
        CompressType::Gz { level: 6 },
        meta(),
        "foo_1.0_all",
    )
    .unwrap();
    assert_eq!(package.deb.name, "foo_1.0_all.deb");
    let members = ar_members(&package.deb.bytes);
    assert_eq!(members.len(), 3);
    assert_eq!(members[0].0, "control.tar.gz");
    assert_eq!(members[1].0, "data.tar.gz");
    assert_eq!(members[2].0, "debian-binary");
    assert_eq!(members[2].1, b"2.0");

    let data = untar(&gunzip(&members[1].1));
    assert_eq!(names(&data), vec!["usr", "usr/bin", "usr/bin/foo"]);
    assert_eq!(data[2].1, 0o755);
    assert_eq!(data[2].4, b"#!/bin/sh\n");

    let control = untar(&gunzip(&members[0].1));
    assert_eq!(names(&control), vec!["control", "postinst"]);
    assert_eq!(control[0].1, 0o644);
    assert_eq!(control[0].4, b"Package: foo\nVersion: 1.0\n");
    assert_eq!(control[1].1, 0o755);
    assert_eq!(control[1].4, b"#!/bin/sh\nexit 0\n");
}

#[test]
fn the_parts_are_the_members_of_the_container() {
    let package = do_build_deb(
        payload_root(),
        control_dir(&["srv", "pkg", "control"]),
        CompressType::Zstd { level: 3 },
        meta(),
        "p",
    )
    .unwrap();
    let members = ar_members(&package.deb.bytes);
    assert_eq!(package.parts.len(), 3);
    for (part, member) in package.parts.iter().zip(members.iter()) {
        assert_eq!(part.name, member.0);
        assert_eq!(part.bytes, member.1);
    }
    assert_eq!(package.parts[0].name, "control.tar.zstd");
    assert_eq!(package.parts[1].name, "data.tar.zstd");
    assert_eq!(package.parts[2].name, "debian-binary");
}

#[test]
fn member_order_and_marker_hold_for_every_codec() {
    for (kind, ext) in [
        (CompressType::Xz { level: 2 }, "xz"),
        (CompressType::Gz { level: 2 }, "gz"),
        (CompressType::Zstd { level: 2 }, "zstd"),
    ] {
        let package =
            do_build_deb(payload_root(), control_dir(&["c"]), kind, meta(), "p").unwrap();
        let members = ar_members(&package.deb.bytes);
        let found: Vec<&str> = members.iter().map(|m| m.0.as_str()).collect();
        assert_eq!(
            found,
            vec![format!("control.tar.{ext}"), format!("data.tar.{ext}"), "debian-binary".to_string()]
        );
        assert_eq!(members[2].1, b"2.0");
        assert_eq!(&package.deb.bytes[..8], b"!<arch>\n");
    }
}

#[test]
fn direct_entries_are_owned_by_root_deeper_ones_keep_their_owner() {
    let package = do_build_deb(
        payload_root(),
        control_dir(&["srv", "pkg", "control"]),
        CompressType::Gz { level: 6 },
        meta(),
        "p",
    )
    .unwrap();
    let data = untar(&gunzip(&package.parts[1].bytes));
    assert_eq!((data[0].0.as_str(), data[0].2, data[0].3), ("usr", 0, 0));
    assert_eq!(data[0].1, 0o775);
    assert_eq!((data[1].0.as_str(), data[1].2, data[1].3), ("usr/bin", 1000, 1000));
    assert_eq!((data[2].0.as_str(), data[2].2, data[2].3), ("usr/bin/foo", 1000, 1000));
    let control = untar(&gunzip(&package.parts[0].bytes));
    for entry in &control {
        assert_eq!((entry.2, entry.3), (0, 0));
    }
}

#[test]
fn control_directory_inside_the_root_stays_out_of_the_data() {
    let mut root = payload_root();
    root.entries.push(dir(
        "DEBIAN",
        vec![file("control", 0o600, b"Package: foo\n"), file("postinst", 0o600, b"#!/bin/sh\n")],
    ));
    root.entries.push(file("after", 0o644, b"kept"));
    let control = Tree {
        path: path(&["srv", "pkg", "root", "DEBIAN"]),
        entries: vec![file("control", 0o600, b"Package: foo\n"), file("postinst", 0o600, b"#!/bin/sh\n")],
    };
    let package = do_build_deb(root, control, CompressType::Gz { level: 6 }, meta(), "p").unwrap();
    let data = untar(&gunzip(&package.parts[1].bytes));
    assert_eq!(names(&data), vec!["usr", "usr/bin", "usr/bin/foo", "after"]);
    let control = untar(&gunzip(&package.parts[0].bytes));
    assert_eq!(names(&control), vec!["control", "postinst"]);
}

#[test]
fn control_directory_deep_inside_the_root_stays_out_too() {
    let root = Tree {
        path: path(&["r"]),
        entries: vec![dir(
            "opt",
            vec![
                dir("meta", vec![file("control", 0o600, b"c"), dir("sub", vec![file("x", 0o600, b"x")])]),
                file("keep", 0o644, b"k"),
            ],
        )],
    };
    let control = Tree {
        path: path(&["r", "opt", "meta"]),
        entries: vec![file("control", 0o600, b"c"), dir("sub", vec![file("x", 0o600, b"x")])],
    };
    let package = do_build_deb(root, control, CompressType::Gz { level: 6 }, meta(), "p").unwrap();
    let data = untar(&gunzip(&package.parts[1].bytes));
    assert_eq!(names(&data), vec!["opt", "opt/keep"]);
    let control = untar(&gunzip(&package.parts[0].bytes));
    assert_eq!(names(&control), vec!["control", "sub", "sub/x"]);
    assert_eq!(control[1].1, 0o755);
    assert_eq!(control[2].1, 0o600);
}

#[test]
fn control_directory_equal_to_the_root_empties_the_data() {
    let root = Tree { path: path(&["r"]), entries: vec![file("control", 0o600, b"c")] };
    let control = Tree { path: path(&["r"]), entries: vec![file("control", 0o600, b"c")] };
    let package = do_build_deb(root, control, CompressType::Gz { level: 6 }, meta(), "p").unwrap();
    assert!(untar(&gunzip(&package.parts[1].bytes)).is_empty());
    assert_eq!(names(&untar(&gunzip(&package.parts[0].bytes))), vec!["control"]);
}

#[test]
fn control_directory_outside_the_root_filters_nothing() {
    let mut root = payload_root();
    root.entries.push(dir("control", vec![file("control", 0o644, b"not metadata")]));
    let package = do_build_deb(
        root,
        control_dir(&["srv", "pkg", "control"]),
        CompressType::Gz { level: 6 },
        meta(),
        "p",
    )
    .unwrap();
    let data = untar(&gunzip(&package.parts[1].bytes));
    assert_eq!(
        names(&data),
        vec!["usr", "usr/bin", "usr/bin/foo", "control", "control/control"]
    );
}

#[test]
fn empty_trees_still_give_a_package() {
    let root = Tree { path: path(&["r"]), entries: vec![] };
    let control = Tree { path: path(&["c"]), entries: vec![] };
    let package = do_build_deb(root, control, CompressType::Gz { level: 6 }, meta(), "empty").unwrap();
    let members = ar_members(&package.deb.bytes);
    assert_eq!(members.len(), 3);
    assert_eq!(gunzip(&members[0].1), vec![0u8; 1024]);
    assert_eq!(gunzip(&members[1].1), vec![0u8; 1024]);
}

#[test]
fn an_invalid_name_ends_the_build() {
    let root = Tree { path: path(&["r"]), entries: vec![dir("usr", vec![file("a/b", 0o644, b"")])] };
    let r = do_build_deb(root, control_dir(&["c"]), CompressType::Gz { level: 6 }, meta(), "p");
    assert!(matches!(r, Err(BuildError::InvalidName(ref name)) if name == "a/b"));
}

#[test]
fn an_invalid_name_in_the_control_directory_ends_the_build() {
    let control = Tree { path: path(&["c"]), entries: vec![file("..", 0o644, b"")] };
    let r = do_build_deb(payload_root(), control, CompressType::Gz { level: 6 }, meta(), "p");
    assert!(matches!(r, Err(BuildError::InvalidName(ref name)) if name == ".."));
}

#[test]
fn the_root_is_searched_for_invalid_names_first() {
    let root = Tree { path: path(&["r"]), entries: vec![file("", 0o644, b"")] };
    let control = Tree { path: path(&["c"]), entries: vec![file("..", 0o644, b"")] };
    let r = do_build_deb(root, control, CompressType::Gz { level: 6 }, meta(), "p");
    assert!(matches!(r, Err(BuildError::InvalidName(ref name)) if name.is_empty()));
}

#[test]
fn a_rejected_level_comes_before_an_invalid_name() {
    let root = Tree { path: path(&["r"]), entries: vec![file("..", 0o644, b"")] };
    let r = do_build_deb(root, control_dir(&["c"]), CompressType::Gz { level: 99 }, meta(), "p");
    assert!(matches!(r, Err(BuildError::LevelRejected(99))));
}

#[test]
fn the_codec_error_of_xz_ends_the_build() {
    let r = do_build_deb(
        payload_root(),
        control_dir(&["c"]),
        CompressType::Xz { level: 10 },
        meta(),
        "p",
    );
    assert!(matches!(r, Err(BuildError::Compression(_))));
}

#[test]
fn building_twice_gives_the_same_package() {
    let build = || {
        do_build_deb(
            payload_root(),
            control_dir(&["srv", "pkg", "control"]),
            CompressType::Xz { level: 6 },
            meta(),
            "p",
        )
        .unwrap()
    };
    assert_eq!(build().deb.bytes, build().deb.bytes);
}

#[test]
fn archive_file_joins_name_and_extension() {
    let file = archive_file("data", &CompressType::Zstd { level: 3 }, vec![1, 2, 3]);
    assert_eq!(file.name, "data.tar.zstd");
    assert_eq!(file.bytes, vec![1, 2, 3]);
    assert_eq!(archive_file("control", &CompressType::Xz { level: 0 }, vec![]).name, "control.tar.xz");
    assert_eq!(archive_file("", &CompressType::Gz { level: 0 }, vec![]).name, ".tar.gz");
}

#[test]
fn deb_file_appends_the_extension() {
    let file = deb_file("hello_1.0_amd64", vec![9]);
    assert_eq!(file.name, "hello_1.0_amd64.deb");
    assert_eq!(file.bytes, vec![9]);
    assert_eq!(deb_file("", vec![]).name, ".deb");
}

#[test]
fn collect_parts_puts_control_first_and_the_marker_last() {
    let control = Artifact { name: "control.tar.gz".to_string(), bytes: vec![1] };
    let data = Artifact { name: "data.tar.gz".to_string(), bytes: vec![2, 2] };
    let parts = collect_parts(control, data);
    assert_eq!(parts.len(), 3);
    assert_eq!((parts[0].name.as_str(), &parts[0].bytes[..]), ("control.tar.gz", &[1u8][..]));
    assert_eq!((parts[1].name.as_str(), &parts[1].bytes[..]), ("data.tar.gz", &[2u8, 2][..]));
    assert_eq!((parts[2].name.as_str(), &parts[2].bytes[..]), ("debian-binary", &b"2.0"[..]));
}

#[test]
fn a_build_in_order_succeeds_for_every_codec_and_usual_level() {
    for kind in [
        CompressType::Xz { level: 0 },
        CompressType::Xz { level: 6 },
        CompressType::Xz { level: 9 },
        CompressType::Gz { level: 0 },
        CompressType::Gz { level: 6 },
        CompressType::Gz { level: 10 },
        CompressType::Zstd { level: 1 },
        CompressType::Zstd { level: 6 },
        CompressType::Zstd { level: 19 },
    ] {
        let r = do_build_deb(payload_root(), control_dir(&["c"]), kind, meta(), "p");
        assert!(r.is_ok());
    }
}

#[test]
fn compress_files_reports_the_tar_writer_before_the_codec() {
    let tree = Tree { path: path(&["r"]), entries: vec![file("..", 0o644, b"")] };
    let r = compress_files(&tree, &CompressType::Xz { level: 10 }, &Vec::new(), "data");
    assert!(matches!(r, Err(BuildError::Archive(_))));
}

#[test]
fn compress_files_reports_the_codec_when_the_tree_is_in_order() {
    let r = compress_files(&payload_root(), &CompressType::Xz { level: 10 }, &Vec::new(), "data");
    assert!(matches!(r, Err(BuildError::Compression(_))));
}
