use letsdeb_core::container::Artifact;
use letsdeb_core::error::BuildError;
use letsdeb_core::output::{output_ops, step_failure, FileOp};
use letsdeb_core::package::Package;
use letsdeb_core::path::CanonPath;
use letsdeb_core::permissions::{
    control_mode_of, normalize_control, normalize_root, permission_plan, PermissionChange,
};
use letsdeb_core::tree::{Content, Entry, Tree};

fn path(parts: &[&str]) -> CanonPath {
    CanonPath::from_components(parts.iter().map(|s| s.to_string()).collect())
}

fn file(name: &str, mode: u32) -> Entry {
    Entry {
        name: name.to_string(),
        mode,
        uid: 501,
        gid: 20,
        mtime: 99,
        content: Content::File(name.as_bytes().to_vec()),
    }
}

fn dir(name: &str, mode: u32, children: Vec<Entry>) -> Entry {
    Entry { name: name.to_string(), mode, uid: 501, gid: 20, mtime: 99, content: Content::Dir(children) }
}

fn flat(change: &PermissionChange) -> (Vec<String>, Option<u32>, u32, u32) {
    (change.path.components.clone(), change.mode, change.uid, change.gid)
}

fn strings(parts: &[&str]) -> Vec<String> {
    parts.iter().map(|s| s.to_string()).collect()
}

#[test]
fn control_file_is_readable_scripts_are_executable() {
    assert_eq!(control_mode_of("control"), 0o644);
    assert_eq!(control_mode_of("postinst"), 0o755);
    assert_eq!(control_mode_of("preinst"), 0o755);
    assert_eq!(control_mode_of("prerm"), 0o755);
    assert_eq!(control_mode_of("md5sums"), 0o755);
}

#[test]
fn only_the_exact_name_counts_as_the_control_file() {
    assert_eq!(control_mode_of("Control"), 0o755);
    assert_eq!(control_mode_of("control "), 0o755);
    assert_eq!(control_mode_of("control.bak"), 0o755);
    assert_eq!(control_mode_of(""), 0o755);
}

#[test]
fn normalize_control_sets_mode_and_owner_of_direct_entries() {
    let out = normalize_control(vec![
        file("control", 0o777),
        file("postinst", 0o600),
        dir("extra", 0o700, vec![file("control", 0o600)]),
    ]);
    assert_eq!(out.len(), 3);
    assert_eq!((out[0].name.as_str(), out[0].mode, out[0].uid, out[0].gid), ("control", 0o644, 0, 0));
    assert_eq!((out[1].name.as_str(), out[1].mode, out[1].uid, out[1].gid), ("postinst", 0o755, 0, 0));
    assert_eq!((out[2].name.as_str(), out[2].mode, out[2].uid, out[2].gid), ("extra", 0o755, 0, 0));
    assert_eq!(out[0].mtime, 99);
    assert!(matches!(&out[0].content, Content::File(bytes) if bytes == b"control"));
}

#[test]
fn normalize_control_leaves_deeper_entries_alone() {
    let out = normalize_control(vec![dir("extra", 0o700, vec![file("control", 0o600)])]);
    match &out[0].content {
        Content::Dir(children) => {
            assert_eq!(children.len(), 1);
            assert_eq!(children[0].mode, 0o600);
            assert_eq!((children[0].uid, children[0].gid), (501, 20));
        }
        _ => panic!("not a directory"),
    }
}

#[test]
fn normalize_root_sets_the_owner_and_keeps_the_mode() {
    let out = normalize_root(vec![file("a", 0o640), dir("usr", 0o750, vec![file("b", 0o600)])]);
    assert_eq!(out.len(), 2);
    assert_eq!((out[0].name.as_str(), out[0].mode, out[0].uid, out[0].gid), ("a", 0o640, 0, 0));
    assert_eq!((out[1].name.as_str(), out[1].mode, out[1].uid, out[1].gid), ("usr", 0o750, 0, 0));
    match &out[1].content {
        Content::Dir(children) => {
            assert_eq!((children[0].mode, children[0].uid, children[0].gid), (0o600, 501, 20));
        }
        _ => panic!("not a directory"),
    }
}

#[test]
fn normalizing_nothing_gives_nothing() {
    assert!(normalize_root(Vec::new()).is_empty());
    assert!(normalize_control(Vec::new()).is_empty());
}

#[test]
fn permission_plan_lists_root_entries_then_control_entries() {
    let root = Tree {
        path: path(&["srv", "root"]),
        entries: vec![dir("usr", 0o700, vec![file("deep", 0o600)]), file("top", 0o600)],
    };
    let control = Tree {
        path: path(&["srv", "meta"]),
        entries: vec![file("postinst", 0o600), file("control", 0o600)],
    };
    let plan = permission_plan(&root, &control);
    let flat: Vec<_> = plan.iter().map(flat).collect();
    assert_eq!(
        flat,
        vec![
            (strings(&["srv", "root", "usr"]), None, 0, 0),
            (strings(&["srv", "root", "top"]), None, 0, 0),
            (strings(&["srv", "meta", "postinst"]), Some(0o755), 0, 0),
            (strings(&["srv", "meta", "control"]), Some(0o644), 0, 0),
        ]
    );
}

#[test]
fn permission_plan_of_empty_trees_is_empty() {
    let root = Tree { path: path(&["r"]), entries: vec![] };
    let control = Tree { path: path(&["c"]), entries: vec![] };
    assert!(permission_plan(&root, &control).is_empty());
}

fn package() -> Package {
    Package {
        deb: Artifact { name: "p.deb".to_string(), bytes: vec![1, 2, 3] },
        parts: vec![
            Artifact { name: "control.tar.gz".to_string(), bytes: vec![4] },
            Artifact { name: "data.tar.gz".to_string(), bytes: vec![5, 6] },
            Artifact { name: "debian-binary".to_string(), bytes: b"2.0".to_vec() },
        ],
    }
}

fn shown(op: &FileOp) -> String {
    match op {
        FileOp::Write(file) => format!("write {} {:?}", file.name, file.bytes),
        FileOp::Remove(name) => format!("remove {}", name),
    }
}

#[test]
fn output_ops_write_everything_before_removing_anything() {
    let ops = output_ops(package());
    let shown: Vec<String> = ops.iter().map(shown).collect();
    assert_eq!(
        shown,
        vec![
            "write control.tar.gz [4]",
            "write data.tar.gz [5, 6]",
            "write debian-binary [50, 46, 48]",
            "write p.deb [1, 2, 3]",
            "remove control.tar.gz",
            "remove data.tar.gz",
            "remove debian-binary",
        ]
    );
}

#[test]
fn output_ops_leave_only_the_package_behind() {
    let mut dir: Vec<(String, Vec<u8>)> = vec![
        ("control.tar.gz".to_string(), b"stale and much longer than the new one".to_vec()),
        ("p.deb".to_string(), b"old package".to_vec()),
        ("unrelated".to_string(), b"keep".to_vec()),
    ];
    for op in output_ops(package()) {
        match op {
            FileOp::Write(file) => {
                dir.retain(|(name, _)| *name != file.name);
                dir.push((file.name, file.bytes));
            }
            FileOp::Remove(name) => dir.retain(|(n, _)| *n != name),
        }
    }
    dir.sort();
    assert_eq!(
        dir,
        vec![("p.deb".to_string(), vec![1, 2, 3]), ("unrelated".to_string(), b"keep".to_vec())]
    );
}

#[test]
fn output_ops_of_a_package_without_parts() {
    let ops = output_ops(Package {
        deb: Artifact { name: "x.deb".to_string(), bytes: vec![] },
        parts: vec![],
    });
    assert_eq!(ops.len(), 1);
    assert!(matches!(&ops[0], FileOp::Write(file) if file.name == "x.deb"));
}

fn cause() -> std::io::Error {
    std::io::Error::new(std::io::ErrorKind::PermissionDenied, "read-only")
}

#[test]
fn a_failed_archive_write_is_a_compression_error() {
    let count = output_ops(package()).len();
    assert_eq!(count, 7);
    for index in [0, 1] {
        match step_failure(count, index, cause()) {
            BuildError::Compression(e) => assert_eq!(e.to_string(), "read-only"),
            _ => panic!("step {index} does not belong to compressing"),
        }
    }
}

#[test]
fn every_other_failed_step_is_a_container_error() {
    for index in [2, 3, 4, 5, 6] {
        match step_failure(7, index, cause()) {
            BuildError::Container(e) => {
                assert_eq!(e.kind(), std::io::ErrorKind::PermissionDenied)
            }
            _ => panic!("step {index} does not belong to the container"),
        }
    }
}

#[test]
fn short_plans_have_no_archive_writes() {
    assert!(matches!(step_failure(0, 0, cause()), BuildError::Container(_)));
    assert!(matches!(step_failure(1, 0, cause()), BuildError::Container(_)));
    assert!(matches!(step_failure(3, 0, cause()), BuildError::Container(_)));
    assert!(matches!(step_failure(5, 0, cause()), BuildError::Compression(_)));
    assert!(matches!(step_failure(5, 1, cause()), BuildError::Container(_)));
    assert!(matches!(step_failure(7, usize::MAX, cause()), BuildError::Container(_)));
}
