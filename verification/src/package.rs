//! The build: from two directory trees to one package.

use vstd::prelude::*;
use crate::archive::{ArchiveEntryView, tar_archive, tar_stream, tar_takes, walk};
use crate::compression::{CompressType, codec_accepts, compress, compressed};
use crate::container::{Artifact, ArtifactView, MemberMeta, ar_image, artifacts_view, assemble};
use crate::error::BuildError;
use crate::exclusion::{build_blocklist, exclusion_set};
use crate::path::{CanonPath, paths_view};
use crate::permissions::{normalize_control, normalize_root, normalized_control, normalized_root};
use crate::tree::{Tree, TreeView, find_invalid_name, first_invalid_name};

verus! {

/// The file name of the compressed archive of the tree called `name`.
pub open spec fn archive_name(name: Seq<char>, kind: CompressType) -> Seq<char> {
    name + ".tar."@ + kind.spec_name()
}

/// The members of the archive of a tree: a walk over the tree that leaves
/// out what `blocklist` names.
pub open spec fn members_of(tree: TreeView, blocklist: Seq<Seq<Seq<char>>>) -> Seq<ArchiveEntryView> {
    walk(tree.entries, tree.path, Seq::<Seq<char>>::empty(), blocklist)
}

/// The compressed archive of a tree: the tar stream of a walk over the
/// tree that leaves out what `blocklist` names, as the codec writes it.
pub open spec fn archive_of(
    tree: TreeView,
    kind: CompressType,
    blocklist: Seq<Seq<Seq<char>>>,
    name: Seq<char>,
) -> ArtifactView {
    ArtifactView {
        name: archive_name(name, kind),
        bytes: compressed(kind, tar_archive(members_of(tree, blocklist))),
    }
}

/// Archives a tree and compresses the archive, in one pass each.
///
/// The result is the file `<name>.tar.<ext>`, where `<ext>` is the short name
/// of the compression variant. It comes back exactly when the level can go to
/// the codec, the tar writer takes the name of every member, and the codec
/// takes the level. Else the first of these that fails gives the error: the
/// level is looked at first, then the tree is archived, then the archive is
/// compressed.
pub fn compress_files(
    tree: &Tree,
    compress_type: &CompressType,
    blocklist: &Vec<CanonPath>,
    name: &str,
) -> (r: Result<Artifact, BuildError>)
    ensures
        match compress_type.rejected_level() {
            Some(level) => r matches Err(BuildError::LevelRejected(l)) && l == level,
            None => match r {
                Ok(file) => {
                    &&& tar_takes(members_of(tree@, paths_view(blocklist@)))
                    &&& codec_accepts(*compress_type)
                    &&& file@ == archive_of(tree@, *compress_type, paths_view(blocklist@), name@)
                },
                Err(e) => if !tar_takes(members_of(tree@, paths_view(blocklist@))) {
                    e is Archive
                } else {
                    !codec_accepts(*compress_type) && e is Compression
                },
            },
        },
        r is Ok <==> {
            &&& compress_type.rejected_level() is None
            &&& tar_takes(members_of(tree@, paths_view(blocklist@)))
            &&& codec_accepts(*compress_type)
        },
{
    match compress_type.check_level() {
        Err(e) => {
            return Err(e);
        },
        Ok(()) => {},
    }
    let stream = match tar_stream(&tree.entries, &tree.path, blocklist) {
        Ok(stream) => stream,
        Err(e) => {
            return Err(e);
        },
    };
    let bytes = match compress(compress_type, stream.as_slice()) {
        Ok(bytes) => bytes,
        Err(e) => {
            return Err(e);
        },
    };
    Ok(archive_file(name, compress_type, bytes))
}

/// Puts the compressed archive of the tree called `name` under its file
/// name, `<name>.tar.<ext>`.
pub fn archive_file(name: &str, kind: &CompressType, bytes: Vec<u8>) -> (file: Artifact)
    ensures
        file@ == (ArtifactView { name: archive_name(name@, *kind), bytes: bytes@ }),
{
    let mut file_name = String::from_str(name);
    file_name.append(".tar.");
    file_name.append(kind.name().as_str());
    Artifact { name: file_name, bytes }
}

/// The name of the format marker.
pub open spec fn marker_name() -> Seq<char> {
    "debian-binary"@
}

/// The content of the format marker: the three characters `2.0`.
pub open spec fn marker_bytes() -> Seq<u8> {
    seq![0x32u8, 0x2eu8, 0x30u8]
}

/// The format marker `debian-binary`.
pub fn marker() -> (file: Artifact)
    ensures
        file@ == (ArtifactView { name: marker_name(), bytes: marker_bytes() }),
{
    let file = Artifact { name: String::from_str("debian-binary"), bytes: vec![0x32u8, 0x2eu8, 0x30u8] };
    file
}

/// The members of the control archive: a walk over the control directory
/// with its direct entries normalised, nothing left out.
pub open spec fn control_members(control: TreeView) -> Seq<ArchiveEntryView> {
    walk(
        normalized_control(control.entries),
        control.path,
        Seq::<Seq<char>>::empty(),
        Seq::<Seq<Seq<char>>>::empty(),
    )
}

/// The members of the data archive: a walk over the payload root with its
/// direct entries normalised, which leaves out the control directory where
/// that lies inside the root.
pub open spec fn data_members(root: TreeView, control: TreeView) -> Seq<ArchiveEntryView> {
    walk(
        normalized_root(root.entries),
        root.path,
        Seq::<Seq<char>>::empty(),
        exclusion_set(root.path, control.path, control.entries),
    )
}

/// The control archive of a build, `control.tar.<ext>`.
pub open spec fn control_archive(control: TreeView, kind: CompressType) -> ArtifactView {
    ArtifactView {
        name: archive_name("control"@, kind),
        bytes: compressed(kind, tar_archive(control_members(control))),
    }
}

/// The data archive of a build, `data.tar.<ext>`.
pub open spec fn data_archive(root: TreeView, control: TreeView, kind: CompressType) -> ArtifactView {
    ArtifactView {
        name: archive_name("data"@, kind),
        bytes: compressed(kind, tar_archive(data_members(root, control))),
    }
}

/// The parts of a package in the order in which the container holds them:
/// the control archive, the data archive, the format marker.
pub open spec fn package_parts(root: TreeView, control: TreeView, kind: CompressType) -> Seq<
    ArtifactView,
> {
    seq![
        control_archive(control, kind),
        data_archive(root, control, kind),
        ArtifactView { name: marker_name(), bytes: marker_bytes() },
    ]
}

/// The file name of the package called `pkg_name`.
pub open spec fn deb_name(pkg_name: Seq<char>) -> Seq<char> {
    pkg_name + ".deb"@
}

/// The first name in the two trees that cannot be archived, the payload root
/// searched first.
pub open spec fn invalid_name(root: TreeView, control: TreeView) -> Option<Seq<char>> {
    match first_invalid_name(root.entries) {
        Some(name) => Some(name),
        None => first_invalid_name(control.entries),
    }
}

/// Lines up the parts of a package in the order in which the container
/// holds them: the control archive, the data archive, the format marker.
pub fn collect_parts(control: Artifact, data: Artifact) -> (parts: Vec<Artifact>)
    ensures
        artifacts_view(parts@) == seq![
            control@,
            data@,
            ArtifactView { name: marker_name(), bytes: marker_bytes() },
        ],
{
    let mut parts: Vec<Artifact> = Vec::new();
    parts.push(control);
    parts.push(data);
    parts.push(marker());
    assert(artifacts_view(parts@) =~= seq![
        control@,
        data@,
        ArtifactView { name: marker_name(), bytes: marker_bytes() },
    ]);
    parts
}

/// Puts the bytes of a container under the file name of the package,
/// `<pkg_name>.deb`.
pub fn deb_file(pkg_name: &str, bytes: Vec<u8>) -> (file: Artifact)
    ensures
        file@ == (ArtifactView { name: deb_name(pkg_name@), bytes: bytes@ }),
{
    let mut name = String::from_str(pkg_name);
    name.append(".deb");
    Artifact { name, bytes }
}

/// Whether the writers and the codec take everything that a build hands them:
/// the tar writer the name of every member of both archives, and the codec
/// the level.
pub open spec fn writers_accept(root: TreeView, control: TreeView, kind: CompressType) -> bool {
    &&& tar_takes(data_members(root, control))
    &&& codec_accepts(kind)
    &&& tar_takes(control_members(control))
}

/// Whether a build succeeds: the level can go to the codec, every name in
/// both trees can be archived, and the writers and the codec take what they
/// are handed. Nothing but the arguments of the build decides.
pub open spec fn build_succeeds(root: TreeView, control: TreeView, kind: CompressType) -> bool {
    &&& kind.rejected_level() is None
    &&& invalid_name(root, control) is None
    &&& writers_accept(root, control, kind)
}

/// What one build produces.
#[derive(Debug)]
pub struct Package {
    /// The container `<pkg_name>.deb`, the one lasting output.
    pub deb: Artifact,
    /// The files that the container was made of, in the order in which it
    /// holds them. They are of no use once the container is written.
    pub parts: Vec<Artifact>,
}

/// Builds a Debian binary package from the payload root and the control
/// directory.
///
/// The direct entries of both trees are normalised, each tree is archived and
/// compressed, and the container takes the control archive, the data archive
/// and the format marker, in this order. `meta` is recorded for each of the
/// three members. A level that the codec cannot be called with, or a name
/// that cannot be archived, ends the build before anything is archived.
///
/// The build succeeds exactly when [`build_succeeds`] holds of its arguments.
/// Else the first step that fails gives the error, in this order: the level,
/// the names of the payload root, the names of the control directory, the
/// tar stream of the payload, the codec, the tar stream of the control
/// directory.
pub fn do_build_deb(
    root: Tree,
    control: Tree,
    compress_type: CompressType,
    meta: MemberMeta,
    pkg_name: &str,
) -> (r: Result<Package, BuildError>)
    ensures
        match compress_type.rejected_level() {
            Some(level) => r matches Err(BuildError::LevelRejected(l)) && l == level,
            None => match invalid_name(root@, control@) {
                Some(name) => r matches Err(BuildError::InvalidName(n)) && n@ == name,
                None => match r {
                    Ok(package) => {
                        &&& writers_accept(root@, control@, compress_type)
                        &&& artifacts_view(package.parts@) == package_parts(
                            root@,
                            control@,
                            compress_type,
                        )
                        &&& package.deb@ == (ArtifactView {
                            name: deb_name(pkg_name@),
                            bytes: ar_image(package_parts(root@, control@, compress_type), meta),
                        })
                    },
                    Err(e) => if !tar_takes(data_members(root@, control@)) {
                        e is Archive
                    } else if !codec_accepts(compress_type) {
                        e is Compression
                    } else {
                        !tar_takes(control_members(control@)) && e is Archive
                    },
                },
            },
        },
        r is Ok <==> build_succeeds(root@, control@, compress_type),
{
    match compress_type.check_level() {
        Err(e) => {
            return Err(e);
        },
        Ok(()) => {},
    }
    match find_invalid_name(&root.entries) {
        Some(name) => {
            return Err(BuildError::InvalidName(name));
        },
        None => {},
    }
    match find_invalid_name(&control.entries) {
        Some(name) => {
            return Err(BuildError::InvalidName(name));
        },
        None => {},
    }
    let blocklist = build_blocklist(&root.path, &control);
    let root = Tree { path: root.path, entries: normalize_root(root.entries) };
    let data = match compress_files(&root, &compress_type, &blocklist, "data") {
        Ok(file) => file,
        Err(e) => {
            return Err(e);
        },
    };
    let control = Tree { path: control.path, entries: normalize_control(control.entries) };
    let nothing: Vec<CanonPath> = Vec::new();
    assert(paths_view(nothing@) =~= Seq::<Seq<Seq<char>>>::empty());
    let control_file = match compress_files(&control, &compress_type, &nothing, "control") {
        Ok(file) => file,
        Err(e) => {
            return Err(e);
        },
    };
    let parts = collect_parts(control_file, data);
    let bytes = match assemble(&parts, &meta) {
        Ok(bytes) => bytes,
        Err(e) => {
            return Err(e);
        },
    };
    Ok(Package { deb: deb_file(pkg_name, bytes), parts })
}

} // verus!
