//! What a finished build leaves in the output directory, and in which order.

use vstd::prelude::*;
use crate::container::{Artifact, ArtifactView, artifacts_view};
use crate::error::{BuildError, Stage};
use crate::package::Package;

verus! {

/// One step on the output directory.
#[derive(Debug)]
pub enum FileOp {
    /// Create the file, or empty it if it is there, and write the bytes.
    Write(Artifact),
    /// Delete the file of this name.
    Remove(String),
}

/// The mathematical value of a [`FileOp`].
pub enum FileOpView {
    Write(ArtifactView),
    Remove(Seq<char>),
}

impl View for FileOp {
    type V = FileOpView;

    open spec fn view(&self) -> FileOpView {
        match self {
            FileOp::Write(file) => FileOpView::Write(file@),
            FileOp::Remove(name) => FileOpView::Remove(name@),
        }
    }
}

/// The value of each step of a sequence.
pub open spec fn ops_view(s: Seq<FileOp>) -> Seq<FileOpView> {
    Seq::new(s.len(), |i: int| s[i]@)
}

/// The steps that put a package on disk: every part is written, in the order
/// in which the container holds them, then the container, and only then is
/// each part deleted again. Whoever carries the steps out stops at the first
/// that fails, so that nothing is deleted unless the container is written.
pub open spec fn planned_ops(parts: Seq<ArtifactView>, deb: ArtifactView) -> Seq<FileOpView> {
    Seq::new(parts.len(), |i: int| FileOpView::Write(parts[i])) + seq![FileOpView::Write(deb)]
        + Seq::new(parts.len(), |i: int| FileOpView::Remove(parts[i].name))
}

/// A directory as far as a build is concerned: the bytes under each name.
pub type Directory = Map<Seq<char>, Seq<u8>>;

/// The directory after one step. Writing replaces what the file held.
pub open spec fn after_op(dir: Directory, op: FileOpView) -> Directory {
    match op {
        FileOpView::Write(file) => dir.insert(file.name, file.bytes),
        FileOpView::Remove(name) => dir.remove(name),
    }
}

/// The directory after the steps, carried out in order.
pub open spec fn after_ops(dir: Directory, ops: Seq<FileOpView>) -> Directory
    decreases ops.len(),
{
    if ops.len() == 0 {
        dir
    } else {
        after_op(after_ops(dir, ops.drop_last()), ops.last())
    }
}

/// The stage that step `index` of a plan of `count` steps belongs to.
///
/// A plan for a package of `n` parts has `2 * n + 1` steps. The last part is
/// the format marker, and the parts before it are compressed archives: to
/// write one of those is the last act of compressing. Everything else, the
/// marker, the container and the deletions, belongs to the container.
pub open spec fn step_stage(count: nat, index: nat) -> Stage {
    if count >= 1 && index + 1 < (count - 1) / 2 {
        Stage::Compression
    } else {
        Stage::Container
    }
}

/// What the failure of step `index` of a plan of `count` steps becomes: the
/// cause as it came, under the stage of the step.
pub fn step_failure(count: usize, index: usize, cause: std::io::Error) -> (e: BuildError)
    ensures
        e == (match step_stage(count as nat, index as nat) {
            Stage::Compression => BuildError::Compression(cause),
            _ => BuildError::Container(cause),
        }),
        e.spec_stage() == step_stage(count as nat, index as nat),
{
    if count >= 1 && index < (count - 1) / 2 && index + 1 < (count - 1) / 2 {
        BuildError::Compression(cause)
    } else {
        BuildError::Container(cause)
    }
}

/// Lays out the steps that put the package on disk.
pub fn output_ops(package: Package) -> (ops: Vec<FileOp>)
    ensures
        ops_view(ops@) == planned_ops(artifacts_view(package.parts@), package.deb@),
{
    let ghost parts = artifacts_view(package.parts@);
    let mut names: Vec<String> = Vec::new();
    let mut ops: Vec<FileOp> = Vec::new();
    for part in it: package.parts
        invariant
            it.seq() == package.parts@,
            parts == artifacts_view(package.parts@),
            names@.len() == it.index(),
            ops@.len() == it.index(),
            forall|k: int| 0 <= k < it.index() ==> (#[trigger] names@[k])@ == parts[k].name,
            forall|k: int| 0 <= k < it.index() ==> (#[trigger] ops@[k])@ == FileOpView::Write(parts[k]),
    {
        names.push(part.name.clone());
        ops.push(FileOp::Write(part));
    }
    ops.push(FileOp::Write(package.deb));
    let ghost written = ops@;
    let count = names.len();
    for name in it: names
        invariant
            it.seq() == names@,
            count == names@.len(),
            count == parts.len(),
            written.len() == count + 1,
            ops@.len() == written.len() + it.index(),
            forall|k: int| 0 <= k < written.len() ==> ops@[k] == written[k],
            forall|k: int| 0 <= k < count ==> (#[trigger] names@[k])@ == parts[k].name,
            forall|k: int|
                0 <= k < it.index() ==> (#[trigger] ops@[written.len() + k])@ == FileOpView::Remove(
                    parts[k].name,
                ),
    {
        ops.push(FileOp::Remove(name));
    }
    proof {
        let target = planned_ops(parts, package.deb@);
        assert forall|k: int| 0 <= k < target.len() implies ops_view(ops@)[k] == target[k] by {
            if k < count {
                assert(ops@[k] == written[k]);
            } else if k == count {
                assert(ops@[k] == written[k]);
            } else {
                assert(ops@[written.len() + (k - count - 1)]@ == FileOpView::Remove(
                    parts[k - count - 1].name,
                ));
            }
        }
    }
    ops
}

} // verus!
