//! The `ar` container that holds a package's parts.

use vstd::prelude::*;
use crate::error::BuildError;

verus! {

/// A named run of bytes: a file that a build produces.
#[derive(Debug)]
pub struct Artifact {
    pub name: String,
    pub bytes: Vec<u8>,
}

/// The mathematical value of an [`Artifact`].
pub struct ArtifactView {
    pub name: Seq<char>,
    pub bytes: Seq<u8>,
}

impl View for Artifact {
    type V = ArtifactView;

    open spec fn view(&self) -> ArtifactView {
        ArtifactView { name: self.name@, bytes: self.bytes@ }
    }
}

/// The value of each artifact of a sequence.
pub open spec fn artifacts_view(s: Seq<Artifact>) -> Seq<ArtifactView> {
    Seq::new(s.len(), |i: int| s[i]@)
}

/// The metadata recorded for each member of a container.
#[derive(Debug, Clone, Copy, PartialEq, Eq, Structural)]
pub struct MemberMeta {
    /// Last modification, in seconds since the epoch.
    pub mtime: u64,
    pub uid: u32,
    pub gid: u32,
    pub mode: u32,
}

/// The mode recorded for the members of a package: a regular file, written
/// and read by its owner and read by everyone else.
pub open spec fn member_mode() -> u32 {
    0o100644
}

impl MemberMeta {
    /// The metadata of a member that is a regular file of the usual mode,
    /// last modified at `mtime` and owned by `uid` and `gid`.
    pub fn regular(mtime: u64, uid: u32, gid: u32) -> (meta: MemberMeta)
        ensures
            meta == (MemberMeta { mtime, uid, gid, mode: member_mode() }),
    {
        MemberMeta { mtime, uid, gid, mode: 0o100644 }
    }
}

/// The eight bytes that open every `ar` file: `!<arch>` and a line feed.
pub open spec fn ar_magic() -> Seq<u8> {
    seq![0x21u8, 0x3cu8, 0x61u8, 0x72u8, 0x63u8, 0x68u8, 0x3eu8, 0x0au8]
}

/// What goes in front of the next member: the magic, where nothing has been
/// written yet.
pub open spec fn ar_lead(written: Seq<u8>) -> Seq<u8> {
    if written.len() == 0 {
        ar_magic()
    } else {
        Seq::empty()
    }
}

/// What follows a member's data: a line feed where its length is odd.
pub open spec fn ar_padding(len: nat) -> Seq<u8> {
    if len % 2 == 1 {
        seq![0x0au8]
    } else {
        Seq::empty()
    }
}

/// The header that the `ar` crate writes in front of a member's data.
pub uninterp spec fn ar_header(
    name: Seq<char>,
    mtime: u64,
    uid: u32,
    gid: u32,
    mode: u32,
    size: nat,
) -> Seq<u8>;

/// The bytes of one member: its header, its data and its padding.
pub open spec fn ar_member(m: ArtifactView, meta: MemberMeta) -> Seq<u8> {
    ar_header(m.name, meta.mtime, meta.uid, meta.gid, meta.mode, m.bytes.len()) + m.bytes
        + ar_padding(m.bytes.len())
}

/// The container that holds the members in the order given.
pub open spec fn ar_image(members: Seq<ArtifactView>, meta: MemberMeta) -> Seq<u8>
    decreases members.len(),
{
    if members.len() == 0 {
        Seq::empty()
    } else {
        let before = ar_image(members.drop_last(), meta);
        before + ar_lead(before) + ar_member(members.last(), meta)
    }
}

/// An `ar` writer of the `ar` crate that collects its output in memory.
#[verifier::external_body]
pub struct ArSink {
    inner: ar::Builder<Vec<u8>>,
}

/// The bytes that the writer has put out so far.
pub uninterp spec fn ar_written(sink: ArSink) -> Seq<u8>;

/// `ar::Builder::new` over an empty buffer: nothing is written yet.
#[verifier::external_body]
fn ar_new() -> (sink: ArSink)
    ensures
        ar_written(sink) == Seq::<u8>::empty(),
{
    ArSink { inner: ar::Builder::new(Vec::new()) }
}

/// `ar::Builder::append` with a header made of the name, the metadata and the
/// length of the data. The writer collects in memory and the header's size is
/// the length of the data, so the call succeeds: the writer has put out the
/// magic if this is the first member, then the header, the data, and a line
/// feed after data of odd length.
#[verifier::external_body]
fn ar_append(sink: &mut ArSink, name: &str, meta: &MemberMeta, data: &[u8]) -> (r: Result<
    (),
    std::io::Error,
>)
    ensures
        r is Ok,
        r is Ok ==> ar_written(*final(sink)) == ar_written(*old(sink)) + ar_lead(
            ar_written(*old(sink)),
        ) + ar_header(name@, meta.mtime, meta.uid, meta.gid, meta.mode, data@.len()) + data@
            + ar_padding(data@.len()),
{
    let mut header = ar::Header::new(name.as_bytes().to_vec(), data.len() as u64);
    header.set_mtime(meta.mtime);
    header.set_uid(meta.uid);
    header.set_gid(meta.gid);
    header.set_mode(meta.mode);
    sink.inner.append(&header, data)
}

/// `ar::Builder::into_inner`: it hands the buffer out, which holds what was
/// written.
#[verifier::external_body]
fn ar_finish(sink: ArSink) -> (r: Result<Vec<u8>, std::io::Error>)
    ensures
        r is Ok,
        r matches Ok(bytes) ==> bytes@ == ar_written(sink),
{
    sink.inner.into_inner()
}

/// What a finished container, or the failure of its writer, becomes.
pub fn container_outcome(outcome: Result<Vec<u8>, std::io::Error>) -> (r: Result<
    Vec<u8>,
    BuildError,
>)
    ensures
        match outcome {
            Ok(bytes) => r == Ok::<Vec<u8>, BuildError>(bytes),
            Err(e) => r == Err::<Vec<u8>, BuildError>(BuildError::Container(e)),
        },
{
    match outcome {
        Ok(bytes) => Ok(bytes),
        Err(e) => Err(BuildError::Container(e)),
    }
}

/// Writes the container that holds the members in the order given, each under
/// its name and with the same metadata. The container is written in memory,
/// and that always succeeds.
pub fn assemble(members: &Vec<Artifact>, meta: &MemberMeta) -> (r: Result<Vec<u8>, BuildError>)
    ensures
        r is Ok,
        r matches Ok(bytes) ==> bytes@ == ar_image(artifacts_view(members@), *meta),
{
    let mut sink = ar_new();
    let ghost views = artifacts_view(members@);
    let mut i: usize = 0;
    while i < members.len()
        invariant
            i <= members.len(),
            views == artifacts_view(members@),
            ar_written(sink) == ar_image(views.take(i as int), *meta),
        decreases members.len() - i,
    {
        let m = &members[i];
        proof {
            assert(views.take(i as int + 1).drop_last() =~= views.take(i as int));
        }
        match ar_append(&mut sink, m.name.as_str(), meta, m.bytes.as_slice()) {
            Ok(()) => {},
            Err(e) => {
                return Err(BuildError::Container(e));
            },
        }
        i = i + 1;
    }
    proof {
        assert(views.take(i as int) =~= views);
    }
    container_outcome(ar_finish(sink))
}

} // verus!
