//! The tar stream of a directory tree.
//!
//! The walk over the tree and the choice of what it skips are this module's
//! own; the bytes of each header are the `tar` crate's.

use vstd::prelude::*;
use crate::error::BuildError;
use crate::exclusion::is_blocked;
use crate::path::{CanonPath, joined, paths_view};
use crate::tree::{Content, ContentView, Entry, EntryView, entries_view, entry_view, lemma_entries_view};

verus! {

/// Whether an archive member is a regular file or a directory.
#[derive(Debug, Clone, Copy, PartialEq, Eq, Structural)]
pub enum EntryKind {
    File,
    Dir,
}

/// One member of an archive: a name relative to the root of the tree, never
/// an absolute path, and the entry that is archived under it.
#[derive(Debug)]
pub struct ArchiveEntry<'a> {
    /// The components of the name, from the root of the tree down.
    pub path: CanonPath,
    /// Where the metadata and the bytes come from.
    pub source: &'a Entry,
}

/// The mathematical value of an [`ArchiveEntry`]: the name, with the metadata
/// and the bytes that go under it.
pub struct ArchiveEntryView {
    /// The components of the name, from the root of the tree down.
    pub path: Seq<Seq<char>>,
    pub is_dir: bool,
    pub mode: u32,
    pub uid: u64,
    pub gid: u64,
    pub mtime: u64,
    /// The file's bytes; empty for a directory.
    pub data: Seq<u8>,
}

/// The member that stands for the entry `e` under the relative name `path`.
pub open spec fn member_of(path: Seq<Seq<char>>, e: EntryView) -> ArchiveEntryView {
    ArchiveEntryView {
        path,
        is_dir: e.content is Dir,
        mode: e.mode,
        uid: e.uid,
        gid: e.gid,
        mtime: e.mtime,
        data: match e.content {
            ContentView::File(bytes) => bytes,
            ContentView::Dir(_) => Seq::empty(),
        },
    }
}

impl<'a> View for ArchiveEntry<'a> {
    type V = ArchiveEntryView;

    open spec fn view(&self) -> ArchiveEntryView {
        member_of(self.path@, entry_view(*self.source))
    }
}

/// The value of each member of a sequence.
pub open spec fn members_view(s: Seq<ArchiveEntry>) -> Seq<ArchiveEntryView> {
    Seq::new(s.len(), |i: int| s[i]@)
}

/// The members that a walk over `entries` yields, in order.
///
/// `dir` is the path of the directory that holds the entries and `rel` the
/// same directory relative to the root of the tree. An entry whose path is in
/// `blocklist` is skipped with everything below it; any other directory comes
/// before its own entries, and entries come in the order given.
pub open spec fn walk(
    entries: Seq<EntryView>,
    dir: Seq<Seq<char>>,
    rel: Seq<Seq<char>>,
    blocklist: Seq<Seq<Seq<char>>>,
) -> Seq<ArchiveEntryView>
    decreases entries,
{
    if entries.len() == 0 {
        Seq::empty()
    } else {
        walk(entries.drop_last(), dir, rel, blocklist) + walk_entry(
            entries.last(),
            dir,
            rel,
            blocklist,
        )
    }
}

/// The members that the entry `e` of the directory `dir` yields.
pub open spec fn walk_entry(
    e: EntryView,
    dir: Seq<Seq<char>>,
    rel: Seq<Seq<char>>,
    blocklist: Seq<Seq<Seq<char>>>,
) -> Seq<ArchiveEntryView>
    decreases e,
{
    if blocklist.contains(dir.push(e.name)) {
        Seq::empty()
    } else {
        match e.content {
            ContentView::File(_) => seq![member_of(rel.push(e.name), e)],
            ContentView::Dir(children) => seq![member_of(rel.push(e.name), e)] + walk(
                children,
                dir.push(e.name),
                rel.push(e.name),
                blocklist,
            ),
        }
    }
}

/// `n` zero bytes.
pub open spec fn zeros(n: nat) -> Seq<u8> {
    Seq::new(n, |i: int| 0u8)
}

/// How many bytes fill `len` bytes up to a whole number of 512-byte blocks.
pub open spec fn block_padding(len: nat) -> nat {
    ((512 - len % 512) % 512) as nat
}

/// The header blocks that the `tar` crate writes in front of a member's data:
/// a GNU header filled from the arguments, with a long-name record before it
/// where the name does not fit.
pub uninterp spec fn tar_header(
    path: Seq<char>,
    is_dir: bool,
    mode: u32,
    uid: u64,
    gid: u64,
    mtime: u64,
    size: nat,
) -> Seq<u8>;

/// Whether the `tar` crate takes the name for a member. It turns down a name
/// that it cannot put into a header; nothing but the name decides.
pub uninterp spec fn tar_accepts(path: Seq<char>) -> bool;

/// Whether the `tar` crate takes the name of every member.
pub open spec fn tar_takes(members: Seq<ArchiveEntryView>) -> bool {
    forall|i: int| 0 <= i < members.len() ==> tar_accepts(joined(#[trigger] members[i].path))
}

/// The bytes of one member: its header, its data, and zeros up to the next
/// block boundary.
pub open spec fn tar_member(m: ArchiveEntryView) -> Seq<u8> {
    tar_header(joined(m.path), m.is_dir, m.mode, m.uid, m.gid, m.mtime, m.data.len()) + m.data
        + zeros(block_padding(m.data.len()))
}

/// The bytes of the members, one after the other.
pub open spec fn tar_members(members: Seq<ArchiveEntryView>) -> Seq<u8>
    decreases members.len(),
{
    if members.len() == 0 {
        Seq::empty()
    } else {
        tar_members(members.drop_last()) + tar_member(members.last())
    }
}

/// A whole tar stream: the members, then two blocks of zeros.
pub open spec fn tar_archive(members: Seq<ArchiveEntryView>) -> Seq<u8> {
    tar_members(members) + zeros(1024)
}

/// A tar writer of the `tar` crate that collects its output in memory.
#[verifier::external_body]
pub struct TarSink {
    inner: tar::Builder<Vec<u8>>,
}

/// The bytes that the writer has put out so far.
pub uninterp spec fn tar_written(sink: TarSink) -> Seq<u8>;

/// `tar::Builder::new` over an empty buffer: nothing is written yet.
#[verifier::external_body]
fn tar_new() -> (sink: TarSink)
    ensures
        tar_written(sink) == Seq::<u8>::empty(),
{
    TarSink { inner: tar::Builder::new(Vec::new()) }
}

/// `tar::Builder::append_data` with a fresh GNU header that carries the given
/// metadata. The writer collects in memory, so the call fails only where the
/// name cannot be put into the header, and whether it can is a matter of the
/// name alone. Where it succeeds, the writer has put out the header blocks
/// for the name, then the data, then zeros up to the next block boundary.
/// Nothing is claimed of the writer where it fails.
#[verifier::external_body]
fn tar_append(
    sink: &mut TarSink,
    path: &str,
    kind: EntryKind,
    mode: u32,
    uid: u64,
    gid: u64,
    mtime: u64,
    data: &[u8],
) -> (r: Result<(), std::io::Error>)
    ensures
        r is Ok <==> tar_accepts(path@),
        r is Ok ==> tar_written(*final(sink)) == tar_written(*old(sink)) + tar_header(
            path@,
            kind is Dir,
            mode,
            uid,
            gid,
            mtime,
            data@.len(),
        ) + data@ + zeros(block_padding(data@.len())),
{
    let mut header = tar::Header::new_gnu();
    header.set_entry_type(
        match kind {
            EntryKind::File => tar::EntryType::Regular,
            EntryKind::Dir => tar::EntryType::Directory,
        },
    );
    header.set_mode(mode);
    header.set_uid(uid);
    header.set_gid(gid);
    header.set_mtime(mtime);
    header.set_size(data.len() as u64);
    sink.inner.append_data(&mut header, path, data)
}

/// `tar::Builder::into_inner`: it writes the two zero blocks that end a tar
/// stream and hands the buffer out. Writing into memory does not fail, so it
/// succeeds, and the buffer holds what was written, closed by the two blocks.
#[verifier::external_body]
fn tar_finish(sink: TarSink) -> (r: Result<Vec<u8>, std::io::Error>)
    ensures
        r is Ok,
        r matches Ok(bytes) ==> bytes@ == tar_written(sink) + zeros(1024),
{
    sink.inner.into_inner()
}

/// Adds the members of a walk over `entries` to the end of `out`.
fn collect_members<'a>(
    entries: &'a Vec<Entry>,
    dir: &CanonPath,
    rel: &CanonPath,
    blocklist: &Vec<CanonPath>,
    out: &mut Vec<ArchiveEntry<'a>>,
)
    ensures
        members_view(final(out)@) == members_view(old(out)@) + walk(
            entries_view(entries@),
            dir@,
            rel@,
            paths_view(blocklist@),
        ),
    decreases entries,
{
    let ghost views = entries_view(entries@);
    let ghost start = members_view(out@);
    let ghost list = paths_view(blocklist@);
    proof {
        lemma_entries_view(entries@);
    }
    let mut i: usize = 0;
    while i < entries.len()
        invariant
            i <= entries.len(),
            views == entries_view(entries@),
            views.len() == entries.len(),
            forall|k: int| 0 <= k < entries.len() ==> #[trigger] views[k] == entry_view(entries[k]),
            list == paths_view(blocklist@),
            members_view(out@) == start + walk(views.take(i as int), dir@, rel@, list),
        decreases entries.len() - i,
    {
        let e = &entries[i];
        let ghost before = members_view(out@);
        let ghost here = walk_entry(views[i as int], dir@, rel@, list);
        proof {
            assert(views.take(i as int + 1).drop_last() =~= views.take(i as int));
        }
        let at = dir.child(e.name.as_str());
        if !is_blocked(blocklist, &at) {
            let below = rel.child(e.name.as_str());
            let ghost member = member_of(below@, views[i as int]);
            match &e.content {
                Content::File(_) => {
                    out.push(ArchiveEntry { path: below, source: e });
                    assert(members_view(out@) =~= before + seq![member]);
                },
                Content::Dir(children) => {
                    let deeper = below.duplicate();
                    out.push(ArchiveEntry { path: below, source: e });
                    assert(members_view(out@) =~= before + seq![member]);
                    collect_members(children, &at, &deeper, blocklist, out);
                },
            }
        }
        assert(members_view(out@) =~= before + here);
        i = i + 1;
    }
    proof {
        assert(views.take(i as int) =~= views);
    }
}

/// Walks the directory `dir`, whose direct entries are `entries`, and lists
/// what goes into its archive.
///
/// An entry whose path is in `blocklist` is left out with everything below
/// it. Every member is named relative to `dir`. The list is not sorted: a
/// directory comes before its own entries, and entries come in the order in
/// which they were handed in.
pub fn walk_tree<'a>(entries: &'a Vec<Entry>, dir: &CanonPath, blocklist: &Vec<CanonPath>) -> (members:
    Vec<ArchiveEntry<'a>>)
    ensures
        members_view(members@) == walk(
            entries_view(entries@),
            dir@,
            Seq::<Seq<char>>::empty(),
            paths_view(blocklist@),
        ),
{
    let mut members: Vec<ArchiveEntry<'a>> = Vec::new();
    let top = CanonPath::new();
    collect_members(entries, dir, &top, blocklist, &mut members);
    assert(Seq::<ArchiveEntryView>::empty() + walk(
        entries_view(entries@),
        dir@,
        top@,
        paths_view(blocklist@),
    ) =~= walk(entries_view(entries@), dir@, top@, paths_view(blocklist@)));
    members
}

/// Appends one member to the writer.
fn append_member(sink: &mut TarSink, member: &ArchiveEntry) -> (r: Result<(), std::io::Error>)
    ensures
        r is Ok <==> tar_accepts(joined(member@.path)),
        r is Ok ==> tar_written(*final(sink)) == tar_written(*old(sink)) + tar_member(member@),
{
    let name = member.path.join();
    let e = member.source;
    match &e.content {
        Content::File(bytes) => tar_append(
            sink,
            name.as_str(),
            EntryKind::File,
            e.mode,
            e.uid,
            e.gid,
            e.mtime,
            bytes.as_slice(),
        ),
        Content::Dir(_) => {
            let none: Vec<u8> = Vec::new();
            let r = tar_append(
                sink,
                name.as_str(),
                EntryKind::Dir,
                e.mode,
                e.uid,
                e.gid,
                e.mtime,
                none.as_slice(),
            );
            r
        },
    }
}

/// Writes the members to a tar stream, in the order given. The first name
/// that the writer turns down ends the stream.
fn write_members(members: &Vec<ArchiveEntry>) -> (r: Result<Vec<u8>, std::io::Error>)
    ensures
        r is Ok <==> tar_takes(members_view(members@)),
        r matches Ok(bytes) ==> bytes@ == tar_archive(members_view(members@)),
{
    let mut sink = tar_new();
    let ghost views = members_view(members@);
    let mut i: usize = 0;
    while i < members.len()
        invariant
            i <= members.len(),
            views == members_view(members@),
            tar_written(sink) == tar_members(views.take(i as int)),
            forall|k: int| 0 <= k < i ==> tar_accepts(joined(#[trigger] views[k].path)),
        decreases members.len() - i,
    {
        proof {
            assert(views.take(i as int + 1).drop_last() =~= views.take(i as int));
        }
        match append_member(&mut sink, &members[i]) {
            Ok(()) => {},
            Err(e) => {
                assert(!tar_accepts(joined(views[i as int].path)));
                return Err(e);
            },
        }
        i = i + 1;
    }
    proof {
        assert(views.take(i as int) =~= views);
    }
    tar_finish(sink)
}

/// What a finished tar stream, or the failure of its writer, becomes.
pub fn archive_outcome(outcome: Result<Vec<u8>, std::io::Error>) -> (r: Result<Vec<u8>, BuildError>)
    ensures
        match outcome {
            Ok(bytes) => r == Ok::<Vec<u8>, BuildError>(bytes),
            Err(e) => r == Err::<Vec<u8>, BuildError>(BuildError::Archive(e)),
        },
{
    match outcome {
        Ok(bytes) => Ok(bytes),
        Err(e) => Err(BuildError::Archive(e)),
    }
}

/// Writes the tar stream of the directory `dir`, whose direct entries are
/// `entries`, leaving out what `blocklist` names: the stream of the members
/// that [`walk_tree`] lists.
///
/// The stream is written exactly when the tar writer takes the name of every
/// member; otherwise the writer's error comes back.
pub fn tar_stream(entries: &Vec<Entry>, dir: &CanonPath, blocklist: &Vec<CanonPath>) -> (r: Result<
    Vec<u8>,
    BuildError,
>)
    ensures
        ({
            let members = walk(
                entries_view(entries@),
                dir@,
                Seq::<Seq<char>>::empty(),
                paths_view(blocklist@),
            );
            match r {
                Ok(bytes) => tar_takes(members) && bytes@ == tar_archive(members),
                Err(e) => !tar_takes(members) && e is Archive,
            }
        }),
{
    let members = walk_tree(entries, dir, blocklist);
    archive_outcome(write_members(&members))
}

} // verus!
