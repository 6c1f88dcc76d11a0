//! Directory trees as plain values.

use vstd::prelude::*;
use crate::path::CanonPath;
use crate::text::str_eq;

verus! {

/// What an entry of a directory holds. A tree is made of regular files and
/// directories; a link stands for what it leads to, and nothing else on disk
/// (a pipe, a socket, a device) has a place in it.
#[derive(Debug)]
pub enum Content {
    /// A regular file and its bytes.
    File(Vec<u8>),
    /// A directory and its direct entries, in the order they were read.
    Dir(Vec<Entry>),
}

/// One entry of a directory: its base name, its metadata and what it holds.
#[derive(Debug)]
pub struct Entry {
    pub name: String,
    /// Permission bits.
    pub mode: u32,
    pub uid: u64,
    pub gid: u64,
    /// Last modification, in seconds since the epoch.
    pub mtime: u64,
    pub content: Content,
}

/// The mathematical value of a [`Content`].
pub enum ContentView {
    File(Seq<u8>),
    Dir(Seq<EntryView>),
}

/// The mathematical value of an [`Entry`].
pub struct EntryView {
    pub name: Seq<char>,
    pub mode: u32,
    pub uid: u64,
    pub gid: u64,
    pub mtime: u64,
    pub content: ContentView,
}

/// The value of an entry: its fields, with the value of everything below it.
pub open spec fn entry_view(e: Entry) -> EntryView
    decreases e,
{
    EntryView {
        name: e.name@,
        mode: e.mode,
        uid: e.uid,
        gid: e.gid,
        mtime: e.mtime,
        content: match e.content {
            Content::File(bytes) => ContentView::File(bytes@),
            Content::Dir(children) => ContentView::Dir(entries_view(children@)),
        },
    }
}

/// The value of each entry of a sequence.
pub open spec fn entries_view(s: Seq<Entry>) -> Seq<EntryView>
    decreases s,
{
    if s.len() == 0 {
        Seq::empty()
    } else {
        entries_view(s.drop_last()).push(entry_view(s.last()))
    }
}

impl View for Entry {
    type V = EntryView;

    open spec fn view(&self) -> EntryView {
        entry_view(*self)
    }
}

/// The values of a sequence of entries are the values of its entries, one
/// for one.
pub proof fn lemma_entries_view(s: Seq<Entry>)
    ensures
        entries_view(s).len() == s.len(),
        forall|i: int| 0 <= i < s.len() ==> #[trigger] entries_view(s)[i] == entry_view(s[i]),
    decreases s.len(),
{
    if s.len() > 0 {
        lemma_entries_view(s.drop_last());
    }
}

/// Whether a name can stand for one entry of a directory: it is not empty,
/// is neither `.` nor `..`, and holds no `/` and no NUL.
pub open spec fn valid_name(name: Seq<char>) -> bool {
    &&& name.len() > 0
    &&& name != seq!['.']
    &&& name != seq!['.', '.']
    &&& forall|k: int| 0 <= k < name.len() ==> name[k] != '/' && name[k] != '\0'
}

/// Whether a name can stand for one entry of a directory.
pub fn is_valid_name(name: &str) -> (r: bool)
    ensures
        r == valid_name(name@),
{
    let mut clean = true;
    for c in it: name.chars()
        invariant
            it.seq() == name@,
            clean == (forall|k: int| 0 <= k < it.index() ==> name@[k] != '/' && name@[k] != '\0'),
    {
        if c == '/' || c == '\0' {
            clean = false;
        }
    }
    proof {
        reveal_strlit("");
        reveal_strlit(".");
        reveal_strlit("..");
        assert("."@ =~= seq!['.']);
        assert(".."@ =~= seq!['.', '.']);
        assert(name@.len() == 0 ==> name@ =~= ""@);
    }
    clean && !str_eq(name, "") && !str_eq(name, ".") && !str_eq(name, "..")
}

/// The first name, in the order of a walk that visits a directory before its
/// entries, that is not a valid name; `None` where every name is valid.
pub open spec fn first_invalid_name(entries: Seq<EntryView>) -> Option<Seq<char>>
    decreases entries,
{
    if entries.len() == 0 {
        None
    } else {
        match first_invalid_name(entries.drop_last()) {
            Some(name) => Some(name),
            None => {
                let e = entries.last();
                if !valid_name(e.name) {
                    Some(e.name)
                } else {
                    match e.content {
                        ContentView::File(_) => None,
                        ContentView::Dir(children) => first_invalid_name(children),
                    }
                }
            },
        }
    }
}

/// Whether every name in the forest, at every depth, is valid.
pub open spec fn names_valid(entries: Seq<EntryView>) -> bool {
    first_invalid_name(entries) is None
}

/// Looks for a name that cannot be archived, visiting a directory before its
/// entries.
pub fn find_invalid_name(entries: &Vec<Entry>) -> (r: Option<String>)
    ensures
        match r {
            Some(name) => first_invalid_name(entries_view(entries@)) == Some(name@),
            None => first_invalid_name(entries_view(entries@)) is None,
        },
    decreases entries,
{
    let ghost views = entries_view(entries@);
    proof {
        lemma_entries_view(entries@);
    }
    let mut i: usize = 0;
    while i < entries.len()
        invariant
            i <= entries.len(),
            views == entries_view(entries@),
            views.len() == entries.len(),
            forall|k: int| 0 <= k < entries.len() ==> #[trigger] views[k] == entry_view(entries[k]),
            first_invalid_name(views.take(i as int)) is None,
        decreases entries.len() - i,
    {
        let e = &entries[i];
        proof {
            assert(views.take(i as int + 1).drop_last() =~= views.take(i as int));
            lemma_first_invalid_prefix(views, i as int + 1);
        }
        if !is_valid_name(e.name.as_str()) {
            return Some(e.name.clone());
        }
        match &e.content {
            Content::File(_) => {},
            Content::Dir(children) => {
                let inner = find_invalid_name(children);
                if inner.is_some() {
                    return inner;
                }
            },
        }
        i = i + 1;
    }
    proof {
        assert(views.take(i as int) =~= views);
    }
    None
}

/// Once a prefix of a forest holds an invalid name, that name is the first
/// invalid name of the whole forest.
pub proof fn lemma_first_invalid_prefix(entries: Seq<EntryView>, n: int)
    requires
        0 <= n <= entries.len(),
    ensures
        first_invalid_name(entries.take(n)) is Some ==> first_invalid_name(entries)
            == first_invalid_name(entries.take(n)),
    decreases entries.len(),
{
    if n < entries.len() {
        lemma_first_invalid_prefix(entries.drop_last(), n);
        assert(entries.drop_last().take(n) =~= entries.take(n));
    } else {
        assert(entries.take(n) =~= entries);
    }
}

/// A directory tree: the canonical path of the directory and its direct
/// entries, each with everything below it.
#[derive(Debug)]
pub struct Tree {
    pub path: CanonPath,
    pub entries: Vec<Entry>,
}

/// The mathematical value of a [`Tree`].
pub struct TreeView {
    pub path: Seq<Seq<char>>,
    pub entries: Seq<EntryView>,
}

impl View for Tree {
    type V = TreeView;

    open spec fn view(&self) -> TreeView {
        TreeView { path: self.path@, entries: entries_view(self.entries@) }
    }
}

} // verus!
