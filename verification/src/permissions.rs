//! Ownership and mode of the entries that go into a package.
//!
//! Only the direct entries of the two trees are normalised. Entries further
//! down keep the ownership and mode they were read with.

use vstd::prelude::*;
use crate::path::CanonPath;
use crate::text::str_eq;
use crate::tree::{Entry, EntryView, Tree, TreeView, entries_view, entry_view, lemma_entries_view};

verus! {

/// The entry with owner and group 0.
pub open spec fn root_owned(e: EntryView) -> EntryView {
    EntryView { name: e.name, mode: e.mode, uid: 0, gid: 0, mtime: e.mtime, content: e.content }
}

/// The mode of a direct entry of the control directory: the metadata file
/// `control` is readable, everything else is a maintainer script and must be
/// executable.
pub open spec fn control_mode(name: Seq<char>) -> u32 {
    if name == "control"@ {
        0o644
    } else {
        0o755
    }
}

/// The entry as it ships in the control archive.
pub open spec fn control_normal(e: EntryView) -> EntryView {
    EntryView {
        name: e.name,
        mode: control_mode(e.name),
        uid: 0,
        gid: 0,
        mtime: e.mtime,
        content: e.content,
    }
}

/// The direct entries of the payload root after normalisation.
pub open spec fn normalized_root(entries: Seq<EntryView>) -> Seq<EntryView> {
    Seq::new(entries.len(), |i: int| root_owned(entries[i]))
}

/// The direct entries of the control directory after normalisation.
pub open spec fn normalized_control(entries: Seq<EntryView>) -> Seq<EntryView> {
    Seq::new(entries.len(), |i: int| control_normal(entries[i]))
}

/// The mode of a direct entry of the control directory.
pub fn control_mode_of(name: &str) -> (mode: u32)
    ensures
        mode == control_mode(name@),
{
    if str_eq(name, "control") {
        0o644
    } else {
        0o755
    }
}

/// Gives every direct entry of the payload root to owner and group 0.
pub fn normalize_root(entries: Vec<Entry>) -> (out: Vec<Entry>)
    ensures
        entries_view(out@) == normalized_root(entries_view(entries@)),
{
    let mut out: Vec<Entry> = Vec::new();
    for e in it: entries
        invariant
            it.seq() == entries@,
            out@.len() == it.index(),
            forall|k: int|
                0 <= k < out@.len() ==> entry_view(#[trigger] out@[k]) == root_owned(
                    entry_view(entries@[k]),
                ),
    {
        out.push(
            Entry { name: e.name, mode: e.mode, uid: 0, gid: 0, mtime: e.mtime, content: e.content },
        );
    }
    proof {
        lemma_entries_view(out@);
        lemma_entries_view(entries@);
    }
    out
}

/// Gives every direct entry of the control directory its mode, and owner and
/// group 0.
pub fn normalize_control(entries: Vec<Entry>) -> (out: Vec<Entry>)
    ensures
        entries_view(out@) == normalized_control(entries_view(entries@)),
{
    let mut out: Vec<Entry> = Vec::new();
    for e in it: entries
        invariant
            it.seq() == entries@,
            out@.len() == it.index(),
            forall|k: int|
                0 <= k < out@.len() ==> entry_view(#[trigger] out@[k]) == control_normal(
                    entry_view(entries@[k]),
                ),
    {
        let mode = control_mode_of(e.name.as_str());
        out.push(Entry { name: e.name, mode, uid: 0, gid: 0, mtime: e.mtime, content: e.content });
    }
    proof {
        lemma_entries_view(out@);
        lemma_entries_view(entries@);
    }
    out
}

/// One change to make on disk: the owner and group of a path, and its mode
/// where one is given.
#[derive(Debug)]
pub struct PermissionChange {
    pub path: CanonPath,
    /// The permission bits to set; `None` leaves the mode as it is.
    pub mode: Option<u32>,
    pub uid: u32,
    pub gid: u32,
}

/// The mathematical value of a [`PermissionChange`].
pub struct PermissionChangeView {
    pub path: Seq<Seq<char>>,
    pub mode: Option<u32>,
    pub uid: u32,
    pub gid: u32,
}

impl View for PermissionChange {
    type V = PermissionChangeView;

    open spec fn view(&self) -> PermissionChangeView {
        PermissionChangeView { path: self.path@, mode: self.mode, uid: self.uid, gid: self.gid }
    }
}

/// The value of each change of a sequence.
pub open spec fn changes_view(s: Seq<PermissionChange>) -> Seq<PermissionChangeView> {
    Seq::new(s.len(), |i: int| s[i]@)
}

/// The change for a direct entry of the payload root: owner and group 0.
pub open spec fn root_change(dir: Seq<Seq<char>>, e: EntryView) -> PermissionChangeView {
    PermissionChangeView { path: dir.push(e.name), mode: None, uid: 0, gid: 0 }
}

/// The change for a direct entry of the control directory: its mode, then
/// owner and group 0.
pub open spec fn control_change(dir: Seq<Seq<char>>, e: EntryView) -> PermissionChangeView {
    PermissionChangeView {
        path: dir.push(e.name),
        mode: Some(control_mode(e.name)),
        uid: 0,
        gid: 0,
    }
}

/// The changes that bring both trees on disk to their normalised state: one
/// for each direct entry of the payload root, then one for each direct entry
/// of the control directory, in the order of the entries.
pub open spec fn planned_changes(root: TreeView, control: TreeView) -> Seq<PermissionChangeView> {
    Seq::new(root.entries.len(), |i: int| root_change(root.path, root.entries[i])) + Seq::new(
        control.entries.len(),
        |i: int| control_change(control.path, control.entries[i]),
    )
}

/// Plans the changes of ownership and mode without making any.
pub fn permission_plan(root: &Tree, control: &Tree) -> (plan: Vec<PermissionChange>)
    ensures
        changes_view(plan@) == planned_changes(root@, control@),
{
    let mut plan: Vec<PermissionChange> = Vec::new();
    let ghost first = Seq::new(root@.entries.len(), |i: int| root_change(root@.path, root@.entries[i]));
    let ghost second = Seq::new(
        control@.entries.len(),
        |i: int| control_change(control@.path, control@.entries[i]),
    );
    proof {
        lemma_entries_view(root.entries@);
        lemma_entries_view(control.entries@);
    }
    let mut i: usize = 0;
    while i < root.entries.len()
        invariant
            i <= root.entries.len(),
            root@.entries.len() == root.entries.len(),
            forall|k: int|
                0 <= k < root.entries.len() ==> #[trigger] root@.entries[k] == entry_view(
                    root.entries[k],
                ),
            first == Seq::new(root@.entries.len(), |i: int| root_change(root@.path, root@.entries[i])),
            changes_view(plan@) == first.take(i as int),
        decreases root.entries.len() - i,
    {
        let ghost before = plan@;
        let path = root.path.child(root.entries[i].name.as_str());
        plan.push(PermissionChange { path, mode: None, uid: 0, gid: 0 });
        proof {
            assert(changes_view(before).len() == i);
            assert forall|k: int| 0 <= k < i + 1 implies changes_view(plan@)[k] == first.take(
                i as int + 1,
            )[k] by {}
        }
        i = i + 1;
    }
    let mut j: usize = 0;
    while j < control.entries.len()
        invariant
            j <= control.entries.len(),
            control@.entries.len() == control.entries.len(),
            forall|k: int|
                0 <= k < control.entries.len() ==> #[trigger] control@.entries[k] == entry_view(
                    control.entries[k],
                ),
            second == Seq::new(
                control@.entries.len(),
                |i: int| control_change(control@.path, control@.entries[i]),
            ),
            changes_view(plan@) == first + second.take(j as int),
        decreases control.entries.len() - j,
    {
        let name = control.entries[j].name.as_str();
        let path = control.path.child(name);
        let ghost before = plan@;
        plan.push(PermissionChange { path, mode: Some(control_mode_of(name)), uid: 0, gid: 0 });
        proof {
            let target = first + second.take(j as int + 1);
            assert(changes_view(before).len() == first.len() + j);
            assert forall|k: int| 0 <= k < target.len() implies changes_view(plan@)[k]
                == target[k] by {
                if k < first.len() + j {
                    assert(changes_view(before)[k] == (first + second.take(j as int))[k]);
                }
            }
        }
        j = j + 1;
    }
    plan
}

} // verus!
