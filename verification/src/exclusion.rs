//! Which paths under the payload root stay out of the data archive.

use vstd::prelude::*;
use crate::path::{CanonPath, paths_view};
use crate::tree::{EntryView, Tree, entries_view, entry_view, lemma_entries_view};

verus! {

/// The paths of the direct entries of the directory `dir`.
pub open spec fn child_paths(dir: Seq<Seq<char>>, entries: Seq<EntryView>) -> Seq<Seq<Seq<char>>> {
    Seq::new(entries.len(), |i: int| dir.push(entries[i].name))
}

/// The paths that the walk over the payload root skips.
///
/// Where the control directory is the root or lies below it, these are the
/// control directory and each of its direct entries, in that order; deeper
/// entries need no mention, since a skipped directory takes everything below
/// it along. Where the control directory lies elsewhere, nothing is skipped.
pub open spec fn exclusion_set(
    root: Seq<Seq<char>>,
    control: Seq<Seq<char>>,
    control_entries: Seq<EntryView>,
) -> Seq<Seq<Seq<char>>> {
    if root.is_prefix_of(control) {
        seq![control] + child_paths(control, control_entries)
    } else {
        Seq::empty()
    }
}

/// Computes the paths that the walk over the payload root skips.
pub fn build_blocklist(root: &CanonPath, control: &Tree) -> (list: Vec<CanonPath>)
    ensures
        paths_view(list@) == exclusion_set(root@, control.path@, entries_view(control.entries@)),
{
    let mut list: Vec<CanonPath> = Vec::new();
    let ghost views = entries_view(control.entries@);
    proof {
        lemma_entries_view(control.entries@);
    }
    if !control.path.starts_with(root) {
        return list;
    }
    list.push(control.path.duplicate());
    let mut i: usize = 0;
    while i < control.entries.len()
        invariant
            i <= control.entries.len(),
            views == entries_view(control.entries@),
            views.len() == control.entries.len(),
            forall|k: int|
                0 <= k < control.entries.len() ==> #[trigger] views[k] == entry_view(
                    control.entries[k],
                ),
            list.len() == i + 1,
            list[0]@ == control.path@,
            forall|k: int|
                1 <= k <= i ==> (#[trigger] list[k])@ == control.path@.push(views[k - 1].name),
        decreases control.entries.len() - i,
    {
        list.push(control.path.child(control.entries[i].name.as_str()));
        i = i + 1;
    }
    list
}

/// Whether the list names exactly this path. A path below a listed one is not
/// itself listed.
pub fn is_blocked(blocklist: &Vec<CanonPath>, path: &CanonPath) -> (r: bool)
    ensures
        r == paths_view(blocklist@).contains(path@),
{
    let mut i: usize = 0;
    while i < blocklist.len()
        invariant
            i <= blocklist.len(),
            forall|k: int| 0 <= k < i ==> paths_view(blocklist@)[k] != path@,
        decreases blocklist.len() - i,
    {
        if blocklist[i].same_as(path) {
            assert(paths_view(blocklist@)[i as int] == path@);
            return true;
        }
        i = i + 1;
    }
    false
}

} // verus!
