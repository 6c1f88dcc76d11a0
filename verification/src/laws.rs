//! What holds of every archive and of every package.

use vstd::prelude::*;
use crate::archive::{ArchiveEntryView, member_of, tar_accepts, tar_takes, walk, walk_entry};
use crate::args::CompressTypeArg;
use crate::compression::CompressType;
use crate::container::{ArtifactView, MemberMeta, ar_image, ar_magic, ar_member};
use crate::error::Stage;
use crate::exclusion::exclusion_set;
use crate::output::{Directory, FileOpView, after_ops, planned_ops, step_stage};
use crate::package::{control_members, data_members, deb_name, package_parts};
use crate::permissions::{control_mode, normalized_control, normalized_root, planned_changes};
use crate::path::joined;
use crate::tree::{ContentView, EntryView, TreeView, names_valid, valid_name};

verus! {

/// The entries below a directory; none below a file.
pub open spec fn children_of(e: EntryView) -> Seq<EntryView> {
    match e.content {
        ContentView::File(_) => Seq::empty(),
        ContentView::Dir(children) => children,
    }
}

/// Whether `pos` leads to an entry of the forest: its first number is an
/// index into `entries`, the next an index into the entries below that one,
/// and so on.
pub open spec fn in_tree(entries: Seq<EntryView>, pos: Seq<int>) -> bool
    decreases pos.len(),
{
    &&& pos.len() > 0
    &&& 0 <= pos[0] < entries.len()
    &&& pos.len() > 1 ==> {
        &&& entries[pos[0]].content is Dir
        &&& in_tree(children_of(entries[pos[0]]), pos.drop_first())
    }
}

/// The entry that `pos` leads to.
pub open spec fn entry_at(entries: Seq<EntryView>, pos: Seq<int>) -> EntryView
    decreases pos.len(),
{
    if pos.len() <= 1 {
        entries[pos[0]]
    } else {
        entry_at(children_of(entries[pos[0]]), pos.drop_first())
    }
}

/// The names on the way to the entry that `pos` leads to, its own name last:
/// the entry's path relative to the directory that holds `entries`.
pub open spec fn names_at(entries: Seq<EntryView>, pos: Seq<int>) -> Seq<Seq<char>>
    decreases pos.len(),
{
    if pos.len() == 0 {
        Seq::empty()
    } else if pos.len() == 1 {
        seq![entries[pos[0]].name]
    } else {
        seq![entries[pos[0]].name] + names_at(children_of(entries[pos[0]]), pos.drop_first())
    }
}

/// Whether neither the path `names` below `dir` nor any directory on the way
/// to it is in the blocklist.
pub open spec fn clear(blocklist: Seq<Seq<Seq<char>>>, dir: Seq<Seq<char>>, names: Seq<Seq<char>>) -> bool {
    forall|k: int| 1 <= k <= names.len() ==> !blocklist.contains(#[trigger] (dir + names.take(k)))
}

/// Whether `m` is the member for an entry of the forest that the blocklist
/// leaves clear, under the entry's own relative path.
pub open spec fn is_member_for(
    m: ArchiveEntryView,
    entries: Seq<EntryView>,
    dir: Seq<Seq<char>>,
    rel: Seq<Seq<char>>,
    blocklist: Seq<Seq<Seq<char>>>,
    pos: Seq<int>,
) -> bool {
    &&& in_tree(entries, pos)
    &&& clear(blocklist, dir, names_at(entries, pos))
    &&& m == member_of(rel + names_at(entries, pos), entry_at(entries, pos))
}

/// A position has as many names on its way as it has numbers.
proof fn lemma_names_len(entries: Seq<EntryView>, pos: Seq<int>)
    ensures
        names_at(entries, pos).len() == pos.len(),
    decreases pos.len(),
{
    if pos.len() > 1 {
        lemma_names_len(children_of(entries[pos[0]]), pos.drop_first());
    }
}

/// A position in a prefix of a forest is the same position in the forest.
proof fn lemma_position_in_prefix(entries: Seq<EntryView>, n: int, pos: Seq<int>)
    requires
        0 <= n <= entries.len(),
        in_tree(entries.take(n), pos),
    ensures
        in_tree(entries, pos),
        entry_at(entries, pos) == entry_at(entries.take(n), pos),
        names_at(entries, pos) == names_at(entries.take(n), pos),
{
    assert(entries.take(n)[pos[0]] == entries[pos[0]]);
}

/// Every entry that the blocklist leaves clear is in the archive, under its
/// own relative path and with its own metadata and bytes.
pub proof fn law_walk_keeps_clear_entries(
    entries: Seq<EntryView>,
    dir: Seq<Seq<char>>,
    rel: Seq<Seq<char>>,
    blocklist: Seq<Seq<Seq<char>>>,
    pos: Seq<int>,
)
    requires
        in_tree(entries, pos),
        clear(blocklist, dir, names_at(entries, pos)),
    ensures
        walk(entries, dir, rel, blocklist).contains(
            member_of(rel + names_at(entries, pos), entry_at(entries, pos)),
        ),
    decreases pos.len(), entries.len(),
{
    let i = pos[0];
    let names = names_at(entries, pos);
    let m = member_of(rel + names, entry_at(entries, pos));
    let front = walk(entries.drop_last(), dir, rel, blocklist);
    let back = walk_entry(entries.last(), dir, rel, blocklist);
    lemma_names_len(entries, pos);
    if i < entries.len() - 1 {
        let shorter = entries.drop_last();
        assert(shorter[i] == entries[i]);
        assert(in_tree(shorter, pos));
        assert(names_at(shorter, pos) == names);
        assert(entry_at(shorter, pos) == entry_at(entries, pos));
        law_walk_keeps_clear_entries(shorter, dir, rel, blocklist, pos);
        let k = choose|k: int| 0 <= k < front.len() && front[k] == m;
        assert((front + back)[k] == m);
    } else {
        let e = entries.last();
        assert(e == entries[i]);
        assert(names.take(1) =~= seq![e.name]);
        assert(dir + names.take(1) =~= dir.push(e.name));
        assert(!blocklist.contains(dir.push(e.name)));
        if pos.len() == 1 {
            assert(rel + names =~= rel.push(e.name));
            assert(back[0] == m);
            assert((front + back)[front.len() as int] == m);
        } else {
            let children = children_of(e);
            let rest = pos.drop_first();
            let below = names_at(children, rest);
            lemma_names_len(children, rest);
            assert(names =~= seq![e.name] + below);
            assert forall|k: int| 1 <= k <= below.len() implies !blocklist.contains(
                #[trigger] (dir.push(e.name) + below.take(k)),
            ) by {
                assert(dir.push(e.name) + below.take(k) =~= dir + names.take(k + 1));
            }
            law_walk_keeps_clear_entries(children, dir.push(e.name), rel.push(e.name), blocklist, rest);
            let inner = walk(children, dir.push(e.name), rel.push(e.name), blocklist);
            assert(rel.push(e.name) + below =~= rel + names);
            assert(entry_at(children, rest) == entry_at(entries, pos));
            let k = choose|k: int| 0 <= k < inner.len() && inner[k] == m;
            assert(back =~= seq![member_of(rel.push(e.name), e)] + inner);
            assert(back[k + 1] == m);
            assert((front + back)[front.len() + k + 1] == m);
        }
    }
}

/// Every member of the archive stands for an entry of the forest that the
/// blocklist leaves clear: nothing is made up, and nothing that is listed, or
/// that lies below something listed, gets in.
pub proof fn law_walk_holds_only_clear_entries(
    entries: Seq<EntryView>,
    dir: Seq<Seq<char>>,
    rel: Seq<Seq<char>>,
    blocklist: Seq<Seq<Seq<char>>>,
    m: ArchiveEntryView,
)
    requires
        walk(entries, dir, rel, blocklist).contains(m),
    ensures
        exists|pos: Seq<int>| is_member_for(m, entries, dir, rel, blocklist, pos),
    decreases entries,
{
    let front = walk(entries.drop_last(), dir, rel, blocklist);
    let back = walk_entry(entries.last(), dir, rel, blocklist);
    let k = choose|k: int| 0 <= k < (front + back).len() && (front + back)[k] == m;
    if k < front.len() {
        let shorter = entries.drop_last();
        assert(front[k] == m);
        law_walk_holds_only_clear_entries(shorter, dir, rel, blocklist, m);
        let pos = choose|pos: Seq<int>| is_member_for(m, shorter, dir, rel, blocklist, pos);
        assert(shorter =~= entries.take(entries.len() - 1));
        lemma_position_in_prefix(entries, entries.len() - 1, pos);
        assert(is_member_for(m, entries, dir, rel, blocklist, pos));
    } else {
        let e = entries.last();
        let last = entries.len() - 1;
        assert(back[k - front.len()] == m);
        assert(!blocklist.contains(dir.push(e.name)));
        let own = member_of(rel.push(e.name), e);
        if k - front.len() == 0 {
            let pos = seq![last];
            assert(m == own);
            let names = names_at(entries, pos);
            assert(names =~= seq![e.name]);
            assert(rel + names =~= rel.push(e.name));
            assert forall|j: int| 1 <= j <= names.len() implies !blocklist.contains(
                #[trigger] (dir + names.take(j)),
            ) by {
                assert(dir + names.take(j) =~= dir.push(e.name));
            }
            assert(is_member_for(m, entries, dir, rel, blocklist, pos));
        } else {
            let children = children_of(e);
            let inner = walk(children, dir.push(e.name), rel.push(e.name), blocklist);
            assert(e.content is Dir);
            assert(back =~= seq![own] + inner);
            assert(inner[k - front.len() - 1] == m);
            law_walk_holds_only_clear_entries(
                children,
                dir.push(e.name),
                rel.push(e.name),
                blocklist,
                m,
            );
            let rest = choose|rest: Seq<int>|
                is_member_for(m, children, dir.push(e.name), rel.push(e.name), blocklist, rest);
            let pos = seq![last] + rest;
            assert(pos.drop_first() =~= rest);
            assert(pos[0] == last);
            let below = names_at(children, rest);
            let names = names_at(entries, pos);
            lemma_names_len(children, rest);
            assert(names =~= seq![e.name] + below);
            assert(rel + names =~= rel.push(e.name) + below);
            assert(entry_at(entries, pos) == entry_at(children, rest));
            assert forall|j: int| 1 <= j <= names.len() implies !blocklist.contains(
                #[trigger] (dir + names.take(j)),
            ) by {
                if j == 1 {
                    assert(dir + names.take(j) =~= dir.push(e.name));
                } else {
                    assert(dir + names.take(j) =~= dir.push(e.name) + below.take(j - 1));
                }
            }
            assert(is_member_for(m, entries, dir, rel, blocklist, pos));
        }
    }
}

/// An archive holds exactly the entries of the forest that the blocklist
/// leaves clear, each under its own relative path and with its own metadata
/// and bytes: unpacking it gives back the same paths and the same contents,
/// but for what is listed, which is absent altogether.
pub proof fn law_archive_is_the_clear_part_of_the_tree(
    entries: Seq<EntryView>,
    dir: Seq<Seq<char>>,
    rel: Seq<Seq<char>>,
    blocklist: Seq<Seq<Seq<char>>>,
)
    ensures
        forall|m: ArchiveEntryView| #[trigger]
            walk(entries, dir, rel, blocklist).contains(m) <==> exists|pos: Seq<int>|
                is_member_for(m, entries, dir, rel, blocklist, pos),
{
    assert forall|m: ArchiveEntryView| #[trigger]
        walk(entries, dir, rel, blocklist).contains(m) implies exists|pos: Seq<int>|
        is_member_for(m, entries, dir, rel, blocklist, pos) by {
        law_walk_holds_only_clear_entries(entries, dir, rel, blocklist, m);
    }
    assert forall|m: ArchiveEntryView|
        (exists|pos: Seq<int>|
            is_member_for(m, entries, dir, rel, blocklist, pos)) implies #[trigger] walk(
        entries,
        dir,
        rel,
        blocklist,
    ).contains(m) by {
        let pos = choose|pos: Seq<int>| is_member_for(m, entries, dir, rel, blocklist, pos);
        law_walk_keeps_clear_entries(entries, dir, rel, blocklist, pos);
    }
}

/// Listing paths never stands in the way of an archive: where the tar writer
/// takes every member of the unfiltered walk, it takes every member of the
/// walk with any blocklist.
pub proof fn law_listing_never_hinders(
    entries: Seq<EntryView>,
    dir: Seq<Seq<char>>,
    rel: Seq<Seq<char>>,
    blocklist: Seq<Seq<Seq<char>>>,
)
    requires
        tar_takes(walk(entries, dir, rel, Seq::<Seq<Seq<char>>>::empty())),
    ensures
        tar_takes(walk(entries, dir, rel, blocklist)),
{
    let none = Seq::<Seq<Seq<char>>>::empty();
    let all = walk(entries, dir, rel, none);
    let some = walk(entries, dir, rel, blocklist);
    assert forall|i: int| 0 <= i < some.len() implies tar_accepts(
        joined(#[trigger] some[i].path),
    ) by {
        let m = some[i];
        law_walk_holds_only_clear_entries(entries, dir, rel, blocklist, m);
        let pos = choose|pos: Seq<int>| is_member_for(m, entries, dir, rel, blocklist, pos);
        law_walk_keeps_clear_entries(entries, dir, rel, none, pos);
        let j = choose|j: int| 0 <= j < all.len() && all[j] == m;
        assert(tar_accepts(joined(all[j].path)));
    }
}

/// No member of an archive lies at a listed path or below one: cut anywhere,
/// the member's name leads to nothing that the blocklist names.
pub proof fn law_walk_skips_listed_paths(
    entries: Seq<EntryView>,
    dir: Seq<Seq<char>>,
    blocklist: Seq<Seq<Seq<char>>>,
    m: ArchiveEntryView,
)
    requires
        walk(entries, dir, Seq::<Seq<char>>::empty(), blocklist).contains(m),
    ensures
        m.path.len() > 0,
        clear(blocklist, dir, m.path),
        !blocklist.contains(dir + m.path),
{
    let none = Seq::<Seq<char>>::empty();
    law_walk_holds_only_clear_entries(entries, dir, none, blocklist, m);
    let pos = choose|pos: Seq<int>| is_member_for(m, entries, dir, none, blocklist, pos);
    lemma_names_len(entries, pos);
    assert(none + names_at(entries, pos) =~= names_at(entries, pos));
    assert(m.path.take(m.path.len() as int) =~= m.path);
}

/// In a forest whose names are all valid, every entry that a position leads
/// to has a valid name, and so has every directory on the way to it.
proof fn lemma_valid_names_at(entries: Seq<EntryView>, pos: Seq<int>)
    requires
        names_valid(entries),
        in_tree(entries, pos),
    ensures
        forall|k: int| 0 <= k < pos.len() ==> valid_name(#[trigger] names_at(entries, pos)[k]),
        names_at(entries, pos).len() == pos.len(),
    decreases pos.len(),
{
    let i = pos[0];
    lemma_names_len(entries, pos);
    lemma_valid_prefix(entries, i + 1);
    let upto = entries.take(i + 1);
    assert(upto.last() == entries[i]);
    assert(valid_name(entries[i].name));
    if pos.len() > 1 {
        let children = children_of(entries[i]);
        assert(names_valid(children));
        lemma_valid_names_at(children, pos.drop_first());
        let names = names_at(entries, pos);
        let below = names_at(children, pos.drop_first());
        assert(names =~= seq![entries[i].name] + below);
        assert forall|k: int| 0 <= k < pos.len() implies valid_name(#[trigger] names[k]) by {
            if k > 0 {
                assert(names[k] == below[k - 1]);
            }
        }
    }
}

/// A prefix of a forest whose names are all valid has only valid names.
proof fn lemma_valid_prefix(entries: Seq<EntryView>, n: int)
    requires
        names_valid(entries),
        0 <= n <= entries.len(),
    ensures
        names_valid(entries.take(n)),
    decreases entries.len(),
{
    if n < entries.len() {
        lemma_valid_prefix(entries.drop_last(), n);
        assert(entries.drop_last().take(n) =~= entries.take(n));
    } else {
        assert(entries.take(n) =~= entries);
    }
}

/// A path written as one string begins with the first character of its first
/// component.
proof fn lemma_joined_first(path: Seq<Seq<char>>)
    requires
        path.len() > 0,
        path[0].len() > 0,
    ensures
        joined(path).len() > 0,
        joined(path)[0] == path[0][0],
    decreases path.len(),
{
    if path.len() > 1 {
        lemma_joined_first(path.drop_last());
    }
}

/// Where every name of a forest is valid, every member of its archive has a
/// relative name: the name is not empty and does not begin with `/`.
pub proof fn law_member_names_are_relative(
    entries: Seq<EntryView>,
    dir: Seq<Seq<char>>,
    blocklist: Seq<Seq<Seq<char>>>,
    m: ArchiveEntryView,
)
    requires
        names_valid(entries),
        walk(entries, dir, Seq::<Seq<char>>::empty(), blocklist).contains(m),
    ensures
        forall|k: int| 0 <= k < m.path.len() ==> valid_name(#[trigger] m.path[k]),
        joined(m.path).len() > 0,
        joined(m.path)[0] != '/',
{
    let none = Seq::<Seq<char>>::empty();
    law_walk_holds_only_clear_entries(entries, dir, none, blocklist, m);
    let pos = choose|pos: Seq<int>| is_member_for(m, entries, dir, none, blocklist, pos);
    lemma_valid_names_at(entries, pos);
    assert(none + names_at(entries, pos) =~= names_at(entries, pos));
    assert(valid_name(m.path[0]));
    lemma_joined_first(m.path);
}

/// Every path of an exclusion set is the control directory or one of its
/// direct entries.
pub proof fn law_blocklist_within_control(
    root: Seq<Seq<char>>,
    control: Seq<Seq<char>>,
    control_entries: Seq<EntryView>,
    i: int,
)
    requires
        0 <= i < exclusion_set(root, control, control_entries).len(),
    ensures
        root.is_prefix_of(control),
        exclusion_set(root, control, control_entries).len() == control_entries.len() + 1,
        i == 0 ==> exclusion_set(root, control, control_entries)[i] == control,
        i > 0 ==> exclusion_set(root, control, control_entries)[i] == control.push(
            control_entries[i - 1].name,
        ),
        root.is_prefix_of(exclusion_set(root, control, control_entries)[i]),
{
    let p = exclusion_set(root, control, control_entries)[i];
    if i > 0 {
        assert(control.push(control_entries[i - 1].name).subrange(0, root.len() as int)
            =~= control.subrange(0, root.len() as int));
    }
}

/// Normalising the direct entries of a forest moves no entry: a position
/// leads to an entry of the same name before and after.
proof fn lemma_normalized_shape(entries: Seq<EntryView>, pos: Seq<int>)
    requires
        in_tree(entries, pos),
    ensures
        in_tree(normalized_root(entries), pos),
        names_at(normalized_root(entries), pos) == names_at(entries, pos),
        in_tree(normalized_control(entries), pos),
        names_at(normalized_control(entries), pos) == names_at(entries, pos),
        pos.len() > 1 ==> entry_at(normalized_root(entries), pos) == entry_at(entries, pos),
        pos.len() > 1 ==> entry_at(normalized_control(entries), pos) == entry_at(entries, pos),
{
    let i = pos[0];
    assert(children_of(normalized_root(entries)[i]) == children_of(entries[i]));
    assert(children_of(normalized_control(entries)[i]) == children_of(entries[i]));
}

/// Where the control directory is the payload root or lies below it, no
/// member of the data archive is the control directory or one of its direct
/// entries.
pub proof fn law_data_archive_leaves_control_out(root: TreeView, control: TreeView, m: ArchiveEntryView)
    requires
        root.path.is_prefix_of(control.path),
        data_members(root, control).contains(m),
    ensures
        root.path + m.path != control.path,
        forall|i: int|
            0 <= i < control.entries.len() ==> root.path + m.path != control.path.push(
                #[trigger] control.entries[i].name,
            ),
{
    let entries = normalized_root(root.entries);
    let blocklist = exclusion_set(root.path, control.path, control.entries);
    let none = Seq::<Seq<char>>::empty();
    law_walk_holds_only_clear_entries(entries, root.path, none, blocklist, m);
    let pos = choose|pos: Seq<int>| is_member_for(m, entries, root.path, none, blocklist, pos);
    let names = names_at(entries, pos);
    lemma_names_len(entries, pos);
    assert(names.take(names.len() as int) =~= names);
    assert(none + names =~= names);
    assert(m.path == names);
    assert(!blocklist.contains(root.path + names.take(names.len() as int)));
    assert(blocklist[0] == control.path);
    assert forall|i: int| 0 <= i < control.entries.len() implies root.path + m.path
        != control.path.push(#[trigger] control.entries[i].name) by {
        assert(blocklist[i + 1] == control.path.push(control.entries[i].name));
    }
}

/// Where the control directory lies outside the payload root, the data
/// archive holds every entry of the root, at every depth, with nothing
/// filtered out.
pub proof fn law_data_archive_unfiltered(root: TreeView, control: TreeView, pos: Seq<int>)
    requires
        !root.path.is_prefix_of(control.path),
        in_tree(root.entries, pos),
    ensures
        data_members(root, control).contains(
            member_of(names_at(root.entries, pos), entry_at(normalized_root(root.entries), pos)),
        ),
{
    let entries = normalized_root(root.entries);
    let blocklist = exclusion_set(root.path, control.path, control.entries);
    let none = Seq::<Seq<char>>::empty();
    lemma_normalized_shape(root.entries, pos);
    assert(blocklist =~= Seq::<Seq<Seq<char>>>::empty());
    law_walk_keeps_clear_entries(entries, root.path, none, blocklist, pos);
    assert(none + names_at(entries, pos) =~= names_at(entries, pos));
}

/// After normalisation every direct entry of the control directory has mode
/// 0644 if its name is `control` and mode 0755 otherwise, and every direct
/// entry of either tree belongs to owner and group 0. Names and contents
/// stay as they were.
pub proof fn law_normalized_entries(entries: Seq<EntryView>, i: int)
    requires
        0 <= i < entries.len(),
    ensures
        normalized_control(entries)[i].mode == (if entries[i].name == "control"@ {
            0o644u32
        } else {
            0o755u32
        }),
        normalized_control(entries)[i].uid == 0 && normalized_control(entries)[i].gid == 0,
        normalized_root(entries)[i].uid == 0 && normalized_root(entries)[i].gid == 0,
        normalized_root(entries)[i].mode == entries[i].mode,
        normalized_control(entries)[i].name == entries[i].name,
        normalized_root(entries)[i].name == entries[i].name,
        normalized_control(entries)[i].content == entries[i].content,
        normalized_root(entries)[i].content == entries[i].content,
{
}

/// The changes planned for the disk are the ones that normalisation makes in
/// memory: one for each direct entry of the payload root, then one for each
/// direct entry of the control directory, each at the entry's path and with
/// the owner, the group and, in the control directory, the mode that the
/// normalised entry has.
pub proof fn law_plan_matches_normalisation(root: TreeView, control: TreeView, i: int)
    requires
        0 <= i < planned_changes(root, control).len(),
    ensures
        planned_changes(root, control).len() == root.entries.len() + control.entries.len(),
        i < root.entries.len() ==> {
            let change = planned_changes(root, control)[i];
            let entry = normalized_root(root.entries)[i];
            &&& change.path == root.path.push(entry.name)
            &&& change.mode is None
            &&& change.uid == entry.uid
            &&& change.gid == entry.gid
        },
        i >= root.entries.len() ==> {
            let change = planned_changes(root, control)[i];
            let entry = normalized_control(control.entries)[i - root.entries.len()];
            &&& change.path == control.path.push(entry.name)
            &&& change.mode == Some(entry.mode)
            &&& change.uid == entry.uid
            &&& change.gid == entry.gid
        },
{
}

/// The members of the control archive that stand for direct entries of the
/// control directory carry the normalised mode and owner.
pub proof fn law_control_archive_modes(control: TreeView, m: ArchiveEntryView)
    requires
        control_members(control).contains(m),
        m.path.len() == 1,
    ensures
        m.mode == control_mode(m.path[0]),
        m.uid == 0,
        m.gid == 0,
{
    let entries = normalized_control(control.entries);
    let none = Seq::<Seq<char>>::empty();
    let blocklist = Seq::<Seq<Seq<char>>>::empty();
    law_walk_holds_only_clear_entries(entries, control.path, none, blocklist, m);
    let pos = choose|pos: Seq<int>| is_member_for(m, entries, control.path, none, blocklist, pos);
    lemma_names_len(entries, pos);
    assert(none + names_at(entries, pos) =~= names_at(entries, pos));
}

/// The members of the data archive that stand for direct entries of the
/// payload root belong to owner and group 0.
pub proof fn law_data_archive_owners(root: TreeView, control: TreeView, m: ArchiveEntryView)
    requires
        data_members(root, control).contains(m),
        m.path.len() == 1,
    ensures
        m.uid == 0,
        m.gid == 0,
{
    let entries = normalized_root(root.entries);
    let none = Seq::<Seq<char>>::empty();
    let blocklist = exclusion_set(root.path, control.path, control.entries);
    law_walk_holds_only_clear_entries(entries, root.path, none, blocklist, m);
    let pos = choose|pos: Seq<int>| is_member_for(m, entries, root.path, none, blocklist, pos);
    lemma_names_len(entries, pos);
    assert(none + names_at(entries, pos) =~= names_at(entries, pos));
}

/// A package's container holds exactly three members, and in this order:
/// `control.tar.<ext>`, `data.tar.<ext>`, `debian-binary`. The container is
/// the magic followed by the three members.
pub proof fn law_container_layout(root: TreeView, control: TreeView, kind: CompressType, meta: MemberMeta)
    ensures
        package_parts(root, control, kind).len() == 3,
        package_parts(root, control, kind)[0].name == "control.tar."@ + kind.spec_name(),
        package_parts(root, control, kind)[1].name == "data.tar."@ + kind.spec_name(),
        package_parts(root, control, kind)[2].name == "debian-binary"@,
        ar_image(package_parts(root, control, kind), meta) == ar_magic() + ar_member(
            package_parts(root, control, kind)[0],
            meta,
        ) + ar_member(package_parts(root, control, kind)[1], meta) + ar_member(
            package_parts(root, control, kind)[2],
            meta,
        ),
{
    let parts = package_parts(root, control, kind);
    let two = parts.drop_last();
    let one = two.drop_last();
    assert(one.drop_last() =~= Seq::<ArtifactView>::empty());
    assert(ar_image(one.drop_last(), meta) =~= Seq::<u8>::empty());
    assert(ar_image(one, meta) =~= ar_magic() + ar_member(parts[0], meta));
    assert(ar_image(two, meta) =~= ar_magic() + ar_member(parts[0], meta) + ar_member(parts[1], meta));
    assert(ar_image(parts, meta) =~= ar_magic() + ar_member(parts[0], meta) + ar_member(
        parts[1],
        meta,
    ) + ar_member(parts[2], meta));
    assert("control"@ + ".tar."@ + kind.spec_name() =~= "control.tar."@ + kind.spec_name()) by {
        reveal_strlit("control");
        reveal_strlit(".tar.");
        reveal_strlit("control.tar.");
    }
    assert("data"@ + ".tar."@ + kind.spec_name() =~= "data.tar."@ + kind.spec_name()) by {
        reveal_strlit("data");
        reveal_strlit(".tar.");
        reveal_strlit("data.tar.");
    }
}

/// Whatever the compression variant, the format marker of a package holds
/// exactly the three bytes of `2.0`.
pub proof fn law_marker_content(root: TreeView, control: TreeView, kind: CompressType)
    ensures
        package_parts(root, control, kind)[2].bytes == seq![0x32u8, 0x2eu8, 0x30u8],
        package_parts(root, control, kind)[2].bytes == Seq::new(3, |i: int| "2.0"@[i] as u8),
        "2.0"@.len() == 3,
{
    reveal_strlit("2.0");
    assert(package_parts(root, control, kind)[2].bytes =~= Seq::new(3, |i: int| "2.0"@[i] as u8));
}

/// Every compression variant is selected by its own short name, whatever its
/// level.
pub proof fn law_selector_is_the_name(kind: CompressTypeArg, level: u32)
    ensures
        CompressTypeArg::spec_from_name(kind.spec_with_level(level).spec_name()) == Some(kind),
{
    reveal_strlit("xz");
    reveal_strlit("gz");
    reveal_strlit("zstd");
    assert("xz"@[0] != "gz"@[0]);
    assert("zstd"@.len() != "xz"@.len());
}

/// The steps that put a package on disk delete nothing before the container
/// is written: the writes of the parts come first, then the write of the
/// container, and every deletion after that.
pub proof fn law_no_removal_before_container(parts: Seq<ArtifactView>, deb: ArtifactView, k: int)
    requires
        0 <= k < planned_ops(parts, deb).len(),
    ensures
        planned_ops(parts, deb).len() == 2 * parts.len() + 1,
        k < parts.len() ==> planned_ops(parts, deb)[k] == FileOpView::Write(parts[k]),
        k == parts.len() ==> planned_ops(parts, deb)[k] == FileOpView::Write(deb),
        k > parts.len() ==> planned_ops(parts, deb)[k] == FileOpView::Remove(
            parts[k - parts.len() - 1].name,
        ),
{
}

/// The name of a package file is the name of none of its parts.
proof fn lemma_deb_name_apart(root: TreeView, control: TreeView, kind: CompressType, pkg_name: Seq<char>)
    ensures
        forall|i: int|
            0 <= i < 3 ==> (#[trigger] package_parts(root, control, kind)[i]).name != deb_name(
                pkg_name,
            ),
{
    reveal_strlit(".deb");
    reveal_strlit("control");
    reveal_strlit("data");
    reveal_strlit(".tar.");
    reveal_strlit("xz");
    reveal_strlit("gz");
    reveal_strlit("zstd");
    reveal_strlit("debian-binary");
    let parts = package_parts(root, control, kind);
    let deb = deb_name(pkg_name);
    assert(deb.last() == 'b');
    assert(kind.spec_name().last() != 'b');
    assert(parts[0].name.last() == kind.spec_name().last());
    assert(parts[1].name.last() == kind.spec_name().last());
    assert(parts[2].name.last() == 'y');
}

/// In the steps that put a package on disk, the steps that belong to
/// compressing are the writes of the parts before the last, which are the
/// archives; every other step belongs to the container.
pub proof fn law_step_stages(parts: Seq<ArtifactView>, deb: ArtifactView, k: int)
    requires
        0 <= k < planned_ops(parts, deb).len(),
    ensures
        step_stage(planned_ops(parts, deb).len(), k as nat) == Stage::Compression <==> k + 1
            < parts.len(),
        k + 1 < parts.len() ==> planned_ops(parts, deb)[k] == FileOpView::Write(parts[k]),
{
}

/// Whatever the output directory held before, leftovers of an earlier build
/// included, after the steps of a build it holds the package under its name,
/// none of the parts, and every other file as it was.
pub proof fn law_output_replaces_leftovers(
    dir: Directory,
    root: TreeView,
    control: TreeView,
    kind: CompressType,
    meta: MemberMeta,
    pkg_name: Seq<char>,
)
    ensures
        ({
            let parts = package_parts(root, control, kind);
            let deb = ArtifactView { name: deb_name(pkg_name), bytes: ar_image(parts, meta) };
            after_ops(dir, planned_ops(parts, deb)) == dir.remove(parts[0].name).remove(
                parts[1].name,
            ).remove(parts[2].name).insert(deb.name, deb.bytes)
        }),
{
    let parts = package_parts(root, control, kind);
    let deb = ArtifactView { name: deb_name(pkg_name), bytes: ar_image(parts, meta) };
    let ops = planned_ops(parts, deb);
    lemma_deb_name_apart(root, control, kind, pkg_name);
    assert(parts[0].name != deb.name && parts[1].name != deb.name && parts[2].name != deb.name);
    let s0 = dir;
    let s1 = s0.insert(parts[0].name, parts[0].bytes);
    let s2 = s1.insert(parts[1].name, parts[1].bytes);
    let s3 = s2.insert(parts[2].name, parts[2].bytes);
    let s4 = s3.insert(deb.name, deb.bytes);
    let s5 = s4.remove(parts[0].name);
    let s6 = s5.remove(parts[1].name);
    let s7 = s6.remove(parts[2].name);
    assert(ops.len() == 7);
    assert(ops.take(0) =~= Seq::<FileOpView>::empty());
    assert(after_ops(dir, ops.take(0)) == s0);
    assert(ops.take(1).drop_last() =~= ops.take(0));
    assert(after_ops(dir, ops.take(1)) == s1);
    assert(ops.take(2).drop_last() =~= ops.take(1));
    assert(after_ops(dir, ops.take(2)) == s2);
    assert(ops.take(3).drop_last() =~= ops.take(2));
    assert(after_ops(dir, ops.take(3)) == s3);
    assert(ops.take(4).drop_last() =~= ops.take(3));
    assert(after_ops(dir, ops.take(4)) == s4);
    assert(ops.take(5).drop_last() =~= ops.take(4));
    assert(after_ops(dir, ops.take(5)) == s5);
    assert(ops.take(6).drop_last() =~= ops.take(5));
    assert(after_ops(dir, ops.take(6)) == s6);
    assert(ops.take(7).drop_last() =~= ops.take(6));
    assert(after_ops(dir, ops.take(7)) == s7);
    assert(ops.take(7) =~= ops);
    assert(s7 =~= dir.remove(parts[0].name).remove(parts[1].name).remove(parts[2].name).insert(
        deb.name,
        deb.bytes,
    ));
}

} // verus!
