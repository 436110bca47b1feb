//! What a move promises: no file is lost, whatever fails, and every file is found.

use crate::move_dir::{
    lemma_next_is_valid, stacked, visits, Entry, EntryKind, MoveOutcome, MovePoint, MoveState,
    SweepItem,
};
use vstd::prelude::*;

verus! {

/// The files on the two sides of a move, by their paths below the moved directory.
pub struct Disk {
    pub src: Map<Seq<u64>, Seq<u8>>,
    pub dst: Map<Seq<u64>, Seq<u8>>,
}

/// The file at `path` has these bytes.
pub open spec fn holds(side: Map<Seq<u64>, Seq<u8>>, path: Seq<u64>, bytes: Seq<u8>) -> bool {
    side.dom().contains(path) && side[path] == bytes
}

/// The two sides have the same at `path`: the same file, or none.
pub open spec fn same_at(
    before: Map<Seq<u64>, Seq<u8>>,
    after: Map<Seq<u64>, Seq<u8>>,
    path: Seq<u64>,
) -> bool {
    &&& before.dom().contains(path) <==> after.dom().contains(path)
    &&& before.dom().contains(path) ==> before[path] == after[path]
}

/// What the disk may look like once `event` came of the step of `state`. A copy that fails may
/// leave anything under the name of the copy; a rename, a removal or a directory that fails
/// changes nothing.
pub open spec fn may_follow(state: MoveState, disk: Disk, event: MoveOutcome, after: Disk) -> bool {
    match (state.point, event) {
        (MovePoint::Rename, MoveOutcome::Success) => forall|path: Seq<u64>| #[trigger]
            disk.src.dom().contains(path) ==> holds(after.dst, path, disk.src[path]),
        (MovePoint::Copy(i), MoveOutcome::Success) => {
            let path = state.pairs[i];
            &&& after.src == disk.src
            &&& disk.src.dom().contains(path)
            &&& after.dst == disk.dst.insert(path, disk.src[path])
        },
        (MovePoint::Copy(i), MoveOutcome::Error) => {
            &&& after.src == disk.src
            &&& forall|path: Seq<u64>|
                path != state.pairs[i] ==> #[trigger] same_at(disk.dst, after.dst, path)
        },
        (MovePoint::Remove(i), MoveOutcome::Success) => {
            &&& after.src == disk.src.remove(state.pairs[i])
            &&& after.dst == disk.dst
        },
        _ => after == disk,
    }
}

/// Every file that there was is still there, whole, on one side or the other.
pub open spec fn nothing_lost(disk: Disk, orig: Map<Seq<u64>, Seq<u8>>) -> bool {
    forall|path: Seq<u64>| #[trigger]
        orig.dom().contains(path) ==> holds(disk.src, path, orig[path]) || holds(
            disk.dst,
            path,
            orig[path],
        )
}

/// The first `n` files of the move have been copied whole.
pub open spec fn copied(
    state: MoveState,
    disk: Disk,
    orig: Map<Seq<u64>, Seq<u8>>,
    n: int,
) -> bool {
    forall|j: int|
        0 <= j < n ==> orig.dom().contains(#[trigger] state.pairs[j]) && holds(
            disk.dst,
            state.pairs[j],
            orig[state.pairs[j]],
        )
}

/// What holds of the disk at every step of a move of the files `orig`: up to the first removal
/// the source is untouched, and the removals begin only when everything has been copied.
pub open spec fn keeps_files(state: MoveState, disk: Disk, orig: Map<Seq<u64>, Seq<u8>>) -> bool {
    &&& nothing_lost(disk, orig)
    &&& match state.point {
        MovePoint::MakeParent(i) => disk.src == orig && copied(state, disk, orig, i),
        MovePoint::Copy(i) => disk.src == orig && copied(state, disk, orig, i),
        MovePoint::Remove(i) => {
            &&& copied(state, disk, orig, state.pairs.len() as int)
            &&& i == 0 ==> disk.src == orig
        },
        MovePoint::SweepRead(_) => copied(state, disk, orig, state.pairs.len() as int),
        MovePoint::SweepRemove(_) => copied(state, disk, orig, state.pairs.len() as int),
        MovePoint::Done => copied(state, disk, orig, state.pairs.len() as int),
        MovePoint::Failed => disk.src == orig,
        MovePoint::Rename | MovePoint::LookAt => {
            &&& disk.src == orig
            &&& !state.single
            &&& state.pairs.len() == 0
        },
        _ => disk.src == orig && !state.single,
    }
    &&& state.single ==> state.pairs.len() == 1
}

/// Each step keeps the files, whether it succeeds or fails.
pub proof fn law_step_keeps_files(
    state: MoveState,
    disk: Disk,
    event: MoveOutcome,
    after: Disk,
    orig: Map<Seq<u64>, Seq<u8>>,
)
    requires
        state.valid(),
        keeps_files(state, disk, orig),
        may_follow(state, disk, event, after),
    ensures
        keeps_files(state.next(event), after, orig),
{
    let next = state.next(event);
    match (state.point, event) {
        (MovePoint::Rename, MoveOutcome::Success) => {
            assert forall|path: Seq<u64>| #[trigger] orig.dom().contains(path) implies holds(
                after.src,
                path,
                orig[path],
            ) || holds(after.dst, path, orig[path]) by {
                assert(disk.src.dom().contains(path));
            }
        },
        (MovePoint::ReadDir(path), MoveOutcome::Listed(entries)) => {
            lemma_settled_keeps(
                MoveState { todo: state.todo + stacked(path, entries), ..state },
                disk,
                orig,
            );
        },
        (MovePoint::Copy(i), MoveOutcome::Success) => {
            assert(copied(state, after, orig, i + 1));
            assert(copied(next, after, orig, i + 1));
        },
        (MovePoint::Remove(i), MoveOutcome::Success) => {
            assert(nothing_lost(after, orig)) by {
                assert forall|path: Seq<u64>| #[trigger] orig.dom().contains(path) implies holds(
                    after.src,
                    path,
                    orig[path],
                ) || holds(after.dst, path, orig[path]) by {
                    if path == state.pairs[i] {
                        assert(holds(disk.dst, state.pairs[i], orig[state.pairs[i]]));
                    }
                }
            }
            assert(copied(next, after, orig, next.pairs.len() as int));
        },
        _ => {},
    }
}

/// Looking through entries touches no file and leaves no file copied.
proof fn lemma_settled_keeps(state: MoveState, disk: Disk, orig: Map<Seq<u64>, Seq<u8>>)
    requires
        nothing_lost(disk, orig),
        disk.src == orig,
        !state.single,
    ensures
        keeps_files(state.settled(), disk, orig),
    decreases state.todo.len(),
{
    if state.todo.len() > 0 {
        let (path, kind) = state.todo.last();
        let rest = MoveState { todo: state.todo.drop_last(), ..state };
        match kind {
            EntryKind::File => lemma_settled_keeps(
                MoveState { pairs: rest.pairs.push(path), ..rest },
                disk,
                orig,
            ),
            EntryKind::Link => lemma_settled_keeps(rest, disk, orig),
            EntryKind::Dir => {},
        }
    }
}

/// A course of a move: each state follows from the one before by an event, and each disk may
/// follow from the one before.
pub open spec fn is_course(
    states: Seq<MoveState>,
    disks: Seq<Disk>,
    events: Seq<MoveOutcome>,
) -> bool {
    &&& states.len() == events.len() + 1
    &&& disks.len() == events.len() + 1
    &&& states[0] == MoveState::start(MovePoint::Rename) || states[0] == MoveState::start(
        MovePoint::LookAt,
    )
    &&& forall|k: int|
        0 <= k < events.len() ==> states[k + 1] == (#[trigger] states[k]).next(events[k])
            && may_follow(states[k], disks[k], events[k], disks[k + 1])
}

/// Whatever fails in the course of a move, no file is lost: at every moment each file is whole
/// on one side or the other. A move that fails has left the source as it was. A file is removed
/// only once all of them have been copied, and a move that is done has copied all of them.
pub proof fn law_no_file_is_lost(
    states: Seq<MoveState>,
    disks: Seq<Disk>,
    events: Seq<MoveOutcome>,
    k: int,
)
    requires
        is_course(states, disks, events),
        0 <= k < states.len(),
    ensures
        nothing_lost(disks[k], disks[0].src),
        states[k].point is Failed ==> disks[k].src == disks[0].src,
        states[k].point is Remove || states[k].point is Done ==> copied(
            states[k],
            disks[k],
            disks[0].src,
            states[k].pairs.len() as int,
        ),
        keeps_files(states[k], disks[k], disks[0].src),
        states[k].valid(),
    decreases k,
{
    if k > 0 {
        law_no_file_is_lost(states, disks, events, k - 1);
        assert(states[k] == states[k - 1].next(events[k - 1]));
        law_step_keeps_files(
            states[k - 1],
            disks[k - 1],
            events[k - 1],
            disks[k],
            disks[0].src,
        );
        lemma_next_is_valid(states[k - 1], events[k - 1]);
    }
}

/// What stands at a path: a link, a file, or a directory with its entries.
pub enum Tree {
    Link,
    File,
    Dir(Seq<(u64, Tree)>),
}

/// What a tree counts as in a listing.
pub open spec fn kind_of(tree: Tree) -> EntryKind {
    match tree {
        Tree::Link => EntryKind::Link,
        Tree::File => EntryKind::File,
        Tree::Dir(_) => EntryKind::Dir,
    }
}

/// The listing of a directory with these entries.
pub open spec fn listing(entries: Seq<(u64, Tree)>) -> Seq<Entry> {
    entries.map_values(|e: (u64, Tree)| Entry { name: e.0, kind: kind_of(e.1) })
}

/// The paths of the files of a tree that stands at `path`, in the order of the listings. What
/// is behind a link does not count.
pub open spec fn files(tree: Tree, path: Seq<u64>) -> Seq<Seq<u64>>
    decreases tree,
{
    match tree {
        Tree::Link => Seq::empty(),
        Tree::File => seq![path],
        Tree::Dir(entries) => files_in(entries, path),
    }
}

/// The paths of the files of these entries of the directory at `path`.
pub open spec fn files_in(entries: Seq<(u64, Tree)>, path: Seq<u64>) -> Seq<Seq<u64>>
    decreases entries,
{
    if entries.len() == 0 {
        Seq::empty()
    } else {
        files(entries[0].1, path.push(entries[0].0)) + files_in(entries.drop_first(), path)
    }
}

/// The number of directories of a tree.
pub open spec fn dirs(tree: Tree) -> nat
    decreases tree,
{
    match tree {
        Tree::Dir(entries) => 1 + dirs_in(entries),
        _ => 0,
    }
}

/// The number of directories in these entries.
pub open spec fn dirs_in(entries: Seq<(u64, Tree)>) -> nat
    decreases entries,
{
    if entries.len() == 0 {
        0
    } else {
        dirs(entries[0].1) + dirs_in(entries.drop_first())
    }
}

/// Trees still to look at, the next one last, each with its path.
pub type Pending = Seq<(Seq<u64>, Tree)>;

/// The same as a list of entries.
pub open spec fn kinds(pending: Pending) -> Seq<(Seq<u64>, EntryKind)> {
    pending.map_values(|t: (Seq<u64>, Tree)| (t.0, kind_of(t.1)))
}

/// The paths of the files in pending trees, in the order in which they are reached.
pub open spec fn pending_files(pending: Pending) -> Seq<Seq<u64>>
    decreases pending.len(),
{
    if pending.len() == 0 {
        Seq::empty()
    } else {
        files(pending.last().1, pending.last().0) + pending_files(pending.drop_last())
    }
}

/// The number of directories in pending trees.
pub open spec fn pending_dirs(pending: Pending) -> nat
    decreases pending.len(),
{
    if pending.len() == 0 {
        0
    } else {
        dirs(pending.last().1) + pending_dirs(pending.drop_last())
    }
}

/// The entries of the directory at `path`, each with its own path, in reverse.
pub open spec fn stacked_trees(path: Seq<u64>, entries: Seq<(u64, Tree)>) -> Pending {
    Seq::new(
        entries.len(),
        |k: int|
            (path.push(entries[entries.len() - 1 - k].0), entries[entries.len() - 1 - k].1),
    )
}

/// What is left of pending trees up to the next directory.
pub open spec fn up_to_dir(pending: Pending) -> Pending
    decreases pending.len(),
{
    if pending.len() == 0 || pending.last().1 is Dir {
        pending
    } else {
        up_to_dir(pending.drop_last())
    }
}

/// The move is about to list the next of the pending trees, a directory.
pub open spec fn is_reading(state: MoveState, pending: Pending) -> bool {
    &&& pending.len() > 0
    &&& pending.last().1 is Dir
    &&& state.point == MovePoint::ReadDir(pending.last().0)
    &&& state.todo == kinds(pending.drop_last())
}

/// The move has looked at everything: it goes on to copy, or to remove directories where there
/// is nothing to copy.
pub open spec fn has_looked(state: MoveState) -> bool {
    state.point == if state.pairs.len() > 0 {
        MovePoint::MakeParent(0)
    } else {
        MovePoint::SweepRead(Seq::empty())
    }
}

proof fn lemma_stacked_trees(pending: Pending, path: Seq<u64>, entries: Seq<(u64, Tree)>)
    ensures
        kinds(stacked_trees(path, entries)) == stacked(path, listing(entries)),
        pending_files(pending + stacked_trees(path, entries)) == files_in(entries, path)
            + pending_files(pending),
        pending_dirs(pending + stacked_trees(path, entries)) == dirs_in(entries) + pending_dirs(
            pending,
        ),
    decreases entries.len(),
{
    assert(kinds(stacked_trees(path, entries)) =~= stacked(path, listing(entries)));
    let all = pending + stacked_trees(path, entries);
    if entries.len() == 0 {
        assert(all =~= pending);
        assert(files_in(entries, path) + pending_files(pending) =~= pending_files(pending));
    } else {
        let rest = entries.drop_first();
        lemma_stacked_trees(pending, path, rest);
        assert(all.drop_last() =~= pending + stacked_trees(path, rest));
        let first = files(entries[0].1, path.push(entries[0].0));
        assert(pending_files(all) =~= first + (files_in(rest, path) + pending_files(pending)));
        assert(files_in(entries, path) + pending_files(pending) =~= pending_files(all));
    }
}

proof fn lemma_settled_trees(state: MoveState, pending: Pending)
    requires
        state.todo == kinds(pending),
    ensures
        ({
            let after = state.settled();
            let left = up_to_dir(pending);
            &&& after.pairs + pending_files(left) == state.pairs + pending_files(pending)
            &&& pending_dirs(left) == pending_dirs(pending)
            &&& if left.len() > 0 {
                is_reading(after, left)
            } else {
                has_looked(after)
            }
        }),
    decreases pending.len(),
{
    if pending.len() > 0 {
        let (path, tree) = pending.last();
        let rest = MoveState { todo: state.todo.drop_last(), ..state };
        assert(state.todo.last() == (path, kind_of(tree)));
        assert(state.todo.drop_last() =~= kinds(pending.drop_last()));
        let others = pending_files(pending.drop_last());
        match tree {
            Tree::File => {
                let noted = MoveState { pairs: rest.pairs.push(path), ..rest };
                lemma_settled_trees(noted, pending.drop_last());
                assert(state.pairs.push(path) + others =~= state.pairs + (seq![path] + others));
            },
            Tree::Link => {
                lemma_settled_trees(rest, pending.drop_last());
                assert(Seq::<Seq<u64>>::empty() + others =~= others);
            },
            Tree::Dir(_) => {},
        }
    }
}

/// The move once every directory of the pending trees has been listed, as far as `fuel` goes.
pub open spec fn walked(state: MoveState, pending: Pending, fuel: nat) -> MoveState
    decreases fuel,
{
    if fuel == 0 || pending.len() == 0 {
        state
    } else {
        match pending.last().1 {
            Tree::Dir(entries) => walked(
                state.next(MoveOutcome::Listed(listing(entries))),
                up_to_dir(pending.drop_last() + stacked_trees(pending.last().0, entries)),
                (fuel - 1) as nat,
            ),
            _ => state,
        }
    }
}

proof fn lemma_walk_finds_all(state: MoveState, pending: Pending, fuel: nat)
    requires
        is_reading(state, pending),
        pending_dirs(pending) <= fuel,
    ensures
        has_looked(walked(state, pending, fuel)),
        walked(state, pending, fuel).pairs == state.pairs + pending_files(pending),
    decreases fuel,
{
    let (path, tree) = pending.last();
    let entries = tree->Dir_0;
    let rest = pending.drop_last();
    let spread = rest + stacked_trees(path, entries);
    let left = up_to_dir(spread);
    let opened = MoveState { todo: state.todo + stacked(path, listing(entries)), ..state };
    lemma_stacked_trees(rest, path, entries);
    assert(kinds(spread) =~= opened.todo);
    lemma_settled_trees(opened, spread);
    let after = state.next(MoveOutcome::Listed(listing(entries)));
    if left.len() > 0 {
        lemma_walk_finds_all(after, left, (fuel - 1) as nat);
    } else {
        assert(after.pairs + pending_files(left) =~= after.pairs);
    }
}

/// A move by copying finds every file of the directory, each once and in the order of the
/// listings, and nothing behind a link.
pub proof fn law_every_file_is_found(entries: Seq<(u64, Tree)>, fuel: nat)
    requires
        dirs(Tree::Dir(entries)) <= fuel,
    ensures
        ({
            let begun = MoveState::start(MovePoint::LookAt).next(MoveOutcome::Directory);
            let after = walked(begun, seq![(Seq::empty(), Tree::Dir(entries))], fuel);
            has_looked(after) && after.pairs == files(Tree::Dir(entries), Seq::empty())
        }),
{
    let begun = MoveState::start(MovePoint::LookAt).next(MoveOutcome::Directory);
    let pending: Pending = seq![(Seq::empty(), Tree::Dir(entries))];
    assert(pending.drop_last() =~= Seq::empty());
    assert(kinds(pending.drop_last()) =~= begun.todo);
    assert(pending_dirs(pending) == dirs(Tree::Dir(entries)) + pending_dirs(pending.drop_last()));
    lemma_walk_finds_all(begun, pending, fuel);
    let all = files(Tree::Dir(entries), Seq::empty());
    assert(pending_files(pending) =~= all + pending_files(pending.drop_last()));
    assert(begun.pairs + pending_files(pending) =~= all);
}

/// Whether `part` is what stands at `at` in a tree that itself stands at `path`.
pub open spec fn stands(tree: Tree, path: Seq<u64>, at: Seq<u64>, part: Tree) -> bool
    decreases tree,
{
    ||| at == path && part == tree
    ||| match tree {
        Tree::Dir(entries) => stands_in(entries, path, at, part),
        _ => false,
    }
}

/// Whether `part` is what stands at `at` in these entries of the directory at `path`.
pub open spec fn stands_in(
    entries: Seq<(u64, Tree)>,
    path: Seq<u64>,
    at: Seq<u64>,
    part: Tree,
) -> bool
    decreases entries,
{
    if entries.len() == 0 {
        false
    } else {
        stands(entries[0].1, path.push(entries[0].0), at, part) || stands_in(
            entries.drop_first(),
            path,
            at,
            part,
        )
    }
}

/// The entries of a directory stand in it.
proof fn lemma_entry_stands(entries: Seq<(u64, Tree)>, path: Seq<u64>, i: int)
    requires
        0 <= i < entries.len(),
    ensures
        stands_in(entries, path, path.push(entries[i].0), entries[i].1),
    decreases entries.len(),
{
    if i > 0 {
        lemma_entry_stands(entries.drop_first(), path, i - 1);
        assert(entries.drop_first()[i - 1] == entries[i]);
    } else {
        let at = path.push(entries[0].0);
        assert(stands(entries[0].1, at, at, entries[0].1));
    }
}

/// The entries of a directory of a tree stand in the tree.
proof fn lemma_below_stands(
    tree: Tree,
    path: Seq<u64>,
    at: Seq<u64>,
    entries: Seq<(u64, Tree)>,
    i: int,
)
    requires
        stands(tree, path, at, Tree::Dir(entries)),
        0 <= i < entries.len(),
    ensures
        stands(tree, path, at.push(entries[i].0), entries[i].1),
    decreases tree,
{
    if at == path && tree == Tree::Dir(entries) {
        lemma_entry_stands(entries, path, i);
    } else {
        lemma_below_stands_in(tree->Dir_0, path, at, entries, i);
    }
}

proof fn lemma_below_stands_in(
    list: Seq<(u64, Tree)>,
    path: Seq<u64>,
    at: Seq<u64>,
    entries: Seq<(u64, Tree)>,
    i: int,
)
    requires
        stands_in(list, path, at, Tree::Dir(entries)),
        0 <= i < entries.len(),
    ensures
        stands_in(list, path, at.push(entries[i].0), entries[i].1),
    decreases list,
{
    if stands(list[0].1, path.push(list[0].0), at, Tree::Dir(entries)) {
        lemma_below_stands(list[0].1, path.push(list[0].0), at, entries, i);
    } else {
        lemma_below_stands_in(list.drop_first(), path, at, entries, i);
    }
}

/// The caller reports of the source what stands there: the directory `tree`.
pub open spec fn tells_of(state: MoveState, event: MoveOutcome, tree: Tree) -> bool {
    match state.point {
        MovePoint::LookAt => event == MoveOutcome::Directory,
        MovePoint::ReadDir(path) => match event {
            MoveOutcome::Listed(list) => forall|entries: Seq<(u64, Tree)>| #[trigger]
                stands(tree, Seq::empty(), path, Tree::Dir(entries)) ==> list == listing(entries),
            _ => true,
        },
        _ => true,
    }
}

/// The pending trees stand in `tree`, and with what was noted they have all of its files.
pub open spec fn is_rest_of(pending: Pending, pairs: Seq<Seq<u64>>, tree: Tree) -> bool {
    &&& forall|i: int|
        0 <= i < pending.len() ==> stands(
            tree,
            Seq::empty(),
            (#[trigger] pending[i]).0,
            pending[i].1,
        )
    &&& pairs + pending_files(pending) == files(tree, Seq::empty())
}

/// What holds of a move of the directory `tree` at every step.
pub open spec fn knows_files(
    state: MoveState,
    disk: Disk,
    orig: Map<Seq<u64>, Seq<u8>>,
    tree: Tree,
) -> bool {
    let all = files(tree, Seq::empty());
    match state.point {
        MovePoint::Rename | MovePoint::LookAt => state == MoveState::start(state.point),
        MovePoint::ReadDir(_) => exists|pending: Pending| #[trigger]
            is_reading(state, pending) && is_rest_of(pending, state.pairs, tree),
        MovePoint::Failed => true,
        MovePoint::Done => state.pairs == all || forall|path: Seq<u64>| #[trigger]
            orig.dom().contains(path) ==> holds(disk.dst, path, orig[path]),
        _ => state.pairs == all,
    }
}

/// What is left up to the next directory is the beginning of what was pending.
proof fn lemma_up_to_dir(pending: Pending)
    ensures
        up_to_dir(pending).len() <= pending.len(),
        up_to_dir(pending) == pending.take(up_to_dir(pending).len() as int),
    decreases pending.len(),
{
    if pending.len() > 0 && !(pending.last().1 is Dir) {
        lemma_up_to_dir(pending.drop_last());
        let n = up_to_dir(pending).len() as int;
        assert(pending.drop_last().take(n) =~= pending.take(n));
    } else {
        assert(pending.take(pending.len() as int) =~= pending);
    }
}

/// A listing leads from one directory to the next, or to the copying.
proof fn lemma_listing_knows(
    state: MoveState,
    disk: Disk,
    orig: Map<Seq<u64>, Seq<u8>>,
    tree: Tree,
    pending: Pending,
    list: Seq<Entry>,
)
    requires
        is_reading(state, pending),
        is_rest_of(pending, state.pairs, tree),
        tells_of(state, MoveOutcome::Listed(list), tree),
    ensures
        knows_files(state.next(MoveOutcome::Listed(list)), disk, orig, tree),
{
    let (path, part) = pending.last();
    let entries = part->Dir_0;
    assert(stands(tree, Seq::empty(), pending[pending.len() - 1].0, pending[pending.len() - 1].1));
    assert(stands(tree, Seq::empty(), path, Tree::Dir(entries)));
    let rest = pending.drop_last();
    let fresh = stacked_trees(path, entries);
    let spread = rest + fresh;
    let left = up_to_dir(spread);
    let opened = MoveState { todo: state.todo + stacked(path, list), ..state };
    lemma_stacked_trees(rest, path, entries);
    assert(kinds(spread) =~= opened.todo);
    lemma_settled_trees(opened, spread);
    lemma_up_to_dir(spread);
    let after = state.next(MoveOutcome::Listed(list));
    let all = files(tree, Seq::empty());
    assert(state.pairs + (files_in(entries, path) + pending_files(rest)) =~= all);
    assert forall|i: int| 0 <= i < left.len() implies stands(
        tree,
        Seq::empty(),
        (#[trigger] left[i]).0,
        left[i].1,
    ) by {
        assert(left[i] == spread[i]);
        if i < rest.len() {
            assert(left[i] == pending[i]);
        } else {
            let j = entries.len() - 1 - (i - rest.len());
            assert(left[i] == (path.push(entries[j].0), entries[j].1));
            lemma_below_stands(tree, Seq::empty(), path, entries, j);
        }
    }
    if left.len() > 0 {
        assert(is_reading(after, left) && is_rest_of(left, after.pairs, tree));
    } else {
        assert(after.pairs + pending_files(left) =~= after.pairs);
    }
}

/// Each step of a move of the directory `tree` keeps what is known of its files.
proof fn lemma_step_knows(
    state: MoveState,
    disk: Disk,
    event: MoveOutcome,
    after: Disk,
    orig: Map<Seq<u64>, Seq<u8>>,
    tree: Tree,
)
    requires
        tree is Dir,
        keeps_files(state, disk, orig),
        knows_files(state, disk, orig, tree),
        may_follow(state, disk, event, after),
        tells_of(state, event, tree),
    ensures
        knows_files(state.next(event), after, orig, tree),
{
    match (state.point, event) {
        (MovePoint::ReadDir(_), MoveOutcome::Listed(list)) => {
            let pending = choose|pending: Pending| #[trigger]
                is_reading(state, pending) && is_rest_of(pending, state.pairs, tree);
            lemma_listing_knows(state, after, orig, tree, pending, list);
        },
        (MovePoint::LookAt, MoveOutcome::Directory) => {
            let next = state.next(event);
            let pending: Pending = seq![(Seq::empty(), tree)];
            let all = files(tree, Seq::empty());
            assert(pending.drop_last() =~= Seq::empty());
            assert(kinds(pending.drop_last()) =~= next.todo);
            assert(pending_files(pending) =~= all + pending_files(pending.drop_last()));
            assert(next.pairs + pending_files(pending) =~= all);
            assert(is_reading(next, pending) && is_rest_of(pending, next.pairs, tree));
        },
        _ => {},
    }
}

/// A move of a directory that is done has every file of it at the target, whole: by a rename, or
/// by copies of all the files that its listings lead to. What is behind a link does not count.
pub proof fn law_done_has_moved_the_tree(
    states: Seq<MoveState>,
    disks: Seq<Disk>,
    events: Seq<MoveOutcome>,
    tree: Tree,
    k: int,
)
    requires
        is_course(states, disks, events),
        tree is Dir,
        forall|i: int| 0 <= i < events.len() ==> tells_of(#[trigger] states[i], events[i], tree),
        0 <= k < states.len(),
    ensures
        knows_files(states[k], disks[k], disks[0].src, tree),
        states[k].point is Done ==> forall|j: int|
            0 <= j < files(tree, Seq::empty()).len() && disks[0].src.dom().contains(
                #[trigger] files(tree, Seq::empty())[j],
            ) ==> holds(
                disks[k].dst,
                files(tree, Seq::empty())[j],
                disks[0].src[files(tree, Seq::empty())[j]],
            ),
    decreases k,
{
    law_no_file_is_lost(states, disks, events, k);
    if k > 0 {
        law_done_has_moved_the_tree(states, disks, events, tree, k - 1);
        law_no_file_is_lost(states, disks, events, k - 1);
        assert(tells_of(states[k - 1], events[k - 1], tree));
        lemma_step_knows(
            states[k - 1],
            disks[k - 1],
            events[k - 1],
            disks[k],
            disks[0].src,
            tree,
        );
    }
}

/// What a move by copying has done to the two sides so far: the target differs from what it was
/// only at the paths of the moved files, and the first `n` of these are gone from the source,
/// which is otherwise as it was.
pub open spec fn has_taken(state: MoveState, disk: Disk, first: Disk, n: int) -> bool {
    &&& forall|path: Seq<u64>|
        !state.pairs.contains(path) ==> #[trigger] same_at(first.dst, disk.dst, path)
    &&& forall|path: Seq<u64>|
        !state.pairs.contains(path) ==> #[trigger] same_at(first.src, disk.src, path)
    &&& forall|j: int|
        0 <= j < n ==> !(#[trigger] disk.src.dom().contains(state.pairs[j]))
}

/// What holds at every step of a move by copying in which no removal fails.
pub open spec fn takes_source(state: MoveState, disk: Disk, first: Disk) -> bool {
    match state.point {
        MovePoint::Rename | MovePoint::LookAt => disk == first && state.pairs.len() == 0,
        MovePoint::ReadDir(_) => disk == first,
        MovePoint::MakeParent(_) | MovePoint::Copy(_) | MovePoint::Failed => has_taken(
            state,
            disk,
            first,
            0,
        ),
        MovePoint::Remove(i) => has_taken(state, disk, first, i),
        _ => has_taken(state, disk, first, state.pairs.len() as int),
    }
}

/// The step is one of a move by copying in which no removal fails.
pub open spec fn copies_and_removes(state: MoveState, event: MoveOutcome) -> bool {
    match state.point {
        MovePoint::Rename => event != MoveOutcome::Success,
        MovePoint::Remove(_) => event != MoveOutcome::Error,
        _ => true,
    }
}

/// Where looking through entries can end.
proof fn lemma_settled_point(state: MoveState)
    ensures
        match state.settled().point {
            MovePoint::ReadDir(_) => true,
            MovePoint::MakeParent(i) => i == 0,
            MovePoint::SweepRead(_) => state.settled().pairs.len() == 0,
            _ => false,
        },
    decreases state.todo.len(),
{
    if state.todo.len() > 0 {
        let (path, kind) = state.todo.last();
        let rest = MoveState { todo: state.todo.drop_last(), ..state };
        match kind {
            EntryKind::File => lemma_settled_point(
                MoveState { pairs: rest.pairs.push(path), ..rest },
            ),
            EntryKind::Link => lemma_settled_point(rest),
            EntryKind::Dir => {},
        }
    }
}

proof fn lemma_step_takes(
    state: MoveState,
    disk: Disk,
    event: MoveOutcome,
    after: Disk,
    first: Disk,
)
    requires
        state.valid(),
        takes_source(state, disk, first),
        may_follow(state, disk, event, after),
        copies_and_removes(state, event),
    ensures
        takes_source(state.next(event), after, first),
{
    let next = state.next(event);
    match (state.point, event) {
        (MovePoint::ReadDir(path), MoveOutcome::Listed(entries)) => {
            lemma_settled_point(
                MoveState { todo: state.todo + stacked(path, entries), ..state },
            );
        },
        (MovePoint::Copy(i), _) => {
            assert(state.pairs.contains(state.pairs[i]));
            assert forall|path: Seq<u64>| !next.pairs.contains(path) implies #[trigger] same_at(
                first.dst,
                after.dst,
                path,
            ) by {
                assert(same_at(first.dst, disk.dst, path));
                if event == MoveOutcome::Error {
                    assert(same_at(disk.dst, after.dst, path));
                }
            }
            assert forall|path: Seq<u64>| !next.pairs.contains(path) implies #[trigger] same_at(
                first.src,
                after.src,
                path,
            ) by {
                assert(same_at(first.src, disk.src, path));
            }
        },
        (MovePoint::Remove(i), MoveOutcome::Success) => {
            assert(state.pairs.contains(state.pairs[i]));
            assert forall|path: Seq<u64>| !next.pairs.contains(path) implies #[trigger] same_at(
                first.src,
                after.src,
                path,
            ) by {
                assert(same_at(first.src, disk.src, path));
            }
            assert forall|j: int| 0 <= j < i + 1 implies !(#[trigger] after.src.dom().contains(
                state.pairs[j],
            )) by {
                if j < i {
                    assert(!disk.src.dom().contains(state.pairs[j]));
                }
            }
        },
        _ => {},
    }
}

/// A move by copying touches nothing but the moved files: the target is otherwise as it was, even
/// where the move fails. Once it is done, and if no removal has failed, every moved file is gone
/// from the source, and the source is otherwise as it was.
pub proof fn law_copying_takes_the_source(
    states: Seq<MoveState>,
    disks: Seq<Disk>,
    events: Seq<MoveOutcome>,
    k: int,
)
    requires
        is_course(states, disks, events),
        forall|i: int|
            0 <= i < events.len() ==> copies_and_removes(#[trigger] states[i], events[i]),
        0 <= k < states.len(),
    ensures
        takes_source(states[k], disks[k], disks[0]),
        states[k].point is Done || states[k].point is Failed ==> {
            &&& forall|path: Seq<u64>|
                !states[k].pairs.contains(path) ==> #[trigger] same_at(
                    disks[0].dst,
                    disks[k].dst,
                    path,
                )
            &&& forall|path: Seq<u64>|
                !states[k].pairs.contains(path) ==> #[trigger] same_at(
                    disks[0].src,
                    disks[k].src,
                    path,
                )
        },
        states[k].point is Done ==> forall|j: int|
            0 <= j < states[k].pairs.len() ==> !(#[trigger] disks[k].src.dom().contains(
                states[k].pairs[j],
            )),
    decreases k,
{
    if k > 0 {
        law_copying_takes_the_source(states, disks, events, k - 1);
        law_no_file_is_lost(states, disks, events, k - 1);
        assert(copies_and_removes(states[k - 1], events[k - 1]));
        lemma_step_takes(states[k - 1], disks[k - 1], events[k - 1], disks[k], disks[0]);
    }
}

/// The move is past the listings and knows the files of the directory.
proof fn lemma_done_by_copying(
    states: Seq<MoveState>,
    disks: Seq<Disk>,
    events: Seq<MoveOutcome>,
    tree: Tree,
    k: int,
)
    requires
        is_course(states, disks, events),
        tree is Dir,
        forall|i: int| 0 <= i < events.len() ==> tells_of(#[trigger] states[i], events[i], tree),
        forall|i: int|
            0 <= i < events.len() ==> copies_and_removes(#[trigger] states[i], events[i]),
        0 <= k < states.len(),
        states[k].point is Done,
    ensures
        states[k].pairs == files(tree, Seq::empty()),
    decreases k,
{
    let before = states[k - 1];
    assert(states[k] == before.next(events[k - 1]));
    assert(tells_of(before, events[k - 1], tree));
    assert(copies_and_removes(before, events[k - 1]));
    law_done_has_moved_the_tree(states, disks, events, tree, k - 1);
    if before.point is Done {
        lemma_done_by_copying(states, disks, events, tree, k - 1);
    } else if let (MovePoint::ReadDir(path), MoveOutcome::Listed(entries)) = (
        before.point,
        events[k - 1],
    ) {
        lemma_settled_point(MoveState { todo: before.todo + stacked(path, entries), ..before });
    }
}

/// A directory that was moved by copying is gone file by file: none of its files is left in the
/// source, each is at the target, whole, and all other files of the target are as they were.
pub proof fn law_copying_moves_the_tree(
    states: Seq<MoveState>,
    disks: Seq<Disk>,
    events: Seq<MoveOutcome>,
    tree: Tree,
    k: int,
)
    requires
        is_course(states, disks, events),
        tree is Dir,
        forall|i: int| 0 <= i < events.len() ==> tells_of(#[trigger] states[i], events[i], tree),
        forall|i: int|
            0 <= i < events.len() ==> copies_and_removes(#[trigger] states[i], events[i]),
        0 <= k < states.len(),
        states[k].point is Done,
    ensures
        ({
            let all = files(tree, Seq::empty());
            &&& forall|j: int|
                0 <= j < all.len() ==> !disks[k].src.dom().contains(#[trigger] all[j])
                    && disks[0].src.dom().contains(all[j]) && holds(
                    disks[k].dst,
                    all[j],
                    disks[0].src[all[j]],
                )
            &&& forall|path: Seq<u64>|
                !all.contains(path) ==> #[trigger] same_at(disks[0].dst, disks[k].dst, path)
        }),
{
    lemma_done_by_copying(states, disks, events, tree, k);
    law_copying_takes_the_source(states, disks, events, k);
    law_no_file_is_lost(states, disks, events, k);
    let all = files(tree, Seq::empty());
    assert forall|j: int| 0 <= j < all.len() implies !disks[k].src.dom().contains(
        #[trigger] all[j],
    ) && disks[0].src.dom().contains(all[j]) && holds(
        disks[k].dst,
        all[j],
        disks[0].src[all[j]],
    ) by {
        assert(all[j] == states[k].pairs[j]);
        assert(!disks[k].src.dom().contains(states[k].pairs[j]));
    }
}

/// The directories of a tree that stands at `path`, each behind those below it.
pub open spec fn bottom_up(tree: Tree, path: Seq<u64>) -> Seq<Seq<u64>>
    decreases tree,
{
    match tree {
        Tree::Dir(entries) => bottom_up_in(entries, path).push(path),
        _ => Seq::empty(),
    }
}

/// The directories in these entries of the directory at `path`, each behind those below it.
pub open spec fn bottom_up_in(entries: Seq<(u64, Tree)>, path: Seq<u64>) -> Seq<Seq<u64>>
    decreases entries,
{
    if entries.len() == 0 {
        Seq::empty()
    } else {
        bottom_up(entries[0].1, path.push(entries[0].0)) + bottom_up_in(entries.drop_first(), path)
    }
}

/// A thing still to do when directories are removed, with what the directory holds.
pub enum SweepTree {
    Visit(Seq<u64>, Seq<(u64, Tree)>),
    Remove(Seq<u64>),
}

/// The same without what the directories hold.
pub open spec fn sweep_items(stack: Seq<SweepTree>) -> Seq<SweepItem> {
    stack.map_values(
        |t: SweepTree|
            match t {
                SweepTree::Visit(path, _) => SweepItem::Visit(path),
                SweepTree::Remove(path) => SweepItem::Remove(path),
            },
    )
}

/// The directories that the things still to do will remove, in order.
pub open spec fn removals(stack: Seq<SweepTree>) -> Seq<Seq<u64>>
    decreases stack.len(),
{
    if stack.len() == 0 {
        Seq::empty()
    } else {
        (match stack.last() {
            SweepTree::Visit(path, entries) => bottom_up(Tree::Dir(entries), path),
            SweepTree::Remove(path) => seq![path],
        }) + removals(stack.drop_last())
    }
}

/// The number of steps that the things still to do will take.
pub open spec fn sweep_steps(stack: Seq<SweepTree>) -> nat
    decreases stack.len(),
{
    if stack.len() == 0 {
        0
    } else {
        (match stack.last() {
            SweepTree::Visit(_, entries) => 2 * dirs(Tree::Dir(entries)),
            SweepTree::Remove(_) => 1,
        }) + sweep_steps(stack.drop_last())
    }
}

/// What to do for the directories among the entries of the directory at `path`, in reverse.
pub open spec fn visit_trees(path: Seq<u64>, entries: Seq<(u64, Tree)>) -> Seq<SweepTree>
    decreases entries.len(),
{
    if entries.len() == 0 {
        Seq::empty()
    } else {
        let rest = visit_trees(path, entries.drop_first());
        match entries[0].1 {
            Tree::Dir(below) => rest.push(SweepTree::Visit(path.push(entries[0].0), below)),
            _ => rest,
        }
    }
}

/// The move is about to do the last thing of the stack, or is done where there is none.
pub open spec fn is_sweeping(state: MoveState, stack: Seq<SweepTree>) -> bool {
    if stack.len() == 0 {
        state.point is Done
    } else {
        &&& state.sweep == sweep_items(stack.drop_last())
        &&& state.point == match stack.last() {
            SweepTree::Visit(path, _) => MovePoint::SweepRead(path),
            SweepTree::Remove(path) => MovePoint::SweepRemove(path),
        }
    }
}

proof fn lemma_visit_trees(stack: Seq<SweepTree>, path: Seq<u64>, entries: Seq<(u64, Tree)>)
    ensures
        sweep_items(visit_trees(path, entries)) == visits(path, listing(entries)),
        removals(stack + visit_trees(path, entries)) == bottom_up_in(entries, path) + removals(
            stack,
        ),
        sweep_steps(stack + visit_trees(path, entries)) == 2 * dirs_in(entries) + sweep_steps(
            stack,
        ),
    decreases entries.len(),
{
    let all = stack + visit_trees(path, entries);
    if entries.len() == 0 {
        assert(all =~= stack);
        assert(bottom_up_in(entries, path) + removals(stack) =~= removals(stack));
        assert(sweep_items(visit_trees(path, entries)) =~= Seq::empty());
    } else {
        let rest = entries.drop_first();
        lemma_visit_trees(stack, path, rest);
        assert(listing(entries).drop_first() =~= listing(rest));
        assert(listing(entries).first() == (Entry {
            name: entries[0].0,
            kind: kind_of(entries[0].1),
        }));
        let first = bottom_up(entries[0].1, path.push(entries[0].0));
        assert(bottom_up_in(entries, path) + removals(stack) =~= first + (bottom_up_in(rest, path)
            + removals(stack)));
        match entries[0].1 {
            Tree::Dir(below) => {
                let top = SweepTree::Visit(path.push(entries[0].0), below);
                assert(all.drop_last() =~= stack + visit_trees(path, rest));
                assert(all.last() == top);
                assert(entries[0].1 == Tree::Dir(below));
                assert(sweep_steps(all) == 2 * dirs(Tree::Dir(below)) + sweep_steps(
                    stack + visit_trees(path, rest),
                ));
                assert(sweep_items(visit_trees(path, entries)) =~= sweep_items(
                    visit_trees(path, rest),
                ).push(SweepItem::Visit(path.push(entries[0].0))));
            },
            _ => {
                assert(first =~= Seq::empty());
                assert(dirs(entries[0].1) == 0);
                assert(first + (bottom_up_in(rest, path) + removals(stack)) =~= bottom_up_in(
                    rest,
                    path,
                ) + removals(stack));
            },
        }
    }
}

proof fn lemma_swept(state: MoveState, stack: Seq<SweepTree>)
    requires
        state.sweep == sweep_items(stack),
    ensures
        is_sweeping(state.swept(), stack),
{
    if stack.len() > 0 {
        assert(state.sweep.drop_last() =~= sweep_items(stack.drop_last()));
    }
}

/// The directories among the entries that `visit_trees` names stand in the tree that the
/// directory at `path` stands in.
proof fn lemma_visits_stand(tree: Tree, path: Seq<u64>, entries: Seq<(u64, Tree)>, from: int)
    requires
        stands(tree, Seq::empty(), path, Tree::Dir(entries)),
        0 <= from <= entries.len(),
    ensures
        is_in_tree(visit_trees(path, entries.skip(from)), tree),
    decreases entries.len() - from,
{
    let list = entries.skip(from);
    if from < entries.len() {
        lemma_visits_stand(tree, path, entries, from + 1);
        assert(list.drop_first() =~= entries.skip(from + 1));
        assert(list[0] == entries[from]);
        lemma_below_stands(tree, Seq::empty(), path, entries, from);
    }
}

/// Every directory that is still to be listed stands in `tree`.
pub open spec fn is_in_tree(stack: Seq<SweepTree>, tree: Tree) -> bool {
    forall|i: int|
        0 <= i < stack.len() ==> match #[trigger] stack[i] {
            SweepTree::Visit(path, entries) => stands(
                tree,
                Seq::empty(),
                path,
                Tree::Dir(entries),
            ),
            SweepTree::Remove(_) => true,
        }
}

/// The caller lists each directory of the source, and reports the directories in it that stand
/// there in `tree`.
pub open spec fn tells_dirs(state: MoveState, event: MoveOutcome, tree: Tree) -> bool {
    match state.point {
        MovePoint::SweepRead(path) => match event {
            MoveOutcome::Listed(list) => forall|entries: Seq<(u64, Tree)>| #[trigger]
                stands(tree, Seq::empty(), path, Tree::Dir(entries)) ==> visits(path, list)
                    == visits(path, listing(entries)),
            _ => false,
        },
        _ => true,
    }
}

/// The removal of the directories of `tree`, from its first step on.
pub open spec fn is_sweep(states: Seq<MoveState>, events: Seq<MoveOutcome>, tree: Tree) -> bool {
    &&& tree is Dir
    &&& states.len() == events.len() + 1
    &&& states[0].point == MovePoint::SweepRead(Seq::empty())
    &&& states[0].sweep == Seq::<SweepItem>::empty()
    &&& forall|k: int|
        0 <= k < events.len() ==> states[k + 1] == (#[trigger] states[k]).next(events[k])
            && tells_dirs(states[k], events[k], tree)
}

/// The step has removed a directory.
pub open spec fn has_removed(state: MoveState, event: MoveOutcome) -> bool {
    state.point is SweepRemove && event == MoveOutcome::Success
}

/// The directories that were removed before position `k`, in order.
pub open spec fn removed_dirs(
    states: Seq<MoveState>,
    events: Seq<MoveOutcome>,
    k: int,
) -> Seq<Seq<u64>>
    decreases k,
{
    if k <= 0 {
        Seq::empty()
    } else {
        let before = removed_dirs(states, events, k - 1);
        if has_removed(states[k - 1], events[k - 1]) {
            before.push(states[k - 1].point->SweepRemove_0)
        } else {
            before
        }
    }
}

/// What was removed and what the stack will remove are all the directories of `tree`.
pub open spec fn is_sweep_rest(
    stack: Seq<SweepTree>,
    state: MoveState,
    removed: Seq<Seq<u64>>,
    tree: Tree,
) -> bool {
    &&& is_sweeping(state, stack)
    &&& is_in_tree(stack, tree)
    &&& removed + removals(stack) == bottom_up(tree, Seq::empty())
}

/// One more step of a removal that goes on.
proof fn lemma_sweep_step(
    stack: Seq<SweepTree>,
    state: MoveState,
    event: MoveOutcome,
    removed: Seq<Seq<u64>>,
    tree: Tree,
) -> (rest: Seq<SweepTree>)
    requires
        is_sweep_rest(stack, state, removed, tree),
        tells_dirs(state, event, tree),
        !(state.point is SweepRemove && event == MoveOutcome::Error),
    ensures
        is_sweep_rest(
            rest,
            state.next(event),
            if has_removed(state, event) {
                removed.push(state.point->SweepRemove_0)
            } else {
                removed
            },
            tree,
        ),
        state.point is SweepRead || has_removed(state, event) ==> sweep_steps(rest) + 1
            == sweep_steps(stack),
{
    let rest = stack.drop_last();
    if stack.len() == 0 {
        stack
    } else if let SweepTree::Visit(path, entries) = stack.last() {
        assert(stack[stack.len() - 1] == SweepTree::Visit(path, entries));
        assert(stands(tree, Seq::empty(), path, Tree::Dir(entries)));
        let list = event->Listed_0;
        assert(visits(path, list) == visits(path, listing(entries)));
        let based = rest.push(SweepTree::Remove(path));
        let fresh = visit_trees(path, entries);
        let next_stack = based + fresh;
        lemma_visit_trees(based, path, entries);
        let grown = MoveState {
            sweep: state.sweep.push(SweepItem::Remove(path)) + visits(path, list),
            ..state
        };
        assert(grown.sweep =~= sweep_items(next_stack));
        lemma_swept(grown, next_stack);
        assert(based.drop_last() =~= rest);
        assert(entries.skip(0) =~= entries);
        lemma_visits_stand(tree, path, entries, 0);
        assert(is_in_tree(next_stack, tree)) by {
            assert forall|i: int| 0 <= i < next_stack.len() implies match #[trigger] next_stack[i] {
                SweepTree::Visit(at, below) => stands(
                    tree,
                    Seq::empty(),
                    at,
                    Tree::Dir(below),
                ),
                SweepTree::Remove(_) => true,
            } by {
                if i < rest.len() {
                    assert(next_stack[i] == stack[i]);
                } else if i >= based.len() {
                    assert(next_stack[i] == fresh[i - based.len()]);
                }
            }
        }
        assert(bottom_up_in(entries, path) + (seq![path] + removals(rest)) =~= bottom_up(
            Tree::Dir(entries),
            path,
        ) + removals(rest));
        next_stack
    } else {
        let path = stack.last()->Remove_0;
        lemma_swept(state, rest);
        assert forall|i: int| 0 <= i < rest.len() implies match #[trigger] rest[i] {
            SweepTree::Visit(at, below) => stands(tree, Seq::empty(), at, Tree::Dir(below)),
            SweepTree::Remove(_) => true,
        } by {
            assert(rest[i] == stack[i]);
        }
        if event == MoveOutcome::Success {
            assert(removed.push(path) + removals(rest) =~= removed + (seq![path] + removals(
                rest,
            )));
            rest
        } else {
            stack
        }
    }
}

/// Before position `k` no directory has refused to go.
pub open spec fn none_refused(states: Seq<MoveState>, events: Seq<MoveOutcome>, k: int) -> bool {
    forall|i: int|
        0 <= i < k && (#[trigger] states[i]).point is SweepRemove ==> events[i]
            != MoveOutcome::Error
}

/// As long as no directory has refused to go, there is a rest to remove.
proof fn lemma_sweep_rest(
    states: Seq<MoveState>,
    events: Seq<MoveOutcome>,
    tree: Tree,
    k: int,
) -> (stack: Seq<SweepTree>)
    requires
        is_sweep(states, events, tree),
        0 <= k < states.len(),
        none_refused(states, events, k),
    ensures
        is_sweep_rest(stack, states[k], removed_dirs(states, events, k), tree),
    decreases k,
{
    if k == 0 {
        let stack = seq![SweepTree::Visit(Seq::empty(), tree->Dir_0)];
        let all = bottom_up(tree, Seq::empty());
        assert(stack.drop_last() =~= Seq::empty());
        assert(sweep_items(stack.drop_last()) =~= states[0].sweep);
        assert(removals(stack) =~= all + removals(stack.drop_last()));
        assert(removed_dirs(states, events, 0) + removals(stack) =~= all);
        stack
    } else {
        let stack = lemma_sweep_rest(states, events, tree, k - 1);
        assert(states[k] == states[k - 1].next(events[k - 1]));
        lemma_sweep_step(
            stack,
            states[k - 1],
            events[k - 1],
            removed_dirs(states, events, k - 1),
            tree,
        )
    }
}

/// Once the files are gone, the directories of the source are removed from the bottom up, each
/// behind those below it, the source itself last: a removal that is done, and in which no
/// directory has refused to go, has removed them all.
pub proof fn law_directories_go_bottom_up(
    states: Seq<MoveState>,
    events: Seq<MoveOutcome>,
    tree: Tree,
    k: int,
)
    requires
        is_sweep(states, events, tree),
        0 <= k < states.len(),
        none_refused(states, events, k),
    ensures
        removed_dirs(states, events, k).is_prefix_of(bottom_up(tree, Seq::empty())),
        states[k].point is Done ==> removed_dirs(states, events, k) == bottom_up(
            tree,
            Seq::empty(),
        ),
{
    let stack = lemma_sweep_rest(states, events, tree, k);
    let removed = removed_dirs(states, events, k);
    let all = bottom_up(tree, Seq::empty());
    assert(all.subrange(0, removed.len() as int) =~= removed);
    if states[k].point is Done {
        assert(removed + removals(stack) =~= removed);
    }
}

/// A directory that is not empty, or that cannot be removed for another reason, ends the removal
/// of directories at once. The move counts as done.
pub proof fn law_refusal_ends_the_removal(state: MoveState)
    requires
        state.point is SweepRemove,
    ensures
        state.next(MoveOutcome::Error).point is Done,
{
}

/// Where a directory refuses to go, those before it in the order from the bottom up are gone, and
/// that one and all behind it stay for good.
pub proof fn law_removal_stops_at_a_refusal(
    states: Seq<MoveState>,
    events: Seq<MoveOutcome>,
    tree: Tree,
    at: int,
    k: int,
)
    requires
        is_sweep(states, events, tree),
        0 <= at < k < states.len(),
        states[at].point is SweepRemove,
        events[at] == MoveOutcome::Error,
        none_refused(states, events, at),
    ensures
        states[k].point is Done,
        ({
            let all = bottom_up(tree, Seq::empty());
            let gone = removed_dirs(states, events, k);
            &&& gone.len() < all.len()
            &&& gone == all.take(gone.len() as int)
            &&& all[gone.len() as int] == states[at].point->SweepRemove_0
        }),
    decreases k,
{
    let all = bottom_up(tree, Seq::empty());
    assert(states[k] == states[k - 1].next(events[k - 1]));
    if k - 1 > at {
        law_removal_stops_at_a_refusal(states, events, tree, at, k - 1);
    } else {
        let stack = lemma_sweep_rest(states, events, tree, at);
        let gone = removed_dirs(states, events, at);
        let path = states[at].point->SweepRemove_0;
        assert(stack.last() == SweepTree::Remove(path));
        assert(removals(stack) =~= seq![path] + removals(stack.drop_last()));
        assert(removals(stack)[0] == path);
        assert(all[gone.len() as int] == path);
        assert(gone =~= all.take(gone.len() as int));
    }
}

/// The step is answered with an error that a move cannot survive: a listing, the making of a
/// directory or a copy that failed, or the removal of a source that is a single file.
pub open spec fn is_fatal(state: MoveState, event: MoveOutcome) -> bool {
    event == MoveOutcome::Error && match state.point {
        MovePoint::ReadDir(_) | MovePoint::MakeParent(_) | MovePoint::Copy(_) => true,
        MovePoint::Remove(_) => state.single,
        _ => false,
    }
}

/// A move fails if and only if one of its steps was answered with an error that it cannot survive:
/// as long as no step has such an answer, it does not fail.
pub proof fn law_move_fails_for_its_faults(
    states: Seq<MoveState>,
    disks: Seq<Disk>,
    events: Seq<MoveOutcome>,
    k: int,
)
    requires
        is_course(states, disks, events),
        0 <= k < states.len(),
    ensures
        states[k].point is Failed <==> exists|j: int|
            0 <= j < k && is_fatal(#[trigger] states[j], events[j]),
    decreases k,
{
    if k > 0 {
        law_move_fails_for_its_faults(states, disks, events, k - 1);
        let before = states[k - 1];
        assert(states[k] == before.next(events[k - 1]));
        if let (MovePoint::ReadDir(path), MoveOutcome::Listed(entries)) = (
            before.point,
            events[k - 1],
        ) {
            lemma_settled_point(MoveState { todo: before.todo + stacked(path, entries), ..before });
        }
        if is_fatal(before, events[k - 1]) {
            assert(is_fatal(states[k - 1], events[k - 1]));
        }
        if exists|j: int| 0 <= j < k && is_fatal(#[trigger] states[j], events[j]) {
            let j = choose|j: int| 0 <= j < k && is_fatal(#[trigger] states[j], events[j]);
            assert(j == k - 1 || j < k - 1);
        }
    }
}

/// Whether an answer is one to this step.
pub open spec fn answers_move(point: MovePoint, event: MoveOutcome) -> bool {
    let tried = event == MoveOutcome::Success || event == MoveOutcome::Error;
    match point {
        MovePoint::LookAt => event is Missing || event is SingleFile || event is Directory,
        MovePoint::ReadDir(_) | MovePoint::SweepRead(_) => event is Listed || event
            == MoveOutcome::Error,
        MovePoint::Done | MovePoint::Failed => false,
        _ => tried,
    }
}

/// What is no answer to the step of a move changes nothing, and a move that is done or has failed
/// stays so.
pub proof fn law_other_answers_change_nothing(state: MoveState, event: MoveOutcome)
    requires
        !answers_move(state.point, event),
    ensures
        state.next(event) == state,
{
}

/// A rename that works is the whole move. After one that does not, the move goes on as one by
/// copying. A source that is not there is moved already.
pub proof fn law_rename_or_copy()
    ensures
        MoveState::start(MovePoint::Rename).next(MoveOutcome::Success).point is Done,
        MoveState::start(MovePoint::Rename).next(MoveOutcome::Error) == MoveState::start(
            MovePoint::LookAt,
        ),
        MoveState::start(MovePoint::LookAt).next(MoveOutcome::Missing).point is Done,
{
}

/// A source that is a single file is copied to the target itself, then removed.
pub proof fn law_single_file_is_moved()
    ensures
        ({
            let found = MoveState::start(MovePoint::LookAt).next(MoveOutcome::SingleFile);
            let made = found.next(MoveOutcome::Success);
            let copied = made.next(MoveOutcome::Success);
            let removed = copied.next(MoveOutcome::Success);
            &&& found.point == MovePoint::MakeParent(0)
            &&& made.point == MovePoint::Copy(0)
            &&& copied.point == MovePoint::Remove(0)
            &&& removed.point == MovePoint::Done
            &&& found.pairs == seq![Seq::<u64>::empty()]
            &&& removed.pairs == found.pairs
            &&& found.single
        }),
{
}

/// A directory that cannot be listed is left out of the removal, which goes on with what was to
/// come behind it.
pub proof fn law_unreadable_directory_is_left_out(state: MoveState, stack: Seq<SweepTree>)
    requires
        is_sweeping(state, stack),
        stack.len() > 0,
        stack.last() is Visit,
    ensures
        is_sweeping(state.next(MoveOutcome::Error), stack.drop_last()),
{
    lemma_swept(state, stack.drop_last());
}

/// The removal of the file of this number was tried before position `k`.
pub open spec fn has_tried(states: Seq<MoveState>, k: int, j: int) -> bool {
    exists|i: int| 0 <= i < k && (#[trigger] states[i]).point == MovePoint::Remove(j)
}

/// Each file is copied once its directory was made, and each copied file is tried to be removed,
/// whether the removal of others fails or not, before any directory is.
pub proof fn law_every_file_has_its_turn(
    states: Seq<MoveState>,
    disks: Seq<Disk>,
    events: Seq<MoveOutcome>,
    k: int,
)
    requires
        is_course(states, disks, events),
        0 <= k < states.len(),
    ensures
        states[k].point is Copy ==> k > 0 && exists|i: int|
            0 <= i < k && (#[trigger] states[i]).point == MovePoint::MakeParent(
                states[k].point->Copy_0,
            ) && events[i] == MoveOutcome::Success,
        states[k].point is Remove ==> forall|j: int|
            0 <= j < states[k].point->Remove_0 ==> #[trigger] has_tried(states, k, j),
        states[k].point is SweepRead || states[k].point is SweepRemove || states[k].point is Done
            ==> forall|j: int|
            0 <= j < states[k].pairs.len() ==> #[trigger] has_tried(states, k, j),
    decreases k,
{
    if k > 0 {
        law_every_file_has_its_turn(states, disks, events, k - 1);
        law_no_file_is_lost(states, disks, events, k - 1);
        let before = states[k - 1];
        assert(states[k] == before.next(events[k - 1]));
        if let (MovePoint::ReadDir(path), MoveOutcome::Listed(entries)) = (
            before.point,
            events[k - 1],
        ) {
            lemma_settled_point(MoveState { todo: before.todo + stacked(path, entries), ..before });
        }
        assert forall|j: int| has_tried(states, k - 1, j) implies #[trigger] has_tried(
            states,
            k,
            j,
        ) by {
            let i = choose|i: int|
                0 <= i < k - 1 && (#[trigger] states[i]).point == MovePoint::Remove(j);
            assert(states[i].point == MovePoint::Remove(j));
        }
        if let MovePoint::Remove(i) = before.point {
            assert(states[k - 1].point == MovePoint::Remove(i));
            assert(has_tried(states, k, i));
            assert forall|j: int| 0 <= j <= i implies #[trigger] has_tried(states, k, j) by {
                if j < i {
                    assert(has_tried(states, k - 1, j));
                }
            }
        } else if before.point is SweepRead || before.point is SweepRemove || before.point is Done {
            assert forall|j: int| 0 <= j < states[k].pairs.len() implies #[trigger] has_tried(
                states,
                k,
                j,
            ) by {
                assert(has_tried(states, k - 1, j));
            }
        }
    }
}

/// The step of a move of a directory is answered, and not with an error that the move cannot
/// survive. Renames, and removals of files and of directories, may fail; what is there can be
/// listed.
pub open spec fn goes_well(state: MoveState, event: MoveOutcome) -> bool {
    let tried = event == MoveOutcome::Success || event == MoveOutcome::Error;
    match state.point {
        MovePoint::Rename | MovePoint::Remove(_) | MovePoint::SweepRemove(_) => tried,
        MovePoint::LookAt => event == MoveOutcome::Directory,
        MovePoint::ReadDir(_) | MovePoint::SweepRead(_) => event is Listed,
        MovePoint::MakeParent(_) | MovePoint::Copy(_) => event == MoveOutcome::Success,
        MovePoint::Done | MovePoint::Failed => true,
    }
}

/// A move of the directory `tree` that goes well takes at most `n` more steps.
pub open spec fn has_steps_left(state: MoveState, tree: Tree, n: int) -> bool {
    let all = files(tree, Seq::empty());
    let count = all.len() as int;
    let swept = 2 * dirs(tree) as int;
    let ready = state.pairs == all && state.sweep.len() == 0 && !state.single;
    match state.point {
        MovePoint::Rename => {
            &&& state == MoveState::start(MovePoint::Rename)
            &&& n == 2 + dirs(tree) + 3 * count + swept
        },
        MovePoint::LookAt => {
            &&& state == MoveState::start(MovePoint::LookAt)
            &&& n == 1 + dirs(tree) + 3 * count + swept
        },
        MovePoint::ReadDir(_) => {
            &&& state.sweep.len() == 0
            &&& !state.single
            &&& exists|pending: Pending| #[trigger]
                is_reading(state, pending) && is_rest_of(pending, state.pairs, tree) && n
                    == pending_dirs(pending) + 3 * count + swept
        },
        MovePoint::MakeParent(i) => ready && 0 <= i < count && n == 2 * (count - i) + count + swept,
        MovePoint::Copy(i) => ready && 0 <= i < count && n == 2 * (count - i) - 1 + count + swept,
        MovePoint::Remove(i) => ready && 0 <= i < count && n == count - i + swept,
        MovePoint::SweepRead(_) | MovePoint::SweepRemove(_) => exists|
            stack: Seq<SweepTree>,
            removed: Seq<Seq<u64>>,
        | #[trigger]
            is_sweep_rest(stack, state, removed, tree) && n == sweep_steps(stack),
        MovePoint::Done => n == 0,
        MovePoint::Failed => false,
    }
}

/// Looking through entries leaves the rest of a move as it is.
proof fn lemma_settled_rest(state: MoveState)
    ensures
        state.settled().sweep == state.sweep,
        state.settled().single == state.single,
    decreases state.todo.len(),
{
    if state.todo.len() > 0 {
        let (path, kind) = state.todo.last();
        let rest = MoveState { todo: state.todo.drop_last(), ..state };
        match kind {
            EntryKind::File => lemma_settled_rest(
                MoveState { pairs: rest.pairs.push(path), ..rest },
            ),
            EntryKind::Link => lemma_settled_rest(rest),
            EntryKind::Dir => {},
        }
    }
}

/// The removal of directories has twice as many steps as there are directories.
proof fn lemma_sweep_begins(state: MoveState, tree: Tree)
    requires
        tree is Dir,
        state.point == MovePoint::SweepRead(Seq::empty()),
        state.sweep.len() == 0,
    ensures
        has_steps_left(state, tree, 2 * dirs(tree) as int),
{
    let entries = tree->Dir_0;
    let stack = seq![SweepTree::Visit(Seq::empty(), entries)];
    let none = Seq::<Seq<u64>>::empty();
    let all = bottom_up(tree, Seq::empty());
    assert(stack.drop_last() =~= Seq::empty());
    assert(sweep_items(stack.drop_last()) =~= state.sweep);
    assert(removals(stack) =~= all + removals(stack.drop_last()));
    assert(none + removals(stack) =~= all);
    assert(sweep_steps(stack) == 2 * dirs(tree) + sweep_steps(stack.drop_last()));
    assert(is_sweep_rest(stack, state, none, tree));
}

/// A listing brings a move that goes well one step on.
proof fn lemma_listing_goes_well(state: MoveState, list: Seq<Entry>, tree: Tree, n: int)
    requires
        tree is Dir,
        state.point is ReadDir,
        has_steps_left(state, tree, n),
        tells_of(state, MoveOutcome::Listed(list), tree),
    ensures
        has_steps_left(state.next(MoveOutcome::Listed(list)), tree, n - 1),
{
    let all = files(tree, Seq::empty());
    let count = all.len() as int;
    let swept = 2 * dirs(tree) as int;
    let pending = choose|pending: Pending| #[trigger]
        is_reading(state, pending) && is_rest_of(pending, state.pairs, tree) && n == pending_dirs(
            pending,
        ) + 3 * count + swept;
    let (path, part) = pending.last();
    let entries = part->Dir_0;
    assert(stands(tree, Seq::empty(), pending[pending.len() - 1].0, pending[pending.len() - 1].1));
    assert(stands(tree, Seq::empty(), path, Tree::Dir(entries)));
    let rest = pending.drop_last();
    let spread = rest + stacked_trees(path, entries);
    let left = up_to_dir(spread);
    let opened = MoveState { todo: state.todo + stacked(path, list), ..state };
    lemma_stacked_trees(rest, path, entries);
    assert(kinds(spread) =~= opened.todo);
    lemma_settled_trees(opened, spread);
    lemma_settled_rest(opened);
    lemma_up_to_dir(spread);
    let after = state.next(MoveOutcome::Listed(list));
    assert(pending_dirs(pending) == 1 + dirs_in(entries) + pending_dirs(rest));
    assert(state.pairs + (files_in(entries, path) + pending_files(rest)) =~= all);
    assert forall|i: int| 0 <= i < left.len() implies stands(
        tree,
        Seq::empty(),
        (#[trigger] left[i]).0,
        left[i].1,
    ) by {
        assert(left[i] == spread[i]);
        if i < rest.len() {
            assert(left[i] == pending[i]);
        } else {
            let j = entries.len() - 1 - (i - rest.len());
            assert(left[i] == (path.push(entries[j].0), entries[j].1));
            lemma_below_stands(tree, Seq::empty(), path, entries, j);
        }
    }
    if left.len() > 0 {
        assert(is_reading(after, left) && is_rest_of(left, after.pairs, tree) && n - 1
            == pending_dirs(left) + 3 * count + swept);
    } else {
        assert(after.pairs + pending_files(left) =~= after.pairs);
        if count == 0 {
            lemma_sweep_begins(after, tree);
        }
    }
}

/// Every step that goes well brings a move nearer to its end.
proof fn lemma_move_goes_on(state: MoveState, event: MoveOutcome, tree: Tree, n: int) -> (m: int)
    requires
        tree is Dir,
        has_steps_left(state, tree, n),
        goes_well(state, event),
        tells_of(state, event, tree),
        tells_dirs(state, event, tree),
    ensures
        has_steps_left(state.next(event), tree, m),
        m < n || (m == 0 && n == 0),
        n >= 0,
{
    let next = state.next(event);
    let all = files(tree, Seq::empty());
    match state.point {
        MovePoint::Rename => if event == MoveOutcome::Success {
            0
        } else {
            n - 1
        },
        MovePoint::LookAt => {
            let pending: Pending = seq![(Seq::empty(), tree)];
            assert(pending.drop_last() =~= Seq::empty());
            assert(kinds(pending.drop_last()) =~= next.todo);
            assert(pending_files(pending) =~= all + pending_files(pending.drop_last()));
            assert(next.pairs + pending_files(pending) =~= all);
            assert(pending_dirs(pending) == dirs(tree) + pending_dirs(pending.drop_last()));
            assert(is_reading(next, pending) && is_rest_of(pending, next.pairs, tree));
            n - 1
        },
        MovePoint::ReadDir(_) => {
            lemma_listing_goes_well(state, event->Listed_0, tree, n);
            n - 1
        },
        MovePoint::MakeParent(_) | MovePoint::Copy(_) => n - 1,
        MovePoint::Remove(i) => {
            if i + 1 == all.len() {
                lemma_sweep_begins(next, tree);
            }
            n - 1
        },
        MovePoint::SweepRead(_) | MovePoint::SweepRemove(_) => {
            let (stack, removed) = choose|stack: Seq<SweepTree>, removed: Seq<Seq<u64>>| #[trigger]
                is_sweep_rest(stack, state, removed, tree) && n == sweep_steps(stack);
            assert(sweep_steps(stack) > 0) by {
                assert(stack.len() > 0);
                if let SweepTree::Visit(_, entries) = stack.last() {
                    assert(dirs(Tree::Dir(entries)) > 0);
                }
            }
            if event == MoveOutcome::Error {
                0
            } else {
                let rest = lemma_sweep_step(stack, state, event, removed, tree);
                if rest.len() == 0 {
                    0
                } else {
                    n - 1
                }
            }
        },
        MovePoint::Done => 0,
        MovePoint::Failed => 0,
    }
}

/// A move of a directory that goes well comes to its end: whatever files it holds, at whatever
/// depth, it never fails, and after at most two steps, three for each file and three for each
/// directory it is done, with every file of the directory at the target, whole. Renames, and
/// removals of files and of directories, may fail on the way.
pub proof fn law_move_comes_to_its_end(
    states: Seq<MoveState>,
    disks: Seq<Disk>,
    events: Seq<MoveOutcome>,
    tree: Tree,
    k: int,
)
    requires
        is_course(states, disks, events),
        tree is Dir,
        forall|i: int|
            0 <= i < events.len() ==> {
                &&& goes_well(#[trigger] states[i], events[i])
                &&& tells_of(states[i], events[i], tree)
                &&& tells_dirs(states[i], events[i], tree)
            },
        0 <= k < states.len(),
    ensures
        !(states[k].point is Failed),
        k >= 2 + 3 * files(tree, Seq::empty()).len() + 3 * dirs(tree) ==> {
            &&& states[k].point is Done
            &&& forall|j: int|
                0 <= j < files(tree, Seq::empty()).len() && disks[0].src.dom().contains(
                    #[trigger] files(tree, Seq::empty())[j],
                ) ==> holds(
                    disks[k].dst,
                    files(tree, Seq::empty())[j],
                    disks[0].src[files(tree, Seq::empty())[j]],
                )
        },
{
    let n = lemma_steps_left(states, disks, events, tree, k);
    if k >= 2 + 3 * files(tree, Seq::empty()).len() + 3 * dirs(tree) {
        law_done_has_moved_the_tree(states, disks, events, tree, k);
    }
}

/// The steps that a move has taken and those that it has left are no more than it needs.
proof fn lemma_steps_left(
    states: Seq<MoveState>,
    disks: Seq<Disk>,
    events: Seq<MoveOutcome>,
    tree: Tree,
    k: int,
) -> (n: int)
    requires
        is_course(states, disks, events),
        tree is Dir,
        forall|i: int|
            0 <= i < events.len() ==> {
                &&& goes_well(#[trigger] states[i], events[i])
                &&& tells_of(states[i], events[i], tree)
                &&& tells_dirs(states[i], events[i], tree)
            },
        0 <= k < states.len(),
    ensures
        has_steps_left(states[k], tree, n),
        n == 0 || n + k <= 2 + 3 * files(tree, Seq::empty()).len() + 3 * dirs(tree),
        n >= 0,
        n == 0 ==> states[k].point is Done,
    decreases k,
{
    if k == 0 {
        if states[0].point is Rename {
            (2 + 3 * files(tree, Seq::empty()).len() + 3 * dirs(tree)) as int
        } else {
            (1 + 3 * files(tree, Seq::empty()).len() + 3 * dirs(tree)) as int
        }
    } else {
        let n = lemma_steps_left(states, disks, events, tree, k - 1);
        assert(states[k] == states[k - 1].next(events[k - 1]));
        assert(goes_well(states[k - 1], events[k - 1]));
        let m = lemma_move_goes_on(states[k - 1], events[k - 1], tree, n);
        lemma_none_left(states[k], tree, m);
        m
    }
}

/// Only a move that is done has no step left.
proof fn lemma_none_left(state: MoveState, tree: Tree, n: int)
    requires
        has_steps_left(state, tree, n),
    ensures
        n >= 0,
        n == 0 ==> state.point is Done,
{
    if state.point is SweepRead || state.point is SweepRemove {
        let (stack, removed) = choose|stack: Seq<SweepTree>, removed: Seq<Seq<u64>>| #[trigger]
            is_sweep_rest(stack, state, removed, tree) && n == sweep_steps(stack);
        assert(stack.len() > 0);
        if let SweepTree::Visit(_, entries) = stack.last() {
            assert(dirs(Tree::Dir(entries)) > 0);
        }
    } else if state.point is ReadDir {
        let all = files(tree, Seq::empty());
        let pending = choose|pending: Pending| #[trigger]
            is_reading(state, pending) && is_rest_of(pending, state.pairs, tree) && n
                == pending_dirs(pending) + 3 * (all.len() as int) + 2 * dirs(tree) as int;
        assert(dirs(pending.last().1) > 0);
    }
}

} // verus!
