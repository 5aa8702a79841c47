//! A model of the paths that link operations touch, and what the plans of
//! [`crate::link`] do to them.
//!
//! The model knows no permissions and no full disks: an operation is carried
//! out whenever the state of its target allows it. What is proved here holds
//! of a filesystem that behaves so, with this tool as its only writer.

use crate::link::{link_ops, unlink_ops, FsOpView, LinkErrorView, TargetState};
use vstd::prelude::*;

verus! {

/// What stands at a path that holds something.
pub enum Node {
    /// A symbolic link that points to `to`.
    Link { to: Seq<char> },
    /// A file or directory that is not a symbolic link.
    Other,
}

/// What a look at `path` finds in `tree`.
pub open spec fn state_at(tree: Map<Seq<char>, Node>, path: Seq<char>) -> TargetState {
    if !tree.dom().contains(path) {
        TargetState::Absent
    } else if tree[path] is Link {
        TargetState::Link
    } else {
        TargetState::Occupied
    }
}

/// Whether `tree` lets `op` be carried out: only a link can be removed, and
/// a link can be created only where nothing stands.
pub open spec fn accepts(tree: Map<Seq<char>, Node>, op: FsOpView) -> bool {
    match op {
        FsOpView::Remove { target } => state_at(tree, target) == TargetState::Link,
        FsOpView::Symlink { source, target } => state_at(tree, target) == TargetState::Absent,
    }
}

/// `tree` once `op` has been carried out.
pub open spec fn after(tree: Map<Seq<char>, Node>, op: FsOpView) -> Map<Seq<char>, Node> {
    match op {
        FsOpView::Remove { target } => tree.remove(target),
        FsOpView::Symlink { source, target } => tree.insert(target, Node::Link { to: source }),
    }
}

/// Whether `tree` lets `ops` be carried out one after the other.
pub open spec fn accepts_all(tree: Map<Seq<char>, Node>, ops: Seq<FsOpView>) -> bool
    decreases ops.len(),
{
    ops.len() == 0 || (accepts(tree, ops[0]) && accepts_all(after(tree, ops[0]), ops.skip(1)))
}

/// `tree` once `ops` have been carried out one after the other.
pub open spec fn after_all(tree: Map<Seq<char>, Node>, ops: Seq<FsOpView>) -> Map<Seq<char>, Node>
    decreases ops.len(),
{
    if ops.len() == 0 {
        tree
    } else {
        after_all(after(tree, ops[0]), ops.skip(1))
    }
}

/// `tree` once a plan has been served: a refusal changes nothing.
pub open spec fn served(
    tree: Map<Seq<char>, Node>,
    plan: Result<Seq<FsOpView>, LinkErrorView>,
) -> Map<Seq<char>, Node> {
    match plan {
        Ok(ops) => after_all(tree, ops),
        Err(_) => tree,
    }
}

/// A request to link that meets no conflict is carried out in full, and then
/// the target is a symbolic link that points to the source. No other path
/// changes.
pub proof fn lemma_link_created(
    tree: Map<Seq<char>, Node>,
    source: Seq<char>,
    target: Seq<char>,
    force: bool,
)
    requires
        link_ops(source, target, force, state_at(tree, target)) is Ok,
    ensures
        accepts_all(tree, link_ops(source, target, force, state_at(tree, target))->Ok_0),
        served(tree, link_ops(source, target, force, state_at(tree, target))) == tree.insert(
            target,
            Node::Link { to: source },
        ),
        state_at(
            served(tree, link_ops(source, target, force, state_at(tree, target))),
            target,
        ) == TargetState::Link,
{
    let ops = link_ops(source, target, force, state_at(tree, target))->Ok_0;
    let link = FsOpView::Symlink { source, target };
    reveal_with_fuel(accepts_all, 3);
    reveal_with_fuel(after_all, 3);
    if state_at(tree, target) == TargetState::Absent {
        assert(ops.skip(1).len() == 0);
    } else {
        let cleared = tree.remove(target);
        assert(ops.skip(1) == seq![link]);
        assert(ops.skip(1).skip(1).len() == 0);
        assert(cleared.insert(target, Node::Link { to: source }) == tree.insert(
            target,
            Node::Link { to: source },
        ));
    }
}

/// Removing the link at a path that is a symbolic link takes the link away
/// and changes no other path. At a path that is no symbolic link, be it free
/// or occupied, the request is refused and nothing changes.
pub proof fn lemma_link_deleted(tree: Map<Seq<char>, Node>, target: Seq<char>)
    ensures
        state_at(tree, target) == TargetState::Link ==> {
            &&& unlink_ops(target, state_at(tree, target)) is Ok
            &&& accepts_all(tree, unlink_ops(target, state_at(tree, target))->Ok_0)
            &&& served(tree, unlink_ops(target, state_at(tree, target))) == tree.remove(target)
        },
        state_at(tree, target) != TargetState::Link ==> {
            &&& unlink_ops(target, state_at(tree, target)) == Err::<
                Seq<FsOpView>,
                LinkErrorView,
            >(LinkErrorView::LinkNotFound)
            &&& served(tree, unlink_ops(target, state_at(tree, target))) == tree
        },
{
    reveal_with_fuel(accepts_all, 2);
    reveal_with_fuel(after_all, 2);
    if state_at(tree, target) == TargetState::Link {
        let ops = unlink_ops(target, state_at(tree, target))->Ok_0;
        assert(ops.skip(1).len() == 0);
    }
}

/// Linking with force twice in a row succeeds both times, and leaves what
/// the first time left: one symbolic link at the target, pointing to the
/// source. This holds wherever the target is not occupied by a real file.
pub proof fn lemma_forced_link_twice(
    tree: Map<Seq<char>, Node>,
    source: Seq<char>,
    target: Seq<char>,
)
    requires
        state_at(tree, target) != TargetState::Occupied,
    ensures
        ({
            let first = link_ops(source, target, true, state_at(tree, target));
            let once = served(tree, first);
            let second = link_ops(source, target, true, state_at(once, target));
            let twice = served(once, second);
            &&& first is Ok
            &&& accepts_all(tree, first->Ok_0)
            &&& second is Ok
            &&& accepts_all(once, second->Ok_0)
            &&& twice == once
            &&& twice == tree.insert(target, Node::Link { to: source })
        }),
{
    lemma_link_created(tree, source, target, true);
    let once = served(tree, link_ops(source, target, true, state_at(tree, target)));
    lemma_link_created(once, source, target, true);
    assert(once.insert(target, Node::Link { to: source }) == once);
}

/// Linking without force where a symbolic link stands is refused, and the
/// link that stands there is left as it is.
pub proof fn lemma_unforced_link_refused(
    tree: Map<Seq<char>, Node>,
    source: Seq<char>,
    target: Seq<char>,
)
    requires
        state_at(tree, target) == TargetState::Link,
    ensures
        link_ops(source, target, false, state_at(tree, target)) == Err::<
            Seq<FsOpView>,
            LinkErrorView,
        >(LinkErrorView::LinkAlreadyExists),
        served(tree, link_ops(source, target, false, state_at(tree, target))) == tree,
{
}

/// Linking where a real file or directory stands is refused, with force as
/// without, and nothing changes.
pub proof fn lemma_occupied_target_refused(
    tree: Map<Seq<char>, Node>,
    source: Seq<char>,
    target: Seq<char>,
    force: bool,
)
    requires
        state_at(tree, target) == TargetState::Occupied,
    ensures
        link_ops(source, target, force, state_at(tree, target)) == Err::<
            Seq<FsOpView>,
            LinkErrorView,
        >(LinkErrorView::TargetOccupied),
        served(tree, link_ops(source, target, force, state_at(tree, target))) == tree,
{
}

} // verus!
