//! Link operations: what it takes to create or remove one symbolic link.
//!
//! The functions here decide; they do not act. Given what stands at the
//! target, they return the filesystem operations to carry out, in order, or
//! the reason why nothing may be done. Where the filesystem then refuses an
//! operation, [`LinkRequest::failure`] says what that means.

use crate::path::{
    file_name, final_component, join, joined, lemma_final_component_joined,
    lemma_final_component_plain,
};
use vstd::prelude::*;

verus! {

/// What stands at a target path.
#[derive(Debug, Clone, Copy, PartialEq, Eq, Structural)]
pub enum TargetState {
    /// Nothing.
    Absent,
    /// A symbolic link.
    Link,
    /// A file or directory that is not a symbolic link.
    Occupied,
}

/// One filesystem operation.
#[derive(Debug, PartialEq, Eq)]
pub enum FsOp {
    /// Remove the symbolic link at `target`.
    Remove { target: String },
    /// Create a symbolic link at `target` that points to `source`.
    Symlink { source: String, target: String },
}

/// The mathematical value of an [`FsOp`].
pub enum FsOpView {
    Remove { target: Seq<char> },
    Symlink { source: Seq<char>, target: Seq<char> },
}

impl View for FsOp {
    type V = FsOpView;

    open spec fn view(&self) -> FsOpView {
        match self {
            FsOp::Remove { target } => FsOpView::Remove { target: target@ },
            FsOp::Symlink { source, target } => FsOpView::Symlink {
                source: source@,
                target: target@,
            },
        }
    }
}

impl DeepView for FsOp {
    type V = FsOpView;

    open spec fn deep_view(&self) -> FsOpView {
        self@
    }
}

/// Why a link was not created or removed.
#[derive(Debug, PartialEq, Eq)]
pub enum LinkError {
    /// The target is a symbolic link already, and overwriting was not asked for.
    LinkAlreadyExists,
    /// The target is a real file or directory; it is never overwritten.
    TargetOccupied,
    /// The target was free when it was looked at and taken when the link was made.
    UnreachableRace,
    /// The filesystem refused to make the link, or to clear its place.
    LinkCreateFailed { cause: String },
    /// There is no symbolic link to remove at the target.
    LinkNotFound,
    /// The filesystem refused to remove the link.
    LinkRemoveFailed { cause: String },
}

/// The mathematical value of a [`LinkError`].
pub enum LinkErrorView {
    LinkAlreadyExists,
    TargetOccupied,
    UnreachableRace,
    LinkCreateFailed { cause: Seq<char> },
    LinkNotFound,
    LinkRemoveFailed { cause: Seq<char> },
}

impl View for LinkError {
    type V = LinkErrorView;

    open spec fn view(&self) -> LinkErrorView {
        match self {
            LinkError::LinkAlreadyExists => LinkErrorView::LinkAlreadyExists,
            LinkError::TargetOccupied => LinkErrorView::TargetOccupied,
            LinkError::UnreachableRace => LinkErrorView::UnreachableRace,
            LinkError::LinkCreateFailed { cause } => LinkErrorView::LinkCreateFailed {
                cause: cause@,
            },
            LinkError::LinkNotFound => LinkErrorView::LinkNotFound,
            LinkError::LinkRemoveFailed { cause } => LinkErrorView::LinkRemoveFailed {
                cause: cause@,
            },
        }
    }
}

/// The mathematical value of a plan: the operations, or the reason for none.
pub open spec fn plan_view(r: Result<Vec<FsOp>, LinkError>) -> Result<Seq<FsOpView>, LinkErrorView> {
    match r {
        Ok(ops) => Ok(ops.deep_view()),
        Err(e) => Err(e@),
    }
}

/// What linking `target` to `source` takes, given what stands at `target`.
///
/// A free target takes the creation of the link. A target that is a link
/// takes its removal first, and that only with `force`. A target that is
/// occupied by anything else is left alone, with or without `force`.
pub open spec fn link_ops(
    source: Seq<char>,
    target: Seq<char>,
    force: bool,
    found: TargetState,
) -> Result<Seq<FsOpView>, LinkErrorView> {
    match found {
        TargetState::Absent => Ok(seq![FsOpView::Symlink { source, target }]),
        TargetState::Link => if force {
            Ok(seq![FsOpView::Remove { target }, FsOpView::Symlink { source, target }])
        } else {
            Err(LinkErrorView::LinkAlreadyExists)
        },
        TargetState::Occupied => Err(LinkErrorView::TargetOccupied),
    }
}

/// What removing the link at `target` takes, given what stands there: only a
/// symbolic link is ever removed.
pub open spec fn unlink_ops(target: Seq<char>, found: TargetState) -> Result<
    Seq<FsOpView>,
    LinkErrorView,
> {
    match found {
        TargetState::Link => Ok(seq![FsOpView::Remove { target }]),
        _ => Err(LinkErrorView::LinkNotFound),
    }
}

/// What it means that the filesystem refused `op`, reporting `cause`, and
/// with `already_exists` where it said that the path is taken.
///
/// A refused removal leaves an unlink request unserved. While linking, a
/// target that is taken at creation is a race, since the plan held the
/// creation only for a target that was free or had just been cleared; every
/// other refusal is a failure to create the link.
pub open spec fn failure_of(delete: bool, op: FsOpView, already_exists: bool, cause: Seq<char>) -> LinkErrorView {
    if delete {
        LinkErrorView::LinkRemoveFailed { cause }
    } else if op is Symlink && already_exists {
        LinkErrorView::UnreachableRace
    } else {
        LinkErrorView::LinkCreateFailed { cause }
    }
}

impl TargetState {
    /// What stands at a path, from two observations: whether the path itself
    /// is a symbolic link, and whether anything exists there.
    pub open spec fn probed(is_symlink: bool, exists: bool) -> TargetState {
        if is_symlink {
            TargetState::Link
        } else if exists {
            TargetState::Occupied
        } else {
            TargetState::Absent
        }
    }

    /// Tells what stands at a path from two observations: whether the path
    /// itself is a symbolic link, and whether anything exists there.
    pub fn from_probe(is_symlink: bool, exists: bool) -> (found: TargetState)
        ensures
            found == Self::probed(is_symlink, exists),
    {
        if is_symlink {
            TargetState::Link
        } else if exists {
            TargetState::Occupied
        } else {
            TargetState::Absent
        }
    }
}

/// Says what it means that the filesystem refused `op`. `delete` tells
/// whether a link was being removed or made, `cause` is the filesystem's
/// report, `already_exists` whether it said that the path is taken.
pub fn refusal(delete: bool, op: &FsOp, already_exists: bool, cause: &str) -> (error: LinkError)
    ensures
        error@ == failure_of(delete, op@, already_exists, cause@),
{
    if delete {
        LinkError::LinkRemoveFailed { cause: cause.to_owned() }
    } else {
        match op {
            FsOp::Symlink { .. } => {
                if already_exists {
                    LinkError::UnreachableRace
                } else {
                    LinkError::LinkCreateFailed { cause: cause.to_owned() }
                }
            },
            FsOp::Remove { .. } => LinkError::LinkCreateFailed { cause: cause.to_owned() },
        }
    }
}

/// Plans the link at `target` that points to `source_absolute`, where `found`
/// stands at `target`.
pub fn create_link(source_absolute: &str, target: &str, force: bool, found: TargetState) -> (r:
    Result<Vec<FsOp>, LinkError>)
    ensures
        plan_view(r) == link_ops(source_absolute@, target@, force, found),
        r is Ok <==> found == TargetState::Absent || (found == TargetState::Link && force),
        found == TargetState::Occupied ==> r == Err::<Vec<FsOp>, LinkError>(
            LinkError::TargetOccupied,
        ),
        found == TargetState::Link && !force ==> r == Err::<Vec<FsOp>, LinkError>(
            LinkError::LinkAlreadyExists,
        ),
{
    let mut ops: Vec<FsOp> = Vec::new();
    match found {
        TargetState::Absent => {},
        TargetState::Link => {
            if !force {
                return Err(LinkError::LinkAlreadyExists);
            }
            ops.push(FsOp::Remove { target: target.to_owned() });
        },
        TargetState::Occupied => {
            return Err(LinkError::TargetOccupied);
        },
    }
    ops.push(FsOp::Symlink { source: source_absolute.to_owned(), target: target.to_owned() });
    assert(ops.deep_view() == link_ops(source_absolute@, target@, force, found)->Ok_0);
    Ok(ops)
}

/// Plans the removal of the link at `target`, where `found` stands at `target`.
pub fn delete_link(target: &str, found: TargetState) -> (r: Result<Vec<FsOp>, LinkError>)
    ensures
        plan_view(r) == unlink_ops(target@, found),
        r is Ok <==> found == TargetState::Link,
        found != TargetState::Link ==> r == Err::<Vec<FsOp>, LinkError>(LinkError::LinkNotFound),
{
    match found {
        TargetState::Link => {
            let mut ops: Vec<FsOp> = Vec::new();
            ops.push(FsOp::Remove { target: target.to_owned() });
            assert(ops.deep_view() == unlink_ops(target@, found)->Ok_0);
            Ok(ops)
        },
        _ => Err(LinkError::LinkNotFound),
    }
}

/// One request to link or unlink: the unit that is served or refused as a whole.
#[derive(Debug, PartialEq, Eq)]
pub struct LinkRequest {
    /// The absolute path that the link points to.
    pub source: String,
    /// The path of the link.
    pub target: String,
    /// Whether a link that stands at the target may be replaced.
    pub force: bool,
    /// Whether the link is to be removed rather than made.
    pub delete: bool,
}

impl LinkRequest {
    /// A request is well formed when the link carries the name of what it
    /// points to: the final components of target and source are the same.
    pub open spec fn wf(&self) -> bool {
        &&& final_component(self.source@) is Some
        &&& final_component(self.target@) == final_component(self.source@)
    }

    /// Builds the request for a link in `target_directory` to
    /// `source_absolute`, under the name of the source's final component.
    ///
    /// There is none for a source that has no final component.
    pub fn new(source_absolute: &str, target_directory: &str, force: bool, delete: bool) -> (request:
        Option<LinkRequest>)
        ensures
            request is Some <==> final_component(source_absolute@) is Some,
            request matches Some(q) ==> {
                &&& q.source@ == source_absolute@
                &&& q.target@ == joined(target_directory@, final_component(source_absolute@)->0)
                &&& q.force == force
                &&& q.delete == delete
                &&& q.wf()
            },
    {
        match file_name(source_absolute) {
            Some(name) => {
                proof {
                    lemma_final_component_plain(source_absolute@);
                    lemma_final_component_joined(target_directory@, name@);
                }
                Some(
                    LinkRequest {
                        source: source_absolute.to_owned(),
                        target: join(target_directory, name.as_str()),
                        force,
                        delete,
                    },
                )
            },
            None => None,
        }
    }

    /// What serving the request takes, where `found` stands at its target.
    pub open spec fn ops(&self, found: TargetState) -> Result<Seq<FsOpView>, LinkErrorView> {
        if self.delete {
            unlink_ops(self.target@, found)
        } else {
            link_ops(self.source@, self.target@, self.force, found)
        }
    }

    /// Plans the request, where `found` stands at its target.
    pub fn plan(&self, found: TargetState) -> (r: Result<Vec<FsOp>, LinkError>)
        ensures
            plan_view(r) == self.ops(found),
    {
        if self.delete {
            delete_link(self.target.as_str(), found)
        } else {
            create_link(self.source.as_str(), self.target.as_str(), self.force, found)
        }
    }

    /// Says what it means that the filesystem refused `op` while the request
    /// was served. `cause` is the filesystem's report, `already_exists`
    /// whether it said that the path is taken.
    pub fn failure(&self, op: &FsOp, already_exists: bool, cause: &str) -> (error: LinkError)
        ensures
            error@ == failure_of(self.delete, op@, already_exists, cause@),
    {
        refusal(self.delete, op, already_exists, cause)
    }
}

} // verus!
