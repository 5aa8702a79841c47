//! The directory walk: which entries of a directory get a link, and what
//! that takes.
//!
//! Only the immediate entries of the directory are looked at; an entry that
//! is itself a directory gets one link, like a file. The walk stops at the
//! first entry that cannot be served. What was planned for the entries
//! before it stands.

use crate::cli::Cli;
use crate::entry::DirectoryEntry;
use crate::ignore::{ignored, should_ignore, verdict_view, IgnoreError, IgnoreErrorView};
use crate::link::{
    failure_of, link_ops, refusal, FsOp, FsOpView, LinkError, LinkErrorView, LinkRequest,
    TargetState,
};
use crate::path::{
    final_component, joined, lemma_final_component_joined, lemma_final_component_plain,
};
use vstd::prelude::*;

verus! {

/// Why a walk stopped.
#[derive(Debug, PartialEq, Eq)]
#[allow(inconsistent_fields)]
pub enum WalkError {
    /// Removing the links of a whole directory is not offered.
    BulkUnlinkUnsupported,
    /// The ignore rules could not be applied to `entry`.
    Ignore { entry: String, error: IgnoreError },
    /// The link for `entry` could not be made.
    Link { entry: String, error: LinkError },
}

/// The mathematical value of a [`WalkError`].
#[allow(inconsistent_fields)]
pub enum WalkErrorView {
    BulkUnlinkUnsupported,
    Ignore { entry: Seq<char>, error: IgnoreErrorView },
    Link { entry: Seq<char>, error: LinkErrorView },
}

impl View for WalkError {
    type V = WalkErrorView;

    open spec fn view(&self) -> WalkErrorView {
        match self {
            WalkError::BulkUnlinkUnsupported => WalkErrorView::BulkUnlinkUnsupported,
            WalkError::Ignore { entry, error } => WalkErrorView::Ignore {
                entry: entry@,
                error: error@,
            },
            WalkError::Link { entry, error } => WalkErrorView::Link { entry: entry@, error: error@ },
        }
    }
}

/// What making the link for one entry takes.
#[derive(Debug, PartialEq, Eq)]
pub struct LinkPlan {
    /// The entry's name within the directory that is walked.
    pub entry: String,
    /// The operations to carry out, in order.
    pub ops: Vec<FsOp>,
}

/// The mathematical value of a [`LinkPlan`].
pub struct LinkPlanView {
    pub entry: Seq<char>,
    pub ops: Seq<FsOpView>,
}

impl View for LinkPlan {
    type V = LinkPlanView;

    open spec fn view(&self) -> LinkPlanView {
        LinkPlanView { entry: self.entry@, ops: self.ops.deep_view() }
    }
}

impl DeepView for LinkPlan {
    type V = LinkPlanView;

    open spec fn deep_view(&self) -> LinkPlanView {
        self@
    }
}

impl LinkPlan {
    /// Says what it means for the walk that the filesystem refused `op`
    /// while this plan was carried out. `cause` is the filesystem's report,
    /// `already_exists` whether it said that the path is taken.
    pub fn failure(&self, op: &FsOp, already_exists: bool, cause: &str) -> (error: WalkError)
        ensures
            error@ == (WalkErrorView::Link {
                entry: self.entry@,
                error: failure_of(false, op@, already_exists, cause@),
            }),
    {
        WalkError::Link { entry: self.entry.clone(), error: refusal(false, op, already_exists, cause) }
    }
}

/// What the walk does with one entry, given whether the ignore rules exclude
/// it and what stands at its target: an excluded entry gets no plan; any
/// other entry gets the plan of a link in `target_directory`, under its own
/// name, to its path. A failure of either step carries the entry's name.
pub open spec fn entry_plan(
    entry: DirectoryEntry,
    excluded: Result<bool, IgnoreErrorView>,
    found: TargetState,
    target_directory: Seq<char>,
    force: bool,
) -> Result<Option<LinkPlanView>, WalkErrorView> {
    match excluded {
        Err(error) => Err(WalkErrorView::Ignore { entry: entry.relative_name@, error }),
        Ok(true) => Ok(None),
        Ok(false) => match link_ops(
            entry.absolute_path@,
            joined(target_directory, entry.relative_name@),
            force,
            found,
        ) {
            Ok(ops) => Ok(Some(LinkPlanView { entry: entry.relative_name@, ops })),
            Err(error) => Err(WalkErrorView::Link { entry: entry.relative_name@, error }),
        },
    }
}

/// The mathematical value of what [`link_entry`] returns.
pub open spec fn step_view(r: Result<Option<LinkPlan>, WalkError>) -> Result<
    Option<LinkPlanView>,
    WalkErrorView,
> {
    match r {
        Ok(Some(plan)) => Ok(Some(plan@)),
        Ok(None) => Ok(None),
        Err(e) => Err(e@),
    }
}

/// The mathematical value of how a walk ended.
pub open spec fn end_view(r: Result<(), WalkError>) -> Result<(), WalkErrorView> {
    match r {
        Ok(_) => Ok(()),
        Err(e) => Err(e@),
    }
}

/// The walk of the first `n` of `entries`, each with what stands at its
/// target: the plans made, in the order of the entries, and how the walk
/// ended. Once an entry has failed, no later entry is looked at.
pub open spec fn walk_upto(
    entries: Seq<(DirectoryEntry, TargetState)>,
    n: int,
    rules: Seq<Seq<char>>,
    root: Seq<char>,
    target_directory: Seq<char>,
    force: bool,
) -> (Seq<LinkPlanView>, Result<(), WalkErrorView>)
    decreases n,
{
    if n <= 0 {
        (Seq::empty(), Ok(()))
    } else {
        let before = walk_upto(entries, n - 1, rules, root, target_directory, force);
        let entry = entries[n - 1].0;
        if before.1 is Err {
            before
        } else {
            match entry_plan(
                entry,
                ignored(entry.absolute_path@, rules, root),
                entries[n - 1].1,
                target_directory,
                force,
            ) {
                Err(error) => (before.0, Err(error)),
                Ok(None) => before,
                Ok(Some(plan)) => (before.0.push(plan), Ok(())),
            }
        }
    }
}

/// The walk of a whole directory. Unlinking a whole directory is refused
/// before any entry is looked at.
pub open spec fn walk(
    delete: bool,
    entries: Seq<(DirectoryEntry, TargetState)>,
    rules: Seq<Seq<char>>,
    root: Seq<char>,
    target_directory: Seq<char>,
    force: bool,
) -> (Seq<LinkPlanView>, Result<(), WalkErrorView>) {
    if delete {
        (Seq::empty(), Err(WalkErrorView::BulkUnlinkUnsupported))
    } else {
        walk_upto(entries, entries.len() as int, rules, root, target_directory, force)
    }
}

/// Once an entry has failed, the walk of more entries ends as it ended there.
pub proof fn lemma_walk_stops(
    entries: Seq<(DirectoryEntry, TargetState)>,
    n: int,
    m: int,
    rules: Seq<Seq<char>>,
    root: Seq<char>,
    target_directory: Seq<char>,
    force: bool,
)
    requires
        n <= m,
        walk_upto(entries, n, rules, root, target_directory, force).1 is Err,
    ensures
        walk_upto(entries, m, rules, root, target_directory, force) == walk_upto(
            entries,
            n,
            rules,
            root,
            target_directory,
            force,
        ),
    decreases m - n,
{
    if n < m {
        lemma_walk_stops(entries, n, m - 1, rules, root, target_directory, force);
    }
}

/// Whether `plan` is what the walk makes of `entry`: the entry is not
/// excluded, and the plan is that of its link in `target_directory`.
pub open spec fn plans_entry(
    plan: LinkPlanView,
    entry: DirectoryEntry,
    found: TargetState,
    rules: Seq<Seq<char>>,
    root: Seq<char>,
    target_directory: Seq<char>,
    force: bool,
) -> bool {
    &&& ignored(entry.absolute_path@, rules, root) == Ok::<bool, IgnoreErrorView>(false)
    &&& plan.entry == entry.relative_name@
    &&& link_ops(
        entry.absolute_path@,
        joined(target_directory, entry.relative_name@),
        force,
        found,
    ) == Ok::<Seq<FsOpView>, LinkErrorView>(plan.ops)
}

/// Every plan of a walk is the plan of one of the entries walked, and of one
/// that the rules do not exclude: an excluded entry is never linked.
pub proof fn lemma_walk_plans(
    entries: Seq<(DirectoryEntry, TargetState)>,
    n: int,
    rules: Seq<Seq<char>>,
    root: Seq<char>,
    target_directory: Seq<char>,
    force: bool,
    k: int,
)
    requires
        0 <= n <= entries.len(),
        0 <= k < walk_upto(entries, n, rules, root, target_directory, force).0.len(),
    ensures
        exists|i: int|
            0 <= i < n && #[trigger] plans_entry(
                walk_upto(entries, n, rules, root, target_directory, force).0[k],
                entries[i].0,
                entries[i].1,
                rules,
                root,
                target_directory,
                force,
            ),
    decreases n,
{
    let before = walk_upto(entries, n - 1, rules, root, target_directory, force).0;
    let now = walk_upto(entries, n, rules, root, target_directory, force).0;
    if k < before.len() {
        lemma_walk_plans(entries, n - 1, rules, root, target_directory, force, k);
        assert(now[k] == before[k]);
        let i = choose|i: int|
            0 <= i < n - 1 && #[trigger] plans_entry(
                before[k],
                entries[i].0,
                entries[i].1,
                rules,
                root,
                target_directory,
                force,
            );
        assert(plans_entry(
            now[k],
            entries[i].0,
            entries[i].1,
            rules,
            root,
            target_directory,
            force,
        ));
    } else {
        assert(plans_entry(
            now[k],
            entries[n - 1].0,
            entries[n - 1].1,
            rules,
            root,
            target_directory,
            force,
        ));
    }
}

/// A walk that ends well has served every entry: each entry is either
/// excluded by the rules or planned.
pub proof fn lemma_walk_complete(
    entries: Seq<(DirectoryEntry, TargetState)>,
    n: int,
    rules: Seq<Seq<char>>,
    root: Seq<char>,
    target_directory: Seq<char>,
    force: bool,
    i: int,
)
    requires
        0 <= i < n <= entries.len(),
        walk_upto(entries, n, rules, root, target_directory, force).1 is Ok,
    ensures
        ignored(entries[i].0.absolute_path@, rules, root) == Ok::<bool, IgnoreErrorView>(true)
            || exists|k: int|
            0 <= k < walk_upto(entries, n, rules, root, target_directory, force).0.len()
                && #[trigger] plans_entry(
                walk_upto(entries, n, rules, root, target_directory, force).0[k],
                entries[i].0,
                entries[i].1,
                rules,
                root,
                target_directory,
                force,
            ),
    decreases n,
{
    let before = walk_upto(entries, n - 1, rules, root, target_directory, force);
    let now = walk_upto(entries, n, rules, root, target_directory, force);
    if i < n - 1 {
        lemma_walk_complete(entries, n - 1, rules, root, target_directory, force, i);
        if ignored(entries[i].0.absolute_path@, rules, root) != Ok::<bool, IgnoreErrorView>(true) {
            let k = choose|k: int|
                0 <= k < before.0.len() && #[trigger] plans_entry(
                    before.0[k],
                    entries[i].0,
                    entries[i].1,
                    rules,
                    root,
                    target_directory,
                    force,
                );
            assert(now.0[k] == before.0[k]);
            assert(plans_entry(
                now.0[k],
                entries[i].0,
                entries[i].1,
                rules,
                root,
                target_directory,
                force,
            ));
        }
    } else if ignored(entries[i].0.absolute_path@, rules, root) != Ok::<bool, IgnoreErrorView>(
        true,
    ) {
        let k = now.0.len() - 1;
        assert(plans_entry(
            now.0[k],
            entries[i].0,
            entries[i].1,
            rules,
            root,
            target_directory,
            force,
        ));
    }
}

/// The link that is planned for a well-formed entry stands in the target
/// directory under the entry's own name, which is the final component of
/// what it points to: every operation of the plan works on that one path,
/// and the link that is made points to the entry.
pub proof fn lemma_planned_link(
    entry: DirectoryEntry,
    found: TargetState,
    target_directory: Seq<char>,
    force: bool,
    at: int,
)
    requires
        entry.wf(),
        link_ops(
            entry.absolute_path@,
            joined(target_directory, entry.relative_name@),
            force,
            found,
        ) matches Ok(ops) && 0 <= at < ops.len(),
    ensures
        ({
            let target = joined(target_directory, entry.relative_name@);
            let op = link_ops(entry.absolute_path@, target, force, found)->Ok_0[at];
            &&& final_component(target) == final_component(entry.absolute_path@)
            &&& op matches FsOpView::Remove { target: t } ==> t == target
            &&& op matches FsOpView::Symlink { source: s, target: t } ==> t == target && s
                == entry.absolute_path@
        }),
{
    lemma_final_component_plain(entry.absolute_path@);
    lemma_final_component_joined(target_directory, entry.relative_name@);
}

/// Decides what the walk does with `entry`, given what the ignore rules said
/// of it (`excluded`) and what stands at its target (`found`).
pub fn link_entry(
    entry: &DirectoryEntry,
    excluded: Result<bool, IgnoreError>,
    found: TargetState,
    target_directory: &str,
    force: bool,
) -> (r: Result<Option<LinkPlan>, WalkError>)
    requires
        entry.wf(),
    ensures
        step_view(r) == entry_plan(*entry, verdict_view(excluded), found, target_directory@, force),
{
    match excluded {
        Err(error) => Err(WalkError::Ignore { entry: entry.relative_name.clone(), error }),
        Ok(true) => Ok(None),
        Ok(false) => {
            let request = match LinkRequest::new(
                entry.absolute_path.as_str(),
                target_directory,
                force,
                false,
            ) {
                Some(request) => request,
                None => vstd::pervasive::unreached(),
            };
            match request.plan(found) {
                Ok(ops) => Ok(Some(LinkPlan { entry: entry.relative_name.clone(), ops })),
                Err(error) => Err(WalkError::Link { entry: entry.relative_name.clone(), error }),
            }
        },
    }
}

/// Walks the entries of the directory `root` and plans a link in the target
/// directory of `args` for each entry that `ignore_files` does not exclude.
///
/// Each entry comes with what stands at its target, the entry's name in the
/// target directory. The plans come back in the order of the entries. The
/// walk ends at the first entry whose rules cannot be applied or whose link
/// cannot be made, with that entry's name; the plans of the entries before it
/// come back all the same.
pub fn link_whole_dir(
    args: &Cli,
    root: &str,
    entries: &Vec<(DirectoryEntry, TargetState)>,
    ignore_files: &Vec<String>,
) -> (r: (Vec<LinkPlan>, Result<(), WalkError>))
    requires
        forall|i: int| 0 <= i < entries.len() ==> (#[trigger] entries[i]).0.wf(),
    ensures
        (r.0.deep_view(), end_view(r.1)) == walk(
            args.delete,
            entries@,
            ignore_files.deep_view(),
            root@,
            args.target_path@,
            args.force,
        ),
{
    let mut plans: Vec<LinkPlan> = Vec::new();
    assert(plans.deep_view() == Seq::<LinkPlanView>::empty());
    if args.delete {
        return (plans, Err(WalkError::BulkUnlinkUnsupported));
    }
    let ghost rules = ignore_files.deep_view();
    let mut i: usize = 0;
    while i < entries.len()
        invariant
            i <= entries.len(),
            rules == ignore_files.deep_view(),
            forall|k: int| 0 <= k < entries.len() ==> (#[trigger] entries[k]).0.wf(),
            (plans.deep_view(), Ok::<(), WalkErrorView>(())) == walk_upto(
                entries@,
                i as int,
                rules,
                root@,
                args.target_path@,
                args.force,
            ),
            !args.delete,
        decreases entries.len() - i,
    {
        let ghost so_far = plans.deep_view();
        let entry: &DirectoryEntry = &entries[i].0;
        let excluded = should_ignore(entry, ignore_files, root);
        match link_entry(entry, excluded, entries[i].1, args.target_path.as_str(), args.force) {
            Err(error) => {
                proof {
                    lemma_walk_stops(
                        entries@,
                        i + 1,
                        entries.len() as int,
                        rules,
                        root@,
                        args.target_path@,
                        args.force,
                    );
                }
                return (plans, Err(error));
            },
            Ok(None) => {},
            Ok(Some(plan)) => {
                let ghost planned = plan@;
                plans.push(plan);
                assert(plans.deep_view() == so_far.push(planned));
            },
        }
        i = i + 1;
    }
    (plans, Ok(()))
}

} // verus!
