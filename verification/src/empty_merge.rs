//! Why a merge target leaves nothing to merge.

use vstd::prelude::*;

use crate::bookmarks;
use crate::bookmarks::git_commit_is_ancestor;
use crate::error;
use crate::error::{CauseView, CliError, CliErrorView, Error, report};
use crate::model::{
    AppConfig, AppConfigView, Duplicate, FrozenBookmark, FrozenBookmarkView, MergeTarget,
    MergeTargetView, ResolvedChange, ResolvedChangeView,
};
use crate::record;
use crate::record::Event;
use crate::revsets;
use crate::shell::Host;
use crate::shell::wire::Shell;
use crate::stack;
use crate::stack::{resolve_single_rev, resolve_stack};
use crate::text::{cat, cat3, cat5};

verus! {

broadcast use crate::record::group_record;

// ---------------------------------------------------------------------------
// Frozen bookmarks above a commit
// ---------------------------------------------------------------------------

/// The record from `before` to `after` holds the search for the first frozen bookmark that has the
/// commit below it.
pub open spec fn covering_searched(
    before: Seq<Event>,
    after: Seq<Event>,
    commit: Seq<char>,
    bookmarks: Seq<FrozenBookmarkView>,
    at: int,
    r: Result<Option<FrozenBookmarkView>, Seq<CauseView>>,
) -> bool
    decreases bookmarks.len() - at,
{
    if at >= bookmarks.len() {
        after == before && r == Ok::<Option<FrozenBookmarkView>, Seq<CauseView>>(None)
    } else {
        exists|mid: Seq<Event>|
            {
                &&& #[trigger] record::called(
                    before,
                    mid,
                    "git"@,
                    bookmarks::ancestor_args(commit, bookmarks[at].commit_id),
                )
                &&& match bookmarks::success_of(record::last_reply(mid)) {
                    Err(e) => record::stopped(mid, after, e, r),
                    Ok(true) => after == mid && r == Ok::<_, Seq<CauseView>>(Some(bookmarks[at])),
                    Ok(false) => covering_searched(mid, after, commit, bookmarks, at + 1, r),
                }
            }
    }
}

fn search_covering<H: Host>(
    sh: &mut Shell<H>,
    commit: &str,
    bookmarks: &Vec<FrozenBookmark>,
    at: usize,
) -> (r: Result<Option<FrozenBookmark>, Error>)
    requires
        at <= bookmarks@.len(),
    ensures
        record::extends(old(sh).log(), final(sh).log()),
        covering_searched(
            old(sh).log(),
            final(sh).log(),
            commit@,
            bookmarks.deep_view(),
            at as int,
            error::res(r),
        ),
    decreases bookmarks@.len() - at,
{
    let n: usize = bookmarks.len();
    if at == n {
        return Ok(None);
    }
    assert(bookmarks.deep_view()[at as int] == bookmarks@[at as int]@);
    let below = git_commit_is_ancestor(sh, commit, &bookmarks[at].commit_id);
    assert(record::called(
        old(sh).log(),
        sh.log(),
        "git"@,
        bookmarks::ancestor_args(commit@, bookmarks.deep_view()[at as int].commit_id),
    ));
    match below {
        Err(error) => Err(error),
        Ok(true) => Ok(Some(bookmarks[at].copy())),
        Ok(false) => search_covering(sh, commit, bookmarks, at + 1),
    }
}

pub open spec fn covering_found(
    before: Seq<Event>,
    after: Seq<Event>,
    commit: Seq<char>,
    bookmarks: Seq<FrozenBookmarkView>,
    r: Result<Option<FrozenBookmarkView>, Seq<CauseView>>,
) -> bool {
    covering_searched(before, after, commit, bookmarks, 0, r)
}

pub fn frozen_bookmark_covering_target<H: Host>(
    sh: &mut Shell<H>,
    target_commit: &str,
    frozen_bookmarks: &Vec<FrozenBookmark>,
) -> (r: Result<Option<FrozenBookmark>, Error>)
    ensures
        record::extends(old(sh).log(), final(sh).log()),
        covering_found(
            old(sh).log(),
            final(sh).log(),
            target_commit@,
            frozen_bookmarks.deep_view(),
            error::res(r),
        ),
{
    search_covering(sh, target_commit, frozen_bookmarks, 0)
}

// ---------------------------------------------------------------------------
// The reasons
// ---------------------------------------------------------------------------

pub open spec fn already_merged(target: MergeTargetView, trunk: Seq<char>) -> CliErrorView {
    error::cli(
        "cannot merge "@ + revsets::target_label(target) + " because it is already reachable from trunk "@
            + trunk,
    ).because(
        revsets::target_label(target) + " resolves to "@ + target.commit_id + ", which is already in `"@
            + trunk + "`."@,
    ).fixed_by(
        "choose an unmerged owned PR, or run `forklift sync` to clean up local state"@,
    )
}

pub open spec fn frozen_target(target: MergeTargetView, bookmark: FrozenBookmarkView) -> CliErrorView {
    error::cli(
        "cannot merge "@ + revsets::target_label(target) + " because it is frozen in this checkout"@,
    ).because(
        revsets::target_label(target) + " resolves to "@ + target.commit_id
            + ", but that commit is covered by frozen bookmark `"@ + bookmark.name
            + "`. Frozen revisions are treated as dependencies, so forklift merge only considers owned mutable changes and the target range is empty."@,
    ).fixed_by("unfreeze or get ownership of "@ + revsets::target_label(target) + " before merging it"@)
}

pub open spec fn immutable_target(target: MergeTargetView) -> CliErrorView {
    error::cli(
        "cannot merge "@ + revsets::target_label(target) + " because it is immutable in this checkout"@,
    ).because(
        revsets::target_label(target) + " resolves to "@ + target.commit_id
            + ", but that commit is excluded by `immutable_heads()`."@,
    ).fixed_by("choose an owned mutable stack change before merging it"@)
}

pub open spec fn outside_target(target: MergeTargetView) -> CliErrorView {
    error::cli(revsets::target_label(target) + " is outside the active stack"@).because(
        revsets::target_label(target) + " resolves to "@ + target.commit_id
            + ", but it is not part of the owned mutable stack selected from `@`."@,
    ).fixed_by(
        "move to the stack containing "@ + revsets::target_label(target) + ", then run `forklift merge "@
            + target.input + "`"@,
    )
}

pub open spec fn empty_target(target: MergeTargetView, revset: Seq<char>) -> CliErrorView {
    error::cli(
        "cannot merge "@ + revsets::target_label(target) + " because the target range is empty"@,
    ).because(
        revsets::target_label(target) + " resolves to "@ + target.commit_id + ", but `"@ + revset
            + "` produced no owned non-empty changes."@,
    ).fixed_by("choose an owned mutable non-empty PR before merging it"@)
}

fn already_merged_error(target: &MergeTarget, trunk: &str) -> (r: CliError)
    ensures
        r@ == already_merged(target@, trunk@),
{
    let label = target.label();
    let mut message = cat3(
        "cannot merge ",
        &label,
        " because it is already reachable from trunk ",
    );
    message.append(trunk);
    let mut reason = cat3(&label, " resolves to ", &target.commit_id);
    reason.append(", which is already in `");
    reason.append(trunk);
    reason.append("`.");
    CliError::new(&message).reason(&reason).resolution(
        "choose an unmerged owned PR, or run `forklift sync` to clean up local state",
    )
}

fn frozen_target_error(target: &MergeTarget, bookmark: &FrozenBookmark) -> (r: CliError)
    ensures
        r@ == frozen_target(target@, bookmark@),
{
    let label = target.label();
    let mut reason = cat3(&label, " resolves to ", &target.commit_id);
    reason.append(", but that commit is covered by frozen bookmark `");
    reason.append(&bookmark.name);
    reason.append(
        "`. Frozen revisions are treated as dependencies, so forklift merge only considers owned mutable changes and the target range is empty.",
    );
    CliError::new(
        &cat3("cannot merge ", &label, " because it is frozen in this checkout"),
    ).reason(&reason).resolution(
        &cat3("unfreeze or get ownership of ", &label, " before merging it"),
    )
}

fn immutable_target_error(target: &MergeTarget) -> (r: CliError)
    ensures
        r@ == immutable_target(target@),
{
    let label = target.label();
    let mut reason = cat3(&label, " resolves to ", &target.commit_id);
    reason.append(", but that commit is excluded by `immutable_heads()`.");
    CliError::new(
        &cat3("cannot merge ", &label, " because it is immutable in this checkout"),
    ).reason(&reason).resolution("choose an owned mutable stack change before merging it")
}

fn outside_target_error(target: &MergeTarget) -> (r: CliError)
    ensures
        r@ == outside_target(target@),
{
    let label = target.label();
    let mut reason = cat3(&label, " resolves to ", &target.commit_id);
    reason.append(", but it is not part of the owned mutable stack selected from `@`.");
    CliError::new(&cat(&label, " is outside the active stack")).reason(&reason).resolution(
        &cat5(
            "move to the stack containing ",
            &label,
            ", then run `forklift merge ",
            &target.input,
            "`",
        ),
    )
}

fn empty_target_error(target: &MergeTarget, revset: &str) -> (r: CliError)
    ensures
        r@ == empty_target(target@, revset@),
{
    let label = target.label();
    let mut reason = cat3(&label, " resolves to ", &target.commit_id);
    reason.append(", but `");
    reason.append(revset);
    reason.append("` produced no owned non-empty changes.");
    CliError::new(
        &cat3("cannot merge ", &label, " because the target range is empty"),
    ).reason(&reason).resolution("choose an owned mutable non-empty PR before merging it")
}

// ---------------------------------------------------------------------------
// The diagnosis
// ---------------------------------------------------------------------------

pub open spec fn covered_reason(
    target: MergeTargetView,
    covering: Option<FrozenBookmarkView>,
) -> CliErrorView {
    match covering {
        Some(bookmark) => frozen_target(target, bookmark),
        None => immutable_target(target),
    }
}

/// The record from `before` to `after` holds why an immutable target cannot be merged.
pub open spec fn immutable_diagnosed(
    before: Seq<Event>,
    after: Seq<Event>,
    target: MergeTargetView,
    bookmarks: Seq<FrozenBookmarkView>,
    r: Result<(), Seq<CauseView>>,
) -> bool {
    exists|covering: Result<Option<FrozenBookmarkView>, Seq<CauseView>>|
        {
            &&& #[trigger] covering_found(before, after, target.commit_id, bookmarks, covering)
            &&& r == match covering {
                Err(e) => Err::<(), _>(e),
                Ok(covering) => Err(error::reported(covered_reason(target, covering))),
            }
        }
}

fn diagnose_immutable<H: Host>(
    sh: &mut Shell<H>,
    target: &MergeTarget,
    bookmarks: &Vec<FrozenBookmark>,
) -> (r: Result<(), Error>)
    ensures
        record::extends(old(sh).log(), final(sh).log()),
        immutable_diagnosed(
            old(sh).log(),
            final(sh).log(),
            target@,
            bookmarks.deep_view(),
            error::res_of(r),
        ),
{
    let covering = frozen_bookmark_covering_target(sh, &target.commit_id, bookmarks);
    let ghost seen = error::res(covering);
    assert(covering_found(
        old(sh).log(),
        sh.log(),
        target@.commit_id,
        bookmarks.deep_view(),
        seen,
    ));
    match covering {
        Err(error) => Err(error),
        Ok(Some(bookmark)) => Err(report(frozen_target_error(target, &bookmark))),
        Ok(None) => Err(report(immutable_target_error(target))),
    }
}

pub open spec fn immutable_revset(commit: Seq<char>) -> Seq<char> {
    commit + " & ::(immutable_heads() | root())"@
}

pub open spec fn range_revset(commit: Seq<char>) -> Seq<char> {
    "trunk().."@ + commit + " & ~empty()"@
}

/// The record from `before` to `after` holds the test whether the target is immutable, and the reason
/// that follows from it.
pub open spec fn mutability_diagnosed(
    before: Seq<Event>,
    after: Seq<Event>,
    target: MergeTargetView,
    revset: Seq<char>,
    bookmarks: Seq<FrozenBookmarkView>,
    range: Seq<ResolvedChangeView>,
    r: Result<(), Seq<CauseView>>,
) -> bool {
    exists|mid: Seq<Event>, fixed: Result<Seq<ResolvedChangeView>, Seq<CauseView>>|
        {
            &&& #[trigger] stack::stack_resolved(before, mid, immutable_revset(target.commit_id), fixed)
            &&& match fixed {
                Err(e) => record::stopped(mid, after, e, r),
                Ok(fixed) => if fixed.len() > 0 {
                    immutable_diagnosed(mid, after, target, bookmarks, r)
                } else if range.len() > 0 {
                    record::stopped(mid, after, error::reported(outside_target(target)), r)
                } else {
                    record::stopped(mid, after, error::reported(empty_target(target, revset)), r)
                },
            }
        }
}

fn diagnose_mutability<H: Host>(
    sh: &mut Shell<H>,
    target: &MergeTarget,
    revset: &str,
    bookmarks: &Vec<FrozenBookmark>,
    range: &Vec<ResolvedChange>,
) -> (r: Result<(), Error>)
    ensures
        record::extends(old(sh).log(), final(sh).log()),
        mutability_diagnosed(
            old(sh).log(),
            final(sh).log(),
            target@,
            revset@,
            bookmarks.deep_view(),
            range.deep_view(),
            error::res_of(r),
        ),
{
    let fixed = resolve_stack(sh, &cat(&target.commit_id, " & ::(immutable_heads() | root())"));
    let ghost seen = error::res(fixed);
    assert(stack::stack_resolved(
        old(sh).log(),
        sh.log(),
        immutable_revset(target@.commit_id),
        seen,
    ));
    match fixed {
        Err(error) => Err(error),
        Ok(fixed) => {
            let n: usize = fixed.len();
            if n > 0 {
                return diagnose_immutable(sh, target, bookmarks);
            }
            let m: usize = range.len();
            if m > 0 {
                return Err(report(outside_target_error(target)));
            }
            Err(report(empty_target_error(target, revset)))
        },
    }
}

pub open spec fn range_diagnosed(
    before: Seq<Event>,
    after: Seq<Event>,
    target: MergeTargetView,
    revset: Seq<char>,
    bookmarks: Seq<FrozenBookmarkView>,
    r: Result<(), Seq<CauseView>>,
) -> bool {
    exists|mid: Seq<Event>, range: Result<Seq<ResolvedChangeView>, Seq<CauseView>>|
        {
            &&& #[trigger] stack::stack_resolved(before, mid, range_revset(target.commit_id), range)
            &&& match range {
                Err(e) => record::stopped(mid, after, e, r),
                Ok(range) => mutability_diagnosed(
                    mid,
                    after,
                    target,
                    revset,
                    bookmarks,
                    range,
                    r,
                ),
            }
        }
}

fn diagnose_range<H: Host>(
    sh: &mut Shell<H>,
    target: &MergeTarget,
    revset: &str,
    bookmarks: &Vec<FrozenBookmark>,
) -> (r: Result<(), Error>)
    ensures
        record::extends(old(sh).log(), final(sh).log()),
        range_diagnosed(
            old(sh).log(),
            final(sh).log(),
            target@,
            revset@,
            bookmarks.deep_view(),
            error::res_of(r),
        ),
{
    let range = resolve_stack(sh, &cat3("trunk()..", &target.commit_id, " & ~empty()"));
    let ghost seen = error::res(range);
    assert(stack::stack_resolved(old(sh).log(), sh.log(), range_revset(target@.commit_id), seen));
    match range {
        Err(error) => Err(error),
        Ok(range) => diagnose_mutability(sh, target, revset, bookmarks, &range),
    }
}

pub open spec fn reachability_diagnosed(
    before: Seq<Event>,
    after: Seq<Event>,
    config: AppConfigView,
    target: MergeTargetView,
    trunk: Seq<char>,
    revset: Seq<char>,
    bookmarks: Seq<FrozenBookmarkView>,
    r: Result<(), Seq<CauseView>>,
) -> bool {
    exists|mid: Seq<Event>|
        {
            &&& #[trigger] record::called(before, mid, "git"@, bookmarks::ancestor_args(target.commit_id, trunk))
            &&& match bookmarks::success_of(record::last_reply(mid)) {
                Err(e) => record::stopped(mid, after, e, r),
                Ok(true) => record::stopped(mid, after, error::reported(already_merged(target, config.trunk)), r),
                Ok(false) => range_diagnosed(mid, after, target, revset, bookmarks, r),
            }
        }
}

fn diagnose_reachability<H: Host>(
    sh: &mut Shell<H>,
    config: &AppConfig,
    target: &MergeTarget,
    trunk: &str,
    revset: &str,
    bookmarks: &Vec<FrozenBookmark>,
) -> (r: Result<(), Error>)
    ensures
        record::extends(old(sh).log(), final(sh).log()),
        reachability_diagnosed(
            old(sh).log(),
            final(sh).log(),
            config@,
            target@,
            trunk@,
            revset@,
            bookmarks.deep_view(),
            error::res_of(r),
        ),
{
    let merged = git_commit_is_ancestor(sh, &target.commit_id, trunk);
    assert(record::called(old(sh).log(), sh.log(), "git"@, bookmarks::ancestor_args(target@.commit_id, trunk@)));
    match merged {
        Err(error) => Err(error),
        Ok(true) => Err(report(already_merged_error(target, &config.trunk))),
        Ok(false) => diagnose_range(sh, target, revset, bookmarks),
    }
}

/// The record from `before` to `after` holds why a target leaves nothing to merge: it is merged
/// already, frozen, immutable, outside the stack, or empty. The result is always a failure.
pub open spec fn empty_merge_diagnosed(
    before: Seq<Event>,
    after: Seq<Event>,
    config: AppConfigView,
    target: MergeTargetView,
    revset: Seq<char>,
    bookmarks: Seq<FrozenBookmarkView>,
    r: Result<(), Seq<CauseView>>,
) -> bool {
    exists|mid: Seq<Event>|
        {
            &&& #[trigger] record::called(before, mid, "jj"@, stack::single_rev_args("trunk()"@))
            &&& match stack::single_commit("trunk()"@, record::last_reply(mid)) {
                Err(e) => record::stopped(mid, after, e, r),
                Ok(trunk) => reachability_diagnosed(
                    mid,
                    after,
                    config,
                    target,
                    trunk,
                    revset,
                    bookmarks,
                    r,
                ),
            }
        }
}

pub fn diagnose_empty_targeted_merge<H: Host>(
    sh: &mut Shell<H>,
    config: &AppConfig,
    target: &MergeTarget,
    narrowed_revset: &str,
    frozen_bookmarks: &Vec<FrozenBookmark>,
) -> (r: Result<(), Error>)
    ensures
        record::extends(old(sh).log(), final(sh).log()),
        empty_merge_diagnosed(
            old(sh).log(),
            final(sh).log(),
            config@,
            target@,
            narrowed_revset@,
            frozen_bookmarks.deep_view(),
            error::res_of(r),
        ),
{
    let trunk = resolve_single_rev(sh, "trunk()");
    assert(record::called(old(sh).log(), sh.log(), "jj"@, stack::single_rev_args("trunk()"@)));
    match trunk {
        Err(error) => Err(error),
        Ok(trunk) => diagnose_reachability(
            sh,
            config,
            target,
            &trunk,
            narrowed_revset,
            frozen_bookmarks,
        ),
    }
}

/// The law of the diagnosis: it never succeeds, so a target that leaves nothing to merge is always
/// refused with a reason.
pub proof fn law_empty_merge_is_refused(
    before: Seq<Event>,
    after: Seq<Event>,
    config: AppConfigView,
    target: MergeTargetView,
    revset: Seq<char>,
    bookmarks: Seq<FrozenBookmarkView>,
    r: Result<(), Seq<CauseView>>,
)
    requires
        empty_merge_diagnosed(before, after, config, target, revset, bookmarks, r),
    ensures
        r is Err,
{
}

} // verus!
