//! A dry run changes nothing.

use vstd::prelude::*;

use crate::asking;
use crate::bookmarks;
use crate::branches;
use crate::cleanup;
use crate::commands;
use crate::commands::CommandView;
use crate::config;
use crate::error::CauseView;
use crate::get;
use crate::get::GetSummary;
use crate::merge;
use crate::merge::{MergeSummary, PassView, PreparedView};
use crate::model::{
    AppConfigView, AppContextView, Diagnostics, FrozenBookmarkView, FrozenDependencyView,
    GhMergePrView, GhPrView, GitHubContextView, MergeCandidateView, MergeTargetView,
    PrCacheEntryView, RemoteBookmarkView, RepairPlanView, ResolvedChangeView, StackResolutionView,
    SubmitPlanView,
};
use crate::pr::{GetTargetView, Platform};
use crate::quiet;
use crate::rebase;
use crate::rebase::RebaseDestinationView;
use crate::record;
use crate::record::{Event, LineView};
use crate::repair;
use crate::repair::RepairSummary;
use crate::submit;
use crate::submit::SubmitSummary;
use crate::sync;
use crate::sync::{SyncFrozenRefreshView, SyncSummary};
use crate::text;
use crate::trunk;
use crate::ui;
use crate::unfreeze;

verus! {

pub broadcast proof fn dry_submit_decided(
    before: Seq<Event>,
    after: Seq<Event>,
    config: AppConfigView,
    context: AppContextView,
    frozen: Seq<(Seq<char>, PrCacheEntryView)>,
    place: Seq<char>,
    all: Map<(Seq<char>, Seq<char>), PrCacheEntryView>,
    plans: Seq<SubmitPlanView>,
    yes: bool,
    yes_command: Seq<char>,
    diagnostics: Diagnostics,
    r: Result<SubmitSummary, Seq<CauseView>>,
)
    requires
        #[trigger] submit::submit_decided(
            before,
            after,
            config,
            context,
            frozen,
            place,
            all,
            plans,
            yes,
            yes_command,
            diagnostics,
            r,
        ),
        diagnostics.dry_run,
    ensures
        quiet::quiet(before, after),
{
    broadcast use {crate::quiet::group_quiet, crate::asking::lemma_plan_rows_said};
}

pub broadcast proof fn dry_submit_planned(
    before: Seq<Event>,
    after: Seq<Event>,
    config: AppConfigView,
    context: AppContextView,
    frozen: Seq<(Seq<char>, PrCacheEntryView)>,
    place: Seq<char>,
    all: Map<(Seq<char>, Seq<char>), PrCacheEntryView>,
    yes: bool,
    yes_command: Seq<char>,
    diagnostics: Diagnostics,
    r: Result<SubmitSummary, Seq<CauseView>>,
)
    requires
        #[trigger] submit::submit_planned(
            before,
            after,
            config,
            context,
            frozen,
            place,
            all,
            yes,
            yes_command,
            diagnostics,
            r,
        ),
        diagnostics.dry_run,
    ensures
        quiet::quiet(before, after),
{
    broadcast use {
        crate::quiet::group_quiet,
        dry_submit_decided,
        crate::asking::asks_stack_planned,
    };
}

pub broadcast proof fn dry_submit_grounded(
    before: Seq<Event>,
    after: Seq<Event>,
    config: AppConfigView,
    context: AppContextView,
    place: Seq<char>,
    all: Map<(Seq<char>, Seq<char>), PrCacheEntryView>,
    yes: bool,
    yes_command: Seq<char>,
    diagnostics: Diagnostics,
    r: Result<SubmitSummary, Seq<CauseView>>,
)
    requires
        #[trigger] submit::submit_grounded(
            before,
            after,
            config,
            context,
            place,
            all,
            yes,
            yes_command,
            diagnostics,
            r,
        ),
        diagnostics.dry_run,
    ensures
        quiet::quiet(before, after),
{
    broadcast use {
        crate::quiet::group_quiet,
        dry_submit_planned,
        crate::asking::asks_frozen_entries_resolved,
    };
}

pub broadcast proof fn dry_submit_opened(
    before: Seq<Event>,
    after: Seq<Event>,
    config: AppConfigView,
    context: AppContextView,
    yes: bool,
    yes_command: Seq<char>,
    diagnostics: Diagnostics,
    r: Result<SubmitSummary, Seq<CauseView>>,
)
    requires
        #[trigger] submit::submit_opened(
            before,
            after,
            config,
            context,
            yes,
            yes_command,
            diagnostics,
            r,
        ),
        diagnostics.dry_run,
    ensures
        quiet::quiet(before, after),
{
    broadcast use {
        crate::quiet::group_quiet,
        dry_submit_grounded,
        crate::asking::asks_cache_opened,
        crate::asking::lemma_phase_said,
    };
}

pub broadcast proof fn dry_stack_submitted(
    before: Seq<Event>,
    after: Seq<Event>,
    config: AppConfigView,
    context: AppContextView,
    yes: bool,
    yes_command: Seq<char>,
    diagnostics: Diagnostics,
    r: Result<SubmitSummary, Seq<CauseView>>,
)
    requires
        #[trigger] submit::stack_submitted(
            before,
            after,
            config,
            context,
            yes,
            yes_command,
            diagnostics,
            r,
        ),
        diagnostics.dry_run,
    ensures
        quiet::quiet(before, after),
{
    broadcast use {
        crate::quiet::group_quiet,
        dry_submit_opened,
        crate::asking::asks_bases_checked,
        crate::asking::lemma_phase_said,
    };
}

pub broadcast proof fn dry_resubmitted(
    before: Seq<Event>,
    after: Seq<Event>,
    config: AppConfigView,
    context: AppContextView,
    diagnostics: Diagnostics,
    r: Result<(), Seq<CauseView>>,
)
    requires
        #[trigger] merge::resubmitted(before, after, config, context, diagnostics, r),
        diagnostics.dry_run,
    ensures
        quiet::quiet(before, after),
{
    broadcast use {crate::quiet::group_quiet, dry_stack_submitted};
}

pub broadcast proof fn dry_above_submitted(
    before: Seq<Event>,
    after: Seq<Event>,
    config: AppConfigView,
    revset: Seq<char>,
    diagnostics: Diagnostics,
    r: Result<(), Seq<CauseView>>,
)
    requires
        #[trigger] merge::above_submitted(before, after, config, revset, diagnostics, r),
        diagnostics.dry_run,
    ensures
        quiet::quiet(before, after),
{
    broadcast use {
        crate::quiet::group_quiet,
        dry_resubmitted,
        crate::asking::asks_context_resolved,
    };
}

pub broadcast proof fn dry_above_refreshed(
    before: Seq<Event>,
    after: Seq<Event>,
    config: AppConfigView,
    revset: Seq<char>,
    diagnostics: Diagnostics,
    r: Result<(), Seq<CauseView>>,
)
    requires
        #[trigger] merge::above_refreshed(before, after, config, revset, diagnostics, r),
        diagnostics.dry_run,
    ensures
        quiet::quiet(before, after),
{
    broadcast use {
        crate::quiet::group_quiet,
        dry_above_submitted,
        crate::asking::asks_stack_resolved,
        crate::asking::lemma_phase_said,
    };
}

pub broadcast proof fn dry_adoption_remembered(
    before: Seq<Event>,
    after: Seq<Event>,
    repo: Seq<char>,
    pr: GhPrView,
    dry_run: bool,
    r: Result<(), Seq<CauseView>>,
)
    requires
        #[trigger] unfreeze::adoption_remembered(before, after, repo, pr, dry_run, r),
        dry_run,
    ensures
        quiet::quiet(before, after),
{
    broadcast use crate::quiet::group_quiet;
}

pub broadcast proof fn dry_adoption_closed(
    before: Seq<Event>,
    after: Seq<Event>,
    repo: Seq<char>,
    pr: GhPrView,
    diagnostics: Diagnostics,
    r: Result<u64, Seq<CauseView>>,
)
    requires
        #[trigger] unfreeze::adoption_closed(before, after, repo, pr, diagnostics, r),
        diagnostics.dry_run,
    ensures
        quiet::quiet(before, after),
{
    broadcast use {
        crate::quiet::group_quiet,
        dry_adoption_remembered,
        crate::asking::lemma_phase_said,
    };
}

pub broadcast proof fn dry_adoption_proved(
    before: Seq<Event>,
    after: Seq<Event>,
    config: AppConfigView,
    repo: Seq<char>,
    pr: GhPrView,
    diagnostics: Diagnostics,
    r: Result<u64, Seq<CauseView>>,
)
    requires
        #[trigger] unfreeze::adoption_proved(before, after, config, repo, pr, diagnostics, r),
        diagnostics.dry_run,
    ensures
        quiet::quiet(before, after),
{
    broadcast use {
        crate::quiet::group_quiet,
        dry_adoption_closed,
        crate::asking::asks_mutability_verified,
    };
}

pub broadcast proof fn dry_adoption_verified(
    before: Seq<Event>,
    after: Seq<Event>,
    config: AppConfigView,
    repo: Seq<char>,
    pr: GhPrView,
    diagnostics: Diagnostics,
    r: Result<u64, Seq<CauseView>>,
)
    requires
        #[trigger] unfreeze::adoption_verified(before, after, config, repo, pr, diagnostics, r),
        diagnostics.dry_run,
    ensures
        quiet::quiet(before, after),
{
    broadcast use {
        crate::quiet::group_quiet,
        dry_adoption_closed,
        dry_adoption_proved,
        crate::asking::lemma_phase_said,
    };
}

pub broadcast proof fn dry_jj_step(
    before: Seq<Event>,
    after: Seq<Event>,
    args: Seq<Seq<char>>,
    dry_run: bool,
    r: Result<(), Seq<CauseView>>,
)
    requires
        #[trigger] bookmarks::jj_step(before, after, args, dry_run, r),
        dry_run,
    ensures
        quiet::quiet(before, after),
{
    broadcast use crate::quiet::group_quiet;
}

pub broadcast proof fn dry_frozen_removed(
    before: Seq<Event>,
    after: Seq<Event>,
    config: AppConfigView,
    repo: Seq<char>,
    pr: GhPrView,
    diagnostics: Diagnostics,
    r: Result<u64, Seq<CauseView>>,
)
    requires
        #[trigger] unfreeze::frozen_removed(before, after, config, repo, pr, diagnostics, r),
        diagnostics.dry_run,
    ensures
        quiet::quiet(before, after),
{
    broadcast use {crate::quiet::group_quiet, dry_adoption_verified, dry_jj_step};
}

pub broadcast proof fn dry_adoption_thawed(
    before: Seq<Event>,
    after: Seq<Event>,
    config: AppConfigView,
    repo: Seq<char>,
    pr: GhPrView,
    present: bool,
    diagnostics: Diagnostics,
    r: Result<u64, Seq<CauseView>>,
)
    requires
        #[trigger] unfreeze::adoption_thawed(
            before,
            after,
            config,
            repo,
            pr,
            present,
            diagnostics,
            r,
        ),
        diagnostics.dry_run,
    ensures
        quiet::quiet(before, after),
{
    broadcast use {
        crate::quiet::group_quiet,
        dry_adoption_verified,
        dry_frozen_removed,
        crate::asking::lemma_phase_said,
    };
}

pub broadcast proof fn dry_blockers_followed(
    before: Seq<Event>,
    after: Seq<Event>,
    remote: Seq<char>,
    left: Seq<RemoteBookmarkView>,
    dry_run: bool,
    r: Result<(), Seq<CauseView>>,
)
    requires
        #[trigger] bookmarks::blockers_followed(before, after, remote, left, dry_run, r),
        dry_run,
    ensures
        quiet::quiet(before, after),
    decreases left.len(),
{
    broadcast use {crate::quiet::group_quiet, dry_jj_step};

    if left.len() == 0 {
    } else {
        let n = before.len() as int;
        let warned = before.push(Event::Said(LineView::Warn(bookmarks::blocker_warning(left[0]))));
        let mid = after.take(n + 2);

        dry_blockers_followed(mid, after, remote, left.drop_first(), dry_run, r);
    }
}

pub broadcast proof fn dry_blockers_cleared(
    before: Seq<Event>,
    after: Seq<Event>,
    remote: Seq<char>,
    rev: Seq<char>,
    followed: Seq<char>,
    dry_run: bool,
    r: Result<(), Seq<CauseView>>,
)
    requires
        #[trigger] bookmarks::blockers_cleared(before, after, remote, rev, followed, dry_run, r),
        dry_run,
    ensures
        quiet::quiet(before, after),
{
    broadcast use {
        crate::quiet::group_quiet,
        dry_blockers_followed,
        crate::asking::asks_blockers_searched,
    };
}

pub broadcast proof fn dry_adoption_unblocked(
    before: Seq<Event>,
    after: Seq<Event>,
    config: AppConfigView,
    repo: Seq<char>,
    pr: GhPrView,
    present: bool,
    diagnostics: Diagnostics,
    r: Result<u64, Seq<CauseView>>,
)
    requires
        #[trigger] unfreeze::adoption_unblocked(
            before,
            after,
            config,
            repo,
            pr,
            present,
            diagnostics,
            r,
        ),
        diagnostics.dry_run,
    ensures
        quiet::quiet(before, after),
{
    broadcast use {
        crate::quiet::group_quiet,
        dry_adoption_thawed,
        dry_blockers_cleared,
        crate::asking::lemma_phase_said,
    };
}

pub broadcast proof fn dry_adoption_followed(
    before: Seq<Event>,
    after: Seq<Event>,
    config: AppConfigView,
    repo: Seq<char>,
    pr: GhPrView,
    present: bool,
    diagnostics: Diagnostics,
    r: Result<u64, Seq<CauseView>>,
)
    requires
        #[trigger] unfreeze::adoption_followed(
            before,
            after,
            config,
            repo,
            pr,
            present,
            diagnostics,
            r,
        ),
        diagnostics.dry_run,
    ensures
        quiet::quiet(before, after),
{
    broadcast use {
        crate::quiet::group_quiet,
        dry_adoption_unblocked,
        dry_jj_step,
        crate::asking::lemma_phase_said,
    };
}

pub broadcast proof fn dry_branches_fetched(
    before: Seq<Event>,
    after: Seq<Event>,
    remote: Seq<char>,
    prs: Seq<GhPrView>,
    dry_run: bool,
    r: Result<(), Seq<CauseView>>,
)
    requires
        #[trigger] branches::branches_fetched(before, after, remote, prs, dry_run, r),
        dry_run,
    ensures
        quiet::quiet(before, after),
{
    broadcast use crate::quiet::group_quiet;
}

pub broadcast proof fn dry_adoption_fetched(
    before: Seq<Event>,
    after: Seq<Event>,
    config: AppConfigView,
    repo: Seq<char>,
    pr: GhPrView,
    present: bool,
    diagnostics: Diagnostics,
    r: Result<u64, Seq<CauseView>>,
)
    requires
        #[trigger] unfreeze::adoption_fetched(
            before,
            after,
            config,
            repo,
            pr,
            present,
            diagnostics,
            r,
        ),
        diagnostics.dry_run,
    ensures
        quiet::quiet(before, after),
{
    broadcast use {
        crate::quiet::group_quiet,
        dry_adoption_followed,
        dry_branches_fetched,
        crate::asking::lemma_phase_said,
    };
}

pub broadcast proof fn dry_adoption_compared(
    before: Seq<Event>,
    after: Seq<Event>,
    config: AppConfigView,
    repo: Seq<char>,
    pr: GhPrView,
    list: Seq<FrozenBookmarkView>,
    diagnostics: Diagnostics,
    r: Result<u64, Seq<CauseView>>,
)
    requires
        #[trigger] unfreeze::adoption_compared(
            before,
            after,
            config,
            repo,
            pr,
            list,
            diagnostics,
            r,
        ),
        diagnostics.dry_run,
    ensures
        quiet::quiet(before, after),
{
    broadcast use {crate::quiet::group_quiet, dry_adoption_fetched};
}

pub broadcast proof fn dry_adoption_listed(
    before: Seq<Event>,
    after: Seq<Event>,
    config: AppConfigView,
    repo: Seq<char>,
    pr: GhPrView,
    diagnostics: Diagnostics,
    r: Result<u64, Seq<CauseView>>,
)
    requires
        #[trigger] unfreeze::adoption_listed(before, after, config, repo, pr, diagnostics, r),
        diagnostics.dry_run,
    ensures
        quiet::quiet(before, after),
{
    broadcast use {
        crate::quiet::group_quiet,
        dry_adoption_compared,
        crate::asking::lemma_phase_said,
    };
}

pub broadcast proof fn dry_adoption_permitted(
    before: Seq<Event>,
    after: Seq<Event>,
    config: AppConfigView,
    github: GitHubContextView,
    pr: GhPrView,
    diagnostics: Diagnostics,
    r: Result<u64, Seq<CauseView>>,
)
    requires
        #[trigger] unfreeze::adoption_permitted(before, after, config, github, pr, diagnostics, r),
        diagnostics.dry_run,
    ensures
        quiet::quiet(before, after),
{
    broadcast use {crate::quiet::group_quiet, dry_adoption_listed};

    crate::quiet::lemma_repo_path(github.repo);
}

pub broadcast proof fn dry_adoption_targeted(
    before: Seq<Event>,
    after: Seq<Event>,
    config: AppConfigView,
    github: GitHubContextView,
    target: GetTargetView,
    diagnostics: Diagnostics,
    r: Result<u64, Seq<CauseView>>,
)
    requires
        #[trigger] unfreeze::adoption_targeted(
            before,
            after,
            config,
            github,
            target,
            diagnostics,
            r,
        ),
        diagnostics.dry_run,
    ensures
        quiet::quiet(before, after),
{
    broadcast use {
        crate::quiet::group_quiet,
        dry_adoption_permitted,
        crate::asking::asks_target_resolved,
        crate::asking::lemma_phase_said,
    };
}

pub broadcast proof fn dry_trunk_set(
    before: Seq<Event>,
    after: Seq<Event>,
    config: AppConfigView,
    local: Seq<char>,
    remote: Seq<char>,
    diagnostics: Diagnostics,
    r: Result<(), Seq<CauseView>>,
)
    requires
        #[trigger] trunk::trunk_set(before, after, config, local, remote, diagnostics, r),
        diagnostics.dry_run,
    ensures
        quiet::quiet(before, after),
{
    broadcast use {crate::quiet::group_quiet, crate::asking::lemma_move_lines};
}

pub broadcast proof fn dry_older_trunk_moved(
    before: Seq<Event>,
    after: Seq<Event>,
    config: AppConfigView,
    local: Seq<char>,
    remote: Seq<char>,
    diagnostics: Diagnostics,
    r: Result<(), Seq<CauseView>>,
)
    requires
        #[trigger] trunk::older_trunk_moved(before, after, config, local, remote, diagnostics, r),
        diagnostics.dry_run,
    ensures
        quiet::quiet(before, after),
{
    broadcast use {crate::quiet::group_quiet, dry_trunk_set};
}

pub broadcast proof fn dry_agreed_trunk_moved(
    before: Seq<Event>,
    after: Seq<Event>,
    config: AppConfigView,
    local: Seq<char>,
    remote: Seq<char>,
    diagnostics: Diagnostics,
    r: Result<(), Seq<CauseView>>,
)
    requires
        #[trigger] trunk::agreed_trunk_moved(before, after, config, local, remote, diagnostics, r),
        diagnostics.dry_run,
    ensures
        quiet::quiet(before, after),
{
    broadcast use {
        crate::quiet::group_quiet,
        dry_older_trunk_moved,
        crate::asking::lemma_plan_said,
    };
}

pub broadcast proof fn dry_branch_removed(
    before: Seq<Event>,
    after: Seq<Event>,
    remote: Seq<char>,
    branch: Seq<char>,
    diagnostics: Diagnostics,
    gone: bool,
)
    requires
        #[trigger] cleanup::branch_removed(before, after, remote, branch, diagnostics, gone),
        diagnostics.dry_run,
    ensures
        quiet::quiet(before, after),
{
    broadcast use {crate::quiet::group_quiet, crate::asking::lemma_plan_said};
}

pub broadcast proof fn dry_branch_swept(
    before: Seq<Event>,
    after: Seq<Event>,
    remote: Seq<char>,
    repo: Seq<char>,
    branch: Seq<char>,
    diagnostics: Diagnostics,
    gone: bool,
)
    requires
        #[trigger] cleanup::branch_swept(before, after, remote, repo, branch, diagnostics, gone),
        diagnostics.dry_run,
    ensures
        quiet::quiet(before, after),
{
    broadcast use {crate::quiet::group_quiet, dry_branch_removed};
}

pub broadcast proof fn dry_branches_swept(
    before: Seq<Event>,
    after: Seq<Event>,
    remote: Seq<char>,
    repo: Seq<char>,
    branches: Seq<Seq<char>>,
    at: int,
    done: Seq<Seq<char>>,
    steps: bool,
    diagnostics: Diagnostics,
    gone: Seq<Seq<char>>,
)
    requires
        #[trigger] cleanup::branches_swept(
            before,
            after,
            remote,
            repo,
            branches,
            at,
            done,
            steps,
            diagnostics,
            gone,
        ),
        diagnostics.dry_run,
    ensures
        quiet::quiet(before, after),
    decreases branches.len() - at,
{
    broadcast use {crate::quiet::group_quiet, dry_branch_swept, crate::asking::lemma_step_said};

    if at >= branches.len() {
    } else {
        let (mid, one) = choose|mid: Seq<Event>, one: bool| {
            &&& #[trigger] cleanup::branch_swept(
                before,
                mid,
                remote,
                repo,
                branches[at],
                diagnostics,
                one,
            )
            &&& cleanup::branches_swept(
                mid + ui::step_said(steps, (at + 1) as usize),
                after,
                remote,
                repo,
                branches,
                at + 1,
                if one {
                    done.push(branches[at])
                } else {
                    done
                },
                steps,
                diagnostics,
                gone,
            )
        };

        dry_branches_swept(
            mid + ui::step_said(steps, (at + 1) as usize),
            after,
            remote,
            repo,
            branches,
            at + 1,
            if one { done.push(branches[at]) } else { done },
            steps,
            diagnostics,
            gone,
        );
    }
}

pub broadcast proof fn dry_all_branches_swept(
    before: Seq<Event>,
    after: Seq<Event>,
    remote: Seq<char>,
    repo: Seq<char>,
    branches: Seq<Seq<char>>,
    diagnostics: Diagnostics,
    gone: Seq<Seq<char>>,
)
    requires
        #[trigger] cleanup::all_branches_swept(
            before,
            after,
            remote,
            repo,
            branches,
            diagnostics,
            gone,
        ),
        diagnostics.dry_run,
    ensures
        quiet::quiet(before, after),
{
    broadcast use {crate::quiet::group_quiet, dry_branches_swept, crate::asking::lemma_steps_said};
}

pub broadcast proof fn dry_base_repointed(
    before: Seq<Event>,
    after: Seq<Event>,
    repo: Seq<char>,
    number: u64,
    trunk: Seq<char>,
    diagnostics: Diagnostics,
    r: Result<(), Seq<CauseView>>,
)
    requires
        #[trigger] trunk::base_repointed(before, after, repo, number, trunk, diagnostics, r),
        diagnostics.dry_run,
    ensures
        quiet::quiet(before, after),
{
    broadcast use {crate::quiet::group_quiet, crate::asking::lemma_plan_said};
}

pub broadcast proof fn dry_candidate_repointed(
    before: Seq<Event>,
    after: Seq<Event>,
    trunk: Seq<char>,
    repo: Seq<char>,
    change: ResolvedChangeView,
    entry: PrCacheEntryView,
    pr: GhMergePrView,
    diagnostics: Diagnostics,
    r: Result<PreparedView, Seq<CauseView>>,
)
    requires
        #[trigger] merge::candidate_repointed(
            before,
            after,
            trunk,
            repo,
            change,
            entry,
            pr,
            diagnostics,
            r,
        ),
        diagnostics.dry_run,
    ensures
        quiet::quiet(before, after),
{
    broadcast use {crate::quiet::group_quiet, dry_base_repointed};
}

pub broadcast proof fn dry_pr_prepared(
    before: Seq<Event>,
    after: Seq<Event>,
    trunk: Seq<char>,
    repo: Seq<char>,
    change: ResolvedChangeView,
    entry: PrCacheEntryView,
    pr: GhMergePrView,
    diagnostics: Diagnostics,
    r: Result<PreparedView, Seq<CauseView>>,
)
    requires
        #[trigger] merge::pr_prepared(
            before,
            after,
            trunk,
            repo,
            change,
            entry,
            pr,
            diagnostics,
            r,
        ),
        diagnostics.dry_run,
    ensures
        quiet::quiet(before, after),
{
    broadcast use {crate::quiet::group_quiet, dry_candidate_repointed};
}

pub broadcast proof fn dry_change_prepared(
    before: Seq<Event>,
    after: Seq<Event>,
    config: AppConfigView,
    github: GitHubContextView,
    change: ResolvedChangeView,
    diagnostics: Diagnostics,
    r: Result<PreparedView, Seq<CauseView>>,
)
    requires
        #[trigger] merge::change_prepared(before, after, config, github, change, diagnostics, r),
        diagnostics.dry_run,
    ensures
        quiet::quiet(before, after),
{
    broadcast use {
        crate::quiet::group_quiet,
        dry_pr_prepared,
        crate::asking::asks_candidate_resolved,
    };
}

pub broadcast proof fn dry_changes_prepared(
    before: Seq<Event>,
    after: Seq<Event>,
    config: AppConfigView,
    github: GitHubContextView,
    stack: Seq<ResolvedChangeView>,
    at: int,
    pass: PassView,
    steps: bool,
    diagnostics: Diagnostics,
    r: Result<PassView, Seq<CauseView>>,
)
    requires
        #[trigger] merge::changes_prepared(
            before,
            after,
            config,
            github,
            stack,
            at,
            pass,
            steps,
            diagnostics,
            r,
        ),
        diagnostics.dry_run,
    ensures
        quiet::quiet(before, after),
    decreases stack.len() - at,
{
    broadcast use {crate::quiet::group_quiet, dry_change_prepared, crate::asking::lemma_step_said};

    if at >= stack.len() {
    } else {
        let (mid, got) = choose|mid: Seq<Event>, got: Result<PreparedView, Seq<CauseView>>| {
            &&& #[trigger] merge::change_prepared(
                before,
                mid,
                config,
                github,
                stack[at],
                diagnostics,
                got,
            )
            &&& match got {
                Err(e) => record::stopped(mid, after, e, r),
                Ok(one) => merge::changes_prepared(
                    mid + ui::step_said(steps, (at + 1) as usize),
                    after,
                    config,
                    github,
                    stack,
                    at + 1,
                    pass.with(one),
                    steps,
                    diagnostics,
                    r,
                ),
            }
        };
        match got {
            Err(e) => {},
            Ok(one) => {
                dry_changes_prepared(
                    mid + ui::step_said(steps, (at + 1) as usize),
                    after,
                    config,
                    github,
                    stack,
                    at + 1,
                    pass.with(one),
                    steps,
                    diagnostics,
                    r,
                );
            },
        }
    }
}

pub broadcast proof fn dry_all_changes_prepared(
    before: Seq<Event>,
    after: Seq<Event>,
    config: AppConfigView,
    context: AppContextView,
    diagnostics: Diagnostics,
    r: Result<PassView, Seq<CauseView>>,
)
    requires
        #[trigger] merge::all_changes_prepared(before, after, config, context, diagnostics, r),
        diagnostics.dry_run,
    ensures
        quiet::quiet(before, after),
{
    broadcast use {
        crate::quiet::group_quiet,
        dry_changes_prepared,
        crate::asking::lemma_steps_said,
    };
}

pub broadcast proof fn dry_stack_unfrozen(
    before: Seq<Event>,
    after: Seq<Event>,
    config: AppConfigView,
    target: Seq<char>,
    diagnostics: Diagnostics,
    r: Result<u64, Seq<CauseView>>,
)
    requires
        #[trigger] unfreeze::stack_unfrozen(before, after, config, target, diagnostics, r),
        diagnostics.dry_run,
    ensures
        quiet::quiet(before, after),
{
    broadcast use {
        crate::quiet::group_quiet,
        dry_adoption_targeted,
        crate::asking::asks_target_opened,
    };
}

pub broadcast proof fn dry_all_unfrozen(
    before: Seq<Event>,
    after: Seq<Event>,
    config: AppConfigView,
    bookmarks: Seq<FrozenBookmarkView>,
    at: int,
    diagnostics: Diagnostics,
    r: Result<usize, Seq<CauseView>>,
)
    requires
        #[trigger] commands::all_unfrozen(before, after, config, bookmarks, at, diagnostics, r),
        diagnostics.dry_run,
    ensures
        quiet::quiet(before, after),
    decreases bookmarks.len() - at,
{
    broadcast use {crate::quiet::group_quiet, dry_stack_unfrozen};

    if at >= bookmarks.len() {
    } else {
        let (mid, done) = choose|mid: Seq<Event>, done: Result<u64, Seq<CauseView>>| {
            &&& #[trigger] unfreeze::stack_unfrozen(
                before,
                mid,
                config,
                text::decimal(bookmarks[at].pr_number as nat),
                diagnostics,
                done,
            )
            &&& match done {
                Err(e) => record::stopped(mid, after, e, r),
                Ok(_) => commands::all_unfrozen(
                    mid,
                    after,
                    config,
                    bookmarks,
                    at + 1,
                    diagnostics,
                    r,
                ),
            }
        };
        match done {
            Err(e) => {},
            Ok(_) => {
                dry_all_unfrozen(mid, after, config, bookmarks, at + 1, diagnostics, r);
            },
        }
    }
}

pub broadcast proof fn dry_views_compared(
    before: Seq<Event>,
    after: Seq<Event>,
    config: AppConfigView,
    local: Seq<char>,
    remote: Seq<char>,
    diagnostics: Diagnostics,
    r: Result<(), Seq<CauseView>>,
)
    requires
        #[trigger] trunk::views_compared(before, after, config, local, remote, diagnostics, r),
        diagnostics.dry_run,
    ensures
        quiet::quiet(before, after),
{
    broadcast use {crate::quiet::group_quiet, dry_agreed_trunk_moved};
}

pub broadcast proof fn dry_local_trunk_moved(
    before: Seq<Event>,
    after: Seq<Event>,
    config: AppConfigView,
    local: Seq<char>,
    diagnostics: Diagnostics,
    r: Result<(), Seq<CauseView>>,
)
    requires
        #[trigger] trunk::local_trunk_moved(before, after, config, local, diagnostics, r),
        diagnostics.dry_run,
    ensures
        quiet::quiet(before, after),
{
    broadcast use {crate::quiet::group_quiet, dry_views_compared};
}

pub broadcast proof fn dry_trunk_moved(
    before: Seq<Event>,
    after: Seq<Event>,
    config: AppConfigView,
    diagnostics: Diagnostics,
    r: Result<(), Seq<CauseView>>,
)
    requires
        #[trigger] trunk::trunk_moved(before, after, config, diagnostics, r),
        diagnostics.dry_run,
    ensures
        quiet::quiet(before, after),
{
    broadcast use {crate::quiet::group_quiet, dry_local_trunk_moved};
}

pub broadcast proof fn dry_bare_trunk_synced(
    before: Seq<Event>,
    after: Seq<Event>,
    config: AppConfigView,
    cleaned: usize,
    diagnostics: Diagnostics,
    r: Result<SyncSummary, Seq<CauseView>>,
)
    requires
        #[trigger] sync::bare_trunk_synced(before, after, config, cleaned, diagnostics, r),
        diagnostics.dry_run,
    ensures
        quiet::quiet(before, after),
{
    broadcast use {crate::quiet::group_quiet, dry_trunk_moved, crate::asking::lemma_phase_said};
}

pub broadcast proof fn dry_frozen_updated(
    before: Seq<Event>,
    after: Seq<Event>,
    prs: Seq<GhPrView>,
    dry_run: bool,
    r: Result<(), Seq<CauseView>>,
)
    requires
        #[trigger] bookmarks::frozen_updated(before, after, prs, dry_run, r),
        dry_run,
    ensures
        quiet::quiet(before, after),
{
    broadcast use {crate::quiet::group_quiet, crate::asking::lemma_frozen_plan};

    reveal(quiet::quiet);
}

pub broadcast proof fn dry_bookmarks_refreshed(
    before: Seq<Event>,
    after: Seq<Event>,
    prs: Seq<GhPrView>,
    github: GitHubContextView,
    dry_run: bool,
    r: Result<SyncFrozenRefreshView, Seq<CauseView>>,
)
    requires
        #[trigger] sync::bookmarks_refreshed(before, after, prs, github, dry_run, r),
        dry_run,
    ensures
        quiet::quiet(before, after),
{
    broadcast use {crate::quiet::group_quiet, dry_frozen_updated};
}

pub broadcast proof fn dry_branches_refreshed(
    before: Seq<Event>,
    after: Seq<Event>,
    remote: Seq<char>,
    prs: Seq<GhPrView>,
    github: GitHubContextView,
    dry_run: bool,
    r: Result<SyncFrozenRefreshView, Seq<CauseView>>,
)
    requires
        #[trigger] sync::branches_refreshed(before, after, remote, prs, github, dry_run, r),
        dry_run,
    ensures
        quiet::quiet(before, after),
{
    broadcast use {crate::quiet::group_quiet, dry_bookmarks_refreshed, dry_branches_fetched};
}

pub broadcast proof fn dry_merge_followed(
    before: Seq<Event>,
    after: Seq<Event>,
    config: AppConfigView,
    s: MergeSummary,
    diagnostics: Diagnostics,
    r: Result<(), Seq<CauseView>>,
)
    requires
        #[trigger] commands::merge_followed(before, after, config, s, diagnostics, r),
        diagnostics.dry_run,
    ensures
        quiet::quiet(before, after),
{
    broadcast use {crate::quiet::group_quiet, dry_above_refreshed, crate::asking::lemma_merge_said};
}

pub broadcast proof fn dry_merged_branches_cleaned(
    before: Seq<Event>,
    after: Seq<Event>,
    remote: Seq<char>,
    repo: Seq<char>,
    branches: Seq<Seq<char>>,
    diagnostics: Diagnostics,
    r: usize,
)
    requires
        #[trigger] cleanup::merged_branches_cleaned(
            before,
            after,
            remote,
            repo,
            branches,
            diagnostics,
            r,
        ),
        diagnostics.dry_run,
    ensures
        quiet::quiet(before, after),
{
    broadcast use {
        crate::quiet::group_quiet,
        dry_all_branches_swept,
        crate::asking::lemma_steps_ended,
    };
}

pub broadcast proof fn dry_merge_judged(
    before: Seq<Event>,
    after: Seq<Event>,
    config: AppConfigView,
    context: AppContextView,
    candidates: Seq<MergeCandidateView>,
    merged: Seq<Seq<char>>,
    updates: usize,
    admin: bool,
    diagnostics: Diagnostics,
    r: Result<MergeSummary, Seq<CauseView>>,
)
    requires
        #[trigger] merge::merge_judged(
            before,
            after,
            config,
            context,
            candidates,
            merged,
            updates,
            admin,
            diagnostics,
            r,
        ),
        diagnostics.dry_run,
    ensures
        quiet::quiet(before, after),
{
    broadcast use {crate::quiet::group_quiet, crate::asking::lemma_plan_rows_said};
}

pub broadcast proof fn dry_merge_settled(
    before: Seq<Event>,
    after: Seq<Event>,
    config: AppConfigView,
    context: AppContextView,
    pass: PassView,
    admin: bool,
    diagnostics: Diagnostics,
    r: Result<MergeSummary, Seq<CauseView>>,
)
    requires
        #[trigger] merge::merge_settled(
            before,
            after,
            config,
            context,
            pass,
            admin,
            diagnostics,
            r,
        ),
        diagnostics.dry_run,
    ensures
        quiet::quiet(before, after),
{
    broadcast use {
        crate::quiet::group_quiet,
        dry_merge_judged,
        crate::asking::asks_candidates_settled,
    };
}

pub broadcast proof fn dry_stack_prepared(
    before: Seq<Event>,
    after: Seq<Event>,
    config: AppConfigView,
    context: AppContextView,
    diagnostics: Diagnostics,
    r: Result<PassView, Seq<CauseView>>,
)
    requires
        #[trigger] merge::stack_prepared(before, after, config, context, diagnostics, r),
        diagnostics.dry_run,
    ensures
        quiet::quiet(before, after),
{
    broadcast use {
        crate::quiet::group_quiet,
        dry_all_changes_prepared,
        crate::asking::lemma_steps_ended,
    };
}

pub broadcast proof fn dry_merge_prepared(
    before: Seq<Event>,
    after: Seq<Event>,
    config: AppConfigView,
    context: AppContextView,
    admin: bool,
    diagnostics: Diagnostics,
    r: Result<MergeSummary, Seq<CauseView>>,
)
    requires
        #[trigger] merge::merge_prepared(before, after, config, context, admin, diagnostics, r),
        diagnostics.dry_run,
    ensures
        quiet::quiet(before, after),
{
    broadcast use {crate::quiet::group_quiet, dry_merge_settled, dry_stack_prepared};

    reveal(crate::merge::merge_prepared);
}

pub broadcast proof fn dry_merge_based(
    before: Seq<Event>,
    after: Seq<Event>,
    config: AppConfigView,
    context: AppContextView,
    bottom: GhMergePrView,
    admin: bool,
    diagnostics: Diagnostics,
    r: Result<MergeSummary, Seq<CauseView>>,
)
    requires
        #[trigger] merge::merge_based(
            before,
            after,
            config,
            context,
            bottom,
            admin,
            diagnostics,
            r,
        ),
        diagnostics.dry_run,
    ensures
        quiet::quiet(before, after),
{
    broadcast use {
        crate::quiet::group_quiet,
        dry_merge_prepared,
        crate::asking::asks_merge_dependencies_checked,
    };
}

pub broadcast proof fn dry_context_merged(
    before: Seq<Event>,
    after: Seq<Event>,
    config: AppConfigView,
    context: AppContextView,
    admin: bool,
    diagnostics: Diagnostics,
    r: Result<MergeSummary, Seq<CauseView>>,
)
    requires
        #[trigger] merge::context_merged(before, after, config, context, admin, diagnostics, r),
        diagnostics.dry_run,
    ensures
        quiet::quiet(before, after),
{
    broadcast use {
        crate::quiet::group_quiet,
        dry_merge_based,
        crate::asking::asks_candidate_resolved,
        crate::asking::lemma_context_said,
    };
}

pub broadcast proof fn dry_resolution_merged(
    before: Seq<Event>,
    after: Seq<Event>,
    config: AppConfigView,
    resolution: StackResolutionView,
    admin: bool,
    diagnostics: Diagnostics,
    r: Result<MergeSummary, Seq<CauseView>>,
)
    requires
        #[trigger] merge::resolution_merged(
            before,
            after,
            config,
            resolution,
            admin,
            diagnostics,
            r,
        ),
        diagnostics.dry_run,
    ensures
        quiet::quiet(before, after),
{
    broadcast use {
        crate::quiet::group_quiet,
        dry_context_merged,
        crate::asking::asks_github_resolved,
    };
}

pub broadcast proof fn dry_shaped_merged(
    before: Seq<Event>,
    after: Seq<Event>,
    config: AppConfigView,
    stack: Seq<ResolvedChangeView>,
    bookmarks: Seq<FrozenBookmarkView>,
    admin: bool,
    diagnostics: Diagnostics,
    r: Result<MergeSummary, Seq<CauseView>>,
)
    requires
        #[trigger] merge::shaped_merged(
            before,
            after,
            config,
            stack,
            bookmarks,
            admin,
            diagnostics,
            r,
        ),
        diagnostics.dry_run,
    ensures
        quiet::quiet(before, after),
{
    broadcast use {
        crate::quiet::group_quiet,
        dry_resolution_merged,
        crate::asking::asks_resolution_made,
    };
}

pub broadcast proof fn dry_revset_merged(
    before: Seq<Event>,
    after: Seq<Event>,
    config: AppConfigView,
    revset: Seq<char>,
    target: Option<MergeTargetView>,
    bookmarks: Seq<FrozenBookmarkView>,
    admin: bool,
    diagnostics: Diagnostics,
    r: Result<MergeSummary, Seq<CauseView>>,
)
    requires
        #[trigger] merge::revset_merged(
            before,
            after,
            config,
            revset,
            target,
            bookmarks,
            admin,
            diagnostics,
            r,
        ),
        diagnostics.dry_run,
    ensures
        quiet::quiet(before, after),
{
    broadcast use {
        crate::quiet::group_quiet,
        dry_shaped_merged,
        crate::asking::asks_nothing_merged,
        crate::asking::asks_stack_resolved,
    };

    reveal(crate::merge::revset_merged);
}

pub broadcast proof fn dry_frozen_merge_begun(
    before: Seq<Event>,
    after: Seq<Event>,
    config: AppConfigView,
    revset: Seq<char>,
    target: Option<MergeTargetView>,
    admin: bool,
    diagnostics: Diagnostics,
    r: Result<MergeSummary, Seq<CauseView>>,
)
    requires
        #[trigger] merge::frozen_merge_begun(
            before,
            after,
            config,
            revset,
            target,
            admin,
            diagnostics,
            r,
        ),
        diagnostics.dry_run,
    ensures
        quiet::quiet(before, after),
{
    broadcast use {crate::quiet::group_quiet, dry_revset_merged};
}

pub broadcast proof fn dry_stack_merged(
    before: Seq<Event>,
    after: Seq<Event>,
    config: AppConfigView,
    revset: Seq<char>,
    target: Option<MergeTargetView>,
    admin: bool,
    diagnostics: Diagnostics,
    r: Result<MergeSummary, Seq<CauseView>>,
)
    requires
        #[trigger] merge::stack_merged(
            before,
            after,
            config,
            revset,
            target,
            admin,
            diagnostics,
            r,
        ),
        diagnostics.dry_run,
    ensures
        quiet::quiet(before, after),
{
    broadcast use {
        crate::quiet::group_quiet,
        dry_frozen_merge_begun,
        crate::asking::lemma_phase_said,
    };
}

pub broadcast proof fn dry_chosen_merge_run(
    before: Seq<Event>,
    after: Seq<Event>,
    config: AppConfigView,
    relaxed: AppConfigView,
    targeted: bool,
    revset: Seq<char>,
    target: Option<MergeTargetView>,
    admin: bool,
    diagnostics: Diagnostics,
    r: Result<(), Seq<CauseView>>,
)
    requires
        #[trigger] commands::chosen_merge_run(
            before,
            after,
            config,
            relaxed,
            targeted,
            revset,
            target,
            admin,
            diagnostics,
            r,
        ),
        diagnostics.dry_run,
    ensures
        quiet::quiet(before, after),
{
    broadcast use {
        crate::quiet::group_quiet,
        dry_merge_followed,
        dry_stack_merged,
        crate::asking::lemma_merge_said,
    };
}

pub broadcast proof fn dry_get_fetched(
    before: Seq<Event>,
    after: Seq<Event>,
    config: AppConfigView,
    repo: Seq<char>,
    prs: Seq<GhPrView>,
    auto_edit: bool,
    diagnostics: Diagnostics,
    r: Result<GetSummary, Seq<CauseView>>,
)
    requires
        #[trigger] get::get_fetched(before, after, config, repo, prs, auto_edit, diagnostics, r),
        diagnostics.dry_run,
    ensures
        quiet::quiet(before, after),
{
    broadcast use {
        crate::quiet::group_quiet,
        dry_branches_fetched,
        crate::asking::asks_get_planned,
        crate::asking::lemma_phase_said,
    };
}

pub broadcast proof fn dry_get_listed(
    before: Seq<Event>,
    after: Seq<Event>,
    config: AppConfigView,
    github: GitHubContextView,
    target: u64,
    numbers: Seq<u64>,
    auto_edit: bool,
    diagnostics: Diagnostics,
    r: Result<GetSummary, Seq<CauseView>>,
)
    requires
        #[trigger] get::get_listed(
            before,
            after,
            config,
            github,
            target,
            numbers,
            auto_edit,
            diagnostics,
            r,
        ),
        diagnostics.dry_run,
    ensures
        quiet::quiet(before, after),
{
    broadcast use {
        crate::quiet::group_quiet,
        dry_get_fetched,
        crate::asking::asks_prs_fetched,
        crate::asking::lemma_phase_said,
    };
}

pub broadcast proof fn dry_get_commented(
    before: Seq<Event>,
    after: Seq<Event>,
    config: AppConfigView,
    github: GitHubContextView,
    target: u64,
    auto_edit: bool,
    diagnostics: Diagnostics,
    r: Result<GetSummary, Seq<CauseView>>,
)
    requires
        #[trigger] get::get_commented(
            before,
            after,
            config,
            github,
            target,
            auto_edit,
            diagnostics,
            r,
        ),
        diagnostics.dry_run,
    ensures
        quiet::quiet(before, after),
{
    broadcast use {
        crate::quiet::group_quiet,
        dry_get_listed,
        crate::asking::asks_latest_comment_found,
    };
}

pub broadcast proof fn dry_get_targeted(
    before: Seq<Event>,
    after: Seq<Event>,
    config: AppConfigView,
    github: GitHubContextView,
    target: GetTargetView,
    auto_edit: bool,
    diagnostics: Diagnostics,
    r: Result<GetSummary, Seq<CauseView>>,
)
    requires
        #[trigger] get::get_targeted(
            before,
            after,
            config,
            github,
            target,
            auto_edit,
            diagnostics,
            r,
        ),
        diagnostics.dry_run,
    ensures
        quiet::quiet(before, after),
{
    broadcast use {
        crate::quiet::group_quiet,
        dry_get_commented,
        crate::asking::asks_target_resolved,
        crate::asking::lemma_phase_said,
    };
}

pub broadcast proof fn dry_stack_got(
    before: Seq<Event>,
    after: Seq<Event>,
    config: AppConfigView,
    target: Seq<char>,
    auto_edit: bool,
    diagnostics: Diagnostics,
    r: Result<GetSummary, Seq<CauseView>>,
)
    requires
        #[trigger] get::stack_got(before, after, config, target, auto_edit, diagnostics, r),
        diagnostics.dry_run,
    ensures
        quiet::quiet(before, after),
{
    broadcast use {crate::quiet::group_quiet, dry_get_targeted, crate::asking::asks_target_opened};
}

pub broadcast proof fn dry_get_run(
    before: Seq<Event>,
    after: Seq<Event>,
    config: AppConfigView,
    target: Seq<char>,
    edit: bool,
    diagnostics: Diagnostics,
    r: Result<(), Seq<CauseView>>,
)
    requires
        #[trigger] commands::get_run(before, after, config, target, edit, diagnostics, r),
        diagnostics.dry_run,
    ensures
        quiet::quiet(before, after),
{
    broadcast use {crate::quiet::group_quiet, dry_stack_got};

    reveal(crate::commands::get_run);
}

pub broadcast proof fn dry_merge_run(
    before: Seq<Event>,
    after: Seq<Event>,
    config: AppConfigView,
    target: Option<Seq<char>>,
    no_require_approval: bool,
    admin: bool,
    diagnostics: Diagnostics,
    r: Result<(), Seq<CauseView>>,
)
    requires
        #[trigger] commands::merge_run(
            before,
            after,
            config,
            target,
            no_require_approval,
            admin,
            diagnostics,
            r,
        ),
        diagnostics.dry_run,
    ensures
        quiet::quiet(before, after),
{
    broadcast use {
        crate::quiet::group_quiet,
        dry_chosen_merge_run,
        crate::asking::asks_revset_chosen,
    };

    reveal(crate::commands::merge_run);
}

pub broadcast proof fn dry_pr_opened(
    before: Seq<Event>,
    after: Seq<Event>,
    platform: Platform,
    number: u64,
    url: Seq<char>,
    dry_run: bool,
    r: Result<(), Seq<CauseView>>,
)
    requires
        #[trigger] commands::pr_opened(before, after, platform, number, url, dry_run, r),
        dry_run,
    ensures
        quiet::quiet(before, after),
{
    broadcast use crate::quiet::group_quiet;
}

pub broadcast proof fn dry_repo_pr_run(
    before: Seq<Event>,
    after: Seq<Event>,
    config: AppConfigView,
    repo: Seq<char>,
    platform: Platform,
    target: Option<Seq<char>>,
    dry_run: bool,
    r: Result<(), Seq<CauseView>>,
)
    requires
        #[trigger] commands::repo_pr_run(before, after, config, repo, platform, target, dry_run, r),
        dry_run,
    ensures
        quiet::quiet(before, after),
{
    broadcast use {crate::quiet::group_quiet, dry_pr_opened, crate::asking::asks_pr_url_resolved};
}

pub broadcast proof fn dry_pr_run(
    before: Seq<Event>,
    after: Seq<Event>,
    config: AppConfigView,
    platform: Platform,
    target: Option<Seq<char>>,
    dry_run: bool,
    r: Result<(), Seq<CauseView>>,
)
    requires
        #[trigger] commands::pr_run(before, after, config, platform, target, dry_run, r),
        dry_run,
    ensures
        quiet::quiet(before, after),
{
    broadcast use {crate::quiet::group_quiet, dry_repo_pr_run, crate::asking::asks_github_resolved};

    reveal(crate::commands::pr_run);
}

pub broadcast proof fn dry_repair_decided(
    before: Seq<Event>,
    after: Seq<Event>,
    config: AppConfigView,
    github: GitHubContextView,
    target: u64,
    plan: RepairPlanView,
    yes: bool,
    diagnostics: Diagnostics,
    r: Result<RepairSummary, Seq<CauseView>>,
)
    requires
        #[trigger] repair::repair_decided(
            before,
            after,
            config,
            github,
            target,
            plan,
            yes,
            diagnostics,
            r,
        ),
        diagnostics.dry_run,
    ensures
        quiet::quiet(before, after),
{
    broadcast use {crate::quiet::group_quiet, crate::asking::lemma_plan_rows_said};
}

pub broadcast proof fn dry_repair_scanned(
    before: Seq<Event>,
    after: Seq<Event>,
    config: AppConfigView,
    github: GitHubContextView,
    target: u64,
    numbers: Seq<u64>,
    yes: bool,
    diagnostics: Diagnostics,
    r: Result<RepairSummary, Seq<CauseView>>,
)
    requires
        #[trigger] repair::repair_scanned(
            before,
            after,
            config,
            github,
            target,
            numbers,
            yes,
            diagnostics,
            r,
        ),
        diagnostics.dry_run,
    ensures
        quiet::quiet(before, after),
{
    broadcast use {
        crate::quiet::group_quiet,
        dry_repair_decided,
        crate::asking::asks_repair_planned,
        crate::asking::lemma_phase_said,
    };
}

pub broadcast proof fn dry_repair_listed(
    before: Seq<Event>,
    after: Seq<Event>,
    config: AppConfigView,
    github: GitHubContextView,
    target: u64,
    numbers: Seq<u64>,
    yes: bool,
    diagnostics: Diagnostics,
    r: Result<RepairSummary, Seq<CauseView>>,
)
    requires
        #[trigger] repair::repair_listed(
            before,
            after,
            config,
            github,
            target,
            numbers,
            yes,
            diagnostics,
            r,
        ),
        diagnostics.dry_run,
    ensures
        quiet::quiet(before, after),
{
    broadcast use {crate::quiet::group_quiet, dry_repair_scanned};
}

pub broadcast proof fn dry_repair_commented(
    before: Seq<Event>,
    after: Seq<Event>,
    config: AppConfigView,
    github: GitHubContextView,
    target: u64,
    yes: bool,
    diagnostics: Diagnostics,
    r: Result<RepairSummary, Seq<CauseView>>,
)
    requires
        #[trigger] repair::repair_commented(
            before,
            after,
            config,
            github,
            target,
            yes,
            diagnostics,
            r,
        ),
        diagnostics.dry_run,
    ensures
        quiet::quiet(before, after),
{
    broadcast use {
        crate::quiet::group_quiet,
        dry_repair_listed,
        crate::asking::asks_latest_comment_found,
    };
}

pub broadcast proof fn dry_repair_targeted(
    before: Seq<Event>,
    after: Seq<Event>,
    config: AppConfigView,
    github: GitHubContextView,
    target: GetTargetView,
    yes: bool,
    diagnostics: Diagnostics,
    r: Result<RepairSummary, Seq<CauseView>>,
)
    requires
        #[trigger] repair::repair_targeted(
            before,
            after,
            config,
            github,
            target,
            yes,
            diagnostics,
            r,
        ),
        diagnostics.dry_run,
    ensures
        quiet::quiet(before, after),
{
    broadcast use {
        crate::quiet::group_quiet,
        dry_repair_commented,
        crate::asking::asks_target_resolved,
        crate::asking::lemma_phase_said,
    };
}

pub broadcast proof fn dry_comments_repaired(
    before: Seq<Event>,
    after: Seq<Event>,
    config: AppConfigView,
    target: Seq<char>,
    yes: bool,
    diagnostics: Diagnostics,
    r: Result<RepairSummary, Seq<CauseView>>,
)
    requires
        #[trigger] repair::comments_repaired(before, after, config, target, yes, diagnostics, r),
        diagnostics.dry_run,
    ensures
        quiet::quiet(before, after),
{
    broadcast use {
        crate::quiet::group_quiet,
        dry_repair_targeted,
        crate::asking::asks_target_opened,
    };
}

pub broadcast proof fn dry_repair_run(
    before: Seq<Event>,
    after: Seq<Event>,
    config: AppConfigView,
    target: Seq<char>,
    yes: bool,
    diagnostics: Diagnostics,
    r: Result<(), Seq<CauseView>>,
)
    requires
        #[trigger] commands::repair_run(before, after, config, target, yes, diagnostics, r),
        diagnostics.dry_run,
    ensures
        quiet::quiet(before, after),
{
    broadcast use {crate::quiet::group_quiet, dry_comments_repaired};

    reveal(crate::commands::repair_run);
}

pub broadcast proof fn dry_context_submit_run(
    before: Seq<Event>,
    after: Seq<Event>,
    config: AppConfigView,
    context: AppContextView,
    yes: bool,
    diagnostics: Diagnostics,
    r: Result<(), Seq<CauseView>>,
)
    requires
        #[trigger] commands::context_submit_run(
            before,
            after,
            config,
            context,
            yes,
            diagnostics,
            r,
        ),
        diagnostics.dry_run,
    ensures
        quiet::quiet(before, after),
{
    broadcast use {
        crate::quiet::group_quiet,
        dry_stack_submitted,
        crate::asking::asks_submit_told,
        crate::asking::lemma_context_said,
    };
}

pub broadcast proof fn dry_submit_run(
    before: Seq<Event>,
    after: Seq<Event>,
    config: AppConfigView,
    yes: bool,
    diagnostics: Diagnostics,
    r: Result<(), Seq<CauseView>>,
)
    requires
        #[trigger] commands::submit_run(before, after, config, yes, diagnostics, r),
        diagnostics.dry_run,
    ensures
        quiet::quiet(before, after),
{
    broadcast use {
        crate::quiet::group_quiet,
        dry_context_submit_run,
        crate::asking::asks_context_resolved,
    };

    reveal(crate::commands::submit_run);
}

pub broadcast proof fn dry_fetch_done(
    before: Seq<Event>,
    after: Seq<Event>,
    config: AppConfigView,
    diagnostics: Diagnostics,
    r: Result<(), Seq<CauseView>>,
)
    requires
        #[trigger] trunk::fetch_done(before, after, config, diagnostics, r),
        diagnostics.dry_run,
    ensures
        quiet::quiet(before, after),
{
    broadcast use {crate::quiet::group_quiet, crate::asking::lemma_plan_said};
}

pub broadcast proof fn dry_landed_cleaned(
    before: Seq<Event>,
    after: Seq<Event>,
    remote: Seq<char>,
    repo: Seq<char>,
    landed: Seq<Seq<char>>,
    diagnostics: Diagnostics,
    r: Result<usize, Seq<CauseView>>,
)
    requires
        #[trigger] cleanup::landed_cleaned(before, after, remote, repo, landed, diagnostics, r),
        diagnostics.dry_run,
    ensures
        quiet::quiet(before, after),
{
    broadcast use {crate::quiet::group_quiet, dry_merged_branches_cleaned};
}

pub broadcast proof fn dry_landed_swept(
    before: Seq<Event>,
    after: Seq<Event>,
    remote: Seq<char>,
    landed: Seq<Seq<char>>,
    diagnostics: Diagnostics,
    r: Result<usize, Seq<CauseView>>,
)
    requires
        #[trigger] cleanup::landed_swept(before, after, remote, landed, diagnostics, r),
        diagnostics.dry_run,
    ensures
        quiet::quiet(before, after),
{
    broadcast use {
        crate::quiet::group_quiet,
        dry_landed_cleaned,
        crate::asking::asks_github_resolved,
    };
}

pub broadcast proof fn dry_landed_found(
    before: Seq<Event>,
    after: Seq<Event>,
    remote: Seq<char>,
    names: Seq<Seq<char>>,
    tip: Seq<char>,
    diagnostics: Diagnostics,
    r: Result<usize, Seq<CauseView>>,
)
    requires
        #[trigger] cleanup::landed_found(before, after, remote, names, tip, diagnostics, r),
        diagnostics.dry_run,
    ensures
        quiet::quiet(before, after),
{
    broadcast use {
        crate::quiet::group_quiet,
        dry_landed_swept,
        crate::asking::asks_all_landings_tested,
    };
}

pub broadcast proof fn dry_tip_looked_up(
    before: Seq<Event>,
    after: Seq<Event>,
    config: AppConfigView,
    names: Seq<Seq<char>>,
    diagnostics: Diagnostics,
    r: Result<usize, Seq<CauseView>>,
)
    requires
        #[trigger] cleanup::tip_looked_up(before, after, config, names, diagnostics, r),
        diagnostics.dry_run,
    ensures
        quiet::quiet(before, after),
{
    broadcast use {crate::quiet::group_quiet, dry_landed_found};
}

pub broadcast proof fn dry_landed_branches_cleaned(
    before: Seq<Event>,
    after: Seq<Event>,
    config: AppConfigView,
    diagnostics: Diagnostics,
    r: Result<usize, Seq<CauseView>>,
)
    requires
        #[trigger] cleanup::landed_branches_cleaned(before, after, config, diagnostics, r),
        diagnostics.dry_run,
    ensures
        quiet::quiet(before, after),
{
    broadcast use {
        crate::quiet::group_quiet,
        dry_tip_looked_up,
        crate::asking::asks_stack_names_listed,
    };
}

pub broadcast proof fn dry_dependencies_fetched(
    before: Seq<Event>,
    after: Seq<Event>,
    config: AppConfigView,
    dependencies: Seq<FrozenDependencyView>,
    github: GitHubContextView,
    dry_run: bool,
    r: Result<SyncFrozenRefreshView, Seq<CauseView>>,
)
    requires
        #[trigger] sync::dependencies_fetched(
            before,
            after,
            config,
            dependencies,
            github,
            dry_run,
            r,
        ),
        dry_run,
    ensures
        quiet::quiet(before, after),
{
    broadcast use {
        crate::quiet::group_quiet,
        dry_branches_refreshed,
        crate::asking::asks_dependency_prs_fetched,
    };
}

pub broadcast proof fn dry_dependencies_located(
    before: Seq<Event>,
    after: Seq<Event>,
    config: AppConfigView,
    dependencies: Seq<FrozenDependencyView>,
    dry_run: bool,
    r: Result<SyncFrozenRefreshView, Seq<CauseView>>,
)
    requires
        #[trigger] sync::dependencies_located(before, after, config, dependencies, dry_run, r),
        dry_run,
    ensures
        quiet::quiet(before, after),
{
    broadcast use {
        crate::quiet::group_quiet,
        dry_dependencies_fetched,
        crate::asking::asks_github_resolved,
    };
}

pub broadcast proof fn dry_dependencies_refreshed(
    before: Seq<Event>,
    after: Seq<Event>,
    config: AppConfigView,
    dependencies: Seq<FrozenDependencyView>,
    dry_run: bool,
    r: Result<SyncFrozenRefreshView, Seq<CauseView>>,
)
    requires
        #[trigger] sync::dependencies_refreshed(before, after, config, dependencies, dry_run, r),
        dry_run,
    ensures
        quiet::quiet(before, after),
{
    broadcast use {crate::quiet::group_quiet, dry_dependencies_located};
}

pub broadcast proof fn dry_rebase_done(
    before: Seq<Event>,
    after: Seq<Event>,
    root: ResolvedChangeView,
    what: Seq<char>,
    args: Seq<Seq<char>>,
    destination: RebaseDestinationView,
    dry_run: bool,
    r: Result<usize, Seq<CauseView>>,
)
    requires
        #[trigger] rebase::rebase_done(before, after, root, what, args, destination, dry_run, r),
        dry_run,
    ensures
        quiet::quiet(before, after),
{
    broadcast use crate::quiet::group_quiet;
}

pub broadcast proof fn dry_roots_rebased(
    before: Seq<Event>,
    after: Seq<Event>,
    stack: Seq<ResolvedChangeView>,
    destination: RebaseDestinationView,
    dry_run: bool,
    r: Result<usize, Seq<CauseView>>,
)
    requires
        #[trigger] rebase::roots_rebased(before, after, stack, destination, dry_run, r),
        dry_run,
    ensures
        quiet::quiet(before, after),
{
    broadcast use {crate::quiet::group_quiet, dry_rebase_done};
}

pub broadcast proof fn dry_synced_submitted(
    before: Seq<Event>,
    after: Seq<Event>,
    config: AppConfigView,
    context: AppContextView,
    yes: bool,
    summary: SyncSummary,
    diagnostics: Diagnostics,
    r: Result<SyncSummary, Seq<CauseView>>,
)
    requires
        #[trigger] sync::synced_submitted(
            before,
            after,
            config,
            context,
            yes,
            summary,
            diagnostics,
            r,
        ),
        diagnostics.dry_run,
    ensures
        quiet::quiet(before, after),
{
    broadcast use {
        crate::quiet::group_quiet,
        dry_stack_submitted,
        crate::asking::lemma_context_said,
    };
}

pub broadcast proof fn dry_sync_submitted(
    before: Seq<Event>,
    after: Seq<Event>,
    config: AppConfigView,
    revset: Seq<char>,
    github: Option<GitHubContextView>,
    yes: bool,
    summary: SyncSummary,
    diagnostics: Diagnostics,
    r: Result<SyncSummary, Seq<CauseView>>,
)
    requires
        #[trigger] sync::sync_submitted(
            before,
            after,
            config,
            revset,
            github,
            yes,
            summary,
            diagnostics,
            r,
        ),
        diagnostics.dry_run,
    ensures
        quiet::quiet(before, after),
{
    broadcast use {
        crate::quiet::group_quiet,
        dry_synced_submitted,
        crate::asking::asks_context_resolved,
        crate::asking::lemma_phase_said,
    };
}

pub broadcast proof fn dry_sync_finished(
    before: Seq<Event>,
    after: Seq<Event>,
    config: AppConfigView,
    revset: Seq<char>,
    github: Option<GitHubContextView>,
    submit: bool,
    yes: bool,
    summary: SyncSummary,
    diagnostics: Diagnostics,
    r: Result<SyncSummary, Seq<CauseView>>,
)
    requires
        #[trigger] sync::sync_finished(
            before,
            after,
            config,
            revset,
            github,
            submit,
            yes,
            summary,
            diagnostics,
            r,
        ),
        diagnostics.dry_run,
    ensures
        quiet::quiet(before, after),
{
    broadcast use {crate::quiet::group_quiet, dry_sync_submitted, crate::asking::lemma_plan_said};
}

pub broadcast proof fn dry_sync_rebased(
    before: Seq<Event>,
    after: Seq<Event>,
    config: AppConfigView,
    revset: Seq<char>,
    resolution: StackResolutionView,
    refresh: SyncFrozenRefreshView,
    submit: bool,
    yes: bool,
    cleaned: usize,
    diagnostics: Diagnostics,
    r: Result<SyncSummary, Seq<CauseView>>,
)
    requires
        #[trigger] sync::sync_rebased(
            before,
            after,
            config,
            revset,
            resolution,
            refresh,
            submit,
            yes,
            cleaned,
            diagnostics,
            r,
        ),
        diagnostics.dry_run,
    ensures
        quiet::quiet(before, after),
{
    broadcast use {
        crate::quiet::group_quiet,
        dry_roots_rebased,
        dry_sync_finished,
        crate::asking::lemma_phase_said,
    };
}

pub broadcast proof fn dry_sync_moved(
    before: Seq<Event>,
    after: Seq<Event>,
    config: AppConfigView,
    revset: Seq<char>,
    resolution: StackResolutionView,
    refresh: SyncFrozenRefreshView,
    submit: bool,
    yes: bool,
    cleaned: usize,
    diagnostics: Diagnostics,
    r: Result<SyncSummary, Seq<CauseView>>,
)
    requires
        #[trigger] sync::sync_moved(
            before,
            after,
            config,
            revset,
            resolution,
            refresh,
            submit,
            yes,
            cleaned,
            diagnostics,
            r,
        ),
        diagnostics.dry_run,
    ensures
        quiet::quiet(before, after),
{
    broadcast use {
        crate::quiet::group_quiet,
        dry_sync_rebased,
        dry_trunk_moved,
        crate::asking::lemma_phase_said,
    };
}

pub broadcast proof fn dry_sync_refreshed(
    before: Seq<Event>,
    after: Seq<Event>,
    config: AppConfigView,
    revset: Seq<char>,
    resolution: StackResolutionView,
    submit: bool,
    yes: bool,
    cleaned: usize,
    diagnostics: Diagnostics,
    r: Result<SyncSummary, Seq<CauseView>>,
)
    requires
        #[trigger] sync::sync_refreshed(
            before,
            after,
            config,
            revset,
            resolution,
            submit,
            yes,
            cleaned,
            diagnostics,
            r,
        ),
        diagnostics.dry_run,
    ensures
        quiet::quiet(before, after),
{
    broadcast use {
        crate::quiet::group_quiet,
        dry_dependencies_refreshed,
        dry_sync_moved,
        crate::asking::lemma_stack_said,
        crate::asking::lemma_phase_said,
    };
}

pub broadcast proof fn dry_sync_resolved(
    before: Seq<Event>,
    after: Seq<Event>,
    config: AppConfigView,
    revset: Seq<char>,
    stack: Seq<ResolvedChangeView>,
    bookmarks: Seq<FrozenBookmarkView>,
    submit: bool,
    yes: bool,
    cleaned: usize,
    diagnostics: Diagnostics,
    r: Result<SyncSummary, Seq<CauseView>>,
)
    requires
        #[trigger] sync::sync_resolved(
            before,
            after,
            config,
            revset,
            stack,
            bookmarks,
            submit,
            yes,
            cleaned,
            diagnostics,
            r,
        ),
        diagnostics.dry_run,
    ensures
        quiet::quiet(before, after),
{
    broadcast use {
        crate::quiet::group_quiet,
        dry_sync_refreshed,
        crate::asking::asks_sync_stack_resolved,
    };
}

pub broadcast proof fn dry_revset_synced(
    before: Seq<Event>,
    after: Seq<Event>,
    config: AppConfigView,
    revset: Seq<char>,
    bookmarks: Seq<FrozenBookmarkView>,
    submit: bool,
    yes: bool,
    cleaned: usize,
    diagnostics: Diagnostics,
    r: Result<SyncSummary, Seq<CauseView>>,
)
    requires
        #[trigger] sync::revset_synced(
            before,
            after,
            config,
            revset,
            bookmarks,
            submit,
            yes,
            cleaned,
            diagnostics,
            r,
        ),
        diagnostics.dry_run,
    ensures
        quiet::quiet(before, after),
{
    broadcast use {
        crate::quiet::group_quiet,
        dry_bare_trunk_synced,
        dry_sync_resolved,
        crate::asking::asks_stack_resolved,
    };
}

pub broadcast proof fn dry_frozen_sync_begun(
    before: Seq<Event>,
    after: Seq<Event>,
    config: AppConfigView,
    revset: Seq<char>,
    submit: bool,
    yes: bool,
    cleaned: usize,
    diagnostics: Diagnostics,
    r: Result<SyncSummary, Seq<CauseView>>,
)
    requires
        #[trigger] sync::frozen_sync_begun(
            before,
            after,
            config,
            revset,
            submit,
            yes,
            cleaned,
            diagnostics,
            r,
        ),
        diagnostics.dry_run,
    ensures
        quiet::quiet(before, after),
{
    broadcast use {crate::quiet::group_quiet, dry_revset_synced};
}

pub broadcast proof fn dry_sync_begun(
    before: Seq<Event>,
    after: Seq<Event>,
    config: AppConfigView,
    revset: Seq<char>,
    submit: bool,
    yes: bool,
    cleaned: usize,
    diagnostics: Diagnostics,
    r: Result<SyncSummary, Seq<CauseView>>,
)
    requires
        #[trigger] sync::sync_begun(
            before,
            after,
            config,
            revset,
            submit,
            yes,
            cleaned,
            diagnostics,
            r,
        ),
        diagnostics.dry_run,
    ensures
        quiet::quiet(before, after),
{
    broadcast use {
        crate::quiet::group_quiet,
        dry_frozen_sync_begun,
        crate::asking::lemma_phase_said,
    };
}

pub broadcast proof fn dry_sync_cleaned(
    before: Seq<Event>,
    after: Seq<Event>,
    config: AppConfigView,
    revset: Seq<char>,
    submit: bool,
    yes: bool,
    diagnostics: Diagnostics,
    r: Result<SyncSummary, Seq<CauseView>>,
)
    requires
        #[trigger] sync::sync_cleaned(before, after, config, revset, submit, yes, diagnostics, r),
        diagnostics.dry_run,
    ensures
        quiet::quiet(before, after),
{
    broadcast use {crate::quiet::group_quiet, dry_landed_branches_cleaned, dry_sync_begun};
}

pub broadcast proof fn dry_stack_synced(
    before: Seq<Event>,
    after: Seq<Event>,
    config: AppConfigView,
    revset: Seq<char>,
    submit: bool,
    yes: bool,
    diagnostics: Diagnostics,
    r: Result<SyncSummary, Seq<CauseView>>,
)
    requires
        #[trigger] sync::stack_synced(before, after, config, revset, submit, yes, diagnostics, r),
        diagnostics.dry_run,
    ensures
        quiet::quiet(before, after),
{
    broadcast use {
        crate::quiet::group_quiet,
        dry_fetch_done,
        dry_sync_cleaned,
        crate::asking::lemma_phase_said,
    };
}

pub broadcast proof fn dry_sync_run(
    before: Seq<Event>,
    after: Seq<Event>,
    config: AppConfigView,
    submit: bool,
    yes: bool,
    diagnostics: Diagnostics,
    r: Result<(), Seq<CauseView>>,
)
    requires
        #[trigger] commands::sync_run(before, after, config, submit, yes, diagnostics, r),
        diagnostics.dry_run,
    ensures
        quiet::quiet(before, after),
{
    broadcast use {crate::quiet::group_quiet, dry_stack_synced};

    reveal(crate::commands::sync_run);
}

pub broadcast proof fn dry_ui_run(
    before: Seq<Event>,
    after: Seq<Event>,
    args: Seq<Seq<char>>,
    dry_run: bool,
    r: Result<(), Seq<CauseView>>,
)
    requires
        #[trigger] commands::ui_run(before, after, args, dry_run, r),
        dry_run,
    ensures
        quiet::quiet(before, after),
{
    broadcast use crate::quiet::group_quiet;

    reveal(crate::commands::ui_run);
}

pub broadcast proof fn dry_unfreeze_run(
    before: Seq<Event>,
    after: Seq<Event>,
    config: AppConfigView,
    target: Seq<char>,
    diagnostics: Diagnostics,
    r: Result<(), Seq<CauseView>>,
)
    requires
        #[trigger] commands::unfreeze_run(before, after, config, target, diagnostics, r),
        diagnostics.dry_run,
    ensures
        quiet::quiet(before, after),
{
    broadcast use {crate::quiet::group_quiet, dry_stack_unfrozen};

    reveal(crate::commands::unfreeze_run);
}

pub broadcast proof fn dry_configured_run(
    before: Seq<Event>,
    after: Seq<Event>,
    config: AppConfigView,
    command: CommandView,
    platform: Platform,
    diagnostics: Diagnostics,
    r: Result<(), Seq<CauseView>>,
)
    requires
        #[trigger] commands::configured_run(
            before,
            after,
            config,
            command,
            platform,
            diagnostics,
            r,
        ),
        diagnostics.dry_run,
    ensures
        quiet::quiet(before, after),
{
    broadcast use {
        crate::quiet::group_quiet,
        dry_get_run,
        dry_merge_run,
        dry_pr_run,
        dry_repair_run,
        dry_submit_run,
        dry_sync_run,
        dry_ui_run,
        dry_unfreeze_run,
        crate::asking::asks_status_run,
    };
}

pub broadcast proof fn dry_startup_ensured(
    before: Seq<Event>,
    after: Seq<Event>,
    dry_run: bool,
    r: Result<(), Seq<CauseView>>,
)
    requires
        #[trigger] config::startup_ensured(before, after, dry_run, r),
        dry_run,
    ensures
        quiet::quiet(before, after),
{
    broadcast use {crate::quiet::group_quiet, crate::asking::asks_aliases_queried};

    reveal(quiet::all_harmless);
}

pub broadcast proof fn dry_started_run(
    before: Seq<Event>,
    after: Seq<Event>,
    config: AppConfigView,
    command: CommandView,
    platform: Platform,
    diagnostics: Diagnostics,
    r: Result<(), Seq<CauseView>>,
)
    requires
        #[trigger] commands::started_run(before, after, config, command, platform, diagnostics, r),
        diagnostics.dry_run,
    ensures
        quiet::quiet(before, after),
{
    broadcast use {
        crate::quiet::group_quiet,
        dry_configured_run,
        dry_startup_ensured,
        crate::asking::lemma_note_said,
    };
}

pub broadcast proof fn dry_located_run(
    before: Seq<Event>,
    after: Seq<Event>,
    command: CommandView,
    platform: Platform,
    diagnostics: Diagnostics,
    r: Result<(), Seq<CauseView>>,
)
    requires
        #[trigger] commands::located_run(before, after, command, platform, diagnostics, r),
        diagnostics.dry_run,
    ensures
        quiet::quiet(before, after),
{
    broadcast use {crate::quiet::group_quiet, dry_started_run, crate::asking::asks_config_resolved};
}

pub broadcast proof fn dry_command_run(
    before: Seq<Event>,
    after: Seq<Event>,
    command: CommandView,
    cwd: Seq<char>,
    platform: Platform,
    diagnostics: Diagnostics,
    r: Result<(), Seq<CauseView>>,
)
    requires
        #[trigger] commands::command_run(before, after, command, cwd, platform, diagnostics, r),
        diagnostics.dry_run,
    ensures
        quiet::quiet(before, after),
{
    broadcast use {crate::quiet::group_quiet, dry_located_run};
}

/// A dry run of any command changes nothing: it only asks, and says what it would do.
pub proof fn law_dry_run_changes_nothing(
    before: Seq<Event>,
    after: Seq<Event>,
    command: CommandView,
    cwd: Seq<char>,
    platform: Platform,
    diagnostics: Diagnostics,
    r: Result<(), Seq<CauseView>>,
)
    requires
        commands::command_run(before, after, command, cwd, platform, diagnostics, r),
        diagnostics.dry_run,
    ensures
        record::extends(before, after),
        forall|i: int| before.len() <= i < after.len() ==> quiet::harmless(#[trigger] after[i]),
{
    reveal(quiet::quiet);
    dry_command_run(before, after, command, cwd, platform, diagnostics, r);
}

/// The status of a stack is read without a change, in a dry run or not.
pub proof fn law_status_changes_nothing(
    before: Seq<Event>,
    after: Seq<Event>,
    config: AppConfigView,
    json: bool,
    diagnostics: Diagnostics,
    r: Result<(), Seq<CauseView>>,
)
    requires
        commands::status_run(before, after, config, json, diagnostics, r),
    ensures
        record::extends(before, after),
        forall|i: int| before.len() <= i < after.len() ==> quiet::harmless(#[trigger] after[i]),
{
    reveal(quiet::quiet);
    asking::asks_status_run(before, after, config, json, diagnostics, r);
}

} // verus!
