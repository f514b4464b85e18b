//! Which steps only ask.

use vstd::prelude::*;

use crate::bookmarks;
use crate::cache;
use crate::candidates;
use crate::cleanup;
use crate::commands;
use crate::comments;
use crate::config;
use crate::context;
use crate::empty_merge;
use crate::error;
use crate::error::{CauseView, CliErrorView};
use crate::frozen;
use crate::get;
use crate::get::GetSummary;
use crate::heads;
use crate::heads::SubmitHeadView;
use crate::merge;
use crate::merge::MergeSummary;
use crate::model::{
    AppConfigView, AppContextView, Diagnostics, FrozenBookmarkView, FrozenDependencyView,
    GhMergePrView, GhPrView, GhStackCommentView, GitHubContextView, MergeCandidateView,
    MergeTargetView, PrCacheEntryView, RemoteBookmarkView, RepairActionView, RepairPlanView,
    ResolvedChangeView, StackResolutionView, StartupConfigActionView, StatusAliasStateView,
    StatusFrozenDependencyView, StatusOwnedPrView, StatusReportView, SubmitPlanView,
};
use crate::planning;
use crate::planning::SubmitPrAction;
use crate::plans;
use crate::polling;
use crate::polling::POLL_MAX_ATTEMPTS;
use crate::pr;
use crate::pr::GetTargetView;
use crate::quiet;
use crate::ready;
use crate::record;
use crate::record::{Event, LineView};
use crate::repair;
use crate::repair::RepairSummary;
use crate::revsets;
use crate::stack;
use crate::status;
use crate::submit;
use crate::submit::SubmitSummary;
use crate::sync;
use crate::text;
use crate::trunk;
use crate::ui;
use crate::unfreeze;

verus! {

pub broadcast proof fn lemma_frozen_plan(
    prs: Seq<GhPrView>,
)
    ensures
        quiet::all_harmless(#[trigger] bookmarks::frozen_plan(prs)),
    decreases prs.len(),
{
    reveal(quiet::all_harmless);
    if prs.len() > 0 {
        lemma_frozen_plan(prs.drop_last());
    }
}

pub broadcast proof fn lemma_note_said(
    verbose: bool,
    note: Seq<char>,
)
    ensures
        quiet::all_harmless(#[trigger] commands::note_said(verbose, note)),
{
    reveal(quiet::all_harmless);
}

pub broadcast proof fn lemma_merge_said(
    s: MergeSummary,
    diagnostics: Diagnostics,
)
    ensures
        quiet::all_harmless(#[trigger] commands::merge_said(s, diagnostics)),
{
    reveal(quiet::all_harmless);
    broadcast use lemma_note_said;
}

pub broadcast proof fn lemma_divergent_warnings(
    stack: Seq<ResolvedChangeView>,
)
    ensures
        quiet::all_harmless(#[trigger] context::divergent_warnings(stack)),
    decreases stack.len(),
{
    reveal(quiet::all_harmless);
    if stack.len() > 0 {
        lemma_divergent_warnings(stack.drop_last());
    }
}

pub broadcast proof fn lemma_notes_said(
    rows: Seq<Seq<char>>,
)
    ensures
        quiet::all_harmless(#[trigger] context::notes_said(rows)),
{
    reveal(quiet::all_harmless);
}

pub broadcast proof fn lemma_stack_said(
    verbose: bool,
    stack: Seq<ResolvedChangeView>,
)
    ensures
        quiet::all_harmless(#[trigger] context::stack_said(verbose, stack)),
{
    reveal(quiet::all_harmless);
    broadcast use lemma_notes_said;
}

pub broadcast proof fn lemma_context_said(
    verbose: bool,
    context: AppContextView,
)
    ensures
        quiet::all_harmless(#[trigger] context::context_said(verbose, context)),
{
    reveal(quiet::all_harmless);
    broadcast use lemma_stack_said;
}

pub broadcast proof fn lemma_dry_lines(
    top: Seq<char>,
    auto_edit: bool,
)
    ensures
        quiet::all_harmless(#[trigger] get::dry_lines(top, auto_edit)),
{
    reveal(quiet::all_harmless);
}

pub broadcast proof fn lemma_action_said(
    diagnostics: Diagnostics,
    repo: Seq<char>,
    change: ResolvedChangeView,
    action: SubmitPrAction,
    entry: PrCacheEntryView,
)
    ensures
        quiet::all_harmless(
            #[trigger] planning::action_said(diagnostics, repo, change, action, entry)
        ),
{
    reveal(quiet::all_harmless);
}

pub broadcast proof fn lemma_waiting_said(
    verbose: bool,
    what: Seq<char>,
    pending: nat,
    how: Seq<char>,
    attempt: nat,
)
    ensures
        quiet::all_harmless(#[trigger] polling::waiting_said(verbose, what, pending, how, attempt)),
{
    reveal(quiet::all_harmless);
}

pub broadcast proof fn lemma_settle_pause(
    verbose: bool,
    pending: nat,
    attempt: nat,
    delay: u64,
)
    ensures
        quiet::all_harmless(#[trigger] polling::settle_pause(verbose, pending, attempt, delay)),
{
    reveal(quiet::all_harmless);
    broadcast use lemma_waiting_said;
}

pub broadcast proof fn lemma_verify_pause(
    verbose: bool,
    pending: nat,
    attempt: nat,
    delay: u64,
)
    ensures
        quiet::all_harmless(#[trigger] polling::verify_pause(verbose, pending, attempt, delay)),
{
    reveal(quiet::all_harmless);
    broadcast use lemma_waiting_said;
}

pub broadcast proof fn lemma_repair_rows_said(
    rows: Seq<Seq<char>>,
)
    ensures
        quiet::all_harmless(#[trigger] repair::repair_rows_said(rows)),
{
    reveal(quiet::all_harmless);
}

pub broadcast proof fn lemma_infos_said(
    rows: Seq<Seq<char>>,
)
    ensures
        quiet::all_harmless(#[trigger] status::infos_said(rows)),
{
    reveal(quiet::all_harmless);
}

pub broadcast proof fn lemma_warnings_said(
    rows: Seq<Seq<char>>,
)
    ensures
        quiet::all_harmless(#[trigger] status::warnings_said(rows)),
{
    reveal(quiet::all_harmless);
}

pub broadcast proof fn lemma_report_said(
    report: StatusReportView,
)
    ensures
        quiet::all_harmless(#[trigger] status::report_said(report)),
{
    reveal(quiet::all_harmless);
    broadcast use {lemma_infos_said, lemma_warnings_said};
}

pub broadcast proof fn lemma_submit_rows_said(
    rows: Seq<Seq<char>>,
)
    ensures
        quiet::all_harmless(#[trigger] submit::submit_rows_said(rows)),
{
    reveal(quiet::all_harmless);
}

pub broadcast proof fn lemma_move_lines(
    config: AppConfigView,
    local: Seq<char>,
    remote: Seq<char>,
    diagnostics: Diagnostics,
)
    ensures
        quiet::all_harmless(#[trigger] trunk::move_lines(config, local, remote, diagnostics)),
{
    reveal(quiet::all_harmless);
    broadcast use lemma_plan_said;
}

pub broadcast proof fn lemma_phase_said(
    diagnostics: Diagnostics,
    phase: Seq<char>,
)
    ensures
        quiet::all_harmless(#[trigger] ui::phase_said(diagnostics, phase)),
{
    reveal(quiet::all_harmless);
}

pub broadcast proof fn lemma_plan_said(
    diagnostics: Diagnostics,
    line: Seq<char>,
)
    ensures
        quiet::all_harmless(#[trigger] ui::plan_said(diagnostics, line)),
{
    reveal(quiet::all_harmless);
}

pub broadcast proof fn lemma_plan_rows_said(
    diagnostics: Diagnostics,
    rows: Seq<Seq<char>>,
)
    ensures
        quiet::all_harmless(#[trigger] ui::plan_rows_said(diagnostics, rows)),
    decreases rows.len(),
{
    reveal(quiet::all_harmless);
    broadcast use lemma_plan_said;

    if rows.len() > 0 {
        lemma_plan_rows_said(diagnostics, rows.drop_last());
    }
}

pub broadcast proof fn lemma_steps_said(
    diagnostics: Diagnostics,
    verb: Seq<char>,
    message: Seq<char>,
    total: usize,
)
    ensures
        quiet::all_harmless(#[trigger] ui::steps_said(diagnostics, verb, message, total)),
{
    reveal(quiet::all_harmless);
}

pub broadcast proof fn lemma_step_said(
    shown: bool,
    done: usize,
)
    ensures
        quiet::all_harmless(#[trigger] ui::step_said(shown, done)),
{
    reveal(quiet::all_harmless);
}

pub broadcast proof fn lemma_steps_ended(
    shown: bool,
)
    ensures
        quiet::all_harmless(#[trigger] ui::steps_ended(shown)),
{
    reveal(quiet::all_harmless);
}

pub broadcast proof fn asks_blockers_tested(
    before: Seq<Event>,
    after: Seq<Event>,
    rev: Seq<char>,
    left: Seq<RemoteBookmarkView>,
    found: Seq<RemoteBookmarkView>,
    r: Result<Seq<RemoteBookmarkView>, Seq<CauseView>>,
)
    requires
        #[trigger] bookmarks::blockers_tested(before, after, rev, left, found, r),
    ensures
        quiet::quiet(before, after),
    decreases left.len(),
{
    broadcast use crate::quiet::group_quiet;

    reveal(quiet::quiet);
    if left.len() == 0 {
    } else {
        let n = before.len() as int;
        match bookmarks::success_of(record::reply_of(after[n])) {
            Err(e) => {},
            Ok(stands) => {
                asks_blockers_tested(
                    after.take(n + 1),
                    after,
                    rev,
                    left.drop_first(),
                    if stands { bookmarks::name_inserted(found, left[0]) } else { found },
                    r,
                );
            },
        }
    }
}

pub broadcast proof fn asks_blockers_searched(
    before: Seq<Event>,
    after: Seq<Event>,
    remote: Seq<char>,
    rev: Seq<char>,
    followed: Seq<char>,
    r: Result<Seq<RemoteBookmarkView>, Seq<CauseView>>,
)
    requires
        #[trigger] bookmarks::blockers_searched(before, after, remote, rev, followed, r),
    ensures
        quiet::quiet(before, after),
{
    broadcast use {crate::quiet::group_quiet, asks_blockers_tested};

    reveal(quiet::quiet);
}

pub broadcast proof fn asks_rewrites_tested(
    before: Seq<Event>,
    after: Seq<Event>,
    list: Seq<FrozenBookmarkView>,
    left: Seq<GhPrView>,
    r: Result<(), Seq<CauseView>>,
)
    requires
        #[trigger] bookmarks::rewrites_tested(before, after, list, left, r),
    ensures
        quiet::quiet(before, after),
    decreases left.len(),
{
    broadcast use crate::quiet::group_quiet;

    reveal(quiet::quiet);
    if left.len() == 0 {
    } else {
        let n = before.len() as int;
        let pr = left[0];
        let bookmark = bookmarks::frozen_for(list, pr.number);
        if bookmark is None || bookmark->0.commit_id == pr.head_ref_oid {
            asks_rewrites_tested(before, after, list, left.drop_first(), r);
        } else {
            match bookmarks::success_of(record::reply_of(after[n])) {
                Err(e) => {},
                Ok(forward) => {
                    if !forward {
                    } else {
                        asks_rewrites_tested(after.take(n + 1), after, list, left.drop_first(), r);
                    }
                },
            }
        }
    }
}

pub broadcast proof fn asks_cache_opened(
    before: Seq<Event>,
    after: Seq<Event>,
    phase: Seq<char>,
    r: Result<(Seq<char>, Map<(Seq<char>, Seq<char>), PrCacheEntryView>), Seq<CauseView>>,
)
    requires
        #[trigger] cache::cache_opened(before, after, phase, r),
    ensures
        quiet::quiet(before, after),
{
    broadcast use crate::quiet::group_quiet;

    reveal(quiet::quiet);
}

pub broadcast proof fn asks_bookmark_checked(
    before: Seq<Event>,
    after: Seq<Event>,
    remote: Seq<char>,
    change: ResolvedChangeView,
    entry: PrCacheEntryView,
    r: Result<(), Seq<CauseView>>,
)
    requires
        #[trigger] heads::bookmark_checked(before, after, remote, change, entry, r),
    ensures
        quiet::quiet(before, after),
{
    broadcast use crate::quiet::group_quiet;

    reveal(quiet::quiet);
}

pub broadcast proof fn asks_cached_candidate_checked(
    before: Seq<Event>,
    after: Seq<Event>,
    remote: Seq<char>,
    change: ResolvedChangeView,
    live: PrCacheEntryView,
    pr: GhMergePrView,
    r: Result<(PrCacheEntryView, GhMergePrView), Seq<CauseView>>,
)
    requires
        #[trigger] candidates::cached_candidate_checked(before, after, remote, change, live, pr, r),
    ensures
        quiet::quiet(before, after),
{
    broadcast use {crate::quiet::group_quiet, asks_bookmark_checked};
}

pub broadcast proof fn asks_merge_pr_fetched(
    before: Seq<Event>,
    after: Seq<Event>,
    repo: Seq<char>,
    change_id: Seq<char>,
    number: u64,
    r: Result<GhMergePrView, Seq<CauseView>>,
)
    requires
        #[trigger] ready::merge_pr_fetched(before, after, repo, change_id, number, r),
    ensures
        quiet::quiet(before, after),
{
    broadcast use crate::quiet::group_quiet;

    reveal(quiet::quiet);
}

pub broadcast proof fn asks_cached_candidate_resolved(
    before: Seq<Event>,
    after: Seq<Event>,
    remote: Seq<char>,
    repo: Seq<char>,
    change: ResolvedChangeView,
    entry: PrCacheEntryView,
    r: Result<(PrCacheEntryView, GhMergePrView), Seq<CauseView>>,
)
    requires
        #[trigger] candidates::cached_candidate_resolved(
            before,
            after,
            remote,
            repo,
            change,
            entry,
            r,
        ),
    ensures
        quiet::quiet(before, after),
{
    broadcast use {crate::quiet::group_quiet, asks_cached_candidate_checked, asks_merge_pr_fetched};
}

pub broadcast proof fn asks_live_pr_fetched(
    before: Seq<Event>,
    after: Seq<Event>,
    repo: Seq<char>,
    change_id: Seq<char>,
    branch: Seq<char>,
    entry: PrCacheEntryView,
    r: Result<Option<(Option<Seq<char>>, GhMergePrView)>, Seq<CauseView>>,
)
    requires
        #[trigger] candidates::live_pr_fetched(before, after, repo, change_id, branch, entry, r),
    ensures
        quiet::quiet(before, after),
{
    broadcast use {crate::quiet::group_quiet, asks_merge_pr_fetched};
}

pub broadcast proof fn asks_live_pr_checked(
    before: Seq<Event>,
    after: Seq<Event>,
    remote: Seq<char>,
    repo: Seq<char>,
    change: ResolvedChangeView,
    branch: Seq<char>,
    entry: PrCacheEntryView,
    r: Result<Option<(Option<Seq<char>>, GhMergePrView)>, Seq<CauseView>>,
)
    requires
        #[trigger] candidates::live_pr_checked(
            before,
            after,
            remote,
            repo,
            change,
            branch,
            entry,
            r,
        ),
    ensures
        quiet::quiet(before, after),
{
    broadcast use {crate::quiet::group_quiet, asks_bookmark_checked, asks_live_pr_fetched};
}

pub broadcast proof fn asks_comment_line_read(
    before: Seq<Event>,
    after: Seq<Event>,
    line: Seq<char>,
    pr_number: u64,
    change_id: Seq<char>,
    r: Result<GhStackCommentView, Seq<CauseView>>,
)
    requires
        #[trigger] comments::comment_line_read(before, after, line, pr_number, change_id, r),
    ensures
        quiet::quiet(before, after),
{
    broadcast use crate::quiet::group_quiet;

    reveal(quiet::quiet);
}

pub broadcast proof fn asks_comment_lines_read(
    before: Seq<Event>,
    after: Seq<Event>,
    done: Seq<GhStackCommentView>,
    rows: Seq<Seq<char>>,
    pr_number: u64,
    change_id: Seq<char>,
    r: Result<Seq<GhStackCommentView>, Seq<CauseView>>,
)
    requires
        #[trigger] comments::comment_lines_read(before, after, done, rows, pr_number, change_id, r),
    ensures
        quiet::quiet(before, after),
    decreases rows.len(),
{
    broadcast use {crate::quiet::group_quiet, asks_comment_line_read};

    if rows.len() == 0 {
    } else {
        if text::is_blank(rows[0]) {
            asks_comment_lines_read(
                before,
                after,
                done,
                rows.drop_first(),
                pr_number,
                change_id,
                r,
            );
        } else {
            let (mid, first) = choose|mid: Seq<Event>, first: Result<GhStackCommentView, Seq<CauseView>>| {
                &&& #[trigger] comments::comment_line_read(
                    before,
                    mid,
                    rows[0],
                    pr_number,
                    change_id,
                    first,
                )
                &&& match first {
                    Err(e) => after == mid && r == Err::<Seq<GhStackCommentView>, _>(e),
                    Ok(comment) => comments::comment_lines_read(
                        mid,
                        after,
                        done.push(comment),
                        rows.drop_first(),
                        pr_number,
                        change_id,
                        r,
                    ),
                }
            };
            match first {
                Err(e) => {},
                Ok(comment) => {
                    asks_comment_lines_read(
                        mid,
                        after,
                        done.push(comment),
                        rows.drop_first(),
                        pr_number,
                        change_id,
                        r,
                    );
                },
            }
        }
    }
}

pub broadcast proof fn asks_comments_listed(
    before: Seq<Event>,
    after: Seq<Event>,
    repo: Seq<char>,
    pr_number: u64,
    change_id: Seq<char>,
    r: Result<Seq<GhStackCommentView>, Seq<CauseView>>,
)
    requires
        #[trigger] comments::comments_listed(before, after, repo, pr_number, change_id, r),
    ensures
        quiet::quiet(before, after),
{
    broadcast use {crate::quiet::group_quiet, asks_comment_lines_read};

    reveal(quiet::quiet);
    crate::quiet::lemma_comments_path(repo, pr_number);
}

pub broadcast proof fn asks_comment_id_searched(
    before: Seq<Event>,
    after: Seq<Event>,
    github: GitHubContextView,
    pr_number: u64,
    change_id: Seq<char>,
    r: Option<Seq<char>>,
)
    requires
        #[trigger] comments::comment_id_searched(before, after, github, pr_number, change_id, r),
    ensures
        quiet::quiet(before, after),
{
    broadcast use {crate::quiet::group_quiet, asks_comments_listed};
}

pub broadcast proof fn asks_pr_fetched(
    before: Seq<Event>,
    after: Seq<Event>,
    repo: Seq<char>,
    change_id: Seq<char>,
    number: u64,
    r: Result<GhPrView, Seq<CauseView>>,
)
    requires
        #[trigger] pr::pr_fetched(before, after, repo, change_id, number, r),
    ensures
        quiet::quiet(before, after),
{
    broadcast use crate::quiet::group_quiet;

    reveal(quiet::quiet);
    crate::quiet::lemma_request_path(repo, number);
}

pub broadcast proof fn asks_head_pr_adopted(
    before: Seq<Event>,
    after: Seq<Event>,
    github: GitHubContextView,
    change_id: Seq<char>,
    number: u64,
    r: Result<Option<PrCacheEntryView>, Seq<CauseView>>,
)
    requires
        #[trigger] pr::head_pr_adopted(before, after, github, change_id, number, r),
    ensures
        quiet::quiet(before, after),
{
    broadcast use {crate::quiet::group_quiet, asks_comment_id_searched, asks_pr_fetched};
}

pub broadcast proof fn asks_head_pr_searched(
    before: Seq<Event>,
    after: Seq<Event>,
    github: GitHubContextView,
    change_id: Seq<char>,
    head_branch: Seq<char>,
    r: Result<Option<PrCacheEntryView>, Seq<CauseView>>,
)
    requires
        #[trigger] pr::head_pr_searched(before, after, github, change_id, head_branch, r),
    ensures
        quiet::quiet(before, after),
{
    broadcast use {crate::quiet::group_quiet, asks_head_pr_adopted};

    reveal(quiet::quiet);
}

pub broadcast proof fn asks_live_branch_tried(
    before: Seq<Event>,
    after: Seq<Event>,
    remote: Seq<char>,
    github: GitHubContextView,
    change: ResolvedChangeView,
    branch: Seq<char>,
    r: Result<Option<(Option<Seq<char>>, GhMergePrView)>, Seq<CauseView>>,
)
    requires
        #[trigger] candidates::live_branch_tried(before, after, remote, github, change, branch, r),
    ensures
        quiet::quiet(before, after),
{
    broadcast use {crate::quiet::group_quiet, asks_head_pr_searched, asks_live_pr_checked};
}

pub broadcast proof fn asks_live_branches_tried(
    before: Seq<Event>,
    after: Seq<Event>,
    remote: Seq<char>,
    github: GitHubContextView,
    change: ResolvedChangeView,
    names: Seq<Seq<char>>,
    at: int,
    found: Seq<(Option<Seq<char>>, GhMergePrView)>,
    r: Result<Seq<(Option<Seq<char>>, GhMergePrView)>, Seq<CauseView>>,
)
    requires
        #[trigger] candidates::live_branches_tried(
            before,
            after,
            remote,
            github,
            change,
            names,
            at,
            found,
            r,
        ),
    ensures
        quiet::quiet(before, after),
    decreases names.len() - at,
{
    broadcast use {crate::quiet::group_quiet, asks_live_branch_tried};

    if at >= names.len() {
    } else {
        let (mid, got) = choose|mid: Seq<Event>,
        got: Result<Option<(Option<Seq<char>>, GhMergePrView)>, Seq<CauseView>>| {
            &&& #[trigger] candidates::live_branch_tried(
                before,
                mid,
                remote,
                github,
                change,
                names[at],
                got,
            )
            &&& match got {
                Err(e) => record::stopped(mid, after, e, r),
                Ok(one) => candidates::live_branches_tried(
                    mid,
                    after,
                    remote,
                    github,
                    change,
                    names,
                    at + 1,
                    match one {
                        Some(pair) => found.push(pair),
                        None => found,
                    },
                    r,
                ),
            }
        };
        match got {
            Err(e) => {},
            Ok(one) => {
                asks_live_branches_tried(
                    mid,
                    after,
                    remote,
                    github,
                    change,
                    names,
                    at + 1,
                    match one { Some(pair) => found.push(pair), None => found, },
                    r,
                );
            },
        }
    }
}

pub broadcast proof fn asks_all_live_branches_tried(
    before: Seq<Event>,
    after: Seq<Event>,
    remote: Seq<char>,
    github: GitHubContextView,
    change: ResolvedChangeView,
    names: Seq<Seq<char>>,
    r: Result<Seq<(Option<Seq<char>>, GhMergePrView)>, Seq<CauseView>>,
)
    requires
        #[trigger] candidates::all_live_branches_tried(
            before,
            after,
            remote,
            github,
            change,
            names,
            r,
        ),
    ensures
        quiet::quiet(before, after),
{
    broadcast use {crate::quiet::group_quiet, asks_live_branches_tried};
}

pub broadcast proof fn asks_live_names_tried(
    before: Seq<Event>,
    after: Seq<Event>,
    remote: Seq<char>,
    github: GitHubContextView,
    change: ResolvedChangeView,
    names: Seq<Seq<char>>,
    r: Result<(PrCacheEntryView, GhMergePrView), Seq<CauseView>>,
)
    requires
        #[trigger] candidates::live_names_tried(before, after, remote, github, change, names, r),
    ensures
        quiet::quiet(before, after),
{
    broadcast use {crate::quiet::group_quiet, asks_all_live_branches_tried};
}

pub broadcast proof fn asks_change_names_listed(
    before: Seq<Event>,
    after: Seq<Event>,
    config: AppConfigView,
    change: ResolvedChangeView,
    names: Result<Seq<Seq<char>>, Seq<CauseView>>,
)
    requires
        #[trigger] heads::change_names_listed(before, after, config, change, names),
    ensures
        quiet::quiet(before, after),
{
    broadcast use crate::quiet::group_quiet;
}

pub broadcast proof fn asks_live_candidate_resolved(
    before: Seq<Event>,
    after: Seq<Event>,
    config: AppConfigView,
    github: GitHubContextView,
    change: ResolvedChangeView,
    r: Result<(PrCacheEntryView, GhMergePrView), Seq<CauseView>>,
)
    requires
        #[trigger] candidates::live_candidate_resolved(before, after, config, github, change, r),
    ensures
        quiet::quiet(before, after),
{
    broadcast use {crate::quiet::group_quiet, asks_change_names_listed, asks_live_names_tried};
}

pub broadcast proof fn asks_cached_or_live(
    before: Seq<Event>,
    after: Seq<Event>,
    config: AppConfigView,
    github: GitHubContextView,
    change: ResolvedChangeView,
    entry: PrCacheEntryView,
    r: Result<(PrCacheEntryView, GhMergePrView), Seq<CauseView>>,
)
    requires
        #[trigger] candidates::cached_or_live(before, after, config, github, change, entry, r),
    ensures
        quiet::quiet(before, after),
{
    broadcast use {
        crate::quiet::group_quiet,
        asks_cached_candidate_resolved,
        asks_live_candidate_resolved,
    };
}

pub broadcast proof fn asks_candidate_looked_up(
    before: Seq<Event>,
    after: Seq<Event>,
    config: AppConfigView,
    github: GitHubContextView,
    change: ResolvedChangeView,
    all: Map<(Seq<char>, Seq<char>), PrCacheEntryView>,
    r: Result<(PrCacheEntryView, GhMergePrView), Seq<CauseView>>,
)
    requires
        #[trigger] candidates::candidate_looked_up(before, after, config, github, change, all, r),
    ensures
        quiet::quiet(before, after),
{
    broadcast use {crate::quiet::group_quiet, asks_cached_or_live, asks_live_candidate_resolved};
}

pub broadcast proof fn asks_candidate_resolved(
    before: Seq<Event>,
    after: Seq<Event>,
    config: AppConfigView,
    github: GitHubContextView,
    change: ResolvedChangeView,
    r: Result<(PrCacheEntryView, GhMergePrView), Seq<CauseView>>,
)
    requires
        #[trigger] candidates::candidate_resolved(before, after, config, github, change, r),
    ensures
        quiet::quiet(before, after),
{
    broadcast use {crate::quiet::group_quiet, asks_cache_opened, asks_candidate_looked_up};
}

pub broadcast proof fn asks_dependencies_tested(
    before: Seq<Event>,
    after: Seq<Event>,
    repo: Seq<char>,
    dependencies: Seq<FrozenDependencyView>,
    at: int,
    r: Result<(), Seq<CauseView>>,
)
    requires
        #[trigger] candidates::dependencies_tested(before, after, repo, dependencies, at, r),
    ensures
        quiet::quiet(before, after),
    decreases dependencies.len() - at,
{
    broadcast use {crate::quiet::group_quiet, asks_merge_pr_fetched};

    if at >= dependencies.len() {
    } else {
        let dependency = dependencies[at];
        let (mid, got) = choose|mid: Seq<Event>, got: Result<GhMergePrView, Seq<CauseView>>| {
            &&& #[trigger] ready::merge_pr_fetched(
                before,
                mid,
                repo,
                dependency.change.change_id,
                dependency.bookmark.pr_number,
                got,
            )
            &&& match got {
                Err(e) => record::stopped(mid, after, e, r),
                Ok(pr) => match candidates::unmerged_dependency(dependency.bookmark.name, pr) {
                    Some(message) => record::stopped(mid, after, error::plain(message), r),
                    None => candidates::dependencies_tested(
                        mid,
                        after,
                        repo,
                        dependencies,
                        at + 1,
                        r,
                    ),
                },
            }
        };
        match got {
            Err(e) => {},
            Ok(pr) => {
                match candidates::unmerged_dependency(dependency.bookmark.name, pr) {
                    Some(message) => {},
                    None => {
                        asks_dependencies_tested(mid, after, repo, dependencies, at + 1, r);
                    },
                }
            },
        }
    }
}

pub broadcast proof fn asks_all_dependencies_tested(
    before: Seq<Event>,
    after: Seq<Event>,
    repo: Seq<char>,
    dependencies: Seq<FrozenDependencyView>,
    r: Result<(), Seq<CauseView>>,
)
    requires
        #[trigger] candidates::all_dependencies_tested(before, after, repo, dependencies, r),
    ensures
        quiet::quiet(before, after),
{
    broadcast use {crate::quiet::group_quiet, asks_dependencies_tested};
}

pub broadcast proof fn asks_merge_dependencies_checked(
    before: Seq<Event>,
    after: Seq<Event>,
    trunk: Seq<char>,
    context: AppContextView,
    bottom: GhMergePrView,
    r: Result<(), Seq<CauseView>>,
)
    requires
        #[trigger] candidates::merge_dependencies_checked(before, after, trunk, context, bottom, r),
    ensures
        quiet::quiet(before, after),
{
    broadcast use {crate::quiet::group_quiet, asks_all_dependencies_tested};
}

pub broadcast proof fn asks_landing_tested(
    before: Seq<Event>,
    after: Seq<Event>,
    name: Seq<char>,
    tip: Seq<char>,
    r: Result<bool, Seq<CauseView>>,
)
    requires
        #[trigger] cleanup::landing_tested(before, after, name, tip, r),
    ensures
        quiet::quiet(before, after),
{
    broadcast use crate::quiet::group_quiet;
}

pub broadcast proof fn asks_landings_tested(
    before: Seq<Event>,
    after: Seq<Event>,
    names: Seq<Seq<char>>,
    at: int,
    tip: Seq<char>,
    landed: Seq<Seq<char>>,
    r: Result<Seq<Seq<char>>, Seq<CauseView>>,
)
    requires
        #[trigger] cleanup::landings_tested(before, after, names, at, tip, landed, r),
    ensures
        quiet::quiet(before, after),
    decreases names.len() - at,
{
    broadcast use {crate::quiet::group_quiet, asks_landing_tested};

    if at >= names.len() {
    } else {
        let (mid, got) = choose|mid: Seq<Event>, got: Result<bool, Seq<CauseView>>| {
            &&& #[trigger] cleanup::landing_tested(before, mid, names[at], tip, got)
            &&& match got {
                Err(e) => record::stopped(mid, after, e, r),
                Ok(one) => cleanup::landings_tested(
                    mid,
                    after,
                    names,
                    at + 1,
                    tip,
                    if one {
                        landed.push(names[at])
                    } else {
                        landed
                    },
                    r,
                ),
            }
        };
        match got {
            Err(e) => {},
            Ok(one) => {
                asks_landings_tested(
                    mid,
                    after,
                    names,
                    at + 1,
                    tip,
                    if one { landed.push(names[at]) } else { landed },
                    r,
                );
            },
        }
    }
}

pub broadcast proof fn asks_all_landings_tested(
    before: Seq<Event>,
    after: Seq<Event>,
    names: Seq<Seq<char>>,
    tip: Seq<char>,
    r: Result<Seq<Seq<char>>, Seq<CauseView>>,
)
    requires
        #[trigger] cleanup::all_landings_tested(before, after, names, tip, r),
    ensures
        quiet::quiet(before, after),
{
    broadcast use {crate::quiet::group_quiet, asks_landings_tested};
}

pub broadcast proof fn asks_stack_names_listed(
    before: Seq<Event>,
    after: Seq<Event>,
    config: AppConfigView,
    names: Result<Seq<Seq<char>>, Seq<CauseView>>,
)
    requires
        #[trigger] cleanup::stack_names_listed(before, after, config, names),
    ensures
        quiet::quiet(before, after),
{
    broadcast use crate::quiet::group_quiet;
}

pub broadcast proof fn asks_submit_told(
    before: Seq<Event>,
    after: Seq<Event>,
    changes: nat,
    done: Result<SubmitSummary, Seq<CauseView>>,
    diagnostics: Diagnostics,
    r: Result<(), Seq<CauseView>>,
)
    requires
        #[trigger] commands::submit_told(before, after, changes, done, diagnostics, r),
    ensures
        quiet::quiet(before, after),
{
    broadcast use {crate::quiet::group_quiet, lemma_note_said};
}

pub broadcast proof fn asks_report_written(
    before: Seq<Event>,
    after: Seq<Event>,
    report: StatusReportView,
    r: Result<(), Seq<CauseView>>,
)
    requires
        #[trigger] commands::report_written(before, after, report, r),
    ensures
        quiet::quiet(before, after),
{
    broadcast use crate::quiet::group_quiet;
}

pub broadcast proof fn asks_report_told(
    before: Seq<Event>,
    after: Seq<Event>,
    report: StatusReportView,
    json: bool,
    r: Result<(), Seq<CauseView>>,
)
    requires
        #[trigger] commands::report_told(before, after, report, json, r),
    ensures
        quiet::quiet(before, after),
{
    broadcast use {crate::quiet::group_quiet, asks_report_written, lemma_report_said};
}

pub broadcast proof fn asks_base_alias_read(
    before: Seq<Event>,
    after: Seq<Event>,
    frozen: Option<Seq<char>>,
    immutable: Seq<char>,
    r: Result<StatusAliasStateView, Seq<CauseView>>,
)
    requires
        #[trigger] status::base_alias_read(before, after, frozen, immutable, r),
    ensures
        quiet::quiet(before, after),
{
    broadcast use crate::quiet::group_quiet;
}

pub broadcast proof fn asks_immutable_alias_read(
    before: Seq<Event>,
    after: Seq<Event>,
    frozen: Option<Seq<char>>,
    r: Result<StatusAliasStateView, Seq<CauseView>>,
)
    requires
        #[trigger] status::immutable_alias_read(before, after, frozen, r),
    ensures
        quiet::quiet(before, after),
{
    broadcast use {crate::quiet::group_quiet, asks_base_alias_read};
}

pub broadcast proof fn asks_aliases_read(
    before: Seq<Event>,
    after: Seq<Event>,
    r: Result<StatusAliasStateView, Seq<CauseView>>,
)
    requires
        #[trigger] status::aliases_read(before, after, r),
    ensures
        quiet::quiet(before, after),
{
    broadcast use {crate::quiet::group_quiet, asks_immutable_alias_read};
}

pub broadcast proof fn asks_frozen_surveyed(
    before: Seq<Event>,
    after: Seq<Event>,
    repo: Seq<char>,
    dependencies: Seq<FrozenDependencyView>,
    done: Seq<StatusFrozenDependencyView>,
    r: Seq<StatusFrozenDependencyView>,
)
    requires
        #[trigger] status::frozen_surveyed(before, after, repo, dependencies, done, r),
    ensures
        quiet::quiet(before, after),
    decreases dependencies.len() - done.len(),
{
    broadcast use {crate::quiet::group_quiet, asks_pr_fetched};

    if done.len() >= dependencies.len() {
    } else {
        let dependency = dependencies[done.len() as int];
        let (mid, got) = choose|mid: Seq<Event>, got: Result<GhPrView, Seq<CauseView>>| {
            &&& #[trigger] pr::pr_fetched(
                before,
                mid,
                repo,
                dependency.change.change_id,
                dependency.bookmark.pr_number,
                got,
            )
            &&& status::frozen_surveyed(
                mid,
                after,
                repo,
                dependencies,
                done.push(status::frozen_status(dependency, got)),
                r,
            )
        };

        asks_frozen_surveyed(
            mid,
            after,
            repo,
            dependencies,
            done.push(status::frozen_status(dependency, got)),
            r,
        );
    }
}

pub broadcast proof fn asks_all_frozen_surveyed(
    before: Seq<Event>,
    after: Seq<Event>,
    repo: Seq<char>,
    dependencies: Seq<FrozenDependencyView>,
    r: Seq<StatusFrozenDependencyView>,
)
    requires
        #[trigger] status::all_frozen_surveyed(before, after, repo, dependencies, r),
    ensures
        quiet::quiet(before, after),
{
    broadcast use {crate::quiet::group_quiet, asks_frozen_surveyed};
}

pub broadcast proof fn asks_dependencies_blocking(
    before: Seq<Event>,
    after: Seq<Event>,
    config: AppConfigView,
    context: AppContextView,
    pr: GhMergePrView,
    r: Seq<Seq<char>>,
)
    requires
        #[trigger] status::dependencies_blocking(before, after, config, context, pr, r),
    ensures
        quiet::quiet(before, after),
{
    broadcast use {crate::quiet::group_quiet, asks_merge_dependencies_checked};
}

pub broadcast proof fn asks_bottom_blocking(
    before: Seq<Event>,
    after: Seq<Event>,
    config: AppConfigView,
    context: AppContextView,
    number: u64,
    r: Seq<Seq<char>>,
)
    requires
        #[trigger] status::bottom_blocking(before, after, config, context, number, r),
    ensures
        quiet::quiet(before, after),
{
    broadcast use {crate::quiet::group_quiet, asks_dependencies_blocking, asks_merge_pr_fetched};
}

pub broadcast proof fn asks_merge_blocking(
    before: Seq<Event>,
    after: Seq<Event>,
    config: AppConfigView,
    context: AppContextView,
    rows: Seq<StatusOwnedPrView>,
    r: Seq<Seq<char>>,
)
    requires
        #[trigger] status::merge_blocking(before, after, config, context, rows, r),
    ensures
        quiet::quiet(before, after),
{
    broadcast use {crate::quiet::group_quiet, asks_bottom_blocking};
}

pub broadcast proof fn asks_blockers_reported(
    before: Seq<Event>,
    after: Seq<Event>,
    config: AppConfigView,
    context: AppContextView,
    aliases: StatusAliasStateView,
    frozen: Seq<StatusFrozenDependencyView>,
    rows: Seq<StatusOwnedPrView>,
    r: StatusReportView,
)
    requires
        #[trigger] status::blockers_reported(
            before,
            after,
            config,
            context,
            aliases,
            frozen,
            rows,
            r,
        ),
    ensures
        quiet::quiet(before, after),
{
    broadcast use {crate::quiet::group_quiet, asks_merge_blocking};
}

pub broadcast proof fn asks_branches_searched(
    before: Seq<Event>,
    after: Seq<Event>,
    github: GitHubContextView,
    change_id: Seq<char>,
    names: Seq<Seq<char>>,
    at: int,
    used: Seq<Seq<char>>,
    found: Seq<(Seq<char>, PrCacheEntryView)>,
    r: Result<Seq<(Seq<char>, PrCacheEntryView)>, Seq<CauseView>>,
)
    requires
        #[trigger] heads::branches_searched(
            before,
            after,
            github,
            change_id,
            names,
            at,
            used,
            found,
            r,
        ),
    ensures
        quiet::quiet(before, after),
    decreases names.len() - at,
{
    broadcast use {crate::quiet::group_quiet, asks_head_pr_searched};

    if at < 0 || at >= names.len() {
    } else {
        if used.contains(names[at]) {
            asks_branches_searched(before, after, github, change_id, names, at + 1, used, found, r);
        } else {
            let (mid, pr) = choose|mid: Seq<Event>, pr: Result<Option<PrCacheEntryView>, Seq<CauseView>>| {
                &&& #[trigger] pr::head_pr_searched(before, mid, github, change_id, names[at], pr)
                &&& match pr {
                    Err(e) => record::stopped(mid, after, e, r),
                    Ok(pr) => heads::branches_searched(
                        mid,
                        after,
                        github,
                        change_id,
                        names,
                        at + 1,
                        used,
                        match pr {
                            Some(pr) => found.push((names[at], pr)),
                            None => found,
                        },
                        r,
                    ),
                }
            };
            match pr {
                Err(e) => {},
                Ok(pr) => {
                    asks_branches_searched(
                        mid,
                        after,
                        github,
                        change_id,
                        names,
                        at + 1,
                        used,
                        match pr { Some(pr) => found.push((names[at], pr)), None => found, },
                        r,
                    );
                },
            }
        }
    }
}

pub broadcast proof fn asks_all_branches_searched(
    before: Seq<Event>,
    after: Seq<Event>,
    github: GitHubContextView,
    change_id: Seq<char>,
    names: Seq<Seq<char>>,
    used: Seq<Seq<char>>,
    r: Result<Seq<(Seq<char>, PrCacheEntryView)>, Seq<CauseView>>,
)
    requires
        #[trigger] heads::all_branches_searched(before, after, github, change_id, names, used, r),
    ensures
        quiet::quiet(before, after),
{
    broadcast use {crate::quiet::group_quiet, asks_branches_searched};
}

pub broadcast proof fn asks_remote_head_asked(
    before: Seq<Event>,
    after: Seq<Event>,
    remote: Seq<char>,
    branch: Seq<char>,
    pr: PrCacheEntryView,
    r: Result<SubmitHeadView, Seq<CauseView>>,
)
    requires
        #[trigger] heads::remote_head_asked(before, after, remote, branch, pr, r),
    ensures
        quiet::quiet(before, after),
{
    broadcast use crate::quiet::group_quiet;
}

pub broadcast proof fn asks_match_settled(
    before: Seq<Event>,
    after: Seq<Event>,
    remote: Seq<char>,
    change: ResolvedChangeView,
    branch: Seq<char>,
    pr: PrCacheEntryView,
    r: Result<SubmitHeadView, Seq<CauseView>>,
)
    requires
        #[trigger] heads::match_settled(before, after, remote, change, branch, pr, r),
    ensures
        quiet::quiet(before, after),
{
    broadcast use {crate::quiet::group_quiet, asks_bookmark_checked, asks_remote_head_asked};
}

pub broadcast proof fn asks_only_match_settled(
    before: Seq<Event>,
    after: Seq<Event>,
    remote: Seq<char>,
    change: ResolvedChangeView,
    branch: Seq<char>,
    pr: PrCacheEntryView,
    r: Result<Option<SubmitHeadView>, Seq<CauseView>>,
)
    requires
        #[trigger] heads::only_match_settled(before, after, remote, change, branch, pr, r),
    ensures
        quiet::quiet(before, after),
{
    broadcast use {crate::quiet::group_quiet, asks_match_settled};
}

pub broadcast proof fn asks_matches_settled(
    before: Seq<Event>,
    after: Seq<Event>,
    config: AppConfigView,
    change: ResolvedChangeView,
    found: Seq<(Seq<char>, PrCacheEntryView)>,
    r: Result<Option<SubmitHeadView>, Seq<CauseView>>,
)
    requires
        #[trigger] heads::matches_settled(before, after, config, change, found, r),
    ensures
        quiet::quiet(before, after),
{
    broadcast use {crate::quiet::group_quiet, asks_only_match_settled};
}

pub broadcast proof fn asks_names_tried(
    before: Seq<Event>,
    after: Seq<Event>,
    config: AppConfigView,
    github: GitHubContextView,
    change: ResolvedChangeView,
    names: Seq<Seq<char>>,
    used: Seq<Seq<char>>,
    r: Result<Option<SubmitHeadView>, Seq<CauseView>>,
)
    requires
        #[trigger] heads::names_tried(before, after, config, github, change, names, used, r),
    ensures
        quiet::quiet(before, after),
{
    broadcast use {crate::quiet::group_quiet, asks_all_branches_searched, asks_matches_settled};
}

pub broadcast proof fn asks_head_discovered(
    before: Seq<Event>,
    after: Seq<Event>,
    config: AppConfigView,
    github: GitHubContextView,
    change: ResolvedChangeView,
    used: Seq<Seq<char>>,
    r: Result<Option<SubmitHeadView>, Seq<CauseView>>,
)
    requires
        #[trigger] heads::head_discovered(before, after, config, github, change, used, r),
    ensures
        quiet::quiet(before, after),
{
    broadcast use {crate::quiet::group_quiet, asks_change_names_listed, asks_names_tried};
}

pub broadcast proof fn asks_cached_pr_checked(
    before: Seq<Event>,
    after: Seq<Event>,
    repo: Seq<char>,
    change_id: Seq<char>,
    head_branch: Seq<char>,
    entry: PrCacheEntryView,
    r: Result<PrCacheEntryView, Seq<CauseView>>,
)
    requires
        #[trigger] pr::cached_pr_checked(before, after, repo, change_id, head_branch, entry, r),
    ensures
        quiet::quiet(before, after),
{
    broadcast use {crate::quiet::group_quiet, asks_pr_fetched};
}

pub broadcast proof fn asks_cached_pr_settled(
    before: Seq<Event>,
    after: Seq<Event>,
    config: AppConfigView,
    repo: Seq<char>,
    change: ResolvedChangeView,
    entry: PrCacheEntryView,
    r: Result<SubmitHeadView, Seq<CauseView>>,
)
    requires
        #[trigger] heads::cached_pr_settled(before, after, config, repo, change, entry, r),
    ensures
        quiet::quiet(before, after),
{
    broadcast use {crate::quiet::group_quiet, asks_cached_pr_checked, asks_remote_head_asked};
}

pub broadcast proof fn asks_cached_state_settled(
    before: Seq<Event>,
    after: Seq<Event>,
    config: AppConfigView,
    repo: Seq<char>,
    change: ResolvedChangeView,
    entry: PrCacheEntryView,
    r: Result<SubmitHeadView, Seq<CauseView>>,
)
    requires
        #[trigger] heads::cached_state_settled(before, after, config, repo, change, entry, r),
    ensures
        quiet::quiet(before, after),
{
    broadcast use {crate::quiet::group_quiet, asks_bookmark_checked, asks_cached_pr_settled};
}

pub broadcast proof fn asks_cached_head_resolved(
    before: Seq<Event>,
    after: Seq<Event>,
    config: AppConfigView,
    repo: Seq<char>,
    change: ResolvedChangeView,
    entry: PrCacheEntryView,
    used: Seq<Seq<char>>,
    r: Result<SubmitHeadView, Seq<CauseView>>,
)
    requires
        #[trigger] heads::cached_head_resolved(before, after, config, repo, change, entry, used, r),
    ensures
        quiet::quiet(before, after),
{
    broadcast use {crate::quiet::group_quiet, asks_cached_state_settled};
}

pub broadcast proof fn asks_fresh_pr_settled(
    before: Seq<Event>,
    after: Seq<Event>,
    config: AppConfigView,
    change: ResolvedChangeView,
    branch: Seq<char>,
    pr: PrCacheEntryView,
    head: Option<Seq<char>>,
    r: Result<SubmitHeadView, Seq<CauseView>>,
)
    requires
        #[trigger] heads::fresh_pr_settled(before, after, config, change, branch, pr, head, r),
    ensures
        quiet::quiet(before, after),
{
    broadcast use {crate::quiet::group_quiet, asks_bookmark_checked};
}

pub broadcast proof fn asks_fresh_head_settled(
    before: Seq<Event>,
    after: Seq<Event>,
    config: AppConfigView,
    change: ResolvedChangeView,
    branch: Seq<char>,
    pr: Option<PrCacheEntryView>,
    head: Option<Seq<char>>,
    r: Result<SubmitHeadView, Seq<CauseView>>,
)
    requires
        #[trigger] heads::fresh_head_settled(before, after, config, change, branch, pr, head, r),
    ensures
        quiet::quiet(before, after),
{
    broadcast use {crate::quiet::group_quiet, asks_fresh_pr_settled};
}

pub broadcast proof fn asks_fresh_head_located(
    before: Seq<Event>,
    after: Seq<Event>,
    config: AppConfigView,
    change: ResolvedChangeView,
    branch: Seq<char>,
    pr: Option<PrCacheEntryView>,
    r: Result<SubmitHeadView, Seq<CauseView>>,
)
    requires
        #[trigger] heads::fresh_head_located(before, after, config, change, branch, pr, r),
    ensures
        quiet::quiet(before, after),
{
    broadcast use {crate::quiet::group_quiet, asks_fresh_head_settled};
}

pub broadcast proof fn asks_fresh_branch_resolved(
    before: Seq<Event>,
    after: Seq<Event>,
    config: AppConfigView,
    github: GitHubContextView,
    change: ResolvedChangeView,
    branch: Seq<char>,
    r: Result<SubmitHeadView, Seq<CauseView>>,
)
    requires
        #[trigger] heads::fresh_branch_resolved(before, after, config, github, change, branch, r),
    ensures
        quiet::quiet(before, after),
{
    broadcast use {crate::quiet::group_quiet, asks_fresh_head_located, asks_head_pr_searched};
}

pub broadcast proof fn asks_fresh_head_resolved(
    before: Seq<Event>,
    after: Seq<Event>,
    config: AppConfigView,
    github: GitHubContextView,
    change: ResolvedChangeView,
    used: Seq<Seq<char>>,
    r: Result<SubmitHeadView, Seq<CauseView>>,
)
    requires
        #[trigger] heads::fresh_head_resolved(before, after, config, github, change, used, r),
    ensures
        quiet::quiet(before, after),
{
    broadcast use {crate::quiet::group_quiet, asks_fresh_branch_resolved};
}

pub broadcast proof fn asks_cached_or_fresh(
    before: Seq<Event>,
    after: Seq<Event>,
    config: AppConfigView,
    github: GitHubContextView,
    change: ResolvedChangeView,
    entry: PrCacheEntryView,
    used: Seq<Seq<char>>,
    r: Result<SubmitHeadView, Seq<CauseView>>,
)
    requires
        #[trigger] heads::cached_or_fresh(before, after, config, github, change, entry, used, r),
    ensures
        quiet::quiet(before, after),
{
    broadcast use {crate::quiet::group_quiet, asks_cached_head_resolved, asks_fresh_head_resolved};
}

pub broadcast proof fn asks_unfound_head_resolved(
    before: Seq<Event>,
    after: Seq<Event>,
    config: AppConfigView,
    github: GitHubContextView,
    change: ResolvedChangeView,
    all: Map<(Seq<char>, Seq<char>), PrCacheEntryView>,
    used: Seq<Seq<char>>,
    r: Result<SubmitHeadView, Seq<CauseView>>,
)
    requires
        #[trigger] heads::unfound_head_resolved(
            before,
            after,
            config,
            github,
            change,
            all,
            used,
            r,
        ),
    ensures
        quiet::quiet(before, after),
{
    broadcast use {crate::quiet::group_quiet, asks_cached_or_fresh, asks_fresh_head_resolved};
}

pub broadcast proof fn asks_head_resolved(
    before: Seq<Event>,
    after: Seq<Event>,
    config: AppConfigView,
    github: GitHubContextView,
    change: ResolvedChangeView,
    all: Map<(Seq<char>, Seq<char>), PrCacheEntryView>,
    used: Seq<Seq<char>>,
    r: Result<SubmitHeadView, Seq<CauseView>>,
)
    requires
        #[trigger] heads::head_resolved(before, after, config, github, change, all, used, r),
    ensures
        quiet::quiet(before, after),
{
    broadcast use {crate::quiet::group_quiet, asks_head_discovered, asks_unfound_head_resolved};
}

pub broadcast proof fn asks_owned_surveyed(
    before: Seq<Event>,
    after: Seq<Event>,
    config: AppConfigView,
    github: GitHubContextView,
    all: Map<(Seq<char>, Seq<char>), PrCacheEntryView>,
    change: ResolvedChangeView,
    base_branch: Seq<char>,
    used: Seq<Seq<char>>,
    row: StatusOwnedPrView,
)
    requires
        #[trigger] status::owned_surveyed(
            before,
            after,
            config,
            github,
            all,
            change,
            base_branch,
            used,
            row,
        ),
    ensures
        quiet::quiet(before, after),
{
    broadcast use {crate::quiet::group_quiet, asks_head_resolved};

    reveal(crate::status::owned_surveyed);
}

pub broadcast proof fn asks_stack_surveyed(
    before: Seq<Event>,
    after: Seq<Event>,
    config: AppConfigView,
    github: GitHubContextView,
    all: Map<(Seq<char>, Seq<char>), PrCacheEntryView>,
    stack: Seq<ResolvedChangeView>,
    first: Seq<char>,
    done: Seq<StatusOwnedPrView>,
    r: Seq<StatusOwnedPrView>,
)
    requires
        #[trigger] status::stack_surveyed(
            before,
            after,
            config,
            github,
            all,
            stack,
            first,
            done,
            r,
        ),
    ensures
        quiet::quiet(before, after),
    decreases stack.len() - done.len(),
{
    broadcast use {crate::quiet::group_quiet, asks_owned_surveyed};

    if done.len() >= stack.len() {
    } else {
        let (mid, row) = choose|mid: Seq<Event>, row: StatusOwnedPrView| {
            &&& #[trigger] status::owned_surveyed(
                before,
                mid,
                config,
                github,
                all,
                stack[done.len() as int],
                status::row_base(first, done),
                status::taken_heads(done),
                row,
            )
            &&& status::stack_surveyed(
                mid,
                after,
                config,
                github,
                all,
                stack,
                first,
                done.push(row),
                r,
            )
        };

        asks_stack_surveyed(mid, after, config, github, all, stack, first, done.push(row), r);
    }
}

pub broadcast proof fn asks_whole_stack_surveyed(
    before: Seq<Event>,
    after: Seq<Event>,
    config: AppConfigView,
    context: AppContextView,
    all: Map<(Seq<char>, Seq<char>), PrCacheEntryView>,
    first: Seq<char>,
    rows: Seq<StatusOwnedPrView>,
)
    requires
        #[trigger] status::whole_stack_surveyed(before, after, config, context, all, first, rows),
    ensures
        quiet::quiet(before, after),
{
    broadcast use {crate::quiet::group_quiet, asks_stack_surveyed};
}

pub broadcast proof fn asks_rows_reported(
    before: Seq<Event>,
    after: Seq<Event>,
    config: AppConfigView,
    context: AppContextView,
    all: Map<(Seq<char>, Seq<char>), PrCacheEntryView>,
    aliases: StatusAliasStateView,
    frozen: Seq<StatusFrozenDependencyView>,
    r: StatusReportView,
)
    requires
        #[trigger] status::rows_reported(before, after, config, context, all, aliases, frozen, r),
    ensures
        quiet::quiet(before, after),
{
    broadcast use {crate::quiet::group_quiet, asks_blockers_reported, asks_whole_stack_surveyed};
}

pub broadcast proof fn asks_frozen_reported(
    before: Seq<Event>,
    after: Seq<Event>,
    config: AppConfigView,
    context: AppContextView,
    all: Map<(Seq<char>, Seq<char>), PrCacheEntryView>,
    aliases: StatusAliasStateView,
    r: Result<StatusReportView, Seq<CauseView>>,
)
    requires
        #[trigger] status::frozen_reported(before, after, config, context, all, aliases, r),
    ensures
        quiet::quiet(before, after),
{
    broadcast use {crate::quiet::group_quiet, asks_all_frozen_surveyed, asks_rows_reported};
}

pub broadcast proof fn asks_context_reported(
    before: Seq<Event>,
    after: Seq<Event>,
    config: AppConfigView,
    context: AppContextView,
    aliases: StatusAliasStateView,
    r: Result<StatusReportView, Seq<CauseView>>,
)
    requires
        #[trigger] status::context_reported(before, after, config, context, aliases, r),
    ensures
        quiet::quiet(before, after),
{
    broadcast use {crate::quiet::group_quiet, asks_cache_opened, asks_frozen_reported};
}

pub broadcast proof fn asks_github_resolved(
    before: Seq<Event>,
    after: Seq<Event>,
    r: Result<GitHubContextView, Seq<CauseView>>,
)
    requires
        #[trigger] context::github_resolved(before, after, r),
    ensures
        quiet::quiet(before, after),
{
    broadcast use crate::quiet::group_quiet;

    reveal(quiet::quiet);
    crate::quiet::lemma_user_path();
}

pub broadcast proof fn asks_base_checked(
    before: Seq<Event>,
    after: Seq<Event>,
    resolution: StackResolutionView,
    r: Result<(), Seq<CauseView>>,
)
    requires
        #[trigger] frozen::base_checked(before, after, resolution, r),
    ensures
        quiet::quiet(before, after),
{
    broadcast use crate::quiet::group_quiet;
}

pub broadcast proof fn asks_record_resolved(
    before: Seq<Event>,
    after: Seq<Event>,
    record: Seq<char>,
    r: Result<ResolvedChangeView, Seq<CauseView>>,
)
    requires
        #[trigger] stack::record_resolved(before, after, record, r),
    ensures
        quiet::quiet(before, after),
{
    broadcast use crate::quiet::group_quiet;
}

pub broadcast proof fn asks_records_resolved(
    before: Seq<Event>,
    after: Seq<Event>,
    done: Seq<ResolvedChangeView>,
    records: Seq<Seq<char>>,
    r: Result<Seq<ResolvedChangeView>, Seq<CauseView>>,
)
    requires
        #[trigger] stack::records_resolved(before, after, done, records, r),
    ensures
        quiet::quiet(before, after),
    decreases records.len(),
{
    broadcast use {crate::quiet::group_quiet, asks_record_resolved};

    if records.len() == 0 {
    } else {
        let (mid, first) = choose|mid: Seq<Event>, first: Result<ResolvedChangeView, Seq<CauseView>>| {
            &&& #[trigger] stack::record_resolved(before, mid, records[0], first)
            &&& match first {
                Err(e) => after == mid && r == Err::<Seq<ResolvedChangeView>, _>(e),
                Ok(change) => stack::records_resolved(
                    mid,
                    after,
                    done.push(change),
                    records.drop_first(),
                    r,
                ),
            }
        };
        match first {
            Err(e) => {},
            Ok(change) => {
                asks_records_resolved(mid, after, done.push(change), records.drop_first(), r);
            },
        }
    }
}

pub broadcast proof fn asks_log_resolved(
    before: Seq<Event>,
    after: Seq<Event>,
    stdout: Seq<char>,
    r: Result<Seq<ResolvedChangeView>, Seq<CauseView>>,
)
    requires
        #[trigger] stack::log_resolved(before, after, stdout, r),
    ensures
        quiet::quiet(before, after),
{
    broadcast use {crate::quiet::group_quiet, asks_records_resolved};
}

pub broadcast proof fn asks_stack_resolved(
    before: Seq<Event>,
    after: Seq<Event>,
    revset: Seq<char>,
    r: Result<Seq<ResolvedChangeView>, Seq<CauseView>>,
)
    requires
        #[trigger] stack::stack_resolved(before, after, revset, r),
    ensures
        quiet::quiet(before, after),
{
    broadcast use {crate::quiet::group_quiet, asks_log_resolved};

    reveal(quiet::quiet);
}

pub broadcast proof fn asks_frozen_changes_resolved(
    before: Seq<Event>,
    after: Seq<Event>,
    done: Seq<FrozenDependencyView>,
    bookmarks: Seq<FrozenBookmarkView>,
    r: Result<Seq<FrozenDependencyView>, Seq<CauseView>>,
)
    requires
        #[trigger] frozen::frozen_changes_resolved(before, after, done, bookmarks, r),
    ensures
        quiet::quiet(before, after),
    decreases bookmarks.len(),
{
    broadcast use {crate::quiet::group_quiet, asks_stack_resolved};

    if bookmarks.len() == 0 {
    } else {
        let (mid, stack) = choose|mid: Seq<Event>, stack: Result<Seq<ResolvedChangeView>, Seq<CauseView>>| {
            &&& #[trigger] stack::stack_resolved(before, mid, bookmarks[0].commit_id, stack)
            &&& match frozen::frozen_change_result(bookmarks[0], stack) {
                Err(e) => after == mid && r == Err::<Seq<FrozenDependencyView>, _>(e),
                Ok(item) => frozen::frozen_changes_resolved(
                    mid,
                    after,
                    done.push(item),
                    bookmarks.drop_first(),
                    r,
                ),
            }
        };
        match frozen::frozen_change_result(bookmarks[0], stack) {
            Err(e) => {},
            Ok(item) => {
                asks_frozen_changes_resolved(
                    mid,
                    after,
                    done.push(item),
                    bookmarks.drop_first(),
                    r,
                );
            },
        }
    }
}

pub broadcast proof fn asks_all_frozen_resolved(
    before: Seq<Event>,
    after: Seq<Event>,
    bookmarks: Seq<FrozenBookmarkView>,
    r: Result<Seq<FrozenDependencyView>, Seq<CauseView>>,
)
    requires
        #[trigger] frozen::all_frozen_resolved(before, after, bookmarks, r),
    ensures
        quiet::quiet(before, after),
{
    broadcast use {crate::quiet::group_quiet, asks_frozen_changes_resolved};
}

pub broadcast proof fn asks_chain_walked(
    before: Seq<Event>,
    after: Seq<Event>,
    frozen: Seq<FrozenDependencyView>,
    current: FrozenDependencyView,
    above: Seq<FrozenDependencyView>,
    r: Result<Seq<FrozenDependencyView>, Seq<CauseView>>,
)
    requires
        #[trigger] frozen::chain_walked(before, after, frozen, current, above, r),
    ensures
        quiet::quiet(before, after),
    decreases frozen.len() + 1 - above.len(),
{
    broadcast use crate::quiet::group_quiet;

    if above.len() > frozen.len() {
    } else {
        if frozen::dep_commits(above).contains(current.change.commit_id) {
        } else {
            let revset = bookmarks::nearest_revset(
                frozen::dep_commits(frozen),
                current.change.commit_id,
            );
            let walked = above.push(current);
            let mid = choose|mid: Seq<Event>| {
                &&& #[trigger] record::called(before, mid, "jj"@, bookmarks::listed_args(revset))
                &&& match bookmarks::listed_commits(revset, record::last_reply(mid)) {
                    Err(e) => after == mid && r == Err::<Seq<FrozenDependencyView>, _>(e),
                    Ok(below) => if below.len() == 0 {
                        after == mid && r == Ok::<_, Seq<CauseView>>(walked.reverse())
                    } else if below.len() == 1 {
                        match frozen::frozen_at(frozen, below[0]) {
                            None => after == mid && r == Err::<Seq<FrozenDependencyView>, _>(
                                error::plain(
                                    "frozen ancestor "@ + stack::short_id(below[0])
                                    + " missing from dependency set"@,
                                ),
                            ),
                            Some(next) => frozen::chain_walked(mid, after, frozen, next, walked, r),
                        }
                    } else {
                        after == mid && r == Err::<Seq<FrozenDependencyView>, _>(
                            error::reported(
                                error::cli(
                                    "frozen bookmark `"@ + current.bookmark.name + "` has "@
                                    + text::decimal(below.len())
                                    + " frozen ancestors, expected a linear chain"@,
                                ).because(text::join(frozen::frozen_labels(frozen, below), ", "@)),
                            ),
                        )
                    },
                }
            };
            match bookmarks::listed_commits(revset, record::last_reply(mid)) {
                Err(e) => {},
                Ok(below) => {
                    if below.len() == 0 {
                    } else {
                        if below.len() == 1 {
                            match frozen::frozen_at(frozen, below[0]) {
                                None => {},
                                Some(next) => {
                                    asks_chain_walked(mid, after, frozen, next, walked, r);
                                },
                            }
                        } else {
                        }
                    }
                },
            }
        }
    }
}

pub broadcast proof fn asks_chain_searched(
    before: Seq<Event>,
    after: Seq<Event>,
    frozen: Seq<FrozenDependencyView>,
    top: Seq<char>,
    r: Result<Option<Seq<FrozenDependencyView>>, Seq<CauseView>>,
)
    requires
        #[trigger] frozen::chain_searched(before, after, frozen, top, r),
    ensures
        quiet::quiet(before, after),
{
    broadcast use {crate::quiet::group_quiet, asks_chain_walked};
}

pub broadcast proof fn asks_below_owned_searched(
    before: Seq<Event>,
    after: Seq<Event>,
    owned: Seq<ResolvedChangeView>,
    frozen: Seq<FrozenDependencyView>,
    r: Result<Seq<FrozenDependencyView>, Seq<CauseView>>,
)
    requires
        #[trigger] frozen::below_owned_searched(before, after, owned, frozen, r),
    ensures
        quiet::quiet(before, after),
{
    broadcast use {crate::quiet::group_quiet, asks_chain_searched};
}

pub broadcast proof fn asks_dependencies_searched(
    before: Seq<Event>,
    after: Seq<Event>,
    owned: Seq<ResolvedChangeView>,
    bookmarks: Seq<FrozenBookmarkView>,
    r: Result<Seq<FrozenDependencyView>, Seq<CauseView>>,
)
    requires
        #[trigger] frozen::dependencies_searched(before, after, owned, bookmarks, r),
    ensures
        quiet::quiet(before, after),
{
    broadcast use {crate::quiet::group_quiet, asks_all_frozen_resolved, asks_below_owned_searched};
}

pub broadcast proof fn asks_resolution_made(
    before: Seq<Event>,
    after: Seq<Event>,
    owned: Seq<ResolvedChangeView>,
    bookmarks: Seq<FrozenBookmarkView>,
    r: Result<StackResolutionView, Seq<CauseView>>,
)
    requires
        #[trigger] frozen::resolution_made(before, after, owned, bookmarks, r),
    ensures
        quiet::quiet(before, after),
{
    broadcast use {crate::quiet::group_quiet, asks_base_checked, asks_dependencies_searched};
}

pub broadcast proof fn asks_owned_resolved(
    before: Seq<Event>,
    after: Seq<Event>,
    revset: Seq<char>,
    r: Result<StackResolutionView, Seq<CauseView>>,
)
    requires
        #[trigger] context::owned_resolved(before, after, revset, r),
    ensures
        quiet::quiet(before, after),
{
    broadcast use {crate::quiet::group_quiet, asks_resolution_made, asks_stack_resolved};

    reveal(quiet::quiet);
}

pub broadcast proof fn asks_context_resolved(
    before: Seq<Event>,
    after: Seq<Event>,
    revset: Seq<char>,
    r: Result<AppContextView, Seq<CauseView>>,
)
    requires
        #[trigger] context::context_resolved(before, after, revset, r),
    ensures
        quiet::quiet(before, after),
{
    broadcast use {crate::quiet::group_quiet, asks_github_resolved, asks_owned_resolved};
}

pub broadcast proof fn asks_stack_reported(
    before: Seq<Event>,
    after: Seq<Event>,
    config: AppConfigView,
    revset: Seq<char>,
    aliases: StatusAliasStateView,
    diagnostics: Diagnostics,
    r: Result<StatusReportView, Seq<CauseView>>,
)
    requires
        #[trigger] status::stack_reported(before, after, config, revset, aliases, diagnostics, r),
    ensures
        quiet::quiet(before, after),
{
    broadcast use {
        crate::quiet::group_quiet,
        asks_context_reported,
        asks_context_resolved,
        lemma_phase_said,
    };
}

pub broadcast proof fn asks_status_reported(
    before: Seq<Event>,
    after: Seq<Event>,
    config: AppConfigView,
    revset: Seq<char>,
    diagnostics: Diagnostics,
    r: Result<StatusReportView, Seq<CauseView>>,
)
    requires
        #[trigger] status::status_reported(before, after, config, revset, diagnostics, r),
    ensures
        quiet::quiet(before, after),
{
    broadcast use {
        crate::quiet::group_quiet,
        asks_aliases_read,
        asks_stack_reported,
        lemma_phase_said,
    };
}

pub broadcast proof fn asks_status_run(
    before: Seq<Event>,
    after: Seq<Event>,
    config: AppConfigView,
    json: bool,
    diagnostics: Diagnostics,
    r: Result<(), Seq<CauseView>>,
)
    requires
        #[trigger] commands::status_run(before, after, config, json, diagnostics, r),
    ensures
        quiet::quiet(before, after),
{
    broadcast use {crate::quiet::group_quiet, asks_report_told, asks_status_reported};

    reveal(crate::commands::status_run);
}

pub broadcast proof fn asks_latest_comment_found(
    before: Seq<Event>,
    after: Seq<Event>,
    repo: Seq<char>,
    pr_number: u64,
    change_id: Seq<char>,
    r: Result<Option<GhStackCommentView>, Seq<CauseView>>,
)
    requires
        #[trigger] comments::latest_comment_found(before, after, repo, pr_number, change_id, r),
    ensures
        quiet::quiet(before, after),
{
    broadcast use {crate::quiet::group_quiet, asks_comments_listed};
}

pub broadcast proof fn asks_setting_searched(
    before: Seq<Event>,
    after: Seq<Event>,
    name: Seq<char>,
    found: Option<Seq<char>>,
)
    requires
        #[trigger] config::setting_searched(before, after, name, found),
    ensures
        quiet::quiet(before, after),
{
    broadcast use crate::quiet::group_quiet;

    reveal(quiet::quiet);
}

pub broadcast proof fn asks_config_resolved(
    before: Seq<Event>,
    after: Seq<Event>,
    r: Result<AppConfigView, Seq<CauseView>>,
)
    requires
        #[trigger] config::config_resolved(before, after, r),
    ensures
        quiet::quiet(before, after),
{
    broadcast use {crate::quiet::group_quiet, asks_setting_searched};
}

pub broadcast proof fn asks_aliases_queried(
    before: Seq<Event>,
    after: Seq<Event>,
    plan: Result<Seq<StartupConfigActionView>, Seq<CauseView>>,
)
    requires
        #[trigger] config::aliases_queried(before, after, plan),
    ensures
        quiet::quiet(before, after),
{
    broadcast use crate::quiet::group_quiet;

    reveal(quiet::quiet);
}

pub broadcast proof fn asks_frozen_child_resolved(
    before: Seq<Event>,
    after: Seq<Event>,
    frozen: Seq<FrozenDependencyView>,
    at_commit: Seq<char>,
    r: Result<StackResolutionView, Seq<CauseView>>,
)
    requires
        #[trigger] context::frozen_child_resolved(before, after, frozen, at_commit, r),
    ensures
        quiet::quiet(before, after),
{
    broadcast use {crate::quiet::group_quiet, asks_chain_searched, asks_stack_resolved};
}

pub broadcast proof fn asks_frozen_top_resolved(
    before: Seq<Event>,
    after: Seq<Event>,
    frozen: Seq<FrozenDependencyView>,
    at_commit: Seq<char>,
    r: Result<StackResolutionView, Seq<CauseView>>,
)
    requires
        #[trigger] context::frozen_top_resolved(before, after, frozen, at_commit, r),
    ensures
        quiet::quiet(before, after),
{
    broadcast use {crate::quiet::group_quiet, asks_chain_searched, asks_frozen_child_resolved};
}

pub broadcast proof fn asks_purely_frozen_resolved(
    before: Seq<Event>,
    after: Seq<Event>,
    bookmarks: Seq<FrozenBookmarkView>,
    r: Result<StackResolutionView, Seq<CauseView>>,
)
    requires
        #[trigger] context::purely_frozen_resolved(before, after, bookmarks, r),
    ensures
        quiet::quiet(before, after),
{
    broadcast use {crate::quiet::group_quiet, asks_all_frozen_resolved, asks_frozen_top_resolved};

    reveal(quiet::quiet);
}

pub broadcast proof fn asks_covering_searched(
    before: Seq<Event>,
    after: Seq<Event>,
    commit: Seq<char>,
    bookmarks: Seq<FrozenBookmarkView>,
    at: int,
    r: Result<Option<FrozenBookmarkView>, Seq<CauseView>>,
)
    requires
        #[trigger] empty_merge::covering_searched(before, after, commit, bookmarks, at, r),
    ensures
        quiet::quiet(before, after),
    decreases bookmarks.len() - at,
{
    broadcast use crate::quiet::group_quiet;

    if at >= bookmarks.len() {
    } else {
        let mid = choose|mid: Seq<Event>| {
            &&& #[trigger] record::called(
                before,
                mid,
                "git"@,
                bookmarks::ancestor_args(commit, bookmarks[at].commit_id),
            )
            &&& match bookmarks::success_of(record::last_reply(mid)) {
                Err(e) => record::stopped(mid, after, e, r),
                Ok(true) => after == mid && r == Ok::<_, Seq<CauseView>>(Some(bookmarks[at])),
                Ok(false) => empty_merge::covering_searched(
                    mid,
                    after,
                    commit,
                    bookmarks,
                    at + 1,
                    r,
                ),
            }
        };
        match bookmarks::success_of(record::last_reply(mid)) {
            Err(e) => {},
            Ok(true) => {},
            Ok(false) => {
                asks_covering_searched(mid, after, commit, bookmarks, at + 1, r);
            },
        }
    }
}

pub broadcast proof fn asks_covering_found(
    before: Seq<Event>,
    after: Seq<Event>,
    commit: Seq<char>,
    bookmarks: Seq<FrozenBookmarkView>,
    r: Result<Option<FrozenBookmarkView>, Seq<CauseView>>,
)
    requires
        #[trigger] empty_merge::covering_found(before, after, commit, bookmarks, r),
    ensures
        quiet::quiet(before, after),
{
    broadcast use {crate::quiet::group_quiet, asks_covering_searched};
}

pub broadcast proof fn asks_immutable_diagnosed(
    before: Seq<Event>,
    after: Seq<Event>,
    target: MergeTargetView,
    bookmarks: Seq<FrozenBookmarkView>,
    r: Result<(), Seq<CauseView>>,
)
    requires
        #[trigger] empty_merge::immutable_diagnosed(before, after, target, bookmarks, r),
    ensures
        quiet::quiet(before, after),
{
    broadcast use {crate::quiet::group_quiet, asks_covering_found};
}

pub broadcast proof fn asks_mutability_diagnosed(
    before: Seq<Event>,
    after: Seq<Event>,
    target: MergeTargetView,
    revset: Seq<char>,
    bookmarks: Seq<FrozenBookmarkView>,
    range: Seq<ResolvedChangeView>,
    r: Result<(), Seq<CauseView>>,
)
    requires
        #[trigger] empty_merge::mutability_diagnosed(
            before,
            after,
            target,
            revset,
            bookmarks,
            range,
            r,
        ),
    ensures
        quiet::quiet(before, after),
{
    broadcast use {crate::quiet::group_quiet, asks_immutable_diagnosed, asks_stack_resolved};
}

pub broadcast proof fn asks_range_diagnosed(
    before: Seq<Event>,
    after: Seq<Event>,
    target: MergeTargetView,
    revset: Seq<char>,
    bookmarks: Seq<FrozenBookmarkView>,
    r: Result<(), Seq<CauseView>>,
)
    requires
        #[trigger] empty_merge::range_diagnosed(before, after, target, revset, bookmarks, r),
    ensures
        quiet::quiet(before, after),
{
    broadcast use {crate::quiet::group_quiet, asks_mutability_diagnosed, asks_stack_resolved};
}

pub broadcast proof fn asks_reachability_diagnosed(
    before: Seq<Event>,
    after: Seq<Event>,
    config: AppConfigView,
    target: MergeTargetView,
    trunk: Seq<char>,
    revset: Seq<char>,
    bookmarks: Seq<FrozenBookmarkView>,
    r: Result<(), Seq<CauseView>>,
)
    requires
        #[trigger] empty_merge::reachability_diagnosed(
            before,
            after,
            config,
            target,
            trunk,
            revset,
            bookmarks,
            r,
        ),
    ensures
        quiet::quiet(before, after),
{
    broadcast use {crate::quiet::group_quiet, asks_range_diagnosed};
}

pub broadcast proof fn asks_empty_merge_diagnosed(
    before: Seq<Event>,
    after: Seq<Event>,
    config: AppConfigView,
    target: MergeTargetView,
    revset: Seq<char>,
    bookmarks: Seq<FrozenBookmarkView>,
    r: Result<(), Seq<CauseView>>,
)
    requires
        #[trigger] empty_merge::empty_merge_diagnosed(
            before,
            after,
            config,
            target,
            revset,
            bookmarks,
            r,
        ),
    ensures
        quiet::quiet(before, after),
{
    broadcast use {crate::quiet::group_quiet, asks_reachability_diagnosed};
}

pub broadcast proof fn asks_prs_walked(
    before: Seq<Event>,
    after: Seq<Event>,
    repo: Seq<char>,
    change_id: Seq<char>,
    numbers: Seq<u64>,
    done: Seq<GhPrView>,
    shown: bool,
    r: Result<Seq<GhPrView>, Seq<CauseView>>,
)
    requires
        #[trigger] get::prs_walked(before, after, repo, change_id, numbers, done, shown, r),
    ensures
        quiet::quiet(before, after),
    decreases numbers.len() - done.len(),
{
    broadcast use {crate::quiet::group_quiet, asks_pr_fetched, lemma_step_said};

    if done.len() >= numbers.len() {
    } else {
        let (mid, fetched) = choose|mid: Seq<Event>, fetched: Result<GhPrView, Seq<CauseView>>| {
            &&& #[trigger] pr::pr_fetched(
                before,
                mid,
                repo,
                change_id,
                numbers[done.len() as int],
                fetched,
            )
            &&& match fetched {
                Err(e) => record::stopped(mid, after, e, r),
                Ok(pr) => get::prs_walked(
                    mid + ui::step_said(shown, (done.len() + 1) as usize),
                    after,
                    repo,
                    change_id,
                    numbers,
                    done.push(pr),
                    shown,
                    r,
                ),
            }
        };
        match fetched {
            Err(e) => {},
            Ok(pr) => {
                asks_prs_walked(
                    mid + ui::step_said(shown, (done.len() + 1) as usize),
                    after,
                    repo,
                    change_id,
                    numbers,
                    done.push(pr),
                    shown,
                    r,
                );
            },
        }
    }
}

pub broadcast proof fn asks_all_walked(
    before: Seq<Event>,
    after: Seq<Event>,
    repo: Seq<char>,
    change_id: Seq<char>,
    numbers: Seq<u64>,
    diagnostics: Diagnostics,
    r: Result<Seq<GhPrView>, Seq<CauseView>>,
)
    requires
        #[trigger] get::all_walked(before, after, repo, change_id, numbers, diagnostics, r),
    ensures
        quiet::quiet(before, after),
{
    broadcast use {crate::quiet::group_quiet, asks_prs_walked, lemma_steps_said};
}

pub broadcast proof fn asks_prs_fetched(
    before: Seq<Event>,
    after: Seq<Event>,
    repo: Seq<char>,
    change_id: Seq<char>,
    numbers: Seq<u64>,
    diagnostics: Diagnostics,
    r: Result<Seq<GhPrView>, Seq<CauseView>>,
)
    requires
        #[trigger] get::prs_fetched(before, after, repo, change_id, numbers, diagnostics, r),
    ensures
        quiet::quiet(before, after),
{
    broadcast use {crate::quiet::group_quiet, asks_all_walked, lemma_steps_ended};
}

pub broadcast proof fn asks_heads_resolved(
    before: Seq<Event>,
    after: Seq<Event>,
    prs: Seq<GhPrView>,
    done: Seq<ResolvedChangeView>,
    r: Result<Seq<ResolvedChangeView>, Seq<CauseView>>,
)
    requires
        #[trigger] get::heads_resolved(before, after, prs, done, r),
    ensures
        quiet::quiet(before, after),
    decreases prs.len() - done.len(),
{
    broadcast use {crate::quiet::group_quiet, asks_stack_resolved};

    if done.len() >= prs.len() {
    } else {
        let pr = prs[done.len() as int];
        let (mid, stack) = choose|mid: Seq<Event>, stack: Result<Seq<ResolvedChangeView>, Seq<CauseView>>| {
            &&& #[trigger] stack::stack_resolved(before, mid, pr.head_ref_oid, stack)
            &&& match get::head_change(pr, stack) {
                Err(e) => record::stopped(mid, after, e, r),
                Ok(change) => get::heads_resolved(mid, after, prs, done.push(change), r),
            }
        };
        match get::head_change(pr, stack) {
            Err(e) => {},
            Ok(change) => {
                asks_heads_resolved(mid, after, prs, done.push(change), r);
            },
        }
    }
}

pub broadcast proof fn asks_get_planned(
    before: Seq<Event>,
    after: Seq<Event>,
    prs: Seq<GhPrView>,
    auto_edit: bool,
    r: Result<GetSummary, Seq<CauseView>>,
)
    requires
        #[trigger] get::get_planned(before, after, prs, auto_edit, r),
    ensures
        quiet::quiet(before, after),
{
    broadcast use {crate::quiet::group_quiet, lemma_frozen_plan, lemma_dry_lines};
}

pub broadcast proof fn asks_target_opened(
    before: Seq<Event>,
    after: Seq<Event>,
    target: Seq<char>,
    diagnostics: Diagnostics,
    r: Result<(GitHubContextView, GetTargetView), Seq<CauseView>>,
)
    requires
        #[trigger] get::target_opened(before, after, target, diagnostics, r),
    ensures
        quiet::quiet(before, after),
{
    broadcast use {crate::quiet::group_quiet, asks_github_resolved, lemma_phase_said};
}

pub broadcast proof fn asks_target_refused(
    before: Seq<Event>,
    after: Seq<Event>,
    config: AppConfigView,
    revset: Seq<char>,
    target: MergeTargetView,
    bookmarks: Seq<FrozenBookmarkView>,
    r: Result<MergeSummary, Seq<CauseView>>,
)
    requires
        #[trigger] merge::target_refused(before, after, config, revset, target, bookmarks, r),
    ensures
        quiet::quiet(before, after),
{
    broadcast use {crate::quiet::group_quiet, asks_empty_merge_diagnosed};
}

pub broadcast proof fn asks_nothing_merged(
    before: Seq<Event>,
    after: Seq<Event>,
    config: AppConfigView,
    revset: Seq<char>,
    target: Option<MergeTargetView>,
    bookmarks: Seq<FrozenBookmarkView>,
    r: Result<MergeSummary, Seq<CauseView>>,
)
    requires
        #[trigger] merge::nothing_merged(before, after, config, revset, target, bookmarks, r),
    ensures
        quiet::quiet(before, after),
{
    broadcast use {crate::quiet::group_quiet, asks_target_refused};
}

pub broadcast proof fn asks_steps_checked(
    before: Seq<Event>,
    after: Seq<Event>,
    stack: Seq<ResolvedChangeView>,
    at: int,
    r: Result<(), Seq<CauseView>>,
)
    requires
        #[trigger] planning::steps_checked(before, after, stack, at, r),
    ensures
        quiet::quiet(before, after),
    decreases stack.len() - at,
{
    broadcast use crate::quiet::group_quiet;

    reveal(quiet::quiet);
    if at < 1 || at >= stack.len() {
    } else {
        let n = before.len() as int;
        let parent = stack[at - 1];
        let child = stack[at];
        if stack::first_among(child.parent_ids, seq![parent.commit_id]) != Some(parent.commit_id) {
        } else {
            match planning::merge_base_result(child.commit_id, parent.commit_id, record::reply_of(after[n])) {
                Err(e) => {},
                Ok(base) => {
                    if base != parent.commit_id {
                    } else {
                        asks_steps_checked(after.take(n + 1), after, stack, at + 1, r);
                    }
                },
            }
        }
    }
}

pub broadcast proof fn asks_bases_checked(
    before: Seq<Event>,
    after: Seq<Event>,
    trunk: Seq<char>,
    stack: Seq<ResolvedChangeView>,
    frozen: Seq<FrozenDependencyView>,
    r: Result<(), Seq<CauseView>>,
)
    requires
        #[trigger] planning::bases_checked(before, after, trunk, stack, frozen, r),
    ensures
        quiet::quiet(before, after),
{
    broadcast use {crate::quiet::group_quiet, asks_steps_checked};

    reveal(quiet::quiet);
}

pub broadcast proof fn asks_frozen_entries_walked(
    before: Seq<Event>,
    after: Seq<Event>,
    repo: Seq<char>,
    dependencies: Seq<FrozenDependencyView>,
    done: Seq<(Seq<char>, PrCacheEntryView)>,
    r: Result<Seq<(Seq<char>, PrCacheEntryView)>, Seq<CauseView>>,
)
    requires
        #[trigger] planning::frozen_entries_walked(before, after, repo, dependencies, done, r),
    ensures
        quiet::quiet(before, after),
    decreases dependencies.len() - done.len(),
{
    broadcast use {crate::quiet::group_quiet, asks_pr_fetched};

    if done.len() >= dependencies.len() {
    } else {
        let dependency = dependencies[done.len() as int];
        let (mid, fetched) = choose|mid: Seq<Event>, fetched: Result<GhPrView, Seq<CauseView>>| {
            &&& #[trigger] pr::pr_fetched(
                before,
                mid,
                repo,
                dependency.change.change_id,
                dependency.bookmark.pr_number,
                fetched,
            )
            &&& match fetched {
                Err(e) => record::stopped(mid, after, e, r),
                Ok(pr) => match planning::frozen_pr_fault(repo, dependency, pr) {
                    Some(e) => record::stopped(mid, after, e, r),
                    None => planning::frozen_entries_walked(
                        mid + ui::logged(
                            planning::resolved_dependency(dependency.bookmark.name, pr),
                        ),
                        after,
                        repo,
                        dependencies,
                        done.push((dependency.change.change_id, pr::entry_of(pr, None))),
                        r,
                    ),
                },
            }
        };
        match fetched {
            Err(e) => {},
            Ok(pr) => {
                match planning::frozen_pr_fault(repo, dependency, pr) {
                    Some(e) => {},
                    None => {
                        asks_frozen_entries_walked(
                            mid + ui::logged(
                                planning::resolved_dependency(dependency.bookmark.name, pr),
                            ),
                            after,
                            repo,
                            dependencies,
                            done.push((dependency.change.change_id, pr::entry_of(pr, None))),
                            r,
                        );
                    },
                }
            },
        }
    }
}

pub broadcast proof fn asks_frozen_entries_resolved(
    before: Seq<Event>,
    after: Seq<Event>,
    repo: Seq<char>,
    dependencies: Seq<FrozenDependencyView>,
    r: Result<Seq<(Seq<char>, PrCacheEntryView)>, Seq<CauseView>>,
)
    requires
        #[trigger] planning::frozen_entries_resolved(before, after, repo, dependencies, r),
    ensures
        quiet::quiet(before, after),
{
    broadcast use {crate::quiet::group_quiet, asks_frozen_entries_walked};
}

pub broadcast proof fn asks_plans_walked(
    before: Seq<Event>,
    after: Seq<Event>,
    config: AppConfigView,
    github: GitHubContextView,
    all: Map<(Seq<char>, Seq<char>), PrCacheEntryView>,
    stack: Seq<ResolvedChangeView>,
    first: Seq<char>,
    done: Seq<SubmitPlanView>,
    r: Result<Seq<SubmitPlanView>, Seq<CauseView>>,
)
    requires
        #[trigger] planning::plans_walked(
            before,
            after,
            config,
            github,
            all,
            stack,
            first,
            done,
            r,
        ),
    ensures
        quiet::quiet(before, after),
    decreases stack.len() - done.len(),
{
    broadcast use {crate::quiet::group_quiet, asks_head_resolved};

    if done.len() >= stack.len() {
    } else {
        let change = stack[done.len() as int];
        let (mid, head) = choose|mid: Seq<Event>, head: Result<SubmitHeadView, Seq<CauseView>>| {
            &&& #[trigger] heads::head_resolved(
                before,
                mid,
                config,
                github,
                change,
                all,
                planning::plan_heads(done),
                head,
            )
            &&& match head {
                Err(e) => record::stopped(
                    mid,
                    after,
                    error::phase_failure("plan-submit"@, "change:"@ + change.change_id, e),
                    r,
                ),
                Ok(head) => match planning::plan_result(change, planning::next_base(first, done), head) {
                    Err(e) => record::stopped(mid, after, e, r),
                    Ok(plan) => planning::plans_walked(
                        mid,
                        after,
                        config,
                        github,
                        all,
                        stack,
                        first,
                        done.push(plan),
                        r,
                    ),
                },
            }
        };
        match head {
            Err(e) => {},
            Ok(head) => {
                match planning::plan_result(change, planning::next_base(first, done), head) {
                    Err(e) => {},
                    Ok(plan) => {
                        asks_plans_walked(
                            mid,
                            after,
                            config,
                            github,
                            all,
                            stack,
                            first,
                            done.push(plan),
                            r,
                        );
                    },
                }
            },
        }
    }
}

pub broadcast proof fn asks_stack_planned(
    before: Seq<Event>,
    after: Seq<Event>,
    config: AppConfigView,
    github: GitHubContextView,
    all: Map<(Seq<char>, Seq<char>), PrCacheEntryView>,
    stack: Seq<ResolvedChangeView>,
    first: Seq<char>,
    r: Result<Seq<SubmitPlanView>, Seq<CauseView>>,
)
    requires
        #[trigger] planning::stack_planned(before, after, config, github, all, stack, first, r),
    ensures
        quiet::quiet(before, after),
{
    broadcast use {crate::quiet::group_quiet, asks_plans_walked};
}

pub broadcast proof fn asks_asked(
    before: Seq<Event>,
    after: Seq<Event>,
    what: Seq<char>,
    unasked: CliErrorView,
    declined: CliErrorView,
    r: Result<(), Seq<CauseView>>,
)
    requires
        #[trigger] plans::asked(before, after, what, unasked, declined, r),
    ensures
        quiet::quiet(before, after),
{
    broadcast use crate::quiet::group_quiet;

    reveal(quiet::quiet);
}

pub broadcast proof fn asks_submit_confirmed(
    before: Seq<Event>,
    after: Seq<Event>,
    yes: bool,
    yes_command: Seq<char>,
    r: Result<(), Seq<CauseView>>,
)
    requires
        #[trigger] plans::submit_confirmed(before, after, yes, yes_command, r),
    ensures
        quiet::quiet(before, after),
{
    broadcast use {crate::quiet::group_quiet, asks_asked};
}

pub broadcast proof fn asks_round_asked(
    before: Seq<Event>,
    after: Seq<Event>,
    repo: Seq<char>,
    candidates: Seq<MergeCandidateView>,
    pending: Seq<usize>,
    at: int,
    still: Seq<usize>,
    r: Result<(Seq<MergeCandidateView>, Seq<usize>), Seq<CauseView>>,
)
    requires
        #[trigger] polling::round_asked(before, after, repo, candidates, pending, at, still, r),
    ensures
        quiet::quiet(before, after),
    decreases pending.len() - at,
{
    broadcast use {crate::quiet::group_quiet, asks_merge_pr_fetched};

    if at >= pending.len() {
    } else {
        let index = pending[at];
        let candidate = candidates[index as int];
        let (mid, got) = choose|mid: Seq<Event>, got: Result<GhMergePrView, Seq<CauseView>>| {
            &&& #[trigger] ready::merge_pr_fetched(
                before,
                mid,
                repo,
                candidate.change.change_id,
                candidate.entry.pr_number,
                got,
            )
            &&& match got {
                Err(e) => record::stopped(mid, after, e, r),
                Ok(pr) => polling::round_asked(
                    mid,
                    after,
                    repo,
                    candidates.update(index as int, MergeCandidateView { pr, ..candidate }),
                    pending,
                    at + 1,
                    if ready::is_unsettled(pr) {
                        still.push(index)
                    } else {
                        still
                    },
                    r,
                ),
            }
        };
        match got {
            Err(e) => {},
            Ok(pr) => {
                asks_round_asked(
                    mid,
                    after,
                    repo,
                    candidates.update(index as int, MergeCandidateView { pr, ..candidate }),
                    pending,
                    at + 1,
                    if ready::is_unsettled(pr) { still.push(index) } else { still },
                    r,
                );
            },
        }
    }
}

pub broadcast proof fn asks_whole_round_asked(
    before: Seq<Event>,
    after: Seq<Event>,
    repo: Seq<char>,
    candidates: Seq<MergeCandidateView>,
    pending: Seq<usize>,
    r: Result<(Seq<MergeCandidateView>, Seq<usize>), Seq<CauseView>>,
)
    requires
        #[trigger] polling::whole_round_asked(before, after, repo, candidates, pending, r),
    ensures
        quiet::quiet(before, after),
{
    broadcast use {crate::quiet::group_quiet, asks_round_asked};
}

pub broadcast proof fn asks_rounds_asked(
    before: Seq<Event>,
    after: Seq<Event>,
    repo: Seq<char>,
    candidates: Seq<MergeCandidateView>,
    pending: Seq<usize>,
    total: nat,
    attempt: nat,
    shown: bool,
    verbose: bool,
    r: Result<Seq<MergeCandidateView>, Seq<CauseView>>,
)
    requires
        #[trigger] polling::rounds_asked(
            before,
            after,
            repo,
            candidates,
            pending,
            total,
            attempt,
            shown,
            verbose,
            r,
        ),
    ensures
        quiet::quiet(before, after),
    decreases POLL_MAX_ATTEMPTS - attempt,
{
    broadcast use {
        crate::quiet::group_quiet,
        asks_whole_round_asked,
        lemma_settle_pause,
        lemma_step_said,
    };

    if attempt >= POLL_MAX_ATTEMPTS || pending.len() == 0 {
    } else {
        let (mid, got) = choose|mid: Seq<Event>,
        got: Result<(Seq<MergeCandidateView>, Seq<usize>), Seq<CauseView>>| {
            &&& #[trigger] polling::whole_round_asked(before, mid, repo, candidates, pending, got)
            &&& match got {
                Err(e) => record::stopped(mid, after, e, r),
                Ok((fresh, still)) => if still.len() == 0 {
                    after == mid + ui::step_said(
                        shown,
                        (total - still.len()) as usize,
                    ) && r == Ok::<
                    _,
                    Seq<CauseView>,
                    >(fresh)
                } else {
                    polling::rounds_asked(
                        mid + ui::step_said(shown, (total - still.len()) as usize) + polling::settle_pause(
                            verbose,
                            still.len(),
                            attempt,
                            polling::delay_after(attempt),
                        ),
                        after,
                        repo,
                        fresh,
                        still,
                        total,
                        attempt + 1,
                        shown,
                        verbose,
                        r,
                    )
                },
            }
        };
        match got {
            Err(e) => {},
            Ok((fresh, still)) => {
                if still.len() == 0 {
                } else {
                    asks_rounds_asked(
                        mid + ui::step_said(shown, (total - still.len()) as usize) + polling::settle_pause(
                            verbose,
                            still.len(),
                            attempt,
                            polling::delay_after(attempt),
                        ),
                        after,
                        repo,
                        fresh,
                        still,
                        total,
                        attempt + 1,
                        shown,
                        verbose,
                        r,
                    );
                }
            },
        }
    }
}

pub broadcast proof fn asks_all_rounds_asked(
    before: Seq<Event>,
    after: Seq<Event>,
    repo: Seq<char>,
    candidates: Seq<MergeCandidateView>,
    diagnostics: Diagnostics,
    r: Result<Seq<MergeCandidateView>, Seq<CauseView>>,
)
    requires
        #[trigger] polling::all_rounds_asked(before, after, repo, candidates, diagnostics, r),
    ensures
        quiet::quiet(before, after),
{
    broadcast use {crate::quiet::group_quiet, asks_rounds_asked, lemma_steps_said};
}

pub broadcast proof fn asks_candidates_settled(
    before: Seq<Event>,
    after: Seq<Event>,
    repo: Seq<char>,
    candidates: Seq<MergeCandidateView>,
    diagnostics: Diagnostics,
    r: Result<Seq<MergeCandidateView>, Seq<CauseView>>,
)
    requires
        #[trigger] polling::candidates_settled(before, after, repo, candidates, diagnostics, r),
    ensures
        quiet::quiet(before, after),
{
    broadcast use {crate::quiet::group_quiet, asks_all_rounds_asked, lemma_steps_ended};
}

pub broadcast proof fn asks_merges_asked(
    before: Seq<Event>,
    after: Seq<Event>,
    repo: Seq<char>,
    pending: Seq<u64>,
    at: int,
    kept: Seq<u64>,
    left: Seq<u64>,
)
    requires
        #[trigger] polling::merges_asked(before, after, repo, pending, at, kept, left),
    ensures
        quiet::quiet(before, after),
    decreases pending.len() - at,
{
    broadcast use crate::quiet::group_quiet;

    if at >= pending.len() {
    } else {
        let mid = choose|mid: Seq<Event>| {
            &&& #[trigger] record::called(
                before,
                mid,
                "gh"@,
                polling::pr_state_args(repo, pending[at]),
            )
            &&& polling::merges_asked(
                mid,
                after,
                repo,
                pending,
                at + 1,
                if polling::says_merged(repo, pending[at], record::last_reply(mid)) {
                    kept
                } else {
                    kept.push(pending[at])
                },
                left,
            )
        };

        asks_merges_asked(
            mid,
            after,
            repo,
            pending,
            at + 1,
            if polling::says_merged(
                repo,
                pending[at],
                record::last_reply(mid),
            ) { kept } else { kept.push(pending[at]) },
            left,
        );
    }
}

pub broadcast proof fn asks_all_merges_asked(
    before: Seq<Event>,
    after: Seq<Event>,
    repo: Seq<char>,
    pending: Seq<u64>,
    left: Seq<u64>,
)
    requires
        #[trigger] polling::all_merges_asked(before, after, repo, pending, left),
    ensures
        quiet::quiet(before, after),
{
    broadcast use {crate::quiet::group_quiet, asks_merges_asked};
}

pub broadcast proof fn asks_merges_polled(
    before: Seq<Event>,
    after: Seq<Event>,
    repo: Seq<char>,
    pending: Seq<u64>,
    total: nat,
    attempt: nat,
    shown: bool,
    verbose: bool,
    left: Seq<u64>,
)
    requires
        #[trigger] polling::merges_polled(
            before,
            after,
            repo,
            pending,
            total,
            attempt,
            shown,
            verbose,
            left,
        ),
    ensures
        quiet::quiet(before, after),
    decreases POLL_MAX_ATTEMPTS - attempt,
{
    broadcast use {
        crate::quiet::group_quiet,
        asks_all_merges_asked,
        lemma_verify_pause,
        lemma_step_said,
    };

    if attempt >= POLL_MAX_ATTEMPTS {
    } else {
        let (mid, still) = choose|mid: Seq<Event>, still: Seq<u64>| {
            &&& #[trigger] polling::all_merges_asked(before, mid, repo, pending, still)
            &&& if still.len() == 0 {
                after == mid + ui::step_said(shown, total as usize) && left == still
            } else {
                polling::merges_polled(
                    mid + ui::step_said(shown, (total - still.len()) as usize) + polling::verify_pause(
                        verbose,
                        still.len(),
                        attempt,
                        polling::delay_after(attempt),
                    ),
                    after,
                    repo,
                    still,
                    total,
                    attempt + 1,
                    shown,
                    verbose,
                    left,
                )
            }
        };

        if still.len() == 0 {
        } else {
            asks_merges_polled(
                mid + ui::step_said(shown, (total - still.len()) as usize) + polling::verify_pause(
                    verbose,
                    still.len(),
                    attempt,
                    polling::delay_after(attempt),
                ),
                after,
                repo,
                still,
                total,
                attempt + 1,
                shown,
                verbose,
                left,
            );
        }
    }
}

pub broadcast proof fn asks_all_merges_polled(
    before: Seq<Event>,
    after: Seq<Event>,
    repo: Seq<char>,
    numbers: Seq<u64>,
    diagnostics: Diagnostics,
    left: Seq<u64>,
)
    requires
        #[trigger] polling::all_merges_polled(before, after, repo, numbers, diagnostics, left),
    ensures
        quiet::quiet(before, after),
{
    broadcast use {crate::quiet::group_quiet, asks_merges_polled, lemma_steps_said};
}

pub broadcast proof fn asks_merges_verified(
    before: Seq<Event>,
    after: Seq<Event>,
    repo: Seq<char>,
    numbers: Seq<u64>,
    diagnostics: Diagnostics,
    r: Result<(), Seq<CauseView>>,
)
    requires
        #[trigger] polling::merges_verified(before, after, repo, numbers, diagnostics, r),
    ensures
        quiet::quiet(before, after),
{
    broadcast use {crate::quiet::group_quiet, asks_all_merges_polled, lemma_steps_ended};
}

pub broadcast proof fn asks_change_id_expanded(
    before: Seq<Event>,
    after: Seq<Event>,
    target: Seq<char>,
    r: Option<Seq<char>>,
)
    requires
        #[trigger] pr::change_id_expanded(before, after, target, r),
    ensures
        quiet::quiet(before, after),
{
    broadcast use crate::quiet::group_quiet;
}

pub broadcast proof fn asks_open_prs_listed(
    before: Seq<Event>,
    after: Seq<Event>,
    repo: Seq<char>,
    purpose: Seq<char>,
    r: Result<Seq<GhPrView>, Seq<CauseView>>,
)
    requires
        #[trigger] pr::open_prs_listed(before, after, repo, purpose, r),
    ensures
        quiet::quiet(before, after),
{
    broadcast use crate::quiet::group_quiet;

    reveal(quiet::quiet);
}

pub broadcast proof fn asks_one_match_fetched(
    before: Seq<Event>,
    after: Seq<Event>,
    repo: Seq<char>,
    target: Seq<char>,
    kind: Seq<char>,
    matches: Seq<GhPrView>,
    purpose: Seq<char>,
    r: Result<GhPrView, Seq<CauseView>>,
)
    requires
        #[trigger] pr::one_match_fetched(before, after, repo, target, kind, matches, purpose, r),
    ensures
        quiet::quiet(before, after),
{
    broadcast use {crate::quiet::group_quiet, asks_pr_fetched};
}

pub broadcast proof fn asks_change_target_resolved(
    before: Seq<Event>,
    after: Seq<Event>,
    repo: Seq<char>,
    target: Seq<char>,
    purpose: Seq<char>,
    prs: Seq<GhPrView>,
    r: Result<GhPrView, Seq<CauseView>>,
)
    requires
        #[trigger] pr::change_target_resolved(before, after, repo, target, purpose, prs, r),
    ensures
        quiet::quiet(before, after),
{
    broadcast use {crate::quiet::group_quiet, asks_change_id_expanded, asks_one_match_fetched};
}

pub broadcast proof fn asks_target_looked_up(
    before: Seq<Event>,
    after: Seq<Event>,
    repo: Seq<char>,
    target: Seq<char>,
    purpose: Seq<char>,
    r: Result<GhPrView, Seq<CauseView>>,
)
    requires
        #[trigger] pr::target_looked_up(before, after, repo, target, purpose, r),
    ensures
        quiet::quiet(before, after),
{
    broadcast use {
        crate::quiet::group_quiet,
        asks_change_target_resolved,
        asks_one_match_fetched,
        asks_open_prs_listed,
    };
}

pub broadcast proof fn asks_target_resolved(
    before: Seq<Event>,
    after: Seq<Event>,
    repo: Seq<char>,
    target: GetTargetView,
    purpose: Seq<char>,
    r: Result<GhPrView, Seq<CauseView>>,
)
    requires
        #[trigger] pr::target_resolved(before, after, repo, target, purpose, r),
    ensures
        quiet::quiet(before, after),
{
    broadcast use {crate::quiet::group_quiet, asks_pr_fetched, asks_target_looked_up};
}

pub broadcast proof fn asks_default_target_checked(
    before: Seq<Event>,
    after: Seq<Event>,
    trunk: Seq<char>,
    r: Result<(), Seq<CauseView>>,
)
    requires
        #[trigger] pr::default_target_checked(before, after, trunk, r),
    ensures
        quiet::quiet(before, after),
{
    broadcast use {crate::quiet::group_quiet, asks_stack_resolved};
}

pub broadcast proof fn asks_change_url_found(
    before: Seq<Event>,
    after: Seq<Event>,
    repo: Seq<char>,
    change_id: Seq<char>,
    r: Result<(u64, Seq<char>), Seq<CauseView>>,
)
    requires
        #[trigger] pr::change_url_found(before, after, repo, change_id, r),
    ensures
        quiet::quiet(before, after),
{
    broadcast use {crate::quiet::group_quiet, asks_target_looked_up};
}

pub broadcast proof fn asks_current_url_found(
    before: Seq<Event>,
    after: Seq<Event>,
    repo: Seq<char>,
    r: Result<(u64, Seq<char>), Seq<CauseView>>,
)
    requires
        #[trigger] pr::current_url_found(before, after, repo, r),
    ensures
        quiet::quiet(before, after),
{
    broadcast use {crate::quiet::group_quiet, asks_change_url_found};
}

pub broadcast proof fn asks_named_url_found(
    before: Seq<Event>,
    after: Seq<Event>,
    repo: Seq<char>,
    value: Seq<char>,
    r: Result<(u64, Seq<char>), Seq<CauseView>>,
)
    requires
        #[trigger] pr::named_url_found(before, after, repo, value, r),
    ensures
        quiet::quiet(before, after),
{
    broadcast use {crate::quiet::group_quiet, asks_target_looked_up};
}

pub broadcast proof fn asks_default_url_found(
    before: Seq<Event>,
    after: Seq<Event>,
    trunk: Seq<char>,
    repo: Seq<char>,
    r: Result<(u64, Seq<char>), Seq<CauseView>>,
)
    requires
        #[trigger] pr::default_url_found(before, after, trunk, repo, r),
    ensures
        quiet::quiet(before, after),
{
    broadcast use {crate::quiet::group_quiet, asks_current_url_found, asks_default_target_checked};
}

pub broadcast proof fn asks_pr_url_resolved(
    before: Seq<Event>,
    after: Seq<Event>,
    trunk: Seq<char>,
    repo: Seq<char>,
    target: Option<Seq<char>>,
    r: Result<(u64, Seq<char>), Seq<CauseView>>,
)
    requires
        #[trigger] pr::pr_url_resolved(before, after, trunk, repo, target, r),
    ensures
        quiet::quiet(before, after),
{
    broadcast use {crate::quiet::group_quiet, asks_default_url_found, asks_named_url_found};
}

pub broadcast proof fn asks_repair_walked(
    before: Seq<Event>,
    after: Seq<Event>,
    config: AppConfigView,
    github: GitHubContextView,
    target: u64,
    numbers: Seq<u64>,
    at: int,
    open: Seq<GhPrView>,
    pruned: Seq<u64>,
    r: Result<RepairPlanView, Seq<CauseView>>,
)
    requires
        #[trigger] repair::repair_walked(
            before,
            after,
            config,
            github,
            target,
            numbers,
            at,
            open,
            pruned,
            r,
        ),
    ensures
        quiet::quiet(before, after),
    decreases numbers.len() - at,
{
    broadcast use {crate::quiet::group_quiet, asks_pr_fetched};

    if at < 0 || at >= numbers.len() {
    } else {
        if numbers.take(at).contains(numbers[at]) {
        } else {
            let (mid, fetched) = choose|mid: Seq<Event>, fetched: Result<GhPrView, Seq<CauseView>>| {
                &&& #[trigger] pr::pr_fetched(
                    before,
                    mid,
                    github.repo,
                    "repair"@,
                    numbers[at],
                    fetched,
                )
                &&& match fetched {
                    Err(e) => record::stopped(mid, after, e, r),
                    Ok(pr) => match repair::repair_verdict(github.repo, target, pr) {
                        Err(e) => record::stopped(mid, after, e, r),
                        Ok(stays) => if stays {
                            repair::repair_walked(
                                mid,
                                after,
                                config,
                                github,
                                target,
                                numbers,
                                at + 1,
                                open.push(pr),
                                pruned,
                                r,
                            )
                        } else {
                            repair::repair_walked(
                                mid,
                                after,
                                config,
                                github,
                                target,
                                numbers,
                                at + 1,
                                open,
                                pruned.push(pr.number),
                                r,
                            )
                        },
                    },
                }
            };
            match fetched {
                Err(e) => {},
                Ok(pr) => {
                    match repair::repair_verdict(github.repo, target, pr) {
                        Err(e) => {},
                        Ok(stays) => {
                            if stays {
                                asks_repair_walked(
                                    mid,
                                    after,
                                    config,
                                    github,
                                    target,
                                    numbers,
                                    at + 1,
                                    open.push(pr),
                                    pruned,
                                    r,
                                );
                            } else {
                                asks_repair_walked(
                                    mid,
                                    after,
                                    config,
                                    github,
                                    target,
                                    numbers,
                                    at + 1,
                                    open,
                                    pruned.push(pr.number),
                                    r,
                                );
                            }
                        },
                    }
                },
            }
        }
    }
}

pub broadcast proof fn asks_repair_planned(
    before: Seq<Event>,
    after: Seq<Event>,
    config: AppConfigView,
    github: GitHubContextView,
    target: u64,
    numbers: Seq<u64>,
    r: Result<RepairPlanView, Seq<CauseView>>,
)
    requires
        #[trigger] repair::repair_planned(before, after, config, github, target, numbers, r),
    ensures
        quiet::quiet(before, after),
{
    broadcast use {crate::quiet::group_quiet, asks_repair_walked};
}

pub broadcast proof fn asks_repair_confirmed(
    before: Seq<Event>,
    after: Seq<Event>,
    plan: RepairPlanView,
    actions: Seq<RepairActionView>,
    target: u64,
    yes: bool,
    r: Result<(), Seq<CauseView>>,
)
    requires
        #[trigger] repair::repair_confirmed(before, after, plan, actions, target, yes, r),
    ensures
        quiet::quiet(before, after),
{
    broadcast use {crate::quiet::group_quiet, asks_asked, lemma_repair_rows_said};

    let note = seq![Event::Said(LineView::Note(""@))];
    assert(quiet::all_harmless(note)) by {
        reveal(quiet::all_harmless);
    }
}

pub broadcast proof fn asks_repair_rechecked(
    before: Seq<Event>,
    after: Seq<Event>,
    config: AppConfigView,
    github: GitHubContextView,
    target: u64,
    plan: RepairPlanView,
    body: Seq<char>,
    r: Result<(), Seq<CauseView>>,
)
    requires
        #[trigger] repair::repair_rechecked(before, after, config, github, target, plan, body, r),
    ensures
        quiet::quiet(before, after),
{
    broadcast use {crate::quiet::group_quiet, asks_repair_planned};
}

pub broadcast proof fn asks_repair_validated(
    before: Seq<Event>,
    after: Seq<Event>,
    config: AppConfigView,
    github: GitHubContextView,
    target: u64,
    plan: RepairPlanView,
    r: Result<(), Seq<CauseView>>,
)
    requires
        #[trigger] repair::repair_validated(before, after, config, github, target, plan, r),
    ensures
        quiet::quiet(before, after),
{
    broadcast use {crate::quiet::group_quiet, asks_latest_comment_found, asks_repair_rechecked};
}

pub broadcast proof fn asks_repair_closed(
    before: Seq<Event>,
    after: Seq<Event>,
    config: AppConfigView,
    github: GitHubContextView,
    target: u64,
    plan: RepairPlanView,
    changed: usize,
    diagnostics: Diagnostics,
    r: Result<RepairSummary, Seq<CauseView>>,
)
    requires
        #[trigger] repair::repair_closed(
            before,
            after,
            config,
            github,
            target,
            plan,
            changed,
            diagnostics,
            r,
        ),
    ensures
        quiet::quiet(before, after),
{
    broadcast use {crate::quiet::group_quiet, asks_repair_validated, lemma_phase_said};
}

pub broadcast proof fn asks_plain_rev_resolved(
    before: Seq<Event>,
    after: Seq<Event>,
    input: Seq<char>,
    refused: Seq<CauseView>,
    r: Result<MergeTargetView, Seq<CauseView>>,
)
    requires
        #[trigger] revsets::plain_rev_resolved(before, after, input, refused, r),
    ensures
        quiet::quiet(before, after),
{
    broadcast use crate::quiet::group_quiet;
}

pub broadcast proof fn asks_parsed_target_resolved(
    before: Seq<Event>,
    after: Seq<Event>,
    input: Seq<char>,
    parsed: GetTargetView,
    r: Result<MergeTargetView, Seq<CauseView>>,
)
    requires
        #[trigger] revsets::parsed_target_resolved(before, after, input, parsed, r),
    ensures
        quiet::quiet(before, after),
{
    broadcast use {crate::quiet::group_quiet, asks_plain_rev_resolved, asks_target_resolved};
}

pub broadcast proof fn asks_merge_target_resolved(
    before: Seq<Event>,
    after: Seq<Event>,
    input: Seq<char>,
    r: Result<MergeTargetView, Seq<CauseView>>,
)
    requires
        #[trigger] revsets::merge_target_resolved(before, after, input, r),
    ensures
        quiet::quiet(before, after),
{
    broadcast use {crate::quiet::group_quiet, asks_github_resolved, asks_parsed_target_resolved};
}

pub broadcast proof fn asks_target_revset_chosen(
    before: Seq<Event>,
    after: Seq<Event>,
    target: Seq<char>,
    r: Result<(Seq<char>, Option<MergeTargetView>), Seq<CauseView>>,
)
    requires
        #[trigger] revsets::target_revset_chosen(before, after, target, r),
    ensures
        quiet::quiet(before, after),
{
    broadcast use {crate::quiet::group_quiet, asks_merge_target_resolved};
}

pub broadcast proof fn asks_revset_chosen(
    before: Seq<Event>,
    after: Seq<Event>,
    target: Option<Seq<char>>,
    r: Result<(Seq<char>, Option<MergeTargetView>), Seq<CauseView>>,
)
    requires
        #[trigger] revsets::revset_chosen(before, after, target, r),
    ensures
        quiet::quiet(before, after),
{
    broadcast use {crate::quiet::group_quiet, asks_target_revset_chosen};
}

pub broadcast proof fn asks_dependency_prs_fetched(
    before: Seq<Event>,
    after: Seq<Event>,
    repo: Seq<char>,
    dependencies: Seq<FrozenDependencyView>,
    r: Result<Seq<GhPrView>, Seq<CauseView>>,
)
    requires
        #[trigger] sync::dependency_prs_fetched(before, after, repo, dependencies, r),
    ensures
        quiet::quiet(before, after),
{
    broadcast use {crate::quiet::group_quiet, asks_prs_walked};
}

pub broadcast proof fn asks_sync_stack_resolved(
    before: Seq<Event>,
    after: Seq<Event>,
    revset: Seq<char>,
    stack: Seq<ResolvedChangeView>,
    bookmarks: Seq<FrozenBookmarkView>,
    r: Result<StackResolutionView, Seq<CauseView>>,
)
    requires
        #[trigger] sync::sync_stack_resolved(before, after, revset, stack, bookmarks, r),
    ensures
        quiet::quiet(before, after),
{
    broadcast use {crate::quiet::group_quiet, asks_purely_frozen_resolved, asks_resolution_made};
}

pub broadcast proof fn asks_blockers_diagnosed(
    before: Seq<Event>,
    after: Seq<Event>,
    remote: Seq<char>,
    rev: Seq<char>,
    number: u64,
    r: Result<CliErrorView, Seq<CauseView>>,
)
    requires
        #[trigger] unfreeze::blockers_diagnosed(before, after, remote, rev, number, r),
    ensures
        quiet::quiet(before, after),
{
    broadcast use {crate::quiet::group_quiet, asks_blockers_searched};
}

pub broadcast proof fn asks_immutability_diagnosed(
    before: Seq<Event>,
    after: Seq<Event>,
    config: AppConfigView,
    rev: Seq<char>,
    number: u64,
    r: Result<CliErrorView, Seq<CauseView>>,
)
    requires
        #[trigger] unfreeze::immutability_diagnosed(before, after, config, rev, number, r),
    ensures
        quiet::quiet(before, after),
{
    broadcast use {crate::quiet::group_quiet, asks_blockers_diagnosed};

    reveal(quiet::quiet);
}

pub broadcast proof fn asks_immutability_reported(
    before: Seq<Event>,
    after: Seq<Event>,
    config: AppConfigView,
    rev: Seq<char>,
    number: u64,
    r: Result<(), Seq<CauseView>>,
)
    requires
        #[trigger] unfreeze::immutability_reported(before, after, config, rev, number, r),
    ensures
        quiet::quiet(before, after),
{
    broadcast use {crate::quiet::group_quiet, asks_immutability_diagnosed};
}

pub broadcast proof fn asks_mutability_verified(
    before: Seq<Event>,
    after: Seq<Event>,
    config: AppConfigView,
    rev: Seq<char>,
    number: u64,
    r: Result<(), Seq<CauseView>>,
)
    requires
        #[trigger] unfreeze::mutability_verified(before, after, config, rev, number, r),
    ensures
        quiet::quiet(before, after),
{
    broadcast use {crate::quiet::group_quiet, asks_immutability_reported};

    reveal(quiet::quiet);
}

} // verus!
