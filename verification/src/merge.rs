//! Merging a stack: trunk is fast-forwarded over all of it with one push.
//!
//! Every pull request gets trunk as its base first, so that GitHub takes the push of trunk for the
//! merge of each of them. The commits stay as they are: nothing is squashed or rebased.

use vstd::prelude::*;

use crate::bookmarks;
use crate::bookmarks::frozen_bookmarks;
use crate::candidates;
use crate::candidates::{resolve_merge_pr, validate_merge_frozen_dependencies};
use crate::cleanup;
use crate::cleanup::{cleanup_merged_branches, sweep_line_text};
use crate::context;
use crate::context::{resolve_stack_context, say_context};
use crate::empty_merge;
use crate::empty_merge::diagnose_empty_targeted_merge;
use crate::error;
use crate::error::{CauseView, Error, phase_error};
use crate::frozen;
use crate::frozen::resolve_stack_resolution;
use crate::get;
use crate::model::{
    AppConfig, AppConfigView, AppContext, AppContextView, Diagnostics, Duplicate, FrozenBookmark,
    FrozenBookmarkView, GhMergePr, GhMergePrView, GitHubContext, GitHubContextView, MergeCandidate,
    MergeCandidateView, MergeTarget, MergeTargetView, PrCacheEntry, PrCacheEntryView,
    ResolvedChange, ResolvedChangeView, StackResolution, StackResolutionView,
};
use crate::polling;
use crate::polling::{settle_candidates_mergeability, verify_prs_merged};
use crate::pr;
use crate::pr::hash_text;
use crate::ready;
use crate::ready::{mergeability_unknown, validate_pr_ready_for_merge};
use crate::record;
use crate::record::Event;
use crate::shell::Host;
use crate::shell::wire::Shell;
use crate::stack;
use crate::stack::{resolve_single_rev, resolve_stack, validate_stack_shape};
use crate::submit;
use crate::submit::{SubmitSummary, submit_stack};
use crate::text;
use crate::text::{cat3, cat7, copy_list, number_text, same_ignoring_case};
use crate::trunk;
use crate::trunk::{fast_forward_trunk_over_stack, repoint_pr_base, reset_working_copy_to_trunk};
use crate::ui;
use crate::ui::{say_step, ui_finish_progress_bar};

verus! {

broadcast use crate::record::group_record;

/// What a merge amounted to.
#[derive(Clone, Copy, PartialEq, Eq)]
pub struct MergeSummary {
    pub checked_prs: usize,
    pub merged_prs: usize,
    pub local_updates: usize,
    pub submit_runs: usize,
    pub cleaned_branches: usize,
}

pub open spec fn no_merge() -> MergeSummary {
    MergeSummary {
        checked_prs: 0,
        merged_prs: 0,
        local_updates: 0,
        submit_runs: 0,
        cleaned_branches: 0,
    }
}

fn new_summary() -> (r: MergeSummary)
    ensures
        r == no_merge(),
{
    MergeSummary {
        checked_prs: 0,
        merged_prs: 0,
        local_updates: 0,
        submit_runs: 0,
        cleaned_branches: 0,
    }
}

// ---------------------------------------------------------------------------
// The end of a merge
// ---------------------------------------------------------------------------

/// The record from `before` to `after` holds the reset of the working copy.
pub open spec fn merge_reset(
    before: Seq<Event>,
    after: Seq<Event>,
    trunk: Seq<char>,
    summary: MergeSummary,
    r: Result<MergeSummary, Seq<CauseView>>,
) -> bool {
    &&& record::called(before, after, "jj"@, get::new_args(trunk))
    &&& r == match trunk::done_or_failed("jj"@, get::new_args(trunk), record::last_reply(after)) {
        Ok(_) => Ok::<MergeSummary, Seq<CauseView>>(summary),
        Err(e) => Err(error::phase_failure("reset-working-copy"@, trunk, e)),
    }
}

/// The record from `before` to `after` holds the removal of the merged branches and what follows.
pub open spec fn merge_cleaned(
    before: Seq<Event>,
    after: Seq<Event>,
    config: AppConfigView,
    repo: Seq<char>,
    branches: Seq<Seq<char>>,
    summary: MergeSummary,
    diagnostics: Diagnostics,
    r: Result<MergeSummary, Seq<CauseView>>,
) -> bool {
    exists|mid: Seq<Event>, gone: usize|
        {
            &&& #[trigger] cleanup::merged_branches_cleaned(
                before,
                mid,
                config.remote,
                repo,
                branches,
                diagnostics,
                gone,
            )
            &&& merge_reset(
                mid + ui::phase_said(diagnostics, "reset-working-copy"@),
                after,
                config.trunk,
                MergeSummary { cleaned_branches: gone, ..summary },
                r,
            )
        }
}

fn clean_merge<H: Host>(
    sh: &mut Shell<H>,
    config: &AppConfig,
    github: &GitHubContext,
    branches: &Vec<String>,
    summary: MergeSummary,
    diagnostics: Diagnostics,
) -> (r: Result<MergeSummary, Error>)
    ensures
        record::extends(old(sh).log(), final(sh).log()),
        merge_cleaned(
            old(sh).log(),
            final(sh).log(),
            config@,
            github@.repo,
            branches.deep_view(),
            summary,
            diagnostics,
            error::res_of(r),
        ),
{
    let gone = cleanup_merged_branches(sh, config, github, branches, diagnostics);
    assert(cleanup::merged_branches_cleaned(
        old(sh).log(),
        sh.log(),
        config@.remote,
        github@.repo,
        branches.deep_view(),
        diagnostics,
        gone,
    ));
    let mut summary = summary;
    summary.cleaned_branches = gone;
    diagnostics.phase(sh, "reset-working-copy");
    match reset_working_copy_to_trunk(sh, config) {
        Ok(_) => Ok(summary),
        Err(error) => Err(phase_error("reset-working-copy", &config.trunk, error)),
    }
}

/// The record from `before` to `after` holds the wait for GitHub and, once every pull request is marked
/// as merged, what follows.
pub open spec fn merge_verified(
    before: Seq<Event>,
    after: Seq<Event>,
    config: AppConfigView,
    repo: Seq<char>,
    numbers: Seq<u64>,
    branches: Seq<Seq<char>>,
    summary: MergeSummary,
    diagnostics: Diagnostics,
    r: Result<MergeSummary, Seq<CauseView>>,
) -> bool {
    exists|mid: Seq<Event>, merged: Result<(), Seq<CauseView>>|
        {
            &&& #[trigger] polling::merges_verified(before, mid, repo, numbers, diagnostics, merged)
            &&& match merged {
                Err(e) => record::stopped(mid, after, error::phase_failure("verify-merge"@, repo, e), r),
                Ok(_) => merge_cleaned(
                    mid,
                    after,
                    config,
                    repo,
                    branches,
                    MergeSummary { merged_prs: numbers.len() as usize, ..summary },
                    diagnostics,
                    r,
                ),
            }
        }
}

fn verify_merge<H: Host>(
    sh: &mut Shell<H>,
    config: &AppConfig,
    github: &GitHubContext,
    numbers: &Vec<u64>,
    branches: &Vec<String>,
    summary: MergeSummary,
    diagnostics: Diagnostics,
) -> (r: Result<MergeSummary, Error>)
    ensures
        record::extends(old(sh).log(), final(sh).log()),
        merge_verified(
            old(sh).log(),
            final(sh).log(),
            config@,
            github@.repo,
            numbers@,
            branches.deep_view(),
            summary,
            diagnostics,
            error::res_of(r),
        ),
{
    let merged = verify_prs_merged(sh, github, numbers, diagnostics);
    let ghost seen = error::res_of(merged);
    assert(polling::merges_verified(
        old(sh).log(),
        sh.log(),
        github@.repo,
        numbers@,
        diagnostics,
        seen,
    ));
    match merged {
        Err(error) => Err(phase_error("verify-merge", &github.repo, error)),
        Ok(_) => {
            let mut summary = summary;
            summary.merged_prs = numbers.len();
            clean_merge(sh, config, github, branches, summary, diagnostics)
        },
    }
}

/// The record from `before` to `after` holds the one push of trunk and what follows.
pub open spec fn merge_pushed(
    before: Seq<Event>,
    after: Seq<Event>,
    config: AppConfigView,
    repo: Seq<char>,
    top: Seq<char>,
    numbers: Seq<u64>,
    branches: Seq<Seq<char>>,
    summary: MergeSummary,
    diagnostics: Diagnostics,
    r: Result<MergeSummary, Seq<CauseView>>,
) -> bool {
    exists|mid: Seq<Event>, done: Result<(), Seq<CauseView>>|
        {
            &&& #[trigger] trunk::trunk_fast_forwarded(
                before + ui::phase_said(diagnostics, "merge-push"@),
                mid,
                config,
                top,
                diagnostics,
                done,
            )
            &&& match done {
                Err(e) => record::stopped(mid, after, error::phase_failure("merge-push"@, config.trunk, e), r),
                Ok(_) => merge_verified(
                    mid,
                    after,
                    config,
                    repo,
                    numbers,
                    branches,
                    MergeSummary { submit_runs: 1, ..summary },
                    diagnostics,
                    r,
                ),
            }
        }
}

fn push_merge<H: Host>(
    sh: &mut Shell<H>,
    config: &AppConfig,
    github: &GitHubContext,
    top: &str,
    numbers: &Vec<u64>,
    branches: &Vec<String>,
    summary: MergeSummary,
    diagnostics: Diagnostics,
) -> (r: Result<MergeSummary, Error>)
    ensures
        record::extends(old(sh).log(), final(sh).log()),
        merge_pushed(
            old(sh).log(),
            final(sh).log(),
            config@,
            github@.repo,
            top@,
            numbers@,
            branches.deep_view(),
            summary,
            diagnostics,
            error::res_of(r),
        ),
{
    let ghost start = sh.log();
    diagnostics.phase(sh, "merge-push");
    let done = fast_forward_trunk_over_stack(sh, config, top, diagnostics);
    let ghost seen = error::res_of(done);
    assert(trunk::trunk_fast_forwarded(
        start + ui::phase_said(diagnostics, "merge-push"@),
        sh.log(),
        config@,
        top@,
        diagnostics,
        seen,
    ));
    match done {
        Err(error) => Err(phase_error("merge-push", &config.trunk, error)),
        Ok(_) => {
            let mut summary = summary;
            summary.submit_runs = 1;
            verify_merge(sh, config, github, numbers, branches, summary, diagnostics)
        },
    }
}

// ---------------------------------------------------------------------------
// The verdict
// ---------------------------------------------------------------------------

/// What stands against the merge of the candidates from the place `at` on: the first refusal.
pub open spec fn verdict_from(
    config: AppConfigView,
    candidates: Seq<MergeCandidateView>,
    at: int,
    admin: bool,
) -> Option<Seq<CauseView>>
    decreases candidates.len() - at,
{
    if at >= candidates.len() {
        None
    } else {
        let c = candidates[at];
        match ready::merge_fault(config, c.change, c.entry, c.pr, admin) {
            Some(message) => Some(
                error::phase_failure("merge-pr-check"@, pr::hash(c.entry.pr_number), error::plain(message)),
            ),
            None => verdict_from(config, candidates, at + 1, admin),
        }
    }
}

pub open spec fn verdict(
    config: AppConfigView,
    candidates: Seq<MergeCandidateView>,
    admin: bool,
) -> Option<Seq<CauseView>> {
    verdict_from(config, candidates, 0, admin)
}

fn judge_candidates(config: &AppConfig, candidates: &Vec<MergeCandidate>, admin: bool) -> (r: Result<
    (),
    Error,
>)
    ensures
        error::res_of(r) == match verdict(config@, candidates.deep_view(), admin) {
            Some(e) => Err(e),
            None => Ok(()),
        },
{
    let ghost all = candidates.deep_view();
    let mut i: usize = 0;
    while i < candidates.len()
        invariant
            i <= candidates@.len(),
            all == candidates.deep_view(),
            verdict(config@, all, admin) == verdict_from(config@, all, i as int, admin),
        decreases candidates@.len() - i,
    {
        let c = &candidates[i];
        assert(all[i as int] == c@);
        match validate_pr_ready_for_merge(config, &c.change, &c.entry, &c.pr, admin) {
            Err(error) => return Err(
                phase_error("merge-pr-check", &hash_text(c.entry.pr_number), error),
            ),
            Ok(_) => {},
        }
        i = i + 1;
    }
    Ok(())
}

pub open spec fn candidate_numbers(candidates: Seq<MergeCandidateView>) -> Seq<u64> {
    candidates.map_values(|c: MergeCandidateView| c.entry.pr_number)
}

pub open spec fn candidate_branches(candidates: Seq<MergeCandidateView>) -> Seq<Seq<char>> {
    candidates.map_values(|c: MergeCandidateView| c.pr.head_ref_name)
}

fn list_numbers(candidates: &Vec<MergeCandidate>) -> (r: Vec<u64>)
    ensures
        r@ == candidate_numbers(candidates.deep_view()),
{
    let mut numbers: Vec<u64> = Vec::new();
    let mut i: usize = 0;
    while i < candidates.len()
        invariant
            i <= candidates@.len(),
            numbers@.len() == i,
            forall|k: int| 0 <= k < i ==> numbers@[k] == candidates@[k]@.entry.pr_number,
        decreases candidates@.len() - i,
    {
        numbers.push(candidates[i].entry.pr_number);
        i = i + 1;
    }
    assert(numbers@ =~= candidate_numbers(candidates.deep_view()));
    numbers
}

fn list_branches(merged: &Vec<String>, candidates: &Vec<MergeCandidate>) -> (r: Vec<String>)
    ensures
        r.deep_view() == merged.deep_view() + candidate_branches(candidates.deep_view()),
{
    let mut branches = copy_list(merged);
    let ghost want = merged.deep_view() + candidate_branches(candidates.deep_view());
    let mut i: usize = 0;
    let ghost m = merged.deep_view().len() as int;
    assert(want.take(m) =~= merged.deep_view());
    while i < candidates.len()
        invariant
            i <= candidates@.len(),
            m == merged.deep_view().len(),
            want == merged.deep_view() + candidate_branches(candidates.deep_view()),
            branches.deep_view() == want.take(m + i),
        decreases candidates@.len() - i,
    {
        let ghost before = branches.deep_view();
        let name = candidates[i].pr.head_ref_name.clone();
        assert(want[m + i] == name@);
        let ghost put = name@;
        branches.push(name);
        assert(branches.deep_view() =~= before.push(put));
        assert(want.take(m + i + 1) =~= want.take(m + i).push(put));
        i = i + 1;
    }
    assert(want.take(m + i) =~= want);
    branches
}

pub open spec fn expected_rows(numbers: Seq<u64>) -> Seq<Seq<char>> {
    numbers.map_values(|n: u64| "- expect "@ + pr::hash(n) + " to be marked merged"@)
}

pub open spec fn swept_rows(remote: Seq<char>, branches: Seq<Seq<char>>) -> Seq<Seq<char>> {
    branches.map_values(|b: Seq<char>| cleanup::sweep_line(remote, b))
}

/// The plan of a merge.
pub open spec fn merge_plan(
    config: AppConfigView,
    top: ResolvedChangeView,
    numbers: Seq<u64>,
    branches: Seq<Seq<char>>,
) -> Seq<Seq<char>> {
    seq![
        "- fast-forward trunk `"@ + config.trunk + "` to "@ + top.change_id + " ("@ + top.commit_id
            + ")"@,
        "- push trunk `"@ + config.trunk + "` to "@ + config.remote
            + " in a single push; GitHub auto-merges "@ + text::decimal(numbers.len())
            + " PR(s) by reachability"@,
    ] + expected_rows(numbers) + swept_rows(config.remote, branches)
}

pub fn render_merge_plan(
    config: &AppConfig,
    top: &ResolvedChange,
    numbers: &Vec<u64>,
    branches: &Vec<String>,
) -> (r: Vec<String>)
    ensures
        r.deep_view() == merge_plan(config@, top@, numbers@, branches.deep_view()),
{
    let mut rows: Vec<String> = Vec::new();
    rows.push(
        cat7(
            "- fast-forward trunk `",
            &config.trunk,
            "` to ",
            &top.change_id,
            " (",
            &top.commit_id,
            ")",
        ),
    );
    rows.push(
        cat7(
            "- push trunk `",
            &config.trunk,
            "` to ",
            &config.remote,
            " in a single push; GitHub auto-merges ",
            &number_text(numbers.len() as u64),
            " PR(s) by reachability",
        ),
    );
    let ghost want = merge_plan(config@, top@, numbers@, branches.deep_view());
    let n: usize = numbers.len();
    assert(rows.deep_view() =~= want.take(2));
    let mut i: usize = 0;
    while i < numbers.len()
        invariant
            n == numbers@.len(),
            i <= n,
            want == merge_plan(config@, top@, numbers@, branches.deep_view()),
            rows.deep_view() == want.take(2 + i),
        decreases n - i,
    {
        let ghost before = rows.deep_view();
        let row = cat3("- expect ", &hash_text(numbers[i]), " to be marked merged");
        assert(want[2 + i] == expected_rows(numbers@)[i as int]);
        let ghost put = row@;
        rows.push(row);
        assert(rows.deep_view() =~= before.push(put));
        assert(want.take(2 + i + 1) =~= want.take(2 + i).push(put));
        i = i + 1;
    }
    let mut k: usize = 0;
    while k < branches.len()
        invariant
            n == numbers@.len(),
            k <= branches@.len(),
            want == merge_plan(config@, top@, numbers@, branches.deep_view()),
            rows.deep_view() == want.take(2 + n + k),
        decreases branches@.len() - k,
    {
        let ghost before = rows.deep_view();
        let row = sweep_line_text(&config.remote, &branches[k]);
        assert(want[2 + n + k] == swept_rows(config@.remote, branches.deep_view())[k as int]);
        let ghost put = row@;
        rows.push(row);
        assert(rows.deep_view() =~= before.push(put));
        assert(want.take(2 + n + k + 1) =~= want.take(2 + n + k).push(put));
        k = k + 1;
    }
    assert(want.take(2 + n + k) =~= want);
    rows
}

/// The record from `before` to `after` holds what the candidates lead to: the first refusal ends the
/// merge, a dry run shows the plan, and otherwise trunk is pushed.
pub open spec fn merge_judged(
    before: Seq<Event>,
    after: Seq<Event>,
    config: AppConfigView,
    context: AppContextView,
    candidates: Seq<MergeCandidateView>,
    merged: Seq<Seq<char>>,
    updates: usize,
    admin: bool,
    diagnostics: Diagnostics,
    r: Result<MergeSummary, Seq<CauseView>>,
) -> bool {
    let numbers = candidate_numbers(candidates);
    let branches = merged + candidate_branches(candidates);
    let summary = MergeSummary {
        checked_prs: candidates.len() as usize,
        local_updates: updates,
        ..no_merge()
    };
    match verdict(config, candidates, admin) {
        Some(e) => record::stopped(before, after, e, r),
        None => if candidates.len() == 0 {
            after == before && r == Ok::<MergeSummary, Seq<CauseView>>(summary)
        } else if diagnostics.dry_run {
            after == before + ui::plan_rows_said(
                diagnostics,
                merge_plan(config, context.stack.last(), numbers, branches),
            ) && r == Ok::<MergeSummary, Seq<CauseView>>(summary)
        } else {
            merge_pushed(
                before,
                after,
                config,
                context.github.repo,
                context.stack.last().commit_id,
                numbers,
                branches,
                summary,
                diagnostics,
                r,
            )
        },
    }
}

fn judge_merge<H: Host>(
    sh: &mut Shell<H>,
    config: &AppConfig,
    context: &AppContext,
    candidates: &Vec<MergeCandidate>,
    merged: &Vec<String>,
    updates: usize,
    admin: bool,
    diagnostics: Diagnostics,
) -> (r: Result<MergeSummary, Error>)
    requires
        context.stack@.len() > 0,
    ensures
        record::extends(old(sh).log(), final(sh).log()),
        merge_judged(
            old(sh).log(),
            final(sh).log(),
            config@,
            context@,
            candidates.deep_view(),
            merged.deep_view(),
            updates,
            admin,
            diagnostics,
            error::res_of(r),
        ),
{
    match judge_candidates(config, candidates, admin) {
        Err(error) => return Err(error),
        Ok(_) => {},
    }
    let numbers = list_numbers(candidates);
    let branches = list_branches(merged, candidates);
    let count: usize = candidates.len();
    let mut summary = new_summary();
    summary.checked_prs = count;
    summary.local_updates = updates;
    if count == 0 {
        return Ok(summary);
    }
    let last: usize = context.stack.len() - 1;
    let top = &context.stack[last];
    assert(context@.stack.last() == top@);
    if diagnostics.dry_run {
        let rows = render_merge_plan(config, top, &numbers, &branches);
        diagnostics.plan_lines(sh, &rows);
        return Ok(summary);
    }
    push_merge(
        sh,
        config,
        &context.github,
        &top.commit_id,
        &numbers,
        &branches,
        summary,
        diagnostics,
    )
}

// ---------------------------------------------------------------------------
// Preparing the candidates
// ---------------------------------------------------------------------------

/// What one change brings to a merge: a branch that is merged already, or a candidate, and whether its
/// base was changed.
pub enum Prepared {
    Merged(String),
    Open(MergeCandidate, bool),
}

pub enum PreparedView {
    Merged(Seq<char>),
    Open(MergeCandidateView, bool),
}

impl View for Prepared {
    type V = PreparedView;

    open spec fn view(&self) -> PreparedView {
        match self {
            Prepared::Merged(branch) => PreparedView::Merged(branch@),
            Prepared::Open(candidate, repointed) => PreparedView::Open(candidate@, *repointed),
        }
    }
}

impl DeepView for Prepared {
    type V = PreparedView;

    open spec fn deep_view(&self) -> PreparedView {
        self@
    }
}

/// A candidate whose base was changed: a dry run takes the change for done, otherwise GitHub is asked
/// anew.
pub open spec fn repointed_candidate(
    change: ResolvedChangeView,
    entry: PrCacheEntryView,
    pr: GhMergePrView,
    trunk: Seq<char>,
    dry_run: bool,
) -> MergeCandidateView {
    if dry_run {
        MergeCandidateView {
            change,
            entry,
            pr: GhMergePrView { base_ref_name: trunk, ..pr },
            needs_settle: false,
        }
    } else {
        MergeCandidateView { change, entry, pr, needs_settle: true }
    }
}

pub open spec fn candidate_repointed(
    before: Seq<Event>,
    after: Seq<Event>,
    trunk: Seq<char>,
    repo: Seq<char>,
    change: ResolvedChangeView,
    entry: PrCacheEntryView,
    pr: GhMergePrView,
    diagnostics: Diagnostics,
    r: Result<PreparedView, Seq<CauseView>>,
) -> bool {
    exists|done: Result<(), Seq<CauseView>>|
        {
            &&& #[trigger] trunk::base_repointed(
                before,
                after,
                repo,
                entry.pr_number,
                trunk,
                diagnostics,
                done,
            )
            &&& r == match done {
                Err(e) => Err::<PreparedView, Seq<CauseView>>(
                    error::phase_failure("merge-repoint-base"@, pr::hash(entry.pr_number), e),
                ),
                Ok(_) => Ok(
                    PreparedView::Open(
                        repointed_candidate(change, entry, pr, trunk, diagnostics.dry_run),
                        true,
                    ),
                ),
            }
        }
}

/// The record from `before` to `after` holds what is done to a pull request before its merge: one that
/// does not go to trunk is made to.
pub open spec fn pr_prepared(
    before: Seq<Event>,
    after: Seq<Event>,
    trunk: Seq<char>,
    repo: Seq<char>,
    change: ResolvedChangeView,
    entry: PrCacheEntryView,
    pr: GhMergePrView,
    diagnostics: Diagnostics,
    r: Result<PreparedView, Seq<CauseView>>,
) -> bool {
    if text::lower_all(pr.state) == text::lower_all("MERGED"@) {
        after == before && r == Ok::<PreparedView, Seq<CauseView>>(
            PreparedView::Merged(pr.head_ref_name),
        )
    } else if text::lower_all(pr.base_ref_name) != text::lower_all(trunk) {
        candidate_repointed(before, after, trunk, repo, change, entry, pr, diagnostics, r)
    } else {
        after == before && r == Ok::<PreparedView, Seq<CauseView>>(
            PreparedView::Open(
                MergeCandidateView {
                    change,
                    entry,
                    pr,
                    needs_settle: !diagnostics.dry_run && ready::is_unsettled(pr),
                },
                false,
            ),
        )
    }
}

fn prepare_pr<H: Host>(
    sh: &mut Shell<H>,
    config: &AppConfig,
    github: &GitHubContext,
    change: &ResolvedChange,
    entry: PrCacheEntry,
    pr: GhMergePr,
    diagnostics: Diagnostics,
) -> (r: Result<Prepared, Error>)
    ensures
        record::extends(old(sh).log(), final(sh).log()),
        pr_prepared(
            old(sh).log(),
            final(sh).log(),
            config@.trunk,
            github@.repo,
            change@,
            entry@,
            pr@,
            diagnostics,
            error::res(r),
        ),
{
    if same_ignoring_case(&pr.state, "MERGED") {
        return Ok(Prepared::Merged(pr.head_ref_name));
    }
    let change = change.copy();
    if same_ignoring_case(&pr.base_ref_name, &config.trunk) {
        let needs_settle = !diagnostics.dry_run && mergeability_unknown(&pr);
        return Ok(Prepared::Open(MergeCandidate { change, entry, pr, needs_settle }, false));
    }
    let done = repoint_pr_base(sh, github, entry.pr_number, &config.trunk, diagnostics);
    let ghost seen = error::res_of(done);
    assert(trunk::base_repointed(
        old(sh).log(),
        sh.log(),
        github@.repo,
        entry@.pr_number,
        config@.trunk,
        diagnostics,
        seen,
    ));
    match done {
        Err(error) => Err(phase_error("merge-repoint-base", &hash_text(entry.pr_number), error)),
        Ok(_) => {
            let mut pr = pr;
            if diagnostics.dry_run {
                pr.base_ref_name = config.trunk.clone();
            }
            Ok(
                Prepared::Open(
                    MergeCandidate { change, entry, pr, needs_settle: !diagnostics.dry_run },
                    true,
                ),
            )
        },
    }
}

/// The record from `before` to `after` holds how one change is prepared for the merge.
pub open spec fn change_prepared(
    before: Seq<Event>,
    after: Seq<Event>,
    config: AppConfigView,
    github: GitHubContextView,
    change: ResolvedChangeView,
    diagnostics: Diagnostics,
    r: Result<PreparedView, Seq<CauseView>>,
) -> bool {
    exists|mid: Seq<Event>, got: Result<(PrCacheEntryView, GhMergePrView), Seq<CauseView>>|
        {
            &&& #[trigger] candidates::candidate_resolved(before, mid, config, github, change, got)
            &&& match got {
                Err(e) => record::stopped(
                    mid,
                    after,
                    error::phase_failure("merge-pr-lookup"@, change.change_id, e),
                    r,
                ),
                Ok((entry, pr)) => pr_prepared(
                    mid,
                    after,
                    config.trunk,
                    github.repo,
                    change,
                    entry,
                    pr,
                    diagnostics,
                    r,
                ),
            }
        }
}

fn prepare_change<H: Host>(
    sh: &mut Shell<H>,
    config: &AppConfig,
    github: &GitHubContext,
    change: &ResolvedChange,
    diagnostics: Diagnostics,
) -> (r: Result<Prepared, Error>)
    ensures
        record::extends(old(sh).log(), final(sh).log()),
        change_prepared(
            old(sh).log(),
            final(sh).log(),
            config@,
            github@,
            change@,
            diagnostics,
            error::res(r),
        ),
{
    let got = resolve_merge_pr(sh, config, github, change);
    let ghost seen = error::res(got);
    assert(candidates::candidate_resolved(old(sh).log(), sh.log(), config@, github@, change@, seen));
    match got {
        Err(error) => Err(phase_error("merge-pr-lookup", &change.change_id, error)),
        Ok((entry, pr)) => prepare_pr(sh, config, github, change, entry, pr, diagnostics),
    }
}

/// What the changes so far bring to a merge.
pub struct Pass {
    pub candidates: Vec<MergeCandidate>,
    pub merged: Vec<String>,
    pub updates: usize,
}

#[verifier::ext_equal]
pub struct PassView {
    pub candidates: Seq<MergeCandidateView>,
    pub merged: Seq<Seq<char>>,
    pub updates: usize,
}

impl View for Pass {
    type V = PassView;

    open spec fn view(&self) -> PassView {
        PassView {
            candidates: self.candidates.deep_view(),
            merged: self.merged.deep_view(),
            updates: self.updates,
        }
    }
}

impl DeepView for Pass {
    type V = PassView;

    open spec fn deep_view(&self) -> PassView {
        self@
    }
}

impl PassView {
    /// The same with one change more.
    pub open spec fn with(self, one: PreparedView) -> PassView {
        match one {
            PreparedView::Merged(branch) => PassView { merged: self.merged.push(branch), ..self },
            PreparedView::Open(candidate, repointed) => PassView {
                candidates: self.candidates.push(candidate),
                updates: if repointed {
                    (self.updates + 1) as usize
                } else {
                    self.updates
                },
                ..self
            },
        }
    }
}

pub open spec fn no_pass() -> PassView {
    PassView { candidates: seq![], merged: seq![], updates: 0 }
}

fn add_prepared(pass: Pass, one: Prepared) -> (r: Pass)
    requires
        pass.updates < usize::MAX,
    ensures
        r@ == pass@.with(one@),
        r.updates <= pass.updates + 1,
{
    let mut candidates = pass.candidates;
    let mut merged = pass.merged;
    let mut updates: usize = pass.updates;
    let ghost before = candidates.deep_view();
    let ghost names = merged.deep_view();
    match one {
        Prepared::Merged(branch) => {
            let ghost put = branch@;
            merged.push(branch);
            assert(merged.deep_view() =~= names.push(put));
        },
        Prepared::Open(candidate, repointed) => {
            let ghost put = candidate@;
            candidates.push(candidate);
            assert(candidates.deep_view() =~= before.push(put));
            if repointed {
                updates = updates + 1;
            }
        },
    }
    Pass { candidates, merged, updates }
}

/// The record from `before` to `after` holds how each change is prepared in turn.
pub open spec fn changes_prepared(
    before: Seq<Event>,
    after: Seq<Event>,
    config: AppConfigView,
    github: GitHubContextView,
    stack: Seq<ResolvedChangeView>,
    at: int,
    pass: PassView,
    steps: bool,
    diagnostics: Diagnostics,
    r: Result<PassView, Seq<CauseView>>,
) -> bool
    decreases stack.len() - at,
{
    if at >= stack.len() {
        after == before && r == Ok::<_, Seq<CauseView>>(pass)
    } else {
        exists|mid: Seq<Event>, got: Result<PreparedView, Seq<CauseView>>|
            {
                &&& #[trigger] change_prepared(
                    before,
                    mid,
                    config,
                    github,
                    stack[at],
                    diagnostics,
                    got,
                )
                &&& match got {
                    Err(e) => record::stopped(mid, after, e, r),
                    Ok(one) => changes_prepared(
                        mid + ui::step_said(steps, (at + 1) as usize),
                        after,
                        config,
                        github,
                        stack,
                        at + 1,
                        pass.with(one),
                        steps,
                        diagnostics,
                        r,
                    ),
                }
            }
    }
}

fn prepare_changes<H: Host>(
    sh: &mut Shell<H>,
    config: &AppConfig,
    github: &GitHubContext,
    stack: &Vec<ResolvedChange>,
    at: usize,
    pass: Pass,
    steps: bool,
    diagnostics: Diagnostics,
) -> (r: Result<Pass, Error>)
    requires
        at <= stack@.len(),
        pass.updates <= at,
    ensures
        record::extends(old(sh).log(), final(sh).log()),
        changes_prepared(
            old(sh).log(),
            final(sh).log(),
            config@,
            github@,
            stack.deep_view(),
            at as int,
            pass@,
            steps,
            diagnostics,
            error::res(r),
        ),
    decreases stack@.len() - at,
{
    let n: usize = stack.len();
    if at == n {
        return Ok(pass);
    }
    let ghost start = sh.log();
    assert(stack.deep_view()[at as int] == stack@[at as int]@);
    let got = prepare_change(sh, config, github, &stack[at], diagnostics);
    let ghost mid = sh.log();
    let ghost seen = error::res(got);
    assert(change_prepared(
        start,
        mid,
        config@,
        github@,
        stack.deep_view()[at as int],
        diagnostics,
        seen,
    ));
    let one = match got {
        Ok(one) => one,
        Err(error) => return Err(error),
    };
    say_step(sh, steps, at + 1);
    let pass = add_prepared(pass, one);
    prepare_changes(sh, config, github, stack, at + 1, pass, steps, diagnostics)
}

pub open spec fn all_changes_prepared(
    before: Seq<Event>,
    after: Seq<Event>,
    config: AppConfigView,
    context: AppContextView,
    diagnostics: Diagnostics,
    r: Result<PassView, Seq<CauseView>>,
) -> bool {
    changes_prepared(
        before + ui::steps_said(diagnostics, "Checking"@, "PRs"@, context.stack.len() as usize),
        after,
        config,
        context.github,
        context.stack,
        0,
        no_pass(),
        diagnostics.shows_steps(context.stack.len()),
        diagnostics,
        r,
    )
}

/// The record from `before` to `after` holds the preparation of the whole stack.
pub open spec fn stack_prepared(
    before: Seq<Event>,
    after: Seq<Event>,
    config: AppConfigView,
    context: AppContextView,
    diagnostics: Diagnostics,
    r: Result<PassView, Seq<CauseView>>,
) -> bool {
    exists|mid: Seq<Event>|
        {
            &&& #[trigger] all_changes_prepared(before, mid, config, context, diagnostics, r)
            &&& after == mid + ui::steps_ended(diagnostics.shows_steps(context.stack.len()))
        }
}

fn prepare_stack<H: Host>(
    sh: &mut Shell<H>,
    config: &AppConfig,
    context: &AppContext,
    diagnostics: Diagnostics,
) -> (r: Result<Pass, Error>)
    ensures
        record::extends(old(sh).log(), final(sh).log()),
        stack_prepared(
            old(sh).log(),
            final(sh).log(),
            config@,
            context@,
            diagnostics,
            error::res(r),
        ),
{
    let ghost start = sh.log();
    let steps = diagnostics.progress_bar(sh, "Checking", "PRs", context.stack.len());
    let pass = Pass { candidates: Vec::new(), merged: Vec::new(), updates: 0 };
    assert(pass@ =~= no_pass());
    let r = prepare_changes(
        sh,
        config,
        &context.github,
        &context.stack,
        0,
        pass,
        steps,
        diagnostics,
    );
    assert(all_changes_prepared(start, sh.log(), config@, context@, diagnostics, error::res(r)));
    ui_finish_progress_bar(sh, steps);
    r
}

// ---------------------------------------------------------------------------
// The whole merge
// ---------------------------------------------------------------------------

/// The record from `before` to `after` holds how the candidates settle, and then the verdict.
pub open spec fn merge_settled(
    before: Seq<Event>,
    after: Seq<Event>,
    config: AppConfigView,
    context: AppContextView,
    pass: PassView,
    admin: bool,
    diagnostics: Diagnostics,
    r: Result<MergeSummary, Seq<CauseView>>,
) -> bool {
    exists|mid: Seq<Event>, settled: Result<Seq<MergeCandidateView>, Seq<CauseView>>|
        {
            &&& #[trigger] polling::candidates_settled(
                before,
                mid,
                context.github.repo,
                pass.candidates,
                diagnostics,
                settled,
            )
            &&& match settled {
                Err(e) => record::stopped(mid, after, error::phase_failure("merge-pr-lookup"@, "stack"@, e), r),
                Ok(candidates) => merge_judged(
                    mid,
                    after,
                    config,
                    context,
                    candidates,
                    pass.merged,
                    pass.updates,
                    admin,
                    diagnostics,
                    r,
                ),
            }
        }
}

fn settle_merge<H: Host>(
    sh: &mut Shell<H>,
    config: &AppConfig,
    context: &AppContext,
    pass: Pass,
    admin: bool,
    diagnostics: Diagnostics,
) -> (r: Result<MergeSummary, Error>)
    requires
        context.stack@.len() > 0,
    ensures
        record::extends(old(sh).log(), final(sh).log()),
        merge_settled(
            old(sh).log(),
            final(sh).log(),
            config@,
            context@,
            pass@,
            admin,
            diagnostics,
            error::res_of(r),
        ),
{
    let mut candidates = pass.candidates;
    let settled = settle_candidates_mergeability(
        sh,
        &context.github,
        &mut candidates,
        diagnostics,
    );
    let ghost seen = polling::rounds_parts(settled, candidates.deep_view());
    assert(polling::candidates_settled(
        old(sh).log(),
        sh.log(),
        context@.github.repo,
        pass@.candidates,
        diagnostics,
        seen,
    ));
    match settled {
        Err(error) => Err(phase_error("merge-pr-lookup", "stack", error)),
        Ok(_) => judge_merge(
            sh,
            config,
            context,
            &candidates,
            &pass.merged,
            pass.updates,
            admin,
            diagnostics,
        ),
    }
}

#[verifier::opaque]
pub open spec fn merge_prepared(
    before: Seq<Event>,
    after: Seq<Event>,
    config: AppConfigView,
    context: AppContextView,
    admin: bool,
    diagnostics: Diagnostics,
    r: Result<MergeSummary, Seq<CauseView>>,
) -> bool {
    exists|mid: Seq<Event>, pass: Result<PassView, Seq<CauseView>>|
        {
            &&& #[trigger] stack_prepared(before, mid, config, context, diagnostics, pass)
            &&& match pass {
                Err(e) => record::stopped(mid, after, e, r),
                Ok(pass) => merge_settled(
                    mid,
                    after,
                    config,
                    context,
                    pass,
                    admin,
                    diagnostics,
                    r,
                ),
            }
        }
}

fn prepare_merge<H: Host>(
    sh: &mut Shell<H>,
    config: &AppConfig,
    context: &AppContext,
    admin: bool,
    diagnostics: Diagnostics,
) -> (r: Result<MergeSummary, Error>)
    requires
        context.stack@.len() > 0,
    ensures
        record::extends(old(sh).log(), final(sh).log()),
        merge_prepared(
            old(sh).log(),
            final(sh).log(),
            config@,
            context@,
            admin,
            diagnostics,
            error::res_of(r),
        ),
{
    proof {
        reveal(merge_prepared);
    }
    let prepared = prepare_stack(sh, config, context, diagnostics);
    let ghost seen = error::res(prepared);
    assert(stack_prepared(old(sh).log(), sh.log(), config@, context@, diagnostics, seen));
    match prepared {
        Err(error) => Err(error),
        Ok(pass) => settle_merge(sh, config, context, pass, admin, diagnostics),
    }
}

pub open spec fn merge_based(
    before: Seq<Event>,
    after: Seq<Event>,
    config: AppConfigView,
    context: AppContextView,
    bottom: GhMergePrView,
    admin: bool,
    diagnostics: Diagnostics,
    r: Result<MergeSummary, Seq<CauseView>>,
) -> bool {
    exists|mid: Seq<Event>, free: Result<(), Seq<CauseView>>|
        {
            &&& #[trigger] candidates::merge_dependencies_checked(
                before,
                mid,
                config.trunk,
                context,
                bottom,
                free,
            )
            &&& match free {
                Err(e) => record::stopped(
                    mid,
                    after,
                    error::phase_failure("merge-frozen-check"@, pr::hash(bottom.number), e),
                    r,
                ),
                Ok(_) => merge_prepared(mid, after, config, context, admin, diagnostics, r),
            }
        }
}

fn base_merge<H: Host>(
    sh: &mut Shell<H>,
    config: &AppConfig,
    context: &AppContext,
    bottom: &GhMergePr,
    admin: bool,
    diagnostics: Diagnostics,
) -> (r: Result<MergeSummary, Error>)
    requires
        context.stack@.len() > 0,
    ensures
        record::extends(old(sh).log(), final(sh).log()),
        merge_based(
            old(sh).log(),
            final(sh).log(),
            config@,
            context@,
            bottom@,
            admin,
            diagnostics,
            error::res_of(r),
        ),
{
    let free = validate_merge_frozen_dependencies(sh, config, context, bottom);
    let ghost seen = error::res_of(free);
    assert(candidates::merge_dependencies_checked(
        old(sh).log(),
        sh.log(),
        config@.trunk,
        context@,
        bottom@,
        seen,
    ));
    match free {
        Err(error) => Err(phase_error("merge-frozen-check", &hash_text(bottom.number), error)),
        Ok(_) => prepare_merge(sh, config, context, admin, diagnostics),
    }
}

/// The record from `before` to `after` holds the merge of a resolved stack.
pub open spec fn context_merged(
    before: Seq<Event>,
    after: Seq<Event>,
    config: AppConfigView,
    context: AppContextView,
    admin: bool,
    diagnostics: Diagnostics,
    r: Result<MergeSummary, Seq<CauseView>>,
) -> bool {
    exists|mid: Seq<Event>, got: Result<(PrCacheEntryView, GhMergePrView), Seq<CauseView>>|
        {
            &&& #[trigger] candidates::candidate_resolved(
                before + context::context_said(diagnostics.verbose, context),
                mid,
                config,
                context.github,
                context.stack[0],
                got,
            )
            &&& match got {
                Err(e) => record::stopped(
                    mid,
                    after,
                    error::phase_failure("merge-pr-lookup"@, context.stack[0].change_id, e),
                    r,
                ),
                Ok((entry, bottom)) => merge_based(
                    mid,
                    after,
                    config,
                    context,
                    bottom,
                    admin,
                    diagnostics,
                    r,
                ),
            }
        }
}

fn merge_context<H: Host>(
    sh: &mut Shell<H>,
    config: &AppConfig,
    context: &AppContext,
    admin: bool,
    diagnostics: Diagnostics,
) -> (r: Result<MergeSummary, Error>)
    requires
        context.stack@.len() > 0,
    ensures
        record::extends(old(sh).log(), final(sh).log()),
        context_merged(
            old(sh).log(),
            final(sh).log(),
            config@,
            context@,
            admin,
            diagnostics,
            error::res_of(r),
        ),
{
    let ghost start = sh.log();
    say_context(sh, diagnostics.verbose, context);
    let bottom = &context.stack[0];
    assert(context@.stack[0] == bottom@);
    let got = resolve_merge_pr(sh, config, &context.github, bottom);
    let ghost seen = error::res(got);
    assert(candidates::candidate_resolved(
        start + context::context_said(diagnostics.verbose, context@),
        sh.log(),
        config@,
        context@.github,
        context@.stack[0],
        seen,
    ));
    match got {
        Err(error) => Err(phase_error("merge-pr-lookup", &bottom.change_id, error)),
        Ok((_, pr)) => base_merge(sh, config, context, &pr, admin, diagnostics),
    }
}

pub open spec fn resolution_merged(
    before: Seq<Event>,
    after: Seq<Event>,
    config: AppConfigView,
    resolution: StackResolutionView,
    admin: bool,
    diagnostics: Diagnostics,
    r: Result<MergeSummary, Seq<CauseView>>,
) -> bool {
    exists|mid: Seq<Event>, github: Result<GitHubContextView, Seq<CauseView>>|
        {
            &&& #[trigger] context::github_resolved(before, mid, github)
            &&& match github {
                Err(e) => record::stopped(mid, after, error::phase_failure("resolve-github"@, "github"@, e), r),
                Ok(github) => context_merged(
                    mid,
                    after,
                    config,
                    AppContextView {
                        github,
                        stack: resolution.owned,
                        frozen_dependencies: resolution.frozen_dependencies,
                    },
                    admin,
                    diagnostics,
                    r,
                ),
            }
        }
}

fn merge_resolution<H: Host>(
    sh: &mut Shell<H>,
    config: &AppConfig,
    resolution: StackResolution,
    admin: bool,
    diagnostics: Diagnostics,
) -> (r: Result<MergeSummary, Error>)
    requires
        resolution.owned@.len() > 0,
    ensures
        record::extends(old(sh).log(), final(sh).log()),
        resolution_merged(
            old(sh).log(),
            final(sh).log(),
            config@,
            resolution@,
            admin,
            diagnostics,
            error::res_of(r),
        ),
{
    let github = GitHubContext::resolve(sh);
    let ghost seen = error::res(github);
    assert(context::github_resolved(old(sh).log(), sh.log(), seen));
    match github {
        Err(error) => Err(phase_error("resolve-github", "github", error)),
        Ok(github) => {
            let context = AppContext::new(github, resolution);
            assert(context@.stack.len() == context.stack@.len());
            merge_context(sh, config, &context, admin, diagnostics)
        },
    }
}

pub open spec fn shaped_merged(
    before: Seq<Event>,
    after: Seq<Event>,
    config: AppConfigView,
    stack: Seq<ResolvedChangeView>,
    bookmarks: Seq<FrozenBookmarkView>,
    admin: bool,
    diagnostics: Diagnostics,
    r: Result<MergeSummary, Seq<CauseView>>,
) -> bool {
    exists|mid: Seq<Event>, resolution: Result<StackResolutionView, Seq<CauseView>>|
        {
            &&& #[trigger] frozen::resolution_made(before, mid, stack, bookmarks, resolution)
            &&& match resolution {
                Err(e) => record::stopped(
                    mid,
                    after,
                    error::phase_failure("resolve-stack"@, "frozen-dependencies"@, e),
                    r,
                ),
                Ok(resolution) => resolution_merged(
                    mid,
                    after,
                    config,
                    resolution,
                    admin,
                    diagnostics,
                    r,
                ),
            }
        }
}

fn merge_shaped<H: Host>(
    sh: &mut Shell<H>,
    config: &AppConfig,
    stack: Vec<ResolvedChange>,
    bookmarks: &Vec<FrozenBookmark>,
    admin: bool,
    diagnostics: Diagnostics,
) -> (r: Result<MergeSummary, Error>)
    requires
        stack@.len() > 0,
    ensures
        record::extends(old(sh).log(), final(sh).log()),
        shaped_merged(
            old(sh).log(),
            final(sh).log(),
            config@,
            stack.deep_view(),
            bookmarks.deep_view(),
            admin,
            diagnostics,
            error::res_of(r),
        ),
{
    let ghost owned = stack.deep_view();
    let made = resolve_stack_resolution(sh, stack, bookmarks);
    let ghost seen = error::res(made);
    assert(frozen::resolution_made(old(sh).log(), sh.log(), owned, bookmarks.deep_view(), seen));
    match made {
        Err(error) => Err(phase_error("resolve-stack", "frozen-dependencies", error)),
        Ok(resolution) => {
            assert(resolution@.owned.len() == resolution.owned@.len());
            merge_resolution(sh, config, resolution, admin, diagnostics)
        },
    }
}

/// The record from `before` to `after` holds the diagnosis of an empty stack.
pub open spec fn nothing_merged(
    before: Seq<Event>,
    after: Seq<Event>,
    config: AppConfigView,
    revset: Seq<char>,
    target: Option<MergeTargetView>,
    bookmarks: Seq<FrozenBookmarkView>,
    r: Result<MergeSummary, Seq<CauseView>>,
) -> bool {
    match target {
        None => after == before && r == Ok::<MergeSummary, Seq<CauseView>>(no_merge()),
        Some(target) => target_refused(before, after, config, revset, target, bookmarks, r),
    }
}

pub open spec fn target_refused(
    before: Seq<Event>,
    after: Seq<Event>,
    config: AppConfigView,
    revset: Seq<char>,
    target: MergeTargetView,
    bookmarks: Seq<FrozenBookmarkView>,
    r: Result<MergeSummary, Seq<CauseView>>,
) -> bool {
    exists|why: Result<(), Seq<CauseView>>|
        {
            &&& #[trigger] empty_merge::empty_merge_diagnosed(
                before,
                after,
                config,
                target,
                revset,
                bookmarks,
                why,
            )
            &&& r == match why {
                Err(e) => Err(e),
                Ok(_) => Ok(no_merge()),
            }
        }
}

fn merge_nothing<H: Host>(
    sh: &mut Shell<H>,
    config: &AppConfig,
    revset: &str,
    target: &Option<MergeTarget>,
    bookmarks: &Vec<FrozenBookmark>,
) -> (r: Result<MergeSummary, Error>)
    ensures
        record::extends(old(sh).log(), final(sh).log()),
        nothing_merged(
            old(sh).log(),
            final(sh).log(),
            config@,
            revset@,
            target.deep_view(),
            bookmarks.deep_view(),
            error::res_of(r),
        ),
{
    match target {
        None => Ok(new_summary()),
        Some(target) => {
            let why = diagnose_empty_targeted_merge(sh, config, target, revset, bookmarks);
            let ghost seen = error::res_of(why);
            assert(empty_merge::empty_merge_diagnosed(
                old(sh).log(),
                sh.log(),
                config@,
                target@,
                revset@,
                bookmarks.deep_view(),
                seen,
            ));
            match why {
                Err(error) => Err(error),
                Ok(_) => Ok(new_summary()),
            }
        },
    }
}

/// The record from `before` to `after` holds the merge of what a revset selects.
#[verifier::opaque]
pub open spec fn revset_merged(
    before: Seq<Event>,
    after: Seq<Event>,
    config: AppConfigView,
    revset: Seq<char>,
    target: Option<MergeTargetView>,
    bookmarks: Seq<FrozenBookmarkView>,
    admin: bool,
    diagnostics: Diagnostics,
    r: Result<MergeSummary, Seq<CauseView>>,
) -> bool {
    exists|mid: Seq<Event>, stack: Result<Seq<ResolvedChangeView>, Seq<CauseView>>|
        {
            &&& #[trigger] stack::stack_resolved(before, mid, revset, stack)
            &&& match stack {
                Err(e) => record::stopped(mid, after, error::phase_failure("resolve-stack"@, revset, e), r),
                Ok(stack) => if stack.len() == 0 {
                    nothing_merged(mid, after, config, revset, target, bookmarks, r)
                } else {
                    match stack::shape_failure(stack, revset) {
                        Some(error) => record::stopped(
                            mid,
                            after,
                            error::phase_failure("resolve-stack"@, revset, error::reported(error)),
                            r,
                        ),
                        None => shaped_merged(
                            mid,
                            after,
                            config,
                            stack,
                            bookmarks,
                            admin,
                            diagnostics,
                            r,
                        ),
                    }
                },
            }
        }
}

fn merge_revset<H: Host>(
    sh: &mut Shell<H>,
    config: &AppConfig,
    revset: &str,
    target: &Option<MergeTarget>,
    bookmarks: &Vec<FrozenBookmark>,
    admin: bool,
    diagnostics: Diagnostics,
) -> (r: Result<MergeSummary, Error>)
    ensures
        record::extends(old(sh).log(), final(sh).log()),
        revset_merged(
            old(sh).log(),
            final(sh).log(),
            config@,
            revset@,
            target.deep_view(),
            bookmarks.deep_view(),
            admin,
            diagnostics,
            error::res_of(r),
        ),
{
    proof {
        reveal(revset_merged);
    }
    let resolved = resolve_stack(sh, revset);
    let ghost seen = error::res(resolved);
    assert(stack::stack_resolved(old(sh).log(), sh.log(), revset@, seen));
    let stack = match resolved {
        Ok(stack) => stack,
        Err(error) => return Err(phase_error("resolve-stack", revset, error)),
    };
    let n: usize = stack.len();
    if n == 0 {
        return merge_nothing(sh, config, revset, target, bookmarks);
    }
    match validate_stack_shape(&stack, revset) {
        Err(error) => Err(phase_error("resolve-stack", revset, error)),
        Ok(_) => merge_shaped(sh, config, stack, bookmarks, admin, diagnostics),
    }
}

pub open spec fn frozen_merge_begun(
    before: Seq<Event>,
    after: Seq<Event>,
    config: AppConfigView,
    revset: Seq<char>,
    target: Option<MergeTargetView>,
    admin: bool,
    diagnostics: Diagnostics,
    r: Result<MergeSummary, Seq<CauseView>>,
) -> bool {
    exists|mid: Seq<Event>|
        {
            &&& #[trigger] record::called(before, mid, "jj"@, bookmarks::frozen_list_args())
            &&& match bookmarks::frozen_list_result(record::last_reply(mid)) {
                Err(e) => record::stopped(
                    mid,
                    after,
                    error::phase_failure("resolve-stack"@, "frozen-bookmarks"@, e),
                    r,
                ),
                Ok(bookmarks) => revset_merged(
                    mid,
                    after,
                    config,
                    revset,
                    target,
                    bookmarks,
                    admin,
                    diagnostics,
                    r,
                ),
            }
        }
}

fn begin_frozen_merge<H: Host>(
    sh: &mut Shell<H>,
    config: &AppConfig,
    revset: &str,
    target: &Option<MergeTarget>,
    admin: bool,
    diagnostics: Diagnostics,
) -> (r: Result<MergeSummary, Error>)
    ensures
        record::extends(old(sh).log(), final(sh).log()),
        frozen_merge_begun(
            old(sh).log(),
            final(sh).log(),
            config@,
            revset@,
            target.deep_view(),
            admin,
            diagnostics,
            error::res_of(r),
        ),
{
    let listed = frozen_bookmarks(sh);
    assert(record::called(old(sh).log(), sh.log(), "jj"@, bookmarks::frozen_list_args()));
    match listed {
        Err(error) => Err(phase_error("resolve-stack", "frozen-bookmarks", error)),
        Ok(bookmarks) => merge_revset(
            sh,
            config,
            revset,
            target,
            &bookmarks,
            admin,
            diagnostics,
        ),
    }
}

/// The record from `before` to `after` holds the merge of a stack. The stack is resolved and must be a
/// single chain; its frozen dependencies must be merged; every pull request gets trunk as its base,
/// settles, and must be ready; then trunk is pushed once, GitHub is watched until each pull request is
/// marked as merged, the merged branches are removed and the working copy is reset, in this order. The
/// first failure ends it.
pub open spec fn stack_merged(
    before: Seq<Event>,
    after: Seq<Event>,
    config: AppConfigView,
    revset: Seq<char>,
    target: Option<MergeTargetView>,
    admin: bool,
    diagnostics: Diagnostics,
    r: Result<MergeSummary, Seq<CauseView>>,
) -> bool {
    exists|mid: Seq<Event>|
        {
            &&& #[trigger] record::called(
                before + ui::phase_said(diagnostics, "resolve-stack"@),
                mid,
                "jj"@,
                stack::single_rev_args("trunk()"@),
            )
            &&& match stack::single_commit("trunk()"@, record::last_reply(mid)) {
                Err(e) => record::stopped(mid, after, error::phase_failure("resolve-stack"@, "trunk()"@, e), r),
                Ok(trunk) => frozen_merge_begun(
                    mid,
                    after,
                    config,
                    revset,
                    target,
                    admin,
                    diagnostics,
                    r,
                ),
            }
        }
}

pub fn merge_stack<H: Host>(
    sh: &mut Shell<H>,
    config: &AppConfig,
    revset: &str,
    target: &Option<MergeTarget>,
    admin: bool,
    diagnostics: Diagnostics,
) -> (r: Result<MergeSummary, Error>)
    ensures
        record::extends(old(sh).log(), final(sh).log()),
        stack_merged(
            old(sh).log(),
            final(sh).log(),
            config@,
            revset@,
            target.deep_view(),
            admin,
            diagnostics,
            error::res_of(r),
        ),
{
    let ghost start = sh.log();
    diagnostics.phase(sh, "resolve-stack");
    let trunk = resolve_single_rev(sh, "trunk()");
    assert(record::called(
        start + ui::phase_said(diagnostics, "resolve-stack"@),
        sh.log(),
        "jj"@,
        stack::single_rev_args("trunk()"@),
    ));
    match trunk {
        Err(error) => Err(phase_error("resolve-stack", "trunk()", error)),
        Ok(_) => begin_frozen_merge(sh, config, revset, target, admin, diagnostics),
    }
}

// ---------------------------------------------------------------------------
// The rest of the stack after a merge
// ---------------------------------------------------------------------------

/// The record from `before` to `after` holds the submit of what is left above a merge.
pub open spec fn above_submitted(
    before: Seq<Event>,
    after: Seq<Event>,
    config: AppConfigView,
    revset: Seq<char>,
    diagnostics: Diagnostics,
    r: Result<(), Seq<CauseView>>,
) -> bool {
    exists|mid: Seq<Event>, context: Result<AppContextView, Seq<CauseView>>|
        {
            &&& #[trigger] context::context_resolved(before, mid, revset, context)
            &&& match context {
                Err(e) => record::stopped(mid, after, e, r),
                Ok(context) => resubmitted(mid, after, config, context, diagnostics, r),
            }
        }
}

pub open spec fn resubmitted(
    before: Seq<Event>,
    after: Seq<Event>,
    config: AppConfigView,
    context: AppContextView,
    diagnostics: Diagnostics,
    r: Result<(), Seq<CauseView>>,
) -> bool {
    exists|done: Result<SubmitSummary, Seq<CauseView>>|
        {
            &&& #[trigger] submit::stack_submitted(
                before,
                after,
                config,
                context,
                true,
                "forklift submit --yes"@,
                diagnostics,
                done,
            )
            &&& r == match done {
                Err(e) => Err::<(), Seq<CauseView>>(e),
                Ok(summary) => Ok(()),
            }
        }
}

fn submit_above<H: Host>(
    sh: &mut Shell<H>,
    config: &AppConfig,
    revset: &str,
    diagnostics: Diagnostics,
) -> (r: Result<(), Error>)
    ensures
        record::extends(old(sh).log(), final(sh).log()),
        above_submitted(
            old(sh).log(),
            final(sh).log(),
            config@,
            revset@,
            diagnostics,
            error::res_of(r),
        ),
{
    let resolved = resolve_stack_context(sh, revset);
    let ghost mid = sh.log();
    let ghost seen = error::res(resolved);
    assert(context::context_resolved(old(sh).log(), mid, revset@, seen));
    let context = match resolved {
        Ok(context) => context,
        Err(error) => return Err(error),
    };
    let done = submit_stack(sh, config, &context, true, "forklift submit --yes", diagnostics);
    let ghost ended = error::res_of(done);
    assert(submit::stack_submitted(
        mid,
        sh.log(),
        config@,
        context@,
        true,
        "forklift submit --yes"@,
        diagnostics,
        ended,
    ));
    assert(resubmitted(
        mid,
        sh.log(),
        config@,
        context@,
        diagnostics,
        match ended {
            Err(e) => Err::<(), Seq<CauseView>>(e),
            Ok(summary) => Ok(()),
        },
    ));
    match done {
        Err(error) => Err(error),
        Ok(_) => Ok(()),
    }
}

/// The record from `before` to `after` holds how the pull requests above a merged target are brought up
/// to date: the merged ones drop out of their comments. Where nothing is left, nothing is done.
pub open spec fn above_refreshed(
    before: Seq<Event>,
    after: Seq<Event>,
    config: AppConfigView,
    revset: Seq<char>,
    diagnostics: Diagnostics,
    r: Result<(), Seq<CauseView>>,
) -> bool {
    exists|mid: Seq<Event>, left: Result<Seq<ResolvedChangeView>, Seq<CauseView>>|
        {
            &&& #[trigger] stack::stack_resolved(before, mid, revset, left)
            &&& match left {
                Err(e) => record::stopped(mid, after, e, r),
                Ok(left) => if left.len() == 0 {
                    after == mid && r == Ok::<(), Seq<CauseView>>(())
                } else {
                    above_submitted(
                        mid + ui::phase_said(diagnostics, "merge-refresh-above"@),
                        after,
                        config,
                        revset,
                        diagnostics,
                        r,
                    )
                },
            }
        }
}

pub fn refresh_stack_above_merge<H: Host>(
    sh: &mut Shell<H>,
    config: &AppConfig,
    revset: &str,
    diagnostics: Diagnostics,
) -> (r: Result<(), Error>)
    ensures
        record::extends(old(sh).log(), final(sh).log()),
        above_refreshed(
            old(sh).log(),
            final(sh).log(),
            config@,
            revset@,
            diagnostics,
            error::res_of(r),
        ),
{
    let resolved = resolve_stack(sh, revset);
    let ghost seen = error::res(resolved);
    assert(stack::stack_resolved(old(sh).log(), sh.log(), revset@, seen));
    match resolved {
        Err(error) => Err(error),
        Ok(left) => {
            let n: usize = left.len();
            if n == 0 {
                return Ok(());
            }
            diagnostics.phase(sh, "merge-refresh-above");
            submit_above(sh, config, revset, diagnostics)
        },
    }
}

} // verus!
