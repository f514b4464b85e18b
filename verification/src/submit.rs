//! Submitting a stack: its branches are pushed, its pull requests opened or updated, and the comment
//! on each lists the whole stack.

use vstd::prelude::*;

use crate::api;
use crate::api::{create_pr, update_pr};
use crate::bodies;
use crate::bodies::stack_comment_body_with_frozen;
use crate::cache;
use crate::cache::CacheStore;
use crate::comments;
use crate::comments::{StackCommentAction, StackCommentActionView, upsert_stack_comment};
use crate::error;
use crate::error::{CauseView, Error, phase_error};
use crate::model::{
    AppConfig, AppConfigView, AppContext, AppContextView, Diagnostics, Duplicate, GhPrView,
    GitHubContext, PrCacheEntry, PrCacheEntryView, SubmitPlan, SubmitPlanView,
};
use crate::planning;
use crate::planning::{
    SubmitPrAction, plan_stack, push_changed_heads, resolve_submit_frozen_dependency_entries,
    validate_submit_bases, validate_submit_descriptions,
};
use crate::plans;
use crate::plans::{confirm_submit_stack, render_submit_action_plan};
use crate::pr;
use crate::record;
use crate::record::{Event, LineView};
use crate::shell::{Host, Line};
use crate::shell::wire::Shell;
use crate::text::{copy_option, same};
use crate::ui;
use crate::ui::{say_step, ui_finish_progress_bar};

verus! {

broadcast use crate::record::group_record;

/// What a submit amounted to.
#[derive(Clone, Copy, PartialEq, Eq)]
pub struct SubmitSummary {
    pub pushed_refs: usize,
    pub created_prs: usize,
    pub updated_prs: usize,
    pub unchanged_prs: usize,
    pub created_comments: usize,
    pub updated_comments: usize,
    pub unchanged_comments: usize,
    pub duplicate_comment_warnings: u128,
}

pub open spec fn created_count(plans: Seq<SubmitPlanView>) -> nat
    decreases plans.len(),
{
    if plans.len() == 0 {
        0
    } else {
        created_count(plans.drop_last()) + if plans.last().existing_pr is None {
            1nat
        } else {
            0nat
        }
    }
}

pub open spec fn updated_count(plans: Seq<SubmitPlanView>) -> nat
    decreases plans.len(),
{
    if plans.len() == 0 {
        0
    } else {
        updated_count(plans.drop_last()) + if plans.last().existing_pr is Some
            && plans.last().pr_update_needed {
            1nat
        } else {
            0nat
        }
    }
}

pub open spec fn unchanged_count(plans: Seq<SubmitPlanView>) -> nat
    decreases plans.len(),
{
    if plans.len() == 0 {
        0
    } else {
        unchanged_count(plans.drop_last()) + if plans.last().existing_pr is Some
            && !plans.last().pr_update_needed {
            1nat
        } else {
            0nat
        }
    }
}

/// What a plan promises, before any comment is written.
pub open spec fn planned_summary(plans: Seq<SubmitPlanView>) -> SubmitSummary {
    SubmitSummary {
        pushed_refs: planning::pushed(plans).len() as usize,
        created_prs: created_count(plans) as usize,
        updated_prs: updated_count(plans) as usize,
        unchanged_prs: unchanged_count(plans) as usize,
        created_comments: 0,
        updated_comments: 0,
        unchanged_comments: 0,
        duplicate_comment_warnings: 0,
    }
}

pub fn summarize_plans(plans: &Vec<SubmitPlan>) -> (r: SubmitSummary)
    ensures
        r == planned_summary(plans.deep_view()),
{
    let ghost view = plans.deep_view();
    let mut pushed_refs: usize = 0;
    let mut created_prs: usize = 0;
    let mut updated_prs: usize = 0;
    let mut unchanged_prs: usize = 0;
    let mut i: usize = 0;
    while i < plans.len()
        invariant
            i <= plans@.len(),
            view == plans.deep_view(),
            pushed_refs == planning::pushed(view.take(i as int)).len(),
            created_prs == created_count(view.take(i as int)),
            updated_prs == updated_count(view.take(i as int)),
            unchanged_prs == unchanged_count(view.take(i as int)),
            pushed_refs <= i,
            created_prs + updated_prs + unchanged_prs == i,
        decreases plans@.len() - i,
    {
        let plan = &plans[i];
        assert(view.take(i + 1).drop_last() =~= view.take(i as int));
        assert(view.take(i + 1).last() == plan@);
        assert(plan@.existing_pr is Some == plan.existing_pr is Some);
        if plan.push_needed {
            pushed_refs = pushed_refs + 1;
        }
        if plan.existing_pr.is_none() {
            created_prs = created_prs + 1;
        } else if plan.pr_update_needed {
            updated_prs = updated_prs + 1;
        } else {
            unchanged_prs = unchanged_prs + 1;
        }
        i = i + 1;
    }
    assert(view.take(i as int) =~= view);
    SubmitSummary {
        pushed_refs,
        created_prs,
        updated_prs,
        unchanged_prs,
        created_comments: 0,
        updated_comments: 0,
        unchanged_comments: 0,
        duplicate_comment_warnings: 0,
    }
}

// ---------------------------------------------------------------------------
// The cache
// ---------------------------------------------------------------------------

fn same_option(a: &Option<String>, b: &Option<String>) -> (r: bool)
    ensures
        r == (a.deep_view() == b.deep_view()),
{
    match (a, b) {
        (Some(a), Some(b)) => same(a, b),
        (None, None) => true,
        _ => false,
    }
}

fn same_entry(a: &PrCacheEntry, b: &PrCacheEntry) -> (r: bool)
    ensures
        r == (a@ == b@),
{
    let first = a.pr_number == b.pr_number && same(&a.pr_node_id, &b.pr_node_id) && same(
        &a.head_branch,
        &b.head_branch,
    ) && same(&a.base_branch, &b.base_branch) && same(&a.base_ref, &b.base_ref) && same(
        &a.head_repo_id,
        &b.head_repo_id,
    ) && same(&a.head_repo_node_id, &b.head_repo_node_id) && same(
        &a.head_repo_name,
        &b.head_repo_name,
    );
    let second = same(&a.base_repo_id, &b.base_repo_id) && same(
        &a.base_repo_node_id,
        &b.base_repo_node_id,
    ) && same(&a.base_repo_name, &b.base_repo_name) && same(&a.head_sha, &b.head_sha) && same(
        &a.base_sha,
        &b.base_sha,
    ) && same(&a.author_login, &b.author_login) && same(&a.title, &b.title);
    first && second && same(&a.body, &b.body) && same(&a.created_at, &b.created_at) && same_option(
        &a.stack_comment_id,
        &b.stack_comment_id,
    )
}

/// The record from `before` to `after` holds how an entry is remembered: the cache is written unless
/// it already held just that.
pub open spec fn entry_kept(
    before: Seq<Event>,
    after: Seq<Event>,
    place: Seq<char>,
    all: Map<(Seq<char>, Seq<char>), PrCacheEntryView>,
    key: (Seq<char>, Seq<char>),
    entry: PrCacheEntryView,
) -> bool {
    if all.dom().contains(key) && all[key] == entry {
        after == before
    } else {
        cache::cache_saved(
            before,
            after,
            place,
            all.insert(key, entry),
            "save-cache"@,
            after[before.len() as int]->written is Ok,
        )
    }
}

pub fn save_submit_cache_entry<H: Host>(
    sh: &mut Shell<H>,
    store: &mut CacheStore,
    repo: &str,
    change_id: &str,
    entry: PrCacheEntry,
)
    ensures
        record::extends(old(sh).log(), final(sh).log()),
        final(store).place() == old(store).place(),
        final(store)@ == old(store)@.insert((repo@, change_id@), entry@),
        entry_kept(
            old(sh).log(),
            final(sh).log(),
            old(store).place(),
            old(store)@,
            (repo@, change_id@),
            entry@,
        ),
{
    let known = match store.get_pr(repo, change_id) {
        Some(found) => same_entry(found, &entry),
        None => false,
    };
    if known {
        assert(store@ =~= store@.insert((repo@, change_id@), entry@));
        return;
    }
    store.upsert_pr(repo, change_id, entry);
    store.save_best_effort(sh, "save-cache");
}

/// The record from `before` to `after` holds how an entry is remembered and a step is shown.
pub open spec fn entry_saved(
    before: Seq<Event>,
    after: Seq<Event>,
    place: Seq<char>,
    all: Map<(Seq<char>, Seq<char>), PrCacheEntryView>,
    key: (Seq<char>, Seq<char>),
    entry: PrCacheEntryView,
    steps: bool,
    at: usize,
) -> bool {
    exists|mid: Seq<Event>|
        #[trigger] entry_kept(before, mid, place, all, key, entry) && after == mid + ui::step_said(
            steps,
            at,
        )
}

fn save_entry_step<H: Host>(
    sh: &mut Shell<H>,
    store: &mut CacheStore,
    repo: &str,
    change_id: &str,
    entry: PrCacheEntry,
    steps: bool,
    at: usize,
)
    ensures
        record::extends(old(sh).log(), final(sh).log()),
        final(store).place() == old(store).place(),
        final(store)@ == old(store)@.insert((repo@, change_id@), entry@),
        entry_saved(
            old(sh).log(),
            final(sh).log(),
            old(store).place(),
            old(store)@,
            (repo@, change_id@),
            entry@,
            steps,
            at,
        ),
{
    let ghost put = entry@;
    save_submit_cache_entry(sh, store, repo, change_id, entry);
    assert(entry_kept(
        old(sh).log(),
        sh.log(),
        old(store).place(),
        old(store)@,
        (repo@, change_id@),
        put,
    ));
    say_step(sh, steps, at);
}

// ---------------------------------------------------------------------------
// Pull requests
// ---------------------------------------------------------------------------

/// What is remembered of a pull request that needed no change.
pub open spec fn refreshed(
    existing: PrCacheEntryView,
    plan: SubmitPlanView,
    stack_comment_id: Option<Seq<char>>,
) -> PrCacheEntryView {
    PrCacheEntryView {
        head_branch: plan.head_branch,
        base_branch: plan.base_branch,
        base_ref: plan.base_branch,
        head_sha: plan.change.commit_id,
        title: plan.change.title,
        body: plan.change.body,
        stack_comment_id,
        ..existing
    }
}

pub fn refreshed_cache_entry(
    existing: &PrCacheEntry,
    plan: &SubmitPlan,
    stack_comment_id: Option<String>,
) -> (r: PrCacheEntry)
    ensures
        r@ == refreshed(existing@, plan@, stack_comment_id.deep_view()),
{
    let base = existing.copy();
    PrCacheEntry {
        pr_number: base.pr_number,
        pr_node_id: base.pr_node_id,
        head_branch: plan.head_branch.clone(),
        base_branch: plan.base_branch.clone(),
        base_ref: plan.base_branch.clone(),
        head_repo_id: base.head_repo_id,
        head_repo_node_id: base.head_repo_node_id,
        head_repo_name: base.head_repo_name,
        base_repo_id: base.base_repo_id,
        base_repo_node_id: base.base_repo_node_id,
        base_repo_name: base.base_repo_name,
        head_sha: plan.change.commit_id.clone(),
        base_sha: base.base_sha,
        author_login: base.author_login,
        title: plan.change.title.clone(),
        body: plan.change.body.clone(),
        created_at: base.created_at,
        stack_comment_id,
    }
}

pub open spec fn action_of(plan: SubmitPlanView) -> SubmitPrAction {
    match plan.existing_pr {
        None => SubmitPrAction::Submit,
        Some(_) => if plan.pr_update_needed {
            SubmitPrAction::Update
        } else {
            SubmitPrAction::Nothing
        },
    }
}

pub open spec fn adopted_entry(
    got: Result<GhPrView, Seq<CauseView>>,
    comment: Option<Seq<char>>,
) -> Result<PrCacheEntryView, Seq<CauseView>> {
    match got {
        Ok(pr) => Ok(pr::entry_of(pr, comment)),
        Err(e) => Err(e),
    }
}

pub open spec fn pr_requested(
    before: Seq<Event>,
    after: Seq<Event>,
    args: Seq<Seq<char>>,
    action: Seq<char>,
    change_id: Seq<char>,
    comment: Option<Seq<char>>,
    r: Result<PrCacheEntryView, Seq<CauseView>>,
) -> bool {
    exists|got: Result<GhPrView, Seq<CauseView>>|
        #[trigger] api::pr_api_called(before, after, args, action, change_id, got) && r == adopted_entry(
            got,
            comment,
        )
}

/// The record from `before` to `after` holds what is done to the pull request of one change: it is
/// opened, or updated, or left as it is.
pub open spec fn pr_submitted(
    before: Seq<Event>,
    after: Seq<Event>,
    repo: Seq<char>,
    plan: SubmitPlanView,
    r: Result<PrCacheEntryView, Seq<CauseView>>,
) -> bool {
    match plan.existing_pr {
        None => pr_requested(
            before,
            after,
            api::create_pr_args(repo, plan),
            "create"@,
            plan.change.change_id,
            None,
            r,
        ),
        Some(existing) => if plan.pr_update_needed {
            pr_requested(
                before,
                after,
                api::update_pr_args(repo, existing.pr_number, plan),
                "update"@,
                plan.change.change_id,
                existing.stack_comment_id,
                r,
            )
        } else {
            after == before && r == Ok::<_, Seq<CauseView>>(
                refreshed(existing, plan, existing.stack_comment_id),
            )
        },
    }
}

fn submit_pr<H: Host>(sh: &mut Shell<H>, github: &GitHubContext, plan: &SubmitPlan) -> (r: Result<
    PrCacheEntry,
    Error,
>)
    ensures
        record::extends(old(sh).log(), final(sh).log()),
        pr_submitted(old(sh).log(), final(sh).log(), github@.repo, plan@, error::res(r)),
{
    match &plan.existing_pr {
        None => {
            let got = create_pr(sh, github, plan);
            let ghost seen = error::res(got);
            assert(api::pr_api_called(
                old(sh).log(),
                sh.log(),
                api::create_pr_args(github@.repo, plan@),
                "create"@,
                plan@.change.change_id,
                seen,
            ));
            match got {
                Ok(pr) => Ok(pr.into_cache_entry(None)),
                Err(error) => Err(error),
            }
        },
        Some(existing) => if plan.pr_update_needed {
            let got = update_pr(sh, github, existing.pr_number, plan);
            let ghost seen = error::res(got);
            assert(api::pr_api_called(
                old(sh).log(),
                sh.log(),
                api::update_pr_args(github@.repo, existing@.pr_number, plan@),
                "update"@,
                plan@.change.change_id,
                seen,
            ));
            match got {
                Ok(pr) => Ok(pr.into_cache_entry(copy_option(&existing.stack_comment_id))),
                Err(error) => Err(error),
            }
        } else {
            Ok(refreshed_cache_entry(existing, plan, copy_option(&existing.stack_comment_id)))
        },
    }
}

fn plan_action(plan: &SubmitPlan) -> (r: SubmitPrAction)
    ensures
        r == action_of(plan@),
{
    if plan.existing_pr.is_none() {
        SubmitPrAction::Submit
    } else if plan.pr_update_needed {
        SubmitPrAction::Update
    } else {
        SubmitPrAction::Nothing
    }
}

/// The record from `before` to `after` holds what follows the submit of one pull request: it is shown
/// and remembered, and then come the others.
pub open spec fn pr_noted(
    before: Seq<Event>,
    after: Seq<Event>,
    repo: Seq<char>,
    place: Seq<char>,
    all: Map<(Seq<char>, Seq<char>), PrCacheEntryView>,
    plans: Seq<SubmitPlanView>,
    done: Seq<PrCacheEntryView>,
    entry: PrCacheEntryView,
    steps: bool,
    diagnostics: Diagnostics,
    r: Result<
        (Seq<PrCacheEntryView>, Map<(Seq<char>, Seq<char>), PrCacheEntryView>),
        Seq<CauseView>,
    >,
) -> bool
    decreases plans.len() - done.len(), 0nat,
    when done.len() < plans.len()
{
    let plan = plans[done.len() as int];
    let key = (repo, plan.change.change_id);
    exists|mid: Seq<Event>|
        {
            &&& #[trigger] entry_saved(
                before + planning::action_said(diagnostics, repo, plan.change, action_of(plan), entry),
                mid,
                place,
                all,
                key,
                entry,
                steps,
                (done.len() + 1) as usize,
            )
            &&& prs_submitted(
                mid,
                after,
                repo,
                place,
                all.insert(key, entry),
                plans,
                done.push(entry),
                steps,
                diagnostics,
                r,
            )
        }
}

/// The record from `before` to `after` holds the submit of each pull request in turn, up to the first
/// failure.
pub open spec fn prs_submitted(
    before: Seq<Event>,
    after: Seq<Event>,
    repo: Seq<char>,
    place: Seq<char>,
    all: Map<(Seq<char>, Seq<char>), PrCacheEntryView>,
    plans: Seq<SubmitPlanView>,
    done: Seq<PrCacheEntryView>,
    steps: bool,
    diagnostics: Diagnostics,
    r: Result<
        (Seq<PrCacheEntryView>, Map<(Seq<char>, Seq<char>), PrCacheEntryView>),
        Seq<CauseView>,
    >,
) -> bool
    decreases plans.len() - done.len(), 1nat,
{
    if done.len() >= plans.len() {
        after == before && r == Ok::<_, Seq<CauseView>>((done, all))
    } else {
        exists|mid: Seq<Event>, entry: Result<PrCacheEntryView, Seq<CauseView>>|
            {
                &&& #[trigger] pr_submitted(before, mid, repo, plans[done.len() as int], entry)
                &&& match entry {
                    Err(e) => record::stopped(mid, after, e, r),
                    Ok(entry) => pr_noted(
                        mid,
                        after,
                        repo,
                        place,
                        all,
                        plans,
                        done,
                        entry,
                        steps,
                        diagnostics,
                        r,
                    ),
                }
            }
    }
}

pub open spec fn entries_with(
    r: Result<Vec<PrCacheEntry>, Error>,
    all: Map<(Seq<char>, Seq<char>), PrCacheEntryView>,
) -> Result<
    (Seq<PrCacheEntryView>, Map<(Seq<char>, Seq<char>), PrCacheEntryView>),
    Seq<CauseView>,
> {
    match r {
        Ok(entries) => Ok((entries.deep_view(), all)),
        Err(error) => Err(error@),
    }
}

fn submit_prs<H: Host>(
    sh: &mut Shell<H>,
    github: &GitHubContext,
    store: &mut CacheStore,
    plans: &Vec<SubmitPlan>,
    done: Vec<PrCacheEntry>,
    steps: bool,
    diagnostics: Diagnostics,
) -> (r: Result<Vec<PrCacheEntry>, Error>)
    requires
        done@.len() <= plans@.len(),
    ensures
        record::extends(old(sh).log(), final(sh).log()),
        final(store).place() == old(store).place(),
        prs_submitted(
            old(sh).log(),
            final(sh).log(),
            github@.repo,
            old(store).place(),
            old(store)@,
            plans.deep_view(),
            done.deep_view(),
            steps,
            diagnostics,
            entries_with(r, final(store)@),
        ),
        r matches Ok(entries) ==> entries@.len() == plans@.len(),
    decreases plans@.len() - done@.len(),
{
    let n: usize = done.len();
    if n == plans.len() {
        return Ok(done);
    }
    let ghost start = sh.log();
    let ghost all = store@;
    let ghost before = done.deep_view();
    let ghost pv = plans.deep_view();
    let plan = &plans[n];
    assert(pv[n as int] == plan@);
    let got = submit_pr(sh, github, plan);
    let ghost one = sh.log();
    let ghost seen = error::res(got);
    assert(pr_submitted(start, one, github@.repo, plan@, seen));
    let entry = match got {
        Ok(entry) => entry,
        Err(error) => return Err(error),
    };
    let ghost put = entry@;
    diagnostics.submit_pr_action(sh, &github.repo, &plan.change, plan_action(plan), &entry);
    let ghost told = sh.log();
    save_entry_step(
        sh,
        store,
        &github.repo,
        &plan.change.change_id,
        entry.copy(),
        steps,
        n + 1,
    );
    let ghost two = sh.log();
    let ghost key = (github@.repo, plan@.change.change_id);
    assert(entry_saved(
        one + planning::action_said(diagnostics, github@.repo, plan@.change, action_of(plan@), put),
        two,
        store.place(),
        all,
        key,
        put,
        steps,
        (before.len() + 1) as usize,
    ));
    let mut done = done;
    done.push(entry);
    assert(done.deep_view() =~= before.push(put));
    let r = submit_prs(sh, github, store, plans, done, steps, diagnostics);
    assert(pr_noted(
        one,
        sh.log(),
        github@.repo,
        store.place(),
        all,
        pv,
        before,
        put,
        steps,
        diagnostics,
        entries_with(r, store@),
    ));
    r
}

// ---------------------------------------------------------------------------
// Comments
// ---------------------------------------------------------------------------

/// The summary with one comment more.
pub open spec fn commented(summary: SubmitSummary, action: StackCommentActionView) -> SubmitSummary {
    match action {
        StackCommentActionView::Created(_) => SubmitSummary {
            created_comments: (summary.created_comments + 1) as usize,
            ..summary
        },
        StackCommentActionView::Updated(_, duplicates) => SubmitSummary {
            updated_comments: (summary.updated_comments + 1) as usize,
            duplicate_comment_warnings: (summary.duplicate_comment_warnings + duplicates) as u128,
            ..summary
        },
        StackCommentActionView::Unchanged(_) => SubmitSummary {
            unchanged_comments: (summary.unchanged_comments + 1) as usize,
            ..summary
        },
    }
}

pub open spec fn comment_id_of(action: StackCommentActionView) -> Seq<char> {
    match action {
        StackCommentActionView::Created(id) => id,
        StackCommentActionView::Updated(id, duplicates) => id,
        StackCommentActionView::Unchanged(id) => id,
    }
}

/// The summary counts at most so many comments.
pub open spec fn counts_at_most(summary: SubmitSummary, n: int) -> bool {
    &&& summary.created_comments + summary.updated_comments + summary.unchanged_comments <= n
    &&& summary.duplicate_comment_warnings <= n * usize::MAX
}

fn count_comment(summary: SubmitSummary, action: StackCommentAction, Ghost(n): Ghost<int>) -> (r: (
    SubmitSummary,
    String,
))
    requires
        counts_at_most(summary, n),
        0 <= n < usize::MAX,
    ensures
        r.0 == commented(summary, action@),
        r.1@ == comment_id_of(action@),
        counts_at_most(r.0, n + 1),
{
    let mut summary = summary;
    assert(n * usize::MAX + usize::MAX == (n + 1) * usize::MAX) by (nonlinear_arith);
    assert((n + 1) * usize::MAX <= u128::MAX) by (nonlinear_arith)
        requires
            0 <= n < usize::MAX,
    ;
    match action {
        StackCommentAction::Created(id) => {
            summary.created_comments = summary.created_comments + 1;
            (summary, id)
        },
        StackCommentAction::Updated(id, duplicates) => {
            summary.updated_comments = summary.updated_comments + 1;
            summary.duplicate_comment_warnings = summary.duplicate_comment_warnings
                + duplicates as u128;
            (summary, id)
        },
        StackCommentAction::Unchanged(id) => {
            summary.unchanged_comments = summary.unchanged_comments + 1;
            (summary, id)
        },
    }
}

/// The entries by the changes that they belong to.
pub open spec fn entries_by_change(
    plans: Seq<SubmitPlanView>,
    entries: Seq<PrCacheEntryView>,
) -> Seq<(Seq<char>, PrCacheEntryView)> {
    Seq::new(entries.len(), |i: int| (plans[i].change.change_id, entries[i]))
}

fn pair_entries(plans: &Vec<SubmitPlan>, entries: &Vec<PrCacheEntry>) -> (r: Vec<
    (String, PrCacheEntry),
>)
    requires
        entries@.len() == plans@.len(),
    ensures
        r.deep_view() == entries_by_change(plans.deep_view(), entries.deep_view()),
{
    let mut out: Vec<(String, PrCacheEntry)> = Vec::new();
    let mut i: usize = 0;
    while i < entries.len()
        invariant
            i <= entries@.len() == plans@.len(),
            out@.len() == i,
            forall|k: int|
                0 <= k < i ==> (#[trigger] out@[k]).0@ == plans@[k]@.change.change_id
                    && out@[k].1@ == entries@[k]@,
        decreases entries@.len() - i,
    {
        out.push((plans[i].change.change_id.clone(), entries[i].copy()));
        i = i + 1;
    }
    assert(out.deep_view() =~= entries_by_change(plans.deep_view(), entries.deep_view()));
    out
}

/// What the comments are made of.
pub struct CommentSources {
    pub context: AppContextView,
    pub frozen: Seq<(Seq<char>, PrCacheEntryView)>,
    pub owned: Seq<(Seq<char>, PrCacheEntryView)>,
    pub trunk: Seq<char>,
}

/// What is remembered of a pull request once its comment stands.
pub open spec fn with_comment(
    entry: PrCacheEntryView,
    action: StackCommentActionView,
) -> PrCacheEntryView {
    PrCacheEntryView { stack_comment_id: Some(comment_id_of(action)), ..entry }
}

/// The record from `before` to `after` holds the comment on one pull request and how its id is
/// remembered.
pub open spec fn comment_step(
    before: Seq<Event>,
    after: Seq<Event>,
    sources: CommentSources,
    place: Seq<char>,
    all: Map<(Seq<char>, Seq<char>), PrCacheEntryView>,
    at: int,
    summary: SubmitSummary,
    steps: bool,
    r: Result<
        (SubmitSummary, Map<(Seq<char>, Seq<char>), PrCacheEntryView>),
        Seq<CauseView>,
    >,
) -> bool {
    let change_id = sources.owned[at].0;
    let entry = sources.owned[at].1;
    let key = (sources.context.github.repo, change_id);
    exists|mid: Seq<Event>, action: Result<StackCommentActionView, Seq<CauseView>>|
        {
            &&& #[trigger] comments::comment_upserted(
                before,
                mid,
                sources.context.github,
                entry.pr_number,
                change_id,
                bodies::stack_comment(
                    sources.context,
                    sources.frozen,
                    sources.owned,
                    change_id,
                    sources.trunk,
                ),
                action,
            )
            &&& match action {
                Err(e) => record::stopped(mid, after, e, r),
                Ok(action) => {
                    &&& entry_saved(
                        mid,
                        after,
                        place,
                        all,
                        key,
                        with_comment(entry, action),
                        steps,
                        (at + 1) as usize,
                    )
                    &&& r == Ok::<_, Seq<CauseView>>(
                        (
                            commented(summary, action),
                            all.insert(key, with_comment(entry, action)),
                        ),
                    )
                },
            }
        }
}

/// The record from `before` to `after` holds the comment on each pull request in turn, up to the first
/// failure.
pub open spec fn comments_submitted(
    before: Seq<Event>,
    after: Seq<Event>,
    sources: CommentSources,
    place: Seq<char>,
    all: Map<(Seq<char>, Seq<char>), PrCacheEntryView>,
    at: int,
    summary: SubmitSummary,
    steps: bool,
    r: Result<SubmitSummary, Seq<CauseView>>,
) -> bool
    decreases sources.owned.len() - at,
{
    if at < 0 || at >= sources.owned.len() {
        after == before && r == Ok::<_, Seq<CauseView>>(summary)
    } else {
        exists|
            mid: Seq<Event>,
            step: Result<
                (SubmitSummary, Map<(Seq<char>, Seq<char>), PrCacheEntryView>),
                Seq<CauseView>,
            >,
        |
            {
                &&& #[trigger] comment_step(
                    before,
                    mid,
                    sources,
                    place,
                    all,
                    at,
                    summary,
                    steps,
                    step,
                )
                &&& match step {
                    Err(e) => record::stopped(mid, after, e, r),
                    Ok((next, more)) => comments_submitted(
                        mid,
                        after,
                        sources,
                        place,
                        more,
                        at + 1,
                        next,
                        steps,
                        r,
                    ),
                }
            }
    }
}

pub open spec fn comment_sources(
    context: &AppContext,
    frozen: &Vec<(String, PrCacheEntry)>,
    owned: &Vec<(String, PrCacheEntry)>,
    trunk: &str,
) -> CommentSources {
    CommentSources {
        context: context@,
        frozen: frozen.deep_view(),
        owned: owned.deep_view(),
        trunk: trunk@,
    }
}

pub open spec fn summary_with(
    r: Result<SubmitSummary, Error>,
    all: Map<(Seq<char>, Seq<char>), PrCacheEntryView>,
) -> Result<(SubmitSummary, Map<(Seq<char>, Seq<char>), PrCacheEntryView>), Seq<CauseView>> {
    match r {
        Ok(summary) => Ok((summary, all)),
        Err(error) => Err(error@),
    }
}

fn submit_comment<H: Host>(
    sh: &mut Shell<H>,
    context: &AppContext,
    frozen: &Vec<(String, PrCacheEntry)>,
    owned: &Vec<(String, PrCacheEntry)>,
    trunk: &str,
    store: &mut CacheStore,
    at: usize,
    summary: SubmitSummary,
    steps: bool,
) -> (r: Result<SubmitSummary, Error>)
    requires
        at < owned@.len(),
        counts_at_most(summary, at as int),
    ensures
        record::extends(old(sh).log(), final(sh).log()),
        final(store).place() == old(store).place(),
        comment_step(
            old(sh).log(),
            final(sh).log(),
            comment_sources(context, frozen, owned, trunk),
            old(store).place(),
            old(store)@,
            at as int,
            summary,
            steps,
            summary_with(r, final(store)@),
        ),
        r matches Ok(next) ==> counts_at_most(next, at + 1),
{
    let n: usize = owned.len();
    assert(at < n);
    let ghost sources = comment_sources(context, frozen, owned, trunk);
    assert(sources.owned[at as int] == (owned@[at as int].0@, owned@[at as int].1@));
    let change_id = &owned[at].0;
    let body = stack_comment_body_with_frozen(context, frozen, owned, change_id, trunk);
    let done = upsert_stack_comment(
        sh,
        &context.github,
        owned[at].1.pr_number,
        change_id,
        &body,
    );
    let ghost one = sh.log();
    let ghost seen = error::res(done);
    assert(comments::comment_upserted(
        old(sh).log(),
        one,
        sources.context.github,
        owned@[at as int].1@.pr_number,
        change_id@,
        bodies::stack_comment(
            sources.context,
            sources.frozen,
            sources.owned,
            change_id@,
            sources.trunk,
        ),
        seen,
    ));
    let action = match done {
        Ok(action) => action,
        Err(error) => return Err(error),
    };
    let ghost act = action@;
    let (next, id) = count_comment(summary, action, Ghost(at as int));
    let mut entry = owned[at].1.copy();
    entry.stack_comment_id = Some(id);
    assert(entry@ == with_comment(sources.owned[at as int].1, act));
    save_entry_step(sh, store, &context.github.repo, change_id, entry, steps, at + 1);
    Ok(next)
}

fn submit_comments<H: Host>(
    sh: &mut Shell<H>,
    context: &AppContext,
    frozen: &Vec<(String, PrCacheEntry)>,
    owned: &Vec<(String, PrCacheEntry)>,
    trunk: &str,
    store: &mut CacheStore,
    at: usize,
    summary: SubmitSummary,
    steps: bool,
) -> (r: Result<SubmitSummary, Error>)
    requires
        at <= owned@.len(),
        counts_at_most(summary, at as int),
    ensures
        record::extends(old(sh).log(), final(sh).log()),
        comments_submitted(
            old(sh).log(),
            final(sh).log(),
            comment_sources(context, frozen, owned, trunk),
            old(store).place(),
            old(store)@,
            at as int,
            summary,
            steps,
            error::res_of(r),
        ),
    decreases owned@.len() - at,
{
    if at == owned.len() {
        return Ok(summary);
    }
    let done = submit_comment(sh, context, frozen, owned, trunk, store, at, summary, steps);
    assert(comment_step(
        old(sh).log(),
        sh.log(),
        comment_sources(context, frozen, owned, trunk),
        old(store).place(),
        old(store)@,
        at as int,
        summary,
        steps,
        summary_with(done, store@),
    ));
    match done {
        Err(error) => Err(error),
        Ok(next) => submit_comments(
            sh,
            context,
            frozen,
            owned,
            trunk,
            store,
            at + 1,
            next,
            steps,
        ),
    }
}

// ---------------------------------------------------------------------------
// The whole submit
// ---------------------------------------------------------------------------

pub open spec fn all_comments_submitted(
    before: Seq<Event>,
    after: Seq<Event>,
    sources: CommentSources,
    place: Seq<char>,
    all: Map<(Seq<char>, Seq<char>), PrCacheEntryView>,
    summary: SubmitSummary,
    diagnostics: Diagnostics,
    r: Result<SubmitSummary, Seq<CauseView>>,
) -> bool {
    comments_submitted(
        before + ui::phase_said(diagnostics, "stack-comments"@) + ui::steps_said(
            diagnostics,
            "Updating"@,
            "stack comments"@,
            sources.owned.len() as usize,
        ),
        after,
        sources,
        place,
        all,
        0,
        summary,
        diagnostics.shows_steps(sources.owned.len()),
        r,
    )
}

/// The record from `before` to `after` holds the comments of a submit.
pub open spec fn submit_commented(
    before: Seq<Event>,
    after: Seq<Event>,
    sources: CommentSources,
    place: Seq<char>,
    all: Map<(Seq<char>, Seq<char>), PrCacheEntryView>,
    summary: SubmitSummary,
    diagnostics: Diagnostics,
    r: Result<SubmitSummary, Seq<CauseView>>,
) -> bool {
    exists|mid: Seq<Event>|
        {
            &&& #[trigger] all_comments_submitted(
                before,
                mid,
                sources,
                place,
                all,
                summary,
                diagnostics,
                r,
            )
            &&& after == if r is Ok {
                mid + ui::steps_ended(diagnostics.shows_steps(sources.owned.len()))
            } else {
                mid
            }
        }
}

fn comment_submit<H: Host>(
    sh: &mut Shell<H>,
    context: &AppContext,
    frozen: &Vec<(String, PrCacheEntry)>,
    owned: &Vec<(String, PrCacheEntry)>,
    trunk: &str,
    store: &mut CacheStore,
    summary: SubmitSummary,
    diagnostics: Diagnostics,
) -> (r: Result<SubmitSummary, Error>)
    requires
        counts_at_most(summary, 0),
    ensures
        record::extends(old(sh).log(), final(sh).log()),
        submit_commented(
            old(sh).log(),
            final(sh).log(),
            comment_sources(context, frozen, owned, trunk),
            old(store).place(),
            old(store)@,
            summary,
            diagnostics,
            error::res_of(r),
        ),
{
    let ghost start = sh.log();
    diagnostics.phase(sh, "stack-comments");
    let steps = diagnostics.progress_bar(sh, "Updating", "stack comments", owned.len());
    let done = submit_comments(sh, context, frozen, owned, trunk, store, 0, summary, steps);
    assert(all_comments_submitted(
        start,
        sh.log(),
        comment_sources(context, frozen, owned, trunk),
        old(store).place(),
        old(store)@,
        summary,
        diagnostics,
        error::res_of(done),
    ));
    match done {
        Err(error) => Err(error),
        Ok(summary) => {
            ui_finish_progress_bar(sh, steps);
            Ok(summary)
        },
    }
}

pub open spec fn all_prs_submitted(
    before: Seq<Event>,
    after: Seq<Event>,
    repo: Seq<char>,
    place: Seq<char>,
    all: Map<(Seq<char>, Seq<char>), PrCacheEntryView>,
    plans: Seq<SubmitPlanView>,
    diagnostics: Diagnostics,
    r: Result<
        (Seq<PrCacheEntryView>, Map<(Seq<char>, Seq<char>), PrCacheEntryView>),
        Seq<CauseView>,
    >,
) -> bool {
    prs_submitted(
        before + ui::steps_said(
            diagnostics,
            "Submitting"@,
            "pull requests"@,
            plans.len() as usize,
        ),
        after,
        repo,
        place,
        all,
        plans,
        seq![],
        diagnostics.shows_steps(plans.len()),
        diagnostics,
        r,
    )
}

/// The record from `before` to `after` holds the pull requests of a submit, and the comments on them.
pub open spec fn submit_requested(
    before: Seq<Event>,
    after: Seq<Event>,
    context: AppContextView,
    trunk: Seq<char>,
    frozen: Seq<(Seq<char>, PrCacheEntryView)>,
    place: Seq<char>,
    all: Map<(Seq<char>, Seq<char>), PrCacheEntryView>,
    plans: Seq<SubmitPlanView>,
    diagnostics: Diagnostics,
    r: Result<SubmitSummary, Seq<CauseView>>,
) -> bool {
    exists|
        mid: Seq<Event>,
        made: Result<
            (Seq<PrCacheEntryView>, Map<(Seq<char>, Seq<char>), PrCacheEntryView>),
            Seq<CauseView>,
        >,
    |
        {
            &&& #[trigger] all_prs_submitted(
                before,
                mid,
                context.github.repo,
                place,
                all,
                plans,
                diagnostics,
                made,
            )
            &&& match made {
                Err(e) => record::stopped(mid, after, e, r),
                Ok((entries, more)) => submit_commented(
                    mid + ui::steps_ended(diagnostics.shows_steps(plans.len())),
                    after,
                    CommentSources {
                        context,
                        frozen,
                        owned: entries_by_change(plans, entries),
                        trunk,
                    },
                    place,
                    more,
                    planned_summary(plans),
                    diagnostics,
                    r,
                ),
            }
        }
}

fn request_submit<H: Host>(
    sh: &mut Shell<H>,
    config: &AppConfig,
    context: &AppContext,
    frozen: &Vec<(String, PrCacheEntry)>,
    store: &mut CacheStore,
    plans: &Vec<SubmitPlan>,
    diagnostics: Diagnostics,
) -> (r: Result<SubmitSummary, Error>)
    ensures
        record::extends(old(sh).log(), final(sh).log()),
        submit_requested(
            old(sh).log(),
            final(sh).log(),
            context@,
            config@.trunk,
            frozen.deep_view(),
            old(store).place(),
            old(store)@,
            plans.deep_view(),
            diagnostics,
            error::res_of(r),
        ),
{
    let ghost start = sh.log();
    let steps = diagnostics.progress_bar(sh, "Submitting", "pull requests", plans.len());
    let none: Vec<PrCacheEntry> = Vec::new();
    assert(none.deep_view() =~= Seq::<PrCacheEntryView>::empty());
    let made = submit_prs(sh, &context.github, store, plans, none, steps, diagnostics);
    assert(all_prs_submitted(
        start,
        sh.log(),
        context@.github.repo,
        old(store).place(),
        old(store)@,
        plans.deep_view(),
        diagnostics,
        entries_with(made, store@),
    ));
    let entries = match made {
        Ok(entries) => entries,
        Err(error) => return Err(error),
    };
    ui_finish_progress_bar(sh, steps);
    let owned = pair_entries(plans, &entries);
    let summary = summarize_plans(plans);
    comment_submit(sh, context, frozen, &owned, &config.trunk, store, summary, diagnostics)
}

/// The record from `before` to `after` holds the pushes of a submit and all that follows.
pub open spec fn submit_pushed(
    before: Seq<Event>,
    after: Seq<Event>,
    config: AppConfigView,
    context: AppContextView,
    frozen: Seq<(Seq<char>, PrCacheEntryView)>,
    place: Seq<char>,
    all: Map<(Seq<char>, Seq<char>), PrCacheEntryView>,
    plans: Seq<SubmitPlanView>,
    diagnostics: Diagnostics,
    r: Result<SubmitSummary, Seq<CauseView>>,
) -> bool {
    exists|mid: Seq<Event>, put: Result<(), Seq<CauseView>>|
        {
            &&& #[trigger] planning::heads_pushed(
                before + ui::phase_said(diagnostics, "push-refs"@),
                mid,
                config.remote,
                plans,
                diagnostics,
                put,
            )
            &&& match put {
                Err(e) => record::stopped(mid, after, e, r),
                Ok(_) => submit_requested(
                    mid,
                    after,
                    context,
                    config.trunk,
                    frozen,
                    place,
                    all,
                    plans,
                    diagnostics,
                    r,
                ),
            }
        }
}

fn push_submit<H: Host>(
    sh: &mut Shell<H>,
    config: &AppConfig,
    context: &AppContext,
    frozen: &Vec<(String, PrCacheEntry)>,
    store: &mut CacheStore,
    plans: &Vec<SubmitPlan>,
    diagnostics: Diagnostics,
) -> (r: Result<SubmitSummary, Error>)
    ensures
        record::extends(old(sh).log(), final(sh).log()),
        submit_pushed(
            old(sh).log(),
            final(sh).log(),
            config@,
            context@,
            frozen.deep_view(),
            old(store).place(),
            old(store)@,
            plans.deep_view(),
            diagnostics,
            error::res_of(r),
        ),
{
    let ghost start = sh.log();
    diagnostics.phase(sh, "push-refs");
    let put = push_changed_heads(sh, config, plans, diagnostics);
    assert(planning::heads_pushed(
        start + ui::phase_said(diagnostics, "push-refs"@),
        sh.log(),
        config@.remote,
        plans.deep_view(),
        diagnostics,
        error::res_of(put),
    ));
    match put {
        Err(error) => Err(error),
        Ok(_) => request_submit(sh, config, context, frozen, store, plans, diagnostics),
    }
}

pub open spec fn submit_rows_said(rows: Seq<Seq<char>>) -> Seq<Event> {
    rows.map_values(|line: Seq<char>| Event::Said(LineView::SubmitRow(line)))
}

fn say_submit_rows<H: Host>(sh: &mut Shell<H>, rows: &Vec<String>)
    ensures
        record::extends(old(sh).log(), final(sh).log()),
        final(sh).log() == old(sh).log() + submit_rows_said(rows.deep_view()),
{
    let ghost start = sh.log();
    let ghost said = submit_rows_said(rows.deep_view());
    let mut i: usize = 0;
    assert(sh.log() =~= start + said.take(0));
    while i < rows.len()
        invariant
            i <= rows@.len(),
            said == submit_rows_said(rows.deep_view()),
            sh.log() == start + said.take(i as int),
        decreases rows@.len() - i,
    {
        assert(said[i as int] == Event::Said(LineView::SubmitRow(rows@[i as int]@)));
        sh.say(Line::SubmitRow(rows[i].clone()));
        assert(sh.log() =~= start + said.take(i + 1));
        i = i + 1;
    }
    assert(said.take(i as int) =~= said);
}

/// The record from `before` to `after` holds the question whether to submit and, after a yes, the
/// submit.
pub open spec fn submit_allowed(
    before: Seq<Event>,
    after: Seq<Event>,
    config: AppConfigView,
    context: AppContextView,
    frozen: Seq<(Seq<char>, PrCacheEntryView)>,
    place: Seq<char>,
    all: Map<(Seq<char>, Seq<char>), PrCacheEntryView>,
    plans: Seq<SubmitPlanView>,
    yes: bool,
    yes_command: Seq<char>,
    diagnostics: Diagnostics,
    r: Result<SubmitSummary, Seq<CauseView>>,
) -> bool {
    exists|mid: Seq<Event>, allowed: Result<(), Seq<CauseView>>|
        {
            &&& #[trigger] plans::submit_confirmed(
                before + submit_rows_said(plans::submit_plan_lines(config, plans)),
                mid,
                yes,
                yes_command,
                allowed,
            )
            &&& match allowed {
                Err(e) => record::stopped(mid, after, e, r),
                Ok(_) => submit_pushed(
                    mid,
                    after,
                    config,
                    context,
                    frozen,
                    place,
                    all,
                    plans,
                    diagnostics,
                    r,
                ),
            }
        }
}

fn allow_submit<H: Host>(
    sh: &mut Shell<H>,
    config: &AppConfig,
    context: &AppContext,
    frozen: &Vec<(String, PrCacheEntry)>,
    store: &mut CacheStore,
    plans: &Vec<SubmitPlan>,
    yes: bool,
    yes_command: &str,
    diagnostics: Diagnostics,
) -> (r: Result<SubmitSummary, Error>)
    ensures
        record::extends(old(sh).log(), final(sh).log()),
        submit_allowed(
            old(sh).log(),
            final(sh).log(),
            config@,
            context@,
            frozen.deep_view(),
            old(store).place(),
            old(store)@,
            plans.deep_view(),
            yes,
            yes_command@,
            diagnostics,
            error::res_of(r),
        ),
{
    let ghost start = sh.log();
    let rows = render_submit_action_plan(config, plans);
    say_submit_rows(sh, &rows);
    let allowed = confirm_submit_stack(sh, yes, yes_command);
    assert(plans::submit_confirmed(
        start + submit_rows_said(plans::submit_plan_lines(config@, plans.deep_view())),
        sh.log(),
        yes,
        yes_command@,
        error::res_of(allowed),
    ));
    match allowed {
        Err(error) => Err(error),
        Ok(_) => push_submit(sh, config, context, frozen, store, plans, diagnostics),
    }
}

pub open spec fn discovery_line() -> Seq<char> {
    "- live jj/GitHub discovery ran during planning; SQLite cache writes are skipped"@
}

/// The record from `before` to `after` holds what a plan leads to: a dry run only shows it.
pub open spec fn submit_decided(
    before: Seq<Event>,
    after: Seq<Event>,
    config: AppConfigView,
    context: AppContextView,
    frozen: Seq<(Seq<char>, PrCacheEntryView)>,
    place: Seq<char>,
    all: Map<(Seq<char>, Seq<char>), PrCacheEntryView>,
    plans: Seq<SubmitPlanView>,
    yes: bool,
    yes_command: Seq<char>,
    diagnostics: Diagnostics,
    r: Result<SubmitSummary, Seq<CauseView>>,
) -> bool {
    let told = before + ui::plan_rows_said(
        diagnostics,
        planning::submit_mutation_lines(config.remote, plans),
    );
    if diagnostics.dry_run {
        after == told.push(Event::Said(LineView::Info(discovery_line()))) && r == Ok::<
            _,
            Seq<CauseView>,
        >(planned_summary(plans))
    } else {
        submit_allowed(
            told,
            after,
            config,
            context,
            frozen,
            place,
            all,
            plans,
            yes,
            yes_command,
            diagnostics,
            r,
        )
    }
}

fn decide_submit<H: Host>(
    sh: &mut Shell<H>,
    config: &AppConfig,
    context: &AppContext,
    frozen: &Vec<(String, PrCacheEntry)>,
    store: &mut CacheStore,
    plans: &Vec<SubmitPlan>,
    yes: bool,
    yes_command: &str,
    diagnostics: Diagnostics,
) -> (r: Result<SubmitSummary, Error>)
    ensures
        record::extends(old(sh).log(), final(sh).log()),
        submit_decided(
            old(sh).log(),
            final(sh).log(),
            config@,
            context@,
            frozen.deep_view(),
            old(store).place(),
            old(store)@,
            plans.deep_view(),
            yes,
            yes_command@,
            diagnostics,
            error::res_of(r),
        ),
{
    diagnostics.print_submit_plan(sh, config, plans);
    if diagnostics.dry_run {
        let ghost told = sh.log();
        diagnostics.plan_line(
            sh,
            "- live jj/GitHub discovery ran during planning; SQLite cache writes are skipped",
        );
        assert(sh.log() =~= told.push(Event::Said(LineView::Info(discovery_line()))));
        return Ok(summarize_plans(plans));
    }
    allow_submit(
        sh,
        config,
        context,
        frozen,
        store,
        plans,
        yes,
        yes_command,
        diagnostics,
    )
}

/// The branch that a stack stands on: the head of the topmost frozen pull request, or trunk.
pub open spec fn first_base(trunk: Seq<char>, frozen: Seq<(Seq<char>, PrCacheEntryView)>) -> Seq<
    char,
> {
    if frozen.len() > 0 {
        frozen.last().1.head_branch
    } else {
        trunk
    }
}

pub open spec fn submit_planned(
    before: Seq<Event>,
    after: Seq<Event>,
    config: AppConfigView,
    context: AppContextView,
    frozen: Seq<(Seq<char>, PrCacheEntryView)>,
    place: Seq<char>,
    all: Map<(Seq<char>, Seq<char>), PrCacheEntryView>,
    yes: bool,
    yes_command: Seq<char>,
    diagnostics: Diagnostics,
    r: Result<SubmitSummary, Seq<CauseView>>,
) -> bool {
    exists|mid: Seq<Event>, plans: Result<Seq<SubmitPlanView>, Seq<CauseView>>|
        {
            &&& #[trigger] planning::stack_planned(
                before,
                mid,
                config,
                context.github,
                all,
                context.stack,
                first_base(config.trunk, frozen),
                plans,
            )
            &&& match plans {
                Err(e) => record::stopped(mid, after, e, r),
                Ok(plans) => submit_decided(
                    mid,
                    after,
                    config,
                    context,
                    frozen,
                    place,
                    all,
                    plans,
                    yes,
                    yes_command,
                    diagnostics,
                    r,
                ),
            }
        }
}

fn plan_submit<H: Host>(
    sh: &mut Shell<H>,
    config: &AppConfig,
    context: &AppContext,
    frozen: &Vec<(String, PrCacheEntry)>,
    store: &mut CacheStore,
    yes: bool,
    yes_command: &str,
    diagnostics: Diagnostics,
) -> (r: Result<SubmitSummary, Error>)
    ensures
        record::extends(old(sh).log(), final(sh).log()),
        submit_planned(
            old(sh).log(),
            final(sh).log(),
            config@,
            context@,
            frozen.deep_view(),
            old(store).place(),
            old(store)@,
            yes,
            yes_command@,
            diagnostics,
            error::res_of(r),
        ),
{
    let n: usize = frozen.len();
    let first = if n > 0 {
        assert(frozen.deep_view().last() == (frozen@[n - 1].0@, frozen@[n - 1].1@));
        frozen[n - 1].1.head_branch.clone()
    } else {
        config.trunk.clone()
    };
    let planned = plan_stack(sh, config, &context.github, store, &context.stack, &first);
    let ghost seen = error::res(planned);
    assert(planning::stack_planned(
        old(sh).log(),
        sh.log(),
        config@,
        context@.github,
        store@,
        context@.stack,
        first_base(config@.trunk, frozen.deep_view()),
        seen,
    ));
    match planned {
        Err(error) => Err(error),
        Ok(plans) => decide_submit(
            sh,
            config,
            context,
            frozen,
            store,
            &plans,
            yes,
            yes_command,
            diagnostics,
        ),
    }
}

pub open spec fn submit_grounded(
    before: Seq<Event>,
    after: Seq<Event>,
    config: AppConfigView,
    context: AppContextView,
    place: Seq<char>,
    all: Map<(Seq<char>, Seq<char>), PrCacheEntryView>,
    yes: bool,
    yes_command: Seq<char>,
    diagnostics: Diagnostics,
    r: Result<SubmitSummary, Seq<CauseView>>,
) -> bool {
    exists|mid: Seq<Event>, frozen: Result<Seq<(Seq<char>, PrCacheEntryView)>, Seq<CauseView>>|
        {
            &&& #[trigger] planning::frozen_entries_resolved(
                before,
                mid,
                context.github.repo,
                context.frozen_dependencies,
                frozen,
            )
            &&& match frozen {
                Err(e) => record::stopped(
                    mid,
                    after,
                    error::phase_failure("plan-submit"@, "frozen dependencies"@, e),
                    r,
                ),
                Ok(frozen) => submit_planned(
                    mid,
                    after,
                    config,
                    context,
                    frozen,
                    place,
                    all,
                    yes,
                    yes_command,
                    diagnostics,
                    r,
                ),
            }
        }
}

fn ground_submit<H: Host>(
    sh: &mut Shell<H>,
    config: &AppConfig,
    context: &AppContext,
    store: &mut CacheStore,
    yes: bool,
    yes_command: &str,
    diagnostics: Diagnostics,
) -> (r: Result<SubmitSummary, Error>)
    ensures
        record::extends(old(sh).log(), final(sh).log()),
        submit_grounded(
            old(sh).log(),
            final(sh).log(),
            config@,
            context@,
            old(store).place(),
            old(store)@,
            yes,
            yes_command@,
            diagnostics,
            error::res_of(r),
        ),
{
    let resolved = resolve_submit_frozen_dependency_entries(
        sh,
        &context.github,
        &context.frozen_dependencies,
    );
    let ghost seen = error::res(resolved);
    assert(planning::frozen_entries_resolved(
        old(sh).log(),
        sh.log(),
        context@.github.repo,
        context@.frozen_dependencies,
        seen,
    ));
    match resolved {
        Err(error) => Err(phase_error("plan-submit", "frozen dependencies", error)),
        Ok(frozen) => plan_submit(
            sh,
            config,
            context,
            &frozen,
            store,
            yes,
            yes_command,
            diagnostics,
        ),
    }
}

pub open spec fn submit_opened(
    before: Seq<Event>,
    after: Seq<Event>,
    config: AppConfigView,
    context: AppContextView,
    yes: bool,
    yes_command: Seq<char>,
    diagnostics: Diagnostics,
    r: Result<SubmitSummary, Seq<CauseView>>,
) -> bool {
    exists|
        mid: Seq<Event>,
        opened: Result<
            (Seq<char>, Map<(Seq<char>, Seq<char>), PrCacheEntryView>),
            Seq<CauseView>,
        >,
    |
        {
            &&& #[trigger] cache::cache_opened(
                before + ui::phase_said(diagnostics, "plan-submit"@),
                mid,
                "plan-submit"@,
                opened,
            )
            &&& match opened {
                Err(e) => record::stopped(mid, after, error::phase_failure("plan-submit"@, "cache"@, e), r),
                Ok((place, all)) => submit_grounded(
                    mid,
                    after,
                    config,
                    context,
                    place,
                    all,
                    yes,
                    yes_command,
                    diagnostics,
                    r,
                ),
            }
        }
}

fn open_submit<H: Host>(
    sh: &mut Shell<H>,
    config: &AppConfig,
    context: &AppContext,
    yes: bool,
    yes_command: &str,
    diagnostics: Diagnostics,
) -> (r: Result<SubmitSummary, Error>)
    ensures
        record::extends(old(sh).log(), final(sh).log()),
        submit_opened(
            old(sh).log(),
            final(sh).log(),
            config@,
            context@,
            yes,
            yes_command@,
            diagnostics,
            error::res_of(r),
        ),
{
    let ghost start = sh.log();
    diagnostics.phase(sh, "plan-submit");
    let loaded = CacheStore::load_current_best_effort(sh, "plan-submit");
    let ghost opened = cache::store_parts(loaded);
    assert(cache::cache_opened(
        start + ui::phase_said(diagnostics, "plan-submit"@),
        sh.log(),
        "plan-submit"@,
        opened,
    ));
    match loaded {
        Err(error) => Err(phase_error("plan-submit", "cache", error)),
        Ok(store) => {
            let mut store = store;
            ground_submit(sh, config, context, &mut store, yes, yes_command, diagnostics)
        },
    }
}

/// The record from `before` to `after` holds how a stack is submitted: nothing is pushed before every
/// change stands on its base, has a description and has a plan, and the plan was confirmed; then the
/// branches are pushed, the pull requests opened or updated, and their comments written, in this
/// order. A dry run shows the plan and stops there.
pub open spec fn stack_submitted(
    before: Seq<Event>,
    after: Seq<Event>,
    config: AppConfigView,
    context: AppContextView,
    yes: bool,
    yes_command: Seq<char>,
    diagnostics: Diagnostics,
    r: Result<SubmitSummary, Seq<CauseView>>,
) -> bool {
    exists|mid: Seq<Event>, based: Result<(), Seq<CauseView>>|
        {
            &&& #[trigger] planning::bases_checked(
                before + ui::phase_said(diagnostics, "validate-submit-bases"@),
                mid,
                config.trunk,
                context.stack,
                context.frozen_dependencies,
                based,
            )
            &&& match based {
                Err(e) => record::stopped(
                    mid,
                    after,
                    error::phase_failure("validate-submit-bases"@, "stack"@, e),
                    r,
                ),
                Ok(_) => match planning::descriptions_result(context.stack) {
                    Err(e) => record::stopped(
                        mid,
                        after,
                        error::phase_failure("validate-submit-bases"@, "stack"@, e),
                        r,
                    ),
                    Ok(_) => submit_opened(
                        mid,
                        after,
                        config,
                        context,
                        yes,
                        yes_command,
                        diagnostics,
                        r,
                    ),
                },
            }
        }
}

pub fn submit_stack<H: Host>(
    sh: &mut Shell<H>,
    config: &AppConfig,
    context: &AppContext,
    yes: bool,
    yes_command: &str,
    diagnostics: Diagnostics,
) -> (r: Result<SubmitSummary, Error>)
    ensures
        record::extends(old(sh).log(), final(sh).log()),
        stack_submitted(
            old(sh).log(),
            final(sh).log(),
            config@,
            context@,
            yes,
            yes_command@,
            diagnostics,
            error::res_of(r),
        ),
{
    let ghost start = sh.log();
    diagnostics.phase(sh, "validate-submit-bases");
    let based = validate_submit_bases(sh, config, &context.stack, &context.frozen_dependencies);
    assert(planning::bases_checked(
        start + ui::phase_said(diagnostics, "validate-submit-bases"@),
        sh.log(),
        config@.trunk,
        context@.stack,
        context@.frozen_dependencies,
        error::res_of(based),
    ));
    match based {
        Err(error) => return Err(phase_error("validate-submit-bases", "stack", error)),
        Ok(_) => {},
    }
    match validate_submit_descriptions(&context.stack) {
        Err(error) => Err(phase_error("validate-submit-bases", "stack", error)),
        Ok(_) => open_submit(sh, config, context, yes, yes_command, diagnostics),
    }
}

} // verus!
