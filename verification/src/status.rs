//! The state of a stack at a glance.

use vstd::prelude::*;

use crate::branches;
use crate::branches::deterministic_head_branch;
use crate::cache;
use crate::cache::CacheStore;
use crate::candidates;
use crate::candidates::validate_merge_frozen_dependencies;
use crate::config;
use crate::config::{
    JJ_CONFIG_BASE_IMMUTABLE_ALIAS_KEY, JJ_CONFIG_FROZEN_ALIAS_KEY, JJ_CONFIG_IMMUTABLE_ALIAS_KEY,
    jj_config_optional, jj_config_required, plan_startup_config,
};
use crate::context;
use crate::context::resolve_stack_context;
use crate::error;
use crate::error::{CauseView, Error};
use crate::heads;
use crate::heads::{SubmitHeadView, resolve_submit_head_branch};
use crate::model::{
    AppConfig, AppConfigView, AppContext, AppContextView, Diagnostics, Duplicate, FrozenDependency,
    FrozenDependencyView, GhMergePrView, GhPr, GhPrView, GitHubContext, GitHubContextView,
    PrCacheEntryView, ResolvedChange, ResolvedChangeView, StartupConfigAction,
    StartupConfigActionView, StatusAliasState, StatusAliasStateView, StatusFrozenDependency,
    StatusFrozenDependencyView, StatusOwnedPr, StatusOwnedPrView, StatusReport, StatusReportView,
    SubmitPlanView,
};
use crate::planning;
use crate::planning::pr_metadata_changed;
use crate::pr;
use crate::pr::{fetch_pr_by_number, hash_text, state_is_open};
use crate::ready;
use crate::ready::{fetch_pr_for_merge, option_text, validate_pr_ready_for_merge};
use crate::record;
use crate::record::{Event, LineView};
use crate::shell::{Host, Line};
use crate::shell::wire::Shell;
use crate::text;
use crate::text::{
    cat, cat3, cat5, cat7, copy_list, copy_option, number_text, same, same_ignoring_case,
    text_contains,
};
use crate::ui;

verus! {

broadcast use crate::record::group_record;

// ---------------------------------------------------------------------------
// Aliases
// ---------------------------------------------------------------------------

pub open spec fn needed_rows(actions: Seq<StartupConfigActionView>) -> Seq<Seq<char>> {
    actions.map_values(|a: StartupConfigActionView| "set "@ + a.key + " = "@ + a.value)
}

fn needed_texts(actions: &Vec<StartupConfigAction>) -> (r: Vec<String>)
    ensures
        r.deep_view() == needed_rows(actions.deep_view()),
{
    let mut rows: Vec<String> = Vec::new();
    let ghost want = needed_rows(actions.deep_view());
    let mut i: usize = 0;
    while i < actions.len()
        invariant
            i <= actions@.len(),
            want == needed_rows(actions.deep_view()),
            rows.deep_view() == want.take(i as int),
        decreases actions@.len() - i,
    {
        let ghost before = rows.deep_view();
        let mut row = cat3("set ", &actions[i].key, " = ");
        row.append(&actions[i].value);
        assert(want[i as int] == row@);
        let ghost put = row@;
        rows.push(row);
        assert(rows.deep_view() =~= before.push(put));
        assert(want.take(i + 1) =~= want.take(i as int).push(put));
        i = i + 1;
    }
    assert(want.take(i as int) =~= want);
    rows
}

pub open spec fn alias_state(
    frozen: Option<Seq<char>>,
    immutable: Seq<char>,
    base: Option<Seq<char>>,
) -> Result<StatusAliasStateView, Seq<CauseView>> {
    match config::startup_plan(frozen, immutable, base) {
        Err(e) => Err(e),
        Ok(actions) => Ok(
            StatusAliasStateView {
                frozen_heads: frozen,
                immutable_heads: Some(immutable),
                base_immutable_heads: base,
                actions_needed: needed_rows(actions),
            },
        ),
    }
}

pub open spec fn base_alias_read(
    before: Seq<Event>,
    after: Seq<Event>,
    frozen: Option<Seq<char>>,
    immutable: Seq<char>,
    r: Result<StatusAliasStateView, Seq<CauseView>>,
) -> bool {
    &&& record::called(before, after, "jj"@, config::config_get_args(JJ_CONFIG_BASE_IMMUTABLE_ALIAS_KEY@))
    &&& r == match config::optional_alias(record::last_reply(after)) {
        Err(e) => Err(e),
        Ok(base) => alias_state(frozen, immutable, base),
    }
}

fn read_base_alias<H: Host>(sh: &mut Shell<H>, frozen: Option<String>, immutable: String) -> (r: Result<
    StatusAliasState,
    Error,
>)
    ensures
        record::extends(old(sh).log(), final(sh).log()),
        base_alias_read(
            old(sh).log(),
            final(sh).log(),
            frozen.deep_view(),
            immutable@,
            error::res(r),
        ),
{
    match jj_config_optional(sh, JJ_CONFIG_BASE_IMMUTABLE_ALIAS_KEY) {
        Err(error) => Err(error),
        Ok(base) => match plan_startup_config(&frozen, &immutable, &base) {
            Err(error) => Err(error),
            Ok(actions) => Ok(
                StatusAliasState {
                    frozen_heads: frozen,
                    immutable_heads: Some(immutable),
                    base_immutable_heads: base,
                    actions_needed: needed_texts(&actions),
                },
            ),
        },
    }
}

pub open spec fn immutable_alias_read(
    before: Seq<Event>,
    after: Seq<Event>,
    frozen: Option<Seq<char>>,
    r: Result<StatusAliasStateView, Seq<CauseView>>,
) -> bool {
    exists|mid: Seq<Event>|
        {
            &&& #[trigger] record::called(
                before,
                mid,
                "jj"@,
                config::config_get_args(JJ_CONFIG_IMMUTABLE_ALIAS_KEY@),
            )
            &&& match config::required_alias(JJ_CONFIG_IMMUTABLE_ALIAS_KEY@, record::last_reply(mid)) {
                Err(e) => record::stopped(mid, after, e, r),
                Ok(immutable) => base_alias_read(mid, after, frozen, immutable, r),
            }
        }
}

fn read_immutable_alias<H: Host>(sh: &mut Shell<H>, frozen: Option<String>) -> (r: Result<
    StatusAliasState,
    Error,
>)
    ensures
        record::extends(old(sh).log(), final(sh).log()),
        immutable_alias_read(old(sh).log(), final(sh).log(), frozen.deep_view(), error::res(r)),
{
    let immutable = jj_config_required(sh, JJ_CONFIG_IMMUTABLE_ALIAS_KEY);
    assert(record::called(
        old(sh).log(),
        sh.log(),
        "jj"@,
        config::config_get_args(JJ_CONFIG_IMMUTABLE_ALIAS_KEY@),
    ));
    match immutable {
        Err(error) => Err(error),
        Ok(immutable) => read_base_alias(sh, frozen, immutable),
    }
}

/// The record from `before` to `after` holds how the revset aliases are read.
pub open spec fn aliases_read(
    before: Seq<Event>,
    after: Seq<Event>,
    r: Result<StatusAliasStateView, Seq<CauseView>>,
) -> bool {
    exists|mid: Seq<Event>|
        {
            &&& #[trigger] record::called(before, mid, "jj"@, config::config_get_args(JJ_CONFIG_FROZEN_ALIAS_KEY@))
            &&& match config::optional_alias(record::last_reply(mid)) {
                Err(e) => record::stopped(mid, after, e, r),
                Ok(frozen) => immutable_alias_read(mid, after, frozen, r),
            }
        }
}

pub fn status_alias_state<H: Host>(sh: &mut Shell<H>) -> (r: Result<StatusAliasState, Error>)
    ensures
        record::extends(old(sh).log(), final(sh).log()),
        aliases_read(old(sh).log(), final(sh).log(), error::res(r)),
{
    let frozen = jj_config_optional(sh, JJ_CONFIG_FROZEN_ALIAS_KEY);
    assert(record::called(
        old(sh).log(),
        sh.log(),
        "jj"@,
        config::config_get_args(JJ_CONFIG_FROZEN_ALIAS_KEY@),
    ));
    match frozen {
        Err(error) => Err(error),
        Ok(frozen) => read_immutable_alias(sh, frozen),
    }
}

// ---------------------------------------------------------------------------
// Frozen dependencies
// ---------------------------------------------------------------------------

/// What is wrong with a frozen dependency whose pull request could be fetched.
pub open spec fn frozen_problem(dependency: FrozenDependencyView, pr: GhPrView) -> Option<Seq<char>> {
    if pr.head_ref_oid != dependency.change.commit_id {
        Some(
            "frozen dependency `"@ + dependency.bookmark.name + "` is stale: local "@
                + dependency.change.commit_id + " but GitHub "@ + pr::hash(pr.number) + " head is "@
                + pr.head_ref_oid + "; run `forklift sync`"@,
        )
    } else if !pr::is_open(pr.state) && text::lower_all(pr.state) != text::lower_all("MERGED"@) {
        Some(
            "frozen dependency `"@ + dependency.bookmark.name + "` "@ + pr::hash(pr.number) + " is `"@
                + pr.state + "`; run `forklift sync`"@,
        )
    } else {
        None
    }
}

fn judge_frozen(dependency: &FrozenDependency, pr: &GhPr) -> (r: Option<String>)
    ensures
        r.deep_view() == frozen_problem(dependency@, pr@),
{
    if !same(&pr.head_ref_oid, &dependency.change.commit_id) {
        let mut message = cat5(
            "frozen dependency `",
            &dependency.bookmark.name,
            "` is stale: local ",
            &dependency.change.commit_id,
            " but GitHub ",
        );
        message.append(&hash_text(pr.number));
        message.append(" head is ");
        message.append(&pr.head_ref_oid);
        message.append("; run `forklift sync`");
        return Some(message);
    }
    if !state_is_open(&pr.state) && !same_ignoring_case(&pr.state, "MERGED") {
        return Some(
            cat7(
                "frozen dependency `",
                &dependency.bookmark.name,
                "` ",
                &hash_text(pr.number),
                " is `",
                &pr.state,
                "`; run `forklift sync`",
            ),
        );
    }
    None
}

/// The row of one frozen dependency.
pub open spec fn frozen_status(
    dependency: FrozenDependencyView,
    got: Result<GhPrView, Seq<CauseView>>,
) -> StatusFrozenDependencyView {
    StatusFrozenDependencyView {
        bookmark: dependency.bookmark.name,
        pr_number: dependency.bookmark.pr_number,
        change_id: dependency.change.change_id,
        commit_id: dependency.change.commit_id,
        title: dependency.change.title,
        head_branch: match got {
            Ok(pr) => Some(pr.head_ref_name),
            Err(e) => None,
        },
        state: match got {
            Ok(pr) => pr.state,
            Err(e) => "UNKNOWN"@,
        },
        problem: match got {
            Ok(pr) => frozen_problem(dependency, pr),
            Err(e) => Some(error::top_line(e)),
        },
    }
}

pub fn frozen_status_row(dependency: &FrozenDependency, got: Result<GhPr, Error>) -> (r:
    StatusFrozenDependency)
    ensures
        r@ == frozen_status(dependency@, error::res(got)),
{
    let bookmark = dependency.bookmark.name.clone();
    let pr_number: u64 = dependency.bookmark.pr_number;
    let change_id = dependency.change.change_id.clone();
    let commit_id = dependency.change.commit_id.clone();
    let title = dependency.change.title.clone();
    match got {
        Ok(pr) => {
            let problem = judge_frozen(dependency, &pr);
            StatusFrozenDependency {
                bookmark,
                pr_number,
                change_id,
                commit_id,
                title,
                head_branch: Some(pr.head_ref_name),
                state: pr.state,
                problem,
            }
        },
        Err(error) => StatusFrozenDependency {
            bookmark,
            pr_number,
            change_id,
            commit_id,
            title,
            head_branch: None,
            state: "UNKNOWN".to_owned(),
            problem: Some(error.top()),
        },
    }
}

/// The record from `before` to `after` holds how each frozen dependency is looked up; none of it can
/// fail the report.
pub open spec fn frozen_surveyed(
    before: Seq<Event>,
    after: Seq<Event>,
    repo: Seq<char>,
    dependencies: Seq<FrozenDependencyView>,
    done: Seq<StatusFrozenDependencyView>,
    r: Seq<StatusFrozenDependencyView>,
) -> bool
    decreases dependencies.len() - done.len(),
{
    if done.len() >= dependencies.len() {
        after == before && r == done
    } else {
        let dependency = dependencies[done.len() as int];
        exists|mid: Seq<Event>, got: Result<GhPrView, Seq<CauseView>>|
            {
                &&& #[trigger] pr::pr_fetched(
                    before,
                    mid,
                    repo,
                    dependency.change.change_id,
                    dependency.bookmark.pr_number,
                    got,
                )
                &&& frozen_surveyed(
                    mid,
                    after,
                    repo,
                    dependencies,
                    done.push(frozen_status(dependency, got)),
                    r,
                )
            }
    }
}

fn survey_frozen<H: Host>(
    sh: &mut Shell<H>,
    github: &GitHubContext,
    dependencies: &Vec<FrozenDependency>,
    done: Vec<StatusFrozenDependency>,
) -> (r: Vec<StatusFrozenDependency>)
    requires
        done@.len() <= dependencies@.len(),
    ensures
        record::extends(old(sh).log(), final(sh).log()),
        frozen_surveyed(
            old(sh).log(),
            final(sh).log(),
            github@.repo,
            dependencies.deep_view(),
            done.deep_view(),
            r.deep_view(),
        ),
    decreases dependencies@.len() - done@.len(),
{
    let n: usize = done.len();
    if n == dependencies.len() {
        return done;
    }
    let ghost start = sh.log();
    let ghost before = done.deep_view();
    let dependency = &dependencies[n];
    assert(dependencies.deep_view()[n as int] == dependency@);
    let got = fetch_pr_by_number(
        sh,
        github,
        &dependency.change.change_id,
        dependency.bookmark.pr_number,
    );
    let ghost seen = error::res(got);
    assert(pr::pr_fetched(
        start,
        sh.log(),
        github@.repo,
        dependency@.change.change_id,
        dependency@.bookmark.pr_number,
        seen,
    ));
    let row = frozen_status_row(dependency, got);
    let ghost put = row@;
    let mut done = done;
    done.push(row);
    assert(done.deep_view() =~= before.push(put));
    survey_frozen(sh, github, dependencies, done)
}

pub open spec fn all_frozen_surveyed(
    before: Seq<Event>,
    after: Seq<Event>,
    repo: Seq<char>,
    dependencies: Seq<FrozenDependencyView>,
    r: Seq<StatusFrozenDependencyView>,
) -> bool {
    frozen_surveyed(before, after, repo, dependencies, seq![], r)
}

pub fn status_frozen_dependencies<H: Host>(
    sh: &mut Shell<H>,
    github: &GitHubContext,
    dependencies: &Vec<FrozenDependency>,
) -> (r: Vec<StatusFrozenDependency>)
    ensures
        record::extends(old(sh).log(), final(sh).log()),
        all_frozen_surveyed(
            old(sh).log(),
            final(sh).log(),
            github@.repo,
            dependencies.deep_view(),
            r.deep_view(),
        ),
{
    let none: Vec<StatusFrozenDependency> = Vec::new();
    assert(none.deep_view() =~= Seq::<StatusFrozenDependencyView>::empty());
    survey_frozen(sh, github, dependencies, none)
}

// ---------------------------------------------------------------------------
// Owned changes
// ---------------------------------------------------------------------------

pub open spec fn status_action(plan: SubmitPlanView) -> Seq<char> {
    if plan.existing_pr is None {
        "create"@
    } else if plan.pr_update_needed {
        "update"@
    } else {
        "unchanged"@
    }
}

/// The row of a change that can be submitted.
pub open spec fn ready_row(
    change: ResolvedChangeView,
    base_branch: Seq<char>,
    head: SubmitHeadView,
) -> StatusOwnedPrView {
    StatusOwnedPrView {
        change_id: change.change_id,
        commit_id: change.commit_id,
        title: change.title,
        head_branch: head.head_branch,
        base_branch,
        pr_number: match head.existing_pr {
            Some(entry) => Some(entry.pr_number),
            None => None,
        },
        action: status_action(planning::plan_of(change, base_branch, head)),
        bookmark_problem: None,
    }
}

/// The row of a change that cannot be submitted: it shows the branch that the change would get.
pub open spec fn is_blocked_row(
    row: StatusOwnedPrView,
    config: AppConfigView,
    change: ResolvedChangeView,
    base_branch: Seq<char>,
    used: Seq<Seq<char>>,
    problem: Seq<char>,
) -> bool {
    &&& branches::is_unused_branch(row.head_branch, branches::head_branch_base(config, change), used)
    &&& row == StatusOwnedPrView {
        change_id: change.change_id,
        commit_id: change.commit_id,
        title: change.title,
        head_branch: row.head_branch,
        base_branch,
        pr_number: None,
        action: "blocked"@,
        bookmark_problem: Some(problem),
    }
}

/// The record from `before` to `after` holds how one owned change is looked up.
#[verifier::opaque]
pub open spec fn owned_surveyed(
    before: Seq<Event>,
    after: Seq<Event>,
    config: AppConfigView,
    github: GitHubContextView,
    all: Map<(Seq<char>, Seq<char>), PrCacheEntryView>,
    change: ResolvedChangeView,
    base_branch: Seq<char>,
    used: Seq<Seq<char>>,
    row: StatusOwnedPrView,
) -> bool {
    exists|got: Result<SubmitHeadView, Seq<CauseView>>|
        {
            &&& #[trigger] heads::head_resolved(before, after, config, github, change, all, used, got)
            &&& match got {
                Ok(head) => row == ready_row(change, base_branch, head),
                Err(e) => is_blocked_row(row, config, change, base_branch, used, error::top_line(e)),
            }
        }
}

fn survey_owned<H: Host>(
    sh: &mut Shell<H>,
    config: &AppConfig,
    github: &GitHubContext,
    store: &CacheStore,
    change: &ResolvedChange,
    base_branch: String,
    used: &Vec<String>,
) -> (row: StatusOwnedPr)
    ensures
        record::extends(old(sh).log(), final(sh).log()),
        owned_surveyed(
            old(sh).log(),
            final(sh).log(),
            config@,
            github@,
            store@,
            change@,
            base_branch@,
            used.deep_view(),
            row@,
        ),
{
    proof {
        reveal(owned_surveyed);
    }
    let got = resolve_submit_head_branch(sh, config, used, store, github, change);
    let ghost seen = error::res(got);
    assert(heads::head_resolved(
        old(sh).log(),
        sh.log(),
        config@,
        github@,
        change@,
        store@,
        used.deep_view(),
        seen,
    ));
    let change_id = change.change_id.clone();
    let commit_id = change.commit_id.clone();
    let title = change.title.clone();
    match got {
        Ok(head) => {
            let push_needed = match &head.expected_remote_head {
                Some(at) => !same(at, &change.commit_id),
                None => true,
            };
            let (pr_number, action): (Option<u64>, &str) = match &head.existing_pr {
                None => (None, "create"),
                Some(entry) => if push_needed || pr_metadata_changed(entry, &base_branch, change) {
                    (Some(entry.pr_number), "update")
                } else {
                    (Some(entry.pr_number), "unchanged")
                },
            };
            StatusOwnedPr {
                change_id,
                commit_id,
                title,
                head_branch: head.head_branch,
                base_branch,
                pr_number,
                action: action.to_owned(),
                bookmark_problem: None,
            }
        },
        Err(error) => {
            let head_branch = deterministic_head_branch(config, change, used);
            StatusOwnedPr {
                change_id,
                commit_id,
                title,
                head_branch,
                base_branch,
                pr_number: None,
                action: "blocked".to_owned(),
                bookmark_problem: Some(error.top()),
            }
        },
    }
}

/// The branches that the rows so far have taken.
pub open spec fn taken_heads(rows: Seq<StatusOwnedPrView>) -> Seq<Seq<char>>
    decreases rows.len(),
{
    if rows.len() == 0 {
        seq![]
    } else if rows.last().bookmark_problem is None {
        taken_heads(rows.drop_last()).push(rows.last().head_branch)
    } else {
        taken_heads(rows.drop_last())
    }
}

/// The problems that the rows show, in order.
pub open spec fn row_problems(rows: Seq<StatusOwnedPrView>) -> Seq<Seq<char>>
    decreases rows.len(),
{
    if rows.len() == 0 {
        seq![]
    } else {
        match rows.last().bookmark_problem {
            Some(problem) => row_problems(rows.drop_last()).push(problem),
            None => row_problems(rows.drop_last()),
        }
    }
}

/// The base of the next row: the head of the row below, or the base of the whole stack.
pub open spec fn row_base(first: Seq<char>, rows: Seq<StatusOwnedPrView>) -> Seq<char> {
    if rows.len() > 0 {
        rows.last().head_branch
    } else {
        first
    }
}

/// The record from `before` to `after` holds how the owned changes are looked up, bottom first.
pub open spec fn stack_surveyed(
    before: Seq<Event>,
    after: Seq<Event>,
    config: AppConfigView,
    github: GitHubContextView,
    all: Map<(Seq<char>, Seq<char>), PrCacheEntryView>,
    stack: Seq<ResolvedChangeView>,
    first: Seq<char>,
    done: Seq<StatusOwnedPrView>,
    r: Seq<StatusOwnedPrView>,
) -> bool
    decreases stack.len() - done.len(),
{
    if done.len() >= stack.len() {
        after == before && r == done
    } else {
        exists|mid: Seq<Event>, row: StatusOwnedPrView|
            {
                &&& #[trigger] owned_surveyed(
                    before,
                    mid,
                    config,
                    github,
                    all,
                    stack[done.len() as int],
                    row_base(first, done),
                    taken_heads(done),
                    row,
                )
                &&& stack_surveyed(
                    mid,
                    after,
                    config,
                    github,
                    all,
                    stack,
                    first,
                    done.push(row),
                    r,
                )
            }
    }
}

fn survey_stack<H: Host>(
    sh: &mut Shell<H>,
    config: &AppConfig,
    github: &GitHubContext,
    store: &CacheStore,
    stack: &Vec<ResolvedChange>,
    first: &str,
    used: Vec<String>,
    done: Vec<StatusOwnedPr>,
) -> (r: Vec<StatusOwnedPr>)
    requires
        done@.len() <= stack@.len(),
        used.deep_view() == taken_heads(done.deep_view()),
    ensures
        record::extends(old(sh).log(), final(sh).log()),
        r@.len() == stack@.len(),
        stack_surveyed(
            old(sh).log(),
            final(sh).log(),
            config@,
            github@,
            store@,
            stack.deep_view(),
            first@,
            done.deep_view(),
            r.deep_view(),
        ),
    decreases stack@.len() - done@.len(),
{
    let n: usize = done.len();
    if n == stack.len() {
        return done;
    }
    let ghost start = sh.log();
    let ghost before = done.deep_view();
    let ghost taken = used.deep_view();
    assert(stack.deep_view()[n as int] == stack@[n as int]@);
    let base = if n > 0 {
        assert(before.last() == done@[n - 1]@);
        done[n - 1].head_branch.clone()
    } else {
        first.to_owned()
    };
    let row = survey_owned(sh, config, github, store, &stack[n], base, &used);
    let ghost put = row@;
    assert(owned_surveyed(
        start,
        sh.log(),
        config@,
        github@,
        store@,
        stack.deep_view()[n as int],
        row_base(first@, before),
        taken_heads(before),
        put,
    ));
    let mut used = used;
    if row.bookmark_problem.is_none() {
        used.push(row.head_branch.clone());
        assert(used.deep_view() =~= taken.push(put.head_branch));
    }
    let mut done = done;
    done.push(row);
    assert(done.deep_view() =~= before.push(put));
    assert(before.push(put).drop_last() =~= before);
    survey_stack(sh, config, github, store, stack, first, used, done)
}

// ---------------------------------------------------------------------------
// What stands against a merge
// ---------------------------------------------------------------------------

pub open spec fn readiness_blockers(
    config: AppConfigView,
    change: ResolvedChangeView,
    pr: GhMergePrView,
    free: Result<(), Seq<CauseView>>,
) -> Seq<Seq<char>> {
    match free {
        Err(e) => seq![error::top_line(e)],
        Ok(_) => match ready::merge_fault(config, change, pr::merge_entry_of(pr, None), pr, false) {
            Some(message) => seq![error::top_line(error::plain(message))],
            None => seq![],
        },
    }
}

pub open spec fn dependencies_blocking(
    before: Seq<Event>,
    after: Seq<Event>,
    config: AppConfigView,
    context: AppContextView,
    pr: GhMergePrView,
    r: Seq<Seq<char>>,
) -> bool {
    exists|free: Result<(), Seq<CauseView>>|
        {
            &&& #[trigger] candidates::merge_dependencies_checked(
                before,
                after,
                config.trunk,
                context,
                pr,
                free,
            )
            &&& r == readiness_blockers(config, context.stack[0], pr, free)
        }
}

pub open spec fn bottom_blocking(
    before: Seq<Event>,
    after: Seq<Event>,
    config: AppConfigView,
    context: AppContextView,
    number: u64,
    r: Seq<Seq<char>>,
) -> bool {
    exists|mid: Seq<Event>, got: Result<GhMergePrView, Seq<CauseView>>|
        {
            &&& #[trigger] ready::merge_pr_fetched(
                before,
                mid,
                context.github.repo,
                context.stack[0].change_id,
                number,
                got,
            )
            &&& match got {
                Err(e) => after == mid && r == seq![error::top_line(e)],
                Ok(pr) => dependencies_blocking(mid, after, config, context, pr, r),
            }
        }
}

/// The record from `before` to `after` holds the search for what stands against the merge of the bottom
/// pull request.
pub open spec fn merge_blocking(
    before: Seq<Event>,
    after: Seq<Event>,
    config: AppConfigView,
    context: AppContextView,
    rows: Seq<StatusOwnedPrView>,
    r: Seq<Seq<char>>,
) -> bool {
    if context.stack.len() == 0 || rows.len() == 0 {
        after == before && r == Seq::<Seq<char>>::empty()
    } else {
        match rows[0].pr_number {
            None => after == before && r == seq!["run `forklift submit` before merging"@],
            Some(number) => bottom_blocking(before, after, config, context, number, r),
        }
    }
}

fn one_text(text: String) -> (r: Vec<String>)
    ensures
        r.deep_view() == seq![text@],
{
    let mut rows: Vec<String> = Vec::new();
    let ghost put = text@;
    rows.push(text);
    assert(rows.deep_view() =~= seq![put]);
    rows
}

fn block_bottom<H: Host>(
    sh: &mut Shell<H>,
    config: &AppConfig,
    context: &AppContext,
    number: u64,
) -> (r: Vec<String>)
    requires
        context.stack@.len() > 0,
    ensures
        record::extends(old(sh).log(), final(sh).log()),
        bottom_blocking(
            old(sh).log(),
            final(sh).log(),
            config@,
            context@,
            number,
            r.deep_view(),
        ),
{
    let change = &context.stack[0];
    assert(context@.stack[0] == change@);
    let got = fetch_pr_for_merge(sh, &context.github, &change.change_id, number);
    let ghost mid = sh.log();
    let ghost seen = error::res(got);
    assert(ready::merge_pr_fetched(
        old(sh).log(),
        mid,
        context@.github.repo,
        context@.stack[0].change_id,
        number,
        seen,
    ));
    let pr = match got {
        Ok(pr) => pr,
        Err(error) => return one_text(error.top()),
    };
    let free = validate_merge_frozen_dependencies(sh, config, context, &pr);
    let ghost tested = error::res_of(free);
    assert(candidates::merge_dependencies_checked(mid, sh.log(), config@.trunk, context@, pr@, tested));
    let blockers = match free {
        Err(error) => one_text(error.top()),
        Ok(_) => {
            let entry = pr.copy().into_cache_entry(None);
            match validate_pr_ready_for_merge(config, change, &entry, &pr, false) {
                Err(error) => one_text(error.top()),
                Ok(_) => {
                    let none: Vec<String> = Vec::new();
                    assert(none.deep_view() =~= Seq::<Seq<char>>::empty());
                    none
                },
            }
        },
    };
    assert(blockers.deep_view() == readiness_blockers(config@, context@.stack[0], pr@, tested));
    blockers
}

fn block_merge<H: Host>(
    sh: &mut Shell<H>,
    config: &AppConfig,
    context: &AppContext,
    rows: &Vec<StatusOwnedPr>,
) -> (r: Vec<String>)
    ensures
        record::extends(old(sh).log(), final(sh).log()),
        merge_blocking(
            old(sh).log(),
            final(sh).log(),
            config@,
            context@,
            rows.deep_view(),
            r.deep_view(),
        ),
{
    let n: usize = context.stack.len();
    let m: usize = rows.len();
    if n == 0 || m == 0 {
        let none: Vec<String> = Vec::new();
        assert(none.deep_view() =~= Seq::<Seq<char>>::empty());
        return none;
    }
    assert(rows.deep_view()[0] == rows@[0]@);
    match rows[0].pr_number {
        None => one_text("run `forklift submit` before merging".to_owned()),
        Some(number) => block_bottom(sh, config, context, number),
    }
}

// ---------------------------------------------------------------------------
// What to do next
// ---------------------------------------------------------------------------

pub open spec fn asks_for_sync(problem: Seq<char>) -> bool {
    text::contains(problem, "forklift sync"@) || text::contains(problem, "frozen dependency"@)
}

pub open spec fn asks_for_submit(row: StatusOwnedPrView) -> bool {
    row.action == "create"@ || row.action == "update"@ || row.action == "blocked"@
}

/// The command that is worth running next: what is broken below comes first, then what is not yet
/// submitted, then what keeps the stack from being merged.
pub open spec fn next_command(
    rows: Seq<StatusOwnedPrView>,
    blockers: Seq<Seq<char>>,
    problems: Seq<Seq<char>>,
) -> Seq<char> {
    if exists|i: int| 0 <= i < problems.len() && asks_for_sync(#[trigger] problems[i]) {
        "forklift sync"@
    } else if exists|i: int| 0 <= i < rows.len() && asks_for_submit(#[trigger] rows[i]) {
        "forklift submit"@
    } else if blockers.len() > 0 {
        "resolve merge blockers"@
    } else {
        "forklift merge"@
    }
}

fn any_asks_for_sync(problems: &Vec<String>) -> (r: bool)
    ensures
        r == exists|i: int|
            0 <= i < problems.deep_view().len() && asks_for_sync(
                #[trigger] problems.deep_view()[i],
            ),
{
    let ghost all = problems.deep_view();
    let mut i: usize = 0;
    while i < problems.len()
        invariant
            i <= problems@.len(),
            all == problems.deep_view(),
            forall|k: int| 0 <= k < i ==> !asks_for_sync(#[trigger] all[k]),
        decreases problems@.len() - i,
    {
        assert(all[i as int] == problems@[i as int]@);
        if text_contains(&problems[i], "forklift sync") || text_contains(
            &problems[i],
            "frozen dependency",
        ) {
            assert(asks_for_sync(all[i as int]));
            return true;
        }
        i = i + 1;
    }
    false
}

fn any_asks_for_submit(rows: &Vec<StatusOwnedPr>) -> (r: bool)
    ensures
        r == exists|i: int|
            0 <= i < rows.deep_view().len() && asks_for_submit(#[trigger] rows.deep_view()[i]),
{
    let ghost all = rows.deep_view();
    let mut i: usize = 0;
    while i < rows.len()
        invariant
            i <= rows@.len(),
            all == rows.deep_view(),
            forall|k: int| 0 <= k < i ==> !asks_for_submit(#[trigger] all[k]),
        decreases rows@.len() - i,
    {
        assert(all[i as int] == rows@[i as int]@);
        let action = &rows[i].action;
        if same(action, "create") || same(action, "update") || same(action, "blocked") {
            assert(asks_for_submit(all[i as int]));
            return true;
        }
        i = i + 1;
    }
    false
}

pub fn suggested_status_next_command(
    owned_prs: &Vec<StatusOwnedPr>,
    merge_blockers: &Vec<String>,
    problems: &Vec<String>,
) -> (r: String)
    ensures
        r@ == next_command(
            owned_prs.deep_view(),
            merge_blockers.deep_view(),
            problems.deep_view(),
        ),
{
    let n: usize = merge_blockers.len();
    if any_asks_for_sync(problems) {
        "forklift sync".to_owned()
    } else if any_asks_for_submit(owned_prs) {
        "forklift submit".to_owned()
    } else if n > 0 {
        "resolve merge blockers".to_owned()
    } else {
        "forklift merge".to_owned()
    }
}

// ---------------------------------------------------------------------------
// The whole report
// ---------------------------------------------------------------------------

/// The problems of the frozen dependencies, in order.
pub open spec fn frozen_problems(rows: Seq<StatusFrozenDependencyView>) -> Seq<Seq<char>>
    decreases rows.len(),
{
    if rows.len() == 0 {
        seq![]
    } else {
        match rows.last().problem {
            Some(problem) => frozen_problems(rows.drop_last()).push(problem),
            None => frozen_problems(rows.drop_last()),
        }
    }
}

fn list_frozen_problems(rows: &Vec<StatusFrozenDependency>) -> (r: Vec<String>)
    ensures
        r.deep_view() == frozen_problems(rows.deep_view()),
{
    let ghost all = rows.deep_view();
    let mut problems: Vec<String> = Vec::new();
    let mut i: usize = 0;
    assert(all.take(0) =~= Seq::<StatusFrozenDependencyView>::empty());
    assert(problems.deep_view() =~= Seq::<Seq<char>>::empty());
    while i < rows.len()
        invariant
            i <= rows@.len(),
            all == rows.deep_view(),
            problems.deep_view() == frozen_problems(all.take(i as int)),
        decreases rows@.len() - i,
    {
        let ghost before = problems.deep_view();
        assert(all.take(i + 1).drop_last() =~= all.take(i as int));
        assert(all[i as int] == rows@[i as int]@);
        match &rows[i].problem {
            Some(problem) => {
                problems.push(problem.clone());
                assert(problems.deep_view() =~= before.push(problem@));
            },
            None => {},
        }
        i = i + 1;
    }
    assert(all.take(i as int) =~= all);
    problems
}

fn list_row_problems(rows: &Vec<StatusOwnedPr>) -> (r: Vec<String>)
    ensures
        r.deep_view() == row_problems(rows.deep_view()),
{
    let ghost all = rows.deep_view();
    let mut problems: Vec<String> = Vec::new();
    let mut i: usize = 0;
    assert(all.take(0) =~= Seq::<StatusOwnedPrView>::empty());
    assert(problems.deep_view() =~= Seq::<Seq<char>>::empty());
    while i < rows.len()
        invariant
            i <= rows@.len(),
            all == rows.deep_view(),
            problems.deep_view() == row_problems(all.take(i as int)),
        decreases rows@.len() - i,
    {
        let ghost before = problems.deep_view();
        assert(all.take(i + 1).drop_last() =~= all.take(i as int));
        assert(all[i as int] == rows@[i as int]@);
        match &rows[i].bookmark_problem {
            Some(problem) => {
                problems.push(problem.clone());
                assert(problems.deep_view() =~= before.push(problem@));
            },
            None => {},
        }
        i = i + 1;
    }
    assert(all.take(i as int) =~= all);
    problems
}

fn joined_lists(a: &Vec<String>, b: &Vec<String>, c: &Vec<String>) -> (r: Vec<String>)
    ensures
        r.deep_view() == a.deep_view() + b.deep_view() + c.deep_view(),
{
    let mut all = copy_list(a);
    let mut more = copy_list(b);
    let mut rest = copy_list(c);
    let ghost one = all.deep_view();
    let ghost two = more.deep_view();
    let ghost three = rest.deep_view();
    all.append(&mut more);
    assert(all.deep_view() =~= one + two);
    all.append(&mut rest);
    assert(all.deep_view() =~= one + two + three);
    all
}

/// The branch that the bottom owned change stands on: the head of the topmost frozen pull request, as
/// far as it is known, or trunk.
pub open spec fn first_row_base(
    trunk: Seq<char>,
    frozen: Seq<StatusFrozenDependencyView>,
) -> Seq<char> {
    if frozen.len() > 0 && frozen.last().head_branch is Some {
        frozen.last().head_branch->0
    } else {
        trunk
    }
}

/// The report, of what was found.
pub open spec fn report_of(
    config: AppConfigView,
    github: GitHubContextView,
    aliases: StatusAliasStateView,
    frozen: Seq<StatusFrozenDependencyView>,
    rows: Seq<StatusOwnedPrView>,
    blockers: Seq<Seq<char>>,
) -> StatusReportView {
    let problems = frozen_problems(frozen) + row_problems(rows) + blockers;
    StatusReportView {
        repo: github.repo,
        username: github.username,
        remote: config.remote,
        trunk: config.trunk,
        branch_prefix: config.branch_prefix,
        require_approval: config.require_approval,
        startup_aliases: aliases,
        owned_prs: rows,
        frozen_dependencies: frozen,
        first_owned_base_branch: Some(first_row_base(config.trunk, frozen)),
        merge_blockers: blockers,
        bookmark_problems: row_problems(rows),
        problems,
        suggested_next_command: next_command(rows, blockers, problems),
    }
}

fn make_report(
    config: &AppConfig,
    github: &GitHubContext,
    aliases: StatusAliasState,
    frozen: Vec<StatusFrozenDependency>,
    first: String,
    rows: Vec<StatusOwnedPr>,
    blockers: Vec<String>,
) -> (r: StatusReport)
    requires
        first@ == first_row_base(config@.trunk, frozen.deep_view()),
    ensures
        r@ == report_of(
            config@,
            github@,
            aliases@,
            frozen.deep_view(),
            rows.deep_view(),
            blockers.deep_view(),
        ),
{
    let bookmark_problems = list_row_problems(&rows);
    let problems = joined_lists(&list_frozen_problems(&frozen), &bookmark_problems, &blockers);
    let suggested_next_command = suggested_status_next_command(&rows, &blockers, &problems);
    StatusReport {
        repo: github.repo.clone(),
        username: github.username.clone(),
        remote: config.remote.clone(),
        trunk: config.trunk.clone(),
        branch_prefix: config.branch_prefix.clone(),
        require_approval: config.require_approval,
        startup_aliases: aliases,
        owned_prs: rows,
        frozen_dependencies: frozen,
        first_owned_base_branch: Some(first),
        merge_blockers: blockers,
        bookmark_problems,
        problems,
        suggested_next_command,
    }
}

pub open spec fn blockers_reported(
    before: Seq<Event>,
    after: Seq<Event>,
    config: AppConfigView,
    context: AppContextView,
    aliases: StatusAliasStateView,
    frozen: Seq<StatusFrozenDependencyView>,
    rows: Seq<StatusOwnedPrView>,
    r: StatusReportView,
) -> bool {
    exists|blockers: Seq<Seq<char>>|
        #[trigger] merge_blocking(before, after, config, context, rows, blockers) && r == report_of(
            config,
            context.github,
            aliases,
            frozen,
            rows,
            blockers,
        )
}

pub open spec fn whole_stack_surveyed(
    before: Seq<Event>,
    after: Seq<Event>,
    config: AppConfigView,
    context: AppContextView,
    all: Map<(Seq<char>, Seq<char>), PrCacheEntryView>,
    first: Seq<char>,
    rows: Seq<StatusOwnedPrView>,
) -> bool {
    stack_surveyed(
        before,
        after,
        config,
        context.github,
        all,
        context.stack,
        first,
        seq![],
        rows,
    )
}

pub open spec fn rows_reported(
    before: Seq<Event>,
    after: Seq<Event>,
    config: AppConfigView,
    context: AppContextView,
    all: Map<(Seq<char>, Seq<char>), PrCacheEntryView>,
    aliases: StatusAliasStateView,
    frozen: Seq<StatusFrozenDependencyView>,
    r: StatusReportView,
) -> bool {
    exists|mid: Seq<Event>, rows: Seq<StatusOwnedPrView>|
        {
            &&& #[trigger] whole_stack_surveyed(
                before,
                mid,
                config,
                context,
                all,
                first_row_base(config.trunk, frozen),
                rows,
            )
            &&& blockers_reported(mid, after, config, context, aliases, frozen, rows, r)
        }
}

fn report_rows<H: Host>(
    sh: &mut Shell<H>,
    config: &AppConfig,
    context: &AppContext,
    store: &CacheStore,
    aliases: StatusAliasState,
    frozen: Vec<StatusFrozenDependency>,
) -> (r: StatusReport)
    ensures
        record::extends(old(sh).log(), final(sh).log()),
        rows_reported(
            old(sh).log(),
            final(sh).log(),
            config@,
            context@,
            store@,
            aliases@,
            frozen.deep_view(),
            r@,
        ),
{
    let n: usize = frozen.len();
    let known = if n > 0 {
        assert(frozen.deep_view().last() == frozen@[n - 1]@);
        copy_option(&frozen[n - 1].head_branch)
    } else {
        None
    };
    let first = match known {
        Some(branch) => branch,
        None => config.trunk.clone(),
    };
    assert(first@ == first_row_base(config@.trunk, frozen.deep_view()));
    let used: Vec<String> = Vec::new();
    let none: Vec<StatusOwnedPr> = Vec::new();
    assert(used.deep_view() =~= Seq::<Seq<char>>::empty());
    assert(none.deep_view() =~= Seq::<StatusOwnedPrView>::empty());
    let rows = survey_stack(
        sh,
        config,
        &context.github,
        store,
        &context.stack,
        &first,
        used,
        none,
    );
    let ghost mid = sh.log();
    assert(whole_stack_surveyed(
        old(sh).log(),
        mid,
        config@,
        context@,
        store@,
        first@,
        rows.deep_view(),
    ));
    let blockers = block_merge(sh, config, context, &rows);
    assert(merge_blocking(
        mid,
        sh.log(),
        config@,
        context@,
        rows.deep_view(),
        blockers.deep_view(),
    ));
    make_report(config, &context.github, aliases, frozen, first, rows, blockers)
}

pub open spec fn frozen_reported(
    before: Seq<Event>,
    after: Seq<Event>,
    config: AppConfigView,
    context: AppContextView,
    all: Map<(Seq<char>, Seq<char>), PrCacheEntryView>,
    aliases: StatusAliasStateView,
    r: Result<StatusReportView, Seq<CauseView>>,
) -> bool {
    exists|mid: Seq<Event>, frozen: Seq<StatusFrozenDependencyView>|
        {
            &&& #[trigger] all_frozen_surveyed(
                before,
                mid,
                context.github.repo,
                context.frozen_dependencies,
                frozen,
            )
            &&& r is Ok
            &&& rows_reported(mid, after, config, context, all, aliases, frozen, r->Ok_0)
        }
}

fn report_frozen<H: Host>(
    sh: &mut Shell<H>,
    config: &AppConfig,
    context: &AppContext,
    store: &CacheStore,
    aliases: StatusAliasState,
) -> (r: Result<StatusReport, Error>)
    ensures
        record::extends(old(sh).log(), final(sh).log()),
        frozen_reported(
            old(sh).log(),
            final(sh).log(),
            config@,
            context@,
            store@,
            aliases@,
            error::res(r),
        ),
{
    let frozen = status_frozen_dependencies(sh, &context.github, &context.frozen_dependencies);
    assert(all_frozen_surveyed(
        old(sh).log(),
        sh.log(),
        context@.github.repo,
        context@.frozen_dependencies,
        frozen.deep_view(),
    ));
    Ok(report_rows(sh, config, context, store, aliases, frozen))
}

pub open spec fn context_reported(
    before: Seq<Event>,
    after: Seq<Event>,
    config: AppConfigView,
    context: AppContextView,
    aliases: StatusAliasStateView,
    r: Result<StatusReportView, Seq<CauseView>>,
) -> bool {
    exists|
        mid: Seq<Event>,
        opened: Result<
            (Seq<char>, Map<(Seq<char>, Seq<char>), PrCacheEntryView>),
            Seq<CauseView>,
        >,
    |
        {
            &&& #[trigger] cache::cache_opened(before, mid, "status"@, opened)
            &&& match opened {
                Err(e) => record::stopped(mid, after, e, r),
                Ok((place, all)) => frozen_reported(mid, after, config, context, all, aliases, r),
            }
        }
}

fn report_context<H: Host>(
    sh: &mut Shell<H>,
    config: &AppConfig,
    context: &AppContext,
    aliases: StatusAliasState,
) -> (r: Result<StatusReport, Error>)
    ensures
        record::extends(old(sh).log(), final(sh).log()),
        context_reported(
            old(sh).log(),
            final(sh).log(),
            config@,
            context@,
            aliases@,
            error::res(r),
        ),
{
    let loaded = CacheStore::load_current_best_effort(sh, "status");
    let ghost opened = cache::store_parts(loaded);
    assert(cache::cache_opened(old(sh).log(), sh.log(), "status"@, opened));
    match loaded {
        Err(error) => Err(error),
        Ok(store) => report_frozen(sh, config, context, &store, aliases),
    }
}

pub open spec fn stack_reported(
    before: Seq<Event>,
    after: Seq<Event>,
    config: AppConfigView,
    revset: Seq<char>,
    aliases: StatusAliasStateView,
    diagnostics: Diagnostics,
    r: Result<StatusReportView, Seq<CauseView>>,
) -> bool {
    exists|mid: Seq<Event>, context: Result<AppContextView, Seq<CauseView>>|
        {
            &&& #[trigger] context::context_resolved(
                before + ui::phase_said(diagnostics, "resolve-stack"@),
                mid,
                revset,
                context,
            )
            &&& match context {
                Err(e) => record::stopped(mid, after, e, r),
                Ok(context) => context_reported(mid, after, config, context, aliases, r),
            }
        }
}

fn report_stack<H: Host>(
    sh: &mut Shell<H>,
    config: &AppConfig,
    revset: &str,
    aliases: StatusAliasState,
    diagnostics: Diagnostics,
) -> (r: Result<StatusReport, Error>)
    ensures
        record::extends(old(sh).log(), final(sh).log()),
        stack_reported(
            old(sh).log(),
            final(sh).log(),
            config@,
            revset@,
            aliases@,
            diagnostics,
            error::res(r),
        ),
{
    let ghost start = sh.log();
    diagnostics.phase(sh, "resolve-stack");
    let resolved = resolve_stack_context(sh, revset);
    let ghost seen = error::res(resolved);
    assert(context::context_resolved(
        start + ui::phase_said(diagnostics, "resolve-stack"@),
        sh.log(),
        revset@,
        seen,
    ));
    match resolved {
        Err(error) => Err(error),
        Ok(context) => report_context(sh, config, &context, aliases),
    }
}

/// The record from `before` to `after` holds how the report of a stack is made: the aliases, the stack,
/// the frozen dependencies, each owned change, and what stands against the merge of the bottom one.
pub open spec fn status_reported(
    before: Seq<Event>,
    after: Seq<Event>,
    config: AppConfigView,
    revset: Seq<char>,
    diagnostics: Diagnostics,
    r: Result<StatusReportView, Seq<CauseView>>,
) -> bool {
    exists|mid: Seq<Event>, aliases: Result<StatusAliasStateView, Seq<CauseView>>|
        {
            &&& #[trigger] aliases_read(
                before + ui::phase_said(diagnostics, "status-aliases"@),
                mid,
                aliases,
            )
            &&& match aliases {
                Err(e) => record::stopped(mid, after, e, r),
                Ok(aliases) => stack_reported(
                    mid,
                    after,
                    config,
                    revset,
                    aliases,
                    diagnostics,
                    r,
                ),
            }
        }
}

pub fn status_report<H: Host>(
    sh: &mut Shell<H>,
    config: &AppConfig,
    revset: &str,
    diagnostics: Diagnostics,
) -> (r: Result<StatusReport, Error>)
    ensures
        record::extends(old(sh).log(), final(sh).log()),
        status_reported(
            old(sh).log(),
            final(sh).log(),
            config@,
            revset@,
            diagnostics,
            error::res(r),
        ),
{
    let ghost start = sh.log();
    diagnostics.phase(sh, "status-aliases");
    let read = status_alias_state(sh);
    let ghost seen = error::res(read);
    assert(aliases_read(
        start + ui::phase_said(diagnostics, "status-aliases"@),
        sh.log(),
        seen,
    ));
    match read {
        Err(error) => Err(error),
        Ok(aliases) => report_stack(sh, config, revset, aliases, diagnostics),
    }
}

// ---------------------------------------------------------------------------
// The report as text
// ---------------------------------------------------------------------------

pub open spec fn bool_text(value: bool) -> Seq<char> {
    if value {
        "true"@
    } else {
        "false"@
    }
}

pub fn text_of_bool(value: bool) -> (r: String)
    ensures
        r@ == bool_text(value),
{
    if value {
        "true".to_owned()
    } else {
        "false".to_owned()
    }
}

pub open spec fn frozen_line(d: StatusFrozenDependencyView) -> Seq<char> {
    "- "@ + pr::hash(d.pr_number) + " "@ + d.bookmark + " "@ + ready::text_or(
        d.head_branch,
        "<unknown-branch>"@,
    ) + " ("@ + d.state + ")"@
}

pub open spec fn owned_line(o: StatusOwnedPrView) -> Seq<char> {
    "- "@ + (match o.pr_number {
        Some(number) => "#"@ + text::decimal(number as nat),
        None => "new"@,
    }) + " "@ + o.head_branch + " -> "@ + o.base_branch + " ("@ + o.action + ")"@
}

fn frozen_line_text(d: &StatusFrozenDependency) -> (r: String)
    ensures
        r@ == frozen_line(d@),
{
    let mut line = cat5("- ", &hash_text(d.pr_number), " ", &d.bookmark, " ");
    line.append(&option_text(&d.head_branch, "<unknown-branch>"));
    line.append(" (");
    line.append(&d.state);
    line.append(")");
    line
}

fn owned_line_text(o: &StatusOwnedPr) -> (r: String)
    ensures
        r@ == owned_line(o@),
{
    let number = match o.pr_number {
        Some(number) => cat("#", &number_text(number)),
        None => "new".to_owned(),
    };
    let mut line = cat5("- ", &number, " ", &o.head_branch, " -> ");
    line.append(&o.base_branch);
    line.append(" (");
    line.append(&o.action);
    line.append(")");
    line
}

/// The first lines of a report.
pub open spec fn report_head(report: StatusReportView) -> Seq<Seq<char>> {
    seq![
        "repo: "@ + report.repo,
        "user: "@ + report.username,
        "config: remote="@ + report.remote + ", trunk="@ + report.trunk + ", branch-prefix="@
            + report.branch_prefix + ", require-approval="@ + bool_text(report.require_approval),
        "startup aliases: frozen="@ + ready::text_or(report.startup_aliases.frozen_heads, "<missing>"@)
            + ", immutable="@ + ready::text_or(report.startup_aliases.immutable_heads, "<missing>"@),
    ]
}

pub open spec fn frozen_lines(rows: Seq<StatusFrozenDependencyView>) -> Seq<Seq<char>> {
    if rows.len() == 0 {
        seq![]
    } else {
        seq!["frozen dependencies:"@] + rows.map_values(
            |d: StatusFrozenDependencyView| frozen_line(d),
        )
    }
}

pub open spec fn owned_lines(rows: Seq<StatusOwnedPrView>) -> Seq<Seq<char>> {
    seq!["owned stack:"@] + rows.map_values(|o: StatusOwnedPrView| owned_line(o))
}

pub open spec fn base_lines(base: Option<Seq<char>>) -> Seq<Seq<char>> {
    match base {
        Some(base) => seq!["first owned base: "@ + base],
        None => seq![],
    }
}

/// A list under a title, or nothing where the list is empty.
pub open spec fn titled(title: Seq<char>, items: Seq<Seq<char>>) -> Seq<Seq<char>> {
    if items.len() == 0 {
        seq![]
    } else {
        seq![title] + items.map_values(|item: Seq<char>| "- "@ + item)
    }
}

/// The lines of a report that inform.
pub open spec fn report_infos(report: StatusReportView) -> Seq<Seq<char>> {
    report_head(report) + frozen_lines(report.frozen_dependencies) + owned_lines(report.owned_prs)
        + base_lines(report.first_owned_base_branch)
}

/// The lines of a report that warn.
pub open spec fn report_warnings(report: StatusReportView) -> Seq<Seq<char>> {
    titled("bookmark problems:"@, report.bookmark_problems) + titled(
        "merge blockers:"@,
        report.merge_blockers,
    )
}

fn head_texts(report: &StatusReport) -> (r: Vec<String>)
    ensures
        r.deep_view() == report_head(report@),
{
    let mut rows: Vec<String> = Vec::new();
    rows.push(cat("repo: ", &report.repo));
    rows.push(cat("user: ", &report.username));
    let mut line = cat5(
        "config: remote=",
        &report.remote,
        ", trunk=",
        &report.trunk,
        ", branch-prefix=",
    );
    line.append(&report.branch_prefix);
    line.append(", require-approval=");
    line.append(&text_of_bool(report.require_approval));
    rows.push(line);
    let mut line = cat3(
        "startup aliases: frozen=",
        &option_text(&report.startup_aliases.frozen_heads, "<missing>"),
        ", immutable=",
    );
    line.append(&option_text(&report.startup_aliases.immutable_heads, "<missing>"));
    rows.push(line);
    assert(rows.deep_view() =~= report_head(report@));
    rows
}

fn frozen_texts(rows: &Vec<StatusFrozenDependency>) -> (r: Vec<String>)
    ensures
        r.deep_view() == frozen_lines(rows.deep_view()),
{
    let mut out: Vec<String> = Vec::new();
    let n: usize = rows.len();
    if n == 0 {
        assert(out.deep_view() =~= frozen_lines(rows.deep_view()));
        return out;
    }
    let ghost want = frozen_lines(rows.deep_view());
    out.push("frozen dependencies:".to_owned());
    assert(out.deep_view() =~= want.take(1));
    let mut i: usize = 0;
    while i < n
        invariant
            n == rows@.len(),
            n > 0,
            i <= n,
            want == frozen_lines(rows.deep_view()),
            out.deep_view() == want.take(i + 1),
        decreases n - i,
    {
        let ghost before = out.deep_view();
        let line = frozen_line_text(&rows[i]);
        assert(want[i + 1] == line@);
        let ghost put = line@;
        out.push(line);
        assert(out.deep_view() =~= before.push(put));
        assert(want.take(i + 2) =~= want.take(i + 1).push(put));
        i = i + 1;
    }
    assert(want.take(i + 1) =~= want);
    out
}

fn owned_texts(rows: &Vec<StatusOwnedPr>) -> (r: Vec<String>)
    ensures
        r.deep_view() == owned_lines(rows.deep_view()),
{
    let mut out: Vec<String> = Vec::new();
    let ghost want = owned_lines(rows.deep_view());
    out.push("owned stack:".to_owned());
    assert(out.deep_view() =~= want.take(1));
    let mut i: usize = 0;
    while i < rows.len()
        invariant
            i <= rows@.len(),
            want == owned_lines(rows.deep_view()),
            out.deep_view() == want.take(i + 1),
        decreases rows@.len() - i,
    {
        let ghost before = out.deep_view();
        let line = owned_line_text(&rows[i]);
        assert(want[i + 1] == line@);
        let ghost put = line@;
        out.push(line);
        assert(out.deep_view() =~= before.push(put));
        assert(want.take(i + 2) =~= want.take(i + 1).push(put));
        i = i + 1;
    }
    assert(want.take(i + 1) =~= want);
    out
}

fn titled_texts(title: &str, items: &Vec<String>) -> (r: Vec<String>)
    ensures
        r.deep_view() == titled(title@, items.deep_view()),
{
    let mut out: Vec<String> = Vec::new();
    let n: usize = items.len();
    if n == 0 {
        assert(out.deep_view() =~= titled(title@, items.deep_view()));
        return out;
    }
    let ghost want = titled(title@, items.deep_view());
    out.push(title.to_owned());
    assert(out.deep_view() =~= want.take(1));
    let mut i: usize = 0;
    while i < n
        invariant
            n == items@.len(),
            n > 0,
            i <= n,
            want == titled(title@, items.deep_view()),
            out.deep_view() == want.take(i + 1),
        decreases n - i,
    {
        let ghost before = out.deep_view();
        let line = cat("- ", &items[i]);
        assert(want[i + 1] == line@);
        let ghost put = line@;
        out.push(line);
        assert(out.deep_view() =~= before.push(put));
        assert(want.take(i + 2) =~= want.take(i + 1).push(put));
        i = i + 1;
    }
    assert(want.take(i + 1) =~= want);
    out
}

fn info_texts(report: &StatusReport) -> (r: Vec<String>)
    ensures
        r.deep_view() == report_infos(report@),
{
    let mut rows = joined_lists(
        &head_texts(report),
        &frozen_texts(&report.frozen_dependencies),
        &owned_texts(&report.owned_prs),
    );
    let ghost before = rows.deep_view();
    match &report.first_owned_base_branch {
        Some(base) => {
            rows.push(cat("first owned base: ", base));
        },
        None => {},
    }
    assert(rows.deep_view() =~= report_infos(report@));
    rows
}

pub open spec fn infos_said(rows: Seq<Seq<char>>) -> Seq<Event> {
    rows.map_values(|row: Seq<char>| Event::Said(LineView::Info(row)))
}

pub open spec fn warnings_said(rows: Seq<Seq<char>>) -> Seq<Event> {
    rows.map_values(|row: Seq<char>| Event::Said(LineView::Warn(row)))
}

fn say_infos<H: Host>(sh: &mut Shell<H>, rows: &Vec<String>)
    ensures
        record::extends(old(sh).log(), final(sh).log()),
        final(sh).log() == old(sh).log() + infos_said(rows.deep_view()),
{
    let ghost start = sh.log();
    let ghost said = infos_said(rows.deep_view());
    let mut i: usize = 0;
    assert(sh.log() =~= start + said.take(0));
    while i < rows.len()
        invariant
            i <= rows@.len(),
            said == infos_said(rows.deep_view()),
            sh.log() == start + said.take(i as int),
        decreases rows@.len() - i,
    {
        assert(said[i as int] == Event::Said(LineView::Info(rows@[i as int]@)));
        sh.say(Line::Info(rows[i].clone()));
        assert(sh.log() =~= start + said.take(i + 1));
        i = i + 1;
    }
    assert(said.take(i as int) =~= said);
}

fn say_warnings<H: Host>(sh: &mut Shell<H>, rows: &Vec<String>)
    ensures
        record::extends(old(sh).log(), final(sh).log()),
        final(sh).log() == old(sh).log() + warnings_said(rows.deep_view()),
{
    let ghost start = sh.log();
    let ghost said = warnings_said(rows.deep_view());
    let mut i: usize = 0;
    assert(sh.log() =~= start + said.take(0));
    while i < rows.len()
        invariant
            i <= rows@.len(),
            said == warnings_said(rows.deep_view()),
            sh.log() == start + said.take(i as int),
        decreases rows@.len() - i,
    {
        assert(said[i as int] == Event::Said(LineView::Warn(rows@[i as int]@)));
        sh.say(Line::Warn(rows[i].clone()));
        assert(sh.log() =~= start + said.take(i + 1));
        i = i + 1;
    }
    assert(said.take(i as int) =~= said);
}

/// What is said of a report.
pub open spec fn report_said(report: StatusReportView) -> Seq<Event> {
    infos_said(report_infos(report)) + warnings_said(report_warnings(report)) + seq![
        Event::Said(LineView::Info("next: "@ + report.suggested_next_command)),
    ]
}

pub fn print_status_report<H: Host>(sh: &mut Shell<H>, report: &StatusReport)
    ensures
        record::extends(old(sh).log(), final(sh).log()),
        final(sh).log() == old(sh).log() + report_said(report@),
{
    let ghost start = sh.log();
    say_infos(sh, &info_texts(report));
    say_warnings(sh, &titled_texts("bookmark problems:", &report.bookmark_problems));
    say_warnings(sh, &titled_texts("merge blockers:", &report.merge_blockers));
    sh.say(Line::Info(cat("next: ", &report.suggested_next_command)));
    assert(sh.log() =~= start + report_said(report@));
}

/// The law of the report: it shows the rows as they were found, lists every problem of a bookmark and
/// every blocker of the merge among its problems, and suggests the merge only where nothing blocks it.
pub proof fn law_report_is_whole(
    config: AppConfigView,
    github: GitHubContextView,
    aliases: StatusAliasStateView,
    frozen: Seq<StatusFrozenDependencyView>,
    rows: Seq<StatusOwnedPrView>,
    blockers: Seq<Seq<char>>,
)
    ensures
        ({
            let report = report_of(config, github, aliases, frozen, rows, blockers);
            &&& report.owned_prs == rows
            &&& forall|i: int|
                0 <= i < report.bookmark_problems.len() ==> report.problems.contains(
                    #[trigger] report.bookmark_problems[i],
                )
            &&& forall|i: int|
                0 <= i < report.merge_blockers.len() ==> report.problems.contains(
                    #[trigger] report.merge_blockers[i],
                )
            &&& report.suggested_next_command == "forklift merge"@ ==> report.merge_blockers.len()
                == 0
        }),
{
    let report = report_of(config, github, aliases, frozen, rows, blockers);
    let f = frozen_problems(frozen).len() as int;
    let b = row_problems(rows).len() as int;
    assert forall|i: int| 0 <= i < report.bookmark_problems.len() implies report.problems.contains(
        #[trigger] report.bookmark_problems[i],
    ) by {
        assert(report.problems[f + i] == report.bookmark_problems[i]);
    }
    assert forall|i: int| 0 <= i < report.merge_blockers.len() implies report.problems.contains(
        #[trigger] report.merge_blockers[i],
    ) by {
        assert(report.problems[f + b + i] == report.merge_blockers[i]);
    }
    reveal_strlit("forklift merge");
    reveal_strlit("forklift sync");
    reveal_strlit("forklift submit");
    reveal_strlit("resolve merge blockers");
    assert("forklift merge"@.len() == 14);
    assert("forklift sync"@.len() == 13);
    assert("forklift submit"@.len() == 15);
    assert("resolve merge blockers"@.len() == 22);
}

/// Whether the rows, bottom first, show each change of the stack on the head of the change below, and
/// none on a head that a row without a problem below it has.
pub open spec fn rows_stand(
    stack: Seq<ResolvedChangeView>,
    first: Seq<char>,
    rows: Seq<StatusOwnedPrView>,
) -> bool {
    &&& rows.len() <= stack.len()
    &&& forall|i: int|
        0 <= i < rows.len() ==> {
            &&& (#[trigger] rows[i]).change_id == stack[i].change_id
            &&& rows[i].commit_id == stack[i].commit_id
        }
    &&& rows.len() > 0 ==> rows[0].base_branch == first
    &&& forall|i: int, j: int|
        0 <= i && j == i + 1 && j < rows.len() ==> (#[trigger] rows[j]).base_branch == (
        #[trigger] rows[i]).head_branch
    &&& forall|i: int, j: int|
        0 <= i < j < rows.len() && (#[trigger] rows[i]).bookmark_problem is None
            ==> rows[i].head_branch != (#[trigger] rows[j]).head_branch
}

proof fn lemma_taken_heads(rows: Seq<StatusOwnedPrView>, i: int)
    requires
        0 <= i < rows.len(),
        rows[i].bookmark_problem is None,
    ensures
        taken_heads(rows).contains(rows[i].head_branch),
    decreases rows.len(),
{
    let rest = taken_heads(rows.drop_last());
    if i == rows.len() - 1 {
        assert(rest.push(rows[i].head_branch)[rest.len() as int] == rows[i].head_branch);
    } else {
        lemma_taken_heads(rows.drop_last(), i);
        let k = choose|k: int| 0 <= k < rest.len() && rest[k] == rows[i].head_branch;
        assert(taken_heads(rows)[k] == rows[i].head_branch);
    }
}

proof fn lemma_owned_row(
    before: Seq<Event>,
    after: Seq<Event>,
    config: AppConfigView,
    github: GitHubContextView,
    all: Map<(Seq<char>, Seq<char>), PrCacheEntryView>,
    change: ResolvedChangeView,
    base_branch: Seq<char>,
    used: Seq<Seq<char>>,
    row: StatusOwnedPrView,
)
    requires
        owned_surveyed(before, after, config, github, all, change, base_branch, used, row),
    ensures
        row.change_id == change.change_id,
        row.commit_id == change.commit_id,
        row.base_branch == base_branch,
        !used.contains(row.head_branch),
{
    reveal(owned_surveyed);
    let got = choose|got: Result<SubmitHeadView, Seq<CauseView>>|
        {
            &&& #[trigger] heads::head_resolved(before, after, config, github, change, all, used, got)
            &&& match got {
                Ok(head) => row == ready_row(change, base_branch, head),
                Err(e) => is_blocked_row(row, config, change, base_branch, used, error::top_line(e)),
            }
        };
    if got is Ok {
        heads::law_head_is_unused(before, after, config, github, change, all, used, got);
    }
}

proof fn lemma_rows_stand(
    before: Seq<Event>,
    after: Seq<Event>,
    config: AppConfigView,
    github: GitHubContextView,
    all: Map<(Seq<char>, Seq<char>), PrCacheEntryView>,
    stack: Seq<ResolvedChangeView>,
    first: Seq<char>,
    done: Seq<StatusOwnedPrView>,
    r: Seq<StatusOwnedPrView>,
)
    requires
        stack_surveyed(before, after, config, github, all, stack, first, done, r),
        rows_stand(stack, first, done),
    ensures
        r.len() == stack.len(),
        rows_stand(stack, first, r),
    decreases stack.len() - done.len(),
{
    if done.len() < stack.len() {
        let change = stack[done.len() as int];
        let (mid, row) = choose|mid: Seq<Event>, row: StatusOwnedPrView|
            {
                &&& #[trigger] owned_surveyed(
                    before,
                    mid,
                    config,
                    github,
                    all,
                    change,
                    row_base(first, done),
                    taken_heads(done),
                    row,
                )
                &&& stack_surveyed(
                    mid,
                    after,
                    config,
                    github,
                    all,
                    stack,
                    first,
                    done.push(row),
                    r,
                )
            };
        lemma_owned_row(
            before,
            mid,
            config,
            github,
            all,
            change,
            row_base(first, done),
            taken_heads(done),
            row,
        );
        let next = done.push(row);
        assert forall|i: int, j: int|
            0 <= i < j < next.len() && (#[trigger] next[i]).bookmark_problem is None implies next[i].head_branch
            != (#[trigger] next[j]).head_branch by {
            lemma_taken_heads(done, i);
        }
        lemma_rows_stand(mid, after, config, github, all, stack, first, next, r);
    }
}

/// The law of the rows: there is one for each owned change, in the order of the stack. Each stands on
/// the head of the one below, the lowest on what the stack stands on, and none has the head of a row
/// without a problem below it.
pub proof fn law_rows_stand_on_each_other(
    before: Seq<Event>,
    after: Seq<Event>,
    config: AppConfigView,
    context: AppContextView,
    all: Map<(Seq<char>, Seq<char>), PrCacheEntryView>,
    first: Seq<char>,
    rows: Seq<StatusOwnedPrView>,
)
    requires
        whole_stack_surveyed(before, after, config, context, all, first, rows),
    ensures
        rows.len() == context.stack.len(),
        rows_stand(context.stack, first, rows),
{
    lemma_rows_stand(
        before,
        after,
        config,
        context.github,
        all,
        context.stack,
        first,
        seq![],
        rows,
    );
}

} // verus!
