//! Bringing a stack up to date with trunk and with the frozen changes below it.

use vstd::prelude::*;

use crate::bookmarks;
use crate::bookmarks::{frozen_bookmarks, update_get_frozen_bookmarks};
use crate::branches;
use crate::branches::fetch_get_branches;
use crate::cleanup;
use crate::cleanup::cleanup_landed_branches;
use crate::context;
use crate::context::{resolve_purely_frozen_stack, resolve_stack_context, say_context, say_stack};
use crate::error;
use crate::error::{CauseView, Error, fail, phase_error};
use crate::frozen;
use crate::frozen::resolve_stack_resolution;
use crate::get;
use crate::get::walk_prs;
use crate::model::{
    AppConfig, AppConfigView, AppContextView, Diagnostics, FrozenBookmark, FrozenBookmarkView,
    FrozenDependency, FrozenDependencyView, GhPr, GhPrView, GitHubContext, GitHubContextView,
    ResolvedChange, ResolvedChangeView, StackResolution, StackResolutionView,
};
use crate::pr;
use crate::pr::{get_pr_repo, hash_text, state_is_open, validate_get_pr_metadata};
use crate::rebase;
use crate::rebase::{
    RebaseDestination, RebaseDestinationView, rebase_stack_roots, sync_rebase_destination,
};
use crate::record;
use crate::record::Event;
use crate::shell::Host;
use crate::shell::wire::Shell;
use crate::stack;
use crate::stack::{resolve_single_rev, resolve_stack, validate_stack_shape};
use crate::submit;
use crate::submit::{SubmitSummary, submit_stack};
use crate::text;
use crate::text::{cat, cat3, cat5, cat7, number_text, same, same_ignoring_case};
use crate::trunk;
use crate::trunk::{fetch_remote, move_trunk_to_remote};
use crate::ui;

verus! {

broadcast use crate::record::group_record;

/// What a sync amounted to.
#[derive(Clone, Copy, PartialEq, Eq)]
pub struct SyncSummary {
    pub rebased_roots: usize,
    pub submit_ran: bool,
    pub cleaned_branches: usize,
}

// ---------------------------------------------------------------------------
// The pull requests of frozen dependencies
// ---------------------------------------------------------------------------

/// What is wrong with the pull request of one frozen dependency.
pub open spec fn frozen_metadata_fault(
    repo: Seq<char>,
    dependency: FrozenDependencyView,
    pr: GhPrView,
) -> Option<Seq<CauseView>> {
    let name = dependency.bookmark.name;
    if pr::metadata_gap(repo, pr) is Some {
        pr::metadata_gap(repo, pr)
    } else if text::lower_all(pr.state) == text::lower_all("CLOSED"@) {
        Some(
            error::plain(
                "closed-unmerged frozen dependency `"@ + name + "` points to "@ + pr::hash(pr.number)
                    + "; sync cannot recover a closed PR that was not merged"@,
            ),
        )
    } else if !pr::is_open(pr.state) {
        Some(
            error::plain(
                "frozen dependency `"@ + name + "` points to "@ + pr::hash(pr.number)
                    + " but the PR state is `"@ + pr.state + "`; expected OPEN"@,
            ),
        )
    } else {
        match (pr::repo_result(pr, "head"@), pr::repo_result(pr, "base"@)) {
            (Err(e), _) => Some(e),
            (_, Err(e)) => Some(e),
            (Ok(head), Ok(base)) => if head.name_with_owner != repo {
                Some(
                    error::plain(
                        "frozen dependency `"@ + name + "` "@ + pr::hash(pr.number)
                            + " is fork-backed from `"@ + head.name_with_owner
                            + "`; sync only supports same-repo frozen dependencies"@,
                    ),
                )
            } else if base.name_with_owner != repo {
                Some(
                    error::plain(
                        "frozen dependency `"@ + name + "` "@ + pr::hash(pr.number)
                            + " has base repo `"@ + base.name_with_owner + "`; expected `"@ + repo
                            + "`"@,
                    ),
                )
            } else {
                None
            },
        }
    }
}

pub fn validate_sync_frozen_pr_metadata(
    github: &GitHubContext,
    dependency: &FrozenDependency,
    pr: &GhPr,
) -> (r: Result<(), Error>)
    ensures
        error::res_of(r) == match frozen_metadata_fault(github@.repo, dependency@, pr@) {
            Some(e) => Err(e),
            None => Ok(()),
        },
{
    match validate_get_pr_metadata(github, pr) {
        Ok(_) => {},
        Err(error) => return Err(error),
    }
    let name = &dependency.bookmark.name;
    if same_ignoring_case(&pr.state, "CLOSED") {
        return Err(
            fail(
                &cat5(
                    "closed-unmerged frozen dependency `",
                    name,
                    "` points to ",
                    &hash_text(pr.number),
                    "; sync cannot recover a closed PR that was not merged",
                ),
            ),
        );
    }
    if !state_is_open(&pr.state) {
        return Err(
            fail(
                &cat7(
                    "frozen dependency `",
                    name,
                    "` points to ",
                    &hash_text(pr.number),
                    " but the PR state is `",
                    &pr.state,
                    "`; expected OPEN",
                ),
            ),
        );
    }
    let head = match get_pr_repo(pr, "head") {
        Ok(repo) => repo,
        Err(error) => return Err(error),
    };
    let base = match get_pr_repo(pr, "base") {
        Ok(repo) => repo,
        Err(error) => return Err(error),
    };
    if !same(&head.name_with_owner, &github.repo) {
        return Err(
            fail(
                &cat7(
                    "frozen dependency `",
                    name,
                    "` ",
                    &hash_text(pr.number),
                    " is fork-backed from `",
                    &head.name_with_owner,
                    "`; sync only supports same-repo frozen dependencies",
                ),
            ),
        );
    }
    if !same(&base.name_with_owner, &github.repo) {
        let mut message = cat5(
            "frozen dependency `",
            name,
            "` ",
            &hash_text(pr.number),
            " has base repo `",
        );
        message.append(&base.name_with_owner);
        message.append("`; expected `");
        message.append(&github.repo);
        message.append("`");
        return Err(fail(&message));
    }
    Ok(())
}

/// What is wrong with the base of a pull request in a frozen stack.
pub open spec fn frozen_base_fault(
    trunk: Seq<char>,
    name: Seq<char>,
    prs: Seq<GhPrView>,
    i: int,
) -> Option<Seq<CauseView>> {
    let pr = prs[i];
    let start = "unexpected retarget for frozen dependency `"@ + name + "` "@ + pr::hash(pr.number);
    if i == 0 {
        if pr.base_ref_name != trunk {
            Some(
                error::plain(
                    start + ": base branch is `"@ + pr.base_ref_name + "`, expected trunk `"@ + trunk
                        + "`"@,
                ),
            )
        } else {
            None
        }
    } else {
        let previous = prs[i - 1];
        if pr.base_ref_name != previous.head_ref_name {
            Some(
                error::plain(
                    start + ": base branch is `"@ + pr.base_ref_name
                        + "`, expected previous frozen "@ + pr::hash(previous.number)
                        + " head branch `"@ + previous.head_ref_name + "`"@,
                ),
            )
        } else if pr.base_ref_oid != previous.head_ref_oid {
            Some(
                error::plain(
                    start + ": base SHA is "@ + pr.base_ref_oid + ", expected previous frozen "@
                        + pr::hash(previous.number) + " head SHA "@ + previous.head_ref_oid,
                ),
            )
        } else {
            None
        }
    }
}

fn check_frozen_base(trunk: &str, name: &str, prs: &Vec<GhPr>, i: usize) -> (r: Result<(), Error>)
    requires
        i < prs@.len(),
    ensures
        error::res_of(r) == match frozen_base_fault(trunk@, name@, prs.deep_view(), i as int) {
            Some(e) => Err(e),
            None => Ok(()),
        },
{
    let pr = &prs[i];
    assert(prs.deep_view()[i as int] == pr@);
    let mut message = cat3("unexpected retarget for frozen dependency `", name, "` ");
    message.append(&hash_text(pr.number));
    if i == 0 {
        if !same(&pr.base_ref_name, trunk) {
            message.append(": base branch is `");
            message.append(&pr.base_ref_name);
            message.append("`, expected trunk `");
            message.append(trunk);
            message.append("`");
            return Err(fail(&message));
        }
        return Ok(());
    }
    let previous = &prs[i - 1];
    assert(prs.deep_view()[i - 1] == previous@);
    if !same(&pr.base_ref_name, &previous.head_ref_name) {
        message.append(": base branch is `");
        message.append(&pr.base_ref_name);
        message.append("`, expected previous frozen ");
        message.append(&hash_text(previous.number));
        message.append(" head branch `");
        message.append(&previous.head_ref_name);
        message.append("`");
        return Err(fail(&message));
    }
    if !same(&pr.base_ref_oid, &previous.head_ref_oid) {
        message.append(": base SHA is ");
        message.append(&pr.base_ref_oid);
        message.append(", expected previous frozen ");
        message.append(&hash_text(previous.number));
        message.append(" head SHA ");
        message.append(&previous.head_ref_oid);
        return Err(fail(&message));
    }
    Ok(())
}

pub open spec fn frozen_stack_fault(
    config: AppConfigView,
    repo: Seq<char>,
    dependencies: Seq<FrozenDependencyView>,
    prs: Seq<GhPrView>,
    i: int,
) -> Option<Seq<CauseView>>
    decreases prs.len() - i,
{
    if i >= prs.len() {
        None
    } else {
        match frozen_metadata_fault(repo, dependencies[i], prs[i]) {
            Some(e) => Some(e),
            None => match frozen_base_fault(
                config.trunk,
                dependencies[i].bookmark.name,
                prs,
                i,
            ) {
                Some(e) => Some(e),
                None => frozen_stack_fault(config, repo, dependencies, prs, i + 1),
            },
        }
    }
}

pub open spec fn is_merged_pr(pr: GhPrView) -> bool {
    text::lower_all(pr.state) == text::lower_all("MERGED"@)
}

/// How many of the pull requests are merged.
pub open spec fn merged_count(prs: Seq<GhPrView>) -> nat
    decreases prs.len(),
{
    if prs.len() == 0 {
        0
    } else {
        merged_count(prs.drop_last()) + (if is_merged_pr(prs.last()) {
            1nat
        } else {
            0
        })
    }
}

fn count_merged(prs: &Vec<GhPr>) -> (r: usize)
    ensures
        r == merged_count(prs.deep_view()),
        r <= prs@.len(),
{
    let ghost all = prs.deep_view();
    let mut count: usize = 0;
    let mut i: usize = 0;
    while i < prs.len()
        invariant
            i <= prs@.len(),
            all == prs.deep_view(),
            count <= i,
            count == merged_count(all.take(i as int)),
        decreases prs@.len() - i,
    {
        assert(all.take(i + 1).drop_last() =~= all.take(i as int));
        assert(all[i as int] == prs@[i as int]@);
        if same_ignoring_case(&prs[i].state, "MERGED") {
            count = count + 1;
        }
        i = i + 1;
    }
    assert(all.take(i as int) =~= all);
    count
}

/// Whether the frozen stack is still in use: not, if all of it is merged; and otherwise none of it may
/// be, and the pull requests must stand one on the other, from trunk up.
pub open spec fn frozen_stack_state(
    config: AppConfigView,
    repo: Seq<char>,
    dependencies: Seq<FrozenDependencyView>,
    prs: Seq<GhPrView>,
) -> Result<bool, Seq<CauseView>> {
    let merged = merged_count(prs);
    if dependencies.len() != prs.len() {
        Err(
            error::plain(
                "internal sync error: "@ + text::decimal(dependencies.len())
                    + " frozen dependencies but "@ + text::decimal(prs.len()) + " GitHub PRs"@,
            ),
        )
    } else if merged == prs.len() {
        Ok(false)
    } else if merged > 0 {
        Err(
            error::plain(
                "partially merged frozen dependency stack is not recoverable automatically yet: "@
                    + text::decimal(merged) + "/"@ + text::decimal(prs.len()) + " dependencies are merged"@,
            ),
        )
    } else {
        match frozen_stack_fault(config, repo, dependencies, prs, 0) {
            Some(e) => Err(e),
            None => Ok(true),
        }
    }
}

pub fn validate_sync_frozen_pr_stack(
    config: &AppConfig,
    github: &GitHubContext,
    dependencies: &Vec<FrozenDependency>,
    prs: &Vec<GhPr>,
) -> (r: Result<bool, Error>)
    ensures
        error::res_of(r) == frozen_stack_state(
            config@,
            github@.repo,
            dependencies.deep_view(),
            prs.deep_view(),
        ),
{
    let d: usize = dependencies.len();
    let n: usize = prs.len();
    if d != n {
        return Err(
            fail(
                &cat5(
                    "internal sync error: ",
                    &number_text(d as u64),
                    " frozen dependencies but ",
                    &number_text(n as u64),
                    " GitHub PRs",
                ),
            ),
        );
    }
    let merged = count_merged(prs);
    if merged == n {
        return Ok(false);
    }
    if merged > 0 {
        return Err(
            fail(
                &cat5(
                    "partially merged frozen dependency stack is not recoverable automatically yet: ",
                    &number_text(merged as u64),
                    "/",
                    &number_text(n as u64),
                    " dependencies are merged",
                ),
            ),
        );
    }
    let ghost deps = dependencies.deep_view();
    let ghost all = prs.deep_view();
    let mut i: usize = 0;
    while i < n
        invariant
            n == prs@.len(),
            n == dependencies@.len(),
            i <= n,
            deps == dependencies.deep_view(),
            all == prs.deep_view(),
            frozen_stack_fault(config@, github@.repo, deps, all, 0) == frozen_stack_fault(
                config@,
                github@.repo,
                deps,
                all,
                i as int,
            ),
            frozen_stack_state(config@, github@.repo, deps, all) == (match frozen_stack_fault(
                config@,
                github@.repo,
                deps,
                all,
                0,
            ) {
                Some(e) => Err(e),
                None => Ok(true),
            }),
        decreases n - i,
    {
        assert(deps[i as int] == dependencies@[i as int]@);
        assert(all[i as int] == prs@[i as int]@);
        match validate_sync_frozen_pr_metadata(github, &dependencies[i], &prs[i]) {
            Err(error) => return Err(error),
            Ok(_) => {},
        }
        match check_frozen_base(&config.trunk, &dependencies[i].bookmark.name, prs, i) {
            Err(error) => return Err(error),
            Ok(_) => {},
        }
        i = i + 1;
    }
    Ok(true)
}

/// The law of the frozen row: a frozen stack that is still in use has no merged pull request; each is
/// open, the bottom one goes to trunk, and each other one to the head of the one below, at the very
/// commit.
pub proof fn law_active_frozen_stack_is_a_row(
    config: AppConfigView,
    repo: Seq<char>,
    dependencies: Seq<FrozenDependencyView>,
    prs: Seq<GhPrView>,
    i: int,
)
    requires
        frozen_stack_state(config, repo, dependencies, prs) == Ok::<bool, Seq<CauseView>>(true),
        0 <= i < prs.len(),
    ensures
        pr::is_open(prs[i].state),
        i == 0 ==> prs[i].base_ref_name == config.trunk,
        i > 0 ==> prs[i].base_ref_name == prs[i - 1].head_ref_name && prs[i].base_ref_oid
            == prs[i - 1].head_ref_oid,
{
    lemma_no_frozen_fault(config, repo, dependencies, prs, 0, i);
}

proof fn lemma_no_frozen_fault(
    config: AppConfigView,
    repo: Seq<char>,
    dependencies: Seq<FrozenDependencyView>,
    prs: Seq<GhPrView>,
    from: int,
    i: int,
)
    requires
        0 <= from <= i < prs.len(),
        frozen_stack_fault(config, repo, dependencies, prs, from) is None,
    ensures
        frozen_metadata_fault(repo, dependencies[i], prs[i]) is None,
        frozen_base_fault(config.trunk, dependencies[i].bookmark.name, prs, i) is None,
    decreases i - from,
{
    if from < i {
        lemma_no_frozen_fault(config, repo, dependencies, prs, from + 1, i);
    }
}

// ---------------------------------------------------------------------------
// Refreshing the frozen dependencies
// ---------------------------------------------------------------------------

/// What is known of the frozen dependencies once they are fresh.
pub struct SyncFrozenRefresh {
    pub github: Option<GitHubContext>,
    pub active_dependencies: bool,
}

pub struct SyncFrozenRefreshView {
    pub github: Option<GitHubContextView>,
    pub active_dependencies: bool,
}

impl View for SyncFrozenRefresh {
    type V = SyncFrozenRefreshView;

    open spec fn view(&self) -> SyncFrozenRefreshView {
        SyncFrozenRefreshView {
            github: self.github.deep_view(),
            active_dependencies: self.active_dependencies,
        }
    }
}

impl DeepView for SyncFrozenRefresh {
    type V = SyncFrozenRefreshView;

    open spec fn deep_view(&self) -> SyncFrozenRefreshView {
        self@
    }
}

pub open spec fn branch_failure(e: Seq<CauseView>) -> Seq<CauseView> {
    error::plain("fetch frozen dependency branches: "@ + error::top_line(e))
}

pub open spec fn bookmarks_refreshed(
    before: Seq<Event>,
    after: Seq<Event>,
    prs: Seq<GhPrView>,
    github: GitHubContextView,
    dry_run: bool,
    r: Result<SyncFrozenRefreshView, Seq<CauseView>>,
) -> bool {
    exists|updated: Result<(), Seq<CauseView>>|
        {
            &&& #[trigger] bookmarks::frozen_updated(before, after, prs, dry_run, updated)
            &&& r == match updated {
                Err(e) => Err::<SyncFrozenRefreshView, Seq<CauseView>>(e),
                Ok(_) => Ok(
                    SyncFrozenRefreshView { github: Some(github), active_dependencies: true },
                ),
            }
        }
}

/// The record from `before` to `after` holds the fetch of the frozen branches and the move of their
/// bookmarks.
pub open spec fn branches_refreshed(
    before: Seq<Event>,
    after: Seq<Event>,
    remote: Seq<char>,
    prs: Seq<GhPrView>,
    github: GitHubContextView,
    dry_run: bool,
    r: Result<SyncFrozenRefreshView, Seq<CauseView>>,
) -> bool {
    exists|mid: Seq<Event>, fetched: Result<(), Seq<CauseView>>|
        {
            &&& #[trigger] branches::branches_fetched(before, mid, remote, prs, dry_run, fetched)
            &&& match fetched {
                Err(e) => record::stopped(mid, after, branch_failure(e), r),
                Ok(_) => bookmarks_refreshed(mid, after, prs, github, dry_run, r),
            }
        }
}

fn refresh_branches<H: Host>(
    sh: &mut Shell<H>,
    config: &AppConfig,
    prs: &Vec<GhPr>,
    github: GitHubContext,
    diagnostics: Diagnostics,
) -> (r: Result<SyncFrozenRefresh, Error>)
    ensures
        record::extends(old(sh).log(), final(sh).log()),
        branches_refreshed(
            old(sh).log(),
            final(sh).log(),
            config@.remote,
            prs.deep_view(),
            github@,
            diagnostics.dry_run,
            error::res(r),
        ),
{
    let fetched = fetch_get_branches(sh, config, prs, diagnostics);
    let ghost mid = sh.log();
    let ghost seen = error::res_of(fetched);
    assert(branches::branches_fetched(
        old(sh).log(),
        mid,
        config@.remote,
        prs.deep_view(),
        diagnostics.dry_run,
        seen,
    ));
    match fetched {
        Err(error) => return Err(
            fail(&cat("fetch frozen dependency branches: ", &error.top())),
        ),
        Ok(_) => {},
    }
    let updated = update_get_frozen_bookmarks(sh, prs, diagnostics);
    assert(bookmarks::frozen_updated(mid, sh.log(), prs.deep_view(), diagnostics.dry_run, error::res_of(updated)));
    match updated {
        Err(error) => Err(error),
        Ok(_) => Ok(SyncFrozenRefresh { github: Some(github), active_dependencies: true }),
    }
}

pub open spec fn dependency_numbers(dependencies: Seq<FrozenDependencyView>) -> Seq<u64> {
    dependencies.map_values(|d: FrozenDependencyView| d.bookmark.pr_number)
}

fn list_dependency_numbers(dependencies: &Vec<FrozenDependency>) -> (r: Vec<u64>)
    ensures
        r@ == dependency_numbers(dependencies.deep_view()),
{
    let mut numbers: Vec<u64> = Vec::new();
    let mut i: usize = 0;
    while i < dependencies.len()
        invariant
            i <= dependencies@.len(),
            numbers@.len() == i,
            forall|k: int| 0 <= k < i ==> numbers@[k] == dependencies@[k]@.bookmark.pr_number,
        decreases dependencies@.len() - i,
    {
        numbers.push(dependencies[i].bookmark.pr_number);
        i = i + 1;
    }
    assert(numbers@ =~= dependency_numbers(dependencies.deep_view()));
    numbers
}

pub open spec fn dependency_prs_fetched(
    before: Seq<Event>,
    after: Seq<Event>,
    repo: Seq<char>,
    dependencies: Seq<FrozenDependencyView>,
    r: Result<Seq<GhPrView>, Seq<CauseView>>,
) -> bool {
    get::prs_walked(
        before,
        after,
        repo,
        "sync-frozen"@,
        dependency_numbers(dependencies),
        seq![],
        false,
        r,
    )
}

/// The record from `before` to `after` holds how the pull requests of the frozen dependencies are
/// fetched, and what follows from their state.
pub open spec fn dependencies_fetched(
    before: Seq<Event>,
    after: Seq<Event>,
    config: AppConfigView,
    dependencies: Seq<FrozenDependencyView>,
    github: GitHubContextView,
    dry_run: bool,
    r: Result<SyncFrozenRefreshView, Seq<CauseView>>,
) -> bool {
    exists|mid: Seq<Event>, prs: Result<Seq<GhPrView>, Seq<CauseView>>|
        {
            &&& #[trigger] dependency_prs_fetched(before, mid, github.repo, dependencies, prs)
            &&& match prs {
                Err(e) => record::stopped(mid, after, e, r),
                Ok(prs) => match frozen_stack_state(config, github.repo, dependencies, prs) {
                    Err(e) => record::stopped(mid, after, e, r),
                    Ok(false) => after == mid && r == Ok::<_, Seq<CauseView>>(
                        SyncFrozenRefreshView {
                            github: Some(github),
                            active_dependencies: false,
                        },
                    ),
                    Ok(true) => branches_refreshed(
                        mid,
                        after,
                        config.remote,
                        prs,
                        github,
                        dry_run,
                        r,
                    ),
                },
            }
        }
}

fn fetch_dependencies<H: Host>(
    sh: &mut Shell<H>,
    config: &AppConfig,
    dependencies: &Vec<FrozenDependency>,
    github: GitHubContext,
    diagnostics: Diagnostics,
) -> (r: Result<SyncFrozenRefresh, Error>)
    ensures
        record::extends(old(sh).log(), final(sh).log()),
        dependencies_fetched(
            old(sh).log(),
            final(sh).log(),
            config@,
            dependencies.deep_view(),
            github@,
            diagnostics.dry_run,
            error::res(r),
        ),
{
    let numbers = list_dependency_numbers(dependencies);
    let none: Vec<GhPr> = Vec::new();
    assert(none.deep_view() =~= Seq::<GhPrView>::empty());
    let fetched = walk_prs(sh, &github, "sync-frozen", &numbers, none, false);
    let ghost seen = error::res(fetched);
    assert(dependency_prs_fetched(
        old(sh).log(),
        sh.log(),
        github@.repo,
        dependencies.deep_view(),
        seen,
    ));
    let prs = match fetched {
        Ok(prs) => prs,
        Err(error) => return Err(error),
    };
    match validate_sync_frozen_pr_stack(config, &github, dependencies, &prs) {
        Err(error) => Err(error),
        Ok(active) => {
            if !active {
                return Ok(
                    SyncFrozenRefresh { github: Some(github), active_dependencies: false },
                );
            }
            refresh_branches(sh, config, &prs, github, diagnostics)
        },
    }
}

pub open spec fn dependencies_located(
    before: Seq<Event>,
    after: Seq<Event>,
    config: AppConfigView,
    dependencies: Seq<FrozenDependencyView>,
    dry_run: bool,
    r: Result<SyncFrozenRefreshView, Seq<CauseView>>,
) -> bool {
    exists|mid: Seq<Event>, github: Result<GitHubContextView, Seq<CauseView>>|
        {
            &&& #[trigger] context::github_resolved(before, mid, github)
            &&& match github {
                Err(e) => record::stopped(
                    mid,
                    after,
                    error::in_context("resolve GitHub repository for frozen dependencies"@, e),
                    r,
                ),
                Ok(github) => dependencies_fetched(
                    mid,
                    after,
                    config,
                    dependencies,
                    github,
                    dry_run,
                    r,
                ),
            }
        }
}

/// The record from `before` to `after` holds how the frozen dependencies are refreshed. Where there are
/// none, nothing is done.
pub open spec fn dependencies_refreshed(
    before: Seq<Event>,
    after: Seq<Event>,
    config: AppConfigView,
    dependencies: Seq<FrozenDependencyView>,
    dry_run: bool,
    r: Result<SyncFrozenRefreshView, Seq<CauseView>>,
) -> bool {
    if dependencies.len() == 0 {
        after == before && r == Ok::<_, Seq<CauseView>>(
            SyncFrozenRefreshView { github: None, active_dependencies: false },
        )
    } else {
        dependencies_located(before, after, config, dependencies, dry_run, r)
    }
}

pub fn sync_refresh_frozen_dependencies<H: Host>(
    sh: &mut Shell<H>,
    config: &AppConfig,
    stack_resolution: &StackResolution,
    diagnostics: Diagnostics,
) -> (r: Result<SyncFrozenRefresh, Error>)
    ensures
        record::extends(old(sh).log(), final(sh).log()),
        dependencies_refreshed(
            old(sh).log(),
            final(sh).log(),
            config@,
            stack_resolution@.frozen_dependencies,
            diagnostics.dry_run,
            error::res(r),
        ),
{
    let n: usize = stack_resolution.frozen_dependencies.len();
    if n == 0 {
        return Ok(SyncFrozenRefresh { github: None, active_dependencies: false });
    }
    let resolved = GitHubContext::resolve(sh);
    let ghost seen = error::res(resolved);
    assert(context::github_resolved(old(sh).log(), sh.log(), seen));
    match resolved {
        Err(error) => Err(error.context("resolve GitHub repository for frozen dependencies")),
        Ok(github) => fetch_dependencies(
            sh,
            config,
            &stack_resolution.frozen_dependencies,
            github,
            diagnostics,
        ),
    }
}

// ---------------------------------------------------------------------------
// The submit after a sync
// ---------------------------------------------------------------------------

pub open spec fn synced_result(
    done: Result<SubmitSummary, Seq<CauseView>>,
    summary: SyncSummary,
) -> Result<SyncSummary, Seq<CauseView>> {
    match done {
        Err(e) => Err(error::phase_failure("sync-submit"@, "submit"@, e)),
        Ok(_) => Ok(SyncSummary { submit_ran: true, ..summary }),
    }
}

pub open spec fn synced_submitted(
    before: Seq<Event>,
    after: Seq<Event>,
    config: AppConfigView,
    context: AppContextView,
    yes: bool,
    summary: SyncSummary,
    diagnostics: Diagnostics,
    r: Result<SyncSummary, Seq<CauseView>>,
) -> bool {
    exists|done: Result<SubmitSummary, Seq<CauseView>>|
        {
            &&& #[trigger] submit::stack_submitted(
                before + context::context_said(diagnostics.verbose, context),
                after,
                config,
                context,
                yes,
                "forklift sync --submit --yes"@,
                diagnostics,
                done,
            )
            &&& r == synced_result(done, summary)
        }
}

/// The context that is submitted: the GitHub repository that the refresh saw, if it saw one.
pub open spec fn synced_context(
    context: AppContextView,
    github: Option<GitHubContextView>,
) -> AppContextView {
    match github {
        Some(github) => AppContextView { github, ..context },
        None => context,
    }
}

pub open spec fn sync_submitted(
    before: Seq<Event>,
    after: Seq<Event>,
    config: AppConfigView,
    revset: Seq<char>,
    github: Option<GitHubContextView>,
    yes: bool,
    summary: SyncSummary,
    diagnostics: Diagnostics,
    r: Result<SyncSummary, Seq<CauseView>>,
) -> bool {
    exists|mid: Seq<Event>, context: Result<AppContextView, Seq<CauseView>>|
        {
            &&& #[trigger] context::context_resolved(
                before + ui::phase_said(diagnostics, "sync-submit"@),
                mid,
                revset,
                context,
            )
            &&& match context {
                Err(e) => record::stopped(mid, after, error::phase_failure("sync-submit"@, revset, e), r),
                Ok(context) => synced_submitted(
                    mid,
                    after,
                    config,
                    synced_context(context, github),
                    yes,
                    summary,
                    diagnostics,
                    r,
                ),
            }
        }
}

fn submit_sync<H: Host>(
    sh: &mut Shell<H>,
    config: &AppConfig,
    revset: &str,
    github: Option<GitHubContext>,
    yes: bool,
    summary: SyncSummary,
    diagnostics: Diagnostics,
) -> (r: Result<SyncSummary, Error>)
    ensures
        record::extends(old(sh).log(), final(sh).log()),
        sync_submitted(
            old(sh).log(),
            final(sh).log(),
            config@,
            revset@,
            github.deep_view(),
            yes,
            summary,
            diagnostics,
            error::res_of(r),
        ),
{
    let ghost start = sh.log();
    diagnostics.phase(sh, "sync-submit");
    let resolved = resolve_stack_context(sh, revset);
    let ghost mid = sh.log();
    let ghost seen = error::res(resolved);
    assert(context::context_resolved(
        start + ui::phase_said(diagnostics, "sync-submit"@),
        mid,
        revset@,
        seen,
    ));
    let mut context = match resolved {
        Ok(context) => context,
        Err(error) => return Err(phase_error("sync-submit", revset, error)),
    };
    let ghost plain_context = context@;
    match github {
        Some(github) => context.github = github,
        None => {},
    }
    assert(context@ == synced_context(plain_context, github.deep_view()));
    say_context(sh, diagnostics.verbose, &context);
    let done = submit_stack(
        sh,
        config,
        &context,
        yes,
        "forklift sync --submit --yes",
        diagnostics,
    );
    let ghost ended = error::res_of(done);
    assert(submit::stack_submitted(
        mid + context::context_said(diagnostics.verbose, context@),
        sh.log(),
        config@,
        context@,
        yes,
        "forklift sync --submit --yes"@,
        diagnostics,
        ended,
    ));
    assert(synced_submitted(
        mid,
        sh.log(),
        config@,
        context@,
        yes,
        summary,
        diagnostics,
        synced_result(ended, summary),
    ));
    match done {
        Err(error) => Err(phase_error("sync-submit", "submit", error)),
        Ok(_) => {
            let mut summary = summary;
            summary.submit_ran = true;
            Ok(summary)
        },
    }
}

// ---------------------------------------------------------------------------
// The rebase
// ---------------------------------------------------------------------------

pub open spec fn synced_destination(
    trunk: Seq<char>,
    resolution: StackResolutionView,
    active: bool,
) -> RebaseDestinationView {
    if active {
        rebase::destination_of(trunk, resolution)
    } else {
        RebaseDestinationView::Trunk(trunk)
    }
}

/// The record from `before` to `after` holds what follows the rebase.
pub open spec fn sync_finished(
    before: Seq<Event>,
    after: Seq<Event>,
    config: AppConfigView,
    revset: Seq<char>,
    github: Option<GitHubContextView>,
    submit: bool,
    yes: bool,
    summary: SyncSummary,
    diagnostics: Diagnostics,
    r: Result<SyncSummary, Seq<CauseView>>,
) -> bool {
    if !submit {
        after == before && r == Ok::<SyncSummary, Seq<CauseView>>(summary)
    } else if diagnostics.dry_run {
        after == before + ui::plan_said(diagnostics, "- run submit after sync"@) && r == Ok::<
            SyncSummary,
            Seq<CauseView>,
        >(SyncSummary { submit_ran: true, ..summary })
    } else {
        sync_submitted(before, after, config, revset, github, yes, summary, diagnostics, r)
    }
}

fn finish_sync<H: Host>(
    sh: &mut Shell<H>,
    config: &AppConfig,
    revset: &str,
    github: Option<GitHubContext>,
    submit: bool,
    yes: bool,
    summary: SyncSummary,
    diagnostics: Diagnostics,
) -> (r: Result<SyncSummary, Error>)
    ensures
        record::extends(old(sh).log(), final(sh).log()),
        sync_finished(
            old(sh).log(),
            final(sh).log(),
            config@,
            revset@,
            github.deep_view(),
            submit,
            yes,
            summary,
            diagnostics,
            error::res_of(r),
        ),
{
    if !submit {
        return Ok(summary);
    }
    if diagnostics.dry_run {
        diagnostics.plan_line(sh, "- run submit after sync");
        let mut summary = summary;
        summary.submit_ran = true;
        return Ok(summary);
    }
    submit_sync(sh, config, revset, github, yes, summary, diagnostics)
}

pub open spec fn sync_rebased(
    before: Seq<Event>,
    after: Seq<Event>,
    config: AppConfigView,
    revset: Seq<char>,
    resolution: StackResolutionView,
    refresh: SyncFrozenRefreshView,
    submit: bool,
    yes: bool,
    cleaned: usize,
    diagnostics: Diagnostics,
    r: Result<SyncSummary, Seq<CauseView>>,
) -> bool {
    exists|mid: Seq<Event>, rebased: Result<usize, Seq<CauseView>>|
        {
            &&& #[trigger] rebase::roots_rebased(
                before + ui::phase_said(diagnostics, "rebase-stack"@),
                mid,
                resolution.owned,
                synced_destination(config.trunk, resolution, refresh.active_dependencies),
                diagnostics.dry_run,
                rebased,
            )
            &&& match rebased {
                Err(e) => record::stopped(mid, after, error::phase_failure("rebase-stack"@, revset, e), r),
                Ok(rebased_roots) => sync_finished(
                    mid,
                    after,
                    config,
                    revset,
                    refresh.github,
                    submit,
                    yes,
                    SyncSummary { rebased_roots, submit_ran: false, cleaned_branches: cleaned },
                    diagnostics,
                    r,
                ),
            }
        }
}

fn rebase_sync<H: Host>(
    sh: &mut Shell<H>,
    config: &AppConfig,
    revset: &str,
    resolution: &StackResolution,
    refresh: SyncFrozenRefresh,
    submit: bool,
    yes: bool,
    cleaned: usize,
    diagnostics: Diagnostics,
) -> (r: Result<SyncSummary, Error>)
    ensures
        record::extends(old(sh).log(), final(sh).log()),
        sync_rebased(
            old(sh).log(),
            final(sh).log(),
            config@,
            revset@,
            resolution@,
            refresh@,
            submit,
            yes,
            cleaned,
            diagnostics,
            error::res_of(r),
        ),
{
    let ghost start = sh.log();
    diagnostics.phase(sh, "rebase-stack");
    let destination = if refresh.active_dependencies {
        sync_rebase_destination(config, resolution)
    } else {
        RebaseDestination::Trunk(config.trunk.clone())
    };
    let rebased = rebase_stack_roots(sh, &resolution.owned, &destination, diagnostics);
    let ghost seen = error::res_of(rebased);
    assert(rebase::roots_rebased(
        start + ui::phase_said(diagnostics, "rebase-stack"@),
        sh.log(),
        resolution@.owned,
        synced_destination(config@.trunk, resolution@, refresh.active_dependencies),
        diagnostics.dry_run,
        seen,
    ));
    match rebased {
        Err(error) => Err(phase_error("rebase-stack", revset, error)),
        Ok(rebased_roots) => finish_sync(
            sh,
            config,
            revset,
            refresh.github,
            submit,
            yes,
            SyncSummary { rebased_roots, submit_ran: false, cleaned_branches: cleaned },
            diagnostics,
        ),
    }
}

// ---------------------------------------------------------------------------
// The whole sync
// ---------------------------------------------------------------------------

pub open spec fn sync_moved(
    before: Seq<Event>,
    after: Seq<Event>,
    config: AppConfigView,
    revset: Seq<char>,
    resolution: StackResolutionView,
    refresh: SyncFrozenRefreshView,
    submit: bool,
    yes: bool,
    cleaned: usize,
    diagnostics: Diagnostics,
    r: Result<SyncSummary, Seq<CauseView>>,
) -> bool {
    exists|mid: Seq<Event>, moved: Result<(), Seq<CauseView>>|
        {
            &&& #[trigger] trunk::trunk_moved(
                before + ui::phase_said(diagnostics, "move-trunk"@),
                mid,
                config,
                diagnostics,
                moved,
            )
            &&& match moved {
                Err(e) => record::stopped(mid, after, error::phase_failure("move-trunk"@, config.trunk, e), r),
                Ok(_) => if resolution.owned.len() == 0 {
                    after == mid && r == Ok::<SyncSummary, Seq<CauseView>>(
                        SyncSummary {
                            rebased_roots: 0,
                            submit_ran: false,
                            cleaned_branches: cleaned,
                        },
                    )
                } else {
                    sync_rebased(
                        mid,
                        after,
                        config,
                        revset,
                        resolution,
                        refresh,
                        submit,
                        yes,
                        cleaned,
                        diagnostics,
                        r,
                    )
                },
            }
        }
}

fn move_sync<H: Host>(
    sh: &mut Shell<H>,
    config: &AppConfig,
    revset: &str,
    resolution: &StackResolution,
    refresh: SyncFrozenRefresh,
    submit: bool,
    yes: bool,
    cleaned: usize,
    diagnostics: Diagnostics,
) -> (r: Result<SyncSummary, Error>)
    ensures
        record::extends(old(sh).log(), final(sh).log()),
        sync_moved(
            old(sh).log(),
            final(sh).log(),
            config@,
            revset@,
            resolution@,
            refresh@,
            submit,
            yes,
            cleaned,
            diagnostics,
            error::res_of(r),
        ),
{
    let ghost start = sh.log();
    diagnostics.phase(sh, "move-trunk");
    let moved = move_trunk_to_remote(sh, config, diagnostics);
    let ghost seen = error::res_of(moved);
    assert(trunk::trunk_moved(
        start + ui::phase_said(diagnostics, "move-trunk"@),
        sh.log(),
        config@,
        diagnostics,
        seen,
    ));
    match moved {
        Err(error) => return Err(phase_error("move-trunk", &config.trunk, error)),
        Ok(_) => {},
    }
    let n: usize = resolution.owned.len();
    if n == 0 {
        return Ok(
            SyncSummary { rebased_roots: 0, submit_ran: false, cleaned_branches: cleaned },
        );
    }
    rebase_sync(
        sh,
        config,
        revset,
        resolution,
        refresh,
        submit,
        yes,
        cleaned,
        diagnostics,
    )
}

pub open spec fn sync_refreshed(
    before: Seq<Event>,
    after: Seq<Event>,
    config: AppConfigView,
    revset: Seq<char>,
    resolution: StackResolutionView,
    submit: bool,
    yes: bool,
    cleaned: usize,
    diagnostics: Diagnostics,
    r: Result<SyncSummary, Seq<CauseView>>,
) -> bool {
    exists|mid: Seq<Event>, refresh: Result<SyncFrozenRefreshView, Seq<CauseView>>|
        {
            &&& #[trigger] dependencies_refreshed(
                before + context::stack_said(diagnostics.verbose, resolution.owned) + ui::phase_said(
                    diagnostics,
                    "sync-frozen"@,
                ),
                mid,
                config,
                resolution.frozen_dependencies,
                diagnostics.dry_run,
                refresh,
            )
            &&& match refresh {
                Err(e) => record::stopped(
                    mid,
                    after,
                    error::phase_failure("sync-frozen"@, "frozen dependencies"@, e),
                    r,
                ),
                Ok(refresh) => sync_moved(
                    mid,
                    after,
                    config,
                    revset,
                    resolution,
                    refresh,
                    submit,
                    yes,
                    cleaned,
                    diagnostics,
                    r,
                ),
            }
        }
}

fn refresh_sync<H: Host>(
    sh: &mut Shell<H>,
    config: &AppConfig,
    revset: &str,
    resolution: &StackResolution,
    submit: bool,
    yes: bool,
    cleaned: usize,
    diagnostics: Diagnostics,
) -> (r: Result<SyncSummary, Error>)
    ensures
        record::extends(old(sh).log(), final(sh).log()),
        sync_refreshed(
            old(sh).log(),
            final(sh).log(),
            config@,
            revset@,
            resolution@,
            submit,
            yes,
            cleaned,
            diagnostics,
            error::res_of(r),
        ),
{
    let ghost start = sh.log();
    say_stack(sh, diagnostics.verbose, &resolution.owned);
    diagnostics.phase(sh, "sync-frozen");
    let refreshed = sync_refresh_frozen_dependencies(sh, config, resolution, diagnostics);
    let ghost seen = error::res(refreshed);
    assert(dependencies_refreshed(
        start + context::stack_said(diagnostics.verbose, resolution@.owned) + ui::phase_said(
            diagnostics,
            "sync-frozen"@,
        ),
        sh.log(),
        config@,
        resolution@.frozen_dependencies,
        diagnostics.dry_run,
        seen,
    ));
    match refreshed {
        Err(error) => Err(phase_error("sync-frozen", "frozen dependencies", error)),
        Ok(refresh) => move_sync(
            sh,
            config,
            revset,
            resolution,
            refresh,
            submit,
            yes,
            cleaned,
            diagnostics,
        ),
    }
}

/// The record from `before` to `after` holds how the stack of a sync is resolved: the changes that the
/// user owns, or the frozen ones alone.
pub open spec fn sync_stack_resolved(
    before: Seq<Event>,
    after: Seq<Event>,
    revset: Seq<char>,
    stack: Seq<ResolvedChangeView>,
    bookmarks: Seq<FrozenBookmarkView>,
    r: Result<StackResolutionView, Seq<CauseView>>,
) -> bool {
    if stack.len() == 0 {
        context::purely_frozen_resolved(before, after, bookmarks, r)
    } else {
        match stack::shape_failure(stack, revset) {
            Some(error) => record::stopped(before, after, error::reported(error), r),
            None => frozen::resolution_made(before, after, stack, bookmarks, r),
        }
    }
}

fn resolve_sync_stack<H: Host>(
    sh: &mut Shell<H>,
    revset: &str,
    stack: Vec<ResolvedChange>,
    bookmarks: &Vec<FrozenBookmark>,
) -> (r: Result<StackResolution, Error>)
    ensures
        record::extends(old(sh).log(), final(sh).log()),
        sync_stack_resolved(
            old(sh).log(),
            final(sh).log(),
            revset@,
            stack.deep_view(),
            bookmarks.deep_view(),
            error::res(r),
        ),
{
    let n: usize = stack.len();
    if n == 0 {
        return resolve_purely_frozen_stack(sh, bookmarks);
    }
    match validate_stack_shape(&stack, revset) {
        Err(error) => Err(error),
        Ok(_) => resolve_stack_resolution(sh, stack, bookmarks),
    }
}

pub open spec fn sync_resolved(
    before: Seq<Event>,
    after: Seq<Event>,
    config: AppConfigView,
    revset: Seq<char>,
    stack: Seq<ResolvedChangeView>,
    bookmarks: Seq<FrozenBookmarkView>,
    submit: bool,
    yes: bool,
    cleaned: usize,
    diagnostics: Diagnostics,
    r: Result<SyncSummary, Seq<CauseView>>,
) -> bool {
    exists|mid: Seq<Event>, resolution: Result<StackResolutionView, Seq<CauseView>>|
        {
            &&& #[trigger] sync_stack_resolved(before, mid, revset, stack, bookmarks, resolution)
            &&& match resolution {
                Err(e) => record::stopped(mid, after, error::phase_failure("resolve-stack"@, revset, e), r),
                Ok(resolution) => sync_refreshed(
                    mid,
                    after,
                    config,
                    revset,
                    resolution,
                    submit,
                    yes,
                    cleaned,
                    diagnostics,
                    r,
                ),
            }
        }
}

fn resolve_sync<H: Host>(
    sh: &mut Shell<H>,
    config: &AppConfig,
    revset: &str,
    stack: Vec<ResolvedChange>,
    bookmarks: &Vec<FrozenBookmark>,
    submit: bool,
    yes: bool,
    cleaned: usize,
    diagnostics: Diagnostics,
) -> (r: Result<SyncSummary, Error>)
    ensures
        record::extends(old(sh).log(), final(sh).log()),
        sync_resolved(
            old(sh).log(),
            final(sh).log(),
            config@,
            revset@,
            stack.deep_view(),
            bookmarks.deep_view(),
            submit,
            yes,
            cleaned,
            diagnostics,
            error::res_of(r),
        ),
{
    let ghost owned = stack.deep_view();
    let resolved = resolve_sync_stack(sh, revset, stack, bookmarks);
    let ghost seen = error::res(resolved);
    assert(sync_stack_resolved(
        old(sh).log(),
        sh.log(),
        revset@,
        owned,
        bookmarks.deep_view(),
        seen,
    ));
    match resolved {
        Err(error) => Err(phase_error("resolve-stack", revset, error)),
        Ok(resolution) => refresh_sync(
            sh,
            config,
            revset,
            &resolution,
            submit,
            yes,
            cleaned,
            diagnostics,
        ),
    }
}

/// The record from `before` to `after` holds the sync of a checkout without any stack: only trunk
/// moves.
pub open spec fn bare_trunk_synced(
    before: Seq<Event>,
    after: Seq<Event>,
    config: AppConfigView,
    cleaned: usize,
    diagnostics: Diagnostics,
    r: Result<SyncSummary, Seq<CauseView>>,
) -> bool {
    exists|moved: Result<(), Seq<CauseView>>|
        {
            &&& #[trigger] trunk::trunk_moved(
                before + ui::phase_said(diagnostics, "move-trunk"@),
                after,
                config,
                diagnostics,
                moved,
            )
            &&& r == match moved {
                Err(e) => Err(error::phase_failure("move-trunk"@, config.trunk, e)),
                Ok(_) => Ok(
                    SyncSummary {
                        rebased_roots: 0,
                        submit_ran: false,
                        cleaned_branches: cleaned,
                    },
                ),
            }
        }
}

fn sync_bare_trunk<H: Host>(
    sh: &mut Shell<H>,
    config: &AppConfig,
    cleaned: usize,
    diagnostics: Diagnostics,
) -> (r: Result<SyncSummary, Error>)
    ensures
        record::extends(old(sh).log(), final(sh).log()),
        bare_trunk_synced(
            old(sh).log(),
            final(sh).log(),
            config@,
            cleaned,
            diagnostics,
            error::res_of(r),
        ),
{
    let ghost start = sh.log();
    diagnostics.phase(sh, "move-trunk");
    let moved = move_trunk_to_remote(sh, config, diagnostics);
    let ghost seen = error::res_of(moved);
    assert(trunk::trunk_moved(
        start + ui::phase_said(diagnostics, "move-trunk"@),
        sh.log(),
        config@,
        diagnostics,
        seen,
    ));
    match moved {
        Err(error) => Err(phase_error("move-trunk", &config.trunk, error)),
        Ok(_) => Ok(
            SyncSummary { rebased_roots: 0, submit_ran: false, cleaned_branches: cleaned },
        ),
    }
}

pub open spec fn revset_synced(
    before: Seq<Event>,
    after: Seq<Event>,
    config: AppConfigView,
    revset: Seq<char>,
    bookmarks: Seq<FrozenBookmarkView>,
    submit: bool,
    yes: bool,
    cleaned: usize,
    diagnostics: Diagnostics,
    r: Result<SyncSummary, Seq<CauseView>>,
) -> bool {
    exists|mid: Seq<Event>, stack: Result<Seq<ResolvedChangeView>, Seq<CauseView>>|
        {
            &&& #[trigger] stack::stack_resolved(before, mid, revset, stack)
            &&& match stack {
                Err(e) => record::stopped(mid, after, error::phase_failure("resolve-stack"@, revset, e), r),
                Ok(stack) => if stack.len() == 0 && bookmarks.len() == 0 {
                    bare_trunk_synced(mid, after, config, cleaned, diagnostics, r)
                } else {
                    sync_resolved(
                        mid,
                        after,
                        config,
                        revset,
                        stack,
                        bookmarks,
                        submit,
                        yes,
                        cleaned,
                        diagnostics,
                        r,
                    )
                },
            }
        }
}

fn sync_revset<H: Host>(
    sh: &mut Shell<H>,
    config: &AppConfig,
    revset: &str,
    bookmarks: &Vec<FrozenBookmark>,
    submit: bool,
    yes: bool,
    cleaned: usize,
    diagnostics: Diagnostics,
) -> (r: Result<SyncSummary, Error>)
    ensures
        record::extends(old(sh).log(), final(sh).log()),
        revset_synced(
            old(sh).log(),
            final(sh).log(),
            config@,
            revset@,
            bookmarks.deep_view(),
            submit,
            yes,
            cleaned,
            diagnostics,
            error::res_of(r),
        ),
{
    let resolved = resolve_stack(sh, revset);
    let ghost seen = error::res(resolved);
    assert(stack::stack_resolved(old(sh).log(), sh.log(), revset@, seen));
    let stack = match resolved {
        Ok(stack) => stack,
        Err(error) => return Err(phase_error("resolve-stack", revset, error)),
    };
    let n: usize = stack.len();
    let m: usize = bookmarks.len();
    if n == 0 && m == 0 {
        return sync_bare_trunk(sh, config, cleaned, diagnostics);
    }
    resolve_sync(
        sh,
        config,
        revset,
        stack,
        bookmarks,
        submit,
        yes,
        cleaned,
        diagnostics,
    )
}

pub open spec fn frozen_sync_begun(
    before: Seq<Event>,
    after: Seq<Event>,
    config: AppConfigView,
    revset: Seq<char>,
    submit: bool,
    yes: bool,
    cleaned: usize,
    diagnostics: Diagnostics,
    r: Result<SyncSummary, Seq<CauseView>>,
) -> bool {
    exists|mid: Seq<Event>|
        {
            &&& #[trigger] record::called(before, mid, "jj"@, bookmarks::frozen_list_args())
            &&& match bookmarks::frozen_list_result(record::last_reply(mid)) {
                Err(e) => record::stopped(
                    mid,
                    after,
                    error::phase_failure("resolve-stack"@, "frozen-bookmarks"@, e),
                    r,
                ),
                Ok(bookmarks) => revset_synced(
                    mid,
                    after,
                    config,
                    revset,
                    bookmarks,
                    submit,
                    yes,
                    cleaned,
                    diagnostics,
                    r,
                ),
            }
        }
}

fn begin_frozen_sync<H: Host>(
    sh: &mut Shell<H>,
    config: &AppConfig,
    revset: &str,
    submit: bool,
    yes: bool,
    cleaned: usize,
    diagnostics: Diagnostics,
) -> (r: Result<SyncSummary, Error>)
    ensures
        record::extends(old(sh).log(), final(sh).log()),
        frozen_sync_begun(
            old(sh).log(),
            final(sh).log(),
            config@,
            revset@,
            submit,
            yes,
            cleaned,
            diagnostics,
            error::res_of(r),
        ),
{
    let listed = frozen_bookmarks(sh);
    assert(record::called(old(sh).log(), sh.log(), "jj"@, bookmarks::frozen_list_args()));
    match listed {
        Err(error) => Err(phase_error("resolve-stack", "frozen-bookmarks", error)),
        Ok(bookmarks) => sync_revset(
            sh,
            config,
            revset,
            &bookmarks,
            submit,
            yes,
            cleaned,
            diagnostics,
        ),
    }
}

pub open spec fn sync_begun(
    before: Seq<Event>,
    after: Seq<Event>,
    config: AppConfigView,
    revset: Seq<char>,
    submit: bool,
    yes: bool,
    cleaned: usize,
    diagnostics: Diagnostics,
    r: Result<SyncSummary, Seq<CauseView>>,
) -> bool {
    exists|mid: Seq<Event>|
        {
            &&& #[trigger] record::called(
                before + ui::phase_said(diagnostics, "resolve-stack"@),
                mid,
                "jj"@,
                stack::single_rev_args("trunk()"@),
            )
            &&& match stack::single_commit("trunk()"@, record::last_reply(mid)) {
                Err(e) => record::stopped(mid, after, error::phase_failure("resolve-stack"@, "trunk()"@, e), r),
                Ok(trunk) => frozen_sync_begun(
                    mid,
                    after,
                    config,
                    revset,
                    submit,
                    yes,
                    cleaned,
                    diagnostics,
                    r,
                ),
            }
        }
}

fn begin_sync<H: Host>(
    sh: &mut Shell<H>,
    config: &AppConfig,
    revset: &str,
    submit: bool,
    yes: bool,
    cleaned: usize,
    diagnostics: Diagnostics,
) -> (r: Result<SyncSummary, Error>)
    ensures
        record::extends(old(sh).log(), final(sh).log()),
        sync_begun(
            old(sh).log(),
            final(sh).log(),
            config@,
            revset@,
            submit,
            yes,
            cleaned,
            diagnostics,
            error::res_of(r),
        ),
{
    let ghost start = sh.log();
    diagnostics.phase(sh, "resolve-stack");
    let trunk = resolve_single_rev(sh, "trunk()");
    assert(record::called(
        start + ui::phase_said(diagnostics, "resolve-stack"@),
        sh.log(),
        "jj"@,
        stack::single_rev_args("trunk()"@),
    ));
    match trunk {
        Err(error) => Err(phase_error("resolve-stack", "trunk()", error)),
        Ok(_) => begin_frozen_sync(sh, config, revset, submit, yes, cleaned, diagnostics),
    }
}

pub open spec fn sync_cleaned(
    before: Seq<Event>,
    after: Seq<Event>,
    config: AppConfigView,
    revset: Seq<char>,
    submit: bool,
    yes: bool,
    diagnostics: Diagnostics,
    r: Result<SyncSummary, Seq<CauseView>>,
) -> bool {
    exists|mid: Seq<Event>, cleaned: Result<usize, Seq<CauseView>>|
        {
            &&& #[trigger] cleanup::landed_branches_cleaned(before, mid, config, diagnostics, cleaned)
            &&& match cleaned {
                Err(e) => record::stopped(
                    mid,
                    after,
                    error::phase_failure("cleanup-merged"@, "branches"@, e),
                    r,
                ),
                Ok(cleaned) => sync_begun(
                    mid,
                    after,
                    config,
                    revset,
                    submit,
                    yes,
                    cleaned,
                    diagnostics,
                    r,
                ),
            }
        }
}

fn clean_sync<H: Host>(
    sh: &mut Shell<H>,
    config: &AppConfig,
    revset: &str,
    submit: bool,
    yes: bool,
    diagnostics: Diagnostics,
) -> (r: Result<SyncSummary, Error>)
    ensures
        record::extends(old(sh).log(), final(sh).log()),
        sync_cleaned(
            old(sh).log(),
            final(sh).log(),
            config@,
            revset@,
            submit,
            yes,
            diagnostics,
            error::res_of(r),
        ),
{
    let cleaned = cleanup_landed_branches(sh, config, diagnostics);
    let ghost seen = error::res_of(cleaned);
    assert(cleanup::landed_branches_cleaned(old(sh).log(), sh.log(), config@, diagnostics, seen));
    match cleaned {
        Err(error) => Err(phase_error("cleanup-merged", "branches", error)),
        Ok(cleaned) => begin_sync(sh, config, revset, submit, yes, cleaned, diagnostics),
    }
}

/// The record from `before` to `after` holds the sync of a stack: the remote is fetched, landed
/// branches are removed, the stack is resolved, the frozen changes below it are refreshed, trunk moves
/// to the remote trunk, the stack is rebased, and on request it is submitted, in this order. The first
/// failure ends it.
pub open spec fn stack_synced(
    before: Seq<Event>,
    after: Seq<Event>,
    config: AppConfigView,
    revset: Seq<char>,
    submit: bool,
    yes: bool,
    diagnostics: Diagnostics,
    r: Result<SyncSummary, Seq<CauseView>>,
) -> bool {
    exists|mid: Seq<Event>, fetched: Result<(), Seq<CauseView>>|
        {
            &&& #[trigger] trunk::fetch_done(
                before + ui::phase_said(diagnostics, "sync-fetch"@),
                mid,
                config,
                diagnostics,
                fetched,
            )
            &&& match fetched {
                Err(e) => record::stopped(mid, after, error::phase_failure("sync-fetch"@, config.remote, e), r),
                Ok(_) => sync_cleaned(
                    mid,
                    after,
                    config,
                    revset,
                    submit,
                    yes,
                    diagnostics,
                    r,
                ),
            }
        }
}

pub fn sync_stack<H: Host>(
    sh: &mut Shell<H>,
    config: &AppConfig,
    revset: &str,
    submit: bool,
    yes: bool,
    diagnostics: Diagnostics,
) -> (r: Result<SyncSummary, Error>)
    ensures
        record::extends(old(sh).log(), final(sh).log()),
        stack_synced(
            old(sh).log(),
            final(sh).log(),
            config@,
            revset@,
            submit,
            yes,
            diagnostics,
            error::res_of(r),
        ),
{
    let ghost start = sh.log();
    diagnostics.phase(sh, "sync-fetch");
    let fetched = fetch_remote(sh, config, diagnostics);
    let ghost seen = error::res_of(fetched);
    assert(trunk::fetch_done(
        start + ui::phase_said(diagnostics, "sync-fetch"@),
        sh.log(),
        config@,
        diagnostics,
        seen,
    ));
    match fetched {
        Err(error) => Err(phase_error("sync-fetch", &config.remote, error)),
        Ok(_) => clean_sync(sh, config, revset, submit, yes, diagnostics),
    }
}

} // verus!
