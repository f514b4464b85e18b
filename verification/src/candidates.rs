//! Finding the pull requests of a stack that is to be merged.

use vstd::prelude::*;

use crate::bookmarks::local_stack_bookmarks_for_change;
use crate::cache;
use crate::cache::CacheStore;
use crate::error;
use crate::error::{CauseView, Error, fail};
use crate::heads;
use crate::heads::validate_submit_bookmark_state;
use crate::model::{
    AppConfig, AppConfigView, AppContext, AppContextView, Duplicate, FrozenDependency,
    FrozenDependencyView, GhMergePr, GhMergePrView, GitHubContext, GitHubContextView, PrCacheEntry,
    PrCacheEntryView, ResolvedChange, ResolvedChangeView,
};
use crate::pr;
use crate::pr::{hash_text, lookup_open_pr_by_head_branch, state_is_open};
use crate::ready;
use crate::ready::fetch_pr_for_merge;
use crate::record;
use crate::record::Event;
use crate::shell::Host;
use crate::shell::wire::Shell;
use crate::text;
use crate::text::{cat3, cat5, cat7, copy_option, same, same_ignoring_case};
use crate::ui;
use crate::ui::log_warning;

verus! {

broadcast use crate::record::group_record;

// ---------------------------------------------------------------------------
// From the cache
// ---------------------------------------------------------------------------

pub open spec fn cached_elsewhere(entry: PrCacheEntryView, pr: GhMergePrView) -> Seq<CauseView> {
    error::plain(
        "cache points to "@ + pr::hash(entry.pr_number) + " on `"@ + entry.head_branch
            + "`, but GitHub reports `"@ + pr.head_ref_name + "`"@,
    )
}

pub open spec fn cached_candidate_checked(
    before: Seq<Event>,
    after: Seq<Event>,
    remote: Seq<char>,
    change: ResolvedChangeView,
    live: PrCacheEntryView,
    pr: GhMergePrView,
    r: Result<(PrCacheEntryView, GhMergePrView), Seq<CauseView>>,
) -> bool {
    exists|state: Result<(), Seq<CauseView>>|
        {
            &&& #[trigger] heads::bookmark_checked(before, after, remote, change, live, state)
            &&& r == match state {
                Err(e) => Err::<(PrCacheEntryView, GhMergePrView), Seq<CauseView>>(e),
                Ok(_) => Ok((live, pr)),
            }
        }
}

/// The record from `before` to `after` holds how a remembered pull request is looked up for a merge.
pub open spec fn cached_candidate_resolved(
    before: Seq<Event>,
    after: Seq<Event>,
    remote: Seq<char>,
    repo: Seq<char>,
    change: ResolvedChangeView,
    entry: PrCacheEntryView,
    r: Result<(PrCacheEntryView, GhMergePrView), Seq<CauseView>>,
) -> bool {
    exists|mid: Seq<Event>, got: Result<GhMergePrView, Seq<CauseView>>|
        {
            &&& #[trigger] ready::merge_pr_fetched(
                before,
                mid,
                repo,
                change.change_id,
                entry.pr_number,
                got,
            )
            &&& match got {
                Err(e) => record::stopped(mid, after, e, r),
                Ok(pr) => if pr.head_ref_name != entry.head_branch {
                    record::stopped(mid, after, cached_elsewhere(entry, pr), r)
                } else {
                    cached_candidate_checked(
                        mid,
                        after,
                        remote,
                        change,
                        pr::merge_entry_of(pr, entry.stack_comment_id),
                        pr,
                        r,
                    )
                },
            }
        }
}

pub fn resolve_merge_cached_pr<H: Host>(
    sh: &mut Shell<H>,
    config: &AppConfig,
    github: &GitHubContext,
    change: &ResolvedChange,
    entry: &PrCacheEntry,
) -> (r: Result<(PrCacheEntry, GhMergePr), Error>)
    ensures
        record::extends(old(sh).log(), final(sh).log()),
        cached_candidate_resolved(
            old(sh).log(),
            final(sh).log(),
            config@.remote,
            github@.repo,
            change@,
            entry@,
            error::res(r),
        ),
{
    let got = fetch_pr_for_merge(sh, github, &change.change_id, entry.pr_number);
    let ghost mid = sh.log();
    let ghost seen = error::res(got);
    assert(ready::merge_pr_fetched(
        old(sh).log(),
        mid,
        github@.repo,
        change@.change_id,
        entry@.pr_number,
        seen,
    ));
    let pr = match got {
        Ok(pr) => pr,
        Err(error) => return Err(error),
    };
    if !same(&pr.head_ref_name, &entry.head_branch) {
        return Err(
            fail(
                &cat7(
                    "cache points to ",
                    &hash_text(entry.pr_number),
                    " on `",
                    &entry.head_branch,
                    "`, but GitHub reports `",
                    &pr.head_ref_name,
                    "`",
                ),
            ),
        );
    }
    let live = pr.copy().into_cache_entry(copy_option(&entry.stack_comment_id));
    let state = validate_submit_bookmark_state(sh, config, change, &live);
    assert(heads::bookmark_checked(mid, sh.log(), config@.remote, change@, live@, error::res_of(state)));
    match state {
        Err(error) => Err(error),
        Ok(_) => Ok((live, pr)),
    }
}

// ---------------------------------------------------------------------------
// From the bookmarks
// ---------------------------------------------------------------------------

pub open spec fn found_elsewhere(
    entry: PrCacheEntryView,
    pr: GhMergePrView,
    branch: Seq<char>,
) -> Seq<CauseView> {
    error::plain(
        pr::hash(entry.pr_number) + " head branch is `"@ + pr.head_ref_name
            + "`, but live bookmark discovery found `"@ + branch + "`"@,
    )
}

pub open spec fn live_pr_result(
    entry: PrCacheEntryView,
    branch: Seq<char>,
    got: Result<GhMergePrView, Seq<CauseView>>,
) -> Result<Option<(Option<Seq<char>>, GhMergePrView)>, Seq<CauseView>> {
    match got {
        Err(e) => Err(e),
        Ok(pr) => if pr.head_ref_name != branch {
            Err(found_elsewhere(entry, pr, branch))
        } else {
            Ok(Some((entry.stack_comment_id, pr)))
        },
    }
}

pub open spec fn live_pr_fetched(
    before: Seq<Event>,
    after: Seq<Event>,
    repo: Seq<char>,
    change_id: Seq<char>,
    branch: Seq<char>,
    entry: PrCacheEntryView,
    r: Result<Option<(Option<Seq<char>>, GhMergePrView)>, Seq<CauseView>>,
) -> bool {
    exists|got: Result<GhMergePrView, Seq<CauseView>>|
        #[trigger] ready::merge_pr_fetched(before, after, repo, change_id, entry.pr_number, got) && r
            == live_pr_result(entry, branch, got)
}

pub open spec fn live_pr_checked(
    before: Seq<Event>,
    after: Seq<Event>,
    remote: Seq<char>,
    repo: Seq<char>,
    change: ResolvedChangeView,
    branch: Seq<char>,
    entry: PrCacheEntryView,
    r: Result<Option<(Option<Seq<char>>, GhMergePrView)>, Seq<CauseView>>,
) -> bool {
    exists|mid: Seq<Event>, state: Result<(), Seq<CauseView>>|
        {
            &&& #[trigger] heads::bookmark_checked(before, mid, remote, change, entry, state)
            &&& match state {
                Err(e) => record::stopped(mid, after, e, r),
                Ok(_) => live_pr_fetched(
                    mid,
                    after,
                    repo,
                    change.change_id,
                    branch,
                    entry,
                    r,
                ),
            }
        }
}

fn check_live_pr<H: Host>(
    sh: &mut Shell<H>,
    config: &AppConfig,
    github: &GitHubContext,
    change: &ResolvedChange,
    branch: &str,
    entry: &PrCacheEntry,
) -> (r: Result<Option<(Option<String>, GhMergePr)>, Error>)
    ensures
        record::extends(old(sh).log(), final(sh).log()),
        live_pr_checked(
            old(sh).log(),
            final(sh).log(),
            config@.remote,
            github@.repo,
            change@,
            branch@,
            entry@,
            error::res(r),
        ),
{
    let state = validate_submit_bookmark_state(sh, config, change, entry);
    let ghost mid = sh.log();
    assert(heads::bookmark_checked(
        old(sh).log(),
        mid,
        config@.remote,
        change@,
        entry@,
        error::res_of(state),
    ));
    match state {
        Err(error) => return Err(error),
        Ok(_) => {},
    }
    let got = fetch_pr_for_merge(sh, github, &change.change_id, entry.pr_number);
    let ghost seen = error::res(got);
    assert(ready::merge_pr_fetched(
        mid,
        sh.log(),
        github@.repo,
        change@.change_id,
        entry@.pr_number,
        seen,
    ));
    let pr = match got {
        Ok(pr) => pr,
        Err(error) => return Err(error),
    };
    if !same(&pr.head_ref_name, branch) {
        let mut message = hash_text(entry.pr_number);
        message.append(" head branch is `");
        message.append(&pr.head_ref_name);
        message.append("`, but live bookmark discovery found `");
        message.append(branch);
        message.append("`");
        return Err(fail(&message));
    }
    Ok(Some((copy_option(&entry.stack_comment_id), pr)))
}

/// The record from `before` to `after` holds the search for an open pull request on one bookmark.
pub open spec fn live_branch_tried(
    before: Seq<Event>,
    after: Seq<Event>,
    remote: Seq<char>,
    github: GitHubContextView,
    change: ResolvedChangeView,
    branch: Seq<char>,
    r: Result<Option<(Option<Seq<char>>, GhMergePrView)>, Seq<CauseView>>,
) -> bool {
    exists|mid: Seq<Event>, found: Result<Option<PrCacheEntryView>, Seq<CauseView>>|
        {
            &&& #[trigger] pr::head_pr_searched(before, mid, github, change.change_id, branch, found)
            &&& match found {
                Err(e) => record::stopped(mid, after, e, r),
                Ok(None) => after == mid && r == Ok::<
                    Option<(Option<Seq<char>>, GhMergePrView)>,
                    Seq<CauseView>,
                >(None),
                Ok(Some(entry)) => live_pr_checked(
                    mid,
                    after,
                    remote,
                    github.repo,
                    change,
                    branch,
                    entry,
                    r,
                ),
            }
        }
}

fn try_live_branch<H: Host>(
    sh: &mut Shell<H>,
    config: &AppConfig,
    github: &GitHubContext,
    change: &ResolvedChange,
    branch: &str,
) -> (r: Result<Option<(Option<String>, GhMergePr)>, Error>)
    ensures
        record::extends(old(sh).log(), final(sh).log()),
        live_branch_tried(
            old(sh).log(),
            final(sh).log(),
            config@.remote,
            github@,
            change@,
            branch@,
            error::res(r),
        ),
{
    let found = lookup_open_pr_by_head_branch(sh, github, &change.change_id, branch);
    let ghost seen = error::res(found);
    assert(pr::head_pr_searched(
        old(sh).log(),
        sh.log(),
        github@,
        change@.change_id,
        branch@,
        seen,
    ));
    match found {
        Err(error) => Err(error),
        Ok(None) => Ok(None),
        Ok(Some(entry)) => check_live_pr(sh, config, github, change, branch, &entry),
    }
}

/// The record from `before` to `after` holds the search on each bookmark in turn.
pub open spec fn live_branches_tried(
    before: Seq<Event>,
    after: Seq<Event>,
    remote: Seq<char>,
    github: GitHubContextView,
    change: ResolvedChangeView,
    names: Seq<Seq<char>>,
    at: int,
    found: Seq<(Option<Seq<char>>, GhMergePrView)>,
    r: Result<Seq<(Option<Seq<char>>, GhMergePrView)>, Seq<CauseView>>,
) -> bool
    decreases names.len() - at,
{
    if at >= names.len() {
        after == before && r == Ok::<_, Seq<CauseView>>(found)
    } else {
        exists|
            mid: Seq<Event>,
            got: Result<Option<(Option<Seq<char>>, GhMergePrView)>, Seq<CauseView>>,
        |
            {
                &&& #[trigger] live_branch_tried(
                    before,
                    mid,
                    remote,
                    github,
                    change,
                    names[at],
                    got,
                )
                &&& match got {
                    Err(e) => record::stopped(mid, after, e, r),
                    Ok(one) => live_branches_tried(
                        mid,
                        after,
                        remote,
                        github,
                        change,
                        names,
                        at + 1,
                        match one {
                            Some(pair) => found.push(pair),
                            None => found,
                        },
                        r,
                    ),
                }
            }
    }
}

fn try_live_branches<H: Host>(
    sh: &mut Shell<H>,
    config: &AppConfig,
    github: &GitHubContext,
    change: &ResolvedChange,
    names: &Vec<String>,
    at: usize,
    found: Vec<(Option<String>, GhMergePr)>,
) -> (r: Result<Vec<(Option<String>, GhMergePr)>, Error>)
    requires
        at <= names@.len(),
    ensures
        record::extends(old(sh).log(), final(sh).log()),
        live_branches_tried(
            old(sh).log(),
            final(sh).log(),
            config@.remote,
            github@,
            change@,
            names.deep_view(),
            at as int,
            found.deep_view(),
            error::res(r),
        ),
    decreases names@.len() - at,
{
    let n: usize = names.len();
    if at == n {
        return Ok(found);
    }
    let ghost start = sh.log();
    let ghost before = found.deep_view();
    assert(names.deep_view()[at as int] == names@[at as int]@);
    let got = try_live_branch(sh, config, github, change, &names[at]);
    let ghost seen = error::res(got);
    assert(live_branch_tried(
        start,
        sh.log(),
        config@.remote,
        github@,
        change@,
        names.deep_view()[at as int],
        seen,
    ));
    let one = match got {
        Ok(one) => one,
        Err(error) => return Err(error),
    };
    let mut found = found;
    match one {
        Some(pair) => {
            let ghost put = pair.deep_view();
            found.push(pair);
            assert(found.deep_view() =~= before.push(put));
        },
        None => {},
    }
    try_live_branches(sh, config, github, change, names, at + 1, found)
}

pub open spec fn live_choice(
    repo: Seq<char>,
    change_id: Seq<char>,
    found: Seq<(Option<Seq<char>>, GhMergePrView)>,
) -> Result<(PrCacheEntryView, GhMergePrView), Seq<CauseView>> {
    if found.len() == 1 {
        Ok((pr::merge_entry_of(found[0].1, found[0].0), found[0].1))
    } else if found.len() == 0 {
        Err(
            error::plain(
                "no live tracked PR found for "@ + repo + "/"@ + change_id
                    + "; run `forklift submit` before merging so forklift can verify the owned PR"@,
            ),
        )
    } else {
        Err(
            error::plain(
                "multiple live tracked PRs found for "@ + repo + "/"@ + change_id
                    + "; refusing to choose before merge"@,
            ),
        )
    }
}

fn choose_live(
    github: &GitHubContext,
    change: &ResolvedChange,
    found: &Vec<(Option<String>, GhMergePr)>,
) -> (r: Result<(PrCacheEntry, GhMergePr), Error>)
    ensures
        error::res(r) == live_choice(github@.repo, change@.change_id, found.deep_view()),
{
    let n: usize = found.len();
    if n == 1 {
        assert(found.deep_view()[0] == (found@[0].0.deep_view(), found@[0].1@));
        let pr = found[0].1.copy();
        return Ok((pr.copy().into_cache_entry(copy_option(&found[0].0)), pr));
    }
    if n == 0 {
        return Err(
            fail(
                &cat5(
                    "no live tracked PR found for ",
                    &github.repo,
                    "/",
                    &change.change_id,
                    "; run `forklift submit` before merging so forklift can verify the owned PR",
                ),
            ),
        );
    }
    Err(
        fail(
            &cat5(
                "multiple live tracked PRs found for ",
                &github.repo,
                "/",
                &change.change_id,
                "; refusing to choose before merge",
            ),
        ),
    )
}

pub open spec fn all_live_branches_tried(
    before: Seq<Event>,
    after: Seq<Event>,
    remote: Seq<char>,
    github: GitHubContextView,
    change: ResolvedChangeView,
    names: Seq<Seq<char>>,
    r: Result<Seq<(Option<Seq<char>>, GhMergePrView)>, Seq<CauseView>>,
) -> bool {
    live_branches_tried(before, after, remote, github, change, names, 0, seq![], r)
}

pub open spec fn live_names_tried(
    before: Seq<Event>,
    after: Seq<Event>,
    remote: Seq<char>,
    github: GitHubContextView,
    change: ResolvedChangeView,
    names: Seq<Seq<char>>,
    r: Result<(PrCacheEntryView, GhMergePrView), Seq<CauseView>>,
) -> bool {
    exists|found: Result<Seq<(Option<Seq<char>>, GhMergePrView)>, Seq<CauseView>>|
        {
            &&& #[trigger] all_live_branches_tried(
                before,
                after,
                remote,
                github,
                change,
                names,
                found,
            )
            &&& r == match found {
                Err(e) => Err(e),
                Ok(found) => live_choice(github.repo, change.change_id, found),
            }
        }
}

fn try_live_names<H: Host>(
    sh: &mut Shell<H>,
    config: &AppConfig,
    github: &GitHubContext,
    change: &ResolvedChange,
    names: &Vec<String>,
) -> (r: Result<(PrCacheEntry, GhMergePr), Error>)
    ensures
        record::extends(old(sh).log(), final(sh).log()),
        live_names_tried(
            old(sh).log(),
            final(sh).log(),
            config@.remote,
            github@,
            change@,
            names.deep_view(),
            error::res(r),
        ),
{
    let none: Vec<(Option<String>, GhMergePr)> = Vec::new();
    assert(none.deep_view() =~= Seq::<(Option<Seq<char>>, GhMergePrView)>::empty());
    let found = try_live_branches(sh, config, github, change, names, 0, none);
    let ghost seen = error::res(found);
    assert(all_live_branches_tried(
        old(sh).log(),
        sh.log(),
        config@.remote,
        github@,
        change@,
        names.deep_view(),
        seen,
    ));
    match found {
        Err(error) => Err(error),
        Ok(found) => choose_live(github, change, &found),
    }
}

/// The record from `before` to `after` holds how the pull request of a change is found by the local
/// bookmarks that point at it. Exactly one of them must carry one.
pub open spec fn live_candidate_resolved(
    before: Seq<Event>,
    after: Seq<Event>,
    config: AppConfigView,
    github: GitHubContextView,
    change: ResolvedChangeView,
    r: Result<(PrCacheEntryView, GhMergePrView), Seq<CauseView>>,
) -> bool {
    exists|mid: Seq<Event>, names: Result<Seq<Seq<char>>, Seq<CauseView>>|
        {
            &&& #[trigger] heads::change_names_listed(before, mid, config, change, names)
            &&& match names {
                Err(e) => record::stopped(mid, after, e, r),
                Ok(names) => live_names_tried(
                    mid,
                    after,
                    config.remote,
                    github,
                    change,
                    names,
                    r,
                ),
            }
        }
}

pub fn resolve_merge_pr_from_live_bookmarks<H: Host>(
    sh: &mut Shell<H>,
    config: &AppConfig,
    github: &GitHubContext,
    change: &ResolvedChange,
) -> (r: Result<(PrCacheEntry, GhMergePr), Error>)
    ensures
        record::extends(old(sh).log(), final(sh).log()),
        live_candidate_resolved(
            old(sh).log(),
            final(sh).log(),
            config@,
            github@,
            change@,
            error::res(r),
        ),
{
    let listed = local_stack_bookmarks_for_change(sh, config, change);
    let ghost seen = error::res(listed);
    assert(heads::change_names_listed(old(sh).log(), sh.log(), config@, change@, seen));
    match listed {
        Err(error) => Err(error),
        Ok(names) => try_live_names(sh, config, github, change, &names),
    }
}

// ---------------------------------------------------------------------------
// Either way
// ---------------------------------------------------------------------------

/// What the log tells of a remembered request that turned out stale, before the reason.
pub open spec fn stale_candidate(change_id: Seq<char>) -> Seq<char> {
    "phase=merge-pr-lookup object=cache:"@ + change_id + " error=ignored stale cache hint: "@
}

/// The record from `before` to `after` holds the trial of a remembered request, and where it turned
/// out stale, which is logged, the search by the bookmarks.
pub open spec fn cached_or_live(
    before: Seq<Event>,
    after: Seq<Event>,
    config: AppConfigView,
    github: GitHubContextView,
    change: ResolvedChangeView,
    entry: PrCacheEntryView,
    r: Result<(PrCacheEntryView, GhMergePrView), Seq<CauseView>>,
) -> bool {
    exists|mid: Seq<Event>, got: Result<(PrCacheEntryView, GhMergePrView), Seq<CauseView>>|
        {
            &&& #[trigger] cached_candidate_resolved(
                before,
                mid,
                config.remote,
                github.repo,
                change,
                entry,
                got,
            )
            &&& match got {
                Ok(found) => after == mid && r == got,
                Err(e) => live_candidate_resolved(
                    mid + ui::failure_logged(stale_candidate(change.change_id), got),
                    after,
                    config,
                    github,
                    change,
                    r,
                ),
            }
        }
}

fn try_cached<H: Host>(
    sh: &mut Shell<H>,
    config: &AppConfig,
    github: &GitHubContext,
    change: &ResolvedChange,
    entry: &PrCacheEntry,
) -> (r: Result<(PrCacheEntry, GhMergePr), Error>)
    ensures
        record::extends(old(sh).log(), final(sh).log()),
        cached_or_live(
            old(sh).log(),
            final(sh).log(),
            config@,
            github@,
            change@,
            entry@,
            error::res(r),
        ),
{
    let got = resolve_merge_cached_pr(sh, config, github, change, entry);
    let ghost seen = error::res(got);
    assert(cached_candidate_resolved(
        old(sh).log(),
        sh.log(),
        config@.remote,
        github@.repo,
        change@,
        entry@,
        seen,
    ));
    match got {
        Ok(found) => Ok(found),
        Err(error) => {
            let mut message = cat3(
                "phase=merge-pr-lookup object=cache:",
                &change.change_id,
                " error=ignored stale cache hint: ",
            );
            message.append(&error.chain_line());
            log_warning(sh, &message);
            resolve_merge_pr_from_live_bookmarks(sh, config, github, change)
        },
    }
}

/// The record from `before` to `after` holds how the pull request of a change is found for a merge:
/// by the cache where that still holds, else by the bookmarks.
pub open spec fn candidate_resolved(
    before: Seq<Event>,
    after: Seq<Event>,
    config: AppConfigView,
    github: GitHubContextView,
    change: ResolvedChangeView,
    r: Result<(PrCacheEntryView, GhMergePrView), Seq<CauseView>>,
) -> bool {
    exists|
        mid: Seq<Event>,
        opened: Result<
            (Seq<char>, Map<(Seq<char>, Seq<char>), PrCacheEntryView>),
            Seq<CauseView>,
        >,
    |
        {
            &&& #[trigger] cache::cache_opened(before, mid, "merge"@, opened)
            &&& match opened {
                Err(e) => record::stopped(mid, after, e, r),
                Ok((place, all)) => candidate_looked_up(
                    mid,
                    after,
                    config,
                    github,
                    change,
                    all,
                    r,
                ),
            }
        }
}

pub open spec fn candidate_looked_up(
    before: Seq<Event>,
    after: Seq<Event>,
    config: AppConfigView,
    github: GitHubContextView,
    change: ResolvedChangeView,
    all: Map<(Seq<char>, Seq<char>), PrCacheEntryView>,
    r: Result<(PrCacheEntryView, GhMergePrView), Seq<CauseView>>,
) -> bool {
    let key = (github.repo, change.change_id);
    if all.dom().contains(key) {
        cached_or_live(before, after, config, github, change, all[key], r)
    } else {
        live_candidate_resolved(before, after, config, github, change, r)
    }
}

pub fn resolve_merge_pr<H: Host>(
    sh: &mut Shell<H>,
    config: &AppConfig,
    github: &GitHubContext,
    change: &ResolvedChange,
) -> (r: Result<(PrCacheEntry, GhMergePr), Error>)
    ensures
        record::extends(old(sh).log(), final(sh).log()),
        candidate_resolved(
            old(sh).log(),
            final(sh).log(),
            config@,
            github@,
            change@,
            error::res(r),
        ),
{
    let loaded = CacheStore::load_current_best_effort(sh, "merge");
    let ghost opened = cache::store_parts(loaded);
    assert(cache::cache_opened(old(sh).log(), sh.log(), "merge"@, opened));
    match loaded {
        Err(error) => Err(error),
        Ok(store) => match store.get_pr(&github.repo, &change.change_id) {
            Some(entry) => try_cached(sh, config, github, change, entry),
            None => resolve_merge_pr_from_live_bookmarks(sh, config, github, change),
        },
    }
}

// ---------------------------------------------------------------------------
// Frozen dependencies of a merge
// ---------------------------------------------------------------------------

/// What is wrong with a frozen dependency of a stack that is to be merged.
pub open spec fn unmerged_dependency(name: Seq<char>, pr: GhMergePrView) -> Option<Seq<char>> {
    if pr::is_open(pr.state) {
        Some(
            "frozen dependency `"@ + name + "` is still open as "@ + pr::hash(pr.number)
                + "; merge dependencies first, then run `forklift sync` before merging owned PRs"@,
        )
    } else if text::lower_all(pr.state) != text::lower_all("MERGED"@) {
        Some(
            "frozen dependency `"@ + name + "` "@ + pr::hash(pr.number) + " is `"@ + pr.state
                + "`; run `forklift sync` before merging owned PRs"@,
        )
    } else {
        None
    }
}

fn judge_dependency(name: &str, pr: &GhMergePr) -> (r: Option<String>)
    ensures
        r.deep_view() == unmerged_dependency(name@, pr@),
{
    if state_is_open(&pr.state) {
        return Some(
            cat5(
                "frozen dependency `",
                name,
                "` is still open as ",
                &hash_text(pr.number),
                "; merge dependencies first, then run `forklift sync` before merging owned PRs",
            ),
        );
    }
    if !same_ignoring_case(&pr.state, "MERGED") {
        return Some(
            cat7(
                "frozen dependency `",
                name,
                "` ",
                &hash_text(pr.number),
                " is `",
                &pr.state,
                "`; run `forklift sync` before merging owned PRs",
            ),
        );
    }
    None
}

/// The record from `before` to `after` holds the test of each frozen dependency in turn.
pub open spec fn dependencies_tested(
    before: Seq<Event>,
    after: Seq<Event>,
    repo: Seq<char>,
    dependencies: Seq<FrozenDependencyView>,
    at: int,
    r: Result<(), Seq<CauseView>>,
) -> bool
    decreases dependencies.len() - at,
{
    if at >= dependencies.len() {
        after == before && r == Ok::<(), Seq<CauseView>>(())
    } else {
        let dependency = dependencies[at];
        exists|mid: Seq<Event>, got: Result<GhMergePrView, Seq<CauseView>>|
            {
                &&& #[trigger] ready::merge_pr_fetched(
                    before,
                    mid,
                    repo,
                    dependency.change.change_id,
                    dependency.bookmark.pr_number,
                    got,
                )
                &&& match got {
                    Err(e) => record::stopped(mid, after, e, r),
                    Ok(pr) => match unmerged_dependency(dependency.bookmark.name, pr) {
                        Some(message) => record::stopped(mid, after, error::plain(message), r),
                        None => dependencies_tested(
                            mid,
                            after,
                            repo,
                            dependencies,
                            at + 1,
                            r,
                        ),
                    },
                }
            }
    }
}

fn test_dependencies<H: Host>(
    sh: &mut Shell<H>,
    github: &GitHubContext,
    dependencies: &Vec<FrozenDependency>,
    at: usize,
) -> (r: Result<(), Error>)
    requires
        at <= dependencies@.len(),
    ensures
        record::extends(old(sh).log(), final(sh).log()),
        dependencies_tested(
            old(sh).log(),
            final(sh).log(),
            github@.repo,
            dependencies.deep_view(),
            at as int,
            error::res_of(r),
        ),
    decreases dependencies@.len() - at,
{
    let n: usize = dependencies.len();
    if at == n {
        return Ok(());
    }
    let ghost start = sh.log();
    let dependency = &dependencies[at];
    assert(dependencies.deep_view()[at as int] == dependency@);
    let got = fetch_pr_for_merge(
        sh,
        github,
        &dependency.change.change_id,
        dependency.bookmark.pr_number,
    );
    let ghost seen = error::res(got);
    assert(ready::merge_pr_fetched(
        start,
        sh.log(),
        github@.repo,
        dependency@.change.change_id,
        dependency@.bookmark.pr_number,
        seen,
    ));
    let pr = match got {
        Ok(pr) => pr,
        Err(error) => return Err(error),
    };
    match judge_dependency(&dependency.bookmark.name, &pr) {
        Some(message) => Err(fail(&message)),
        None => test_dependencies(sh, github, dependencies, at + 1),
    }
}

pub open spec fn all_dependencies_tested(
    before: Seq<Event>,
    after: Seq<Event>,
    repo: Seq<char>,
    dependencies: Seq<FrozenDependencyView>,
    r: Result<(), Seq<CauseView>>,
) -> bool {
    dependencies_tested(before, after, repo, dependencies, 0, r)
}

pub open spec fn stale_bottom(trunk: Seq<char>, bottom: GhMergePrView) -> Seq<char> {
    "frozen dependencies are merged, but bottom owned "@ + pr::hash(bottom.number)
        + " still targets `"@ + bottom.base_ref_name + "` instead of trunk `"@ + trunk
        + "`; run `forklift sync` before merging"@
}

/// The record from `before` to `after` holds the test that every frozen dependency is merged and the
/// bottom pull request already goes to trunk.
pub open spec fn merge_dependencies_checked(
    before: Seq<Event>,
    after: Seq<Event>,
    trunk: Seq<char>,
    context: AppContextView,
    bottom: GhMergePrView,
    r: Result<(), Seq<CauseView>>,
) -> bool {
    exists|tested: Result<(), Seq<CauseView>>|
        {
            &&& #[trigger] all_dependencies_tested(
                before,
                after,
                context.github.repo,
                context.frozen_dependencies,
                tested,
            )
            &&& r == match tested {
                Err(e) => Err(e),
                Ok(_) => if context.frozen_dependencies.len() > 0 && text::lower_all(bottom.base_ref_name)
                    != text::lower_all(trunk) {
                    Err(error::plain(stale_bottom(trunk, bottom)))
                } else {
                    Ok(())
                },
            }
        }
}

pub fn validate_merge_frozen_dependencies<H: Host>(
    sh: &mut Shell<H>,
    config: &AppConfig,
    context: &AppContext,
    bottom_owned_pr: &GhMergePr,
) -> (r: Result<(), Error>)
    ensures
        record::extends(old(sh).log(), final(sh).log()),
        merge_dependencies_checked(
            old(sh).log(),
            final(sh).log(),
            config@.trunk,
            context@,
            bottom_owned_pr@,
            error::res_of(r),
        ),
{
    let n: usize = context.frozen_dependencies.len();
    let tested = test_dependencies(sh, &context.github, &context.frozen_dependencies, 0);
    assert(all_dependencies_tested(
        old(sh).log(),
        sh.log(),
        context@.github.repo,
        context@.frozen_dependencies,
        error::res_of(tested),
    ));
    match tested {
        Err(error) => return Err(error),
        Ok(_) => {},
    }
    if n > 0 && !same_ignoring_case(&bottom_owned_pr.base_ref_name, &config.trunk) {
        return Err(
            fail(
                &cat7(
                    "frozen dependencies are merged, but bottom owned ",
                    &hash_text(bottom_owned_pr.number),
                    " still targets `",
                    &bottom_owned_pr.base_ref_name,
                    "` instead of trunk `",
                    &config.trunk,
                    "`; run `forklift sync` before merging",
                ),
            ),
        );
    }
    Ok(())
}

} // verus!
