//! Adopting someone's frozen pull request.

use vstd::prelude::*;

use crate::bookmarks;
use crate::bookmarks::{
    delete_bookmark, frozen_bookmark_name, frozen_bookmarks, git_commit_is_ancestor,
    track_remote_bookmark, track_untracked_remote_bookmark_blockers,
    untracked_remote_bookmark_blockers,
};
use crate::branches;
use crate::branches::fetch_get_branches;
use crate::cache;
use crate::cache::CacheStore;
use crate::config;
use crate::config::validate_ref_component;
use crate::error;
use crate::error::{CauseView, CliError, CliErrorView, Error, fail, phase_error, report};
use crate::get;
use crate::get::open_target;
use crate::model::{
    AppConfig, AppConfigView, Diagnostics, Duplicate, FrozenBookmark, FrozenBookmarkView, GhPr,
    GhPrView, GitHubContext, GitHubContextView, PrCacheEntryView, RemoteBookmark,
    RemoteBookmarkView, ResolvedChange, ResolvedChangeView,
};
use crate::output;
use crate::output::display_command;
use crate::pr;
use crate::pr::{
    GetTarget, GetTargetView, get_pr_repo, github_pr_url, hash_text, resolve_get_target_pr,
    state_is_open, validate_get_pr_metadata,
};
use crate::rebase;
use crate::rebase::remote_jj_ref;
use crate::record;
use crate::record::{Event, LineView, Reply};
use crate::repo::gh_run;
use crate::shell::{Host, Line, jj_checked};
use crate::shell::wire::Shell;
use crate::stack;
use crate::stack::resolve_stack;
use crate::text;
use crate::text::{cat, cat3, cat5, cat7, join_text, number_text, same, trimmed, words};
use crate::ui;

verus! {

broadcast use crate::record::group_record;

// ---------------------------------------------------------------------------
// What can be adopted
// ---------------------------------------------------------------------------

/// What keeps a pull request from being adopted, beyond incomplete metadata.
pub open spec fn adoption_fault(github: GitHubContextView, pr: GhPrView) -> Option<
    Seq<CauseView>,
> {
    if !pr::is_open(pr.state) {
        Some(
            error::plain("unfreeze only supports open PRs; "@ + pr::hash(pr.number) + " is "@ + pr.state),
        )
    } else {
        match (pr::repo_result(pr, "head"@), pr::repo_result(pr, "base"@)) {
            (Err(e), _) => Some(e),
            (_, Err(e)) => Some(e),
            (Ok(head), Ok(base)) => if head.name_with_owner != github.repo {
                Some(
                    error::plain(
                        "cannot unfreeze fork-backed "@ + pr::hash(pr.number) + ": head repo is `"@
                            + head.name_with_owner + "`, expected `"@ + github.repo + "`"@,
                    ),
                )
            } else if base.name_with_owner != github.repo {
                Some(
                    error::plain(
                        "cannot unfreeze "@ + pr::hash(pr.number) + ": base repo is `"@
                            + base.name_with_owner + "`, expected `"@ + github.repo + "`"@,
                    ),
                )
            } else if pr.base_ref_name.len() == 0 || pr.head_ref_name.len() == 0 {
                Some(
                    error::plain(
                        "cannot unfreeze "@ + pr::hash(pr.number) + " with empty head/base branch"@,
                    ),
                )
            } else {
                None
            },
        }
    }
}

/// The first of these names that is no safe part of a ref.
pub open spec fn ref_fault(config: AppConfigView, pr: GhPrView) -> Option<Seq<CauseView>> {
    match config::ref_component_result("head branch"@, pr.head_ref_name) {
        Err(e) => Some(e),
        Ok(_) => match config::ref_component_result("base branch"@, pr.base_ref_name) {
            Err(e) => Some(e),
            Ok(_) => match config::ref_component_result("configured remote"@, config.remote) {
                Err(e) => Some(e),
                Ok(_) => None,
            },
        },
    }
}

/// What keeps a pull request from being adopted.
pub open spec fn unfreeze_fault(
    config: AppConfigView,
    github: GitHubContextView,
    pr: GhPrView,
) -> Option<Seq<CauseView>> {
    if pr::metadata_gap(github.repo, pr) is Some {
        pr::metadata_gap(github.repo, pr)
    } else if adoption_fault(github, pr) is Some {
        adoption_fault(github, pr)
    } else {
        ref_fault(config, pr)
    }
}

fn check_adoption(github: &GitHubContext, pr: &GhPr) -> (r: Result<(), Error>)
    ensures
        error::res_of(r) == match adoption_fault(github@, pr@) {
            Some(e) => Err(e),
            None => Ok(()),
        },
{
    let name = hash_text(pr.number);
    if !state_is_open(&pr.state) {
        let mut message = cat3("unfreeze only supports open PRs; ", &name, " is ");
        message.append(&pr.state);
        return Err(fail(&message));
    }
    let head = match get_pr_repo(pr, "head") {
        Ok(repo) => repo,
        Err(error) => return Err(error),
    };
    let base = match get_pr_repo(pr, "base") {
        Ok(repo) => repo,
        Err(error) => return Err(error),
    };
    if !same(&head.name_with_owner, &github.repo) {
        return Err(
            fail(
                &cat7(
                    "cannot unfreeze fork-backed ",
                    &name,
                    ": head repo is `",
                    &head.name_with_owner,
                    "`, expected `",
                    &github.repo,
                    "`",
                ),
            ),
        );
    }
    if !same(&base.name_with_owner, &github.repo) {
        return Err(
            fail(
                &cat7(
                    "cannot unfreeze ",
                    &name,
                    ": base repo is `",
                    &base.name_with_owner,
                    "`, expected `",
                    &github.repo,
                    "`",
                ),
            ),
        );
    }
    if pr.base_ref_name.as_str().is_empty() || pr.head_ref_name.as_str().is_empty() {
        return Err(fail(&cat3("cannot unfreeze ", &name, " with empty head/base branch")));
    }
    Ok(())
}

pub fn validate_unfreeze_pr(config: &AppConfig, github: &GitHubContext, pr: &GhPr) -> (r: Result<
    (),
    Error,
>)
    ensures
        error::res_of(r) == match unfreeze_fault(config@, github@, pr@) {
            Some(e) => Err(e),
            None => Ok(()),
        },
{
    match validate_get_pr_metadata(github, pr) {
        Ok(_) => {},
        Err(error) => return Err(error),
    }
    match check_adoption(github, pr) {
        Ok(_) => {},
        Err(error) => return Err(error),
    }
    match validate_ref_component("head branch", pr.head_ref_name.clone()) {
        Ok(_) => {},
        Err(error) => return Err(error),
    }
    match validate_ref_component("base branch", pr.base_ref_name.clone()) {
        Ok(_) => {},
        Err(error) => return Err(error),
    }
    match validate_ref_component("configured remote", config.remote.clone()) {
        Ok(_) => Ok(()),
        Err(error) => Err(error),
    }
}

pub open spec fn permission_args(repo: Seq<char>) -> Seq<Seq<char>> {
    seq!["api"@, "repos/"@ + repo, "--jq"@, ".permissions.push"@]
}

pub open spec fn permission_result(github: GitHubContextView, reply: Reply) -> Result<
    (),
    Seq<CauseView>,
> {
    match reply {
        Err(e) => Err(e),
        Ok(output) => if !output.success {
            Err(
                error::plain(
                    "`"@ + output::shown("gh"@, permission_args(github.repo))
                        + "` failed while checking push permission: "@ + text::trim(output.stderr),
                ),
            )
        } else if text::trim(output.stdout) != "true"@ {
            Err(
                error::plain(
                    "GitHub actor `"@ + github.username + "` does not have push permission to `"@
                        + github.repo + "`; cannot unfreeze PR branch for adoption"@,
                ),
            )
        } else {
            Ok(())
        },
    }
}

pub fn verify_repo_push_permission<H: Host>(sh: &mut Shell<H>, github: &GitHubContext) -> (r: Result<
    (),
    Error,
>)
    ensures
        record::called(old(sh).log(), final(sh).log(), "gh"@, permission_args(github@.repo)),
        error::res_of(r) == permission_result(github@, record::last_reply(final(sh).log())),
{
    let endpoint = cat("repos/", &github.repo);
    let args = words(&["api", &endpoint, "--jq", ".permissions.push"]);
    assert(args.deep_view() =~= permission_args(github@.repo));
    let output = match gh_run(sh, &args) {
        Ok(output) => output,
        Err(error) => return Err(error),
    };
    if !output.success {
        let mut message = cat3(
            "`",
            &display_command("gh", &args),
            "` failed while checking push permission: ",
        );
        message.append(&trimmed(&output.stderr));
        return Err(fail(&message));
    }
    if !same(&trimmed(&output.stdout), "true") {
        return Err(
            fail(
                &cat5(
                    "GitHub actor `",
                    &github.username,
                    "` does not have push permission to `",
                    &github.repo,
                    "`; cannot unfreeze PR branch for adoption",
                ),
            ),
        );
    }
    Ok(())
}

// ---------------------------------------------------------------------------
// Whether the change can be rewritten
// ---------------------------------------------------------------------------

pub open spec fn immutable_args(rev: Seq<char>) -> Seq<Seq<char>> {
    seq!["log"@, "--no-graph"@, "-r"@, rev, "-T"@, "immutable"@]
}

pub open spec fn mutable_result(rev: Seq<char>, reply: Reply) -> Result<(), Seq<CauseView>> {
    match output::checked("jj"@, immutable_args(rev), reply) {
        Err(e) => Err(e),
        Ok(output) => if text::trim(output.stdout) == "false"@ {
            Ok(())
        } else {
            Err(
                error::plain(
                    "revision "@ + rev
                        + " is still immutable after removing the frozen bookmark; remaining immutable blocker may be another frozen bookmark, tag, trunk, or untracked remote bookmark"@,
                ),
            )
        },
    }
}

pub fn verify_revision_mutable<H: Host>(sh: &mut Shell<H>, rev: &str) -> (r: Result<(), Error>)
    ensures
        record::called(old(sh).log(), final(sh).log(), "jj"@, immutable_args(rev@)),
        error::res_of(r) == mutable_result(rev@, record::last_reply(final(sh).log())),
{
    let args = words(&["log", "--no-graph", "-r", rev, "-T", "immutable"]);
    assert(args.deep_view() =~= immutable_args(rev@));
    match jj_checked(sh, &args) {
        Err(error) => Err(error),
        Ok(output) => if same(&trimmed(&output.stdout), "false") {
            Ok(())
        } else {
            Err(
                fail(
                    &cat3(
                        "revision ",
                        rev,
                        " is still immutable after removing the frozen bookmark; remaining immutable blocker may be another frozen bookmark, tag, trunk, or untracked remote bookmark",
                    ),
                ),
            )
        },
    }
}

pub open spec fn in_trunk(trunk: Seq<char>, rev: Seq<char>, number: u64) -> CliErrorView {
    error::cli(
        "cannot unfreeze "@ + pr::hash(number) + " because it is already reachable from trunk "@
            + trunk,
    ).because(
        pr::hash(number) + " resolves to "@ + rev + ", which is already contained in `"@ + trunk
            + "`."@,
    ).fixed_by("run `forklift sync` or stop trying to adopt "@ + pr::hash(number))
}

pub open spec fn bookmark_ref(bookmark: RemoteBookmarkView) -> Seq<char> {
    "`"@ + bookmark.name + "@"@ + bookmark.remote + "`"@
}

pub open spec fn bookmark_refs(bookmarks: Seq<RemoteBookmarkView>) -> Seq<Seq<char>> {
    bookmarks.map_values(|b: RemoteBookmarkView| bookmark_ref(b))
}

pub open spec fn first_eight<T>(items: Seq<T>) -> Seq<T> {
    if items.len() > 8 {
        items.take(8)
    } else {
        items
    }
}

pub open spec fn more_suffix(n: nat) -> Seq<char> {
    if n > 8 {
        " and "@ + text::decimal((n - 8) as nat) + " more"@
    } else {
        seq![]
    }
}

pub open spec fn blocked_by(
    blockers: Seq<RemoteBookmarkView>,
    rev: Seq<char>,
    number: u64,
) -> CliErrorView {
    error::cli(
        "cannot unfreeze "@ + pr::hash(number)
            + " because untracked remote bookmarks still make it immutable"@,
    ).because(
        pr::hash(number) + " resolves to "@ + rev
            + ", but it is still an ancestor of untracked remote bookmark(s): "@ + text::join(
            bookmark_refs(first_eight(blockers)),
            ", "@,
        ) + more_suffix(blockers.len()) + "."@,
    ).fixed_by("track or delete the listed remote bookmarks, then rerun `forklift unfreeze`"@)
}

pub open spec fn immutable_still(rev: Seq<char>, number: u64) -> CliErrorView {
    error::cli("cannot unfreeze "@ + pr::hash(number) + " because it is still immutable"@).because(
        pr::hash(number) + " resolves to "@ + rev
            + ", but jj still reports that revision as immutable after removing the frozen bookmark."@,
    ).fixed_by(
        "inspect `immutable_heads()` for another blocker such as a tag, custom immutable alias, or another frozen namespace"@,
    )
}

/// The report on a change that stayed immutable, from the bookmarks that still stand on it.
pub open spec fn blockers_report(
    blockers: Seq<RemoteBookmarkView>,
    rev: Seq<char>,
    number: u64,
) -> CliErrorView {
    if blockers.len() > 0 {
        blocked_by(blockers, rev, number)
    } else {
        immutable_still(rev, number)
    }
}

pub fn report_blockers(blockers: &Vec<RemoteBookmark>, rev: &str, pr_number: u64) -> (r: CliError)
    ensures
        r@ == blockers_report(blockers.deep_view(), rev@, pr_number),
{
    let name = hash_text(pr_number);
    if blockers.len() == 0 {
        let mut reason = cat3(&name, " resolves to ", rev);
        reason.append(
            ", but jj still reports that revision as immutable after removing the frozen bookmark.",
        );
        return CliError::new(
            &cat3("cannot unfreeze ", &name, " because it is still immutable"),
        ).reason(&reason).resolution(
            "inspect `immutable_heads()` for another blocker such as a tag, custom immutable alias, or another frozen namespace",
        );
    }
    let ghost view = blockers.deep_view();
    let n: usize = if blockers.len() > 8 {
        8
    } else {
        blockers.len()
    };
    let mut refs: Vec<String> = Vec::new();
    let mut i: usize = 0;
    while i < n
        invariant
            i <= n <= blockers@.len(),
            view == blockers.deep_view(),
            refs@.len() == i,
            forall|k: int| 0 <= k < i ==> (#[trigger] refs@[k])@ == bookmark_ref(view[k]),
        decreases n - i,
    {
        assert(view[i as int] == blockers@[i as int]@);
        refs.push(cat5("`", &blockers[i].name, "@", &blockers[i].remote, "`"));
        i = i + 1;
    }
    assert(refs.deep_view() =~= bookmark_refs(first_eight(view)));
    let mut reason = cat5(
        &name,
        " resolves to ",
        rev,
        ", but it is still an ancestor of untracked remote bookmark(s): ",
        &join_text(&refs, ", "),
    );
    let more = if blockers.len() > 8 {
        cat3(" and ", &number_text((blockers.len() - 8) as u64), " more")
    } else {
        String::new()
    };
    reason.append(&more);
    reason.append(".");
    CliError::new(
        &cat3(
            "cannot unfreeze ",
            &name,
            " because untracked remote bookmarks still make it immutable",
        ),
    ).reason(&reason).resolution(
        "track or delete the listed remote bookmarks, then rerun `forklift unfreeze`",
    )
}

/// The record from `before` to `after` holds the search for the bookmarks that still stand on a
/// change.
pub open spec fn blockers_diagnosed(
    before: Seq<Event>,
    after: Seq<Event>,
    remote: Seq<char>,
    rev: Seq<char>,
    number: u64,
    r: Result<CliErrorView, Seq<CauseView>>,
) -> bool {
    exists|found: Result<Seq<RemoteBookmarkView>, Seq<CauseView>>|
        {
            &&& #[trigger] bookmarks::blockers_searched(before, after, remote, rev, ""@, found)
            &&& r == match found {
                Err(e) => Err(e),
                Ok(blockers) => Ok(blockers_report(blockers, rev, number)),
            }
        }
}

fn diagnose_blockers<H: Host>(sh: &mut Shell<H>, config: &AppConfig, rev: &str, pr_number: u64) -> (r:
    Result<CliError, Error>)
    ensures
        record::extends(old(sh).log(), final(sh).log()),
        blockers_diagnosed(
            old(sh).log(),
            final(sh).log(),
            config@.remote,
            rev@,
            pr_number,
            error::res(r),
        ),
{
    let found = untracked_remote_bookmark_blockers(sh, config, rev, "");
    let ghost seen = error::res(found);
    assert(bookmarks::blockers_searched(old(sh).log(), sh.log(), config@.remote, rev@, ""@, seen));
    match found {
        Err(error) => Err(error),
        Ok(blockers) => Ok(report_blockers(&blockers, rev, pr_number)),
    }
}

/// The record from `before` to `after` holds how the reason is found why a change is immutable: it is
/// in trunk, or remote bookmarks stand on it, or neither is known.
pub open spec fn immutability_diagnosed(
    before: Seq<Event>,
    after: Seq<Event>,
    config: AppConfigView,
    rev: Seq<char>,
    number: u64,
    r: Result<CliErrorView, Seq<CauseView>>,
) -> bool {
    let n = before.len() as int;
    &&& record::extends(before, after)
    &&& after.len() > n
    &&& record::is_call(after[n], "git"@, bookmarks::ancestor_args(rev, rebase::jj_ref_of(config)))
    &&& match bookmarks::success_of(record::reply_of(after[n])) {
        Err(e) => record::stopped(after.take(n + 1), after, e, r),
        Ok(landed) => if landed {
            after.len() == n + 1 && r == Ok::<_, Seq<CauseView>>(
                in_trunk(config.trunk, rev, number),
            )
        } else {
            blockers_diagnosed(after.take(n + 1), after, config.remote, rev, number, r)
        },
    }
}

pub fn diagnose_unfrozen_revision_immutable<H: Host>(
    sh: &mut Shell<H>,
    config: &AppConfig,
    rev: &str,
    pr_number: u64,
) -> (r: Result<CliError, Error>)
    ensures
        record::extends(old(sh).log(), final(sh).log()),
        immutability_diagnosed(
            old(sh).log(),
            final(sh).log(),
            config@,
            rev@,
            pr_number,
            error::res(r),
        ),
{
    let ghost n = sh.log().len() as int;
    let landed = git_commit_is_ancestor(sh, rev, &remote_jj_ref(config));
    let ghost mid = sh.log();
    assert(mid.take(n + 1) =~= mid);
    match landed {
        Err(error) => Err(error),
        Ok(true) => {
            let name = hash_text(pr_number);
            let mut message = cat3(
                "cannot unfreeze ",
                &name,
                " because it is already reachable from trunk ",
            );
            message.append(&config.trunk);
            let mut reason = cat5(
                &name,
                " resolves to ",
                rev,
                ", which is already contained in `",
                &config.trunk,
            );
            reason.append("`.");
            Ok(
                CliError::new(&message).reason(&reason).resolution(
                    &cat("run `forklift sync` or stop trying to adopt ", &name),
                ),
            )
        },
        Ok(false) => {
            let r = diagnose_blockers(sh, config, rev, pr_number);
            assert(sh.log().take(n + 1) =~= mid);
            assert(sh.log()[n] == sh.log().take(n + 1)[n]);
            r
        },
    }
}

pub open spec fn diagnosed_failure(r: Result<CliErrorView, Seq<CauseView>>) -> Result<
    (),
    Seq<CauseView>,
> {
    match r {
        Ok(diagnosis) => Err(error::reported(diagnosis)),
        Err(e) => Err(e),
    }
}

pub open spec fn immutability_reported(
    before: Seq<Event>,
    after: Seq<Event>,
    config: AppConfigView,
    rev: Seq<char>,
    number: u64,
    r: Result<(), Seq<CauseView>>,
) -> bool {
    exists|diagnosis: Result<CliErrorView, Seq<CauseView>>|
        #[trigger] immutability_diagnosed(before, after, config, rev, number, diagnosis) && r
            == diagnosed_failure(diagnosis)
}

/// The record from `before` to `after` holds the check that a change can be rewritten; if it cannot,
/// the failure says why.
pub open spec fn mutability_verified(
    before: Seq<Event>,
    after: Seq<Event>,
    config: AppConfigView,
    rev: Seq<char>,
    number: u64,
    r: Result<(), Seq<CauseView>>,
) -> bool {
    let n = before.len() as int;
    &&& record::extends(before, after)
    &&& after.len() > n
    &&& record::is_call(after[n], "jj"@, immutable_args(rev))
    &&& match mutable_result(rev, record::reply_of(after[n])) {
        Ok(_) => after.len() == n + 1 && r == Ok::<(), Seq<CauseView>>(()),
        Err(e) => immutability_reported(after.take(n + 1), after, config, rev, number, r),
    }
}

pub fn verify_unfrozen_revision_mutable<H: Host>(
    sh: &mut Shell<H>,
    config: &AppConfig,
    rev: &str,
    pr_number: u64,
) -> (r: Result<(), Error>)
    ensures
        record::extends(old(sh).log(), final(sh).log()),
        mutability_verified(
            old(sh).log(),
            final(sh).log(),
            config@,
            rev@,
            pr_number,
            error::res_of(r),
        ),
{
    let ghost n = sh.log().len() as int;
    let verified = verify_revision_mutable(sh, rev);
    let ghost mid = sh.log();
    assert(mid.take(n + 1) =~= mid);
    match verified {
        Ok(_) => Ok(()),
        Err(_) => {
            let diagnosis = diagnose_unfrozen_revision_immutable(sh, config, rev, pr_number);
            let ghost seen = error::res(diagnosis);
            assert(sh.log().take(n + 1) =~= mid);
            assert(sh.log()[n] == sh.log().take(n + 1)[n]);
            assert(immutability_diagnosed(mid, sh.log(), config@, rev@, pr_number, seen));
            match diagnosis {
                Ok(diagnosis) => Err(report(diagnosis)),
                Err(error) => Err(error),
            }
        },
    }
}

// ---------------------------------------------------------------------------
// The adoption
// ---------------------------------------------------------------------------

/// The change that an adopted head is.
pub open spec fn adopted_change(
    pr: GhPrView,
    stack: Result<Seq<ResolvedChangeView>, Seq<CauseView>>,
) -> Result<ResolvedChangeView, Seq<CauseView>> {
    match stack {
        Err(e) => Err(error::phase_failure("write-cache"@, pr::hash(pr.number), e)),
        Ok(stack) => if stack.len() != 1 {
            Err(
                error::phase_failure(
                    "write-cache"@,
                    pr::hash(pr.number),
                    error::plain(
                        "adopted "@ + pr::hash(pr.number) + " head "@ + pr.head_ref_oid
                            + " resolved to "@ + text::decimal(stack.len())
                            + " jj changes; expected exactly one"@,
                    ),
                ),
            )
        } else {
            Ok(stack[0])
        },
    }
}

pub fn adopted_head_change(pr: &GhPr, stack: Result<Vec<ResolvedChange>, Error>) -> (r: Result<
    ResolvedChange,
    Error,
>)
    ensures
        error::res(r) == adopted_change(pr@, error::res(stack)),
{
    let name = hash_text(pr.number);
    let stack = match stack {
        Ok(stack) => stack,
        Err(error) => return Err(phase_error("write-cache", &name, error)),
    };
    if stack.len() != 1 {
        let mut message = cat5("adopted ", &name, " head ", &pr.head_ref_oid, " resolved to ");
        message.append(&number_text(stack.len() as u64));
        message.append(" jj changes; expected exactly one");
        return Err(phase_error("write-cache", &name, fail(&message)));
    }
    assert(stack.deep_view()[0] == stack@[0]@);
    Ok(stack[0].copy())
}

/// The record from `before` to `after` holds how an adopted head is remembered under its change.
pub open spec fn head_remembered(
    before: Seq<Event>,
    after: Seq<Event>,
    repo: Seq<char>,
    pr: GhPrView,
    place: Seq<char>,
    all: Map<(Seq<char>, Seq<char>), PrCacheEntryView>,
    r: Result<(), Seq<CauseView>>,
) -> bool {
    exists|mid: Seq<Event>, stack: Result<Seq<ResolvedChangeView>, Seq<CauseView>>|
        {
            &&& #[trigger] stack::stack_resolved(before, mid, pr.head_ref_oid, stack)
            &&& match adopted_change(pr, stack) {
                Err(e) => record::stopped(mid, after, e, r),
                Ok(change) => {
                    &&& cache::cache_saved(
                        mid,
                        after,
                        place,
                        all.insert((repo, change.change_id), pr::entry_of(pr, None)),
                        "write-cache"@,
                        after[mid.len() as int]->written is Ok,
                    )
                    &&& r == Ok::<(), Seq<CauseView>>(())
                },
            }
        }
}

fn remember_head<H: Host>(
    sh: &mut Shell<H>,
    github: &GitHubContext,
    pr: &GhPr,
    store: &mut CacheStore,
) -> (r: Result<(), Error>)
    ensures
        record::extends(old(sh).log(), final(sh).log()),
        head_remembered(
            old(sh).log(),
            final(sh).log(),
            github@.repo,
            pr@,
            old(store).place(),
            old(store)@,
            error::res_of(r),
        ),
{
    let resolved = resolve_stack(sh, &pr.head_ref_oid);
    let ghost mid = sh.log();
    let ghost stack = error::res(resolved);
    assert(stack::stack_resolved(old(sh).log(), mid, pr@.head_ref_oid, stack));
    match adopted_head_change(pr, resolved) {
        Err(error) => Err(error),
        Ok(change) => {
            store.upsert_pr(
                &github.repo,
                &change.change_id,
                pr.copy().into_cache_entry(None),
            );
            store.save_best_effort(sh, "write-cache");
            Ok(())
        },
    }
}

/// The record from `before` to `after` holds how an adoption is remembered; a dry run says that it
/// is not.
pub open spec fn adoption_remembered(
    before: Seq<Event>,
    after: Seq<Event>,
    repo: Seq<char>,
    pr: GhPrView,
    dry_run: bool,
    r: Result<(), Seq<CauseView>>,
) -> bool {
    if dry_run {
        &&& after == before.push(
            Event::Said(LineView::Info("- SQLite cache writes are skipped"@)),
        )
        &&& r == Ok::<(), Seq<CauseView>>(())
    } else {
        adoption_cached(before, after, repo, pr, r)
    }
}

pub open spec fn adoption_cached(
    before: Seq<Event>,
    after: Seq<Event>,
    repo: Seq<char>,
    pr: GhPrView,
    r: Result<(), Seq<CauseView>>,
) -> bool {
    exists|
        mid: Seq<Event>,
        opened: Result<
            (Seq<char>, Map<(Seq<char>, Seq<char>), PrCacheEntryView>),
            Seq<CauseView>,
        >,
    |
        {
            &&& #[trigger] cache::cache_opened(before, mid, "write-cache"@, opened)
            &&& match opened {
                Err(e) => record::stopped(mid, after, error::phase_failure("write-cache"@, "cache"@, e), r),
                Ok((place, all)) => head_remembered(mid, after, repo, pr, place, all, r),
            }
        }
}

fn remember_adoption<H: Host>(
    sh: &mut Shell<H>,
    github: &GitHubContext,
    pr: &GhPr,
    diagnostics: Diagnostics,
) -> (r: Result<(), Error>)
    ensures
        record::extends(old(sh).log(), final(sh).log()),
        adoption_remembered(
            old(sh).log(),
            final(sh).log(),
            github@.repo,
            pr@,
            diagnostics.dry_run,
            error::res_of(r),
        ),
{
    let ghost start = sh.log();
    if diagnostics.dry_run {
        diagnostics.plan_line(sh, "- SQLite cache writes are skipped");
        assert(sh.log() =~= start.push(
            Event::Said(LineView::Info("- SQLite cache writes are skipped"@)),
        ));
        return Ok(());
    }
    let loaded = CacheStore::load_current_best_effort(sh, "write-cache");
    let ghost opened = cache::store_parts(loaded);
    assert(cache::cache_opened(start, sh.log(), "write-cache"@, opened));
    match loaded {
        Err(error) => Err(phase_error("write-cache", "cache", error)),
        Ok(store) => {
            let mut store = store;
            remember_head(sh, github, pr, &mut store)
        },
    }
}

pub open spec fn future_line(repo: Seq<char>, pr: GhPrView) -> Seq<char> {
    "future submit will update `"@ + pr::pr_url(repo, pr.number) + "` through tracked jj bookmark `"@
        + pr.head_ref_name + "`"@
}

pub open spec fn adoption_closed(
    before: Seq<Event>,
    after: Seq<Event>,
    repo: Seq<char>,
    pr: GhPrView,
    diagnostics: Diagnostics,
    r: Result<u64, Seq<CauseView>>,
) -> bool {
    exists|mid: Seq<Event>, kept: Result<(), Seq<CauseView>>|
        {
            &&& #[trigger] adoption_remembered(
                before + ui::phase_said(diagnostics, "write-cache"@),
                mid,
                repo,
                pr,
                diagnostics.dry_run,
                kept,
            )
            &&& match kept {
                Err(e) => record::stopped(mid, after, e, r),
                Ok(_) => {
                    &&& after == mid.push(Event::Said(LineView::Info(future_line(repo, pr))))
                    &&& r == Ok::<u64, Seq<CauseView>>(pr.number)
                },
            }
        }
}

fn close_adoption<H: Host>(
    sh: &mut Shell<H>,
    github: &GitHubContext,
    pr: &GhPr,
    diagnostics: Diagnostics,
) -> (r: Result<u64, Error>)
    ensures
        record::extends(old(sh).log(), final(sh).log()),
        adoption_closed(
            old(sh).log(),
            final(sh).log(),
            github@.repo,
            pr@,
            diagnostics,
            error::res_of(r),
        ),
{
    let ghost start = sh.log();
    diagnostics.phase(sh, "write-cache");
    let kept = remember_adoption(sh, github, pr, diagnostics);
    assert(adoption_remembered(
        start + ui::phase_said(diagnostics, "write-cache"@),
        sh.log(),
        github@.repo,
        pr@,
        diagnostics.dry_run,
        error::res_of(kept),
    ));
    match kept {
        Err(error) => Err(error),
        Ok(_) => {
            sh.say(
                Line::Info(
                    cat5(
                        "future submit will update `",
                        &github_pr_url(&github.repo, pr.number),
                        "` through tracked jj bookmark `",
                        &pr.head_ref_name,
                        "`",
                    ),
                ),
            );
            Ok(pr.number)
        },
    }
}

/// The record from `before` to `after` holds the check that the adopted head can be rewritten; a dry
/// run leaves it out.
pub open spec fn adoption_verified(
    before: Seq<Event>,
    after: Seq<Event>,
    config: AppConfigView,
    repo: Seq<char>,
    pr: GhPrView,
    diagnostics: Diagnostics,
    r: Result<u64, Seq<CauseView>>,
) -> bool {
    let announced = before + ui::phase_said(diagnostics, "verify-mutable"@);
    if diagnostics.dry_run {
        adoption_closed(announced, after, repo, pr, diagnostics, r)
    } else {
        adoption_proved(announced, after, config, repo, pr, diagnostics, r)
    }
}

pub open spec fn adoption_proved(
    before: Seq<Event>,
    after: Seq<Event>,
    config: AppConfigView,
    repo: Seq<char>,
    pr: GhPrView,
    diagnostics: Diagnostics,
    r: Result<u64, Seq<CauseView>>,
) -> bool {
    exists|mid: Seq<Event>, verified: Result<(), Seq<CauseView>>|
        {
            &&& #[trigger] mutability_verified(
                before,
                mid,
                config,
                pr.head_ref_oid,
                pr.number,
                verified,
            )
            &&& match verified {
                Err(e) => record::stopped(
                    mid,
                    after,
                    error::phase_failure("verify-mutable"@, pr.head_ref_oid, e),
                    r,
                ),
                Ok(_) => adoption_closed(mid, after, repo, pr, diagnostics, r),
            }
        }
}

fn verify_adoption<H: Host>(
    sh: &mut Shell<H>,
    config: &AppConfig,
    github: &GitHubContext,
    pr: &GhPr,
    diagnostics: Diagnostics,
) -> (r: Result<u64, Error>)
    ensures
        record::extends(old(sh).log(), final(sh).log()),
        adoption_verified(
            old(sh).log(),
            final(sh).log(),
            config@,
            github@.repo,
            pr@,
            diagnostics,
            error::res_of(r),
        ),
{
    let ghost start = sh.log();
    diagnostics.phase(sh, "verify-mutable");
    if diagnostics.dry_run {
        return close_adoption(sh, github, pr, diagnostics);
    }
    let verified = verify_unfrozen_revision_mutable(sh, config, &pr.head_ref_oid, pr.number);
    assert(mutability_verified(
        start + ui::phase_said(diagnostics, "verify-mutable"@),
        sh.log(),
        config@,
        pr@.head_ref_oid,
        pr@.number,
        error::res_of(verified),
    ));
    match verified {
        Err(error) => Err(phase_error("verify-mutable", &pr.head_ref_oid, error)),
        Ok(_) => close_adoption(sh, github, pr, diagnostics),
    }
}

/// The record from `before` to `after` holds the deletion of the frozen bookmark, if there was one.
pub open spec fn adoption_thawed(
    before: Seq<Event>,
    after: Seq<Event>,
    config: AppConfigView,
    repo: Seq<char>,
    pr: GhPrView,
    present: bool,
    diagnostics: Diagnostics,
    r: Result<u64, Seq<CauseView>>,
) -> bool {
    let announced = before + ui::phase_said(diagnostics, "remove-frozen"@);
    if !present {
        adoption_verified(announced, after, config, repo, pr, diagnostics, r)
    } else {
        frozen_removed(announced, after, config, repo, pr, diagnostics, r)
    }
}

pub open spec fn frozen_removed(
    before: Seq<Event>,
    after: Seq<Event>,
    config: AppConfigView,
    repo: Seq<char>,
    pr: GhPrView,
    diagnostics: Diagnostics,
    r: Result<u64, Seq<CauseView>>,
) -> bool {
    exists|mid: Seq<Event>, removed: Result<(), Seq<CauseView>>|
        {
            &&& #[trigger] bookmarks::jj_step(
                before,
                mid,
                bookmarks::delete_args(bookmarks::frozen_name(pr.number)),
                diagnostics.dry_run,
                removed,
            )
            &&& match removed {
                Err(e) => record::stopped(
                    mid,
                    after,
                    error::phase_failure("remove-frozen"@, bookmarks::frozen_name(pr.number), e),
                    r,
                ),
                Ok(_) => adoption_verified(mid, after, config, repo, pr, diagnostics, r),
            }
        }
}

fn thaw<H: Host>(
    sh: &mut Shell<H>,
    config: &AppConfig,
    github: &GitHubContext,
    pr: &GhPr,
    present: bool,
    diagnostics: Diagnostics,
) -> (r: Result<u64, Error>)
    ensures
        record::extends(old(sh).log(), final(sh).log()),
        adoption_thawed(
            old(sh).log(),
            final(sh).log(),
            config@,
            github@.repo,
            pr@,
            present,
            diagnostics,
            error::res_of(r),
        ),
{
    let ghost start = sh.log();
    diagnostics.phase(sh, "remove-frozen");
    if !present {
        return verify_adoption(sh, config, github, pr, diagnostics);
    }
    let name = frozen_bookmark_name(pr.number);
    let removed = delete_bookmark(sh, &name, diagnostics);
    assert(bookmarks::jj_step(
        start + ui::phase_said(diagnostics, "remove-frozen"@),
        sh.log(),
        bookmarks::delete_args(bookmarks::frozen_name(pr@.number)),
        diagnostics.dry_run,
        error::res_of(removed),
    ));
    match removed {
        Err(error) => Err(phase_error("remove-frozen", &name, error)),
        Ok(_) => verify_adoption(sh, config, github, pr, diagnostics),
    }
}

pub open spec fn adoption_unblocked(
    before: Seq<Event>,
    after: Seq<Event>,
    config: AppConfigView,
    repo: Seq<char>,
    pr: GhPrView,
    present: bool,
    diagnostics: Diagnostics,
    r: Result<u64, Seq<CauseView>>,
) -> bool {
    exists|mid: Seq<Event>, cleared: Result<(), Seq<CauseView>>|
        {
            &&& #[trigger] bookmarks::blockers_cleared(
                before + ui::phase_said(diagnostics, "track-blockers"@),
                mid,
                config.remote,
                pr.head_ref_oid,
                pr.head_ref_name,
                diagnostics.dry_run,
                cleared,
            )
            &&& match cleared {
                Err(e) => record::stopped(
                    mid,
                    after,
                    error::phase_failure("track-blockers"@, pr::hash(pr.number), e),
                    r,
                ),
                Ok(_) => adoption_thawed(mid, after, config, repo, pr, present, diagnostics, r),
            }
        }
}

fn unblock<H: Host>(
    sh: &mut Shell<H>,
    config: &AppConfig,
    github: &GitHubContext,
    pr: &GhPr,
    present: bool,
    diagnostics: Diagnostics,
) -> (r: Result<u64, Error>)
    ensures
        record::extends(old(sh).log(), final(sh).log()),
        adoption_unblocked(
            old(sh).log(),
            final(sh).log(),
            config@,
            github@.repo,
            pr@,
            present,
            diagnostics,
            error::res_of(r),
        ),
{
    let ghost start = sh.log();
    diagnostics.phase(sh, "track-blockers");
    let cleared = track_untracked_remote_bookmark_blockers(
        sh,
        config,
        &pr.head_ref_oid,
        &pr.head_ref_name,
        diagnostics,
    );
    assert(bookmarks::blockers_cleared(
        start + ui::phase_said(diagnostics, "track-blockers"@),
        sh.log(),
        config@.remote,
        pr@.head_ref_oid,
        pr@.head_ref_name,
        diagnostics.dry_run,
        error::res_of(cleared),
    ));
    match cleared {
        Err(error) => Err(phase_error("track-blockers", &hash_text(pr.number), error)),
        Ok(_) => thaw(sh, config, github, pr, present, diagnostics),
    }
}

pub open spec fn adoption_followed(
    before: Seq<Event>,
    after: Seq<Event>,
    config: AppConfigView,
    repo: Seq<char>,
    pr: GhPrView,
    present: bool,
    diagnostics: Diagnostics,
    r: Result<u64, Seq<CauseView>>,
) -> bool {
    exists|mid: Seq<Event>, followed: Result<(), Seq<CauseView>>|
        {
            &&& #[trigger] bookmarks::jj_step(
                before + ui::phase_said(diagnostics, "track-branch"@),
                mid,
                bookmarks::follow_args(config.remote, pr.head_ref_name),
                diagnostics.dry_run,
                followed,
            )
            &&& match followed {
                Err(e) => record::stopped(
                    mid,
                    after,
                    error::phase_failure("track-branch"@, pr.head_ref_name, e),
                    r,
                ),
                Ok(_) => adoption_unblocked(
                    mid,
                    after,
                    config,
                    repo,
                    pr,
                    present,
                    diagnostics,
                    r,
                ),
            }
        }
}

fn follow_head<H: Host>(
    sh: &mut Shell<H>,
    config: &AppConfig,
    github: &GitHubContext,
    pr: &GhPr,
    present: bool,
    diagnostics: Diagnostics,
) -> (r: Result<u64, Error>)
    ensures
        record::extends(old(sh).log(), final(sh).log()),
        adoption_followed(
            old(sh).log(),
            final(sh).log(),
            config@,
            github@.repo,
            pr@,
            present,
            diagnostics,
            error::res_of(r),
        ),
{
    let ghost start = sh.log();
    diagnostics.phase(sh, "track-branch");
    let followed = track_remote_bookmark(sh, config, &pr.head_ref_name, diagnostics);
    assert(bookmarks::jj_step(
        start + ui::phase_said(diagnostics, "track-branch"@),
        sh.log(),
        bookmarks::follow_args(config@.remote, pr@.head_ref_name),
        diagnostics.dry_run,
        error::res_of(followed),
    ));
    match followed {
        Err(error) => Err(phase_error("track-branch", &pr.head_ref_name, error)),
        Ok(_) => unblock(sh, config, github, pr, present, diagnostics),
    }
}

pub open spec fn adoption_fetched(
    before: Seq<Event>,
    after: Seq<Event>,
    config: AppConfigView,
    repo: Seq<char>,
    pr: GhPrView,
    present: bool,
    diagnostics: Diagnostics,
    r: Result<u64, Seq<CauseView>>,
) -> bool {
    exists|mid: Seq<Event>, fetched: Result<(), Seq<CauseView>>|
        {
            &&& #[trigger] branches::branches_fetched(
                before + ui::phase_said(diagnostics, "fetch-branch"@),
                mid,
                config.remote,
                seq![pr],
                diagnostics.dry_run,
                fetched,
            )
            &&& match fetched {
                Err(e) => record::stopped(
                    mid,
                    after,
                    error::phase_failure("fetch-branch"@, pr.head_ref_name, e),
                    r,
                ),
                Ok(_) => adoption_followed(
                    mid,
                    after,
                    config,
                    repo,
                    pr,
                    present,
                    diagnostics,
                    r,
                ),
            }
        }
}

fn fetch_head<H: Host>(
    sh: &mut Shell<H>,
    config: &AppConfig,
    github: &GitHubContext,
    pr: &GhPr,
    present: bool,
    diagnostics: Diagnostics,
) -> (r: Result<u64, Error>)
    ensures
        record::extends(old(sh).log(), final(sh).log()),
        adoption_fetched(
            old(sh).log(),
            final(sh).log(),
            config@,
            github@.repo,
            pr@,
            present,
            diagnostics,
            error::res_of(r),
        ),
{
    let ghost start = sh.log();
    diagnostics.phase(sh, "fetch-branch");
    let mut alone: Vec<GhPr> = Vec::new();
    alone.push(pr.copy());
    assert(alone.deep_view() =~= seq![pr@]);
    let fetched = fetch_get_branches(sh, config, &alone, diagnostics);
    assert(branches::branches_fetched(
        start + ui::phase_said(diagnostics, "fetch-branch"@),
        sh.log(),
        config@.remote,
        seq![pr@],
        diagnostics.dry_run,
        error::res_of(fetched),
    ));
    match fetched {
        Err(error) => Err(phase_error("fetch-branch", &pr.head_ref_name, error)),
        Ok(_) => follow_head(sh, config, github, pr, present, diagnostics),
    }
}

/// The first bookmark of a name.
pub open spec fn frozen_named(list: Seq<FrozenBookmarkView>, name: Seq<char>) -> Option<
    FrozenBookmarkView,
>
    decreases list.len(),
{
    if list.len() == 0 {
        None
    } else if list[0].name == name {
        Some(list[0])
    } else {
        frozen_named(list.drop_first(), name)
    }
}

fn find_frozen_named(list: &Vec<FrozenBookmark>, name: &str) -> (r: Option<usize>)
    ensures
        match r {
            Some(i) => i < list@.len() && frozen_named(list.deep_view(), name@) == Some(
                list.deep_view()[i as int],
            ),
            None => frozen_named(list.deep_view(), name@) is None,
        },
{
    let ghost view = list.deep_view();
    let mut i: usize = 0;
    assert(view.skip(0) =~= view);
    while i < list.len()
        invariant
            i <= list@.len(),
            view == list.deep_view(),
            frozen_named(view, name@) == frozen_named(view.skip(i as int), name@),
        decreases list@.len() - i,
    {
        assert(view.skip(i as int)[0] == list@[i as int]@);
        assert(view.skip(i as int).drop_first() =~= view.skip(i + 1));
        if same(&list[i].name, name) {
            return Some(i);
        }
        i = i + 1;
    }
    None
}

pub open spec fn stale_frozen(bookmark: FrozenBookmarkView, pr: GhPrView) -> Seq<CauseView> {
    error::plain(
        "phase=validate-frozen object="@ + bookmarks::frozen_name(pr.number)
            + " error=frozen bookmark points at "@ + bookmark.commit_id + ", but GitHub "@ + pr::hash(
            pr.number,
        ) + " head is "@ + pr.head_ref_oid
            + "; run `forklift sync` first before unfreezing safe-next-command=`forklift sync`"@,
    )
}

pub open spec fn frozen_missing(pr: GhPrView) -> Seq<char> {
    "frozen bookmark `"@ + bookmarks::frozen_name(pr.number) + "` is missing; continuing adoption from "@
        + pr::hash(pr.number) + " head"@
}

/// The record from `before` to `after` holds what follows the list of frozen bookmarks: a stale one
/// stops the adoption, a missing one only gives a warning.
pub open spec fn adoption_compared(
    before: Seq<Event>,
    after: Seq<Event>,
    config: AppConfigView,
    repo: Seq<char>,
    pr: GhPrView,
    list: Seq<FrozenBookmarkView>,
    diagnostics: Diagnostics,
    r: Result<u64, Seq<CauseView>>,
) -> bool {
    match frozen_named(list, bookmarks::frozen_name(pr.number)) {
        Some(bookmark) => if bookmark.commit_id != pr.head_ref_oid {
            record::stopped(before, after, stale_frozen(bookmark, pr), r)
        } else {
            adoption_fetched(before, after, config, repo, pr, true, diagnostics, r)
        },
        None => adoption_fetched(
            before.push(Event::Said(LineView::Warn(frozen_missing(pr)))),
            after,
            config,
            repo,
            pr,
            false,
            diagnostics,
            r,
        ),
    }
}

fn compare_frozen<H: Host>(
    sh: &mut Shell<H>,
    config: &AppConfig,
    github: &GitHubContext,
    pr: &GhPr,
    list: &Vec<FrozenBookmark>,
    diagnostics: Diagnostics,
) -> (r: Result<u64, Error>)
    ensures
        record::extends(old(sh).log(), final(sh).log()),
        adoption_compared(
            old(sh).log(),
            final(sh).log(),
            config@,
            github@.repo,
            pr@,
            list.deep_view(),
            diagnostics,
            error::res_of(r),
        ),
{
    let name = frozen_bookmark_name(pr.number);
    match find_frozen_named(list, &name) {
        Some(i) => {
            let bookmark = &list[i];
            assert(list.deep_view()[i as int] == bookmark@);
            if !same(&bookmark.commit_id, &pr.head_ref_oid) {
                let mut message = cat5(
                    "phase=validate-frozen object=",
                    &name,
                    " error=frozen bookmark points at ",
                    &bookmark.commit_id,
                    ", but GitHub ",
                );
                message.append(&hash_text(pr.number));
                message.append(" head is ");
                message.append(&pr.head_ref_oid);
                message.append(
                    "; run `forklift sync` first before unfreezing safe-next-command=`forklift sync`",
                );
                return Err(fail(&message));
            }
            fetch_head(sh, config, github, pr, true, diagnostics)
        },
        None => {
            sh.say(
                Line::Warn(
                    cat5(
                        "frozen bookmark `",
                        &name,
                        "` is missing; continuing adoption from ",
                        &hash_text(pr.number),
                        " head",
                    ),
                ),
            );
            fetch_head(sh, config, github, pr, false, diagnostics)
        },
    }
}

pub open spec fn adoption_listed(
    before: Seq<Event>,
    after: Seq<Event>,
    config: AppConfigView,
    repo: Seq<char>,
    pr: GhPrView,
    diagnostics: Diagnostics,
    r: Result<u64, Seq<CauseView>>,
) -> bool {
    exists|mid: Seq<Event>|
        {
            &&& #[trigger] record::called(
                before + ui::phase_said(diagnostics, "validate-frozen"@),
                mid,
                "jj"@,
                bookmarks::frozen_list_args(),
            )
            &&& match bookmarks::frozen_list_result(record::last_reply(mid)) {
                Err(e) => record::stopped(
                    mid,
                    after,
                    error::phase_failure("validate-frozen"@, "frozen bookmarks"@, e),
                    r,
                ),
                Ok(list) => adoption_compared(
                    mid,
                    after,
                    config,
                    repo,
                    pr,
                    list,
                    diagnostics,
                    r,
                ),
            }
        }
}

fn list_frozen<H: Host>(
    sh: &mut Shell<H>,
    config: &AppConfig,
    github: &GitHubContext,
    pr: &GhPr,
    diagnostics: Diagnostics,
) -> (r: Result<u64, Error>)
    ensures
        record::extends(old(sh).log(), final(sh).log()),
        adoption_listed(
            old(sh).log(),
            final(sh).log(),
            config@,
            github@.repo,
            pr@,
            diagnostics,
            error::res_of(r),
        ),
{
    let ghost start = sh.log();
    diagnostics.phase(sh, "validate-frozen");
    let listed = frozen_bookmarks(sh);
    assert(record::called(
        start + ui::phase_said(diagnostics, "validate-frozen"@),
        sh.log(),
        "jj"@,
        bookmarks::frozen_list_args(),
    ));
    match listed {
        Err(error) => Err(phase_error("validate-frozen", "frozen bookmarks", error)),
        Ok(list) => compare_frozen(sh, config, github, pr, &list, diagnostics),
    }
}

/// The record from `before` to `after` holds the check of the right to push, and what follows it.
pub open spec fn adoption_permitted(
    before: Seq<Event>,
    after: Seq<Event>,
    config: AppConfigView,
    github: GitHubContextView,
    pr: GhPrView,
    diagnostics: Diagnostics,
    r: Result<u64, Seq<CauseView>>,
) -> bool {
    exists|mid: Seq<Event>|
        {
            &&& #[trigger] record::called(before, mid, "gh"@, permission_args(github.repo))
            &&& match permission_result(github, record::last_reply(mid)) {
                Err(e) => record::stopped(
                    mid,
                    after,
                    error::phase_failure("resolve-target"@, github.repo, e),
                    r,
                ),
                Ok(_) => adoption_listed(mid, after, config, github.repo, pr, diagnostics, r),
            }
        }
}

fn permit_adoption<H: Host>(
    sh: &mut Shell<H>,
    config: &AppConfig,
    github: &GitHubContext,
    pr: &GhPr,
    diagnostics: Diagnostics,
) -> (r: Result<u64, Error>)
    ensures
        record::extends(old(sh).log(), final(sh).log()),
        adoption_permitted(
            old(sh).log(),
            final(sh).log(),
            config@,
            github@,
            pr@,
            diagnostics,
            error::res_of(r),
        ),
{
    let permitted = verify_repo_push_permission(sh, github);
    assert(record::called(old(sh).log(), sh.log(), "gh"@, permission_args(github@.repo)));
    match permitted {
        Err(error) => Err(phase_error("resolve-target", &github.repo, error)),
        Ok(_) => list_frozen(sh, config, github, pr, diagnostics),
    }
}

pub open spec fn adoption_targeted(
    before: Seq<Event>,
    after: Seq<Event>,
    config: AppConfigView,
    github: GitHubContextView,
    target: GetTargetView,
    diagnostics: Diagnostics,
    r: Result<u64, Seq<CauseView>>,
) -> bool {
    exists|mid: Seq<Event>, pr: Result<GhPrView, Seq<CauseView>>|
        {
            &&& #[trigger] pr::target_resolved(
                before + ui::phase_said(diagnostics, "resolve-target"@),
                mid,
                github.repo,
                target,
                "get"@,
                pr,
            )
            &&& match pr {
                Err(e) => record::stopped(
                    mid,
                    after,
                    error::phase_failure("resolve-target"@, "unfreeze target"@, e),
                    r,
                ),
                Ok(pr) => match unfreeze_fault(config, github, pr) {
                    Some(e) => record::stopped(
                        mid,
                        after,
                        error::phase_failure("resolve-target"@, pr::hash(pr.number), e),
                        r,
                    ),
                    None => adoption_permitted(mid, after, config, github, pr, diagnostics, r),
                },
            }
        }
}

fn target_adoption<H: Host>(
    sh: &mut Shell<H>,
    config: &AppConfig,
    github: &GitHubContext,
    target: &GetTarget,
    diagnostics: Diagnostics,
) -> (r: Result<u64, Error>)
    ensures
        record::extends(old(sh).log(), final(sh).log()),
        adoption_targeted(
            old(sh).log(),
            final(sh).log(),
            config@,
            github@,
            target@,
            diagnostics,
            error::res_of(r),
        ),
{
    let ghost start = sh.log();
    diagnostics.phase(sh, "resolve-target");
    let found = resolve_get_target_pr(sh, github, target);
    let ghost seen = error::res(found);
    assert(pr::target_resolved(
        start + ui::phase_said(diagnostics, "resolve-target"@),
        sh.log(),
        github@.repo,
        target@,
        "get"@,
        seen,
    ));
    let pr = match found {
        Ok(pr) => pr,
        Err(error) => return Err(phase_error("resolve-target", "unfreeze target", error)),
    };
    match validate_unfreeze_pr(config, github, &pr) {
        Err(error) => Err(phase_error("resolve-target", &hash_text(pr.number), error)),
        Ok(_) => permit_adoption(sh, config, github, &pr, diagnostics),
    }
}

/// The record from `before` to `after` holds how a pull request is adopted: it must be open, of this
/// repository and pushable, and its frozen bookmark must not be stale; then its branch is fetched and
/// followed, the bookmarks that keep it immutable are followed too, the frozen bookmark goes, and the
/// head is remembered once jj agrees that it can be rewritten. A dry run changes nothing.
pub open spec fn stack_unfrozen(
    before: Seq<Event>,
    after: Seq<Event>,
    config: AppConfigView,
    target: Seq<char>,
    diagnostics: Diagnostics,
    r: Result<u64, Seq<CauseView>>,
) -> bool {
    exists|mid: Seq<Event>, opened: Result<(GitHubContextView, GetTargetView), Seq<CauseView>>|
        {
            &&& #[trigger] get::target_opened(before, mid, target, diagnostics, opened)
            &&& match opened {
                Err(e) => record::stopped(mid, after, e, r),
                Ok((github, meaning)) => adoption_targeted(
                    mid,
                    after,
                    config,
                    github,
                    meaning,
                    diagnostics,
                    r,
                ),
            }
        }
}

pub fn unfreeze_stack<H: Host>(
    sh: &mut Shell<H>,
    config: &AppConfig,
    target: &str,
    diagnostics: Diagnostics,
) -> (r: Result<u64, Error>)
    ensures
        record::extends(old(sh).log(), final(sh).log()),
        stack_unfrozen(
            old(sh).log(),
            final(sh).log(),
            config@,
            target@,
            diagnostics,
            error::res_of(r),
        ),
{
    let opened = open_target(sh, target, diagnostics);
    assert(get::target_opened(
        old(sh).log(),
        sh.log(),
        target@,
        diagnostics,
        get::opened_parts(opened),
    ));
    match opened {
        Err(error) => Err(error),
        Ok((github, meaning)) => target_adoption(sh, config, &github, &meaning, diagnostics),
    }
}

} // verus!
