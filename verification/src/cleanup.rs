//! Removing the branches of merged pull requests.

use vstd::prelude::*;

use crate::bookmarks;
use crate::bookmarks::{
    LOCAL_BOOKMARK_TEMPLATE, delete_bookmark, forget_bookmark_tracking, git_commit_is_ancestor,
    jj_ref_commit_id, local_stack_bookmarks, push_bookmark_deletions,
};
use crate::context;
use crate::error;
use crate::error::{CauseView, Error, fail};
use crate::model::{AppConfig, AppConfigView, Diagnostics, GitHubContext, GitHubContextView};
use crate::output;
use crate::output::check_output;
use crate::outside;
use crate::outside::read_json_array;
use crate::rebase;
use crate::rebase::{git_rev_parse, remote_git_ref};
use crate::record;
use crate::record::{Event, Reply};
use crate::repo::gh_run;
use crate::shell::Host;
use crate::shell::wire::Shell;
use crate::text;
use crate::text::{cat3, cat5, trimmed, words};
use crate::ui;
use crate::ui::{say_step, ui_finish_progress_bar};

verus! {

broadcast use crate::record::group_record;

// ---------------------------------------------------------------------------
// Which branches still carry open pull requests
// ---------------------------------------------------------------------------

pub open spec fn based_prs_args(repo: Seq<char>, branch: Seq<char>) -> Seq<Seq<char>> {
    seq![
        "pr"@,
        "list"@,
        "--repo"@,
        repo,
        "--base"@,
        branch,
        "--state"@,
        "open"@,
        "--json"@,
        "number"@,
    ]
}

/// Whether the answer lists an open pull request.
pub open spec fn based_result(repo: Seq<char>, branch: Seq<char>, reply: Reply) -> Result<
    bool,
    Seq<CauseView>,
> {
    match output::checked("gh"@, based_prs_args(repo, branch), reply) {
        Err(e) => Err(e),
        Ok(output) => match outside::json_array(text::trim(output.stdout)) {
            Ok(listed) => Ok(listed.len() > 0),
            Err(e) => Err(error::in_context("parse open PRs based on `"@ + branch + "`"@, error::plain(e))),
        },
    }
}

/// Whether an open pull request has this branch as its base. GitHub closes such a pull request when
/// the branch is deleted.
pub fn open_pr_bases_on_branch<H: Host>(
    sh: &mut Shell<H>,
    github: &GitHubContext,
    branch: &str,
) -> (r: Result<bool, Error>)
    ensures
        record::called(old(sh).log(), final(sh).log(), "gh"@, based_prs_args(github@.repo, branch@)),
        error::res_of(r) == based_result(github@.repo, branch@, record::last_reply(final(sh).log())),
{
    let args = words(
        &[
            "pr",
            "list",
            "--repo",
            &github.repo,
            "--base",
            branch,
            "--state",
            "open",
            "--json",
            "number",
        ],
    );
    assert(args.deep_view() =~= based_prs_args(github@.repo, branch@));
    let reply = gh_run(sh, &args);
    match check_output("gh", &args, reply) {
        Err(error) => Err(error),
        Ok(output) => match read_json_array(&trimmed(&output.stdout)) {
            Ok(listed) => Ok(listed.len() > 0),
            Err(message) => Err(
                fail(&message).context(&cat3("parse open PRs based on `", branch, "`")),
            ),
        },
    }
}

// ---------------------------------------------------------------------------
// Sweeping
// ---------------------------------------------------------------------------

pub open spec fn sweep_line(remote: Seq<char>, branch: Seq<char>) -> Seq<char> {
    "- delete merged branch `"@ + branch + "` locally and on `"@ + remote + "`"@
}

pub fn sweep_line_text(remote: &str, branch: &str) -> (r: String)
    ensures
        r@ == sweep_line(remote@, branch@),
{
    cat5("- delete merged branch `", branch, "` locally and on `", remote, "`")
}

/// The record from `before` to `after` holds the removal of a local bookmark, or its plan.
pub open spec fn branch_removed(
    before: Seq<Event>,
    after: Seq<Event>,
    remote: Seq<char>,
    branch: Seq<char>,
    diagnostics: Diagnostics,
    gone: bool,
) -> bool {
    if diagnostics.dry_run {
        after == before + ui::plan_said(diagnostics, sweep_line(remote, branch)) && gone
    } else {
        branch_deleted(before, after, branch, gone)
    }
}

/// The record from `before` to `after` holds the removal of a local bookmark; a failure is logged.
pub open spec fn branch_deleted(
    before: Seq<Event>,
    after: Seq<Event>,
    branch: Seq<char>,
    gone: bool,
) -> bool {
    exists|mid: Seq<Event>|
        {
            let done = output::checked("jj"@, bookmarks::delete_args(branch), record::last_reply(mid));
            &&& #[trigger] record::called(before, mid, "jj"@, bookmarks::delete_args(branch))
            &&& after == mid + ui::failure_logged(
                "could not delete local bookmark `"@ + branch + "`: "@,
                done,
            )
            &&& gone == done is Ok
        }
}

/// What the log tells of a branch that stays.
pub open spec fn kept_logged(branch: Seq<char>, based: Result<bool, Seq<CauseView>>) -> Seq<Event> {
    match based {
        Ok(_) => ui::logged(
            "skipping cleanup of `"@ + branch + "`: an open PR still targets it as its base"@,
        ),
        Err(e) => ui::failure_logged(
            "could not check open PRs basing on `"@ + branch + "`, leaving it: "@,
            based,
        ),
    }
}

/// The record from `before` to `after` holds how one branch is swept: GitHub is asked first, and the
/// branch stays, which is logged, unless the answer shows that no open pull request is based on it.
pub open spec fn branch_swept(
    before: Seq<Event>,
    after: Seq<Event>,
    remote: Seq<char>,
    repo: Seq<char>,
    branch: Seq<char>,
    diagnostics: Diagnostics,
    gone: bool,
) -> bool {
    exists|mid: Seq<Event>|
        {
            &&& #[trigger] record::called(before, mid, "gh"@, based_prs_args(repo, branch))
            &&& if based_result(repo, branch, record::last_reply(mid)) == Ok::<bool, Seq<CauseView>>(false) {
                branch_removed(mid, after, remote, branch, diagnostics, gone)
            } else {
                after == mid + kept_logged(branch, based_result(repo, branch, record::last_reply(mid)))
                    && !gone
            }
        }
}

fn sweep_branch<H: Host>(
    sh: &mut Shell<H>,
    config: &AppConfig,
    github: &GitHubContext,
    branch: &str,
    diagnostics: Diagnostics,
) -> (gone: bool)
    ensures
        record::extends(old(sh).log(), final(sh).log()),
        branch_swept(
            old(sh).log(),
            final(sh).log(),
            config@.remote,
            github@.repo,
            branch@,
            diagnostics,
            gone,
        ),
{
    let based = open_pr_bases_on_branch(sh, github, branch);
    assert(record::called(old(sh).log(), sh.log(), "gh"@, based_prs_args(github@.repo, branch@)));
    match based {
        Ok(true) => {
            diagnostics.warn(
                sh,
                &cat3(
                    "skipping cleanup of `",
                    branch,
                    "`: an open PR still targets it as its base",
                ),
            );
            return false;
        },
        Ok(false) => {},
        Err(error) => {
            let mut message = cat3(
                "could not check open PRs basing on `",
                branch,
                "`, leaving it: ",
            );
            message.append(&error.chain_line());
            diagnostics.warn(sh, &message);
            return false;
        },
    }
    if diagnostics.dry_run {
        diagnostics.plan_line(sh, &sweep_line_text(&config.remote, branch));
        return true;
    }
    delete_branch(sh, branch, diagnostics)
}

fn delete_branch<H: Host>(sh: &mut Shell<H>, branch: &str, diagnostics: Diagnostics) -> (gone: bool)
    requires
        !diagnostics.dry_run,
    ensures
        record::extends(old(sh).log(), final(sh).log()),
        branch_deleted(old(sh).log(), final(sh).log(), branch@, gone),
{
    let done = delete_bookmark(sh, branch, diagnostics);
    let ghost mid = sh.log();
    assert(record::called(old(sh).log(), mid, "jj"@, bookmarks::delete_args(branch@)));
    match done {
        Ok(_) => {
            assert(mid + Seq::<Event>::empty() =~= mid);
            true
        },
        Err(error) => {
            let mut message = cat3("could not delete local bookmark `", branch, "`: ");
            message.append(&error.chain_line());
            diagnostics.warn(sh, &message);
            false
        },
    }
}

/// The record from `before` to `after` holds the sweep of each branch in turn; `gone` are those that
/// are removed.
pub open spec fn branches_swept(
    before: Seq<Event>,
    after: Seq<Event>,
    remote: Seq<char>,
    repo: Seq<char>,
    branches: Seq<Seq<char>>,
    at: int,
    done: Seq<Seq<char>>,
    steps: bool,
    diagnostics: Diagnostics,
    gone: Seq<Seq<char>>,
) -> bool
    decreases branches.len() - at,
{
    if at >= branches.len() {
        after == before && gone == done
    } else {
        exists|mid: Seq<Event>, one: bool|
            {
                &&& #[trigger] branch_swept(
                    before,
                    mid,
                    remote,
                    repo,
                    branches[at],
                    diagnostics,
                    one,
                )
                &&& branches_swept(
                    mid + ui::step_said(steps, (at + 1) as usize),
                    after,
                    remote,
                    repo,
                    branches,
                    at + 1,
                    if one {
                        done.push(branches[at])
                    } else {
                        done
                    },
                    steps,
                    diagnostics,
                    gone,
                )
            }
    }
}

fn sweep_branches<H: Host>(
    sh: &mut Shell<H>,
    config: &AppConfig,
    github: &GitHubContext,
    branches: &Vec<String>,
    at: usize,
    done: Vec<String>,
    steps: bool,
    diagnostics: Diagnostics,
) -> (gone: Vec<String>)
    requires
        at <= branches@.len(),
        done@.len() <= at,
    ensures
        record::extends(old(sh).log(), final(sh).log()),
        gone@.len() <= branches@.len(),
        branches_swept(
            old(sh).log(),
            final(sh).log(),
            config@.remote,
            github@.repo,
            branches.deep_view(),
            at as int,
            done.deep_view(),
            steps,
            diagnostics,
            gone.deep_view(),
        ),
    decreases branches@.len() - at,
{
    let n: usize = branches.len();
    if at == n {
        return done;
    }
    let ghost start = sh.log();
    let ghost before = done.deep_view();
    assert(branches.deep_view()[at as int] == branches@[at as int]@);
    let one = sweep_branch(sh, config, github, &branches[at], diagnostics);
    let ghost mid = sh.log();
    assert(branch_swept(
        start,
        mid,
        config@.remote,
        github@.repo,
        branches.deep_view()[at as int],
        diagnostics,
        one,
    ));
    let mut done = done;
    if one {
        done.push(branches[at].clone());
        assert(done.deep_view() =~= before.push(branches.deep_view()[at as int]));
    }
    say_step(sh, steps, at + 1);
    sweep_branches(sh, config, github, branches, at + 1, done, steps, diagnostics)
}

pub open spec fn all_branches_swept(
    before: Seq<Event>,
    after: Seq<Event>,
    remote: Seq<char>,
    repo: Seq<char>,
    branches: Seq<Seq<char>>,
    diagnostics: Diagnostics,
    gone: Seq<Seq<char>>,
) -> bool {
    branches_swept(
        before + ui::steps_said(diagnostics, "Cleaning"@, "branches"@, branches.len() as usize),
        after,
        remote,
        repo,
        branches,
        0,
        seq![],
        diagnostics.shows_steps(branches.len()),
        diagnostics,
        gone,
    )
}

/// The record from `before` to `after` holds how each branch is forgotten.
pub open spec fn branches_forgotten(
    before: Seq<Event>,
    after: Seq<Event>,
    branches: Seq<Seq<char>>,
    at: int,
) -> bool
    decreases branches.len() - at,
{
    if at >= branches.len() {
        after == before
    } else {
        exists|mid: Seq<Event>|
            {
                &&& #[trigger] record::called(before, mid, "jj"@, bookmarks::forget_args(branches[at]))
                &&& branches_forgotten(mid, after, branches, at + 1)
            }
    }
}

fn forget_branches<H: Host>(
    sh: &mut Shell<H>,
    branches: &Vec<String>,
    at: usize,
    diagnostics: Diagnostics,
)
    requires
        at <= branches@.len(),
        !diagnostics.dry_run,
    ensures
        record::extends(old(sh).log(), final(sh).log()),
        branches_forgotten(old(sh).log(), final(sh).log(), branches.deep_view(), at as int),
    decreases branches@.len() - at,
{
    let n: usize = branches.len();
    if at == n {
        return;
    }
    assert(branches.deep_view()[at as int] == branches@[at as int]@);
    forget_bookmark_tracking(sh, &branches[at], diagnostics);
    assert(record::called(
        old(sh).log(),
        sh.log(),
        "jj"@,
        bookmarks::forget_args(branches.deep_view()[at as int]),
    ));
    forget_branches(sh, branches, at + 1, diagnostics);
}

/// The record from `before` to `after` holds the one push of all the deletions, and then how each
/// branch is forgotten.
pub open spec fn deletions_pushed(
    before: Seq<Event>,
    after: Seq<Event>,
    remote: Seq<char>,
    gone: Seq<Seq<char>>,
) -> bool {
    exists|mid: Seq<Event>|
        {
            &&& #[trigger] record::called(before, mid, "jj"@, bookmarks::deletion_args(remote, gone))
            &&& branches_forgotten(
                mid + ui::failure_logged(
                    "could not push branch deletion(s) to `"@ + remote + "`: "@,
                    output::checked(
                        "jj"@,
                        bookmarks::deletion_args(remote, gone),
                        record::last_reply(mid),
                    ),
                ),
                after,
                gone,
                0,
            )
        }
}

fn push_deletions<H: Host>(
    sh: &mut Shell<H>,
    config: &AppConfig,
    gone: &Vec<String>,
    diagnostics: Diagnostics,
)
    requires
        !diagnostics.dry_run,
    ensures
        record::extends(old(sh).log(), final(sh).log()),
        deletions_pushed(old(sh).log(), final(sh).log(), config@.remote, gone.deep_view()),
{
    let done = push_bookmark_deletions(sh, config, gone);
    let ghost mid = sh.log();
    assert(record::called(
        old(sh).log(),
        mid,
        "jj"@,
        bookmarks::deletion_args(config@.remote, gone.deep_view()),
    ));
    match done {
        Ok(_) => {
            assert(mid + Seq::<Event>::empty() =~= mid);
        },
        Err(error) => {
            let mut message = cat3("could not push branch deletion(s) to `", &config.remote, "`: ");
            message.append(&error.chain_line());
            diagnostics.warn(sh, &message);
        },
    }
    forget_branches(sh, gone, 0, diagnostics);
}

/// The record from `before` to `after` holds the removal of merged branches: each is swept, and what
/// is gone locally is deleted on the remote with one push. Nothing of this can fail.
pub open spec fn merged_branches_cleaned(
    before: Seq<Event>,
    after: Seq<Event>,
    remote: Seq<char>,
    repo: Seq<char>,
    branches: Seq<Seq<char>>,
    diagnostics: Diagnostics,
    r: usize,
) -> bool {
    exists|mid: Seq<Event>, gone: Seq<Seq<char>>|
        {
            let ended = mid + ui::steps_ended(diagnostics.shows_steps(branches.len()));
            &&& #[trigger] all_branches_swept(
                before,
                mid,
                remote,
                repo,
                branches,
                diagnostics,
                gone,
            )
            &&& r == gone.len()
            &&& if diagnostics.dry_run || gone.len() == 0 {
                after == ended
            } else {
                deletions_pushed(ended, after, remote, gone)
            }
        }
}

pub fn cleanup_merged_branches<H: Host>(
    sh: &mut Shell<H>,
    config: &AppConfig,
    github: &GitHubContext,
    branches: &Vec<String>,
    diagnostics: Diagnostics,
) -> (r: usize)
    ensures
        record::extends(old(sh).log(), final(sh).log()),
        merged_branches_cleaned(
            old(sh).log(),
            final(sh).log(),
            config@.remote,
            github@.repo,
            branches.deep_view(),
            diagnostics,
            r,
        ),
{
    let ghost start = sh.log();
    let steps = diagnostics.progress_bar(sh, "Cleaning", "branches", branches.len());
    let none: Vec<String> = Vec::new();
    assert(none.deep_view() =~= Seq::<Seq<char>>::empty());
    let gone = sweep_branches(sh, config, github, branches, 0, none, steps, diagnostics);
    assert(all_branches_swept(
        start,
        sh.log(),
        config@.remote,
        github@.repo,
        branches.deep_view(),
        diagnostics,
        gone.deep_view(),
    ));
    ui_finish_progress_bar(sh, steps);
    if !diagnostics.dry_run && gone.len() > 0 {
        push_deletions(sh, config, &gone, diagnostics);
    }
    gone.len()
}

// ---------------------------------------------------------------------------
// Branches that have landed
// ---------------------------------------------------------------------------

/// The record from `before` to `after` holds the test whether a bookmark has landed in `tip`.
pub open spec fn landing_tested(
    before: Seq<Event>,
    after: Seq<Event>,
    name: Seq<char>,
    tip: Seq<char>,
    r: Result<bool, Seq<CauseView>>,
) -> bool {
    exists|mid: Seq<Event>|
        {
            &&& #[trigger] record::called(before, mid, "jj"@, bookmarks::ref_args(name, "commit_id"@))
            &&& match bookmarks::ref_commit_result(name, record::last_reply(mid)) {
                Err(e) => record::stopped(mid, after, e, r),
                Ok(commit) => record::called(mid, after, "git"@, bookmarks::ancestor_args(commit, tip)) && r
                    == bookmarks::success_of(record::last_reply(after)),
            }
        }
}

fn test_landing<H: Host>(sh: &mut Shell<H>, name: &str, tip: &str) -> (r: Result<bool, Error>)
    ensures
        record::extends(old(sh).log(), final(sh).log()),
        landing_tested(old(sh).log(), final(sh).log(), name@, tip@, error::res_of(r)),
{
    let found = jj_ref_commit_id(sh, name);
    assert(record::called(old(sh).log(), sh.log(), "jj"@, bookmarks::ref_args(name@, "commit_id"@)));
    match found {
        Err(error) => Err(error),
        Ok(commit) => git_commit_is_ancestor(sh, &commit, tip),
    }
}

/// The record from `before` to `after` holds the test of each bookmark in turn.
pub open spec fn landings_tested(
    before: Seq<Event>,
    after: Seq<Event>,
    names: Seq<Seq<char>>,
    at: int,
    tip: Seq<char>,
    landed: Seq<Seq<char>>,
    r: Result<Seq<Seq<char>>, Seq<CauseView>>,
) -> bool
    decreases names.len() - at,
{
    if at >= names.len() {
        after == before && r == Ok::<_, Seq<CauseView>>(landed)
    } else {
        exists|mid: Seq<Event>, got: Result<bool, Seq<CauseView>>|
            {
                &&& #[trigger] landing_tested(before, mid, names[at], tip, got)
                &&& match got {
                    Err(e) => record::stopped(mid, after, e, r),
                    Ok(one) => landings_tested(
                        mid,
                        after,
                        names,
                        at + 1,
                        tip,
                        if one {
                            landed.push(names[at])
                        } else {
                            landed
                        },
                        r,
                    ),
                }
            }
    }
}

fn test_landings<H: Host>(
    sh: &mut Shell<H>,
    names: &Vec<String>,
    at: usize,
    tip: &str,
    landed: Vec<String>,
) -> (r: Result<Vec<String>, Error>)
    requires
        at <= names@.len(),
    ensures
        record::extends(old(sh).log(), final(sh).log()),
        landings_tested(
            old(sh).log(),
            final(sh).log(),
            names.deep_view(),
            at as int,
            tip@,
            landed.deep_view(),
            error::res(r),
        ),
    decreases names@.len() - at,
{
    let n: usize = names.len();
    if at == n {
        return Ok(landed);
    }
    let ghost start = sh.log();
    let ghost before = landed.deep_view();
    assert(names.deep_view()[at as int] == names@[at as int]@);
    let got = test_landing(sh, &names[at], tip);
    let ghost seen = error::res_of(got);
    assert(landing_tested(start, sh.log(), names.deep_view()[at as int], tip@, seen));
    let one = match got {
        Ok(one) => one,
        Err(error) => return Err(error),
    };
    let mut landed = landed;
    if one {
        landed.push(names[at].clone());
        assert(landed.deep_view() =~= before.push(names.deep_view()[at as int]));
    }
    test_landings(sh, names, at + 1, tip, landed)
}

pub open spec fn all_landings_tested(
    before: Seq<Event>,
    after: Seq<Event>,
    names: Seq<Seq<char>>,
    tip: Seq<char>,
    r: Result<Seq<Seq<char>>, Seq<CauseView>>,
) -> bool {
    landings_tested(before, after, names, 0, tip, seq![], r)
}

/// The record from `before` to `after` holds the removal of what has landed.
pub open spec fn landed_swept(
    before: Seq<Event>,
    after: Seq<Event>,
    remote: Seq<char>,
    landed: Seq<Seq<char>>,
    diagnostics: Diagnostics,
    r: Result<usize, Seq<CauseView>>,
) -> bool {
    exists|mid: Seq<Event>, github: Result<GitHubContextView, Seq<CauseView>>|
        {
            &&& #[trigger] context::github_resolved(before, mid, github)
            &&& match github {
                Err(e) => record::stopped(
                    mid,
                    after,
                    error::in_context("resolve GitHub repository for merged-branch cleanup"@, e),
                    r,
                ),
                Ok(github) => landed_cleaned(
                    mid,
                    after,
                    remote,
                    github.repo,
                    landed,
                    diagnostics,
                    r,
                ),
            }
        }
}

pub open spec fn landed_cleaned(
    before: Seq<Event>,
    after: Seq<Event>,
    remote: Seq<char>,
    repo: Seq<char>,
    landed: Seq<Seq<char>>,
    diagnostics: Diagnostics,
    r: Result<usize, Seq<CauseView>>,
) -> bool {
    r is Ok && merged_branches_cleaned(before, after, remote, repo, landed, diagnostics, r->Ok_0)
}

fn sweep_landed<H: Host>(
    sh: &mut Shell<H>,
    config: &AppConfig,
    landed: &Vec<String>,
    diagnostics: Diagnostics,
) -> (r: Result<usize, Error>)
    ensures
        record::extends(old(sh).log(), final(sh).log()),
        landed_swept(
            old(sh).log(),
            final(sh).log(),
            config@.remote,
            landed.deep_view(),
            diagnostics,
            error::res_of(r),
        ),
{
    let github = GitHubContext::resolve(sh);
    let ghost seen = error::res(github);
    assert(context::github_resolved(old(sh).log(), sh.log(), seen));
    match github {
        Err(error) => Err(
            error.context("resolve GitHub repository for merged-branch cleanup"),
        ),
        Ok(github) => Ok(cleanup_merged_branches(sh, config, &github, landed, diagnostics)),
    }
}

/// The record from `before` to `after` holds the search for bookmarks that have landed in `tip`, and
/// their removal.
pub open spec fn landed_found(
    before: Seq<Event>,
    after: Seq<Event>,
    remote: Seq<char>,
    names: Seq<Seq<char>>,
    tip: Seq<char>,
    diagnostics: Diagnostics,
    r: Result<usize, Seq<CauseView>>,
) -> bool {
    exists|mid: Seq<Event>, landed: Result<Seq<Seq<char>>, Seq<CauseView>>|
        {
            &&& #[trigger] all_landings_tested(before, mid, names, tip, landed)
            &&& match landed {
                Err(e) => record::stopped(mid, after, e, r),
                Ok(landed) => if landed.len() == 0 {
                    after == mid && r == Ok::<usize, Seq<CauseView>>(0)
                } else {
                    landed_swept(mid, after, remote, landed, diagnostics, r)
                },
            }
        }
}

fn find_landed<H: Host>(
    sh: &mut Shell<H>,
    config: &AppConfig,
    names: &Vec<String>,
    tip: &str,
    diagnostics: Diagnostics,
) -> (r: Result<usize, Error>)
    ensures
        record::extends(old(sh).log(), final(sh).log()),
        landed_found(
            old(sh).log(),
            final(sh).log(),
            config@.remote,
            names.deep_view(),
            tip@,
            diagnostics,
            error::res_of(r),
        ),
{
    let none: Vec<String> = Vec::new();
    assert(none.deep_view() =~= Seq::<Seq<char>>::empty());
    let found = test_landings(sh, names, 0, tip, none);
    let ghost seen = error::res(found);
    assert(all_landings_tested(old(sh).log(), sh.log(), names.deep_view(), tip@, seen));
    match found {
        Err(error) => Err(error),
        Ok(landed) => {
            let n: usize = landed.len();
            if n == 0 {
                return Ok(0);
            }
            sweep_landed(sh, config, &landed, diagnostics)
        },
    }
}

/// The record from `before` to `after` holds the lookup of the remote trunk and what follows.
pub open spec fn tip_looked_up(
    before: Seq<Event>,
    after: Seq<Event>,
    config: AppConfigView,
    names: Seq<Seq<char>>,
    diagnostics: Diagnostics,
    r: Result<usize, Seq<CauseView>>,
) -> bool {
    exists|mid: Seq<Event>|
        {
            &&& #[trigger] record::called(before, mid, "git"@, rebase::rev_parse_args(rebase::git_ref_of(config)))
            &&& match rebase::rev_parse_result(rebase::git_ref_of(config), record::last_reply(mid)) {
                Err(e) => record::stopped(mid, after, e, r),
                Ok(tip) => landed_found(mid, after, config.remote, names, tip, diagnostics, r),
            }
        }
}

fn look_up_tip<H: Host>(
    sh: &mut Shell<H>,
    config: &AppConfig,
    names: &Vec<String>,
    diagnostics: Diagnostics,
) -> (r: Result<usize, Error>)
    ensures
        record::extends(old(sh).log(), final(sh).log()),
        tip_looked_up(
            old(sh).log(),
            final(sh).log(),
            config@,
            names.deep_view(),
            diagnostics,
            error::res_of(r),
        ),
{
    let tip = git_rev_parse(sh, &remote_git_ref(config));
    assert(record::called(old(sh).log(), sh.log(), "git"@, rebase::rev_parse_args(rebase::git_ref_of(config@))));
    match tip {
        Err(error) => Err(error),
        Ok(tip) => find_landed(sh, config, names, &tip, diagnostics),
    }
}

/// The record from `before` to `after` holds the query for all local bookmarks of stacks.
pub open spec fn stack_names_listed(
    before: Seq<Event>,
    after: Seq<Event>,
    config: AppConfigView,
    names: Result<Seq<Seq<char>>, Seq<CauseView>>,
) -> bool {
    &&& record::called(before, after, "jj"@, bookmarks::local_list_args(LOCAL_BOOKMARK_TEMPLATE@))
    &&& bookmarks::is_stack_name_list(
        names,
        bookmarks::local_list_args(LOCAL_BOOKMARK_TEMPLATE@),
        record::last_reply(after),
        config,
    )
}

/// The record from `before` to `after` holds the removal of every stack branch whose commit is already
/// an ancestor of the remote trunk.
pub open spec fn landed_branches_cleaned(
    before: Seq<Event>,
    after: Seq<Event>,
    config: AppConfigView,
    diagnostics: Diagnostics,
    r: Result<usize, Seq<CauseView>>,
) -> bool {
    exists|mid: Seq<Event>, names: Result<Seq<Seq<char>>, Seq<CauseView>>|
        {
            &&& #[trigger] stack_names_listed(before, mid, config, names)
            &&& match names {
                Err(e) => record::stopped(mid, after, e, r),
                Ok(names) => if names.len() == 0 {
                    after == mid && r == Ok::<usize, Seq<CauseView>>(0)
                } else {
                    tip_looked_up(mid, after, config, names, diagnostics, r)
                },
            }
        }
}

pub fn cleanup_landed_branches<H: Host>(
    sh: &mut Shell<H>,
    config: &AppConfig,
    diagnostics: Diagnostics,
) -> (r: Result<usize, Error>)
    ensures
        record::extends(old(sh).log(), final(sh).log()),
        landed_branches_cleaned(
            old(sh).log(),
            final(sh).log(),
            config@,
            diagnostics,
            error::res_of(r),
        ),
{
    let listed = local_stack_bookmarks(sh, config);
    let ghost seen = error::res(listed);
    assert(stack_names_listed(old(sh).log(), sh.log(), config@, seen));
    match listed {
        Err(error) => Err(error),
        Ok(names) => {
            let n: usize = names.len();
            if n == 0 {
                return Ok(0);
            }
            look_up_tip(sh, config, &names, diagnostics)
        },
    }
}

// ---------------------------------------------------------------------------
// The law of safe deletion
// ---------------------------------------------------------------------------

/// GitHub answered that no open pull request is based on the branch.
pub open spec fn is_unbased_answer(event: Event, repo: Seq<char>, branch: Seq<char>) -> bool {
    record::is_call(event, "gh"@, based_prs_args(repo, branch)) && based_result(repo, branch, record::reply_of(event))
        == Ok::<bool, Seq<CauseView>>(false)
}

/// From the meeting `start` on and before the meeting `i`, GitHub answered that no open pull request is
/// based on the branch.
pub open spec fn known_unbased(
    log: Seq<Event>,
    start: int,
    i: int,
    repo: Seq<char>,
    branch: Seq<char>,
) -> bool {
    exists|j: int| start <= j < i && is_unbased_answer(#[trigger] log[j], repo, branch)
}

/// If the meeting `i` deletes branches, here or on the remote, each of them was known to be unbased.
pub open spec fn deletes_safely(
    log: Seq<Event>,
    start: int,
    i: int,
    remote: Seq<char>,
    repo: Seq<char>,
) -> bool {
    &&& forall|branch: Seq<char>| #[trigger]
        record::is_call(log[i], "jj"@, bookmarks::delete_args(branch)) ==> known_unbased(log, start, i, repo, branch)
    &&& forall|branches: Seq<Seq<char>>, k: int|
        #![trigger record::is_call(log[i], "jj"@, bookmarks::deletion_args(remote, branches)), branches[k]]
        record::is_call(log[i], "jj"@, bookmarks::deletion_args(remote, branches)) && 0 <= k < branches.len()
            ==> known_unbased(log, start, i, repo, branches[k])
}

spec fn safe_from(log: Seq<Event>, start: int, remote: Seq<char>, repo: Seq<char>) -> bool {
    forall|i: int|
        start <= i < log.len() ==> #[trigger] deletes_safely(log, start, i, remote, repo)
}

spec fn all_unbased(log: Seq<Event>, start: int, repo: Seq<char>, branches: Seq<Seq<char>>) -> bool {
    forall|k: int|
        0 <= k < branches.len() ==> known_unbased(
            log,
            start,
            log.len() as int,
            repo,
            #[trigger] branches[k],
        )
}

proof fn lemma_unbased_extends(
    log: Seq<Event>,
    more: Seq<Event>,
    start: int,
    i: int,
    repo: Seq<char>,
    branch: Seq<char>,
)
    requires
        known_unbased(log, start, i, repo, branch),
        0 <= start,
        i <= log.len(),
        record::extends(log, more),
    ensures
        known_unbased(more, start, i, repo, branch),
{
    let j = choose|j: int| start <= j < i && is_unbased_answer(#[trigger] log[j], repo, branch);
    assert(more.take(log.len() as int)[j] == log[j]);
    assert(more[j] == log[j]);
}

proof fn lemma_all_unbased_extends(
    log: Seq<Event>,
    more: Seq<Event>,
    start: int,
    repo: Seq<char>,
    branches: Seq<Seq<char>>,
)
    requires
        all_unbased(log, start, repo, branches),
        0 <= start,
        record::extends(log, more),
    ensures
        all_unbased(more, start, repo, branches),
{
    assert forall|k: int| 0 <= k < branches.len() implies known_unbased(
        more,
        start,
        more.len() as int,
        repo,
        #[trigger] branches[k],
    ) by {
        lemma_unbased_extends(log, more, start, log.len() as int, repo, branches[k]);
        let j = choose|j: int|
            start <= j < log.len() && is_unbased_answer(#[trigger] more[j], repo, branches[k]);
        assert(start <= j < more.len() && is_unbased_answer(more[j], repo, branches[k]));
    }
}

/// One more meeting keeps the record safe if it deletes only what was known to be unbased.
proof fn lemma_safe_push(
    log: Seq<Event>,
    after: Seq<Event>,
    start: int,
    remote: Seq<char>,
    repo: Seq<char>,
)
    requires
        0 <= start <= log.len(),
        safe_from(log, start, remote, repo),
        after.len() == log.len() + 1,
        after.drop_last() == log,
        deletes_safely(after, start, log.len() as int, remote, repo),
    ensures
        safe_from(after, start, remote, repo),
        record::extends(log, after),
{
    assert(after.take(log.len() as int) =~= log);
    assert forall|i: int| start <= i < after.len() implies #[trigger] deletes_safely(
        after,
        start,
        i,
        remote,
        repo,
    ) by {
        if i < log.len() {
            assert(after[i] == after.drop_last()[i]);
            assert(after[i] == log[i]);
            assert(deletes_safely(log, start, i, remote, repo));
            assert forall|branch: Seq<char>| #[trigger]
                record::is_call(after[i], "jj"@, bookmarks::delete_args(branch)) implies known_unbased(
                after,
                start,
                i,
                repo,
                branch,
            ) by {
                assert(record::is_call(log[i], "jj"@, bookmarks::delete_args(branch)));
                lemma_unbased_extends(log, after, start, i, repo, branch);
            }
            assert forall|branches: Seq<Seq<char>>, k: int|
                #![trigger record::is_call(after[i], "jj"@, bookmarks::deletion_args(remote, branches)), branches[k]]
                record::is_call(after[i], "jj"@, bookmarks::deletion_args(remote, branches)) && 0 <= k
                    < branches.len() implies known_unbased(after, start, i, repo, branches[k]) by {
                assert(record::is_call(log[i], "jj"@, bookmarks::deletion_args(remote, branches)));
                lemma_unbased_extends(log, after, start, i, repo, branches[k]);
            }
        }
    }
}

proof fn lemma_deletion_args_len(remote: Seq<char>, branches: Seq<Seq<char>>)
    ensures
        bookmarks::deletion_args(remote, branches).len() == 4 + 2 * branches.len(),
    decreases branches.len(),
{
    if branches.len() > 0 {
        lemma_deletion_args_len(remote, branches.drop_last());
    }
}

proof fn lemma_deletion_args_name(remote: Seq<char>, a: Seq<Seq<char>>, b: Seq<Seq<char>>)
    requires
        bookmarks::deletion_args(remote, a) == bookmarks::deletion_args(remote, b),
    ensures
        a == b,
    decreases a.len(),
{
    lemma_deletion_args_len(remote, a);
    lemma_deletion_args_len(remote, b);
    if a.len() > 0 {
        let x = bookmarks::deletion_args(remote, a);
        let y = bookmarks::deletion_args(remote, b);
        let xa = bookmarks::deletion_args(remote, a.drop_last());
        let yb = bookmarks::deletion_args(remote, b.drop_last());
        assert(x == xa.push("--bookmark"@).push(a.last()));
        assert(y == yb.push("--bookmark"@).push(b.last()));
        assert(x.last() == a.last() && y.last() == b.last());
        assert(x.drop_last().drop_last() =~= xa);
        assert(y.drop_last().drop_last() =~= yb);
        lemma_deletion_args_name(remote, a.drop_last(), b.drop_last());
        assert(a =~= a.drop_last().push(a.last()));
        assert(b =~= b.drop_last().push(b.last()));
    } else {
        assert(a =~= b);
    }
}

/// A line of output, a failed search, a call of `gh` and a call of `jj` that only forgets delete nothing.
proof fn lemma_harmless(log: Seq<Event>, start: int, i: int, remote: Seq<char>, repo: Seq<char>)
    requires
        0 <= i < log.len(),
        log[i] is Said || log[i] is Lost || (log[i] is Call && log[i]->Call_program == "gh"@) || (exists|
            branch: Seq<char>,
        |
            record::is_call(log[i], "jj"@, #[trigger] bookmarks::forget_args(branch))),
    ensures
        deletes_safely(log, start, i, remote, repo),
{
    broadcast use crate::record::lemma_jj_call;

    reveal_strlit("gh");
    reveal_strlit("jj");
    assert("gh"@[0] != "jj"@[0]);
    assert forall|branch: Seq<char>| !#[trigger] record::is_call(
        log[i],
        "jj"@,
        bookmarks::delete_args(branch),
    ) by {
        if record::is_call(log[i], "jj"@, bookmarks::delete_args(branch)) {
            let other = choose|other: Seq<char>|
                record::is_call(log[i], "jj"@, #[trigger] bookmarks::forget_args(other));
            assert(bookmarks::delete_args(branch).len() == 3);
            assert(bookmarks::forget_args(other).len() == 4);
        }
    }
    assert forall|branches: Seq<Seq<char>>| #[trigger]
        record::is_call(log[i], "jj"@, bookmarks::deletion_args(remote, branches)) implies branches.len() == 0 by {
        lemma_deletion_args_len(remote, branches);
    }
}

proof fn lemma_safe_said(
    log: Seq<Event>,
    more: Seq<Event>,
    start: int,
    remote: Seq<char>,
    repo: Seq<char>,
)
    requires
        0 <= start <= log.len(),
        safe_from(log, start, remote, repo),
        more.len() <= 1,
        more.len() == 1 ==> more[0] is Said,
    ensures
        safe_from(log + more, start, remote, repo),
        record::extends(log, log + more),
{
    if more.len() == 0 {
        assert(log + more =~= log);
    } else {
        let after = log + more;
        assert(after.drop_last() =~= log);
        lemma_harmless(after, start, log.len() as int, remote, repo);
        lemma_safe_push(log, after, start, remote, repo);
    }
}

proof fn lemma_branch_deleted(
    before: Seq<Event>,
    after: Seq<Event>,
    start: int,
    remote: Seq<char>,
    repo: Seq<char>,
    branch: Seq<char>,
    gone: bool,
)
    requires
        0 <= start <= before.len(),
        safe_from(before, start, remote, repo),
        known_unbased(before, start, before.len() as int, repo, branch),
        branch_deleted(before, after, branch, gone),
    ensures
        safe_from(after, start, remote, repo),
        record::extends(before, after),
{
    let mid = choose|mid: Seq<Event>|
        {
            let done = output::checked("jj"@, bookmarks::delete_args(branch), record::last_reply(mid));
            &&& #[trigger] record::called(before, mid, "jj"@, bookmarks::delete_args(branch))
            &&& after == mid + ui::failure_logged(
                "could not delete local bookmark `"@ + branch + "`: "@,
                done,
            )
            &&& gone == done is Ok
        };
    assert(record::extends(before, mid));
    lemma_unbased_extends(before, mid, start, before.len() as int, repo, branch);
    let at = before.len() as int;
    assert(mid[at] == mid.last());
    assert forall|other: Seq<char>| #[trigger]
        record::is_call(mid[at], "jj"@, bookmarks::delete_args(other)) implies known_unbased(
        mid,
        start,
        at,
        repo,
        other,
    ) by {
        assert(bookmarks::delete_args(other)[2] == bookmarks::delete_args(branch)[2]);
    }
    assert forall|branches: Seq<Seq<char>>| !#[trigger] record::is_call(
        mid[at],
        "jj"@,
        bookmarks::deletion_args(remote, branches),
    ) by {
        lemma_deletion_args_len(remote, branches);
    }
    assert(deletes_safely(mid, start, at, remote, repo));
    lemma_safe_push(before, mid, start, remote, repo);
    lemma_safe_said(
        mid,
        ui::failure_logged(
            "could not delete local bookmark `"@ + branch + "`: "@,
            output::checked("jj"@, bookmarks::delete_args(branch), record::last_reply(mid)),
        ),
        start,
        remote,
        repo,
    );
}

proof fn lemma_branch_swept(
    before: Seq<Event>,
    after: Seq<Event>,
    start: int,
    remote: Seq<char>,
    repo: Seq<char>,
    branch: Seq<char>,
    diagnostics: Diagnostics,
    gone: bool,
)
    requires
        0 <= start <= before.len(),
        safe_from(before, start, remote, repo),
        branch_swept(before, after, remote, repo, branch, diagnostics, gone),
    ensures
        safe_from(after, start, remote, repo),
        record::extends(before, after),
        gone ==> known_unbased(after, start, after.len() as int, repo, branch),
{
    let mid = choose|mid: Seq<Event>|
        {
            &&& #[trigger] record::called(before, mid, "gh"@, based_prs_args(repo, branch))
            &&& if based_result(repo, branch, record::last_reply(mid)) == Ok::<bool, Seq<CauseView>>(false) {
                branch_removed(mid, after, remote, branch, diagnostics, gone)
            } else {
                after == mid + kept_logged(branch, based_result(repo, branch, record::last_reply(mid)))
                    && !gone
            }
        };
    let n = before.len() as int;
    assert(mid[n] == mid.last());
    lemma_harmless(mid, start, n, remote, repo);
    lemma_safe_push(before, mid, start, remote, repo);
    if based_result(repo, branch, record::last_reply(mid)) == Ok::<bool, Seq<CauseView>>(false) {
        assert(is_unbased_answer(mid[n], repo, branch));
        assert(known_unbased(mid, start, mid.len() as int, repo, branch));
        if diagnostics.dry_run {
            lemma_safe_said(
                mid,
                ui::plan_said(diagnostics, sweep_line(remote, branch)),
                start,
                remote,
                repo,
            );
            lemma_unbased_extends(mid, after, start, mid.len() as int, repo, branch);
        } else {
            lemma_branch_deleted(mid, after, start, remote, repo, branch, gone);
            lemma_unbased_extends(mid, after, start, mid.len() as int, repo, branch);
        }
        let j = choose|j: int|
            start <= j < mid.len() && is_unbased_answer(#[trigger] after[j], repo, branch);
        assert(start <= j < after.len() && is_unbased_answer(after[j], repo, branch));
    } else {
        let told = kept_logged(branch, based_result(repo, branch, record::last_reply(mid)));
        lemma_safe_said(mid, told, start, remote, repo);
    }
}

proof fn lemma_branches_swept(
    before: Seq<Event>,
    after: Seq<Event>,
    start: int,
    remote: Seq<char>,
    repo: Seq<char>,
    branches: Seq<Seq<char>>,
    at: int,
    done: Seq<Seq<char>>,
    steps: bool,
    diagnostics: Diagnostics,
    gone: Seq<Seq<char>>,
)
    requires
        0 <= at,
        0 <= start <= before.len(),
        safe_from(before, start, remote, repo),
        all_unbased(before, start, repo, done),
        branches_swept(
            before,
            after,
            remote,
            repo,
            branches,
            at,
            done,
            steps,
            diagnostics,
            gone,
        ),
    ensures
        safe_from(after, start, remote, repo),
        record::extends(before, after),
        all_unbased(after, start, repo, gone),
    decreases branches.len() - at,
{
    if at < branches.len() {
        let (mid, one) = choose|mid: Seq<Event>, one: bool|
            {
                &&& #[trigger] branch_swept(
                    before,
                    mid,
                    remote,
                    repo,
                    branches[at],
                    diagnostics,
                    one,
                )
                &&& branches_swept(
                    mid + ui::step_said(steps, (at + 1) as usize),
                    after,
                    remote,
                    repo,
                    branches,
                    at + 1,
                    if one {
                        done.push(branches[at])
                    } else {
                        done
                    },
                    steps,
                    diagnostics,
                    gone,
                )
            };
        lemma_branch_swept(
            before,
            mid,
            start,
            remote,
            repo,
            branches[at],
            diagnostics,
            one,
        );
        lemma_all_unbased_extends(before, mid, start, repo, done);
        let next = if one {
            done.push(branches[at])
        } else {
            done
        };
        assert(all_unbased(mid, start, repo, next));
        let told = mid + ui::step_said(steps, (at + 1) as usize);
        lemma_safe_said(mid, ui::step_said(steps, (at + 1) as usize), start, remote, repo);
        lemma_all_unbased_extends(mid, told, start, repo, next);
        lemma_branches_swept(
            told,
            after,
            start,
            remote,
            repo,
            branches,
            at + 1,
            next,
            steps,
            diagnostics,
            gone,
        );
    }
}

proof fn lemma_branches_forgotten(
    before: Seq<Event>,
    after: Seq<Event>,
    start: int,
    remote: Seq<char>,
    repo: Seq<char>,
    branches: Seq<Seq<char>>,
    at: int,
)
    requires
        0 <= at,
        0 <= start <= before.len(),
        safe_from(before, start, remote, repo),
        branches_forgotten(before, after, branches, at),
    ensures
        safe_from(after, start, remote, repo),
    decreases branches.len() - at,
{
    if at < branches.len() {
        let mid = choose|mid: Seq<Event>|
            {
                &&& #[trigger] record::called(before, mid, "jj"@, bookmarks::forget_args(branches[at]))
                &&& branches_forgotten(mid, after, branches, at + 1)
            };
        assert(mid[before.len() as int] == mid.last());
        assert(record::is_call(mid[before.len() as int], "jj"@, bookmarks::forget_args(branches[at])));
        lemma_harmless(mid, start, before.len() as int, remote, repo);
        lemma_safe_push(before, mid, start, remote, repo);
        lemma_branches_forgotten(mid, after, start, remote, repo, branches, at + 1);
    }
}

proof fn lemma_deletions_pushed(
    ended: Seq<Event>,
    after: Seq<Event>,
    start: int,
    remote: Seq<char>,
    repo: Seq<char>,
    gone: Seq<Seq<char>>,
)
    requires
        0 <= start <= ended.len(),
        safe_from(ended, start, remote, repo),
        all_unbased(ended, start, repo, gone),
        deletions_pushed(ended, after, remote, gone),
    ensures
        safe_from(after, start, remote, repo),
{
    let pushed = choose|pushed: Seq<Event>|
        {
            &&& #[trigger] record::called(ended, pushed, "jj"@, bookmarks::deletion_args(remote, gone))
            &&& branches_forgotten(
                pushed + ui::failure_logged(
                    "could not push branch deletion(s) to `"@ + remote + "`: "@,
                    output::checked(
                        "jj"@,
                        bookmarks::deletion_args(remote, gone),
                        record::last_reply(pushed),
                    ),
                ),
                after,
                gone,
                0,
            )
        };
    let at = ended.len() as int;
    assert(record::extends(ended, pushed));
    assert(pushed[at] == pushed.last());
    lemma_deletion_args_len(remote, gone);
    assert forall|branch: Seq<char>| !#[trigger] record::is_call(
        pushed[at],
        "jj"@,
        bookmarks::delete_args(branch),
    ) by {}
    assert forall|names: Seq<Seq<char>>, k: int|
        #![trigger record::is_call(pushed[at], "jj"@, bookmarks::deletion_args(remote, names)), names[k]]
        record::is_call(pushed[at], "jj"@, bookmarks::deletion_args(remote, names)) && 0 <= k
            < names.len() implies known_unbased(pushed, start, at, repo, names[k]) by {
        lemma_deletion_args_name(remote, names, gone);
        assert(known_unbased(ended, start, at, repo, gone[k]));
        lemma_unbased_extends(ended, pushed, start, at, repo, gone[k]);
    }
    assert(deletes_safely(pushed, start, at, remote, repo));
    lemma_safe_push(ended, pushed, start, remote, repo);
    let told = ui::failure_logged(
        "could not push branch deletion(s) to `"@ + remote + "`: "@,
        output::checked(
            "jj"@,
            bookmarks::deletion_args(remote, gone),
            record::last_reply(pushed),
        ),
    );
    lemma_safe_said(pushed, told, start, remote, repo);
    lemma_branches_forgotten(pushed + told, after, start, remote, repo, gone, 0);
}

/// The law of safe deletion: no removal of merged branches deletes a branch, here or on the remote,
/// before GitHub has answered that no open pull request is based on it. So none is ever closed by the
/// loss of its base.
pub proof fn law_only_unbased_branches_go(
    before: Seq<Event>,
    after: Seq<Event>,
    remote: Seq<char>,
    repo: Seq<char>,
    branches: Seq<Seq<char>>,
    diagnostics: Diagnostics,
    r: usize,
)
    requires
        merged_branches_cleaned(before, after, remote, repo, branches, diagnostics, r),
    ensures
        forall|i: int|
            before.len() <= i < after.len() ==> #[trigger] deletes_safely(
                after,
                before.len() as int,
                i,
                remote,
                repo,
            ),
{
    let start = before.len() as int;
    let shown = diagnostics.shows_steps(branches.len());
    let (mid, gone) = choose|mid: Seq<Event>, gone: Seq<Seq<char>>|
        {
            let ended = mid + ui::steps_ended(shown);
            &&& #[trigger] all_branches_swept(
                before,
                mid,
                remote,
                repo,
                branches,
                diagnostics,
                gone,
            )
            &&& r == gone.len()
            &&& if diagnostics.dry_run || gone.len() == 0 {
                after == ended
            } else {
                deletions_pushed(ended, after, remote, gone)
            }
        };
    let first = before + ui::steps_said(diagnostics, "Cleaning"@, "branches"@, branches.len() as usize);
    lemma_safe_said(
        before,
        ui::steps_said(diagnostics, "Cleaning"@, "branches"@, branches.len() as usize),
        start,
        remote,
        repo,
    );
    lemma_branches_swept(
        first,
        mid,
        start,
        remote,
        repo,
        branches,
        0,
        seq![],
        shown,
        diagnostics,
        gone,
    );
    let ended = mid + ui::steps_ended(shown);
    lemma_safe_said(mid, ui::steps_ended(shown), start, remote, repo);
    lemma_all_unbased_extends(mid, ended, start, repo, gone);
    if !(diagnostics.dry_run || gone.len() == 0) {
        lemma_deletions_pushed(ended, after, start, remote, repo, gone);
    }
}

} // verus!
