//! Moving trunk, here and on the remote.

use vstd::prelude::*;

use crate::bookmarks;
use crate::bookmarks::{git_commit_is_ancestor, remote_bookmark_status, track_remote_bookmark};
use crate::config::CONFIG_PREFIX;
use crate::error;
use crate::error::{CauseView, Error, fail};
use crate::get;
use crate::model::{AppConfig, AppConfigView, Diagnostics, GitHubContext};
use crate::output;
use crate::output::{check_output, display_command};
use crate::rebase;
use crate::rebase::{git_rev_parse, remote_git_ref, remote_jj_ref};
use crate::record;
use crate::record::{Event, LineView, Reply};
use crate::repo::gh_run;
use crate::shell::{Host, Line, jj_checked, run_required};
use crate::shell::wire::Shell;
use crate::text;
use crate::text::{cat, cat3, cat5, cat7, number_text, same, words};
use crate::ui;

verus! {

broadcast use crate::record::group_record;

/// What a command that must succeed leaves of its answer.
pub open spec fn done_or_failed(program: Seq<char>, args: Seq<Seq<char>>, reply: Reply) -> Result<
    (),
    Seq<CauseView>,
> {
    match output::checked(program, args, reply) {
        Ok(output) => Ok(()),
        Err(e) => Err(e),
    }
}

// ---------------------------------------------------------------------------
// The base of a pull request
// ---------------------------------------------------------------------------

pub open spec fn repoint_args(repo: Seq<char>, number: u64, trunk: Seq<char>) -> Seq<Seq<char>> {
    seq![
        "api"@,
        "-X"@,
        "PATCH"@,
        "repos/"@ + repo + "/pulls/"@ + text::decimal(number as nat),
        "-f"@,
        "base="@ + trunk,
    ]
}

/// The record from `before` to `after` holds the request that makes trunk the base of a pull request,
/// or its plan.
pub open spec fn base_repointed(
    before: Seq<Event>,
    after: Seq<Event>,
    repo: Seq<char>,
    number: u64,
    trunk: Seq<char>,
    diagnostics: Diagnostics,
    r: Result<(), Seq<CauseView>>,
) -> bool {
    let args = repoint_args(repo, number, trunk);
    if diagnostics.dry_run {
        after == before + ui::plan_said(diagnostics, "- "@ + output::shown("gh"@, args)) && r == Ok::<
            (),
            Seq<CauseView>,
        >(())
    } else {
        record::called(before, after, "gh"@, args) && r == done_or_failed("gh"@, args, record::last_reply(after))
    }
}

/// Makes trunk the base of a pull request, so that GitHub takes a push of trunk for its merge.
pub fn repoint_pr_base<H: Host>(
    sh: &mut Shell<H>,
    github: &GitHubContext,
    pr_number: u64,
    trunk: &str,
    diagnostics: Diagnostics,
) -> (r: Result<(), Error>)
    ensures
        record::extends(old(sh).log(), final(sh).log()),
        base_repointed(
            old(sh).log(),
            final(sh).log(),
            github@.repo,
            pr_number,
            trunk@,
            diagnostics,
            error::res_of(r),
        ),
{
    let mut endpoint = cat3("repos/", &github.repo, "/pulls/");
    endpoint.append(&number_text(pr_number));
    let base = cat("base=", trunk);
    let args = words(&["api", "-X", "PATCH", &endpoint, "-f", &base]);
    assert(args.deep_view() =~= repoint_args(github@.repo, pr_number, trunk@));
    if diagnostics.dry_run {
        diagnostics.plan_line(sh, &cat("- ", &display_command("gh", &args)));
        return Ok(());
    }
    let reply = gh_run(sh, &args);
    match check_output("gh", &args, reply) {
        Ok(_) => Ok(()),
        Err(error) => Err(error),
    }
}

// ---------------------------------------------------------------------------
// Fast-forwarding trunk over a stack
// ---------------------------------------------------------------------------

pub open spec fn untracked_trunk(config: AppConfigView) -> Seq<char> {
    "trunk `"@ + config.trunk + "@"@ + config.remote
        + "` was untracked; auto-tracking it so the merge can fast-forward push (jj's default git.auto-local-bookmark=false leaves it untracked)"@
}

/// What the log tells of a trunk that is repaired.
pub open spec fn tracked_trunk_log(config: AppConfigView) -> Seq<char> {
    "trunk `"@ + config.trunk + "@"@ + config.remote
        + "` was untracked before merge push; auto-tracking"@
}

/// The record from `before` to `after` holds the repair of a trunk that does not follow its remote.
pub open spec fn trunk_tracked(
    before: Seq<Event>,
    after: Seq<Event>,
    config: AppConfigView,
    diagnostics: Diagnostics,
    r: Result<(), Seq<CauseView>>,
) -> bool {
    exists|mid: Seq<Event>|
        {
            &&& #[trigger] record::called(before, mid, "jj"@, bookmarks::status_args(config.trunk))
            &&& match bookmarks::status_result(config.remote, config.trunk, record::last_reply(mid)) {
                Err(e) => record::stopped(mid, after, e, r),
                Ok(status) => if status.is_tracked {
                    after == mid && r == Ok::<(), Seq<CauseView>>(())
                } else {
                    bookmarks::jj_step(
                        mid.push(Event::Said(LineView::Warn(untracked_trunk(config)))) + ui::logged(
                            tracked_trunk_log(config),
                        ),
                        after,
                        bookmarks::follow_args(config.remote, config.trunk),
                        diagnostics.dry_run,
                        r,
                    )
                },
            }
        }
}

pub fn ensure_trunk_tracked<H: Host>(
    sh: &mut Shell<H>,
    config: &AppConfig,
    diagnostics: Diagnostics,
) -> (r: Result<(), Error>)
    ensures
        record::extends(old(sh).log(), final(sh).log()),
        trunk_tracked(old(sh).log(), final(sh).log(), config@, diagnostics, error::res_of(r)),
{
    let status = remote_bookmark_status(sh, config, &config.trunk);
    assert(record::called(old(sh).log(), sh.log(), "jj"@, bookmarks::status_args(config@.trunk)));
    match status {
        Err(error) => Err(error),
        Ok(status) => {
            if status.is_tracked {
                return Ok(());
            }
            sh.say(
                Line::Warn(
                    cat5(
                        "trunk `",
                        &config.trunk,
                        "@",
                        &config.remote,
                        "` was untracked; auto-tracking it so the merge can fast-forward push (jj's default git.auto-local-bookmark=false leaves it untracked)",
                    ),
                ),
            );
            diagnostics.warn(
                sh,
                &cat5(
                    "trunk `",
                    &config.trunk,
                    "@",
                    &config.remote,
                    "` was untracked before merge push; auto-tracking",
                ),
            );
            track_remote_bookmark(sh, config, &config.trunk, diagnostics)
        },
    }
}

pub open spec fn set_trunk_args(trunk: Seq<char>, rev: Seq<char>) -> Seq<Seq<char>> {
    seq!["bookmark"@, "set"@, trunk, "-r"@, rev]
}

pub open spec fn push_trunk_args(config: AppConfigView) -> Seq<Seq<char>> {
    seq!["git"@, "push"@, "--remote"@, config.remote, "--bookmark"@, config.trunk]
}

/// The record from `before` to `after` holds the move of the local trunk and, where that succeeds, its
/// push.
pub open spec fn trunk_pushed(
    before: Seq<Event>,
    after: Seq<Event>,
    config: AppConfigView,
    top: Seq<char>,
    r: Result<(), Seq<CauseView>>,
) -> bool {
    exists|mid: Seq<Event>|
        {
            &&& #[trigger] record::called(before, mid, "jj"@, set_trunk_args(config.trunk, top))
            &&& match output::checked("jj"@, set_trunk_args(config.trunk, top), record::last_reply(mid)) {
                Err(e) => record::stopped(mid, after, e, r),
                Ok(output) => record::called(mid, after, "jj"@, push_trunk_args(config)) && r
                    == done_or_failed("jj"@, push_trunk_args(config), record::last_reply(after)),
            }
        }
}

fn push_trunk<H: Host>(sh: &mut Shell<H>, config: &AppConfig, top: &str) -> (r: Result<(), Error>)
    ensures
        record::extends(old(sh).log(), final(sh).log()),
        trunk_pushed(old(sh).log(), final(sh).log(), config@, top@, error::res_of(r)),
{
    let args = words(&["bookmark", "set", &config.trunk, "-r", top]);
    assert(args.deep_view() =~= set_trunk_args(config@.trunk, top@));
    let set = jj_checked(sh, &args);
    assert(record::called(old(sh).log(), sh.log(), "jj"@, set_trunk_args(config@.trunk, top@)));
    match set {
        Err(error) => return Err(error),
        Ok(_) => {},
    }
    let args = words(&["git", "push", "--remote", &config.remote, "--bookmark", &config.trunk]);
    assert(args.deep_view() =~= push_trunk_args(config@));
    match jj_checked(sh, &args) {
        Err(error) => Err(error),
        Ok(_) => Ok(()),
    }
}

/// The record from `before` to `after` holds the repair of trunk, then its move and push.
pub open spec fn trunk_advanced(
    before: Seq<Event>,
    after: Seq<Event>,
    config: AppConfigView,
    top: Seq<char>,
    diagnostics: Diagnostics,
    r: Result<(), Seq<CauseView>>,
) -> bool {
    exists|mid: Seq<Event>, followed: Result<(), Seq<CauseView>>|
        {
            &&& #[trigger] trunk_tracked(before, mid, config, diagnostics, followed)
            &&& match followed {
                Err(e) => record::stopped(mid, after, e, r),
                Ok(_) => trunk_pushed(mid, after, config, top, r),
            }
        }
}

fn advance_trunk<H: Host>(
    sh: &mut Shell<H>,
    config: &AppConfig,
    top: &str,
    diagnostics: Diagnostics,
) -> (r: Result<(), Error>)
    ensures
        record::extends(old(sh).log(), final(sh).log()),
        trunk_advanced(old(sh).log(), final(sh).log(), config@, top@, diagnostics, error::res_of(r)),
{
    let followed = ensure_trunk_tracked(sh, config, diagnostics);
    let ghost seen = error::res_of(followed);
    assert(trunk_tracked(old(sh).log(), sh.log(), config@, diagnostics, seen));
    match followed {
        Err(error) => Err(error),
        Ok(_) => push_trunk(sh, config, top),
    }
}

pub open spec fn not_forward(config: AppConfigView, top: Seq<char>, remote: Seq<char>) -> Seq<
    CauseView,
> {
    error::plain(
        "trunk `"@ + config.trunk + "` cannot fast-forward to "@ + top + ": remote "@ + remote
            + " is not an ancestor; run `forklift sync` first"@,
    )
}

/// The record from `before` to `after` holds the test that the remote trunk lies below the stack, and
/// only then the advance of trunk.
pub open spec fn forward_tested(
    before: Seq<Event>,
    after: Seq<Event>,
    config: AppConfigView,
    remote: Seq<char>,
    top: Seq<char>,
    diagnostics: Diagnostics,
    r: Result<(), Seq<CauseView>>,
) -> bool {
    exists|mid: Seq<Event>|
        {
            &&& #[trigger] record::called(before, mid, "git"@, bookmarks::ancestor_args(remote, top))
            &&& match bookmarks::success_of(record::last_reply(mid)) {
                Err(e) => record::stopped(mid, after, e, r),
                Ok(below) => if !below {
                    record::stopped(mid, after, not_forward(config, top, remote), r)
                } else {
                    trunk_advanced(mid, after, config, top, diagnostics, r)
                },
            }
        }
}

fn test_forward<H: Host>(
    sh: &mut Shell<H>,
    config: &AppConfig,
    remote: &str,
    top: &str,
    diagnostics: Diagnostics,
) -> (r: Result<(), Error>)
    ensures
        record::extends(old(sh).log(), final(sh).log()),
        forward_tested(
            old(sh).log(),
            final(sh).log(),
            config@,
            remote@,
            top@,
            diagnostics,
            error::res_of(r),
        ),
{
    let below = git_commit_is_ancestor(sh, remote, top);
    assert(record::called(old(sh).log(), sh.log(), "git"@, bookmarks::ancestor_args(remote@, top@)));
    match below {
        Err(error) => Err(error),
        Ok(below) => {
            if !below {
                return Err(
                    fail(
                        &cat7(
                            "trunk `",
                            &config.trunk,
                            "` cannot fast-forward to ",
                            top,
                            ": remote ",
                            remote,
                            " is not an ancestor; run `forklift sync` first",
                        ),
                    ),
                );
            }
            advance_trunk(sh, config, top, diagnostics)
        },
    }
}

/// The record from `before` to `after` holds the fast-forward of trunk over a stack. Anything but a
/// strict fast-forward over the current remote trunk is refused before trunk moves.
pub open spec fn trunk_fast_forwarded(
    before: Seq<Event>,
    after: Seq<Event>,
    config: AppConfigView,
    top: Seq<char>,
    diagnostics: Diagnostics,
    r: Result<(), Seq<CauseView>>,
) -> bool {
    exists|mid: Seq<Event>|
        {
            &&& #[trigger] record::called(before, mid, "git"@, rebase::rev_parse_args(rebase::git_ref_of(config)))
            &&& match rebase::rev_parse_result(rebase::git_ref_of(config), record::last_reply(mid)) {
                Err(e) => record::stopped(mid, after, e, r),
                Ok(remote) => forward_tested(mid, after, config, remote, top, diagnostics, r),
            }
        }
}

pub fn fast_forward_trunk_over_stack<H: Host>(
    sh: &mut Shell<H>,
    config: &AppConfig,
    top_commit: &str,
    diagnostics: Diagnostics,
) -> (r: Result<(), Error>)
    ensures
        record::extends(old(sh).log(), final(sh).log()),
        trunk_fast_forwarded(
            old(sh).log(),
            final(sh).log(),
            config@,
            top_commit@,
            diagnostics,
            error::res_of(r),
        ),
{
    let remote = git_rev_parse(sh, &remote_git_ref(config));
    assert(record::called(old(sh).log(), sh.log(), "git"@, rebase::rev_parse_args(rebase::git_ref_of(config@))));
    match remote {
        Err(error) => Err(error),
        Ok(remote) => test_forward(sh, config, &remote, top_commit, diagnostics),
    }
}

/// Leaves the working copy on a fresh change above trunk.
pub fn reset_working_copy_to_trunk<H: Host>(sh: &mut Shell<H>, config: &AppConfig) -> (r: Result<
    (),
    Error,
>)
    ensures
        record::called(old(sh).log(), final(sh).log(), "jj"@, get::new_args(config@.trunk)),
        error::res_of(r) == done_or_failed("jj"@, get::new_args(config@.trunk), record::last_reply(final(sh).log())),
{
    let args = words(&["new", &config.trunk]);
    assert(args.deep_view() =~= get::new_args(config@.trunk));
    match jj_checked(sh, &args) {
        Ok(_) => Ok(()),
        Err(error) => Err(error),
    }
}

// ---------------------------------------------------------------------------
// Following the remote trunk
// ---------------------------------------------------------------------------

pub open spec fn trunk_commit_args(config: AppConfigView) -> Seq<Seq<char>> {
    seq!["log"@, "--no-graph"@, "-r"@, rebase::jj_ref_of(config), "-T"@, "commit_id"@]
}

pub open spec fn trunk_commit_result(config: AppConfigView, reply: Reply) -> Result<
    Seq<char>,
    Seq<CauseView>,
> {
    match output::required_output("jj"@, trunk_commit_args(config), reply) {
        Ok(commit) => Ok(commit),
        Err(e) => Err(
            error::in_context("resolve jj remote trunk bookmark `"@ + rebase::jj_ref_of(config) + "`"@, e),
        ),
    }
}

/// The commit of the remote trunk as jj sees it.
pub fn jj_trunk_remote_commit<H: Host>(sh: &mut Shell<H>, config: &AppConfig) -> (r: Result<
    String,
    Error,
>)
    ensures
        record::called(old(sh).log(), final(sh).log(), "jj"@, trunk_commit_args(config@)),
        error::res(r) == trunk_commit_result(config@, record::last_reply(final(sh).log())),
{
    let name = remote_jj_ref(config);
    let args = words(&["log", "--no-graph", "-r", &name, "-T", "commit_id"]);
    assert(args.deep_view() =~= trunk_commit_args(config@));
    proof {
        record::lemma_jj_runs_here();
    }
    match run_required(sh, "jj", &args) {
        Ok(commit) => Ok(commit),
        Err(error) => Err(
            error.context(&cat3("resolve jj remote trunk bookmark `", &name, "`")),
        ),
    }
}

pub open spec fn fetch_args_of(remote: Seq<char>) -> Seq<Seq<char>> {
    seq!["git"@, "fetch"@, "--remote"@, remote]
}

pub open spec fn unresolvable_trunk(config: AppConfigView, e: Seq<CauseView>) -> Seq<CauseView> {
    error::plain(
        "`"@ + output::shown("jj"@, fetch_args_of(config.remote)) + "` reported success but `"@ + rebase::jj_ref_of(
            config,
        ) + "` is not resolvable; check "@ + CONFIG_PREFIX@ + ".remote and "@ + CONFIG_PREFIX@
            + ".trunk: "@ + error::top_line(e),
    )
}

/// The record from `before` to `after` holds the fetch and the test that the remote trunk can be
/// resolved after it.
pub open spec fn remote_fetched(
    before: Seq<Event>,
    after: Seq<Event>,
    config: AppConfigView,
    r: Result<(), Seq<CauseView>>,
) -> bool {
    exists|mid: Seq<Event>|
        {
            &&& #[trigger] record::called(before, mid, "jj"@, fetch_args_of(config.remote))
            &&& match output::checked("jj"@, fetch_args_of(config.remote), record::last_reply(mid)) {
                Err(e) => record::stopped(mid, after, e, r),
                Ok(output) => record::called(mid, after, "jj"@, trunk_commit_args(config)) && r
                    == match trunk_commit_result(config, record::last_reply(after)) {
                    Ok(commit) => Ok::<(), Seq<CauseView>>(()),
                    Err(e) => Err(unresolvable_trunk(config, e)),
                },
            }
        }
}

/// The record from `before` to `after` holds the fetch from the remote, or its plan.
pub open spec fn fetch_done(
    before: Seq<Event>,
    after: Seq<Event>,
    config: AppConfigView,
    diagnostics: Diagnostics,
    r: Result<(), Seq<CauseView>>,
) -> bool {
    if diagnostics.dry_run {
        after == before + ui::plan_said(
            diagnostics,
            "- "@ + output::shown("jj"@, fetch_args_of(config.remote)),
        ) && r == Ok::<(), Seq<CauseView>>(())
    } else {
        remote_fetched(before, after, config, r)
    }
}

pub fn fetch_remote<H: Host>(sh: &mut Shell<H>, config: &AppConfig, diagnostics: Diagnostics) -> (r:
    Result<(), Error>)
    ensures
        record::extends(old(sh).log(), final(sh).log()),
        fetch_done(old(sh).log(), final(sh).log(), config@, diagnostics, error::res_of(r)),
{
    let args = words(&["git", "fetch", "--remote", &config.remote]);
    assert(args.deep_view() =~= fetch_args_of(config@.remote));
    if diagnostics.dry_run {
        diagnostics.plan_line(sh, &cat("- ", &display_command("jj", &args)));
        return Ok(());
    }
    let fetched = jj_checked(sh, &args);
    assert(record::called(old(sh).log(), sh.log(), "jj"@, fetch_args_of(config@.remote)));
    match fetched {
        Err(error) => return Err(error),
        Ok(_) => {},
    }
    match jj_trunk_remote_commit(sh, config) {
        Ok(_) => Ok(()),
        Err(error) => {
            let mut message = cat3("`", &display_command("jj", &args), "` reported success but `");
            message.append(&remote_jj_ref(config));
            message.append("` is not resolvable; check ");
            message.append(CONFIG_PREFIX);
            message.append(".remote and ");
            message.append(CONFIG_PREFIX);
            message.append(".trunk: ");
            message.append(&error.top());
            Err(fail(&message))
        },
    }
}

pub open spec fn blocked_trunk(config: AppConfigView, local: Seq<char>, remote: Seq<char>) -> Seq<
    CauseView,
> {
    error::plain(
        "trunk `"@ + config.trunk + "` cannot fast-forward to `"@ + rebase::git_ref_of(config)
            + "`: local commit "@ + local + ", remote commit "@ + remote,
    )
}

pub open spec fn forward_result(
    config: AppConfigView,
    local: Seq<char>,
    remote: Seq<char>,
    reply: Reply,
) -> Result<(), Seq<CauseView>> {
    match bookmarks::success_of(reply) {
        Err(e) => Err(e),
        Ok(true) => Ok(()),
        Ok(false) => Err(blocked_trunk(config, local, remote)),
    }
}

/// Requires that the local trunk is an ancestor of the remote one.
pub fn ensure_trunk_can_fast_forward<H: Host>(
    sh: &mut Shell<H>,
    config: &AppConfig,
    local: &str,
    remote: &str,
) -> (r: Result<(), Error>)
    ensures
        record::called(old(sh).log(), final(sh).log(), "git"@, bookmarks::ancestor_args(local@, remote@)),
        error::res_of(r) == forward_result(config@, local@, remote@, record::last_reply(final(sh).log())),
{
    match git_commit_is_ancestor(sh, local, remote) {
        Err(error) => Err(error),
        Ok(true) => Ok(()),
        Ok(false) => {
            let mut message = cat3("trunk `", &config.trunk, "` cannot fast-forward to `");
            message.append(&remote_git_ref(config));
            message.append("`: local commit ");
            message.append(local);
            message.append(", remote commit ");
            message.append(remote);
            Err(fail(&message))
        },
    }
}

pub open spec fn move_lines(
    config: AppConfigView,
    local: Seq<char>,
    remote: Seq<char>,
    diagnostics: Diagnostics,
) -> Seq<Event> {
    ui::plan_said(
        diagnostics,
        "- fast-forward trunk `"@ + config.trunk + "` from "@ + local + " to "@ + remote,
    ) + ui::plan_said(
        diagnostics,
        "- "@ + output::shown("jj"@, set_trunk_args(config.trunk, rebase::jj_ref_of(config))),
    )
}

/// The record from `before` to `after` holds the move of a trunk that can be moved, or its plan.
pub open spec fn trunk_set(
    before: Seq<Event>,
    after: Seq<Event>,
    config: AppConfigView,
    local: Seq<char>,
    remote: Seq<char>,
    diagnostics: Diagnostics,
    r: Result<(), Seq<CauseView>>,
) -> bool {
    let args = set_trunk_args(config.trunk, rebase::jj_ref_of(config));
    if diagnostics.dry_run {
        after == before + move_lines(config, local, remote, diagnostics) && r == Ok::<
            (),
            Seq<CauseView>,
        >(())
    } else {
        record::called(before, after, "jj"@, args) && r == done_or_failed("jj"@, args, record::last_reply(after))
    }
}

fn set_trunk<H: Host>(
    sh: &mut Shell<H>,
    config: &AppConfig,
    local: &str,
    remote: &str,
    diagnostics: Diagnostics,
) -> (r: Result<(), Error>)
    ensures
        record::extends(old(sh).log(), final(sh).log()),
        trunk_set(
            old(sh).log(),
            final(sh).log(),
            config@,
            local@,
            remote@,
            diagnostics,
            error::res_of(r),
        ),
{
    let name = remote_jj_ref(config);
    let args = words(&["bookmark", "set", &config.trunk, "-r", &name]);
    assert(args.deep_view() =~= set_trunk_args(config@.trunk, rebase::jj_ref_of(config@)));
    if diagnostics.dry_run {
        let ghost start = sh.log();
        let mut line = cat5("- fast-forward trunk `", &config.trunk, "` from ", local, " to ");
        line.append(remote);
        diagnostics.plan_line(sh, &line);
        diagnostics.plan_line(sh, &cat("- ", &display_command("jj", &args)));
        assert(sh.log() =~= start + move_lines(config@, local@, remote@, diagnostics));
        return Ok(());
    }
    match jj_checked(sh, &args) {
        Ok(_) => Ok(()),
        Err(error) => Err(error),
    }
}

/// The record from `before` to `after` holds what follows once both views of the remote trunk agree.
pub open spec fn agreed_trunk_moved(
    before: Seq<Event>,
    after: Seq<Event>,
    config: AppConfigView,
    local: Seq<char>,
    remote: Seq<char>,
    diagnostics: Diagnostics,
    r: Result<(), Seq<CauseView>>,
) -> bool {
    if local == remote {
        after == before + ui::plan_said(
            diagnostics,
            "- leave trunk `"@ + config.trunk + "` at "@ + local,
        ) && r == Ok::<(), Seq<CauseView>>(())
    } else {
        older_trunk_moved(before, after, config, local, remote, diagnostics, r)
    }
}

pub open spec fn older_trunk_moved(
    before: Seq<Event>,
    after: Seq<Event>,
    config: AppConfigView,
    local: Seq<char>,
    remote: Seq<char>,
    diagnostics: Diagnostics,
    r: Result<(), Seq<CauseView>>,
) -> bool {
    exists|mid: Seq<Event>|
        {
            &&& #[trigger] record::called(before, mid, "git"@, bookmarks::ancestor_args(local, remote))
            &&& match forward_result(config, local, remote, record::last_reply(mid)) {
                Err(e) => record::stopped(mid, after, e, r),
                Ok(_) => trunk_set(mid, after, config, local, remote, diagnostics, r),
            }
        }
}

fn move_agreed_trunk<H: Host>(
    sh: &mut Shell<H>,
    config: &AppConfig,
    local: &str,
    remote: &str,
    diagnostics: Diagnostics,
) -> (r: Result<(), Error>)
    ensures
        record::extends(old(sh).log(), final(sh).log()),
        agreed_trunk_moved(
            old(sh).log(),
            final(sh).log(),
            config@,
            local@,
            remote@,
            diagnostics,
            error::res_of(r),
        ),
{
    if same(local, remote) {
        let mut line = cat3("- leave trunk `", &config.trunk, "` at ");
        line.append(local);
        diagnostics.plan_line(sh, &line);
        return Ok(());
    }
    let forward = ensure_trunk_can_fast_forward(sh, config, local, remote);
    assert(record::called(old(sh).log(), sh.log(), "git"@, bookmarks::ancestor_args(local@, remote@)));
    match forward {
        Err(error) => Err(error),
        Ok(_) => set_trunk(sh, config, local, remote, diagnostics),
    }
}

pub open spec fn views_disagree(config: AppConfigView, remote: Seq<char>, remote_jj: Seq<char>) -> Seq<
    CauseView,
> {
    error::plain(
        "remote trunk views disagree: git `"@ + rebase::git_ref_of(config) + "` is "@ + remote + " but jj `"@
            + rebase::jj_ref_of(config) + "` is "@ + remote_jj
            + "; the colocated git ref is stale. Run `jj git export` (or verify "@ + CONFIG_PREFIX@
            + ".remote) before moving trunk."@,
    )
}

/// The record from `before` to `after` holds the comparison of the two views of the remote trunk, and
/// what follows where they agree.
pub open spec fn views_compared(
    before: Seq<Event>,
    after: Seq<Event>,
    config: AppConfigView,
    local: Seq<char>,
    remote: Seq<char>,
    diagnostics: Diagnostics,
    r: Result<(), Seq<CauseView>>,
) -> bool {
    exists|mid: Seq<Event>|
        {
            &&& #[trigger] record::called(before, mid, "jj"@, trunk_commit_args(config))
            &&& match trunk_commit_result(config, record::last_reply(mid)) {
                Err(e) => record::stopped(mid, after, e, r),
                Ok(remote_jj) => if remote_jj != remote {
                    record::stopped(mid, after, views_disagree(config, remote, remote_jj), r)
                } else {
                    agreed_trunk_moved(mid, after, config, local, remote, diagnostics, r)
                },
            }
        }
}

fn compare_views<H: Host>(
    sh: &mut Shell<H>,
    config: &AppConfig,
    local: &str,
    remote: &str,
    diagnostics: Diagnostics,
) -> (r: Result<(), Error>)
    ensures
        record::extends(old(sh).log(), final(sh).log()),
        views_compared(
            old(sh).log(),
            final(sh).log(),
            config@,
            local@,
            remote@,
            diagnostics,
            error::res_of(r),
        ),
{
    let seen = jj_trunk_remote_commit(sh, config);
    assert(record::called(old(sh).log(), sh.log(), "jj"@, trunk_commit_args(config@)));
    match seen {
        Err(error) => Err(error),
        Ok(remote_jj) => {
            if !same(&remote_jj, remote) {
                let mut message = "remote trunk views disagree: git `".to_owned();
                message.append(&remote_git_ref(config));
                message.append("` is ");
                message.append(remote);
                message.append(" but jj `");
                message.append(&remote_jj_ref(config));
                message.append("` is ");
                message.append(&remote_jj);
                message.append(
                    "; the colocated git ref is stale. Run `jj git export` (or verify ",
                );
                message.append(CONFIG_PREFIX);
                message.append(".remote) before moving trunk.");
                return Err(fail(&message));
            }
            move_agreed_trunk(sh, config, local, remote, diagnostics)
        },
    }
}

pub open spec fn local_trunk_moved(
    before: Seq<Event>,
    after: Seq<Event>,
    config: AppConfigView,
    local: Seq<char>,
    diagnostics: Diagnostics,
    r: Result<(), Seq<CauseView>>,
) -> bool {
    exists|mid: Seq<Event>|
        {
            &&& #[trigger] record::called(before, mid, "git"@, rebase::rev_parse_args(rebase::git_ref_of(config)))
            &&& match rebase::rev_parse_result(rebase::git_ref_of(config), record::last_reply(mid)) {
                Err(e) => record::stopped(mid, after, e, r),
                Ok(remote) => views_compared(mid, after, config, local, remote, diagnostics, r),
            }
        }
}

fn move_local_trunk<H: Host>(
    sh: &mut Shell<H>,
    config: &AppConfig,
    local: &str,
    diagnostics: Diagnostics,
) -> (r: Result<(), Error>)
    ensures
        record::extends(old(sh).log(), final(sh).log()),
        local_trunk_moved(
            old(sh).log(),
            final(sh).log(),
            config@,
            local@,
            diagnostics,
            error::res_of(r),
        ),
{
    let remote = git_rev_parse(sh, &remote_git_ref(config));
    assert(record::called(old(sh).log(), sh.log(), "git"@, rebase::rev_parse_args(rebase::git_ref_of(config@))));
    match remote {
        Err(error) => Err(error),
        Ok(remote) => compare_views(sh, config, local, &remote, diagnostics),
    }
}

/// The record from `before` to `after` holds the move of the local trunk to the remote one. It moves
/// only forward, and only where git and jj see the same remote trunk.
pub open spec fn trunk_moved(
    before: Seq<Event>,
    after: Seq<Event>,
    config: AppConfigView,
    diagnostics: Diagnostics,
    r: Result<(), Seq<CauseView>>,
) -> bool {
    exists|mid: Seq<Event>|
        {
            &&& #[trigger] record::called(before, mid, "git"@, rebase::rev_parse_args(config.trunk))
            &&& match rebase::rev_parse_result(config.trunk, record::last_reply(mid)) {
                Err(e) => record::stopped(mid, after, e, r),
                Ok(local) => local_trunk_moved(mid, after, config, local, diagnostics, r),
            }
        }
}

pub fn move_trunk_to_remote<H: Host>(
    sh: &mut Shell<H>,
    config: &AppConfig,
    diagnostics: Diagnostics,
) -> (r: Result<(), Error>)
    ensures
        record::extends(old(sh).log(), final(sh).log()),
        trunk_moved(old(sh).log(), final(sh).log(), config@, diagnostics, error::res_of(r)),
{
    let local = git_rev_parse(sh, &config.trunk);
    assert(record::called(old(sh).log(), sh.log(), "git"@, rebase::rev_parse_args(config@.trunk)));
    match local {
        Err(error) => Err(error),
        Ok(local) => move_local_trunk(sh, config, &local, diagnostics),
    }
}

/// Whether four meetings from `at` on gave leave to move the local trunk: git read where it stands,
/// git and jj saw the same remote trunk elsewhere, and git said that the remote one lies above.
pub open spec fn views_agreed(log: Seq<Event>, at: int, config: AppConfigView) -> bool {
    &&& record::is_call(log[at], "git"@, rebase::rev_parse_args(config.trunk))
    &&& record::is_call(log[at + 1], "git"@, rebase::rev_parse_args(rebase::git_ref_of(config)))
    &&& record::is_call(log[at + 2], "jj"@, trunk_commit_args(config))
    &&& match (
        rebase::rev_parse_result(config.trunk, record::reply_of(log[at])),
        rebase::rev_parse_result(rebase::git_ref_of(config), record::reply_of(log[at + 1])),
    ) {
        (Ok(local), Ok(remote)) => {
            &&& local != remote
            &&& trunk_commit_result(config, record::reply_of(log[at + 2])) == Ok::<Seq<char>, Seq<CauseView>>(
                remote,
            )
            &&& record::is_call(log[at + 3], "git"@, bookmarks::ancestor_args(local, remote))
            &&& bookmarks::success_of(record::reply_of(log[at + 3])) == Ok::<bool, Seq<CauseView>>(true)
        },
        _ => false,
    }
}

/// The law of agreeing views: the local trunk is moved to the remote one only after git and jj were
/// found to see the same remote trunk, and it was found to lie above the local one.
pub proof fn law_trunk_follows_agreeing_views(
    before: Seq<Event>,
    after: Seq<Event>,
    config: AppConfigView,
    diagnostics: Diagnostics,
    r: Result<(), Seq<CauseView>>,
    i: int,
    rev: Seq<char>,
)
    requires
        trunk_moved(before, after, config, diagnostics, r),
        before.len() <= i < after.len(),
        record::is_call(after[i], "jj"@, set_trunk_args(config.trunk, rev)),
    ensures
        rev == rebase::jj_ref_of(config),
        i == before.len() + 4,
        views_agreed(after, before.len() as int, config),
{
    reveal_strlit("git");
    reveal_strlit("jj");
    reveal_strlit("log");
    reveal_strlit("bookmark");
    assert("git"@[0] != "jj"@[0]);
    assert("log"@[0] != "bookmark"@[0]);
    let a = choose|mid: Seq<Event>|
        {
            &&& #[trigger] record::called(before, mid, "git"@, rebase::rev_parse_args(config.trunk))
            &&& match rebase::rev_parse_result(config.trunk, record::last_reply(mid)) {
                Err(e) => record::stopped(mid, after, e, r),
                Ok(local) => local_trunk_moved(mid, after, config, local, diagnostics, r),
            }
        };
    let n = before.len() as int;
    assert(a[n] == a.last());
    if let Ok(local) = rebase::rev_parse_result(config.trunk, record::last_reply(a)) {
        let b = choose|mid: Seq<Event>|
            {
                &&& #[trigger] record::called(
                    a,
                    mid,
                    "git"@,
                    rebase::rev_parse_args(rebase::git_ref_of(config)),
                )
                &&& match rebase::rev_parse_result(
                    rebase::git_ref_of(config),
                    record::last_reply(mid),
                ) {
                    Err(e) => record::stopped(mid, after, e, r),
                    Ok(remote) => views_compared(mid, after, config, local, remote, diagnostics, r),
                }
            };
        assert(b.drop_last()[n] == a[n]);
        if let Ok(remote) = rebase::rev_parse_result(
            rebase::git_ref_of(config),
            record::last_reply(b),
        ) {
            lemma_views_compared(a, b, after, config, local, remote, diagnostics, r, i, rev);
        }
    }
}

proof fn lemma_views_compared(
    a: Seq<Event>,
    b: Seq<Event>,
    after: Seq<Event>,
    config: AppConfigView,
    local: Seq<char>,
    remote: Seq<char>,
    diagnostics: Diagnostics,
    r: Result<(), Seq<CauseView>>,
    i: int,
    rev: Seq<char>,
)
    requires
        a.len() > 0,
        b.len() == a.len() + 1,
        record::is_call(b[a.len() - 1], "git"@, rebase::rev_parse_args(config.trunk)),
        rebase::rev_parse_result(config.trunk, record::reply_of(b[a.len() - 1])) == Ok::<
            Seq<char>,
            Seq<CauseView>,
        >(local),
        record::is_call(b[a.len() as int], "git"@, rebase::rev_parse_args(rebase::git_ref_of(config))),
        rebase::rev_parse_result(rebase::git_ref_of(config), record::reply_of(b[a.len() as int])) == Ok::<
            Seq<char>,
            Seq<CauseView>,
        >(remote),
        views_compared(b, after, config, local, remote, diagnostics, r),
        a.len() - 1 <= i < after.len(),
        record::is_call(after[i], "jj"@, set_trunk_args(config.trunk, rev)),
    ensures
        rev == rebase::jj_ref_of(config),
        i == a.len() + 3,
        views_agreed(after, a.len() - 1, config),
{
    reveal_strlit("git");
    reveal_strlit("jj");
    reveal_strlit("log");
    reveal_strlit("bookmark");
    assert("git"@[0] != "jj"@[0]);
    assert("log"@[0] != "bookmark"@[0]);
    let n = a.len() - 1;
    let c = choose|mid: Seq<Event>|
        {
            &&& #[trigger] record::called(b, mid, "jj"@, trunk_commit_args(config))
            &&& match trunk_commit_result(config, record::last_reply(mid)) {
                Err(e) => record::stopped(mid, after, e, r),
                Ok(remote_jj) => if remote_jj != remote {
                    record::stopped(mid, after, views_disagree(config, remote, remote_jj), r)
                } else {
                    agreed_trunk_moved(mid, after, config, local, remote, diagnostics, r)
                },
            }
        };
    assert(c.drop_last()[n] == b[n]);
    assert(c.drop_last()[n + 1] == b[n + 1]);
    assert(trunk_commit_args(config)[0] == "log"@);
    assert(set_trunk_args(config.trunk, rev)[0] == "bookmark"@);
    assert(set_trunk_args(config.trunk, rev)[4] == rev);
    if trunk_commit_result(config, record::last_reply(c)) == Ok::<Seq<char>, Seq<CauseView>>(remote) {
        if local != remote {
            let d = choose|mid: Seq<Event>|
                {
                    &&& #[trigger] record::called(
                        c,
                        mid,
                        "git"@,
                        bookmarks::ancestor_args(local, remote),
                    )
                    &&& match forward_result(config, local, remote, record::last_reply(mid)) {
                        Err(e) => record::stopped(mid, after, e, r),
                        Ok(_) => trunk_set(mid, after, config, local, remote, diagnostics, r),
                    }
                };
            assert(d.drop_last()[n] == c[n]);
            assert(d.drop_last()[n + 1] == c[n + 1]);
            assert(d.drop_last()[n + 2] == c[n + 2]);
            if forward_result(config, local, remote, record::last_reply(d)) is Ok {
                if !diagnostics.dry_run {
                    assert(after.drop_last()[n] == d[n]);
                    assert(after.drop_last()[n + 1] == d[n + 1]);
                    assert(after.drop_last()[n + 2] == d[n + 2]);
                    assert(after.drop_last()[n + 3] == d[n + 3]);
                    assert(set_trunk_args(config.trunk, rebase::jj_ref_of(config))[4]
                        == rebase::jj_ref_of(config));
                }
            }
        }
    }
}

} // verus!
