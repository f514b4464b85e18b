//! Requests that change pull requests on GitHub.

use vstd::prelude::*;

use crate::error;
use crate::error::{CauseView, Error, fail};
use crate::model::{GhPr, GhPrView, GitHubContext, SubmitPlan, SubmitPlanView};
use crate::output;
use crate::output::display_command;
use crate::pr::PR_API_JQ;
use crate::record;
use crate::record::Event;
use crate::repo::gh_run;
use crate::shell::Host;
use crate::shell::wire::Shell;
use crate::text;
use crate::text::{cat, cat3, cat5, number_text, trimmed, words};

verus! {

broadcast use crate::record::group_record;

/// The record from `before` to `after` holds one request to change a pull request and the reading of
/// the answer.
pub open spec fn pr_api_called(
    before: Seq<Event>,
    after: Seq<Event>,
    args: Seq<Seq<char>>,
    action: Seq<char>,
    change_id: Seq<char>,
    r: Result<GhPrView, Seq<CauseView>>,
) -> bool {
    let n = before.len() as int;
    &&& record::extends(before, after)
    &&& after.len() > n
    &&& record::is_call(after[n], "gh"@, args)
    &&& match record::reply_of(after[n]) {
        Err(e) => after.len() == n + 1 && r == Err::<GhPrView, _>(e),
        Ok(output) => if !output.success {
            after.len() == n + 1 && r == Err::<GhPrView, _>(
                error::plain(
                    "phase=github-pr-"@ + action + " object=change:"@ + change_id + " failed-api=`"@
                        + output::shown("gh"@, args) + "` error="@ + text::trim(output.stderr)
                        + " safe-next-command=`forklift submit --dry-run`"@,
                ),
            )
        } else {
            &&& after.len() == n + 2
            &&& after[n + 1] is PrRead && after[n + 1]->PrRead_json == output.stdout
            &&& r == match after[n + 1]->pr {
                Ok(pr) => Ok(pr),
                Err(e) => Err(
                    error::in_context(
                        "parse GitHub PR response while trying to "@ + action + " "@ + change_id,
                        e,
                    ),
                ),
            }
        },
    }
}

pub fn run_pr_api<H: Host>(sh: &mut Shell<H>, args: &Vec<String>, action: &str, change_id: &str) -> (r:
    Result<GhPr, Error>)
    ensures
        record::extends(old(sh).log(), final(sh).log()),
        pr_api_called(
            old(sh).log(),
            final(sh).log(),
            args.deep_view(),
            action@,
            change_id@,
            error::res(r),
        ),
{
    let ghost n = sh.log().len() as int;
    let reply = gh_run(sh, args);
    let ghost mid = sh.log();
    let output = match reply {
        Ok(output) => output,
        Err(error) => return Err(error),
    };
    if !output.success {
        let mut message = cat5(
            "phase=github-pr-",
            action,
            " object=change:",
            change_id,
            " failed-api=`",
        );
        message.append(&display_command("gh", args));
        message.append("` error=");
        message.append(&trimmed(&output.stderr));
        message.append(" safe-next-command=`forklift submit --dry-run`");
        return Err(fail(&message));
    }
    let pr = sh.read_pr(&output.stdout);
    assert(sh.log()[n] == mid[n]);
    match pr {
        Ok(pr) => Ok(pr),
        Err(error) => {
            let mut context = cat3("parse GitHub PR response while trying to ", action, " ");
            context.append(change_id);
            Err(error.context(&context))
        },
    }
}

pub open spec fn pulls(repo: Seq<char>) -> Seq<char> {
    "repos/"@ + repo + "/pulls"@
}

pub open spec fn pull(repo: Seq<char>, number: u64) -> Seq<char> {
    "repos/"@ + repo + "/pulls/"@ + text::decimal(number as nat)
}

fn pull_endpoint(repo: &str, number: u64) -> (r: String)
    ensures
        r@ == pull(repo@, number),
{
    let mut endpoint = cat3("repos/", repo, "/pulls/");
    endpoint.append(&number_text(number));
    endpoint
}

pub open spec fn create_pr_args(repo: Seq<char>, plan: SubmitPlanView) -> Seq<Seq<char>> {
    seq![
        "api"@,
        "-X"@,
        "POST"@,
        pulls(repo),
        "-f"@,
        "title="@ + plan.change.title,
        "-f"@,
        "head="@ + plan.head_branch,
        "-f"@,
        "base="@ + plan.base_branch,
        "-f"@,
        "body="@ + plan.change.body,
        "--jq"@,
        PR_API_JQ@,
    ]
}

pub fn create_pr<H: Host>(sh: &mut Shell<H>, github: &GitHubContext, plan: &SubmitPlan) -> (r: Result<
    GhPr,
    Error,
>)
    ensures
        record::extends(old(sh).log(), final(sh).log()),
        pr_api_called(
            old(sh).log(),
            final(sh).log(),
            create_pr_args(github@.repo, plan@),
            "create"@,
            plan@.change.change_id,
            error::res(r),
        ),
{
    let endpoint = cat3("repos/", &github.repo, "/pulls");
    let title = cat("title=", &plan.change.title);
    let head = cat("head=", &plan.head_branch);
    let base = cat("base=", &plan.base_branch);
    let body = cat("body=", &plan.change.body);
    let args = words(
        &[
            "api",
            "-X",
            "POST",
            &endpoint,
            "-f",
            &title,
            "-f",
            &head,
            "-f",
            &base,
            "-f",
            &body,
            "--jq",
            PR_API_JQ,
        ],
    );
    assert(args.deep_view() =~= create_pr_args(github@.repo, plan@));
    run_pr_api(sh, &args, "create", &plan.change.change_id)
}

pub open spec fn update_pr_args(repo: Seq<char>, number: u64, plan: SubmitPlanView) -> Seq<
    Seq<char>,
> {
    seq![
        "api"@,
        "-X"@,
        "PATCH"@,
        pull(repo, number),
        "-f"@,
        "title="@ + plan.change.title,
        "-f"@,
        "base="@ + plan.base_branch,
        "-f"@,
        "body="@ + plan.change.body,
        "--jq"@,
        PR_API_JQ@,
    ]
}

pub fn update_pr<H: Host>(
    sh: &mut Shell<H>,
    github: &GitHubContext,
    pr_number: u64,
    plan: &SubmitPlan,
) -> (r: Result<GhPr, Error>)
    ensures
        record::extends(old(sh).log(), final(sh).log()),
        pr_api_called(
            old(sh).log(),
            final(sh).log(),
            update_pr_args(github@.repo, pr_number, plan@),
            "update"@,
            plan@.change.change_id,
            error::res(r),
        ),
{
    let endpoint = pull_endpoint(&github.repo, pr_number);
    let title = cat("title=", &plan.change.title);
    let base = cat("base=", &plan.base_branch);
    let body = cat("body=", &plan.change.body);
    let args = words(
        &[
            "api",
            "-X",
            "PATCH",
            &endpoint,
            "-f",
            &title,
            "-f",
            &base,
            "-f",
            &body,
            "--jq",
            PR_API_JQ,
        ],
    );
    assert(args.deep_view() =~= update_pr_args(github@.repo, pr_number, plan@));
    run_pr_api(sh, &args, "update", &plan.change.change_id)
}

pub open spec fn retarget_args(repo: Seq<char>, number: u64, base_branch: Seq<char>) -> Seq<
    Seq<char>,
> {
    seq![
        "api"@,
        "-X"@,
        "PATCH"@,
        pull(repo, number),
        "-f"@,
        "base="@ + base_branch,
        "--jq"@,
        PR_API_JQ@,
    ]
}

/// Changes only the base branch of a pull request.
pub fn retarget_pr_base<H: Host>(
    sh: &mut Shell<H>,
    github: &GitHubContext,
    pr_number: u64,
    base_branch: &str,
    change_id: &str,
) -> (r: Result<GhPr, Error>)
    ensures
        record::extends(old(sh).log(), final(sh).log()),
        pr_api_called(
            old(sh).log(),
            final(sh).log(),
            retarget_args(github@.repo, pr_number, base_branch@),
            "retarget"@,
            change_id@,
            error::res(r),
        ),
{
    let endpoint = pull_endpoint(&github.repo, pr_number);
    let base = cat("base=", base_branch);
    let args = words(&["api", "-X", "PATCH", &endpoint, "-f", &base, "--jq", PR_API_JQ]);
    assert(args.deep_view() =~= retarget_args(github@.repo, pr_number, base_branch@));
    run_pr_api(sh, &args, "retarget", change_id)
}

} // verus!
