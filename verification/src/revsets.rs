//! Which commits a command works on.

use vstd::prelude::*;

use crate::context;
use crate::error;
use crate::error::{CauseView, Error};
use crate::model::{
    GhPrView, GitHubContext, GitHubContextView, MergeRevset, MergeRevsetView, MergeTarget,
    MergeTargetView, SyncRevset, SyncRevsetView,
};
use crate::pr;
use crate::pr::{GetTarget, GetTargetView, hash_text, parse_get_target, resolve_target_pr};
use crate::record;
use crate::record::Event;
use crate::shell::Host;
use crate::shell::wire::Shell;
use crate::stack;
use crate::stack::{DEFAULT_STACK_REVSET, resolve_single_rev};
use crate::text::cat3;

verus! {

broadcast use crate::record::group_record;

/// The stack from trunk up to one commit.
pub open spec fn revset_up_to(commit: Seq<char>) -> Seq<char> {
    "trunk().."@ + commit + " & ~::(immutable_heads() | root()) & ~empty()"@
}

pub fn merge_revset_for_target(target_commit: &str) -> (r: String)
    ensures
        r@ == revset_up_to(target_commit@),
{
    cat3("trunk()..", target_commit, " & ~::(immutable_heads() | root()) & ~empty()")
}

pub open spec fn sync_retry(target: Option<Seq<char>>) -> Seq<char> {
    match target {
        Some(target) => "forklift merge "@ + target + " --sync"@,
        None => "forklift merge --sync"@,
    }
}

pub fn merge_sync_command(target: Option<&str>) -> (r: String)
    ensures
        r@ == sync_retry(target.deep_view()),
{
    match target {
        Some(wanted) => cat3("forklift merge ", wanted, " --sync"),
        None => "forklift merge --sync".to_owned(),
    }
}

pub open spec fn target_label(target: MergeTargetView) -> Seq<char> {
    match target.pr_number {
        Some(number) => pr::hash(number),
        None => "merge target `"@ + target.input + "`"@,
    }
}

impl MergeTarget {
    pub fn label(&self) -> (r: String)
        ensures
            r@ == target_label(self@),
    {
        match self.pr_number {
            Some(number) => hash_text(number),
            None => cat3("merge target `", &self.input, "`"),
        }
    }
}

pub open spec fn pr_target(input: Seq<char>, pr: GhPrView) -> MergeTargetView {
    MergeTargetView { input, commit_id: pr.head_ref_oid, pr_number: Some(pr.number) }
}

/// The record from `before` to `after` holds the question to jj for the one commit of a revision that
/// was no open pull request.
pub open spec fn plain_rev_resolved(
    before: Seq<Event>,
    after: Seq<Event>,
    input: Seq<char>,
    refused: Seq<CauseView>,
    r: Result<MergeTargetView, Seq<CauseView>>,
) -> bool {
    &&& record::called(before, after, "jj"@, stack::single_rev_args(input))
    &&& r == match stack::single_commit(input, record::last_reply(after)) {
        Ok(commit_id) => Ok(MergeTargetView { input, commit_id, pr_number: None }),
        Err(e) => Err(
            error::in_context(
                "merge target `"@ + input
                    + "` did not resolve as an open PR target; PR lookup failed with: "@
                    + error::chain_text(refused),
                e,
            ),
        ),
    }
}

/// The record from `before` to `after` holds how a parsed target becomes a commit: the head of an
/// open pull request, else, for a name, the commit that jj knows by it.
pub open spec fn parsed_target_resolved(
    before: Seq<Event>,
    after: Seq<Event>,
    input: Seq<char>,
    parsed: GetTargetView,
    r: Result<MergeTargetView, Seq<CauseView>>,
) -> bool {
    exists|mid: Seq<Event>, found: Result<GhPrView, Seq<CauseView>>|
        {
            &&& #[trigger] pr::target_resolved(before, mid, parsed.place(), parsed, "merge"@, found)
            &&& match found {
                Ok(pr) => after == mid && r == Ok::<_, Seq<CauseView>>(pr_target(input, pr)),
                Err(e) => if parsed is PullRequest {
                    record::stopped(mid, after, e, r)
                } else {
                    plain_rev_resolved(mid, after, input, e, r)
                },
            }
        }
}

fn resolve_parsed_target<H: Host>(
    sh: &mut Shell<H>,
    username: &str,
    input: &str,
    parsed: &GetTarget,
) -> (r: Result<MergeTarget, Error>)
    ensures
        record::extends(old(sh).log(), final(sh).log()),
        parsed_target_resolved(old(sh).log(), final(sh).log(), input@, parsed@, error::res(r)),
{
    let github = GitHubContext { repo: parsed.repo(), username: username.to_owned() };
    let found = resolve_target_pr(sh, &github, parsed, "merge");
    let ghost seen = error::res(found);
    assert(pr::target_resolved(
        old(sh).log(),
        sh.log(),
        parsed@.place(),
        parsed@,
        "merge"@,
        seen,
    ));
    match found {
        Ok(pr) => Ok(
            MergeTarget {
                input: input.to_owned(),
                commit_id: pr.head_ref_oid,
                pr_number: Some(pr.number),
            },
        ),
        Err(refused) => match parsed {
            GetTarget::PullRequest { .. } => Err(refused),
            GetTarget::BranchOrChange { .. } => match resolve_single_rev(sh, input) {
                Ok(commit_id) => Ok(
                    MergeTarget { input: input.to_owned(), commit_id, pr_number: None },
                ),
                Err(error) => {
                    let mut context = cat3(
                        "merge target `",
                        input,
                        "` did not resolve as an open PR target; PR lookup failed with: ",
                    );
                    context.append(&refused.chain_line());
                    Err(error.context(&context))
                },
            },
        },
    }
}

/// The record from `before` to `after` holds how a target becomes a commit.
pub open spec fn merge_target_resolved(
    before: Seq<Event>,
    after: Seq<Event>,
    input: Seq<char>,
    r: Result<MergeTargetView, Seq<CauseView>>,
) -> bool {
    exists|mid: Seq<Event>, github: Result<GitHubContextView, Seq<CauseView>>|
        {
            &&& #[trigger] context::github_resolved(before, mid, github)
            &&& match github {
                Err(e) => record::stopped(
                    mid,
                    after,
                    error::in_context("resolve GitHub repository before resolving merge target"@, e),
                    r,
                ),
                Ok(github) => match pr::target_meaning(input, github.repo) {
                    Err(e) => record::stopped(mid, after, e, r),
                    Ok(parsed) => parsed_target_resolved(mid, after, input, parsed, r),
                },
            }
        }
}

pub fn resolve_merge_target<H: Host>(sh: &mut Shell<H>, target: &str) -> (r: Result<
    MergeTarget,
    Error,
>)
    ensures
        record::extends(old(sh).log(), final(sh).log()),
        merge_target_resolved(old(sh).log(), final(sh).log(), target@, error::res(r)),
{
    let resolved = GitHubContext::resolve(sh);
    let ghost seen = error::res(resolved);
    assert(context::github_resolved(old(sh).log(), sh.log(), seen));
    let github = match resolved {
        Ok(github) => github,
        Err(error) => return Err(
            error.context("resolve GitHub repository before resolving merge target"),
        ),
    };
    match parse_get_target(target, &github.repo) {
        Err(error) => Err(error),
        Ok(parsed) => resolve_parsed_target(sh, &github.username, target, &parsed),
    }
}

/// The record from `before` to `after` holds how the commits for an optional target are chosen: the
/// stack up to the target, or the default stack.
pub open spec fn revset_chosen(
    before: Seq<Event>,
    after: Seq<Event>,
    target: Option<Seq<char>>,
    r: Result<(Seq<char>, Option<MergeTargetView>), Seq<CauseView>>,
) -> bool {
    match target {
        None => after == before && r == Ok::<_, Seq<CauseView>>(
            (DEFAULT_STACK_REVSET@, None::<MergeTargetView>),
        ),
        Some(target) => target_revset_chosen(before, after, target, r),
    }
}

pub open spec fn target_revset_chosen(
    before: Seq<Event>,
    after: Seq<Event>,
    target: Seq<char>,
    r: Result<(Seq<char>, Option<MergeTargetView>), Seq<CauseView>>,
) -> bool {
    exists|found: Result<MergeTargetView, Seq<CauseView>>|
        {
            &&& #[trigger] merge_target_resolved(before, after, target, found)
            &&& r == match found {
                Err(e) => Err(e),
                Ok(found) => Ok((revset_up_to(found.commit_id), Some(found))),
            }
        }
}

pub open spec fn merge_revset_parts(r: Result<MergeRevsetView, Seq<CauseView>>) -> Result<
    (Seq<char>, Option<MergeTargetView>),
    Seq<CauseView>,
> {
    match r {
        Ok(chosen) => Ok((chosen.revset, chosen.target)),
        Err(e) => Err(e),
    }
}

pub fn effective_merge_revset<H: Host>(sh: &mut Shell<H>, target: Option<&str>) -> (r: Result<
    MergeRevset,
    Error,
>)
    ensures
        record::extends(old(sh).log(), final(sh).log()),
        revset_chosen(
            old(sh).log(),
            final(sh).log(),
            target.deep_view(),
            merge_revset_parts(error::res(r)),
        ),
{
    match target {
        None => Ok(MergeRevset { revset: DEFAULT_STACK_REVSET.to_owned(), target: None }),
        Some(wanted) => {
            let found = resolve_merge_target(sh, wanted);
            let ghost seen = error::res(found);
            assert(merge_target_resolved(old(sh).log(), sh.log(), wanted@, seen));
            match found {
                Err(error) => Err(error),
                Ok(found) => Ok(
                    MergeRevset {
                        revset: merge_revset_for_target(&found.commit_id),
                        target: Some(found),
                    },
                ),
            }
        },
    }
}

pub open spec fn sync_revset_parts(r: Result<SyncRevsetView, Seq<CauseView>>) -> Result<
    (Seq<char>, Option<MergeTargetView>),
    Seq<CauseView>,
> {
    match r {
        Ok(chosen) => Ok((chosen.revset, chosen.target)),
        Err(e) => Err(e),
    }
}

pub fn effective_sync_revset<H: Host>(sh: &mut Shell<H>, target: Option<&str>) -> (r: Result<
    SyncRevset,
    Error,
>)
    ensures
        record::extends(old(sh).log(), final(sh).log()),
        revset_chosen(
            old(sh).log(),
            final(sh).log(),
            target.deep_view(),
            sync_revset_parts(error::res(r)),
        ),
{
    match effective_merge_revset(sh, target) {
        Ok(chosen) => Ok(SyncRevset { revset: chosen.revset, target: chosen.target }),
        Err(error) => Err(error),
    }
}

} // verus!
