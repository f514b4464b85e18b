//! Which commit the target of a merge or a sync stands for.

use vstd::prelude::*;

use crate::branches;
use crate::context;
use crate::error::CauseView;
use crate::model::{GhPrView, GitHubContextView, MergeTargetView};
use crate::output;
use crate::pr;
use crate::pr::GetTargetView;
use crate::reading::deed;
use crate::record;
use crate::record::Event;
use crate::revsets;
use crate::stack;
use crate::text;

verus! {

broadcast use crate::record::group_record;

/// At `i` the pull request `pr` is read, out of what GitHub answered right before, when it was asked
/// for the request `number` of `repo`.
pub open spec fn reads_request(
    log: Seq<Event>,
    i: int,
    repo: Seq<char>,
    number: u64,
    pr: GhPrView,
) -> bool {
    &&& 0 < i < log.len()
    &&& log[i] is PrRead
    &&& log[i]->pr == Ok::<GhPrView, Seq<CauseView>>(pr)
    &&& deed(log[i - 1]) is Fetched
    &&& deed(log[i - 1])->Fetched_path == "repos/"@ + repo + "/pulls/"@ + text::decimal(
        number as nat,
    )
    &&& record::reply_of(log[i - 1]) is Ok
    &&& (record::reply_of(log[i - 1])->Ok_0).success
    &&& (record::reply_of(log[i - 1])->Ok_0).stdout == log[i]->PrRead_json
}

/// Just one of these requests, the one at `k`, has a head branch with this name.
pub open spec fn only_head(prs: Seq<GhPrView>, k: int, name: Seq<char>) -> bool {
    &&& 0 <= k < prs.len()
    &&& forall|m: int|
        0 <= m < prs.len() ==> ((#[trigger] prs[m]).head_ref_name == name <==> m == k)
}

/// Just one of these requests, the one at `k`, has a head branch of the change.
pub open spec fn only_branch(prs: Seq<GhPrView>, k: int, prefix: Seq<char>) -> bool {
    &&& 0 <= k < prs.len()
    &&& forall|m: int|
        0 <= m < prs.len() ==> (branches::branch_matches((#[trigger] prs[m]).head_ref_name, prefix)
            <==> m == k)
}

/// The name is a change id, or a revision whose one change id jj told at `i`.
pub open spec fn names_change(log: Seq<Event>, i: int, name: Seq<char>, id: Seq<char>) -> bool {
    ||| id == name
    ||| {
        &&& 0 <= i < log.len()
        &&& deed(log[i]) is ListCommits
        &&& deed(log[i])->ListCommits_revset == name
        &&& record::reply_of(log[i]) is Ok
        &&& text::filled_lines((record::reply_of(log[i])->Ok_0).stdout) == seq![id]
    }
}

/// At `j` the open pull requests of `repo` are read, and just the one at `k`, with this number, goes by
/// the name: its head branch has the name, or, where none has it, is a branch of the change `id`.
pub open spec fn lists_one(
    log: Seq<Event>,
    j: int,
    repo: Seq<char>,
    name: Seq<char>,
    number: u64,
    prs: Seq<GhPrView>,
    k: int,
    id: Seq<char>,
) -> bool {
    &&& 0 < j < log.len()
    &&& log[j] is PrsRead
    &&& log[j]->prs == Ok::<Seq<GhPrView>, Seq<CauseView>>(prs)
    &&& deed(log[j - 1]) is ListRequests
    &&& deed(log[j - 1])->ListRequests_repo == repo
    &&& deed(log[j - 1])->ListRequests_state == "open"@
    &&& 0 <= k < prs.len()
    &&& prs[k].number == number
    &&& {
        ||| only_head(prs, k, name)
        ||| {
            &&& forall|m: int| 0 <= m < prs.len() ==> (#[trigger] prs[m]).head_ref_name != name
            &&& only_branch(prs, k, branches::branch_prefix_of(id))
            &&& names_change(log, j + 1, name, id)
        }
    }
}

proof fn lemma_fetched(
    before: Seq<Event>,
    after: Seq<Event>,
    repo: Seq<char>,
    change_id: Seq<char>,
    number: u64,
    pr: GhPrView,
)
    requires
        pr::pr_fetched(before, after, repo, change_id, number, Ok(pr)),
    ensures
        after.len() == before.len() + 2,
        reads_request(after, after.len() - 1, repo, number, pr),
{
    broadcast use crate::wording::group_wording;

    let n = before.len() as int;
    assert(after[n + 1 - 1] == after[n]);
    assert(after[n] is Call) by {
        reveal(record::in_place);
    }
}

proof fn lemma_with_head(prs: Seq<GhPrView>, name: Seq<char>)
    ensures
        pr::with_head(prs, name).len() == 0 ==> forall|m: int|
            0 <= m < prs.len() ==> (#[trigger] prs[m]).head_ref_name != name,
        pr::with_head(prs, name).len() == 1 ==> exists|k: int|
            {
                &&& #[trigger] only_head(prs, k, name)
                &&& prs[k] == pr::with_head(prs, name)[0]
            },
    decreases prs.len(),
{
    if prs.len() > 0 {
        let front = prs.drop_last();
        let found = pr::with_head(prs, name);
        lemma_with_head(front, name);
        assert forall|m: int| 0 <= m < prs.len() - 1 implies front[m] == #[trigger] prs[m] by {
        }
        if found.len() == 1 {
            if prs.last().head_ref_name == name {
                assert(only_head(prs, prs.len() - 1, name));
            } else {
                let k = choose|k: int|
                    #[trigger] only_head(front, k, name) && front[k] == pr::with_head(front, name)[0];
                assert(only_head(prs, k, name));
            }
        }
    }
}

proof fn lemma_with_prefix(prs: Seq<GhPrView>, prefix: Seq<char>)
    ensures
        pr::with_prefix(prs, prefix).len() == 0 ==> forall|m: int|
            0 <= m < prs.len() ==> !branches::branch_matches((#[trigger] prs[m]).head_ref_name, prefix),
        pr::with_prefix(prs, prefix).len() == 1 ==> exists|k: int|
            {
                &&& #[trigger] only_branch(prs, k, prefix)
                &&& prs[k] == pr::with_prefix(prs, prefix)[0]
            },
    decreases prs.len(),
{
    if prs.len() > 0 {
        let front = prs.drop_last();
        let found = pr::with_prefix(prs, prefix);
        lemma_with_prefix(front, prefix);
        assert forall|m: int| 0 <= m < prs.len() - 1 implies front[m] == #[trigger] prs[m] by {
        }
        if found.len() == 1 {
            if branches::branch_matches(prs.last().head_ref_name, prefix) {
                assert(only_branch(prs, prs.len() - 1, prefix));
            } else {
                let k = choose|k: int|
                    #[trigger] only_branch(front, k, prefix) && front[k] == pr::with_prefix(front, prefix)[0];
                assert(only_branch(prs, k, prefix));
            }
        }
    }
}

/// The law of the lookup: a request that is found for a name was read from GitHub by the number of the
/// one open request of the repository that goes by the name.
pub proof fn law_name_finds_its_request(
    before: Seq<Event>,
    after: Seq<Event>,
    repo: Seq<char>,
    name: Seq<char>,
    purpose: Seq<char>,
    pr: GhPrView,
)
    requires
        pr::target_looked_up(before, after, repo, name, purpose, Ok(pr)),
    ensures
        exists|number: u64, j: int, prs: Seq<GhPrView>, k: int, id: Seq<char>|
            {
                &&& before.len() < j
                &&& #[trigger] lists_one(after, j, repo, name, number, prs, k, id)
                &&& reads_request(after, after.len() - 1, repo, number, pr)
            },
        before.len() < after.len(),
{
    broadcast use crate::wording::group_wording;

    let r = Ok::<GhPrView, Seq<CauseView>>(pr);
    let (mid, listed) = choose|mid: Seq<Event>, listed: Result<Seq<GhPrView>, Seq<CauseView>>|
        {
            &&& #[trigger] pr::open_prs_listed(before, mid, repo, purpose, listed)
            &&& match listed {
                Err(e) => after == mid && r == Err::<GhPrView, _>(e),
                Ok(prs) => if pr::with_head(prs, name).len() > 0 {
                    pr::one_match_fetched(
                        mid,
                        after,
                        repo,
                        name,
                        "branch"@,
                        pr::with_head(prs, name),
                        purpose,
                        r,
                    )
                } else {
                    pr::change_target_resolved(mid, after, repo, name, purpose, prs, r)
                },
            }
        };
    let prs = listed->Ok_0;
    let j = (before.len() + 1) as int;
    assert(mid[j - 1] is Call) by {
        reveal(record::in_place);
    }
    lemma_with_head(prs, name);
    if pr::with_head(prs, name).len() > 0 {
        let number = pr::with_head(prs, name)[0].number;
        lemma_fetched(mid, after, repo, purpose, number, pr);
        assert(after.take(mid.len() as int)[j] == mid[j]);
        assert(after.take(mid.len() as int)[j - 1] == mid[j - 1]);
        let k = choose|k: int|
            #[trigger] only_head(prs, k, name) && prs[k] == pr::with_head(prs, name)[0];
        assert(lists_one(after, j, repo, name, number, prs, k, name));
    } else {
        let (told, expanded) = choose|told: Seq<Event>, expanded: Option<Seq<char>>|
            {
                &&& #[trigger] pr::change_id_expanded(mid, told, name, expanded)
                &&& {
                    let prefix = match expanded {
                        Some(id) => Some(branches::branch_prefix_of(id)),
                        None => pr::change_prefix_of(name),
                    };
                    match prefix {
                        None => after == told && r == Err::<GhPrView, _>(
                            crate::error::reported(pr::no_such_target(purpose, name)),
                        ),
                        Some(prefix) => pr::one_match_fetched(
                            told,
                            after,
                            repo,
                            name,
                            "change id prefix"@,
                            pr::with_prefix(prs, prefix),
                            purpose,
                            r,
                        ),
                    }
                }
            };
        let id = match expanded {
            Some(id) => id,
            None => name,
        };
        let prefix = branches::branch_prefix_of(id);
        let number = pr::with_prefix(prs, prefix)[0].number;
        lemma_fetched(told, after, repo, purpose, number, pr);
        lemma_with_prefix(prs, prefix);
        record::lemma_extends_trans(mid, told, after);
        assert(after.take(mid.len() as int)[j] == mid[j]);
        assert(after.take(mid.len() as int)[j - 1] == mid[j - 1]);
        if expanded is Some {
            assert(after.take(told.len() as int)[j + 1] == told[j + 1]);
            let ids = text::filled_lines((record::last_reply(told)->Ok_0).stdout);
            assert(ids =~= seq![id]);
        }
        let k = choose|k: int|
            #[trigger] only_branch(prs, k, prefix) && prs[k] == pr::with_prefix(prs, prefix)[0];
        assert(lists_one(after, j, repo, name, number, prs, k, id));
    }
}

/// The law of the read request: the request that a target stands for is read from GitHub last, by the
/// number that the target gives, or that the one open request has that goes by its name.
pub proof fn law_target_reads_its_request(
    before: Seq<Event>,
    after: Seq<Event>,
    repo: Seq<char>,
    target: GetTargetView,
    purpose: Seq<char>,
    pr: GhPrView,
) -> (number: u64)
    requires
        pr::target_resolved(before, after, repo, target, purpose, Ok(pr)),
    ensures
        before.len() < after.len() - 1,
        reads_request(after, after.len() - 1, repo, number, pr),
        match target {
            GetTargetView::PullRequest { repo: place, number: given } => number == given,
            GetTargetView::BranchOrChange { repo: place, value } => exists|
                j: int,
                prs: Seq<GhPrView>,
                k: int,
                id: Seq<char>,
            |
                before.len() < j && #[trigger] lists_one(after, j, repo, value, number, prs, k, id),
        },
{
    match target {
        GetTargetView::PullRequest { repo: place, number } => {
            lemma_fetched(before, after, repo, purpose, number, pr);
            number
        },
        GetTargetView::BranchOrChange { repo: place, value } => {
            law_name_finds_its_request(before, after, repo, value, purpose, pr);
            let (number, j, prs, k, id) = choose|
                number: u64,
                j: int,
                prs: Seq<GhPrView>,
                k: int,
                id: Seq<char>,
            |
                {
                    &&& before.len() < j
                    &&& #[trigger] lists_one(after, j, repo, value, number, prs, k, id)
                    &&& reads_request(after, after.len() - 1, repo, number, pr)
                };
            number
        },
    }
}

/// The law of the target: the commit of a target that names a pull request is the head commit of that
/// request, as it was read last; a target that is a number or an address reads the request of that
/// number. The commit of any other target is the one commit that jj listed for it.
pub proof fn law_target_is_the_head(
    before: Seq<Event>,
    after: Seq<Event>,
    input: Seq<char>,
    target: MergeTargetView,
)
    requires
        revsets::merge_target_resolved(before, after, input, Ok(target)),
    ensures
        target.input == input,
        before.len() < after.len(),
        target.pr_number is Some ==> exists|repo: Seq<char>, number: u64, pr: GhPrView|
            {
                &&& #[trigger] reads_request(after, after.len() - 1, repo, number, pr)
                &&& target.commit_id == pr.head_ref_oid
                &&& target.pr_number == Some(pr.number)
                &&& text::parse_number(text::trim(input)) is Some ==> number == text::parse_number(
                    text::trim(input),
                )->Some_0
            },
        target.pr_number is None ==> {
            &&& text::parse_number(text::trim(input)) is None
            &&& deed(after.last()) is ListCommits
            &&& deed(after.last())->ListCommits_revset == input
            &&& record::last_reply(after) is Ok
            &&& (record::last_reply(after)->Ok_0).success
            &&& text::filled_lines((record::last_reply(after)->Ok_0).stdout) == seq![
                target.commit_id,
            ]
        },
{
    broadcast use crate::wording::group_wording;

    let r = Ok::<MergeTargetView, Seq<CauseView>>(target);
    let (mid, github) = choose|mid: Seq<Event>, github: Result<GitHubContextView, Seq<CauseView>>|
        {
            &&& #[trigger] context::github_resolved(before, mid, github)
            &&& match github {
                Err(e) => record::stopped(
                    mid,
                    after,
                    crate::error::in_context(
                        "resolve GitHub repository before resolving merge target"@,
                        e,
                    ),
                    r,
                ),
                Ok(github) => match pr::target_meaning(input, github.repo) {
                    Err(e) => record::stopped(mid, after, e, r),
                    Ok(parsed) => revsets::parsed_target_resolved(mid, after, input, parsed, r),
                },
            }
        };
    let parsed = pr::target_meaning(input, (github->Ok_0).repo)->Ok_0;
    let (told, found) = choose|told: Seq<Event>, found: Result<GhPrView, Seq<CauseView>>|
        {
            &&& #[trigger] pr::target_resolved(mid, told, parsed.place(), parsed, "merge"@, found)
            &&& match found {
                Ok(pr) => after == told && r == Ok::<_, Seq<CauseView>>(
                    revsets::pr_target(input, pr),
                ),
                Err(e) => if parsed is PullRequest {
                    record::stopped(told, after, e, r)
                } else {
                    revsets::plain_rev_resolved(told, after, input, e, r)
                },
            }
        };
    match found {
        Ok(pr) => {
            match parsed {
                GetTargetView::PullRequest { repo, number } => {
                    lemma_fetched(mid, after, repo, "merge"@, number, pr);
                    assert(reads_request(after, after.len() - 1, repo, number, pr));
                },
                GetTargetView::BranchOrChange { repo, value } => {
                    law_name_finds_its_request(mid, after, repo, value, "merge"@, pr);
                    let (number, j, prs, k, id) = choose|
                        number: u64,
                        j: int,
                        prs: Seq<GhPrView>,
                        k: int,
                        id: Seq<char>,
                    |
                        {
                            &&& mid.len() < j
                            &&& #[trigger] lists_one(after, j, repo, value, number, prs, k, id)
                            &&& reads_request(after, after.len() - 1, repo, number, pr)
                        };
                    assert(reads_request(after, after.len() - 1, repo, number, pr));
                },
            }
        },
        Err(e) => {
            lemma_looked_up_extends(mid, told, parsed.place(), parsed->value, "merge"@, found);
            let reply = record::last_reply(after);
            assert(stack::single_commit(input, reply) is Ok);
            assert(output::checked("jj"@, stack::single_rev_args(input), reply) is Ok);
            let lines = text::filled_lines((reply->Ok_0).stdout);
            assert(lines =~= seq![target.commit_id]);
        },
    }
}

proof fn lemma_looked_up_extends(
    before: Seq<Event>,
    after: Seq<Event>,
    repo: Seq<char>,
    name: Seq<char>,
    purpose: Seq<char>,
    r: Result<GhPrView, Seq<CauseView>>,
)
    requires
        pr::target_looked_up(before, after, repo, name, purpose, r),
    ensures
        record::extends(before, after),
{
}

/// The law of the merged commits: without a target the stack of the working copy is merged; with one,
/// the commits above trunk up to the commit of the target, which the law of the target fixes. Neither
/// takes in commits that are immutable or empty.
pub proof fn law_revset_ends_at_the_target(
    before: Seq<Event>,
    after: Seq<Event>,
    wanted: Option<Seq<char>>,
    revset: Seq<char>,
    target: Option<MergeTargetView>,
)
    requires
        revsets::revset_chosen(before, after, wanted, Ok((revset, target))),
    ensures
        target is Some <==> wanted is Some,
        wanted is None ==> revset == "trunk()..@ & ~::(immutable_heads() | root()) & ~empty()"@
            && after == before,
        wanted is Some ==> {
            &&& revset == "trunk().."@ + (target->Some_0).commit_id
                + " & ~::(immutable_heads() | root()) & ~empty()"@
            &&& (target->Some_0).input == wanted->Some_0
            &&& (target->Some_0).pr_number is Some ==> exists|
                repo: Seq<char>,
                number: u64,
                pr: GhPrView,
            |
                {
                    &&& #[trigger] reads_request(after, after.len() - 1, repo, number, pr)
                    &&& revset == "trunk().."@ + pr.head_ref_oid
                        + " & ~::(immutable_heads() | root()) & ~empty()"@
                    &&& (target->Some_0).pr_number == Some(pr.number)
                }
        },
{
    if wanted is Some {
        law_target_is_the_head(before, after, wanted->Some_0, target->Some_0);
    }
}

} // verus!
