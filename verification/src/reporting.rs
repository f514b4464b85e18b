//! What a status report says.

use vstd::prelude::*;

use crate::error::CauseView;
use crate::heads::SubmitHeadView;
use crate::model::{
    AppConfigView, FrozenDependencyView, GhMergePrView, GhPrView, GitHubContextView,
    ResolvedChangeView, StatusAliasStateView, StatusFrozenDependencyView, StatusOwnedPrView,
};
use crate::pr;
use crate::ready;
use crate::record;
use crate::record::Event;
use crate::status;
use crate::targeting;
use crate::text;

verus! {

broadcast use crate::record::group_record;

/// The law of the row: the row of a change names the change, the head and base that it is submitted under,
/// and the request that it has. It says `create` just where there is no request, and `unchanged` just
/// where the remote has the commit at the head and the base, title and body of the request are those of
/// the change.
pub proof fn law_row_says_what_a_submit_does(
    change: ResolvedChangeView,
    base_branch: Seq<char>,
    head: SubmitHeadView,
)
    ensures
        ({
            let row = status::ready_row(change, base_branch, head);
            &&& row.change_id == change.change_id
            &&& row.commit_id == change.commit_id
            &&& row.title == change.title
            &&& row.head_branch == head.head_branch
            &&& row.base_branch == base_branch
            &&& row.bookmark_problem is None
            &&& row.pr_number is Some <==> head.existing_pr is Some
            &&& head.existing_pr matches Some(entry) ==> row.pr_number == Some(entry.pr_number)
            &&& row.action == "create"@ <==> head.existing_pr is None
            &&& row.action == "unchanged"@ <==> {
                &&& head.existing_pr is Some
                &&& head.expected_remote_head == Some(change.commit_id)
                &&& head.existing_pr->Some_0.base_branch == base_branch
                &&& head.existing_pr->Some_0.base_ref == base_branch
                &&& head.existing_pr->Some_0.title == change.title
                &&& head.existing_pr->Some_0.body == change.body
            }
            &&& row.action == "create"@ || row.action == "update"@ || row.action == "unchanged"@
        }),
{
    lemma_actions();
}

proof fn lemma_actions()
    ensures
        "create"@ != "update"@,
        "create"@ != "unchanged"@,
        "create"@ != "blocked"@,
        "update"@ != "unchanged"@,
        "update"@ != "blocked"@,
        "unchanged"@ != "blocked"@,
{
    reveal_strlit("create");
    reveal_strlit("update");
    reveal_strlit("unchanged");
    reveal_strlit("blocked");
    assert("create"@[0] == 'c');
    assert("update"@[0] == 'u' && "update"@.len() == 6);
    assert("unchanged"@.len() == 9);
    assert("blocked"@[0] == 'b');
}

/// The law of the frozen row: the row of a frozen request names its bookmark, number, change and title; it
/// has no problem just where GitHub told of the request, has it at the frozen commit, and has it open or
/// merged.
pub proof fn law_frozen_row_says_what_github_told(
    dependency: FrozenDependencyView,
    got: Result<GhPrView, Seq<CauseView>>,
)
    ensures
        ({
            let row = status::frozen_status(dependency, got);
            &&& row.bookmark == dependency.bookmark.name
            &&& row.pr_number == dependency.bookmark.pr_number
            &&& row.change_id == dependency.change.change_id
            &&& row.commit_id == dependency.change.commit_id
            &&& row.title == dependency.change.title
            &&& got matches Ok(pr) ==> row.head_branch == Some(pr.head_ref_name) && row.state == pr.state
            &&& got is Err ==> row.head_branch is None && row.state == "UNKNOWN"@
            &&& row.problem is None <==> {
                &&& got is Ok
                &&& (got->Ok_0).head_ref_oid == dependency.change.commit_id
                &&& text::lower_all((got->Ok_0).state) == text::lower_all("open"@) || text::lower_all(
                    (got->Ok_0).state,
                ) == text::lower_all("merged"@)
            }
        }),
{
    reveal_strlit("OPEN");
    reveal_strlit("open");
    reveal_strlit("MERGED");
    reveal_strlit("merged");
    assert(text::lower_all("OPEN"@) =~= text::lower_all("open"@));
    assert(text::lower_all("MERGED"@) =~= text::lower_all("merged"@));
}

/// The row is of the dependency, with what GitHub told of its request, if it told anything.
pub open spec fn row_known(
    from: int,
    log: Seq<Event>,
    repo: Seq<char>,
    dependency: FrozenDependencyView,
    row: StatusFrozenDependencyView,
) -> bool {
    &&& row.bookmark == dependency.bookmark.name
    &&& row.commit_id == dependency.change.commit_id
    &&& row.head_branch is None || exists|i: int, pr: GhPrView|
        {
            &&& from < i
            &&& #[trigger] targeting::reads_request(
                log,
                i,
                repo,
                dependency.bookmark.pr_number,
                pr,
            )
            &&& row.head_branch == Some(pr.head_ref_name)
            &&& row.state == pr.state
        }
}

proof fn lemma_row_stays(
    from: int,
    mid: Seq<Event>,
    after: Seq<Event>,
    repo: Seq<char>,
    dependency: FrozenDependencyView,
    row: StatusFrozenDependencyView,
)
    requires
        0 <= from,
        record::extends(mid, after),
        row_known(from, mid, repo, dependency, row),
    ensures
        row_known(from, after, repo, dependency, row),
{
    if row.head_branch is Some {
        let (i, pr) = choose|i: int, pr: GhPrView|
            {
                &&& from < i
                &&& #[trigger] targeting::reads_request(
                    mid,
                    i,
                    repo,
                    dependency.bookmark.pr_number,
                    pr,
                )
                &&& row.head_branch == Some(pr.head_ref_name)
                &&& row.state == pr.state
            };
        assert(after.take(mid.len() as int)[i] == mid[i]);
        assert(after.take(mid.len() as int)[i - 1] == mid[i - 1]);
        assert(targeting::reads_request(after, i, repo, dependency.bookmark.pr_number, pr));
    }
}

proof fn lemma_frozen_surveyed(
    before: Seq<Event>,
    after: Seq<Event>,
    repo: Seq<char>,
    dependencies: Seq<FrozenDependencyView>,
    done: Seq<StatusFrozenDependencyView>,
    rows: Seq<StatusFrozenDependencyView>,
    from: int,
)
    requires
        status::frozen_surveyed(before, after, repo, dependencies, done, rows),
        done.len() <= dependencies.len(),
        0 <= from <= before.len(),
        forall|k: int|
            0 <= k < done.len() ==> row_known(
                from,
                before,
                repo,
                dependencies[k],
                #[trigger] done[k],
            ),
    ensures
        rows.len() == dependencies.len(),
        forall|k: int|
            0 <= k < rows.len() ==> row_known(from, after, repo, dependencies[k], #[trigger] rows[k]),
    decreases dependencies.len() - done.len(),
{
    if done.len() < dependencies.len() {
        let dependency = dependencies[done.len() as int];
        let (mid, got) = choose|mid: Seq<Event>, got: Result<GhPrView, Seq<CauseView>>|
            {
                &&& #[trigger] pr::pr_fetched(
                    before,
                    mid,
                    repo,
                    dependency.change.change_id,
                    dependency.bookmark.pr_number,
                    got,
                )
                &&& status::frozen_surveyed(
                    mid,
                    after,
                    repo,
                    dependencies,
                    done.push(status::frozen_status(dependency, got)),
                    rows,
                )
            };
        let row = status::frozen_status(dependency, got);
        let next = done.push(row);
        law_frozen_row_says_what_github_told(dependency, got);
        if got is Ok {
            let read = targeting::law_target_reads_its_request(
                before,
                mid,
                repo,
                (pr::GetTargetView::PullRequest { repo, number: dependency.bookmark.pr_number }),
                dependency.change.change_id,
                got->Ok_0,
            );
        }
        assert(row_known(from, mid, repo, dependency, row));
        assert forall|k: int| 0 <= k < next.len() implies row_known(
            from,
            mid,
            repo,
            dependencies[k],
            #[trigger] next[k],
        ) by {
            if k < done.len() {
                assert(next[k] == done[k]);
                lemma_row_stays(from, before, mid, repo, dependencies[k], done[k]);
            }
        }
        lemma_frozen_surveyed(mid, after, repo, dependencies, next, rows, from);
    }
}

/// The law of the frozen rows: a report has one row for each frozen request, in order, with what GitHub told
/// of that request.
pub proof fn law_frozen_rows_are_known(
    before: Seq<Event>,
    after: Seq<Event>,
    repo: Seq<char>,
    dependencies: Seq<FrozenDependencyView>,
    rows: Seq<StatusFrozenDependencyView>,
    k: int,
)
    requires
        status::all_frozen_surveyed(before, after, repo, dependencies, rows),
        0 <= k < dependencies.len(),
    ensures
        rows.len() == dependencies.len(),
        row_known(before.len() as int, after, repo, dependencies[k], rows[k]),
{
    lemma_frozen_surveyed(
        before,
        after,
        repo,
        dependencies,
        seq![],
        rows,
        before.len() as int,
    );
}

/// The law of the blockers: a merge is not blocked just where nothing below the stack blocks it and the
/// lowest request passes every gate without the rights of an administrator.
pub proof fn law_unblocked_means_ready(
    config: AppConfigView,
    change: ResolvedChangeView,
    pr: GhMergePrView,
    free: Result<(), Seq<CauseView>>,
)
    ensures
        status::readiness_blockers(config, change, pr, free).len() == 0 <==> free is Ok
            && ready::merge_fault(config, change, pr::merge_entry_of(pr, None), pr, false) is None,
        status::readiness_blockers(config, change, pr, free).len() <= 1,
{
}

proof fn lemma_problems(
    frozen: Seq<StatusFrozenDependencyView>,
    rows: Seq<StatusOwnedPrView>,
    problem: Seq<char>,
)
    ensures
        status::frozen_problems(frozen).contains(problem) <==> exists|k: int|
            0 <= k < frozen.len() && (#[trigger] frozen[k]).problem == Some(problem),
        status::row_problems(rows).contains(problem) <==> exists|k: int|
            0 <= k < rows.len() && (#[trigger] rows[k]).bookmark_problem == Some(problem),
    decreases frozen.len() + rows.len(),
{
    if frozen.len() > 0 {
        let front = frozen.drop_last();
        lemma_problems(front, rows, problem);
        let rest = status::frozen_problems(front);
        let all = status::frozen_problems(frozen);
        let last = frozen[frozen.len() - 1];
        if last.problem is Some {
            assert(all == rest.push(last.problem->Some_0));
            lemma_pushed(rest, last.problem->Some_0, problem);
        }
        if rest.contains(problem) {
            let k = choose|k: int| 0 <= k < front.len() && (#[trigger] front[k]).problem == Some(problem);
            assert(frozen[k] == front[k]);
        }
        assert forall|k: int| 0 <= k < frozen.len() && (#[trigger] frozen[k]).problem == Some(
            problem,
        ) implies all.contains(problem) by {
            if k < front.len() {
                assert(front[k] == frozen[k]);
            }
        }
    } else if rows.len() > 0 {
        let front = rows.drop_last();
        lemma_problems(frozen, front, problem);
        let rest = status::row_problems(front);
        let all = status::row_problems(rows);
        let last = rows[rows.len() - 1];
        if last.bookmark_problem is Some {
            assert(all == rest.push(last.bookmark_problem->Some_0));
            lemma_pushed(rest, last.bookmark_problem->Some_0, problem);
        }
        if rest.contains(problem) {
            let k = choose|k: int|
                0 <= k < front.len() && (#[trigger] front[k]).bookmark_problem == Some(problem);
            assert(rows[k] == front[k]);
        }
        assert forall|k: int|
            0 <= k < rows.len() && (#[trigger] rows[k]).bookmark_problem == Some(
                problem,
            ) implies all.contains(problem) by {
            if k < front.len() {
                assert(front[k] == rows[k]);
            }
        }
    }
}

proof fn lemma_pushed(rest: Seq<Seq<char>>, one: Seq<char>, problem: Seq<char>)
    ensures
        rest.push(one).contains(problem) <==> rest.contains(problem) || one == problem,
{
    let all = rest.push(one);
    if all.contains(problem) {
        let k = choose|k: int| 0 <= k < all.len() && all[k] == problem;
        if k < rest.len() {
            assert(rest[k] == problem);
        }
    }
    if rest.contains(problem) {
        let k = choose|k: int| 0 <= k < rest.len() && rest[k] == problem;
        assert(all[k] == problem);
    }
    if one == problem {
        assert(all[rest.len() as int] == problem);
    }
}

/// The law of the report: it names the repository, the user and the settings, and shows the rows and the
/// blockers that it was made of. A problem stands in it just where a frozen request, a row, or a blocker
/// has it.
pub proof fn law_report_hides_no_problem(
    config: AppConfigView,
    github: GitHubContextView,
    aliases: StatusAliasStateView,
    frozen: Seq<StatusFrozenDependencyView>,
    rows: Seq<StatusOwnedPrView>,
    blockers: Seq<Seq<char>>,
    problem: Seq<char>,
)
    ensures
        ({
            let report = status::report_of(config, github, aliases, frozen, rows, blockers);
            &&& report.repo == github.repo
            &&& report.username == github.username
            &&& report.remote == config.remote
            &&& report.trunk == config.trunk
            &&& report.branch_prefix == config.branch_prefix
            &&& report.require_approval == config.require_approval
            &&& report.startup_aliases == aliases
            &&& report.owned_prs == rows
            &&& report.frozen_dependencies == frozen
            &&& report.merge_blockers == blockers
            &&& frozen.len() > 0 && frozen.last().head_branch is Some
                ==> report.first_owned_base_branch == frozen.last().head_branch
            &&& frozen.len() == 0 ==> report.first_owned_base_branch == Some(config.trunk)
            &&& report.problems.contains(problem) <==> {
                ||| exists|k: int|
                    0 <= k < frozen.len() && (#[trigger] frozen[k]).problem == Some(problem)
                ||| exists|k: int|
                    0 <= k < rows.len() && (#[trigger] rows[k]).bookmark_problem == Some(problem)
                ||| blockers.contains(problem)
            }
        }),
{
    lemma_problems(frozen, rows, problem);
    let a = status::frozen_problems(frozen);
    let b = status::row_problems(rows);
    lemma_added(a, b, problem);
    lemma_added(a + b, blockers, problem);
}

proof fn lemma_added(a: Seq<Seq<char>>, b: Seq<Seq<char>>, x: Seq<char>)
    ensures
        (a + b).contains(x) <==> a.contains(x) || b.contains(x),
{
    let all = a + b;
    if all.contains(x) {
        let k = choose|k: int| 0 <= k < all.len() && all[k] == x;
        if k < a.len() {
            assert(a[k] == x);
        } else {
            assert(b[k - a.len()] == x);
        }
    }
    if a.contains(x) {
        let k = choose|k: int| 0 <= k < a.len() && a[k] == x;
        assert(all[k] == x);
    }
    if b.contains(x) {
        let k = choose|k: int| 0 <= k < b.len() && b[k] == x;
        assert(all[a.len() + k] == x);
    }
}

/// The law of the next step: a merge is proposed only where nothing blocks it and a submit would change
/// nothing; a submit only where a row is not unchanged; a sync only where a problem speaks of one, or of
/// a frozen request, and then always.
pub proof fn law_next_step_is_possible(
    rows: Seq<StatusOwnedPrView>,
    blockers: Seq<Seq<char>>,
    problems: Seq<Seq<char>>,
)
    requires
        forall|k: int|
            0 <= k < rows.len() ==> (#[trigger] rows[k]).action == "create"@ || rows[k].action
                == "update"@ || rows[k].action == "blocked"@ || rows[k].action == "unchanged"@,
    ensures
        status::next_command(rows, blockers, problems) == "forklift merge"@ ==> blockers.len() == 0
            && forall|k: int| 0 <= k < rows.len() ==> (#[trigger] rows[k]).action == "unchanged"@,
        status::next_command(rows, blockers, problems) == "forklift submit"@ ==> exists|k: int|
            0 <= k < rows.len() && (#[trigger] rows[k]).action != "unchanged"@,
        status::next_command(rows, blockers, problems) == "forklift sync"@ <==> exists|k: int|
            0 <= k < problems.len() && (text::contains(#[trigger] problems[k], "forklift sync"@)
                || text::contains(problems[k], "frozen dependency"@)),
        status::next_command(rows, blockers, problems) == "resolve merge blockers"@ ==> blockers.len()
            > 0,
{
    lemma_actions();
    reveal_strlit("forklift merge");
    reveal_strlit("forklift submit");
    reveal_strlit("forklift sync");
    reveal_strlit("resolve merge blockers");
    assert("forklift merge"@.len() == 14);
    assert("forklift submit"@.len() == 15);
    assert("forklift sync"@.len() == 13);
    assert("resolve merge blockers"@.len() == 22);
    assert forall|k: int| 0 <= k < problems.len() implies status::asks_for_sync(
        #[trigger] problems[k],
    ) == (text::contains(problems[k], "forklift sync"@) || text::contains(
        problems[k],
        "frozen dependency"@,
    )) by {}
    assert forall|k: int| 0 <= k < rows.len() implies status::asks_for_submit(#[trigger] rows[k])
        == (rows[k].action != "unchanged"@) by {}
}

} // verus!
