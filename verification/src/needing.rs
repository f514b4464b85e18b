//! What a plan says is needed, and what a stack must stand on before it is submitted.

use vstd::prelude::*;

use crate::answers;
use crate::comments::StackCommentActionView;
use crate::error::CauseView;
use crate::heading;
use crate::heads::SubmitHeadView;
use crate::model::{
    FrozenDependencyView, GhPrView, PrCacheEntryView, ResolvedChangeView, SubmitPlanView,
};
use crate::planning;
use crate::pr;
use crate::reading::{Deed, deed};
use crate::record;
use crate::record::Event;
use crate::stack;
use crate::submit;
use crate::submit::SubmitSummary;
use crate::targeting;
use crate::ui;

verus! {

broadcast use crate::record::group_record;

/// The law of the plan: the plan of a change is for that change, its head, its request and what is known of
/// the remote; a push is needed just where the remote does not have the commit of the change at the head;
/// and a request is updated just where there is one and either its head is pushed, or its base, title or
/// body is not the one of the plan.
pub proof fn law_plan_says_what_is_needed(
    change: ResolvedChangeView,
    base_branch: Seq<char>,
    head: SubmitHeadView,
    plan: SubmitPlanView,
)
    requires
        planning::plan_result(change, base_branch, head) == Ok::<SubmitPlanView, Seq<CauseView>>(plan),
    ensures
        plan.change == change,
        plan.head_branch == head.head_branch,
        plan.base_branch == base_branch,
        plan.existing_pr == head.existing_pr,
        plan.expected_remote_head == head.expected_remote_head,
        !plan.push_needed <==> head.expected_remote_head == Some(change.commit_id),
        plan.existing_pr is None ==> !plan.pr_update_needed,
        plan.existing_pr matches Some(entry) ==> (!plan.pr_update_needed <==> {
            &&& head.expected_remote_head == Some(change.commit_id)
            &&& entry.base_branch == base_branch
            &&& entry.base_ref == base_branch
            &&& entry.title == change.title
            &&& entry.body == change.body
        }),
        plan.existing_pr matches Some(entry) ==> head.expected_remote_head is Some && (
        head.expected_remote_head == Some(change.commit_id) || head.expected_remote_head == Some(
            entry.head_sha,
        )),
{
}

/// The law of the counts: the summary counts the plans by what they need: those to be pushed, those
/// without a request, those whose request is updated, and those whose request is left.
pub proof fn law_summary_counts_the_plans(plans: Seq<SubmitPlanView>)
    ensures
        planning::pushed(plans) == plans.filter(|p: SubmitPlanView| p.push_needed),
        submit::created_count(plans) == plans.filter(|p: SubmitPlanView| p.existing_pr is None).len(),
        submit::updated_count(plans) == plans.filter(
            |p: SubmitPlanView| p.existing_pr is Some && p.pr_update_needed,
        ).len(),
        submit::unchanged_count(plans) == plans.filter(
            |p: SubmitPlanView| p.existing_pr is Some && !p.pr_update_needed,
        ).len(),
        submit::created_count(plans) + submit::updated_count(plans) + submit::unchanged_count(plans)
            == plans.len(),
        plans.len() <= usize::MAX ==> {
            let s = submit::planned_summary(plans);
            &&& s.pushed_refs == plans.filter(|p: SubmitPlanView| p.push_needed).len()
            &&& s.created_prs == submit::created_count(plans)
            &&& s.updated_prs == submit::updated_count(plans)
            &&& s.unchanged_prs == submit::unchanged_count(plans)
            &&& s.created_comments == 0 && s.updated_comments == 0 && s.unchanged_comments == 0
            &&& s.duplicate_comment_warnings == 0
        },
    decreases plans.len(),
{
    reveal(Seq::filter);
    if plans.len() > 0 {
        law_summary_counts_the_plans(plans.drop_last());
    }
    plans.lemma_filter_len(|p: SubmitPlanView| p.push_needed);
}

/// The law of the comment counts: each comment that is settled counts once, as made, changed or left, and
/// the entry keeps its id and nothing else of it.
pub proof fn law_comment_counts_once(
    summary: SubmitSummary,
    entry: PrCacheEntryView,
    action: StackCommentActionView,
)
    requires
        summary.created_comments < usize::MAX,
        summary.updated_comments < usize::MAX,
        summary.unchanged_comments < usize::MAX,
    ensures
        ({
            let next = submit::commented(summary, action);
            &&& next.created_comments == summary.created_comments + (if action is Created { 1int } else { 0 })
            &&& next.updated_comments == summary.updated_comments + (if action is Updated { 1int } else { 0 })
            &&& next.unchanged_comments == summary.unchanged_comments + (if action is Unchanged {
                1int
            } else {
                0
            })
            &&& next.pushed_refs == summary.pushed_refs
            &&& next.created_prs == summary.created_prs
            &&& next.updated_prs == summary.updated_prs
            &&& next.unchanged_prs == summary.unchanged_prs
        }),
        submit::with_comment(entry, action).stack_comment_id == Some(
            match action {
                StackCommentActionView::Created(id) => id,
                StackCommentActionView::Updated(id, more) => id,
                StackCommentActionView::Unchanged(id) => id,
            },
        ),
        (PrCacheEntryView {
            stack_comment_id: entry.stack_comment_id,
            ..submit::with_comment(entry, action)
        }) == entry,
{
}

/// Whether git told, in `from..`, that two histories meet at this commit.
pub open spec fn fork_was_told(
    from: int,
    log: Seq<Event>,
    left: Seq<char>,
    right: Seq<char>,
    at: Seq<char>,
) -> bool {
    exists|i: int|
        {
            &&& from <= i < log.len()
            &&& deed(#[trigger] log[i]) == (Deed::FindFork { left, right })
            &&& answers::told(record::reply_of(log[i]), at)
        }
}

proof fn lemma_first_among(ids: Seq<Seq<char>>, commits: Seq<Seq<char>>)
    ensures
        stack::first_among(ids, commits) matches Some(id) ==> ids.contains(id) && commits.contains(id),
    decreases ids.len(),
{
    if ids.len() > 0 {
        let rest = ids.drop_first();
        lemma_first_among(rest, commits);
        assert(ids.contains(ids[0]));
        if !commits.contains(ids[0]) && stack::first_among(ids, commits) is Some {
            let id = stack::first_among(ids, commits)->Some_0;
            let k = choose|k: int| 0 <= k < rest.len() && rest[k] == id;
            assert(ids[k + 1] == id);
        }
    }
}

/// Each change from `at` on has the one below it as a parent, and meets it there.
pub open spec fn steps_stand(from: int, log: Seq<Event>, stack: Seq<ResolvedChangeView>, at: int) -> bool {
    forall|a: int, b: int|
        0 <= a && b == a + 1 && at <= b < stack.len() ==> {
            &&& (#[trigger] stack[b]).parent_ids.contains((#[trigger] stack[a]).commit_id)
            &&& fork_was_told(from, log, stack[b].commit_id, stack[a].commit_id, stack[a].commit_id)
        }
}

proof fn lemma_steps(
    before: Seq<Event>,
    after: Seq<Event>,
    stack: Seq<ResolvedChangeView>,
    at: int,
    from: int,
)
    requires
        planning::steps_checked(before, after, stack, at, Ok(())),
        0 <= from <= before.len(),
        1 <= at,
    ensures
        steps_stand(from, after, stack, at),
        record::extends(before, after),
    decreases stack.len() - at,
{
    broadcast use crate::wording::group_wording;

    record::lemma_extends_refl(before);
    if at < stack.len() {
        let n = before.len() as int;
        let parent = stack[at - 1];
        let child = stack[at];
        lemma_first_among(child.parent_ids, seq![parent.commit_id]);
        let mid = after.take(n + 1);
        let reply = record::reply_of(after[n]);
        answers::law_asked_commit_is_the_word(
            arbitrary(),
            child.commit_id,
            parent.commit_id,
            reply,
            parent.commit_id,
        );
        assert(after[n] is Call) by {
            reveal(record::in_place);
        }
        assert(deed(after[n]) == (Deed::FindFork {
            left: child.commit_id,
            right: parent.commit_id,
        }));
        assert(fork_was_told(from, after, child.commit_id, parent.commit_id, parent.commit_id));
        lemma_steps(mid, after, stack, at + 1, from);
        assert forall|a: int, b: int| 0 <= a && b == a + 1 && at <= b < stack.len() implies {
            &&& (#[trigger] stack[b]).parent_ids.contains((#[trigger] stack[a]).commit_id)
            &&& fork_was_told(from, after, stack[b].commit_id, stack[a].commit_id, stack[a].commit_id)
        } by {
            if b == at {
                assert(stack[a] == parent);
            }
        }
    }
}

/// The law of the base: a stack is submitted only where each change has the one below it as a parent and
/// meets it there, and where the lowest meets what it stands on at its parent: trunk, or the topmost of
/// the frozen requests, which is then that parent.
pub proof fn law_submitted_stack_stands(
    before: Seq<Event>,
    after: Seq<Event>,
    trunk: Seq<char>,
    stack: Seq<ResolvedChangeView>,
    frozen: Seq<FrozenDependencyView>,
)
    requires
        planning::bases_checked(before, after, trunk, stack, frozen, Ok(())),
    ensures
        stack.len() > 0,
        stack[0].parent_ids.len() > 0,
        steps_stand(before.len() as int, after, stack, 1),
        frozen.len() > 0 ==> stack[0].parent_ids[0] == frozen.last().change.commit_id,
        fork_was_told(
            before.len() as int,
            after,
            stack[0].commit_id,
            if frozen.len() > 0 {
                frozen.last().change.commit_id
            } else {
                trunk
            },
            stack[0].parent_ids[0],
        ),
{
    broadcast use crate::wording::group_wording;

    let n = before.len() as int;
    let base = planning::base_result(trunk, stack, frozen)->Ok_0;
    answers::law_asked_commit_is_the_word(
        arbitrary(),
        stack[0].commit_id,
        base.target,
        record::reply_of(after[n]),
        base.parent,
    );
    assert(after[n] is Call) by {
        reveal(record::in_place);
    }
    assert(deed(after[n]) == (Deed::FindFork { left: stack[0].commit_id, right: base.target }));
    lemma_steps(after.take(n + 1), after, stack, 1, n);
}

/// What is known of the entry of a frozen request: it is of the request that the frozen bookmark is named
/// for, which is open, of this repository, and at the frozen commit.
pub open spec fn frozen_entry_known(
    from: int,
    log: Seq<Event>,
    repo: Seq<char>,
    dependency: FrozenDependencyView,
    kept: (Seq<char>, PrCacheEntryView),
) -> bool {
    &&& kept.0 == dependency.change.change_id
    &&& kept.1.head_sha == dependency.change.commit_id
    &&& kept.1.head_repo_name == repo
    &&& kept.1.base_repo_name == repo
    &&& exists|i: int, pr: GhPrView|
        {
            &&& from < i
            &&& #[trigger] targeting::reads_request(
                log,
                i,
                repo,
                dependency.bookmark.pr_number,
                pr,
            )
            &&& heading::mirrors(kept.1, pr)
            &&& pr::is_open(pr.state)
        }
}

proof fn lemma_frozen_entry_stays(
    from: int,
    mid: Seq<Event>,
    after: Seq<Event>,
    repo: Seq<char>,
    dependency: FrozenDependencyView,
    kept: (Seq<char>, PrCacheEntryView),
)
    requires
        0 <= from,
        record::extends(mid, after),
        frozen_entry_known(from, mid, repo, dependency, kept),
    ensures
        frozen_entry_known(from, after, repo, dependency, kept),
{
    let (i, pr) = choose|i: int, pr: GhPrView|
        {
            &&& from < i
            &&& #[trigger] targeting::reads_request(mid, i, repo, dependency.bookmark.pr_number, pr)
            &&& heading::mirrors(kept.1, pr)
            &&& pr::is_open(pr.state)
        };
    assert(after.take(mid.len() as int)[i] == mid[i]);
    assert(after.take(mid.len() as int)[i - 1] == mid[i - 1]);
    assert(targeting::reads_request(after, i, repo, dependency.bookmark.pr_number, pr));
}

proof fn lemma_frozen_entries(
    before: Seq<Event>,
    after: Seq<Event>,
    repo: Seq<char>,
    dependencies: Seq<FrozenDependencyView>,
    done: Seq<(Seq<char>, PrCacheEntryView)>,
    entries: Seq<(Seq<char>, PrCacheEntryView)>,
    from: int,
)
    requires
        planning::frozen_entries_walked(before, after, repo, dependencies, done, Ok(entries)),
        done.len() <= dependencies.len(),
        0 <= from <= before.len(),
        forall|k: int|
            0 <= k < done.len() ==> frozen_entry_known(
                from,
                before,
                repo,
                dependencies[k],
                #[trigger] done[k],
            ),
    ensures
        record::extends(before, after),
        entries.len() == dependencies.len(),
        forall|k: int|
            0 <= k < entries.len() ==> frozen_entry_known(
                from,
                after,
                repo,
                dependencies[k],
                #[trigger] entries[k],
            ),
    decreases dependencies.len() - done.len(),
{
    record::lemma_extends_refl(before);
    if done.len() < dependencies.len() {
        let r = Ok::<Seq<(Seq<char>, PrCacheEntryView)>, Seq<CauseView>>(entries);
        let dependency = dependencies[done.len() as int];
        let (mid, fetched) = choose|mid: Seq<Event>, fetched: Result<GhPrView, Seq<CauseView>>|
            {
                &&& #[trigger] pr::pr_fetched(
                    before,
                    mid,
                    repo,
                    dependency.change.change_id,
                    dependency.bookmark.pr_number,
                    fetched,
                )
                &&& match fetched {
                    Err(e) => record::stopped(mid, after, e, r),
                    Ok(pr) => match planning::frozen_pr_fault(repo, dependency, pr) {
                        Some(e) => record::stopped(mid, after, e, r),
                        None => planning::frozen_entries_walked(
                            mid + ui::logged(
                                planning::resolved_dependency(dependency.bookmark.name, pr),
                            ),
                            after,
                            repo,
                            dependencies,
                            done.push((dependency.change.change_id, pr::entry_of(pr, None))),
                            r,
                        ),
                    },
                }
            };
        let pr = fetched->Ok_0;
        let kept = (dependency.change.change_id, pr::entry_of(pr, None));
        let next = done.push(kept);
        let told = mid + ui::logged(planning::resolved_dependency(dependency.bookmark.name, pr));
        let read = targeting::law_target_reads_its_request(
            before,
            mid,
            repo,
            (pr::GetTargetView::PullRequest { repo, number: dependency.bookmark.pr_number }),
            dependency.change.change_id,
            pr,
        );
        heading::law_entry_mirrors_its_request(pr, arbitrary(), None);
        reveal_strlit("head");
        reveal_strlit("base");
        assert("head"@[0] != "base"@[0]);
        assert(frozen_entry_known(from, mid, repo, dependency, kept));
        record::lemma_extends_add(
            mid,
            ui::logged(planning::resolved_dependency(dependency.bookmark.name, pr)),
        );
        record::lemma_extends_trans(before, mid, told);
        assert forall|k: int| 0 <= k < next.len() implies frozen_entry_known(
            from,
            told,
            repo,
            dependencies[k],
            #[trigger] next[k],
        ) by {
            if k < done.len() {
                assert(next[k] == done[k]);
                lemma_frozen_entry_stays(from, before, told, repo, dependencies[k], done[k]);
            } else {
                lemma_frozen_entry_stays(from, mid, told, repo, dependency, kept);
            }
        }
        lemma_frozen_entries(told, after, repo, dependencies, next, entries, from);
        record::lemma_extends_trans(before, told, after);
    }
}

/// The law of the frozen entries: of each frozen request below the stack GitHub told that it is open, is of
/// this repository, and is at the frozen commit; its entry is what GitHub told.
pub proof fn law_frozen_entries_are_known(
    before: Seq<Event>,
    after: Seq<Event>,
    repo: Seq<char>,
    dependencies: Seq<FrozenDependencyView>,
    entries: Seq<(Seq<char>, PrCacheEntryView)>,
    k: int,
)
    requires
        planning::frozen_entries_resolved(before, after, repo, dependencies, Ok(entries)),
        0 <= k < dependencies.len(),
    ensures
        entries.len() == dependencies.len(),
        frozen_entry_known(before.len() as int, after, repo, dependencies[k], entries[k]),
{
    lemma_frozen_entries(
        before,
        after,
        repo,
        dependencies,
        seq![],
        entries,
        before.len() as int,
    );
}

} // verus!
