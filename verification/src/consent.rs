//! What is done only with the consent of the user.

use vstd::prelude::*;

use crate::api;
use crate::asking;
use crate::cache;
use crate::comments;
use crate::comments::StackCommentActionView;
use crate::error::{CauseView, CliErrorView};
use crate::model::{
    AppConfigView, AppContextView, Diagnostics, GhPrView, GhStackCommentView, GitHubContextView,
    PrCacheEntryView, RepairActionView, RepairPlanView, SubmitPlanView,
};
use crate::planning;
use crate::plans;
use crate::pr::GetTargetView;
use crate::quiet;
use crate::record;
use crate::record::{Event, LineView};
use crate::repair;
use crate::repair::RepairSummary;
use crate::submit;
use crate::submit::{CommentSources, SubmitSummary};

verus! {

/// Whether the meeting is the answer of a user who agrees.
pub open spec fn is_agreement(event: Event) -> bool {
    event is Answered && event->answer is Ok && plans::is_yes(event->answer->Ok_0)
}

/// Whether the user agreed between `before` and `after`.
pub open spec fn agreed(before: Seq<Event>, after: Seq<Event>) -> bool {
    exists|j: int| before.len() <= j < after.len() && is_agreement(#[trigger] after[j])
}

/// Whether nothing was changed between `before` and `after` until the user had agreed.
#[verifier::opaque]
pub open spec fn asked_first(before: Seq<Event>, after: Seq<Event>) -> bool {
    &&& record::extends(before, after)
    &&& forall|k: int|
        before.len() <= k < after.len() && !quiet::harmless(#[trigger] after[k]) ==> agreed(
            before,
            after.take(k),
        )
}

broadcast proof fn lemma_quiet_extends(before: Seq<Event>, after: Seq<Event>)
    requires
        #[trigger] quiet::quiet(before, after),
    ensures
        record::extends(before, after),
{
    reveal(quiet::quiet);
}

broadcast proof fn lemma_quiet_is_asked_first(before: Seq<Event>, after: Seq<Event>)
    requires
        quiet::quiet(before, after),
    ensures
        #[trigger] asked_first(before, after),
{
    reveal(asked_first);
    reveal(quiet::quiet);
}

broadcast proof fn lemma_quiet_then_asked_first(a: Seq<Event>, b: Seq<Event>, c: Seq<Event>)
    requires
        #[trigger] quiet::quiet(a, b),
        #[trigger] asked_first(b, c),
    ensures
        asked_first(a, c),
{
    broadcast use crate::record::group_record;

    reveal(asked_first);
    reveal(quiet::quiet);
    assert forall|k: int|
        a.len() <= k < c.len() && !quiet::harmless(#[trigger] c[k]) implies agreed(
        a,
        c.take(k),
    ) by {
        if k < b.len() {
            assert(c.take(b.len() as int)[k] == b[k]);
        }
        assert(agreed(b, c.take(k)));
    }
}

broadcast group group_consent {
    lemma_quiet_is_asked_first,
    lemma_quiet_then_asked_first,
}

broadcast proof fn extends_pr_api_called(
    before: Seq<Event>,
    after: Seq<Event>,
    args: Seq<Seq<char>>,
    action: Seq<char>,
    change_id: Seq<char>,
    r: Result<GhPrView, Seq<CauseView>>,
)
    requires
        #[trigger] api::pr_api_called(before, after, args, action, change_id, r),
    ensures
        record::extends(before, after),
{
    broadcast use {crate::record::group_record, crate::quiet::group_quiet, lemma_quiet_extends};
}

broadcast proof fn extends_comment_written(
    before: Seq<Event>,
    after: Seq<Event>,
    args: Seq<Seq<char>>,
    action: Seq<char>,
    pr_number: u64,
    change_id: Seq<char>,
    r: Result<Seq<char>, Seq<CauseView>>,
)
    requires
        #[trigger] comments::comment_written(before, after, args, action, pr_number, change_id, r),
    ensures
        record::extends(before, after),
{
    broadcast use {crate::record::group_record, crate::quiet::group_quiet, lemma_quiet_extends};
}

broadcast proof fn extends_comment_settled(
    before: Seq<Event>,
    after: Seq<Event>,
    github: GitHubContextView,
    pr_number: u64,
    change_id: Seq<char>,
    body: Seq<char>,
    own: Seq<GhStackCommentView>,
    r: Result<StackCommentActionView, Seq<CauseView>>,
)
    requires
        #[trigger] comments::comment_settled(
            before,
            after,
            github,
            pr_number,
            change_id,
            body,
            own,
            r,
        ),
    ensures
        record::extends(before, after),
{
    broadcast use {
        crate::record::group_record,
        crate::quiet::group_quiet,
        lemma_quiet_extends,
        extends_comment_written,
    };
}

broadcast proof fn extends_comment_upserted(
    before: Seq<Event>,
    after: Seq<Event>,
    github: GitHubContextView,
    pr_number: u64,
    change_id: Seq<char>,
    body: Seq<char>,
    r: Result<StackCommentActionView, Seq<CauseView>>,
)
    requires
        #[trigger] comments::comment_upserted(before, after, github, pr_number, change_id, body, r),
    ensures
        record::extends(before, after),
{
    broadcast use {
        crate::record::group_record,
        crate::quiet::group_quiet,
        lemma_quiet_extends,
        extends_comment_settled,
        crate::asking::asks_comments_listed,
    };
}

broadcast proof fn extends_cache_saved(
    before: Seq<Event>,
    after: Seq<Event>,
    path: Seq<char>,
    all: Map<(Seq<char>, Seq<char>), PrCacheEntryView>,
    phase: Seq<char>,
    r: bool,
)
    requires
        #[trigger] cache::cache_saved(before, after, path, all, phase, r),
    ensures
        record::extends(before, after),
{
    broadcast use {crate::record::group_record, crate::quiet::group_quiet, lemma_quiet_extends};
}

broadcast proof fn extends_heads_walked(
    before: Seq<Event>,
    after: Seq<Event>,
    remote: Seq<char>,
    plans: Seq<SubmitPlanView>,
    at: int,
    steps: bool,
    r: Result<(), Seq<CauseView>>,
)
    requires
        #[trigger] planning::heads_walked(before, after, remote, plans, at, steps, r),
    ensures
        record::extends(before, after),
    decreases plans.len() - at,
{
    broadcast use {
        crate::record::group_record,
        crate::quiet::group_quiet,
        lemma_quiet_extends,
        crate::asking::lemma_step_said,
    };
}

broadcast proof fn extends_all_heads_walked(
    before: Seq<Event>,
    after: Seq<Event>,
    remote: Seq<char>,
    plans: Seq<SubmitPlanView>,
    diagnostics: Diagnostics,
    r: Result<(), Seq<CauseView>>,
)
    requires
        #[trigger] planning::all_heads_walked(before, after, remote, plans, diagnostics, r),
    ensures
        record::extends(before, after),
{
    broadcast use {
        crate::record::group_record,
        crate::quiet::group_quiet,
        lemma_quiet_extends,
        extends_heads_walked,
        crate::asking::lemma_steps_said,
    };
}

broadcast proof fn extends_some_heads_pushed(
    before: Seq<Event>,
    after: Seq<Event>,
    remote: Seq<char>,
    plans: Seq<SubmitPlanView>,
    diagnostics: Diagnostics,
    r: Result<(), Seq<CauseView>>,
)
    requires
        #[trigger] planning::some_heads_pushed(before, after, remote, plans, diagnostics, r),
    ensures
        record::extends(before, after),
{
    broadcast use {
        crate::record::group_record,
        crate::quiet::group_quiet,
        lemma_quiet_extends,
        extends_all_heads_walked,
        crate::asking::lemma_steps_ended,
    };
}

broadcast proof fn extends_heads_pushed(
    before: Seq<Event>,
    after: Seq<Event>,
    remote: Seq<char>,
    plans: Seq<SubmitPlanView>,
    diagnostics: Diagnostics,
    r: Result<(), Seq<CauseView>>,
)
    requires
        #[trigger] planning::heads_pushed(before, after, remote, plans, diagnostics, r),
    ensures
        record::extends(before, after),
{
    broadcast use {
        crate::record::group_record,
        crate::quiet::group_quiet,
        lemma_quiet_extends,
        extends_some_heads_pushed,
    };
}

broadcast proof fn extends_entry_kept(
    before: Seq<Event>,
    after: Seq<Event>,
    place: Seq<char>,
    all: Map<(Seq<char>, Seq<char>), PrCacheEntryView>,
    key: (Seq<char>, Seq<char>),
    entry: PrCacheEntryView,
)
    requires
        #[trigger] submit::entry_kept(before, after, place, all, key, entry),
    ensures
        record::extends(before, after),
{
    broadcast use {
        crate::record::group_record,
        crate::quiet::group_quiet,
        lemma_quiet_extends,
        extends_cache_saved,
    };
}

broadcast proof fn extends_entry_saved(
    before: Seq<Event>,
    after: Seq<Event>,
    place: Seq<char>,
    all: Map<(Seq<char>, Seq<char>), PrCacheEntryView>,
    key: (Seq<char>, Seq<char>),
    entry: PrCacheEntryView,
    steps: bool,
    at: usize,
)
    requires
        #[trigger] submit::entry_saved(before, after, place, all, key, entry, steps, at),
    ensures
        record::extends(before, after),
{
    broadcast use {
        crate::record::group_record,
        crate::quiet::group_quiet,
        lemma_quiet_extends,
        extends_entry_kept,
        crate::asking::lemma_step_said,
    };
}

broadcast proof fn extends_pr_requested(
    before: Seq<Event>,
    after: Seq<Event>,
    args: Seq<Seq<char>>,
    action: Seq<char>,
    change_id: Seq<char>,
    comment: Option<Seq<char>>,
    r: Result<PrCacheEntryView, Seq<CauseView>>,
)
    requires
        #[trigger] submit::pr_requested(before, after, args, action, change_id, comment, r),
    ensures
        record::extends(before, after),
{
    broadcast use {
        crate::record::group_record,
        crate::quiet::group_quiet,
        lemma_quiet_extends,
        extends_pr_api_called,
    };
}

broadcast proof fn extends_pr_submitted(
    before: Seq<Event>,
    after: Seq<Event>,
    repo: Seq<char>,
    plan: SubmitPlanView,
    r: Result<PrCacheEntryView, Seq<CauseView>>,
)
    requires
        #[trigger] submit::pr_submitted(before, after, repo, plan, r),
    ensures
        record::extends(before, after),
{
    broadcast use {
        crate::record::group_record,
        crate::quiet::group_quiet,
        lemma_quiet_extends,
        extends_pr_requested,
    };
}

broadcast proof fn extends_prs_submitted(
    before: Seq<Event>,
    after: Seq<Event>,
    repo: Seq<char>,
    place: Seq<char>,
    all: Map<(Seq<char>, Seq<char>), PrCacheEntryView>,
    plans: Seq<SubmitPlanView>,
    done: Seq<PrCacheEntryView>,
    steps: bool,
    diagnostics: Diagnostics,
    r: Result< (
        Seq<PrCacheEntryView>,
        Map<(Seq<char>, Seq<char>),
        PrCacheEntryView>,
    ), Seq<CauseView>, >,
)
    requires
        #[trigger] submit::prs_submitted(
            before,
            after,
            repo,
            place,
            all,
            plans,
            done,
            steps,
            diagnostics,
            r,
        ),
    ensures
        record::extends(before, after),
    decreases plans.len() - done.len(), 1nat,
{
    broadcast use {
        crate::record::group_record,
        crate::quiet::group_quiet,
        lemma_quiet_extends,
        extends_pr_submitted,
    };

    if done.len() >= plans.len() {
    } else {
        let (mid, entry) = choose|mid: Seq<Event>, entry: Result<PrCacheEntryView, Seq<CauseView>>| {
            &&& #[trigger] submit::pr_submitted(before, mid, repo, plans[done.len() as int], entry)
            &&& match entry {
                Err(e) => record::stopped(mid, after, e, r),
                Ok(entry) => submit::pr_noted(
                    mid,
                    after,
                    repo,
                    place,
                    all,
                    plans,
                    done,
                    entry,
                    steps,
                    diagnostics,
                    r,
                ),
            }
        };
        match entry {
            Err(e) => {},
            Ok(entry) => {
                extends_pr_noted(
                    mid,
                    after,
                    repo,
                    place,
                    all,
                    plans,
                    done,
                    entry,
                    steps,
                    diagnostics,
                    r,
                );
            },
        }
    }
}

broadcast proof fn extends_pr_noted(
    before: Seq<Event>,
    after: Seq<Event>,
    repo: Seq<char>,
    place: Seq<char>,
    all: Map<(Seq<char>, Seq<char>), PrCacheEntryView>,
    plans: Seq<SubmitPlanView>,
    done: Seq<PrCacheEntryView>,
    entry: PrCacheEntryView,
    steps: bool,
    diagnostics: Diagnostics,
    r: Result< (
        Seq<PrCacheEntryView>,
        Map<(Seq<char>, Seq<char>),
        PrCacheEntryView>,
    ), Seq<CauseView>, >,
)
    requires
        #[trigger] submit::pr_noted(
            before,
            after,
            repo,
            place,
            all,
            plans,
            done,
            entry,
            steps,
            diagnostics,
            r,
        ),
        done.len() < plans.len(),
    ensures
        record::extends(before, after),
    decreases plans.len() - done.len(), 0nat,
{
    broadcast use {
        crate::record::group_record,
        crate::quiet::group_quiet,
        lemma_quiet_extends,
        extends_entry_saved,
        crate::asking::lemma_action_said,
    };

    let plan = plans[done.len() as int];
    let key = (repo, plan.change.change_id);
    let mid = choose|mid: Seq<Event>| {
        &&& #[trigger] submit::entry_saved(
            before + planning::action_said(
                diagnostics,
                repo,
                plan.change,
                submit::action_of(plan),
                entry,
            ),
            mid,
            place,
            all,
            key,
            entry,
            steps,
            (done.len() + 1) as usize,
        )
        &&& submit::prs_submitted(
            mid,
            after,
            repo,
            place,
            all.insert(key, entry),
            plans,
            done.push(entry),
            steps,
            diagnostics,
            r,
        )
    };

    extends_prs_submitted(
        mid,
        after,
        repo,
        place,
        all.insert(key, entry),
        plans,
        done.push(entry),
        steps,
        diagnostics,
        r,
    );
}

broadcast proof fn extends_all_prs_submitted(
    before: Seq<Event>,
    after: Seq<Event>,
    repo: Seq<char>,
    place: Seq<char>,
    all: Map<(Seq<char>, Seq<char>), PrCacheEntryView>,
    plans: Seq<SubmitPlanView>,
    diagnostics: Diagnostics,
    r: Result< (
        Seq<PrCacheEntryView>,
        Map<(Seq<char>, Seq<char>),
        PrCacheEntryView>,
    ), Seq<CauseView>, >,
)
    requires
        #[trigger] submit::all_prs_submitted(
            before,
            after,
            repo,
            place,
            all,
            plans,
            diagnostics,
            r,
        ),
    ensures
        record::extends(before, after),
{
    broadcast use {
        crate::record::group_record,
        crate::quiet::group_quiet,
        lemma_quiet_extends,
        extends_prs_submitted,
        crate::asking::lemma_steps_said,
    };
}

broadcast proof fn extends_comment_step(
    before: Seq<Event>,
    after: Seq<Event>,
    sources: CommentSources,
    place: Seq<char>,
    all: Map<(Seq<char>, Seq<char>), PrCacheEntryView>,
    at: int,
    summary: SubmitSummary,
    steps: bool,
    r: Result< (SubmitSummary, Map<(Seq<char>, Seq<char>), PrCacheEntryView>), Seq<CauseView>, >,
)
    requires
        #[trigger] submit::comment_step(before, after, sources, place, all, at, summary, steps, r),
    ensures
        record::extends(before, after),
{
    broadcast use {
        crate::record::group_record,
        crate::quiet::group_quiet,
        lemma_quiet_extends,
        extends_comment_upserted,
        extends_entry_saved,
    };
}

broadcast proof fn extends_comments_submitted(
    before: Seq<Event>,
    after: Seq<Event>,
    sources: CommentSources,
    place: Seq<char>,
    all: Map<(Seq<char>, Seq<char>), PrCacheEntryView>,
    at: int,
    summary: SubmitSummary,
    steps: bool,
    r: Result<SubmitSummary, Seq<CauseView>>,
)
    requires
        #[trigger] submit::comments_submitted(
            before,
            after,
            sources,
            place,
            all,
            at,
            summary,
            steps,
            r,
        ),
    ensures
        record::extends(before, after),
    decreases sources.owned.len() - at,
{
    broadcast use {
        crate::record::group_record,
        crate::quiet::group_quiet,
        lemma_quiet_extends,
        extends_comment_step,
    };

    if at < 0 || at >= sources.owned.len() {
    } else {
        let (mid, step) = choose|mid: Seq<Event>,
        step: Result<
        (SubmitSummary, Map<(Seq<char>, Seq<char>), PrCacheEntryView>),
        Seq<CauseView>,
        >| {
            &&& #[trigger] submit::comment_step(
                before,
                mid,
                sources,
                place,
                all,
                at,
                summary,
                steps,
                step,
            )
            &&& match step {
                Err(e) => record::stopped(mid, after, e, r),
                Ok((next, more)) => submit::comments_submitted(
                    mid,
                    after,
                    sources,
                    place,
                    more,
                    at + 1,
                    next,
                    steps,
                    r,
                ),
            }
        };
        match step {
            Err(e) => {},
            Ok((next, more)) => {
                extends_comments_submitted(
                    mid,
                    after,
                    sources,
                    place,
                    more,
                    at + 1,
                    next,
                    steps,
                    r,
                );
            },
        }
    }
}

broadcast proof fn extends_all_comments_submitted(
    before: Seq<Event>,
    after: Seq<Event>,
    sources: CommentSources,
    place: Seq<char>,
    all: Map<(Seq<char>, Seq<char>), PrCacheEntryView>,
    summary: SubmitSummary,
    diagnostics: Diagnostics,
    r: Result<SubmitSummary, Seq<CauseView>>,
)
    requires
        #[trigger] submit::all_comments_submitted(
            before,
            after,
            sources,
            place,
            all,
            summary,
            diagnostics,
            r,
        ),
    ensures
        record::extends(before, after),
{
    broadcast use {
        crate::record::group_record,
        crate::quiet::group_quiet,
        lemma_quiet_extends,
        extends_comments_submitted,
        crate::asking::lemma_phase_said,
        crate::asking::lemma_steps_said,
    };
}

broadcast proof fn extends_submit_commented(
    before: Seq<Event>,
    after: Seq<Event>,
    sources: CommentSources,
    place: Seq<char>,
    all: Map<(Seq<char>, Seq<char>), PrCacheEntryView>,
    summary: SubmitSummary,
    diagnostics: Diagnostics,
    r: Result<SubmitSummary, Seq<CauseView>>,
)
    requires
        #[trigger] submit::submit_commented(
            before,
            after,
            sources,
            place,
            all,
            summary,
            diagnostics,
            r,
        ),
    ensures
        record::extends(before, after),
{
    broadcast use {
        crate::record::group_record,
        crate::quiet::group_quiet,
        lemma_quiet_extends,
        extends_all_comments_submitted,
        crate::asking::lemma_steps_ended,
    };
}

broadcast proof fn extends_submit_requested(
    before: Seq<Event>,
    after: Seq<Event>,
    context: AppContextView,
    trunk: Seq<char>,
    frozen: Seq<(Seq<char>, PrCacheEntryView)>,
    place: Seq<char>,
    all: Map<(Seq<char>, Seq<char>), PrCacheEntryView>,
    plans: Seq<SubmitPlanView>,
    diagnostics: Diagnostics,
    r: Result<SubmitSummary, Seq<CauseView>>,
)
    requires
        #[trigger] submit::submit_requested(
            before,
            after,
            context,
            trunk,
            frozen,
            place,
            all,
            plans,
            diagnostics,
            r,
        ),
    ensures
        record::extends(before, after),
{
    broadcast use {
        crate::record::group_record,
        crate::quiet::group_quiet,
        lemma_quiet_extends,
        extends_all_prs_submitted,
        extends_submit_commented,
        crate::asking::lemma_steps_ended,
    };
}

broadcast proof fn extends_submit_pushed(
    before: Seq<Event>,
    after: Seq<Event>,
    config: AppConfigView,
    context: AppContextView,
    frozen: Seq<(Seq<char>, PrCacheEntryView)>,
    place: Seq<char>,
    all: Map<(Seq<char>, Seq<char>), PrCacheEntryView>,
    plans: Seq<SubmitPlanView>,
    diagnostics: Diagnostics,
    r: Result<SubmitSummary, Seq<CauseView>>,
)
    requires
        #[trigger] submit::submit_pushed(
            before,
            after,
            config,
            context,
            frozen,
            place,
            all,
            plans,
            diagnostics,
            r,
        ),
    ensures
        record::extends(before, after),
{
    broadcast use {
        crate::record::group_record,
        crate::quiet::group_quiet,
        lemma_quiet_extends,
        extends_heads_pushed,
        extends_submit_requested,
        crate::asking::lemma_phase_said,
    };
}

broadcast proof fn extends_action_executed(
    before: Seq<Event>,
    after: Seq<Event>,
    github: GitHubContextView,
    action: RepairActionView,
    r: Result<bool, Seq<CauseView>>,
)
    requires
        #[trigger] repair::action_executed(before, after, github, action, r),
    ensures
        record::extends(before, after),
{
    broadcast use {
        crate::record::group_record,
        crate::quiet::group_quiet,
        lemma_quiet_extends,
        extends_comment_upserted,
    };
}

broadcast proof fn extends_actions_executed(
    before: Seq<Event>,
    after: Seq<Event>,
    github: GitHubContextView,
    actions: Seq<RepairActionView>,
    at: int,
    changed: nat,
    r: Result<nat, Seq<CauseView>>,
)
    requires
        #[trigger] repair::actions_executed(before, after, github, actions, at, changed, r),
    ensures
        record::extends(before, after),
    decreases actions.len() - at,
{
    broadcast use {
        crate::record::group_record,
        crate::quiet::group_quiet,
        lemma_quiet_extends,
        extends_action_executed,
    };

    if at < 0 || at >= actions.len() {
    } else {
        let (mid, done) = choose|mid: Seq<Event>, done: Result<bool, Seq<CauseView>>| {
            &&& #[trigger] repair::action_executed(before, mid, github, actions[at], done)
            &&& match done {
                Err(e) => record::stopped(mid, after, e, r),
                Ok(hit) => repair::actions_executed(
                    mid,
                    after,
                    github,
                    actions,
                    at + 1,
                    if hit {
                        changed + 1
                    } else {
                        changed
                    },
                    r,
                ),
            }
        };
        match done {
            Err(e) => {},
            Ok(hit) => {
                extends_actions_executed(
                    mid,
                    after,
                    github,
                    actions,
                    at + 1,
                    if hit { changed + 1 } else { changed },
                    r,
                );
            },
        }
    }
}

broadcast proof fn extends_repair_closed(
    before: Seq<Event>,
    after: Seq<Event>,
    config: AppConfigView,
    github: GitHubContextView,
    target: u64,
    plan: RepairPlanView,
    changed: usize,
    diagnostics: Diagnostics,
    r: Result<RepairSummary, Seq<CauseView>>,
)
    requires
        #[trigger] repair::repair_closed(
            before,
            after,
            config,
            github,
            target,
            plan,
            changed,
            diagnostics,
            r,
        ),
    ensures
        record::extends(before, after),
{
    broadcast use {
        crate::record::group_record,
        crate::quiet::group_quiet,
        lemma_quiet_extends,
        crate::asking::asks_repair_validated,
        crate::asking::lemma_phase_said,
    };
}

broadcast proof fn extends_repair_carried_out(
    before: Seq<Event>,
    after: Seq<Event>,
    config: AppConfigView,
    github: GitHubContextView,
    target: u64,
    plan: RepairPlanView,
    diagnostics: Diagnostics,
    r: Result<RepairSummary, Seq<CauseView>>,
)
    requires
        #[trigger] repair::repair_carried_out(
            before,
            after,
            config,
            github,
            target,
            plan,
            diagnostics,
            r,
        ),
    ensures
        record::extends(before, after),
{
    broadcast use {
        crate::record::group_record,
        crate::quiet::group_quiet,
        lemma_quiet_extends,
        extends_actions_executed,
        extends_repair_closed,
        crate::asking::asks_repair_closed,
        crate::asking::lemma_phase_said,
    };
}

proof fn lemma_asked(
    before: Seq<Event>,
    after: Seq<Event>,
    what: Seq<char>,
    unasked: CliErrorView,
    declined: CliErrorView,
    end: Seq<Event>,
)
    requires
        plans::asked(before, after, what, unasked, declined, Ok(())),
        record::extends(after, end),
    ensures
        asked_first(before, end),
{
    broadcast use crate::record::group_record;

    reveal(asked_first);
    reveal(quiet::quiet);
    asking::asks_asked(before, after, what, unasked, declined, Ok(()));
    let j = before.len() as int + 2;
    assert(is_agreement(after[j]));
    assert(end.take(after.len() as int)[j] == after[j]);
    assert forall|k: int|
        before.len() <= k < end.len() && !quiet::harmless(#[trigger] end[k]) implies agreed(
        before,
        end.take(k),
    ) by {
        if k < after.len() {
            assert(end.take(after.len() as int)[k] == after[k]);
        }
        assert(is_agreement(end.take(k)[j]));
    }
}

broadcast proof fn consent_submit_allowed(
    before: Seq<Event>,
    after: Seq<Event>,
    config: AppConfigView,
    context: AppContextView,
    frozen: Seq<(Seq<char>, PrCacheEntryView)>,
    place: Seq<char>,
    all: Map<(Seq<char>, Seq<char>), PrCacheEntryView>,
    plans: Seq<SubmitPlanView>,
    yes: bool,
    yes_command: Seq<char>,
    diagnostics: Diagnostics,
    r: Result<SubmitSummary, Seq<CauseView>>,
)
    requires
        #[trigger] submit::submit_allowed(
            before,
            after,
            config,
            context,
            frozen,
            place,
            all,
            plans,
            yes,
            yes_command,
            diagnostics,
            r,
        ),
        !yes,
    ensures
        asked_first(before, after),
{
    broadcast use {
        crate::quiet::group_quiet,
        group_consent,
        crate::asking::lemma_submit_rows_said,
        crate::asking::asks_submit_confirmed,
        extends_submit_pushed,
    };

    let told = before + submit::submit_rows_said(plans::submit_plan_lines(config, plans));
    let (mid, allowed) = choose|mid: Seq<Event>, allowed: Result<(), Seq<CauseView>>|
    {
        &&& #[trigger] plans::submit_confirmed(told, mid, yes, yes_command, allowed)
        &&& match allowed {
            Err(e) => record::stopped(mid, after, e, r),
            Ok(_) => submit::submit_pushed(
                mid,
                after,
                config,
                context,
                frozen,
                place,
                all,
                plans,
                diagnostics,
                r,
            ),
        }
    };
    assert(quiet::quiet(told, mid));
    if allowed is Ok {
        assert(record::extends(mid, after));
        lemma_asked(
            told,
            mid,
            "submit"@,
            plans::submit_unasked(yes_command),
            plans::submit_declined(yes_command),
            after,
        );
        assert(asked_first(told, after));
    }
}

broadcast proof fn consent_repair_allowed(
    before: Seq<Event>,
    after: Seq<Event>,
    config: AppConfigView,
    github: GitHubContextView,
    target: u64,
    plan: RepairPlanView,
    yes: bool,
    diagnostics: Diagnostics,
    r: Result<RepairSummary, Seq<CauseView>>,
)
    requires
        #[trigger] repair::repair_allowed(
            before,
            after,
            config,
            github,
            target,
            plan,
            yes,
            diagnostics,
            r,
        ),
        !yes,
    ensures
        asked_first(before, after),
{
    broadcast use {
        crate::quiet::group_quiet,
        group_consent,
        crate::asking::lemma_repair_rows_said,
        crate::asking::asks_repair_confirmed,
        extends_repair_carried_out,
    };

    let actions = repair::actions_of(github.repo, config.trunk, plan);
    let (mid, allowed) = choose|mid: Seq<Event>, allowed: Result<(), Seq<CauseView>>|
    {
        &&& #[trigger] repair::repair_confirmed(before, mid, plan, actions, target, yes, allowed)
        &&& match allowed {
            Err(e) => record::stopped(mid, after, e, r),
            Ok(_) => repair::repair_carried_out(
                mid,
                after,
                config,
                github,
                target,
                plan,
                diagnostics,
                r,
            ),
        }
    };
    assert(quiet::quiet(before, mid));
    if allowed is Ok {
        assert(record::extends(mid, after));
        let note = seq![Event::Said(LineView::Note(""@))];
        let told = before + repair::repair_rows_said(
            plans::repair_plan_lines(plan.pruned_merged_prs, actions)
        )
        + note;
        lemma_asked(
            told,
            mid,
            "repair"@,
            repair::repair_unasked(target, plan.open_prs.len()),
            repair::repair_declined(target),
            after,
        );
        assert(quiet::all_harmless(note)) by {
            reveal(quiet::all_harmless);
        }
        assert(asked_first(told, after));
    }
}

broadcast proof fn consent_submit_decided(
    before: Seq<Event>,
    after: Seq<Event>,
    config: AppConfigView,
    context: AppContextView,
    frozen: Seq<(Seq<char>, PrCacheEntryView)>,
    place: Seq<char>,
    all: Map<(Seq<char>, Seq<char>), PrCacheEntryView>,
    plans: Seq<SubmitPlanView>,
    yes: bool,
    yes_command: Seq<char>,
    diagnostics: Diagnostics,
    r: Result<SubmitSummary, Seq<CauseView>>,
)
    requires
        #[trigger] submit::submit_decided(
            before,
            after,
            config,
            context,
            frozen,
            place,
            all,
            plans,
            yes,
            yes_command,
            diagnostics,
            r,
        ),
        !yes,
    ensures
        asked_first(before, after),
{
    broadcast use {
        crate::quiet::group_quiet,
        group_consent,
        consent_submit_allowed,
        crate::asking::lemma_plan_rows_said,
    };
}

broadcast proof fn consent_submit_planned(
    before: Seq<Event>,
    after: Seq<Event>,
    config: AppConfigView,
    context: AppContextView,
    frozen: Seq<(Seq<char>, PrCacheEntryView)>,
    place: Seq<char>,
    all: Map<(Seq<char>, Seq<char>), PrCacheEntryView>,
    yes: bool,
    yes_command: Seq<char>,
    diagnostics: Diagnostics,
    r: Result<SubmitSummary, Seq<CauseView>>,
)
    requires
        #[trigger] submit::submit_planned(
            before,
            after,
            config,
            context,
            frozen,
            place,
            all,
            yes,
            yes_command,
            diagnostics,
            r,
        ),
        !yes,
    ensures
        asked_first(before, after),
{
    broadcast use {
        crate::quiet::group_quiet,
        group_consent,
        consent_submit_decided,
        crate::asking::asks_stack_planned,
    };
}

broadcast proof fn consent_submit_grounded(
    before: Seq<Event>,
    after: Seq<Event>,
    config: AppConfigView,
    context: AppContextView,
    place: Seq<char>,
    all: Map<(Seq<char>, Seq<char>), PrCacheEntryView>,
    yes: bool,
    yes_command: Seq<char>,
    diagnostics: Diagnostics,
    r: Result<SubmitSummary, Seq<CauseView>>,
)
    requires
        #[trigger] submit::submit_grounded(
            before,
            after,
            config,
            context,
            place,
            all,
            yes,
            yes_command,
            diagnostics,
            r,
        ),
        !yes,
    ensures
        asked_first(before, after),
{
    broadcast use {
        crate::quiet::group_quiet,
        group_consent,
        consent_submit_planned,
        crate::asking::asks_frozen_entries_resolved,
    };
}

broadcast proof fn consent_submit_opened(
    before: Seq<Event>,
    after: Seq<Event>,
    config: AppConfigView,
    context: AppContextView,
    yes: bool,
    yes_command: Seq<char>,
    diagnostics: Diagnostics,
    r: Result<SubmitSummary, Seq<CauseView>>,
)
    requires
        #[trigger] submit::submit_opened(
            before,
            after,
            config,
            context,
            yes,
            yes_command,
            diagnostics,
            r,
        ),
        !yes,
    ensures
        asked_first(before, after),
{
    broadcast use {
        crate::quiet::group_quiet,
        group_consent,
        consent_submit_grounded,
        crate::asking::asks_cache_opened,
        crate::asking::lemma_phase_said,
    };
}

broadcast proof fn consent_stack_submitted(
    before: Seq<Event>,
    after: Seq<Event>,
    config: AppConfigView,
    context: AppContextView,
    yes: bool,
    yes_command: Seq<char>,
    diagnostics: Diagnostics,
    r: Result<SubmitSummary, Seq<CauseView>>,
)
    requires
        #[trigger] submit::stack_submitted(
            before,
            after,
            config,
            context,
            yes,
            yes_command,
            diagnostics,
            r,
        ),
        !yes,
    ensures
        asked_first(before, after),
{
    broadcast use {
        crate::quiet::group_quiet,
        group_consent,
        consent_submit_opened,
        crate::asking::asks_bases_checked,
        crate::asking::lemma_phase_said,
    };
}

broadcast proof fn consent_repair_decided(
    before: Seq<Event>,
    after: Seq<Event>,
    config: AppConfigView,
    github: GitHubContextView,
    target: u64,
    plan: RepairPlanView,
    yes: bool,
    diagnostics: Diagnostics,
    r: Result<RepairSummary, Seq<CauseView>>,
)
    requires
        #[trigger] repair::repair_decided(
            before,
            after,
            config,
            github,
            target,
            plan,
            yes,
            diagnostics,
            r,
        ),
        !yes,
    ensures
        asked_first(before, after),
{
    broadcast use {
        crate::quiet::group_quiet,
        group_consent,
        consent_repair_allowed,
        crate::asking::lemma_plan_rows_said,
    };
}

broadcast proof fn consent_repair_listed(
    before: Seq<Event>,
    after: Seq<Event>,
    config: AppConfigView,
    github: GitHubContextView,
    target: u64,
    numbers: Seq<u64>,
    yes: bool,
    diagnostics: Diagnostics,
    r: Result<RepairSummary, Seq<CauseView>>,
)
    requires
        #[trigger] repair::repair_listed(
            before,
            after,
            config,
            github,
            target,
            numbers,
            yes,
            diagnostics,
            r,
        ),
        !yes,
    ensures
        asked_first(before, after),
{
    broadcast use {crate::quiet::group_quiet, group_consent, consent_repair_scanned};
}

broadcast proof fn consent_repair_scanned(
    before: Seq<Event>,
    after: Seq<Event>,
    config: AppConfigView,
    github: GitHubContextView,
    target: u64,
    numbers: Seq<u64>,
    yes: bool,
    diagnostics: Diagnostics,
    r: Result<RepairSummary, Seq<CauseView>>,
)
    requires
        #[trigger] repair::repair_scanned(
            before,
            after,
            config,
            github,
            target,
            numbers,
            yes,
            diagnostics,
            r,
        ),
        !yes,
    ensures
        asked_first(before, after),
{
    broadcast use {
        crate::quiet::group_quiet,
        group_consent,
        consent_repair_decided,
        crate::asking::asks_repair_planned,
        crate::asking::lemma_phase_said,
    };
}

broadcast proof fn consent_repair_commented(
    before: Seq<Event>,
    after: Seq<Event>,
    config: AppConfigView,
    github: GitHubContextView,
    target: u64,
    yes: bool,
    diagnostics: Diagnostics,
    r: Result<RepairSummary, Seq<CauseView>>,
)
    requires
        #[trigger] repair::repair_commented(
            before,
            after,
            config,
            github,
            target,
            yes,
            diagnostics,
            r,
        ),
        !yes,
    ensures
        asked_first(before, after),
{
    broadcast use {
        crate::quiet::group_quiet,
        group_consent,
        consent_repair_listed,
        crate::asking::asks_latest_comment_found,
    };
}

broadcast proof fn consent_repair_targeted(
    before: Seq<Event>,
    after: Seq<Event>,
    config: AppConfigView,
    github: GitHubContextView,
    target: GetTargetView,
    yes: bool,
    diagnostics: Diagnostics,
    r: Result<RepairSummary, Seq<CauseView>>,
)
    requires
        #[trigger] repair::repair_targeted(
            before,
            after,
            config,
            github,
            target,
            yes,
            diagnostics,
            r,
        ),
        !yes,
    ensures
        asked_first(before, after),
{
    broadcast use {
        crate::quiet::group_quiet,
        group_consent,
        consent_repair_commented,
        crate::asking::asks_target_resolved,
        crate::asking::lemma_phase_said,
    };
}

broadcast proof fn consent_comments_repaired(
    before: Seq<Event>,
    after: Seq<Event>,
    config: AppConfigView,
    target: Seq<char>,
    yes: bool,
    diagnostics: Diagnostics,
    r: Result<RepairSummary, Seq<CauseView>>,
)
    requires
        #[trigger] repair::comments_repaired(before, after, config, target, yes, diagnostics, r),
        !yes,
    ensures
        asked_first(before, after),
{
    broadcast use {
        crate::quiet::group_quiet,
        group_consent,
        consent_repair_targeted,
        crate::asking::asks_target_opened,
    };
}

/// A submit without an advance consent changes nothing before the user has agreed.
pub proof fn law_submit_needs_consent(
    before: Seq<Event>,
    after: Seq<Event>,
    config: AppConfigView,
    context: AppContextView,
    yes_command: Seq<char>,
    diagnostics: Diagnostics,
    r: Result<SubmitSummary, Seq<CauseView>>,
    change: int,
)
    requires
        submit::stack_submitted(before, after, config, context, false, yes_command, diagnostics, r),
        before.len() <= change < after.len(),
        !quiet::harmless(after[change]),
    ensures
        exists|answer: int|
            before.len() <= answer < change && is_agreement(#[trigger] after[answer]),
{
    consent_stack_submitted(before, after, config, context, false, yes_command, diagnostics, r);
    lemma_agreed_before(before, after, change);
}

/// A repair without an advance consent changes nothing before the user has agreed.
pub proof fn law_repair_needs_consent(
    before: Seq<Event>,
    after: Seq<Event>,
    config: AppConfigView,
    target: Seq<char>,
    diagnostics: Diagnostics,
    r: Result<RepairSummary, Seq<CauseView>>,
    change: int,
)
    requires
        repair::comments_repaired(before, after, config, target, false, diagnostics, r),
        before.len() <= change < after.len(),
        !quiet::harmless(after[change]),
    ensures
        exists|answer: int|
            before.len() <= answer < change && is_agreement(#[trigger] after[answer]),
{
    consent_comments_repaired(before, after, config, target, false, diagnostics, r);
    lemma_agreed_before(before, after, change);
}

proof fn lemma_agreed_before(before: Seq<Event>, after: Seq<Event>, change: int)
    requires
        asked_first(before, after),
        before.len() <= change < after.len(),
        !quiet::harmless(after[change]),
    ensures
        exists|answer: int|
            before.len() <= answer < change && is_agreement(#[trigger] after[answer]),
{
    reveal(asked_first);
    let seen = after.take(change);
    assert(agreed(before, seen));
    let answer = choose|answer: int|
        before.len() <= answer < seen.len() && is_agreement(#[trigger] seen[answer]);
    assert(is_agreement(after[answer]));
}

/// A submit of a stack in which a change has no description fails and changes nothing.
pub proof fn law_undescribed_stack_is_refused(
    before: Seq<Event>,
    after: Seq<Event>,
    config: AppConfigView,
    context: AppContextView,
    yes: bool,
    yes_command: Seq<char>,
    diagnostics: Diagnostics,
    r: Result<SubmitSummary, Seq<CauseView>>,
)
    requires
        submit::stack_submitted(before, after, config, context, yes, yes_command, diagnostics, r),
        planning::descriptions_result(context.stack) is Err,
    ensures
        r is Err,
        record::extends(before, after),
        forall|i: int| before.len() <= i < after.len() ==> quiet::harmless(#[trigger] after[i]),
{
    broadcast use {
        crate::quiet::group_quiet,
        crate::asking::lemma_phase_said,
        crate::asking::asks_bases_checked,
    };

    assert(quiet::quiet(before, after));
    reveal(quiet::quiet);
}

} // verus!
