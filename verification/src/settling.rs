//! What comes of the requests of a submit, a merge and a sync.

use vstd::prelude::*;

use crate::api;
use crate::error::CauseView;
use crate::heading;
use crate::judging;
use crate::model::{
    AppConfigView, Diagnostics, FrozenDependencyView, GhMergePrView, GhPrView, MergeCandidateView,
    PrCacheEntryView, SubmitPlanView,
};
use crate::planning;
use crate::polling;
use crate::publishing;
use crate::ready;
use crate::record;
use crate::record::Event;
use crate::submit;
use crate::sync;
use crate::text;
use crate::ui;

verus! {

broadcast use crate::record::group_record;

/// At `i` a pull request is read, out of what GitHub answered right before, when it was told to open or to
/// edit the request of the plan.
pub open spec fn answers_plan(log: Seq<Event>, i: int, repo: Seq<char>, plan: SubmitPlanView, pr: GhPrView) -> bool {
    &&& 0 < i < log.len()
    &&& log[i] is PrRead
    &&& log[i]->pr == Ok::<GhPrView, Seq<CauseView>>(pr)
    &&& publishing::requests_plan(log[i - 1], repo, plan)
    &&& record::reply_of(log[i - 1]) is Ok
    &&& (record::reply_of(log[i - 1])->Ok_0).success
    &&& (record::reply_of(log[i - 1])->Ok_0).stdout == log[i]->PrRead_json
}

/// What is kept of the request of a plan: what GitHub answered when it was opened or edited; or, where
/// nothing was to be done, what was kept before, at the head, base, commit, title and body of the plan.
/// The known comment is kept.
pub open spec fn entry_told(
    from: int,
    log: Seq<Event>,
    repo: Seq<char>,
    plan: SubmitPlanView,
    entry: PrCacheEntryView,
) -> bool {
    if plan.existing_pr is Some && !plan.pr_update_needed {
        let kept = plan.existing_pr->Some_0;
        &&& entry.pr_number == kept.pr_number
        &&& entry.stack_comment_id == kept.stack_comment_id
        &&& entry.created_at == kept.created_at
        &&& entry.head_branch == plan.head_branch
        &&& entry.base_branch == plan.base_branch
        &&& entry.base_ref == plan.base_branch
        &&& entry.head_sha == plan.change.commit_id
        &&& entry.title == plan.change.title
        &&& entry.body == plan.change.body
    } else {
        exists|i: int, pr: GhPrView|
            {
                &&& from < i
                &&& #[trigger] answers_plan(log, i, repo, plan, pr)
                &&& heading::mirrors(entry, pr)
                &&& entry.stack_comment_id == match plan.existing_pr {
                    Some(kept) => kept.stack_comment_id,
                    None => None,
                }
            }
    }
}

proof fn lemma_told_stays(
    from: int,
    at: int,
    mid: Seq<Event>,
    after: Seq<Event>,
    repo: Seq<char>,
    plan: SubmitPlanView,
    entry: PrCacheEntryView,
)
    requires
        from <= at,
        record::extends(mid, after),
        entry_told(at, mid, repo, plan, entry),
    ensures
        entry_told(from, after, repo, plan, entry),
{
    if !(plan.existing_pr is Some && !plan.pr_update_needed) {
        let (i, pr) = choose|i: int, pr: GhPrView|
            {
                &&& at < i
                &&& #[trigger] answers_plan(mid, i, repo, plan, pr)
                &&& heading::mirrors(entry, pr)
                &&& entry.stack_comment_id == match plan.existing_pr {
                    Some(kept) => kept.stack_comment_id,
                    None => None,
                }
            };
        assert(after.take(mid.len() as int)[i] == mid[i]);
        assert(after.take(mid.len() as int)[i - 1] == mid[i - 1]);
        assert(answers_plan(after, i, repo, plan, pr));
    }
}

proof fn lemma_pr_submitted(
    before: Seq<Event>,
    after: Seq<Event>,
    repo: Seq<char>,
    plan: SubmitPlanView,
    r: Result<PrCacheEntryView, Seq<CauseView>>,
)
    requires
        submit::pr_submitted(before, after, repo, plan, r),
    ensures
        record::extends(before, after),
        r is Ok ==> entry_told(before.len() as int, after, repo, plan, r->Ok_0),
{
    record::lemma_extends_refl(before);
    if !(plan.existing_pr is Some && !plan.pr_update_needed) {
        let n = before.len() as int;
        let number = match plan.existing_pr {
            Some(kept) => kept.pr_number,
            None => 0,
        };
        let args = match plan.existing_pr {
            Some(kept) => api::update_pr_args(repo, kept.pr_number, plan),
            None => api::create_pr_args(repo, plan),
        };
        let action = match plan.existing_pr {
            Some(kept) => "update"@,
            None => "create"@,
        };
        let comment = match plan.existing_pr {
            Some(kept) => kept.stack_comment_id,
            None => None,
        };
        let got = choose|got: Result<GhPrView, Seq<CauseView>>|
            #[trigger] api::pr_api_called(
                before,
                after,
                args,
                action,
                plan.change.change_id,
                got,
            ) && r == submit::adopted_entry(got, comment);
        if r is Ok {
            let pr = got->Ok_0;
            publishing::lemma_request_lines(repo, number, plan);
            heading::law_entry_mirrors_its_request(pr, arbitrary(), comment);
            assert(after[n] is Call) by {
                reveal(record::in_place);
            }
            assert(record::is_call(after[n], "gh"@, args));
            assert(after[n + 1 - 1] == after[n]);
            assert(answers_plan(after, n + 1, repo, plan, pr));
        }
    }
}

proof fn lemma_saved_extends(
    before: Seq<Event>,
    after: Seq<Event>,
    place: Seq<char>,
    all: Map<(Seq<char>, Seq<char>), PrCacheEntryView>,
    key: (Seq<char>, Seq<char>),
    entry: PrCacheEntryView,
    steps: bool,
    at: usize,
)
    requires
        submit::entry_saved(before, after, place, all, key, entry, steps, at),
    ensures
        record::extends(before, after),
{
    let mid = choose|mid: Seq<Event>|
        #[trigger] submit::entry_kept(before, mid, place, all, key, entry) && after == mid
            + ui::step_said(steps, at);
    record::lemma_extends_refl(before);
    record::lemma_extends_add(mid, ui::step_said(steps, at));
    record::lemma_extends_trans(before, mid, after);
}

/// The request of the plan is remembered so, under the repository and the change.
pub open spec fn is_remembered(
    all: Map<(Seq<char>, Seq<char>), PrCacheEntryView>,
    repo: Seq<char>,
    plan: SubmitPlanView,
    entry: PrCacheEntryView,
) -> bool {
    &&& all.dom().contains((repo, plan.change.change_id))
    &&& all[(repo, plan.change.change_id)] == entry
}

/// The law of the submitted requests: a submit that succeeds has one entry for each plan, in order, which is
/// what GitHub answered when the request was opened or edited, or what was known of one that needed
/// nothing; and it remembers each under the repository and the change.
pub proof fn law_submit_keeps_what_github_answered(
    before: Seq<Event>,
    after: Seq<Event>,
    repo: Seq<char>,
    place: Seq<char>,
    all: Map<(Seq<char>, Seq<char>), PrCacheEntryView>,
    plans: Seq<SubmitPlanView>,
    done: Seq<PrCacheEntryView>,
    steps: bool,
    diagnostics: Diagnostics,
    entries: Seq<PrCacheEntryView>,
    now: Map<(Seq<char>, Seq<char>), PrCacheEntryView>,
    from: int,
)
    requires
        submit::prs_submitted(
            before,
            after,
            repo,
            place,
            all,
            plans,
            done,
            steps,
            diagnostics,
            Ok((entries, now)),
        ),
        done.len() <= plans.len(),
        0 <= from <= before.len(),
        forall|i: int, j: int|
            0 <= i < j < plans.len() ==> (#[trigger] plans[i]).change.change_id != (
            #[trigger] plans[j]).change.change_id,
        forall|k: int|
            0 <= k < done.len() ==> entry_told(from, before, repo, plans[k], #[trigger] done[k]),
        forall|k: int|
            0 <= k < done.len() ==> is_remembered(all, repo, plans[k], #[trigger] done[k]),
    ensures
        entries.len() == plans.len(),
        forall|k: int|
            0 <= k < entries.len() ==> entry_told(from, after, repo, plans[k], #[trigger] entries[k]),
        forall|k: int|
            0 <= k < entries.len() ==> is_remembered(now, repo, plans[k], #[trigger] entries[k]),
    decreases plans.len() - done.len(),
{
    if done.len() < plans.len() {
        let r = Ok::<
            (Seq<PrCacheEntryView>, Map<(Seq<char>, Seq<char>), PrCacheEntryView>),
            Seq<CauseView>,
        >((entries, now));
        let n = done.len() as int;
        let plan = plans[n];
        let (mid, got) = choose|mid: Seq<Event>, got: Result<PrCacheEntryView, Seq<CauseView>>|
            {
                &&& #[trigger] submit::pr_submitted(before, mid, repo, plans[n], got)
                &&& match got {
                    Err(e) => record::stopped(mid, after, e, r),
                    Ok(entry) => submit::pr_noted(
                        mid,
                        after,
                        repo,
                        place,
                        all,
                        plans,
                        done,
                        entry,
                        steps,
                        diagnostics,
                        r,
                    ),
                }
            };
        lemma_pr_submitted(before, mid, repo, plan, got);
        let entry = got->Ok_0;
        let key = (repo, plan.change.change_id);
        let told = mid + planning::action_said(
            diagnostics,
            repo,
            plan.change,
            submit::action_of(plan),
            entry,
        );
        let next = choose|next: Seq<Event>|
            {
                &&& #[trigger] submit::entry_saved(
                    told,
                    next,
                    place,
                    all,
                    key,
                    entry,
                    steps,
                    (done.len() + 1) as usize,
                )
                &&& submit::prs_submitted(
                    next,
                    after,
                    repo,
                    place,
                    all.insert(key, entry),
                    plans,
                    done.push(entry),
                    steps,
                    diagnostics,
                    r,
                )
            };
        lemma_saved_extends(
            told,
            next,
            place,
            all,
            key,
            entry,
            steps,
            (done.len() + 1) as usize,
        );
        record::lemma_extends_add(
            mid,
            planning::action_said(
                diagnostics,
                repo,
                plan.change,
                submit::action_of(plan),
                entry,
            ),
        );
        record::lemma_extends_trans(mid, told, next);
        record::lemma_extends_trans(before, mid, next);
        let more = done.push(entry);
        let known = all.insert(key, entry);
        assert forall|k: int| 0 <= k < more.len() implies entry_told(
            from,
            next,
            repo,
            plans[k],
            #[trigger] more[k],
        ) by {
            if k < n {
                assert(more[k] == done[k]);
                lemma_told_stays(from, from, before, next, repo, plans[k], done[k]);
            } else {
                lemma_told_stays(from, before.len() as int, mid, next, repo, plan, entry);
            }
        }
        assert forall|k: int| 0 <= k < more.len() implies is_remembered(known, repo, plans[k], #[trigger] more[k]) by {
            if k < n {
                assert(more[k] == done[k]);
                assert(plans[k].change.change_id != plans[n].change.change_id);
            }
        }
        law_submit_keeps_what_github_answered(
            next,
            after,
            repo,
            place,
            known,
            plans,
            more,
            steps,
            diagnostics,
            entries,
            now,
            from,
        );
    }
}

// ---------------------------------------------------------------------------
// Settled candidates
// ---------------------------------------------------------------------------

/// The candidates are those from before, each with the request that it had, or that GitHub showed since for
/// the number of its entry.
pub open spec fn are_refreshed(
    from: int,
    log: Seq<Event>,
    repo: Seq<char>,
    old_ones: Seq<MergeCandidateView>,
    new_ones: Seq<MergeCandidateView>,
) -> bool {
    &&& new_ones.len() == old_ones.len()
    &&& forall|k: int|
        0 <= k < new_ones.len() ==> {
            &&& (#[trigger] new_ones[k]).change == old_ones[k].change
            &&& new_ones[k].entry == old_ones[k].entry
            &&& new_ones[k].pr == old_ones[k].pr || judging::was_shown(
                from,
                log,
                repo,
                old_ones[k].entry.pr_number,
                new_ones[k].pr,
            )
        }
}

proof fn lemma_refreshed_stays(
    from: int,
    mid: Seq<Event>,
    after: Seq<Event>,
    repo: Seq<char>,
    old_ones: Seq<MergeCandidateView>,
    new_ones: Seq<MergeCandidateView>,
)
    requires
        record::extends(mid, after),
        are_refreshed(from, mid, repo, old_ones, new_ones),
    ensures
        are_refreshed(from, after, repo, old_ones, new_ones),
{
    assert forall|k: int| 0 <= k < new_ones.len() implies {
        &&& (#[trigger] new_ones[k]).change == old_ones[k].change
        &&& new_ones[k].entry == old_ones[k].entry
        &&& new_ones[k].pr == old_ones[k].pr || judging::was_shown(
            from,
            after,
            repo,
            old_ones[k].entry.pr_number,
            new_ones[k].pr,
        )
    } by {
        if new_ones[k].pr != old_ones[k].pr {
            judging::lemma_shown_stays(
                from,
                from,
                mid,
                after,
                repo,
                old_ones[k].entry.pr_number,
                new_ones[k].pr,
            );
        }
    }
}

proof fn lemma_round(
    before: Seq<Event>,
    after: Seq<Event>,
    repo: Seq<char>,
    now: Seq<MergeCandidateView>,
    pending: Seq<usize>,
    at: int,
    still: Seq<usize>,
    fresh: Seq<MergeCandidateView>,
    left: Seq<usize>,
    old_ones: Seq<MergeCandidateView>,
    from: int,
)
    requires
        polling::round_asked(before, after, repo, now, pending, at, still, Ok((fresh, left))),
        0 <= at,
        from <= before.len(),
        are_refreshed(from, before, repo, old_ones, now),
        forall|k: int| 0 <= k < pending.len() ==> (#[trigger] pending[k]) < now.len(),
        forall|k: int| 0 <= k < still.len() ==> (#[trigger] still[k]) < now.len(),
    ensures
        record::extends(before, after),
        are_refreshed(from, after, repo, old_ones, fresh),
        forall|k: int| 0 <= k < left.len() ==> (#[trigger] left[k]) < fresh.len(),
    decreases pending.len() - at,
{
    record::lemma_extends_refl(before);
    if at < pending.len() {
        let r = Ok::<(Seq<MergeCandidateView>, Seq<usize>), Seq<CauseView>>((fresh, left));
        let index = pending[at];
        let candidate = now[index as int];
        let (mid, got) = choose|mid: Seq<Event>, got: Result<GhMergePrView, Seq<CauseView>>|
            {
                &&& #[trigger] ready::merge_pr_fetched(
                    before,
                    mid,
                    repo,
                    candidate.change.change_id,
                    candidate.entry.pr_number,
                    got,
                )
                &&& match got {
                    Err(e) => record::stopped(mid, after, e, r),
                    Ok(pr) => polling::round_asked(
                        mid,
                        after,
                        repo,
                        now.update(index as int, (MergeCandidateView { pr, ..candidate })),
                        pending,
                        at + 1,
                        if ready::is_unsettled(pr) {
                            still.push(index)
                        } else {
                            still
                        },
                        r,
                    ),
                }
            };
        judging::lemma_merge_pr_fetched(
            before,
            mid,
            repo,
            candidate.change.change_id,
            candidate.entry.pr_number,
            got,
        );
        let pr = got->Ok_0;
        let next = now.update(index as int, (MergeCandidateView { pr, ..candidate }));
        let waits = if ready::is_unsettled(pr) {
            still.push(index)
        } else {
            still
        };
        lemma_refreshed_stays(from, before, mid, repo, old_ones, now);
        record::lemma_extends_refl(mid);
        judging::lemma_shown_stays(
            from,
            before.len() as int,
            mid,
            mid,
            repo,
            candidate.entry.pr_number,
            pr,
        );
        assert forall|k: int| 0 <= k < next.len() implies {
            &&& (#[trigger] next[k]).change == old_ones[k].change
            &&& next[k].entry == old_ones[k].entry
            &&& next[k].pr == old_ones[k].pr || judging::was_shown(
                from,
                mid,
                repo,
                old_ones[k].entry.pr_number,
                next[k].pr,
            )
        } by {
            assert(now[k].entry == old_ones[k].entry);
            if k != index {
                assert(next[k] == now[k]);
            }
        }
        assert forall|k: int| 0 <= k < pending.len() implies (#[trigger] pending[k]) < next.len() by {
        }
        assert forall|k: int| 0 <= k < waits.len() implies (#[trigger] waits[k]) < next.len() by {
            if k < still.len() {
                assert(waits[k] == still[k]);
            }
        }
        lemma_round(
            mid,
            after,
            repo,
            next,
            pending,
            at + 1,
            waits,
            fresh,
            left,
            old_ones,
            from,
        );
        record::lemma_extends_trans(before, mid, after);
    }
}

proof fn lemma_rounds(
    before: Seq<Event>,
    after: Seq<Event>,
    repo: Seq<char>,
    now: Seq<MergeCandidateView>,
    pending: Seq<usize>,
    total: nat,
    attempt: nat,
    shown: bool,
    verbose: bool,
    settled: Seq<MergeCandidateView>,
    old_ones: Seq<MergeCandidateView>,
    from: int,
)
    requires
        polling::rounds_asked(
            before,
            after,
            repo,
            now,
            pending,
            total,
            attempt,
            shown,
            verbose,
            Ok(settled),
        ),
        from <= before.len(),
        are_refreshed(from, before, repo, old_ones, now),
        forall|k: int| 0 <= k < pending.len() ==> (#[trigger] pending[k]) < now.len(),
    ensures
        are_refreshed(from, after, repo, old_ones, settled),
    decreases polling::POLL_MAX_ATTEMPTS - attempt,
{
    if attempt < polling::POLL_MAX_ATTEMPTS && pending.len() > 0 {
        let r = Ok::<Seq<MergeCandidateView>, Seq<CauseView>>(settled);
        let (mid, got) = choose|
            mid: Seq<Event>,
            got: Result<(Seq<MergeCandidateView>, Seq<usize>), Seq<CauseView>>,
        |
            {
                &&& #[trigger] polling::whole_round_asked(before, mid, repo, now, pending, got)
                &&& match got {
                    Err(e) => record::stopped(mid, after, e, r),
                    Ok((fresh, still)) => if still.len() == 0 {
                        after == mid + ui::step_said(shown, (total - still.len()) as usize) && r
                            == Ok::<_, Seq<CauseView>>(fresh)
                    } else {
                        polling::rounds_asked(
                            mid + ui::step_said(shown, (total - still.len()) as usize)
                                + polling::settle_pause(
                                verbose,
                                still.len(),
                                attempt,
                                polling::delay_after(attempt),
                            ),
                            after,
                            repo,
                            fresh,
                            still,
                            total,
                            attempt + 1,
                            shown,
                            verbose,
                            r,
                        )
                    },
                }
            };
        let (fresh, still) = got->Ok_0;
        lemma_round(
            before,
            mid,
            repo,
            now,
            pending,
            0,
            seq![],
            fresh,
            still,
            old_ones,
            from,
        );
        let step = mid + ui::step_said(shown, (total - still.len()) as usize);
        record::lemma_extends_add(mid, ui::step_said(shown, (total - still.len()) as usize));
        lemma_refreshed_stays(from, mid, step, repo, old_ones, fresh);
        if still.len() > 0 {
            let pause = polling::settle_pause(
                verbose,
                still.len(),
                attempt,
                polling::delay_after(attempt),
            );
            record::lemma_extends_add(step, pause);
            lemma_refreshed_stays(from, step, step + pause, repo, old_ones, fresh);
            lemma_rounds(
                step + pause,
                after,
                repo,
                fresh,
                still,
                total,
                attempt + 1,
                shown,
                verbose,
                settled,
                old_ones,
                from,
            );
        }
    }
}

proof fn lemma_places(candidates: Seq<MergeCandidateView>, k: int)
    requires
        candidates.len() <= usize::MAX,
        0 <= k < polling::unsettled_places(candidates).len(),
    ensures
        polling::unsettled_places(candidates)[k] < candidates.len(),
    decreases candidates.len(),
{
    if candidates.len() > 0 {
        let rest = polling::unsettled_places(candidates.drop_last());
        if k < rest.len() {
            lemma_places(candidates.drop_last(), k);
        }
    }
}

/// The law of the settled candidates: the candidates that a merge judges are those that it gathered, for the
/// same changes and with the same entries; a request changes only to what GitHub showed since for the
/// same number.
pub proof fn law_settling_keeps_the_candidates(
    before: Seq<Event>,
    after: Seq<Event>,
    repo: Seq<char>,
    candidates: Seq<MergeCandidateView>,
    diagnostics: Diagnostics,
    settled: Seq<MergeCandidateView>,
)
    requires
        polling::candidates_settled(before, after, repo, candidates, diagnostics, Ok(settled)),
        candidates.len() <= usize::MAX,
    ensures
        are_refreshed(before.len() as int, after, repo, candidates, settled),
{
    let r = Ok::<Seq<MergeCandidateView>, Seq<CauseView>>(settled);
    let pending = polling::unsettled_places(candidates);
    let mid = choose|mid: Seq<Event>|
        {
            &&& #[trigger] polling::all_rounds_asked(
                before,
                mid,
                repo,
                candidates,
                diagnostics,
                r,
            )
            &&& after == mid + ui::steps_ended(diagnostics.shows_steps(pending.len()))
        };
    let start = before + ui::steps_said(
        diagnostics,
        "Settling"@,
        "mergeability"@,
        pending.len() as usize,
    );
    assert forall|k: int| 0 <= k < pending.len() implies (#[trigger] pending[k])
        < candidates.len() by {
        lemma_places(candidates, k);
    }
    lemma_rounds(
        start,
        mid,
        repo,
        candidates,
        pending,
        pending.len(),
        0,
        diagnostics.shows_steps(pending.len()),
        diagnostics.verbose,
        settled,
        candidates,
        before.len() as int,
    );
    record::lemma_extends_add(mid, ui::steps_ended(diagnostics.shows_steps(pending.len())));
    lemma_refreshed_stays(before.len() as int, mid, after, repo, candidates, settled);
}

// ---------------------------------------------------------------------------
// Frozen requests of a sync
// ---------------------------------------------------------------------------

proof fn lemma_merged_count(prs: Seq<GhPrView>)
    ensures
        sync::merged_count(prs) <= prs.len(),
        sync::merged_count(prs) == prs.len() <==> forall|k: int|
            0 <= k < prs.len() ==> sync::is_merged_pr(#[trigger] prs[k]),
        sync::merged_count(prs) == 0 <==> forall|k: int|
            0 <= k < prs.len() ==> !sync::is_merged_pr(#[trigger] prs[k]),
    decreases prs.len(),
{
    if prs.len() > 0 {
        let front = prs.drop_last();
        lemma_merged_count(front);
        assert forall|k: int| 0 <= k < front.len() implies front[k] == #[trigger] prs[k] by {}
        let last = prs[prs.len() - 1];
        if sync::merged_count(prs) == prs.len() {
            assert forall|k: int| 0 <= k < prs.len() implies sync::is_merged_pr(
                #[trigger] prs[k],
            ) by {
                if k < front.len() {
                    assert(sync::is_merged_pr(front[k]));
                }
            }
        }
        if sync::merged_count(prs) == 0 {
            assert forall|k: int| 0 <= k < prs.len() implies !sync::is_merged_pr(
                #[trigger] prs[k],
            ) by {
                if k < front.len() {
                    assert(!sync::is_merged_pr(front[k]));
                }
            }
        }
        if forall|k: int| 0 <= k < prs.len() ==> sync::is_merged_pr(#[trigger] prs[k]) {
            assert(sync::is_merged_pr(last));
            assert forall|k: int| 0 <= k < front.len() implies sync::is_merged_pr(
                #[trigger] front[k],
            ) by {
                assert(sync::is_merged_pr(prs[k]));
            }
        }
        if forall|k: int| 0 <= k < prs.len() ==> !sync::is_merged_pr(#[trigger] prs[k]) {
            assert(!sync::is_merged_pr(last));
            assert forall|k: int| 0 <= k < front.len() implies !sync::is_merged_pr(
                #[trigger] front[k],
            ) by {
                assert(!sync::is_merged_pr(prs[k]));
            }
        }
    }
}

/// The law of the frozen state: the frozen requests below a stack are left behind just where all of them are
/// merged, and stay below it only where none is; a sync goes on in no other case.
pub proof fn law_frozen_requests_go_together(
    config: AppConfigView,
    repo: Seq<char>,
    dependencies: Seq<FrozenDependencyView>,
    prs: Seq<GhPrView>,
)
    ensures
        sync::frozen_stack_state(config, repo, dependencies, prs) == Ok::<bool, Seq<CauseView>>(false)
            <==> dependencies.len() == prs.len() && forall|k: int|
            0 <= k < prs.len() ==> text::lower_all((#[trigger] prs[k]).state) == text::lower_all(
                "merged"@,
            ),
        sync::frozen_stack_state(config, repo, dependencies, prs) == Ok::<bool, Seq<CauseView>>(true)
            ==> dependencies.len() == prs.len() && forall|k: int|
            0 <= k < prs.len() ==> text::lower_all((#[trigger] prs[k]).state) != text::lower_all(
                "merged"@,
            ),
{
    reveal_strlit("MERGED");
    reveal_strlit("merged");
    assert(text::lower_all("MERGED"@) =~= text::lower_all("merged"@));
    lemma_merged_count(prs);
    assert forall|k: int| 0 <= k < prs.len() implies sync::is_merged_pr(#[trigger] prs[k]) == (
    text::lower_all(prs[k].state) == text::lower_all("merged"@)) by {}
}

} // verus!
