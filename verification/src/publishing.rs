//! What a submit does to the repository and to GitHub.

use vstd::prelude::*;

use crate::api;
use crate::bodies;
use crate::cache;
use crate::commenting;
use crate::comments;
use crate::comments::StackCommentActionView;
use crate::error;
use crate::error::CauseView;
use crate::model::{
    AppConfigView, AppContextView, Diagnostics, FrozenDependencyView, GhPrView, PrCacheEntryView,
    SubmitPlanView,
};
use crate::planning;
use crate::pr;
use crate::quiet;
use crate::reading;
use crate::reading::{Deed, deed};
use crate::record;
use crate::record::Event;
use crate::submit;
use crate::submit::{CommentSources, SubmitSummary};
use crate::text;
use crate::ui;

verus! {

broadcast use crate::record::group_record;

/// The bookmark of a plan is put at the commit of its change.
pub open spec fn points_head(event: Event, plan: SubmitPlanView) -> bool {
    deed(event) == (Deed::SetBookmark {
        name: plan.head_branch,
        at: plan.change.commit_id,
        backwards: true,
    })
}

/// At `i` the bookmark of a plan is pushed, alone, right after it was put at the commit of its change.
pub open spec fn pushes_head(log: Seq<Event>, i: int, remote: Seq<char>, plan: SubmitPlanView) -> bool {
    &&& 0 < i < log.len()
    &&& points_head(log[i - 1], plan)
    &&& deed(log[i]) == (Deed::Push { remote, bookmarks: seq![plan.head_branch] })
}

/// Whether from `from` on a bookmark is put only at the commit of the change whose head it is, and is
/// pushed only right after that.
pub open spec fn heads_hold(
    from: int,
    log: Seq<Event>,
    remote: Seq<char>,
    plans: Seq<SubmitPlanView>,
) -> bool {
    forall|i: int| from <= i < log.len() ==> head_holds(log, #[trigger] log[i], i, remote, plans)
}

/// Whether what is done at `i`, where it moves or pushes a bookmark, is right.
pub open spec fn head_holds(
    log: Seq<Event>,
    event: Event,
    i: int,
    remote: Seq<char>,
    plans: Seq<SubmitPlanView>,
) -> bool {
    &&& quiet::harmless(event) || deed(event) is Push || deed(event) is SetBookmark
    &&& deed(event) is Push ==> exists|plan: SubmitPlanView|
        plans.contains(plan) && plan.push_needed && #[trigger] pushes_head(log, i, remote, plan)
    &&& deed(event) is SetBookmark ==> exists|plan: SubmitPlanView|
        plans.contains(plan) && plan.push_needed && #[trigger] points_head(event, plan)
}

/// Whether a head that moves was put at its change and pushed, from `from` on.
pub open spec fn was_published(
    from: int,
    log: Seq<Event>,
    remote: Seq<char>,
    plan: SubmitPlanView,
) -> bool {
    exists|i: int| from <= i && #[trigger] pushes_head(log, i, remote, plan)
}

proof fn lemma_head_lines(remote: Seq<char>, plan: SubmitPlanView)
    ensures
        reading::deed_of("jj"@, planning::set_head_args(plan)) == (Deed::SetBookmark {
            name: plan.head_branch,
            at: plan.change.commit_id,
            backwards: true,
        }),
        reading::deed_of("jj"@, planning::push_head_args(remote, plan)) == (Deed::Push {
            remote,
            bookmarks: seq![plan.head_branch],
        }),
{
    reveal(reading::deed_of);
    reading::lemma_words();
    let args = planning::push_head_args(remote, plan);
    reveal_with_fuel(reading::values_from, 3);
    assert(reading::values_from(args, "--bookmark"@, 4) =~= seq![plan.head_branch]);
}

proof fn lemma_heads_walked(
    before: Seq<Event>,
    after: Seq<Event>,
    remote: Seq<char>,
    plans: Seq<SubmitPlanView>,
    at: int,
    steps: bool,
    r: Result<(), Seq<CauseView>>,
)
    requires
        planning::heads_walked(before, after, remote, plans, at, steps, r),
        0 <= at,
        forall|k: int| 0 <= k < plans.len() ==> (#[trigger] plans[k]).push_needed,
    ensures
        record::extends(before, after),
        heads_hold(before.len() as int, after, remote, plans),
        r is Ok ==> forall|k: int|
            at <= k < plans.len() ==> was_published(
                before.len() as int,
                after,
                remote,
                #[trigger] plans[k],
            ),
    decreases plans.len() - at,
{
    if at < plans.len() {
        let n = before.len() as int;
        let plan = plans[at];
        assert(plans.contains(plan));
        lemma_head_lines(remote, plan);
        assert(points_head(after[n], plan));
        assert(head_holds(after, after[n], n, remote, plans));
        if planning::push_result(
            plan.head_branch,
            planning::set_head_args(plan),
            record::reply_of(after[n]),
        ) is Ok {
            assert(pushes_head(after, n + 1, remote, plan));
            assert(head_holds(after, after[n + 1], n + 1, remote, plans));
            if planning::push_result(
                plan.head_branch,
                planning::push_head_args(remote, plan),
                record::reply_of(after[n + 1]),
            ) is Ok {
                let next = after.take(n + 2) + ui::step_said(steps, (at + 1) as usize);
                lemma_heads_walked(next, after, remote, plans, at + 1, steps, r);
                assert forall|i: int| n <= i < after.len() implies head_holds(
                    after,
                    #[trigger] after[i],
                    i,
                    remote,
                    plans,
                ) by {
                    if n + 2 <= i < next.len() {
                        assert(after.take(next.len() as int)[i] == next[i]);
                    }
                }
                if r is Ok {
                    assert forall|k: int| at <= k < plans.len() implies was_published(
                        n,
                        after,
                        remote,
                        #[trigger] plans[k],
                    ) by {
                        if k > at {
                            assert(was_published(next.len() as int, after, remote, plans[k]));
                        }
                    }
                }
            }
        }
    }
}

proof fn lemma_pushed_are_plans(plans: Seq<SubmitPlanView>)
    ensures
        forall|plan: SubmitPlanView| #[trigger]
            planning::pushed(plans).contains(plan) == (plans.contains(plan) && plan.push_needed),
    decreases plans.len(),
{
    if plans.len() > 0 {
        let front = plans.drop_last();
        let rest = planning::pushed(front);
        let all = planning::pushed(plans);
        lemma_pushed_are_plans(front);
        assert forall|plan: SubmitPlanView| #[trigger] all.contains(plan) == (plans.contains(plan)
            && plan.push_needed) by {
            if all.contains(plan) {
                let k = choose|k: int| 0 <= k < all.len() && all[k] == plan;
                if k < rest.len() {
                    assert(rest[k] == plan);
                    assert(rest.contains(plan));
                    let j = choose|j: int| 0 <= j < front.len() && front[j] == plan;
                    assert(plans[j] == plan);
                } else {
                    assert(plans[plans.len() - 1] == plan);
                }
            }
            if plans.contains(plan) && plan.push_needed {
                let j = choose|j: int| 0 <= j < plans.len() && plans[j] == plan;
                if j < front.len() {
                    assert(front[j] == plan);
                    assert(rest.contains(plan));
                    let k = choose|k: int| 0 <= k < rest.len() && rest[k] == plan;
                    assert(all[k] == plan);
                } else {
                    assert(all[rest.len() as int] == plan);
                }
            }
        }
    }
}

/// The law of publishing: a submit puts a bookmark only at the commit of the change whose head it is,
/// and pushes a bookmark only right after it has put it there. Where it succeeds, every head that
/// moves was put at its change and pushed.
pub proof fn law_pushed_heads_hold_their_changes(
    before: Seq<Event>,
    after: Seq<Event>,
    remote: Seq<char>,
    plans: Seq<SubmitPlanView>,
    diagnostics: Diagnostics,
    r: Result<(), Seq<CauseView>>,
)
    requires
        planning::heads_pushed(before, after, remote, plans, diagnostics, r),
    ensures
        record::extends(before, after),
        heads_hold(before.len() as int, after, remote, plans),
        r is Ok ==> forall|plan: SubmitPlanView|
            plans.contains(plan) && plan.push_needed ==> #[trigger] was_published(
                before.len() as int,
                after,
                remote,
                plan,
            ),
{
    let moved = planning::pushed(plans);
    lemma_pushed_are_plans(plans);
    assert forall|plan: SubmitPlanView| plans.contains(plan) && plan.push_needed implies #[trigger] moved.contains(
        plan,
    ) by {}
    if moved.len() > 0 {
        let mid = choose|mid: Seq<Event>|
            {
                &&& #[trigger] planning::all_heads_walked(before, mid, remote, moved, diagnostics, r)
                &&& after == if r is Ok {
                    mid + ui::steps_ended(diagnostics.shows_steps(moved.len()))
                } else {
                    mid
                }
            };
        let shown = diagnostics.shows_steps(moved.len());
        let start = before + ui::steps_said(diagnostics, "Pushing"@, "bookmarks"@, moved.len() as usize);
        assert forall|k: int| 0 <= k < moved.len() implies (#[trigger] moved[k]).push_needed by {
            assert(moved.contains(moved[k]));
        }
        lemma_heads_walked(start, mid, remote, moved, 0, shown, r);
        lemma_wider(before, start, mid, after, remote, moved, plans);
        if r is Ok {
            assert forall|plan: SubmitPlanView|
                plans.contains(plan) && plan.push_needed implies #[trigger] was_published(
                before.len() as int,
                after,
                remote,
                plan,
            ) by {
                assert(moved.contains(plan));
                let k = choose|k: int| 0 <= k < moved.len() && moved[k] == plan;
                assert(was_published(start.len() as int, mid, remote, moved[k]));
                let i = choose|i: int|
                    start.len() <= i && #[trigger] pushes_head(mid, i, remote, plan);
                assert(after[i] == mid[i] && after[i - 1] == mid[i - 1]);
                assert(pushes_head(after, i, remote, plan));
            }
        }
    } else {
        assert forall|plan: SubmitPlanView|
            plans.contains(plan) && plan.push_needed implies #[trigger] was_published(
            before.len() as int,
            after,
            remote,
            plan,
        ) by {
            assert(moved.contains(plan));
        }
    }
}

/// Lines of output before and after change nothing of it.
proof fn lemma_wider(
    before: Seq<Event>,
    start: Seq<Event>,
    mid: Seq<Event>,
    after: Seq<Event>,
    remote: Seq<char>,
    moved: Seq<SubmitPlanView>,
    plans: Seq<SubmitPlanView>,
)
    requires
        record::extends(before, start),
        record::extends(start, mid),
        record::extends(mid, after),
        forall|i: int| before.len() <= i < start.len() ==> (#[trigger] start[i]) is Said,
        forall|i: int| mid.len() <= i < after.len() ==> (#[trigger] after[i]) is Said,
        heads_hold(start.len() as int, mid, remote, moved),
        forall|plan: SubmitPlanView| #[trigger] moved.contains(plan) ==> plans.contains(plan),
    ensures
        record::extends(before, after),
        heads_hold(before.len() as int, after, remote, plans),
{
    assert forall|i: int| before.len() <= i < after.len() implies head_holds(
        after,
        #[trigger] after[i],
        i,
        remote,
        plans,
    ) by {
        if i < start.len() {
            assert(mid[i] == mid.take(start.len() as int)[i]);
            assert(after[i] == after.take(mid.len() as int)[i]);
            assert(after[i] is Said);
        } else if i < mid.len() {
            assert(after[i] == after.take(mid.len() as int)[i]);
            assert(head_holds(mid, mid[i], i, remote, moved));
            if deed(mid[i]) is Push {
                let plan = choose|plan: SubmitPlanView|
                    moved.contains(plan) && plan.push_needed && #[trigger] pushes_head(
                        mid,
                        i,
                        remote,
                        plan,
                    );
                assert(after[i - 1] == after.take(mid.len() as int)[i - 1]);
                assert(pushes_head(after, i, remote, plan));
            }
        }
    }
}

// ---------------------------------------------------------------------------
// Requests
// ---------------------------------------------------------------------------

/// A pull request is opened for the change of a plan, from its head onto its base.
pub open spec fn opens_request(event: Event, repo: Seq<char>, plan: SubmitPlanView) -> bool {
    match deed(event) {
        Deed::Request { method, path, fields } => {
            &&& method == "POST"@
            &&& path == "repos/"@ + repo + "/pulls"@
            &&& reading::field(fields, "title"@) == Some(plan.change.title)
            &&& reading::field(fields, "head"@) == Some(plan.head_branch)
            &&& reading::field(fields, "base"@) == Some(plan.base_branch)
            &&& reading::field(fields, "body"@) == Some(plan.change.body)
        },
        _ => false,
    }
}

/// The pull request of a plan gets the title and the text of its change, and the base of the plan.
pub open spec fn edits_request(event: Event, repo: Seq<char>, number: u64, plan: SubmitPlanView) -> bool {
    match deed(event) {
        Deed::Request { method, path, fields } => {
            &&& method == "PATCH"@
            &&& path == "repos/"@ + repo + "/pulls/"@ + text::decimal(number as nat)
            &&& reading::field(fields, "title"@) == Some(plan.change.title)
            &&& reading::field(fields, "base"@) == Some(plan.base_branch)
            &&& reading::field(fields, "body"@) == Some(plan.change.body)
        },
        _ => false,
    }
}

/// The pull request of a plan is opened, or, where there is one, edited.
pub open spec fn requests_plan(event: Event, repo: Seq<char>, plan: SubmitPlanView) -> bool {
    match plan.existing_pr {
        None => opens_request(event, repo, plan),
        Some(entry) => plan.pr_update_needed && edits_request(event, repo, entry.pr_number, plan),
    }
}

#[verifier::rlimit(40)]
pub proof fn lemma_request_lines(repo: Seq<char>, number: u64, plan: SubmitPlanView)
    ensures
        forall|event: Event|
            event is Call && #[trigger] record::is_call(event, "gh"@, api::create_pr_args(repo, plan))
                ==> opens_request(event, repo, plan),
        forall|event: Event|
            event is Call && #[trigger] record::is_call(
                event,
                "gh"@,
                api::update_pr_args(repo, number, plan),
            ) ==> edits_request(event, repo, number, plan),
{
    reveal(reading::deed_of);
    reading::lemma_words();
    reading::lemma_field_names();
    reveal_with_fuel(reading::values_from, 6);
    let title = "title="@ + plan.change.title;
    let head = "head="@ + plan.head_branch;
    let base = "base="@ + plan.base_branch;
    let body = "body="@ + plan.change.body;
    let four = seq![title, head, base, body];
    let three = seq![title, base, body];
    let opened = api::create_pr_args(repo, plan);
    let edited = api::update_pr_args(repo, number, plan);
    assert(reading::values_from(opened, "-f"@, 4) =~= four);
    assert(reading::values_from(edited, "-f"@, 4) =~= three);
    reveal_strlit("title");
    reveal_strlit("head");
    reveal_strlit("base");
    reveal_strlit("body");
    reveal_strlit("title=");
    reveal_strlit("head=");
    reveal_strlit("base=");
    assert(title =~= "title"@ + "="@ + plan.change.title);
    assert(head =~= "head"@ + "="@ + plan.head_branch);
    assert(base =~= "base"@ + "="@ + plan.base_branch);
    assert(body =~= "body"@ + "="@ + plan.change.body);
    reading::lemma_field_first(four, "title"@, plan.change.title);
    reading::lemma_field_next(four, "head"@, "title="@, plan.change.title, 0);
    reading::lemma_field_next(four, "base"@, "title="@, plan.change.title, 0);
    reading::lemma_field_next(four, "body"@, "title="@, plan.change.title, 0);
    let heads = four.skip(1);
    assert(heads =~= seq![head, base, body]);
    reading::lemma_field_first(heads, "head"@, plan.head_branch);
    reading::lemma_field_next(heads, "base"@, "head="@, plan.head_branch, 0);
    reading::lemma_field_next(heads, "body"@, "head="@, plan.head_branch, 0);
    let bases = heads.skip(1);
    assert(bases =~= seq![base, body]);
    reading::lemma_field_first(bases, "base"@, plan.base_branch);
    reading::lemma_field_next(bases, "body"@, "base="@, plan.base_branch, 1);
    let bodies = bases.skip(1);
    assert(bodies =~= seq![body]);
    reading::lemma_field_first(bodies, "body"@, plan.change.body);
    reading::lemma_field_first(three, "title"@, plan.change.title);
    reading::lemma_field_next(three, "base"@, "title="@, plan.change.title, 0);
    reading::lemma_field_next(three, "body"@, "title="@, plan.change.title, 0);
    assert(three.skip(1) =~= bases);
}

/// What a submit may do to GitHub for these plans, before it comments.
pub open spec fn request_deeds(repo: Seq<char>, plans: Seq<SubmitPlanView>) -> spec_fn(Event) -> bool {
    |event: Event| is_requested(event, repo, plans)
}

pub open spec fn is_requested(event: Event, repo: Seq<char>, plans: Seq<SubmitPlanView>) -> bool {
    ||| event is CacheWritten
    ||| exists|plan: SubmitPlanView| plans.contains(plan) && #[trigger] requests_plan(event, repo, plan)
}

/// Whether the pull request of a plan that has none was opened in `from..`.
pub open spec fn was_opened(from: int, log: Seq<Event>, repo: Seq<char>, plan: SubmitPlanView) -> bool {
    exists|i: int| from <= i < log.len() && #[trigger] opens_request(log[i], repo, plan)
}

proof fn lemma_pr_submitted(
    before: Seq<Event>,
    after: Seq<Event>,
    repo: Seq<char>,
    plans: Seq<SubmitPlanView>,
    plan: SubmitPlanView,
    r: Result<PrCacheEntryView, Seq<CauseView>>,
)
    requires
        submit::pr_submitted(before, after, repo, plan, r),
        plans.contains(plan),
    ensures
        record::extends(before, after),
        reading::did(before, after, request_deeds(repo, plans)),
        r is Ok && plan.existing_pr is None ==> was_opened(before.len() as int, after, repo, plan),
{
    broadcast use {crate::quiet::group_quiet, crate::reading::group_reading};

    let number = match plan.existing_pr {
        Some(entry) => entry.pr_number,
        None => 0,
    };
    lemma_request_lines(repo, number, plan);
    if plan.existing_pr is None || plan.pr_update_needed {
        let n = before.len() as int;
        assert(record::extends(before, after) && after.len() > n);
        assert(reading::did(before, after, request_deeds(repo, plans))) by {
            reveal(reading::did);
            assert forall|i: int| n <= i < after.len() implies quiet::harmless(#[trigger] after[i])
                || is_requested(after[i], repo, plans) by {
                if i == n && after[n] is Call {
                    assert(requests_plan(after[n], repo, plan));
                }
            }
        }
        if r is Ok {
            reveal(record::in_place);
            assert(after[n] is Call);
        }
    }
}

proof fn lemma_entry_saved(
    before: Seq<Event>,
    after: Seq<Event>,
    place: Seq<char>,
    all: Map<(Seq<char>, Seq<char>), PrCacheEntryView>,
    key: (Seq<char>, Seq<char>),
    entry: PrCacheEntryView,
    steps: bool,
    at: usize,
    may: spec_fn(Event) -> bool,
)
    requires
        submit::entry_saved(before, after, place, all, key, entry, steps, at),
        forall|event: Event| #[trigger] may(event) || !(event is CacheWritten),
    ensures
        reading::did(before, after, may),
{
    broadcast use {
        crate::quiet::group_quiet,
        crate::reading::group_reading,
        crate::asking::lemma_step_said,
    };

    let mid = choose|mid: Seq<Event>|
        #[trigger] submit::entry_kept(before, mid, place, all, key, entry) && after == mid
            + ui::step_said(steps, at);
    assert(quiet::quiet(mid, after));
    assert(reading::did(before, mid, may)) by {
        if !(all.dom().contains(key) && all[key] == entry) {
            reveal(reading::did);
            let n = before.len() as int;
            assert forall|i: int| n <= i < mid.len() implies quiet::harmless(#[trigger] mid[i])
                || may(mid[i]) by {
                if i > n {
                    let tail = ui::failure_logged(
                        cache::unwritten_cache("save-cache"@, place),
                        mid[n]->written,
                    );
                    assert(mid == mid.take(n + 1) + tail);
                    assert(mid[i] == tail[i - n - 1]);
                }
            }
        }
    }
}

#[verifier::rlimit(30)]
proof fn lemma_prs_submitted(
    before: Seq<Event>,
    after: Seq<Event>,
    repo: Seq<char>,
    place: Seq<char>,
    all: Map<(Seq<char>, Seq<char>), PrCacheEntryView>,
    plans: Seq<SubmitPlanView>,
    done: Seq<PrCacheEntryView>,
    steps: bool,
    diagnostics: Diagnostics,
    r: Result<
        (Seq<PrCacheEntryView>, Map<(Seq<char>, Seq<char>), PrCacheEntryView>),
        Seq<CauseView>,
    >,
)
    requires
        submit::prs_submitted(before, after, repo, place, all, plans, done, steps, diagnostics, r),
        done.len() <= plans.len(),
    ensures
        record::extends(before, after),
        reading::did(before, after, request_deeds(repo, plans)),
        r is Ok ==> (r->Ok_0).0.len() == plans.len(),
        r is Ok ==> forall|k: int|
            done.len() <= k < plans.len() && (#[trigger] plans[k]).existing_pr is None ==> was_opened(
                before.len() as int,
                after,
                repo,
                plans[k],
            ),
    decreases plans.len() - done.len(),
{
    broadcast use {
        crate::quiet::group_quiet,
        crate::reading::group_reading,
        crate::asking::lemma_action_said,
    };

    let may = request_deeds(repo, plans);
    if done.len() < plans.len() {
        let plan = plans[done.len() as int];
        let (mid, entry) = choose|mid: Seq<Event>, entry: Result<PrCacheEntryView, Seq<CauseView>>|
            {
                &&& #[trigger] submit::pr_submitted(
                    before,
                    mid,
                    repo,
                    plans[done.len() as int],
                    entry,
                )
                &&& match entry {
                    Err(e) => record::stopped(mid, after, e, r),
                    Ok(entry) => submit::pr_noted(
                        mid,
                        after,
                        repo,
                        place,
                        all,
                        plans,
                        done,
                        entry,
                        steps,
                        diagnostics,
                        r,
                    ),
                }
            };
        lemma_pr_submitted(before, mid, repo, plans, plan, entry);
        if entry is Ok {
            let entry = entry->Ok_0;
            let key = (repo, plan.change.change_id);
            let told = mid + planning::action_said(
                diagnostics,
                repo,
                plan.change,
                submit::action_of(plan),
                entry,
            );
            let next = choose|next: Seq<Event>|
                {
                    &&& #[trigger] submit::entry_saved(
                        told,
                        next,
                        place,
                        all,
                        key,
                        entry,
                        steps,
                        (done.len() + 1) as usize,
                    )
                    &&& submit::prs_submitted(
                        next,
                        after,
                        repo,
                        place,
                        all.insert(key, entry),
                        plans,
                        done.push(entry),
                        steps,
                        diagnostics,
                        r,
                    )
                };
            assert(quiet::quiet(mid, told));
            lemma_entry_saved(
                told,
                next,
                place,
                all,
                key,
                entry,
                steps,
                (done.len() + 1) as usize,
                may,
            );
            lemma_prs_submitted(
                next,
                after,
                repo,
                place,
                all.insert(key, entry),
                plans,
                done.push(entry),
                steps,
                diagnostics,
                r,
            );
            reading::lemma_did_then_quiet(before, mid, told, may);
            reading::lemma_did_trans(before, told, next, may);
            reading::lemma_did_trans(before, next, after, may);
            assert(record::extends(mid, after) && record::extends(before, next)) by {
                reveal(reading::did);
            }
            if r is Ok {
                assert forall|k: int|
                    done.len() <= k < plans.len() && (#[trigger] plans[k]).existing_pr is None implies was_opened(
                    before.len() as int,
                    after,
                    repo,
                    plans[k],
                ) by {
                    if k == done.len() {
                        let i = choose|i: int|
                            before.len() <= i < mid.len() && #[trigger] opens_request(
                                mid[i],
                                repo,
                                plan,
                            );
                        assert(after.take(mid.len() as int)[i] == mid[i]);
                        assert(opens_request(after[i], repo, plan));
                    } else {
                        assert(was_opened(next.len() as int, after, repo, plans[k]));
                    }
                }
            }
        }
    }
}

// ---------------------------------------------------------------------------
// A whole submit
// ---------------------------------------------------------------------------

/// Whether a meeting puts on the pull request of a change of the stack the comment that shows this
/// stack with that change marked.
pub open spec fn comments_change(event: Event, sources: CommentSources) -> bool {
    exists|k: int|
        0 <= k < sources.owned.len() && #[trigger] comments_change_at(event, sources, k)
}

pub open spec fn comments_change_at(event: Event, sources: CommentSources, k: int) -> bool {
    commenting::sends_comment(
        event,
        sources.context.github.repo,
        sources.owned[k].1.pr_number,
        bodies::stack_comment(
            sources.context,
            sources.frozen,
            sources.owned,
            sources.owned[k].0,
            sources.trunk,
        ),
    )
}

pub open spec fn comment_deeds(sources: CommentSources) -> spec_fn(Event) -> bool {
    |event: Event| event is CacheWritten || comments_change(event, sources)
}

proof fn lemma_comments_submitted(
    before: Seq<Event>,
    after: Seq<Event>,
    sources: CommentSources,
    place: Seq<char>,
    all: Map<(Seq<char>, Seq<char>), PrCacheEntryView>,
    at: int,
    summary: SubmitSummary,
    steps: bool,
    r: Result<SubmitSummary, Seq<CauseView>>,
)
    requires
        submit::comments_submitted(before, after, sources, place, all, at, summary, steps, r),
        0 <= at,
    ensures
        reading::did(before, after, comment_deeds(sources)),
    decreases sources.owned.len() - at,
{
    broadcast use {crate::quiet::group_quiet, crate::reading::group_reading};

    let may = comment_deeds(sources);
    if at < sources.owned.len() {
        let (mid, step) = choose|
            mid: Seq<Event>,
            step: Result<
                (SubmitSummary, Map<(Seq<char>, Seq<char>), PrCacheEntryView>),
                Seq<CauseView>,
            >,
        |
            {
                &&& #[trigger] submit::comment_step(
                    before,
                    mid,
                    sources,
                    place,
                    all,
                    at,
                    summary,
                    steps,
                    step,
                )
                &&& match step {
                    Err(e) => record::stopped(mid, after, e, r),
                    Ok((next, more)) => submit::comments_submitted(
                        mid,
                        after,
                        sources,
                        place,
                        more,
                        at + 1,
                        next,
                        steps,
                        r,
                    ),
                }
            };
        lemma_comment_step(before, mid, sources, place, all, at, summary, steps, step);
        if step is Ok {
            lemma_comments_submitted(
                mid,
                after,
                sources,
                place,
                (step->Ok_0).1,
                at + 1,
                (step->Ok_0).0,
                steps,
                r,
            );
            reading::lemma_did_trans(before, mid, after, may);
        }
    }
}

proof fn lemma_comment_step(
    before: Seq<Event>,
    after: Seq<Event>,
    sources: CommentSources,
    place: Seq<char>,
    all: Map<(Seq<char>, Seq<char>), PrCacheEntryView>,
    at: int,
    summary: SubmitSummary,
    steps: bool,
    r: Result<
        (SubmitSummary, Map<(Seq<char>, Seq<char>), PrCacheEntryView>),
        Seq<CauseView>,
    >,
)
    requires
        submit::comment_step(before, after, sources, place, all, at, summary, steps, r),
        0 <= at < sources.owned.len(),
    ensures
        reading::did(before, after, comment_deeds(sources)),
{
    let may = comment_deeds(sources);
    let change_id = sources.owned[at].0;
    let entry = sources.owned[at].1;
    let key = (sources.context.github.repo, change_id);
    let body = bodies::stack_comment(
        sources.context,
        sources.frozen,
        sources.owned,
        change_id,
        sources.trunk,
    );
    let (mid, action) = choose|mid: Seq<Event>, action: Result<StackCommentActionView, Seq<CauseView>>|
        {
            &&& #[trigger] comments::comment_upserted(
                before,
                mid,
                sources.context.github,
                entry.pr_number,
                change_id,
                bodies::stack_comment(
                    sources.context,
                    sources.frozen,
                    sources.owned,
                    change_id,
                    sources.trunk,
                ),
                action,
            )
            &&& match action {
                Err(e) => record::stopped(mid, after, e, r),
                Ok(action) => {
                    &&& submit::entry_saved(
                        mid,
                        after,
                        place,
                        all,
                        key,
                        submit::with_comment(entry, action),
                        steps,
                        (at + 1) as usize,
                    )
                    &&& r == Ok::<_, Seq<CauseView>>(
                        (
                            submit::commented(summary, action),
                            all.insert(key, submit::with_comment(entry, action)),
                        ),
                    )
                },
            }
        };
    let github = sources.context.github;
    commenting::law_comment_is_sent_as_it_is(
        before,
        mid,
        github,
        entry.pr_number,
        change_id,
        body,
        action,
    );
    assert(reading::did(before, mid, may)) by {
        reveal(reading::did);
        assert forall|i: int| before.len() <= i < mid.len() implies quiet::harmless(
            #[trigger] mid[i],
        ) || may(mid[i]) by {
            if commenting::comments_at(mid, before.len() as int, i, github, entry.pr_number, body) {
                assert(comments_change_at(mid[i], sources, at));
            }
        }
    }
    if action is Ok {
        lemma_entry_saved(
            mid,
            after,
            place,
            all,
            key,
            submit::with_comment(entry, action->Ok_0),
            steps,
            (at + 1) as usize,
            may,
        );
        reading::lemma_did_trans(before, mid, after, may);
    }
}

/// All that a submit may do for these plans.
pub open spec fn submit_deeds(
    remote: Seq<char>,
    plans: Seq<SubmitPlanView>,
    sources: CommentSources,
) -> spec_fn(Event) -> bool {
    |event: Event| is_submitted(event, remote, plans, sources)
}

pub open spec fn is_submitted(
    event: Event,
    remote: Seq<char>,
    plans: Seq<SubmitPlanView>,
    sources: CommentSources,
) -> bool {
    ||| is_requested(event, sources.context.github.repo, plans)
    ||| comments_change(event, sources)
    ||| is_published(event, remote, plans)
}

/// The head of a plan is put at its change, or pushed.
pub open spec fn is_published(event: Event, remote: Seq<char>, plans: Seq<SubmitPlanView>) -> bool {
    exists|plan: SubmitPlanView|
        {
            &&& plans.contains(plan)
            &&& plan.push_needed
            &&& #[trigger] publishes(event, remote, plan)
        }
}

pub open spec fn publishes(event: Event, remote: Seq<char>, plan: SubmitPlanView) -> bool {
    ||| points_head(event, plan)
    ||| deed(event) == (Deed::Push { remote, bookmarks: seq![plan.head_branch] })
}

/// The plans of a submit: one for each change of the stack, each on the head of the one below, the
/// lowest on trunk or on the head of the topmost frozen pull request.
pub open spec fn planned(
    config: AppConfigView,
    context: AppContextView,
    frozen: Seq<(Seq<char>, PrCacheEntryView)>,
    plans: Seq<SubmitPlanView>,
) -> bool {
    &&& frozen.len() == context.frozen_dependencies.len()
    &&& plans.len() == context.stack.len()
    &&& planning::plans_stand(
        context.stack,
        if frozen.len() > 0 {
            frozen.last().1.head_branch
        } else {
            config.trunk
        },
        plans,
    )
}

/// Whether all that was changed belongs to one plan of the stack.
pub open spec fn submitted_by(
    before: Seq<Event>,
    after: Seq<Event>,
    config: AppConfigView,
    context: AppContextView,
    frozen: Seq<(Seq<char>, PrCacheEntryView)>,
    plans: Seq<SubmitPlanView>,
    owned: Seq<(Seq<char>, PrCacheEntryView)>,
) -> bool {
    &&& planned(config, context, frozen, plans)
    &&& owned.len() <= plans.len()
    &&& forall|k: int| 0 <= k < owned.len() ==> (#[trigger] owned[k]).0 == plans[k].change.change_id
    &&& reading::did(
        before,
        after,
        submit_deeds(
            config.remote,
            plans,
            (CommentSources { context, frozen, owned, trunk: config.trunk }),
        ),
    )
}

#[verifier::opaque]
pub open spec fn submitted(
    before: Seq<Event>,
    after: Seq<Event>,
    config: AppConfigView,
    context: AppContextView,
) -> bool {
    ||| quiet::quiet(before, after)
    ||| exists|
        frozen: Seq<(Seq<char>, PrCacheEntryView)>,
        plans: Seq<SubmitPlanView>,
        owned: Seq<(Seq<char>, PrCacheEntryView)>,
    |
        #[trigger] submitted_by(before, after, config, context, frozen, plans, owned)
}

broadcast proof fn lemma_quiet_submitted(
    before: Seq<Event>,
    after: Seq<Event>,
    config: AppConfigView,
    context: AppContextView,
)
    requires
        quiet::quiet(before, after),
    ensures
        #[trigger] submitted(before, after, config, context),
{
    reveal(submitted);
}

broadcast proof fn lemma_quiet_then_submitted(
    a: Seq<Event>,
    b: Seq<Event>,
    c: Seq<Event>,
    config: AppConfigView,
    context: AppContextView,
)
    requires
        #[trigger] quiet::quiet(a, b),
        #[trigger] submitted(b, c, config, context),
    ensures
        submitted(a, c, config, context),
{
    broadcast use {crate::quiet::group_quiet, crate::reading::group_reading};

    reveal(submitted);
    if !quiet::quiet(b, c) {
        let (frozen, plans, owned) = choose|
            frozen: Seq<(Seq<char>, PrCacheEntryView)>,
            plans: Seq<SubmitPlanView>,
            owned: Seq<(Seq<char>, PrCacheEntryView)>,
        |
            #[trigger] submitted_by(b, c, config, context, frozen, plans, owned);
        assert(submitted_by(a, c, config, context, frozen, plans, owned));
    }
}

proof fn lemma_heads_did(
    before: Seq<Event>,
    after: Seq<Event>,
    remote: Seq<char>,
    plans: Seq<SubmitPlanView>,
    diagnostics: Diagnostics,
    sources: CommentSources,
    r: Result<(), Seq<CauseView>>,
)
    requires
        planning::heads_pushed(before, after, remote, plans, diagnostics, r),
    ensures
        reading::did(before, after, submit_deeds(remote, plans, sources)),
{
    law_pushed_heads_hold_their_changes(before, after, remote, plans, diagnostics, r);
    reveal(reading::did);
    assert forall|i: int| before.len() <= i < after.len() implies quiet::harmless(
        #[trigger] after[i],
    ) || is_submitted(after[i], remote, plans, sources) by {
        assert(head_holds(after, after[i], i, remote, plans));
        if deed(after[i]) is Push {
            let plan = choose|plan: SubmitPlanView|
                plans.contains(plan) && plan.push_needed && #[trigger] pushes_head(
                    after,
                    i,
                    remote,
                    plan,
                );
            assert(publishes(after[i], remote, plan));
        } else if deed(after[i]) is SetBookmark {
            let plan = choose|plan: SubmitPlanView|
                plans.contains(plan) && plan.push_needed && #[trigger] points_head(after[i], plan);
            assert(publishes(after[i], remote, plan));
        }
    }
}

broadcast proof fn submitted_submit_pushed(
    before: Seq<Event>,
    after: Seq<Event>,
    config: AppConfigView,
    context: AppContextView,
    frozen: Seq<(Seq<char>, PrCacheEntryView)>,
    place: Seq<char>,
    all: Map<(Seq<char>, Seq<char>), PrCacheEntryView>,
    plans: Seq<SubmitPlanView>,
    diagnostics: Diagnostics,
    r: Result<SubmitSummary, Seq<CauseView>>,
)
    requires
        #[trigger] submit::submit_pushed(before, after, config, context, frozen, place, all, plans, diagnostics, r),
        planned(config, context, frozen, plans),
    ensures
        submitted(before, after, config, context),
{
    broadcast use {
        crate::quiet::group_quiet,
        crate::reading::group_reading,
        crate::asking::lemma_phase_said,
        crate::asking::lemma_steps_said,
        crate::asking::lemma_steps_ended,
    };

    let start = before + ui::phase_said(diagnostics, "push-refs"@);
    let (mid, put) = choose|mid: Seq<Event>, put: Result<(), Seq<CauseView>>|
        {
            &&& #[trigger] planning::heads_pushed(
                start,
                mid,
                config.remote,
                plans,
                diagnostics,
                put,
            )
            &&& match put {
                Err(e) => record::stopped(mid, after, e, r),
                Ok(_) => submit::submit_requested(
                    mid,
                    after,
                    context,
                    config.trunk,
                    frozen,
                    place,
                    all,
                    plans,
                    diagnostics,
                    r,
                ),
            }
        };
    let repo = context.github.repo;
    let none = Seq::<(Seq<char>, PrCacheEntryView)>::empty();
    let owned = if put is Ok {
        lemma_requested(mid, after, config, context, frozen, place, all, plans, diagnostics, r)
    } else {
        none
    };
    let sources = CommentSources { context, frozen, owned, trunk: config.trunk };
    let may = submit_deeds(config.remote, plans, sources);
    lemma_heads_did(start, mid, config.remote, plans, diagnostics, sources, put);
    assert(quiet::quiet(before, start));
    reading::lemma_quiet_then_did(before, start, mid, may);
    if put is Ok {
        reading::lemma_did_trans(before, mid, after, may);
    }
    assert(submitted_by(before, after, config, context, frozen, plans, owned));
    reveal(submitted);
}

#[verifier::rlimit(40)]
proof fn lemma_requested(
    before: Seq<Event>,
    after: Seq<Event>,
    config: AppConfigView,
    context: AppContextView,
    frozen: Seq<(Seq<char>, PrCacheEntryView)>,
    place: Seq<char>,
    all: Map<(Seq<char>, Seq<char>), PrCacheEntryView>,
    plans: Seq<SubmitPlanView>,
    diagnostics: Diagnostics,
    r: Result<SubmitSummary, Seq<CauseView>>,
) -> (owned: Seq<(Seq<char>, PrCacheEntryView)>)
    requires
        submit::submit_requested(
            before,
            after,
            context,
            config.trunk,
            frozen,
            place,
            all,
            plans,
            diagnostics,
            r,
        ),
    ensures
        owned.len() <= plans.len(),
        forall|k: int|
            0 <= k < owned.len() ==> (#[trigger] owned[k]).0 == plans[k].change.change_id,
        reading::did(
            before,
            after,
            submit_deeds(
                config.remote,
                plans,
                (CommentSources { context, frozen, owned, trunk: config.trunk }),
            ),
        ),
{
    broadcast use {
        crate::quiet::group_quiet,
        crate::reading::group_reading,
        crate::asking::lemma_phase_said,
        crate::asking::lemma_steps_said,
        crate::asking::lemma_steps_ended,
    };

    let repo = context.github.repo;
    let (mid, made) = choose|
        mid: Seq<Event>,
        made: Result<
            (Seq<PrCacheEntryView>, Map<(Seq<char>, Seq<char>), PrCacheEntryView>),
            Seq<CauseView>,
        >,
    |
        {
            &&& #[trigger] submit::all_prs_submitted(
                before,
                mid,
                repo,
                place,
                all,
                plans,
                diagnostics,
                made,
            )
            &&& match made {
                Err(e) => record::stopped(mid, after, e, r),
                Ok((entries, more)) => submit::submit_commented(
                    mid + ui::steps_ended(diagnostics.shows_steps(plans.len())),
                    after,
                    CommentSources {
                        context,
                        frozen,
                        owned: submit::entries_by_change(plans, entries),
                        trunk: config.trunk,
                    },
                    place,
                    more,
                    submit::planned_summary(plans),
                    diagnostics,
                    r,
                ),
            }
        };
    let owned = if made is Ok {
        submit::entries_by_change(plans, (made->Ok_0).0)
    } else {
        Seq::empty()
    };
    let sources = CommentSources { context, frozen, owned, trunk: config.trunk };
    let may = submit_deeds(config.remote, plans, sources);
    let shown = before + ui::steps_said(
        diagnostics,
        "Submitting"@,
        "pull requests"@,
        plans.len() as usize,
    );
    lemma_prs_submitted(
        shown,
        mid,
        repo,
        place,
        all,
        plans,
        seq![],
        diagnostics.shows_steps(plans.len()),
        diagnostics,
        made,
    );
    reading::lemma_did_less(shown, mid, request_deeds(repo, plans), may);
    assert(quiet::quiet(before, shown));
    reading::lemma_quiet_then_did(before, shown, mid, may);
    if made is Ok {
        let ended = mid + ui::steps_ended(diagnostics.shows_steps(plans.len()));
        assert(quiet::quiet(mid, ended));
        reading::lemma_did_then_quiet(before, mid, ended, may);
        let last = choose|last: Seq<Event>|
            {
                &&& #[trigger] submit::all_comments_submitted(
                    ended,
                    last,
                    sources,
                    place,
                    (made->Ok_0).1,
                    submit::planned_summary(plans),
                    diagnostics,
                    r,
                )
                &&& after == if r is Ok {
                    last + ui::steps_ended(diagnostics.shows_steps(sources.owned.len()))
                } else {
                    last
                }
            };
        let phase = ended + ui::phase_said(diagnostics, "stack-comments"@);
        let begun = phase + ui::steps_said(
            diagnostics,
            "Updating"@,
            "stack comments"@,
            sources.owned.len() as usize,
        );
        assert(quiet::quiet(ended, phase));
        assert(quiet::quiet(phase, begun));
        lemma_comments_submitted(
            begun,
            last,
            sources,
            place,
            (made->Ok_0).1,
            0,
            submit::planned_summary(plans),
            diagnostics.shows_steps(sources.owned.len()),
            r,
        );
        reading::lemma_did_less(begun, last, comment_deeds(sources), may);
        reading::lemma_did_then_quiet(before, ended, phase, may);
        reading::lemma_did_then_quiet(before, phase, begun, may);
        reading::lemma_did_trans(before, begun, last, may);
        assert(quiet::quiet(last, after));
        reading::lemma_did_then_quiet(before, last, after, may);
    }
    owned
}

broadcast proof fn submitted_submit_allowed(
    before: Seq<Event>,
    after: Seq<Event>,
    config: AppConfigView,
    context: AppContextView,
    frozen: Seq<(Seq<char>, PrCacheEntryView)>,
    place: Seq<char>,
    all: Map<(Seq<char>, Seq<char>), PrCacheEntryView>,
    plans: Seq<SubmitPlanView>,
    yes: bool,
    yes_command: Seq<char>,
    diagnostics: Diagnostics,
    r: Result<SubmitSummary, Seq<CauseView>>,
)
    requires
        #[trigger] submit::submit_allowed(before, after, config, context, frozen, place, all, plans, yes, yes_command, diagnostics, r),
        planned(config, context, frozen, plans),
    ensures
        submitted(before, after, config, context),
{
    broadcast use {crate::quiet::group_quiet, lemma_quiet_then_submitted, lemma_quiet_submitted, submitted_submit_pushed, crate::asking::asks_submit_confirmed, crate::asking::lemma_submit_rows_said};

}

broadcast proof fn submitted_submit_decided(
    before: Seq<Event>,
    after: Seq<Event>,
    config: AppConfigView,
    context: AppContextView,
    frozen: Seq<(Seq<char>, PrCacheEntryView)>,
    place: Seq<char>,
    all: Map<(Seq<char>, Seq<char>), PrCacheEntryView>,
    plans: Seq<SubmitPlanView>,
    yes: bool,
    yes_command: Seq<char>,
    diagnostics: Diagnostics,
    r: Result<SubmitSummary, Seq<CauseView>>,
)
    requires
        #[trigger] submit::submit_decided(before, after, config, context, frozen, place, all, plans, yes, yes_command, diagnostics, r),
        planned(config, context, frozen, plans),
    ensures
        submitted(before, after, config, context),
{
    broadcast use {crate::quiet::group_quiet, lemma_quiet_then_submitted, lemma_quiet_submitted, submitted_submit_allowed, crate::asking::lemma_plan_rows_said};

}

broadcast proof fn submitted_submit_planned(
    before: Seq<Event>,
    after: Seq<Event>,
    config: AppConfigView,
    context: AppContextView,
    frozen: Seq<(Seq<char>, PrCacheEntryView)>,
    place: Seq<char>,
    all: Map<(Seq<char>, Seq<char>), PrCacheEntryView>,
    yes: bool,
    yes_command: Seq<char>,
    diagnostics: Diagnostics,
    r: Result<SubmitSummary, Seq<CauseView>>,
)
    requires
        #[trigger] submit::submit_planned(before, after, config, context, frozen, place, all, yes, yes_command, diagnostics, r),
        frozen.len() == context.frozen_dependencies.len(),
    ensures
        submitted(before, after, config, context),
{
    broadcast use {
        crate::quiet::group_quiet,
        lemma_quiet_then_submitted,
        lemma_quiet_submitted,
        submitted_submit_decided,
        crate::asking::asks_stack_planned,
    };

    let first = submit::first_base(config.trunk, frozen);
    let (mid, made) = choose|mid: Seq<Event>, made: Result<Seq<SubmitPlanView>, Seq<CauseView>>|
        {
            &&& #[trigger] planning::stack_planned(
                before,
                mid,
                config,
                context.github,
                all,
                context.stack,
                first,
                made,
            )
            &&& match made {
                Err(e) => record::stopped(mid, after, e, r),
                Ok(plans) => submit::submit_decided(
                    mid,
                    after,
                    config,
                    context,
                    frozen,
                    place,
                    all,
                    plans,
                    yes,
                    yes_command,
                    diagnostics,
                    r,
                ),
            }
        };
    if made is Ok {
        planning::law_plans_stand_on_each_other(
            before,
            mid,
            config,
            context.github,
            all,
            context.stack,
            first,
            made->Ok_0,
        );
        assert(planned(config, context, frozen, made->Ok_0));
    }
}

proof fn lemma_frozen_entries(
    before: Seq<Event>,
    after: Seq<Event>,
    repo: Seq<char>,
    dependencies: Seq<FrozenDependencyView>,
    done: Seq<(Seq<char>, PrCacheEntryView)>,
    r: Result<Seq<(Seq<char>, PrCacheEntryView)>, Seq<CauseView>>,
)
    requires
        planning::frozen_entries_walked(before, after, repo, dependencies, done, r),
        done.len() <= dependencies.len(),
        r is Ok,
    ensures
        (r->Ok_0).len() == dependencies.len(),
    decreases dependencies.len() - done.len(),
{
    if done.len() < dependencies.len() {
        let dependency = dependencies[done.len() as int];
        let (mid, fetched) = choose|mid: Seq<Event>, fetched: Result<GhPrView, Seq<CauseView>>|
            {
                &&& #[trigger] pr::pr_fetched(
                    before,
                    mid,
                    repo,
                    dependency.change.change_id,
                    dependency.bookmark.pr_number,
                    fetched,
                )
                &&& match fetched {
                    Err(e) => record::stopped(mid, after, e, r),
                    Ok(pr) => match planning::frozen_pr_fault(repo, dependency, pr) {
                        Some(e) => record::stopped(mid, after, e, r),
                        None => planning::frozen_entries_walked(
                            mid + ui::logged(
                                planning::resolved_dependency(dependency.bookmark.name, pr),
                            ),
                            after,
                            repo,
                            dependencies,
                            done.push((dependency.change.change_id, pr::entry_of(pr, None))),
                            r,
                        ),
                    },
                }
            };
        let pr = fetched->Ok_0;
        lemma_frozen_entries(
            mid + ui::logged(planning::resolved_dependency(dependency.bookmark.name, pr)),
            after,
            repo,
            dependencies,
            done.push((dependency.change.change_id, pr::entry_of(pr, None))),
            r,
        );
    }
}

broadcast proof fn submitted_submit_grounded(
    before: Seq<Event>,
    after: Seq<Event>,
    config: AppConfigView,
    context: AppContextView,
    place: Seq<char>,
    all: Map<(Seq<char>, Seq<char>), PrCacheEntryView>,
    yes: bool,
    yes_command: Seq<char>,
    diagnostics: Diagnostics,
    r: Result<SubmitSummary, Seq<CauseView>>,
)
    requires
        #[trigger] submit::submit_grounded(before, after, config, context, place, all, yes, yes_command, diagnostics, r),
    ensures
        submitted(before, after, config, context),
{
    broadcast use {
        crate::quiet::group_quiet,
        lemma_quiet_then_submitted,
        lemma_quiet_submitted,
        submitted_submit_planned,
        crate::asking::asks_frozen_entries_resolved,
    };

    let (mid, frozen) = choose|
        mid: Seq<Event>,
        frozen: Result<Seq<(Seq<char>, PrCacheEntryView)>, Seq<CauseView>>,
    |
        {
            &&& #[trigger] planning::frozen_entries_resolved(
                before,
                mid,
                context.github.repo,
                context.frozen_dependencies,
                frozen,
            )
            &&& match frozen {
                Err(e) => record::stopped(
                    mid,
                    after,
                    error::phase_failure("plan-submit"@, "frozen dependencies"@, e),
                    r,
                ),
                Ok(frozen) => submit::submit_planned(
                    mid,
                    after,
                    config,
                    context,
                    frozen,
                    place,
                    all,
                    yes,
                    yes_command,
                    diagnostics,
                    r,
                ),
            }
        };
    if frozen is Ok {
        lemma_frozen_entries(
            before,
            mid,
            context.github.repo,
            context.frozen_dependencies,
            seq![],
            frozen,
        );
    }
}

broadcast proof fn submitted_submit_opened(
    before: Seq<Event>,
    after: Seq<Event>,
    config: AppConfigView,
    context: AppContextView,
    yes: bool,
    yes_command: Seq<char>,
    diagnostics: Diagnostics,
    r: Result<SubmitSummary, Seq<CauseView>>,
)
    requires
        #[trigger] submit::submit_opened(before, after, config, context, yes, yes_command, diagnostics, r),
    ensures
        submitted(before, after, config, context),
{
    broadcast use {crate::quiet::group_quiet, lemma_quiet_then_submitted, lemma_quiet_submitted, submitted_submit_grounded, crate::asking::asks_cache_opened, crate::asking::lemma_phase_said};

}

pub broadcast proof fn submitted_stack_submitted(
    before: Seq<Event>,
    after: Seq<Event>,
    config: AppConfigView,
    context: AppContextView,
    yes: bool,
    yes_command: Seq<char>,
    diagnostics: Diagnostics,
    r: Result<SubmitSummary, Seq<CauseView>>,
)
    requires
        #[trigger] submit::stack_submitted(before, after, config, context, yes, yes_command, diagnostics, r),
    ensures
        submitted(before, after, config, context),
{
    broadcast use {crate::quiet::group_quiet, lemma_quiet_then_submitted, lemma_quiet_submitted, submitted_submit_opened, crate::asking::asks_bases_checked, crate::asking::lemma_phase_said};

}

/// The law of the submit: all that a submit changes belongs to one plan of its stack, in which each
/// change has a head of its own on the head of the change below. A bookmark is put only at the commit
/// of the change whose head it is; a request is opened or edited only with the title, text, head and
/// base of a change; and a comment shows the stack on the request of one of its changes.
pub proof fn law_submit_publishes_its_stack(
    before: Seq<Event>,
    after: Seq<Event>,
    config: AppConfigView,
    context: AppContextView,
    yes: bool,
    yes_command: Seq<char>,
    diagnostics: Diagnostics,
    r: Result<SubmitSummary, Seq<CauseView>>,
    change: int,
)
    requires
        submit::stack_submitted(before, after, config, context, yes, yes_command, diagnostics, r),
        before.len() <= change < after.len(),
        !quiet::harmless(after[change]),
    ensures
        exists|
            frozen: Seq<(Seq<char>, PrCacheEntryView)>,
            plans: Seq<SubmitPlanView>,
            owned: Seq<(Seq<char>, PrCacheEntryView)>,
        |
            {
                &&& planned(config, context, frozen, plans)
                &&& owned.len() <= plans.len()
                &&& forall|k: int|
                    0 <= k < owned.len() ==> (#[trigger] owned[k]).0 == plans[k].change.change_id
                &&& #[trigger] is_submitted(
                    after[change],
                    config.remote,
                    plans,
                    (CommentSources { context, frozen, owned, trunk: config.trunk }),
                )
            },
{
    submitted_stack_submitted(before, after, config, context, yes, yes_command, diagnostics, r);
    reveal(submitted);
    reveal(reading::did);
    reveal(quiet::quiet);
    let (frozen, plans, owned) = choose|
        frozen: Seq<(Seq<char>, PrCacheEntryView)>,
        plans: Seq<SubmitPlanView>,
        owned: Seq<(Seq<char>, PrCacheEntryView)>,
    |
        #[trigger] submitted_by(before, after, config, context, frozen, plans, owned);
    assert(is_submitted(
        after[change],
        config.remote,
        plans,
        (CommentSources { context, frozen, owned, trunk: config.trunk }),
    ));
}

/// The law of the missing requests: where the requests of a submit were all made, one was opened for each
/// plan that had none, from the head of the plan onto its base, with the title and the body of its change.
pub proof fn law_missing_requests_are_opened(
    before: Seq<Event>,
    after: Seq<Event>,
    repo: Seq<char>,
    place: Seq<char>,
    all: Map<(Seq<char>, Seq<char>), PrCacheEntryView>,
    plans: Seq<SubmitPlanView>,
    diagnostics: Diagnostics,
    entries: Seq<PrCacheEntryView>,
    now: Map<(Seq<char>, Seq<char>), PrCacheEntryView>,
    k: int,
)
    requires
        submit::all_prs_submitted(
            before,
            after,
            repo,
            place,
            all,
            plans,
            diagnostics,
            Ok((entries, now)),
        ),
        0 <= k < plans.len(),
        plans[k].existing_pr is None,
    ensures
        entries.len() == plans.len(),
        was_opened(before.len() as int, after, repo, plans[k]),
{
    let start = before + ui::steps_said(
        diagnostics,
        "Submitting"@,
        "pull requests"@,
        plans.len() as usize,
    );
    lemma_prs_submitted(
        start,
        after,
        repo,
        place,
        all,
        plans,
        seq![],
        diagnostics.shows_steps(plans.len()),
        diagnostics,
        Ok((entries, now)),
    );
    assert(was_opened(start.len() as int, after, repo, plans[k]));
}

} // verus!
