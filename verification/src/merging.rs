//! Which commit a merge lands trunk on, and all that it changes on the way.

use vstd::prelude::*;

use crate::bookmarks;
use crate::candidates;
use crate::cleanup;
use crate::error;
use crate::error::CauseView;
use crate::frozen;
use crate::merge;
use crate::merge::{MergeSummary, PassView, PreparedView};
use crate::model::{
    AppConfigView, AppContextView, Diagnostics, FrozenBookmarkView, GhMergePrView,
    GitHubContextView, MergeCandidateView, MergeTargetView, PrCacheEntryView, ResolvedChangeView,
    StackResolutionView,
};
use crate::output;
use crate::polling;
use crate::quiet;
use crate::reading;
use crate::reading::{Deed, deed};
use crate::rebase;
use crate::record;
use crate::record::Event;
use crate::stack;
use crate::sweeping;
use crate::text;
use crate::trunk;
use crate::ui;

verus! {

broadcast use crate::record::group_record;

/// Trunk is put at a commit, or pushed alone.
pub open spec fn advances_trunk(event: Event, config: AppConfigView, top: Seq<char>) -> bool {
    ||| deed(event) == (Deed::SetBookmark { name: config.trunk, at: top, backwards: false })
    ||| deed(event) == (Deed::Push { remote: config.remote, bookmarks: seq![config.trunk] })
    ||| deed(event) == (Deed::TrackBookmark { remote: config.remote, name: config.trunk })
}

/// At `i` trunk is pushed, right after it was put at the commit `top`.
pub open spec fn pushes_trunk(log: Seq<Event>, i: int, config: AppConfigView, top: Seq<char>) -> bool {
    &&& 0 < i < log.len()
    &&& deed(log[i - 1]) == (Deed::SetBookmark { name: config.trunk, at: top, backwards: false })
    &&& deed(log[i]) == (Deed::Push { remote: config.remote, bookmarks: seq![config.trunk] })
}

/// Whether trunk was put at `top` and pushed, in `from..`.
pub open spec fn trunk_was_pushed(from: int, log: Seq<Event>, config: AppConfigView, top: Seq<char>) -> bool {
    exists|i: int| from <= i && #[trigger] pushes_trunk(log, i, config, top)
}

/// A pull request of the repository goes onto trunk, and nothing else of it changes.
pub open spec fn goes_onto_trunk(event: Event, trunk: Seq<char>, repo: Seq<char>, number: u64) -> bool {
    deed(event) == (Deed::Request {
        method: "PATCH"@,
        path: "repos/"@ + repo + "/pulls/"@ + text::decimal(number as nat),
        fields: seq!["base="@ + trunk],
    })
}

/// All that the landing of a stack may do.
pub open spec fn is_landing(
    event: Event,
    config: AppConfigView,
    top: Seq<char>,
    branches: Seq<Seq<char>>,
) -> bool {
    ||| advances_trunk(event, config, top)
    ||| sweeping::sweeps(event, config.remote, branches)
    ||| deed(event) == (Deed::NewChange { on: config.trunk })
}

pub open spec fn landing_deeds(
    config: AppConfigView,
    top: Seq<char>,
    branches: Seq<Seq<char>>,
) -> spec_fn(Event) -> bool {
    |event: Event| is_landing(event, config, top, branches)
}

/// The head branches of the pull requests of these candidates.
pub open spec fn heads_of(candidates: Seq<MergeCandidateView>) -> Seq<Seq<char>> {
    Seq::new(candidates.len(), |k: int| candidates[k].pr.head_ref_name)
}

proof fn lemma_trunk_tracked(
    before: Seq<Event>,
    after: Seq<Event>,
    config: AppConfigView,
    diagnostics: Diagnostics,
    r: Result<(), Seq<CauseView>>,
    top: Seq<char>,
    branches: Seq<Seq<char>>,
)
    requires
        trunk::trunk_tracked(before, after, config, diagnostics, r),
    ensures
        reading::did(before, after, landing_deeds(config, top, branches)),
{
    broadcast use {
        crate::quiet::group_quiet,
        crate::reading::group_reading,
        crate::wording::group_wording,
    };

    let may = landing_deeds(config, top, branches);
    let mid = choose|mid: Seq<Event>|
        {
            &&& #[trigger] record::called(before, mid, "jj"@, bookmarks::status_args(config.trunk))
            &&& match bookmarks::status_result(
                config.remote,
                config.trunk,
                record::last_reply(mid),
            ) {
                Err(e) => record::stopped(mid, after, e, r),
                Ok(status) => if status.is_tracked {
                    after == mid && r == Ok::<(), Seq<CauseView>>(())
                } else {
                    bookmarks::jj_step(
                        mid.push(
                            Event::Said(
                                crate::record::LineView::Warn(trunk::untracked_trunk(config)),
                            ),
                        ) + ui::logged(trunk::tracked_trunk_log(config)),
                        after,
                        bookmarks::follow_args(config.remote, config.trunk),
                        diagnostics.dry_run,
                        r,
                    )
                },
            }
        };
    assert(quiet::quiet(before, mid));
    match bookmarks::status_result(config.remote, config.trunk, record::last_reply(mid)) {
        Err(e) => {},
        Ok(status) => {
            if !status.is_tracked {
                let warned = mid.push(
                    Event::Said(crate::record::LineView::Warn(trunk::untracked_trunk(config))),
                );
                let told = warned + ui::logged(trunk::tracked_trunk_log(config));
                assert(quiet::quiet(mid, warned));
                assert(quiet::quiet(warned, told));
                assert(quiet::quiet(before, told));
                if !diagnostics.dry_run {
                    assert(is_landing(after.last(), config, top, branches));
                    assert(reading::did(told, after, may));
                }
            }
        },
    }
}

proof fn lemma_fast_forwarded(
    before: Seq<Event>,
    after: Seq<Event>,
    config: AppConfigView,
    top: Seq<char>,
    diagnostics: Diagnostics,
    r: Result<(), Seq<CauseView>>,
    branches: Seq<Seq<char>>,
)
    requires
        trunk::trunk_fast_forwarded(before, after, config, top, diagnostics, r),
    ensures
        reading::did(before, after, landing_deeds(config, top, branches)),
        r is Ok ==> trunk_was_pushed(before.len() as int, after, config, top),
{
    broadcast use {
        crate::quiet::group_quiet,
        crate::reading::group_reading,
        crate::wording::group_wording,
    };

    let may = landing_deeds(config, top, branches);
    let name = rebase::git_ref_of(config);
    let asked = choose|asked: Seq<Event>|
        {
            &&& #[trigger] record::called(
                before,
                asked,
                "git"@,
                rebase::rev_parse_args(rebase::git_ref_of(config)),
            )
            &&& match rebase::rev_parse_result(
                rebase::git_ref_of(config),
                record::last_reply(asked),
            ) {
                Err(e) => record::stopped(asked, after, e, r),
                Ok(remote) => trunk::forward_tested(
                    asked,
                    after,
                    config,
                    remote,
                    top,
                    diagnostics,
                    r,
                ),
            }
        };
    assert(quiet::quiet(before, asked));
    match rebase::rev_parse_result(name, record::last_reply(asked)) {
        Err(e) => {},
        Ok(remote) => {
            let told = choose|told: Seq<Event>|
                {
                    &&& #[trigger] record::called(
                        asked,
                        told,
                        "git"@,
                        bookmarks::ancestor_args(remote, top),
                    )
                    &&& match bookmarks::success_of(record::last_reply(told)) {
                        Err(e) => record::stopped(told, after, e, r),
                        Ok(below) => if !below {
                            record::stopped(
                                told,
                                after,
                                trunk::not_forward(config, top, remote),
                                r,
                            )
                        } else {
                            trunk::trunk_advanced(told, after, config, top, diagnostics, r)
                        },
                    }
                };
            assert(quiet::quiet(asked, told));
            assert(quiet::quiet(before, told));
            if bookmarks::success_of(record::last_reply(told)) == Ok::<bool, Seq<CauseView>>(true) {
                let (mid, followed) = choose|mid: Seq<Event>, followed: Result<(), Seq<CauseView>>|
                    {
                        &&& #[trigger] trunk::trunk_tracked(told, mid, config, diagnostics, followed)
                        &&& match followed {
                            Err(e) => record::stopped(mid, after, e, r),
                            Ok(_) => trunk::trunk_pushed(mid, after, config, top, r),
                        }
                    };
                lemma_trunk_tracked(told, mid, config, diagnostics, followed, top, branches);
                if followed is Ok {
                    lemma_trunk_pushed(mid, after, config, top, r, branches);
                    reading::lemma_did_trans(told, mid, after, may);
                    assert(mid.len() >= before.len()) by {
                        reveal(reading::did);
                        reveal(quiet::quiet);
                    }
                }
                reading::lemma_quiet_then_did(before, told, after, may);
            }
        },
    }
}

proof fn lemma_trunk_pushed(
    before: Seq<Event>,
    after: Seq<Event>,
    config: AppConfigView,
    top: Seq<char>,
    r: Result<(), Seq<CauseView>>,
    branches: Seq<Seq<char>>,
)
    requires
        trunk::trunk_pushed(before, after, config, top, r),
    ensures
        reading::did(before, after, landing_deeds(config, top, branches)),
        r is Ok ==> trunk_was_pushed(before.len() as int, after, config, top),
{
    broadcast use {
        crate::quiet::group_quiet,
        crate::reading::group_reading,
        crate::wording::group_wording,
    };

    let may = landing_deeds(config, top, branches);
    let mid = choose|mid: Seq<Event>|
        {
            &&& #[trigger] record::called(
                before,
                mid,
                "jj"@,
                trunk::set_trunk_args(config.trunk, top),
            )
            &&& match output::checked(
                "jj"@,
                trunk::set_trunk_args(config.trunk, top),
                record::last_reply(mid),
            ) {
                Err(e) => record::stopped(mid, after, e, r),
                Ok(output) => record::called(mid, after, "jj"@, trunk::push_trunk_args(config)) && r
                    == trunk::done_or_failed(
                    "jj"@,
                    trunk::push_trunk_args(config),
                    record::last_reply(after),
                ),
            }
        };
    assert(is_landing(mid.last(), config, top, branches));
    assert(reading::did(before, mid, may));
    if after != mid {
        assert(is_landing(after.last(), config, top, branches));
        assert(reading::did(mid, after, may));
        let i = after.len() - 1;
        assert(after[i - 1] == after.drop_last()[i - 1]);
        assert(pushes_trunk(after, i, config, top));
    }
}

/// The law of the landing: all that the landing of judged candidates changes is trunk, which is put at
/// the commit of the topmost change and pushed; the branches of the merged requests, the candidates'
/// being their head branches, which go; and the working copy, which begins anew on trunk. Where it
/// succeeds, trunk was put at the top and pushed.
#[verifier::rlimit(40)]
pub proof fn law_merge_lands_on_the_top(
    before: Seq<Event>,
    after: Seq<Event>,
    config: AppConfigView,
    context: AppContextView,
    candidates: Seq<MergeCandidateView>,
    merged: Seq<Seq<char>>,
    updates: usize,
    admin: bool,
    diagnostics: Diagnostics,
    r: Result<MergeSummary, Seq<CauseView>>,
)
    requires
        merge::merge_judged(
            before,
            after,
            config,
            context,
            candidates,
            merged,
            updates,
            admin,
            diagnostics,
            r,
        ),
    ensures
        reading::did(
            before,
            after,
            landing_deeds(config, context.stack.last().commit_id, merged + heads_of(candidates)),
        ),
        r is Ok && candidates.len() > 0 && !diagnostics.dry_run ==> trunk_was_pushed(
            before.len() as int,
            after,
            config,
            context.stack.last().commit_id,
        ),
        r is Ok && candidates.len() > 0 && !diagnostics.dry_run ==> (r->Ok_0).merged_prs
            == candidates.len() as usize,
{
    broadcast use {
        crate::quiet::group_quiet,
        crate::reading::group_reading,
        crate::wording::group_wording,
        crate::asking::lemma_phase_said,
        crate::asking::lemma_plan_rows_said,
        crate::asking::asks_merges_verified,
    };

    let numbers = merge::candidate_numbers(candidates);
    let branches = merged + merge::candidate_branches(candidates);
    assert(branches =~= merged + heads_of(candidates));
    let top = context.stack.last().commit_id;
    let repo = context.github.repo;
    let may = landing_deeds(config, top, branches);
    if merge::verdict(config, candidates, admin) is None && candidates.len() > 0
        && !diagnostics.dry_run {
        let summary = MergeSummary {
            checked_prs: candidates.len() as usize,
            local_updates: updates,
            ..merge::no_merge()
        };
        let start = before + ui::phase_said(diagnostics, "merge-push"@);
        assert(quiet::quiet(before, start));
        let (mid, done) = choose|mid: Seq<Event>, done: Result<(), Seq<CauseView>>|
            {
                &&& #[trigger] trunk::trunk_fast_forwarded(
                    start,
                    mid,
                    config,
                    top,
                    diagnostics,
                    done,
                )
                &&& match done {
                    Err(e) => record::stopped(
                        mid,
                        after,
                        error::phase_failure("merge-push"@, config.trunk, e),
                        r,
                    ),
                    Ok(_) => merge::merge_verified(
                        mid,
                        after,
                        config,
                        repo,
                        numbers,
                        branches,
                        MergeSummary { submit_runs: 1, ..summary },
                        diagnostics,
                        r,
                    ),
                }
            };
        lemma_fast_forwarded(start, mid, config, top, diagnostics, done, branches);
        reading::lemma_quiet_then_did(before, start, mid, may);
        if done is Ok {
            let (heard, told) = choose|heard: Seq<Event>, told: Result<(), Seq<CauseView>>|
                {
                    &&& #[trigger] polling::merges_verified(
                        mid,
                        heard,
                        repo,
                        numbers,
                        diagnostics,
                        told,
                    )
                    &&& match told {
                        Err(e) => record::stopped(
                            heard,
                            after,
                            error::phase_failure("verify-merge"@, repo, e),
                            r,
                        ),
                        Ok(_) => merge::merge_cleaned(
                            heard,
                            after,
                            config,
                            repo,
                            branches,
                            MergeSummary {
                                merged_prs: numbers.len() as usize,
                                submit_runs: 1,
                                ..summary
                            },
                            diagnostics,
                            r,
                        ),
                    }
                };
            assert(quiet::quiet(mid, heard));
            reading::lemma_did_then_quiet(before, mid, heard, may);
            if told is Ok {
                let (swept, gone) = choose|swept: Seq<Event>, gone: usize|
                    {
                        &&& #[trigger] cleanup::merged_branches_cleaned(
                            heard,
                            swept,
                            config.remote,
                            repo,
                            branches,
                            diagnostics,
                            gone,
                        )
                        &&& merge::merge_reset(
                            swept + ui::phase_said(diagnostics, "reset-working-copy"@),
                            after,
                            config.trunk,
                            MergeSummary {
                                cleaned_branches: gone,
                                merged_prs: numbers.len() as usize,
                                submit_runs: 1,
                                ..summary
                            },
                            r,
                        )
                    };
                sweeping::law_sweep_takes_only_its_branches(
                    heard,
                    swept,
                    config.remote,
                    repo,
                    branches,
                    diagnostics,
                    gone,
                );
                reading::lemma_did_less(
                    heard,
                    swept,
                    sweeping::sweep_deeds(config.remote, branches),
                    may,
                );
                let last = swept + ui::phase_said(diagnostics, "reset-working-copy"@);
                assert(quiet::quiet(swept, last));
                assert(is_landing(after.last(), config, top, branches));
                assert(reading::did(last, after, may));
                reading::lemma_did_trans(before, heard, swept, may);
                reading::lemma_did_then_quiet(before, swept, last, may);
                reading::lemma_did_trans(before, last, after, may);
                assert(record::extends(mid, after)) by {
                    reading::lemma_quiet_then_did(mid, heard, swept, may);
                    reading::lemma_did_then_quiet(mid, swept, last, may);
                    reading::lemma_did_trans(mid, last, after, may);
                    reveal(reading::did);
                }
                let i = choose|i: int| start.len() <= i && #[trigger] pushes_trunk(mid, i, config, top);
                assert(after.take(mid.len() as int)[i] == mid[i]);
                assert(after.take(mid.len() as int)[i - 1] == mid[i - 1]);
                assert(pushes_trunk(after, i, config, top));
            }
        }
    }
}

// ---------------------------------------------------------------------------
// A whole merge
// ---------------------------------------------------------------------------

/// All that a merge of a stack may do: a request goes onto trunk, or the stack lands.
pub open spec fn is_merging(event: Event, config: AppConfigView, top: Seq<char>) -> bool {
    ||| exists|repo: Seq<char>, number: u64| #[trigger]
        goes_onto_trunk(event, config.trunk, repo, number)
    ||| exists|branches: Seq<Seq<char>>| #[trigger] is_landing(event, config, top, branches)
}

pub open spec fn merge_deeds(config: AppConfigView, top: Seq<char>) -> spec_fn(Event) -> bool {
    |event: Event| is_merging(event, config, top)
}

broadcast proof fn merges_change_prepared(
    before: Seq<Event>,
    after: Seq<Event>,
    config: AppConfigView,
    github: GitHubContextView,
    change: ResolvedChangeView,
    diagnostics: Diagnostics,
    r: Result<PreparedView, Seq<CauseView>>,
    top: Seq<char>,
)
    requires
        #[trigger] merge::change_prepared(before, after, config, github, change, diagnostics, r),
    ensures
        #[trigger] reading::did(before, after, merge_deeds(config, top)),
{
    broadcast use {
        crate::quiet::group_quiet,
        crate::reading::group_reading,
        crate::wording::group_wording,
        crate::asking::lemma_plan_said,
        crate::asking::asks_candidate_resolved,
    };

    let may = merge_deeds(config, top);
    let (mid, got) = choose|
        mid: Seq<Event>,
        got: Result<(PrCacheEntryView, GhMergePrView), Seq<CauseView>>,
    |
        {
            &&& #[trigger] candidates::candidate_resolved(before, mid, config, github, change, got)
            &&& match got {
                Err(e) => record::stopped(
                    mid,
                    after,
                    error::phase_failure("merge-pr-lookup"@, change.change_id, e),
                    r,
                ),
                Ok((entry, pr)) => merge::pr_prepared(
                    mid,
                    after,
                    config.trunk,
                    github.repo,
                    change,
                    entry,
                    pr,
                    diagnostics,
                    r,
                ),
            }
        };
    assert(quiet::quiet(before, mid));
    if got is Ok {
        let (entry, pr) = got->Ok_0;
        if text::lower_all(pr.state) != text::lower_all("MERGED"@) && text::lower_all(
            pr.base_ref_name,
        ) != text::lower_all(config.trunk) {
            if !diagnostics.dry_run {
                assert(goes_onto_trunk(after.last(), config.trunk, github.repo, entry.pr_number)
                    || !(after.last() is Call));
                assert(after.last() is Call ==> is_merging(after.last(), config, top));
                assert(reading::did(mid, after, may));
            } else {
                assert(quiet::quiet(mid, after));
            }
        }
    }
}

proof fn lemma_changes_prepared(
    before: Seq<Event>,
    after: Seq<Event>,
    config: AppConfigView,
    github: GitHubContextView,
    stack: Seq<ResolvedChangeView>,
    at: int,
    pass: PassView,
    steps: bool,
    diagnostics: Diagnostics,
    r: Result<PassView, Seq<CauseView>>,
    top: Seq<char>,
)
    requires
        merge::changes_prepared(before, after, config, github, stack, at, pass, steps, diagnostics, r),
    ensures
        reading::did(before, after, merge_deeds(config, top)),
    decreases stack.len() - at,
{
    broadcast use {
        crate::quiet::group_quiet,
        crate::reading::group_reading,
        crate::asking::lemma_step_said,
    };

    let may = merge_deeds(config, top);
    if at < stack.len() {
        let (mid, got) = choose|mid: Seq<Event>, got: Result<PreparedView, Seq<CauseView>>|
            {
                &&& #[trigger] merge::change_prepared(
                    before,
                    mid,
                    config,
                    github,
                    stack[at],
                    diagnostics,
                    got,
                )
                &&& match got {
                    Err(e) => record::stopped(mid, after, e, r),
                    Ok(one) => merge::changes_prepared(
                        mid + ui::step_said(steps, (at + 1) as usize),
                        after,
                        config,
                        github,
                        stack,
                        at + 1,
                        pass.with(one),
                        steps,
                        diagnostics,
                        r,
                    ),
                }
            };
        merges_change_prepared(before, mid, config, github, stack[at], diagnostics, got, top);
        if got is Ok {
            let told = mid + ui::step_said(steps, (at + 1) as usize);
            assert(quiet::quiet(mid, told));
            lemma_changes_prepared(
                told,
                after,
                config,
                github,
                stack,
                at + 1,
                pass.with(got->Ok_0),
                steps,
                diagnostics,
                r,
                top,
            );
            reading::lemma_did_then_quiet(before, mid, told, may);
            reading::lemma_did_trans(before, told, after, may);
        }
    }
}

#[verifier::rlimit(40)]
broadcast proof fn merges_merge_prepared(
    before: Seq<Event>,
    after: Seq<Event>,
    config: AppConfigView,
    context: AppContextView,
    admin: bool,
    diagnostics: Diagnostics,
    r: Result<MergeSummary, Seq<CauseView>>,
)
    requires
        #[trigger] merge::merge_prepared(before, after, config, context, admin, diagnostics, r),
    ensures
        reading::did(before, after, merge_deeds(config, context.stack.last().commit_id)),
{
    broadcast use {
        crate::quiet::group_quiet,
        crate::reading::group_reading,
        crate::asking::lemma_steps_said,
        crate::asking::lemma_steps_ended,
        crate::asking::asks_candidates_settled,
    };

    reveal(merge::merge_prepared);
    let top = context.stack.last().commit_id;
    let may = merge_deeds(config, top);
    let (mid, pass) = choose|mid: Seq<Event>, pass: Result<PassView, Seq<CauseView>>|
        {
            &&& #[trigger] merge::stack_prepared(before, mid, config, context, diagnostics, pass)
            &&& match pass {
                Err(e) => record::stopped(mid, after, e, r),
                Ok(pass) => merge::merge_settled(
                    mid,
                    after,
                    config,
                    context,
                    pass,
                    admin,
                    diagnostics,
                    r,
                ),
            }
        };
    let checked = choose|checked: Seq<Event>|
        {
            &&& #[trigger] merge::all_changes_prepared(
                before,
                checked,
                config,
                context,
                diagnostics,
                pass,
            )
            &&& mid == checked + ui::steps_ended(diagnostics.shows_steps(context.stack.len()))
        };
    let start = before + ui::steps_said(
        diagnostics,
        "Checking"@,
        "PRs"@,
        context.stack.len() as usize,
    );
    assert(quiet::quiet(before, start));
    lemma_changes_prepared(
        start,
        checked,
        config,
        context.github,
        context.stack,
        0,
        merge::no_pass(),
        diagnostics.shows_steps(context.stack.len()),
        diagnostics,
        pass,
        top,
    );
    assert(quiet::quiet(checked, mid));
    reading::lemma_quiet_then_did(before, start, checked, may);
    reading::lemma_did_then_quiet(before, checked, mid, may);
    if pass is Ok {
        let pass = pass->Ok_0;
        let (polled, settled) = choose|
            polled: Seq<Event>,
            settled: Result<Seq<MergeCandidateView>, Seq<CauseView>>,
        |
            {
                &&& #[trigger] polling::candidates_settled(
                    mid,
                    polled,
                    context.github.repo,
                    pass.candidates,
                    diagnostics,
                    settled,
                )
                &&& match settled {
                    Err(e) => record::stopped(
                        polled,
                        after,
                        error::phase_failure("merge-pr-lookup"@, "stack"@, e),
                        r,
                    ),
                    Ok(candidates) => merge::merge_judged(
                        polled,
                        after,
                        config,
                        context,
                        candidates,
                        pass.merged,
                        pass.updates,
                        admin,
                        diagnostics,
                        r,
                    ),
                }
            };
        assert(quiet::quiet(mid, polled));
        reading::lemma_did_then_quiet(before, mid, polled, may);
        if settled is Ok {
            let branches = pass.merged + heads_of(settled->Ok_0);
            law_merge_lands_on_the_top(
                polled,
                after,
                config,
                context,
                settled->Ok_0,
                pass.merged,
                pass.updates,
                admin,
                diagnostics,
                r,
            );
            reading::lemma_did_less(polled, after, landing_deeds(config, top, branches), may);
            reading::lemma_did_trans(before, polled, after, may);
        }
    }
}

/// The stack of a merge was read between `b` and `c` of the record, and all that was changed lands it.
pub open spec fn merged_by(
    before: Seq<Event>,
    after: Seq<Event>,
    config: AppConfigView,
    revset: Seq<char>,
    b: Seq<Event>,
    m: Seq<Event>,
    c: Seq<Event>,
    stack: Seq<ResolvedChangeView>,
    bookmarks: Seq<FrozenBookmarkView>,
    resolution: StackResolutionView,
) -> bool {
    &&& record::extends(before, b)
    &&& record::extends(c, after)
    &&& stack::stack_resolved(b, m, revset, Ok(stack))
    &&& frozen::resolution_made(m, c, stack, bookmarks, Ok(resolution))
    &&& reading::did(before, after, merge_deeds(config, resolution.owned.last().commit_id))
}

#[verifier::opaque]
pub open spec fn merged(
    before: Seq<Event>,
    after: Seq<Event>,
    config: AppConfigView,
    revset: Seq<char>,
) -> bool {
    ||| quiet::quiet(before, after)
    ||| exists|
        b: Seq<Event>,
        m: Seq<Event>,
        c: Seq<Event>,
        stack: Seq<ResolvedChangeView>,
        bookmarks: Seq<FrozenBookmarkView>,
        resolution: StackResolutionView,
    |
        #[trigger] merged_by(
            before,
            after,
            config,
            revset,
            b,
            m,
            c,
            stack,
            bookmarks,
            resolution,
        )
}

broadcast proof fn lemma_quiet_merged(
    before: Seq<Event>,
    after: Seq<Event>,
    config: AppConfigView,
    revset: Seq<char>,
)
    requires
        quiet::quiet(before, after),
    ensures
        #[trigger] merged(before, after, config, revset),
{
    reveal(merged);
}

broadcast proof fn lemma_quiet_then_merged(
    a: Seq<Event>,
    b: Seq<Event>,
    c: Seq<Event>,
    config: AppConfigView,
    revset: Seq<char>,
)
    requires
        #[trigger] quiet::quiet(a, b),
        #[trigger] merged(b, c, config, revset),
    ensures
        merged(a, c, config, revset),
{
    broadcast use {crate::quiet::group_quiet, crate::reading::group_reading};

    reveal(merged);
    if !quiet::quiet(b, c) {
        let (x, m, y, stack, bookmarks, resolution) = choose|
            x: Seq<Event>,
            m: Seq<Event>,
            y: Seq<Event>,
            stack: Seq<ResolvedChangeView>,
            bookmarks: Seq<FrozenBookmarkView>,
            resolution: StackResolutionView,
        |
            #[trigger] merged_by(b, c, config, revset, x, m, y, stack, bookmarks, resolution);
        assert(record::extends(a, x)) by {
            reveal(quiet::quiet);
            record::lemma_extends_trans(a, b, x);
        }
        assert(merged_by(a, c, config, revset, x, m, y, stack, bookmarks, resolution));
    }
}

broadcast proof fn merges_context_merged(
    before: Seq<Event>,
    after: Seq<Event>,
    config: AppConfigView,
    context: AppContextView,
    admin: bool,
    diagnostics: Diagnostics,
    r: Result<MergeSummary, Seq<CauseView>>,
)
    requires
        #[trigger] merge::context_merged(before, after, config, context, admin, diagnostics, r),
    ensures
        reading::did(before, after, merge_deeds(config, context.stack.last().commit_id)),
{
    broadcast use {
        crate::quiet::group_quiet,
        crate::reading::group_reading,
        crate::asking::lemma_context_said,
        crate::asking::asks_candidate_resolved,
        crate::asking::asks_merge_dependencies_checked,
        merges_merge_prepared,
    };

}

broadcast proof fn merges_resolution_merged(
    before: Seq<Event>,
    after: Seq<Event>,
    config: AppConfigView,
    resolution: StackResolutionView,
    admin: bool,
    diagnostics: Diagnostics,
    r: Result<MergeSummary, Seq<CauseView>>,
)
    requires
        #[trigger] merge::resolution_merged(before, after, config, resolution, admin, diagnostics, r),
    ensures
        reading::did(before, after, merge_deeds(config, resolution.owned.last().commit_id)),
{
    broadcast use {
        crate::quiet::group_quiet,
        crate::reading::group_reading,
        crate::asking::asks_github_resolved,
        merges_context_merged,
    };

}

#[verifier::rlimit(40)]
broadcast proof fn merges_revset_merged(
    before: Seq<Event>,
    after: Seq<Event>,
    config: AppConfigView,
    revset: Seq<char>,
    target: Option<MergeTargetView>,
    bookmarks: Seq<FrozenBookmarkView>,
    admin: bool,
    diagnostics: Diagnostics,
    r: Result<MergeSummary, Seq<CauseView>>,
)
    requires
        #[trigger] merge::revset_merged(before, after, config, revset, target, bookmarks, admin, diagnostics, r),
    ensures
        merged(before, after, config, revset),
{
    broadcast use {
        crate::quiet::group_quiet,
        crate::reading::group_reading,
        lemma_quiet_merged,
        lemma_quiet_then_merged,
        crate::asking::asks_stack_resolved,
        crate::asking::asks_nothing_merged,
        crate::asking::asks_resolution_made,
    };

    reveal(merge::revset_merged);
    let (mid, stack) = choose|mid: Seq<Event>, stack: Result<Seq<ResolvedChangeView>, Seq<CauseView>>|
        {
            &&& #[trigger] stack::stack_resolved(before, mid, revset, stack)
            &&& match stack {
                Err(e) => record::stopped(
                    mid,
                    after,
                    error::phase_failure("resolve-stack"@, revset, e),
                    r,
                ),
                Ok(stack) => if stack.len() == 0 {
                    merge::nothing_merged(mid, after, config, revset, target, bookmarks, r)
                } else {
                    match stack::shape_failure(stack, revset) {
                        Some(error) => record::stopped(
                            mid,
                            after,
                            error::phase_failure("resolve-stack"@, revset, error::reported(error)),
                            r,
                        ),
                        None => merge::shaped_merged(
                            mid,
                            after,
                            config,
                            stack,
                            bookmarks,
                            admin,
                            diagnostics,
                            r,
                        ),
                    }
                },
            }
        };
    assert(quiet::quiet(before, mid));
    if stack is Ok && (stack->Ok_0).len() > 0 && stack::shape_failure(stack->Ok_0, revset) is None {
        let stack = stack->Ok_0;
        let (made, resolution) = choose|
            made: Seq<Event>,
            resolution: Result<StackResolutionView, Seq<CauseView>>,
        |
            {
                &&& #[trigger] frozen::resolution_made(mid, made, stack, bookmarks, resolution)
                &&& match resolution {
                    Err(e) => record::stopped(
                        made,
                        after,
                        error::phase_failure("resolve-stack"@, "frozen-dependencies"@, e),
                        r,
                    ),
                    Ok(resolution) => merge::resolution_merged(
                        made,
                        after,
                        config,
                        resolution,
                        admin,
                        diagnostics,
                        r,
                    ),
                }
            };
        assert(quiet::quiet(mid, made));
        assert(quiet::quiet(before, made));
        if resolution is Ok {
            let resolution = resolution->Ok_0;
            let may = merge_deeds(config, resolution.owned.last().commit_id);
            merges_resolution_merged(made, after, config, resolution, admin, diagnostics, r);
            reading::lemma_quiet_then_did(before, made, after, may);
            assert(record::extends(made, after)) by {
                reveal(reading::did);
            }
            record::lemma_extends_refl(before);
            assert(merged_by(
                before,
                after,
                config,
                revset,
                before,
                mid,
                made,
                stack,
                bookmarks,
                resolution,
            ));
            reveal(merged);
        }
    }
}

broadcast proof fn merges_frozen_merge_begun(
    before: Seq<Event>,
    after: Seq<Event>,
    config: AppConfigView,
    revset: Seq<char>,
    target: Option<MergeTargetView>,
    admin: bool,
    diagnostics: Diagnostics,
    r: Result<MergeSummary, Seq<CauseView>>,
)
    requires
        #[trigger] merge::frozen_merge_begun(before, after, config, revset, target, admin, diagnostics, r),
    ensures
        merged(before, after, config, revset),
{
    broadcast use {
        crate::quiet::group_quiet,
        lemma_quiet_merged,
        lemma_quiet_then_merged,
        merges_revset_merged,
    };

}

broadcast proof fn merges_stack_merged(
    before: Seq<Event>,
    after: Seq<Event>,
    config: AppConfigView,
    revset: Seq<char>,
    target: Option<MergeTargetView>,
    admin: bool,
    diagnostics: Diagnostics,
    r: Result<MergeSummary, Seq<CauseView>>,
)
    requires
        #[trigger] merge::stack_merged(before, after, config, revset, target, admin, diagnostics, r),
    ensures
        merged(before, after, config, revset),
{
    broadcast use {
        crate::quiet::group_quiet,
        crate::asking::lemma_phase_said,
        lemma_quiet_merged,
        lemma_quiet_then_merged,
        merges_frozen_merge_begun,
    };

}

/// The law of the merge: all that a merge changes lands the stack that was read for its revset. A
/// request goes onto trunk; trunk is put at the commit of the topmost change of the stack and pushed;
/// branches go; and the working copy begins anew on trunk.
pub proof fn law_merge_lands_its_stack(
    before: Seq<Event>,
    after: Seq<Event>,
    config: AppConfigView,
    revset: Seq<char>,
    target: Option<MergeTargetView>,
    admin: bool,
    diagnostics: Diagnostics,
    r: Result<MergeSummary, Seq<CauseView>>,
    change: int,
)
    requires
        merge::stack_merged(before, after, config, revset, target, admin, diagnostics, r),
        before.len() <= change < after.len(),
        !quiet::harmless(after[change]),
    ensures
        exists|
            b: Seq<Event>,
            m: Seq<Event>,
            c: Seq<Event>,
            stack: Seq<ResolvedChangeView>,
            bookmarks: Seq<FrozenBookmarkView>,
            resolution: StackResolutionView,
        |
            {
                &&& record::extends(before, b)
                &&& record::extends(c, after)
                &&& #[trigger] stack::stack_resolved(b, m, revset, Ok(stack))
                &&& #[trigger] frozen::resolution_made(m, c, stack, bookmarks, Ok(resolution))
                &&& is_merging(after[change], config, resolution.owned.last().commit_id)
            },
{
    merges_stack_merged(before, after, config, revset, target, admin, diagnostics, r);
    reveal(merged);
    reveal(reading::did);
    reveal(quiet::quiet);
    let (b, m, c, stack, bookmarks, resolution) = choose|
        b: Seq<Event>,
        m: Seq<Event>,
        c: Seq<Event>,
        stack: Seq<ResolvedChangeView>,
        bookmarks: Seq<FrozenBookmarkView>,
        resolution: StackResolutionView,
    |
        #[trigger] merged_by(
            before,
            after,
            config,
            revset,
            b,
            m,
            c,
            stack,
            bookmarks,
            resolution,
        );
    assert(is_merging(after[change], config, resolution.owned.last().commit_id));
}

} // verus!
