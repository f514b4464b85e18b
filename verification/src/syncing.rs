//! What a sync does to the repository.

use vstd::prelude::*;

use crate::bookmarks;
use crate::branches;
use crate::cleanup;
use crate::context;
use crate::error;
use crate::error::CauseView;
use crate::freezing;
use crate::model::{
    AppConfigView, AppContextView, Diagnostics, FrozenBookmarkView, FrozenDependencyView, GhPrView,
    GitHubContextView, PrCacheEntryView, ResolvedChangeView, StackResolutionView, SubmitPlanView,
};
use crate::publishing;
use crate::quiet;
use crate::reading;
use crate::reading::{Deed, deed};
use crate::rebase;
use crate::record;
use crate::record::Event;
use crate::stack;
use crate::submit::{CommentSources, SubmitSummary};
use crate::sweeping;
use crate::sync;
use crate::sync::{SyncFrozenRefreshView, SyncSummary};
use crate::trunk;
use crate::ui;

verus! {

broadcast use crate::record::group_record;

/// The commit is that of a change of the stack, and none of its parents is in the stack.
pub open spec fn is_bottom(stack: Seq<ResolvedChangeView>, commit: Seq<char>) -> bool {
    exists|k: int|
        {
            &&& 0 <= k < stack.len()
            &&& (#[trigger] stack[k]).commit_id == commit
            &&& forall|p: int, j: int|
                0 <= p < stack[k].parent_ids.len() && 0 <= j < stack.len() ==> (
                #[trigger] stack[k].parent_ids[p]) != (#[trigger] stack[j]).commit_id
        }
}

/// The bottom of the stack moves with all that stands on it, onto trunk or onto the topmost frozen
/// bookmark below it.
pub open spec fn moves_stack(
    event: Event,
    trunk: Seq<char>,
    resolution: StackResolutionView,
) -> bool {
    match deed(event) {
        Deed::RebaseTree { source, onto } => {
            let frozen = resolution.frozen_dependencies;
            &&& is_bottom(resolution.owned, source)
            &&& onto == trunk || frozen.len() > 0 && onto == frozen.last().bookmark.name
        },
        _ => false,
    }
}

proof fn lemma_first_among(ids: Seq<Seq<char>>, commits: Seq<Seq<char>>)
    requires
        stack::first_among(ids, commits) is None,
    ensures
        forall|p: int| 0 <= p < ids.len() ==> !commits.contains(#[trigger] ids[p]),
    decreases ids.len(),
{
    if ids.len() > 0 {
        lemma_first_among(ids.drop_first(), commits);
        assert forall|p: int| 0 <= p < ids.len() implies !commits.contains(#[trigger] ids[p]) by {
            if p > 0 {
                assert(ids[p] == ids.drop_first()[p - 1]);
            }
        }
    }
}

proof fn lemma_first_root(
    stack: Seq<ResolvedChangeView>,
    wanted: spec_fn(ResolvedChangeView) -> bool,
    from: int,
)
    requires
        0 <= from,
        stack::first_with(stack, wanted, from) is Some,
    ensures
        exists|k: int|
            0 <= k < stack.len() && wanted(#[trigger] stack[k]) && stack::first_with(stack, wanted, from)
                == Some(stack[k]),
    decreases stack.len() - from,
{
    if !wanted(stack[from]) {
        lemma_first_root(stack, wanted, from + 1);
    }
}

/// The law of the root: the root of a stack is a change of the stack without a parent in it.
pub proof fn law_root_is_at_the_bottom(stack: Seq<ResolvedChangeView>, root: ResolvedChangeView)
    requires
        stack::root_result(stack) == Ok::<ResolvedChangeView, Seq<CauseView>>(root),
    ensures
        stack.contains(root),
        is_bottom(stack, root.commit_id),
{
    let commits = stack::commits_of(stack);
    let wanted = |c: ResolvedChangeView| stack::is_root(c, stack::commits_of(stack));
    lemma_first_root(stack, wanted, 0);
    let k = choose|k: int|
        0 <= k < stack.len() && wanted(#[trigger] stack[k]) && stack::first_with(stack, wanted, 0) == Some(
            stack[k],
        );
    lemma_first_among(stack[k].parent_ids, commits);
    assert forall|p: int, j: int|
        0 <= p < stack[k].parent_ids.len() && 0 <= j < stack.len() implies (
    #[trigger] stack[k].parent_ids[p]) != (#[trigger] stack[j]).commit_id by {
        assert(commits[j] == stack[j].commit_id);
        assert(commits.contains(stack[j].commit_id));
    }
}

/// What a sync may do before it knows the stack: fetch, put trunk where the remote has it, and remove
/// branches.
pub open spec fn is_trunk_step(event: Event, config: AppConfigView) -> bool {
    ||| deed(event) == (Deed::Fetch { remote: config.remote, branches: seq![] })
    ||| deed(event) == (Deed::SetBookmark {
        name: config.trunk,
        at: config.trunk + "@"@ + config.remote,
        backwards: false,
    })
    ||| exists|landed: Seq<Seq<char>>| #[trigger] sweeping::sweeps(event, config.remote, landed)
}

/// A deed of a submit of one stack.
pub open spec fn submits(event: Event, config: AppConfigView) -> bool {
    exists|
        frozen: Seq<(Seq<char>, PrCacheEntryView)>,
        plans: Seq<SubmitPlanView>,
        sources: CommentSources,
    |
        publishing::planned(config, sources.context, frozen, plans) && #[trigger] publishing::is_submitted(
            event,
            config.remote,
            plans,
            sources,
        ) && #[trigger] is_source(sources, config, frozen)
}

pub open spec fn is_source(
    sources: CommentSources,
    config: AppConfigView,
    frozen: Seq<(Seq<char>, PrCacheEntryView)>,
) -> bool {
    sources.frozen == frozen && sources.trunk == config.trunk
}

/// The frozen changes below the stack are fetched and frozen anew at their heads.
pub open spec fn refreshes(event: Event, remote: Seq<char>, dependencies: Seq<FrozenDependencyView>) -> bool {
    exists|prs: Seq<GhPrView>|
        prs.len() == dependencies.len() && #[trigger] refreshes_as(event, remote, prs)
}

pub open spec fn refreshes_as(event: Event, remote: Seq<char>, prs: Seq<GhPrView>) -> bool {
    freezing::fetches_heads(event, remote, prs) || freezing::freezes_one(event, prs)
}

/// All that a sync of a stack may do.
pub open spec fn is_synced(
    event: Event,
    config: AppConfigView,
    resolution: StackResolutionView,
    submit: bool,
) -> bool {
    ||| is_trunk_step(event, config)
    ||| refreshes(event, config.remote, resolution.frozen_dependencies)
    ||| moves_stack(event, config.trunk, resolution)
    ||| submit && submits(event, config)
}

pub open spec fn sync_deeds(
    config: AppConfigView,
    resolution: StackResolutionView,
    submit: bool,
) -> spec_fn(Event) -> bool {
    |event: Event| is_synced(event, config, resolution, submit)
}

pub open spec fn trunk_deeds(config: AppConfigView) -> spec_fn(Event) -> bool {
    |event: Event| is_trunk_step(event, config)
}

/// The stack of a sync was read between `b` and `c` of the record, and all that was changed belongs to
/// it.
pub open spec fn synced_by(
    before: Seq<Event>,
    after: Seq<Event>,
    config: AppConfigView,
    revset: Seq<char>,
    submit: bool,
    b: Seq<Event>,
    m: Seq<Event>,
    c: Seq<Event>,
    stack: Seq<ResolvedChangeView>,
    bookmarks: Seq<FrozenBookmarkView>,
    resolution: StackResolutionView,
) -> bool {
    &&& record::extends(before, b)
    &&& record::extends(c, after)
    &&& stack::stack_resolved(b, m, revset, Ok(stack))
    &&& sync::sync_stack_resolved(m, c, revset, stack, bookmarks, Ok(resolution))
    &&& reading::did(before, after, sync_deeds(config, resolution, submit))
}

#[verifier::opaque]
pub open spec fn synced(
    before: Seq<Event>,
    after: Seq<Event>,
    config: AppConfigView,
    revset: Seq<char>,
    submit: bool,
) -> bool {
    ||| reading::did(before, after, trunk_deeds(config))
    ||| exists|
        b: Seq<Event>,
        m: Seq<Event>,
        c: Seq<Event>,
        stack: Seq<ResolvedChangeView>,
        bookmarks: Seq<FrozenBookmarkView>,
        resolution: StackResolutionView,
    |
        #[trigger] synced_by(
            before,
            after,
            config,
            revset,
            submit,
            b,
            m,
            c,
            stack,
            bookmarks,
            resolution,
        )
}

broadcast proof fn lemma_did_synced(
    before: Seq<Event>,
    after: Seq<Event>,
    config: AppConfigView,
    revset: Seq<char>,
    submit: bool,
)
    requires
        reading::did(before, after, trunk_deeds(config)),
    ensures
        #[trigger] synced(before, after, config, revset, submit),
{
    reveal(synced);
}

broadcast proof fn lemma_quiet_synced(
    before: Seq<Event>,
    after: Seq<Event>,
    config: AppConfigView,
    revset: Seq<char>,
    submit: bool,
)
    requires
        quiet::quiet(before, after),
    ensures
        #[trigger] synced(before, after, config, revset, submit),
{
    reading::lemma_quiet_did(before, after, trunk_deeds(config));
    reveal(synced);
}

proof fn lemma_did_then_synced(
    a: Seq<Event>,
    b: Seq<Event>,
    c: Seq<Event>,
    config: AppConfigView,
    revset: Seq<char>,
    submit: bool,
)
    requires
        reading::did(a, b, trunk_deeds(config)),
        synced(b, c, config, revset, submit),
    ensures
        synced(a, c, config, revset, submit),
{
    broadcast use crate::reading::group_reading;

    reveal(synced);
    if !reading::did(b, c, trunk_deeds(config)) {
        let (x, m, y, stack, bookmarks, resolution) = choose|
            x: Seq<Event>,
            m: Seq<Event>,
            y: Seq<Event>,
            stack: Seq<ResolvedChangeView>,
            bookmarks: Seq<FrozenBookmarkView>,
            resolution: StackResolutionView,
        |
            #[trigger] synced_by(
                b,
                c,
                config,
                revset,
                submit,
                x,
                m,
                y,
                stack,
                bookmarks,
                resolution,
            );
        let may = sync_deeds(config, resolution, submit);
        reading::lemma_did_less(a, b, trunk_deeds(config), may);
        reading::lemma_did_trans(a, b, c, may);
        assert(record::extends(a, x)) by {
            reveal(reading::did);
            record::lemma_extends_trans(a, b, x);
        }
        assert(synced_by(a, c, config, revset, submit, x, m, y, stack, bookmarks, resolution));
    }
}

broadcast proof fn lemma_quiet_then_synced(
    a: Seq<Event>,
    b: Seq<Event>,
    c: Seq<Event>,
    config: AppConfigView,
    revset: Seq<char>,
    submit: bool,
)
    requires
        #[trigger] quiet::quiet(a, b),
        #[trigger] synced(b, c, config, revset, submit),
    ensures
        synced(a, c, config, revset, submit),
{
    reading::lemma_quiet_did(a, b, trunk_deeds(config));
    lemma_did_then_synced(a, b, c, config, revset, submit);
}

// ---------------------------------------------------------------------------
// Trunk
// ---------------------------------------------------------------------------

broadcast proof fn did_fetch_done(
    before: Seq<Event>,
    after: Seq<Event>,
    config: AppConfigView,
    diagnostics: Diagnostics,
    r: Result<(), Seq<CauseView>>,
)
    requires
        #[trigger] trunk::fetch_done(before, after, config, diagnostics, r),
    ensures
        reading::did(before, after, trunk_deeds(config)),
{
    broadcast use {
        crate::quiet::group_quiet,
        crate::reading::group_reading,
        crate::wording::group_wording,
        crate::asking::lemma_plan_said,
    };

    if !diagnostics.dry_run {
        let args = trunk::fetch_args_of(config.remote);
        let mid = choose|mid: Seq<Event>|
            {
                &&& #[trigger] record::called(before, mid, "jj"@, args)
                &&& match crate::output::checked("jj"@, args, record::last_reply(mid)) {
                    Err(e) => record::stopped(mid, after, e, r),
                    Ok(output) => record::called(
                        mid,
                        after,
                        "jj"@,
                        trunk::trunk_commit_args(config),
                    ) && r == match trunk::trunk_commit_result(config, record::last_reply(after)) {
                        Ok(commit) => Ok::<(), Seq<CauseView>>(()),
                        Err(e) => Err(trunk::unresolvable_trunk(config, e)),
                    },
                }
            };
        assert(is_trunk_step(mid.last(), config));
        assert(reading::did(before, mid, trunk_deeds(config)));
        if after != mid {
            assert(quiet::quiet(mid, after));
        }
    }
}

broadcast proof fn did_trunk_set(
    before: Seq<Event>,
    after: Seq<Event>,
    config: AppConfigView,
    local: Seq<char>,
    remote: Seq<char>,
    diagnostics: Diagnostics,
    r: Result<(), Seq<CauseView>>,
)
    requires
        #[trigger] trunk::trunk_set(before, after, config, local, remote, diagnostics, r),
    ensures
        reading::did(before, after, trunk_deeds(config)),
{
    broadcast use {
        crate::quiet::group_quiet,
        crate::reading::group_reading,
        crate::wording::group_wording,
        crate::asking::lemma_plan_said,
        crate::asking::lemma_move_lines,
    };

    if !diagnostics.dry_run {
        assert(is_trunk_step(after.last(), config));
    }
}

broadcast proof fn did_older_trunk_moved(
    before: Seq<Event>,
    after: Seq<Event>,
    config: AppConfigView,
    local: Seq<char>,
    remote: Seq<char>,
    diagnostics: Diagnostics,
    r: Result<(), Seq<CauseView>>,
)
    requires
        #[trigger] trunk::older_trunk_moved(before, after, config, local, remote, diagnostics, r),
    ensures
        reading::did(before, after, trunk_deeds(config)),
{
    broadcast use {crate::quiet::group_quiet, crate::reading::group_reading, did_trunk_set};

}

broadcast proof fn did_views_compared(
    before: Seq<Event>,
    after: Seq<Event>,
    config: AppConfigView,
    local: Seq<char>,
    remote: Seq<char>,
    diagnostics: Diagnostics,
    r: Result<(), Seq<CauseView>>,
)
    requires
        #[trigger] trunk::views_compared(before, after, config, local, remote, diagnostics, r),
    ensures
        reading::did(before, after, trunk_deeds(config)),
{
    broadcast use {
        crate::quiet::group_quiet,
        crate::reading::group_reading,
        crate::asking::lemma_plan_said,
        did_older_trunk_moved,
    };

}

broadcast proof fn did_local_trunk_moved(
    before: Seq<Event>,
    after: Seq<Event>,
    config: AppConfigView,
    local: Seq<char>,
    diagnostics: Diagnostics,
    r: Result<(), Seq<CauseView>>,
)
    requires
        #[trigger] trunk::local_trunk_moved(before, after, config, local, diagnostics, r),
    ensures
        reading::did(before, after, trunk_deeds(config)),
{
    broadcast use {crate::quiet::group_quiet, crate::reading::group_reading, did_views_compared};

}

broadcast proof fn did_trunk_moved(
    before: Seq<Event>,
    after: Seq<Event>,
    config: AppConfigView,
    diagnostics: Diagnostics,
    r: Result<(), Seq<CauseView>>,
)
    requires
        #[trigger] trunk::trunk_moved(before, after, config, diagnostics, r),
    ensures
        reading::did(before, after, trunk_deeds(config)),
{
    broadcast use {crate::quiet::group_quiet, crate::reading::group_reading, did_local_trunk_moved};

}

broadcast proof fn did_landed_cleaned(
    before: Seq<Event>,
    after: Seq<Event>,
    config: AppConfigView,
    diagnostics: Diagnostics,
    r: Result<usize, Seq<CauseView>>,
)
    requires
        #[trigger] cleanup::landed_branches_cleaned(before, after, config, diagnostics, r),
    ensures
        reading::did(before, after, trunk_deeds(config)),
{
    sweeping::law_only_landed_branches_go(before, after, config, diagnostics, r);
    let (tip, landed) = choose|tip: Seq<char>, landed: Seq<Seq<char>>|
        #[trigger] sweeping::swept_landed(before, after, config, tip, landed);
    reading::lemma_did_less(
        before,
        after,
        sweeping::sweep_deeds(config.remote, landed),
        trunk_deeds(config),
    );
}

// ---------------------------------------------------------------------------
// The stack
// ---------------------------------------------------------------------------

#[verifier::rlimit(40)]
proof fn lemma_dependencies_refreshed(
    before: Seq<Event>,
    after: Seq<Event>,
    config: AppConfigView,
    resolution: StackResolutionView,
    dry_run: bool,
    r: Result<SyncFrozenRefreshView, Seq<CauseView>>,
    submit: bool,
)
    requires
        sync::dependencies_refreshed(
            before,
            after,
            config,
            resolution.frozen_dependencies,
            dry_run,
            r,
        ),
    ensures
        reading::did(before, after, sync_deeds(config, resolution, submit)),
{
    broadcast use {
        crate::quiet::group_quiet,
        crate::reading::group_reading,
        crate::asking::asks_github_resolved,
        crate::asking::asks_dependency_prs_fetched,
    };

    let may = sync_deeds(config, resolution, submit);
    let dependencies = resolution.frozen_dependencies;
    if dependencies.len() > 0 {
        let (mid, github) = choose|mid: Seq<Event>, github: Result<GitHubContextView, Seq<CauseView>>|
            {
                &&& #[trigger] context::github_resolved(before, mid, github)
                &&& match github {
                    Err(e) => record::stopped(
                        mid,
                        after,
                        error::in_context("resolve GitHub repository for frozen dependencies"@, e),
                        r,
                    ),
                    Ok(github) => sync::dependencies_fetched(
                        mid,
                        after,
                        config,
                        dependencies,
                        github,
                        dry_run,
                        r,
                    ),
                }
            };
        assert(quiet::quiet(before, mid));
        if github is Ok {
            let github = github->Ok_0;
            let (read, prs) = choose|read: Seq<Event>, prs: Result<Seq<GhPrView>, Seq<CauseView>>|
                {
                    &&& #[trigger] sync::dependency_prs_fetched(
                        mid,
                        read,
                        github.repo,
                        dependencies,
                        prs,
                    )
                    &&& match prs {
                        Err(e) => record::stopped(read, after, e, r),
                        Ok(prs) => match sync::frozen_stack_state(
                            config,
                            github.repo,
                            dependencies,
                            prs,
                        ) {
                            Err(e) => record::stopped(read, after, e, r),
                            Ok(false) => after == read && r == Ok::<_, Seq<CauseView>>(
                                SyncFrozenRefreshView {
                                    github: Some(github),
                                    active_dependencies: false,
                                },
                            ),
                            Ok(true) => sync::branches_refreshed(
                                read,
                                after,
                                config.remote,
                                prs,
                                github,
                                dry_run,
                                r,
                            ),
                        },
                    }
                };
            assert(quiet::quiet(mid, read));
            assert(quiet::quiet(before, read));
            if prs is Ok && sync::frozen_stack_state(config, github.repo, dependencies, prs->Ok_0)
                == Ok::<bool, Seq<CauseView>>(true) {
                let prs = prs->Ok_0;
                let (got, fetched) = choose|got: Seq<Event>, fetched: Result<(), Seq<CauseView>>|
                    {
                        &&& #[trigger] branches::branches_fetched(
                            read,
                            got,
                            config.remote,
                            prs,
                            dry_run,
                            fetched,
                        )
                        &&& match fetched {
                            Err(e) => record::stopped(got, after, sync::branch_failure(e), r),
                            Ok(_) => sync::bookmarks_refreshed(got, after, prs, github, dry_run, r),
                        }
                    };
                assert forall|event: Event| refreshes_as(event, config.remote, prs) implies #[trigger] may(
                    event,
                ) by {
                    assert(refreshes(event, config.remote, dependencies));
                }
                freezing::lemma_branches_fetched(
                    read,
                    got,
                    config.remote,
                    prs,
                    dry_run,
                    fetched,
                    may,
                );
                if fetched is Ok {
                    let updated = choose|updated: Result<(), Seq<CauseView>>|
                        {
                            &&& #[trigger] bookmarks::frozen_updated(got, after, prs, dry_run, updated)
                            &&& r == match updated {
                                Err(e) => Err::<SyncFrozenRefreshView, Seq<CauseView>>(e),
                                Ok(_) => Ok(
                                    SyncFrozenRefreshView {
                                        github: Some(github),
                                        active_dependencies: true,
                                    },
                                ),
                            }
                        };
                    freezing::law_freezing_holds_the_heads(got, after, prs, dry_run, updated);
                    assert forall|event: Event| #[trigger] freezing::freeze_deeds(prs)(
                        event,
                    ) implies may(event) by {
                        assert(refreshes_as(event, config.remote, prs));
                    }
                    reading::lemma_did_less(got, after, freezing::freeze_deeds(prs), may);
                    reading::lemma_did_trans(read, got, after, may);
                }
                reading::lemma_quiet_then_did(before, read, after, may);
            }
        }
    }
}

proof fn lemma_roots_rebased(
    before: Seq<Event>,
    after: Seq<Event>,
    config: AppConfigView,
    resolution: StackResolutionView,
    active: bool,
    dry_run: bool,
    r: Result<usize, Seq<CauseView>>,
    submit: bool,
)
    requires
        rebase::roots_rebased(
            before,
            after,
            resolution.owned,
            sync::synced_destination(config.trunk, resolution, active),
            dry_run,
            r,
        ),
    ensures
        reading::did(before, after, sync_deeds(config, resolution, submit)),
        r is Ok && !dry_run ==> moves_stack(after.last(), config.trunk, resolution),
{
    broadcast use {
        crate::quiet::group_quiet,
        crate::reading::group_reading,
        crate::wording::group_wording,
    };

    match stack::root_result(resolution.owned) {
        Err(e) => {},
        Ok(root) => {
            if !dry_run {
                law_root_is_at_the_bottom(resolution.owned, root);
                assert(moves_stack(after.last(), config.trunk, resolution));
                assert(is_synced(after.last(), config, resolution, submit));
            }
        },
    }
}

proof fn lemma_submitted(
    before: Seq<Event>,
    after: Seq<Event>,
    config: AppConfigView,
    context: AppContextView,
    resolution: StackResolutionView,
)
    requires
        publishing::submitted(before, after, config, context),
    ensures
        reading::did(before, after, sync_deeds(config, resolution, true)),
{
    broadcast use crate::reading::group_reading;

    reveal(publishing::submitted);
    let may = sync_deeds(config, resolution, true);
    if !quiet::quiet(before, after) {
        let (frozen, plans, owned) = choose|
            frozen: Seq<(Seq<char>, PrCacheEntryView)>,
            plans: Seq<SubmitPlanView>,
            owned: Seq<(Seq<char>, PrCacheEntryView)>,
        |
            #[trigger] publishing::submitted_by(
                before,
                after,
                config,
                context,
                frozen,
                plans,
                owned,
            );
        let sources = CommentSources { context, frozen, owned, trunk: config.trunk };
        let deeds = publishing::submit_deeds(config.remote, plans, sources);
        assert forall|event: Event| #[trigger] deeds(event) implies may(event) by {
            assert(publishing::is_submitted(event, config.remote, plans, sources));
            assert(is_source(sources, config, frozen));
            assert(submits(event, config));
        }
        reading::lemma_did_less(before, after, deeds, may);
    }
}

pub proof fn lemma_sync_finished(
    before: Seq<Event>,
    after: Seq<Event>,
    config: AppConfigView,
    revset: Seq<char>,
    github: Option<GitHubContextView>,
    submit: bool,
    yes: bool,
    summary: SyncSummary,
    diagnostics: Diagnostics,
    r: Result<SyncSummary, Seq<CauseView>>,
    resolution: StackResolutionView,
)
    requires
        sync::sync_finished(
            before,
            after,
            config,
            revset,
            github,
            submit,
            yes,
            summary,
            diagnostics,
            r,
        ),
    ensures
        reading::did(before, after, sync_deeds(config, resolution, submit)),
{
    broadcast use {
        crate::quiet::group_quiet,
        crate::reading::group_reading,
        crate::asking::lemma_plan_said,
        crate::asking::lemma_phase_said,
        crate::asking::lemma_context_said,
        crate::asking::asks_context_resolved,
    };

    let may = sync_deeds(config, resolution, submit);
    if submit && !diagnostics.dry_run {
        let start = before + ui::phase_said(diagnostics, "sync-submit"@);
        let (mid, context) = choose|mid: Seq<Event>, context: Result<AppContextView, Seq<CauseView>>|
            {
                &&& #[trigger] context::context_resolved(start, mid, revset, context)
                &&& match context {
                    Err(e) => record::stopped(
                        mid,
                        after,
                        error::phase_failure("sync-submit"@, revset, e),
                        r,
                    ),
                    Ok(context) => sync::synced_submitted(
                        mid,
                        after,
                        config,
                        sync::synced_context(context, github),
                        yes,
                        summary,
                        diagnostics,
                        r,
                    ),
                }
            };
        assert(quiet::quiet(before, start));
        assert(quiet::quiet(start, mid));
        if context is Ok {
            let context = sync::synced_context(context->Ok_0, github);
            let told = mid + context::context_said(diagnostics.verbose, context);
            assert(quiet::quiet(mid, told));
            let done = choose|done: Result<SubmitSummary, Seq<CauseView>>|
                {
                    &&& #[trigger] crate::submit::stack_submitted(
                        told,
                        after,
                        config,
                        context,
                        yes,
                        "forklift sync --submit --yes"@,
                        diagnostics,
                        done,
                    )
                    &&& r == sync::synced_result(done, summary)
                };
            publishing::submitted_stack_submitted(
                told,
                after,
                config,
                context,
                yes,
                "forklift sync --submit --yes"@,
                diagnostics,
                done,
            );
            lemma_submitted(told, after, config, context, resolution);
            assert(quiet::quiet(before, told));
            reading::lemma_quiet_then_did(before, told, after, may);
        }
    }
}

#[verifier::rlimit(40)]
proof fn lemma_sync_refreshed(
    before: Seq<Event>,
    after: Seq<Event>,
    config: AppConfigView,
    revset: Seq<char>,
    resolution: StackResolutionView,
    submit: bool,
    yes: bool,
    cleaned: usize,
    diagnostics: Diagnostics,
    r: Result<SyncSummary, Seq<CauseView>>,
)
    requires
        sync::sync_refreshed(
            before,
            after,
            config,
            revset,
            resolution,
            submit,
            yes,
            cleaned,
            diagnostics,
            r,
        ),
    ensures
        reading::did(before, after, sync_deeds(config, resolution, submit)),
        r is Ok && !diagnostics.dry_run && resolution.owned.len() > 0 ==> stack_was_moved(
            before.len() as int,
            after,
            config.trunk,
            resolution,
        ),
{
    broadcast use {
        crate::quiet::group_quiet,
        crate::reading::group_reading,
        crate::asking::lemma_phase_said,
        crate::asking::lemma_stack_said,
    };

    let may = sync_deeds(config, resolution, submit);
    let told = before + context::stack_said(diagnostics.verbose, resolution.owned);
    let start = told + ui::phase_said(diagnostics, "sync-frozen"@);
    let (mid, refresh) = choose|mid: Seq<Event>, refresh: Result<SyncFrozenRefreshView, Seq<CauseView>>|
        {
            &&& #[trigger] sync::dependencies_refreshed(
                before + context::stack_said(diagnostics.verbose, resolution.owned) + ui::phase_said(
                    diagnostics,
                    "sync-frozen"@,
                ),
                mid,
                config,
                resolution.frozen_dependencies,
                diagnostics.dry_run,
                refresh,
            )
            &&& match refresh {
                Err(e) => record::stopped(
                    mid,
                    after,
                    error::phase_failure("sync-frozen"@, "frozen dependencies"@, e),
                    r,
                ),
                Ok(refresh) => sync::sync_moved(
                    mid,
                    after,
                    config,
                    revset,
                    resolution,
                    refresh,
                    submit,
                    yes,
                    cleaned,
                    diagnostics,
                    r,
                ),
            }
        };
    assert(quiet::quiet(before, told));
    assert(quiet::quiet(told, start));
    lemma_dependencies_refreshed(
        start,
        mid,
        config,
        resolution,
        diagnostics.dry_run,
        refresh,
        submit,
    );
    reading::lemma_quiet_then_did(told, start, mid, may);
    reading::lemma_quiet_then_did(before, told, mid, may);
    if refresh is Ok {
        lemma_sync_moved(
            mid,
            after,
            config,
            revset,
            resolution,
            refresh->Ok_0,
            submit,
            yes,
            cleaned,
            diagnostics,
            r,
        );
        reading::lemma_did_trans(before, mid, after, may);
        assert(mid.len() >= before.len()) by {
            reveal(reading::did);
        }
    }
}

/// Whether the stack was moved in `from..`.
pub open spec fn stack_was_moved(
    from: int,
    log: Seq<Event>,
    trunk: Seq<char>,
    resolution: StackResolutionView,
) -> bool {
    exists|i: int| from <= i < log.len() && #[trigger] moves_stack(log[i], trunk, resolution)
}

#[verifier::rlimit(80)]
proof fn lemma_sync_moved(
    before: Seq<Event>,
    after: Seq<Event>,
    config: AppConfigView,
    revset: Seq<char>,
    resolution: StackResolutionView,
    refresh: SyncFrozenRefreshView,
    submit: bool,
    yes: bool,
    cleaned: usize,
    diagnostics: Diagnostics,
    r: Result<SyncSummary, Seq<CauseView>>,
)
    requires
        sync::sync_moved(
            before,
            after,
            config,
            revset,
            resolution,
            refresh,
            submit,
            yes,
            cleaned,
            diagnostics,
            r,
        ),
    ensures
        reading::did(before, after, sync_deeds(config, resolution, submit)),
        r is Ok && !diagnostics.dry_run && resolution.owned.len() > 0 ==> stack_was_moved(
            before.len() as int,
            after,
            config.trunk,
            resolution,
        ),
{
    broadcast use {
        crate::quiet::group_quiet,
        crate::reading::group_reading,
        crate::asking::lemma_phase_said,
    };

    let may = sync_deeds(config, resolution, submit);
    let start = before + ui::phase_said(diagnostics, "move-trunk"@);
    let (mid, moved) = choose|mid: Seq<Event>, moved: Result<(), Seq<CauseView>>|
        {
            &&& #[trigger] trunk::trunk_moved(start, mid, config, diagnostics, moved)
            &&& match moved {
                Err(e) => record::stopped(
                    mid,
                    after,
                    error::phase_failure("move-trunk"@, config.trunk, e),
                    r,
                ),
                Ok(_) => if resolution.owned.len() == 0 {
                    after == mid && r == Ok::<SyncSummary, Seq<CauseView>>(
                        SyncSummary {
                            rebased_roots: 0,
                            submit_ran: false,
                            cleaned_branches: cleaned,
                        },
                    )
                } else {
                    sync::sync_rebased(
                        mid,
                        after,
                        config,
                        revset,
                        resolution,
                        refresh,
                        submit,
                        yes,
                        cleaned,
                        diagnostics,
                        r,
                    )
                },
            }
        };
    assert(quiet::quiet(before, start));
    did_trunk_moved(start, mid, config, diagnostics, moved);
    reading::lemma_did_less(start, mid, trunk_deeds(config), may);
    reading::lemma_quiet_then_did(before, start, mid, may);
    if moved is Ok && resolution.owned.len() > 0 {
        let active = refresh.active_dependencies;
        let told = mid + ui::phase_said(diagnostics, "rebase-stack"@);
        let (next, rebased) = choose|next: Seq<Event>, rebased: Result<usize, Seq<CauseView>>|
            {
                &&& #[trigger] rebase::roots_rebased(
                    told,
                    next,
                    resolution.owned,
                    sync::synced_destination(config.trunk, resolution, refresh.active_dependencies),
                    diagnostics.dry_run,
                    rebased,
                )
                &&& match rebased {
                    Err(e) => record::stopped(
                        next,
                        after,
                        error::phase_failure("rebase-stack"@, revset, e),
                        r,
                    ),
                    Ok(rebased_roots) => sync::sync_finished(
                        next,
                        after,
                        config,
                        revset,
                        refresh.github,
                        submit,
                        yes,
                        SyncSummary { rebased_roots, submit_ran: false, cleaned_branches: cleaned },
                        diagnostics,
                        r,
                    ),
                }
            };
        assert(quiet::quiet(mid, told));
        lemma_roots_rebased(
            told,
            next,
            config,
            resolution,
            active,
            diagnostics.dry_run,
            rebased,
            submit,
        );
        reading::lemma_did_then_quiet(before, mid, told, may);
        reading::lemma_did_trans(before, told, next, may);
        if rebased is Ok {
            lemma_sync_finished(
                next,
                after,
                config,
                revset,
                refresh.github,
                submit,
                yes,
                SyncSummary {
                    rebased_roots: rebased->Ok_0,
                    submit_ran: false,
                    cleaned_branches: cleaned,
                },
                diagnostics,
                r,
                resolution,
            );
            reading::lemma_did_trans(before, next, after, may);
            if !diagnostics.dry_run {
                let at = next.len() - 1;
                assert(record::called(
                    told,
                    next,
                    "jj"@,
                    rebase::rebase_source_args(
                        stack::root_result(resolution.owned)->Ok_0.commit_id,
                        sync::synced_destination(config.trunk, resolution, active).rev(),
                    ),
                ));
                assert(at >= before.len()) by {
                    reveal(reading::did);
                    reveal(quiet::quiet);
                }
                assert(record::extends(next, after)) by {
                    reveal(reading::did);
                }
                assert(after.take(next.len() as int)[at] == next[at]);
                assert(moves_stack(after[at], config.trunk, resolution));
            }
        }
    }
}

broadcast proof fn synced_sync_resolved(
    before: Seq<Event>,
    after: Seq<Event>,
    config: AppConfigView,
    revset: Seq<char>,
    start: Seq<Event>,
    stack: Seq<ResolvedChangeView>,
    bookmarks: Seq<FrozenBookmarkView>,
    submit: bool,
    yes: bool,
    cleaned: usize,
    diagnostics: Diagnostics,
    r: Result<SyncSummary, Seq<CauseView>>,
)
    requires
        #[trigger] stack::stack_resolved(start, before, revset, Ok(stack)),
        #[trigger] sync::sync_resolved(
            before,
            after,
            config,
            revset,
            stack,
            bookmarks,
            submit,
            yes,
            cleaned,
            diagnostics,
            r,
        ),
    ensures
        synced(start, after, config, revset, submit),
{
    broadcast use {
        crate::quiet::group_quiet,
        crate::reading::group_reading,
        crate::asking::asks_stack_resolved,
        crate::asking::asks_sync_stack_resolved,
    };

    let (mid, resolution) = choose|mid: Seq<Event>, resolution: Result<StackResolutionView, Seq<CauseView>>|
        {
            &&& #[trigger] sync::sync_stack_resolved(before, mid, revset, stack, bookmarks, resolution)
            &&& match resolution {
                Err(e) => record::stopped(
                    mid,
                    after,
                    error::phase_failure("resolve-stack"@, revset, e),
                    r,
                ),
                Ok(resolution) => sync::sync_refreshed(
                    mid,
                    after,
                    config,
                    revset,
                    resolution,
                    submit,
                    yes,
                    cleaned,
                    diagnostics,
                    r,
                ),
            }
        };
    assert(quiet::quiet(start, before));
    assert(quiet::quiet(before, mid));
    assert(quiet::quiet(start, mid));
    if resolution is Ok {
        let resolution = resolution->Ok_0;
        let may = sync_deeds(config, resolution, submit);
        lemma_sync_refreshed(
            mid,
            after,
            config,
            revset,
            resolution,
            submit,
            yes,
            cleaned,
            diagnostics,
            r,
        );
        reading::lemma_quiet_then_did(start, mid, after, may);
        assert(record::extends(mid, after)) by {
            reveal(reading::did);
        }
        assert(record::extends(start, start)) by {
            record::lemma_extends_refl(start);
        }
        assert(synced_by(
            start,
            after,
            config,
            revset,
            submit,
            start,
            before,
            mid,
            stack,
            bookmarks,
            resolution,
        ));
        reveal(synced);
    } else {
        lemma_quiet_synced(start, after, config, revset, submit);
    }
}

broadcast proof fn synced_bare_trunk_synced(
    before: Seq<Event>,
    after: Seq<Event>,
    config: AppConfigView,
    cleaned: usize,
    diagnostics: Diagnostics,
    r: Result<SyncSummary, Seq<CauseView>>,
)
    requires
        #[trigger] sync::bare_trunk_synced(before, after, config, cleaned, diagnostics, r),
    ensures
        reading::did(before, after, trunk_deeds(config)),
{
    broadcast use {
        crate::quiet::group_quiet,
        crate::reading::group_reading,
        crate::asking::lemma_phase_said,
        did_trunk_moved,
    };

}

broadcast proof fn synced_revset_synced(
    before: Seq<Event>,
    after: Seq<Event>,
    config: AppConfigView,
    revset: Seq<char>,
    bookmarks: Seq<FrozenBookmarkView>,
    submit: bool,
    yes: bool,
    cleaned: usize,
    diagnostics: Diagnostics,
    r: Result<SyncSummary, Seq<CauseView>>,
)
    requires
        #[trigger] sync::revset_synced(before, after, config, revset, bookmarks, submit, yes, cleaned, diagnostics, r),
    ensures
        synced(before, after, config, revset, submit),
{
    broadcast use {
        crate::quiet::group_quiet,
        lemma_quiet_synced,
        lemma_quiet_then_synced,
        lemma_did_synced,
        crate::asking::asks_stack_resolved,
    };

    let (mid, stack) = choose|mid: Seq<Event>, stack: Result<Seq<ResolvedChangeView>, Seq<CauseView>>|
        {
            &&& #[trigger] stack::stack_resolved(before, mid, revset, stack)
            &&& match stack {
                Err(e) => record::stopped(
                    mid,
                    after,
                    error::phase_failure("resolve-stack"@, revset, e),
                    r,
                ),
                Ok(stack) => if stack.len() == 0 && bookmarks.len() == 0 {
                    sync::bare_trunk_synced(mid, after, config, cleaned, diagnostics, r)
                } else {
                    sync::sync_resolved(
                        mid,
                        after,
                        config,
                        revset,
                        stack,
                        bookmarks,
                        submit,
                        yes,
                        cleaned,
                        diagnostics,
                        r,
                    )
                },
            }
        };
    assert(quiet::quiet(before, mid));
    if stack is Ok {
        let stack = stack->Ok_0;
        if stack.len() == 0 && bookmarks.len() == 0 {
            synced_bare_trunk_synced(mid, after, config, cleaned, diagnostics, r);
            lemma_did_synced(mid, after, config, revset, submit);
        } else {
            synced_sync_resolved(
                mid,
                after,
                config,
                revset,
                before,
                stack,
                bookmarks,
                submit,
                yes,
                cleaned,
                diagnostics,
                r,
            );
        }
    }
}

broadcast proof fn synced_frozen_sync_begun(
    before: Seq<Event>,
    after: Seq<Event>,
    config: AppConfigView,
    revset: Seq<char>,
    submit: bool,
    yes: bool,
    cleaned: usize,
    diagnostics: Diagnostics,
    r: Result<SyncSummary, Seq<CauseView>>,
)
    requires
        #[trigger] sync::frozen_sync_begun(before, after, config, revset, submit, yes, cleaned, diagnostics, r),
    ensures
        synced(before, after, config, revset, submit),
{
    broadcast use {
        crate::quiet::group_quiet,
        lemma_quiet_synced,
        lemma_quiet_then_synced,
        synced_revset_synced,
    };

}

broadcast proof fn synced_sync_begun(
    before: Seq<Event>,
    after: Seq<Event>,
    config: AppConfigView,
    revset: Seq<char>,
    submit: bool,
    yes: bool,
    cleaned: usize,
    diagnostics: Diagnostics,
    r: Result<SyncSummary, Seq<CauseView>>,
)
    requires
        #[trigger] sync::sync_begun(before, after, config, revset, submit, yes, cleaned, diagnostics, r),
    ensures
        synced(before, after, config, revset, submit),
{
    broadcast use {
        crate::quiet::group_quiet,
        crate::asking::lemma_phase_said,
        lemma_quiet_synced,
        lemma_quiet_then_synced,
        synced_frozen_sync_begun,
    };

}

broadcast proof fn synced_sync_cleaned(
    before: Seq<Event>,
    after: Seq<Event>,
    config: AppConfigView,
    revset: Seq<char>,
    submit: bool,
    yes: bool,
    diagnostics: Diagnostics,
    r: Result<SyncSummary, Seq<CauseView>>,
)
    requires
        #[trigger] sync::sync_cleaned(before, after, config, revset, submit, yes, diagnostics, r),
    ensures
        synced(before, after, config, revset, submit),
{
    let (mid, cleaned) = choose|mid: Seq<Event>, cleaned: Result<usize, Seq<CauseView>>|
        {
            &&& #[trigger] cleanup::landed_branches_cleaned(before, mid, config, diagnostics, cleaned)
            &&& match cleaned {
                Err(e) => record::stopped(
                    mid,
                    after,
                    error::phase_failure("cleanup-merged"@, "branches"@, e),
                    r,
                ),
                Ok(cleaned) => sync::sync_begun(
                    mid,
                    after,
                    config,
                    revset,
                    submit,
                    yes,
                    cleaned,
                    diagnostics,
                    r,
                ),
            }
        };
    did_landed_cleaned(before, mid, config, diagnostics, cleaned);
    if cleaned is Ok {
        synced_sync_begun(
            mid,
            after,
            config,
            revset,
            submit,
            yes,
            cleaned->Ok_0,
            diagnostics,
            r,
        );
        lemma_did_then_synced(before, mid, after, config, revset, submit);
    } else {
        lemma_did_synced(before, after, config, revset, submit);
    }
}

broadcast proof fn synced_stack_synced(
    before: Seq<Event>,
    after: Seq<Event>,
    config: AppConfigView,
    revset: Seq<char>,
    submit: bool,
    yes: bool,
    diagnostics: Diagnostics,
    r: Result<SyncSummary, Seq<CauseView>>,
)
    requires
        #[trigger] sync::stack_synced(before, after, config, revset, submit, yes, diagnostics, r),
    ensures
        synced(before, after, config, revset, submit),
{
    broadcast use {crate::quiet::group_quiet, crate::asking::lemma_phase_said};

    let start = before + ui::phase_said(diagnostics, "sync-fetch"@);
    let (mid, fetched) = choose|mid: Seq<Event>, fetched: Result<(), Seq<CauseView>>|
        {
            &&& #[trigger] trunk::fetch_done(start, mid, config, diagnostics, fetched)
            &&& match fetched {
                Err(e) => record::stopped(
                    mid,
                    after,
                    error::phase_failure("sync-fetch"@, config.remote, e),
                    r,
                ),
                Ok(_) => sync::sync_cleaned(
                    mid,
                    after,
                    config,
                    revset,
                    submit,
                    yes,
                    diagnostics,
                    r,
                ),
            }
        };
    assert(quiet::quiet(before, start));
    did_fetch_done(start, mid, config, diagnostics, fetched);
    reading::lemma_quiet_then_did(before, start, mid, trunk_deeds(config));
    if fetched is Ok {
        synced_sync_cleaned(mid, after, config, revset, submit, yes, diagnostics, r);
        lemma_did_then_synced(before, mid, after, config, revset, submit);
    } else {
        lemma_did_synced(before, after, config, revset, submit);
    }
}

/// The law of the sync: all that a sync changes is trunk, which goes where the remote has it; landed
/// branches, which go; the frozen changes below the stack, which are fetched and frozen anew; and the
/// stack that was read for its revset, whose bottom moves with all that stands on it onto trunk or onto
/// the topmost frozen bookmark. Only where a submit was asked for is the stack submitted.
pub proof fn law_sync_moves_its_stack(
    before: Seq<Event>,
    after: Seq<Event>,
    config: AppConfigView,
    revset: Seq<char>,
    submit: bool,
    yes: bool,
    diagnostics: Diagnostics,
    r: Result<SyncSummary, Seq<CauseView>>,
    change: int,
)
    requires
        sync::stack_synced(before, after, config, revset, submit, yes, diagnostics, r),
        before.len() <= change < after.len(),
        !quiet::harmless(after[change]),
    ensures
        is_trunk_step(after[change], config) || exists|
            b: Seq<Event>,
            m: Seq<Event>,
            c: Seq<Event>,
            stack: Seq<ResolvedChangeView>,
            bookmarks: Seq<FrozenBookmarkView>,
            resolution: StackResolutionView,
        |
            {
                &&& record::extends(before, b)
                &&& record::extends(c, after)
                &&& #[trigger] stack::stack_resolved(b, m, revset, Ok(stack))
                &&& #[trigger] sync::sync_stack_resolved(
                    m,
                    c,
                    revset,
                    stack,
                    bookmarks,
                    Ok(resolution),
                )
                &&& is_synced(after[change], config, resolution, submit)
            },
{
    synced_stack_synced(before, after, config, revset, submit, yes, diagnostics, r);
    reveal(synced);
    reveal(reading::did);
    if !reading::did(before, after, trunk_deeds(config)) {
        let (b, m, c, stack, bookmarks, resolution) = choose|
            b: Seq<Event>,
            m: Seq<Event>,
            c: Seq<Event>,
            stack: Seq<ResolvedChangeView>,
            bookmarks: Seq<FrozenBookmarkView>,
            resolution: StackResolutionView,
        |
            #[trigger] synced_by(
                before,
                after,
                config,
                revset,
                submit,
                b,
                m,
                c,
                stack,
                bookmarks,
                resolution,
            );
        assert(is_synced(after[change], config, resolution, submit));
    }
}

/// The law of the moved stack: a sync of a stack that succeeds has moved it.
pub proof fn law_synced_stack_was_moved(
    before: Seq<Event>,
    after: Seq<Event>,
    config: AppConfigView,
    revset: Seq<char>,
    resolution: StackResolutionView,
    submit: bool,
    yes: bool,
    cleaned: usize,
    diagnostics: Diagnostics,
    summary: SyncSummary,
)
    requires
        sync::sync_refreshed(
            before,
            after,
            config,
            revset,
            resolution,
            submit,
            yes,
            cleaned,
            diagnostics,
            Ok(summary),
        ),
        !diagnostics.dry_run,
        resolution.owned.len() > 0,
    ensures
        stack_was_moved(before.len() as int, after, config.trunk, resolution),
{
    lemma_sync_refreshed(
        before,
        after,
        config,
        revset,
        resolution,
        submit,
        yes,
        cleaned,
        diagnostics,
        Ok(summary),
    );
}

} // verus!
