//! What a synced stack stands on.

use vstd::prelude::*;

use crate::bookmarks;
use crate::branches;
use crate::context;
use crate::error;
use crate::error::CauseView;
use crate::freezing;
use crate::gathering;
use crate::model::{
    AppConfigView, Diagnostics, FrozenDependencyView, GhPrView, GitHubContextView, ResolvedChangeView,
    StackResolutionView,
};
use crate::quiet;
use crate::reading;
use crate::reading::deed;
use crate::rebase;
use crate::record;
use crate::record::Event;
use crate::settling;
use crate::stack;
use crate::sync;
use crate::sync::{SyncFrozenRefreshView, SyncSummary};
use crate::syncing;
use crate::text;
use crate::ui;

verus! {

broadcast use crate::record::group_record;

/// The bottom of the stack moves, with all that stands on it, onto `onto` and nothing else.
pub open spec fn moves_onto(event: Event, owned: Seq<ResolvedChangeView>, onto: Seq<char>) -> bool {
    &&& deed(event) is RebaseTree
    &&& deed(event)->RebaseTree_onto == onto
    &&& syncing::is_bottom(owned, deed(event)->RebaseTree_source)
}

/// Between `from` and the end of the record the stack moved onto `onto`.
pub open spec fn moved_onto(
    from: int,
    log: Seq<Event>,
    owned: Seq<ResolvedChangeView>,
    onto: Seq<char>,
) -> bool {
    exists|i: int| from <= i < log.len() && #[trigger] moves_onto(log[i], owned, onto)
}

/// The law of the base: a sync that succeeds has moved the stack onto the topmost frozen bookmark below
/// it while the frozen requests are open, and onto trunk where there are none or they were merged.
#[verifier::rlimit(40)]
pub proof fn law_synced_stack_stands_on_its_base(
    before: Seq<Event>,
    after: Seq<Event>,
    config: AppConfigView,
    revset: Seq<char>,
    resolution: StackResolutionView,
    refresh: SyncFrozenRefreshView,
    submit: bool,
    yes: bool,
    cleaned: usize,
    diagnostics: Diagnostics,
    summary: SyncSummary,
)
    requires
        sync::sync_rebased(
            before,
            after,
            config,
            revset,
            resolution,
            refresh,
            submit,
            yes,
            cleaned,
            diagnostics,
            Ok(summary),
        ),
        !diagnostics.dry_run,
    ensures
        refresh.active_dependencies && resolution.frozen_dependencies.len() > 0 ==> moved_onto(
            before.len() as int,
            after,
            resolution.owned,
            resolution.frozen_dependencies.last().bookmark.name,
        ),
        !refresh.active_dependencies || resolution.frozen_dependencies.len() == 0 ==> moved_onto(
            before.len() as int,
            after,
            resolution.owned,
            config.trunk,
        ),
{
    broadcast use crate::wording::group_wording;

    let r = Ok::<SyncSummary, Seq<CauseView>>(summary);
    let told = before + ui::phase_said(diagnostics, "rebase-stack"@);
    let onto = sync::synced_destination(config.trunk, resolution, refresh.active_dependencies);
    let (mid, rebased) = choose|mid: Seq<Event>, rebased: Result<usize, Seq<CauseView>>|
        {
            &&& #[trigger] rebase::roots_rebased(
                told,
                mid,
                resolution.owned,
                sync::synced_destination(config.trunk, resolution, refresh.active_dependencies),
                diagnostics.dry_run,
                rebased,
            )
            &&& match rebased {
                Err(e) => record::stopped(
                    mid,
                    after,
                    error::phase_failure("rebase-stack"@, revset, e),
                    r,
                ),
                Ok(rebased_roots) => sync::sync_finished(
                    mid,
                    after,
                    config,
                    revset,
                    refresh.github,
                    submit,
                    yes,
                    SyncSummary { rebased_roots, submit_ran: false, cleaned_branches: cleaned },
                    diagnostics,
                    r,
                ),
            }
        };
    assert(rebased is Ok);
    assert(stack::root_result(resolution.owned) is Ok);
    let root = stack::root_result(resolution.owned)->Ok_0;
    syncing::law_root_is_at_the_bottom(resolution.owned, root);
    assert(record::called(
        told,
        mid,
        "jj"@,
        rebase::rebase_source_args(root.commit_id, onto.rev()),
    ));
    let at = mid.len() - 1;
    assert(moves_onto(mid[at], resolution.owned, onto.rev()));
    syncing::lemma_sync_finished(
        mid,
        after,
        config,
        revset,
        refresh.github,
        submit,
        yes,
        SyncSummary { rebased_roots: rebased->Ok_0, submit_ran: false, cleaned_branches: cleaned },
        diagnostics,
        r,
        resolution,
    );
    assert(record::extends(mid, after)) by {
        reveal(reading::did);
    }
    assert(after.take(mid.len() as int)[at] == mid[at]);
    assert(moves_onto(after[at], resolution.owned, onto.rev()));
    assert(at >= before.len());
}

/// These are the requests of the frozen changes, as GitHub told of them, and none of them is merged, or
/// all of them are.
pub open spec fn told_of(
    from: int,
    log: Seq<Event>,
    repo: Seq<char>,
    dependencies: Seq<FrozenDependencyView>,
    prs: Seq<GhPrView>,
    standing: bool,
) -> bool {
    &&& prs.len() == dependencies.len()
    &&& forall|k: int|
        0 <= k < prs.len() ==> {
            &&& gathering::was_read(
                from,
                log,
                repo,
                dependencies[k].bookmark.pr_number,
                #[trigger] prs[k],
            )
            &&& (text::lower_all(prs[k].state) != text::lower_all("merged"@)) == standing
        }
}

/// Fetching and freezing open requests only adds to the record, and leaves them open.
proof fn lemma_refresh_goes_on(
    before: Seq<Event>,
    after: Seq<Event>,
    remote: Seq<char>,
    prs: Seq<GhPrView>,
    github: GitHubContextView,
    dry_run: bool,
    refresh: SyncFrozenRefreshView,
)
    requires
        sync::branches_refreshed(before, after, remote, prs, github, dry_run, Ok(refresh)),
    ensures
        record::extends(before, after),
        refresh == (SyncFrozenRefreshView { github: Some(github), active_dependencies: true }),
{
    let r = Ok::<SyncFrozenRefreshView, Seq<CauseView>>(refresh);
    let (mid, fetched) = choose|mid: Seq<Event>, fetched: Result<(), Seq<CauseView>>|
        {
            &&& #[trigger] branches::branches_fetched(before, mid, remote, prs, dry_run, fetched)
            &&& match fetched {
                Err(e) => record::stopped(mid, after, sync::branch_failure(e), r),
                Ok(_) => sync::bookmarks_refreshed(mid, after, prs, github, dry_run, r),
            }
        };
    freezing::lemma_branches_fetched(
        before,
        mid,
        remote,
        prs,
        dry_run,
        fetched,
        |event: Event| true,
    );
    assert(record::extends(before, mid)) by {
        reveal(reading::did);
    }
    let updated = choose|updated: Result<(), Seq<CauseView>>|
        {
            &&& #[trigger] bookmarks::frozen_updated(mid, after, prs, dry_run, updated)
            &&& r == match updated {
                Err(e) => Err::<SyncFrozenRefreshView, Seq<CauseView>>(e),
                Ok(_) => Ok(
                    SyncFrozenRefreshView { github: Some(github), active_dependencies: true },
                ),
            }
        };
    freezing::law_freezing_holds_the_heads(mid, after, prs, dry_run, updated);
    record::lemma_extends_trans(before, mid, after);
}

/// The law of the dependencies: a sync takes the frozen changes for open just where there are some and
/// none of their requests, as GitHub tells of them by their numbers, is merged; it takes them for gone
/// where there are none or all their requests are merged.
pub proof fn law_dependencies_stand_while_unmerged(
    before: Seq<Event>,
    after: Seq<Event>,
    config: AppConfigView,
    dependencies: Seq<FrozenDependencyView>,
    dry_run: bool,
    refresh: SyncFrozenRefreshView,
) -> (prs: Seq<GhPrView>)
    requires
        sync::dependencies_refreshed(before, after, config, dependencies, dry_run, Ok(refresh)),
    ensures
        dependencies.len() == 0 ==> !refresh.active_dependencies,
        dependencies.len() > 0 ==> refresh.github is Some && told_of(
            before.len() as int,
            after,
            refresh.github->Some_0.repo,
            dependencies,
            prs,
            refresh.active_dependencies,
        ),
{
    if dependencies.len() > 0 {
        broadcast use {crate::quiet::group_quiet, crate::asking::asks_github_resolved};

        let r = Ok::<SyncFrozenRefreshView, Seq<CauseView>>(refresh);
        let (mid, found) = choose|mid: Seq<Event>, github: Result<GitHubContextView, Seq<CauseView>>|
            {
                &&& #[trigger] context::github_resolved(before, mid, github)
                &&& match github {
                    Err(e) => record::stopped(
                        mid,
                        after,
                        error::in_context("resolve GitHub repository for frozen dependencies"@, e),
                        r,
                    ),
                    Ok(github) => sync::dependencies_fetched(
                        mid,
                        after,
                        config,
                        dependencies,
                        github,
                        dry_run,
                        r,
                    ),
                }
            };
        let github = found->Ok_0;
        let (read, fetched) = choose|read: Seq<Event>, prs: Result<Seq<GhPrView>, Seq<CauseView>>|
            {
                &&& #[trigger] sync::dependency_prs_fetched(mid, read, github.repo, dependencies, prs)
                &&& match prs {
                    Err(e) => record::stopped(read, after, e, r),
                    Ok(prs) => match sync::frozen_stack_state(
                        config,
                        github.repo,
                        dependencies,
                        prs,
                    ) {
                        Err(e) => record::stopped(read, after, e, r),
                        Ok(false) => after == read && r == Ok::<_, Seq<CauseView>>(
                            SyncFrozenRefreshView {
                                github: Some(github),
                                active_dependencies: false,
                            },
                        ),
                        Ok(true) => sync::branches_refreshed(
                            read,
                            after,
                            config.remote,
                            prs,
                            github,
                            dry_run,
                            r,
                        ),
                    },
                }
            };
        let prs = fetched->Ok_0;
        let numbers = sync::dependency_numbers(dependencies);
        settling::law_frozen_requests_go_together(config, github.repo, dependencies, prs);
        assert(record::extends(before, mid)) by {
            reveal(quiet::quiet);
        }
        gathering::lemma_walked(
            mid,
            read,
            github.repo,
            "sync-frozen"@,
            numbers,
            seq![],
            false,
            prs,
            before.len() as int,
        );
        if sync::frozen_stack_state(config, github.repo, dependencies, prs) == Ok::<
            bool,
            Seq<CauseView>,
        >(true) {
            lemma_refresh_goes_on(read, after, config.remote, prs, github, dry_run, refresh);
        }
        assert(refresh.github == Some(github));
        assert forall|k: int| 0 <= k < prs.len() implies gathering::was_read(
            before.len() as int,
            after,
            github.repo,
            dependencies[k].bookmark.pr_number,
            #[trigger] prs[k],
        ) by {
            assert(numbers[k] == dependencies[k].bookmark.pr_number);
            gathering::lemma_read_stays(
                before.len() as int,
                before.len() as int,
                read,
                after,
                github.repo,
                numbers[k],
                prs[k],
            );
        }
        assert(told_of(
            before.len() as int,
            after,
            github.repo,
            dependencies,
            prs,
            refresh.active_dependencies,
        ));
        prs
    } else {
        seq![]
    }
}

/// The law of the moved selection: the changes that are selected move, without what stands on them, onto
/// the destination; a bookmark or trunk is named by its name.
pub proof fn law_selection_moves_onto_its_destination(
    before: Seq<Event>,
    after: Seq<Event>,
    revset: Seq<char>,
    stack: Seq<ResolvedChangeView>,
    trunk: Seq<char>,
    resolution: StackResolutionView,
    count: usize,
)
    requires
        rebase::selection_rebased(
            before,
            after,
            revset,
            stack,
            rebase::destination_of(trunk, resolution),
            false,
            Ok(count),
        ),
    ensures
        after.len() == before.len() + 1,
        record::extends(before, after),
        deed(after.last()) is RebaseSet,
        deed(after.last())->RebaseSet_revset == revset,
        deed(after.last())->RebaseSet_onto == if resolution.frozen_dependencies.len() > 0 {
            resolution.frozen_dependencies.last().bookmark.name
        } else {
            trunk
        },
        count == 1,
        exists|k: int| 0 <= k < stack.len() && syncing::is_bottom(stack, #[trigger] stack[k].commit_id),
{
    broadcast use crate::wording::group_wording;

    let root = stack::root_result(stack)->Ok_0;
    syncing::law_root_is_at_the_bottom(stack, root);
    let k = choose|k: int| 0 <= k < stack.len() && stack[k] == root;
    assert(syncing::is_bottom(stack, stack[k].commit_id));
}

} // verus!
