//! What an unfreeze does to the repository.

use vstd::prelude::*;

use crate::bookmarks;
use crate::branches;
use crate::cache;
use crate::error;
use crate::error::CauseView;
use crate::freezing;
use crate::get;
use crate::model::{
    AppConfigView, Diagnostics, FrozenBookmarkView, GhPrView, GitHubContextView, PrCacheEntryView,
    RemoteBookmarkView, ResolvedChangeView,
};
use crate::pr;
use crate::pr::GetTargetView;
use crate::quiet;
use crate::reading;
use crate::reading::{Deed, deed};
use crate::record;
use crate::record::{Event, LineView};
use crate::stack;
use crate::targeting;
use crate::text;
use crate::ui;
use crate::unfreeze;

verus! {

broadcast use crate::record::group_record;

/// At `i` git told that the commit `rev` lies below this bookmark of the remote, which nothing follows
/// and which is not the one called `own`.
pub open spec fn blocks(
    log: Seq<Event>,
    i: int,
    remote: Seq<char>,
    rev: Seq<char>,
    own: Seq<char>,
    bookmark: RemoteBookmarkView,
) -> bool {
    &&& 0 <= i < log.len()
    &&& deed(log[i]) == (Deed::TestAncestor { ancestor: rev, descendant: bookmark.commit_id })
    &&& record::reply_of(log[i]) is Ok
    &&& (record::reply_of(log[i])->Ok_0).success
    &&& bookmark.remote == remote
    &&& !bookmark.is_tracked
    &&& !bookmark.is_conflicted
    &&& bookmark.name != own
}

/// Whether git told so of this bookmark.
pub open spec fn was_blocking(
    log: Seq<Event>,
    remote: Seq<char>,
    rev: Seq<char>,
    own: Seq<char>,
    bookmark: RemoteBookmarkView,
) -> bool {
    exists|i: int| #[trigger] blocks(log, i, remote, rev, own, bookmark)
}

/// A bookmark that keeps the commit immutable is followed.
pub open spec fn follows_blocker(
    event: Event,
    log: Seq<Event>,
    remote: Seq<char>,
    rev: Seq<char>,
    own: Seq<char>,
) -> bool {
    exists|bookmark: RemoteBookmarkView|
        {
            &&& #[trigger] was_blocking(log, remote, rev, own, bookmark)
            &&& deed(event) == (Deed::TrackBookmark { remote, name: bookmark.name })
        }
}

/// All that the adoption of a pull request may do.
pub open spec fn is_adopting(event: Event, log: Seq<Event>, remote: Seq<char>, pr: GhPrView) -> bool {
    ||| event is CacheWritten
    ||| freezing::fetches_heads(event, remote, seq![pr])
    ||| deed(event) == (Deed::TrackBookmark { remote, name: pr.head_ref_name })
    ||| follows_blocker(event, log, remote, pr.head_ref_oid, pr.head_ref_name)
    ||| deed(event) == (Deed::DeleteBookmark { name: freezing::frozen_bookmark(pr) })
}

pub open spec fn adopt_deeds(log: Seq<Event>, remote: Seq<char>, pr: GhPrView) -> spec_fn(
    Event,
) -> bool {
    |event: Event| is_adopting(event, log, remote, pr)
}

/// Whether the head branch was followed in `from..`.
pub open spec fn head_was_followed(from: int, log: Seq<Event>, remote: Seq<char>, pr: GhPrView) -> bool {
    exists|i: int|
        {
            &&& from <= i < log.len()
            &&& deed(#[trigger] log[i]) == (Deed::TrackBookmark { remote, name: pr.head_ref_name })
        }
}

/// Whether jj told, in `from..`, that the head commit is not immutable.
pub open spec fn told_mutable(from: int, log: Seq<Event>, pr: GhPrView) -> bool {
    exists|i: int|
        {
            &&& from <= i < log.len()
            &&& deed(#[trigger] log[i]) == (Deed::ListCommits {
                revset: pr.head_ref_oid,
                shown: "immutable"@,
                bottom_first: false,
            })
            &&& record::reply_of(log[i]) is Ok
            &&& (record::reply_of(log[i])->Ok_0).success
            &&& text::trim((record::reply_of(log[i])->Ok_0).stdout) == "false"@
        }
}

/// Whether the frozen bookmark was deleted in `from..`.
pub open spec fn was_thawed(from: int, log: Seq<Event>, pr: GhPrView) -> bool {
    exists|i: int|
        {
            &&& from <= i < log.len()
            &&& deed(#[trigger] log[i]) == (Deed::DeleteBookmark {
                name: freezing::frozen_bookmark(pr),
            })
        }
}

proof fn lemma_blockers_tested(
    before: Seq<Event>,
    after: Seq<Event>,
    remote: Seq<char>,
    rev: Seq<char>,
    own: Seq<char>,
    left: Seq<RemoteBookmarkView>,
    found: Seq<RemoteBookmarkView>,
    r: Result<Seq<RemoteBookmarkView>, Seq<CauseView>>,
)
    requires
        bookmarks::blockers_tested(before, after, rev, left, found, r),
        forall|k: int|
            0 <= k < left.len() ==> bookmarks::is_candidate(#[trigger] left[k], remote, own),
        forall|k: int|
            0 <= k < found.len() ==> was_blocking(before, remote, rev, own, #[trigger] found[k]),
    ensures
        record::extends(before, after),
        r is Ok ==> forall|k: int|
            0 <= k < (r->Ok_0).len() ==> was_blocking(after, remote, rev, own, #[trigger] (r->Ok_0)[k]),
    decreases left.len(),
{
    broadcast use crate::wording::group_wording;

    if left.len() > 0 {
        let n = before.len() as int;
        let mid = after.take(n + 1);
        assert(mid.take(n) =~= before);
        match bookmarks::success_of(record::reply_of(after[n])) {
            Err(e) => {},
            Ok(stands) => {
                let next = if stands {
                    bookmarks::name_inserted(found, left[0])
                } else {
                    found
                };
                assert(mid[n] == after[n]);
                assert forall|k: int| 0 <= k < found.len() implies was_blocking(mid, remote, rev, own, #[trigger] found[k]) by {
                    let i = choose|i: int| #[trigger] blocks(before, i, remote, rev, own, found[k]);
                    assert(mid.take(n)[i] == mid[i]);
                    assert(blocks(mid, i, remote, rev, own, found[k]));
                }
                if stands {
                    assert(bookmarks::is_candidate(left[0], remote, own));
                    assert(blocks(mid, n, remote, rev, own, left[0])) by {
                        reveal(record::in_place);
                    }
                }
                assert forall|k: int| 0 <= k < next.len() implies was_blocking(mid, remote, rev, own, #[trigger] next[k]) by {
                    if stands {
                        lemma_inserted(found, left[0], k);
                        if next[k] != left[0] {
                            let j = choose|j: int|
                                0 <= j < found.len() && #[trigger] found[j] == next[k];
                            assert(was_blocking(mid, remote, rev, own, found[j]));
                        }
                    }
                }
                assert forall|k: int| 0 <= k < left.drop_first().len() implies
                    bookmarks::is_candidate(#[trigger] left.drop_first()[k], remote, own) by {
                    assert(left.drop_first()[k] == left[k + 1]);
                }
                lemma_blockers_tested(mid, after, remote, rev, own, left.drop_first(), next, r);
            },
        }
    }
}

proof fn lemma_inserted(sorted: Seq<RemoteBookmarkView>, item: RemoteBookmarkView, k: int)
    requires
        0 <= k < bookmarks::name_inserted(sorted, item).len(),
    ensures
        bookmarks::name_inserted(sorted, item)[k] == item || exists|j: int|
            0 <= j < sorted.len() && #[trigger] sorted[j] == bookmarks::name_inserted(
                sorted,
                item,
            )[k],
    decreases sorted.len(),
{
    let next = bookmarks::name_inserted(sorted, item);
    if sorted.len() == 0 || !text::comes_before(item.name, sorted.last().name) {
        if k < sorted.len() {
            assert(sorted[k] == next[k]);
        }
    } else {
        let front = sorted.drop_last();
        if k < next.len() - 1 {
            lemma_inserted(front, item, k);
            if next[k] != item {
                let j = choose|j: int| 0 <= j < front.len() && #[trigger] front[j] == next[k];
                assert(sorted[j] == next[k]);
            }
        } else {
            assert(sorted[sorted.len() - 1] == next[k]);
        }
    }
}

proof fn lemma_candidates(all: Seq<RemoteBookmarkView>, remote: Seq<char>, own: Seq<char>, k: int)
    requires
        0 <= k < bookmarks::candidates(all, remote, own).len(),
    ensures
        bookmarks::is_candidate(bookmarks::candidates(all, remote, own)[k], remote, own),
    decreases all.len(),
{
    if all.len() > 0 {
        let rest = bookmarks::candidates(all.drop_last(), remote, own);
        if k < rest.len() {
            lemma_candidates(all.drop_last(), remote, own, k);
        }
    }
}

proof fn lemma_blockers_followed(
    before: Seq<Event>,
    after: Seq<Event>,
    log: Seq<Event>,
    remote: Seq<char>,
    pr: GhPrView,
    left: Seq<RemoteBookmarkView>,
    dry_run: bool,
    r: Result<(), Seq<CauseView>>,
)
    requires
        bookmarks::blockers_followed(before, after, remote, left, dry_run, r),
        forall|k: int|
            0 <= k < left.len() ==> was_blocking(log, remote, pr.head_ref_oid, pr.head_ref_name, #[trigger] left[k]),
    ensures
        reading::did(before, after, adopt_deeds(log, remote, pr)),
    decreases left.len(),
{
    broadcast use {
        crate::quiet::group_quiet,
        crate::reading::group_reading,
        crate::wording::group_wording,
    };

    let may = adopt_deeds(log, remote, pr);
    if left.len() > 0 {
        let n = before.len() as int;
        let warned = before.push(
            Event::Said(LineView::Warn(bookmarks::blocker_warning(left[0]))),
        );
        let mid = after.take(n + 2);
        assert(quiet::quiet(before, warned));
        assert(was_blocking(log, remote, pr.head_ref_oid, pr.head_ref_name, left[0]));
        if !dry_run {
            assert(follows_blocker(mid.last(), log, remote, pr.head_ref_oid, pr.head_ref_name));
            assert(reading::did(warned, mid, may));
        } else {
            assert(quiet::quiet(warned, mid));
        }
        assert(reading::did(before, mid, may));
        if bookmarks::jj_step(warned, mid, bookmarks::follow_args(remote, left[0].name), dry_run, Ok(()))
            && bookmarks::blockers_followed(mid, after, remote, left.drop_first(), dry_run, r) {
            assert forall|k: int| 0 <= k < left.drop_first().len() implies was_blocking(
                log,
                remote,
                pr.head_ref_oid,
                pr.head_ref_name,
                #[trigger] left.drop_first()[k],
            ) by {
                assert(left.drop_first()[k] == left[k + 1]);
            }
            lemma_blockers_followed(mid, after, log, remote, pr, left.drop_first(), dry_run, r);
            reading::lemma_did_trans(before, mid, after, may);
        } else {
            assert(mid =~= after);
        }
    }
}

/// The law of the blockers: what is followed so that a head commit can change is bookmarks of the
/// remote that nothing follows and that git told to stand on that commit, and nothing else is done.
pub proof fn law_only_blockers_are_followed(
    before: Seq<Event>,
    after: Seq<Event>,
    remote: Seq<char>,
    rev: Seq<char>,
    own: Seq<char>,
    dry_run: bool,
    r: Result<(), Seq<CauseView>>,
    pr: GhPrView,
)
    requires
        bookmarks::blockers_cleared(before, after, remote, rev, own, dry_run, r),
        pr.head_ref_oid == rev,
        pr.head_ref_name == own,
    ensures
        reading::did(before, after, adopt_deeds(after, remote, pr)),
{
    broadcast use {
        crate::quiet::group_quiet,
        crate::reading::group_reading,
        crate::asking::asks_blockers_searched,
    };

    let (mid, found) = choose|
        mid: Seq<Event>,
        found: Result<Seq<RemoteBookmarkView>, Seq<CauseView>>,
    |
        {
            &&& #[trigger] bookmarks::blockers_searched(before, mid, remote, rev, own, found)
            &&& match found {
                Err(e) => record::stopped(mid, after, e, r),
                Ok(blockers) => bookmarks::blockers_followed(
                    mid,
                    after,
                    remote,
                    blockers,
                    dry_run,
                    r,
                ),
            }
        };
    assert(quiet::quiet(before, mid));
    if found is Ok {
        let n = before.len() as int;
        let asked = mid.take(n + 1);
        let all = bookmarks::remote_list_result(record::reply_of(mid[n]))->Ok_0;
        let left = bookmarks::candidates(all, remote, own);
        assert forall|k: int| 0 <= k < left.len() implies bookmarks::is_candidate(
            #[trigger] left[k],
            remote,
            own,
        ) by {
            lemma_candidates(all, remote, own, k);
        }
        lemma_blockers_tested(asked, mid, remote, rev, own, left, seq![], found);
        let blockers = found->Ok_0;
        lemma_blockers_followed_extends(mid, after, remote, blockers, dry_run, r);
        assert forall|k: int| 0 <= k < blockers.len() implies was_blocking(after, remote, rev, own, #[trigger] blockers[k]) by {
            let i = choose|i: int| #[trigger] blocks(mid, i, remote, rev, own, blockers[k]);
            assert(after.take(mid.len() as int)[i] == mid[i]);
            assert(blocks(after, i, remote, rev, own, blockers[k]));
        }
        lemma_blockers_followed(mid, after, after, remote, pr, blockers, dry_run, r);
        reading::lemma_quiet_then_did(before, mid, after, adopt_deeds(after, remote, pr));
    }
}

proof fn lemma_blockers_followed_extends(
    before: Seq<Event>,
    after: Seq<Event>,
    remote: Seq<char>,
    left: Seq<RemoteBookmarkView>,
    dry_run: bool,
    r: Result<(), Seq<CauseView>>,
)
    requires
        bookmarks::blockers_followed(before, after, remote, left, dry_run, r),
    ensures
        record::extends(before, after),
{
}

proof fn lemma_deeds_kept(
    before: Seq<Event>,
    mid: Seq<Event>,
    after: Seq<Event>,
    remote: Seq<char>,
    pr: GhPrView,
)
    requires
        reading::did(before, mid, adopt_deeds(mid, remote, pr)),
        record::extends(mid, after),
    ensures
        reading::did(before, mid, adopt_deeds(after, remote, pr)),
{
    let might = adopt_deeds(after, remote, pr);
    assert forall|event: Event| adopt_deeds(mid, remote, pr)(event) implies #[trigger] might(
        event,
    ) by {
        if follows_blocker(event, mid, remote, pr.head_ref_oid, pr.head_ref_name) {
            let bookmark = choose|bookmark: RemoteBookmarkView|
                {
                    &&& #[trigger] was_blocking(
                        mid,
                        remote,
                        pr.head_ref_oid,
                        pr.head_ref_name,
                        bookmark,
                    )
                    &&& deed(event) == (Deed::TrackBookmark { remote, name: bookmark.name })
                };
            let i = choose|i: int| #[trigger]
                blocks(mid, i, remote, pr.head_ref_oid, pr.head_ref_name, bookmark);
            assert(after.take(mid.len() as int)[i] == mid[i]);
            assert(blocks(after, i, remote, pr.head_ref_oid, pr.head_ref_name, bookmark));
            assert(was_blocking(after, remote, pr.head_ref_oid, pr.head_ref_name, bookmark));
        }
    }
    reading::lemma_did_less(before, mid, adopt_deeds(mid, remote, pr), might);
}

proof fn lemma_adoption_closed(
    before: Seq<Event>,
    after: Seq<Event>,
    repo: Seq<char>,
    pr: GhPrView,
    diagnostics: Diagnostics,
    r: Result<u64, Seq<CauseView>>,
    remote: Seq<char>,
)
    requires
        unfreeze::adoption_closed(before, after, repo, pr, diagnostics, r),
    ensures
        reading::did(before, after, adopt_deeds(after, remote, pr)),
        r is Ok ==> r->Ok_0 == pr.number,
{
    broadcast use {
        crate::quiet::group_quiet,
        crate::reading::group_reading,
        crate::asking::lemma_phase_said,
    };

    let may = adopt_deeds(after, remote, pr);
    let start = before + ui::phase_said(diagnostics, "write-cache"@);
    let (mid, kept) = choose|mid: Seq<Event>, kept: Result<(), Seq<CauseView>>|
        {
            &&& #[trigger] unfreeze::adoption_remembered(
                start,
                mid,
                repo,
                pr,
                diagnostics.dry_run,
                kept,
            )
            &&& match kept {
                Err(e) => record::stopped(mid, after, e, r),
                Ok(_) => {
                    &&& after == mid.push(
                        Event::Said(LineView::Info(unfreeze::future_line(repo, pr))),
                    )
                    &&& r == Ok::<u64, Seq<CauseView>>(pr.number)
                },
            }
        };
    assert(quiet::quiet(before, start));
    assert(quiet::quiet(mid, after));
    if diagnostics.dry_run {
        assert(quiet::quiet(start, mid));
    } else {
        lemma_adoption_cached(start, mid, repo, pr, kept, may);
        reading::lemma_quiet_then_did(before, start, mid, may);
        reading::lemma_did_then_quiet(before, mid, after, may);
    }
}

proof fn lemma_adoption_cached(
    before: Seq<Event>,
    after: Seq<Event>,
    repo: Seq<char>,
    pr: GhPrView,
    r: Result<(), Seq<CauseView>>,
    may: spec_fn(Event) -> bool,
)
    requires
        unfreeze::adoption_cached(before, after, repo, pr, r),
        forall|event: Event| event is CacheWritten ==> #[trigger] may(event),
    ensures
        reading::did(before, after, may),
{
    broadcast use {
        crate::quiet::group_quiet,
        crate::reading::group_reading,
        crate::asking::asks_cache_opened,
        crate::asking::asks_stack_resolved,
    };

    let (mid, opened) = choose|
        mid: Seq<Event>,
        opened: Result<
            (Seq<char>, Map<(Seq<char>, Seq<char>), PrCacheEntryView>),
            Seq<CauseView>,
        >,
    |
        {
            &&& #[trigger] cache::cache_opened(before, mid, "write-cache"@, opened)
            &&& match opened {
                Err(e) => record::stopped(
                    mid,
                    after,
                    error::phase_failure("write-cache"@, "cache"@, e),
                    r,
                ),
                Ok((place, all)) => unfreeze::head_remembered(
                    mid,
                    after,
                    repo,
                    pr,
                    place,
                    all,
                    r,
                ),
            }
        };
    assert(quiet::quiet(before, mid));
    if opened is Ok {
        let (place, all) = opened->Ok_0;
        let (told, stack) = choose|
            told: Seq<Event>,
            stack: Result<Seq<ResolvedChangeView>, Seq<CauseView>>,
        |
            {
                &&& #[trigger] stack::stack_resolved(mid, told, pr.head_ref_oid, stack)
                &&& match unfreeze::adopted_change(pr, stack) {
                    Err(e) => record::stopped(told, after, e, r),
                    Ok(change) => {
                        &&& cache::cache_saved(
                            told,
                            after,
                            place,
                            all.insert((repo, change.change_id), pr::entry_of(pr, None)),
                            "write-cache"@,
                            after[told.len() as int]->written is Ok,
                        )
                        &&& r == Ok::<(), Seq<CauseView>>(())
                    },
                }
            };
        assert(quiet::quiet(mid, told));
        assert(quiet::quiet(before, told));
        if unfreeze::adopted_change(pr, stack) is Ok {
            let n = told.len() as int;
            let kept = after.take(n + 1);
            assert(kept =~= told.push(after[n]));
            assert(reading::did(told, kept, may)) by {
                reveal(reading::did);
            }
            assert(quiet::quiet(kept, after)) by {
                reveal(quiet::quiet);
            }
            reading::lemma_did_then_quiet(told, kept, after, may);
            reading::lemma_quiet_then_did(before, told, after, may);
        }
    }
}

proof fn lemma_adoption_verified(
    before: Seq<Event>,
    after: Seq<Event>,
    config: AppConfigView,
    repo: Seq<char>,
    pr: GhPrView,
    diagnostics: Diagnostics,
    r: Result<u64, Seq<CauseView>>,
)
    requires
        unfreeze::adoption_verified(before, after, config, repo, pr, diagnostics, r),
    ensures
        reading::did(before, after, adopt_deeds(after, config.remote, pr)),
        r is Ok ==> r->Ok_0 == pr.number,
        r is Ok && !diagnostics.dry_run ==> told_mutable(before.len() as int, after, pr),
{
    broadcast use {
        crate::quiet::group_quiet,
        crate::reading::group_reading,
        crate::wording::group_wording,
        crate::asking::lemma_phase_said,
        crate::asking::asks_mutability_verified,
    };

    let may = adopt_deeds(after, config.remote, pr);
    let start = before + ui::phase_said(diagnostics, "verify-mutable"@);
    assert(quiet::quiet(before, start));
    if diagnostics.dry_run {
        lemma_adoption_closed(start, after, repo, pr, diagnostics, r, config.remote);
        reading::lemma_quiet_then_did(before, start, after, may);
    } else {
        let (mid, verified) = choose|mid: Seq<Event>, verified: Result<(), Seq<CauseView>>|
            {
                &&& #[trigger] unfreeze::mutability_verified(
                    start,
                    mid,
                    config,
                    pr.head_ref_oid,
                    pr.number,
                    verified,
                )
                &&& match verified {
                    Err(e) => record::stopped(
                        mid,
                        after,
                        error::phase_failure("verify-mutable"@, pr.head_ref_oid, e),
                        r,
                    ),
                    Ok(_) => unfreeze::adoption_closed(mid, after, repo, pr, diagnostics, r),
                }
            };
        assert(quiet::quiet(start, mid));
        assert(quiet::quiet(before, mid));
        if verified is Ok {
            lemma_adoption_closed(mid, after, repo, pr, diagnostics, r, config.remote);
            reading::lemma_quiet_then_did(before, mid, after, may);
            assert(record::extends(mid, after)) by {
                reveal(reading::did);
            }
            let n = start.len() as int;
            assert(after.take(mid.len() as int)[n] == mid[n]);
            assert(unfreeze::mutable_result(pr.head_ref_oid, record::reply_of(mid[n])) is Ok);
            assert(deed(after[n]) == (Deed::ListCommits {
                revset: pr.head_ref_oid,
                shown: "immutable"@,
                bottom_first: false,
            }));
            assert(told_mutable(before.len() as int, after, pr));
        }
    }
}

proof fn lemma_adoption_thawed(
    before: Seq<Event>,
    after: Seq<Event>,
    config: AppConfigView,
    repo: Seq<char>,
    pr: GhPrView,
    present: bool,
    diagnostics: Diagnostics,
    r: Result<u64, Seq<CauseView>>,
)
    requires
        unfreeze::adoption_thawed(before, after, config, repo, pr, present, diagnostics, r),
    ensures
        reading::did(before, after, adopt_deeds(after, config.remote, pr)),
        r is Ok ==> r->Ok_0 == pr.number,
        r is Ok && !diagnostics.dry_run ==> told_mutable(before.len() as int, after, pr),
        r is Ok && !diagnostics.dry_run && present ==> was_thawed(before.len() as int, after, pr),
{
    broadcast use {
        crate::quiet::group_quiet,
        crate::reading::group_reading,
        crate::wording::group_wording,
        crate::asking::lemma_phase_said,
    };

    let may = adopt_deeds(after, config.remote, pr);
    let start = before + ui::phase_said(diagnostics, "remove-frozen"@);
    assert(quiet::quiet(before, start));
    if !present {
        lemma_adoption_verified(start, after, config, repo, pr, diagnostics, r);
        reading::lemma_quiet_then_did(before, start, after, may);
    } else {
        let (mid, removed) = choose|mid: Seq<Event>, removed: Result<(), Seq<CauseView>>|
            {
                &&& #[trigger] bookmarks::jj_step(
                    start,
                    mid,
                    bookmarks::delete_args(bookmarks::frozen_name(pr.number)),
                    diagnostics.dry_run,
                    removed,
                )
                &&& match removed {
                    Err(e) => record::stopped(
                        mid,
                        after,
                        error::phase_failure(
                            "remove-frozen"@,
                            bookmarks::frozen_name(pr.number),
                            e,
                        ),
                        r,
                    ),
                    Ok(_) => unfreeze::adoption_verified(
                        mid,
                        after,
                        config,
                        repo,
                        pr,
                        diagnostics,
                        r,
                    ),
                }
            };
        if diagnostics.dry_run {
            assert(quiet::quiet(start, mid));
            assert(quiet::quiet(before, mid));
        } else {
            assert(is_adopting(mid.last(), after, config.remote, pr));
            assert(reading::did(start, mid, may));
            reading::lemma_quiet_then_did(before, start, mid, may);
        }
        if removed is Ok {
            lemma_adoption_verified(mid, after, config, repo, pr, diagnostics, r);
            assert(record::extends(mid, after)) by {
                reveal(reading::did);
            }
            if diagnostics.dry_run {
                reading::lemma_quiet_then_did(before, mid, after, may);
            } else {
                reading::lemma_did_trans(before, mid, after, may);
                let n = mid.len() - 1;
                assert(after.take(mid.len() as int)[n] == mid[n]);
                assert(deed(after[n]) == (Deed::DeleteBookmark {
                    name: freezing::frozen_bookmark(pr),
                }));
            }
        }
    }
}

#[verifier::rlimit(40)]
proof fn lemma_adoption_followed(
    before: Seq<Event>,
    after: Seq<Event>,
    config: AppConfigView,
    repo: Seq<char>,
    pr: GhPrView,
    present: bool,
    diagnostics: Diagnostics,
    r: Result<u64, Seq<CauseView>>,
)
    requires
        unfreeze::adoption_followed(before, after, config, repo, pr, present, diagnostics, r),
    ensures
        reading::did(before, after, adopt_deeds(after, config.remote, pr)),
        r is Ok ==> r->Ok_0 == pr.number,
        r is Ok && !diagnostics.dry_run ==> told_mutable(before.len() as int, after, pr),
        r is Ok && !diagnostics.dry_run ==> head_was_followed(
            before.len() as int,
            after,
            config.remote,
            pr,
        ),
        r is Ok && !diagnostics.dry_run && present ==> was_thawed(before.len() as int, after, pr),
{
    broadcast use {
        crate::quiet::group_quiet,
        crate::reading::group_reading,
        crate::wording::group_wording,
        crate::asking::lemma_phase_said,
    };

    let may = adopt_deeds(after, config.remote, pr);
    let start = before + ui::phase_said(diagnostics, "track-branch"@);
    assert(quiet::quiet(before, start));
    let (mid, followed) = choose|mid: Seq<Event>, followed: Result<(), Seq<CauseView>>|
        {
            &&& #[trigger] bookmarks::jj_step(
                start,
                mid,
                bookmarks::follow_args(config.remote, pr.head_ref_name),
                diagnostics.dry_run,
                followed,
            )
            &&& match followed {
                Err(e) => record::stopped(
                    mid,
                    after,
                    error::phase_failure("track-branch"@, pr.head_ref_name, e),
                    r,
                ),
                Ok(_) => unfreeze::adoption_unblocked(
                    mid,
                    after,
                    config,
                    repo,
                    pr,
                    present,
                    diagnostics,
                    r,
                ),
            }
        };
    if diagnostics.dry_run {
        assert(quiet::quiet(start, mid));
        assert(quiet::quiet(before, mid));
        reading::lemma_quiet_did(before, mid, may);
    } else {
        assert(is_adopting(mid.last(), after, config.remote, pr));
        assert(reading::did(start, mid, may));
        reading::lemma_quiet_then_did(before, start, mid, may);
    }
    if followed is Ok {
        let told = mid + ui::phase_said(diagnostics, "track-blockers"@);
        assert(quiet::quiet(mid, told));
        let (free, cleared) = choose|free: Seq<Event>, cleared: Result<(), Seq<CauseView>>|
            {
                &&& #[trigger] bookmarks::blockers_cleared(
                    told,
                    free,
                    config.remote,
                    pr.head_ref_oid,
                    pr.head_ref_name,
                    diagnostics.dry_run,
                    cleared,
                )
                &&& match cleared {
                    Err(e) => record::stopped(
                        free,
                        after,
                        error::phase_failure("track-blockers"@, pr::hash(pr.number), e),
                        r,
                    ),
                    Ok(_) => unfreeze::adoption_thawed(
                        free,
                        after,
                        config,
                        repo,
                        pr,
                        present,
                        diagnostics,
                        r,
                    ),
                }
            };
        law_only_blockers_are_followed(
            told,
            free,
            config.remote,
            pr.head_ref_oid,
            pr.head_ref_name,
            diagnostics.dry_run,
            cleared,
            pr,
        );
        reading::lemma_did_then_quiet(before, mid, told, may);
        if cleared is Ok {
            lemma_adoption_thawed(free, after, config, repo, pr, present, diagnostics, r);
            assert(record::extends(free, after)) by {
                reveal(reading::did);
            }
            lemma_deeds_kept(told, free, after, config.remote, pr);
            reading::lemma_did_trans(before, told, free, may);
            reading::lemma_did_trans(before, free, after, may);
            assert(record::extends(mid, after)) by {
                assert(record::extends(told, free)) by {
                    reveal(reading::did);
                }
                record::lemma_extends_trans(mid, told, free);
                record::lemma_extends_trans(mid, free, after);
            }
            assert(free.len() >= before.len()) by {
                reveal(reading::did);
            }
            if !diagnostics.dry_run {
                let n = mid.len() - 1;
                assert(after.take(mid.len() as int)[n] == mid[n]);
                assert(deed(after[n]) == (Deed::TrackBookmark {
                    remote: config.remote,
                    name: pr.head_ref_name,
                }));
                assert(before.len() <= n) by {
                    reveal(quiet::quiet);
                }
            }
        } else {
            reading::lemma_did_trans(before, told, free, may);
        }
    }
}

proof fn lemma_adoption_fetched(
    before: Seq<Event>,
    after: Seq<Event>,
    config: AppConfigView,
    repo: Seq<char>,
    pr: GhPrView,
    present: bool,
    diagnostics: Diagnostics,
    r: Result<u64, Seq<CauseView>>,
)
    requires
        unfreeze::adoption_fetched(before, after, config, repo, pr, present, diagnostics, r),
    ensures
        reading::did(before, after, adopt_deeds(after, config.remote, pr)),
        r is Ok ==> r->Ok_0 == pr.number,
        r is Ok && !diagnostics.dry_run ==> told_mutable(before.len() as int, after, pr),
        r is Ok && !diagnostics.dry_run ==> head_was_followed(
            before.len() as int,
            after,
            config.remote,
            pr,
        ),
        r is Ok && !diagnostics.dry_run && present ==> was_thawed(before.len() as int, after, pr),
{
    broadcast use {
        crate::quiet::group_quiet,
        crate::reading::group_reading,
        crate::asking::lemma_phase_said,
    };

    let may = adopt_deeds(after, config.remote, pr);
    let start = before + ui::phase_said(diagnostics, "fetch-branch"@);
    assert(quiet::quiet(before, start));
    let (mid, fetched) = choose|mid: Seq<Event>, fetched: Result<(), Seq<CauseView>>|
        {
            &&& #[trigger] branches::branches_fetched(
                start,
                mid,
                config.remote,
                seq![pr],
                diagnostics.dry_run,
                fetched,
            )
            &&& match fetched {
                Err(e) => record::stopped(
                    mid,
                    after,
                    error::phase_failure("fetch-branch"@, pr.head_ref_name, e),
                    r,
                ),
                Ok(_) => unfreeze::adoption_followed(
                    mid,
                    after,
                    config,
                    repo,
                    pr,
                    present,
                    diagnostics,
                    r,
                ),
            }
        };
    freezing::lemma_branches_fetched(
        start,
        mid,
        config.remote,
        seq![pr],
        diagnostics.dry_run,
        fetched,
        may,
    );
    reading::lemma_quiet_then_did(before, start, mid, may);
    if fetched is Ok {
        lemma_adoption_followed(mid, after, config, repo, pr, present, diagnostics, r);
        reading::lemma_did_trans(before, mid, after, may);
        assert(mid.len() >= before.len()) by {
            reveal(reading::did);
        }
    }
}

proof fn lemma_frozen_named(list: Seq<FrozenBookmarkView>, name: Seq<char>)
    ensures
        match unfreeze::frozen_named(list, name) {
            Some(bookmark) => list.contains(bookmark) && bookmark.name == name,
            None => forall|k: int| 0 <= k < list.len() ==> (#[trigger] list[k]).name != name,
        },
    decreases list.len(),
{
    if list.len() > 0 {
        let rest = list.drop_first();
        if list[0].name == name {
            assert(list.contains(list[0]));
        } else {
            lemma_frozen_named(rest, name);
            match unfreeze::frozen_named(rest, name) {
                Some(bookmark) => {
                    let k = choose|k: int| 0 <= k < rest.len() && rest[k] == bookmark;
                    assert(list[k + 1] == bookmark);
                },
                None => {
                    assert forall|k: int| 0 <= k < list.len() implies (
                    #[trigger] list[k]).name != name by {
                        if k > 0 {
                            assert(rest[k - 1].name != name);
                        }
                    }
                },
            }
        }
    }
}

/// At `i` jj listed these frozen bookmarks.
pub open spec fn frozen_told(log: Seq<Event>, i: int, list: Seq<FrozenBookmarkView>) -> bool {
    &&& 0 <= i < log.len()
    &&& record::is_call(log[i], "jj"@, bookmarks::frozen_list_args())
    &&& bookmarks::frozen_list_result(record::reply_of(log[i])) == Ok::<
        Seq<FrozenBookmarkView>,
        Seq<CauseView>,
    >(list)
}

/// The frozen bookmark of the pull request is among these.
pub open spec fn held_frozen(list: Seq<FrozenBookmarkView>, pr: GhPrView) -> bool {
    exists|k: int|
        0 <= k < list.len() && (#[trigger] list[k]).name == freezing::frozen_bookmark(pr)
}

/// All that was changed adopts one pull request, and where it succeeded, it did so wholly.
pub open spec fn adopts(
    from: int,
    before: Seq<Event>,
    after: Seq<Event>,
    remote: Seq<char>,
    dry_run: bool,
    r: Result<u64, Seq<CauseView>>,
    pr: GhPrView,
) -> bool {
    &&& reading::did(before, after, adopt_deeds(after, remote, pr))
    &&& r is Ok ==> {
        &&& r->Ok_0 == pr.number
        &&& !dry_run ==> told_mutable(from, after, pr)
        &&& !dry_run ==> head_was_followed(from, after, remote, pr)
        &&& exists|i: int, list: Seq<FrozenBookmarkView>|
            {
                &&& from <= i
                &&& #[trigger] frozen_told(after, i, list)
                &&& held_frozen(list, pr) && !dry_run ==> was_thawed(from, after, pr)
            }
    }
}

proof fn lemma_adoption_listed(
    before: Seq<Event>,
    after: Seq<Event>,
    config: AppConfigView,
    repo: Seq<char>,
    pr: GhPrView,
    diagnostics: Diagnostics,
    r: Result<u64, Seq<CauseView>>,
)
    requires
        unfreeze::adoption_listed(before, after, config, repo, pr, diagnostics, r),
    ensures
        adopts(before.len() as int, before, after, config.remote, diagnostics.dry_run, r, pr),
{
    broadcast use {
        crate::quiet::group_quiet,
        crate::reading::group_reading,
        crate::asking::lemma_phase_said,
    };

    let may = adopt_deeds(after, config.remote, pr);
    let start = before + ui::phase_said(diagnostics, "validate-frozen"@);
    let mid = choose|mid: Seq<Event>|
        {
            &&& #[trigger] record::called(start, mid, "jj"@, bookmarks::frozen_list_args())
            &&& match bookmarks::frozen_list_result(record::last_reply(mid)) {
                Err(e) => record::stopped(
                    mid,
                    after,
                    error::phase_failure("validate-frozen"@, "frozen bookmarks"@, e),
                    r,
                ),
                Ok(list) => unfreeze::adoption_compared(
                    mid,
                    after,
                    config,
                    repo,
                    pr,
                    list,
                    diagnostics,
                    r,
                ),
            }
        };
    assert(quiet::quiet(before, start));
    assert(quiet::quiet(start, mid));
    assert(quiet::quiet(before, mid));
    if bookmarks::frozen_list_result(record::last_reply(mid)) is Ok {
        let list = bookmarks::frozen_list_result(record::last_reply(mid))->Ok_0;
        let name = bookmarks::frozen_name(pr.number);
        lemma_frozen_named(list, name);
        let i = mid.len() - 1;
        match unfreeze::frozen_named(list, name) {
            Some(bookmark) => {
                if bookmark.commit_id == pr.head_ref_oid {
                    lemma_adoption_fetched(mid, after, config, repo, pr, true, diagnostics, r);
                    reading::lemma_quiet_then_did(before, mid, after, may);
                    assert(record::extends(mid, after)) by {
                        reveal(reading::did);
                    }
                    assert(after.take(mid.len() as int)[i] == mid[i]);
                    assert(frozen_told(after, i, list));
                } else {
                    reading::lemma_quiet_did(before, after, may);
                }
            },
            None => {
                let warned = mid.push(
                    Event::Said(LineView::Warn(unfreeze::frozen_missing(pr))),
                );
                assert(quiet::quiet(mid, warned));
                assert(quiet::quiet(before, warned));
                lemma_adoption_fetched(warned, after, config, repo, pr, false, diagnostics, r);
                reading::lemma_quiet_then_did(before, warned, after, may);
                assert(record::extends(warned, after)) by {
                    reveal(reading::did);
                }
                record::lemma_extends_trans(mid, warned, after);
                assert(after.take(mid.len() as int)[i] == mid[i]);
                assert(frozen_told(after, i, list));
                assert(!held_frozen(list, pr));
            },
        }
        assert(before.len() <= i) by {
            reveal(quiet::quiet);
        }
    } else {
        reading::lemma_quiet_did(before, after, may);
    }
}

/// Whether an unfreeze read the pull request of its target, and adopted it.
pub open spec fn adopted_by(
    before: Seq<Event>,
    after: Seq<Event>,
    remote: Seq<char>,
    target: Seq<char>,
    dry_run: bool,
    r: Result<u64, Seq<CauseView>>,
    at: int,
    repo: Seq<char>,
    number: u64,
    pr: GhPrView,
) -> bool {
    &&& before.len() < at
    &&& targeting::reads_request(after, at, repo, number, pr)
    &&& text::parse_number(text::trim(target)) is Some ==> number == text::parse_number(
        text::trim(target),
    )->Some_0
    &&& pr::is_open(pr.state)
    &&& adopts(at, before, after, remote, dry_run, r, pr)
}

/// Whether the pull request of a target was read, and adopted.
spec fn adopted_as(
    before: Seq<Event>,
    after: Seq<Event>,
    remote: Seq<char>,
    meaning: GetTargetView,
    dry_run: bool,
    r: Result<u64, Seq<CauseView>>,
    at: int,
    repo: Seq<char>,
    number: u64,
    pr: GhPrView,
) -> bool {
    &&& before.len() < at
    &&& targeting::reads_request(after, at, repo, number, pr)
    &&& meaning is PullRequest ==> number == meaning->number
    &&& pr::is_open(pr.state)
    &&& adopts(at, before, after, remote, dry_run, r, pr)
}

proof fn lemma_adoption_permitted(
    before: Seq<Event>,
    after: Seq<Event>,
    config: AppConfigView,
    github: GitHubContextView,
    pr: GhPrView,
    diagnostics: Diagnostics,
    r: Result<u64, Seq<CauseView>>,
)
    requires
        unfreeze::adoption_permitted(before, after, config, github, pr, diagnostics, r),
        before.len() > 0,
    ensures
        adopts(before.len() - 1, before, after, config.remote, diagnostics.dry_run, r, pr),
{
    broadcast use {crate::quiet::group_quiet, crate::reading::group_reading};

    let asked = choose|asked: Seq<Event>|
        {
            &&& #[trigger] record::called(
                before,
                asked,
                "gh"@,
                unfreeze::permission_args(github.repo),
            )
            &&& match unfreeze::permission_result(github, record::last_reply(asked)) {
                Err(e) => record::stopped(
                    asked,
                    after,
                    error::phase_failure("resolve-target"@, github.repo, e),
                    r,
                ),
                Ok(_) => unfreeze::adoption_listed(
                    asked,
                    after,
                    config,
                    github.repo,
                    pr,
                    diagnostics,
                    r,
                ),
            }
        };
    quiet::lemma_repo_path(github.repo);
    assert(quiet::quiet(before, asked));
    let may = adopt_deeds(after, config.remote, pr);
    if unfreeze::permission_result(github, record::last_reply(asked)) is Ok {
        lemma_adoption_listed(asked, after, config, github.repo, pr, diagnostics, r);
        reading::lemma_quiet_then_did(before, asked, after, may);
    } else {
        reading::lemma_quiet_did(before, after, may);
    }
}

proof fn lemma_adoption_targeted(
    before: Seq<Event>,
    mid: Seq<Event>,
    after: Seq<Event>,
    config: AppConfigView,
    github: GitHubContextView,
    meaning: GetTargetView,
    diagnostics: Diagnostics,
    r: Result<u64, Seq<CauseView>>,
)
    requires
        unfreeze::adoption_targeted(mid, after, config, github, meaning, diagnostics, r),
        quiet::quiet(before, mid),
        r is Ok || !quiet::quiet(before, after),
    ensures
        exists|at: int, number: u64, pr: GhPrView| #[trigger]
            adopted_as(
                before,
                after,
                config.remote,
                meaning,
                diagnostics.dry_run,
                r,
                at,
                github.repo,
                number,
                pr,
            ),
{
    broadcast use {
        crate::quiet::group_quiet,
        crate::asking::lemma_phase_said,
        crate::asking::asks_target_resolved,
    };

    let start = mid + ui::phase_said(diagnostics, "resolve-target"@);
    assert(quiet::quiet(mid, start));
    let (told, found) = choose|told: Seq<Event>, found: Result<GhPrView, Seq<CauseView>>|
        {
            &&& #[trigger] pr::target_resolved(start, told, github.repo, meaning, "get"@, found)
            &&& match found {
                Err(e) => record::stopped(
                    told,
                    after,
                    error::phase_failure("resolve-target"@, "unfreeze target"@, e),
                    r,
                ),
                Ok(pr) => match unfreeze::unfreeze_fault(config, github, pr) {
                    Some(e) => record::stopped(
                        told,
                        after,
                        error::phase_failure("resolve-target"@, pr::hash(pr.number), e),
                        r,
                    ),
                    None => unfreeze::adoption_permitted(
                        told,
                        after,
                        config,
                        github,
                        pr,
                        diagnostics,
                        r,
                    ),
                },
            }
        };
    assert(quiet::quiet(start, told));
    assert(quiet::quiet(before, start));
    assert(quiet::quiet(before, told));
    let pr = found->Ok_0;
    let number = targeting::law_target_reads_its_request(
        start,
        told,
        github.repo,
        meaning,
        "get"@,
        pr,
    );
    lemma_adoption_permitted(told, after, config, github, pr, diagnostics, r);
    let may = adopt_deeds(after, config.remote, pr);
    reading::lemma_quiet_then_did(before, told, after, may);
    let at = told.len() - 1;
    assert(record::extends(told, after)) by {
        reveal(reading::did);
    }
    assert(after.take(told.len() as int)[at] == told[at]);
    assert(after.take(told.len() as int)[at - 1] == told[at - 1]);
    assert(before.len() < at) by {
        reveal(quiet::quiet);
    }
    assert(adopted_as(
        before,
        after,
        config.remote,
        meaning,
        diagnostics.dry_run,
        r,
        at,
        github.repo,
        number,
        pr,
    ));
}

/// The law of the unfreeze: an unfreeze that changes anything, or that succeeds, read the open pull
/// request of its target. All that it changes is then that the head branch of the request is fetched
/// and followed, that bookmarks standing on the head commit are followed, that the frozen bookmark of
/// the request goes, and what is remembered. Where it succeeds, the head branch was followed, jj told
/// that the head commit may change, and the frozen bookmark, where there was one, is gone.
pub proof fn law_unfreeze_adopts_its_request(
    before: Seq<Event>,
    after: Seq<Event>,
    config: AppConfigView,
    target: Seq<char>,
    diagnostics: Diagnostics,
    r: Result<u64, Seq<CauseView>>,
)
    requires
        unfreeze::stack_unfrozen(before, after, config, target, diagnostics, r),
        r is Ok || !quiet::quiet(before, after),
    ensures
        exists|at: int, repo: Seq<char>, number: u64, pr: GhPrView| #[trigger]
            adopted_by(
                before,
                after,
                config.remote,
                target,
                diagnostics.dry_run,
                r,
                at,
                repo,
                number,
                pr,
            ),
{
    broadcast use {
        crate::quiet::group_quiet,
        crate::reading::group_reading,
        crate::asking::lemma_phase_said,
        crate::asking::asks_target_opened,
        crate::asking::asks_target_resolved,
    };

    let (mid, opened) = choose|
        mid: Seq<Event>,
        opened: Result<(GitHubContextView, GetTargetView), Seq<CauseView>>,
    |
        {
            &&& #[trigger] get::target_opened(before, mid, target, diagnostics, opened)
            &&& match opened {
                Err(e) => record::stopped(mid, after, e, r),
                Ok((github, meaning)) => unfreeze::adoption_targeted(
                    mid,
                    after,
                    config,
                    github,
                    meaning,
                    diagnostics,
                    r,
                ),
            }
        };
    assert(quiet::quiet(before, mid));
    let (github, meaning) = opened->Ok_0;
    lemma_adoption_targeted(before, mid, after, config, github, meaning, diagnostics, r);
    let (at, number, pr) = choose|at: int, number: u64, pr: GhPrView| #[trigger]
        adopted_as(
            before,
            after,
            config.remote,
            meaning,
            diagnostics.dry_run,
            r,
            at,
            github.repo,
            number,
            pr,
        );
    assert(adopted_by(
        before,
        after,
        config.remote,
        target,
        diagnostics.dry_run,
        r,
        at,
        github.repo,
        number,
        pr,
    ));
}

} // verus!
