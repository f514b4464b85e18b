//! What a get does to the repository, and how a stack is frozen.

use vstd::prelude::*;

use crate::bookmarks;
use crate::branches;
use crate::cache;
use crate::error::CauseView;
use crate::get;
use crate::get::GetSummary;
use crate::model::{
    AppConfigView, Diagnostics, GhPrView, GitHubContextView, PrCacheEntryView, ResolvedChangeView,
};
use crate::output;
use crate::pr;
use crate::pr::GetTargetView;
use crate::quiet;
use crate::reading;
use crate::reading::{Deed, deed};
use crate::record;
use crate::record::Event;
use crate::text;
use crate::ui;

verus! {

broadcast use crate::record::group_record;

/// The name of the frozen bookmark of a pull request.
pub open spec fn frozen_bookmark(pr: GhPrView) -> Seq<char> {
    "forklift/frozen/pr-"@ + text::decimal(pr.number as nat)
}

/// The frozen bookmark of a pull request is put at its head commit.
pub open spec fn freezes(event: Event, pr: GhPrView) -> bool {
    deed(event) == (Deed::SetBookmark {
        name: frozen_bookmark(pr),
        at: pr.head_ref_oid,
        backwards: false,
    })
}

/// The frozen bookmark of one of these pull requests is put at its head commit.
pub open spec fn freezes_one(event: Event, prs: Seq<GhPrView>) -> bool {
    exists|pr: GhPrView| prs.contains(pr) && #[trigger] freezes(event, pr)
}

/// The head branches of these pull requests, and no others, are fetched.
pub open spec fn fetches_heads(event: Event, remote: Seq<char>, prs: Seq<GhPrView>) -> bool {
    deed(event) == (Deed::Fetch {
        remote,
        branches: Seq::new(prs.len(), |i: int| prs[i].head_ref_name),
    })
}

/// Whether a pull request was frozen in `from..`.
pub open spec fn was_frozen(from: int, log: Seq<Event>, pr: GhPrView) -> bool {
    exists|i: int| from <= i < log.len() && #[trigger] freezes(log[i], pr)
}

pub open spec fn freeze_deeds(prs: Seq<GhPrView>) -> spec_fn(Event) -> bool {
    |event: Event| freezes_one(event, prs)
}

proof fn lemma_frozen_set(
    before: Seq<Event>,
    after: Seq<Event>,
    left: Seq<GhPrView>,
    prs: Seq<GhPrView>,
    r: Result<(), Seq<CauseView>>,
)
    requires
        bookmarks::frozen_set(before, after, left, r),
        forall|k: int| 0 <= k < left.len() ==> prs.contains(#[trigger] left[k]),
    ensures
        record::extends(before, after),
        reading::did(before, after, freeze_deeds(prs)),
        r is Ok ==> forall|k: int|
            0 <= k < left.len() ==> was_frozen(before.len() as int, after, #[trigger] left[k]),
    decreases left.len(),
{
    broadcast use {
        crate::quiet::group_quiet,
        crate::reading::group_reading,
        crate::wording::group_wording,
    };

    let may = freeze_deeds(prs);
    if left.len() > 0 {
        let n = before.len() as int;
        let first = left[0];
        let mid = after.take(n + 1);
        assert(freezes(after[n], first));
        assert(reading::did(before, mid, may)) by {
            reveal(reading::did);
            assert(mid.take(n) =~= before);
            assert forall|i: int| n <= i < mid.len() implies may(#[trigger] mid[i]) by {
                assert(mid[i] == after[n]);
            }
        }
        if output::checked("jj"@, bookmarks::set_frozen_args(first), record::reply_of(after[n])) is Ok {
            let rest = left.drop_first();
            assert forall|k: int| 0 <= k < rest.len() implies prs.contains(#[trigger] rest[k]) by {
                assert(rest[k] == left[k + 1]);
            }
            lemma_frozen_set(mid, after, rest, prs, r);
            reading::lemma_did_trans(before, mid, after, may);
            if r is Ok {
                assert forall|k: int| 0 <= k < left.len() implies was_frozen(
                    n,
                    after,
                    #[trigger] left[k],
                ) by {
                    if k > 0 {
                        assert(left[k] == rest[k - 1]);
                        assert(was_frozen(mid.len() as int, after, rest[k - 1]));
                    }
                }
            }
        }
    }
}

/// The law of freezing: nothing is changed but that the frozen bookmark of each pull request is put at
/// the head commit of that pull request; where it succeeds, that was done for each.
pub proof fn law_freezing_holds_the_heads(
    before: Seq<Event>,
    after: Seq<Event>,
    prs: Seq<GhPrView>,
    dry_run: bool,
    r: Result<(), Seq<CauseView>>,
)
    requires
        bookmarks::frozen_updated(before, after, prs, dry_run, r),
    ensures
        record::extends(before, after),
        reading::did(before, after, freeze_deeds(prs)),
        r is Ok && !dry_run ==> forall|pr: GhPrView|
            prs.contains(pr) ==> #[trigger] was_frozen(before.len() as int, after, pr),
{
    broadcast use {
        crate::quiet::group_quiet,
        crate::reading::group_reading,
        crate::asking::asks_rewrites_tested,
        crate::asking::lemma_frozen_plan,
    };

    let may = freeze_deeds(prs);
    if !dry_run {
        let n = before.len() as int;
        let listed = after.take(n + 1);
        assert(record::called(before, listed, "jj"@, bookmarks::frozen_list_args())) by {
            assert(listed.drop_last() =~= before);
        }
        assert(quiet::quiet(before, listed));
        match bookmarks::frozen_list_result(record::reply_of(after[n])) {
            Err(e) => {},
            Ok(list) => {
                let (mid, tested) = choose|mid: Seq<Event>, tested: Result<(), Seq<CauseView>>|
                    {
                        &&& #[trigger] bookmarks::rewrites_tested(listed, mid, list, prs, tested)
                        &&& match tested {
                            Err(e) => record::stopped(mid, after, e, r),
                            Ok(_) => bookmarks::frozen_set(mid, after, prs, r),
                        }
                    };
                assert(quiet::quiet(listed, mid));
                assert(quiet::quiet(before, mid));
                reveal(quiet::quiet);
                if tested is Ok {
                    assert forall|k: int| 0 <= k < prs.len() implies prs.contains(#[trigger] prs[k]) by {}
                    lemma_frozen_set(mid, after, prs, prs, r);
                    reading::lemma_quiet_then_did(before, mid, after, may);
                    if r is Ok {
                        assert forall|pr: GhPrView| prs.contains(pr) implies #[trigger] was_frozen(
                            n,
                            after,
                            pr,
                        ) by {
                            let k = choose|k: int| 0 <= k < prs.len() && prs[k] == pr;
                            assert(was_frozen(mid.len() as int, after, prs[k]));
                        }
                    }
                }
            },
        }
    }
}

/// All that a get may do for a stack of pull requests: fetch their head branches, freeze them, remember
/// them, and begin a change on the frozen bookmark of the topmost.
pub open spec fn is_got(event: Event, remote: Seq<char>, prs: Seq<GhPrView>) -> bool {
    ||| event is CacheWritten
    ||| fetches_heads(event, remote, prs)
    ||| freezes_one(event, prs)
    ||| deed(event) == (Deed::NewChange { on: frozen_bookmark(prs.last()) })
}

pub open spec fn get_deeds(remote: Seq<char>, prs: Seq<GhPrView>) -> spec_fn(Event) -> bool {
    |event: Event| is_got(event, remote, prs)
}

pub proof fn lemma_branches_fetched(
    before: Seq<Event>,
    after: Seq<Event>,
    remote: Seq<char>,
    prs: Seq<GhPrView>,
    dry_run: bool,
    r: Result<(), Seq<CauseView>>,
    may: spec_fn(Event) -> bool,
)
    requires
        branches::branches_fetched(before, after, remote, prs, dry_run, r),
        forall|event: Event| fetches_heads(event, remote, prs) ==> #[trigger] may(event),
    ensures
        reading::did(before, after, may),
{
    broadcast use {
        crate::quiet::group_quiet,
        crate::reading::group_reading,
        crate::wording::group_wording,
    };

    if !dry_run {
        assert(fetches_heads(after.last(), remote, prs));
        assert(may(after.last()));
    }
}

proof fn lemma_cache_saved(
    before: Seq<Event>,
    after: Seq<Event>,
    path: Seq<char>,
    all: Map<(Seq<char>, Seq<char>), PrCacheEntryView>,
    phase: Seq<char>,
    r: bool,
    may: spec_fn(Event) -> bool,
)
    requires
        cache::cache_saved(before, after, path, all, phase, r),
        forall|event: Event| event is CacheWritten ==> #[trigger] may(event),
    ensures
        reading::did(before, after, may),
{
    reveal(reading::did);
    let n = before.len() as int;
    let tail = ui::failure_logged(cache::unwritten_cache(phase, path), after[n]->written);
    assert forall|i: int| n <= i < after.len() implies quiet::harmless(#[trigger] after[i]) || may(
        after[i],
    ) by {
        if i > n {
            assert(after == after.take(n + 1) + tail);
            assert(after[i] == tail[i - n - 1]);
        } else {
            assert(may(after[n]));
        }
    }
}

broadcast proof fn got_prs_remembered(
    before: Seq<Event>,
    after: Seq<Event>,
    repo: Seq<char>,
    prs: Seq<GhPrView>,
    changes: Seq<ResolvedChangeView>,
    r: Result<usize, Seq<CauseView>>,
    remote: Seq<char>,
    shown: Seq<GhPrView>,
)
    requires
        #[trigger] get::prs_remembered(before, after, repo, prs, changes, r),
    ensures
        #[trigger] reading::did(before, after, get_deeds(remote, shown)),
{
    broadcast use {
        crate::quiet::group_quiet,
        crate::reading::group_reading,
        crate::asking::asks_cache_opened,
    };

    let may = get_deeds(remote, shown);
    let (mid, opened) = choose|
        mid: Seq<Event>,
        opened: Result<
            (Seq<char>, Map<(Seq<char>, Seq<char>), PrCacheEntryView>),
            Seq<CauseView>,
        >,
    |
        {
            &&& #[trigger] cache::cache_opened(before, mid, "write-cache"@, opened)
            &&& match opened {
                Err(e) => record::stopped(
                    mid,
                    after,
                    crate::error::phase_failure("write-cache"@, "cache"@, e),
                    r,
                ),
                Ok((place, all)) => {
                    &&& r is Ok
                    &&& r->Ok_0 == prs.len() || r->Ok_0 == 0
                    &&& cache::cache_saved(
                        mid,
                        after,
                        place,
                        get::with_prs(all, repo, prs, changes),
                        "write-cache"@,
                        after[mid.len() as int]->written is Ok,
                    )
                    &&& r->Ok_0 == if after[mid.len() as int]->written is Ok {
                        prs.len()
                    } else {
                        0
                    }
                },
            }
        };
    assert(quiet::quiet(before, mid));
    if opened is Ok {
        let (place, all) = opened->Ok_0;
        lemma_cache_saved(
            mid,
            after,
            place,
            get::with_prs(all, repo, prs, changes),
            "write-cache"@,
            after[mid.len() as int]->written is Ok,
            may,
        );
        reading::lemma_quiet_then_did(before, mid, after, may);
    }
}

broadcast proof fn got_stack_edited(
    before: Seq<Event>,
    after: Seq<Event>,
    prs: Seq<GhPrView>,
    auto_edit: bool,
    diagnostics: Diagnostics,
    r: Result<bool, Seq<CauseView>>,
    remote: Seq<char>,
)
    requires
        #[trigger] get::stack_edited(
            before,
            after,
            bookmarks::frozen_name(prs.last().number),
            auto_edit,
            diagnostics,
            r,
        ),
    ensures
        #[trigger] reading::did(before, after, get_deeds(remote, prs)),
        auto_edit ==> deed(after.last()) == (Deed::NewChange { on: frozen_bookmark(prs.last()) }),
{
    broadcast use {
        crate::quiet::group_quiet,
        crate::reading::group_reading,
        crate::wording::group_wording,
        crate::asking::lemma_phase_said,
    };

    if auto_edit {
        let start = before + ui::phase_said(diagnostics, "edit-stack"@);
        assert(quiet::quiet(before, start));
        assert(is_got(after.last(), remote, prs));
        assert(reading::did(start, after, get_deeds(remote, prs)));
    }
}

broadcast proof fn got_get_edited(
    before: Seq<Event>,
    after: Seq<Event>,
    prs: Seq<GhPrView>,
    kept: usize,
    auto_edit: bool,
    diagnostics: Diagnostics,
    r: Result<GetSummary, Seq<CauseView>>,
    remote: Seq<char>,
)
    requires
        #[trigger] get::get_edited(before, after, prs, kept, auto_edit, diagnostics, r),
    ensures
        #[trigger] reading::did(before, after, get_deeds(remote, prs)),
{
    broadcast use got_stack_edited;

}

broadcast proof fn got_get_finished(
    before: Seq<Event>,
    after: Seq<Event>,
    repo: Seq<char>,
    prs: Seq<GhPrView>,
    changes: Seq<ResolvedChangeView>,
    auto_edit: bool,
    diagnostics: Diagnostics,
    r: Result<GetSummary, Seq<CauseView>>,
    remote: Seq<char>,
)
    requires
        #[trigger] get::get_finished(before, after, repo, prs, changes, auto_edit, diagnostics, r),
    ensures
        #[trigger] reading::did(before, after, get_deeds(remote, prs)),
{
    broadcast use {
        crate::quiet::group_quiet,
        crate::reading::group_reading,
        crate::asking::lemma_phase_said,
    };

    let may = get_deeds(remote, prs);
    let start = before + ui::phase_said(diagnostics, "write-cache"@);
    let (mid, kept) = choose|mid: Seq<Event>, kept: Result<usize, Seq<CauseView>>|
        {
            &&& #[trigger] get::prs_remembered(start, mid, repo, prs, changes, kept)
            &&& match kept {
                Err(e) => record::stopped(mid, after, e, r),
                Ok(kept) => get::get_edited(mid, after, prs, kept, auto_edit, diagnostics, r),
            }
        };
    assert(quiet::quiet(before, start));
    got_prs_remembered(start, mid, repo, prs, changes, kept, remote, prs);
    if kept is Ok {
        got_get_edited(mid, after, prs, kept->Ok_0, auto_edit, diagnostics, r, remote);
        reading::lemma_did_trans(start, mid, after, may);
    }
}

broadcast proof fn got_get_frozen(
    before: Seq<Event>,
    after: Seq<Event>,
    repo: Seq<char>,
    prs: Seq<GhPrView>,
    changes: Seq<ResolvedChangeView>,
    auto_edit: bool,
    diagnostics: Diagnostics,
    r: Result<GetSummary, Seq<CauseView>>,
    remote: Seq<char>,
)
    requires
        #[trigger] get::get_frozen(before, after, repo, prs, changes, auto_edit, diagnostics, r),
    ensures
        #[trigger] reading::did(before, after, get_deeds(remote, prs)),
{
    broadcast use {
        crate::quiet::group_quiet,
        crate::reading::group_reading,
        crate::asking::lemma_phase_said,
    };

    let may = get_deeds(remote, prs);
    let start = before + ui::phase_said(diagnostics, "freeze-stack"@);
    let (mid, frozen) = choose|mid: Seq<Event>, frozen: Result<(), Seq<CauseView>>|
        {
            &&& #[trigger] bookmarks::frozen_updated(start, mid, prs, diagnostics.dry_run, frozen)
            &&& match frozen {
                Err(e) => record::stopped(
                    mid,
                    after,
                    crate::error::phase_failure("freeze-stack"@, "frozen bookmarks"@, e),
                    r,
                ),
                Ok(_) => get::get_finished(
                    mid,
                    after,
                    repo,
                    prs,
                    changes,
                    auto_edit,
                    diagnostics,
                    r,
                ),
            }
        };
    assert(quiet::quiet(before, start));
    law_freezing_holds_the_heads(start, mid, prs, diagnostics.dry_run, frozen);
    reading::lemma_did_less(start, mid, freeze_deeds(prs), may);
    if frozen is Ok {
        got_get_finished(mid, after, repo, prs, changes, auto_edit, diagnostics, r, remote);
        reading::lemma_did_trans(start, mid, after, may);
    }
}

broadcast proof fn got_get_resolved(
    before: Seq<Event>,
    after: Seq<Event>,
    repo: Seq<char>,
    prs: Seq<GhPrView>,
    auto_edit: bool,
    diagnostics: Diagnostics,
    r: Result<GetSummary, Seq<CauseView>>,
    remote: Seq<char>,
)
    requires
        #[trigger] get::get_resolved(before, after, repo, prs, auto_edit, diagnostics, r),
    ensures
        #[trigger] reading::did(before, after, get_deeds(remote, prs)),
{
    broadcast use {
        crate::quiet::group_quiet,
        crate::reading::group_reading,
        crate::asking::lemma_phase_said,
        crate::asking::asks_heads_resolved,
    };

    let start = before + ui::phase_said(diagnostics, "resolve-fetched-heads"@);
    let (mid, changes) = choose|
        mid: Seq<Event>,
        changes: Result<Seq<ResolvedChangeView>, Seq<CauseView>>,
    |
        {
            &&& #[trigger] get::all_heads_resolved(start, mid, prs, changes)
            &&& match changes {
                Err(e) => record::stopped(
                    mid,
                    after,
                    crate::error::phase_failure("resolve-fetched-heads"@, "fetched PR heads"@, e),
                    r,
                ),
                Ok(changes) => get::get_frozen(
                    mid,
                    after,
                    repo,
                    prs,
                    changes,
                    auto_edit,
                    diagnostics,
                    r,
                ),
            }
        };
    assert(quiet::quiet(before, start));
    assert(quiet::quiet(start, mid));
    if changes is Ok {
        got_get_frozen(mid, after, repo, prs, changes->Ok_0, auto_edit, diagnostics, r, remote);
    }
}

proof fn lemma_get_fetched(
    before: Seq<Event>,
    after: Seq<Event>,
    config: AppConfigView,
    repo: Seq<char>,
    prs: Seq<GhPrView>,
    auto_edit: bool,
    diagnostics: Diagnostics,
    r: Result<GetSummary, Seq<CauseView>>,
)
    requires
        get::get_fetched(before, after, config, repo, prs, auto_edit, diagnostics, r),
    ensures
        reading::did(before, after, get_deeds(config.remote, prs)),
{
    broadcast use {
        crate::quiet::group_quiet,
        crate::reading::group_reading,
        crate::asking::lemma_phase_said,
        crate::asking::asks_get_planned,
    };

    let may = get_deeds(config.remote, prs);
    let start = before + ui::phase_said(diagnostics, "fetch-stack"@);
    let (mid, fetched) = choose|mid: Seq<Event>, fetched: Result<(), Seq<CauseView>>|
        {
            &&& #[trigger] branches::branches_fetched(
                start,
                mid,
                config.remote,
                prs,
                diagnostics.dry_run,
                fetched,
            )
            &&& match fetched {
                Err(e) => record::stopped(mid, after, e, r),
                Ok(_) => if diagnostics.dry_run {
                    get::get_planned(mid, after, prs, auto_edit, r)
                } else {
                    get::get_resolved(mid, after, repo, prs, auto_edit, diagnostics, r)
                },
            }
        };
    assert(quiet::quiet(before, start));
    lemma_branches_fetched(start, mid, config.remote, prs, diagnostics.dry_run, fetched, may);
    if fetched is Ok {
        if diagnostics.dry_run {
            assert(quiet::quiet(mid, after));
        } else {
            got_get_resolved(mid, after, repo, prs, auto_edit, diagnostics, r, config.remote);
            reading::lemma_did_trans(start, mid, after, may);
        }
    }
}

/// Whether all that was changed belongs to one accepted row of pull requests.
pub open spec fn got_by(
    before: Seq<Event>,
    after: Seq<Event>,
    config: AppConfigView,
    github: GitHubContextView,
    target: u64,
    prs: Seq<GhPrView>,
) -> bool {
    &&& pr::pr_stack_fault(config, github, target, prs) is None
    &&& reading::did(before, after, get_deeds(config.remote, prs))
}

#[verifier::opaque]
pub open spec fn got(before: Seq<Event>, after: Seq<Event>, config: AppConfigView) -> bool {
    ||| quiet::quiet(before, after)
    ||| exists|github: GitHubContextView, target: u64, prs: Seq<GhPrView>|
        #[trigger] got_by(before, after, config, github, target, prs)
}

broadcast proof fn lemma_quiet_got(before: Seq<Event>, after: Seq<Event>, config: AppConfigView)
    requires
        quiet::quiet(before, after),
    ensures
        #[trigger] got(before, after, config),
{
    reveal(got);
}

broadcast proof fn lemma_quiet_then_got(
    a: Seq<Event>,
    b: Seq<Event>,
    c: Seq<Event>,
    config: AppConfigView,
)
    requires
        #[trigger] quiet::quiet(a, b),
        #[trigger] got(b, c, config),
    ensures
        got(a, c, config),
{
    broadcast use {crate::quiet::group_quiet, crate::reading::group_reading};

    reveal(got);
    if !quiet::quiet(b, c) {
        let (github, target, prs) = choose|
            github: GitHubContextView,
            target: u64,
            prs: Seq<GhPrView>,
        |
            #[trigger] got_by(b, c, config, github, target, prs);
        assert(got_by(a, c, config, github, target, prs));
    }
}

broadcast proof fn got_get_fetched(
    before: Seq<Event>,
    after: Seq<Event>,
    config: AppConfigView,
    github: GitHubContextView,
    target: u64,
    prs: Seq<GhPrView>,
    auto_edit: bool,
    diagnostics: Diagnostics,
    r: Result<GetSummary, Seq<CauseView>>,
)
    requires
        #[trigger] get::get_fetched(before, after, config, github.repo, prs, auto_edit, diagnostics, r),
        #[trigger] pr::pr_stack_fault(config, github, target, prs) is None,
    ensures
        got(before, after, config),
{
    lemma_get_fetched(before, after, config, github.repo, prs, auto_edit, diagnostics, r);
    assert(got_by(before, after, config, github, target, prs));
    reveal(got);
}

broadcast proof fn got_get_listed(
    before: Seq<Event>,
    after: Seq<Event>,
    config: AppConfigView,
    github: GitHubContextView,
    target: u64,
    numbers: Seq<u64>,
    auto_edit: bool,
    diagnostics: Diagnostics,
    r: Result<GetSummary, Seq<CauseView>>,
)
    requires
        #[trigger] get::get_listed(before, after, config, github, target, numbers, auto_edit, diagnostics, r),
    ensures
        got(before, after, config),
{
    broadcast use {
        crate::quiet::group_quiet,
        lemma_quiet_got,
        lemma_quiet_then_got,
        crate::asking::lemma_phase_said,
        crate::asking::asks_prs_fetched,
        got_get_fetched,
    };

}

broadcast proof fn got_get_commented(
    before: Seq<Event>,
    after: Seq<Event>,
    config: AppConfigView,
    github: GitHubContextView,
    target: u64,
    auto_edit: bool,
    diagnostics: Diagnostics,
    r: Result<GetSummary, Seq<CauseView>>,
)
    requires
        #[trigger] get::get_commented(before, after, config, github, target, auto_edit, diagnostics, r),
    ensures
        got(before, after, config),
{
    broadcast use {
        crate::quiet::group_quiet,
        lemma_quiet_got,
        lemma_quiet_then_got,
        crate::asking::asks_latest_comment_found,
        got_get_listed,
    };

}

broadcast proof fn got_get_targeted(
    before: Seq<Event>,
    after: Seq<Event>,
    config: AppConfigView,
    github: GitHubContextView,
    target: GetTargetView,
    auto_edit: bool,
    diagnostics: Diagnostics,
    r: Result<GetSummary, Seq<CauseView>>,
)
    requires
        #[trigger] get::get_targeted(before, after, config, github, target, auto_edit, diagnostics, r),
    ensures
        got(before, after, config),
{
    broadcast use {
        crate::quiet::group_quiet,
        lemma_quiet_got,
        lemma_quiet_then_got,
        crate::asking::lemma_phase_said,
        crate::asking::asks_target_resolved,
        got_get_commented,
    };

}

broadcast proof fn got_stack_got(
    before: Seq<Event>,
    after: Seq<Event>,
    config: AppConfigView,
    target: Seq<char>,
    auto_edit: bool,
    diagnostics: Diagnostics,
    r: Result<GetSummary, Seq<CauseView>>,
)
    requires
        #[trigger] get::stack_got(before, after, config, target, auto_edit, diagnostics, r),
    ensures
        got(before, after, config),
{
    broadcast use {
        crate::quiet::group_quiet,
        lemma_quiet_got,
        lemma_quiet_then_got,
        crate::asking::asks_target_opened,
        got_get_targeted,
    };

}

/// The law of the get: all that a get changes belongs to one accepted row of open pull requests. It
/// fetches just their head branches, puts the frozen bookmark of each at its head commit, writes the
/// cache, and begins a change on the frozen bookmark of the topmost.
pub proof fn law_get_freezes_its_stack(
    before: Seq<Event>,
    after: Seq<Event>,
    config: AppConfigView,
    target: Seq<char>,
    auto_edit: bool,
    diagnostics: Diagnostics,
    r: Result<GetSummary, Seq<CauseView>>,
    change: int,
)
    requires
        get::stack_got(before, after, config, target, auto_edit, diagnostics, r),
        before.len() <= change < after.len(),
        !quiet::harmless(after[change]),
    ensures
        exists|github: GitHubContextView, number: u64, prs: Seq<GhPrView>|
            #[trigger] pr::pr_stack_fault(config, github, number, prs) is None && is_got(
                after[change],
                config.remote,
                prs,
            ),
{
    got_stack_got(before, after, config, target, auto_edit, diagnostics, r);
    reveal(got);
    reveal(reading::did);
    reveal(quiet::quiet);
    let (github, number, prs) = choose|github: GitHubContextView, number: u64, prs: Seq<GhPrView>|
        #[trigger] got_by(before, after, config, github, number, prs);
    assert(is_got(after[change], config.remote, prs));
}

} // verus!
