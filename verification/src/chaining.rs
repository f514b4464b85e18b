//! What is known of the frozen requests below a stack.

use vstd::prelude::*;

use crate::answers;
use crate::bookmarks;
use crate::error;
use crate::error::CauseView;
use crate::frozen;
use crate::model::{
    FrozenBookmarkView, FrozenDependencyView, ResolvedChangeView, StackResolutionView,
};
use crate::quiet;
use crate::reading::{Deed, deed};
use crate::record;
use crate::record::Event;
use crate::stack;
use crate::text;

verus! {

broadcast use crate::record::group_record;

/// At `i` jj listed just these commits for the revset.
pub open spec fn lists_commits(
    log: Seq<Event>,
    i: int,
    revset: Seq<char>,
    commits: Seq<Seq<char>>,
) -> bool {
    &&& 0 <= i < log.len()
    &&& deed(log[i]) == (Deed::ListCommits {
        revset,
        shown: "commit_id ++ \"\\n\""@,
        bottom_first: false,
    })
    &&& answers::succeeded(record::reply_of(log[i]))
    &&& text::filled_lines(answers::printed(record::reply_of(log[i]))) == commits
}

/// Whether jj listed just these commits for the revset, in `from..`.
pub open spec fn were_listed(
    from: int,
    log: Seq<Event>,
    revset: Seq<char>,
    commits: Seq<Seq<char>>,
) -> bool {
    exists|i: int| from <= i && #[trigger] lists_commits(log, i, revset, commits)
}

/// The nearest of the frozen commits below a commit, as a revset.
pub open spec fn nearest_below(frozen: Seq<FrozenDependencyView>, commit: Seq<char>) -> Seq<char> {
    "heads(("@ + text::join(
        Seq::new(frozen.len(), |k: int| "present("@ + frozen[k].change.commit_id + ")"@),
        " | "@,
    ) + ") & ::"@ + commit + " & ~"@ + commit + ")"@
}

/// From the top down, each of these is the nearest frozen one below the one before.
pub open spec fn hang_together(
    from: int,
    log: Seq<Event>,
    frozen: Seq<FrozenDependencyView>,
    down: Seq<FrozenDependencyView>,
) -> bool {
    forall|a: int, b: int|
        0 <= a && b == a + 1 && b < down.len() ==> were_listed(
            from,
            log,
            nearest_below(frozen, (#[trigger] down[a]).change.commit_id),
            seq![(#[trigger] down[b]).change.commit_id],
        )
}

/// From the bottom up, each of these stands on the one before, which is the nearest frozen one below it;
/// below the lowest there is none.
pub open spec fn stand_on_each_other(
    from: int,
    log: Seq<Event>,
    frozen: Seq<FrozenDependencyView>,
    chain: Seq<FrozenDependencyView>,
) -> bool {
    &&& chain.len() > 0
    &&& were_listed(from, log, nearest_below(frozen, chain[0].change.commit_id), seq![])
    &&& forall|a: int, b: int|
        0 <= a && b == a + 1 && b < chain.len() ==> were_listed(
            from,
            log,
            nearest_below(frozen, (#[trigger] chain[b]).change.commit_id),
            seq![(#[trigger] chain[a]).change.commit_id],
        )
}

proof fn lemma_listed_stays(
    from: int,
    mid: Seq<Event>,
    after: Seq<Event>,
    revset: Seq<char>,
    commits: Seq<Seq<char>>,
)
    requires
        record::extends(mid, after),
        were_listed(from, mid, revset, commits),
    ensures
        were_listed(from, after, revset, commits),
{
    let i = choose|i: int| from <= i && #[trigger] lists_commits(mid, i, revset, commits);
    assert(after.take(mid.len() as int)[i] == mid[i]);
    assert(lists_commits(after, i, revset, commits));
}

proof fn lemma_nearest(frozen: Seq<FrozenDependencyView>, commit: Seq<char>)
    ensures
        bookmarks::nearest_revset(frozen::dep_commits(frozen), commit) == nearest_below(
            frozen,
            commit,
        ),
{
    assert(bookmarks::present_terms(frozen::dep_commits(frozen)) =~= Seq::new(
        frozen.len(),
        |k: int| "present("@ + frozen[k].change.commit_id + ")"@,
    ));
}

proof fn lemma_asked(
    before: Seq<Event>,
    after: Seq<Event>,
    revset: Seq<char>,
    commits: Seq<Seq<char>>,
    from: int,
)
    requires
        record::called(before, after, "jj"@, bookmarks::listed_args(revset)),
        bookmarks::listed_commits(revset, record::last_reply(after)) == Ok::<
            Seq<Seq<char>>,
            Seq<CauseView>,
        >(commits),
        from <= before.len(),
    ensures
        were_listed(from, after, revset, commits),
        record::extends(before, after),
{
    broadcast use crate::wording::group_wording;

    let i = before.len() as int;
    answers::law_single_commit_is_the_only_one(
        revset,
        record::last_reply(after),
        seq![],
        commits,
    );
    assert(lists_commits(after, i, revset, commits));
}

proof fn lemma_frozen_at(frozen: Seq<FrozenDependencyView>, commit: Seq<char>)
    ensures
        frozen::frozen_at(frozen, commit) matches Some(d) ==> frozen.contains(d)
            && d.change.commit_id == commit,
    decreases frozen.len(),
{
    if frozen.len() > 0 {
        lemma_frozen_at(frozen.drop_first(), commit);
        assert forall|d: FrozenDependencyView| frozen.drop_first().contains(d) implies
            frozen.contains(d) by {
            let k = choose|k: int| 0 <= k < frozen.drop_first().len() && frozen.drop_first()[k] == d;
            assert(frozen[k + 1] == d);
        }
        assert(frozen.contains(frozen[0]));
    }
}

proof fn lemma_chain_walked(
    before: Seq<Event>,
    after: Seq<Event>,
    frozen: Seq<FrozenDependencyView>,
    current: FrozenDependencyView,
    above: Seq<FrozenDependencyView>,
    chain: Seq<FrozenDependencyView>,
    from: int,
)
    requires
        frozen::chain_walked(before, after, frozen, current, above, Ok(chain)),
        from <= before.len(),
        hang_together(from, before, frozen, above.push(current)),
        frozen.contains(current),
        forall|k: int| 0 <= k < above.len() ==> frozen.contains(#[trigger] above[k]),
    ensures
        record::extends(before, after),
        stand_on_each_other(from, after, frozen, chain),
        chain.last() == (if above.len() > 0 {
            above[0]
        } else {
            current
        }),
        forall|k: int| 0 <= k < chain.len() ==> frozen.contains(#[trigger] chain[k]),
    decreases frozen.len() + 1 - above.len(),
{
    let r = Ok::<Seq<FrozenDependencyView>, Seq<CauseView>>(chain);
    let walked = above.push(current);
    let commit = current.change.commit_id;
    let revset = bookmarks::nearest_revset(frozen::dep_commits(frozen), commit);
    lemma_nearest(frozen, commit);
    let mid = choose|mid: Seq<Event>|
        {
            &&& #[trigger] record::called(before, mid, "jj"@, bookmarks::listed_args(revset))
            &&& match bookmarks::listed_commits(revset, record::last_reply(mid)) {
                Err(e) => after == mid && r == Err::<Seq<FrozenDependencyView>, _>(e),
                Ok(below) => if below.len() == 0 {
                    after == mid && r == Ok::<_, Seq<CauseView>>(walked.reverse())
                } else if below.len() == 1 {
                    match frozen::frozen_at(frozen, below[0]) {
                        None => after == mid && r == Err::<Seq<FrozenDependencyView>, _>(
                            error::plain(
                                "frozen ancestor "@ + stack::short_id(below[0])
                                    + " missing from dependency set"@,
                            ),
                        ),
                        Some(next) => frozen::chain_walked(mid, after, frozen, next, walked, r),
                    }
                } else {
                    after == mid && r == Err::<Seq<FrozenDependencyView>, _>(
                        error::reported(
                            error::cli(
                                "frozen bookmark `"@ + current.bookmark.name + "` has "@
                                    + text::decimal(below.len())
                                    + " frozen ancestors, expected a linear chain"@,
                            ).because(text::join(frozen::frozen_labels(frozen, below), ", "@)),
                        ),
                    )
                },
            }
        };
    let below = bookmarks::listed_commits(revset, record::last_reply(mid))->Ok_0;
    lemma_asked(before, mid, revset, below, from);
    assert forall|a: int, b: int| 0 <= a && b == a + 1 && b < walked.len() implies were_listed(
        from,
        mid,
        nearest_below(frozen, (#[trigger] walked[a]).change.commit_id),
        seq![(#[trigger] walked[b]).change.commit_id],
    ) by {
        lemma_listed_stays(
            from,
            before,
            mid,
            nearest_below(frozen, walked[a].change.commit_id),
            seq![walked[b].change.commit_id],
        );
    }
    if below.len() == 0 {
        let n = walked.len();
        assert(below =~= seq![]);
        assert(chain[0] == walked[n - 1]);
        assert forall|a: int, b: int| 0 <= a && b == a + 1 && b < chain.len() implies were_listed(
            from,
            after,
            nearest_below(frozen, (#[trigger] chain[b]).change.commit_id),
            seq![(#[trigger] chain[a]).change.commit_id],
        ) by {
            assert(chain[b] == walked[n - 1 - b]);
            assert(chain[a] == walked[n - 1 - a]);
        }
        assert(chain.last() == walked[0]);
        assert forall|k: int| 0 <= k < chain.len() implies frozen.contains(
            #[trigger] chain[k],
        ) by {
            assert(chain[k] == walked[n - 1 - k]);
        }
    } else {
        let next = frozen::frozen_at(frozen, below[0])->Some_0;
        lemma_frozen_at(frozen, below[0]);
        assert(below =~= seq![next.change.commit_id]);
        let down = walked.push(next);
        assert forall|a: int, b: int| 0 <= a && b == a + 1 && b < down.len() implies were_listed(
            from,
            mid,
            nearest_below(frozen, (#[trigger] down[a]).change.commit_id),
            seq![(#[trigger] down[b]).change.commit_id],
        ) by {
            assert(down[a] == walked[a]);
            if b < walked.len() {
                assert(down[b] == walked[b]);
            }
        }
        lemma_chain_walked(mid, after, frozen, next, walked, chain, from);
        record::lemma_extends_trans(before, mid, after);
    }
}

proof fn lemma_frozen_resolved(
    before: Seq<Event>,
    after: Seq<Event>,
    done: Seq<FrozenDependencyView>,
    left: Seq<FrozenBookmarkView>,
    all: Seq<FrozenDependencyView>,
)
    requires
        frozen::frozen_changes_resolved(before, after, done, left, Ok(all)),
    ensures
        all.len() == done.len() + left.len(),
        forall|k: int| 0 <= k < done.len() ==> #[trigger] all[k] == done[k],
        forall|k: int|
            done.len() <= k < all.len() ==> {
                &&& (#[trigger] all[k]).bookmark == left[k - done.len()]
                &&& all[k].change.commit_id == all[k].bookmark.commit_id
                &&& !all[k].change.conflict
            },
    decreases left.len(),
{
    if left.len() > 0 {
        let r = Ok::<Seq<FrozenDependencyView>, Seq<CauseView>>(all);
        let (mid, stack) = choose|
            mid: Seq<Event>,
            stack: Result<Seq<ResolvedChangeView>, Seq<CauseView>>,
        |
            {
                &&& #[trigger] stack::stack_resolved(before, mid, left[0].commit_id, stack)
                &&& match frozen::frozen_change_result(left[0], stack) {
                    Err(e) => after == mid && r == Err::<Seq<FrozenDependencyView>, _>(e),
                    Ok(item) => frozen::frozen_changes_resolved(
                        mid,
                        after,
                        done.push(item),
                        left.drop_first(),
                        r,
                    ),
                }
            };
        let item = frozen::frozen_change_result(left[0], stack)->Ok_0;
        let next = done.push(item);
        lemma_frozen_resolved(mid, after, next, left.drop_first(), all);
        assert forall|k: int| 0 <= k < done.len() implies #[trigger] all[k] == done[k] by {
            assert(all[k] == next[k]);
        }
        assert forall|k: int| done.len() <= k < all.len() implies {
            &&& (#[trigger] all[k]).bookmark == left[k - done.len()]
            &&& all[k].change.commit_id == all[k].bookmark.commit_id
            &&& !all[k].change.conflict
        } by {
            if k == done.len() {
                assert(all[k] == next[k]);
            } else {
                assert(left.drop_first()[k - next.len()] == left[k - done.len()]);
            }
        }
    }
}

/// Whether each of the bookmarks stands at the change that it freezes, one for one.
pub open spec fn are_frozen(
    bookmarks: Seq<FrozenBookmarkView>,
    frozen: Seq<FrozenDependencyView>,
) -> bool {
    &&& frozen.len() == bookmarks.len()
    &&& forall|k: int|
        0 <= k < frozen.len() ==> {
            &&& (#[trigger] frozen[k]).bookmark == bookmarks[k]
            &&& frozen[k].change.commit_id == bookmarks[k].commit_id
            &&& !frozen[k].change.conflict
        }
}

/// What is known of the frozen requests below a stack, whose lowest change is `root`.
pub open spec fn chain_known(
    from: int,
    log: Seq<Event>,
    bookmarks: Seq<FrozenBookmarkView>,
    root: ResolvedChangeView,
    chain: Seq<FrozenDependencyView>,
    frozen: Seq<FrozenDependencyView>,
) -> bool {
    &&& are_frozen(bookmarks, frozen)
    &&& forall|k: int| 0 <= k < chain.len() ==> frozen.contains(#[trigger] chain[k])
    &&& stand_on_each_other(from, log, frozen, chain)
    &&& were_listed(
        from,
        log,
        nearest_below(frozen, root.commit_id),
        seq![chain.last().change.commit_id],
    )
}

/// The law of the dependencies: a stack stands on a row of frozen requests, each of which is the nearest
/// frozen one below the next, the topmost the nearest below the stack, and the lowest with none below;
/// each frozen bookmark stands at its change. A stack that stands on none has nothing unmerged below it.
/// The stack itself is kept as it is.
pub proof fn law_stack_stands_on_its_dependencies(
    before: Seq<Event>,
    after: Seq<Event>,
    owned: Seq<ResolvedChangeView>,
    bookmarks: Seq<FrozenBookmarkView>,
    resolution: StackResolutionView,
)
    requires
        frozen::resolution_made(before, after, owned, bookmarks, Ok(resolution)),
    ensures
        resolution.owned == owned,
        owned.len() > 0 && resolution.frozen_dependencies.len() > 0 ==> {
            &&& stack::roots_of(owned).len() == 1
            &&& exists|frozen: Seq<FrozenDependencyView>| #[trigger]
                chain_known(
                    before.len() as int,
                    after,
                    bookmarks,
                    stack::roots_of(owned)[0],
                    resolution.frozen_dependencies,
                    frozen,
                )
        },
        owned.len() == 0 ==> resolution.frozen_dependencies.len() == 0,
        owned.len() > 0 && resolution.frozen_dependencies.len() == 0 ==> {
            &&& stack::root_result(owned) is Ok
            &&& were_listed(
                before.len() as int,
                after,
                "(::"@ + (stack::root_result(owned)->Ok_0).commit_id + " ~ ::trunk() ~ "@ + (
                stack::root_result(owned)->Ok_0).commit_id + ") & ~empty()"@,
                seq![],
            )
        },
{
    broadcast use {
        crate::asking::asks_dependencies_searched,
        crate::asking::asks_all_frozen_resolved,
        crate::asking::asks_base_checked,
    };

    let n = before.len() as int;
    let chain = resolution.frozen_dependencies;
    let (mid, found) = choose|
        mid: Seq<Event>,
        found: Result<Seq<FrozenDependencyView>, Seq<CauseView>>,
    |
        {
            &&& #[trigger] frozen::dependencies_searched(before, mid, owned, bookmarks, found)
            &&& match found {
                Err(e) => false,
                Ok(frozen_dependencies) => {
                    let made = StackResolutionView { owned, frozen_dependencies };
                    resolution == made && frozen::base_checked(mid, after, made, Ok(()))
                },
            }
        };
    assert(record::extends(mid, after)) by {
        assert(quiet::quiet(mid, after));
        reveal(quiet::quiet);
    }
    assert(n <= mid.len()) by {
        assert(quiet::quiet(before, mid));
        reveal(quiet::quiet);
    }
    if owned.len() > 0 && chain.len() == 0 {
        let root = stack::root_result(owned)->Ok_0;
        let revset = frozen::unmerged_below_revset(root.commit_id);
        let commits = bookmarks::listed_commits(revset, record::last_reply(after))->Ok_0;
        assert(commits =~= seq![]);
        lemma_asked(mid, after, revset, commits, n);
    }
    if owned.len() > 0 && chain.len() > 0 {
        let (told, frozen) = choose|
            told: Seq<Event>,
            frozen: Result<Seq<FrozenDependencyView>, Seq<CauseView>>,
        |
            {
                &&& #[trigger] frozen::all_frozen_resolved(before, told, bookmarks, frozen)
                &&& match frozen {
                    Err(e) => mid == told && found == Err::<Seq<FrozenDependencyView>, _>(e),
                    Ok(frozen) => frozen::below_owned_searched(told, mid, owned, frozen, found),
                }
            };
        let frozen = frozen->Ok_0;
        lemma_frozen_resolved(before, told, seq![], bookmarks, frozen);
        assert(n <= told.len()) by {
            assert(quiet::quiet(before, told));
            reveal(quiet::quiet);
        }
        lemma_below_owned(told, mid, owned, frozen, chain, n);
        let root = stack::roots_of(owned)[0];
        let revset = nearest_below(frozen, root.commit_id);
        lemma_listed_stays(n, mid, after, revset, seq![chain.last().change.commit_id]);
        lemma_listed_stays(
            n,
            mid,
            after,
            nearest_below(frozen, chain[0].change.commit_id),
            seq![],
        );
        assert forall|a: int, b: int| 0 <= a && b == a + 1 && b < chain.len() implies were_listed(
            n,
            after,
            nearest_below(frozen, (#[trigger] chain[b]).change.commit_id),
            seq![(#[trigger] chain[a]).change.commit_id],
        ) by {
            lemma_listed_stays(
                n,
                mid,
                after,
                nearest_below(frozen, chain[b].change.commit_id),
                seq![chain[a].change.commit_id],
            );
        }
        assert(chain_known(n, after, bookmarks, root, chain, frozen));
    }
}

proof fn lemma_below_owned(
    before: Seq<Event>,
    after: Seq<Event>,
    owned: Seq<ResolvedChangeView>,
    frozen: Seq<FrozenDependencyView>,
    chain: Seq<FrozenDependencyView>,
    from: int,
)
    requires
        frozen::below_owned_searched(before, after, owned, frozen, Ok(chain)),
        owned.len() > 0,
        chain.len() > 0,
        from <= before.len(),
    ensures
        stack::roots_of(owned).len() == 1,
        forall|k: int| 0 <= k < chain.len() ==> frozen.contains(#[trigger] chain[k]),
        stand_on_each_other(from, after, frozen, chain),
        were_listed(
            from,
            after,
            nearest_below(frozen, stack::roots_of(owned)[0].commit_id),
            seq![chain.last().change.commit_id],
        ),
{
    let r = Ok::<Seq<FrozenDependencyView>, Seq<CauseView>>(chain);
    let root = stack::roots_of(owned)[0];
    let revset = bookmarks::nearest_revset(frozen::dep_commits(frozen), root.commit_id);
    lemma_nearest(frozen, root.commit_id);
    let mid = choose|mid: Seq<Event>|
        {
            &&& #[trigger] record::called(before, mid, "jj"@, bookmarks::listed_args(revset))
            &&& match bookmarks::listed_commits(revset, record::last_reply(mid)) {
                Err(e) => false,
                Ok(nearest) => nearest.len() == 1 && exists|
                    found: Result<Option<Seq<FrozenDependencyView>>, Seq<CauseView>>,
                |
                    {
                        &&& #[trigger] frozen::chain_searched(
                            mid,
                            after,
                            frozen,
                            nearest[0],
                            found,
                        )
                        &&& r == match found {
                            Err(e) => Err(e),
                            Ok(Some(chain)) => Ok(chain),
                            Ok(None) => Err(
                                error::plain(
                                    "frozen boundary "@ + stack::short_id(nearest[0])
                                        + " resolved no dependency chain"@,
                                ),
                            ),
                        }
                    },
            }
        };
    let nearest = bookmarks::listed_commits(revset, record::last_reply(mid))->Ok_0;
    lemma_asked(before, mid, revset, nearest, from);
    let found = choose|found: Result<Option<Seq<FrozenDependencyView>>, Seq<CauseView>>|
        {
            &&& #[trigger] frozen::chain_searched(mid, after, frozen, nearest[0], found)
            &&& r == match found {
                Err(e) => Err(e),
                Ok(Some(chain)) => Ok(chain),
                Ok(None) => Err(
                    error::plain(
                        "frozen boundary "@ + stack::short_id(nearest[0])
                            + " resolved no dependency chain"@,
                    ),
                ),
            }
        };
    let first = frozen::frozen_at(frozen, nearest[0])->Some_0;
    lemma_frozen_at(frozen, nearest[0]);
    lemma_chain_walked(mid, after, frozen, first, seq![], chain, from);
    assert(nearest =~= seq![chain.last().change.commit_id]);
    lemma_listed_stays(from, mid, after, revset, nearest);
}

} // verus!
