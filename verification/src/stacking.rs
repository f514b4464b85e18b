//! How a stack is read from what jj lists.

use vstd::prelude::*;

use crate::answers;
use crate::error::CauseView;
use crate::model::ResolvedChangeView;
use crate::outside;
use crate::reading::{Deed, deed};
use crate::record;
use crate::record::Event;
use crate::stack;
use crate::text;
use crate::words;

verus! {

broadcast use crate::record::group_record;

/// The fields of a row, in the order in which jj was told to print them, give this change.
pub open spec fn reads_change(row: Seq<char>, change: ResolvedChangeView) -> bool {
    let f = text::split(row, '\x1f');
    &&& f.len() == 8
    &&& outside::json_string(f[0]) == Ok::<Seq<char>, Seq<char>>(change.change_id)
    &&& outside::json_string(f[1]) == Ok::<Seq<char>, Seq<char>>(change.commit_id)
    &&& outside::json_strings(f[2]) == Ok::<Seq<Seq<char>>, Seq<char>>(change.parent_ids)
    &&& outside::json_string(f[3]) == Ok::<Seq<char>, Seq<char>>(change.title)
    &&& outside::json_string(f[4]) is Ok
    &&& change.body == stack::body_of(outside::json_string(f[4])->Ok_0, change.title)
    &&& outside::json_bool(f[5]) == Ok::<bool, Seq<char>>(change.empty)
    &&& outside::json_bool(f[6]) == Ok::<bool, Seq<char>>(change.conflict)
    &&& outside::json_bool(f[7]) == Ok::<bool, Seq<char>>(change.divergent)
}

/// At `i` git told the tree of the change.
pub open spec fn tells_tree(event: Event, change: ResolvedChangeView) -> bool {
    &&& deed(event) == (Deed::ShowTree { commit: change.commit_id })
    &&& answers::told(record::reply_of(event), change.tree_id)
}

/// The rows of a listing: the pieces that are not empty.
pub open spec fn rows_of(listing: Seq<char>) -> Seq<Seq<char>> {
    text::split(listing, '\x1e').filter(|row: Seq<char>| row.len() > 0)
}

proof fn lemma_nonempty(parts: Seq<Seq<char>>)
    ensures
        stack::nonempty(parts) == parts.filter(|row: Seq<char>| row.len() > 0),
    decreases parts.len(),
{
    reveal(Seq::filter);
    if parts.len() > 0 {
        lemma_nonempty(parts.drop_last());
    }
}

proof fn lemma_records(
    before: Seq<Event>,
    after: Seq<Event>,
    done: Seq<ResolvedChangeView>,
    rows: Seq<Seq<char>>,
    stack: Seq<ResolvedChangeView>,
)
    requires
        stack::records_resolved(before, after, done, rows, Ok(stack)),
    ensures
        record::extends(before, after),
        after.len() == before.len() + rows.len(),
        stack.len() == done.len() + rows.len(),
        forall|k: int| 0 <= k < done.len() ==> #[trigger] stack[k] == done[k],
        forall|k: int|
            0 <= k < rows.len() ==> reads_change(#[trigger] rows[k], stack[done.len() + k])
                && tells_tree(after[before.len() + k], stack[done.len() + k]),
    decreases rows.len(),
{
    broadcast use crate::wording::group_wording;

    record::lemma_extends_refl(before);
    if rows.len() > 0 {
        let r = Ok::<Seq<ResolvedChangeView>, Seq<CauseView>>(stack);
        let (mid, first) = choose|mid: Seq<Event>, first: Result<ResolvedChangeView, Seq<CauseView>>|
            {
                &&& #[trigger] stack::record_resolved(before, mid, rows[0], first)
                &&& match first {
                    Err(e) => after == mid && r == Err::<Seq<ResolvedChangeView>, _>(e),
                    Ok(change) => stack::records_resolved(
                        mid,
                        after,
                        done.push(change),
                        rows.drop_first(),
                        r,
                    ),
                }
            };
        let change = first->Ok_0;
        let rest = rows.drop_first();
        let next = done.push(change);
        lemma_records(mid, after, next, rest, stack);
        record::lemma_extends_trans(before, mid, after);
        let n = before.len() as int;
        assert(after.take(mid.len() as int)[n] == mid[n]);
        assert(stack[done.len() as int] == next[done.len() as int]);
        answers::law_asked_commit_is_the_word(
            arbitrary(),
            change.commit_id,
            seq![],
            record::last_reply(mid),
            change.tree_id,
        );
        assert(mid[n] is Call) by {
            reveal(record::in_place);
        }
        assert(tells_tree(after[n], change));
        assert forall|k: int| 0 <= k < done.len() implies #[trigger] stack[k] == done[k] by {
            assert(stack[k] == next[k]);
        }
        assert forall|k: int| 0 <= k < rows.len() implies reads_change(
            #[trigger] rows[k],
            stack[done.len() + k],
        ) && tells_tree(after[n + k], stack[done.len() + k]) by {
            if k > 0 {
                assert(rest[k - 1] == rows[k]);
                assert(next.len() + (k - 1) == done.len() + k);
                assert(mid.len() + (k - 1) == n + k);
            }
        }
    }
}

/// The law of the stack: a stack that was read for a revset has one change for each row that jj listed for
/// that revset, bottom first and in that order; each change is what its row says, field by field, and has
/// the tree that git told of its commit.
pub proof fn law_stack_is_what_was_listed(
    before: Seq<Event>,
    after: Seq<Event>,
    revset: Seq<char>,
    stack: Seq<ResolvedChangeView>,
)
    requires
        stack::stack_resolved(before, after, revset, Ok(stack)),
    ensures
        ({
            let n = before.len() as int;
            &&& after.len() == n + 1 + stack.len()
            &&& deed(after[n]) is ListCommits
            &&& deed(after[n])->ListCommits_revset == revset
            &&& deed(after[n])->bottom_first
            &&& answers::succeeded(record::reply_of(after[n]))
            &&& rows_of(answers::printed(record::reply_of(after[n]))).len() == stack.len()
            &&& forall|k: int|
                0 <= k < stack.len() ==> reads_change(
                    rows_of(answers::printed(record::reply_of(after[n])))[k],
                    #[trigger] stack[k],
                ) && tells_tree(after[n + 1 + k], stack[k])
        }),
{
    broadcast use crate::wording::group_wording;

    let n = before.len() as int;
    let listing = answers::printed(record::reply_of(after[n]));
    let parsed = choose|parsed: Result<Seq<ResolvedChangeView>, Seq<CauseView>>|
        {
            &&& #[trigger] stack::log_resolved(after.take(n + 1), after, listing, parsed)
            &&& Ok::<Seq<ResolvedChangeView>, Seq<CauseView>>(stack) == match parsed {
                Ok(stack) => Ok(stack),
                Err(e) => Err(crate::error::in_context("parse jj stack log"@, e)),
            }
        };
    let rows = stack::log_records(listing);
    lemma_nonempty(text::split(listing, '\x1e'));
    assert(rows == rows_of(listing));
    lemma_records(after.take(n + 1), after, seq![], rows, stack);
    assert forall|k: int| 0 <= k < stack.len() implies reads_change(
        rows_of(listing)[k],
        #[trigger] stack[k],
    ) && tells_tree(after[n + 1 + k], stack[k]) by {
        assert(reads_change(rows[k], stack[0 + k]));
    }
}

/// The law of the body: the body of a description is what follows its title and the empty line below,
/// without the line ends behind it.
pub proof fn law_body_follows_the_title(title: Seq<char>, body: Seq<char>, tail: Seq<char>)
    requires
        body.len() > 0,
        body[0] != '\n',
        body.last() != '\n',
        forall|i: int| 0 <= i < tail.len() ==> #[trigger] tail[i] == '\n',
    ensures
        stack::body_of(title + "\n\n"@ + body + tail, title) == body,
        stack::body_of(title + "\n"@ + body + tail, title) == body,
        stack::body_of(title + tail, title) == Seq::<char>::empty(),
{
    reveal_strlit("\n");
    reveal_strlit("\n\n");
    let one = "\n"@;
    words::law_prefix_and_rest_make_the_text(title, "\n\n"@ + body + tail, seq![]);
    assert(title + ("\n\n"@ + body + tail) =~= title + "\n\n"@ + body + tail);
    words::law_prefix_and_rest_make_the_text(one, one + body + tail, seq![]);
    assert(one + (one + body + tail) =~= "\n\n"@ + body + tail);
    words::law_prefix_and_rest_make_the_text(one, body + tail, seq![]);
    assert(one + (body + tail) =~= one + body + tail);
    lemma_ends_go(body, tail);
    words::law_prefix_and_rest_make_the_text(title, one + body + tail, seq![]);
    assert(title + (one + body + tail) =~= title + one + body + tail);
    assert((body + tail)[0] == body[0]);
    assert(!text::starts_with(body + tail, one)) by {
        if text::starts_with(body + tail, one) {
            assert((body + tail).take(1)[0] == one[0]);
        }
    }
    words::law_prefix_and_rest_make_the_text(title, tail, seq![]);
    lemma_all_ends_go(tail);
    if tail.len() > 0 {
        let rest = tail.skip(1);
        assert(tail.take(1) =~= one);
        lemma_all_ends_go(rest);
        if rest.len() > 0 {
            assert(rest.take(1) =~= one);
            lemma_all_ends_go(rest.skip(1));
        }
    }
}

proof fn lemma_ends_go(body: Seq<char>, tail: Seq<char>)
    requires
        body.len() > 0,
        body.last() != '\n',
        forall|i: int| 0 <= i < tail.len() ==> #[trigger] tail[i] == '\n',
    ensures
        text::trim_end_char(body + tail, '\n') == body,
    decreases tail.len(),
{
    if tail.len() > 0 {
        assert((body + tail).last() == tail[tail.len() - 1]);
        assert((body + tail).drop_last() =~= body + tail.drop_last());
        lemma_ends_go(body, tail.drop_last());
    } else {
        assert(body + tail =~= body);
    }
}

proof fn lemma_all_ends_go(tail: Seq<char>)
    requires
        forall|i: int| 0 <= i < tail.len() ==> #[trigger] tail[i] == '\n',
    ensures
        text::trim_end_char(tail, '\n') == Seq::<char>::empty(),
    decreases tail.len(),
{
    if tail.len() > 0 {
        assert(tail.last() == tail[tail.len() - 1]);
        lemma_all_ends_go(tail.drop_last());
    } else {
        assert(tail =~= seq![]);
    }
}

} // verus!
