//! Which stack comments are found.

use vstd::prelude::*;

use crate::commenting;
use crate::comments;
use crate::error::CauseView;
use crate::model::{GhStackCommentView, GitHubContextView};
use crate::reading::deed;
use crate::record;
use crate::record::Event;
use crate::text;

verus! {

broadcast use crate::record::group_record;

/// All the comments of this request are asked for.
pub open spec fn asks_for_comments(event: Event, repo: Seq<char>, number: u64) -> bool {
    &&& deed(event) is Fetched
    &&& deed(event)->Fetched_path == "repos/"@ + repo + "/issues/"@ + text::decimal(number as nat)
        + "/comments"@
    &&& deed(event)->pages
}

/// GitHub told of this comment, and it is a stack comment.
pub open spec fn tells_of(event: Event, comment: GhStackCommentView) -> bool {
    &&& event is CommentRead
    &&& event->comment == Ok::<GhStackCommentView, Seq<CauseView>>(comment)
    &&& text::contains(comment.body, "<!-- stack:v1 -->"@)
}

/// Whether GitHub told of this stack comment after `from`.
pub open spec fn told_of(from: int, log: Seq<Event>, comment: GhStackCommentView) -> bool {
    exists|i: int| from < i < log.len() && #[trigger] tells_of(log[i], comment)
}

proof fn lemma_all_kept(
    before: Seq<Event>,
    after: Seq<Event>,
    done: Seq<GhStackCommentView>,
    rows: Seq<Seq<char>>,
    number: u64,
    change_id: Seq<char>,
    all: Seq<GhStackCommentView>,
)
    requires
        comments::comment_lines_read(before, after, done, rows, number, change_id, Ok(all)),
    ensures
        record::extends(before, after),
        forall|j: int| 0 <= j < done.len() ==> all.contains(#[trigger] done[j]),
        forall|i: int|
            before.len() <= i < after.len() && (#[trigger] after[i]) is CommentRead
                && after[i]->comment is Ok ==> all.contains(after[i]->comment->Ok_0),
    decreases rows.len(),
{
    if rows.len() == 0 {
    } else if text::is_blank(rows[0]) {
        lemma_all_kept(before, after, done, rows.drop_first(), number, change_id, all);
    } else {
        let (mid, first) = choose|
            mid: Seq<Event>,
            first: Result<GhStackCommentView, Seq<CauseView>>,
        |
            {
                &&& #[trigger] comments::comment_line_read(
                    before,
                    mid,
                    rows[0],
                    number,
                    change_id,
                    first,
                )
                &&& match first {
                    Err(e) => after == mid && Ok::<Seq<GhStackCommentView>, Seq<CauseView>>(all)
                        == Err::<Seq<GhStackCommentView>, _>(e),
                    Ok(comment) => comments::comment_lines_read(
                        mid,
                        after,
                        done.push(comment),
                        rows.drop_first(),
                        number,
                        change_id,
                        Ok(all),
                    ),
                }
            };
        let found = first->Ok_0;
        let next = done.push(found);
        lemma_all_kept(mid, after, next, rows.drop_first(), number, change_id, all);
        assert(all.contains(next[done.len() as int]));
        assert forall|j: int| 0 <= j < done.len() implies all.contains(#[trigger] done[j]) by {
            assert(next[j] == done[j]);
        }
        assert forall|i: int|
            before.len() <= i < after.len() && (#[trigger] after[i]) is CommentRead
                && after[i]->comment is Ok implies all.contains(after[i]->comment->Ok_0) by {
            if i < mid.len() {
                assert(after.take(mid.len() as int)[i] == mid[i]);
                assert(after[i]->comment == first);
            }
        }
    }
}

proof fn lemma_listed(
    before: Seq<Event>,
    after: Seq<Event>,
    repo: Seq<char>,
    number: u64,
    change_id: Seq<char>,
    all: Seq<GhStackCommentView>,
)
    requires
        comments::comments_listed(before, after, repo, number, change_id, Ok(all)),
    ensures
        record::extends(before, after),
        after.len() > before.len(),
        asks_for_comments(after[before.len() as int], repo, number),
        forall|comment: GhStackCommentView|
            #![trigger told_of(before.len() as int, after, comment)]
            told_of(before.len() as int, after, comment) <==> all.contains(comment)
                && text::contains(comment.body, "<!-- stack:v1 -->"@),
{
    broadcast use crate::wording::group_wording;

    let n = before.len() as int;
    let asked = after.take(n + 1);
    assert(after[n] is Call) by {
        reveal(record::in_place);
    }
    let rows = text::lines((record::reply_of(after[n])->Ok_0).stdout);
    lemma_all_kept(asked, after, seq![], rows, number, change_id, all);
    assert forall|comment: GhStackCommentView|
        #![trigger told_of(n, after, comment)]
        told_of(n, after, comment) <==> all.contains(comment) && text::contains(
            comment.body,
            "<!-- stack:v1 -->"@,
        ) by {
        if all.contains(comment) && text::contains(comment.body, "<!-- stack:v1 -->"@) {
            commenting::lemma_lines_read(
                asked,
                after,
                seq![],
                rows,
                number,
                change_id,
                all,
                comment,
            );
            let i = choose|i: int|
                asked.len() <= i < after.len() && (#[trigger] after[i]) is CommentRead
                    && after[i]->comment == Ok::<GhStackCommentView, Seq<CauseView>>(comment);
            assert(tells_of(after[i], comment));
        }
    }
}

/// The law of the found comment: the stack comment of a request is one of those that GitHub told of when
/// asked for all its comments, and GitHub told of none that was updated later; it is absent just where
/// GitHub told of none.
pub proof fn law_found_comment_is_the_newest(
    before: Seq<Event>,
    after: Seq<Event>,
    repo: Seq<char>,
    number: u64,
    change_id: Seq<char>,
    found: Option<GhStackCommentView>,
    other: GhStackCommentView,
)
    requires
        comments::latest_comment_found(before, after, repo, number, change_id, Ok(found)),
    ensures
        after.len() > before.len(),
        asks_for_comments(after[before.len() as int], repo, number),
        found is Some ==> told_of(before.len() as int, after, found->Some_0),
        told_of(before.len() as int, after, other) ==> found is Some && !text::comes_before(
            (found->Some_0).updated_at,
            other.updated_at,
        ),
{
    let r = Ok::<Option<GhStackCommentView>, Seq<CauseView>>(found);
    let listed = choose|all: Result<Seq<GhStackCommentView>, Seq<CauseView>>|
        {
            &&& #[trigger] comments::comments_listed(before, after, repo, number, change_id, all)
            &&& r == match all {
                Ok(comments) => Ok(comments::newest(comments::marked(comments))),
                Err(e) => Err(e),
            }
        };
    let all = listed->Ok_0;
    let kept = comments::marked(all);
    lemma_listed(before, after, repo, number, change_id, all);
    if kept.len() > 0 {
        comments::law_newest_is_last_updated(kept);
        lemma_marked(all, seq![], found->Some_0);
        assert(told_of(before.len() as int, after, found->Some_0));
    }
    if told_of(before.len() as int, after, other) {
        lemma_marked(all, seq![], other);
        let j = choose|j: int| 0 <= j < kept.len() && kept[j] == other;
        assert(!comments::is_older(found->Some_0, kept[j]));
    }
}

proof fn lemma_marked(all: Seq<GhStackCommentView>, login: Seq<char>, comment: GhStackCommentView)
    ensures
        comments::marked(all).contains(comment) <==> all.contains(comment) && text::contains(
            comment.body,
            "<!-- stack:v1 -->"@,
        ),
        comments::marked_by(all, login).contains(comment) <==> all.contains(comment)
            && comment.user_login == login && text::contains(comment.body, "<!-- stack:v1 -->"@),
    decreases all.len(),
{
    if all.len() > 0 {
        let front = all.drop_last();
        lemma_marked(front, login, comment);
        lemma_pushed(front, all.last(), comment);
        assert(all =~= front.push(all.last()));
        lemma_pushed(comments::marked(front), all.last(), comment);
        lemma_pushed(comments::marked_by(front, login), all.last(), comment);
    }
}

proof fn lemma_pushed(
    front: Seq<GhStackCommentView>,
    last: GhStackCommentView,
    comment: GhStackCommentView,
)
    ensures
        front.push(last).contains(comment) <==> front.contains(comment) || comment == last,
{
    let all = front.push(last);
    assert(all[front.len() as int] == last);
    if front.contains(comment) {
        let k = choose|k: int| 0 <= k < front.len() && front[k] == comment;
        assert(all[k] == comment);
    }
    if all.contains(comment) && comment != last {
        let k = choose|k: int| 0 <= k < all.len() && all[k] == comment;
        assert(front[k] == comment);
    }
}

/// The law of the known comment: the comment that is remembered of a request is a stack comment that the
/// user wrote, and GitHub told of no later one of that user.
pub proof fn law_known_comment_is_the_users(
    before: Seq<Event>,
    after: Seq<Event>,
    github: GitHubContextView,
    number: u64,
    change_id: Seq<char>,
    id: Seq<char>,
) -> (comment: GhStackCommentView)
    requires
        comments::comment_id_searched(before, after, github, number, change_id, Some(id)),
    ensures
        after.len() > before.len(),
        asks_for_comments(after[before.len() as int], github.repo, number),
        told_of(before.len() as int, after, comment),
        comment.user_login == github.username,
        id == text::decimal(comment.id as nat),
        forall|other: GhStackCommentView|
            #![trigger told_of(before.len() as int, after, other)]
            told_of(before.len() as int, after, other) && other.user_login == github.username
                ==> !text::comes_before(comment.updated_at, other.updated_at),
{
    let r = Some(id);
    let listed = choose|all: Result<Seq<GhStackCommentView>, Seq<CauseView>>|
        {
            &&& #[trigger] comments::comments_listed(
                before,
                after,
                github.repo,
                number,
                change_id,
                all,
            )
            &&& r == match all {
                Ok(comments) => match comments::newest(
                    comments::marked_by(comments, github.username),
                ) {
                    Some(comment) => Some(text::decimal(comment.id as nat)),
                    None => None,
                },
                Err(e) => None,
            }
        };
    let all = listed->Ok_0;
    let own = comments::marked_by(all, github.username);
    let comment = comments::newest(own)->Some_0;
    lemma_listed(before, after, github.repo, number, change_id, all);
    comments::law_newest_is_last_updated(own);
    lemma_marked(all, github.username, comment);
    assert(told_of(before.len() as int, after, comment));
    assert forall|other: GhStackCommentView|
        #![trigger told_of(before.len() as int, after, other)]
        told_of(before.len() as int, after, other) && other.user_login
            == github.username implies !text::comes_before(
        comment.updated_at,
        other.updated_at,
    ) by {
        lemma_marked(all, github.username, other);
        let j = choose|j: int| 0 <= j < own.len() && own[j] == other;
        assert(!comments::is_older(comment, own[j]));
    }
    comment
}

} // verus!
