//! The comments on pull requests that list their stack.

use vstd::prelude::*;

use crate::error;
use crate::error::{CauseView, Error, fail};
use crate::model::{Duplicate, GhStackComment, GhStackCommentView, GitHubContext, GitHubContextView};
use crate::output;
use crate::output::display_command;
use crate::outside;
use crate::outside::read_json_string;
use crate::record;
use crate::record::{Event, LineView};
use crate::repo::gh_run;
use crate::shell::{Host, Line};
use crate::shell::wire::Shell;
use crate::text;
use crate::text::{
    after_first, before_first, blank, cat, cat3, cat5, char_is_digit, chars, number_text,
    parse_text_number, same, slice_text, text_before, text_contains, text_lines, trimmed, words,
};

verus! {

broadcast use crate::record::group_record;

pub const STACK_COMMENT_MARKER: &'static str = "<!-- stack:v1 -->";

pub const STACK_COMMENT_JQ: &'static str =
    ".[] | {id,body,userLogin:.user.login,updatedAt:.updated_at} | @json";

// ---------------------------------------------------------------------------
// Which pull requests a comment lists
// ---------------------------------------------------------------------------

/// The digits at the start of a text.
pub open spec fn leading_digits(s: Seq<char>) -> Seq<char>
    decreases s.len(),
{
    if s.len() > 0 && text::is_digit(s[0]) {
        seq![s[0]] + leading_digits(s.drop_first())
    } else {
        seq![]
    }
}

pub fn text_leading_digits(s: &str) -> (r: String)
    ensures
        r@ == leading_digits(s@),
{
    let v = chars(s);
    let mut i: usize = 0;
    assert(v@.skip(0) =~= v@);
    assert(v@.take(0) + leading_digits(v@) =~= leading_digits(v@));
    while i < v.len() && char_is_digit(v[i])
        invariant
            i <= v@.len(),
            leading_digits(v@) == v@.take(i as int) + leading_digits(v@.skip(i as int)),
        decreases v@.len() - i,
    {
        let ghost rest = v@.skip(i as int);
        assert(rest.drop_first() =~= v@.skip(i + 1));
        assert(v@.take(i as int) + (seq![rest[0]] + leading_digits(rest.drop_first())) =~= v@.take(
            i + 1,
        ) + leading_digits(v@.skip(i + 1)));
        i = i + 1;
    }
    assert(leading_digits(v@.skip(i as int)) =~= seq![]);
    assert(leading_digits(v@) =~= v@.subrange(0, i as int));
    slice_text(&v, 0, i)
}

/// The pull request that a line links to: the number behind its first `/pull/`, up to the next one.
pub open spec fn line_number(line: Seq<char>) -> Option<nat> {
    match text::find(line, "/pull/"@) {
        None => None,
        Some(i) => {
            let rest = line.skip(i + "/pull/"@.len());
            let piece = match text::find(rest, "/pull/"@) {
                Some(j) => rest.take(j),
                None => rest,
            };
            text::parse_number(leading_digits(piece))
        },
    }
}

fn read_line_number(line: &str) -> (r: Option<u64>)
    ensures
        match r {
            Some(n) => line_number(line@) == Some(n as nat),
            None => line_number(line@) is None,
        },
{
    let rest = match after_first(line, "/pull/") {
        Some(rest) => rest,
        None => return None,
    };
    let piece = match before_first(&rest, "/pull/") {
        Some(piece) => piece,
        None => rest,
    };
    parse_text_number(&text_leading_digits(&piece))
}

/// The numbers that these lines link to, each where it comes first.
pub open spec fn numbers_in(rows: Seq<Seq<char>>) -> Seq<u64>
    decreases rows.len(),
{
    if rows.len() == 0 {
        seq![]
    } else {
        let rest = numbers_in(rows.drop_last());
        match line_number(rows.last()) {
            Some(n) => if rest.contains(n as u64) {
                rest
            } else {
                rest.push(n as u64)
            },
            None => rest,
        }
    }
}

fn number_listed(numbers: &Vec<u64>, n: u64) -> (r: bool)
    ensures
        r == numbers@.contains(n),
{
    let mut i: usize = 0;
    while i < numbers.len()
        invariant
            i <= numbers@.len(),
            forall|k: int| 0 <= k < i ==> numbers@[k] != n,
        decreases numbers@.len() - i,
    {
        if numbers[i] == n {
            return true;
        }
        i = i + 1;
    }
    false
}

/// The pull requests that a stack comment lists, in the order in which it lists them.
pub fn parse_stack_pr_numbers(body: &str) -> (r: Vec<u64>)
    ensures
        r@ == numbers_in(text::lines(body@)),
{
    let rows = text_lines(body);
    let ghost all = rows.deep_view();
    let mut out: Vec<u64> = Vec::new();
    let mut i: usize = 0;
    assert(out@ =~= numbers_in(all.take(0)));
    while i < rows.len()
        invariant
            i <= rows@.len(),
            all == rows.deep_view(),
            out@ == numbers_in(all.take(i as int)),
        decreases rows@.len() - i,
    {
        let ghost next = all.take(i + 1);
        assert(next.drop_last() =~= all.take(i as int));
        assert(next.last() == rows@[i as int]@);
        if let Some(n) = read_line_number(&rows[i]) {
            if !number_listed(&out, n) {
                out.push(n);
            }
        }
        i = i + 1;
    }
    assert(all.take(i as int) =~= all);
    out
}

/// A list of pull requests never names one twice.
pub proof fn law_listed_numbers_are_distinct(rows: Seq<Seq<char>>)
    ensures
        numbers_in(rows).no_duplicates(),
    decreases rows.len(),
{
    if rows.len() > 0 {
        law_listed_numbers_are_distinct(rows.drop_last());
        let rest = numbers_in(rows.drop_last());
        let all = numbers_in(rows);
        assert forall|i: int, j: int| 0 <= i < all.len() && 0 <= j < all.len() && i
            != j implies all[i] != all[j] by {
            if all.len() > rest.len() {
                if i == rest.len() {
                    assert(rest[j] == all[j]);
                } else if j == rest.len() {
                    assert(rest[i] == all[i]);
                } else {
                    assert(rest[i] == all[i] && rest[j] == all[j]);
                }
            }
        }
    }
}

// ---------------------------------------------------------------------------
// Choosing a comment
// ---------------------------------------------------------------------------

/// Whether a comment was updated before another; the lower id counts as earlier.
pub open spec fn is_older(a: GhStackCommentView, b: GhStackCommentView) -> bool {
    text::comes_before(a.updated_at, b.updated_at) || (a.updated_at == b.updated_at && a.id < b.id)
}

/// The comment that was updated last.
pub open spec fn newest(comments: Seq<GhStackCommentView>) -> Option<GhStackCommentView>
    decreases comments.len(),
{
    if comments.len() == 0 {
        None
    } else {
        match newest(comments.drop_last()) {
            None => Some(comments.last()),
            Some(best) => if is_older(comments.last(), best) {
                Some(best)
            } else {
                Some(comments.last())
            },
        }
    }
}

fn find_newest(comments: &Vec<GhStackComment>) -> (r: Option<usize>)
    ensures
        match r {
            Some(i) => i < comments@.len() && newest(comments.deep_view()) == Some(
                comments@[i as int]@,
            ),
            None => comments@.len() == 0 && newest(comments.deep_view()) is None,
        },
{
    if comments.len() == 0 {
        return None;
    }
    let ghost all = comments.deep_view();
    let mut best: usize = 0;
    let mut i: usize = 1;
    assert(all.take(1).drop_last() =~= seq![]);
    assert(all.take(1).last() == comments@[0]@);
    assert(newest(seq![]) is None);
    while i < comments.len()
        invariant
            best < i <= comments@.len(),
            all == comments.deep_view(),
            newest(all.take(i as int)) == Some(comments@[best as int]@),
        decreases comments@.len() - i,
    {
        assert(all.take(i + 1).drop_last() =~= all.take(i as int));
        assert(all.take(i + 1).last() == comments@[i as int]@);
        let older = text_before(&comments[i].updated_at, &comments[best].updated_at) || (same(
            &comments[i].updated_at,
            &comments[best].updated_at,
        ) && comments[i].id < comments[best].id);
        if !older {
            best = i;
        }
        i = i + 1;
    }
    assert(all.take(i as int) =~= all);
    Some(best)
}

/// No comment was updated after the newest one.
pub proof fn law_newest_is_last_updated(comments: Seq<GhStackCommentView>)
    requires
        comments.len() > 0,
    ensures
        newest(comments) is Some,
        comments.contains(newest(comments)->0),
        forall|i: int| 0 <= i < comments.len() ==> !is_older(newest(comments)->0, comments[i]),
    decreases comments.len(),
{
    let last = comments.last();
    text::lemma_order_total(last.updated_at, last.updated_at);
    if comments.len() == 1 {
        assert(comments.drop_last() =~= seq![]);
        assert(comments[0] == last);
    } else {
        let rest = comments.drop_last();
        law_newest_is_last_updated(rest);
        let best = newest(rest)->0;
        let k = choose|k: int| 0 <= k < rest.len() && rest[k] == best;
        assert(comments[k] == best);
        let r = newest(comments)->0;
        text::lemma_order_total(last.updated_at, best.updated_at);
        text::lemma_order_total(best.updated_at, best.updated_at);
        assert(comments[comments.len() - 1] == last);
        assert forall|i: int| 0 <= i < comments.len() implies !is_older(r, comments[i]) by {
            if i < rest.len() {
                assert(rest[i] == comments[i]);
                assert(!is_older(best, rest[i]));
                if r == last && is_older(last, comments[i]) {
                    let c = comments[i];
                    text::lemma_order_total(best.updated_at, c.updated_at);
                    text::lemma_order_total(last.updated_at, c.updated_at);
                    if text::comes_before(best.updated_at, last.updated_at) && text::comes_before(
                        last.updated_at,
                        c.updated_at,
                    ) {
                        text::lemma_order_transitive(best.updated_at, last.updated_at, c.updated_at);
                    }
                }
            }
        }
    }
}

pub open spec fn marked(comments: Seq<GhStackCommentView>) -> Seq<GhStackCommentView>
    decreases comments.len(),
{
    if comments.len() == 0 {
        seq![]
    } else {
        let rest = marked(comments.drop_last());
        if text::contains(comments.last().body, STACK_COMMENT_MARKER@) {
            rest.push(comments.last())
        } else {
            rest
        }
    }
}

/// The stack comments that an account wrote.
pub open spec fn marked_by(comments: Seq<GhStackCommentView>, login: Seq<char>) -> Seq<
    GhStackCommentView,
>
    decreases comments.len(),
{
    if comments.len() == 0 {
        seq![]
    } else {
        let rest = marked_by(comments.drop_last(), login);
        if comments.last().user_login == login && text::contains(
            comments.last().body,
            STACK_COMMENT_MARKER@,
        ) {
            rest.push(comments.last())
        } else {
            rest
        }
    }
}

fn keep_marked(comments: &Vec<GhStackComment>) -> (r: Vec<GhStackComment>)
    ensures
        r.deep_view() == marked(comments.deep_view()),
{
    let ghost all = comments.deep_view();
    let mut out: Vec<GhStackComment> = Vec::new();
    let mut i: usize = 0;
    assert(out.deep_view() =~= marked(all.take(0)));
    while i < comments.len()
        invariant
            i <= comments@.len(),
            all == comments.deep_view(),
            out.deep_view() == marked(all.take(i as int)),
        decreases comments@.len() - i,
    {
        let ghost before = out.deep_view();
        assert(all.take(i + 1).drop_last() =~= all.take(i as int));
        assert(all.take(i + 1).last() == comments@[i as int]@);
        if text_contains(&comments[i].body, STACK_COMMENT_MARKER) {
            out.push(comments[i].copy());
            assert(out.deep_view() =~= before.push(comments@[i as int]@));
        }
        i = i + 1;
    }
    assert(all.take(i as int) =~= all);
    out
}

fn keep_marked_by(comments: &Vec<GhStackComment>, login: &str) -> (r: Vec<GhStackComment>)
    ensures
        r.deep_view() == marked_by(comments.deep_view(), login@),
{
    let ghost all = comments.deep_view();
    let mut out: Vec<GhStackComment> = Vec::new();
    let mut i: usize = 0;
    assert(out.deep_view() =~= marked_by(all.take(0), login@));
    while i < comments.len()
        invariant
            i <= comments@.len(),
            all == comments.deep_view(),
            out.deep_view() == marked_by(all.take(i as int), login@),
        decreases comments@.len() - i,
    {
        let ghost before = out.deep_view();
        assert(all.take(i + 1).drop_last() =~= all.take(i as int));
        assert(all.take(i + 1).last() == comments@[i as int]@);
        if same(&comments[i].user_login, login) && text_contains(
            &comments[i].body,
            STACK_COMMENT_MARKER,
        ) {
            out.push(comments[i].copy());
            assert(out.deep_view() =~= before.push(comments@[i as int]@));
        }
        i = i + 1;
    }
    assert(all.take(i as int) =~= all);
    out
}

// ---------------------------------------------------------------------------
// Reading comments
// ---------------------------------------------------------------------------

pub open spec fn comment_object(pr_number: u64, change_id: Seq<char>) -> Seq<char> {
    "phase=stack-comments object=PR #"@ + text::decimal(pr_number as nat) + " change:"@ + change_id
}

fn comment_object_text(pr_number: u64, change_id: &str) -> (r: String)
    ensures
        r@ == comment_object(pr_number, change_id@),
{
    let mut s = "phase=stack-comments object=PR #".to_owned();
    s.append(&number_text(pr_number));
    s.append(" change:");
    s.append(change_id);
    s
}

/// The failure of a request about the comments of a pull request.
pub open spec fn comments_failure(
    pr_number: u64,
    change_id: Seq<char>,
    args: Seq<Seq<char>>,
    stderr: Seq<char>,
) -> Seq<CauseView> {
    error::plain(
        comment_object(pr_number, change_id) + " failed-api=`"@ + output::shown("gh"@, args) + "` error="@
            + text::trim(stderr) + " safe-next-command=`forklift submit --dry-run`"@,
    )
}

fn make_comments_failure(pr_number: u64, change_id: &str, args: &Vec<String>, stderr: &str) -> (r:
    Error)
    ensures
        r@ == comments_failure(pr_number, change_id@, args.deep_view(), stderr@),
{
    let mut message = comment_object_text(pr_number, change_id);
    message.append(" failed-api=`");
    message.append(&display_command("gh", args));
    message.append("` error=");
    message.append(&trimmed(stderr));
    message.append(" safe-next-command=`forklift submit --dry-run`");
    fail(&message)
}

pub open spec fn comment_lookup(pr_number: u64, change_id: Seq<char>) -> Seq<char> {
    comment_object(pr_number, change_id) + " parse stack comment lookup"@
}

/// The record from `before` to `after` holds the reading of one line as a comment: the line itself,
/// or the JSON string in it.
pub open spec fn comment_line_read(
    before: Seq<Event>,
    after: Seq<Event>,
    line: Seq<char>,
    pr_number: u64,
    change_id: Seq<char>,
    r: Result<GhStackCommentView, Seq<CauseView>>,
) -> bool {
    let n = before.len() as int;
    let context = comment_lookup(pr_number, change_id);
    &&& record::extends(before, after)
    &&& after.len() > n
    &&& after[n] is CommentRead && after[n]->CommentRead_json == line
    &&& match after[n]->comment {
        Ok(comment) => after.len() == n + 1 && r == Ok::<_, Seq<CauseView>>(comment),
        Err(e) => match outside::json_string(line) {
            Err(e) => after.len() == n + 1 && r == Err::<GhStackCommentView, _>(
                error::in_context(context, error::plain(e)),
            ),
            Ok(encoded) => {
                &&& after.len() == n + 2
                &&& after[n + 1] is CommentRead && after[n + 1]->CommentRead_json == encoded
                &&& r == match after[n + 1]->comment {
                    Ok(comment) => Ok(comment),
                    Err(e) => Err(error::in_context(context, e)),
                }
            },
        },
    }
}

pub fn parse_stack_comment_line<H: Host>(
    sh: &mut Shell<H>,
    line: &str,
    pr_number: u64,
    change_id: &str,
) -> (r: Result<GhStackComment, Error>)
    ensures
        record::extends(old(sh).log(), final(sh).log()),
        comment_line_read(
            old(sh).log(),
            final(sh).log(),
            line@,
            pr_number,
            change_id@,
            error::res(r),
        ),
{
    let ghost start = sh.log();
    let ghost n = start.len() as int;
    if let Ok(comment) = sh.read_comment(line) {
        return Ok(comment);
    }
    let mut context = comment_object_text(pr_number, change_id);
    context.append(" parse stack comment lookup");
    let encoded = match read_json_string(line) {
        Ok(encoded) => encoded,
        Err(error) => return Err(fail(&error).context(&context)),
    };
    let ghost mid = sh.log();
    let second = sh.read_comment(&encoded);
    assert(sh.log()[n] == mid[n]);
    match second {
        Ok(comment) => Ok(comment),
        Err(error) => Err(error.context(&context)),
    }
}

/// The record from `before` to `after` holds the reading of these lines one after the other, up to
/// the first failure; blank lines are skipped.
pub open spec fn comment_lines_read(
    before: Seq<Event>,
    after: Seq<Event>,
    done: Seq<GhStackCommentView>,
    rows: Seq<Seq<char>>,
    pr_number: u64,
    change_id: Seq<char>,
    r: Result<Seq<GhStackCommentView>, Seq<CauseView>>,
) -> bool
    decreases rows.len(),
{
    if rows.len() == 0 {
        after == before && r == Ok::<_, Seq<CauseView>>(done)
    } else if text::is_blank(rows[0]) {
        comment_lines_read(before, after, done, rows.drop_first(), pr_number, change_id, r)
    } else {
        exists|mid: Seq<Event>, first: Result<GhStackCommentView, Seq<CauseView>>|
            {
                &&& #[trigger] comment_line_read(
                    before,
                    mid,
                    rows[0],
                    pr_number,
                    change_id,
                    first,
                )
                &&& match first {
                    Err(e) => after == mid && r == Err::<Seq<GhStackCommentView>, _>(e),
                    Ok(comment) => comment_lines_read(
                        mid,
                        after,
                        done.push(comment),
                        rows.drop_first(),
                        pr_number,
                        change_id,
                        r,
                    ),
                }
            }
    }
}

fn read_comment_lines<H: Host>(
    sh: &mut Shell<H>,
    done: Vec<GhStackComment>,
    rows: &Vec<String>,
    from: usize,
    pr_number: u64,
    change_id: &str,
) -> (r: Result<Vec<GhStackComment>, Error>)
    requires
        from <= rows@.len(),
    ensures
        record::extends(old(sh).log(), final(sh).log()),
        comment_lines_read(
            old(sh).log(),
            final(sh).log(),
            done.deep_view(),
            rows.deep_view().skip(from as int),
            pr_number,
            change_id@,
            error::res(r),
        ),
    decreases rows@.len() - from,
{
    let ghost rest = rows.deep_view().skip(from as int);
    if from == rows.len() {
        return Ok(done);
    }
    assert(rest[0] == rows@[from as int]@);
    assert(rest.drop_first() =~= rows.deep_view().skip(from + 1));
    if blank(&rows[from]) {
        return read_comment_lines(sh, done, rows, from + 1, pr_number, change_id);
    }
    let ghost start = sh.log();
    let first = parse_stack_comment_line(sh, &rows[from], pr_number, change_id);
    let ghost seen = error::res(first);
    assert(comment_line_read(start, sh.log(), rest[0], pr_number, change_id@, seen));
    match first {
        Err(error) => Err(error),
        Ok(comment) => {
            let mut more = done;
            more.push(comment);
            assert(more.deep_view() =~= done.deep_view().push(comment@));
            read_comment_lines(sh, more, rows, from + 1, pr_number, change_id)
        },
    }
}

pub open spec fn comments_args(repo: Seq<char>, pr_number: u64) -> Seq<Seq<char>> {
    seq![
        "api"@,
        "--paginate"@,
        "repos/"@ + repo + "/issues/"@ + text::decimal(pr_number as nat) + "/comments"@,
        "--jq"@,
        STACK_COMMENT_JQ@,
    ]
}

/// The record from `before` to `after` holds the listing of the comments of a pull request.
pub open spec fn comments_listed(
    before: Seq<Event>,
    after: Seq<Event>,
    repo: Seq<char>,
    pr_number: u64,
    change_id: Seq<char>,
    r: Result<Seq<GhStackCommentView>, Seq<CauseView>>,
) -> bool {
    let n = before.len() as int;
    let args = comments_args(repo, pr_number);
    &&& record::extends(before, after)
    &&& after.len() > n
    &&& record::is_call(after[n], "gh"@, args)
    &&& match record::reply_of(after[n]) {
        Err(e) => after.len() == n + 1 && r == Err::<Seq<GhStackCommentView>, _>(e),
        Ok(output) => if !output.success {
            after.len() == n + 1 && r == Err::<Seq<GhStackCommentView>, _>(
                comments_failure(pr_number, change_id, args, output.stderr),
            )
        } else {
            comment_lines_read(
                after.take(n + 1),
                after,
                seq![],
                text::lines(output.stdout),
                pr_number,
                change_id,
                r,
            )
        },
    }
}

pub fn list_stack_comments<H: Host>(
    sh: &mut Shell<H>,
    github: &GitHubContext,
    pr_number: u64,
    change_id: &str,
) -> (r: Result<Vec<GhStackComment>, Error>)
    ensures
        record::extends(old(sh).log(), final(sh).log()),
        comments_listed(
            old(sh).log(),
            final(sh).log(),
            github@.repo,
            pr_number,
            change_id@,
            error::res(r),
        ),
{
    let ghost start = sh.log();
    let ghost n = start.len() as int;
    let endpoint = cat5("repos/", &github.repo, "/issues/", &number_text(pr_number), "/comments");
    let args = words(&["api", "--paginate", &endpoint, "--jq", STACK_COMMENT_JQ]);
    assert(args.deep_view() =~= comments_args(github@.repo, pr_number));
    let reply = gh_run(sh, &args);
    let ghost mid = sh.log();
    let output = match reply {
        Ok(output) => output,
        Err(error) => return Err(error),
    };
    if !output.success {
        return Err(make_comments_failure(pr_number, change_id, &args, &output.stderr));
    }
    let rows = text_lines(&output.stdout);
    let none: Vec<GhStackComment> = Vec::new();
    assert(none.deep_view() =~= seq![]);
    assert(rows.deep_view().skip(0) =~= rows.deep_view());
    let r = read_comment_lines(sh, none, &rows, 0, pr_number, change_id);
    assert(sh.log().take(n + 1) =~= mid);
    assert(sh.log()[n] == sh.log().take(n + 1)[n]);
    r
}

/// The record from `before` to `after` holds the search for the newest stack comment of a pull
/// request.
pub open spec fn latest_comment_found(
    before: Seq<Event>,
    after: Seq<Event>,
    repo: Seq<char>,
    pr_number: u64,
    change_id: Seq<char>,
    r: Result<Option<GhStackCommentView>, Seq<CauseView>>,
) -> bool {
    exists|all: Result<Seq<GhStackCommentView>, Seq<CauseView>>|
        {
            &&& #[trigger] comments_listed(before, after, repo, pr_number, change_id, all)
            &&& r == match all {
                Ok(comments) => Ok(newest(marked(comments))),
                Err(e) => Err(e),
            }
        }
}

/// The newest stack comment of a pull request.
pub fn latest_stack_comment<H: Host>(
    sh: &mut Shell<H>,
    github: &GitHubContext,
    pr_number: u64,
    change_id: &str,
) -> (r: Result<Option<GhStackComment>, Error>)
    ensures
        record::extends(old(sh).log(), final(sh).log()),
        latest_comment_found(
            old(sh).log(),
            final(sh).log(),
            github@.repo,
            pr_number,
            change_id@,
            error::res(r),
        ),
{
    let found = list_stack_comments(sh, github, pr_number, change_id);
    let ghost all = error::res(found);
    assert(comments_listed(
        old(sh).log(),
        sh.log(),
        github@.repo,
        pr_number,
        change_id@,
        all,
    ));
    match found {
        Err(error) => Err(error),
        Ok(comments) => {
            let kept = keep_marked(&comments);
            match find_newest(&kept) {
                Some(i) => Ok(Some(kept[i].copy())),
                None => Ok(None),
            }
        },
    }
}

/// The id of the newest stack comment that the account wrote; a failed listing counts as none, since
/// a later submit looks again.
pub fn find_stack_comment_id<H: Host>(
    sh: &mut Shell<H>,
    github: &GitHubContext,
    pr_number: u64,
    change_id: &str,
) -> (r: Option<String>)
    ensures
        record::extends(old(sh).log(), final(sh).log()),
        comment_id_searched(
            old(sh).log(),
            final(sh).log(),
            github@,
            pr_number,
            change_id@,
            r.deep_view(),
        ),
{
    let found = list_stack_comments(sh, github, pr_number, change_id);
    let ghost all = error::res(found);
    assert(comments_listed(
        old(sh).log(),
        sh.log(),
        github@.repo,
        pr_number,
        change_id@,
        all,
    ));
    match found {
        Err(_) => None,
        Ok(comments) => {
            let kept = keep_marked_by(&comments, &github.username);
            match find_newest(&kept) {
                Some(i) => Some(number_text(kept[i].id)),
                None => None,
            }
        },
    }
}

/// The record from `before` to `after` holds the search for the id of a stack comment.
pub open spec fn comment_id_searched(
    before: Seq<Event>,
    after: Seq<Event>,
    github: GitHubContextView,
    pr_number: u64,
    change_id: Seq<char>,
    r: Option<Seq<char>>,
) -> bool {
    exists|all: Result<Seq<GhStackCommentView>, Seq<CauseView>>|
        {
            &&& #[trigger] comments_listed(before, after, github.repo, pr_number, change_id, all)
            &&& r == match all {
                Ok(comments) => match newest(marked_by(comments, github.username)) {
                    Some(comment) => Some(text::decimal(comment.id as nat)),
                    None => None,
                },
                Err(e) => None,
            }
        }
}

// ---------------------------------------------------------------------------
// Writing comments
// ---------------------------------------------------------------------------

/// What was done about a stack comment, with its id.
pub enum StackCommentAction {
    Created(String),
    /// Also says how many other stack comments there are.
    Updated(String, usize),
    Unchanged(String),
}

pub enum StackCommentActionView {
    Created(Seq<char>),
    Updated(Seq<char>, usize),
    Unchanged(Seq<char>),
}

impl View for StackCommentAction {
    type V = StackCommentActionView;

    open spec fn view(&self) -> StackCommentActionView {
        match self {
            StackCommentAction::Created(id) => StackCommentActionView::Created(id@),
            StackCommentAction::Updated(id, n) => StackCommentActionView::Updated(id@, *n),
            StackCommentAction::Unchanged(id) => StackCommentActionView::Unchanged(id@),
        }
    }
}

impl DeepView for StackCommentAction {
    type V = StackCommentActionView;

    open spec fn deep_view(&self) -> StackCommentActionView {
        self@
    }
}

/// The record from `before` to `after` holds a request that writes a comment, and the reading of the
/// id that came back.
pub open spec fn comment_written(
    before: Seq<Event>,
    after: Seq<Event>,
    args: Seq<Seq<char>>,
    action: Seq<char>,
    pr_number: u64,
    change_id: Seq<char>,
    r: Result<Seq<char>, Seq<CauseView>>,
) -> bool {
    let n = before.len() as int;
    &&& record::extends(before, after)
    &&& after.len() > n
    &&& record::is_call(after[n], "gh"@, args)
    &&& match record::reply_of(after[n]) {
        Err(e) => after.len() == n + 1 && r == Err::<Seq<char>, _>(e),
        Ok(output) => if !output.success {
            after.len() == n + 1 && r == Err::<Seq<char>, _>(
                comments_failure(pr_number, change_id, args, output.stderr),
            )
        } else {
            &&& after.len() == n + 2
            &&& after[n + 1] is CommentIdRead && after[n + 1]->CommentIdRead_json == output.stdout
            &&& r == match after[n + 1]->CommentIdRead_id {
                Ok(id) => Ok(text::decimal(id as nat)),
                Err(e) => Err(
                    error::in_context(
                        comment_object(pr_number, change_id) + " parse "@ + action
                            + " stack comment response"@,
                        e,
                    ),
                ),
            }
        },
    }
}

pub fn run_comment_mutation<H: Host>(
    sh: &mut Shell<H>,
    args: &Vec<String>,
    action: &str,
    pr_number: u64,
    change_id: &str,
) -> (r: Result<String, Error>)
    ensures
        record::extends(old(sh).log(), final(sh).log()),
        comment_written(
            old(sh).log(),
            final(sh).log(),
            args.deep_view(),
            action@,
            pr_number,
            change_id@,
            error::res(r),
        ),
{
    let ghost start = sh.log();
    let ghost n = start.len() as int;
    let reply = gh_run(sh, args);
    let ghost mid = sh.log();
    let output = match reply {
        Ok(output) => output,
        Err(error) => return Err(error),
    };
    if !output.success {
        return Err(make_comments_failure(pr_number, change_id, args, &output.stderr));
    }
    let id = sh.read_comment_id(&output.stdout);
    assert(sh.log()[n] == mid[n]);
    match id {
        Ok(id) => Ok(number_text(id)),
        Err(error) => {
            let mut context = comment_object_text(pr_number, change_id);
            context.append(" parse ");
            context.append(action);
            context.append(" stack comment response");
            Err(error.context(&context))
        },
    }
}

pub open spec fn create_comment_args(repo: Seq<char>, pr_number: u64, body: Seq<char>) -> Seq<
    Seq<char>,
> {
    seq![
        "api"@,
        "-X"@,
        "POST"@,
        "repos/"@ + repo + "/issues/"@ + text::decimal(pr_number as nat) + "/comments"@,
        "-f"@,
        "body="@ + body,
        "--jq"@,
        "{id}"@,
    ]
}

pub fn create_stack_comment<H: Host>(
    sh: &mut Shell<H>,
    github: &GitHubContext,
    pr_number: u64,
    change_id: &str,
    body: &str,
) -> (r: Result<String, Error>)
    ensures
        record::extends(old(sh).log(), final(sh).log()),
        comment_written(
            old(sh).log(),
            final(sh).log(),
            create_comment_args(github@.repo, pr_number, body@),
            "create"@,
            pr_number,
            change_id@,
            error::res(r),
        ),
{
    let endpoint = cat5("repos/", &github.repo, "/issues/", &number_text(pr_number), "/comments");
    let field = cat("body=", body);
    let args = words(&["api", "-X", "POST", &endpoint, "-f", &field, "--jq", "{id}"]);
    assert(args.deep_view() =~= create_comment_args(github@.repo, pr_number, body@));
    run_comment_mutation(sh, &args, "create", pr_number, change_id)
}

pub open spec fn update_comment_args(repo: Seq<char>, comment_id: u64, body: Seq<char>) -> Seq<
    Seq<char>,
> {
    seq![
        "api"@,
        "-X"@,
        "PATCH"@,
        "repos/"@ + repo + "/issues/comments/"@ + text::decimal(comment_id as nat),
        "-f"@,
        "body="@ + body,
        "--jq"@,
        "{id}"@,
    ]
}

pub fn update_stack_comment<H: Host>(
    sh: &mut Shell<H>,
    github: &GitHubContext,
    comment_id: u64,
    pr_number: u64,
    change_id: &str,
    body: &str,
) -> (r: Result<String, Error>)
    ensures
        record::extends(old(sh).log(), final(sh).log()),
        comment_written(
            old(sh).log(),
            final(sh).log(),
            update_comment_args(github@.repo, comment_id, body@),
            "update"@,
            pr_number,
            change_id@,
            error::res(r),
        ),
{
    let mut endpoint = cat3("repos/", &github.repo, "/issues/comments/");
    endpoint.append(&number_text(comment_id));
    let field = cat("body=", body);
    let args = words(&["api", "-X", "PATCH", &endpoint, "-f", &field, "--jq", "{id}"]);
    assert(args.deep_view() =~= update_comment_args(github@.repo, comment_id, body@));
    run_comment_mutation(sh, &args, "update", pr_number, change_id)
}

pub open spec fn duplicates_warning(pr_number: u64, duplicates: nat, id: u64) -> Seq<char> {
    "phase=stack-comments object=PR #"@ + text::decimal(pr_number as nat) + " found "@ + text::decimal(
        duplicates,
    ) + " duplicate stack comments; updating newest comment "@ + text::decimal(id as nat)
}

/// The record after the warning about further stack comments, if there are any.
pub open spec fn duplicates_warned(
    before: Seq<Event>,
    pr_number: u64,
    duplicates: nat,
    id: u64,
) -> Seq<Event> {
    if duplicates > 0 {
        before.push(Event::Said(LineView::Warn(duplicates_warning(pr_number, duplicates, id))))
    } else {
        before
    }
}

/// The record from `before` to `after` holds what is done once the account's stack comments are known:
/// the first is created, an equal one stays, else the newest is updated; others are warned about.
pub open spec fn comment_settled(
    before: Seq<Event>,
    after: Seq<Event>,
    github: GitHubContextView,
    pr_number: u64,
    change_id: Seq<char>,
    body: Seq<char>,
    own: Seq<GhStackCommentView>,
    r: Result<StackCommentActionView, Seq<CauseView>>,
) -> bool {
    if own.len() == 0 {
        exists|id: Result<Seq<char>, Seq<CauseView>>|
            {
                &&& #[trigger] comment_written(
                    before,
                    after,
                    create_comment_args(github.repo, pr_number, body),
                    "create"@,
                    pr_number,
                    change_id,
                    id,
                )
                &&& r == match id {
                    Ok(id) => Ok(StackCommentActionView::Created(id)),
                    Err(e) => Err(e),
                }
            }
    } else {
        let last = newest(own)->0;
        let duplicates = (own.len() - 1) as nat;
        let warned = duplicates_warned(before, pr_number, duplicates, last.id);
        if duplicates == 0 && last.body == body {
            after == warned && r == Ok::<_, Seq<CauseView>>(
                StackCommentActionView::Unchanged(text::decimal(last.id as nat)),
            )
        } else {
            exists|id: Result<Seq<char>, Seq<CauseView>>|
                {
                    &&& #[trigger] comment_written(
                        warned,
                        after,
                        update_comment_args(github.repo, last.id, body),
                        "update"@,
                        pr_number,
                        change_id,
                        id,
                    )
                    &&& r == match id {
                        Ok(id) => Ok(StackCommentActionView::Updated(id, duplicates as usize)),
                        Err(e) => Err(e),
                    }
                }
        }
    }
}

fn settle_comment<H: Host>(
    sh: &mut Shell<H>,
    github: &GitHubContext,
    pr_number: u64,
    change_id: &str,
    body: &str,
    own: &Vec<GhStackComment>,
) -> (r: Result<StackCommentAction, Error>)
    ensures
        record::extends(old(sh).log(), final(sh).log()),
        comment_settled(
            old(sh).log(),
            final(sh).log(),
            github@,
            pr_number,
            change_id@,
            body@,
            own.deep_view(),
            error::res(r),
        ),
{
    let ghost start = sh.log();
    let newest_at = match find_newest(own) {
        Some(i) => i,
        None => {
            let written = create_stack_comment(sh, github, pr_number, change_id, body);
            let ghost id = error::res(written);
            assert(comment_written(
                start,
                sh.log(),
                create_comment_args(github@.repo, pr_number, body@),
                "create"@,
                pr_number,
                change_id@,
                id,
            ));
            return match written {
                Ok(id) => Ok(StackCommentAction::Created(id)),
                Err(error) => Err(error),
            };
        },
    };
    let last = &own[newest_at];
    let duplicates: usize = own.len() - 1;
    if duplicates > 0 {
        let mut warning = cat5(
            "phase=stack-comments object=PR #",
            &number_text(pr_number),
            " found ",
            &number_text(duplicates as u64),
            " duplicate stack comments; updating newest comment ",
        );
        warning.append(&number_text(last.id));
        sh.say(Line::Warn(warning));
    }
    let ghost warned = sh.log();
    let ghost best = newest(own.deep_view())->0;
    assert(best == last@);
    assert(warned == duplicates_warned(start, pr_number, duplicates as nat, best.id));
    if duplicates == 0 && same(&last.body, body) {
        return Ok(StackCommentAction::Unchanged(number_text(last.id)));
    }
    let written = update_stack_comment(sh, github, last.id, pr_number, change_id, body);
    let ghost id = error::res(written);
    assert(comment_written(
        duplicates_warned(start, pr_number, (own.deep_view().len() - 1) as nat, best.id),
        sh.log(),
        update_comment_args(github@.repo, best.id, body@),
        "update"@,
        pr_number,
        change_id@,
        id,
    ));
    match written {
        Ok(id) => Ok(StackCommentAction::Updated(id, duplicates)),
        Err(error) => Err(error),
    }
}

/// The record from `before` to `after` holds the listing of the comments and what is then done.
pub open spec fn comment_upserted(
    before: Seq<Event>,
    after: Seq<Event>,
    github: GitHubContextView,
    pr_number: u64,
    change_id: Seq<char>,
    body: Seq<char>,
    r: Result<StackCommentActionView, Seq<CauseView>>,
) -> bool {
    exists|mid: Seq<Event>, all: Result<Seq<GhStackCommentView>, Seq<CauseView>>|
        {
            &&& #[trigger] comments_listed(before, mid, github.repo, pr_number, change_id, all)
            &&& match all {
                Err(e) => after == mid && r == Err::<StackCommentActionView, _>(e),
                Ok(comments) => comment_settled(
                    mid,
                    after,
                    github,
                    pr_number,
                    change_id,
                    body,
                    marked_by(comments, github.username),
                    r,
                ),
            }
        }
}

pub fn upsert_stack_comment<H: Host>(
    sh: &mut Shell<H>,
    github: &GitHubContext,
    pr_number: u64,
    change_id: &str,
    body: &str,
) -> (r: Result<StackCommentAction, Error>)
    ensures
        record::extends(old(sh).log(), final(sh).log()),
        comment_upserted(
            old(sh).log(),
            final(sh).log(),
            github@,
            pr_number,
            change_id@,
            body@,
            error::res(r),
        ),
{
    let ghost start = sh.log();
    let found = list_stack_comments(sh, github, pr_number, change_id);
    let ghost all = error::res(found);
    assert(comments_listed(start, sh.log(), github@.repo, pr_number, change_id@, all));
    match found {
        Err(error) => Err(error),
        Ok(comments) => {
            let own = keep_marked_by(&comments, &github.username);
            settle_comment(sh, github, pr_number, change_id, body, &own)
        },
    }
}

} // verus!
