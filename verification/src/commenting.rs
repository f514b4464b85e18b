//! What is sent to GitHub as a stack comment, by a repair and by any other update.

use vstd::prelude::*;

use crate::bodies;
use crate::comments;
use crate::comments::{STACK_COMMENT_MARKER, StackCommentActionView};
use crate::error::CauseView;
use crate::model::{
    AppConfigView, Diagnostics, GhPrView, GhStackCommentView, GitHubContextView, RepairActionView,
    RepairPlanView,
};
use crate::pr;
use crate::pr::GetTargetView;
use crate::quiet;
use crate::reading;
use crate::reading::{Deed, deed};
use crate::record;
use crate::record::Event;
use crate::repair;
use crate::repair::RepairSummary;
use crate::text;
use crate::ui;

verus! {

broadcast use crate::record::group_record;

/// A new comment with this text is put on a pull request.
pub open spec fn posts_comment(event: Event, repo: Seq<char>, number: u64, body: Seq<char>) -> bool {
    match deed(event) {
        Deed::Request { method, path, fields } => {
            &&& method == "POST"@
            &&& path == "repos/"@ + repo + "/issues/"@ + text::decimal(number as nat) + "/comments"@
            &&& reading::field(fields, "body"@) == Some(body)
        },
        _ => false,
    }
}

/// A comment gets this text.
pub open spec fn rewrites_comment(event: Event, repo: Seq<char>, id: u64, body: Seq<char>) -> bool {
    match deed(event) {
        Deed::Request { method, path, fields } => {
            &&& method == "PATCH"@
            &&& path == "repos/"@ + repo + "/issues/comments/"@ + text::decimal(id as nat)
            &&& reading::field(fields, "body"@) == Some(body)
        },
        _ => false,
    }
}

/// The meeting read a stack comment of this account.
pub open spec fn read_own(event: Event, login: Seq<char>, comment: GhStackCommentView) -> bool {
    &&& event is CommentRead
    &&& event->comment == Ok::<GhStackCommentView, Seq<CauseView>>(comment)
    &&& comment.user_login == login
    &&& text::contains(comment.body, STACK_COMMENT_MARKER@)
}

/// Whether a stack comment of this account was read in `from..to`.
pub open spec fn was_read(
    log: Seq<Event>,
    from: int,
    to: int,
    login: Seq<char>,
    comment: GhStackCommentView,
) -> bool {
    exists|i: int| from <= i < to && #[trigger] read_own(log[i], login, comment)
}

/// Whether a request at `i` puts this text on a pull request: as a new comment, or in place of a stack
/// comment of this account that was read before.
pub open spec fn comments_at(
    log: Seq<Event>,
    from: int,
    i: int,
    github: GitHubContextView,
    number: u64,
    body: Seq<char>,
) -> bool {
    ||| posts_comment(log[i], github.repo, number, body)
    ||| exists|comment: GhStackCommentView|
        was_read(log, from, i, github.username, comment) && #[trigger] rewrites_comment(
            log[i],
            github.repo,
            comment.id,
            body,
        )
}

proof fn lemma_comment_lines(repo: Seq<char>, number: u64, body: Seq<char>)
    ensures
        reading::deed_of("gh"@, comments::create_comment_args(repo, number, body)) == (Deed::Request {
            method: "POST"@,
            path: "repos/"@ + repo + "/issues/"@ + text::decimal(number as nat) + "/comments"@,
            fields: seq!["body="@ + body],
        }),
        reading::deed_of("gh"@, comments::update_comment_args(repo, number, body)) == (Deed::Request {
            method: "PATCH"@,
            path: "repos/"@ + repo + "/issues/comments/"@ + text::decimal(number as nat),
            fields: seq!["body="@ + body],
        }),
        reading::field(seq!["body="@ + body], "body"@) == Some(body),
{
    reveal(reading::deed_of);
    reading::lemma_words();
    reveal_with_fuel(reading::values_from, 3);
    let posted = comments::create_comment_args(repo, number, body);
    assert(reading::values_from(posted, "-f"@, 4) =~= seq!["body="@ + body]);
    let patched = comments::update_comment_args(repo, number, body);
    assert(reading::values_from(patched, "-f"@, 4) =~= seq!["body="@ + body]);
    reading::lemma_field_names();
    assert("body="@ + body =~= "body"@ + "="@ + body);
    reading::lemma_field_first(seq!["body="@ + body], "body"@, body);
}

pub proof fn lemma_lines_read(
    before: Seq<Event>,
    after: Seq<Event>,
    done: Seq<GhStackCommentView>,
    rows: Seq<Seq<char>>,
    pr_number: u64,
    change_id: Seq<char>,
    all: Seq<GhStackCommentView>,
    comment: GhStackCommentView,
)
    requires
        comments::comment_lines_read(before, after, done, rows, pr_number, change_id, Ok(all)),
        all.contains(comment),
    ensures
        record::extends(before, after),
        done.contains(comment) || exists|i: int|
            before.len() <= i < after.len() && (#[trigger] after[i]) is CommentRead
                && after[i]->comment == Ok::<GhStackCommentView, Seq<CauseView>>(comment),
    decreases rows.len(),
{
    if rows.len() == 0 {
    } else if text::is_blank(rows[0]) {
        lemma_lines_read(
            before,
            after,
            done,
            rows.drop_first(),
            pr_number,
            change_id,
            all,
            comment,
        );
    } else {
        let (mid, first) = choose|
            mid: Seq<Event>,
            first: Result<GhStackCommentView, Seq<CauseView>>,
        |
            {
                &&& #[trigger] comments::comment_line_read(
                    before,
                    mid,
                    rows[0],
                    pr_number,
                    change_id,
                    first,
                )
                &&& match first {
                    Err(e) => after == mid && Ok::<Seq<GhStackCommentView>, Seq<CauseView>>(all)
                        == Err::<Seq<GhStackCommentView>, _>(e),
                    Ok(comment) => comments::comment_lines_read(
                        mid,
                        after,
                        done.push(comment),
                        rows.drop_first(),
                        pr_number,
                        change_id,
                        Ok(all),
                    ),
                }
            };
        let found = first->Ok_0;
        lemma_lines_read(
            mid,
            after,
            done.push(found),
            rows.drop_first(),
            pr_number,
            change_id,
            all,
            comment,
        );
        if done.push(found).contains(comment) && !done.contains(comment) {
            let k = choose|k: int| 0 <= k < done.push(found).len() && done.push(found)[k] == comment;
            assert(k == done.len()) by {
                if k < done.len() {
                    assert(done[k] == comment);
                }
            }
            let n = before.len() as int;
            let last = mid.len() - 1;
            assert(mid[last] is CommentRead && mid[last]->comment == first);
            assert(after.take(mid.len() as int)[last] == mid[last]);
            assert(after[last] is CommentRead);
        }
    }
}

proof fn lemma_marked_by(all: Seq<GhStackCommentView>, login: Seq<char>, comment: GhStackCommentView)
    requires
        comments::marked_by(all, login).contains(comment),
    ensures
        all.contains(comment),
        comment.user_login == login,
        text::contains(comment.body, STACK_COMMENT_MARKER@),
    decreases all.len(),
{
    let own = comments::marked_by(all, login);
    let k = choose|k: int| 0 <= k < own.len() && own[k] == comment;
    let rest = comments::marked_by(all.drop_last(), login);
    if k < rest.len() {
        assert(rest[k] == comment);
        lemma_marked_by(all.drop_last(), login, comment);
        let j = choose|j: int| 0 <= j < all.drop_last().len() && all.drop_last()[j] == comment;
        assert(all[j] == comment);
    } else {
        assert(all[all.len() - 1] == comment);
    }
}

/// Whether a stack comment of this account that was read says this already.
pub open spec fn says_so(
    log: Seq<Event>,
    from: int,
    login: Seq<char>,
    body: Seq<char>,
) -> bool {
    exists|comment: GhStackCommentView|
        comment.body == body && #[trigger] was_read(log, from, log.len() as int, login, comment)
}

/// The law of the comment: an update of a stack comment sends nothing to GitHub but this text, on this
/// pull request, as a new comment or in place of a stack comment of its own account; where it succeeds,
/// the text was sent, or such a comment says it already.
pub proof fn law_comment_is_sent_as_it_is(
    before: Seq<Event>,
    after: Seq<Event>,
    github: GitHubContextView,
    number: u64,
    change_id: Seq<char>,
    body: Seq<char>,
    r: Result<StackCommentActionView, Seq<CauseView>>,
)
    requires
        comments::comment_upserted(before, after, github, number, change_id, body, r),
    ensures
        record::extends(before, after),
        forall|i: int|
            before.len() <= i < after.len() ==> quiet::harmless(#[trigger] after[i]) || comments_at(
                after,
                before.len() as int,
                i,
                github,
                number,
                body,
            ),
        r is Ok ==> says_so(after, before.len() as int, github.username, body) || exists|i: int|
            before.len() <= i < after.len() && #[trigger] comments_at(
                after,
                before.len() as int,
                i,
                github,
                number,
                body,
            ),
{
    broadcast use {crate::quiet::group_quiet, crate::asking::asks_comments_listed};

    let from = before.len() as int;
    let (mid, all) = choose|mid: Seq<Event>, all: Result<Seq<GhStackCommentView>, Seq<CauseView>>|
        {
            &&& #[trigger] comments::comments_listed(
                before,
                mid,
                github.repo,
                number,
                change_id,
                all,
            )
            &&& match all {
                Err(e) => after == mid && r == Err::<StackCommentActionView, _>(e),
                Ok(comments) => comments::comment_settled(
                    mid,
                    after,
                    github,
                    number,
                    change_id,
                    body,
                    comments::marked_by(comments, github.username),
                    r,
                ),
            }
        };
    assert(quiet::quiet(before, mid));
    reveal(quiet::quiet);
    if all is Ok {
        let own = comments::marked_by(all->Ok_0, github.username);
        if own.len() == 0 {
            lemma_comment_lines(github.repo, number, body);
            lemma_sent(mid, after, github, number, change_id, body, own, r);
            let n = mid.len() as int;
            assert(after.take(n) == mid);
            assert forall|i: int| from <= i < after.len() implies quiet::harmless(
                #[trigger] after[i],
            ) || comments_at(after, from, i, github, number, body) by {
                if i < n {
                    assert(after.take(n)[i] == mid[i]);
                }
            }
            if r is Ok {
                assert(comments_at(after, from, n, github, number, body));
            }
        } else {
            comments::law_newest_is_last_updated(own);
            let last = comments::newest(own)->0;
            lemma_marked_by(all->Ok_0, github.username, last);
            lemma_own_read(before, mid, github, number, change_id, all->Ok_0, last);
            lemma_comment_lines(github.repo, last.id, body);
            let duplicates = (own.len() - 1) as nat;
            let warned = comments::duplicates_warned(mid, number, duplicates, last.id);
            let m = choose|m: int| from <= m < mid.len() && #[trigger] read_own(
                mid[m],
                github.username,
                last,
            );
            assert(record::extends(mid, after));
            assert(after.take(mid.len() as int)[m] == mid[m]);
            assert(read_own(after[m], github.username, last));
            if duplicates == 0 && last.body == body {
                assert(was_read(after, from, after.len() as int, github.username, last));
                assert forall|i: int| from <= i < after.len() implies quiet::harmless(
                    #[trigger] after[i],
                ) by {
                    assert(after[i] == mid[i]);
                }
            } else {
                let n = warned.len() as int;
                assert(record::extends(warned, after));
                assert(was_read(after, from, n, github.username, last));
                if after[n] is Call {
                    assert(rewrites_comment(after[n], github.repo, last.id, body));
                    assert(comments_at(after, from, n, github, number, body));
                }
                assert forall|i: int| from <= i < after.len() implies quiet::harmless(
                    #[trigger] after[i],
                ) || comments_at(after, from, i, github, number, body) by {
                    if i < mid.len() {
                        assert(after.take(mid.len() as int)[i] == mid[i]);
                    } else if i < n {
                        assert(after.take(n)[i] == warned[i]);
                    }
                }
                if r is Ok {
                    assert(after[n] is Call) by {
                        reveal(record::in_place);
                    }
                }
            }
        }
    }
}

/// The one request of a first comment.
proof fn lemma_sent(
    mid: Seq<Event>,
    after: Seq<Event>,
    github: GitHubContextView,
    number: u64,
    change_id: Seq<char>,
    body: Seq<char>,
    own: Seq<GhStackCommentView>,
    r: Result<StackCommentActionView, Seq<CauseView>>,
)
    requires
        comments::comment_settled(mid, after, github, number, change_id, body, own, r),
        own.len() == 0,
        reading::deed_of(
            "gh"@,
            comments::create_comment_args(github.repo, number, body),
        ) == (Deed::Request {
            method: "POST"@,
            path: "repos/"@ + github.repo + "/issues/"@ + text::decimal(number as nat)
                + "/comments"@,
            fields: seq!["body="@ + body],
        }),
        reading::field(seq!["body="@ + body], "body"@) == Some(body),
    ensures
        record::extends(mid, after),
        after.len() > mid.len(),
        after[mid.len() as int] is Call ==> posts_comment(
            after[mid.len() as int],
            github.repo,
            number,
            body,
        ),
        r is Ok ==> after[mid.len() as int] is Call,
        quiet::harmless(after[mid.len() as int]) || after[mid.len() as int] is Call,
        forall|i: int| mid.len() < i < after.len() ==> quiet::harmless(#[trigger] after[i]),
{
    reveal(record::in_place);
}

proof fn lemma_own_read(
    before: Seq<Event>,
    mid: Seq<Event>,
    github: GitHubContextView,
    number: u64,
    change_id: Seq<char>,
    all: Seq<GhStackCommentView>,
    comment: GhStackCommentView,
)
    requires
        comments::comments_listed(before, mid, github.repo, number, change_id, Ok(all)),
        all.contains(comment),
        comment.user_login == github.username,
        text::contains(comment.body, STACK_COMMENT_MARKER@),
    ensures
        was_read(mid, before.len() as int, mid.len() as int, github.username, comment),
{
    let n = before.len() as int;
    let output = record::reply_of(mid[n])->Ok_0;
    lemma_lines_read(
        mid.take(n + 1),
        mid,
        seq![],
        text::lines(output.stdout),
        number,
        change_id,
        all,
        comment,
    );
    let i = choose|i: int|
        n + 1 <= i < mid.len() && (#[trigger] mid[i]) is CommentRead && mid[i]->comment == Ok::<
            GhStackCommentView,
            Seq<CauseView>,
        >(comment);
    assert(read_own(mid[i], github.username, comment));
}

/// Whether a text is a stack comment that, read again, lists just the pull requests that a plan kept,
/// bottom first. Texts that would be read as further rows are left out.
pub open spec fn lists_kept(
    config: AppConfigView,
    github: GitHubContextView,
    plan: RepairPlanView,
    body: Seq<char>,
) -> bool {
    &&& text::starts_with(body, STACK_COMMENT_MARKER@)
    &&& is_plain_plan(config, github, plan) ==> comments::numbers_in(text::lines(body)).reverse()
        == pr::numbers_of(plan.open_prs)
}

/// Whether no name or title in a plan would be read as a row of a stack comment.
pub open spec fn is_plain_plan(
    config: AppConfigView,
    github: GitHubContextView,
    plan: RepairPlanView,
) -> bool {
    &&& bodies::one_line(github.repo)
    &&& !text::contains("/"@ + github.repo + "/pull"@, "/pull/"@)
    &&& bodies::one_line(config.trunk)
    &&& !text::contains(config.trunk, "/pull/"@)
    &&& forall|i: int|
        0 <= i < plan.open_prs.len() ==> !text::contains(
            bodies::link_label((#[trigger] plan.open_prs[i]).title),
            "/pull/"@,
        ) && bodies::one_line(plan.open_prs[i].head_ref_name) && bodies::one_line(
            plan.open_prs[i].created_at,
        )
}

/// Whether a meeting puts a text on a pull request, as a new comment or in place of another.
pub open spec fn sends_comment(event: Event, repo: Seq<char>, number: u64, body: Seq<char>) -> bool {
    ||| posts_comment(event, repo, number, body)
    ||| exists|id: u64| #[trigger] rewrites_comment(event, repo, id, body)
}

/// Whether a meeting puts a comment that lists what a plan kept on a pull request that it kept.
pub open spec fn repairs_comment(
    event: Event,
    config: AppConfigView,
    github: GitHubContextView,
    plan: RepairPlanView,
) -> bool {
    exists|pr: GhPrView, body: Seq<char>|
        {
            &&& plan.open_prs.contains(pr)
            &&& lists_kept(config, github, plan, body)
            &&& #[trigger] sends_comment(event, github.repo, pr.number, body)
        }
}

pub open spec fn repair_deeds(
    config: AppConfigView,
    github: GitHubContextView,
    plan: RepairPlanView,
) -> spec_fn(Event) -> bool {
    |event: Event| repairs_comment(event, config, github, plan)
}

/// Whether all that was changed are comments on the pull requests of one accepted stack, from which
/// merged ones were dropped, and each lists just that stack.
pub open spec fn repaired_by(
    before: Seq<Event>,
    after: Seq<Event>,
    config: AppConfigView,
    github: GitHubContextView,
    target: u64,
    plan: RepairPlanView,
) -> bool {
    &&& pr::pr_stack_fault(config, github, target, plan.open_prs) is None
    &&& plan.pruned_merged_prs.len() > 0
    &&& reading::did(before, after, repair_deeds(config, github, plan))
}

/// Whether a run changed nothing but the comments of one stack.
#[verifier::opaque]
pub open spec fn repaired(before: Seq<Event>, after: Seq<Event>, config: AppConfigView) -> bool {
    ||| quiet::quiet(before, after)
    ||| exists|github: GitHubContextView, target: u64, plan: RepairPlanView|
        #[trigger] repaired_by(before, after, config, github, target, plan)
}

broadcast proof fn lemma_quiet_repaired(before: Seq<Event>, after: Seq<Event>, config: AppConfigView)
    requires
        quiet::quiet(before, after),
    ensures
        #[trigger] repaired(before, after, config),
{
    reveal(repaired);
}

broadcast proof fn lemma_quiet_then_repaired(
    a: Seq<Event>,
    b: Seq<Event>,
    c: Seq<Event>,
    config: AppConfigView,
)
    requires
        #[trigger] quiet::quiet(a, b),
        #[trigger] repaired(b, c, config),
    ensures
        repaired(a, c, config),
{
    broadcast use {crate::quiet::group_quiet, crate::reading::group_reading};

    reveal(repaired);
    if !quiet::quiet(b, c) {
        let (github, target, plan) = choose|
            github: GitHubContextView,
            target: u64,
            plan: RepairPlanView,
        |
            #[trigger] repaired_by(b, c, config, github, target, plan);
        assert(repaired_by(a, c, config, github, target, plan));
    }
}

proof fn lemma_repaired_text(
    config: AppConfigView,
    github: GitHubContextView,
    target: u64,
    plan: RepairPlanView,
    pr: GhPrView,
)
    requires
        pr::pr_stack_fault(config, github, target, plan.open_prs) is None,
    ensures
        lists_kept(
            config,
            github,
            plan,
            repair::repair_action(github.repo, config.trunk, plan, pr).body,
        ),
{
    let body = repair::repair_action(github.repo, config.trunk, plan, pr).body;
    assert(body.take(STACK_COMMENT_MARKER@.len() as int) =~= STACK_COMMENT_MARKER@);
    if is_plain_plan(config, github, plan) {
        repair::law_repair_writes_what_it_kept(config, github, target, plan, pr);
    }
}

proof fn lemma_actions_executed(
    before: Seq<Event>,
    after: Seq<Event>,
    config: AppConfigView,
    github: GitHubContextView,
    target: u64,
    plan: RepairPlanView,
    actions: Seq<RepairActionView>,
    at: int,
    changed: nat,
    r: Result<nat, Seq<CauseView>>,
)
    requires
        repair::actions_executed(before, after, github, actions, at, changed, r),
        pr::pr_stack_fault(config, github, target, plan.open_prs) is None,
        forall|k: int|
            0 <= k < actions.len() ==> (#[trigger] actions[k]) == repair::repair_action(
                github.repo,
                config.trunk,
                plan,
                plan.open_prs[k],
            ) && k < plan.open_prs.len(),
        0 <= at,
    ensures
        reading::did(before, after, repair_deeds(config, github, plan)),
    decreases actions.len() - at,
{
    broadcast use {crate::quiet::group_quiet, crate::reading::group_reading};

    if at < actions.len() {
        let (mid, done) = choose|mid: Seq<Event>, done: Result<bool, Seq<CauseView>>|
            {
                &&& #[trigger] repair::action_executed(before, mid, github, actions[at], done)
                &&& match done {
                    Err(e) => record::stopped(mid, after, e, r),
                    Ok(hit) => repair::actions_executed(
                        mid,
                        after,
                        github,
                        actions,
                        at + 1,
                        if hit {
                            changed + 1
                        } else {
                            changed
                        },
                        r,
                    ),
                }
            };
        let pr = plan.open_prs[at];
        let action = actions[at];
        let sent = choose|sent: Result<StackCommentActionView, Seq<CauseView>>|
            #[trigger] comments::comment_upserted(
                before,
                mid,
                github,
                action.pr_number,
                "repair"@,
                action.body,
                sent,
            ) && done == repair::comment_changed(sent);
        law_comment_is_sent_as_it_is(
            before,
            mid,
            github,
            action.pr_number,
            "repair"@,
            action.body,
            sent,
        );
        lemma_repaired_text(config, github, target, plan, pr);
        assert(plan.open_prs.contains(pr));
        assert(reading::did(before, mid, repair_deeds(config, github, plan))) by {
            reveal(reading::did);
            assert forall|i: int| before.len() <= i < mid.len() implies quiet::harmless(
                #[trigger] mid[i],
            ) || repairs_comment(mid[i], config, github, plan) by {
                if comments_at(mid, before.len() as int, i, github, action.pr_number, action.body) {
                    assert(sends_comment(mid[i], github.repo, pr.number, action.body));
                }
            }
        }
        if done is Ok {
            lemma_actions_executed(
                mid,
                after,
                config,
                github,
                target,
                plan,
                actions,
                at + 1,
                if done->Ok_0 {
                    changed + 1
                } else {
                    changed
                },
                r,
            );
        }
    }
}

broadcast proof fn repaired_repair_carried_out(
    before: Seq<Event>,
    after: Seq<Event>,
    config: AppConfigView,
    github: GitHubContextView,
    target: u64,
    plan: RepairPlanView,
    diagnostics: Diagnostics,
    r: Result<RepairSummary, Seq<CauseView>>,
)
    requires
        #[trigger] repair::repair_carried_out(before, after, config, github, target, plan, diagnostics, r),
        pr::pr_stack_fault(config, github, target, plan.open_prs) is None,
        plan.pruned_merged_prs.len() > 0,
    ensures
        repaired(before, after, config),
{
    broadcast use {
        crate::quiet::group_quiet,
        crate::reading::group_reading,
        crate::asking::asks_repair_closed,
        crate::asking::lemma_phase_said,
    };

    let actions = repair::actions_of(github.repo, config.trunk, plan);
    let start = before + ui::phase_said(diagnostics, "stack-comments"@);
    let (mid, changed) = choose|mid: Seq<Event>, changed: Result<nat, Seq<CauseView>>|
        {
            &&& #[trigger] repair::actions_executed(start, mid, github, actions, 0, 0, changed)
            &&& match changed {
                Err(e) => record::stopped(mid, after, e, r),
                Ok(changed) => repair::repair_closed(
                    mid,
                    after,
                    config,
                    github,
                    target,
                    plan,
                    changed as usize,
                    diagnostics,
                    r,
                ),
            }
        };
    lemma_actions_executed(start, mid, config, github, target, plan, actions, 0, 0, changed);
    assert(quiet::quiet(before, start));
    assert(quiet::quiet(mid, after));
    let deeds = repair_deeds(config, github, plan);
    reading::lemma_quiet_then_did(before, start, mid, deeds);
    reading::lemma_did_then_quiet(before, mid, after, deeds);
    assert(repaired_by(before, after, config, github, target, plan));
    reveal(repaired);
}

broadcast proof fn repaired_repair_allowed(
    before: Seq<Event>,
    after: Seq<Event>,
    config: AppConfigView,
    github: GitHubContextView,
    target: u64,
    plan: RepairPlanView,
    yes: bool,
    diagnostics: Diagnostics,
    r: Result<RepairSummary, Seq<CauseView>>,
)
    requires
        #[trigger] repair::repair_allowed(before, after, config, github, target, plan, yes, diagnostics, r),
        pr::pr_stack_fault(config, github, target, plan.open_prs) is None,
        plan.pruned_merged_prs.len() > 0,
    ensures
        repaired(before, after, config),
{
    broadcast use {
        crate::quiet::group_quiet,
        lemma_quiet_then_repaired,
        lemma_quiet_repaired,
        repaired_repair_carried_out,
        crate::asking::asks_repair_confirmed,
    };

}

broadcast proof fn repaired_repair_decided(
    before: Seq<Event>,
    after: Seq<Event>,
    config: AppConfigView,
    github: GitHubContextView,
    target: u64,
    plan: RepairPlanView,
    yes: bool,
    diagnostics: Diagnostics,
    r: Result<RepairSummary, Seq<CauseView>>,
)
    requires
        #[trigger] repair::repair_decided(before, after, config, github, target, plan, yes, diagnostics, r),
        pr::pr_stack_fault(config, github, target, plan.open_prs) is None,
    ensures
        repaired(before, after, config),
{
    broadcast use {
        crate::quiet::group_quiet,
        lemma_quiet_then_repaired,
        lemma_quiet_repaired,
        repaired_repair_allowed,
        crate::asking::lemma_plan_rows_said,
    };

}

proof fn lemma_plan_is_accepted(
    before: Seq<Event>,
    after: Seq<Event>,
    config: AppConfigView,
    github: GitHubContextView,
    target: u64,
    numbers: Seq<u64>,
    at: int,
    open: Seq<GhPrView>,
    pruned: Seq<u64>,
    plan: RepairPlanView,
)
    requires
        repair::repair_walked(
            before,
            after,
            config,
            github,
            target,
            numbers,
            at,
            open,
            pruned,
            Ok(plan),
        ),
        0 <= at <= numbers.len(),
        open.len() + pruned.len() == at,
        forall|k: int| 0 <= k < open.len() ==> pr::is_open((#[trigger] open[k]).state),
    ensures
        pr::pr_stack_fault(config, github, target, plan.open_prs) is None,
        plan.open_prs.len() + plan.pruned_merged_prs.len() == numbers.len(),
        forall|k: int| 0 <= k < plan.open_prs.len() ==> pr::is_open((#[trigger] plan.open_prs[k]).state),
    decreases numbers.len() - at,
{
    if at < numbers.len() {
        let (mid, fetched) = choose|mid: Seq<Event>, fetched: Result<GhPrView, Seq<CauseView>>|
            {
                &&& #[trigger] pr::pr_fetched(
                    before,
                    mid,
                    github.repo,
                    "repair"@,
                    numbers[at],
                    fetched,
                )
                &&& match fetched {
                    Err(e) => record::stopped(mid, after, e, Ok::<RepairPlanView, _>(plan)),
                    Ok(pr) => match repair::repair_verdict(github.repo, target, pr) {
                        Err(e) => record::stopped(mid, after, e, Ok::<RepairPlanView, _>(plan)),
                        Ok(stays) => if stays {
                            repair::repair_walked(
                                mid,
                                after,
                                config,
                                github,
                                target,
                                numbers,
                                at + 1,
                                open.push(pr),
                                pruned,
                                Ok(plan),
                            )
                        } else {
                            repair::repair_walked(
                                mid,
                                after,
                                config,
                                github,
                                target,
                                numbers,
                                at + 1,
                                open,
                                pruned.push(pr.number),
                                Ok(plan),
                            )
                        },
                    },
                }
            };
        let pr = fetched->Ok_0;
        if repair::repair_verdict(github.repo, target, pr)->Ok_0 {
            lemma_plan_is_accepted(
                mid,
                after,
                config,
                github,
                target,
                numbers,
                at + 1,
                open.push(pr),
                pruned,
                plan,
            );
        } else {
            lemma_plan_is_accepted(
                mid,
                after,
                config,
                github,
                target,
                numbers,
                at + 1,
                open,
                pruned.push(pr.number),
                plan,
            );
        }
    }
}

broadcast proof fn repaired_repair_scanned(
    before: Seq<Event>,
    after: Seq<Event>,
    config: AppConfigView,
    github: GitHubContextView,
    target: u64,
    numbers: Seq<u64>,
    yes: bool,
    diagnostics: Diagnostics,
    r: Result<RepairSummary, Seq<CauseView>>,
)
    requires
        #[trigger] repair::repair_scanned(before, after, config, github, target, numbers, yes, diagnostics, r),
    ensures
        repaired(before, after, config),
{
    broadcast use {
        crate::quiet::group_quiet,
        lemma_quiet_then_repaired,
        lemma_quiet_repaired,
        repaired_repair_decided,
        crate::asking::asks_repair_planned,
        crate::asking::lemma_phase_said,
    };

    let start = before + ui::phase_said(diagnostics, "resolve-prs"@);
    let (mid, plan) = choose|mid: Seq<Event>, plan: Result<RepairPlanView, Seq<CauseView>>|
        {
            &&& #[trigger] repair::repair_planned(start, mid, config, github, target, numbers, plan)
            &&& match plan {
                Err(e) => record::stopped(mid, after, e, r),
                Ok(plan) => repair::repair_decided(
                    mid,
                    after,
                    config,
                    github,
                    target,
                    plan,
                    yes,
                    diagnostics,
                    r,
                ),
            }
        };
    if plan is Ok {
        lemma_plan_is_accepted(
            start,
            mid,
            config,
            github,
            target,
            numbers,
            0,
            seq![],
            seq![],
            plan->Ok_0,
        );
    }
}

broadcast proof fn repaired_repair_listed(
    before: Seq<Event>,
    after: Seq<Event>,
    config: AppConfigView,
    github: GitHubContextView,
    target: u64,
    numbers: Seq<u64>,
    yes: bool,
    diagnostics: Diagnostics,
    r: Result<RepairSummary, Seq<CauseView>>,
)
    requires
        #[trigger] repair::repair_listed(before, after, config, github, target, numbers, yes, diagnostics, r),
    ensures
        repaired(before, after, config),
{
    broadcast use {crate::quiet::group_quiet, lemma_quiet_then_repaired, lemma_quiet_repaired, repaired_repair_scanned};

}

broadcast proof fn repaired_repair_commented(
    before: Seq<Event>,
    after: Seq<Event>,
    config: AppConfigView,
    github: GitHubContextView,
    target: u64,
    yes: bool,
    diagnostics: Diagnostics,
    r: Result<RepairSummary, Seq<CauseView>>,
)
    requires
        #[trigger] repair::repair_commented(before, after, config, github, target, yes, diagnostics, r),
    ensures
        repaired(before, after, config),
{
    broadcast use {crate::quiet::group_quiet, lemma_quiet_then_repaired, lemma_quiet_repaired, repaired_repair_listed, crate::asking::asks_latest_comment_found};

}

broadcast proof fn repaired_repair_targeted(
    before: Seq<Event>,
    after: Seq<Event>,
    config: AppConfigView,
    github: GitHubContextView,
    target: GetTargetView,
    yes: bool,
    diagnostics: Diagnostics,
    r: Result<RepairSummary, Seq<CauseView>>,
)
    requires
        #[trigger] repair::repair_targeted(before, after, config, github, target, yes, diagnostics, r),
    ensures
        repaired(before, after, config),
{
    broadcast use {crate::quiet::group_quiet, lemma_quiet_then_repaired, lemma_quiet_repaired, repaired_repair_commented, crate::asking::asks_target_resolved, crate::asking::lemma_phase_said};

}

broadcast proof fn repaired_comments_repaired(
    before: Seq<Event>,
    after: Seq<Event>,
    config: AppConfigView,
    target: Seq<char>,
    yes: bool,
    diagnostics: Diagnostics,
    r: Result<RepairSummary, Seq<CauseView>>,
)
    requires
        #[trigger] repair::comments_repaired(before, after, config, target, yes, diagnostics, r),
    ensures
        repaired(before, after, config),
{
    broadcast use {crate::quiet::group_quiet, lemma_quiet_then_repaired, lemma_quiet_repaired, repaired_repair_targeted, crate::asking::asks_target_opened};

}

/// The law of the repair: all that a repair changes are stack comments of one accepted row of open pull
/// requests. Each of the texts that it sends, read again, lists just that row.
pub proof fn law_repair_sends_what_it_kept(
    before: Seq<Event>,
    after: Seq<Event>,
    config: AppConfigView,
    target: Seq<char>,
    yes: bool,
    diagnostics: Diagnostics,
    r: Result<RepairSummary, Seq<CauseView>>,
    change: int,
)
    requires
        repair::comments_repaired(before, after, config, target, yes, diagnostics, r),
        before.len() <= change < after.len(),
        !quiet::harmless(after[change]),
    ensures
        exists|github: GitHubContextView, number: u64, plan: RepairPlanView|
            {
                &&& pr::pr_stack_fault(config, github, number, plan.open_prs) is None
                &&& plan.pruned_merged_prs.len() > 0
                &&& #[trigger] repairs_comment(after[change], config, github, plan)
                &&& #[trigger] pr::numbers_of(plan.open_prs).contains(number)
            },
{
    repaired_comments_repaired(before, after, config, target, yes, diagnostics, r);
    reveal(repaired);
    reveal(reading::did);
    reveal(quiet::quiet);
    let (github, number, plan) = choose|github: GitHubContextView, number: u64, plan: RepairPlanView|
        #[trigger] repaired_by(before, after, config, github, number, plan);
    assert(repairs_comment(after[change], config, github, plan));
    pr::law_accepted_pr_stack_is_a_row(config, github, number, plan.open_prs);
}

} // verus!
