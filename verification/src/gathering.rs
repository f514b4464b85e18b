//! Which requests, changes and comments a command gathers.

use vstd::prelude::*;

use crate::comments;
use crate::config;
use crate::error::CauseView;
use crate::get;
use crate::heading;
use crate::model::{
    AppConfigView, Diagnostics, GhPrView, GhStackCommentView, GitHubContextView, PrCacheEntryView,
    RepairPlanView, ResolvedChangeView,
};
use crate::pr;
use crate::record;
use crate::record::Event;
use crate::repair;
use crate::stack;
use crate::targeting;
use crate::text;
use crate::ui;

verus! {

broadcast use crate::record::group_record;

/// Whether the request `number` was read, in `from..`, from GitHub, as this one.
pub open spec fn was_read(from: int, log: Seq<Event>, repo: Seq<char>, number: u64, pr: GhPrView) -> bool {
    exists|i: int| from < i && #[trigger] targeting::reads_request(log, i, repo, number, pr)
}

pub proof fn lemma_read_stays(
    from: int,
    at: int,
    mid: Seq<Event>,
    after: Seq<Event>,
    repo: Seq<char>,
    number: u64,
    pr: GhPrView,
)
    requires
        from <= at,
        record::extends(mid, after),
        was_read(at, mid, repo, number, pr),
    ensures
        was_read(from, after, repo, number, pr),
{
    let i = choose|i: int| at < i && #[trigger] targeting::reads_request(mid, i, repo, number, pr);
    assert(after.take(mid.len() as int)[i] == mid[i]);
    assert(after.take(mid.len() as int)[i - 1] == mid[i - 1]);
    assert(targeting::reads_request(after, i, repo, number, pr));
}

proof fn lemma_fetched(
    before: Seq<Event>,
    after: Seq<Event>,
    repo: Seq<char>,
    change_id: Seq<char>,
    number: u64,
    pr: GhPrView,
)
    requires
        pr::pr_fetched(before, after, repo, change_id, number, Ok(pr)),
    ensures
        was_read(before.len() as int, after, repo, number, pr),
        record::extends(before, after),
{
    let read = targeting::law_target_reads_its_request(
        before,
        after,
        repo,
        (pr::GetTargetView::PullRequest { repo, number }),
        change_id,
        pr,
    );
}

pub proof fn lemma_walked(
    before: Seq<Event>,
    after: Seq<Event>,
    repo: Seq<char>,
    change_id: Seq<char>,
    numbers: Seq<u64>,
    done: Seq<GhPrView>,
    shown: bool,
    prs: Seq<GhPrView>,
    from: int,
)
    requires
        get::prs_walked(before, after, repo, change_id, numbers, done, shown, Ok(prs)),
        done.len() <= numbers.len(),
        0 <= from <= before.len(),
        forall|k: int|
            0 <= k < done.len() ==> was_read(from, before, repo, numbers[k], #[trigger] done[k]),
    ensures
        record::extends(before, after),
        prs.len() == numbers.len(),
        forall|k: int|
            0 <= k < prs.len() ==> was_read(from, after, repo, numbers[k], #[trigger] prs[k]),
    decreases numbers.len() - done.len(),
{
    record::lemma_extends_refl(before);
    if done.len() < numbers.len() {
        let r = Ok::<Seq<GhPrView>, Seq<CauseView>>(prs);
        let number = numbers[done.len() as int];
        let (mid, fetched) = choose|mid: Seq<Event>, fetched: Result<GhPrView, Seq<CauseView>>|
            {
                &&& #[trigger] pr::pr_fetched(before, mid, repo, change_id, number, fetched)
                &&& match fetched {
                    Err(e) => record::stopped(mid, after, e, r),
                    Ok(pr) => get::prs_walked(
                        mid + ui::step_said(shown, (done.len() + 1) as usize),
                        after,
                        repo,
                        change_id,
                        numbers,
                        done.push(pr),
                        shown,
                        r,
                    ),
                }
            };
        let pr = fetched->Ok_0;
        let told = mid + ui::step_said(shown, (done.len() + 1) as usize);
        let next = done.push(pr);
        lemma_fetched(before, mid, repo, change_id, number, pr);
        record::lemma_extends_add(mid, ui::step_said(shown, (done.len() + 1) as usize));
        record::lemma_extends_trans(before, mid, told);
        assert forall|k: int| 0 <= k < next.len() implies was_read(
            from,
            told,
            repo,
            numbers[k],
            #[trigger] next[k],
        ) by {
            if k < done.len() {
                assert(next[k] == done[k]);
                lemma_read_stays(from, from, before, told, repo, numbers[k], done[k]);
            } else {
                lemma_read_stays(from, before.len() as int, mid, told, repo, number, pr);
            }
        }
        lemma_walked(told, after, repo, change_id, numbers, next, shown, prs, from);
        record::lemma_extends_trans(before, told, after);
    }
}

/// The law of the fetched requests: the requests that are fetched for a list of numbers are those that
/// GitHub told of for these numbers, one for each and in that order.
pub proof fn law_fetched_requests_are_the_listed(
    before: Seq<Event>,
    after: Seq<Event>,
    repo: Seq<char>,
    change_id: Seq<char>,
    numbers: Seq<u64>,
    diagnostics: Diagnostics,
    prs: Seq<GhPrView>,
    k: int,
)
    requires
        get::prs_fetched(before, after, repo, change_id, numbers, diagnostics, Ok(prs)),
        0 <= k < numbers.len(),
    ensures
        prs.len() == numbers.len(),
        was_read(before.len() as int, after, repo, numbers[k], prs[k]),
{
    let r = Ok::<Seq<GhPrView>, Seq<CauseView>>(prs);
    let mid = choose|mid: Seq<Event>|
        {
            &&& #[trigger] get::all_walked(before, mid, repo, change_id, numbers, diagnostics, r)
            &&& after == mid + ui::steps_ended(diagnostics.shows_steps(numbers.len()))
        };
    let start = before + ui::steps_said(
        diagnostics,
        "Fetching"@,
        "pull requests"@,
        numbers.len() as usize,
    );
    lemma_walked(
        start,
        mid,
        repo,
        change_id,
        numbers,
        seq![],
        diagnostics.shows_steps(numbers.len()),
        prs,
        before.len() as int,
    );
    record::lemma_extends_add(mid, ui::steps_ended(diagnostics.shows_steps(numbers.len())));
    lemma_read_stays(
        before.len() as int,
        before.len() as int,
        mid,
        after,
        repo,
        numbers[k],
        prs[k],
    );
}

/// The law of the listed stack: the requests of a stack are those that its comment lists, which lists them
/// from the top down, from the bottom up; without a comment that lists any, it is the target alone.
pub proof fn law_stack_is_what_the_comment_lists(
    comment: Option<GhStackCommentView>,
    target: u64,
    i: int,
)
    ensures
        ({
            let numbers = get::stack_numbers(comment, target);
            &&& numbers.len() > 0
            &&& comment is None ==> numbers == seq![target]
            &&& comment matches Some(c) ==> {
                let listed = comments::numbers_in(text::lines(c.body));
                &&& listed.len() == 0 ==> numbers == seq![target]
                &&& listed.len() > 0 ==> numbers.len() == listed.len()
                &&& 0 <= i < listed.len() ==> numbers[listed.len() - 1 - i] == listed[i]
            }
        }),
{
}

/// The law of the fetched heads: the change of a fetched request is the one at its head commit, and it is
/// not conflicted.
pub proof fn law_fetched_heads_are_the_heads(
    before: Seq<Event>,
    after: Seq<Event>,
    prs: Seq<GhPrView>,
    done: Seq<ResolvedChangeView>,
    changes: Seq<ResolvedChangeView>,
)
    requires
        get::heads_resolved(before, after, prs, done, Ok(changes)),
        done.len() <= prs.len(),
        forall|k: int|
            0 <= k < done.len() ==> (#[trigger] done[k]).commit_id == prs[k].head_ref_oid
                && !done[k].conflict,
    ensures
        changes.len() == prs.len(),
        forall|k: int|
            0 <= k < changes.len() ==> (#[trigger] changes[k]).commit_id == prs[k].head_ref_oid
                && !changes[k].conflict,
    decreases prs.len() - done.len(),
{
    if done.len() < prs.len() {
        let r = Ok::<Seq<ResolvedChangeView>, Seq<CauseView>>(changes);
        let pr = prs[done.len() as int];
        let (mid, stack) = choose|
            mid: Seq<Event>,
            stack: Result<Seq<ResolvedChangeView>, Seq<CauseView>>,
        |
            {
                &&& #[trigger] stack::stack_resolved(before, mid, pr.head_ref_oid, stack)
                &&& match get::head_change(pr, stack) {
                    Err(e) => record::stopped(mid, after, e, r),
                    Ok(change) => get::heads_resolved(mid, after, prs, done.push(change), r),
                }
            };
        let change = get::head_change(pr, stack)->Ok_0;
        let next = done.push(change);
        assert forall|k: int| 0 <= k < next.len() implies (#[trigger] next[k]).commit_id
            == prs[k].head_ref_oid && !next[k].conflict by {
            if k < done.len() {
                assert(next[k] == done[k]);
            }
        }
        law_fetched_heads_are_the_heads(mid, after, prs, next, changes);
    }
}

/// The law of what a get remembers: of each fetched request, under its repository and its change, what
/// GitHub said of it; and of everything else what was remembered before.
pub proof fn law_get_remembers_its_requests(
    all: Map<(Seq<char>, Seq<char>), PrCacheEntryView>,
    repo: Seq<char>,
    prs: Seq<GhPrView>,
    changes: Seq<ResolvedChangeView>,
    key: (Seq<char>, Seq<char>),
)
    requires
        changes.len() == prs.len(),
        forall|i: int, j: int|
            0 <= i < j < changes.len() ==> (#[trigger] changes[i]).change_id != (
            #[trigger] changes[j]).change_id,
    ensures
        forall|k: int|
            0 <= k < prs.len() ==> {
                let kept = (repo, (#[trigger] changes[k]).change_id);
                &&& get::with_prs(all, repo, prs, changes).dom().contains(kept)
                &&& heading::mirrors(get::with_prs(all, repo, prs, changes)[kept], prs[k])
            },
        (forall|k: int|
            0 <= k < changes.len() ==> key != (repo, (#[trigger] changes[k]).change_id)) ==> {
            &&& get::with_prs(all, repo, prs, changes).dom().contains(key) <==> all.dom().contains(key)
            &&& all.dom().contains(key) ==> get::with_prs(all, repo, prs, changes)[key] == all[key]
        },
    decreases prs.len(),
{
    if prs.len() > 0 {
        let front = prs.drop_last();
        let rest = changes.drop_last();
        let n = prs.len() - 1;
        assert forall|i: int, j: int| 0 <= i < j < rest.len() implies (#[trigger] rest[i]).change_id
            != (#[trigger] rest[j]).change_id by {
            assert(rest[i] == changes[i]);
            assert(rest[j] == changes[j]);
        }
        law_get_remembers_its_requests(all, repo, front, rest, key);
        heading::law_entry_mirrors_its_request(prs[n], arbitrary(), None);
        assert forall|k: int| 0 <= k < prs.len() implies {
            let kept = (repo, (#[trigger] changes[k]).change_id);
            &&& get::with_prs(all, repo, prs, changes).dom().contains(kept)
            &&& heading::mirrors(get::with_prs(all, repo, prs, changes)[kept], prs[k])
        } by {
            if k < n {
                assert(rest[k] == changes[k]);
                assert(front[k] == prs[k]);
                assert(changes[k].change_id != changes[n].change_id);
            }
        }
        if forall|k: int|
            0 <= k < changes.len() ==> key != (repo, (#[trigger] changes[k]).change_id) {
            assert(key != (repo, changes[n].change_id));
            assert forall|k: int| 0 <= k < rest.len() implies key != (
                repo,
                (#[trigger] rest[k]).change_id,
            ) by {
                assert(rest[k] == changes[k]);
            }
        }
    }
}

/// The law of the stack comments: those of a request are the ones that hold the marker, and those of a user
/// the ones of them that the user wrote.
pub proof fn law_stack_comments_hold_the_marker(all: Seq<GhStackCommentView>, login: Seq<char>)
    ensures
        comments::marked(all) == all.filter(
            |c: GhStackCommentView| text::contains(c.body, "<!-- stack:v1 -->"@),
        ),
        comments::marked_by(all, login) == all.filter(
            |c: GhStackCommentView|
                c.user_login == login && text::contains(c.body, "<!-- stack:v1 -->"@),
        ),
    decreases all.len(),
{
    reveal(Seq::filter);
    if all.len() > 0 {
        law_stack_comments_hold_the_marker(all.drop_last(), login);
    }
}

// ---------------------------------------------------------------------------
// Repair
// ---------------------------------------------------------------------------

/// A listed request was read: it is open and stays, or it is merged and its number goes.
pub open spec fn sorted_one(
    from: int,
    log: Seq<Event>,
    repo: Seq<char>,
    number: u64,
    open: Seq<GhPrView>,
    pruned: Seq<u64>,
    pr: GhPrView,
) -> bool {
    &&& was_read(from, log, repo, number, pr)
    &&& {
        ||| pr::is_open(pr.state) && open.contains(pr)
        ||| !pr::is_open(pr.state) && pruned.contains(pr.number) && (pr.merged || text::lower_all(
            pr.state,
        ) == text::lower_all("merged"@))
    }
}

pub open spec fn is_sorted(
    from: int,
    log: Seq<Event>,
    repo: Seq<char>,
    number: u64,
    open: Seq<GhPrView>,
    pruned: Seq<u64>,
) -> bool {
    exists|pr: GhPrView| #[trigger] sorted_one(from, log, repo, number, open, pruned, pr)
}

proof fn lemma_repair_walked(
    before: Seq<Event>,
    after: Seq<Event>,
    config: AppConfigView,
    github: GitHubContextView,
    target: u64,
    numbers: Seq<u64>,
    at: int,
    open: Seq<GhPrView>,
    pruned: Seq<u64>,
    plan: RepairPlanView,
    from: int,
)
    requires
        repair::repair_walked(
            before,
            after,
            config,
            github,
            target,
            numbers,
            at,
            open,
            pruned,
            Ok(plan),
        ),
        0 <= from <= before.len(),
        0 <= at <= numbers.len(),
        open.len() + pruned.len() == at,
        forall|k: int|
            0 <= k < at ==> is_sorted(
                from,
                before,
                github.repo,
                #[trigger] numbers[k],
                open,
                pruned,
            ),
        forall|k: int| 0 <= k < open.len() ==> pr::is_open((#[trigger] open[k]).state),
    ensures
        plan.open_prs.len() + plan.pruned_merged_prs.len() == numbers.len(),
        forall|k: int|
            0 <= k < numbers.len() ==> is_sorted(
                from,
                after,
                github.repo,
                #[trigger] numbers[k],
                plan.open_prs,
                plan.pruned_merged_prs,
            ),
        forall|k: int|
            0 <= k < plan.open_prs.len() ==> pr::is_open((#[trigger] plan.open_prs[k]).state),
        pr::numbers_of(plan.open_prs).contains(target),
        pr::pr_stack_fault(config, github, target, plan.open_prs) is None,
    decreases numbers.len() - at,
{
    if at < numbers.len() {
        let r = Ok::<RepairPlanView, Seq<CauseView>>(plan);
        let repo = github.repo;
        let (mid, fetched) = choose|mid: Seq<Event>, fetched: Result<GhPrView, Seq<CauseView>>|
            {
                &&& #[trigger] pr::pr_fetched(
                    before,
                    mid,
                    repo,
                    "repair"@,
                    numbers[at],
                    fetched,
                )
                &&& match fetched {
                    Err(e) => record::stopped(mid, after, e, r),
                    Ok(pr) => match repair::repair_verdict(repo, target, pr) {
                        Err(e) => record::stopped(mid, after, e, r),
                        Ok(stays) => if stays {
                            repair::repair_walked(
                                mid,
                                after,
                                config,
                                github,
                                target,
                                numbers,
                                at + 1,
                                open.push(pr),
                                pruned,
                                r,
                            )
                        } else {
                            repair::repair_walked(
                                mid,
                                after,
                                config,
                                github,
                                target,
                                numbers,
                                at + 1,
                                open,
                                pruned.push(pr.number),
                                r,
                            )
                        },
                    },
                }
            };
        let pr = fetched->Ok_0;
        let stays = repair::repair_verdict(repo, target, pr)->Ok_0;
        lemma_fetched(before, mid, repo, "repair"@, numbers[at], pr);
        record::lemma_extends_refl(mid);
        lemma_read_stays(from, before.len() as int, mid, mid, repo, numbers[at], pr);
        reveal_strlit("MERGED");
        reveal_strlit("merged");
        assert(text::lower_all("MERGED"@) =~= text::lower_all("merged"@));
        let more = if stays {
            open.push(pr)
        } else {
            open
        };
        let gone = if stays {
            pruned
        } else {
            pruned.push(pr.number)
        };
        if stays {
            assert(more[open.len() as int] == pr);
        } else {
            assert(gone[pruned.len() as int] == pr.number);
        }
        assert(sorted_one(from, mid, repo, numbers[at], more, gone, pr));
        assert forall|k: int| 0 <= k < at + 1 implies is_sorted(
            from,
            mid,
            repo,
            #[trigger] numbers[k],
            more,
            gone,
        ) by {
            if k < at {
                let one = choose|one: GhPrView| #[trigger]
                    sorted_one(from, before, repo, numbers[k], open, pruned, one);
                lemma_read_stays(from, from, before, mid, repo, numbers[k], one);
                if open.contains(one) {
                    let m = choose|m: int| 0 <= m < open.len() && open[m] == one;
                    assert(more[m] == one);
                }
                if pruned.contains(one.number) {
                    let m = choose|m: int| 0 <= m < pruned.len() && pruned[m] == one.number;
                    assert(gone[m] == one.number);
                }
                assert(sorted_one(from, mid, repo, numbers[k], more, gone, one));
            }
        }
        lemma_repair_walked(
            mid,
            after,
            config,
            github,
            target,
            numbers,
            at + 1,
            more,
            gone,
            plan,
            from,
        );
    }
}

/// The law of the repair: each request that the comment lists was read; those that are open stay, and those
/// that go are merged. What stays holds the target, and is a row of requests that stand on each other.
pub proof fn law_repair_drops_only_merged_requests(
    before: Seq<Event>,
    after: Seq<Event>,
    config: AppConfigView,
    github: GitHubContextView,
    target: u64,
    numbers: Seq<u64>,
    plan: RepairPlanView,
    k: int,
)
    requires
        repair::repair_planned(before, after, config, github, target, numbers, Ok(plan)),
        0 <= k < numbers.len(),
    ensures
        plan.open_prs.len() + plan.pruned_merged_prs.len() == numbers.len(),
        is_sorted(
            before.len() as int,
            after,
            github.repo,
            numbers[k],
            plan.open_prs,
            plan.pruned_merged_prs,
        ),
        forall|i: int|
            0 <= i < plan.open_prs.len() ==> pr::is_open((#[trigger] plan.open_prs[i]).state),
        pr::numbers_of(plan.open_prs).contains(target),
        pr::pr_stack_fault(config, github, target, plan.open_prs) is None,
{
    lemma_repair_walked(
        before,
        after,
        config,
        github,
        target,
        numbers,
        0,
        seq![],
        seq![],
        plan,
        before.len() as int,
    );
}

// ---------------------------------------------------------------------------
// What must be there
// ---------------------------------------------------------------------------

/// The law of the whole request: a request is complete just where it has a number, nothing that names it is
/// blank, it has an author with a login, and both of its repositories are named with all their ids.
pub proof fn law_complete_request_has_no_gap(repo: Seq<char>, pr: GhPrView)
    ensures
        pr::metadata_gap(repo, pr) is None <==> {
            &&& pr.number != 0
            &&& !text::is_blank(pr.id)
            &&& !text::is_blank(pr.state)
            &&& !text::is_blank(pr.head_ref_name)
            &&& !text::is_blank(pr.base_ref_name)
            &&& !text::is_blank(pr.head_ref_oid)
            &&& !text::is_blank(pr.base_ref_oid)
            &&& !text::is_blank(pr.title)
            &&& !text::is_blank(pr.created_at)
            &&& pr.author is Some && !text::is_blank(pr.author->Some_0.login)
            &&& pr.head_repository is Some && !text::is_blank(pr.head_repository->Some_0.id)
                && !text::is_blank(pr.head_repository->Some_0.node_id) && !text::is_blank(
                pr.head_repository->Some_0.name_with_owner,
            )
            &&& pr.base_repository is Some && !text::is_blank(pr.base_repository->Some_0.id)
                && !text::is_blank(pr.base_repository->Some_0.node_id) && !text::is_blank(
                pr.base_repository->Some_0.name_with_owner,
            )
        },
{
    reveal_strlit("head");
    reveal_strlit("base");
    assert("head"@[0] != "base"@[0]);
}

/// The law of the plain name: a name that may stand in a command is not empty, does not begin like a flag,
/// holds no two dots in a row, and no white space and none of the characters that a revset, a refspec or
/// a shell reads otherwise.
pub proof fn law_plain_name_is_no_flag(value: Seq<char>, i: int)
    requires
        config::is_ref_component(value),
        0 <= i < value.len(),
    ensures
        value[0] != '-',
        i + 1 < value.len() ==> !(value[i] == '.' && value[i + 1] == '.'),
        !text::is_space(value[i]),
        value[i] != ':' && value[i] != '*' && value[i] != '?' && value[i] != '[' && value[i] != '^',
        value[i] != '~' && value[i] != '@' && value[i] != '\\' && value[i] != '"' && value[i] != '\'',
        value[i] != '(' && value[i] != ')' && value[i] != '&' && value[i] != '|' && value[i] != ';',
        value[i] != '$' && value[i] != '`' && value[i] != '<' && value[i] != '>',
{
    assert(config::is_ref_char(value[i]));
    reveal_strlit("..");
    if i + 1 < value.len() && value[i] == '.' && value[i + 1] == '.' {
        assert(value.subrange(i, i + 2) =~= ".."@);
        assert(text::stands_at(value, ".."@, i));
    }
}

} // verus!
