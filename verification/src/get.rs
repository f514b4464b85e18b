//! Fetching someone's stack and freezing it locally.

use vstd::prelude::*;

use crate::bookmarks;
use crate::bookmarks::{frozen_bookmark_name, update_get_frozen_bookmarks};
use crate::branches;
use crate::branches::fetch_get_branches;
use crate::cache;
use crate::cache::CacheStore;
use crate::comments;
use crate::comments::{latest_stack_comment, parse_stack_pr_numbers};
use crate::context;
use crate::error;
use crate::error::{CauseView, Error, fail, phase_error};
use crate::model::{
    AppConfig, AppConfigView, Diagnostics, Duplicate, GhPr, GhPrView, GhStackComment,
    GhStackCommentView, GitHubContext, GitHubContextView, PrCacheEntryView, ResolvedChange,
    ResolvedChangeView,
};
use crate::output;
use crate::pr;
use crate::pr::{
    GetTarget, GetTargetView, fetch_pr_by_number, hash_text, parse_get_target,
    resolve_get_target_pr, validate_get_pr_stack,
};
use crate::record;
use crate::record::{Event, LineView};
use crate::shell::{Host, Line, jj_checked};
use crate::shell::wire::Shell;
use crate::stack;
use crate::stack::resolve_stack;
use crate::text;
use crate::text::{cat, cat3, cat5, number_text, same, words};
use crate::ui;
use crate::ui::{say_step, ui_finish_progress_bar};

verus! {

broadcast use crate::record::group_record;

/// What a fetched stack amounted to.
#[derive(Clone, Copy, PartialEq, Eq)]
pub struct GetSummary {
    pub prs: usize,
    pub fetched_branches: usize,
    pub cache_entries: usize,
    pub edited: bool,
}

// ---------------------------------------------------------------------------
// The pull requests of a stack comment
// ---------------------------------------------------------------------------

/// The pull requests that a stack comment lists, bottom first; without any, only the target.
pub open spec fn stack_numbers(comment: Option<GhStackCommentView>, target: u64) -> Seq<u64> {
    let listed = match comment {
        Some(comment) => comments::numbers_in(text::lines(comment.body)).reverse(),
        None => seq![],
    };
    if listed.len() == 0 {
        seq![target]
    } else {
        listed
    }
}

pub fn reversed(numbers: &Vec<u64>) -> (r: Vec<u64>)
    ensures
        r@ == numbers@.reverse(),
{
    let mut out: Vec<u64> = Vec::new();
    let mut i: usize = numbers.len();
    while i > 0
        invariant
            i <= numbers@.len(),
            out@.len() == numbers@.len() - i,
            forall|k: int|
                0 <= k < out@.len() ==> #[trigger] out@[k] == numbers@[numbers@.len() - 1 - k],
        decreases i,
    {
        i = i - 1;
        out.push(numbers[i]);
    }
    assert(out@ =~= numbers@.reverse());
    out
}

pub fn stack_comment_numbers(comment: &Option<GhStackComment>, target: u64) -> (r: Vec<u64>)
    ensures
        r@ == stack_numbers(comment.deep_view(), target),
        r@.len() > 0,
{
    let mut listed = match comment {
        Some(comment) => reversed(&parse_stack_pr_numbers(&comment.body)),
        None => Vec::new(),
    };
    if listed.len() == 0 {
        listed.push(target);
        assert(listed@ =~= seq![target]);
    }
    listed
}

/// The record from `before` to `after` holds the requests for these pull requests in turn, up to the
/// first failure, with a step shown after each.
pub open spec fn prs_walked(
    before: Seq<Event>,
    after: Seq<Event>,
    repo: Seq<char>,
    change_id: Seq<char>,
    numbers: Seq<u64>,
    done: Seq<GhPrView>,
    shown: bool,
    r: Result<Seq<GhPrView>, Seq<CauseView>>,
) -> bool
    decreases numbers.len() - done.len(),
{
    if done.len() >= numbers.len() {
        after == before && r == Ok::<_, Seq<CauseView>>(done)
    } else {
        exists|mid: Seq<Event>, fetched: Result<GhPrView, Seq<CauseView>>|
            {
                &&& #[trigger] pr::pr_fetched(
                    before,
                    mid,
                    repo,
                    change_id,
                    numbers[done.len() as int],
                    fetched,
                )
                &&& match fetched {
                    Err(e) => record::stopped(mid, after, e, r),
                    Ok(pr) => prs_walked(
                        mid + ui::step_said(shown, (done.len() + 1) as usize),
                        after,
                        repo,
                        change_id,
                        numbers,
                        done.push(pr),
                        shown,
                        r,
                    ),
                }
            }
    }
}

pub(crate) fn walk_prs<H: Host>(
    sh: &mut Shell<H>,
    github: &GitHubContext,
    change_id: &str,
    numbers: &Vec<u64>,
    done: Vec<GhPr>,
    shown: bool,
) -> (r: Result<Vec<GhPr>, Error>)
    requires
        done@.len() <= numbers@.len(),
    ensures
        record::extends(old(sh).log(), final(sh).log()),
        prs_walked(
            old(sh).log(),
            final(sh).log(),
            github@.repo,
            change_id@,
            numbers@,
            done.deep_view(),
            shown,
            error::res(r),
        ),
        r matches Ok(prs) ==> prs@.len() == numbers@.len(),
    decreases numbers@.len() - done@.len(),
{
    let n: usize = done.len();
    if n == numbers.len() {
        return Ok(done);
    }
    let ghost start = sh.log();
    let ghost before = done.deep_view();
    let fetched = fetch_pr_by_number(sh, github, change_id, numbers[n]);
    let ghost mid = sh.log();
    let ghost seen = error::res(fetched);
    assert(pr::pr_fetched(start, mid, github@.repo, change_id@, numbers@[n as int], seen));
    match fetched {
        Err(error) => Err(error),
        Ok(pr) => {
            let ghost pushed = pr@;
            let mut done = done;
            done.push(pr);
            assert(done.deep_view() =~= before.push(pushed));
            say_step(sh, shown, n + 1);
            walk_prs(sh, github, change_id, numbers, done, shown)
        },
    }
}

/// The record from `before` to `after` holds the requests for these pull requests as a row of steps.
pub open spec fn prs_fetched(
    before: Seq<Event>,
    after: Seq<Event>,
    repo: Seq<char>,
    change_id: Seq<char>,
    numbers: Seq<u64>,
    diagnostics: Diagnostics,
    r: Result<Seq<GhPrView>, Seq<CauseView>>,
) -> bool {
    exists|mid: Seq<Event>|
        {
            &&& #[trigger] all_walked(before, mid, repo, change_id, numbers, diagnostics, r)
            &&& after == if r is Ok {
                mid + ui::steps_ended(diagnostics.shows_steps(numbers.len()))
            } else {
                mid
            }
        }
}

pub open spec fn all_walked(
    before: Seq<Event>,
    after: Seq<Event>,
    repo: Seq<char>,
    change_id: Seq<char>,
    numbers: Seq<u64>,
    diagnostics: Diagnostics,
    r: Result<Seq<GhPrView>, Seq<CauseView>>,
) -> bool {
    prs_walked(
        before + ui::steps_said(
            diagnostics,
            "Fetching"@,
            "pull requests"@,
            numbers.len() as usize,
        ),
        after,
        repo,
        change_id,
        numbers,
        seq![],
        diagnostics.shows_steps(numbers.len()),
        r,
    )
}

pub fn fetch_prs<H: Host>(
    sh: &mut Shell<H>,
    github: &GitHubContext,
    change_id: &str,
    numbers: &Vec<u64>,
    diagnostics: Diagnostics,
) -> (r: Result<Vec<GhPr>, Error>)
    ensures
        record::extends(old(sh).log(), final(sh).log()),
        prs_fetched(
            old(sh).log(),
            final(sh).log(),
            github@.repo,
            change_id@,
            numbers@,
            diagnostics,
            error::res(r),
        ),
        r matches Ok(prs) ==> prs@.len() == numbers@.len(),
{
    let ghost start = sh.log();
    let shown = diagnostics.progress_bar(sh, "Fetching", "pull requests", numbers.len());
    let done: Vec<GhPr> = Vec::new();
    assert(done.deep_view() =~= Seq::<GhPrView>::empty());
    let fetched = walk_prs(sh, github, change_id, numbers, done, shown);
    let ghost seen = error::res(fetched);
    assert(all_walked(
        start,
        sh.log(),
        github@.repo,
        change_id@,
        numbers@,
        diagnostics,
        seen,
    ));
    match fetched {
        Err(error) => Err(error),
        Ok(prs) => {
            ui_finish_progress_bar(sh, shown);
            Ok(prs)
        },
    }
}

// ---------------------------------------------------------------------------
// The fetched heads
// ---------------------------------------------------------------------------

/// The change that the head of a fetched pull request is.
pub open spec fn head_change(
    pr: GhPrView,
    stack: Result<Seq<ResolvedChangeView>, Seq<CauseView>>,
) -> Result<ResolvedChangeView, Seq<CauseView>> {
    match stack {
        Err(e) => Err(
            error::in_context("resolve fetched "@ + pr::hash(pr.number) + " head "@ + pr.head_ref_oid, e),
        ),
        Ok(stack) => if stack.len() != 1 {
            Err(
                error::plain(
                    "fetched "@ + pr::hash(pr.number) + " head "@ + pr.head_ref_oid + " resolved to "@
                        + text::decimal(stack.len()) + " jj changes; expected exactly one"@,
                ),
            )
        } else if stack[0].commit_id != pr.head_ref_oid {
            Err(
                error::plain(
                    "fetched "@ + pr::hash(pr.number) + " head resolved to "@ + stack[0].commit_id
                        + ", expected "@ + pr.head_ref_oid,
                ),
            )
        } else if stack[0].conflict {
            Err(
                error::plain(
                    "fetched "@ + pr::hash(pr.number) + " head is conflicted at "@
                        + stack[0].change_id + " ("@ + stack[0].commit_id + ")"@,
                ),
            )
        } else {
            Ok(stack[0])
        },
    }
}

/// The change that the head of a fetched pull request is.
pub fn fetched_head_change(pr: &GhPr, stack: Result<Vec<ResolvedChange>, Error>) -> (r: Result<
    ResolvedChange,
    Error,
>)
    ensures
        error::res(r) == head_change(pr@, error::res(stack)),
{
    let name = hash_text(pr.number);
    let stack = match stack {
        Ok(stack) => stack,
        Err(error) => {
            let mut context = cat3("resolve fetched ", &name, " head ");
            context.append(&pr.head_ref_oid);
            return Err(error.context(&context));
        },
    };
    if stack.len() != 1 {
        let mut message = cat5("fetched ", &name, " head ", &pr.head_ref_oid, " resolved to ");
        message.append(&number_text(stack.len() as u64));
        message.append(" jj changes; expected exactly one");
        return Err(fail(&message));
    }
    assert(stack.deep_view()[0] == stack@[0]@);
    let change = &stack[0];
    if !same(&change.commit_id, &pr.head_ref_oid) {
        let mut message = cat5(
            "fetched ",
            &name,
            " head resolved to ",
            &change.commit_id,
            ", expected ",
        );
        message.append(&pr.head_ref_oid);
        return Err(fail(&message));
    }
    if change.conflict {
        let mut message = cat5(
            "fetched ",
            &name,
            " head is conflicted at ",
            &change.change_id,
            " (",
        );
        message.append(&change.commit_id);
        message.append(")");
        return Err(fail(&message));
    }
    Ok(change.copy())
}

/// The record from `before` to `after` holds the question for the change of each head in turn, up to
/// the first failure.
pub open spec fn heads_resolved(
    before: Seq<Event>,
    after: Seq<Event>,
    prs: Seq<GhPrView>,
    done: Seq<ResolvedChangeView>,
    r: Result<Seq<ResolvedChangeView>, Seq<CauseView>>,
) -> bool
    decreases prs.len() - done.len(),
{
    if done.len() >= prs.len() {
        after == before && r == Ok::<_, Seq<CauseView>>(done)
    } else {
        let pr = prs[done.len() as int];
        exists|mid: Seq<Event>, stack: Result<Seq<ResolvedChangeView>, Seq<CauseView>>|
            {
                &&& #[trigger] stack::stack_resolved(before, mid, pr.head_ref_oid, stack)
                &&& match head_change(pr, stack) {
                    Err(e) => record::stopped(mid, after, e, r),
                    Ok(change) => heads_resolved(mid, after, prs, done.push(change), r),
                }
            }
    }
}

fn resolve_heads<H: Host>(sh: &mut Shell<H>, prs: &Vec<GhPr>, done: Vec<ResolvedChange>) -> (r:
    Result<Vec<ResolvedChange>, Error>)
    requires
        done@.len() <= prs@.len(),
    ensures
        record::extends(old(sh).log(), final(sh).log()),
        heads_resolved(
            old(sh).log(),
            final(sh).log(),
            prs.deep_view(),
            done.deep_view(),
            error::res(r),
        ),
        r matches Ok(changes) ==> changes@.len() == prs@.len(),
    decreases prs@.len() - done@.len(),
{
    let n: usize = done.len();
    if n == prs.len() {
        return Ok(done);
    }
    let ghost start = sh.log();
    let ghost before = done.deep_view();
    assert(prs.deep_view()[n as int] == prs@[n as int]@);
    let stack = resolve_stack(sh, &prs[n].head_ref_oid);
    let ghost seen = error::res(stack);
    assert(stack::stack_resolved(start, sh.log(), prs@[n as int]@.head_ref_oid, seen));
    match fetched_head_change(&prs[n], stack) {
        Err(error) => Err(error),
        Ok(change) => {
            let ghost pushed = change@;
            let mut done = done;
            done.push(change);
            assert(done.deep_view() =~= before.push(pushed));
            resolve_heads(sh, prs, done)
        },
    }
}

pub open spec fn all_heads_resolved(
    before: Seq<Event>,
    after: Seq<Event>,
    prs: Seq<GhPrView>,
    r: Result<Seq<ResolvedChangeView>, Seq<CauseView>>,
) -> bool {
    heads_resolved(before, after, prs, seq![], r)
}

/// The changes that the heads of fetched pull requests are, in their order.
pub fn resolve_get_pr_changes<H: Host>(sh: &mut Shell<H>, prs: &Vec<GhPr>) -> (r: Result<
    Vec<ResolvedChange>,
    Error,
>)
    ensures
        record::extends(old(sh).log(), final(sh).log()),
        all_heads_resolved(old(sh).log(), final(sh).log(), prs.deep_view(), error::res(r)),
        r matches Ok(changes) ==> changes@.len() == prs@.len(),
{
    let done: Vec<ResolvedChange> = Vec::new();
    assert(done.deep_view() =~= Seq::<ResolvedChangeView>::empty());
    resolve_heads(sh, prs, done)
}

// ---------------------------------------------------------------------------
// The end of a fetch
// ---------------------------------------------------------------------------

pub open spec fn new_args(rev: Seq<char>) -> Seq<Seq<char>> {
    seq!["new"@, rev]
}

/// Moves the working copy above a frozen stack.
pub fn edit_get_stack<H: Host>(sh: &mut Shell<H>, top_frozen: &str) -> (r: Result<(), Error>)
    ensures
        record::called(old(sh).log(), final(sh).log(), "jj"@, new_args(top_frozen@)),
        error::res_of(r) == match output::checked("jj"@, new_args(top_frozen@), record::last_reply(final(sh).log())) {
            Ok(output) => Ok(()),
            Err(e) => Err(e),
        },
{
    let args = words(&["new", top_frozen]);
    assert(args.deep_view() =~= new_args(top_frozen@));
    match jj_checked(sh, &args) {
        Ok(_) => Ok(()),
        Err(error) => Err(error),
    }
}

pub open spec fn skip_editing(top: Seq<char>) -> Seq<char> {
    "skip editing: run `jj new "@ + top + "` to start editing above the fetched stack"@
}

fn skip_editing_text(top: &str) -> (r: String)
    ensures
        r@ == skip_editing(top@),
{
    cat3("skip editing: run `jj new ", top, "` to start editing above the fetched stack")
}

/// The record from `before` to `after` holds the move of the working copy, or how to make it.
pub open spec fn stack_edited(
    before: Seq<Event>,
    after: Seq<Event>,
    top: Seq<char>,
    auto_edit: bool,
    diagnostics: Diagnostics,
    r: Result<bool, Seq<CauseView>>,
) -> bool {
    if !auto_edit {
        &&& after == before.push(Event::Said(LineView::Info(skip_editing(top))))
        &&& r == Ok::<bool, Seq<CauseView>>(false)
    } else {
        &&& record::called(before + ui::phase_said(diagnostics, "edit-stack"@), after, "jj"@, new_args(top))
        &&& r == match output::checked("jj"@, new_args(top), record::last_reply(after)) {
            Ok(output) => Ok(true),
            Err(e) => Err(error::phase_failure("edit-stack"@, top, e)),
        }
    }
}

fn finish_edit<H: Host>(sh: &mut Shell<H>, top: &str, auto_edit: bool, diagnostics: Diagnostics) -> (r:
    Result<bool, Error>)
    ensures
        record::extends(old(sh).log(), final(sh).log()),
        stack_edited(
            old(sh).log(),
            final(sh).log(),
            top@,
            auto_edit,
            diagnostics,
            error::res_of(r),
        ),
{
    if !auto_edit {
        sh.say(Line::Info(skip_editing_text(top)));
        return Ok(false);
    }
    diagnostics.phase(sh, "edit-stack");
    match edit_get_stack(sh, top) {
        Ok(_) => Ok(true),
        Err(error) => Err(phase_error("edit-stack", top, error)),
    }
}

/// The cache with the entries of these pull requests, each under its change.
pub open spec fn with_prs(
    all: Map<(Seq<char>, Seq<char>), PrCacheEntryView>,
    repo: Seq<char>,
    prs: Seq<GhPrView>,
    changes: Seq<ResolvedChangeView>,
) -> Map<(Seq<char>, Seq<char>), PrCacheEntryView>
    decreases prs.len(),
{
    if prs.len() == 0 || changes.len() != prs.len() {
        all
    } else {
        with_prs(all, repo, prs.drop_last(), changes.drop_last()).insert(
            (repo, changes.last().change_id),
            pr::entry_of(prs.last(), None),
        )
    }
}

/// The record from `before` to `after` holds how the fetched pull requests are remembered.
pub open spec fn prs_remembered(
    before: Seq<Event>,
    after: Seq<Event>,
    repo: Seq<char>,
    prs: Seq<GhPrView>,
    changes: Seq<ResolvedChangeView>,
    r: Result<usize, Seq<CauseView>>,
) -> bool {
    exists|
        mid: Seq<Event>,
        opened: Result<
            (Seq<char>, Map<(Seq<char>, Seq<char>), PrCacheEntryView>),
            Seq<CauseView>,
        >,
    |
        {
            &&& #[trigger] cache::cache_opened(before, mid, "write-cache"@, opened)
            &&& match opened {
                Err(e) => record::stopped(mid, after, error::phase_failure("write-cache"@, "cache"@, e), r),
                Ok((place, all)) => {
                    &&& r is Ok
                    &&& r->Ok_0 == prs.len() || r->Ok_0 == 0
                    &&& cache::cache_saved(
                        mid,
                        after,
                        place,
                        with_prs(all, repo, prs, changes),
                        "write-cache"@,
                        after[mid.len() as int]->written is Ok,
                    )
                    &&& r->Ok_0 == if after[mid.len() as int]->written is Ok {
                        prs.len()
                    } else {
                        0
                    }
                },
            }
        }
}

fn remember_prs<H: Host>(
    sh: &mut Shell<H>,
    github: &GitHubContext,
    prs: &Vec<GhPr>,
    changes: &Vec<ResolvedChange>,
) -> (r: Result<usize, Error>)
    requires
        changes@.len() == prs@.len(),
    ensures
        record::extends(old(sh).log(), final(sh).log()),
        prs_remembered(
            old(sh).log(),
            final(sh).log(),
            github@.repo,
            prs.deep_view(),
            changes.deep_view(),
            error::res_of(r),
        ),
{
    let loaded = CacheStore::load_current_best_effort(sh, "write-cache");
    let ghost mid = sh.log();
    let ghost opened = cache::store_parts(loaded);
    assert(cache::cache_opened(old(sh).log(), mid, "write-cache"@, opened));
    let mut store = match loaded {
        Ok(store) => store,
        Err(error) => return Err(phase_error("write-cache", "cache", error)),
    };
    let ghost place = store.place();
    let ghost all = store@;
    let ghost pv = prs.deep_view();
    let ghost cv = changes.deep_view();
    assert(pv.take(0) =~= Seq::<GhPrView>::empty());
    let mut i: usize = 0;
    while i < prs.len()
        invariant
            i <= prs@.len(),
            changes@.len() == prs@.len(),
            pv == prs.deep_view(),
            cv == changes.deep_view(),
            store.place() == place,
            store@ == with_prs(all, github@.repo, pv.take(i as int), cv.take(i as int)),
        decreases prs@.len() - i,
    {
        assert(pv.take(i + 1).drop_last() =~= pv.take(i as int));
        assert(cv.take(i + 1).drop_last() =~= cv.take(i as int));
        assert(pv.take(i + 1).last() == prs@[i as int]@);
        assert(cv.take(i + 1).last() == changes@[i as int]@);
        store.upsert_pr(
            &github.repo,
            &changes[i].change_id,
            prs[i].copy().into_cache_entry(None),
        );
        i = i + 1;
    }
    assert(pv.take(i as int) =~= pv);
    assert(cv.take(i as int) =~= cv);
    if store.save_best_effort(sh, "write-cache") {
        Ok(prs.len())
    } else {
        Ok(0)
    }
}

pub open spec fn dry_lines(top: Seq<char>, auto_edit: bool) -> Seq<Event> {
    seq![
        Event::Said(
            LineView::Info(
                if auto_edit {
                    "- move working copy: jj new "@ + top
                } else {
                    "- "@ + skip_editing(top)
                },
            ),
        ),
        Event::Said(
            LineView::Info(
                "- live GitHub discovery ran during planning; SQLite cache writes are skipped"@,
            ),
        ),
    ]
}

/// The record from `before` to `after` holds the last steps: the cache and the working copy.
pub open spec fn get_finished(
    before: Seq<Event>,
    after: Seq<Event>,
    repo: Seq<char>,
    prs: Seq<GhPrView>,
    changes: Seq<ResolvedChangeView>,
    auto_edit: bool,
    diagnostics: Diagnostics,
    r: Result<GetSummary, Seq<CauseView>>,
) -> bool {
    exists|mid: Seq<Event>, kept: Result<usize, Seq<CauseView>>|
        {
            &&& #[trigger] prs_remembered(
                before + ui::phase_said(diagnostics, "write-cache"@),
                mid,
                repo,
                prs,
                changes,
                kept,
            )
            &&& match kept {
                Err(e) => record::stopped(mid, after, e, r),
                Ok(kept) => get_edited(mid, after, prs, kept, auto_edit, diagnostics, r),
            }
        }
}

pub open spec fn get_edited(
    before: Seq<Event>,
    after: Seq<Event>,
    prs: Seq<GhPrView>,
    kept: usize,
    auto_edit: bool,
    diagnostics: Diagnostics,
    r: Result<GetSummary, Seq<CauseView>>,
) -> bool {
    exists|edited: Result<bool, Seq<CauseView>>|
        {
            &&& #[trigger] stack_edited(
                before,
                after,
                bookmarks::frozen_name(prs.last().number),
                auto_edit,
                diagnostics,
                edited,
            )
            &&& r == match edited {
                Err(e) => Err(e),
                Ok(edited) => Ok(
                    GetSummary {
                        prs: prs.len() as usize,
                        fetched_branches: prs.len() as usize,
                        cache_entries: kept,
                        edited,
                    },
                ),
            }
        }
}

fn finish_get<H: Host>(
    sh: &mut Shell<H>,
    github: &GitHubContext,
    prs: &Vec<GhPr>,
    changes: &Vec<ResolvedChange>,
    auto_edit: bool,
    diagnostics: Diagnostics,
) -> (r: Result<GetSummary, Error>)
    requires
        changes@.len() == prs@.len(),
        prs@.len() > 0,
    ensures
        record::extends(old(sh).log(), final(sh).log()),
        get_finished(
            old(sh).log(),
            final(sh).log(),
            github@.repo,
            prs.deep_view(),
            changes.deep_view(),
            auto_edit,
            diagnostics,
            error::res_of(r),
        ),
{
    let ghost start = sh.log();
    diagnostics.phase(sh, "write-cache");
    let remembered = remember_prs(sh, github, prs, changes);
    let ghost mid = sh.log();
    assert(prs_remembered(
        start + ui::phase_said(diagnostics, "write-cache"@),
        mid,
        github@.repo,
        prs.deep_view(),
        changes.deep_view(),
        error::res_of(remembered),
    ));
    let cache_entries = match remembered {
        Ok(kept) => kept,
        Err(error) => return Err(error),
    };
    let n: usize = prs.len();
    assert(prs.deep_view().last() == prs@[n - 1]@);
    let top = frozen_bookmark_name(prs[n - 1].number);
    let edited = finish_edit(sh, &top, auto_edit, diagnostics);
    assert(stack_edited(
        mid,
        sh.log(),
        bookmarks::frozen_name(prs.deep_view().last().number),
        auto_edit,
        diagnostics,
        error::res_of(edited),
    ));
    match edited {
        Err(error) => Err(error),
        Ok(edited) => Ok(GetSummary { prs: n, fetched_branches: n, cache_entries, edited }),
    }
}

/// The record from `before` to `after` holds how the fetched heads are resolved and frozen.
pub open spec fn get_frozen(
    before: Seq<Event>,
    after: Seq<Event>,
    repo: Seq<char>,
    prs: Seq<GhPrView>,
    changes: Seq<ResolvedChangeView>,
    auto_edit: bool,
    diagnostics: Diagnostics,
    r: Result<GetSummary, Seq<CauseView>>,
) -> bool {
    exists|mid: Seq<Event>, frozen: Result<(), Seq<CauseView>>|
        {
            &&& #[trigger] bookmarks::frozen_updated(
                before + ui::phase_said(diagnostics, "freeze-stack"@),
                mid,
                prs,
                diagnostics.dry_run,
                frozen,
            )
            &&& match frozen {
                Err(e) => record::stopped(
                    mid,
                    after,
                    error::phase_failure("freeze-stack"@, "frozen bookmarks"@, e),
                    r,
                ),
                Ok(_) => get_finished(
                    mid,
                    after,
                    repo,
                    prs,
                    changes,
                    auto_edit,
                    diagnostics,
                    r,
                ),
            }
        }
}

fn freeze_get<H: Host>(
    sh: &mut Shell<H>,
    github: &GitHubContext,
    prs: &Vec<GhPr>,
    changes: &Vec<ResolvedChange>,
    auto_edit: bool,
    diagnostics: Diagnostics,
) -> (r: Result<GetSummary, Error>)
    requires
        changes@.len() == prs@.len(),
        prs@.len() > 0,
    ensures
        record::extends(old(sh).log(), final(sh).log()),
        get_frozen(
            old(sh).log(),
            final(sh).log(),
            github@.repo,
            prs.deep_view(),
            changes.deep_view(),
            auto_edit,
            diagnostics,
            error::res_of(r),
        ),
{
    let ghost start = sh.log();
    diagnostics.phase(sh, "freeze-stack");
    let frozen = update_get_frozen_bookmarks(sh, prs, diagnostics);
    assert(bookmarks::frozen_updated(
        start + ui::phase_said(diagnostics, "freeze-stack"@),
        sh.log(),
        prs.deep_view(),
        diagnostics.dry_run,
        error::res_of(frozen),
    ));
    match frozen {
        Err(error) => Err(phase_error("freeze-stack", "frozen bookmarks", error)),
        Ok(_) => finish_get(sh, github, prs, changes, auto_edit, diagnostics),
    }
}

pub open spec fn get_resolved(
    before: Seq<Event>,
    after: Seq<Event>,
    repo: Seq<char>,
    prs: Seq<GhPrView>,
    auto_edit: bool,
    diagnostics: Diagnostics,
    r: Result<GetSummary, Seq<CauseView>>,
) -> bool {
    exists|mid: Seq<Event>, changes: Result<Seq<ResolvedChangeView>, Seq<CauseView>>|
        {
            &&& #[trigger] all_heads_resolved(
                before + ui::phase_said(diagnostics, "resolve-fetched-heads"@),
                mid,
                prs,
                changes,
            )
            &&& match changes {
                Err(e) => record::stopped(
                    mid,
                    after,
                    error::phase_failure("resolve-fetched-heads"@, "fetched PR heads"@, e),
                    r,
                ),
                Ok(changes) => get_frozen(
                    mid,
                    after,
                    repo,
                    prs,
                    changes,
                    auto_edit,
                    diagnostics,
                    r,
                ),
            }
        }
}

fn resolve_get<H: Host>(
    sh: &mut Shell<H>,
    github: &GitHubContext,
    prs: &Vec<GhPr>,
    auto_edit: bool,
    diagnostics: Diagnostics,
) -> (r: Result<GetSummary, Error>)
    requires
        prs@.len() > 0,
    ensures
        record::extends(old(sh).log(), final(sh).log()),
        get_resolved(
            old(sh).log(),
            final(sh).log(),
            github@.repo,
            prs.deep_view(),
            auto_edit,
            diagnostics,
            error::res_of(r),
        ),
{
    let ghost start = sh.log();
    diagnostics.phase(sh, "resolve-fetched-heads");
    let resolved = resolve_get_pr_changes(sh, prs);
    let ghost seen = error::res(resolved);
    assert(all_heads_resolved(
        start + ui::phase_said(diagnostics, "resolve-fetched-heads"@),
        sh.log(),
        prs.deep_view(),
        seen,
    ));
    match resolved {
        Err(error) => Err(phase_error("resolve-fetched-heads", "fetched PR heads", error)),
        Ok(changes) => freeze_get(sh, github, prs, &changes, auto_edit, diagnostics),
    }
}

/// The record from `before` to `after` holds the plan of a dry run after the fetch.
pub open spec fn get_planned(
    before: Seq<Event>,
    after: Seq<Event>,
    prs: Seq<GhPrView>,
    auto_edit: bool,
    r: Result<GetSummary, Seq<CauseView>>,
) -> bool {
    &&& after == before + bookmarks::frozen_plan(prs) + dry_lines(bookmarks::frozen_name(prs.last().number), auto_edit)
    &&& r == Ok::<_, Seq<CauseView>>(
        GetSummary {
            prs: prs.len() as usize,
            fetched_branches: prs.len() as usize,
            cache_entries: 0,
            edited: false,
        },
    )
}

fn plan_get<H: Host>(
    sh: &mut Shell<H>,
    prs: &Vec<GhPr>,
    auto_edit: bool,
    diagnostics: Diagnostics,
) -> (r: Result<GetSummary, Error>)
    requires
        prs@.len() > 0,
        diagnostics.dry_run,
    ensures
        record::extends(old(sh).log(), final(sh).log()),
        get_planned(old(sh).log(), final(sh).log(), prs.deep_view(), auto_edit, error::res_of(r)),
{
    let ghost start = sh.log();
    let n: usize = prs.len();
    assert(prs.deep_view().last() == prs@[n - 1]@);
    let top = frozen_bookmark_name(prs[n - 1].number);
    match update_get_frozen_bookmarks(sh, prs, diagnostics) {
        Ok(_) => {},
        Err(error) => return Err(error),
    }
    if auto_edit {
        diagnostics.plan_line(sh, &cat("- move working copy: jj new ", &top));
    } else {
        diagnostics.plan_line(sh, &cat("- ", &skip_editing_text(&top)));
    }
    diagnostics.plan_line(
        sh,
        "- live GitHub discovery ran during planning; SQLite cache writes are skipped",
    );
    assert(sh.log() =~= start + bookmarks::frozen_plan(prs.deep_view()) + dry_lines(top@, auto_edit));
    Ok(GetSummary { prs: n, fetched_branches: n, cache_entries: 0, edited: false })
}

/// The record from `before` to `after` holds the fetch of a valid stack and what follows it.
pub open spec fn get_fetched(
    before: Seq<Event>,
    after: Seq<Event>,
    config: AppConfigView,
    repo: Seq<char>,
    prs: Seq<GhPrView>,
    auto_edit: bool,
    diagnostics: Diagnostics,
    r: Result<GetSummary, Seq<CauseView>>,
) -> bool {
    exists|mid: Seq<Event>, fetched: Result<(), Seq<CauseView>>|
        {
            &&& #[trigger] branches::branches_fetched(
                before + ui::phase_said(diagnostics, "fetch-stack"@),
                mid,
                config.remote,
                prs,
                diagnostics.dry_run,
                fetched,
            )
            &&& match fetched {
                Err(e) => record::stopped(mid, after, e, r),
                Ok(_) => if diagnostics.dry_run {
                    get_planned(mid, after, prs, auto_edit, r)
                } else {
                    get_resolved(mid, after, repo, prs, auto_edit, diagnostics, r)
                },
            }
        }
}

fn fetch_get<H: Host>(
    sh: &mut Shell<H>,
    config: &AppConfig,
    github: &GitHubContext,
    prs: &Vec<GhPr>,
    auto_edit: bool,
    diagnostics: Diagnostics,
) -> (r: Result<GetSummary, Error>)
    requires
        prs@.len() > 0,
    ensures
        record::extends(old(sh).log(), final(sh).log()),
        get_fetched(
            old(sh).log(),
            final(sh).log(),
            config@,
            github@.repo,
            prs.deep_view(),
            auto_edit,
            diagnostics,
            error::res_of(r),
        ),
{
    let ghost start = sh.log();
    diagnostics.phase(sh, "fetch-stack");
    let fetched = fetch_get_branches(sh, config, prs, diagnostics);
    assert(branches::branches_fetched(
        start + ui::phase_said(diagnostics, "fetch-stack"@),
        sh.log(),
        config@.remote,
        prs.deep_view(),
        diagnostics.dry_run,
        error::res_of(fetched),
    ));
    match fetched {
        Err(error) => Err(error),
        Ok(_) => if diagnostics.dry_run {
            plan_get(sh, prs, auto_edit, diagnostics)
        } else {
            resolve_get(sh, github, prs, auto_edit, diagnostics)
        },
    }
}

// ---------------------------------------------------------------------------
// The beginning of a fetch
// ---------------------------------------------------------------------------

pub open spec fn get_listed(
    before: Seq<Event>,
    after: Seq<Event>,
    config: AppConfigView,
    github: GitHubContextView,
    target: u64,
    numbers: Seq<u64>,
    auto_edit: bool,
    diagnostics: Diagnostics,
    r: Result<GetSummary, Seq<CauseView>>,
) -> bool {
    exists|mid: Seq<Event>, prs: Result<Seq<GhPrView>, Seq<CauseView>>|
        {
            &&& #[trigger] prs_fetched(
                before + ui::phase_said(diagnostics, "resolve-prs"@),
                mid,
                github.repo,
                "get"@,
                numbers,
                diagnostics,
                prs,
            )
            &&& match prs {
                Err(e) => record::stopped(mid, after, e, r),
                Ok(prs) => match pr::pr_stack_fault(config, github, target, prs) {
                    Some(e) => record::stopped(mid, after, e, r),
                    None => get_fetched(
                        mid,
                        after,
                        config,
                        github.repo,
                        prs,
                        auto_edit,
                        diagnostics,
                        r,
                    ),
                },
            }
        }
}

fn list_get<H: Host>(
    sh: &mut Shell<H>,
    config: &AppConfig,
    github: &GitHubContext,
    target: u64,
    numbers: &Vec<u64>,
    auto_edit: bool,
    diagnostics: Diagnostics,
) -> (r: Result<GetSummary, Error>)
    ensures
        record::extends(old(sh).log(), final(sh).log()),
        get_listed(
            old(sh).log(),
            final(sh).log(),
            config@,
            github@,
            target,
            numbers@,
            auto_edit,
            diagnostics,
            error::res_of(r),
        ),
{
    let ghost start = sh.log();
    diagnostics.phase(sh, "resolve-prs");
    let fetched = fetch_prs(sh, github, "get", numbers, diagnostics);
    let ghost seen = error::res(fetched);
    assert(prs_fetched(
        start + ui::phase_said(diagnostics, "resolve-prs"@),
        sh.log(),
        github@.repo,
        "get"@,
        numbers@,
        diagnostics,
        seen,
    ));
    let prs = match fetched {
        Ok(prs) => prs,
        Err(error) => return Err(error),
    };
    match validate_get_pr_stack(config, github, target, &prs) {
        Err(error) => Err(error),
        Ok(_) => fetch_get(sh, config, github, &prs, auto_edit, diagnostics),
    }
}

pub open spec fn get_commented(
    before: Seq<Event>,
    after: Seq<Event>,
    config: AppConfigView,
    github: GitHubContextView,
    target: u64,
    auto_edit: bool,
    diagnostics: Diagnostics,
    r: Result<GetSummary, Seq<CauseView>>,
) -> bool {
    exists|mid: Seq<Event>, comment: Result<Option<GhStackCommentView>, Seq<CauseView>>|
        {
            &&& #[trigger] comments::latest_comment_found(
                before,
                mid,
                github.repo,
                target,
                "get"@,
                comment,
            )
            &&& match comment {
                Err(e) => record::stopped(mid, after, e, r),
                Ok(comment) => get_listed(
                    mid,
                    after,
                    config,
                    github,
                    target,
                    stack_numbers(comment, target),
                    auto_edit,
                    diagnostics,
                    r,
                ),
            }
        }
}

fn comment_get<H: Host>(
    sh: &mut Shell<H>,
    config: &AppConfig,
    github: &GitHubContext,
    target: u64,
    auto_edit: bool,
    diagnostics: Diagnostics,
) -> (r: Result<GetSummary, Error>)
    ensures
        record::extends(old(sh).log(), final(sh).log()),
        get_commented(
            old(sh).log(),
            final(sh).log(),
            config@,
            github@,
            target,
            auto_edit,
            diagnostics,
            error::res_of(r),
        ),
{
    let found = latest_stack_comment(sh, github, target, "get");
    let ghost seen = error::res(found);
    assert(comments::latest_comment_found(
        old(sh).log(),
        sh.log(),
        github@.repo,
        target,
        "get"@,
        seen,
    ));
    match found {
        Err(error) => Err(error),
        Ok(comment) => {
            let numbers = stack_comment_numbers(&comment, target);
            list_get(sh, config, github, target, &numbers, auto_edit, diagnostics)
        },
    }
}

pub open spec fn get_targeted(
    before: Seq<Event>,
    after: Seq<Event>,
    config: AppConfigView,
    github: GitHubContextView,
    target: GetTargetView,
    auto_edit: bool,
    diagnostics: Diagnostics,
    r: Result<GetSummary, Seq<CauseView>>,
) -> bool {
    exists|mid: Seq<Event>, pr: Result<GhPrView, Seq<CauseView>>|
        {
            &&& #[trigger] pr::target_resolved(
                before + ui::phase_said(diagnostics, "resolve-stack-comment"@),
                mid,
                github.repo,
                target,
                "get"@,
                pr,
            )
            &&& match pr {
                Err(e) => record::stopped(mid, after, e, r),
                Ok(pr) => get_commented(
                    mid,
                    after,
                    config,
                    github,
                    pr.number,
                    auto_edit,
                    diagnostics,
                    r,
                ),
            }
        }
}

fn target_get<H: Host>(
    sh: &mut Shell<H>,
    config: &AppConfig,
    github: &GitHubContext,
    target: &GetTarget,
    auto_edit: bool,
    diagnostics: Diagnostics,
) -> (r: Result<GetSummary, Error>)
    ensures
        record::extends(old(sh).log(), final(sh).log()),
        get_targeted(
            old(sh).log(),
            final(sh).log(),
            config@,
            github@,
            target@,
            auto_edit,
            diagnostics,
            error::res_of(r),
        ),
{
    let ghost start = sh.log();
    diagnostics.phase(sh, "resolve-stack-comment");
    let found = resolve_get_target_pr(sh, github, target);
    let ghost seen = error::res(found);
    assert(pr::target_resolved(
        start + ui::phase_said(diagnostics, "resolve-stack-comment"@),
        sh.log(),
        github@.repo,
        target@,
        "get"@,
        seen,
    ));
    match found {
        Err(error) => Err(error),
        Ok(pr) => comment_get(sh, config, github, pr.number, auto_edit, diagnostics),
    }
}

/// The record from `before` to `after` holds how the repository and the meaning of a target are found
/// at the beginning of a command.
pub open spec fn target_opened(
    before: Seq<Event>,
    after: Seq<Event>,
    target: Seq<char>,
    diagnostics: Diagnostics,
    r: Result<(GitHubContextView, GetTargetView), Seq<CauseView>>,
) -> bool {
    exists|github: Result<GitHubContextView, Seq<CauseView>>|
        {
            &&& #[trigger] context::github_resolved(
                before + ui::phase_said(diagnostics, "resolve-github"@),
                after,
                github,
            )
            &&& r == match github {
                Err(e) => Err(error::phase_failure("resolve-github"@, "github"@, e)),
                Ok(github) => match pr::target_meaning(target, github.repo) {
                    Err(e) => Err(e),
                    Ok(meaning) => Ok(
                        (
                            GitHubContextView { repo: meaning.place(), username: github.username },
                            meaning,
                        ),
                    ),
                },
            }
        }
}

pub open spec fn opened_parts(r: Result<(GitHubContext, GetTarget), Error>) -> Result<
    (GitHubContextView, GetTargetView),
    Seq<CauseView>,
> {
    match r {
        Ok(both) => Ok((both.0@, both.1@)),
        Err(error) => Err(error@),
    }
}

/// Finds the repository and what a target means; the target may name another repository.
pub fn open_target<H: Host>(sh: &mut Shell<H>, target: &str, diagnostics: Diagnostics) -> (r: Result<
    (GitHubContext, GetTarget),
    Error,
>)
    ensures
        record::extends(old(sh).log(), final(sh).log()),
        target_opened(
            old(sh).log(),
            final(sh).log(),
            target@,
            diagnostics,
            opened_parts(r),
        ),
{
    let ghost start = sh.log();
    diagnostics.phase(sh, "resolve-github");
    let resolved = GitHubContext::resolve(sh);
    let ghost seen = error::res(resolved);
    assert(context::github_resolved(
        start + ui::phase_said(diagnostics, "resolve-github"@),
        sh.log(),
        seen,
    ));
    let github = match resolved {
        Ok(github) => github,
        Err(error) => return Err(phase_error("resolve-github", "github", error)),
    };
    match parse_get_target(target, &github.repo) {
        Err(error) => Err(error),
        Ok(meaning) => {
            let github = GitHubContext { repo: meaning.repo(), username: github.username };
            Ok((github, meaning))
        },
    }
}

/// The record from `before` to `after` holds how a stack is fetched: its pull requests are found from
/// the stack comment on the target and must form a row; their heads are fetched, resolved, frozen and
/// remembered; then the working copy may move above them. A dry run fetches nothing and freezes
/// nothing.
pub open spec fn stack_got(
    before: Seq<Event>,
    after: Seq<Event>,
    config: AppConfigView,
    target: Seq<char>,
    auto_edit: bool,
    diagnostics: Diagnostics,
    r: Result<GetSummary, Seq<CauseView>>,
) -> bool {
    exists|mid: Seq<Event>, opened: Result<(GitHubContextView, GetTargetView), Seq<CauseView>>|
        {
            &&& #[trigger] target_opened(before, mid, target, diagnostics, opened)
            &&& match opened {
                Err(e) => record::stopped(mid, after, e, r),
                Ok((github, meaning)) => get_targeted(
                    mid,
                    after,
                    config,
                    github,
                    meaning,
                    auto_edit,
                    diagnostics,
                    r,
                ),
            }
        }
}

pub fn get_stack<H: Host>(
    sh: &mut Shell<H>,
    config: &AppConfig,
    target: &str,
    auto_edit: bool,
    diagnostics: Diagnostics,
) -> (r: Result<GetSummary, Error>)
    ensures
        record::extends(old(sh).log(), final(sh).log()),
        stack_got(
            old(sh).log(),
            final(sh).log(),
            config@,
            target@,
            auto_edit,
            diagnostics,
            error::res_of(r),
        ),
{
    let opened = open_target(sh, target, diagnostics);
    assert(target_opened(
        old(sh).log(),
        sh.log(),
        target@,
        diagnostics,
        opened_parts(opened),
    ));
    match opened {
        Err(error) => Err(error),
        Ok((github, meaning)) => target_get(sh, config, &github, &meaning, auto_edit, diagnostics),
    }
}

} // verus!
