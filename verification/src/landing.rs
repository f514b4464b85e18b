//! What a merge does to the repository and to GitHub, and in which order.

use vstd::prelude::*;

use crate::asking;
use crate::bookmarks;
use crate::candidates;
use crate::cleanup;
use crate::context;
use crate::error;
use crate::error::CauseView;
use crate::frozen;
use crate::get;
use crate::merge;
use crate::merge::{MergeSummary, PassView, PreparedView};
use crate::model::{
    AppConfigView, AppContextView, Diagnostics, FrozenBookmarkView, GhMergePrView,
    GitHubContextView, MergeCandidateView, MergeTargetView, PrCacheEntryView, ResolvedChangeView,
    StackResolutionView,
};
use crate::polling;
use crate::pr;
use crate::quiet;
use crate::ready;
use crate::rebase;
use crate::record;
use crate::record::Event;
use crate::stack;
use crate::trunk;
use crate::ui;

verus! {

/// Whether the meeting is a push to the remote.
pub open spec fn is_push(event: Event) -> bool {
    &&& event is Call
    &&& event->Call_program == "jj"@
    &&& event->Call_args.len() > 1
    &&& event->Call_args[0] == "git"@
    &&& event->Call_args[1] == "push"@
}

/// Whether the meeting puts a request onto another base.
pub open spec fn is_repoint(event: Event) -> bool {
    exists|repo: Seq<char>, number: u64, base: Seq<char>|
        record::is_call(event, "gh"@, #[trigger] trunk::repoint_args(repo, number, base))
}

/// Whether the meeting follows, moves or drops a bookmark.
pub open spec fn is_bookmark_step(event: Event) -> bool {
    &&& event is Call
    &&& event->Call_program == "jj"@
    &&& event->Call_args.len() > 1
    &&& event->Call_args[0] == "bookmark"@
    &&& {
        ||| event->Call_args[1] == "track"@
        ||| event->Call_args[1] == "set"@
        ||| event->Call_args[1] == "delete"@
        ||| event->Call_args[1] == "forget"@
    }
}

/// Whether the meeting begins a fresh change.
pub open spec fn is_fresh_change(event: Event) -> bool {
    exists|rev: Seq<char>| record::is_call(event, "jj"@, #[trigger] get::new_args(rev))
}

/// All that a merge does: it asks, puts requests onto another base, moves and pushes bookmarks, and
/// begins a fresh change. No commit is squashed, rebased, abandoned or merged.
pub open spec fn keeps_commits(event: Event) -> bool {
    ||| quiet::harmless(event)
    ||| is_repoint(event)
    ||| is_bookmark_step(event)
    ||| is_push(event)
    ||| is_fresh_change(event)
}

/// Whether only what a merge may do was done between `before` and `after`.
#[verifier::opaque]
pub open spec fn lands(before: Seq<Event>, after: Seq<Event>) -> bool {
    &&& record::extends(before, after)
    &&& forall|i: int| before.len() <= i < after.len() ==> keeps_commits(#[trigger] after[i])
}

/// Whether nothing was pushed between `before` and `after`.
#[verifier::opaque]
pub open spec fn pushless(before: Seq<Event>, after: Seq<Event>) -> bool {
    &&& record::extends(before, after)
    &&& forall|i: int| before.len() <= i < after.len() ==> !is_push(#[trigger] after[i])
}

/// Whether the first meeting read where the trunk of the remote stands, and the second said that it
/// lies below the commit `top`.
pub open spec fn found_below(
    asked: Event,
    told: Event,
    config: AppConfigView,
    top: Seq<char>,
) -> bool {
    &&& record::is_call(asked, "git"@, rebase::rev_parse_args(rebase::git_ref_of(config)))
    &&& match rebase::rev_parse_result(rebase::git_ref_of(config), record::reply_of(asked)) {
        Ok(remote) => record::is_call(told, "git"@, bookmarks::ancestor_args(remote, top)),
        Err(_) => false,
    }
    &&& bookmarks::success_of(record::reply_of(told)) == Ok::<bool, Seq<CauseView>>(true)
}

/// Whether it was found between `before` and `after` that trunk can move forward to `top`.
#[verifier::opaque]
pub open spec fn went_forward(
    before: Seq<Event>,
    after: Seq<Event>,
    config: AppConfigView,
    top: Seq<char>,
) -> bool {
    exists|asked: int, told: int|
        before.len() <= asked < told < after.len() && #[trigger] found_below(
            after[asked],
            after[told],
            config,
            top,
        )
}

/// Whether each push between `before` and `after` comes after it was found that trunk can move
/// forward to `top`.
#[verifier::opaque]
pub open spec fn guarded(
    before: Seq<Event>,
    after: Seq<Event>,
    config: AppConfigView,
    top: Seq<char>,
) -> bool {
    &&& record::extends(before, after)
    &&& forall|k: int|
        before.len() <= k < after.len() && is_push(#[trigger] after[k]) ==> went_forward(
            before,
            after.take(k),
            config,
            top,
        )
}

/// Whether at most one push stands between `before` and `after`.
#[verifier::opaque]
pub open spec fn pushes_once(before: Seq<Event>, after: Seq<Event>) -> bool {
    &&& record::extends(before, after)
    &&& forall|i: int, j: int|
        before.len() <= i < j < after.len() && is_push(#[trigger] after[i]) ==> !is_push(
            #[trigger] after[j],
        )
}

pub broadcast proof fn lemma_quiet_lands(before: Seq<Event>, after: Seq<Event>)
    requires
        quiet::quiet(before, after),
    ensures
        #[trigger] lands(before, after),
{
    reveal(quiet::quiet);
    reveal(lands);
}

pub broadcast proof fn lemma_lands_trans(
    a: Seq<Event>,
    b: Seq<Event>,
    c: Seq<Event>,
)
    requires
        #[trigger] lands(a, b),
        #[trigger] lands(b, c),
    ensures
        lands(a, c),
{
    broadcast use crate::record::group_record;

    reveal(lands);
    assert forall|i: int| a.len() <= i < c.len() implies keeps_commits(#[trigger] c[i]) by {
        if i < b.len() {
            assert(c.take(b.len() as int)[i] == b[i]);
        }
    }
}

pub broadcast proof fn lemma_quiet_then_lands(
    a: Seq<Event>,
    b: Seq<Event>,
    c: Seq<Event>,
)
    requires
        #[trigger] quiet::quiet(a, b),
        #[trigger] lands(b, c),
    ensures
        lands(a, c),
{
    lemma_quiet_lands(a, b);
    lemma_lands_trans(a, b, c);
}

pub broadcast proof fn lemma_lands_then_quiet(
    a: Seq<Event>,
    b: Seq<Event>,
    c: Seq<Event>,
)
    requires
        #[trigger] lands(a, b),
        #[trigger] quiet::quiet(b, c),
    ensures
        lands(a, c),
{
    lemma_quiet_lands(b, c);
    lemma_lands_trans(a, b, c);
}

pub broadcast proof fn lemma_call_lands(
    before: Seq<Event>,
    after: Seq<Event>,
    program: Seq<char>,
    args: Seq<Seq<char>>,
)
    requires
        #[trigger] record::called(before, after, program, args),
        keeps_commits(after.last()),
    ensures
        lands(before, after),
{
    broadcast use crate::record::group_record;

    reveal(lands);
    assert forall|i: int| before.len() <= i < after.len() implies keeps_commits(
        #[trigger] after[i],
    ) by {
        assert(after[i] == after.last());
    }
}

pub proof fn lemma_deletion_is_push(remote: Seq<char>, branches: Seq<Seq<char>>)
    ensures
        bookmarks::deletion_args(remote, branches).len() > 1,
        bookmarks::deletion_args(remote, branches)[0] == "git"@,
        bookmarks::deletion_args(remote, branches)[1] == "push"@,
    decreases branches.len(),
{
    if branches.len() > 0 {
        lemma_deletion_is_push(remote, branches.drop_last());
    }
}

pub broadcast proof fn lemma_quiet_is_pushless(before: Seq<Event>, after: Seq<Event>)
    requires
        quiet::quiet(before, after),
    ensures
        #[trigger] pushless(before, after),
{
    reveal(quiet::quiet);
    reveal(pushless);
    reveal_strlit("git");
    reveal_strlit("log");
    reveal_strlit("root");
    reveal_strlit("config");
    reveal_strlit("bookmark");
    reveal_strlit("jj");
    reveal_strlit("gh");
    assert("git"@[0] == 'g' && "log"@[0] == 'l' && "root"@[0] == 'r' && "config"@[0] == 'c'
        && "bookmark"@[0] == 'b');
    assert("jj"@[0] == 'j' && "gh"@[0] == 'g');
}

pub broadcast proof fn lemma_pushless_trans(a: Seq<Event>, b: Seq<Event>, c: Seq<Event>)
    requires
        #[trigger] pushless(a, b),
        #[trigger] pushless(b, c),
    ensures
        pushless(a, c),
{
    broadcast use crate::record::group_record;

    reveal(pushless);
    assert forall|i: int| a.len() <= i < c.len() implies !is_push(#[trigger] c[i]) by {
        if i < b.len() {
            assert(c.take(b.len() as int)[i] == b[i]);
        }
    }
}

pub broadcast proof fn lemma_quiet_then_pushless(a: Seq<Event>, b: Seq<Event>, c: Seq<Event>)
    requires
        #[trigger] quiet::quiet(a, b),
        #[trigger] pushless(b, c),
    ensures
        pushless(a, c),
{
    lemma_quiet_is_pushless(a, b);
    lemma_pushless_trans(a, b, c);
}

pub broadcast proof fn lemma_pushless_then_quiet(a: Seq<Event>, b: Seq<Event>, c: Seq<Event>)
    requires
        #[trigger] pushless(a, b),
        #[trigger] quiet::quiet(b, c),
    ensures
        pushless(a, c),
{
    lemma_quiet_is_pushless(b, c);
    lemma_pushless_trans(a, b, c);
}

pub broadcast proof fn lemma_call_is_pushless(
    before: Seq<Event>,
    after: Seq<Event>,
    program: Seq<char>,
    args: Seq<Seq<char>>,
)
    requires
        #[trigger] record::called(before, after, program, args),
        !is_push(after.last()),
    ensures
        pushless(before, after),
{
    broadcast use crate::record::group_record;

    reveal(pushless);
    assert forall|i: int| before.len() <= i < after.len() implies !is_push(#[trigger] after[i]) by {
        assert(after[i] == after.last());
    }
}

pub proof fn lemma_words_are_no_push()
    ensures
        "gh"@ != "jj"@,
        "bookmark"@ != "git"@,
{
    reveal_strlit("gh");
    reveal_strlit("jj");
    reveal_strlit("bookmark");
    reveal_strlit("git");
    assert("gh"@[0] != "jj"@[0]);
    assert("bookmark"@[0] != "git"@[0]);
}

pub broadcast proof fn lemma_pushless_is_guarded(
    before: Seq<Event>,
    after: Seq<Event>,
    config: AppConfigView,
    top: Seq<char>,
)
    requires
        pushless(before, after),
    ensures
        #[trigger] guarded(before, after, config, top),
{
    reveal(pushless);
    reveal(guarded);
}

pub broadcast proof fn lemma_pushless_then_guarded(
    a: Seq<Event>,
    b: Seq<Event>,
    c: Seq<Event>,
    config: AppConfigView,
    top: Seq<char>,
)
    requires
        #[trigger] pushless(a, b),
        #[trigger] guarded(b, c, config, top),
    ensures
        guarded(a, c, config, top),
{
    broadcast use crate::record::group_record;

    reveal(pushless);
    reveal(guarded);
    reveal(went_forward);
    assert forall|k: int| a.len() <= k < c.len() && is_push(#[trigger] c[k]) implies went_forward(
        a,
        c.take(k),
        config,
        top,
    ) by {
        if k < b.len() {
            assert(c.take(b.len() as int)[k] == b[k]);
        }
        assert(went_forward(b, c.take(k), config, top));
    }
}

pub broadcast proof fn lemma_quiet_then_guarded(
    a: Seq<Event>,
    b: Seq<Event>,
    c: Seq<Event>,
    config: AppConfigView,
    top: Seq<char>,
)
    requires
        #[trigger] quiet::quiet(a, b),
        #[trigger] guarded(b, c, config, top),
    ensures
        guarded(a, c, config, top),
{
    lemma_quiet_is_pushless(a, b);
    lemma_pushless_then_guarded(a, b, c, config, top);
}

/// After the answer that trunk can move forward, whatever follows is guarded.
pub proof fn lemma_forward_guards(
    a: Seq<Event>,
    b: Seq<Event>,
    c: Seq<Event>,
    config: AppConfigView,
    top: Seq<char>,
)
    requires
        guarded(a, b, config, top),
        went_forward(a, b, config, top),
        lands(b, c),
    ensures
        guarded(a, c, config, top),
        went_forward(a, c, config, top),
{
    broadcast use crate::record::group_record;

    reveal(lands);
    reveal(guarded);
    reveal(went_forward);
    let (i, j) = choose|i: int, j: int|
        a.len() <= i < j < b.len() && #[trigger] found_below(b[i], b[j], config, top);
    assert(c.take(b.len() as int)[i] == b[i]);
    assert(c.take(b.len() as int)[j] == b[j]);
    assert(found_below(c[i], c[j], config, top));
    assert forall|k: int| a.len() <= k < c.len() && is_push(#[trigger] c[k]) implies went_forward(
        a,
        c.take(k),
        config,
        top,
    ) by {
        if k < b.len() {
            assert(c.take(b.len() as int)[k] == b[k]);
            assert(c.take(k) =~= b.take(k));
        } else {
            assert(c.take(k)[i] == c[i]);
            assert(c.take(k)[j] == c[j]);
            assert(found_below(c.take(k)[i], c.take(k)[j], config, top));
        }
    }
}

pub broadcast proof fn lemma_pushless_pushes_once(before: Seq<Event>, after: Seq<Event>)
    requires
        pushless(before, after),
    ensures
        #[trigger] pushes_once(before, after),
{
    reveal(pushless);
    reveal(pushes_once);
}

pub broadcast proof fn lemma_pushless_then_once(a: Seq<Event>, b: Seq<Event>, c: Seq<Event>)
    requires
        #[trigger] pushless(a, b),
        #[trigger] pushes_once(b, c),
    ensures
        pushes_once(a, c),
{
    broadcast use crate::record::group_record;

    reveal(pushless);
    reveal(pushes_once);
    assert forall|i: int, j: int|
    a.len() <= i < j < c.len() && is_push(#[trigger] c[i]) implies !is_push(#[trigger] c[j]) by {
        if i < b.len() {
            assert(c.take(b.len() as int)[i] == b[i]);
        }
    }
}

pub broadcast proof fn lemma_call_pushes_once(
    before: Seq<Event>,
    after: Seq<Event>,
    program: Seq<char>,
    args: Seq<Seq<char>>,
)
    requires
        #[trigger] record::called(before, after, program, args),
    ensures
        pushes_once(before, after),
{
    broadcast use crate::record::group_record;

    reveal(pushes_once);
}

pub broadcast group group_landing {
    lemma_quiet_lands,
    lemma_lands_trans,
    lemma_quiet_then_lands,
    lemma_lands_then_quiet,
    lemma_call_lands,
    lemma_quiet_is_pushless,
    lemma_pushless_trans,
    lemma_quiet_then_pushless,
    lemma_pushless_then_quiet,
    lemma_call_is_pushless,
    lemma_pushless_is_guarded,
    lemma_pushless_then_guarded,
    lemma_quiet_then_guarded,
    lemma_pushless_pushes_once,
    lemma_pushless_then_once,
    lemma_call_pushes_once,
}

broadcast proof fn lands_base_repointed(
    before: Seq<Event>,
    after: Seq<Event>,
    repo: Seq<char>,
    number: u64,
    trunk: Seq<char>,
    diagnostics: Diagnostics,
    r: Result<(), Seq<CauseView>>,
)
    requires
        #[trigger] trunk::base_repointed(before, after, repo, number, trunk, diagnostics, r),
    ensures
        lands(before, after),
{
    broadcast use {crate::quiet::group_quiet, group_landing, crate::asking::lemma_plan_said};

    assert(
        record::is_call(
            after.last(),
            "gh"@,
            trunk::repoint_args(repo, number, trunk),
        ) ==> is_repoint(after.last())
    );
}

broadcast proof fn lands_candidate_repointed(
    before: Seq<Event>,
    after: Seq<Event>,
    trunk: Seq<char>,
    repo: Seq<char>,
    change: ResolvedChangeView,
    entry: PrCacheEntryView,
    pr: GhMergePrView,
    diagnostics: Diagnostics,
    r: Result<PreparedView, Seq<CauseView>>,
)
    requires
        #[trigger] merge::candidate_repointed(
            before,
            after,
            trunk,
            repo,
            change,
            entry,
            pr,
            diagnostics,
            r,
        ),
    ensures
        lands(before, after),
{
    broadcast use {crate::quiet::group_quiet, group_landing, lands_base_repointed};
}

broadcast proof fn lands_pr_prepared(
    before: Seq<Event>,
    after: Seq<Event>,
    trunk: Seq<char>,
    repo: Seq<char>,
    change: ResolvedChangeView,
    entry: PrCacheEntryView,
    pr: GhMergePrView,
    diagnostics: Diagnostics,
    r: Result<PreparedView, Seq<CauseView>>,
)
    requires
        #[trigger] merge::pr_prepared(
            before,
            after,
            trunk,
            repo,
            change,
            entry,
            pr,
            diagnostics,
            r,
        ),
    ensures
        lands(before, after),
{
    broadcast use {crate::quiet::group_quiet, group_landing, lands_candidate_repointed};
}

broadcast proof fn lands_change_prepared(
    before: Seq<Event>,
    after: Seq<Event>,
    config: AppConfigView,
    github: GitHubContextView,
    change: ResolvedChangeView,
    diagnostics: Diagnostics,
    r: Result<PreparedView, Seq<CauseView>>,
)
    requires
        #[trigger] merge::change_prepared(before, after, config, github, change, diagnostics, r),
    ensures
        lands(before, after),
{
    broadcast use {
        crate::quiet::group_quiet,
        group_landing,
        lands_pr_prepared,
        crate::asking::asks_candidate_resolved,
    };
}

broadcast proof fn lands_changes_prepared(
    before: Seq<Event>,
    after: Seq<Event>,
    config: AppConfigView,
    github: GitHubContextView,
    stack: Seq<ResolvedChangeView>,
    at: int,
    pass: PassView,
    steps: bool,
    diagnostics: Diagnostics,
    r: Result<PassView, Seq<CauseView>>,
)
    requires
        #[trigger] merge::changes_prepared(
            before,
            after,
            config,
            github,
            stack,
            at,
            pass,
            steps,
            diagnostics,
            r,
        ),
    ensures
        lands(before, after),
    decreases stack.len() - at,
{
    broadcast use {
        crate::quiet::group_quiet,
        group_landing,
        lands_change_prepared,
        crate::asking::lemma_step_said,
    };

    if at >= stack.len() {
    } else {
        let (mid, got) = choose|mid: Seq<Event>, got: Result<PreparedView, Seq<CauseView>>| {
            &&& #[trigger] merge::change_prepared(
                before,
                mid,
                config,
                github,
                stack[at],
                diagnostics,
                got,
            )
            &&& match got {
                Err(e) => record::stopped(mid, after, e, r),
                Ok(one) => merge::changes_prepared(
                    mid + ui::step_said(steps, (at + 1) as usize),
                    after,
                    config,
                    github,
                    stack,
                    at + 1,
                    pass.with(one),
                    steps,
                    diagnostics,
                    r,
                ),
            }
        };
        match got {
            Err(e) => {},
            Ok(one) => {
                lands_changes_prepared(
                    mid + ui::step_said(steps, (at + 1) as usize),
                    after,
                    config,
                    github,
                    stack,
                    at + 1,
                    pass.with(one),
                    steps,
                    diagnostics,
                    r,
                );
            },
        }
    }
}

broadcast proof fn lands_all_changes_prepared(
    before: Seq<Event>,
    after: Seq<Event>,
    config: AppConfigView,
    context: AppContextView,
    diagnostics: Diagnostics,
    r: Result<PassView, Seq<CauseView>>,
)
    requires
        #[trigger] merge::all_changes_prepared(before, after, config, context, diagnostics, r),
    ensures
        lands(before, after),
{
    broadcast use {
        crate::quiet::group_quiet,
        group_landing,
        lands_changes_prepared,
        crate::asking::lemma_steps_said,
    };
}

broadcast proof fn lands_stack_prepared(
    before: Seq<Event>,
    after: Seq<Event>,
    config: AppConfigView,
    context: AppContextView,
    diagnostics: Diagnostics,
    r: Result<PassView, Seq<CauseView>>,
)
    requires
        #[trigger] merge::stack_prepared(before, after, config, context, diagnostics, r),
    ensures
        lands(before, after),
{
    broadcast use {
        crate::quiet::group_quiet,
        group_landing,
        lands_all_changes_prepared,
        crate::asking::lemma_steps_ended,
    };
}

broadcast proof fn lands_trunk_tracked(
    before: Seq<Event>,
    after: Seq<Event>,
    config: AppConfigView,
    diagnostics: Diagnostics,
    r: Result<(), Seq<CauseView>>,
)
    requires
        #[trigger] trunk::trunk_tracked(before, after, config, diagnostics, r),
    ensures
        lands(before, after),
{
    broadcast use {crate::quiet::group_quiet, group_landing};
}

broadcast proof fn lands_trunk_pushed(
    before: Seq<Event>,
    after: Seq<Event>,
    config: AppConfigView,
    top: Seq<char>,
    r: Result<(), Seq<CauseView>>,
)
    requires
        #[trigger] trunk::trunk_pushed(before, after, config, top, r),
    ensures
        lands(before, after),
{
    broadcast use {crate::quiet::group_quiet, group_landing};
}

broadcast proof fn lands_trunk_advanced(
    before: Seq<Event>,
    after: Seq<Event>,
    config: AppConfigView,
    top: Seq<char>,
    diagnostics: Diagnostics,
    r: Result<(), Seq<CauseView>>,
)
    requires
        #[trigger] trunk::trunk_advanced(before, after, config, top, diagnostics, r),
    ensures
        lands(before, after),
{
    broadcast use {
        crate::quiet::group_quiet,
        group_landing,
        lands_trunk_pushed,
        lands_trunk_tracked,
    };
}

broadcast proof fn lands_forward_tested(
    before: Seq<Event>,
    after: Seq<Event>,
    config: AppConfigView,
    remote: Seq<char>,
    top: Seq<char>,
    diagnostics: Diagnostics,
    r: Result<(), Seq<CauseView>>,
)
    requires
        #[trigger] trunk::forward_tested(before, after, config, remote, top, diagnostics, r),
    ensures
        lands(before, after),
{
    broadcast use {crate::quiet::group_quiet, group_landing, lands_trunk_advanced};
}

broadcast proof fn lands_trunk_fast_forwarded(
    before: Seq<Event>,
    after: Seq<Event>,
    config: AppConfigView,
    top: Seq<char>,
    diagnostics: Diagnostics,
    r: Result<(), Seq<CauseView>>,
)
    requires
        #[trigger] trunk::trunk_fast_forwarded(before, after, config, top, diagnostics, r),
    ensures
        lands(before, after),
{
    broadcast use {crate::quiet::group_quiet, group_landing, lands_forward_tested};
}

broadcast proof fn lands_branch_removed(
    before: Seq<Event>,
    after: Seq<Event>,
    remote: Seq<char>,
    branch: Seq<char>,
    diagnostics: Diagnostics,
    gone: bool,
)
    requires
        #[trigger] cleanup::branch_removed(before, after, remote, branch, diagnostics, gone),
    ensures
        lands(before, after),
{
    broadcast use {crate::quiet::group_quiet, group_landing, crate::asking::lemma_plan_said};
}

broadcast proof fn lands_branch_swept(
    before: Seq<Event>,
    after: Seq<Event>,
    remote: Seq<char>,
    repo: Seq<char>,
    branch: Seq<char>,
    diagnostics: Diagnostics,
    gone: bool,
)
    requires
        #[trigger] cleanup::branch_swept(before, after, remote, repo, branch, diagnostics, gone),
    ensures
        lands(before, after),
{
    broadcast use {crate::quiet::group_quiet, group_landing, lands_branch_removed};
}

broadcast proof fn lands_branches_swept(
    before: Seq<Event>,
    after: Seq<Event>,
    remote: Seq<char>,
    repo: Seq<char>,
    branches: Seq<Seq<char>>,
    at: int,
    done: Seq<Seq<char>>,
    steps: bool,
    diagnostics: Diagnostics,
    gone: Seq<Seq<char>>,
)
    requires
        #[trigger] cleanup::branches_swept(
            before,
            after,
            remote,
            repo,
            branches,
            at,
            done,
            steps,
            diagnostics,
            gone,
        ),
    ensures
        lands(before, after),
    decreases branches.len() - at,
{
    broadcast use {
        crate::quiet::group_quiet,
        group_landing,
        lands_branch_swept,
        crate::asking::lemma_step_said,
    };

    if at >= branches.len() {
    } else {
        let (mid, one) = choose|mid: Seq<Event>, one: bool| {
            &&& #[trigger] cleanup::branch_swept(
                before,
                mid,
                remote,
                repo,
                branches[at],
                diagnostics,
                one,
            )
            &&& cleanup::branches_swept(
                mid + ui::step_said(steps, (at + 1) as usize),
                after,
                remote,
                repo,
                branches,
                at + 1,
                if one {
                    done.push(branches[at])
                } else {
                    done
                },
                steps,
                diagnostics,
                gone,
            )
        };

        lands_branches_swept(
            mid + ui::step_said(steps, (at + 1) as usize),
            after,
            remote,
            repo,
            branches,
            at + 1,
            if one { done.push(branches[at]) } else { done },
            steps,
            diagnostics,
            gone,
        );
    }
}

broadcast proof fn lands_all_branches_swept(
    before: Seq<Event>,
    after: Seq<Event>,
    remote: Seq<char>,
    repo: Seq<char>,
    branches: Seq<Seq<char>>,
    diagnostics: Diagnostics,
    gone: Seq<Seq<char>>,
)
    requires
        #[trigger] cleanup::all_branches_swept(
            before,
            after,
            remote,
            repo,
            branches,
            diagnostics,
            gone,
        ),
    ensures
        lands(before, after),
{
    broadcast use {
        crate::quiet::group_quiet,
        group_landing,
        lands_branches_swept,
        crate::asking::lemma_steps_said,
    };
}

broadcast proof fn lands_branches_forgotten(
    before: Seq<Event>,
    after: Seq<Event>,
    branches: Seq<Seq<char>>,
    at: int,
)
    requires
        #[trigger] cleanup::branches_forgotten(before, after, branches, at),
    ensures
        lands(before, after),
    decreases branches.len() - at,
{
    broadcast use {crate::quiet::group_quiet, group_landing};

    if at >= branches.len() {
    } else {
        let mid = choose|mid: Seq<Event>| {
            &&& #[trigger] record::called(before, mid, "jj"@, bookmarks::forget_args(branches[at]))
            &&& cleanup::branches_forgotten(mid, after, branches, at + 1)
        };

        lands_branches_forgotten(mid, after, branches, at + 1);
    }
}

broadcast proof fn lands_deletions_pushed(
    before: Seq<Event>,
    after: Seq<Event>,
    remote: Seq<char>,
    gone: Seq<Seq<char>>,
)
    requires
        #[trigger] cleanup::deletions_pushed(before, after, remote, gone),
    ensures
        lands(before, after),
{
    broadcast use {crate::quiet::group_quiet, group_landing, lands_branches_forgotten};

    lemma_deletion_is_push(remote, gone);
}

broadcast proof fn lands_merged_branches_cleaned(
    before: Seq<Event>,
    after: Seq<Event>,
    remote: Seq<char>,
    repo: Seq<char>,
    branches: Seq<Seq<char>>,
    diagnostics: Diagnostics,
    r: usize,
)
    requires
        #[trigger] cleanup::merged_branches_cleaned(
            before,
            after,
            remote,
            repo,
            branches,
            diagnostics,
            r,
        ),
    ensures
        lands(before, after),
{
    broadcast use {
        crate::quiet::group_quiet,
        group_landing,
        lands_all_branches_swept,
        lands_deletions_pushed,
        crate::asking::lemma_steps_ended,
    };
}

broadcast proof fn lands_merge_reset(
    before: Seq<Event>,
    after: Seq<Event>,
    trunk: Seq<char>,
    summary: MergeSummary,
    r: Result<MergeSummary, Seq<CauseView>>,
)
    requires
        #[trigger] merge::merge_reset(before, after, trunk, summary, r),
    ensures
        lands(before, after),
{
    broadcast use {crate::quiet::group_quiet, group_landing};

    assert(
        record::is_call(after.last(), "jj"@, get::new_args(trunk)) ==> is_fresh_change(after.last())
    );
}

broadcast proof fn lands_merge_cleaned(
    before: Seq<Event>,
    after: Seq<Event>,
    config: AppConfigView,
    repo: Seq<char>,
    branches: Seq<Seq<char>>,
    summary: MergeSummary,
    diagnostics: Diagnostics,
    r: Result<MergeSummary, Seq<CauseView>>,
)
    requires
        #[trigger] merge::merge_cleaned(
            before,
            after,
            config,
            repo,
            branches,
            summary,
            diagnostics,
            r,
        ),
    ensures
        lands(before, after),
{
    broadcast use {
        crate::quiet::group_quiet,
        group_landing,
        lands_merge_reset,
        lands_merged_branches_cleaned,
        crate::asking::lemma_phase_said,
    };
}

broadcast proof fn lands_merge_verified(
    before: Seq<Event>,
    after: Seq<Event>,
    config: AppConfigView,
    repo: Seq<char>,
    numbers: Seq<u64>,
    branches: Seq<Seq<char>>,
    summary: MergeSummary,
    diagnostics: Diagnostics,
    r: Result<MergeSummary, Seq<CauseView>>,
)
    requires
        #[trigger] merge::merge_verified(
            before,
            after,
            config,
            repo,
            numbers,
            branches,
            summary,
            diagnostics,
            r,
        ),
    ensures
        lands(before, after),
{
    broadcast use {
        crate::quiet::group_quiet,
        group_landing,
        lands_merge_cleaned,
        crate::asking::asks_merges_verified,
    };
}

broadcast proof fn lands_merge_pushed(
    before: Seq<Event>,
    after: Seq<Event>,
    config: AppConfigView,
    repo: Seq<char>,
    top: Seq<char>,
    numbers: Seq<u64>,
    branches: Seq<Seq<char>>,
    summary: MergeSummary,
    diagnostics: Diagnostics,
    r: Result<MergeSummary, Seq<CauseView>>,
)
    requires
        #[trigger] merge::merge_pushed(
            before,
            after,
            config,
            repo,
            top,
            numbers,
            branches,
            summary,
            diagnostics,
            r,
        ),
    ensures
        lands(before, after),
{
    broadcast use {
        crate::quiet::group_quiet,
        group_landing,
        lands_merge_verified,
        lands_trunk_fast_forwarded,
        crate::asking::lemma_phase_said,
    };
}

broadcast proof fn lands_merge_judged(
    before: Seq<Event>,
    after: Seq<Event>,
    config: AppConfigView,
    context: AppContextView,
    candidates: Seq<MergeCandidateView>,
    merged: Seq<Seq<char>>,
    updates: usize,
    admin: bool,
    diagnostics: Diagnostics,
    r: Result<MergeSummary, Seq<CauseView>>,
)
    requires
        #[trigger] merge::merge_judged(
            before,
            after,
            config,
            context,
            candidates,
            merged,
            updates,
            admin,
            diagnostics,
            r,
        ),
    ensures
        lands(before, after),
{
    broadcast use {
        crate::quiet::group_quiet,
        group_landing,
        lands_merge_pushed,
        crate::asking::lemma_plan_rows_said,
    };
}

broadcast proof fn lands_merge_settled(
    before: Seq<Event>,
    after: Seq<Event>,
    config: AppConfigView,
    context: AppContextView,
    pass: PassView,
    admin: bool,
    diagnostics: Diagnostics,
    r: Result<MergeSummary, Seq<CauseView>>,
)
    requires
        #[trigger] merge::merge_settled(
            before,
            after,
            config,
            context,
            pass,
            admin,
            diagnostics,
            r,
        ),
    ensures
        lands(before, after),
{
    broadcast use {
        crate::quiet::group_quiet,
        group_landing,
        lands_merge_judged,
        crate::asking::asks_candidates_settled,
    };
}

broadcast proof fn lands_merge_prepared(
    before: Seq<Event>,
    after: Seq<Event>,
    config: AppConfigView,
    context: AppContextView,
    admin: bool,
    diagnostics: Diagnostics,
    r: Result<MergeSummary, Seq<CauseView>>,
)
    requires
        #[trigger] merge::merge_prepared(before, after, config, context, admin, diagnostics, r),
    ensures
        lands(before, after),
{
    broadcast use {
        crate::quiet::group_quiet,
        group_landing,
        lands_merge_settled,
        lands_stack_prepared,
    };

    reveal(crate::merge::merge_prepared);
}

broadcast proof fn lands_merge_based(
    before: Seq<Event>,
    after: Seq<Event>,
    config: AppConfigView,
    context: AppContextView,
    bottom: GhMergePrView,
    admin: bool,
    diagnostics: Diagnostics,
    r: Result<MergeSummary, Seq<CauseView>>,
)
    requires
        #[trigger] merge::merge_based(
            before,
            after,
            config,
            context,
            bottom,
            admin,
            diagnostics,
            r,
        ),
    ensures
        lands(before, after),
{
    broadcast use {
        crate::quiet::group_quiet,
        group_landing,
        lands_merge_prepared,
        crate::asking::asks_merge_dependencies_checked,
    };
}

broadcast proof fn lands_context_merged(
    before: Seq<Event>,
    after: Seq<Event>,
    config: AppConfigView,
    context: AppContextView,
    admin: bool,
    diagnostics: Diagnostics,
    r: Result<MergeSummary, Seq<CauseView>>,
)
    requires
        #[trigger] merge::context_merged(before, after, config, context, admin, diagnostics, r),
    ensures
        lands(before, after),
{
    broadcast use {
        crate::quiet::group_quiet,
        group_landing,
        lands_merge_based,
        crate::asking::asks_candidate_resolved,
        crate::asking::lemma_context_said,
    };
}

broadcast proof fn lands_resolution_merged(
    before: Seq<Event>,
    after: Seq<Event>,
    config: AppConfigView,
    resolution: StackResolutionView,
    admin: bool,
    diagnostics: Diagnostics,
    r: Result<MergeSummary, Seq<CauseView>>,
)
    requires
        #[trigger] merge::resolution_merged(
            before,
            after,
            config,
            resolution,
            admin,
            diagnostics,
            r,
        ),
    ensures
        lands(before, after),
{
    broadcast use {
        crate::quiet::group_quiet,
        group_landing,
        lands_context_merged,
        crate::asking::asks_github_resolved,
    };
}

broadcast proof fn lands_shaped_merged(
    before: Seq<Event>,
    after: Seq<Event>,
    config: AppConfigView,
    stack: Seq<ResolvedChangeView>,
    bookmarks: Seq<FrozenBookmarkView>,
    admin: bool,
    diagnostics: Diagnostics,
    r: Result<MergeSummary, Seq<CauseView>>,
)
    requires
        #[trigger] merge::shaped_merged(
            before,
            after,
            config,
            stack,
            bookmarks,
            admin,
            diagnostics,
            r,
        ),
    ensures
        lands(before, after),
{
    broadcast use {
        crate::quiet::group_quiet,
        group_landing,
        lands_resolution_merged,
        crate::asking::asks_resolution_made,
    };
}

broadcast proof fn lands_revset_merged(
    before: Seq<Event>,
    after: Seq<Event>,
    config: AppConfigView,
    revset: Seq<char>,
    target: Option<MergeTargetView>,
    bookmarks: Seq<FrozenBookmarkView>,
    admin: bool,
    diagnostics: Diagnostics,
    r: Result<MergeSummary, Seq<CauseView>>,
)
    requires
        #[trigger] merge::revset_merged(
            before,
            after,
            config,
            revset,
            target,
            bookmarks,
            admin,
            diagnostics,
            r,
        ),
    ensures
        lands(before, after),
{
    broadcast use {
        crate::quiet::group_quiet,
        group_landing,
        lands_shaped_merged,
        crate::asking::asks_nothing_merged,
        crate::asking::asks_stack_resolved,
    };

    reveal(crate::merge::revset_merged);
}

broadcast proof fn lands_frozen_merge_begun(
    before: Seq<Event>,
    after: Seq<Event>,
    config: AppConfigView,
    revset: Seq<char>,
    target: Option<MergeTargetView>,
    admin: bool,
    diagnostics: Diagnostics,
    r: Result<MergeSummary, Seq<CauseView>>,
)
    requires
        #[trigger] merge::frozen_merge_begun(
            before,
            after,
            config,
            revset,
            target,
            admin,
            diagnostics,
            r,
        ),
    ensures
        lands(before, after),
{
    broadcast use {crate::quiet::group_quiet, group_landing, lands_revset_merged};
}

broadcast proof fn lands_stack_merged(
    before: Seq<Event>,
    after: Seq<Event>,
    config: AppConfigView,
    revset: Seq<char>,
    target: Option<MergeTargetView>,
    admin: bool,
    diagnostics: Diagnostics,
    r: Result<MergeSummary, Seq<CauseView>>,
)
    requires
        #[trigger] merge::stack_merged(
            before,
            after,
            config,
            revset,
            target,
            admin,
            diagnostics,
            r,
        ),
    ensures
        lands(before, after),
{
    broadcast use {
        crate::quiet::group_quiet,
        group_landing,
        lands_frozen_merge_begun,
        crate::asking::lemma_phase_said,
    };
}

broadcast proof fn pushless_base_repointed(
    before: Seq<Event>,
    after: Seq<Event>,
    repo: Seq<char>,
    number: u64,
    trunk: Seq<char>,
    diagnostics: Diagnostics,
    r: Result<(), Seq<CauseView>>,
)
    requires
        #[trigger] trunk::base_repointed(before, after, repo, number, trunk, diagnostics, r),
    ensures
        pushless(before, after),
{
    broadcast use {crate::quiet::group_quiet, group_landing, crate::asking::lemma_plan_said};

    lemma_words_are_no_push();
}

broadcast proof fn pushless_candidate_repointed(
    before: Seq<Event>,
    after: Seq<Event>,
    trunk: Seq<char>,
    repo: Seq<char>,
    change: ResolvedChangeView,
    entry: PrCacheEntryView,
    pr: GhMergePrView,
    diagnostics: Diagnostics,
    r: Result<PreparedView, Seq<CauseView>>,
)
    requires
        #[trigger] merge::candidate_repointed(
            before,
            after,
            trunk,
            repo,
            change,
            entry,
            pr,
            diagnostics,
            r,
        ),
    ensures
        pushless(before, after),
{
    broadcast use {crate::quiet::group_quiet, group_landing, pushless_base_repointed};
}

broadcast proof fn pushless_pr_prepared(
    before: Seq<Event>,
    after: Seq<Event>,
    trunk: Seq<char>,
    repo: Seq<char>,
    change: ResolvedChangeView,
    entry: PrCacheEntryView,
    pr: GhMergePrView,
    diagnostics: Diagnostics,
    r: Result<PreparedView, Seq<CauseView>>,
)
    requires
        #[trigger] merge::pr_prepared(
            before,
            after,
            trunk,
            repo,
            change,
            entry,
            pr,
            diagnostics,
            r,
        ),
    ensures
        pushless(before, after),
{
    broadcast use {crate::quiet::group_quiet, group_landing, pushless_candidate_repointed};
}

broadcast proof fn pushless_change_prepared(
    before: Seq<Event>,
    after: Seq<Event>,
    config: AppConfigView,
    github: GitHubContextView,
    change: ResolvedChangeView,
    diagnostics: Diagnostics,
    r: Result<PreparedView, Seq<CauseView>>,
)
    requires
        #[trigger] merge::change_prepared(before, after, config, github, change, diagnostics, r),
    ensures
        pushless(before, after),
{
    broadcast use {
        crate::quiet::group_quiet,
        group_landing,
        pushless_pr_prepared,
        crate::asking::asks_candidate_resolved,
    };
}

broadcast proof fn pushless_changes_prepared(
    before: Seq<Event>,
    after: Seq<Event>,
    config: AppConfigView,
    github: GitHubContextView,
    stack: Seq<ResolvedChangeView>,
    at: int,
    pass: PassView,
    steps: bool,
    diagnostics: Diagnostics,
    r: Result<PassView, Seq<CauseView>>,
)
    requires
        #[trigger] merge::changes_prepared(
            before,
            after,
            config,
            github,
            stack,
            at,
            pass,
            steps,
            diagnostics,
            r,
        ),
    ensures
        pushless(before, after),
    decreases stack.len() - at,
{
    broadcast use {
        crate::quiet::group_quiet,
        group_landing,
        pushless_change_prepared,
        crate::asking::lemma_step_said,
    };

    if at >= stack.len() {
    } else {
        let (mid, got) = choose|mid: Seq<Event>, got: Result<PreparedView, Seq<CauseView>>| {
            &&& #[trigger] merge::change_prepared(
                before,
                mid,
                config,
                github,
                stack[at],
                diagnostics,
                got,
            )
            &&& match got {
                Err(e) => record::stopped(mid, after, e, r),
                Ok(one) => merge::changes_prepared(
                    mid + ui::step_said(steps, (at + 1) as usize),
                    after,
                    config,
                    github,
                    stack,
                    at + 1,
                    pass.with(one),
                    steps,
                    diagnostics,
                    r,
                ),
            }
        };
        match got {
            Err(e) => {},
            Ok(one) => {
                pushless_changes_prepared(
                    mid + ui::step_said(steps, (at + 1) as usize),
                    after,
                    config,
                    github,
                    stack,
                    at + 1,
                    pass.with(one),
                    steps,
                    diagnostics,
                    r,
                );
            },
        }
    }
}

broadcast proof fn pushless_all_changes_prepared(
    before: Seq<Event>,
    after: Seq<Event>,
    config: AppConfigView,
    context: AppContextView,
    diagnostics: Diagnostics,
    r: Result<PassView, Seq<CauseView>>,
)
    requires
        #[trigger] merge::all_changes_prepared(before, after, config, context, diagnostics, r),
    ensures
        pushless(before, after),
{
    broadcast use {
        crate::quiet::group_quiet,
        group_landing,
        pushless_changes_prepared,
        crate::asking::lemma_steps_said,
    };
}

broadcast proof fn pushless_stack_prepared(
    before: Seq<Event>,
    after: Seq<Event>,
    config: AppConfigView,
    context: AppContextView,
    diagnostics: Diagnostics,
    r: Result<PassView, Seq<CauseView>>,
)
    requires
        #[trigger] merge::stack_prepared(before, after, config, context, diagnostics, r),
    ensures
        pushless(before, after),
{
    broadcast use {
        crate::quiet::group_quiet,
        group_landing,
        pushless_all_changes_prepared,
        crate::asking::lemma_steps_ended,
    };
}

broadcast proof fn pushless_trunk_tracked(
    before: Seq<Event>,
    after: Seq<Event>,
    config: AppConfigView,
    diagnostics: Diagnostics,
    r: Result<(), Seq<CauseView>>,
)
    requires
        #[trigger] trunk::trunk_tracked(before, after, config, diagnostics, r),
    ensures
        pushless(before, after),
{
    broadcast use {crate::quiet::group_quiet, group_landing};

    lemma_words_are_no_push();
}

broadcast proof fn once_trunk_pushed(
    before: Seq<Event>,
    after: Seq<Event>,
    config: AppConfigView,
    top: Seq<char>,
    r: Result<(), Seq<CauseView>>,
)
    requires
        #[trigger] trunk::trunk_pushed(before, after, config, top, r),
    ensures
        pushes_once(before, after),
{
    broadcast use {crate::quiet::group_quiet, group_landing};

    lemma_words_are_no_push();
}

broadcast proof fn once_trunk_advanced(
    before: Seq<Event>,
    after: Seq<Event>,
    config: AppConfigView,
    top: Seq<char>,
    diagnostics: Diagnostics,
    r: Result<(), Seq<CauseView>>,
)
    requires
        #[trigger] trunk::trunk_advanced(before, after, config, top, diagnostics, r),
    ensures
        pushes_once(before, after),
{
    broadcast use {
        crate::quiet::group_quiet,
        group_landing,
        once_trunk_pushed,
        pushless_trunk_tracked,
    };
}

broadcast proof fn once_forward_tested(
    before: Seq<Event>,
    after: Seq<Event>,
    config: AppConfigView,
    remote: Seq<char>,
    top: Seq<char>,
    diagnostics: Diagnostics,
    r: Result<(), Seq<CauseView>>,
)
    requires
        #[trigger] trunk::forward_tested(before, after, config, remote, top, diagnostics, r),
    ensures
        pushes_once(before, after),
{
    broadcast use {crate::quiet::group_quiet, group_landing, once_trunk_advanced};
}

broadcast proof fn once_trunk_fast_forwarded(
    before: Seq<Event>,
    after: Seq<Event>,
    config: AppConfigView,
    top: Seq<char>,
    diagnostics: Diagnostics,
    r: Result<(), Seq<CauseView>>,
)
    requires
        #[trigger] trunk::trunk_fast_forwarded(before, after, config, top, diagnostics, r),
    ensures
        pushes_once(before, after),
{
    broadcast use {crate::quiet::group_quiet, group_landing, once_forward_tested};
}

proof fn lemma_forward_tested(
    start: Seq<Event>,
    before: Seq<Event>,
    after: Seq<Event>,
    config: AppConfigView,
    remote: Seq<char>,
    top: Seq<char>,
    diagnostics: Diagnostics,
    r: Result<(), Seq<CauseView>>,
)
    requires
        record::called(
            start,
            before,
            "git"@,
            rebase::rev_parse_args(rebase::git_ref_of(config)),
        ),
        rebase::rev_parse_result(rebase::git_ref_of(config), record::last_reply(before)) == Ok::<
            Seq<char>,
            Seq<CauseView>,
        >(remote),
        trunk::forward_tested(before, after, config, remote, top, diagnostics, r),
    ensures
        guarded(start, after, config, top),
        r is Ok ==> went_forward(start, after, config, top),
{
    broadcast use {crate::quiet::group_quiet, group_landing, lands_trunk_advanced};

    let mid = choose|mid: Seq<Event>|
    {
        &&& #[trigger] record::called(before, mid, "git"@, bookmarks::ancestor_args(remote, top))
        &&& match bookmarks::success_of(record::last_reply(mid)) {
            Err(e) => record::stopped(mid, after, e, r),
            Ok(below) => if !below {
                record::stopped(mid, after, trunk::not_forward(config, top, remote), r)
            } else {
                trunk::trunk_advanced(mid, after, config, top, diagnostics, r)
            },
        }
    };
    assert(quiet::quiet(start, before));
    assert(quiet::quiet(before, mid));
    assert(guarded(before, mid, config, top));
    assert(guarded(start, mid, config, top));
    if bookmarks::success_of(record::last_reply(mid)) == Ok::<bool, Seq<CauseView>>(true) {
        let i = start.len() as int;
        assert(mid[i] == mid.drop_last()[i]);
        assert(found_below(mid[i], mid[i + 1], config, top));
        assert(went_forward(start, mid, config, top)) by {
            reveal(went_forward);
        }
        lemma_forward_guards(start, mid, after, config, top);
    }
}

broadcast proof fn lemma_fast_forward_is_guarded(
    before: Seq<Event>,
    after: Seq<Event>,
    config: AppConfigView,
    top: Seq<char>,
    diagnostics: Diagnostics,
    r: Result<(), Seq<CauseView>>,
)
    requires
        #[trigger] trunk::trunk_fast_forwarded(before, after, config, top, diagnostics, r),
    ensures
        guarded(before, after, config, top),
        r is Ok ==> went_forward(before, after, config, top),
{
    broadcast use {crate::quiet::group_quiet, group_landing};

    let mid = choose|mid: Seq<Event>|
    {
        &&& #[trigger] record::called(
            before,
            mid,
            "git"@,
            rebase::rev_parse_args(rebase::git_ref_of(config)),
        )
        &&& match rebase::rev_parse_result(rebase::git_ref_of(config), record::last_reply(mid)) {
            Err(e) => record::stopped(mid, after, e, r),
            Ok(remote) => trunk::forward_tested(mid, after, config, remote, top, diagnostics, r),
        }
    };
    assert(quiet::quiet(before, mid));
    assert(guarded(before, mid, config, top));
    if let Ok(remote) = rebase::rev_parse_result(rebase::git_ref_of(config), record::last_reply(mid)) {
        lemma_forward_tested(before, mid, after, config, remote, top, diagnostics, r);
    }
}

broadcast proof fn guarded_merge_pushed(
    before: Seq<Event>,
    after: Seq<Event>,
    config: AppConfigView,
    repo: Seq<char>,
    top: Seq<char>,
    numbers: Seq<u64>,
    branches: Seq<Seq<char>>,
    summary: MergeSummary,
    diagnostics: Diagnostics,
    r: Result<MergeSummary, Seq<CauseView>>,
)
    requires
        #[trigger] merge::merge_pushed(
            before,
            after,
            config,
            repo,
            top,
            numbers,
            branches,
            summary,
            diagnostics,
            r,
        ),
    ensures
        guarded(before, after, config, top),
{
    broadcast use {
        crate::quiet::group_quiet,
        group_landing,
        crate::asking::lemma_phase_said,
        lemma_fast_forward_is_guarded,
        lands_merge_verified,
    };

    let told = before + ui::phase_said(diagnostics, "merge-push"@);
    let (mid, done) = choose|mid: Seq<Event>, done: Result<(), Seq<CauseView>>|
    {
        &&& #[trigger] trunk::trunk_fast_forwarded(told, mid, config, top, diagnostics, done)
        &&& match done {
            Err(e) => record::stopped(
                mid,
                after,
                error::phase_failure("merge-push"@, config.trunk, e),
                r,
            ),
            Ok(_) => merge::merge_verified(
                mid,
                after,
                config,
                repo,
                numbers,
                branches,
                MergeSummary { submit_runs: 1, ..summary },
                diagnostics,
                r,
            ),
        }
    };
    assert(guarded(told, mid, config, top));
    if done is Ok {
        lemma_forward_guards(told, mid, after, config, top);
    }
}

/// Whether a push between `before` and `after` comes only once every candidate was found ready.
pub open spec fn pushed_when_ready(
    before: Seq<Event>,
    after: Seq<Event>,
    config: AppConfigView,
    admin: bool,
    diagnostics: Diagnostics,
    r: Result<MergeSummary, Seq<CauseView>>,
) -> bool {
    ||| pushless(before, after)
    ||| judged_before_push(before, after, config, admin, diagnostics, r)
}

/// Whether the record holds, before any push, a verdict in which every candidate is ready, and after
/// it no push before it was found that trunk can move forward to the top of the stack.
pub open spec fn judged_before_push(
    before: Seq<Event>,
    after: Seq<Event>,
    config: AppConfigView,
    admin: bool,
    diagnostics: Diagnostics,
    r: Result<MergeSummary, Seq<CauseView>>,
) -> bool {
    exists|
        mid: Seq<Event>,
        context: AppContextView,
        candidates: Seq<MergeCandidateView>,
        merged: Seq<Seq<char>>,
        updates: usize,
    |
        {
            &&& #[trigger] merge::merge_judged(
                mid,
                after,
                config,
                context,
                candidates,
                merged,
                updates,
                admin,
                diagnostics,
                r,
            )
            &&& pushless(before, mid)
            &&& guarded(mid, after, config, context.stack.last().commit_id)
            &&& all_ready(config, candidates, admin)
        }
}

/// Whether nothing stands against the merge of any candidate.
pub open spec fn all_ready(
    config: AppConfigView,
    candidates: Seq<MergeCandidateView>,
    admin: bool,
) -> bool {
    forall|i: int|
        0 <= i < candidates.len() ==> ready::merge_fault(
            config,
            (#[trigger] candidates[i]).change,
            candidates[i].entry,
            candidates[i].pr,
            admin,
        ) is None
}

proof fn lemma_verdict(
    config: AppConfigView,
    candidates: Seq<MergeCandidateView>,
    at: int,
    admin: bool,
)
    requires
        0 <= at,
    ensures
        merge::verdict_from(config, candidates, at, admin) is None ==> forall|i: int|
            at <= i < candidates.len() ==> ready::merge_fault(
                config,
                (#[trigger] candidates[i]).change,
                candidates[i].entry,
                candidates[i].pr,
                admin,
            ) is None,
    decreases candidates.len() - at,
{
    if at < candidates.len() {
        lemma_verdict(config, candidates, at + 1, admin);
    }
}

broadcast proof fn lemma_pushless_is_ready(
    before: Seq<Event>,
    after: Seq<Event>,
    config: AppConfigView,
    admin: bool,
    diagnostics: Diagnostics,
    r: Result<MergeSummary, Seq<CauseView>>,
)
    requires
        pushless(before, after),
    ensures
        #[trigger] pushed_when_ready(before, after, config, admin, diagnostics, r),
{
}

broadcast proof fn lemma_pushless_then_ready(
    a: Seq<Event>,
    b: Seq<Event>,
    c: Seq<Event>,
    config: AppConfigView,
    admin: bool,
    diagnostics: Diagnostics,
    r: Result<MergeSummary, Seq<CauseView>>,
)
    requires
        #[trigger] pushless(a, b),
        #[trigger] pushed_when_ready(b, c, config, admin, diagnostics, r),
    ensures
        pushed_when_ready(a, c, config, admin, diagnostics, r),
{
    broadcast use group_landing;

    if !pushless(b, c) {
        let (mid, context, candidates, merged, updates) = choose|
        mid: Seq<Event>,
        context: AppContextView,
        candidates: Seq<MergeCandidateView>,
        merged: Seq<Seq<char>>,
        updates: usize,
        |
        {
            &&& #[trigger] merge::merge_judged(
                mid,
                c,
                config,
                context,
                candidates,
                merged,
                updates,
                admin,
                diagnostics,
                r,
            )
            &&& pushless(b, mid)
            &&& guarded(mid, c, config, context.stack.last().commit_id)
            &&& all_ready(config, candidates, admin)
        };
        assert(pushless(a, mid));
    }
}

/// Whether GitHub said of each request between `before` and `after` that it is merged.
pub open spec fn all_confirmed(
    before: Seq<Event>,
    after: Seq<Event>,
    repo: Seq<char>,
    numbers: Seq<u64>,
) -> bool {
    forall|i: int|
        0 <= i < numbers.len() ==> polling::was_confirmed(
            before,
            after,
            repo,
            #[trigger] numbers[i],
        )
}

/// Whether a merge that reports merged requests has heard of each of its candidates that it is merged.
#[verifier::opaque]
pub open spec fn confirmed(
    before: Seq<Event>,
    after: Seq<Event>,
    config: AppConfigView,
    admin: bool,
    diagnostics: Diagnostics,
    r: Result<MergeSummary, Seq<CauseView>>,
) -> bool {
    r is Ok && (r->Ok_0).merged_prs > 0 ==> candidates_confirmed(
        before,
        after,
        config,
        admin,
        diagnostics,
        r,
    )
}

/// Whether the record holds a verdict on as many candidates as were merged, and after it what GitHub
/// said of each of them: that it is merged.
pub open spec fn candidates_confirmed(
    before: Seq<Event>,
    after: Seq<Event>,
    config: AppConfigView,
    admin: bool,
    diagnostics: Diagnostics,
    r: Result<MergeSummary, Seq<CauseView>>,
) -> bool {
    exists|
        mid: Seq<Event>,
        context: AppContextView,
        candidates: Seq<MergeCandidateView>,
        merged: Seq<Seq<char>>,
        updates: usize,
    |
        {
            &&& #[trigger] merge::merge_judged(
                mid,
                after,
                config,
                context,
                candidates,
                merged,
                updates,
                admin,
                diagnostics,
                r,
            )
            &&& record::extends(before, mid)
            &&& (r->Ok_0).merged_prs == candidates.len() as usize
            &&& all_confirmed(mid, after, context.github.repo, merge::candidate_numbers(candidates))
        }
}

proof fn lemma_confirmed_within(
    a: Seq<Event>,
    b: Seq<Event>,
    c: Seq<Event>,
    d: Seq<Event>,
    repo: Seq<char>,
    numbers: Seq<u64>,
)
    requires
        record::extends(a, b),
        record::extends(c, d),
        all_confirmed(b, c, repo, numbers),
    ensures
        all_confirmed(a, d, repo, numbers),
{
    assert forall|i: int| 0 <= i < numbers.len() implies polling::was_confirmed(
        a,
        d,
        repo,
        #[trigger] numbers[i],
    ) by {
        assert(polling::was_confirmed(b, c, repo, numbers[i]));
        let k = choose|k: int|
        b.len() <= k < c.len() && record::is_call(
            #[trigger] c[k],
            "gh"@,
            polling::pr_state_args(repo, numbers[i]),
        ) && polling::says_merged(repo, numbers[i], record::reply_of(c[k]));
        assert(d.take(c.len() as int)[k] == c[k]);
        assert(d[k] == c[k]);
    }
}

proof fn lemma_verified(
    before: Seq<Event>,
    after: Seq<Event>,
    config: AppConfigView,
    repo: Seq<char>,
    numbers: Seq<u64>,
    branches: Seq<Seq<char>>,
    summary: MergeSummary,
    diagnostics: Diagnostics,
    r: Result<MergeSummary, Seq<CauseView>>,
)
    requires
        merge::merge_verified(
            before,
            after,
            config,
            repo,
            numbers,
            branches,
            summary,
            diagnostics,
            r,
        ),
        r is Ok,
    ensures
        (r->Ok_0).merged_prs == numbers.len() as usize,
        all_confirmed(before, after, repo, numbers),
{
    broadcast use {crate::quiet::group_quiet, group_landing, lands_merge_cleaned};
    broadcast use crate::record::group_record;

    let (mid, merged) = choose|mid: Seq<Event>, merged: Result<(), Seq<CauseView>>|
    {
        &&& #[trigger] polling::merges_verified(before, mid, repo, numbers, diagnostics, merged)
        &&& match merged {
            Err(e) => record::stopped(
                mid,
                after,
                error::phase_failure("verify-merge"@, repo, e),
                r,
            ),
            Ok(_) => merge::merge_cleaned(
                mid,
                after,
                config,
                repo,
                branches,
                MergeSummary { merged_prs: numbers.len() as usize, ..summary },
                diagnostics,
                r,
            ),
        }
    };
    assert(merged == Ok::<(), Seq<CauseView>>(()));
    polling::law_verified_means_confirmed(before, mid, repo, numbers, diagnostics);
    assert(lands(mid, after));
    reveal(lands);
    lemma_confirmed_within(before, before, mid, after, repo, numbers);
}

proof fn lemma_pushed(
    before: Seq<Event>,
    after: Seq<Event>,
    config: AppConfigView,
    repo: Seq<char>,
    top: Seq<char>,
    numbers: Seq<u64>,
    branches: Seq<Seq<char>>,
    summary: MergeSummary,
    diagnostics: Diagnostics,
    r: Result<MergeSummary, Seq<CauseView>>,
)
    requires
        merge::merge_pushed(
            before,
            after,
            config,
            repo,
            top,
            numbers,
            branches,
            summary,
            diagnostics,
            r,
        ),
        r is Ok,
    ensures
        (r->Ok_0).merged_prs == numbers.len() as usize,
        all_confirmed(before, after, repo, numbers),
{
    broadcast use crate::record::group_record;
    broadcast use lands_trunk_fast_forwarded;

    let told = before + ui::phase_said(diagnostics, "merge-push"@);
    let (mid, done) = choose|mid: Seq<Event>, done: Result<(), Seq<CauseView>>|
    {
        &&& #[trigger] trunk::trunk_fast_forwarded(told, mid, config, top, diagnostics, done)
        &&& match done {
            Err(e) => record::stopped(
                mid,
                after,
                error::phase_failure("merge-push"@, config.trunk, e),
                r,
            ),
            Ok(_) => merge::merge_verified(
                mid,
                after,
                config,
                repo,
                numbers,
                branches,
                MergeSummary { submit_runs: 1, ..summary },
                diagnostics,
                r,
            ),
        }
    };
    assert(lands(told, mid));
    reveal(lands);
    assert(record::extends(before, told));
    assert(record::extends(before, mid));
    lemma_verified(
        mid,
        after,
        config,
        repo,
        numbers,
        branches,
        MergeSummary { submit_runs: 1, ..summary },
        diagnostics,
        r,
    );
    lemma_confirmed_within(before, mid, after, after, repo, numbers);
}

proof fn confirmed_merge_judged(
    before: Seq<Event>,
    after: Seq<Event>,
    config: AppConfigView,
    context: AppContextView,
    candidates: Seq<MergeCandidateView>,
    merged: Seq<Seq<char>>,
    updates: usize,
    admin: bool,
    diagnostics: Diagnostics,
    r: Result<MergeSummary, Seq<CauseView>>,
)
    requires
        merge::merge_judged(
            before,
            after,
            config,
            context,
            candidates,
            merged,
            updates,
            admin,
            diagnostics,
            r,
        ),
    ensures
        confirmed(before, after, config, admin, diagnostics, r),
{
    broadcast use crate::record::group_record;

    reveal(confirmed);
    if r is Ok && (r->Ok_0).merged_prs > 0 {
        lemma_pushed(
            before,
            after,
            config,
            context.github.repo,
            context.stack.last().commit_id,
            merge::candidate_numbers(candidates),
            merged + merge::candidate_branches(candidates),
            MergeSummary {
                checked_prs: candidates.len() as usize,
                local_updates: updates,
                ..crate::merge::no_merge()
            },
            diagnostics,
            r,
        );
    }
}

proof fn lemma_then_confirmed(
    a: Seq<Event>,
    b: Seq<Event>,
    c: Seq<Event>,
    config: AppConfigView,
    admin: bool,
    diagnostics: Diagnostics,
    r: Result<MergeSummary, Seq<CauseView>>,
)
    requires
        pushless(a, b),
        confirmed(b, c, config, admin, diagnostics, r),
    ensures
        confirmed(a, c, config, admin, diagnostics, r),
{
    broadcast use crate::record::group_record;

    reveal(confirmed);
    reveal(pushless);
}

proof fn lemma_unmerged_is_confirmed(
    before: Seq<Event>,
    after: Seq<Event>,
    config: AppConfigView,
    admin: bool,
    diagnostics: Diagnostics,
    r: Result<MergeSummary, Seq<CauseView>>,
)
    requires
        r is Err || (r->Ok_0).merged_prs == 0,
    ensures
        confirmed(before, after, config, admin, diagnostics, r),
{
    reveal(confirmed);
}

broadcast proof fn ready_merge_judged(
    before: Seq<Event>,
    after: Seq<Event>,
    config: AppConfigView,
    context: AppContextView,
    candidates: Seq<MergeCandidateView>,
    merged: Seq<Seq<char>>,
    updates: usize,
    admin: bool,
    diagnostics: Diagnostics,
    r: Result<MergeSummary, Seq<CauseView>>,
)
    requires
        #[trigger] merge::merge_judged(
            before,
            after,
            config,
            context,
            candidates,
            merged,
            updates,
            admin,
            diagnostics,
            r,
        ),
    ensures
        pushed_when_ready(before, after, config, admin, diagnostics, r),
{
    broadcast use {
        crate::quiet::group_quiet,
        group_landing,
        lemma_pushless_then_ready,
        lemma_pushless_is_ready,
        guarded_merge_pushed,
        crate::asking::lemma_plan_rows_said,
    };

    quiet::lemma_quiet_refl(before);
    lemma_verdict(config, candidates, 0, admin);
}

broadcast proof fn ready_merge_settled(
    before: Seq<Event>,
    after: Seq<Event>,
    config: AppConfigView,
    context: AppContextView,
    pass: PassView,
    admin: bool,
    diagnostics: Diagnostics,
    r: Result<MergeSummary, Seq<CauseView>>,
)
    requires
        #[trigger] merge::merge_settled(
            before,
            after,
            config,
            context,
            pass,
            admin,
            diagnostics,
            r,
        ),
    ensures
        pushed_when_ready(before, after, config, admin, diagnostics, r),
{
    broadcast use {
        crate::quiet::group_quiet,
        group_landing,
        ready_merge_judged,
        lemma_pushless_then_ready,
        lemma_pushless_is_ready,
        crate::asking::asks_candidates_settled,
    };
}

broadcast proof fn ready_merge_prepared(
    before: Seq<Event>,
    after: Seq<Event>,
    config: AppConfigView,
    context: AppContextView,
    admin: bool,
    diagnostics: Diagnostics,
    r: Result<MergeSummary, Seq<CauseView>>,
)
    requires
        #[trigger] merge::merge_prepared(before, after, config, context, admin, diagnostics, r),
    ensures
        pushed_when_ready(before, after, config, admin, diagnostics, r),
{
    broadcast use {
        crate::quiet::group_quiet,
        group_landing,
        ready_merge_settled,
        pushless_stack_prepared,
        lemma_pushless_then_ready,
        lemma_pushless_is_ready,
    };

    reveal(crate::merge::merge_prepared);
}

broadcast proof fn ready_merge_based(
    before: Seq<Event>,
    after: Seq<Event>,
    config: AppConfigView,
    context: AppContextView,
    bottom: GhMergePrView,
    admin: bool,
    diagnostics: Diagnostics,
    r: Result<MergeSummary, Seq<CauseView>>,
)
    requires
        #[trigger] merge::merge_based(
            before,
            after,
            config,
            context,
            bottom,
            admin,
            diagnostics,
            r,
        ),
    ensures
        pushed_when_ready(before, after, config, admin, diagnostics, r),
{
    broadcast use {
        crate::quiet::group_quiet,
        group_landing,
        ready_merge_prepared,
        lemma_pushless_then_ready,
        lemma_pushless_is_ready,
        crate::asking::asks_merge_dependencies_checked,
    };
}

broadcast proof fn ready_context_merged(
    before: Seq<Event>,
    after: Seq<Event>,
    config: AppConfigView,
    context: AppContextView,
    admin: bool,
    diagnostics: Diagnostics,
    r: Result<MergeSummary, Seq<CauseView>>,
)
    requires
        #[trigger] merge::context_merged(before, after, config, context, admin, diagnostics, r),
    ensures
        pushed_when_ready(before, after, config, admin, diagnostics, r),
{
    broadcast use {
        crate::quiet::group_quiet,
        group_landing,
        ready_merge_based,
        lemma_pushless_then_ready,
        lemma_pushless_is_ready,
        crate::asking::asks_candidate_resolved,
        crate::asking::lemma_context_said,
    };
}

broadcast proof fn ready_resolution_merged(
    before: Seq<Event>,
    after: Seq<Event>,
    config: AppConfigView,
    resolution: StackResolutionView,
    admin: bool,
    diagnostics: Diagnostics,
    r: Result<MergeSummary, Seq<CauseView>>,
)
    requires
        #[trigger] merge::resolution_merged(
            before,
            after,
            config,
            resolution,
            admin,
            diagnostics,
            r,
        ),
    ensures
        pushed_when_ready(before, after, config, admin, diagnostics, r),
{
    broadcast use {
        crate::quiet::group_quiet,
        group_landing,
        ready_context_merged,
        lemma_pushless_then_ready,
        lemma_pushless_is_ready,
        crate::asking::asks_github_resolved,
    };
}

broadcast proof fn ready_shaped_merged(
    before: Seq<Event>,
    after: Seq<Event>,
    config: AppConfigView,
    stack: Seq<ResolvedChangeView>,
    bookmarks: Seq<FrozenBookmarkView>,
    admin: bool,
    diagnostics: Diagnostics,
    r: Result<MergeSummary, Seq<CauseView>>,
)
    requires
        #[trigger] merge::shaped_merged(
            before,
            after,
            config,
            stack,
            bookmarks,
            admin,
            diagnostics,
            r,
        ),
    ensures
        pushed_when_ready(before, after, config, admin, diagnostics, r),
{
    broadcast use {
        crate::quiet::group_quiet,
        group_landing,
        ready_resolution_merged,
        lemma_pushless_then_ready,
        lemma_pushless_is_ready,
        crate::asking::asks_resolution_made,
    };
}

broadcast proof fn ready_revset_merged(
    before: Seq<Event>,
    after: Seq<Event>,
    config: AppConfigView,
    revset: Seq<char>,
    target: Option<MergeTargetView>,
    bookmarks: Seq<FrozenBookmarkView>,
    admin: bool,
    diagnostics: Diagnostics,
    r: Result<MergeSummary, Seq<CauseView>>,
)
    requires
        #[trigger] merge::revset_merged(
            before,
            after,
            config,
            revset,
            target,
            bookmarks,
            admin,
            diagnostics,
            r,
        ),
    ensures
        pushed_when_ready(before, after, config, admin, diagnostics, r),
{
    broadcast use {
        crate::quiet::group_quiet,
        group_landing,
        ready_shaped_merged,
        lemma_pushless_then_ready,
        lemma_pushless_is_ready,
        crate::asking::asks_nothing_merged,
        crate::asking::asks_stack_resolved,
    };

    reveal(crate::merge::revset_merged);
}

broadcast proof fn ready_frozen_merge_begun(
    before: Seq<Event>,
    after: Seq<Event>,
    config: AppConfigView,
    revset: Seq<char>,
    target: Option<MergeTargetView>,
    admin: bool,
    diagnostics: Diagnostics,
    r: Result<MergeSummary, Seq<CauseView>>,
)
    requires
        #[trigger] merge::frozen_merge_begun(
            before,
            after,
            config,
            revset,
            target,
            admin,
            diagnostics,
            r,
        ),
    ensures
        pushed_when_ready(before, after, config, admin, diagnostics, r),
{
    broadcast use {
        crate::quiet::group_quiet,
        group_landing,
        ready_revset_merged,
        lemma_pushless_then_ready,
        lemma_pushless_is_ready,
    };
}

broadcast proof fn ready_stack_merged(
    before: Seq<Event>,
    after: Seq<Event>,
    config: AppConfigView,
    revset: Seq<char>,
    target: Option<MergeTargetView>,
    admin: bool,
    diagnostics: Diagnostics,
    r: Result<MergeSummary, Seq<CauseView>>,
)
    requires
        #[trigger] merge::stack_merged(
            before,
            after,
            config,
            revset,
            target,
            admin,
            diagnostics,
            r,
        ),
    ensures
        pushed_when_ready(before, after, config, admin, diagnostics, r),
{
    broadcast use {
        crate::quiet::group_quiet,
        group_landing,
        ready_frozen_merge_begun,
        lemma_pushless_then_ready,
        lemma_pushless_is_ready,
        crate::asking::lemma_phase_said,
    };
}

proof fn confirmed_merge_settled(
    before: Seq<Event>,
    after: Seq<Event>,
    config: AppConfigView,
    context: AppContextView,
    pass: PassView,
    admin: bool,
    diagnostics: Diagnostics,
    r: Result<MergeSummary, Seq<CauseView>>,
)
    requires
        merge::merge_settled(before, after, config, context, pass, admin, diagnostics, r),
    ensures
        confirmed(before, after, config, admin, diagnostics, r),
{
    if r is Err || (r->Ok_0).merged_prs == 0 {
        lemma_unmerged_is_confirmed(before, after, config, admin, diagnostics, r);
    } else {
        let (mid, settled) = choose|mid: Seq<Event>, settled: Result<Seq<MergeCandidateView>, Seq<CauseView>>| {
            &&& #[trigger] polling::candidates_settled(
                before,
                mid,
                context.github.repo,
                pass.candidates,
                diagnostics,
                settled,
            )
            &&& match settled {
                Err(e) => record::stopped(
                    mid,
                    after,
                    error::phase_failure("merge-pr-lookup"@, "stack"@, e),
                    r,
                ),
                Ok(candidates) => merge::merge_judged(
                    mid,
                    after,
                    config,
                    context,
                    candidates,
                    pass.merged,
                    pass.updates,
                    admin,
                    diagnostics,
                    r,
                ),
            }
        };
        match settled {
            Err(e) => {},
            Ok(candidates) => {
                assert(pushless(before, mid)) by {
                    broadcast use {
                        crate::quiet::group_quiet,
                        lemma_quiet_is_pushless,
                        crate::asking::asks_candidates_settled,
                    };
                }
                confirmed_merge_judged(
                    mid,
                    after,
                    config,
                    context,
                    candidates,
                    pass.merged,
                    pass.updates,
                    admin,
                    diagnostics,
                    r,
                );
                lemma_then_confirmed(before, mid, after, config, admin, diagnostics, r);
            },
        }
    }
}

proof fn confirmed_merge_prepared(
    before: Seq<Event>,
    after: Seq<Event>,
    config: AppConfigView,
    context: AppContextView,
    admin: bool,
    diagnostics: Diagnostics,
    r: Result<MergeSummary, Seq<CauseView>>,
)
    requires
        merge::merge_prepared(before, after, config, context, admin, diagnostics, r),
    ensures
        confirmed(before, after, config, admin, diagnostics, r),
{
    reveal(crate::merge::merge_prepared);
    if r is Err || (r->Ok_0).merged_prs == 0 {
        lemma_unmerged_is_confirmed(before, after, config, admin, diagnostics, r);
    } else {
        let (mid, pass) = choose|mid: Seq<Event>, pass: Result<PassView, Seq<CauseView>>| {
            &&& #[trigger] merge::stack_prepared(before, mid, config, context, diagnostics, pass)
            &&& match pass {
                Err(e) => record::stopped(mid, after, e, r),
                Ok(pass) => merge::merge_settled(
                    mid,
                    after,
                    config,
                    context,
                    pass,
                    admin,
                    diagnostics,
                    r,
                ),
            }
        };
        match pass {
            Err(e) => {},
            Ok(pass) => {
                assert(pushless(before, mid)) by {
                    broadcast use {
                        crate::quiet::group_quiet,
                        lemma_quiet_is_pushless,
                        pushless_stack_prepared,
                    };
                }
                confirmed_merge_settled(mid, after, config, context, pass, admin, diagnostics, r);
                lemma_then_confirmed(before, mid, after, config, admin, diagnostics, r);
            },
        }
    }
}

proof fn confirmed_merge_based(
    before: Seq<Event>,
    after: Seq<Event>,
    config: AppConfigView,
    context: AppContextView,
    bottom: GhMergePrView,
    admin: bool,
    diagnostics: Diagnostics,
    r: Result<MergeSummary, Seq<CauseView>>,
)
    requires
        merge::merge_based(before, after, config, context, bottom, admin, diagnostics, r),
    ensures
        confirmed(before, after, config, admin, diagnostics, r),
{
    if r is Err || (r->Ok_0).merged_prs == 0 {
        lemma_unmerged_is_confirmed(before, after, config, admin, diagnostics, r);
    } else {
        let (mid, free) = choose|mid: Seq<Event>, free: Result<(), Seq<CauseView>>| {
            &&& #[trigger] candidates::merge_dependencies_checked(
                before,
                mid,
                config.trunk,
                context,
                bottom,
                free,
            )
            &&& match free {
                Err(e) => record::stopped(
                    mid,
                    after,
                    error::phase_failure("merge-frozen-check"@, pr::hash(bottom.number), e),
                    r,
                ),
                Ok(_) => merge::merge_prepared(mid, after, config, context, admin, diagnostics, r),
            }
        };
        match free {
            Err(e) => {},
            Ok(_) => {
                assert(pushless(before, mid)) by {
                    broadcast use {
                        crate::quiet::group_quiet,
                        lemma_quiet_is_pushless,
                        crate::asking::asks_merge_dependencies_checked,
                    };
                }
                confirmed_merge_prepared(mid, after, config, context, admin, diagnostics, r);
                lemma_then_confirmed(before, mid, after, config, admin, diagnostics, r);
            },
        }
    }
}

proof fn confirmed_context_merged(
    before: Seq<Event>,
    after: Seq<Event>,
    config: AppConfigView,
    context: AppContextView,
    admin: bool,
    diagnostics: Diagnostics,
    r: Result<MergeSummary, Seq<CauseView>>,
)
    requires
        merge::context_merged(before, after, config, context, admin, diagnostics, r),
    ensures
        confirmed(before, after, config, admin, diagnostics, r),
{
    if r is Err || (r->Ok_0).merged_prs == 0 {
        lemma_unmerged_is_confirmed(before, after, config, admin, diagnostics, r);
    } else {
        let (mid, got) = choose|mid: Seq<Event>, got: Result<(PrCacheEntryView, GhMergePrView), Seq<CauseView>>| {
            &&& #[trigger] candidates::candidate_resolved(
                before + context::context_said(diagnostics.verbose, context),
                mid,
                config,
                context.github,
                context.stack[0],
                got,
            )
            &&& match got {
                Err(e) => record::stopped(
                    mid,
                    after,
                    error::phase_failure("merge-pr-lookup"@, context.stack[0].change_id, e),
                    r,
                ),
                Ok((entry, bottom)) => merge::merge_based(
                    mid,
                    after,
                    config,
                    context,
                    bottom,
                    admin,
                    diagnostics,
                    r,
                ),
            }
        };
        match got {
            Err(e) => {},
            Ok((entry, bottom)) => {
                assert(pushless(before, mid)) by {
                    broadcast use {
                        crate::quiet::group_quiet,
                        lemma_quiet_is_pushless,
                        crate::asking::asks_candidate_resolved,
                        crate::asking::lemma_context_said,
                    };
                }
                confirmed_merge_based(mid, after, config, context, bottom, admin, diagnostics, r);
                lemma_then_confirmed(before, mid, after, config, admin, diagnostics, r);
            },
        }
    }
}

proof fn confirmed_resolution_merged(
    before: Seq<Event>,
    after: Seq<Event>,
    config: AppConfigView,
    resolution: StackResolutionView,
    admin: bool,
    diagnostics: Diagnostics,
    r: Result<MergeSummary, Seq<CauseView>>,
)
    requires
        merge::resolution_merged(before, after, config, resolution, admin, diagnostics, r),
    ensures
        confirmed(before, after, config, admin, diagnostics, r),
{
    if r is Err || (r->Ok_0).merged_prs == 0 {
        lemma_unmerged_is_confirmed(before, after, config, admin, diagnostics, r);
    } else {
        let (mid, github) = choose|mid: Seq<Event>, github: Result<GitHubContextView, Seq<CauseView>>| {
            &&& #[trigger] context::github_resolved(before, mid, github)
            &&& match github {
                Err(e) => record::stopped(
                    mid,
                    after,
                    error::phase_failure("resolve-github"@, "github"@, e),
                    r,
                ),
                Ok(github) => merge::context_merged(
                    mid,
                    after,
                    config,
                    AppContextView {
                        github,
                        stack: resolution.owned,
                        frozen_dependencies: resolution.frozen_dependencies,
                    },
                    admin,
                    diagnostics,
                    r,
                ),
            }
        };
        match github {
            Err(e) => {},
            Ok(github) => {
                assert(pushless(before, mid)) by {
                    broadcast use {
                        crate::quiet::group_quiet,
                        lemma_quiet_is_pushless,
                        crate::asking::asks_github_resolved,
                    };
                }
                confirmed_context_merged(
                    mid,
                    after,
                    config,
                    AppContextView { github, stack: resolution.owned, frozen_dependencies: resolution.frozen_dependencies, },
                    admin,
                    diagnostics,
                    r,
                );
                lemma_then_confirmed(before, mid, after, config, admin, diagnostics, r);
            },
        }
    }
}

proof fn confirmed_shaped_merged(
    before: Seq<Event>,
    after: Seq<Event>,
    config: AppConfigView,
    stack: Seq<ResolvedChangeView>,
    bookmarks: Seq<FrozenBookmarkView>,
    admin: bool,
    diagnostics: Diagnostics,
    r: Result<MergeSummary, Seq<CauseView>>,
)
    requires
        merge::shaped_merged(before, after, config, stack, bookmarks, admin, diagnostics, r),
    ensures
        confirmed(before, after, config, admin, diagnostics, r),
{
    if r is Err || (r->Ok_0).merged_prs == 0 {
        lemma_unmerged_is_confirmed(before, after, config, admin, diagnostics, r);
    } else {
        let (mid, resolution) = choose|mid: Seq<Event>, resolution: Result<StackResolutionView, Seq<CauseView>>| {
            &&& #[trigger] frozen::resolution_made(before, mid, stack, bookmarks, resolution)
            &&& match resolution {
                Err(e) => record::stopped(
                    mid,
                    after,
                    error::phase_failure("resolve-stack"@, "frozen-dependencies"@, e),
                    r,
                ),
                Ok(resolution) => merge::resolution_merged(
                    mid,
                    after,
                    config,
                    resolution,
                    admin,
                    diagnostics,
                    r,
                ),
            }
        };
        match resolution {
            Err(e) => {},
            Ok(resolution) => {
                assert(pushless(before, mid)) by {
                    broadcast use {
                        crate::quiet::group_quiet,
                        lemma_quiet_is_pushless,
                        crate::asking::asks_resolution_made,
                    };
                }
                confirmed_resolution_merged(mid, after, config, resolution, admin, diagnostics, r);
                lemma_then_confirmed(before, mid, after, config, admin, diagnostics, r);
            },
        }
    }
}

proof fn confirmed_revset_merged(
    before: Seq<Event>,
    after: Seq<Event>,
    config: AppConfigView,
    revset: Seq<char>,
    target: Option<MergeTargetView>,
    bookmarks: Seq<FrozenBookmarkView>,
    admin: bool,
    diagnostics: Diagnostics,
    r: Result<MergeSummary, Seq<CauseView>>,
)
    requires
        merge::revset_merged(
            before,
            after,
            config,
            revset,
            target,
            bookmarks,
            admin,
            diagnostics,
            r,
        ),
    ensures
        confirmed(before, after, config, admin, diagnostics, r),
{
    reveal(crate::merge::revset_merged);
    if r is Err || (r->Ok_0).merged_prs == 0 {
        lemma_unmerged_is_confirmed(before, after, config, admin, diagnostics, r);
    } else {
        let (mid, stack) = choose|mid: Seq<Event>, stack: Result<Seq<ResolvedChangeView>, Seq<CauseView>>| {
            &&& #[trigger] stack::stack_resolved(before, mid, revset, stack)
            &&& match stack {
                Err(e) => record::stopped(
                    mid,
                    after,
                    error::phase_failure("resolve-stack"@, revset, e),
                    r,
                ),
                Ok(stack) => if stack.len() == 0 {
                    merge::nothing_merged(mid, after, config, revset, target, bookmarks, r)
                } else {
                    match stack::shape_failure(stack, revset) {
                        Some(error) => record::stopped(
                            mid,
                            after,
                            error::phase_failure("resolve-stack"@, revset, error::reported(error)),
                            r,
                        ),
                        None => merge::shaped_merged(
                            mid,
                            after,
                            config,
                            stack,
                            bookmarks,
                            admin,
                            diagnostics,
                            r,
                        ),
                    }
                },
            }
        };
        match stack {
            Err(e) => {},
            Ok(stack) => {
                if stack.len() == 0 {
                } else {
                    match stack::shape_failure(stack, revset) {
                        Some(error) => {},
                        None => {
                            assert(pushless(before, mid)) by {
                                broadcast use {
                                    crate::quiet::group_quiet,
                                    lemma_quiet_is_pushless,
                                    crate::asking::asks_nothing_merged,
                                    crate::asking::asks_stack_resolved,
                                };
                            }
                            confirmed_shaped_merged(
                                mid,
                                after,
                                config,
                                stack,
                                bookmarks,
                                admin,
                                diagnostics,
                                r,
                            );
                            lemma_then_confirmed(before, mid, after, config, admin, diagnostics, r);
                        },
                    }
                }
            },
        }
    }
}

proof fn confirmed_frozen_merge_begun(
    before: Seq<Event>,
    after: Seq<Event>,
    config: AppConfigView,
    revset: Seq<char>,
    target: Option<MergeTargetView>,
    admin: bool,
    diagnostics: Diagnostics,
    r: Result<MergeSummary, Seq<CauseView>>,
)
    requires
        merge::frozen_merge_begun(before, after, config, revset, target, admin, diagnostics, r),
    ensures
        confirmed(before, after, config, admin, diagnostics, r),
{
    if r is Err || (r->Ok_0).merged_prs == 0 {
        lemma_unmerged_is_confirmed(before, after, config, admin, diagnostics, r);
    } else {
        let mid = choose|mid: Seq<Event>| {
            &&& #[trigger] record::called(before, mid, "jj"@, bookmarks::frozen_list_args())
            &&& match bookmarks::frozen_list_result(record::last_reply(mid)) {
                Err(e) => record::stopped(
                    mid,
                    after,
                    error::phase_failure("resolve-stack"@, "frozen-bookmarks"@, e),
                    r,
                ),
                Ok(bookmarks) => merge::revset_merged(
                    mid,
                    after,
                    config,
                    revset,
                    target,
                    bookmarks,
                    admin,
                    diagnostics,
                    r,
                ),
            }
        };
        match bookmarks::frozen_list_result(record::last_reply(mid)) {
            Err(e) => {},
            Ok(bookmarks) => {
                assert(pushless(before, mid)) by {
                    broadcast use {crate::quiet::group_quiet, lemma_quiet_is_pushless};
                }
                confirmed_revset_merged(
                    mid,
                    after,
                    config,
                    revset,
                    target,
                    bookmarks,
                    admin,
                    diagnostics,
                    r,
                );
                lemma_then_confirmed(before, mid, after, config, admin, diagnostics, r);
            },
        }
    }
}

proof fn confirmed_stack_merged(
    before: Seq<Event>,
    after: Seq<Event>,
    config: AppConfigView,
    revset: Seq<char>,
    target: Option<MergeTargetView>,
    admin: bool,
    diagnostics: Diagnostics,
    r: Result<MergeSummary, Seq<CauseView>>,
)
    requires
        merge::stack_merged(before, after, config, revset, target, admin, diagnostics, r),
    ensures
        confirmed(before, after, config, admin, diagnostics, r),
{
    if r is Err || (r->Ok_0).merged_prs == 0 {
        lemma_unmerged_is_confirmed(before, after, config, admin, diagnostics, r);
    } else {
        let mid = choose|mid: Seq<Event>| {
            &&& #[trigger] record::called(
                before + ui::phase_said(diagnostics, "resolve-stack"@),
                mid,
                "jj"@,
                stack::single_rev_args("trunk()"@),
            )
            &&& match stack::single_commit("trunk()"@, record::last_reply(mid)) {
                Err(e) => record::stopped(
                    mid,
                    after,
                    error::phase_failure("resolve-stack"@, "trunk()"@, e),
                    r,
                ),
                Ok(trunk) => merge::frozen_merge_begun(
                    mid,
                    after,
                    config,
                    revset,
                    target,
                    admin,
                    diagnostics,
                    r,
                ),
            }
        };
        match stack::single_commit("trunk()"@, record::last_reply(mid)) {
            Err(e) => {},
            Ok(trunk) => {
                assert(pushless(before, mid)) by {
                    broadcast use {
                        crate::quiet::group_quiet,
                        lemma_quiet_is_pushless,
                        crate::asking::lemma_phase_said,
                    };
                }
                confirmed_frozen_merge_begun(
                    mid,
                    after,
                    config,
                    revset,
                    target,
                    admin,
                    diagnostics,
                    r,
                );
                lemma_then_confirmed(before, mid, after, config, admin, diagnostics, r);
            },
        }
    }
}

/// A merge keeps every commit: nothing that it runs squashes, rebases, abandons or merges one.
pub proof fn law_merge_keeps_commits(
    before: Seq<Event>,
    after: Seq<Event>,
    config: AppConfigView,
    revset: Seq<char>,
    target: Option<MergeTargetView>,
    admin: bool,
    diagnostics: Diagnostics,
    r: Result<MergeSummary, Seq<CauseView>>,
)
    requires
        merge::stack_merged(before, after, config, revset, target, admin, diagnostics, r),
    ensures
        record::extends(before, after),
        forall|i: int| before.len() <= i < after.len() ==> keeps_commits(#[trigger] after[i]),
{
    reveal(lands);
    lands_stack_merged(before, after, config, revset, target, admin, diagnostics, r);
}

/// A merge pushes nothing before every candidate was found ready, nor before it has read where the
/// trunk of the remote stands and has been told that it lies below the top of the stack, where trunk
/// moves to.
pub proof fn law_merge_waits_for_every_gate(
    before: Seq<Event>,
    after: Seq<Event>,
    config: AppConfigView,
    revset: Seq<char>,
    target: Option<MergeTargetView>,
    admin: bool,
    diagnostics: Diagnostics,
    r: Result<MergeSummary, Seq<CauseView>>,
    push: int,
)
    requires
        merge::stack_merged(before, after, config, revset, target, admin, diagnostics, r),
        before.len() <= push < after.len(),
        is_push(after[push]),
    ensures
        judged_before_push(before, after, config, admin, diagnostics, r),
{
    reveal(pushless);
    ready_stack_merged(before, after, config, revset, target, admin, diagnostics, r);
}

/// A merge moves trunk forward only: before each push it has read where the trunk of the remote
/// stands, and has been told that it lies below another commit.
pub proof fn law_merge_moves_trunk_forward(
    before: Seq<Event>,
    after: Seq<Event>,
    config: AppConfigView,
    revset: Seq<char>,
    target: Option<MergeTargetView>,
    admin: bool,
    diagnostics: Diagnostics,
    r: Result<MergeSummary, Seq<CauseView>>,
    push: int,
)
    requires
        merge::stack_merged(before, after, config, revset, target, admin, diagnostics, r),
        before.len() <= push < after.len(),
        is_push(after[push]),
    ensures
        exists|asked: int, told: int, top: Seq<char>|
            before.len() <= asked < told < push && #[trigger] found_below(
                after[asked],
                after[told],
                config,
                top,
            ),
{
    broadcast use group_landing;

    law_merge_waits_for_every_gate(
        before,
        after,
        config,
        revset,
        target,
        admin,
        diagnostics,
        r,
        push,
    );
    let (mid, context, candidates, merged, updates) = choose|
        mid: Seq<Event>,
        context: AppContextView,
        candidates: Seq<MergeCandidateView>,
        merged: Seq<Seq<char>>,
        updates: usize,
    |
        {
            &&& #[trigger] merge::merge_judged(
                mid,
                after,
                config,
                context,
                candidates,
                merged,
                updates,
                admin,
                diagnostics,
                r,
            )
            &&& pushless(before, mid)
            &&& guarded(mid, after, config, context.stack.last().commit_id)
            &&& all_ready(config, candidates, admin)
        };
    let top = context.stack.last().commit_id;
    lemma_pushless_then_guarded(before, mid, after, config, top);
    reveal(guarded);
    reveal(went_forward);
    let seen = after.take(push);
    assert(went_forward(before, seen, config, top));
    let (asked, told) = choose|asked: int, told: int|
        before.len() <= asked < told < seen.len() && #[trigger] found_below(
            seen[asked],
            seen[told],
            config,
            top,
        );
    assert(found_below(after[asked], after[told], config, top));
}

/// The fast-forward of trunk is at most one push.
pub proof fn law_fast_forward_pushes_once(
    before: Seq<Event>,
    after: Seq<Event>,
    config: AppConfigView,
    top: Seq<char>,
    diagnostics: Diagnostics,
    r: Result<(), Seq<CauseView>>,
    first: int,
    second: int,
)
    requires
        trunk::trunk_fast_forwarded(before, after, config, top, diagnostics, r),
        before.len() <= first < after.len(),
        before.len() <= second < after.len(),
        is_push(after[first]),
        is_push(after[second]),
    ensures
        first == second,
{
    reveal(pushes_once);
    once_trunk_fast_forwarded(before, after, config, top, diagnostics, r);
}

/// A merge that reports merged requests has heard of each of its candidates that it is merged.
pub proof fn law_merge_is_confirmed(
    before: Seq<Event>,
    after: Seq<Event>,
    config: AppConfigView,
    revset: Seq<char>,
    target: Option<MergeTargetView>,
    admin: bool,
    diagnostics: Diagnostics,
    summary: MergeSummary,
)
    requires
        merge::stack_merged(before, after, config, revset, target, admin, diagnostics, Ok(summary)),
        summary.merged_prs > 0,
    ensures
        candidates_confirmed(before, after, config, admin, diagnostics, Ok(summary)),
{
    reveal(confirmed);
    confirmed_stack_merged(
        before,
        after,
        config,
        revset,
        target,
        admin,
        diagnostics,
        Ok(summary),
    );
}

} // verus!
