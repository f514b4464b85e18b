//! Which branches a cleanup removes, and what it has heard of them before.

use vstd::prelude::*;

use crate::bookmarks;
use crate::cleanup;
use crate::context;
use crate::error;
use crate::error::CauseView;
use crate::model::{AppConfigView, Diagnostics, GitHubContextView};
use crate::output;
use crate::quiet;
use crate::reading;
use crate::reading::{Deed, deed};
use crate::rebase;
use crate::record;
use crate::record::Event;
use crate::text;
use crate::ui;

verus! {

broadcast use crate::record::group_record;

/// A branch among these is deleted, pushed to be deleted on the remote, or forgotten.
pub open spec fn sweeps(event: Event, remote: Seq<char>, branches: Seq<Seq<char>>) -> bool {
    match deed(event) {
        Deed::DeleteBookmark { name } => branches.contains(name),
        Deed::ForgetBookmark { name } => branches.contains(name),
        Deed::Push { remote: place, bookmarks } => place == remote && are_among(bookmarks, branches),
        _ => false,
    }
}

pub open spec fn are_among(names: Seq<Seq<char>>, branches: Seq<Seq<char>>) -> bool {
    forall|k: int| 0 <= k < names.len() ==> branches.contains(#[trigger] names[k])
}

pub open spec fn sweep_deeds(remote: Seq<char>, branches: Seq<Seq<char>>) -> spec_fn(Event) -> bool {
    |event: Event| sweeps(event, remote, branches)
}

proof fn lemma_branch_swept(
    before: Seq<Event>,
    after: Seq<Event>,
    remote: Seq<char>,
    repo: Seq<char>,
    branch: Seq<char>,
    diagnostics: Diagnostics,
    gone: bool,
    branches: Seq<Seq<char>>,
)
    requires
        cleanup::branch_swept(before, after, remote, repo, branch, diagnostics, gone),
        branches.contains(branch),
    ensures
        reading::did(before, after, sweep_deeds(remote, branches)),
{
    broadcast use {
        crate::quiet::group_quiet,
        crate::reading::group_reading,
        crate::wording::group_wording,
        crate::asking::lemma_plan_said,
    };

    let may = sweep_deeds(remote, branches);
    let mid = choose|mid: Seq<Event>|
        {
            let told = cleanup::based_result(repo, branch, record::last_reply(mid));
            &&& #[trigger] record::called(before, mid, "gh"@, cleanup::based_prs_args(repo, branch))
            &&& if told == Ok::<bool, Seq<CauseView>>(false) {
                cleanup::branch_removed(mid, after, remote, branch, diagnostics, gone)
            } else {
                after == mid + cleanup::kept_logged(branch, told) && !gone
            }
        };
    assert(quiet::quiet(before, mid));
    if cleanup::based_result(repo, branch, record::last_reply(mid)) == Ok::<bool, Seq<CauseView>>(false) {
        if !diagnostics.dry_run {
            let last = choose|last: Seq<Event>|
                {
                    let done = output::checked(
                        "jj"@,
                        bookmarks::delete_args(branch),
                        record::last_reply(last),
                    );
                    &&& #[trigger] record::called(mid, last, "jj"@, bookmarks::delete_args(branch))
                    &&& after == last + ui::failure_logged(
                        "could not delete local bookmark `"@ + branch + "`: "@,
                        done,
                    )
                    &&& gone == done is Ok
                };
            assert(sweeps(last.last(), remote, branches));
            assert(reading::did(mid, last, may));
            assert(quiet::quiet(last, after));
        }
    } else {
        assert(quiet::quiet(mid, after));
    }
}

proof fn lemma_branches_swept(
    before: Seq<Event>,
    after: Seq<Event>,
    remote: Seq<char>,
    repo: Seq<char>,
    branches: Seq<Seq<char>>,
    at: int,
    done: Seq<Seq<char>>,
    steps: bool,
    diagnostics: Diagnostics,
    gone: Seq<Seq<char>>,
)
    requires
        cleanup::branches_swept(before, after, remote, repo, branches, at, done, steps, diagnostics, gone),
        0 <= at,
        are_among(done, branches),
    ensures
        reading::did(before, after, sweep_deeds(remote, branches)),
        are_among(gone, branches),
    decreases branches.len() - at,
{
    broadcast use {
        crate::quiet::group_quiet,
        crate::reading::group_reading,
        crate::asking::lemma_step_said,
    };

    if at < branches.len() {
        let (mid, one) = choose|mid: Seq<Event>, one: bool|
            {
                &&& #[trigger] cleanup::branch_swept(
                    before,
                    mid,
                    remote,
                    repo,
                    branches[at],
                    diagnostics,
                    one,
                )
                &&& cleanup::branches_swept(
                    mid + ui::step_said(steps, (at + 1) as usize),
                    after,
                    remote,
                    repo,
                    branches,
                    at + 1,
                    if one {
                        done.push(branches[at])
                    } else {
                        done
                    },
                    steps,
                    diagnostics,
                    gone,
                )
            };
        let told = mid + ui::step_said(steps, (at + 1) as usize);
        lemma_branch_swept(before, mid, remote, repo, branches[at], diagnostics, one, branches);
        assert(quiet::quiet(mid, told));
        lemma_branches_swept(
            told,
            after,
            remote,
            repo,
            branches,
            at + 1,
            if one {
                done.push(branches[at])
            } else {
                done
            },
            steps,
            diagnostics,
            gone,
        );
        let may = sweep_deeds(remote, branches);
        reading::lemma_did_then_quiet(before, mid, told, may);
        reading::lemma_did_trans(before, told, after, may);
    }
}

proof fn lemma_branches_forgotten(
    before: Seq<Event>,
    after: Seq<Event>,
    gone: Seq<Seq<char>>,
    at: int,
    remote: Seq<char>,
    branches: Seq<Seq<char>>,
)
    requires
        cleanup::branches_forgotten(before, after, gone, at),
        0 <= at,
        are_among(gone, branches),
    ensures
        reading::did(before, after, sweep_deeds(remote, branches)),
    decreases gone.len() - at,
{
    broadcast use {
        crate::quiet::group_quiet,
        crate::reading::group_reading,
        crate::wording::group_wording,
    };

    if at < gone.len() {
        let mid = choose|mid: Seq<Event>|
            {
                &&& #[trigger] record::called(before, mid, "jj"@, bookmarks::forget_args(gone[at]))
                &&& cleanup::branches_forgotten(mid, after, gone, at + 1)
            };
        assert(sweeps(mid.last(), remote, branches));
        assert(reading::did(before, mid, sweep_deeds(remote, branches)));
        lemma_branches_forgotten(mid, after, gone, at + 1, remote, branches);
        reading::lemma_did_trans(before, mid, after, sweep_deeds(remote, branches));
    }
}

/// The law of the sweep: all that a removal of merged branches changes are the branches that it was
/// given. It deletes them here, pushes just that to the remote, and forgets them.
pub proof fn law_sweep_takes_only_its_branches(
    before: Seq<Event>,
    after: Seq<Event>,
    remote: Seq<char>,
    repo: Seq<char>,
    branches: Seq<Seq<char>>,
    diagnostics: Diagnostics,
    r: usize,
)
    requires
        cleanup::merged_branches_cleaned(before, after, remote, repo, branches, diagnostics, r),
    ensures
        reading::did(before, after, sweep_deeds(remote, branches)),
{
    broadcast use {
        crate::quiet::group_quiet,
        crate::reading::group_reading,
        crate::wording::group_wording,
        crate::asking::lemma_steps_said,
        crate::asking::lemma_steps_ended,
    };

    let may = sweep_deeds(remote, branches);
    let shown = diagnostics.shows_steps(branches.len());
    let (mid, gone) = choose|mid: Seq<Event>, gone: Seq<Seq<char>>|
        {
            let ended = mid + ui::steps_ended(shown);
            &&& #[trigger] cleanup::all_branches_swept(
                before,
                mid,
                remote,
                repo,
                branches,
                diagnostics,
                gone,
            )
            &&& r == gone.len()
            &&& if diagnostics.dry_run || gone.len() == 0 {
                after == ended
            } else {
                cleanup::deletions_pushed(ended, after, remote, gone)
            }
        };
    let first = before + ui::steps_said(diagnostics, "Cleaning"@, "branches"@, branches.len() as usize);
    assert(quiet::quiet(before, first));
    lemma_branches_swept(
        first,
        mid,
        remote,
        repo,
        branches,
        0,
        seq![],
        shown,
        diagnostics,
        gone,
    );
    let ended = mid + ui::steps_ended(shown);
    assert(quiet::quiet(mid, ended));
    reading::lemma_quiet_then_did(before, first, mid, may);
    reading::lemma_did_then_quiet(before, mid, ended, may);
    if !(diagnostics.dry_run || gone.len() == 0) {
        let pushed = choose|pushed: Seq<Event>|
            {
                &&& #[trigger] record::called(
                    ended,
                    pushed,
                    "jj"@,
                    bookmarks::deletion_args(remote, gone),
                )
                &&& cleanup::branches_forgotten(
                    pushed + ui::failure_logged(
                        "could not push branch deletion(s) to `"@ + remote + "`: "@,
                        output::checked(
                            "jj"@,
                            bookmarks::deletion_args(remote, gone),
                            record::last_reply(pushed),
                        ),
                    ),
                    after,
                    gone,
                    0,
                )
            };
        let told = pushed + ui::failure_logged(
            "could not push branch deletion(s) to `"@ + remote + "`: "@,
            output::checked(
                "jj"@,
                bookmarks::deletion_args(remote, gone),
                record::last_reply(pushed),
            ),
        );
        assert(sweeps(pushed.last(), remote, branches));
        assert(reading::did(ended, pushed, may));
        assert(quiet::quiet(pushed, told));
        lemma_branches_forgotten(told, after, gone, 0, remote, branches);
        reading::lemma_did_trans(before, ended, pushed, may);
        reading::lemma_did_then_quiet(before, pushed, told, may);
        reading::lemma_did_trans(before, told, after, may);
    }
}

// ---------------------------------------------------------------------------
// Landed branches
// ---------------------------------------------------------------------------

/// At `i` it was asked where a branch stands, and next whether that commit lies below `tip`, which was
/// answered with yes.
pub open spec fn landed_at(log: Seq<Event>, i: int, name: Seq<char>, tip: Seq<char>) -> bool {
    &&& 0 <= i
    &&& i + 1 < log.len()
    &&& deed(log[i]) == (Deed::ListCommits {
        revset: name,
        shown: "commit_id"@,
        bottom_first: false,
    })
    &&& match record::reply_of(log[i]) {
        Ok(told) => deed(log[i + 1]) == (Deed::TestAncestor {
            ancestor: text::trim(told.stdout),
            descendant: tip,
        }),
        Err(_) => false,
    }
    &&& match record::reply_of(log[i + 1]) {
        Ok(told) => told.success,
        Err(_) => false,
    }
}

pub open spec fn was_landed(log: Seq<Event>, from: int, name: Seq<char>, tip: Seq<char>) -> bool {
    exists|i: int| from <= i && #[trigger] landed_at(log, i, name, tip)
}

proof fn lemma_landed_stays(
    log: Seq<Event>,
    more: Seq<Event>,
    from: int,
    name: Seq<char>,
    tip: Seq<char>,
)
    requires
        record::extends(log, more),
        was_landed(log, from, name, tip),
    ensures
        was_landed(more, from, name, tip),
{
    let i = choose|i: int| from <= i && #[trigger] landed_at(log, i, name, tip);
    assert(more.take(log.len() as int)[i] == log[i]);
    assert(more.take(log.len() as int)[i + 1] == log[i + 1]);
    assert(landed_at(more, i, name, tip));
}

proof fn lemma_landing_tested(
    before: Seq<Event>,
    after: Seq<Event>,
    name: Seq<char>,
    tip: Seq<char>,
    r: Result<bool, Seq<CauseView>>,
)
    requires
        cleanup::landing_tested(before, after, name, tip, r),
    ensures
        record::extends(before, after),
        quiet::quiet(before, after),
        r == Ok::<bool, Seq<CauseView>>(true) ==> was_landed(after, before.len() as int, name, tip),
{
    broadcast use {
        crate::quiet::group_quiet,
        crate::wording::group_wording,
        crate::asking::asks_landing_tested,
    };

    let n = before.len() as int;
    if r == Ok::<bool, Seq<CauseView>>(true) {
        let mid = choose|mid: Seq<Event>|
            {
                &&& #[trigger] record::called(
                    before,
                    mid,
                    "jj"@,
                    bookmarks::ref_args(name, "commit_id"@),
                )
                &&& match bookmarks::ref_commit_result(name, record::last_reply(mid)) {
                    Err(e) => record::stopped(mid, after, e, r),
                    Ok(commit) => record::called(
                        mid,
                        after,
                        "git"@,
                        bookmarks::ancestor_args(commit, tip),
                    ) && r == bookmarks::success_of(record::last_reply(after)),
                }
            };
        reveal(record::in_place);
        assert(after[n] == after.drop_last()[n]);
        assert(after[n] == mid.last());
        assert(after[n + 1] == after.last());
        assert(landed_at(after, n, name, tip));
    }
    assert(quiet::quiet(before, after));
    reveal(quiet::quiet);
}

proof fn lemma_landings_tested(
    before: Seq<Event>,
    after: Seq<Event>,
    from: int,
    names: Seq<Seq<char>>,
    at: int,
    tip: Seq<char>,
    landed: Seq<Seq<char>>,
    r: Result<Seq<Seq<char>>, Seq<CauseView>>,
)
    requires
        cleanup::landings_tested(before, after, names, at, tip, landed, r),
        0 <= at,
        0 <= from <= before.len(),
        forall|k: int| 0 <= k < landed.len() ==> was_landed(before, from, #[trigger] landed[k], tip),
    ensures
        record::extends(before, after),
        r is Ok ==> forall|k: int|
            0 <= k < (r->Ok_0).len() ==> was_landed(after, from, #[trigger] (r->Ok_0)[k], tip),
    decreases names.len() - at,
{
    if at < names.len() {
        let (mid, got) = choose|mid: Seq<Event>, got: Result<bool, Seq<CauseView>>|
            {
                &&& #[trigger] cleanup::landing_tested(before, mid, names[at], tip, got)
                &&& match got {
                    Err(e) => record::stopped(mid, after, e, r),
                    Ok(one) => cleanup::landings_tested(
                        mid,
                        after,
                        names,
                        at + 1,
                        tip,
                        if one {
                            landed.push(names[at])
                        } else {
                            landed
                        },
                        r,
                    ),
                }
            };
        lemma_landing_tested(before, mid, names[at], tip, got);
        if got is Ok {
            let next = if got->Ok_0 {
                landed.push(names[at])
            } else {
                landed
            };
            assert forall|k: int| 0 <= k < next.len() implies was_landed(
                mid,
                from,
                #[trigger] next[k],
                tip,
            ) by {
                if k < landed.len() {
                    assert(next[k] == landed[k]);
                    lemma_landed_stays(before, mid, from, landed[k], tip);
                } else {
                    let i = choose|i: int|
                        before.len() <= i && #[trigger] landed_at(mid, i, names[at], tip);
                    assert(from <= i);
                }
            }
            lemma_landings_tested(mid, after, from, names, at + 1, tip, next, r);
        }
    }
}

/// The meeting said where the trunk of the remote stands.
pub open spec fn tells_tip(event: Event, config: AppConfigView, tip: Seq<char>) -> bool {
    &&& deed(event) == (Deed::ParseRevision { rev: config.remote + "/"@ + config.trunk })
    &&& match record::reply_of(event) {
        Ok(told) => told.success && text::trim(told.stdout) == tip,
        Err(_) => false,
    }
}

/// Whether all that was changed are branches that were found to lie below the trunk of the remote.
pub open spec fn swept_landed(
    before: Seq<Event>,
    after: Seq<Event>,
    config: AppConfigView,
    tip: Seq<char>,
    landed: Seq<Seq<char>>,
) -> bool {
    &&& forall|k: int|
        0 <= k < landed.len() ==> was_landed(after, before.len() as int, #[trigger] landed[k], tip)
    &&& landed.len() > 0 ==> exists|i: int|
        before.len() <= i < after.len() && #[trigger] tells_tip(after[i], config, tip)
    &&& reading::did(before, after, sweep_deeds(config.remote, landed))
}

/// The law of the landed: the cleanup of a sync changes nothing but branches of which it was told that
/// they lie below the trunk of the remote.
#[verifier::rlimit(40)]
pub proof fn law_only_landed_branches_go(
    before: Seq<Event>,
    after: Seq<Event>,
    config: AppConfigView,
    diagnostics: Diagnostics,
    r: Result<usize, Seq<CauseView>>,
)
    requires
        cleanup::landed_branches_cleaned(before, after, config, diagnostics, r),
    ensures
        exists|tip: Seq<char>, landed: Seq<Seq<char>>|
            #[trigger] swept_landed(before, after, config, tip, landed),
{
    broadcast use {
        crate::quiet::group_quiet,
        crate::reading::group_reading,
        crate::asking::asks_stack_names_listed,
        crate::asking::asks_all_landings_tested,
        crate::asking::asks_github_resolved,
    };

    let none = Seq::<Seq<char>>::empty();
    let from = before.len() as int;
    let (mid, names) = choose|mid: Seq<Event>, names: Result<Seq<Seq<char>>, Seq<CauseView>>|
        {
            &&& #[trigger] cleanup::stack_names_listed(before, mid, config, names)
            &&& match names {
                Err(e) => record::stopped(mid, after, e, r),
                Ok(names) => if names.len() == 0 {
                    after == mid && r == Ok::<usize, Seq<CauseView>>(0)
                } else {
                    cleanup::tip_looked_up(mid, after, config, names, diagnostics, r)
                },
            }
        };
    assert(quiet::quiet(before, mid));
    if names is Ok && (names->Ok_0).len() > 0 {
        let names = names->Ok_0;
        let asked = choose|asked: Seq<Event>|
            {
                &&& #[trigger] record::called(
                    mid,
                    asked,
                    "git"@,
                    rebase::rev_parse_args(rebase::git_ref_of(config)),
                )
                &&& match rebase::rev_parse_result(
                    rebase::git_ref_of(config),
                    record::last_reply(asked),
                ) {
                    Err(e) => record::stopped(asked, after, e, r),
                    Ok(tip) => cleanup::landed_found(
                        asked,
                        after,
                        config.remote,
                        names,
                        tip,
                        diagnostics,
                        r,
                    ),
                }
            };
        assert(quiet::quiet(mid, asked));
        assert(quiet::quiet(before, asked));
        match rebase::rev_parse_result(rebase::git_ref_of(config), record::last_reply(asked)) {
            Err(e) => {
                assert(swept_landed(before, after, config, none[0], none));
            },
            Ok(tip) => {
                let (tested, landed) = choose|
                    tested: Seq<Event>,
                    landed: Result<Seq<Seq<char>>, Seq<CauseView>>,
                |
                    {
                        &&& #[trigger] cleanup::all_landings_tested(
                            asked,
                            tested,
                            names,
                            tip,
                            landed,
                        )
                        &&& match landed {
                            Err(e) => record::stopped(tested, after, e, r),
                            Ok(landed) => if landed.len() == 0 {
                                after == tested && r == Ok::<usize, Seq<CauseView>>(0)
                            } else {
                                cleanup::landed_swept(
                                    tested,
                                    after,
                                    config.remote,
                                    landed,
                                    diagnostics,
                                    r,
                                )
                            },
                        }
                    };
                assert(quiet::quiet(asked, tested));
                assert(quiet::quiet(before, tested));
                assert(record::extends(before, asked)) by {
                    reveal(quiet::quiet);
                }
                lemma_landings_tested(asked, tested, from, names, 0, tip, seq![], landed);
                let at = asked.len() - 1;
                assert(tells_tip(asked[at], config, tip)) by {
                    broadcast use crate::wording::group_wording;

                    reveal(record::in_place);
                }
                assert(tested.take(asked.len() as int)[at] == asked[at]);
                assert(tells_tip(tested[at], config, tip));
                if landed is Ok && (landed->Ok_0).len() > 0 {
                    lemma_landed_swept(before, tested, after, config, tip, landed->Ok_0, diagnostics, r);
                } else {
                    assert(quiet::quiet(before, after));
                    assert(swept_landed(before, after, config, tip, none));
                }
            },
        }
    } else {
        assert(quiet::quiet(before, after));
        assert(swept_landed(before, after, config, none[0], none));
    }
}

proof fn lemma_landed_swept(
    before: Seq<Event>,
    tested: Seq<Event>,
    after: Seq<Event>,
    config: AppConfigView,
    tip: Seq<char>,
    landed: Seq<Seq<char>>,
    diagnostics: Diagnostics,
    r: Result<usize, Seq<CauseView>>,
)
    requires
        quiet::quiet(before, tested),
        cleanup::landed_swept(tested, after, config.remote, landed, diagnostics, r),
        exists|i: int|
            before.len() <= i < tested.len() && #[trigger] tells_tip(tested[i], config, tip),
        forall|k: int|
            0 <= k < landed.len() ==> was_landed(
                tested,
                before.len() as int,
                #[trigger] landed[k],
                tip,
            ),
    ensures
        swept_landed(before, after, config, tip, landed),
{
    broadcast use {
        crate::quiet::group_quiet,
        crate::reading::group_reading,
        crate::asking::asks_github_resolved,
    };

    let may = sweep_deeds(config.remote, landed);
    let (mid, github) = choose|mid: Seq<Event>, github: Result<GitHubContextView, Seq<CauseView>>|
        {
            &&& #[trigger] context::github_resolved(tested, mid, github)
            &&& match github {
                Err(e) => record::stopped(
                    mid,
                    after,
                    error::in_context("resolve GitHub repository for merged-branch cleanup"@, e),
                    r,
                ),
                Ok(github) => cleanup::landed_cleaned(
                    mid,
                    after,
                    config.remote,
                    github.repo,
                    landed,
                    diagnostics,
                    r,
                ),
            }
        };
    assert(quiet::quiet(tested, mid));
    assert(quiet::quiet(before, mid));
    if github is Ok {
        law_sweep_takes_only_its_branches(
            mid,
            after,
            config.remote,
            (github->Ok_0).repo,
            landed,
            diagnostics,
            r->Ok_0,
        );
        reading::lemma_quiet_then_did(before, mid, after, may);
        reading::lemma_quiet_then_did(tested, mid, after, may);
    } else {
        reading::lemma_quiet_did(before, after, may);
        reading::lemma_quiet_did(tested, after, may);
    }
    assert(record::extends(tested, after)) by {
        reveal(reading::did);
    }
    let at = choose|i: int|
        before.len() <= i < tested.len() && #[trigger] tells_tip(tested[i], config, tip);
    assert(after.take(tested.len() as int)[at] == tested[at]);
    assert(tells_tip(after[at], config, tip));
    assert forall|k: int| 0 <= k < landed.len() implies was_landed(
        after,
        before.len() as int,
        #[trigger] landed[k],
        tip,
    ) by {
        lemma_landed_stays(tested, after, before.len() as int, landed[k], tip);
    }
}

} // verus!
