//! What is known of the requests that a merge judges.

use vstd::prelude::*;

use crate::cache;
use crate::candidates;
use crate::error;
use crate::error::CauseView;
use crate::heading;
use crate::heads;
use crate::merge;
use crate::merge::{PassView, PreparedView};
use crate::model::{
    AppConfigView, AppContextView, Diagnostics, FrozenDependencyView, GhMergePrView,
    GitHubContextView, MergeCandidateView, PrCacheEntryView, ResolvedChangeView,
};
use crate::pr;
use crate::quiet;
use crate::reading::deed;
use crate::ready;
use crate::record;
use crate::record::Event;
use crate::text;
use crate::ui;

verus! {

broadcast use crate::record::group_record;

/// At `i` a pull request is read for a merge, out of what GitHub answered right before, when it was asked
/// for the request `number` of `repo`.
pub open spec fn shows_request(
    log: Seq<Event>,
    i: int,
    repo: Seq<char>,
    number: u64,
    pr: GhMergePrView,
) -> bool {
    &&& 0 < i < log.len()
    &&& log[i] is MergePrRead
    &&& log[i]->merge_pr == Ok::<GhMergePrView, Seq<CauseView>>(pr)
    &&& deed(log[i - 1]) is ShowRequest
    &&& deed(log[i - 1])->ShowRequest_repo == repo
    &&& deed(log[i - 1])->ShowRequest_number == text::decimal(number as nat)
    &&& record::reply_of(log[i - 1]) is Ok
    &&& (record::reply_of(log[i - 1])->Ok_0).success
    &&& (record::reply_of(log[i - 1])->Ok_0).stdout == log[i]->MergePrRead_json
}

/// Whether the request was read so, in `from..`.
pub open spec fn was_shown(
    from: int,
    log: Seq<Event>,
    repo: Seq<char>,
    number: u64,
    pr: GhMergePrView,
) -> bool {
    exists|i: int| from < i && #[trigger] shows_request(log, i, repo, number, pr)
}

pub proof fn lemma_shown_stays(
    from: int,
    at: int,
    mid: Seq<Event>,
    after: Seq<Event>,
    repo: Seq<char>,
    number: u64,
    pr: GhMergePrView,
)
    requires
        from <= at,
        record::extends(mid, after),
        was_shown(at, mid, repo, number, pr),
    ensures
        was_shown(from, after, repo, number, pr),
{
    let i = choose|i: int| at < i && #[trigger] shows_request(mid, i, repo, number, pr);
    assert(after.take(mid.len() as int)[i] == mid[i]);
    assert(after.take(mid.len() as int)[i - 1] == mid[i - 1]);
    assert(shows_request(after, i, repo, number, pr));
}

pub proof fn lemma_merge_pr_fetched(
    before: Seq<Event>,
    after: Seq<Event>,
    repo: Seq<char>,
    change_id: Seq<char>,
    number: u64,
    r: Result<GhMergePrView, Seq<CauseView>>,
)
    requires
        ready::merge_pr_fetched(before, after, repo, change_id, number, r),
    ensures
        record::extends(before, after),
        r is Ok ==> was_shown(before.len() as int, after, repo, number, r->Ok_0),
{
    broadcast use crate::wording::group_wording;

    if r is Ok {
        let n = before.len() as int;
        assert(after[n] is Call) by {
            reveal(record::in_place);
        }
        assert(after[n + 1 - 1] == after[n]);
        assert(shows_request(after, n + 1, repo, number, r->Ok_0));
    }
}

/// The entry holds what GitHub said of the request.
pub open spec fn tells_of(entry: PrCacheEntryView, pr: GhMergePrView) -> bool {
    &&& entry.pr_number == pr.number
    &&& entry.head_branch == pr.head_ref_name
    &&& entry.base_branch == pr.base_ref_name
    &&& entry.head_sha == pr.head_ref_oid
    &&& entry.base_sha == pr.base_ref_oid
}

/// What is known of the request of a change: GitHub showed it, and jj told that the bookmark of its head
/// stands at the change.
pub open spec fn candidate_known(
    from: int,
    log: Seq<Event>,
    repo: Seq<char>,
    change: ResolvedChangeView,
    entry: PrCacheEntryView,
    pr: GhMergePrView,
    number: u64,
    name: Seq<char>,
) -> bool {
    &&& was_shown(from, log, repo, number, pr)
    &&& tells_of(entry, pr)
    &&& heading::local_was_told(from, log, name, change.commit_id)
    &&& {
        ||| name == pr.head_ref_name
        ||| exists|read: PrCacheEntryView|
            {
                &&& #[trigger] heading::request_was_read(from, log, repo, read)
                &&& read.head_branch == name
                &&& read.pr_number == number
            }
    }
}

/// Whether the request of a change is known so.
pub open spec fn is_known(
    from: int,
    log: Seq<Event>,
    repo: Seq<char>,
    change: ResolvedChangeView,
    entry: PrCacheEntryView,
    pr: GhMergePrView,
) -> bool {
    exists|number: u64, name: Seq<char>| #[trigger]
        candidate_known(from, log, repo, change, entry, pr, number, name)
}

proof fn lemma_known_stays(
    from: int,
    at: int,
    mid: Seq<Event>,
    after: Seq<Event>,
    repo: Seq<char>,
    change: ResolvedChangeView,
    entry: PrCacheEntryView,
    pr: GhMergePrView,
)
    requires
        0 <= from <= at,
        record::extends(mid, after),
        is_known(at, mid, repo, change, entry, pr),
    ensures
        is_known(from, after, repo, change, entry, pr),
{
    let (number, name) = choose|number: u64, name: Seq<char>| #[trigger]
        candidate_known(at, mid, repo, change, entry, pr, number, name);
    lemma_shown_stays(from, at, mid, after, repo, number, pr);
    heading::lemma_local_stays(from, at, mid, after, name, change.commit_id);
    if name != pr.head_ref_name {
        let read = choose|read: PrCacheEntryView|
            {
                &&& #[trigger] heading::request_was_read(at, mid, repo, read)
                &&& read.head_branch == name
                &&& read.pr_number == number
            };
        heading::lemma_request_stays(from, at, mid, after, repo, read);
        assert(heading::request_was_read(from, after, repo, read));
    }
    assert(candidate_known(from, after, repo, change, entry, pr, number, name));
}

proof fn lemma_cached_candidate(
    before: Seq<Event>,
    after: Seq<Event>,
    remote: Seq<char>,
    repo: Seq<char>,
    change: ResolvedChangeView,
    entry: PrCacheEntryView,
    r: Result<(PrCacheEntryView, GhMergePrView), Seq<CauseView>>,
)
    requires
        candidates::cached_candidate_resolved(before, after, remote, repo, change, entry, r),
    ensures
        record::extends(before, after),
        r matches Ok(found) ==> is_known(
            before.len() as int,
            after,
            repo,
            change,
            found.0,
            found.1,
        ),
{
    let n = before.len() as int;
    let (mid, got) = choose|mid: Seq<Event>, got: Result<GhMergePrView, Seq<CauseView>>|
        {
            &&& #[trigger] ready::merge_pr_fetched(
                before,
                mid,
                repo,
                change.change_id,
                entry.pr_number,
                got,
            )
            &&& match got {
                Err(e) => record::stopped(mid, after, e, r),
                Ok(pr) => if pr.head_ref_name != entry.head_branch {
                    record::stopped(mid, after, candidates::cached_elsewhere(entry, pr), r)
                } else {
                    candidates::cached_candidate_checked(
                        mid,
                        after,
                        remote,
                        change,
                        pr::merge_entry_of(pr, entry.stack_comment_id),
                        pr,
                        r,
                    )
                },
            }
        };
    lemma_merge_pr_fetched(before, mid, repo, change.change_id, entry.pr_number, got);
    if got is Ok && (got->Ok_0).head_ref_name == entry.head_branch {
        let pr = got->Ok_0;
        let live = pr::merge_entry_of(pr, entry.stack_comment_id);
        let state = choose|state: Result<(), Seq<CauseView>>|
            {
                &&& #[trigger] heads::bookmark_checked(mid, after, remote, change, live, state)
                &&& r == match state {
                    Err(e) => Err::<(PrCacheEntryView, GhMergePrView), Seq<CauseView>>(e),
                    Ok(_) => Ok((live, pr)),
                }
            };
        heading::lemma_bookmark_checked(mid, after, remote, change, live, state);
        record::lemma_extends_trans(before, mid, after);
        if state is Ok {
            lemma_shown_stays(n, n, mid, after, repo, entry.pr_number, pr);
            record::lemma_extends_refl(after);
            heading::lemma_local_stays(
                n,
                mid.len() as int,
                after,
                after,
                live.head_branch,
                change.commit_id,
            );
            assert(candidate_known(
                n,
                after,
                repo,
                change,
                live,
                pr,
                entry.pr_number,
                pr.head_ref_name,
            ));
        }
    }
}

proof fn lemma_live_branch(
    before: Seq<Event>,
    after: Seq<Event>,
    remote: Seq<char>,
    github: GitHubContextView,
    change: ResolvedChangeView,
    branch: Seq<char>,
    r: Result<Option<(Option<Seq<char>>, GhMergePrView)>, Seq<CauseView>>,
)
    requires
        candidates::live_branch_tried(before, after, remote, github, change, branch, r),
    ensures
        record::extends(before, after),
        r matches Ok(Some(found)) ==> is_known(
            before.len() as int,
            after,
            github.repo,
            change,
            pr::merge_entry_of(found.1, found.0),
            found.1,
        ),
{
    let n = before.len() as int;
    let (mid, found) = choose|
        mid: Seq<Event>,
        found: Result<Option<PrCacheEntryView>, Seq<CauseView>>,
    |
        {
            &&& #[trigger] pr::head_pr_searched(
                before,
                mid,
                github,
                change.change_id,
                branch,
                found,
            )
            &&& match found {
                Err(e) => record::stopped(mid, after, e, r),
                Ok(None) => after == mid && r == Ok::<
                    Option<(Option<Seq<char>>, GhMergePrView)>,
                    Seq<CauseView>,
                >(None),
                Ok(Some(entry)) => candidates::live_pr_checked(
                    mid,
                    after,
                    remote,
                    github.repo,
                    change,
                    branch,
                    entry,
                    r,
                ),
            }
        };
    heading::lemma_head_pr_searched(before, mid, github, change.change_id, branch, found);
    if found is Ok && found->Ok_0 is Some {
        let entry = (found->Ok_0)->Some_0;
        let (told, state) = choose|told: Seq<Event>, state: Result<(), Seq<CauseView>>|
            {
                &&& #[trigger] heads::bookmark_checked(mid, told, remote, change, entry, state)
                &&& match state {
                    Err(e) => record::stopped(told, after, e, r),
                    Ok(_) => candidates::live_pr_fetched(
                        told,
                        after,
                        github.repo,
                        change.change_id,
                        branch,
                        entry,
                        r,
                    ),
                }
            };
        heading::lemma_bookmark_checked(mid, told, remote, change, entry, state);
        record::lemma_extends_trans(before, mid, told);
        if state is Ok {
            let got = choose|got: Result<GhMergePrView, Seq<CauseView>>|
                #[trigger] ready::merge_pr_fetched(
                    told,
                    after,
                    github.repo,
                    change.change_id,
                    entry.pr_number,
                    got,
                ) && r == candidates::live_pr_result(entry, branch, got);
            lemma_merge_pr_fetched(
                told,
                after,
                github.repo,
                change.change_id,
                entry.pr_number,
                got,
            );
            record::lemma_extends_trans(before, told, after);
            record::lemma_extends_trans(mid, told, after);
            if r is Ok {
                let pr = got->Ok_0;
                record::lemma_extends_refl(after);
                lemma_shown_stays(
                    n,
                    told.len() as int,
                    after,
                    after,
                    github.repo,
                    entry.pr_number,
                    pr,
                );
                heading::lemma_local_stays(
                    n,
                    mid.len() as int,
                    told,
                    after,
                    entry.head_branch,
                    change.commit_id,
                );
                heading::lemma_request_stays(n, n, mid, after, github.repo, entry);
                assert(candidate_known(
                    n,
                    after,
                    github.repo,
                    change,
                    pr::merge_entry_of(pr, entry.stack_comment_id),
                    pr,
                    entry.pr_number,
                    entry.head_branch,
                ));
            }
        }
    }
}

proof fn lemma_live_branches(
    before: Seq<Event>,
    after: Seq<Event>,
    remote: Seq<char>,
    github: GitHubContextView,
    change: ResolvedChangeView,
    names: Seq<Seq<char>>,
    at: int,
    found: Seq<(Option<Seq<char>>, GhMergePrView)>,
    all: Seq<(Option<Seq<char>>, GhMergePrView)>,
    from: int,
)
    requires
        candidates::live_branches_tried(
            before,
            after,
            remote,
            github,
            change,
            names,
            at,
            found,
            Ok(all),
        ),
        0 <= from <= before.len(),
        forall|k: int|
            0 <= k < found.len() ==> is_known(
                from,
                before,
                github.repo,
                change,
                pr::merge_entry_of((#[trigger] found[k]).1, found[k].0),
                found[k].1,
            ),
    ensures
        forall|k: int|
            0 <= k < all.len() ==> is_known(
                from,
                after,
                github.repo,
                change,
                pr::merge_entry_of((#[trigger] all[k]).1, all[k].0),
                all[k].1,
            ),
    decreases names.len() - at,
{
    if at < names.len() {
        let r = Ok::<Seq<(Option<Seq<char>>, GhMergePrView)>, Seq<CauseView>>(all);
        let (mid, got) = choose|
            mid: Seq<Event>,
            got: Result<Option<(Option<Seq<char>>, GhMergePrView)>, Seq<CauseView>>,
        |
            {
                &&& #[trigger] candidates::live_branch_tried(
                    before,
                    mid,
                    remote,
                    github,
                    change,
                    names[at],
                    got,
                )
                &&& match got {
                    Err(e) => record::stopped(mid, after, e, r),
                    Ok(one) => candidates::live_branches_tried(
                        mid,
                        after,
                        remote,
                        github,
                        change,
                        names,
                        at + 1,
                        match one {
                            Some(pair) => found.push(pair),
                            None => found,
                        },
                        r,
                    ),
                }
            };
        lemma_live_branch(before, mid, remote, github, change, names[at], got);
        let next = match got->Ok_0 {
            Some(pair) => found.push(pair),
            None => found,
        };
        record::lemma_extends_refl(mid);
        assert forall|k: int| 0 <= k < next.len() implies is_known(
            from,
            mid,
            github.repo,
            change,
            pr::merge_entry_of((#[trigger] next[k]).1, next[k].0),
            next[k].1,
        ) by {
            if k < found.len() {
                assert(next[k] == found[k]);
                lemma_known_stays(
                    from,
                    from,
                    before,
                    mid,
                    github.repo,
                    change,
                    pr::merge_entry_of(found[k].1, found[k].0),
                    found[k].1,
                );
            } else {
                lemma_known_stays(
                    from,
                    before.len() as int,
                    mid,
                    mid,
                    github.repo,
                    change,
                    pr::merge_entry_of(next[k].1, next[k].0),
                    next[k].1,
                );
            }
        }
        lemma_live_branches(mid, after, remote, github, change, names, at + 1, next, all, from);
    }
}

proof fn lemma_live_candidate(
    before: Seq<Event>,
    after: Seq<Event>,
    config: AppConfigView,
    github: GitHubContextView,
    change: ResolvedChangeView,
    entry: PrCacheEntryView,
    pr: GhMergePrView,
)
    requires
        candidates::live_candidate_resolved(before, after, config, github, change, Ok((entry, pr))),
    ensures
        is_known(before.len() as int, after, github.repo, change, entry, pr),
{
    let r = Ok::<(PrCacheEntryView, GhMergePrView), Seq<CauseView>>((entry, pr));
    let (mid, names) = choose|mid: Seq<Event>, names: Result<Seq<Seq<char>>, Seq<CauseView>>|
        {
            &&& #[trigger] heads::change_names_listed(before, mid, config, change, names)
            &&& match names {
                Err(e) => record::stopped(mid, after, e, r),
                Ok(names) => candidates::live_names_tried(
                    mid,
                    after,
                    config.remote,
                    github,
                    change,
                    names,
                    r,
                ),
            }
        };
    let names = names->Ok_0;
    let found = choose|found: Result<Seq<(Option<Seq<char>>, GhMergePrView)>, Seq<CauseView>>|
        {
            &&& #[trigger] candidates::all_live_branches_tried(
                mid,
                after,
                config.remote,
                github,
                change,
                names,
                found,
            )
            &&& r == match found {
                Err(e) => Err(e),
                Ok(found) => candidates::live_choice(github.repo, change.change_id, found),
            }
        };
    let found = found->Ok_0;
    lemma_live_branches(
        mid,
        after,
        config.remote,
        github,
        change,
        names,
        0,
        seq![],
        found,
        before.len() as int,
    );
    assert(is_known(
        before.len() as int,
        after,
        github.repo,
        change,
        pr::merge_entry_of(found[0].1, found[0].0),
        found[0].1,
    ));
}

/// The law of the candidate: the request that is merged for a change was shown by GitHub, its entry is what
/// GitHub said, and jj told that the bookmark of its head stands at the commit of the change.
pub proof fn law_candidate_is_of_its_change(
    before: Seq<Event>,
    after: Seq<Event>,
    config: AppConfigView,
    github: GitHubContextView,
    change: ResolvedChangeView,
    entry: PrCacheEntryView,
    pr: GhMergePrView,
)
    requires
        candidates::candidate_resolved(before, after, config, github, change, Ok((entry, pr))),
    ensures
        is_known(before.len() as int, after, github.repo, change, entry, pr),
        record::extends(before, after),
{
    broadcast use {
        crate::asking::asks_cache_opened,
        crate::asking::asks_candidate_resolved,
        crate::asking::asks_cached_candidate_resolved,
    };

    let r = Ok::<(PrCacheEntryView, GhMergePrView), Seq<CauseView>>((entry, pr));
    let n = before.len() as int;
    assert(record::extends(before, after)) by {
        assert(quiet::quiet(before, after));
        reveal(quiet::quiet);
    }
    let (mid, opened) = choose|
        mid: Seq<Event>,
        opened: Result<
            (Seq<char>, Map<(Seq<char>, Seq<char>), PrCacheEntryView>),
            Seq<CauseView>,
        >,
    |
        {
            &&& #[trigger] cache::cache_opened(before, mid, "merge"@, opened)
            &&& match opened {
                Err(e) => record::stopped(mid, after, e, r),
                Ok((place, all)) => candidates::candidate_looked_up(
                    mid,
                    after,
                    config,
                    github,
                    change,
                    all,
                    r,
                ),
            }
        };
    assert(n <= mid.len());
    let all = (opened->Ok_0).1;
    let key = (github.repo, change.change_id);
    record::lemma_extends_refl(after);
    if all.dom().contains(key) {
        let kept = all[key];
        let (told, got) = choose|
            told: Seq<Event>,
            got: Result<(PrCacheEntryView, GhMergePrView), Seq<CauseView>>,
        |
            {
                &&& #[trigger] candidates::cached_candidate_resolved(
                    mid,
                    told,
                    config.remote,
                    github.repo,
                    change,
                    kept,
                    got,
                )
                &&& match got {
                    Ok(found) => after == told && r == got,
                    Err(e) => candidates::live_candidate_resolved(
                        told + ui::failure_logged(
                            candidates::stale_candidate(change.change_id),
                            got,
                        ),
                        after,
                        config,
                        github,
                        change,
                        r,
                    ),
                }
            };
        lemma_cached_candidate(mid, told, config.remote, github.repo, change, kept, got);
        if got is Ok {
            lemma_known_stays(
                n,
                mid.len() as int,
                after,
                after,
                github.repo,
                change,
                entry,
                pr,
            );
        } else {
            let start = told + ui::failure_logged(
                candidates::stale_candidate(change.change_id),
                got,
            );
            lemma_live_candidate(start, after, config, github, change, entry, pr);
            lemma_known_stays(
                n,
                start.len() as int,
                after,
                after,
                github.repo,
                change,
                entry,
                pr,
            );
        }
    } else {
        lemma_live_candidate(mid, after, config, github, change, entry, pr);
        lemma_known_stays(n, mid.len() as int, after, after, github.repo, change, entry, pr);
    }
}

// ---------------------------------------------------------------------------
// The pass over the stack
// ---------------------------------------------------------------------------

/// A change was found to be merged: its request is known, is merged, and its head is among the branches.
pub open spec fn found_merged(
    from: int,
    log: Seq<Event>,
    repo: Seq<char>,
    change: ResolvedChangeView,
    merged: Seq<Seq<char>>,
) -> bool {
    exists|entry: PrCacheEntryView, pr: GhMergePrView|
        {
            &&& #[trigger] is_known(from, log, repo, change, entry, pr)
            &&& text::lower_all(pr.state) == text::lower_all("merged"@)
            &&& merged.contains(pr.head_ref_name)
        }
}

/// A change is a candidate: with its request, which is known and is not merged.
pub open spec fn is_candidate(
    from: int,
    log: Seq<Event>,
    config: AppConfigView,
    repo: Seq<char>,
    change: ResolvedChangeView,
    all: Seq<MergeCandidateView>,
    dry_run: bool,
) -> bool {
    exists|k: int, pr: GhMergePrView|
        {
            &&& 0 <= k < all.len()
            &&& #[trigger] all[k].change == change
            &&& #[trigger] is_known(from, log, repo, change, all[k].entry, pr)
            &&& text::lower_all(pr.state) != text::lower_all("merged"@)
            &&& all[k].pr == pr || dry_run && all[k].pr == (GhMergePrView {
                base_ref_name: config.trunk,
                ..pr
            })
        }
}

/// Each of the first `n` changes was found to be merged, or is a candidate.
pub open spec fn are_sorted_out(
    from: int,
    log: Seq<Event>,
    config: AppConfigView,
    repo: Seq<char>,
    stack: Seq<ResolvedChangeView>,
    n: int,
    pass: PassView,
    dry_run: bool,
) -> bool {
    &&& pass.candidates.len() + pass.merged.len() == n
    &&& forall|k: int|
        0 <= k < n ==> found_merged(from, log, repo, #[trigger] stack[k], pass.merged)
            || is_candidate(from, log, config, repo, stack[k], pass.candidates, dry_run)
}

proof fn lemma_change_prepared(
    before: Seq<Event>,
    after: Seq<Event>,
    config: AppConfigView,
    github: GitHubContextView,
    change: ResolvedChangeView,
    diagnostics: Diagnostics,
    one: PreparedView,
) -> (found: (PrCacheEntryView, GhMergePrView))
    requires
        merge::change_prepared(before, after, config, github, change, diagnostics, Ok(one)),
    ensures
        record::extends(before, after),
        is_known(before.len() as int, after, github.repo, change, found.0, found.1),
        match one {
            PreparedView::Merged(branch) => branch == found.1.head_ref_name && text::lower_all(
                found.1.state,
            ) == text::lower_all("merged"@),
            PreparedView::Open(candidate, repointed) => {
                &&& text::lower_all(found.1.state) != text::lower_all("merged"@)
                &&& candidate.change == change
                &&& candidate.entry == found.0
                &&& candidate.pr == found.1 || diagnostics.dry_run && candidate.pr == (GhMergePrView {
                    base_ref_name: config.trunk,
                    ..found.1
                })
                &&& repointed <==> text::lower_all(found.1.base_ref_name) != text::lower_all(
                    config.trunk,
                )
                &&& !diagnostics.dry_run && repointed ==> candidate.needs_settle
            },
        },
{
    broadcast use {crate::quiet::group_quiet, crate::asking::lemma_plan_said};

    reveal_strlit("MERGED");
    reveal_strlit("merged");
    assert(text::lower_all("MERGED"@) =~= text::lower_all("merged"@));
    let r = Ok::<PreparedView, Seq<CauseView>>(one);
    let (mid, got) = choose|
        mid: Seq<Event>,
        got: Result<(PrCacheEntryView, GhMergePrView), Seq<CauseView>>,
    |
        {
            &&& #[trigger] candidates::candidate_resolved(before, mid, config, github, change, got)
            &&& match got {
                Err(e) => record::stopped(
                    mid,
                    after,
                    error::phase_failure("merge-pr-lookup"@, change.change_id, e),
                    r,
                ),
                Ok((entry, pr)) => merge::pr_prepared(
                    mid,
                    after,
                    config.trunk,
                    github.repo,
                    change,
                    entry,
                    pr,
                    diagnostics,
                    r,
                ),
            }
        };
    let (entry, pr) = got->Ok_0;
    law_candidate_is_of_its_change(before, mid, config, github, change, entry, pr);
    record::lemma_extends_refl(mid);
    assert(record::extends(mid, after));
    record::lemma_extends_trans(before, mid, after);
    lemma_known_stays(
        before.len() as int,
        before.len() as int,
        mid,
        after,
        github.repo,
        change,
        entry,
        pr,
    );
    (entry, pr)
}

proof fn lemma_changes_prepared(
    before: Seq<Event>,
    after: Seq<Event>,
    config: AppConfigView,
    github: GitHubContextView,
    stack: Seq<ResolvedChangeView>,
    at: int,
    pass: PassView,
    steps: bool,
    diagnostics: Diagnostics,
    all: PassView,
    from: int,
)
    requires
        merge::changes_prepared(
            before,
            after,
            config,
            github,
            stack,
            at,
            pass,
            steps,
            diagnostics,
            Ok(all),
        ),
        0 <= from <= before.len(),
        0 <= at <= stack.len(),
        are_sorted_out(
            from,
            before,
            config,
            github.repo,
            stack,
            at,
            pass,
            diagnostics.dry_run,
        ),
    ensures
        are_sorted_out(
            from,
            after,
            config,
            github.repo,
            stack,
            stack.len() as int,
            all,
            diagnostics.dry_run,
        ),
    decreases stack.len() - at,
{
    if at < stack.len() {
        let r = Ok::<PassView, Seq<CauseView>>(all);
        let (mid, got) = choose|mid: Seq<Event>, got: Result<PreparedView, Seq<CauseView>>|
            {
                &&& #[trigger] merge::change_prepared(
                    before,
                    mid,
                    config,
                    github,
                    stack[at],
                    diagnostics,
                    got,
                )
                &&& match got {
                    Err(e) => record::stopped(mid, after, e, r),
                    Ok(one) => merge::changes_prepared(
                        mid + ui::step_said(steps, (at + 1) as usize),
                        after,
                        config,
                        github,
                        stack,
                        at + 1,
                        pass.with(one),
                        steps,
                        diagnostics,
                        r,
                    ),
                }
            };
        let one = got->Ok_0;
        let next = pass.with(one);
        let told = mid + ui::step_said(steps, (at + 1) as usize);
        let dry_run = diagnostics.dry_run;
        let repo = github.repo;
        let found = lemma_change_prepared(before, mid, config, github, stack[at], diagnostics, one);
        record::lemma_extends_add(mid, ui::step_said(steps, (at + 1) as usize));
        record::lemma_extends_trans(before, mid, told);
        lemma_known_stays(
            from,
            before.len() as int,
            mid,
            told,
            repo,
            stack[at],
            found.0,
            found.1,
        );
        assert forall|k: int| 0 <= k < at + 1 implies found_merged(
            from,
            told,
            repo,
            #[trigger] stack[k],
            next.merged,
        ) || is_candidate(from, told, config, repo, stack[k], next.candidates, dry_run) by {
            if k < at {
                if found_merged(from, before, repo, stack[k], pass.merged) {
                    let (entry, pr) = choose|entry: PrCacheEntryView, pr: GhMergePrView|
                        {
                            &&& #[trigger] is_known(from, before, repo, stack[k], entry, pr)
                            &&& text::lower_all(pr.state) == text::lower_all("merged"@)
                            &&& pass.merged.contains(pr.head_ref_name)
                        };
                    lemma_known_stays(from, from, before, told, repo, stack[k], entry, pr);
                    let m = choose|m: int|
                        0 <= m < pass.merged.len() && pass.merged[m] == pr.head_ref_name;
                    assert(next.merged[m] == pr.head_ref_name);
                    assert(is_known(from, told, repo, stack[k], entry, pr));
                } else {
                    let (m, pr) = choose|m: int, pr: GhMergePrView|
                        {
                            &&& 0 <= m < pass.candidates.len()
                            &&& #[trigger] pass.candidates[m].change == stack[k]
                            &&& #[trigger] is_known(
                                from,
                                before,
                                repo,
                                stack[k],
                                pass.candidates[m].entry,
                                pr,
                            )
                            &&& text::lower_all(pr.state) != text::lower_all("merged"@)
                            &&& pass.candidates[m].pr == pr || dry_run && pass.candidates[m].pr == (
                            GhMergePrView { base_ref_name: config.trunk, ..pr })
                        };
                    let entry = pass.candidates[m].entry;
                    lemma_known_stays(from, from, before, told, repo, stack[k], entry, pr);
                    assert(next.candidates[m] == pass.candidates[m]);
                    assert(is_known(from, told, repo, stack[k], next.candidates[m].entry, pr));
                }
            } else {
                match one {
                    PreparedView::Merged(branch) => {
                        assert(next.merged[pass.merged.len() as int] == branch);
                        assert(is_known(from, told, repo, stack[k], found.0, found.1));
                    },
                    PreparedView::Open(candidate, repointed) => {
                        let m = pass.candidates.len() as int;
                        assert(next.candidates[m].change == stack[k]);
                        assert(is_known(
                            from,
                            told,
                            repo,
                            stack[k],
                            next.candidates[m].entry,
                            found.1,
                        ));
                    },
                }
            }
        }
        lemma_changes_prepared(
            told,
            after,
            config,
            github,
            stack,
            at + 1,
            next,
            steps,
            diagnostics,
            all,
            from,
        );
    }
}

/// The law of the pass: before a merge lands a stack, each change of it was found to be merged, or is a
/// candidate with the request that GitHub showed for it; there are as many of both as there are changes.
pub proof fn law_every_change_is_judged(
    before: Seq<Event>,
    after: Seq<Event>,
    config: AppConfigView,
    github: GitHubContextView,
    stack: Seq<ResolvedChangeView>,
    steps: bool,
    diagnostics: Diagnostics,
    pass: PassView,
)
    requires
        merge::changes_prepared(
            before,
            after,
            config,
            github,
            stack,
            0,
            merge::no_pass(),
            steps,
            diagnostics,
            Ok(pass),
        ),
    ensures
        are_sorted_out(
            before.len() as int,
            after,
            config,
            github.repo,
            stack,
            stack.len() as int,
            pass,
            diagnostics.dry_run,
        ),
{
    lemma_changes_prepared(
        before,
        after,
        config,
        github,
        stack,
        0,
        merge::no_pass(),
        steps,
        diagnostics,
        pass,
        before.len() as int,
    );
}

// ---------------------------------------------------------------------------
// Frozen requests below
// ---------------------------------------------------------------------------

proof fn lemma_dependencies(
    before: Seq<Event>,
    after: Seq<Event>,
    repo: Seq<char>,
    dependencies: Seq<FrozenDependencyView>,
    at: int,
    r: Result<(), Seq<CauseView>>,
    from: int,
)
    requires
        candidates::dependencies_tested(before, after, repo, dependencies, at, r),
        r is Ok,
        0 <= from <= before.len(),
        0 <= at,
    ensures
        record::extends(before, after),
        forall|k: int|
            at <= k < dependencies.len() ==> was_merged(
                from,
                after,
                repo,
                (#[trigger] dependencies[k]).bookmark.pr_number,
            ),
    decreases dependencies.len() - at,
{
    record::lemma_extends_refl(before);
    if at < dependencies.len() {
        let dependency = dependencies[at];
        let number = dependency.bookmark.pr_number;
        let (mid, got) = choose|mid: Seq<Event>, got: Result<GhMergePrView, Seq<CauseView>>|
            {
                &&& #[trigger] ready::merge_pr_fetched(
                    before,
                    mid,
                    repo,
                    dependency.change.change_id,
                    number,
                    got,
                )
                &&& match got {
                    Err(e) => record::stopped(mid, after, e, r),
                    Ok(pr) => match candidates::unmerged_dependency(dependency.bookmark.name, pr) {
                        Some(message) => record::stopped(mid, after, error::plain(message), r),
                        None => candidates::dependencies_tested(
                            mid,
                            after,
                            repo,
                            dependencies,
                            at + 1,
                            r,
                        ),
                    },
                }
            };
        lemma_merge_pr_fetched(
            before,
            mid,
            repo,
            dependency.change.change_id,
            number,
            got,
        );
        lemma_dependencies(mid, after, repo, dependencies, at + 1, r, from);
        record::lemma_extends_trans(before, mid, after);
        let pr = got->Ok_0;
        lemma_shown_stays(from, before.len() as int, mid, after, repo, number, pr);
        reveal_strlit("MERGED");
        reveal_strlit("merged");
        assert(text::lower_all("MERGED"@) =~= text::lower_all("merged"@));
        assert(was_merged(from, after, repo, number));
    }
}

/// Whether GitHub showed, in `from..`, that the request is merged.
pub open spec fn was_merged(from: int, log: Seq<Event>, repo: Seq<char>, number: u64) -> bool {
    exists|pr: GhMergePrView|
        {
            &&& #[trigger] was_shown(from, log, repo, number, pr)
            &&& text::lower_all(pr.state) == text::lower_all("merged"@)
        }
}

/// The law of the dependencies of a merge: a stack is merged only where each frozen request below it was
/// shown to be merged, and where the lowest request of the stack, if it stood on such ones, already goes
/// to trunk.
pub proof fn law_merge_waits_for_its_dependencies(
    before: Seq<Event>,
    after: Seq<Event>,
    trunk: Seq<char>,
    context: AppContextView,
    bottom: GhMergePrView,
    k: int,
)
    requires
        candidates::merge_dependencies_checked(before, after, trunk, context, bottom, Ok(())),
        0 <= k < context.frozen_dependencies.len(),
    ensures
        was_merged(
            before.len() as int,
            after,
            context.github.repo,
            context.frozen_dependencies[k].bookmark.pr_number,
        ),
        text::lower_all(bottom.base_ref_name) == text::lower_all(trunk),
{
    let r = Ok::<(), Seq<CauseView>>(());
    let tested = choose|tested: Result<(), Seq<CauseView>>|
        {
            &&& #[trigger] candidates::all_dependencies_tested(
                before,
                after,
                context.github.repo,
                context.frozen_dependencies,
                tested,
            )
            &&& r == match tested {
                Err(e) => Err(e),
                Ok(_) => if context.frozen_dependencies.len() > 0 && text::lower_all(
                    bottom.base_ref_name,
                ) != text::lower_all(trunk) {
                    Err(error::plain(candidates::stale_bottom(trunk, bottom)))
                } else {
                    Ok(())
                },
            }
        };
    lemma_dependencies(
        before,
        after,
        context.github.repo,
        context.frozen_dependencies,
        0,
        tested,
        before.len() as int,
    );
}

} // verus!
