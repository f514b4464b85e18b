//! What is known of the head that a change is submitted under.

use vstd::prelude::*;

use crate::answers;
use crate::branches;
use crate::comments;
use crate::error::CauseView;
use crate::heads;
use crate::heads::SubmitHeadView;
use crate::model::{
    AppConfigView, GhMergePrView, GhPrView, GhRepositoryView, GitHubContextView, PrCacheEntryView,
    ResolvedChangeView,
};
use crate::pr;
use crate::quiet;
use crate::reading::{Deed, deed};
use crate::record;
use crate::record::Event;
use crate::targeting;
use crate::text;
use crate::ui;

verus! {

broadcast use crate::record::group_record;

/// Of a repository that GitHub names, these are the ids and the name; of one that it does not name, there
/// are none.
pub open spec fn is_repo(
    repo: Option<GhRepositoryView>,
    id: Seq<char>,
    node_id: Seq<char>,
    name: Seq<char>,
) -> bool {
    match repo {
        Some(repo) => id == repo.id && node_id == repo.node_id && name == repo.name_with_owner,
        None => id.len() == 0 && node_id.len() == 0 && name.len() == 0,
    }
}

/// The entry holds what GitHub said of the pull request, each thing in its place.
pub open spec fn mirrors(entry: PrCacheEntryView, pr: GhPrView) -> bool {
    &&& entry.pr_number == pr.number
    &&& entry.pr_node_id == pr.id
    &&& entry.head_branch == pr.head_ref_name
    &&& entry.base_branch == pr.base_ref_name
    &&& entry.base_ref == pr.base_ref_name
    &&& entry.head_sha == pr.head_ref_oid
    &&& entry.base_sha == pr.base_ref_oid
    &&& entry.title == pr.title
    &&& entry.body == pr.body
    &&& entry.created_at == pr.created_at
    &&& is_repo(pr.head_repository, entry.head_repo_id, entry.head_repo_node_id, entry.head_repo_name)
    &&& is_repo(pr.base_repository, entry.base_repo_id, entry.base_repo_node_id, entry.base_repo_name)
    &&& pr.author matches Some(author) ==> entry.author_login == author.login
    &&& pr.author is None ==> entry.author_login.len() == 0
}

/// The law of the entry: what is kept of a pull request is what GitHub said of it, with the comment that
/// was given; and of a request that is read for a merge, all that such a request tells.
pub proof fn law_entry_mirrors_its_request(
    pr: GhPrView,
    merge_pr: GhMergePrView,
    comment: Option<Seq<char>>,
)
    ensures
        mirrors(pr::entry_of(pr, comment), pr),
        pr::entry_of(pr, comment).stack_comment_id == comment,
        pr::merge_entry_of(merge_pr, comment).stack_comment_id == comment,
        pr::merge_entry_of(merge_pr, comment).pr_number == merge_pr.number,
        pr::merge_entry_of(merge_pr, comment).head_branch == merge_pr.head_ref_name,
        pr::merge_entry_of(merge_pr, comment).base_branch == merge_pr.base_ref_name,
        pr::merge_entry_of(merge_pr, comment).base_ref == merge_pr.base_ref_name,
        pr::merge_entry_of(merge_pr, comment).head_sha == merge_pr.head_ref_oid,
        pr::merge_entry_of(merge_pr, comment).base_sha == merge_pr.base_ref_oid,
        pr::merge_entry_of(merge_pr, comment).title == merge_pr.title,
        pr::merge_entry_of(merge_pr, comment).body == merge_pr.body,
        pr::merge_entry_of(merge_pr, comment).created_at == merge_pr.created_at,
{
}

/// The law of the kept request: a kept entry is believed just where the request is open, is from the kept
/// head branch, and differs in nothing that names it, and where nothing that identifies it was blank;
/// what comes back is what GitHub says now, with the kept comment.
pub proof fn law_kept_request_is_confirmed(
    repo: Seq<char>,
    change_id: Seq<char>,
    head_branch: Seq<char>,
    entry: PrCacheEntryView,
    pr: GhPrView,
)
    ensures
        pr::cached_outcome(repo, change_id, head_branch, entry, pr) matches Ok(now) ==> {
            &&& text::lower_all(pr.state) == text::lower_all("open"@)
            &&& mirrors(now, pr)
            &&& now.stack_comment_id == entry.stack_comment_id
            &&& entry.head_branch == pr.head_ref_name
            &&& entry.base_branch == pr.base_ref_name
            &&& entry.head_sha == pr.head_ref_oid
            &&& entry.base_sha == pr.base_ref_oid
            &&& entry.pr_node_id == pr.id && !text::is_blank(entry.pr_node_id)
            &&& is_repo(
                pr.head_repository,
                entry.head_repo_id,
                entry.head_repo_node_id,
                entry.head_repo_name,
            )
            &&& is_repo(
                pr.base_repository,
                entry.base_repo_id,
                entry.base_repo_node_id,
                entry.base_repo_name,
            )
            &&& !text::is_blank(entry.head_repo_name) && !text::is_blank(entry.base_repo_name)
            &&& !text::is_blank(entry.author_login)
        },
        ({
            &&& text::lower_all(pr.state) == text::lower_all("open"@)
            &&& mirrors(entry, pr)
            &&& !text::is_blank(entry.pr_node_id)
            &&& !text::is_blank(entry.head_repo_id)
            &&& !text::is_blank(entry.head_repo_node_id)
            &&& !text::is_blank(entry.head_repo_name)
            &&& !text::is_blank(entry.base_repo_id)
            &&& !text::is_blank(entry.base_repo_node_id)
            &&& !text::is_blank(entry.base_repo_name)
            &&& !text::is_blank(entry.author_login)
        }) ==> pr::cached_outcome(repo, change_id, head_branch, entry, pr) is Ok,
{
    reveal_strlit("OPEN");
    reveal_strlit("open");
    assert(text::lower_all("OPEN"@) =~= text::lower_all("open"@));
    reveal_with_fuel(pr::blank_from, 10);
    reveal_with_fuel(pr::change_from, 13);
    let stored = pr::field_values(entry);
    let live = pr::field_values(pr::entry_of(pr, entry.stack_comment_id));
    if mirrors(entry, pr) {
        let now = pr::entry_of(pr, entry.stack_comment_id);
        assert(now.head_repo_id =~= entry.head_repo_id);
        assert(now.head_repo_node_id =~= entry.head_repo_node_id);
        assert(now.head_repo_name =~= entry.head_repo_name);
        assert(now.base_repo_id =~= entry.base_repo_id);
        assert(now.base_repo_node_id =~= entry.base_repo_node_id);
        assert(now.base_repo_name =~= entry.base_repo_name);
        assert(now.author_login =~= entry.author_login);
        assert(stored =~= live);
    }
}

// ---------------------------------------------------------------------------
// What was told of a head
// ---------------------------------------------------------------------------

/// Whether git told, in `from..`, where the head branch stands on the remote, or that it is not there.
pub open spec fn remote_was_told(from: int, log: Seq<Event>, remote: Seq<char>, head: SubmitHeadView) -> bool {
    exists|i: int|
        {
            &&& from <= i < log.len()
            &&& deed(#[trigger] log[i]) == (Deed::FindRemoteHead { remote, branch: head.head_branch })
            &&& heads::remote_head_result(remote, head.head_branch, record::reply_of(log[i])) == Ok::<
                Option<Seq<char>>,
                Seq<CauseView>,
            >(head.expected_remote_head)
        }
}

/// Whether jj told, in `from..`, that the local bookmark of this name stands at the commit.
pub open spec fn local_was_told(from: int, log: Seq<Event>, name: Seq<char>, commit: Seq<char>) -> bool {
    exists|i: int|
        {
            &&& from <= i < log.len()
            &&& deed(#[trigger] log[i]) == (Deed::ListCommits {
                revset: name,
                shown: "commit_id"@,
                bottom_first: false,
            })
            &&& answers::told(record::reply_of(log[i]), commit)
        }
}

/// Whether the pull request of the entry was read, in `from..`, from GitHub.
pub open spec fn request_was_read(from: int, log: Seq<Event>, repo: Seq<char>, entry: PrCacheEntryView) -> bool {
    exists|i: int, number: u64, pr: GhPrView|
        from < i && #[trigger] targeting::reads_request(log, i, repo, number, pr) && mirrors(entry, pr)
}

/// All that is known of a head: where it stands on the remote; and where there is a pull request for it,
/// that its bookmark stands at the change, and what GitHub says of it; where there is none, that the
/// remote has no such branch.
pub open spec fn head_known(
    from: int,
    log: Seq<Event>,
    remote: Seq<char>,
    repo: Seq<char>,
    change: ResolvedChangeView,
    head: SubmitHeadView,
) -> bool {
    &&& remote_was_told(from, log, remote, head)
    &&& match head.existing_pr {
        Some(entry) => {
            &&& local_was_told(from, log, entry.head_branch, change.commit_id)
            &&& request_was_read(from, log, repo, entry)
        },
        None => head.expected_remote_head is None,
    }
}

pub proof fn lemma_local_stays(from: int, at: int, mid: Seq<Event>, after: Seq<Event>, name: Seq<char>, commit: Seq<char>)
    requires
        record::extends(mid, after),
        local_was_told(at, mid, name, commit),
        0 <= from <= at,
    ensures
        local_was_told(from, after, name, commit),
{
    let i = choose|i: int|
        {
            &&& at <= i < mid.len()
            &&& deed(#[trigger] mid[i]) == (Deed::ListCommits {
                revset: name,
                shown: "commit_id"@,
                bottom_first: false,
            })
            &&& answers::told(record::reply_of(mid[i]), commit)
        };
    assert(after.take(mid.len() as int)[i] == mid[i]);
    assert(deed(after[i]) == deed(mid[i]));
}

pub proof fn lemma_request_stays(
    from: int,
    at: int,
    mid: Seq<Event>,
    after: Seq<Event>,
    repo: Seq<char>,
    entry: PrCacheEntryView,
)
    requires
        record::extends(mid, after),
        request_was_read(at, mid, repo, entry),
        from <= at,
        0 <= from,
    ensures
        request_was_read(from, after, repo, entry),
{
    let (i, number, pr) = choose|i: int, number: u64, pr: GhPrView|
        at < i && #[trigger] targeting::reads_request(mid, i, repo, number, pr) && mirrors(entry, pr);
    assert(after.take(mid.len() as int)[i] == mid[i]);
    assert(after.take(mid.len() as int)[i - 1] == mid[i - 1]);
    assert(targeting::reads_request(after, i, repo, number, pr));
}

pub proof fn lemma_bookmark_checked(
    before: Seq<Event>,
    after: Seq<Event>,
    remote: Seq<char>,
    change: ResolvedChangeView,
    entry: PrCacheEntryView,
    r: Result<(), Seq<CauseView>>,
)
    requires
        heads::bookmark_checked(before, after, remote, change, entry, r),
    ensures
        record::extends(before, after),
        r is Ok ==> local_was_told(before.len() as int, after, entry.head_branch, change.commit_id),
{
    broadcast use crate::wording::group_wording;

    let n = before.len() as int;
    if r is Ok {
        answers::law_asked_commit_is_the_word(
            arbitrary(),
            entry.head_branch,
            seq![],
            record::reply_of(after[n]),
            change.commit_id,
        );
        assert(deed(after[n]) == (Deed::ListCommits {
            revset: entry.head_branch,
            shown: "commit_id"@,
            bottom_first: false,
        }));
    }
}

proof fn lemma_remote_head_asked(
    before: Seq<Event>,
    after: Seq<Event>,
    remote: Seq<char>,
    branch: Seq<char>,
    pr: PrCacheEntryView,
    head: SubmitHeadView,
)
    requires
        heads::remote_head_asked(before, after, remote, branch, pr, Ok(head)),
    ensures
        remote_was_told(before.len() as int, after, remote, head),
        head.existing_pr == Some(pr),
        record::extends(before, after),
{
    broadcast use crate::wording::group_wording;

    let n = before.len() as int;
    assert(after[n] is Call) by {
        reveal(record::in_place);
    }
    assert(deed(after[n]) == (Deed::FindRemoteHead { remote, branch: head.head_branch }));
}

proof fn lemma_match_settled(
    before: Seq<Event>,
    after: Seq<Event>,
    remote: Seq<char>,
    repo: Seq<char>,
    change: ResolvedChangeView,
    branch: Seq<char>,
    pr: PrCacheEntryView,
    head: SubmitHeadView,
    from: int,
)
    requires
        heads::match_settled(before, after, remote, change, branch, pr, Ok(head)),
        0 <= from <= before.len(),
        request_was_read(from, before, repo, pr),
    ensures
        head_known(from, after, remote, repo, change, head),
        record::extends(before, after),
{
    let r = Ok::<SubmitHeadView, Seq<CauseView>>(head);
    let (mid, state) = choose|mid: Seq<Event>, state: Result<(), Seq<CauseView>>|
        {
            &&& #[trigger] heads::bookmark_checked(before, mid, remote, change, pr, state)
            &&& match state {
                Err(e) => record::stopped(mid, after, e, r),
                Ok(_) => heads::remote_head_asked(mid, after, remote, branch, pr, r),
            }
        };
    lemma_bookmark_checked(before, mid, remote, change, pr, state);
    lemma_remote_head_asked(mid, after, remote, branch, pr, head);
    record::lemma_extends_trans(before, mid, after);
    lemma_local_stays(from, before.len() as int, mid, after, pr.head_branch, change.commit_id);
    lemma_request_stays(from, from, before, after, repo, pr);
}

pub proof fn lemma_head_pr_searched(
    before: Seq<Event>,
    after: Seq<Event>,
    github: GitHubContextView,
    change_id: Seq<char>,
    branch: Seq<char>,
    r: Result<Option<PrCacheEntryView>, Seq<CauseView>>,
)
    requires
        pr::head_pr_searched(before, after, github, change_id, branch, r),
    ensures
        record::extends(before, after),
        r matches Ok(Some(entry)) ==> request_was_read(
            before.len() as int,
            after,
            github.repo,
            entry,
        ),
{
    broadcast use crate::asking::asks_comment_id_searched;

    if r is Ok && r->Ok_0 is Some {
        let n = before.len() as int;
        let entry = (r->Ok_0)->Some_0;
        let listed = after.take(n + 2);
        let prs = after[n + 1]->prs->Ok_0;
        let number = prs[0].number;
        let (mid, fetched) = choose|mid: Seq<Event>, fetched: Result<GhPrView, Seq<CauseView>>|
            {
                &&& #[trigger] pr::pr_fetched(listed, mid, github.repo, change_id, number, fetched)
                &&& match fetched {
                    Err(e) => record::stopped(mid, after, e, r),
                    Ok(pr) => exists|comment: Option<Seq<char>>|
                        #[trigger] comments::comment_id_searched(
                            mid,
                            after,
                            github,
                            pr.number,
                            change_id,
                            comment,
                        ) && r == Ok::<_, Seq<CauseView>>(Some(pr::entry_of(pr, comment))),
                }
            };
        let pr = fetched->Ok_0;
        let comment = choose|comment: Option<Seq<char>>|
            #[trigger] comments::comment_id_searched(
                mid,
                after,
                github,
                pr.number,
                change_id,
                comment,
            ) && r == Ok::<_, Seq<CauseView>>(Some(pr::entry_of(pr, comment)));
        let read = targeting::law_target_reads_its_request(
            listed,
            mid,
            github.repo,
            (pr::GetTargetView::PullRequest { repo: github.repo, number }),
            change_id,
            pr,
        );
        assert(record::extends(mid, after)) by {
            assert(quiet::quiet(mid, after));
            reveal(quiet::quiet);
        }
        law_entry_mirrors_its_request(pr, arbitrary(), comment);
        assert(request_was_read(n, mid, github.repo, entry));
        lemma_request_stays(n, n, mid, after, github.repo, entry);
    }
}

proof fn lemma_branches_searched(
    before: Seq<Event>,
    after: Seq<Event>,
    github: GitHubContextView,
    change_id: Seq<char>,
    names: Seq<Seq<char>>,
    at: int,
    used: Seq<Seq<char>>,
    found: Seq<(Seq<char>, PrCacheEntryView)>,
    r: Result<Seq<(Seq<char>, PrCacheEntryView)>, Seq<CauseView>>,
    from: int,
)
    requires
        heads::branches_searched(before, after, github, change_id, names, at, used, found, r),
        0 <= from <= before.len(),
        forall|k: int|
            0 <= k < found.len() ==> request_was_read(
                from,
                before,
                github.repo,
                (#[trigger] found[k]).1,
            ),
    ensures
        record::extends(before, after),
        r is Ok ==> forall|k: int|
            0 <= k < (r->Ok_0).len() ==> request_was_read(
                from,
                after,
                github.repo,
                (#[trigger] (r->Ok_0)[k]).1,
            ),
    decreases names.len() - at,
{
    record::lemma_extends_refl(before);
    if 0 <= at < names.len() {
        if used.contains(names[at]) {
            lemma_branches_searched(
                before,
                after,
                github,
                change_id,
                names,
                at + 1,
                used,
                found,
                r,
                from,
            );
        } else {
            let (mid, pr) = choose|
                mid: Seq<Event>,
                pr: Result<Option<PrCacheEntryView>, Seq<CauseView>>,
            |
                {
                    &&& #[trigger] pr::head_pr_searched(
                        before,
                        mid,
                        github,
                        change_id,
                        names[at],
                        pr,
                    )
                    &&& match pr {
                        Err(e) => record::stopped(mid, after, e, r),
                        Ok(pr) => heads::branches_searched(
                            mid,
                            after,
                            github,
                            change_id,
                            names,
                            at + 1,
                            used,
                            match pr {
                                Some(pr) => found.push((names[at], pr)),
                                None => found,
                            },
                            r,
                        ),
                    }
                };
            lemma_head_pr_searched(before, mid, github, change_id, names[at], pr);
            if pr is Ok {
                let next = match pr->Ok_0 {
                    Some(pr) => found.push((names[at], pr)),
                    None => found,
                };
                assert forall|k: int| 0 <= k < next.len() implies request_was_read(
                    from,
                    mid,
                    github.repo,
                    (#[trigger] next[k]).1,
                ) by {
                    if k < found.len() {
                        assert(next[k] == found[k]);
                        lemma_request_stays(from, from, before, mid, github.repo, found[k].1);
                    } else {
                        record::lemma_extends_refl(mid);
                        lemma_request_stays(
                            from,
                            before.len() as int,
                            mid,
                            mid,
                            github.repo,
                            next[k].1,
                        );
                    }
                }
                lemma_branches_searched(
                    mid,
                    after,
                    github,
                    change_id,
                    names,
                    at + 1,
                    used,
                    next,
                    r,
                    from,
                );
                record::lemma_extends_trans(before, mid, after);
            }
        }
    }
}

proof fn lemma_head_discovered(
    before: Seq<Event>,
    after: Seq<Event>,
    config: AppConfigView,
    github: GitHubContextView,
    change: ResolvedChangeView,
    used: Seq<Seq<char>>,
    r: Result<Option<SubmitHeadView>, Seq<CauseView>>,
)
    requires
        heads::head_discovered(before, after, config, github, change, used, r),
    ensures
        record::extends(before, after),
        r matches Ok(Some(head)) ==> head_known(
            before.len() as int,
            after,
            config.remote,
            github.repo,
            change,
            head,
        ),
{
    broadcast use crate::asking::asks_head_discovered;

    assert(record::extends(before, after)) by {
        assert(quiet::quiet(before, after));
        reveal(quiet::quiet);
    }
    if r is Ok && r->Ok_0 is Some {
        let head = (r->Ok_0)->Some_0;
        let (mid, names) = choose|mid: Seq<Event>, names: Result<Seq<Seq<char>>, Seq<CauseView>>|
            {
                &&& #[trigger] heads::change_names_listed(before, mid, config, change, names)
                &&& match names {
                    Err(e) => record::stopped(mid, after, e, r),
                    Ok(names) => heads::names_tried(
                        mid,
                        after,
                        config,
                        github,
                        change,
                        names,
                        used,
                        r,
                    ),
                }
            };
        let names = names->Ok_0;
        let (told, found) = choose|
            told: Seq<Event>,
            found: Result<Seq<(Seq<char>, PrCacheEntryView)>, Seq<CauseView>>,
        |
            {
                &&& #[trigger] heads::all_branches_searched(
                    mid,
                    told,
                    github,
                    change.change_id,
                    names,
                    used,
                    found,
                )
                &&& match found {
                    Err(e) => record::stopped(told, after, e, r),
                    Ok(found) => heads::matches_settled(told, after, config, change, found, r),
                }
            };
        lemma_branches_searched(
            mid,
            told,
            github,
            change.change_id,
            names,
            0,
            used,
            seq![],
            found,
            before.len() as int,
        );
        let found = found->Ok_0;
        assert(request_was_read(before.len() as int, told, github.repo, found[0].1));
        assert(heads::match_settled(
            told,
            after,
            config.remote,
            change,
            found[0].0,
            found[0].1,
            Ok(head),
        ));
        lemma_match_settled(
            told,
            after,
            config.remote,
            github.repo,
            change,
            found[0].0,
            found[0].1,
            head,
            before.len() as int,
        );
    }
}

proof fn lemma_cached_head_resolved(
    before: Seq<Event>,
    after: Seq<Event>,
    config: AppConfigView,
    repo: Seq<char>,
    change: ResolvedChangeView,
    entry: PrCacheEntryView,
    used: Seq<Seq<char>>,
    head: SubmitHeadView,
)
    requires
        heads::cached_head_resolved(before, after, config, repo, change, entry, used, Ok(head)),
    ensures
        head_known(before.len() as int, after, config.remote, repo, change, head),
{
    let r = Ok::<SubmitHeadView, Seq<CauseView>>(head);
    let n = before.len() as int;
    let (mid, state) = choose|mid: Seq<Event>, state: Result<(), Seq<CauseView>>|
        {
            &&& #[trigger] heads::bookmark_checked(before, mid, config.remote, change, entry, state)
            &&& match state {
                Err(e) => record::stopped(mid, after, e, r),
                Ok(_) => heads::cached_pr_settled(mid, after, config, repo, change, entry, r),
            }
        };
    lemma_bookmark_checked(before, mid, config.remote, change, entry, state);
    let (told, now) = choose|told: Seq<Event>, now: Result<PrCacheEntryView, Seq<CauseView>>|
        {
            &&& #[trigger] pr::cached_pr_checked(
                mid,
                told,
                repo,
                change.change_id,
                entry.head_branch,
                entry,
                now,
            )
            &&& match now {
                Err(e) => record::stopped(told, after, e, r),
                Ok(pr) => heads::remote_head_asked(
                    told,
                    after,
                    config.remote,
                    entry.head_branch,
                    pr,
                    r,
                ),
            }
        };
    let now = now->Ok_0;
    let fetched = choose|fetched: Result<GhPrView, Seq<CauseView>>|
        {
            &&& #[trigger] pr::pr_fetched(
                mid,
                told,
                repo,
                change.change_id,
                entry.pr_number,
                fetched,
            )
            &&& Ok::<PrCacheEntryView, Seq<CauseView>>(now) == match fetched {
                Err(e) => Err(e),
                Ok(pr) => pr::cached_outcome(
                    repo,
                    change.change_id,
                    entry.head_branch,
                    entry,
                    pr,
                ),
            }
        };
    let pr = fetched->Ok_0;
    let read = targeting::law_target_reads_its_request(
        mid,
        told,
        repo,
        (pr::GetTargetView::PullRequest { repo, number: entry.pr_number }),
        change.change_id,
        pr,
    );
    law_kept_request_is_confirmed(repo, change.change_id, entry.head_branch, entry, pr);
    assert(request_was_read(n, told, repo, now));
    lemma_remote_head_asked(told, after, config.remote, entry.head_branch, now, head);
    lemma_request_stays(n, n, told, after, repo, now);
    record::lemma_extends_trans(mid, told, after);
    lemma_local_stays(n, n, mid, after, entry.head_branch, change.commit_id);
}

proof fn lemma_fresh_head_resolved(
    before: Seq<Event>,
    after: Seq<Event>,
    config: AppConfigView,
    github: GitHubContextView,
    change: ResolvedChangeView,
    used: Seq<Seq<char>>,
    head: SubmitHeadView,
)
    requires
        heads::fresh_head_resolved(before, after, config, github, change, used, Ok(head)),
    ensures
        head_known(before.len() as int, after, config.remote, github.repo, change, head),
        branches::is_unused_branch(
            head.head_branch,
            branches::head_branch_base(config, change),
            used,
        ),
{
    broadcast use crate::wording::group_wording;

    let r = Ok::<SubmitHeadView, Seq<CauseView>>(head);
    let n = before.len() as int;
    let branch = choose|branch: Seq<char>|
        {
            &&& #[trigger] branches::is_unused_branch(
                branch,
                branches::head_branch_base(config, change),
                used,
            )
            &&& heads::fresh_branch_resolved(before, after, config, github, change, branch, r)
        };
    let (mid, found) = choose|
        mid: Seq<Event>,
        found: Result<Option<PrCacheEntryView>, Seq<CauseView>>,
    |
        {
            &&& #[trigger] pr::head_pr_searched(
                before,
                mid,
                github,
                change.change_id,
                branch,
                found,
            )
            &&& match found {
                Err(e) => record::stopped(mid, after, e, r),
                Ok(pr) => heads::fresh_head_located(mid, after, config, change, branch, pr, r),
            }
        };
    lemma_head_pr_searched(before, mid, github, change.change_id, branch, found);
    let existing = found->Ok_0;
    let asked = choose|asked: Seq<Event>|
        {
            &&& #[trigger] record::called(
                mid,
                asked,
                "git"@,
                heads::remote_head_args(config.remote, branch),
            )
            &&& match heads::remote_head_result(config.remote, branch, record::last_reply(asked)) {
                Err(e) => record::stopped(asked, after, e, r),
                Ok(head) => heads::fresh_head_settled(
                    asked,
                    after,
                    config,
                    change,
                    branch,
                    existing,
                    head,
                    r,
                ),
            }
        };
    let m = mid.len() as int;
    assert(asked[m] is Call) by {
        reveal(record::in_place);
    }
    let stands = heads::remote_head_result(config.remote, branch, record::last_reply(asked))->Ok_0;
    match existing {
        Some(entry) => {
            let state = choose|state: Result<(), Seq<CauseView>>|
                {
                    &&& #[trigger] heads::bookmark_checked(
                        asked,
                        after,
                        config.remote,
                        change,
                        entry,
                        state,
                    )
                    &&& r == match state {
                        Err(e) => Err(e),
                        Ok(_) => Ok(
                            SubmitHeadView {
                                head_branch: branch,
                                existing_pr: Some(entry),
                                expected_remote_head: stands,
                            },
                        ),
                    }
                };
            lemma_bookmark_checked(asked, after, config.remote, change, entry, state);
            record::lemma_extends_trans(mid, asked, after);
            lemma_request_stays(n, n, mid, after, github.repo, entry);
            record::lemma_extends_refl(after);
            lemma_local_stays(
                n,
                asked.len() as int,
                after,
                after,
                entry.head_branch,
                change.commit_id,
            );
        },
        None => {},
    }
    assert(record::extends(asked, after)) by {
        record::lemma_extends_refl(asked);
    }
    assert(after.take(asked.len() as int)[m] == asked[m]);
    assert(deed(after[m]) == (Deed::FindRemoteHead {
        remote: config.remote,
        branch: head.head_branch,
    }));
}

/// The law of the head: of the head that a change is submitted under it is known where it stands on the
/// remote. Where there is a pull request for it, GitHub told what it is, and jj told that its bookmark
/// stands at the change; where there is none, the remote has no branch of that name, so that nothing is
/// pushed over.
pub proof fn law_head_is_known(
    before: Seq<Event>,
    after: Seq<Event>,
    config: AppConfigView,
    github: GitHubContextView,
    change: ResolvedChangeView,
    all: Map<(Seq<char>, Seq<char>), PrCacheEntryView>,
    used: Seq<Seq<char>>,
    head: SubmitHeadView,
)
    requires
        heads::head_resolved(before, after, config, github, change, all, used, Ok(head)),
    ensures
        head_known(before.len() as int, after, config.remote, github.repo, change, head),
{
    let r = Ok::<SubmitHeadView, Seq<CauseView>>(head);
    let n = before.len() as int;
    let (mid, found) = choose|mid: Seq<Event>, found: Result<Option<SubmitHeadView>, Seq<CauseView>>|
        {
            &&& #[trigger] heads::head_discovered(
                before,
                mid,
                config,
                github,
                change,
                used,
                found,
            )
            &&& match found {
                Err(e) => record::stopped(mid, after, e, r),
                Ok(Some(head)) => after == mid && r == Ok::<_, Seq<CauseView>>(head),
                Ok(None) => heads::unfound_head_resolved(
                    mid,
                    after,
                    config,
                    github,
                    change,
                    all,
                    used,
                    r,
                ),
            }
        };
    lemma_head_discovered(before, mid, config, github, change, used, found);
    if found->Ok_0 is None {
        let key = (github.repo, change.change_id);
        if all.dom().contains(key) {
            let entry = all[key];
            let (told, cached) = choose|told: Seq<Event>, cached: Result<SubmitHeadView, Seq<CauseView>>|
                {
                    &&& #[trigger] heads::cached_head_resolved(
                        mid,
                        told,
                        config,
                        github.repo,
                        change,
                        entry,
                        used,
                        cached,
                    )
                    &&& match cached {
                        Ok(head) => after == told && r == Ok::<_, Seq<CauseView>>(head),
                        Err(e) => heads::fresh_head_resolved(
                            told + ui::failure_logged(
                                heads::stale_hint(change.change_id, entry.head_branch),
                                cached,
                            ),
                            after,
                            config,
                            github,
                            change,
                            used,
                            r,
                        ),
                    }
                };
            if cached is Ok {
                lemma_cached_head_resolved(
                    mid,
                    after,
                    config,
                    github.repo,
                    change,
                    entry,
                    used,
                    head,
                );
                lemma_known_earlier(n, mid.len() as int, after, config.remote, github.repo, change, head);
            } else {
                let start = told + ui::failure_logged(
                    heads::stale_hint(change.change_id, entry.head_branch),
                    cached,
                );
                assert(told.len() >= mid.len()) by {
                    broadcast use crate::asking::asks_cached_head_resolved;

                    assert(quiet::quiet(mid, told));
                    reveal(quiet::quiet);
                }
                lemma_fresh_head_resolved(start, after, config, github, change, used, head);
                lemma_known_earlier(n, start.len() as int, after, config.remote, github.repo, change, head);
            }
        } else {
            lemma_fresh_head_resolved(mid, after, config, github, change, used, head);
            lemma_known_earlier(n, mid.len() as int, after, config.remote, github.repo, change, head);
        }
    }
}

proof fn lemma_known_earlier(
    from: int,
    at: int,
    log: Seq<Event>,
    remote: Seq<char>,
    repo: Seq<char>,
    change: ResolvedChangeView,
    head: SubmitHeadView,
)
    requires
        0 <= from <= at,
        head_known(at, log, remote, repo, change, head),
    ensures
        head_known(from, log, remote, repo, change, head),
{
    record::lemma_extends_refl(log);
    if head.existing_pr is Some {
        let entry = head.existing_pr->Some_0;
        lemma_local_stays(from, at, log, log, entry.head_branch, change.commit_id);
        lemma_request_stays(from, at, log, log, repo, entry);
    }
}

} // verus!
