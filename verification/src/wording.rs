//! What each command line that a command runs tells its program.

use vstd::prelude::*;

use crate::api;
use crate::bookmarks;
use crate::branches;
use crate::cleanup;
use crate::comments;
use crate::config;
use crate::context;
use crate::get;
use crate::heads;
use crate::model::{AppConfigView, GhPrView, SubmitPlanView};
use crate::planning;
use crate::polling;
use crate::pr;
use crate::reading;
use crate::reading::{Deed, deed_of, values_from};
use crate::ready;
use crate::rebase;
use crate::stack;
use crate::text;
use crate::trunk;
use crate::unfreeze;

verus! {

/// The frozen bookmarks are listed, each with its state and its commit.
pub proof fn law_frozen_listing()
    ensures
        deed_of("jj"@, bookmarks::frozen_list_args()) == (Deed::ListBookmarks {
            by: seq![],
            name: "forklift/frozen/*"@,
            shown: "name ++ \"\\t\" ++ if(conflict, \"conflicted\", \"ok\") ++ \"\\t\" ++ if(conflict, \"\", normal_target.commit_id()) ++ \"\\n\""@,
        }),
{
    reveal(deed_of);
    reading::lemma_words();
}

/// The question is whether the first commit lies below the second.
pub broadcast proof fn law_ancestor_question(
    ancestor: Seq<char>,
    descendant: Seq<char>,
)
    ensures
        deed_of("git"@, #[trigger] bookmarks::ancestor_args(ancestor, descendant)) == (Deed::TestAncestor { ancestor, descendant }),
{
    reveal(deed_of);
    reading::lemma_words();
}

/// The commits of a revset are listed by their ids.
pub broadcast proof fn law_commit_listing(
    revset: Seq<char>,
)
    ensures
        deed_of("jj"@, #[trigger] bookmarks::listed_args(revset)) == (Deed::ListCommits { revset, shown: "commit_id ++ \"\\n\""@, bottom_first: false }),
{
    reveal(deed_of);
    reading::lemma_words();
}

/// A branch of a remote is followed.
pub broadcast proof fn law_following(
    remote: Seq<char>,
    branch: Seq<char>,
)
    ensures
        deed_of("jj"@, #[trigger] bookmarks::follow_args(remote, branch)) == (Deed::TrackBookmark { remote, name: branch }),
{
    reveal(deed_of);
    reading::lemma_words();
}

/// A bookmark is deleted by its name.
pub broadcast proof fn law_deletion(
    bookmark: Seq<char>,
)
    ensures
        deed_of("jj"@, #[trigger] bookmarks::delete_args(bookmark)) == (Deed::DeleteBookmark { name: bookmark }),
{
    reveal(deed_of);
    reading::lemma_words();
}

/// A branch is forgotten by its name.
pub broadcast proof fn law_forgetting(
    branch: Seq<char>,
)
    ensures
        deed_of("jj"@, #[trigger] bookmarks::forget_args(branch)) == (Deed::ForgetBookmark { name: branch }),
{
    reveal(deed_of);
    reading::lemma_words();
}

/// The question is what a template shows of a revision.
pub broadcast proof fn law_revision_question(
    rev: Seq<char>,
    template: Seq<char>,
)
    ensures
        deed_of("jj"@, #[trigger] bookmarks::ref_args(rev, template)) == (Deed::ListCommits { revset: rev, shown: template, bottom_first: false }),
{
    reveal(deed_of);
    reading::lemma_words();
}

/// All bookmarks of all remotes are listed.
pub proof fn law_remote_listing()
    ensures
        deed_of("jj"@, bookmarks::remote_list_args()) == (Deed::ListBookmarks {
            by: "--all-remotes"@,
            name: seq![],
            shown: "name ++ \"\\t\" ++ remote ++ \"\\t\" ++ if(tracked, \"tracked\", \"untracked\") ++ \"\\t\" ++ if(conflict, \"conflicted\", \"ok\") ++ \"\\t\" ++ if(conflict, \"\", normal_target.commit_id()) ++ \"\\n\""@,
        }),
{
    reveal(deed_of);
    reading::lemma_words();
}

/// The state of one bookmark on all remotes is listed.
pub broadcast proof fn law_status_question(
    branch: Seq<char>,
)
    ensures
        deed_of("jj"@, #[trigger] bookmarks::status_args(branch)) == (Deed::ListBookmarks {
            by: "--all-remotes"@,
            name: branch,
            shown: "remote ++ \"\\t\" ++ if(tracked, \"tracked\", \"untracked\") ++ \"\\t\" ++ if(conflict, \"conflicted\", \"ok\") ++ \"\\n\""@,
        }),
{
    reveal(deed_of);
    reading::lemma_words();
}

/// The bookmarks are listed as a template shows them.
pub broadcast proof fn law_local_listing(
    template: Seq<char>,
)
    ensures
        deed_of("jj"@, #[trigger] bookmarks::local_list_args(template)) == (Deed::ListBookmarks { by: seq![], name: seq![], shown: template }),
{
    reveal(deed_of);
    reading::lemma_words();
}

/// The bookmarks at a commit are listed.
pub broadcast proof fn law_listing_at_commit(
    commit: Seq<char>,
)
    ensures
        deed_of("jj"@, #[trigger] bookmarks::revision_list_args(commit)) == (Deed::ListBookmarks {
            by: "--revision"@,
            name: commit,
            shown: "name ++ \"\\t\" ++ remote ++ \"\\n\""@,
        }),
{
    reveal(deed_of);
    reading::lemma_words();
}

/// The frozen bookmark of a pull request is put at its head commit.
pub broadcast proof fn law_freezing(
    pr: GhPrView,
)
    ensures
        deed_of("jj"@, #[trigger] bookmarks::set_frozen_args(pr)) == (Deed::SetBookmark {
            name: "forklift/frozen/pr-"@ + text::decimal(pr.number as nat),
            at: pr.head_ref_oid,
            backwards: false,
        }),
{
    reveal(deed_of);
    reading::lemma_words();
}

/// The open pull requests onto a branch are listed.
pub broadcast proof fn law_based_question(
    repo: Seq<char>,
    branch: Seq<char>,
)
    ensures
        deed_of("gh"@, #[trigger] cleanup::based_prs_args(repo, branch)) == (Deed::ListRequests {
            repo,
            by: "--base"@,
            name: branch,
            state: "open"@,
            shown: "number"@,
        }),
{
    reveal(deed_of);
    reading::lemma_words();
}

/// All comments of a pull request are read.
pub broadcast proof fn law_comments_question(
    repo: Seq<char>,
    number: u64,
)
    ensures
        deed_of("gh"@, #[trigger] comments::comments_args(repo, number)) == (Deed::Fetched {
            path: "repos/"@ + repo + "/issues/"@ + text::decimal(number as nat) + "/comments"@,
            query: ".[] | {id,body,userLogin:.user.login,updatedAt:.updated_at} | @json"@,
            pages: true,
        }),
{
    reveal(deed_of);
    reading::lemma_words();
}

/// A setting is asked of jj under the name of this program.
pub broadcast proof fn law_setting_question(
    name: Seq<char>,
)
    ensures
        deed_of("jj"@, #[trigger] config::jj_setting_args(name)) == (Deed::GetSetting { key: "stack."@ + name }),
{
    reveal(deed_of);
    reading::lemma_words();
    lemma_setting_key(name);
}

/// A setting is asked of git under the name of this program.
pub broadcast proof fn law_git_setting_question(
    name: Seq<char>,
)
    ensures
        deed_of("git"@, #[trigger] config::git_setting_args(name)) == (Deed::GetSetting { key: "stack."@ + name }),
{
    reveal(deed_of);
    reading::lemma_words();
    lemma_setting_key(name);
}

/// A setting of jj is asked.
pub broadcast proof fn law_jj_setting_question(
    key: Seq<char>,
)
    ensures
        deed_of("jj"@, #[trigger] config::config_get_args(key)) == (Deed::GetSetting { key }),
{
    reveal(deed_of);
    reading::lemma_words();
}

/// A setting of the repository gets a value.
pub broadcast proof fn law_setting(
    key: Seq<char>,
    quoted: Seq<char>,
)
    ensures
        deed_of("jj"@, #[trigger] config::config_set_args(key, quoted)) == (Deed::SetSetting { key, value: quoted }),
{
    reveal(deed_of);
    reading::lemma_words();
}

/// The login of the user is read.
pub proof fn law_user_question()
    ensures
        deed_of("gh"@, context::user_args()) == (Deed::Fetched { path: "user"@, query: ".login"@, pages: false }),
{
    reveal(deed_of);
    reading::lemma_words();
}

/// A new change begins on a revision.
pub broadcast proof fn law_beginning(
    rev: Seq<char>,
)
    ensures
        deed_of("jj"@, #[trigger] get::new_args(rev)) == (Deed::NewChange { on: rev }),
{
    reveal(deed_of);
    reading::lemma_words();
}

/// The question is where a branch stands on a remote.
pub broadcast proof fn law_remote_head_question(
    remote: Seq<char>,
    branch: Seq<char>,
)
    ensures
        deed_of("git"@, #[trigger] heads::remote_head_args(remote, branch)) == (Deed::FindRemoteHead { remote, branch }),
{
    reveal(deed_of);
    reading::lemma_words();
}

/// The question is where two histories meet.
pub broadcast proof fn law_fork_question(
    left: Seq<char>,
    right: Seq<char>,
)
    ensures
        deed_of("git"@, #[trigger] planning::merge_base_args(left, right)) == (Deed::FindFork { left, right }),
{
    reveal(deed_of);
    reading::lemma_words();
}

/// The bookmark of a plan is put at the commit of its change.
pub broadcast proof fn law_pointing(
    plan: SubmitPlanView,
)
    ensures
        deed_of("jj"@, #[trigger] planning::set_head_args(plan)) == (Deed::SetBookmark {
            name: plan.head_branch,
            at: plan.change.commit_id,
            backwards: true,
        }),
{
    reveal(deed_of);
    reading::lemma_words();
}

/// The bookmark of a plan is pushed alone.
pub broadcast proof fn law_pushing(
    remote: Seq<char>,
    plan: SubmitPlanView,
)
    ensures
        deed_of("jj"@, #[trigger] planning::push_head_args(remote, plan)) == (Deed::Push { remote, bookmarks: seq![plan.head_branch] }),
{
    reveal(deed_of);
    reading::lemma_words();
    let args = planning::push_head_args(remote, plan);
    lemma_values(args, "--bookmark"@, 4, seq![plan.head_branch]);
}

/// The state of a pull request is read.
pub broadcast proof fn law_state_question(
    repo: Seq<char>,
    number: u64,
)
    ensures
        deed_of("gh"@, #[trigger] polling::pr_state_args(repo, number)) == (Deed::ShowRequest {
            repo,
            number: text::decimal(number as nat),
            shown: "state"@,
        }),
{
    reveal(deed_of);
    reading::lemma_words();
}

/// The change ids of a revision are listed.
pub broadcast proof fn law_change_question(
    rev: Seq<char>,
)
    ensures
        deed_of("jj"@, #[trigger] pr::change_id_args(rev)) == (Deed::ListCommits { revset: rev, shown: "change_id ++ \"\\n\""@, bottom_first: false }),
{
    reveal(deed_of);
    reading::lemma_words();
}

/// One pull request is read.
pub broadcast proof fn law_request_question(
    repo: Seq<char>,
    number: u64,
)
    ensures
        deed_of("gh"@, #[trigger] pr::pr_args(repo, number)) == (Deed::Fetched {
            path: "repos/"@ + repo + "/pulls/"@ + text::decimal(number as nat),
            query: "{number,state,merged,headRefName:.head.ref,baseRefName:.base.ref,headRefOid:.head.sha,baseRefOid:.base.sha,title,body,createdAt:.created_at,id:.node_id,headRepository:{id:(.head.repo.id|tostring),node_id:.head.repo.node_id,nameWithOwner:.head.repo.full_name},baseRepository:{id:(.base.repo.id|tostring),node_id:.base.repo.node_id,nameWithOwner:.base.repo.full_name},author:{login:.user.login}}"@,
            pages: false,
        }),
{
    reveal(deed_of);
    reading::lemma_words();
    reveal_strlit("repos/");
    assert(pr::pr_args(repo, number)[1][0] == 'r');
    lemma_path(pr::pr_args(repo, number)[1]);
}

/// The open pull requests of a repository are listed, up to two hundred.
pub broadcast proof fn law_open_question(
    repo: Seq<char>,
)
    ensures
        deed_of("gh"@, #[trigger] pr::open_prs_args(repo)) == (Deed::ListRequests {
            repo,
            by: "--limit"@,
            name: "200"@,
            state: "open"@,
            shown: "number,state,headRefName,baseRefName,headRefOid,baseRefOid,title,body,createdAt,id,author,headRepository"@,
        }),
{
    reveal(deed_of);
    reading::lemma_words();
}

/// The open pull requests from a branch are listed.
pub broadcast proof fn law_head_question(
    repo: Seq<char>,
    head_branch: Seq<char>,
)
    ensures
        deed_of("gh"@, #[trigger] pr::head_pr_args(repo, head_branch)) == (Deed::ListRequests {
            repo,
            by: "--head"@,
            name: head_branch,
            state: "open"@,
            shown: "number,state,headRefName,baseRefName,headRefOid,baseRefOid,title,body,createdAt,id,author,headRepository"@,
        }),
{
    reveal(deed_of);
    reading::lemma_words();
}

/// One pull request is read with all that a merge depends on.
pub broadcast proof fn law_merge_question(
    repo: Seq<char>,
    number: u64,
)
    ensures
        deed_of("gh"@, #[trigger] ready::merge_pr_args(repo, number)) == (Deed::ShowRequest {
            repo,
            number: text::decimal(number as nat),
            shown: "number,state,headRefName,baseRefName,headRefOid,baseRefOid,title,body,createdAt,isDraft,reviewDecision,mergeable,mergeStateStatus,statusCheckRollup,autoMergeRequest"@,
        }),
{
    reveal(deed_of);
    reading::lemma_words();
}

/// A commit moves with all that stands on it.
pub broadcast proof fn law_moving(
    source: Seq<char>,
    onto: Seq<char>,
)
    ensures
        deed_of("jj"@, #[trigger] rebase::rebase_source_args(source, onto)) == (Deed::RebaseTree { source, onto }),
{
    reveal(deed_of);
    reading::lemma_words();
}

/// Just the commits of a revset move.
pub broadcast proof fn law_moving_some(
    revset: Seq<char>,
    onto: Seq<char>,
)
    ensures
        deed_of("jj"@, #[trigger] rebase::rebase_set_args(revset, onto)) == (Deed::RebaseSet { revset, onto }),
{
    reveal(deed_of);
    reading::lemma_words();
}

/// The question is which commit a name stands for.
pub broadcast proof fn law_name_question(
    rev: Seq<char>,
)
    ensures
        deed_of("git"@, #[trigger] rebase::rev_parse_args(rev)) == (Deed::ParseRevision { rev }),
{
    reveal(deed_of);
    reading::lemma_words();
}

/// The question is which tree a commit has.
pub broadcast proof fn law_tree_question(
    commit_id: Seq<char>,
)
    ensures
        deed_of("git"@, #[trigger] stack::tree_args(commit_id)) == (Deed::ShowTree { commit: commit_id }),
{
    reveal(deed_of);
    reading::lemma_words();
}

/// The changes of a revset are listed, bottom first.
pub broadcast proof fn law_stack_question(
    revset: Seq<char>,
)
    ensures
        deed_of("jj"@, #[trigger] stack::stack_args(revset)) == (Deed::ListCommits {
            revset,
            shown: "json(change_id) ++ \"\\x1f\" ++ json(commit_id) ++ \"\\x1f\" ++ json(parents.map(|c| c.commit_id())) ++ \"\\x1f\" ++ json(description.first_line()) ++ \"\\x1f\" ++ json(description) ++ \"\\x1f\" ++ json(empty) ++ \"\\x1f\" ++ json(conflict) ++ \"\\x1f\" ++ json(divergent) ++ \"\\x1e\""@,
            bottom_first: true,
        }),
{
    reveal(deed_of);
    reading::lemma_words();
}

/// The commits of a revision are listed by their ids.
pub broadcast proof fn law_commit_question(
    rev: Seq<char>,
)
    ensures
        deed_of("jj"@, #[trigger] stack::single_rev_args(rev)) == (Deed::ListCommits { revset: rev, shown: "commit_id ++ \"\\n\""@, bottom_first: false }),
{
    reveal(deed_of);
    reading::lemma_words();
}

/// A pull request goes onto trunk.
pub broadcast proof fn law_repointing(
    repo: Seq<char>,
    number: u64,
    base: Seq<char>,
)
    ensures
        deed_of("gh"@, #[trigger] trunk::repoint_args(repo, number, base)) == (Deed::Request {
            method: "PATCH"@,
            path: "repos/"@ + repo + "/pulls/"@ + text::decimal(number as nat),
            fields: seq!["base="@ + base],
        }),
{
    reveal(deed_of);
    reading::lemma_words();
    lemma_values(trunk::repoint_args(repo, number, base), "-f"@, 4, seq!["base="@ + base]);
}

/// Trunk is put at a revision.
pub broadcast proof fn law_trunk_setting(
    name: Seq<char>,
    rev: Seq<char>,
)
    ensures
        deed_of("jj"@, #[trigger] trunk::set_trunk_args(name, rev)) == (Deed::SetBookmark { name, at: rev, backwards: false }),
{
    reveal(deed_of);
    reading::lemma_words();
}

/// Trunk is pushed alone.
pub broadcast proof fn law_trunk_pushing(
    config: AppConfigView,
)
    ensures
        deed_of("jj"@, #[trigger] trunk::push_trunk_args(config)) == (Deed::Push { remote: config.remote, bookmarks: seq![config.trunk] }),
{
    reveal(deed_of);
    reading::lemma_words();
    lemma_values(trunk::push_trunk_args(config), "--bookmark"@, 4, seq![config.trunk]);
}

/// The question is where the trunk of the remote stands for jj.
pub broadcast proof fn law_trunk_question(
    config: AppConfigView,
)
    ensures
        deed_of("jj"@, #[trigger] trunk::trunk_commit_args(config)) == (Deed::ListCommits {
            revset: config.trunk + "@"@ + config.remote,
            shown: "commit_id"@,
            bottom_first: false,
        }),
{
    reveal(deed_of);
    reading::lemma_words();
}

/// All branches of a remote are fetched.
pub broadcast proof fn law_fetching(
    remote: Seq<char>,
)
    ensures
        deed_of("jj"@, #[trigger] trunk::fetch_args_of(remote)) == (Deed::Fetch { remote, branches: seq![] }),
{
    reveal(deed_of);
    reading::lemma_words();
}

/// The question is whether the user may push.
pub broadcast proof fn law_permission_question(
    repo: Seq<char>,
)
    ensures
        deed_of("gh"@, #[trigger] unfreeze::permission_args(repo)) == (Deed::Fetched {
            path: "repos/"@ + repo,
            query: ".permissions.push"@,
            pages: false,
        }),
{
    reveal(deed_of);
    reading::lemma_words();
    reveal_strlit("repos/");
    assert(unfreeze::permission_args(repo)[1][0] == 'r');
    lemma_path(unfreeze::permission_args(repo)[1]);
}

/// The question is whether a revision is immutable.
pub broadcast proof fn law_mutability_question(
    rev: Seq<char>,
)
    ensures
        deed_of("jj"@, #[trigger] unfreeze::immutable_args(rev)) == (Deed::ListCommits { revset: rev, shown: "immutable"@, bottom_first: false }),
{
    reveal(deed_of);
    reading::lemma_words();
}

/// A pull request gets another base, and nothing else.
pub broadcast proof fn law_retargeting(
    repo: Seq<char>,
    number: u64,
    base: Seq<char>,
)
    ensures
        deed_of("gh"@, #[trigger] api::retarget_args(repo, number, base)) == (Deed::Request {
            method: "PATCH"@,
            path: "repos/"@ + repo + "/pulls/"@ + text::decimal(number as nat),
            fields: seq!["base="@ + base],
        }),
{
    reveal(deed_of);
    reading::lemma_words();
    reveal_with_fuel(values_from, 3);
    let args = api::retarget_args(repo, number, base);
    assert(values_from(args, "-f"@, 4) =~= seq!["base="@ + base]);
}

/// The branches named are pushed, which deletes those that were deleted here.
pub broadcast proof fn law_deletion_pushing(
    remote: Seq<char>,
    names: Seq<Seq<char>>,
)
    ensures
        deed_of("jj"@, #[trigger] bookmarks::deletion_args(remote, names)) == (Deed::Push { remote, bookmarks: names }),
{
    reveal(deed_of);
    reading::lemma_words();
    lemma_deletion_line(remote, names);
    lemma_values(bookmarks::deletion_args(remote, names), "--bookmark"@, 4, names);
}

/// The fetch of a stack names the head branch of each of its pull requests, in order, and no other.
pub broadcast proof fn law_stack_fetching(
    remote: Seq<char>,
    prs: Seq<GhPrView>,
)
    ensures
        deed_of("jj"@, #[trigger] branches::fetch_branches_args(remote, prs)) == (Deed::Fetch {
            remote,
            branches: Seq::new(prs.len(), |i: int| prs[i].head_ref_name),
        }),
{
    reveal(deed_of);
    reading::lemma_words();
    let names = Seq::new(prs.len(), |i: int| prs[i].head_ref_name);
    let args = branches::fetch_branches_args(remote, prs);
    lemma_branch_flags(prs);
    let flags = branches::branch_flags(prs);
    assert forall|j: int| 0 <= j < names.len() implies pair_at(
        args,
        "--branch"@,
        4 + 2 * j,
        #[trigger] names[j],
    ) by {
        assert(pair_at(flags, "--branch"@, 2 * j, prs[j].head_ref_name));
        assert(args[4 + 2 * j] == flags[2 * j]);
        assert(args[4 + 2 * j + 1] == flags[2 * j + 1]);
    }
    lemma_values(args, "--branch"@, 4, names);
    if prs.len() > 0 {
        assert(names.len() > 0);
    }
}

proof fn lemma_setting_key(name: Seq<char>)
    ensures
        config::config_key(name) == "stack."@ + name,
{
    reveal_strlit("stack");
    reveal_strlit(".");
    reveal_strlit("stack.");
    assert("stack"@ + "."@ =~= "stack."@);
    assert(config::config_key(name) =~= "stack."@ + name);
}

proof fn lemma_path(path: Seq<char>)
    requires
        path.len() > 0,
        path[0] == 'r',
    ensures
        path != "-X"@,
{
    reveal_strlit("-X");
}

/// An option and its value stand at `i`.
spec fn pair_at(args: Seq<Seq<char>>, option: Seq<char>, i: int, value: Seq<char>) -> bool {
    args[i] == option && args[i + 1] == value
}

proof fn lemma_values(args: Seq<Seq<char>>, option: Seq<char>, i: int, names: Seq<Seq<char>>)
    requires
        0 <= i,
        args.len() == i + 2 * names.len(),
        forall|j: int| 0 <= j < names.len() ==> pair_at(args, option, i + 2 * j, #[trigger] names[j]),
    ensures
        values_from(args, option, i) == names,
    decreases names.len(),
{
    if names.len() > 0 {
        let rest = names.drop_first();
        assert(pair_at(args, option, i, names[0]));
        assert forall|j: int| 0 <= j < rest.len() implies pair_at(
            args,
            option,
            (i + 2) + 2 * j,
            #[trigger] rest[j],
        ) by {
            assert(pair_at(args, option, i + 2 * (j + 1), names[j + 1]));
            assert(i + 2 * (j + 1) == (i + 2) + 2 * j);
        }
        lemma_values(args, option, i + 2, rest);
        assert(seq![args[i + 1]] + rest =~= names);
    } else {
        assert(names =~= seq![]);
    }
}

proof fn lemma_deletion_line(remote: Seq<char>, names: Seq<Seq<char>>)
    ensures
        ({
            let args = bookmarks::deletion_args(remote, names);
            &&& args.len() == 4 + 2 * names.len()
            &&& args[0] == "git"@ && args[1] == "push"@ && args[2] == "--remote"@ && args[3] == remote
            &&& forall|j: int|
                0 <= j < names.len() ==> pair_at(args, "--bookmark"@, 4 + 2 * j, #[trigger] names[j])
        }),
    decreases names.len(),
{
    if names.len() > 0 {
        let front = names.drop_last();
        lemma_deletion_line(remote, front);
        let args = bookmarks::deletion_args(remote, names);
        let less = bookmarks::deletion_args(remote, front);
        assert(args =~= less + seq!["--bookmark"@, names.last()]);
        assert forall|j: int| 0 <= j < names.len() implies pair_at(
            args,
            "--bookmark"@,
            4 + 2 * j,
            #[trigger] names[j],
        ) by {
            if j < front.len() {
                assert(pair_at(less, "--bookmark"@, 4 + 2 * j, front[j]));
            }
        }
    }
}

proof fn lemma_branch_flags(prs: Seq<GhPrView>)
    ensures
        branches::branch_flags(prs).len() == 2 * prs.len(),
        forall|j: int|
            0 <= j < prs.len() ==> pair_at(
                branches::branch_flags(prs),
                "--branch"@,
                2 * j,
                (#[trigger] prs[j]).head_ref_name,
            ),
    decreases prs.len(),
{
    if prs.len() > 0 {
        let front = prs.drop_last();
        lemma_branch_flags(front);
        let flags = branches::branch_flags(prs);
        let less = branches::branch_flags(front);
        assert forall|j: int| 0 <= j < prs.len() implies pair_at(
            flags,
            "--branch"@,
            2 * j,
            (#[trigger] prs[j]).head_ref_name,
        ) by {
            if j < front.len() {
                assert(pair_at(less, "--branch"@, 2 * j, front[j].head_ref_name));
            }
        }
    }
}

pub broadcast group group_wording {
    law_ancestor_question,
    law_commit_listing,
    law_following,
    law_deletion,
    law_forgetting,
    law_revision_question,
    law_status_question,
    law_local_listing,
    law_listing_at_commit,
    law_freezing,
    law_based_question,
    law_comments_question,
    law_setting_question,
    law_git_setting_question,
    law_jj_setting_question,
    law_setting,
    law_beginning,
    law_remote_head_question,
    law_fork_question,
    law_pointing,
    law_pushing,
    law_state_question,
    law_change_question,
    law_request_question,
    law_open_question,
    law_head_question,
    law_merge_question,
    law_moving,
    law_moving_some,
    law_name_question,
    law_tree_question,
    law_stack_question,
    law_commit_question,
    law_repointing,
    law_trunk_setting,
    law_trunk_pushing,
    law_trunk_question,
    law_fetching,
    law_permission_question,
    law_mutability_question,
    law_retargeting,
    law_deletion_pushing,
    law_stack_fetching,
}

} // verus!
