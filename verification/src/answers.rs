//! What is believed of what a program answered.

use vstd::prelude::*;

use crate::bookmarks;
use crate::cleanup;
use crate::config;
use crate::context;
use crate::error::CauseView;
use crate::heads;
use crate::model::{AppConfigView, GitHubContextView};
use crate::outside;
use crate::output;
use crate::planning;
use crate::polling;
use crate::pr;
use crate::reading::{Deed, deed};
use crate::rebase;
use crate::record;
use crate::record::{Event, Reply};
use crate::stack;
use crate::text;
use crate::trunk;
use crate::unfreeze;
use crate::wording;

verus! {

/// The program ran and said that it succeeded.
pub open spec fn succeeded(reply: Reply) -> bool {
    reply is Ok && (reply->Ok_0).success
}

/// What the program printed, where it ran.
pub open spec fn printed(reply: Reply) -> Seq<char> {
    (reply->Ok_0).stdout
}

/// The program succeeded, and printed just this, set apart by space or by nothing.
pub open spec fn told(reply: Reply, word: Seq<char>) -> bool {
    succeeded(reply) && word.len() > 0 && text::trim(printed(reply)) == word
}

/// The law of success: an answer counts only where the program succeeded, and it counts unchanged.
pub proof fn law_only_success_counts(
    program: Seq<char>,
    args: Seq<Seq<char>>,
    branch: Seq<char>,
    reply: Reply,
)
    ensures
        output::checked(program, args, reply) is Ok <==> succeeded(reply),
        succeeded(reply) ==> output::checked(program, args, reply) == reply,
        trunk::done_or_failed(program, args, reply) is Ok <==> succeeded(reply),
        planning::push_result(branch, args, reply) is Ok <==> succeeded(reply),
        reply is Err ==> output::checked(program, args, reply) == reply,
{
}

/// The law of the required word: where an output is required, the answer is the word that the program
/// told, and there is none where it failed or printed nothing but space.
pub proof fn law_required_answer_is_the_word(
    program: Seq<char>,
    args: Seq<Seq<char>>,
    reply: Reply,
    word: Seq<char>,
)
    ensures
        output::required_output(program, args, reply) == Ok::<Seq<char>, Seq<CauseView>>(word)
            <==> told(reply, word),
{
}

/// The law of the asked commits: the commit of a name, of a remote trunk, of a bookmark, the fork of two
/// commits, and the tree of a commit are the word that the program told, and nothing else.
pub proof fn law_asked_commit_is_the_word(
    config: AppConfigView,
    rev: Seq<char>,
    other: Seq<char>,
    reply: Reply,
    word: Seq<char>,
)
    ensures
        rebase::rev_parse_result(rev, reply) == Ok::<Seq<char>, Seq<CauseView>>(word) <==> told(
            reply,
            word,
        ),
        trunk::trunk_commit_result(config, reply) == Ok::<Seq<char>, Seq<CauseView>>(word)
            <==> told(reply, word),
        bookmarks::ref_commit_result(rev, reply) == Ok::<Seq<char>, Seq<CauseView>>(word)
            <==> told(reply, word),
        planning::merge_base_result(rev, other, reply) == Ok::<Seq<char>, Seq<CauseView>>(word)
            <==> told(reply, word),
        stack::tree_result(rev, reply) == Ok::<Seq<char>, Seq<CauseView>>(word) <==> told(
            reply,
            word,
        ),
{
}

/// The law of the one commit: a revision stands for a commit just where the program listed that commit
/// and no other; a revset stands for all the commits that it listed.
pub proof fn law_single_commit_is_the_only_one(
    rev: Seq<char>,
    reply: Reply,
    commit: Seq<char>,
    commits: Seq<Seq<char>>,
)
    ensures
        stack::single_commit(rev, reply) == Ok::<Seq<char>, Seq<CauseView>>(commit) <==> succeeded(
            reply,
        ) && text::filled_lines(printed(reply)) == seq![commit],
        bookmarks::listed_commits(rev, reply) == Ok::<Seq<Seq<char>>, Seq<CauseView>>(commits)
            <==> succeeded(reply) && text::filled_lines(printed(reply)) == commits,
{
    if text::filled_lines(printed(reply)).len() == 1 {
        assert(text::filled_lines(printed(reply)) =~= seq![
            text::filled_lines(printed(reply))[0],
        ]);
    }
}

/// The law of the remote head: the head of a branch on the remote is the first word of the one row that
/// git printed; it is absent where git printed none, and unknown otherwise.
pub proof fn law_remote_head_is_the_first_word(
    remote: Seq<char>,
    branch: Seq<char>,
    reply: Reply,
    commit: Seq<char>,
    rest: Seq<char>,
)
    ensures
        heads::remote_head_result(remote, branch, reply) == Ok::<
            Option<Seq<char>>,
            Seq<CauseView>,
        >(None) <==> succeeded(reply) && text::filled_lines(printed(reply)).len() == 0,
        heads::remote_head_result(remote, branch, reply) is Ok <==> succeeded(reply)
            && text::filled_lines(printed(reply)).len() <= 1,
        succeeded(reply) && text::filled_lines(printed(reply)) == seq![commit + rest] && (
        forall|i: int| 0 <= i < commit.len() ==> !text::is_space(#[trigger] commit[i])) && (
        rest.len() > 0 ==> text::is_space(rest[0])) ==> heads::remote_head_result(
            remote,
            branch,
            reply,
        ) == Ok::<Option<Seq<char>>, Seq<CauseView>>(Some(commit)),
{
    if (forall|i: int| 0 <= i < commit.len() ==> !text::is_space(#[trigger] commit[i])) && (
    rest.len() > 0 ==> text::is_space(rest[0])) {
        lemma_first_word(commit, rest);
    }
}

proof fn lemma_first_word(word: Seq<char>, rest: Seq<char>)
    requires
        forall|i: int| 0 <= i < word.len() ==> !text::is_space(#[trigger] word[i]),
        rest.len() > 0 ==> text::is_space(rest[0]),
    ensures
        heads::first_word(word + rest) == word,
    decreases word.len(),
{
    if word.len() == 0 {
        assert(word + rest =~= rest);
    } else {
        assert((word + rest).drop_first() =~= word.drop_first() + rest);
        assert forall|i: int| 0 <= i < word.drop_first().len() implies !text::is_space(
            #[trigger] word.drop_first()[i],
        ) by {
            assert(word.drop_first()[i] == word[i + 1]);
        }
        lemma_first_word(word.drop_first(), rest);
        assert(seq![word[0]] + word.drop_first() =~= word);
    }
}

/// The law of yes and no: a test of git says yes just where git succeeded; GitHub grants the right to
/// push just where it printed `true`; jj calls a commit changeable just where it printed `false`; and a
/// request counts as merged just where GitHub printed `merged`, in whatever case.
pub proof fn law_yes_is_what_was_told(
    github: GitHubContextView,
    rev: Seq<char>,
    repo: Seq<char>,
    number: u64,
    reply: Reply,
)
    ensures
        bookmarks::success_of(reply) == Ok::<bool, Seq<CauseView>>(true) <==> succeeded(reply),
        bookmarks::success_of(reply) is Ok <==> reply is Ok,
        unfreeze::permission_result(github, reply) is Ok <==> told(reply, "true"@),
        unfreeze::mutable_result(rev, reply) is Ok <==> told(reply, "false"@),
        polling::merged_result(repo, number, reply) == Ok::<bool, Seq<CauseView>>(true)
            <==> succeeded(reply) && text::lower_all(text::trim(printed(reply))) == text::lower_all(
            "merged"@,
        ),
        polling::merged_result(repo, number, reply) is Ok <==> succeeded(reply),
{
    reveal_strlit("true");
    reveal_strlit("false");
    reveal_strlit("MERGED");
    reveal_strlit("merged");
    assert(text::lower_all("MERGED"@) =~= text::lower_all("merged"@));
}

/// The law of the unbased branch: no open request is based on a branch just where GitHub listed none;
/// an answer that is no list tells nothing.
pub proof fn law_unbased_is_an_empty_list(repo: Seq<char>, branch: Seq<char>, reply: Reply)
    ensures
        cleanup::based_result(repo, branch, reply) == Ok::<bool, Seq<CauseView>>(false)
            <==> succeeded(reply) && outside::json_array(text::trim(printed(reply))) is Ok && (
        outside::json_array(text::trim(printed(reply)))->Ok_0).len() == 0,
        cleanup::based_result(repo, branch, reply) == Ok::<bool, Seq<CauseView>>(true)
            <==> succeeded(reply) && outside::json_array(text::trim(printed(reply))) is Ok && (
        outside::json_array(text::trim(printed(reply)))->Ok_0).len() > 0,
{
}

/// The law of the settings: a setting is the word that the program told, and it is not set where the
/// program failed or printed nothing.
pub proof fn law_setting_is_the_word(key: Seq<char>, reply: Reply, word: Seq<char>)
    ensures
        config::setting_answer(reply) == Some(word) <==> told(reply, word),
        config::optional_alias(reply) == Ok::<Option<Seq<char>>, Seq<CauseView>>(Some(word))
            <==> told(reply, word),
        config::required_alias(key, reply) == Ok::<Seq<char>, Seq<CauseView>>(word) <==> succeeded(
            reply,
        ) && text::trim(printed(reply)) == word,
{
    if text::is_blank(printed(reply)) {
        assert(text::trim(printed(reply)) =~= seq![]);
    }
}

/// The law of the working copy: its change is the first that jj listed.
pub proof fn law_current_change_is_the_first(reply: Reply, id: Seq<char>)
    ensures
        pr::current_change_result(reply) == Ok::<Seq<char>, Seq<CauseView>>(id) <==> succeeded(reply)
            && text::filled_lines(printed(reply)).len() > 0 && text::filled_lines(
            printed(reply),
        )[0] == id,
{
}

/// The law of the repository: the repository is the one that `gh` told of when asked for its name with its
/// owner, and the user is the one that it told of when asked who is logged in.
pub proof fn law_github_is_what_gh_told(
    before: Seq<Event>,
    after: Seq<Event>,
    github: GitHubContextView,
)
    requires
        context::github_resolved(before, after, Ok(github)),
    ensures
        ({
            let n = before.len() as int;
            &&& after.len() == n + 2
            &&& record::extends(before, after)
            &&& after[n] is Call
            &&& after[n]->Call_program == "gh"@
            &&& after[n]->Call_args.take(2) == seq!["repo"@, "view"@]
            &&& after[n]->Call_args.last() == ".nameWithOwner"@
            &&& told(after[n]->Call_reply, github.repo)
            &&& deed(after[n + 1]) == (Deed::Fetched {
                path: "user"@,
                query: ".login"@,
                pages: false,
            })
            &&& told(record::reply_of(after[n + 1]), github.username)
        }),
{
    let n = before.len() as int;
    wording::law_user_question();
    assert(after[n] is Call && after[n + 1] is Call) by {
        reveal(record::in_place);
    }
    assert(after[n]->Call_args.take(2) =~= seq!["repo"@, "view"@]);
}

} // verus!
