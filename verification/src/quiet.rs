//! What a command may do without changing anything.

use vstd::prelude::*;

use crate::comments;
use crate::comments::STACK_COMMENT_JQ;
use crate::context;
use crate::error::CauseView;
use crate::pr;
use crate::pr::PR_API_JQ;
use crate::record;
use crate::record::Event;
use crate::ui;
use crate::unfreeze;

verus! {

broadcast use crate::record::group_record;

/// Whether a run of this program only asks: it reads from the repository or from GitHub.
pub open spec fn only_asks(program: Seq<char>, args: Seq<Seq<char>>) -> bool {
    ||| program == "jj"@ && args.len() > 0 && (args[0] == "log"@ || args[0] == "root"@)
    ||| program == "jj"@ && args.len() > 1 && args[0] == "config"@ && args[1] == "get"@
    ||| program == "jj"@ && args.len() > 1 && args[0] == "bookmark"@ && args[1] == "list"@
    ||| program == "git"@ && args.len() > 0 && (args[0] == "rev-parse"@ || args[0]
        == "merge-base"@ || args[0] == "ls-remote"@ || args[0] == "show"@)
    ||| program == "git"@ && args.len() > 1 && args[0] == "config"@ && args[1] == "--get"@
    ||| program == "gh"@ && args.len() > 1 && args[0] == "repo"@ && args[1] == "view"@
    ||| program == "gh"@ && args.len() > 1 && args[0] == "pr"@ && (args[1] == "list"@ || args[1]
        == "view"@)
    ||| program == "gh"@ && args.len() > 0 && args[0] == "api"@ && !writes(args)
}

/// Whether a word tells `gh api` to do more than to read: to use another method, or to send fields or
/// a document.
pub open spec fn is_writing_flag(word: Seq<char>) -> bool {
    ||| word == "-X"@
    ||| word == "--method"@
    ||| word == "-f"@
    ||| word == "-F"@
    ||| word == "--field"@
    ||| word == "--raw-field"@
    ||| word == "--input"@
}

/// Whether one of the arguments tells `gh api` to do more than to read.
#[verifier::opaque]
pub open spec fn writes(args: Seq<Seq<char>>) -> bool {
    exists|i: int| 0 <= i < args.len() && is_writing_flag(#[trigger] args[i])
}

/// Whether a meeting changes nothing: a question, an answer, a pause, a line of output, a file or a
/// cache that was read, or a program that only asks.
pub open spec fn harmless(event: Event) -> bool {
    match event {
        Event::Call { program, args, .. } => only_asks(program, args),
        Event::Attached { .. } => false,
        Event::CacheWritten { .. } => false,
        _ => true,
    }
}

/// Whether nothing was changed between `before` and `after`.
#[verifier::opaque]
pub open spec fn quiet(before: Seq<Event>, after: Seq<Event>) -> bool {
    &&& record::extends(before, after)
    &&& forall|i: int| before.len() <= i < after.len() ==> harmless(#[trigger] after[i])
}

#[verifier::opaque]
pub open spec fn all_harmless(events: Seq<Event>) -> bool {
    forall|i: int| 0 <= i < events.len() ==> harmless(#[trigger] events[i])
}

pub broadcast proof fn lemma_quiet_refl(log: Seq<Event>)
    ensures
        #[trigger] quiet(log, log),
{
    reveal(quiet);
}

pub broadcast proof fn lemma_quiet_trans(a: Seq<Event>, b: Seq<Event>, c: Seq<Event>)
    requires
        #[trigger] quiet(a, b),
        #[trigger] quiet(b, c),
    ensures
        quiet(a, c),
{
    reveal(quiet);
    assert forall|i: int| a.len() <= i < c.len() implies harmless(#[trigger] c[i]) by {
        if i < b.len() {
            assert(c.take(b.len() as int)[i] == b[i]);
        }
    }
}

pub broadcast proof fn lemma_quiet_push(log: Seq<Event>, event: Event)
    requires
        harmless(event),
    ensures
        quiet(log, #[trigger] log.push(event)),
{
    reveal(quiet);
}

pub broadcast proof fn lemma_quiet_add(log: Seq<Event>, more: Seq<Event>)
    requires
        all_harmless(more),
    ensures
        quiet(log, #[trigger] (log + more)),
{
    reveal(quiet);
    reveal(all_harmless);
}

pub broadcast proof fn lemma_quiet_call(
    before: Seq<Event>,
    after: Seq<Event>,
    program: Seq<char>,
    args: Seq<Seq<char>>,
)
    requires
        #[trigger] record::called(before, after, program, args),
        only_asks(program, args),
    ensures
        quiet(before, after),
{
    reveal(quiet);
    assert forall|i: int| before.len() <= i < after.len() implies harmless(#[trigger] after[i]) by {
        assert(after[i] == after.last());
    }
}

pub broadcast proof fn lemma_logged(message: Seq<char>)
    ensures
        all_harmless(#[trigger] ui::logged(message)),
{
    reveal(all_harmless);
}

pub broadcast proof fn lemma_failure_logged<T>(lead: Seq<char>, r: Result<T, Seq<CauseView>>)
    ensures
        all_harmless(#[trigger] ui::failure_logged(lead, r)),
{
    reveal(all_harmless);
}

proof fn lemma_flags_begin_with_dashes(word: Seq<char>)
    requires
        word.len() > 0 && word[0] != '-',
    ensures
        !is_writing_flag(word),
{
    reveal_strlit("-X");
    reveal_strlit("--method");
    reveal_strlit("-f");
    reveal_strlit("-F");
    reveal_strlit("--field");
    reveal_strlit("--raw-field");
    reveal_strlit("--input");
}

proof fn lemma_reading_words()
    ensures
        !is_writing_flag("api"@),
        !is_writing_flag("user"@),
        !is_writing_flag("--jq"@),
        !is_writing_flag("--paginate"@),
{
    reveal_strlit("api");
    reveal_strlit("user");
    reveal_strlit("--jq");
    reveal_strlit("--paginate");
    reveal_strlit("-X");
    reveal_strlit("--method");
    reveal_strlit("-f");
    reveal_strlit("-F");
    reveal_strlit("--field");
    reveal_strlit("--raw-field");
    reveal_strlit("--input");
    lemma_flags_begin_with_dashes("api"@);
    lemma_flags_begin_with_dashes("user"@);
    assert("--jq"@.len() == 4);
    assert("--paginate"@.len() == 10);
}

pub proof fn lemma_request_path(repo: Seq<char>, number: u64)
    ensures
        only_asks("gh"@, pr::pr_args(repo, number)),
{
    let args = pr::pr_args(repo, number);
    reveal(writes);
    lemma_reading_words();
    reveal_strlit("repos/");
    reveal_strlit(
        "{number,state,merged,headRefName:.head.ref,baseRefName:.base.ref,headRefOid:.head.sha,baseRefOid:.base.sha,title,body,createdAt:.created_at,id:.node_id,headRepository:{id:(.head.repo.id|tostring),node_id:.head.repo.node_id,nameWithOwner:.head.repo.full_name},baseRepository:{id:(.base.repo.id|tostring),node_id:.base.repo.node_id,nameWithOwner:.base.repo.full_name},author:{login:.user.login}}",
    );
    lemma_flags_begin_with_dashes(args[1]);
    lemma_flags_begin_with_dashes(PR_API_JQ@);
}

pub proof fn lemma_repo_path(repo: Seq<char>)
    ensures
        only_asks("gh"@, unfreeze::permission_args(repo)),
{
    let args = unfreeze::permission_args(repo);
    reveal(writes);
    lemma_reading_words();
    reveal_strlit("repos/");
    reveal_strlit(".permissions.push");
    lemma_flags_begin_with_dashes(args[1]);
    lemma_flags_begin_with_dashes(args[3]);
}

pub proof fn lemma_user_path()
    ensures
        only_asks("gh"@, context::user_args()),
{
    reveal(writes);
    lemma_reading_words();
    reveal_strlit(".login");
    lemma_flags_begin_with_dashes(".login"@);
}

pub proof fn lemma_comments_path(repo: Seq<char>, number: u64)
    ensures
        only_asks("gh"@, comments::comments_args(repo, number)),
{
    let args = comments::comments_args(repo, number);
    reveal(writes);
    lemma_reading_words();
    reveal_strlit("repos/");
    reveal_strlit(
        ".[] | {id,body,userLogin:.user.login,updatedAt:.updated_at} | @json",
    );
    lemma_flags_begin_with_dashes(args[2]);
    lemma_flags_begin_with_dashes(STACK_COMMENT_JQ@);
}

pub broadcast group group_quiet {
    lemma_quiet_refl,
    lemma_quiet_trans,
    lemma_quiet_push,
    lemma_quiet_add,
    lemma_quiet_call,
    lemma_logged,
    lemma_failure_logged,
}

} // verus!
