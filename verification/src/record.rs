//! The record of what happened between the commands and the outside.

use vstd::prelude::*;

use crate::error::CauseView;
use crate::model::{
    CacheRowView, CommandOutputView, GhMergePrView, GhPrView, GhStackCommentView, StatusReportView,
};
use crate::paths::PathStyle;
use crate::repo;

verus! {

/// A line of output, as [`crate::shell::Line`] shows it.
pub enum LineView {
    Progress { verb: Seq<char>, message: Seq<char> },
    Info(Seq<char>),
    Warn(Seq<char>),
    Out(Seq<char>),
    Note(Seq<char>),
    RepairRow(Seq<char>),
    SubmitRow(Seq<char>),
    Log(Seq<char>),
    Steps { verb: Seq<char>, message: Seq<char>, total: usize },
    StepsAt(usize),
    StepsEnd,
}

/// What a program answered.
pub type Reply = Result<CommandOutputView, Seq<CauseView>>;

/// One step of the search for the repository directory.
pub enum Lookup {
    /// How paths are written was asked.
    Style { style: PathStyle },
    /// `jj root` was run in the current directory.
    Root { reply: Reply },
    IsDir { path: Seq<char>, directory: Result<bool, Seq<CauseView>> },
    FileRead { path: Seq<char>, text: Result<Seq<char>, Seq<CauseView>> },
    Canonical { path: Seq<char>, found: Result<Seq<char>, Seq<CauseView>> },
}

/// One meeting with the outside.
pub enum Event {
    /// A program was run: in the current directory, or, after these steps, in the directory `dir`.
    Call {
        program: Seq<char>,
        args: Seq<Seq<char>>,
        dir: Option<Seq<char>>,
        steps: Seq<Lookup>,
        reply: Reply,
    },
    /// A program was to be run in the workspace that holds `.git`, and these steps did not find it.
    Lost { program: Seq<char>, args: Seq<Seq<char>>, steps: Seq<Lookup> },
    /// The repository directory was searched.
    Searched { steps: Seq<Lookup> },
    Attached { program: Seq<char>, args: Seq<Seq<char>>, ended: Result<(), Seq<CauseView>> },
    Said(LineView),
    CouldAsk(bool),
    Prompted { question: Seq<char>, prompted: Result<(), Seq<CauseView>> },
    Answered { answer: Result<Seq<char>, Seq<CauseView>> },
    Paused(u64),
    CacheRead { path: Seq<char>, rows: Result<Seq<CacheRowView>, Seq<CauseView>> },
    CacheWritten { path: Seq<char>, stored: Seq<CacheRowView>, written: Result<(), Seq<CauseView>> },
    PrRead { json: Seq<char>, pr: Result<GhPrView, Seq<CauseView>> },
    PrsRead { json: Seq<char>, prs: Result<Seq<GhPrView>, Seq<CauseView>> },
    MergePrRead { json: Seq<char>, merge_pr: Result<GhMergePrView, Seq<CauseView>> },
    CommentRead { json: Seq<char>, comment: Result<GhStackCommentView, Seq<CauseView>> },
    StatusWritten { report: StatusReportView, document: Result<Seq<char>, Seq<CauseView>> },
    CommentIdRead { json: Seq<char>, id: Result<u64, Seq<CauseView>> },
}

/// The record went on from `before` to `after`.
pub open spec fn extends(before: Seq<Event>, after: Seq<Event>) -> bool {
    before.len() <= after.len() && after.take(before.len() as int) == before
}

/// Exactly one meeting was added: this program was run with these arguments.
pub open spec fn called(
    before: Seq<Event>,
    after: Seq<Event>,
    program: Seq<char>,
    args: Seq<Seq<char>>,
) -> bool {
    &&& after.len() == before.len() + 1
    &&& after.drop_last() == before
    &&& is_call(after.last(), program, args)
}

/// The programs that run in the workspace that holds `.git`; every other runs where the user is.
pub open spec fn at_root(program: Seq<char>) -> bool {
    program == "git"@ || program == "gh"@
}

/// Whether a run took place where its program belongs: `git` and `gh` in the workspace that a search
/// found, every other in the current directory. Where the search fails, nothing is run.
#[verifier::opaque]
pub open spec fn in_place(event: Event) -> bool {
    match event {
        Event::Call { program, dir, steps, .. } => if at_root(program) {
            dir is Some && repo::root_found(steps) == Some(
                Ok::<Seq<char>, Seq<CauseView>>(dir->Some_0),
            )
        } else {
            dir is None && steps.len() == 0
        },
        Event::Lost { program, steps, .. } => at_root(program) && repo::root_found(steps) is Some
            && repo::root_found(steps)->Some_0 is Err,
        _ => false,
    }
}

/// The meeting is a run of this program with these arguments, where the program belongs, or the
/// failed search for that place.
pub open spec fn is_call(event: Event, program: Seq<char>, args: Seq<Seq<char>>) -> bool {
    &&& in_place(event)
    &&& match event {
        Event::Call { program: p, args: a, .. } => p == program && a == args,
        Event::Lost { program: p, args: a, .. } => p == program && a == args,
        _ => false,
    }
}

/// What came back from a run: the answer of the program, or why its place was not found.
pub open spec fn reply_of(event: Event) -> Reply {
    match event {
        Event::Call { reply, .. } => reply,
        Event::Lost { steps, .. } => match repo::root_found(steps) {
            Some(Err(e)) => Err(e),
            _ => arbitrary(),
        },
        _ => arbitrary(),
    }
}

/// What came back from the run that is the last meeting.
pub open spec fn last_reply(log: Seq<Event>) -> Reply {
    reply_of(log.last())
}

/// Nothing was added after `mid`, and the result is this failure.
pub open spec fn stopped<T>(
    mid: Seq<Event>,
    after: Seq<Event>,
    e: Seq<CauseView>,
    r: Result<T, Seq<CauseView>>,
) -> bool {
    after == mid && r == Err::<T, _>(e)
}

pub broadcast proof fn lemma_extends_refl(log: Seq<Event>)
    ensures
        #[trigger] extends(log, log),
{
    assert(log.take(log.len() as int) =~= log);
}

pub broadcast proof fn lemma_extends_trans(a: Seq<Event>, b: Seq<Event>, c: Seq<Event>)
    requires
        #[trigger] extends(a, b),
        #[trigger] extends(b, c),
    ensures
        extends(a, c),
{
    assert(c.take(a.len() as int) =~= b.take(a.len() as int)) by {
        assert forall|i: int| 0 <= i < a.len() implies c[i] == b[i] by {
            assert(c.take(b.len() as int)[i] == b[i]);
        }
    }
}

pub broadcast proof fn lemma_extends_push(log: Seq<Event>, event: Event)
    ensures
        #[trigger] extends(log, log.push(event)),
{
    assert(log.push(event).take(log.len() as int) =~= log);
}

pub broadcast proof fn lemma_extends_add(log: Seq<Event>, more: Seq<Event>)
    ensures
        #[trigger] extends(log, log + more),
{
    assert((log + more).take(log.len() as int) =~= log);
}

pub broadcast proof fn lemma_called_extends(
    before: Seq<Event>,
    after: Seq<Event>,
    program: Seq<char>,
    args: Seq<Seq<char>>,
)
    requires
        #[trigger] called(before, after, program, args),
    ensures
        extends(before, after),
{
    assert(after.take(before.len() as int) =~= before);
}

pub proof fn lemma_jj_runs_here()
    ensures
        !at_root("jj"@),
{
    reveal_strlit("jj");
    reveal_strlit("git");
    reveal_strlit("gh");
    assert("jj"@[0] != "git"@[0]);
    assert("jj"@[0] != "gh"@[0]);
}

/// A run of `jj` is no failed search.
pub broadcast proof fn lemma_jj_call(event: Event, args: Seq<Seq<char>>)
    requires
        #[trigger] is_call(event, "jj"@, args),
    ensures
        event is Call,
        event->Call_program == "jj"@,
        event->Call_args == args,
{
    reveal(in_place);
    lemma_jj_runs_here();
}

/// The law of the right place: a run of `git` or `gh` that was answered took place in the workspace
/// that a search, from the current directory, found to hold `.git`; every other program runs in the
/// current directory.
pub proof fn law_programs_run_in_their_place(
    event: Event,
    program: Seq<char>,
    args: Seq<Seq<char>>,
)
    requires
        is_call(event, program, args),
    ensures
        at_root(program) && reply_of(event) is Ok ==> {
            &&& event is Call
            &&& event->dir is Some
            &&& repo::root_found(event->Call_steps) == Some(
                Ok::<Seq<char>, Seq<CauseView>>(event->dir->Some_0),
            )
        },
        !at_root(program) ==> event is Call && event->dir is None,
{
    reveal(in_place);
}

/// What is known of a record that goes on.
pub broadcast group group_record {
    lemma_extends_refl,
    lemma_extends_trans,
    lemma_extends_push,
    lemma_extends_add,
    lemma_called_extends,
    lemma_jj_call,
}

} // verus!
