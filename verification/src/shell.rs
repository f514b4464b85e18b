//! The outside world as the commands meet it, and the record of every meeting.
//!
//! A [`Host`] runs programs, prints, asks, waits and keeps the cache. It promises nothing: what the
//! commands do is proved for every host. A [`Shell`] passes each request on to its host and keeps a
//! ghost record of what was asked and what came back, in order. Contracts speak of that record. A
//! search for the repository directory, which comes before each run of `git` and `gh`, stands in the
//! record with the run that it was made for.

use vstd::prelude::*;

use crate::error;
use crate::error::{Error, fail};
use crate::model::{CacheRow, CommandOutput, GhMergePr, GhPr, GhStackComment, StatusReport};
use crate::output;
use crate::output::{check_output, require_output};
use crate::paths::{PathStyle, join_path};
use crate::record;
use crate::record::{Event, LineView, Lookup};
use crate::repo;
use crate::repo::workspace_above;
use crate::shell::wire::Shell;
use crate::text::{cat, cat3, trimmed, words};

pub mod wire;

verus! {

broadcast use crate::record::group_record;

/// Runs programs.
pub trait CommandRunner {
    /// Runs a program to its end and returns what it wrote.
    fn run(&mut self, program: &str, args: &Vec<String>) -> Result<CommandOutput, Error>;

    /// Like `run`, with `dir` as the working directory of the program.
    fn run_in_dir(&mut self, program: &str, args: &Vec<String>, dir: &str) -> Result<
        CommandOutput,
        Error,
    >;

    /// Runs a program on the user's own terminal.
    fn run_interactive(&mut self, program: &str, args: &Vec<String>) -> Result<(), Error>;
}

/// A line of output.
pub enum Line {
    /// What is being done: a verb in the gutter and what it acts on.
    Progress { verb: String, message: String },
    /// A piece of information for the standard output.
    Info(String),
    /// A warning.
    Warn(String),
    /// A line for the standard output as it stands.
    Out(String),
    /// A line for the standard error as it stands.
    Note(String),
    /// A line of the plan of a repair, for the standard error.
    RepairRow(String),
    /// A line of the plan of a submit, for the standard error.
    SubmitRow(String),
    /// A warning for the log alone.
    Log(String),
    /// A row of `total` steps begins.
    Steps { verb: String, message: String, total: usize },
    /// So many steps of the row are done.
    StepsAt(usize),
    /// The row of steps ends.
    StepsEnd,
}

impl View for Line {
    type V = LineView;

    open spec fn view(&self) -> LineView {
        match self {
            Line::Progress { verb, message } => LineView::Progress {
                verb: verb@,
                message: message@,
            },
            Line::Info(s) => LineView::Info(s@),
            Line::Warn(s) => LineView::Warn(s@),
            Line::Out(s) => LineView::Out(s@),
            Line::Note(s) => LineView::Note(s@),
            Line::RepairRow(s) => LineView::RepairRow(s@),
            Line::SubmitRow(s) => LineView::SubmitRow(s@),
            Line::Log(s) => LineView::Log(s@),
            Line::Steps { verb, message, total } => LineView::Steps {
                verb: verb@,
                message: message@,
                total: *total,
            },
            Line::StepsAt(n) => LineView::StepsAt(*n),
            Line::StepsEnd => LineView::StepsEnd,
        }
    }
}

/// Everything else that lies outside: the terminal, the clock, the file system, the cache file, and
/// the reading of the JSON documents that GitHub sends.
pub trait Host: CommandRunner {
    /// Prints a line.
    fn say(&mut self, line: &Line);

    /// Whether there is a user at a terminal to answer questions.
    fn can_ask(&mut self) -> bool;

    /// Prints a question.
    fn prompt(&mut self, question: &str) -> Result<(), Error>;

    /// Reads a line of answer.
    fn answer(&mut self) -> Result<String, Error>;

    /// Waits.
    fn pause(&mut self, millis: u64);

    /// How paths are written here.
    fn path_style(&mut self) -> PathStyle;

    /// Whether a path leads to a directory.
    fn is_dir(&mut self, path: &str) -> Result<bool, Error>;

    /// The text in a file.
    fn read_file(&mut self, path: &str) -> Result<String, Error>;

    /// The absolute path without links that a path leads to.
    fn canonical(&mut self, path: &str) -> Result<String, Error>;

    /// The rows of the cache file; none if there is no such file.
    fn load_cache(&mut self, path: &str) -> Result<Vec<CacheRow>, Error>;

    /// Replaces the rows of the cache file.
    fn save_cache(&mut self, path: &str, rows: &Vec<CacheRow>) -> Result<(), Error>;

    /// Reads a JSON document as a pull request.
    fn read_pr(&mut self, json: &str) -> Result<GhPr, Error>;

    /// Reads a JSON document as a list of pull requests.
    fn read_prs(&mut self, json: &str) -> Result<Vec<GhPr>, Error>;

    /// Reads a JSON document as a pull request with its merge state.
    fn read_merge_pr(&mut self, json: &str) -> Result<GhMergePr, Error>;

    /// Reads a JSON document as a comment.
    fn read_comment(&mut self, json: &str) -> Result<GhStackComment, Error>;

    /// Reads a JSON document as the number of a comment.
    fn read_comment_id(&mut self, json: &str) -> Result<u64, Error>;

    /// Writes a report as a JSON document.
    fn write_status(&mut self, report: &StatusReport) -> Result<String, Error>;
}

/// The end of the walk to the repository directory.
fn end_walk(path: &str, found: Result<String, Error>) -> (r: Result<String, Error>)
    ensures
        error::res(r) == repo::canonical_result(path@, error::res(found)),
{
    match found {
        Ok(dir) => Ok(dir),
        Err(error) => Err(error.context(&cat("resolve jj repo directory ", path))),
    }
}

impl<H: Host> Shell<H> {
    /// Runs a program in the workspace that holds `.git`, which is searched first. Where it is not
    /// found, the program is not run.
    pub fn run_at_root(&mut self, program: &str, args: &Vec<String>) -> (r: Result<
        CommandOutput,
        Error,
    >)
        requires
            record::at_root(program@),
        ensures
            record::called(old(self).log(), final(self).log(), program@, args.deep_view()),
            error::res(r) == record::last_reply(final(self).log()),
    {
        let (style, dir) = self.walk();
        let r = match workspace_above(style, dir) {
            Ok(root) => self.run_found(program, args, &root),
            Err(error) => {
                self.give_up(program, args);
                Err(error)
            },
        };
        proof {
            reveal(record::in_place);
        }
        assert(self.log().drop_last() =~= old(self).log());
        r
    }

    /// Walks from the workspace at `root` to its repository directory.
    fn walk_below(&mut self, style: PathStyle, root: &str) -> (r: Result<String, Error>)
        ensures
            final(self).log() == old(self).log(),
            final(self).steps().len() >= old(self).steps().len(),
            final(self).steps().take(old(self).steps().len() as int) == old(self).steps(),
            repo::entry_found(
                style,
                final(self).steps().skip(old(self).steps().len() as int),
                root@,
            ) == Some(error::res(r)),
    {
        let ghost start = self.steps();
        let ghost n = start.len() as int;
        let jj_dir = join_path(style, root, ".jj");
        let entry = join_path(style, &jj_dir, "repo");
        let directory = self.look_whether_dir(&entry);
        let ghost first = self.steps().last();
        assert(self.steps().take(n) =~= start);
        assert(self.steps().skip(n) =~= seq![first]);
        let directory = match directory {
            Err(error) => return Err(error.context(&cat("read jj repo entry ", &entry))),
            Ok(directory) => directory,
        };
        if directory {
            let found = self.look_through_links(&entry);
            let ghost last = self.steps().last();
            assert(self.steps().take(n) =~= start);
            assert(self.steps().skip(n) =~= seq![first, last]);
            assert(seq![first, last].skip(1) =~= seq![last]);
            return end_walk(&entry, found);
        }
        let pointer = self.look_into_file(&entry);
        let ghost second = self.steps().last();
        assert(self.steps().take(n) =~= start);
        assert(self.steps().skip(n) =~= seq![first, second]);
        assert(seq![first, second].skip(1) =~= seq![second]);
        let pointer = match pointer {
            Err(error) => return Err(error.context(&cat("read jj repo pointer ", &entry))),
            Ok(text) => trimmed(&text),
        };
        if pointer.as_str().is_empty() {
            return Err(fail(&cat3("jj repo pointer ", &entry, " is empty")));
        }
        let target = join_path(style, &jj_dir, &pointer);
        let found = self.look_through_links(&target);
        let ghost last = self.steps().last();
        assert(self.steps().take(n) =~= start);
        assert(self.steps().skip(n) =~= seq![first, second, last]);
        assert(seq![first, second, last].skip(1) =~= seq![second, last]);
        assert(seq![second, last].skip(1) =~= seq![last]);
        end_walk(&target, found)
    }

    /// Walks from the current directory to the repository directory.
    fn walk(&mut self) -> (r: (PathStyle, Result<String, Error>))
        ensures
            final(self).log() == old(self).log(),
            repo::style_told(final(self).steps()) == Some(r.0),
            repo::current_dir_found(final(self).steps()) == Some(error::res(r.1)),
    {
        self.begin_search();
        let style = self.look_at_style();
        let reply = self.look_for_root();
        let ghost first = self.steps();
        let args = words(&["root"]);
        assert(args.deep_view() =~= seq!["root"@]);
        let dir = match require_output("jj", &args, reply) {
            Err(error) => Err(error.context("resolve jj workspace root")),
            Ok(root) => {
                let dir = self.walk_below(style, &root);
                assert(self.steps()[0] == self.steps().take(2)[0]);
                assert(self.steps()[1] == self.steps().take(2)[1]);
                assert(self.steps().take(2) == first);
                dir
            },
        };
        (style, dir)
    }

    /// Searches the repository directory of the workspace at `root`.
    pub fn search_below(&mut self, root: &str) -> (r: Result<String, Error>)
        ensures
            exists|steps: Seq<Lookup>|
                final(self).log() == old(self).log().push((Event::Searched { steps }))
                    && #[trigger] repo::dir_found(steps, root@) == Some(error::res(r)),
    {
        self.begin_search();
        let style = self.look_at_style();
        let ghost first = self.steps();
        let dir = self.walk_below(style, root);
        assert(self.steps()[0] == self.steps().take(1)[0]);
        assert(self.steps().take(1) == first);
        assert(repo::dir_found(self.steps(), root@) == Some(error::res(dir)));
        self.end_search();
        dir
    }

    /// Searches the repository directory of the current workspace. Tells also how its path is
    /// written.
    pub fn search(&mut self) -> (r: (PathStyle, Result<String, Error>))
        ensures
            exists|steps: Seq<Lookup>|
                final(self).log() == old(self).log().push((Event::Searched { steps }))
                    && repo::style_told(steps) == Some(r.0) && #[trigger] repo::current_dir_found(
                    steps,
                ) == Some(error::res(r.1)),
    {
        let found = self.walk();
        self.end_search();
        found
    }
}

pub fn run_required<H: Host>(sh: &mut Shell<H>, program: &str, args: &Vec<String>) -> (r: Result<
    String,
    Error,
>)
    requires
        !record::at_root(program@),
    ensures
        record::called(old(sh).log(), final(sh).log(), program@, args.deep_view()),
        error::res(r) == output::required_output(program@, args.deep_view(), record::last_reply(final(sh).log())),
{
    let reply = sh.run(program, args);
    require_output(program, args, reply)
}

/// Runs `jj` in the current directory.
pub fn jj_run<H: Host>(sh: &mut Shell<H>, args: &Vec<String>) -> (r: Result<CommandOutput, Error>)
    ensures
        record::called(old(sh).log(), final(sh).log(), "jj"@, args.deep_view()),
        error::res(r) == record::last_reply(final(sh).log()),
{
    proof {
        record::lemma_jj_runs_here();
    }
    sh.run("jj", args)
}

/// Runs `jj`; ending without success is a failure.
pub fn jj_checked<H: Host>(sh: &mut Shell<H>, args: &Vec<String>) -> (r: Result<
    CommandOutput,
    Error,
>)
    ensures
        record::called(old(sh).log(), final(sh).log(), "jj"@, args.deep_view()),
        error::res(r) == output::checked("jj"@, args.deep_view(), record::last_reply(final(sh).log())),
{
    let reply = jj_run(sh, args);
    check_output("jj", args, reply)
}

} // verus!
