//! The one place where a host is asked, and where every answer is put on record.

use vstd::prelude::*;

use crate::error;
use crate::error::Error;
use crate::model::{CacheRow, CommandOutput, GhMergePr, GhPr, GhStackComment, StatusReport};
use crate::paths::PathStyle;
use crate::record;
use crate::record::{Event, LineView, Lookup};
use crate::shell::{Host, Line};
use crate::text::words;

verus! {

broadcast use crate::record::group_record;

/// A host with the record of what it was asked and what it answered.
pub struct Shell<H> {
    host: H,
    log: Ghost<Seq<Event>>,
    steps: Ghost<Seq<Lookup>>,
}

impl<H: Host> Shell<H> {
    /// The meetings so far, in order.
    pub closed spec fn log(&self) -> Seq<Event> {
        self.log@
    }

    /// The steps of the search that is under way, in order.
    pub(super) closed spec fn steps(&self) -> Seq<Lookup> {
        self.steps@
    }

    pub fn new(host: H) -> (r: Self)
        ensures
            r.log() == Seq::<Event>::empty(),
    {
        Shell { host, log: Ghost(Seq::empty()), steps: Ghost(Seq::empty()) }
    }

    /// The host, at the end of a run.
    pub fn into_host(self) -> H {
        self.host
    }

    /// Runs a program in the current directory.
    pub fn run(&mut self, program: &str, args: &Vec<String>) -> (r: Result<CommandOutput, Error>)
        requires
            !record::at_root(program@),
        ensures
            record::called(old(self).log(), final(self).log(), program@, args.deep_view()),
            error::res(r) == record::last_reply(final(self).log()),
    {
        let r = self.host.run(program, args);
        self.log = Ghost(
            self.log@.push(
                Event::Call {
                    program: program@,
                    args: args.deep_view(),
                    dir: None,
                    steps: Seq::empty(),
                    reply: error::res(r),
                },
            ),
        );
        proof {
            reveal(record::in_place);
        }
        assert(self.log().drop_last() =~= old(self).log());
        r
    }

    /// Begins a search.
    pub(super) fn begin_search(&mut self)
        ensures
            final(self).log() == old(self).log(),
            final(self).steps() == Seq::<Lookup>::empty(),
    {
        self.steps = Ghost(Seq::empty());
    }

    pub(super) fn look_at_style(&mut self) -> (r: PathStyle)
        ensures
            final(self).log() == old(self).log(),
            final(self).steps() == old(self).steps().push((Lookup::Style { style: r })),
    {
        let r = self.host.path_style();
        self.steps = Ghost(self.steps@.push(Lookup::Style { style: r }));
        r
    }

    /// Runs `jj root` in the current directory, as a step of a search.
    pub(super) fn look_for_root(&mut self) -> (r: Result<CommandOutput, Error>)
        ensures
            final(self).log() == old(self).log(),
            final(self).steps() == old(self).steps().push((Lookup::Root { reply: error::res(r) })),
    {
        let args = words(&["root"]);
        let r = self.host.run("jj", &args);
        self.steps = Ghost(self.steps@.push(Lookup::Root { reply: error::res(r) }));
        r
    }

    pub(super) fn look_whether_dir(&mut self, path: &str) -> (r: Result<bool, Error>)
        ensures
            final(self).log() == old(self).log(),
            final(self).steps() == old(self).steps().push(
                (Lookup::IsDir { path: path@, directory: error::res_of(r) }),
            ),
    {
        let r = self.host.is_dir(path);
        self.steps = Ghost(
            self.steps@.push(Lookup::IsDir { path: path@, directory: error::res_of(r) }),
        );
        r
    }

    pub(super) fn look_into_file(&mut self, path: &str) -> (r: Result<String, Error>)
        ensures
            final(self).log() == old(self).log(),
            final(self).steps() == old(self).steps().push(
                (Lookup::FileRead { path: path@, text: error::res(r) }),
            ),
    {
        let r = self.host.read_file(path);
        self.steps = Ghost(self.steps@.push(Lookup::FileRead { path: path@, text: error::res(r) }));
        r
    }

    pub(super) fn look_through_links(&mut self, path: &str) -> (r: Result<String, Error>)
        ensures
            final(self).log() == old(self).log(),
            final(self).steps() == old(self).steps().push(
                (Lookup::Canonical { path: path@, found: error::res(r) }),
            ),
    {
        let r = self.host.canonical(path);
        self.steps = Ghost(self.steps@.push(Lookup::Canonical { path: path@, found: error::res(r) }));
        r
    }

    /// Ends a search by a run of a program in the directory `dir`.
    pub(super) fn run_found(&mut self, program: &str, args: &Vec<String>, dir: &str) -> (r: Result<
        CommandOutput,
        Error,
    >)
        ensures
            final(self).log() == old(self).log().push(
                (Event::Call {
                    program: program@,
                    args: args.deep_view(),
                    dir: Some(dir@),
                    steps: old(self).steps(),
                    reply: error::res(r),
                }),
            ),
    {
        let r = self.host.run_in_dir(program, args, dir);
        self.log = Ghost(
            self.log@.push(
                Event::Call {
                    program: program@,
                    args: args.deep_view(),
                    dir: Some(dir@),
                    steps: self.steps@,
                    reply: error::res(r),
                },
            ),
        );
        r
    }

    /// Ends a search that did not find where the program is to be run.
    pub(super) fn give_up(&mut self, program: &str, args: &Vec<String>)
        ensures
            final(self).log() == old(self).log().push(
                (Event::Lost {
                    program: program@,
                    args: args.deep_view(),
                    steps: old(self).steps(),
                }),
            ),
    {
        self.log = Ghost(
            self.log@.push(
                Event::Lost { program: program@, args: args.deep_view(), steps: self.steps@ },
            ),
        );
    }

    /// Ends a search that was made for its own sake.
    pub(super) fn end_search(&mut self)
        ensures
            final(self).log() == old(self).log().push((Event::Searched { steps: old(self).steps() })),
    {
        self.log = Ghost(self.log@.push(Event::Searched { steps: self.steps@ }));
    }

    /// Runs a program on the user's terminal.
    pub fn attach(&mut self, program: &str, args: &Vec<String>) -> (r: Result<(), Error>)
        ensures
            record::extends(old(self).log(), final(self).log()),
            final(self).log() == old(self).log().push(
                (Event::Attached {
                    program: program@,
                    args: args.deep_view(),
                    ended: error::res_of(r),
                }),
            ),
    {
        let r = self.host.run_interactive(program, args);
        self.log = Ghost(
            self.log@.push(
                Event::Attached {
                    program: program@,
                    args: args.deep_view(),
                    ended: error::res_of(r),
                },
            ),
        );
        r
    }

    pub fn say(&mut self, line: Line)
        ensures
            record::extends(old(self).log(), final(self).log()),
            final(self).log() == old(self).log().push(Event::Said(line@)),
    {
        self.host.say(&line);
        self.log = Ghost(self.log@.push(Event::Said(line@)));
    }

    pub fn progress(&mut self, verb: &str, message: &str)
        ensures
            record::extends(old(self).log(), final(self).log()),
            final(self).log() == old(self).log().push(
                Event::Said((LineView::Progress { verb: verb@, message: message@ })),
            ),
    {
        self.say(Line::Progress { verb: verb.to_owned(), message: message.to_owned() });
    }

    pub fn can_ask(&mut self) -> (r: bool)
        ensures
            record::extends(old(self).log(), final(self).log()),
            final(self).log() == old(self).log().push(Event::CouldAsk(r)),
    {
        let r = self.host.can_ask();
        self.log = Ghost(self.log@.push(Event::CouldAsk(r)));
        r
    }

    pub fn prompt(&mut self, question: &str) -> (r: Result<(), Error>)
        ensures
            record::extends(old(self).log(), final(self).log()),
            final(self).log() == old(self).log().push(
                (Event::Prompted { question: question@, prompted: error::res_of(r) }),
            ),
    {
        let r = self.host.prompt(question);
        self.log = Ghost(
            self.log@.push(Event::Prompted { question: question@, prompted: error::res_of(r) }),
        );
        r
    }

    pub fn answer(&mut self) -> (r: Result<String, Error>)
        ensures
            record::extends(old(self).log(), final(self).log()),
            final(self).log() == old(self).log().push((Event::Answered { answer: error::res(r) })),
    {
        let r = self.host.answer();
        self.log = Ghost(self.log@.push(Event::Answered { answer: error::res(r) }));
        r
    }

    pub fn pause(&mut self, millis: u64)
        ensures
            record::extends(old(self).log(), final(self).log()),
            final(self).log() == old(self).log().push(Event::Paused(millis)),
    {
        self.host.pause(millis);
        self.log = Ghost(self.log@.push(Event::Paused(millis)));
    }

    pub fn load_cache(&mut self, path: &str) -> (r: Result<Vec<CacheRow>, Error>)
        ensures
            record::extends(old(self).log(), final(self).log()),
            final(self).log() == old(self).log().push(
                (Event::CacheRead { path: path@, rows: error::res(r) }),
            ),
    {
        let r = self.host.load_cache(path);
        self.log = Ghost(self.log@.push(Event::CacheRead { path: path@, rows: error::res(r) }));
        r
    }

    pub fn save_cache(&mut self, path: &str, rows: &Vec<CacheRow>) -> (r: Result<(), Error>)
        ensures
            record::extends(old(self).log(), final(self).log()),
            final(self).log() == old(self).log().push(
                (Event::CacheWritten {
                    path: path@,
                    stored: rows.deep_view(),
                    written: error::res_of(r),
                }),
            ),
    {
        let r = self.host.save_cache(path, rows);
        self.log = Ghost(
            self.log@.push(
                Event::CacheWritten {
                    path: path@,
                    stored: rows.deep_view(),
                    written: error::res_of(r),
                },
            ),
        );
        r
    }

    pub fn read_pr(&mut self, json: &str) -> (r: Result<GhPr, Error>)
        ensures
            record::extends(old(self).log(), final(self).log()),
            final(self).log() == old(self).log().push((Event::PrRead { json: json@, pr: error::res(r) })),
    {
        let r = self.host.read_pr(json);
        self.log = Ghost(self.log@.push(Event::PrRead { json: json@, pr: error::res(r) }));
        r
    }

    pub fn read_prs(&mut self, json: &str) -> (r: Result<Vec<GhPr>, Error>)
        ensures
            record::extends(old(self).log(), final(self).log()),
            final(self).log() == old(self).log().push(
                (Event::PrsRead { json: json@, prs: error::res(r) }),
            ),
    {
        let r = self.host.read_prs(json);
        self.log = Ghost(self.log@.push(Event::PrsRead { json: json@, prs: error::res(r) }));
        r
    }

    pub fn read_merge_pr(&mut self, json: &str) -> (r: Result<GhMergePr, Error>)
        ensures
            record::extends(old(self).log(), final(self).log()),
            final(self).log() == old(self).log().push(
                (Event::MergePrRead { json: json@, merge_pr: error::res(r) }),
            ),
    {
        let r = self.host.read_merge_pr(json);
        self.log = Ghost(self.log@.push(Event::MergePrRead { json: json@, merge_pr: error::res(r) }));
        r
    }

    pub fn read_comment(&mut self, json: &str) -> (r: Result<GhStackComment, Error>)
        ensures
            record::extends(old(self).log(), final(self).log()),
            final(self).log() == old(self).log().push(
                (Event::CommentRead { json: json@, comment: error::res(r) }),
            ),
    {
        let r = self.host.read_comment(json);
        self.log = Ghost(self.log@.push(Event::CommentRead { json: json@, comment: error::res(r) }));
        r
    }

    pub fn write_status(&mut self, report: &StatusReport) -> (r: Result<String, Error>)
        ensures
            record::extends(old(self).log(), final(self).log()),
            final(self).log() == old(self).log().push(
                (Event::StatusWritten { report: report@, document: error::res(r) }),
            ),
    {
        let r = self.host.write_status(report);
        self.log = Ghost(
            self.log@.push(Event::StatusWritten { report: report@, document: error::res(r) }),
        );
        r
    }

    pub fn read_comment_id(&mut self, json: &str) -> (r: Result<u64, Error>)
        ensures
            record::extends(old(self).log(), final(self).log()),
            final(self).log() == old(self).log().push(
                (Event::CommentIdRead {
                    json: json@,
                    id: error::res_of(r),
                }),
            ),
    {
        let r = self.host.read_comment_id(json);
        self.log = Ghost(
            self.log@.push(
                Event::CommentIdRead {
                    json: json@,
                    id: error::res_of(r),
                },
            ),
        );
        r
    }
}

} // verus!
