//! What the user sees: status lines, plans and progress.

use vstd::prelude::*;

use crate::error;
use crate::error::{CauseView, Detail, print_error_line, spaces_text};
use crate::model::Diagnostics;
use crate::outside::{bold, cyan, dimmed, green, red, yellow};
use crate::record;
use crate::record::{Event, LineView};
use crate::shell::{Host, Line};
use crate::shell::wire::Shell;
use crate::text::{cat, cat3, cat5, char_count, same};

verus! {

broadcast use crate::record::group_record;

/// Width of the column that holds the status verbs.
pub const PROGRESS_VERB_WIDTH: usize = 12;

/// The text with spaces in front of it up to the width of the verb column.
pub open spec fn gutter(verb: Seq<char>) -> Seq<char> {
    if verb.len() >= PROGRESS_VERB_WIDTH {
        verb
    } else {
        error::spaces((PROGRESS_VERB_WIDTH - verb.len()) as nat) + verb
    }
}

pub fn gutter_text(verb: &str) -> (r: String)
    ensures
        r@ == gutter(verb@),
{
    let n = char_count(verb);
    if n >= PROGRESS_VERB_WIDTH {
        verb.to_owned()
    } else {
        cat(&spaces_text(PROGRESS_VERB_WIDTH - n), verb)
    }
}

pub open spec fn escaped(start: Seq<char>, text: Seq<char>, end: Seq<char>) -> Seq<char> {
    start + text + end
}

pub open spec fn in_red(text: Seq<char>) -> Seq<char> {
    escaped("\x1b[31m"@, text, "\x1b[39m"@)
}

pub open spec fn in_green(text: Seq<char>) -> Seq<char> {
    escaped("\x1b[32m"@, text, "\x1b[39m"@)
}

pub open spec fn in_yellow(text: Seq<char>) -> Seq<char> {
    escaped("\x1b[33m"@, text, "\x1b[39m"@)
}

pub open spec fn in_cyan(text: Seq<char>) -> Seq<char> {
    escaped("\x1b[36m"@, text, "\x1b[39m"@)
}

pub open spec fn in_bold(text: Seq<char>) -> Seq<char> {
    escaped("\x1b[1m"@, text, "\x1b[0m"@)
}

pub open spec fn in_dim(text: Seq<char>) -> Seq<char> {
    escaped("\x1b[2m"@, text, "\x1b[0m"@)
}

/// A status line: a verb in the gutter, in bold green where colour is on, and a message.
pub open spec fn progress_line(verb: Seq<char>, message: Seq<char>, color: bool) -> Seq<char> {
    (if color {
        in_bold(in_green(gutter(verb)))
    } else {
        gutter(verb)
    }) + " "@ + message
}

pub fn ui_progress(verb: &str, message: &str, color: bool) -> (r: String)
    ensures
        r@ == progress_line(verb@, message@, color),
{
    let padded = gutter_text(verb);
    let head = if color {
        bold(&green(&padded))
    } else {
        padded
    };
    cat3(&head, " ", message)
}

pub open spec fn info_line(message: Seq<char>, color: bool) -> Seq<char> {
    (if color {
        in_bold(in_cyan(gutter("Info"@)))
    } else {
        gutter("Info"@)
    }) + " "@ + message
}

pub fn ui_info_line(message: &str, color: bool) -> (r: String)
    ensures
        r@ == info_line(message@, color),
{
    let padded = gutter_text("Info");
    let head = if color {
        bold(&cyan(&padded))
    } else {
        padded
    };
    cat3(&head, " ", message)
}

pub open spec fn warn_line(message: Seq<char>, color: bool) -> Seq<char> {
    (if color {
        in_bold(in_yellow(gutter("Warning"@)))
    } else {
        gutter("Warning"@)
    }) + " "@ + message
}

pub fn ui_warn_line(message: &str, color: bool) -> (r: String)
    ensures
        r@ == warn_line(message@, color),
{
    let padded = gutter_text("Warning");
    let head = if color {
        bold(&yellow(&padded))
    } else {
        padded
    };
    cat3(&head, " ", message)
}

pub open spec fn conflict_line(message: Seq<char>, color: bool) -> Seq<char> {
    (if color {
        in_bold(in_red(gutter("Conflict"@)))
    } else {
        gutter("Conflict"@)
    }) + " "@ + message
}

pub fn ui_conflict(message: &str, color: bool) -> (r: String)
    ensures
        r@ == conflict_line(message@, color),
{
    let padded = gutter_text("Conflict");
    let head = if color {
        bold(&red(&padded))
    } else {
        padded
    };
    cat3(&head, " ", message)
}

pub open spec fn hint_line(message: Seq<char>, color: bool) -> Seq<char> {
    (if color {
        in_bold(in_cyan("hint:"@))
    } else {
        "hint:"@
    }) + " "@ + message
}

pub fn ui_hint(message: &str, color: bool) -> (r: String)
    ensures
        r@ == hint_line(message@, color),
{
    let head = if color {
        bold(&cyan("hint:"))
    } else {
        "hint:".to_owned()
    };
    cat3(&head, " ", message)
}

/// An `error:` line, in bold red where colour is on.
pub fn ui_error(message: &str, color: bool) -> (r: String)
    ensures
        r@ == error::error_line(message@, color),
{
    print_error_line(message, color)
}

/// A continuation line below the message column, dim where colour is on.
pub open spec fn detail_text(message: Seq<char>, color: bool) -> Seq<char> {
    error::spaces((PROGRESS_VERB_WIDTH + 1) as nat) + if color {
        in_dim(message)
    } else {
        message
    }
}

pub fn ui_detail_line(message: &str, color: bool) -> (r: String)
    ensures
        r@ == detail_text(message@, color),
{
    let indent = spaces_text(PROGRESS_VERB_WIDTH + 1);
    if color {
        cat(&indent, &dimmed(message))
    } else {
        cat(&indent, message)
    }
}

/// What a line of a dry-run plan conveys.
#[derive(Clone, Copy, PartialEq, Eq)]
pub enum PlanLineStyle {
    /// A section header.
    Header,
    /// A mutation that creates something.
    Create,
    /// A mutation that updates something.
    Update,
    /// A no-op that is listed for completeness.
    Unchanged,
    /// A detail beneath a mutation.
    Detail,
}

pub open spec fn plan_body(message: Seq<char>, style: PlanLineStyle, color: bool) -> Seq<char> {
    error::spaces((PROGRESS_VERB_WIDTH + 1) as nat) + if !color {
        message
    } else {
        match style {
            PlanLineStyle::Header => in_bold(in_cyan(message)),
            PlanLineStyle::Create => in_green(message),
            PlanLineStyle::Update => in_yellow(message),
            PlanLineStyle::Unchanged | PlanLineStyle::Detail => in_dim(message),
        }
    }
}

pub fn ui_plan_line(message: &str, style: PlanLineStyle, color: bool) -> (r: String)
    ensures
        r@ == plan_body(message@, style, color),
{
    let indent = spaces_text(PROGRESS_VERB_WIDTH + 1);
    if !color {
        return cat(&indent, message);
    }
    let styled = match style {
        PlanLineStyle::Header => bold(&cyan(message)),
        PlanLineStyle::Create => green(message),
        PlanLineStyle::Update => yellow(message),
        PlanLineStyle::Unchanged | PlanLineStyle::Detail => dimmed(message),
    };
    cat(&indent, &styled)
}

/// A text that capable terminals show as a link.
pub open spec fn hyperlink(url: Seq<char>, text: Seq<char>, color: bool) -> Seq<char> {
    if color {
        "\x1b]8;;"@ + url + "\x1b\\"@ + text + "\x1b]8;;\x1b\\"@
    } else {
        text
    }
}

pub fn ui_hyperlink(url: &str, label: &str, color: bool) -> (r: String)
    ensures
        r@ == hyperlink(url@, label@, color),
{
    if color {
        cat5("\x1b]8;;", url, "\x1b\\", label, "\x1b]8;;\x1b\\")
    } else {
        label.to_owned()
    }
}

/// The verb and the message of a phase; an unknown phase shows its own name.
pub open spec fn phase_words(phase: Seq<char>) -> (Seq<char>, Seq<char>) {
    if phase == "resolve-github"@ {
        ("Resolving"@, "GitHub repository"@)
    } else if phase == "resolve-stack"@ {
        ("Resolving"@, "stack"@)
    } else if phase == "resolve-stack-comment"@ {
        ("Resolving"@, "stack comment"@)
    } else if phase == "resolve-prs"@ {
        ("Resolving"@, "pull requests"@)
    } else if phase == "resolve-target"@ {
        ("Resolving"@, "target"@)
    } else if phase == "resolve-fetched-heads"@ {
        ("Resolving"@, "fetched heads"@)
    } else if phase == "plan-submit"@ {
        ("Planning"@, "submit"@)
    } else if phase == "validate-submit-bases"@ {
        ("Validating"@, "submit bases"@)
    } else if phase == "validate-frozen"@ {
        ("Validating"@, "frozen bookmarks"@)
    } else if phase == "verify-mutable"@ {
        ("Verifying"@, "mutable changes"@)
    } else if phase == "verify-merge"@ {
        ("Verifying"@, "merge"@)
    } else if phase == "merge-pr-check"@ {
        ("Checking"@, "merge readiness"@)
    } else if phase == "status-aliases"@ {
        ("Checking"@, "jj aliases"@)
    } else if phase == "fetch-branch"@ {
        ("Fetching"@, "branch"@)
    } else if phase == "fetch-stack"@ {
        ("Fetching"@, "stack"@)
    } else if phase == "submit-fetch"@ {
        ("Fetching"@, "remote"@)
    } else if phase == "sync-fetch"@ {
        ("Fetching"@, "trunk"@)
    } else if phase == "push-refs"@ {
        ("Pushing"@, "bookmarks"@)
    } else if phase == "track-branch"@ {
        ("Tracking"@, "branch"@)
    } else if phase == "track-blockers"@ {
        ("Tracking"@, "immutable blockers"@)
    } else if phase == "stack-comments"@ {
        ("Updating"@, "stack comments"@)
    } else if phase == "rebase-stack"@ {
        ("Rebasing"@, "stack"@)
    } else if phase == "move-trunk"@ {
        ("Moving"@, "trunk"@)
    } else if phase == "carry-working-copy"@ {
        ("Moving"@, "working copy"@)
    } else if phase == "merge-push"@ {
        ("Merging"@, "fast-forward push"@)
    } else if phase == "merge-refresh-above"@ {
        ("Refreshing"@, "stack above merge"@)
    } else if phase == "merge-submit"@ {
        ("Submitting"@, "stack"@)
    } else if phase == "freeze-stack"@ {
        ("Freezing"@, "stack bookmarks"@)
    } else if phase == "sync-frozen"@ {
        ("Syncing"@, "frozen bookmarks"@)
    } else if phase == "remove-frozen"@ {
        ("Removing"@, "frozen bookmarks"@)
    } else if phase == "reset-working-copy"@ {
        ("Resetting"@, "working copy"@)
    } else if phase == "sync-submit"@ {
        ("Submitting"@, "stack"@)
    } else if phase == "cleanup-branches"@ {
        ("Cleaning"@, "branches"@)
    } else if phase == "cleanup-merged"@ {
        ("Cleaning"@, "merged branches"@)
    } else {
        ("Running"@, phase)
    }
}

fn pair(verb: &str, message: &str) -> (r: (String, String))
    ensures
        r.0@ == verb@,
        r.1@ == message@,
{
    (verb.to_owned(), message.to_owned())
}

pub fn phase_label(phase: &str) -> (r: (String, String))
    ensures
        (r.0@, r.1@) == phase_words(phase@),
{
    if same(phase, "resolve-github") {
        pair("Resolving", "GitHub repository")
    } else if same(phase, "resolve-stack") {
        pair("Resolving", "stack")
    } else if same(phase, "resolve-stack-comment") {
        pair("Resolving", "stack comment")
    } else if same(phase, "resolve-prs") {
        pair("Resolving", "pull requests")
    } else if same(phase, "resolve-target") {
        pair("Resolving", "target")
    } else if same(phase, "resolve-fetched-heads") {
        pair("Resolving", "fetched heads")
    } else if same(phase, "plan-submit") {
        pair("Planning", "submit")
    } else if same(phase, "validate-submit-bases") {
        pair("Validating", "submit bases")
    } else if same(phase, "validate-frozen") {
        pair("Validating", "frozen bookmarks")
    } else if same(phase, "verify-mutable") {
        pair("Verifying", "mutable changes")
    } else if same(phase, "verify-merge") {
        pair("Verifying", "merge")
    } else if same(phase, "merge-pr-check") {
        pair("Checking", "merge readiness")
    } else if same(phase, "status-aliases") {
        pair("Checking", "jj aliases")
    } else if same(phase, "fetch-branch") {
        pair("Fetching", "branch")
    } else if same(phase, "fetch-stack") {
        pair("Fetching", "stack")
    } else if same(phase, "submit-fetch") {
        pair("Fetching", "remote")
    } else if same(phase, "sync-fetch") {
        pair("Fetching", "trunk")
    } else if same(phase, "push-refs") {
        pair("Pushing", "bookmarks")
    } else if same(phase, "track-branch") {
        pair("Tracking", "branch")
    } else if same(phase, "track-blockers") {
        pair("Tracking", "immutable blockers")
    } else if same(phase, "stack-comments") {
        pair("Updating", "stack comments")
    } else if same(phase, "rebase-stack") {
        pair("Rebasing", "stack")
    } else if same(phase, "move-trunk") {
        pair("Moving", "trunk")
    } else if same(phase, "carry-working-copy") {
        pair("Moving", "working copy")
    } else if same(phase, "merge-push") {
        pair("Merging", "fast-forward push")
    } else if same(phase, "merge-refresh-above") {
        pair("Refreshing", "stack above merge")
    } else if same(phase, "merge-submit") {
        pair("Submitting", "stack")
    } else if same(phase, "freeze-stack") {
        pair("Freezing", "stack bookmarks")
    } else if same(phase, "sync-frozen") {
        pair("Syncing", "frozen bookmarks")
    } else if same(phase, "remove-frozen") {
        pair("Removing", "frozen bookmarks")
    } else if same(phase, "reset-working-copy") {
        pair("Resetting", "working copy")
    } else if same(phase, "sync-submit") {
        pair("Submitting", "stack")
    } else if same(phase, "cleanup-branches") {
        pair("Cleaning", "branches")
    } else if same(phase, "cleanup-merged") {
        pair("Cleaning", "merged branches")
    } else {
        pair("Running", phase)
    }
}

/// The lines of output that announce a phase.
pub open spec fn phase_said(diagnostics: Diagnostics, phase: Seq<char>) -> Seq<Event> {
    if !diagnostics.dry_run && phase != "save-cache"@ && phase != "write-cache"@ {
        seq![
            Event::Said(
                LineView::Progress { verb: phase_words(phase).0, message: phase_words(phase).1 },
            ),
        ]
    } else {
        seq![]
    }
}

/// The lines of output that a step of a plan gives.
pub open spec fn plan_said(diagnostics: Diagnostics, line: Seq<char>) -> Seq<Event> {
    if diagnostics.dry_run {
        seq![Event::Said(LineView::Info(line))]
    } else {
        seq![]
    }
}

/// The line that a warning for the log gives.
pub open spec fn logged(message: Seq<char>) -> Seq<Event> {
    seq![Event::Said(LineView::Log(message))]
}

/// The line that a failure which stops nothing leaves in the log.
pub open spec fn failure_logged<T>(lead: Seq<char>, r: Result<T, Seq<CauseView>>) -> Seq<Event> {
    match r {
        Ok(_) => seq![],
        Err(e) => logged(lead + error::chain_text(e)),
    }
}

/// Writes a warning to the log.
pub fn log_warning<H: Host>(sh: &mut Shell<H>, message: &str)
    ensures
        record::extends(old(sh).log(), final(sh).log()),
        final(sh).log() == old(sh).log() + logged(message@),
{
    sh.say(Line::Log(message.to_owned()));
    assert(sh.log() =~= old(sh).log() + logged(message@));
}

impl Diagnostics {
    /// Writes a warning to the log.
    pub fn warn<H: Host>(self, sh: &mut Shell<H>, message: &str)
        ensures
            record::extends(old(sh).log(), final(sh).log()),
            final(sh).log() == old(sh).log() + logged(message@),
    {
        log_warning(sh, message);
    }

    /// Announces a phase. A dry run narrates by its plan instead.
    pub fn phase<H: Host>(self, sh: &mut Shell<H>, phase: &str)
        ensures
            record::extends(old(sh).log(), final(sh).log()),
            final(sh).log() == old(sh).log() + phase_said(self, phase@),
    {
        if !self.dry_run && !same(phase, "save-cache") && !same(phase, "write-cache") {
            let (verb, message) = phase_label(phase);
            sh.progress(&verb, &message);
        }
        assert(sh.log() =~= old(sh).log() + phase_said(self, phase@));
    }

    /// Shows a step of the plan of a dry run.
    pub fn plan_line<H: Host>(self, sh: &mut Shell<H>, line: &str)
        ensures
            record::extends(old(sh).log(), final(sh).log()),
            final(sh).log() == old(sh).log() + plan_said(self, line@),
    {
        if self.dry_run {
            sh.say(Line::Info(line.to_owned()));
        }
        assert(sh.log() =~= old(sh).log() + plan_said(self, line@));
    }

    /// Shows the steps of the plan of a dry run.
    pub fn plan_lines<H: Host>(self, sh: &mut Shell<H>, rows: &Vec<String>)
        ensures
            record::extends(old(sh).log(), final(sh).log()),
            final(sh).log() == old(sh).log() + plan_rows_said(self, rows.deep_view()),
    {
        let ghost start = sh.log();
        let ghost view = rows.deep_view();
        let mut i: usize = 0;
        assert(sh.log() =~= start + plan_rows_said(self, view.take(0)));
        while i < rows.len()
            invariant
                i <= rows@.len(),
                view == rows.deep_view(),
                sh.log() == start + plan_rows_said(self, view.take(i as int)),
            decreases rows@.len() - i,
        {
            assert(view.take(i + 1).drop_last() =~= view.take(i as int));
            assert(view.take(i + 1).last() == rows@[i as int]@);
            self.plan_line(sh, &rows[i]);
            assert(sh.log() =~= start + plan_rows_said(self, view.take(i + 1)));
            i = i + 1;
        }
        assert(view.take(i as int) =~= view);
    }

    /// Whether a row of steps is shown.
    pub open spec fn shows_steps(self, total: nat) -> bool {
        !self.dry_run && total > 0
    }

    /// Begins a row of steps; the host shows it as a bar, or as a line where it cannot.
    pub fn progress_bar<H: Host>(self, sh: &mut Shell<H>, verb: &str, message: &str, total: usize) -> (r:
        bool)
        ensures
            record::extends(old(sh).log(), final(sh).log()),
            r == self.shows_steps(total as nat),
            final(sh).log() == old(sh).log() + steps_said(self, verb@, message@, total),
    {
        if self.dry_run || total == 0 {
            assert(sh.log() =~= old(sh).log() + steps_said(self, verb@, message@, total));
            return false;
        }
        sh.say(Line::Steps { verb: verb.to_owned(), message: message.to_owned(), total });
        assert(sh.log() =~= old(sh).log() + steps_said(self, verb@, message@, total));
        true
    }
}

/// The lines of output that the steps of a plan give.
pub open spec fn plan_rows_said(diagnostics: Diagnostics, rows: Seq<Seq<char>>) -> Seq<Event>
    decreases rows.len(),
{
    if rows.len() == 0 {
        seq![]
    } else {
        plan_rows_said(diagnostics, rows.drop_last()) + plan_said(diagnostics, rows.last())
    }
}

/// The lines of output that begin a row of steps.
pub open spec fn steps_said(
    diagnostics: Diagnostics,
    verb: Seq<char>,
    message: Seq<char>,
    total: usize,
) -> Seq<Event> {
    if diagnostics.shows_steps(total as nat) {
        seq![Event::Said(LineView::Steps { verb, message, total })]
    } else {
        seq![]
    }
}

/// The lines of output after so many steps of a row.
pub open spec fn step_said(shown: bool, done: usize) -> Seq<Event> {
    if shown {
        seq![Event::Said(LineView::StepsAt(done))]
    } else {
        seq![]
    }
}

/// The lines of output at the end of a row of steps.
pub open spec fn steps_ended(shown: bool) -> Seq<Event> {
    if shown {
        seq![Event::Said(LineView::StepsEnd)]
    } else {
        seq![]
    }
}

pub fn say_step<H: Host>(sh: &mut Shell<H>, shown: bool, done: usize)
    ensures
        record::extends(old(sh).log(), final(sh).log()),
        final(sh).log() == old(sh).log() + step_said(shown, done),
{
    if shown {
        sh.say(Line::StepsAt(done));
    }
    assert(sh.log() =~= old(sh).log() + step_said(shown, done));
}

pub fn ui_finish_progress_bar<H: Host>(sh: &mut Shell<H>, shown: bool)
    ensures
        record::extends(old(sh).log(), final(sh).log()),
        final(sh).log() == old(sh).log() + steps_ended(shown),
{
    if shown {
        sh.say(Line::StepsEnd);
    }
    assert(sh.log() =~= old(sh).log() + steps_ended(shown));
}

} // verus!
