//! The commands, from their arguments to the line that says how they ended.

use vstd::prelude::*;

use crate::bookmarks;
use crate::bookmarks::frozen_bookmarks;
use crate::config;
use crate::config::{ensure_jj_repo, ensure_startup_config};
use crate::context;
use crate::context::{resolve_stack_context, say_context};
use crate::error;
use crate::error::{CauseView, Error, phase_error};
use crate::get;
use crate::get::{GetSummary, get_stack};
use crate::merge;
use crate::merge::{MergeSummary, merge_stack, refresh_stack_above_merge};
use crate::model::{
    AppConfig, AppConfigView, AppContext, AppContextView, Diagnostics, Duplicate, FrozenBookmark,
    FrozenBookmarkView, GitHubContext, GitHubContextView, MergeRevset, MergeTargetView,
    StatusReport, StatusReportView,
};
use crate::output;
use crate::output::display_command;
use crate::pr;
use crate::pr::{Platform, hash_text, open_url, resolve_pr_url};
use crate::record;
use crate::record::{Event, LineView};
use crate::repair;
use crate::repair::{RepairSummary, repair_stack_comments};
use crate::revsets;
use crate::revsets::effective_merge_revset;
use crate::shell::{Host, Line};
use crate::shell::wire::Shell;
use crate::stack;
use crate::stack::{DEFAULT_STACK_REVSET, short_change_id, short_commit_id};
use crate::status;
use crate::status::{print_status_report, status_report, text_of_bool};
use crate::submit;
use crate::submit::{SubmitSummary, submit_stack};
use crate::sync;
use crate::sync::{SyncSummary, sync_stack};
use crate::text;
use crate::text::{cat, cat3, cat5, cat7, copy_list, number_text, words};
use crate::unfreeze;
use crate::unfreeze::unfreeze_stack;

verus! {

broadcast use crate::record::group_record;

/// A command with its arguments.
pub enum Command {
    Submit { yes: bool },
    Sync { submit: bool, yes: bool },
    Merge { choice: Option<String>, no_require_approval: bool, admin: bool },
    Get { target: String, no_edit: bool },
    Repair { target: String, yes: bool },
    Unfreeze { target: String },
    Status { json: bool },
    Pr { choice: Option<String> },
    Ui { all: bool, revset: Option<String>, args: Vec<String> },
}

pub enum CommandView {
    Submit { yes: bool },
    Sync { submit: bool, yes: bool },
    Merge { choice: Option<Seq<char>>, no_require_approval: bool, admin: bool },
    Get { target: Seq<char>, no_edit: bool },
    Repair { target: Seq<char>, yes: bool },
    Unfreeze { target: Seq<char> },
    Status { json: bool },
    Pr { choice: Option<Seq<char>> },
    Ui { all: bool, revset: Option<Seq<char>>, args: Seq<Seq<char>> },
}

impl View for Command {
    type V = CommandView;

    open spec fn view(&self) -> CommandView {
        match self {
            Command::Submit { yes } => CommandView::Submit { yes: *yes },
            Command::Sync { submit, yes } => CommandView::Sync { submit: *submit, yes: *yes },
            Command::Merge { choice, no_require_approval, admin } => CommandView::Merge {
                choice: choice.deep_view(),
                no_require_approval: *no_require_approval,
                admin: *admin,
            },
            Command::Get { target, no_edit } => CommandView::Get {
                target: target@,
                no_edit: *no_edit,
            },
            Command::Repair { target, yes } => CommandView::Repair { target: target@, yes: *yes },
            Command::Unfreeze { target } => CommandView::Unfreeze { target: target@ },
            Command::Status { json } => CommandView::Status { json: *json },
            Command::Pr { choice } => CommandView::Pr { choice: choice.deep_view() },
            Command::Ui { all, revset, args } => CommandView::Ui {
                all: *all,
                revset: revset.deep_view(),
                args: args.deep_view(),
            },
        }
    }
}

pub open spec fn command_name(command: CommandView) -> Seq<char> {
    match command {
        CommandView::Submit { .. } => "submit"@,
        CommandView::Sync { .. } => "sync"@,
        CommandView::Merge { .. } => "merge"@,
        CommandView::Get { .. } => "get"@,
        CommandView::Repair { .. } => "repair"@,
        CommandView::Unfreeze { .. } => "unfreeze"@,
        CommandView::Status { .. } => "status"@,
        CommandView::Pr { .. } => "pr"@,
        CommandView::Ui { .. } => "ui"@,
    }
}

impl Command {
    pub fn name(&self) -> (r: String)
        ensures
            r@ == command_name(self@),
    {
        match self {
            Command::Submit { .. } => "submit".to_owned(),
            Command::Sync { .. } => "sync".to_owned(),
            Command::Merge { .. } => "merge".to_owned(),
            Command::Get { .. } => "get".to_owned(),
            Command::Repair { .. } => "repair".to_owned(),
            Command::Unfreeze { .. } => "unfreeze".to_owned(),
            Command::Status { .. } => "status".to_owned(),
            Command::Pr { .. } => "pr".to_owned(),
            Command::Ui { .. } => "ui".to_owned(),
        }
    }
}

/// The line that says how a command ended.
pub open spec fn finished(message: Seq<char>) -> Event {
    Event::Said(LineView::Progress { verb: "Finished"@, message })
}

/// A number in a message.
pub open spec fn count_text(n: usize) -> Seq<char> {
    text::decimal(n as nat)
}

pub(crate) fn text_of_count(n: usize) -> (r: String)
    ensures
        r@ == count_text(n),
{
    number_text(n as u64)
}

/// Notes for the standard error, on request.
pub open spec fn note_said(verbose: bool, note: Seq<char>) -> Seq<Event> {
    if verbose {
        seq![Event::Said(LineView::Note(note))]
    } else {
        seq![]
    }
}

fn say_note<H: Host>(sh: &mut Shell<H>, verbose: bool, note: &str)
    ensures
        record::extends(old(sh).log(), final(sh).log()),
        final(sh).log() == old(sh).log() + note_said(verbose, note@),
{
    if verbose {
        sh.say(Line::Note(note.to_owned()));
    }
    assert(sh.log() =~= old(sh).log() + note_said(verbose, note@));
}

// ---------------------------------------------------------------------------
// Submit
// ---------------------------------------------------------------------------

pub open spec fn submit_note(s: SubmitSummary) -> Seq<char> {
    "submit: "@ + count_text(s.pushed_refs) + " pushed, "@ + count_text(s.created_prs)
        + " created, "@ + count_text(s.updated_prs) + " updated, "@ + count_text(s.unchanged_prs)
        + " unchanged, "@ + count_text(s.created_comments) + " comments created, "@ + count_text(
        s.updated_comments,
    ) + " comments updated, "@ + count_text(s.unchanged_comments) + " comments unchanged"@
}

fn submit_note_text(s: &SubmitSummary) -> (r: String)
    ensures
        r@ == submit_note(*s),
{
    let mut note = cat3("submit: ", &text_of_count(s.pushed_refs), " pushed, ");
    note.append(&text_of_count(s.created_prs));
    note.append(" created, ");
    note.append(&text_of_count(s.updated_prs));
    note.append(" updated, ");
    note.append(&text_of_count(s.unchanged_prs));
    note.append(" unchanged, ");
    note.append(&text_of_count(s.created_comments));
    note.append(" comments created, ");
    note.append(&text_of_count(s.updated_comments));
    note.append(" comments updated, ");
    note.append(&text_of_count(s.unchanged_comments));
    note.append(" comments unchanged");
    note
}

pub open spec fn submit_end(changes: usize, s: SubmitSummary, dry_run: bool) -> Seq<char> {
    if dry_run {
        "submit (dry run) — "@ + count_text(changes) + " changes, "@ + count_text(s.pushed_refs)
            + " pushes, "@ + count_text(s.created_prs) + " creates, "@ + count_text(s.updated_prs)
            + " updates planned"@
    } else {
        "submit — "@ + count_text(changes) + " changes, "@ + count_text(s.pushed_refs) + " pushed, "@
            + count_text(s.created_prs) + " created, "@ + count_text(s.updated_prs) + " updated"@
    }
}

fn submit_end_text(changes: usize, s: &SubmitSummary, dry_run: bool) -> (r: String)
    ensures
        r@ == submit_end(changes, *s, dry_run),
{
    if dry_run {
        let mut end = cat3("submit (dry run) — ", &text_of_count(changes), " changes, ");
        end.append(&text_of_count(s.pushed_refs));
        end.append(" pushes, ");
        end.append(&text_of_count(s.created_prs));
        end.append(" creates, ");
        end.append(&text_of_count(s.updated_prs));
        end.append(" updates planned");
        end
    } else {
        let mut end = cat3("submit — ", &text_of_count(changes), " changes, ");
        end.append(&text_of_count(s.pushed_refs));
        end.append(" pushed, ");
        end.append(&text_of_count(s.created_prs));
        end.append(" created, ");
        end.append(&text_of_count(s.updated_prs));
        end.append(" updated");
        end
    }
}

pub open spec fn submit_told(
    before: Seq<Event>,
    after: Seq<Event>,
    changes: nat,
    done: Result<SubmitSummary, Seq<CauseView>>,
    diagnostics: Diagnostics,
    r: Result<(), Seq<CauseView>>,
) -> bool {
    match done {
        Err(e) => record::stopped(before, after, e, r),
        Ok(s) => {
            &&& after == (before + note_said(diagnostics.verbose, submit_note(s))).push(
                finished(submit_end(changes as usize, s, diagnostics.dry_run)),
            )
            &&& r == Ok::<(), Seq<CauseView>>(())
        },
    }
}

pub open spec fn context_submit_run(
    before: Seq<Event>,
    after: Seq<Event>,
    config: AppConfigView,
    context: AppContextView,
    yes: bool,
    diagnostics: Diagnostics,
    r: Result<(), Seq<CauseView>>,
) -> bool {
    exists|mid: Seq<Event>, done: Result<SubmitSummary, Seq<CauseView>>|
        {
            &&& #[trigger] submit::stack_submitted(
                before + context::context_said(diagnostics.verbose, context),
                mid,
                config,
                context,
                yes,
                "forklift submit --yes"@,
                diagnostics,
                done,
            )
            &&& submit_told(mid, after, context.stack.len(), done, diagnostics, r)
        }
}

fn run_context_submit<H: Host>(
    sh: &mut Shell<H>,
    config: &AppConfig,
    context: &AppContext,
    yes: bool,
    diagnostics: Diagnostics,
) -> (r: Result<(), Error>)
    ensures
        record::extends(old(sh).log(), final(sh).log()),
        context_submit_run(
            old(sh).log(),
            final(sh).log(),
            config@,
            context@,
            yes,
            diagnostics,
            error::res_of(r),
        ),
{
    let ghost start = sh.log();
    say_context(sh, diagnostics.verbose, context);
    let done = submit_stack(sh, config, context, yes, "forklift submit --yes", diagnostics);
    let ghost mid = sh.log();
    let ghost seen = error::res_of(done);
    assert(submit::stack_submitted(
        start + context::context_said(diagnostics.verbose, context@),
        mid,
        config@,
        context@,
        yes,
        "forklift submit --yes"@,
        diagnostics,
        seen,
    ));
    let n: usize = context.stack.len();
    assert(context@.stack.len() == n);
    match done {
        Err(error) => Err(error),
        Ok(s) => {
            say_note(sh, diagnostics.verbose, &submit_note_text(&s));
            sh.progress("Finished", &submit_end_text(n, &s, diagnostics.dry_run));
            assert(submit_told(
                mid,
                sh.log(),
                n as nat,
                seen,
                diagnostics,
                Ok::<(), Seq<CauseView>>(()),
            ));
            Ok(())
        },
    }
}

/// The record from `before` to `after` holds the submit command.
#[verifier::opaque]
pub open spec fn submit_run(
    before: Seq<Event>,
    after: Seq<Event>,
    config: AppConfigView,
    yes: bool,
    diagnostics: Diagnostics,
    r: Result<(), Seq<CauseView>>,
) -> bool {
    exists|mid: Seq<Event>, context: Result<AppContextView, Seq<CauseView>>|
        {
            &&& #[trigger] context::context_resolved(before, mid, DEFAULT_STACK_REVSET@, context)
            &&& match context {
                Err(e) => record::stopped(
                    mid,
                    after,
                    error::phase_failure("resolve-stack"@, DEFAULT_STACK_REVSET@, e),
                    r,
                ),
                Ok(context) => context_submit_run(
                    mid,
                    after,
                    config,
                    context,
                    yes,
                    diagnostics,
                    r,
                ),
            }
        }
}

fn run_submit<H: Host>(sh: &mut Shell<H>, config: &AppConfig, yes: bool, diagnostics: Diagnostics) -> (r:
    Result<(), Error>)
    ensures
        record::extends(old(sh).log(), final(sh).log()),
        submit_run(old(sh).log(), final(sh).log(), config@, yes, diagnostics, error::res_of(r)),
{
    reveal(submit_run);
    let resolved = resolve_stack_context(sh, DEFAULT_STACK_REVSET);
    let ghost seen = error::res(resolved);
    assert(context::context_resolved(old(sh).log(), sh.log(), DEFAULT_STACK_REVSET@, seen));
    match resolved {
        Err(error) => Err(phase_error("resolve-stack", DEFAULT_STACK_REVSET, error)),
        Ok(context) => run_context_submit(sh, config, &context, yes, diagnostics),
    }
}

// ---------------------------------------------------------------------------
// Sync
// ---------------------------------------------------------------------------

/// What became of the submit in a sync.
pub open spec fn submit_word(submit_ran: bool, dry_run: bool) -> Seq<char> {
    if !submit_ran {
        "skipped"@
    } else if dry_run {
        "planned"@
    } else {
        "ran"@
    }
}

pub fn submit_state(submit_ran: bool, dry_run: bool) -> (r: String)
    ensures
        r@ == submit_word(submit_ran, dry_run),
{
    if !submit_ran {
        "skipped".to_owned()
    } else if dry_run {
        "planned".to_owned()
    } else {
        "ran".to_owned()
    }
}

pub open spec fn sync_end(s: SyncSummary, dry_run: bool) -> Seq<char> {
    if dry_run {
        "sync (dry run) — "@ + count_text(s.rebased_roots) + " roots, submit "@ + submit_word(
            s.submit_ran,
            dry_run,
        ) + ", "@ + count_text(s.cleaned_branches) + " merged branch(es) to clean"@
    } else {
        "sync — "@ + count_text(s.rebased_roots) + " roots rebased, submit "@ + submit_word(
            s.submit_ran,
            dry_run,
        ) + ", "@ + count_text(s.cleaned_branches) + " merged branch(es) cleaned"@
    }
}

fn sync_end_text(s: &SyncSummary, dry_run: bool) -> (r: String)
    ensures
        r@ == sync_end(*s, dry_run),
{
    let word = submit_state(s.submit_ran, dry_run);
    let roots = text_of_count(s.rebased_roots);
    let branches = text_of_count(s.cleaned_branches);
    if dry_run {
        cat7(
            "sync (dry run) — ",
            &roots,
            " roots, submit ",
            &word,
            ", ",
            &branches,
            " merged branch(es) to clean",
        )
    } else {
        cat7(
            "sync — ",
            &roots,
            " roots rebased, submit ",
            &word,
            ", ",
            &branches,
            " merged branch(es) cleaned",
        )
    }
}

/// The record from `before` to `after` holds the sync command.
#[verifier::opaque]
pub open spec fn sync_run(
    before: Seq<Event>,
    after: Seq<Event>,
    config: AppConfigView,
    submit: bool,
    yes: bool,
    diagnostics: Diagnostics,
    r: Result<(), Seq<CauseView>>,
) -> bool {
    exists|mid: Seq<Event>, done: Result<SyncSummary, Seq<CauseView>>|
        {
            &&& #[trigger] sync::stack_synced(
                before,
                mid,
                config,
                DEFAULT_STACK_REVSET@,
                submit,
                yes,
                diagnostics,
                done,
            )
            &&& match done {
                Err(e) => record::stopped(mid, after, e, r),
                Ok(s) => after == mid.push(finished(sync_end(s, diagnostics.dry_run))) && r == Ok::<
                    (),
                    Seq<CauseView>,
                >(()),
            }
        }
}

fn run_sync<H: Host>(
    sh: &mut Shell<H>,
    config: &AppConfig,
    submit: bool,
    yes: bool,
    diagnostics: Diagnostics,
) -> (r: Result<(), Error>)
    ensures
        record::extends(old(sh).log(), final(sh).log()),
        sync_run(
            old(sh).log(),
            final(sh).log(),
            config@,
            submit,
            yes,
            diagnostics,
            error::res_of(r),
        ),
{
    reveal(sync_run);
    let done = sync_stack(sh, config, DEFAULT_STACK_REVSET, submit, yes, diagnostics);
    let ghost seen = error::res_of(done);
    assert(sync::stack_synced(
        old(sh).log(),
        sh.log(),
        config@,
        DEFAULT_STACK_REVSET@,
        submit,
        yes,
        diagnostics,
        seen,
    ));
    match done {
        Err(error) => Err(error),
        Ok(s) => {
            sh.progress("Finished", &sync_end_text(&s, diagnostics.dry_run));
            Ok(())
        },
    }
}

// ---------------------------------------------------------------------------
// Merge
// ---------------------------------------------------------------------------

pub open spec fn merge_note(s: MergeSummary) -> Seq<char> {
    "merge: "@ + count_text(s.merged_prs) + " merged, "@ + count_text(s.local_updates)
        + " local updates, "@ + count_text(s.submit_runs) + " submits, "@ + count_text(
        s.cleaned_branches,
    ) + " branches cleaned"@
}

pub open spec fn merge_end(s: MergeSummary, dry_run: bool) -> Seq<char> {
    if dry_run {
        "merge (dry run) — "@ + count_text(s.checked_prs) + " PRs checked"@
    } else {
        "merge — "@ + count_text(s.merged_prs) + " PRs merged, "@ + count_text(s.cleaned_branches)
            + " branches cleaned"@
    }
}

fn merge_note_text(s: &MergeSummary) -> (r: String)
    ensures
        r@ == merge_note(*s),
{
    let mut note = cat5(
        "merge: ",
        &text_of_count(s.merged_prs),
        " merged, ",
        &text_of_count(s.local_updates),
        " local updates, ",
    );
    note.append(&text_of_count(s.submit_runs));
    note.append(" submits, ");
    note.append(&text_of_count(s.cleaned_branches));
    note.append(" branches cleaned");
    note
}

fn merge_end_text(s: &MergeSummary, dry_run: bool) -> (r: String)
    ensures
        r@ == merge_end(*s, dry_run),
{
    if dry_run {
        cat3("merge (dry run) — ", &text_of_count(s.checked_prs), " PRs checked")
    } else {
        cat5(
            "merge — ",
            &text_of_count(s.merged_prs),
            " PRs merged, ",
            &text_of_count(s.cleaned_branches),
            " branches cleaned",
        )
    }
}

/// What is said at the end of a merge.
pub open spec fn merge_said(s: MergeSummary, diagnostics: Diagnostics) -> Seq<Event> {
    note_said(diagnostics.verbose, merge_note(s)).push(
        finished(merge_end(s, diagnostics.dry_run)),
    )
}

fn say_merge<H: Host>(sh: &mut Shell<H>, s: &MergeSummary, diagnostics: Diagnostics)
    ensures
        record::extends(old(sh).log(), final(sh).log()),
        final(sh).log() == old(sh).log() + merge_said(*s, diagnostics),
{
    say_note(sh, diagnostics.verbose, &merge_note_text(s));
    sh.progress("Finished", &merge_end_text(s, diagnostics.dry_run));
    assert(sh.log() =~= old(sh).log() + merge_said(*s, diagnostics));
}

/// The record from `before` to `after` holds how the pull requests above a merged target are brought up
/// to date.
pub open spec fn merge_followed(
    before: Seq<Event>,
    after: Seq<Event>,
    config: AppConfigView,
    s: MergeSummary,
    diagnostics: Diagnostics,
    r: Result<(), Seq<CauseView>>,
) -> bool {
    exists|mid: Seq<Event>, fresh: Result<(), Seq<CauseView>>|
        {
            &&& #[trigger] merge::above_refreshed(
                before,
                mid,
                config,
                DEFAULT_STACK_REVSET@,
                diagnostics,
                fresh,
            )
            &&& match fresh {
                Err(e) => record::stopped(
                    mid,
                    after,
                    error::phase_failure("merge-refresh-above"@, DEFAULT_STACK_REVSET@, e),
                    r,
                ),
                Ok(_) => after == mid + merge_said(s, diagnostics) && r == Ok::<
                    (),
                    Seq<CauseView>,
                >(()),
            }
        }
}

fn follow_merge<H: Host>(
    sh: &mut Shell<H>,
    config: &AppConfig,
    s: &MergeSummary,
    diagnostics: Diagnostics,
) -> (r: Result<(), Error>)
    ensures
        record::extends(old(sh).log(), final(sh).log()),
        merge_followed(old(sh).log(), final(sh).log(), config@, *s, diagnostics, error::res_of(r)),
{
    let fresh = refresh_stack_above_merge(sh, config, DEFAULT_STACK_REVSET, diagnostics);
    let ghost seen = error::res_of(fresh);
    assert(merge::above_refreshed(
        old(sh).log(),
        sh.log(),
        config@,
        DEFAULT_STACK_REVSET@,
        diagnostics,
        seen,
    ));
    match fresh {
        Err(error) => Err(phase_error("merge-refresh-above", DEFAULT_STACK_REVSET, error)),
        Ok(_) => {
            say_merge(sh, s, diagnostics);
            Ok(())
        },
    }
}

/// The configuration of a merge: an administrator, or the user on request, does without approval.
pub open spec fn merge_config(
    config: AppConfigView,
    no_require_approval: bool,
    admin: bool,
) -> AppConfigView {
    if no_require_approval || admin {
        AppConfigView { require_approval: false, ..config }
    } else {
        config
    }
}

pub open spec fn chosen_merge_run(
    before: Seq<Event>,
    after: Seq<Event>,
    config: AppConfigView,
    relaxed: AppConfigView,
    targeted: bool,
    revset: Seq<char>,
    target: Option<MergeTargetView>,
    admin: bool,
    diagnostics: Diagnostics,
    r: Result<(), Seq<CauseView>>,
) -> bool {
    exists|mid: Seq<Event>, done: Result<MergeSummary, Seq<CauseView>>|
        {
            &&& #[trigger] merge::stack_merged(
                before,
                mid,
                relaxed,
                revset,
                target,
                admin,
                diagnostics,
                done,
            )
            &&& match done {
                Err(e) => record::stopped(mid, after, e, r),
                Ok(s) => if !diagnostics.dry_run && s.merged_prs > 0 && targeted {
                    merge_followed(mid, after, config, s, diagnostics, r)
                } else {
                    after == mid + merge_said(s, diagnostics) && r == Ok::<(), Seq<CauseView>>(())
                },
            }
        }
}

fn run_chosen_merge<H: Host>(
    sh: &mut Shell<H>,
    config: &AppConfig,
    relaxed: &AppConfig,
    targeted: bool,
    chosen: &MergeRevset,
    admin: bool,
    diagnostics: Diagnostics,
) -> (r: Result<(), Error>)
    ensures
        record::extends(old(sh).log(), final(sh).log()),
        chosen_merge_run(
            old(sh).log(),
            final(sh).log(),
            config@,
            relaxed@,
            targeted,
            chosen@.revset,
            chosen@.target,
            admin,
            diagnostics,
            error::res_of(r),
        ),
{
    let done = merge_stack(sh, relaxed, &chosen.revset, &chosen.target, admin, diagnostics);
    let ghost seen = error::res_of(done);
    assert(merge::stack_merged(
        old(sh).log(),
        sh.log(),
        relaxed@,
        chosen@.revset,
        chosen@.target,
        admin,
        diagnostics,
        seen,
    ));
    match done {
        Err(error) => Err(error),
        Ok(s) => {
            if !diagnostics.dry_run && s.merged_prs > 0 && targeted {
                return follow_merge(sh, config, &s, diagnostics);
            }
            say_merge(sh, &s, diagnostics);
            Ok(())
        },
    }
}

pub open spec fn target_or(target: Option<Seq<char>>, other: Seq<char>) -> Seq<char> {
    match target {
        Some(target) => target,
        None => other,
    }
}

/// The record from `before` to `after` holds the merge command.
#[verifier::opaque]
pub open spec fn merge_run(
    before: Seq<Event>,
    after: Seq<Event>,
    config: AppConfigView,
    target: Option<Seq<char>>,
    no_require_approval: bool,
    admin: bool,
    diagnostics: Diagnostics,
    r: Result<(), Seq<CauseView>>,
) -> bool {
    exists|
        mid: Seq<Event>,
        chosen: Result<(Seq<char>, Option<MergeTargetView>), Seq<CauseView>>,
    |
        {
            &&& #[trigger] revsets::revset_chosen(before, mid, target, chosen)
            &&& match chosen {
                Err(e) => record::stopped(
                    mid,
                    after,
                    error::phase_failure(
                        "resolve-merge-target"@,
                        target_or(target, DEFAULT_STACK_REVSET@),
                        e,
                    ),
                    r,
                ),
                Ok((revset, at)) => chosen_merge_run(
                    mid,
                    after,
                    config,
                    merge_config(config, no_require_approval, admin),
                    target is Some,
                    revset,
                    at,
                    admin,
                    diagnostics,
                    r,
                ),
            }
        }
}

fn as_text(target: &Option<String>) -> (r: Option<&str>)
    ensures
        r.deep_view() == target.deep_view(),
{
    match target {
        Some(target) => Some(target.as_str()),
        None => None,
    }
}

fn label_or(target: &Option<String>, other: &str) -> (r: String)
    ensures
        r@ == target_or(target.deep_view(), other@),
{
    match target {
        Some(target) => target.clone(),
        None => other.to_owned(),
    }
}

fn run_merge<H: Host>(
    sh: &mut Shell<H>,
    config: &AppConfig,
    target: &Option<String>,
    no_require_approval: bool,
    admin: bool,
    diagnostics: Diagnostics,
) -> (r: Result<(), Error>)
    ensures
        record::extends(old(sh).log(), final(sh).log()),
        merge_run(
            old(sh).log(),
            final(sh).log(),
            config@,
            target.deep_view(),
            no_require_approval,
            admin,
            diagnostics,
            error::res_of(r),
        ),
{
    reveal(merge_run);
    let mut relaxed = config.copy();
    if no_require_approval || admin {
        relaxed.require_approval = false;
    }
    assert(relaxed@ == merge_config(config@, no_require_approval, admin));
    let chosen = effective_merge_revset(sh, as_text(target));
    let ghost seen = revsets::merge_revset_parts(error::res(chosen));
    assert(revsets::revset_chosen(old(sh).log(), sh.log(), target.deep_view(), seen));
    match chosen {
        Err(error) => Err(
            phase_error("resolve-merge-target", &label_or(target, DEFAULT_STACK_REVSET), error),
        ),
        Ok(chosen) => run_chosen_merge(
            sh,
            config,
            &relaxed,
            target.is_some(),
            &chosen,
            admin,
            diagnostics,
        ),
    }
}

// ---------------------------------------------------------------------------
// Get, repair and unfreeze
// ---------------------------------------------------------------------------

pub open spec fn get_end(s: GetSummary, dry_run: bool) -> Seq<char> {
    if dry_run {
        "get (dry run) — "@ + count_text(s.prs) + " PRs, "@ + count_text(s.fetched_branches)
            + " branches planned"@
    } else {
        "get — "@ + count_text(s.prs) + " PRs fetched, "@ + count_text(s.cache_entries)
            + " cache entries written"@ + (if s.edited {
            ", editing new change"@
        } else {
            ""@
        })
    }
}

fn get_end_text(s: &GetSummary, dry_run: bool) -> (r: String)
    ensures
        r@ == get_end(*s, dry_run),
{
    if dry_run {
        cat5(
            "get (dry run) — ",
            &text_of_count(s.prs),
            " PRs, ",
            &text_of_count(s.fetched_branches),
            " branches planned",
        )
    } else {
        let mut end = cat5(
            "get — ",
            &text_of_count(s.prs),
            " PRs fetched, ",
            &text_of_count(s.cache_entries),
            " cache entries written",
        );
        end.append(
            if s.edited {
                ", editing new change"
            } else {
                ""
            },
        );
        end
    }
}

/// The record from `before` to `after` holds the get command.
#[verifier::opaque]
pub open spec fn get_run(
    before: Seq<Event>,
    after: Seq<Event>,
    config: AppConfigView,
    target: Seq<char>,
    edit: bool,
    diagnostics: Diagnostics,
    r: Result<(), Seq<CauseView>>,
) -> bool {
    exists|mid: Seq<Event>, done: Result<GetSummary, Seq<CauseView>>|
        {
            &&& #[trigger] get::stack_got(before, mid, config, target, edit, diagnostics, done)
            &&& match done {
                Err(e) => record::stopped(mid, after, e, r),
                Ok(s) => after == mid.push(finished(get_end(s, diagnostics.dry_run))) && r == Ok::<
                    (),
                    Seq<CauseView>,
                >(()),
            }
        }
}

fn run_get<H: Host>(
    sh: &mut Shell<H>,
    config: &AppConfig,
    target: &str,
    edit: bool,
    diagnostics: Diagnostics,
) -> (r: Result<(), Error>)
    ensures
        record::extends(old(sh).log(), final(sh).log()),
        get_run(
            old(sh).log(),
            final(sh).log(),
            config@,
            target@,
            edit,
            diagnostics,
            error::res_of(r),
        ),
{
    reveal(get_run);
    let done = get_stack(sh, config, target, edit, diagnostics);
    let ghost seen = error::res_of(done);
    assert(get::stack_got(
        old(sh).log(),
        sh.log(),
        config@,
        target@,
        edit,
        diagnostics,
        seen,
    ));
    match done {
        Err(error) => Err(error),
        Ok(s) => {
            sh.progress("Finished", &get_end_text(&s, diagnostics.dry_run));
            Ok(())
        },
    }
}

pub open spec fn repair_end(s: RepairSummary, dry_run: bool) -> Seq<char> {
    if dry_run {
        "repair (dry run) — "@ + count_text(s.open_prs) + " open PRs, "@ + count_text(
            s.pruned_merged_prs,
        ) + " merged PRs to prune, "@ + count_text(s.comments_changed) + " comments planned"@
    } else {
        "repair — "@ + count_text(s.open_prs) + " open PRs, "@ + count_text(s.pruned_merged_prs)
            + " merged PRs pruned, "@ + count_text(s.comments_changed) + " comments changed"@
    }
}

fn repair_end_text(s: &RepairSummary, dry_run: bool) -> (r: String)
    ensures
        r@ == repair_end(*s, dry_run),
{
    let open = text_of_count(s.open_prs);
    let pruned = text_of_count(s.pruned_merged_prs);
    let comments = text_of_count(s.comments_changed);
    if dry_run {
        cat7(
            "repair (dry run) — ",
            &open,
            " open PRs, ",
            &pruned,
            " merged PRs to prune, ",
            &comments,
            " comments planned",
        )
    } else {
        cat7(
            "repair — ",
            &open,
            " open PRs, ",
            &pruned,
            " merged PRs pruned, ",
            &comments,
            " comments changed",
        )
    }
}

/// The record from `before` to `after` holds the repair command.
#[verifier::opaque]
pub open spec fn repair_run(
    before: Seq<Event>,
    after: Seq<Event>,
    config: AppConfigView,
    target: Seq<char>,
    yes: bool,
    diagnostics: Diagnostics,
    r: Result<(), Seq<CauseView>>,
) -> bool {
    exists|mid: Seq<Event>, done: Result<RepairSummary, Seq<CauseView>>|
        {
            &&& #[trigger] repair::comments_repaired(before, mid, config, target, yes, diagnostics, done)
            &&& match done {
                Err(e) => record::stopped(mid, after, e, r),
                Ok(s) => after == mid.push(finished(repair_end(s, diagnostics.dry_run))) && r
                    == Ok::<(), Seq<CauseView>>(()),
            }
        }
}

fn run_repair<H: Host>(
    sh: &mut Shell<H>,
    config: &AppConfig,
    target: &str,
    yes: bool,
    diagnostics: Diagnostics,
) -> (r: Result<(), Error>)
    ensures
        record::extends(old(sh).log(), final(sh).log()),
        repair_run(
            old(sh).log(),
            final(sh).log(),
            config@,
            target@,
            yes,
            diagnostics,
            error::res_of(r),
        ),
{
    reveal(repair_run);
    let done = repair_stack_comments(sh, config, target, yes, diagnostics);
    let ghost seen = error::res_of(done);
    assert(repair::comments_repaired(
        old(sh).log(),
        sh.log(),
        config@,
        target@,
        yes,
        diagnostics,
        seen,
    ));
    match done {
        Err(error) => Err(error),
        Ok(s) => {
            sh.progress("Finished", &repair_end_text(&s, diagnostics.dry_run));
            Ok(())
        },
    }
}

pub open spec fn unfreeze_end(number: u64, dry_run: bool) -> Seq<char> {
    if dry_run {
        "unfreeze (dry run) — "@ + pr::hash(number) + " planned"@
    } else {
        "unfreeze — "@ + pr::hash(number) + " adopted"@
    }
}

/// The record from `before` to `after` holds the unfreeze command.
#[verifier::opaque]
pub open spec fn unfreeze_run(
    before: Seq<Event>,
    after: Seq<Event>,
    config: AppConfigView,
    target: Seq<char>,
    diagnostics: Diagnostics,
    r: Result<(), Seq<CauseView>>,
) -> bool {
    exists|mid: Seq<Event>, done: Result<u64, Seq<CauseView>>|
        {
            &&& #[trigger] unfreeze::stack_unfrozen(before, mid, config, target, diagnostics, done)
            &&& match done {
                Err(e) => record::stopped(mid, after, e, r),
                Ok(number) => after == mid.push(
                    finished(unfreeze_end(number, diagnostics.dry_run)),
                ) && r == Ok::<(), Seq<CauseView>>(()),
            }
        }
}

fn run_unfreeze<H: Host>(
    sh: &mut Shell<H>,
    config: &AppConfig,
    target: &str,
    diagnostics: Diagnostics,
) -> (r: Result<(), Error>)
    ensures
        record::extends(old(sh).log(), final(sh).log()),
        unfreeze_run(
            old(sh).log(),
            final(sh).log(),
            config@,
            target@,
            diagnostics,
            error::res_of(r),
        ),
{
    reveal(unfreeze_run);
    let done = unfreeze_stack(sh, config, target, diagnostics);
    let ghost seen = error::res_of(done);
    assert(unfreeze::stack_unfrozen(
        old(sh).log(),
        sh.log(),
        config@,
        target@,
        diagnostics,
        seen,
    ));
    match done {
        Err(error) => Err(error),
        Ok(number) => {
            let end = if diagnostics.dry_run {
                cat3("unfreeze (dry run) — ", &hash_text(number), " planned")
            } else {
                cat3("unfreeze — ", &hash_text(number), " adopted")
            };
            sh.progress("Finished", &end);
            Ok(())
        },
    }
}

/// The record from `before` to `after` holds the adoption of each frozen bookmark in turn, up to the
/// first failure.
pub open spec fn all_unfrozen(
    before: Seq<Event>,
    after: Seq<Event>,
    config: AppConfigView,
    bookmarks: Seq<FrozenBookmarkView>,
    at: int,
    diagnostics: Diagnostics,
    r: Result<usize, Seq<CauseView>>,
) -> bool
    decreases bookmarks.len() - at,
{
    if at >= bookmarks.len() {
        after == before && r == Ok::<usize, Seq<CauseView>>(bookmarks.len() as usize)
    } else {
        exists|mid: Seq<Event>, done: Result<u64, Seq<CauseView>>|
            {
                &&& #[trigger] unfreeze::stack_unfrozen(
                    before,
                    mid,
                    config,
                    text::decimal(bookmarks[at].pr_number as nat),
                    diagnostics,
                    done,
                )
                &&& match done {
                    Err(e) => record::stopped(mid, after, e, r),
                    Ok(_) => all_unfrozen(
                        mid,
                        after,
                        config,
                        bookmarks,
                        at + 1,
                        diagnostics,
                        r,
                    ),
                }
            }
    }
}

fn unfreeze_all<H: Host>(
    sh: &mut Shell<H>,
    config: &AppConfig,
    bookmarks: &Vec<FrozenBookmark>,
    at: usize,
    diagnostics: Diagnostics,
) -> (r: Result<usize, Error>)
    requires
        at <= bookmarks@.len(),
    ensures
        record::extends(old(sh).log(), final(sh).log()),
        all_unfrozen(
            old(sh).log(),
            final(sh).log(),
            config@,
            bookmarks.deep_view(),
            at as int,
            diagnostics,
            error::res_of(r),
        ),
    decreases bookmarks@.len() - at,
{
    let n: usize = bookmarks.len();
    if at == n {
        return Ok(n);
    }
    assert(bookmarks.deep_view()[at as int] == bookmarks@[at as int]@);
    let done = unfreeze_stack(sh, config, &number_text(bookmarks[at].pr_number), diagnostics);
    let ghost seen = error::res_of(done);
    assert(unfreeze::stack_unfrozen(
        old(sh).log(),
        sh.log(),
        config@,
        text::decimal(bookmarks.deep_view()[at as int].pr_number as nat),
        diagnostics,
        seen,
    ));
    match done {
        Err(error) => Err(error),
        Ok(_) => unfreeze_all(sh, config, bookmarks, at + 1, diagnostics),
    }
}

/// The record from `before` to `after` holds the adoption of every frozen dependency, lowest pull
/// request first.
pub open spec fn dependencies_unfrozen(
    before: Seq<Event>,
    after: Seq<Event>,
    config: AppConfigView,
    diagnostics: Diagnostics,
    r: Result<usize, Seq<CauseView>>,
) -> bool {
    exists|mid: Seq<Event>|
        {
            &&& #[trigger] record::called(before, mid, "jj"@, bookmarks::frozen_list_args())
            &&& match bookmarks::frozen_list_result(record::last_reply(mid)) {
                Err(e) => record::stopped(
                    mid,
                    after,
                    error::phase_failure("unfreeze-deps"@, "frozen bookmarks"@, e),
                    r,
                ),
                Ok(bookmarks) => all_unfrozen(
                    mid,
                    after,
                    config,
                    bookmarks,
                    0,
                    diagnostics,
                    r,
                ),
            }
        }
}

pub fn unfreeze_all_dependencies<H: Host>(
    sh: &mut Shell<H>,
    config: &AppConfig,
    diagnostics: Diagnostics,
) -> (r: Result<usize, Error>)
    ensures
        record::extends(old(sh).log(), final(sh).log()),
        dependencies_unfrozen(
            old(sh).log(),
            final(sh).log(),
            config@,
            diagnostics,
            error::res_of(r),
        ),
{
    let listed = frozen_bookmarks(sh);
    assert(record::called(old(sh).log(), sh.log(), "jj"@, bookmarks::frozen_list_args()));
    match listed {
        Err(error) => Err(phase_error("unfreeze-deps", "frozen bookmarks", error)),
        Ok(bookmarks) => unfreeze_all(sh, config, &bookmarks, 0, diagnostics),
    }
}

// ---------------------------------------------------------------------------
// Status
// ---------------------------------------------------------------------------

pub open spec fn report_told(
    before: Seq<Event>,
    after: Seq<Event>,
    report: StatusReportView,
    json: bool,
    r: Result<(), Seq<CauseView>>,
) -> bool {
    if json {
        report_written(before, after, report, r)
    } else {
        after == before + status::report_said(report) && r == Ok::<(), Seq<CauseView>>(())
    }
}

/// The record from `before` to `after` holds the report as a JSON document.
pub open spec fn report_written(
    before: Seq<Event>,
    after: Seq<Event>,
    report: StatusReportView,
    r: Result<(), Seq<CauseView>>,
) -> bool {
    exists|document: Result<Seq<char>, Seq<CauseView>>|
        {
            let mid = before.push(#[trigger] written_event(report, document));
            match document {
                Err(e) => record::stopped(mid, after, error::in_context("serialize status json"@, e), r),
                Ok(text) => after == mid.push(Event::Said(LineView::Out(text))) && r == Ok::<
                    (),
                    Seq<CauseView>,
                >(()),
            }
        }
}

pub open spec fn written_event(
    report: StatusReportView,
    document: Result<Seq<char>, Seq<CauseView>>,
) -> Event {
    Event::StatusWritten { report, document }
}

fn tell_report<H: Host>(sh: &mut Shell<H>, report: &StatusReport, json: bool) -> (r: Result<
    (),
    Error,
>)
    ensures
        record::extends(old(sh).log(), final(sh).log()),
        report_told(old(sh).log(), final(sh).log(), report@, json, error::res_of(r)),
{
    if !json {
        print_status_report(sh, report);
        return Ok(());
    }
    let document = sh.write_status(report);
    let ghost seen = error::res(document);
    assert(sh.log() == old(sh).log().push(written_event(report@, seen)));
    match document {
        Err(error) => Err(error.context("serialize status json")),
        Ok(text) => {
            sh.say(Line::Out(text));
            Ok(())
        },
    }
}

/// The record from `before` to `after` holds the status command.
#[verifier::opaque]
pub open spec fn status_run(
    before: Seq<Event>,
    after: Seq<Event>,
    config: AppConfigView,
    json: bool,
    diagnostics: Diagnostics,
    r: Result<(), Seq<CauseView>>,
) -> bool {
    exists|mid: Seq<Event>, report: Result<StatusReportView, Seq<CauseView>>|
        {
            &&& #[trigger] status::status_reported(
                before,
                mid,
                config,
                DEFAULT_STACK_REVSET@,
                diagnostics,
                report,
            )
            &&& match report {
                Err(e) => record::stopped(
                    mid,
                    after,
                    error::phase_failure("status"@, DEFAULT_STACK_REVSET@, e),
                    r,
                ),
                Ok(report) => report_told(mid, after, report, json, r),
            }
        }
}

fn run_status<H: Host>(
    sh: &mut Shell<H>,
    config: &AppConfig,
    json: bool,
    diagnostics: Diagnostics,
) -> (r: Result<(), Error>)
    ensures
        record::extends(old(sh).log(), final(sh).log()),
        status_run(old(sh).log(), final(sh).log(), config@, json, diagnostics, error::res_of(r)),
{
    reveal(status_run);
    let made = status_report(sh, config, DEFAULT_STACK_REVSET, diagnostics);
    let ghost seen = error::res(made);
    assert(status::status_reported(
        old(sh).log(),
        sh.log(),
        config@,
        DEFAULT_STACK_REVSET@,
        diagnostics,
        seen,
    ));
    match made {
        Err(error) => Err(phase_error("status", DEFAULT_STACK_REVSET, error)),
        Ok(report) => tell_report(sh, &report, json),
    }
}

// ---------------------------------------------------------------------------
// Pull requests in the browser
// ---------------------------------------------------------------------------

pub open spec fn opening(number: u64, url: Seq<char>) -> Event {
    Event::Said(
        LineView::Progress { verb: "Opening"@, message: pr::hash(number) + " — "@ + url },
    )
}

/// The record from `before` to `after` holds the opening of a pull request.
pub open spec fn pr_opened(
    before: Seq<Event>,
    after: Seq<Event>,
    platform: Platform,
    number: u64,
    url: Seq<char>,
    dry_run: bool,
    r: Result<(), Seq<CauseView>>,
) -> bool {
    if dry_run {
        after == before.push(
            finished("pr (dry run) — would open "@ + pr::hash(number) + " at "@ + url),
        ) && r == Ok::<(), Seq<CauseView>>(())
    } else {
        &&& record::called(
            before.push(opening(number, url)),
            after,
            pr::opener(platform),
            pr::opener_args(platform, url),
        )
        &&& r == match pr::open_result(platform, url, record::last_reply(after)) {
            Ok(_) => Ok(()),
            Err(e) => Err(error::phase_failure("open-pr"@, url, e)),
        }
    }
}

fn open_pr<H: Host>(
    sh: &mut Shell<H>,
    platform: Platform,
    number: u64,
    url: &str,
    diagnostics: Diagnostics,
) -> (r: Result<(), Error>)
    ensures
        record::extends(old(sh).log(), final(sh).log()),
        pr_opened(
            old(sh).log(),
            final(sh).log(),
            platform,
            number,
            url@,
            diagnostics.dry_run,
            error::res_of(r),
        ),
{
    if diagnostics.dry_run {
        let mut end = cat3("pr (dry run) — would open ", &hash_text(number), " at ");
        end.append(url);
        sh.progress("Finished", &end);
        return Ok(());
    }
    sh.progress("Opening", &cat3(&hash_text(number), " — ", url));
    match open_url(sh, platform, url) {
        Ok(_) => Ok(()),
        Err(error) => Err(phase_error("open-pr", url, error)),
    }
}

pub open spec fn repo_pr_run(
    before: Seq<Event>,
    after: Seq<Event>,
    config: AppConfigView,
    repo: Seq<char>,
    platform: Platform,
    target: Option<Seq<char>>,
    dry_run: bool,
    r: Result<(), Seq<CauseView>>,
) -> bool {
    exists|mid: Seq<Event>, found: Result<(u64, Seq<char>), Seq<CauseView>>|
        {
            &&& #[trigger] pr::pr_url_resolved(before, mid, config.trunk, repo, target, found)
            &&& match found {
                Err(e) => record::stopped(
                    mid,
                    after,
                    error::phase_failure("resolve-pr"@, target_or(target, "@"@), e),
                    r,
                ),
                Ok((number, url)) => pr_opened(mid, after, platform, number, url, dry_run, r),
            }
        }
}

fn run_repo_pr<H: Host>(
    sh: &mut Shell<H>,
    config: &AppConfig,
    github: &GitHubContext,
    platform: Platform,
    target: &Option<String>,
    diagnostics: Diagnostics,
) -> (r: Result<(), Error>)
    ensures
        record::extends(old(sh).log(), final(sh).log()),
        repo_pr_run(
            old(sh).log(),
            final(sh).log(),
            config@,
            github@.repo,
            platform,
            target.deep_view(),
            diagnostics.dry_run,
            error::res_of(r),
        ),
{
    let found = resolve_pr_url(sh, config, github, as_text(target));
    let ghost seen = error::res(found);
    assert(pr::pr_url_resolved(
        old(sh).log(),
        sh.log(),
        config@.trunk,
        github@.repo,
        target.deep_view(),
        seen,
    ));
    match found {
        Err(error) => Err(phase_error("resolve-pr", &label_or(target, "@"), error)),
        Ok((number, url)) => open_pr(sh, platform, number, &url, diagnostics),
    }
}

/// The record from `before` to `after` holds the pr command.
#[verifier::opaque]
pub open spec fn pr_run(
    before: Seq<Event>,
    after: Seq<Event>,
    config: AppConfigView,
    platform: Platform,
    target: Option<Seq<char>>,
    dry_run: bool,
    r: Result<(), Seq<CauseView>>,
) -> bool {
    exists|mid: Seq<Event>, github: Result<GitHubContextView, Seq<CauseView>>|
        {
            &&& #[trigger] context::github_resolved(before, mid, github)
            &&& match github {
                Err(e) => record::stopped(
                    mid,
                    after,
                    error::phase_failure("resolve-github"@, target_or(target, "@"@), e),
                    r,
                ),
                Ok(github) => repo_pr_run(
                    mid,
                    after,
                    config,
                    github.repo,
                    platform,
                    target,
                    dry_run,
                    r,
                ),
            }
        }
}

fn run_pr<H: Host>(
    sh: &mut Shell<H>,
    config: &AppConfig,
    platform: Platform,
    target: &Option<String>,
    diagnostics: Diagnostics,
) -> (r: Result<(), Error>)
    ensures
        record::extends(old(sh).log(), final(sh).log()),
        pr_run(
            old(sh).log(),
            final(sh).log(),
            config@,
            platform,
            target.deep_view(),
            diagnostics.dry_run,
            error::res_of(r),
        ),
{
    reveal(pr_run);
    let resolved = GitHubContext::resolve(sh);
    let ghost seen = error::res(resolved);
    assert(context::github_resolved(old(sh).log(), sh.log(), seen));
    match resolved {
        Err(error) => Err(phase_error("resolve-github", &label_or(target, "@"), error)),
        Ok(github) => run_repo_pr(sh, config, &github, platform, target, diagnostics),
    }
}

// ---------------------------------------------------------------------------
// The stacks in jjui
// ---------------------------------------------------------------------------

/// The arguments for jjui: the revset to show, unless jjui is to choose, and what the user adds.
pub open spec fn ui_args(
    branch_prefix: Seq<char>,
    all: bool,
    revset: Option<Seq<char>>,
    args: Seq<Seq<char>>,
) -> Seq<Seq<char>> {
    if all {
        args
    } else {
        seq!["-r"@, target_or(revset, crate::tracked_stacks(branch_prefix))] + args
    }
}

fn ui_words(branch_prefix: &str, all: bool, revset: &Option<String>, args: &Vec<String>) -> (r: Vec<
    String,
>)
    ensures
        r.deep_view() == ui_args(branch_prefix@, all, revset.deep_view(), args.deep_view()),
{
    let mut more = copy_list(args);
    if all {
        return more;
    }
    let shown = match revset {
        Some(revset) => revset.clone(),
        None => crate::tracked_stacks_revset(branch_prefix),
    };
    let mut out = words(&["-r", &shown]);
    let ghost head = out.deep_view();
    let ghost tail = more.deep_view();
    out.append(&mut more);
    assert(out.deep_view() =~= head + tail);
    assert(out.deep_view() =~= ui_args(
        branch_prefix@,
        all,
        revset.deep_view(),
        args.deep_view(),
    ));
    out
}

/// The record from `before` to `after` holds the ui command.
#[verifier::opaque]
pub open spec fn ui_run(
    before: Seq<Event>,
    after: Seq<Event>,
    args: Seq<Seq<char>>,
    dry_run: bool,
    r: Result<(), Seq<CauseView>>,
) -> bool {
    if dry_run {
        after == before.push(
            finished("ui (dry run) — would run `"@ + output::shown("jjui"@, args) + "`"@),
        ) && r == Ok::<(), Seq<CauseView>>(())
    } else {
        ui_attached(before, after, args, r)
    }
}

pub open spec fn attached_event(args: Seq<Seq<char>>, ended: Result<(), Seq<CauseView>>) -> Event {
    Event::Attached { program: "jjui"@, args, ended }
}

pub open spec fn ui_attached(
    before: Seq<Event>,
    after: Seq<Event>,
    args: Seq<Seq<char>>,
    r: Result<(), Seq<CauseView>>,
) -> bool {
    exists|ended: Result<(), Seq<CauseView>>|
        {
            &&& after == before.push(#[trigger] attached_event(args, ended))
            &&& r == match ended {
                Ok(_) => Ok::<(), Seq<CauseView>>(()),
                Err(e) => Err(error::phase_failure("ui"@, "jjui"@, e)),
            }
        }
}

fn run_ui<H: Host>(
    sh: &mut Shell<H>,
    config: &AppConfig,
    all: bool,
    revset: &Option<String>,
    args: &Vec<String>,
    diagnostics: Diagnostics,
) -> (r: Result<(), Error>)
    ensures
        record::extends(old(sh).log(), final(sh).log()),
        ui_run(
            old(sh).log(),
            final(sh).log(),
            ui_args(config@.branch_prefix, all, revset.deep_view(), args.deep_view()),
            diagnostics.dry_run,
            error::res_of(r),
        ),
{
    reveal(ui_run);
    let args = ui_words(&config.branch_prefix, all, revset, args);
    if diagnostics.dry_run {
        sh.progress(
            "Finished",
            &cat3("ui (dry run) — would run `", &display_command("jjui", &args), "`"),
        );
        return Ok(());
    }
    let ended = sh.attach("jjui", &args);
    let ghost seen = error::res_of(ended);
    assert(sh.log() == old(sh).log().push(attached_event(args.deep_view(), seen)));
    match ended {
        Ok(_) => Ok(()),
        Err(error) => Err(phase_error("ui", "jjui", error)),
    }
}

// ---------------------------------------------------------------------------
// Adopting a branch
// ---------------------------------------------------------------------------

pub open spec fn adopt_start(dry_run: bool) -> Seq<char> {
    if dry_run {
        "track (dry run) — would adopt"@
    } else {
        "track — adopted"@
    }
}

/// How the adoption of a branch ended.
pub open spec fn adopt_end(
    dry_run: bool,
    pr_number: Option<u64>,
    head_branch: Seq<char>,
    change_id: Seq<char>,
) -> Seq<char> {
    match pr_number {
        Some(number) => adopt_start(dry_run) + " "@ + pr::hash(number) + " as `"@ + head_branch + "` ("@
            + stack::short_id(change_id) + ")"@,
        None => adopt_start(dry_run) + " branch `"@ + head_branch + "` locally ("@ + stack::short_id(
            change_id,
        ) + ") — no open PR; run `forklift submit` to open one"@,
    }
}

pub fn track_end(
    dry_run: bool,
    pr_number: Option<u64>,
    head_branch: &str,
    change_id: &str,
) -> (r: String)
    ensures
        r@ == adopt_end(dry_run, pr_number, head_branch@, change_id@),
{
    let start = if dry_run {
        "track (dry run) — would adopt"
    } else {
        "track — adopted"
    };
    match pr_number {
        Some(number) => {
            let mut end = cat5(start, " ", &hash_text(number), " as `", head_branch);
            end.append("` (");
            end.append(&short_change_id(change_id));
            end.append(")");
            end
        },
        None => {
            let mut end = cat5(
                start,
                " branch `",
                head_branch,
                "` locally (",
                &short_change_id(change_id),
            );
            end.append(") — no open PR; run `forklift submit` to open one");
            end
        },
    }
}

/// What is said of an adopted branch that is not part of the current stack.
pub open spec fn outside_note(pr_number: Option<u64>, commit_id: Seq<char>) -> Seq<char> {
    stack::short_id(commit_id)
        + " is not in the current stack (trunk()..@); `forklift submit`/`sync` will "@ + (
    match pr_number {
        Some(number) => "update "@ + pr::hash(number),
        None => "submit it"@,
    }) + " once @ moves onto it"@
}

pub fn track_note(pr_number: Option<u64>, commit_id: &str) -> (r: String)
    ensures
        r@ == outside_note(pr_number, commit_id@),
{
    let tail = match pr_number {
        Some(number) => cat("update ", &hash_text(number)),
        None => "submit it".to_owned(),
    };
    let mut note = cat3(
        &short_commit_id(commit_id),
        " is not in the current stack (trunk()..@); `forklift submit`/`sync` will ",
        &tail,
    );
    note.append(" once @ moves onto it");
    note
}

// ---------------------------------------------------------------------------
// Any command
// ---------------------------------------------------------------------------

/// The record from `before` to `after` holds a command in a configured repository.
pub open spec fn configured_run(
    before: Seq<Event>,
    after: Seq<Event>,
    config: AppConfigView,
    command: CommandView,
    platform: Platform,
    diagnostics: Diagnostics,
    r: Result<(), Seq<CauseView>>,
) -> bool {
    match command {
        CommandView::Submit { yes } => submit_run(before, after, config, yes, diagnostics, r),
        CommandView::Sync { submit, yes } => sync_run(
            before,
            after,
            config,
            submit,
            yes,
            diagnostics,
            r,
        ),
        CommandView::Merge { choice, no_require_approval, admin } => merge_run(
            before,
            after,
            config,
            choice,
            no_require_approval,
            admin,
            diagnostics,
            r,
        ),
        CommandView::Get { target, no_edit } => get_run(
            before,
            after,
            config,
            target,
            !no_edit,
            diagnostics,
            r,
        ),
        CommandView::Repair { target, yes } => repair_run(
            before,
            after,
            config,
            target,
            yes,
            diagnostics,
            r,
        ),
        CommandView::Unfreeze { target } => unfreeze_run(
            before,
            after,
            config,
            target,
            diagnostics,
            r,
        ),
        CommandView::Status { json } => status_run(before, after, config, json, diagnostics, r),
        CommandView::Pr { choice } => pr_run(
            before,
            after,
            config,
            platform,
            choice,
            diagnostics.dry_run,
            r,
        ),
        CommandView::Ui { all, revset, args } => ui_run(
            before,
            after,
            ui_args(config.branch_prefix, all, revset, args),
            diagnostics.dry_run,
            r,
        ),
    }
}

fn run_configured<H: Host>(
    sh: &mut Shell<H>,
    config: &AppConfig,
    command: &Command,
    platform: Platform,
    diagnostics: Diagnostics,
) -> (r: Result<(), Error>)
    ensures
        record::extends(old(sh).log(), final(sh).log()),
        configured_run(
            old(sh).log(),
            final(sh).log(),
            config@,
            command@,
            platform,
            diagnostics,
            error::res_of(r),
        ),
{
    match command {
        Command::Submit { yes } => run_submit(sh, config, *yes, diagnostics),
        Command::Sync { submit, yes } => run_sync(sh, config, *submit, *yes, diagnostics),
        Command::Merge { choice, no_require_approval, admin } => run_merge(
            sh,
            config,
            choice,
            *no_require_approval,
            *admin,
            diagnostics,
        ),
        Command::Get { target, no_edit } => run_get(sh, config, target, !*no_edit, diagnostics),
        Command::Repair { target, yes } => run_repair(sh, config, target, *yes, diagnostics),
        Command::Unfreeze { target } => run_unfreeze(sh, config, target, diagnostics),
        Command::Status { json } => run_status(sh, config, *json, diagnostics),
        Command::Pr { choice } => run_pr(sh, config, platform, choice, diagnostics),
        Command::Ui { all, revset, args } => run_ui(
            sh,
            config,
            *all,
            revset,
            args,
            diagnostics,
        ),
    }
}

pub open spec fn config_note(config: AppConfigView) -> Seq<char> {
    "resolved config: remote="@ + config.remote + ", trunk="@ + config.trunk
        + ", require-approval="@ + status::bool_text(config.require_approval) + ", branch-prefix="@
        + config.branch_prefix
}

fn config_note_text(config: &AppConfig) -> (r: String)
    ensures
        r@ == config_note(config@),
{
    let mut note = cat5(
        "resolved config: remote=",
        &config.remote,
        ", trunk=",
        &config.trunk,
        ", require-approval=",
    );
    note.append(&text_of_bool(config.require_approval));
    note.append(", branch-prefix=");
    note.append(&config.branch_prefix);
    note
}

pub open spec fn started_run(
    before: Seq<Event>,
    after: Seq<Event>,
    config: AppConfigView,
    command: CommandView,
    platform: Platform,
    diagnostics: Diagnostics,
    r: Result<(), Seq<CauseView>>,
) -> bool {
    exists|mid: Seq<Event>, ready: Result<(), Seq<CauseView>>|
        {
            &&& #[trigger] config::startup_ensured(before, mid, diagnostics.dry_run, ready)
            &&& match ready {
                Err(e) => record::stopped(
                    mid,
                    after,
                    error::phase_failure("startup-config"@, "jj config"@, e),
                    r,
                ),
                Ok(_) => configured_run(
                    mid + note_said(diagnostics.verbose, config_note(config)),
                    after,
                    config,
                    command,
                    platform,
                    diagnostics,
                    r,
                ),
            }
        }
}

fn run_started<H: Host>(
    sh: &mut Shell<H>,
    config: &AppConfig,
    command: &Command,
    platform: Platform,
    diagnostics: Diagnostics,
) -> (r: Result<(), Error>)
    ensures
        started_run(
            old(sh).log(),
            final(sh).log(),
            config@,
            command@,
            platform,
            diagnostics,
            error::res_of(r),
        ),
{
    let ready = ensure_startup_config(sh, diagnostics);
    let ghost seen = error::res_of(ready);
    assert(config::startup_ensured(old(sh).log(), sh.log(), diagnostics.dry_run, seen));
    match ready {
        Err(error) => Err(phase_error("startup-config", "jj config", error)),
        Ok(_) => {
            say_note(sh, diagnostics.verbose, &config_note_text(config));
            run_configured(sh, config, command, platform, diagnostics)
        },
    }
}

pub open spec fn located_run(
    before: Seq<Event>,
    after: Seq<Event>,
    command: CommandView,
    platform: Platform,
    diagnostics: Diagnostics,
    r: Result<(), Seq<CauseView>>,
) -> bool {
    exists|mid: Seq<Event>, config: Result<AppConfigView, Seq<CauseView>>|
        {
            &&& #[trigger] config::config_resolved(before, mid, config)
            &&& match config {
                Err(e) => record::stopped(
                    mid,
                    after,
                    error::phase_failure("resolve-config"@, "configuration"@, e),
                    r,
                ),
                Ok(config) => started_run(
                    mid,
                    after,
                    config,
                    command,
                    platform,
                    diagnostics,
                    r,
                ),
            }
        }
}

fn run_located<H: Host>(
    sh: &mut Shell<H>,
    command: &Command,
    platform: Platform,
    diagnostics: Diagnostics,
) -> (r: Result<(), Error>)
    ensures
        located_run(
            old(sh).log(),
            final(sh).log(),
            command@,
            platform,
            diagnostics,
            error::res_of(r),
        ),
{
    let resolved = AppConfig::resolve(sh);
    let ghost seen = error::res(resolved);
    assert(config::config_resolved(old(sh).log(), sh.log(), seen));
    match resolved {
        Err(error) => Err(phase_error("resolve-config", "configuration", error)),
        Ok(config) => run_started(sh, &config, command, platform, diagnostics),
    }
}

/// The record from `before` to `after` holds a whole run: the repository and its configuration come
/// first, and the command only where they are in order.
pub open spec fn command_run(
    before: Seq<Event>,
    after: Seq<Event>,
    command: CommandView,
    cwd: Seq<char>,
    platform: Platform,
    diagnostics: Diagnostics,
    r: Result<(), Seq<CauseView>>,
) -> bool {
    exists|mid: Seq<Event>|
        {
            &&& #[trigger] record::called(before, mid, "jj"@, seq!["root"@])
            &&& match config::jj_repo_result(cwd, record::last_reply(mid)) {
                Err(e) => record::stopped(mid, after, error::phase_failure("preflight"@, "jj repo"@, e), r),
                Ok(_) => located_run(mid, after, command, platform, diagnostics, r),
            }
        }
}

pub fn run_command<H: Host>(
    sh: &mut Shell<H>,
    command: &Command,
    cwd: &str,
    platform: Platform,
    diagnostics: Diagnostics,
) -> (r: Result<(), Error>)
    ensures
        command_run(
            old(sh).log(),
            final(sh).log(),
            command@,
            cwd@,
            platform,
            diagnostics,
            error::res_of(r),
        ),
{
    let inside = ensure_jj_repo(sh, cwd);
    assert(record::called(old(sh).log(), sh.log(), "jj"@, seq!["root"@]));
    match inside {
        Err(error) => Err(phase_error("preflight", "jj repo", error)),
        Ok(_) => run_located(sh, command, platform, diagnostics),
    }
}

} // verus!
