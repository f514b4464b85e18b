//! Moving a stack onto its base.

use vstd::prelude::*;

use crate::error;
use crate::error::{CauseView, Error};
use crate::model::{
    AppConfig, AppConfigView, Diagnostics, FrozenBookmark, ResolvedChange, ResolvedChangeView,
    StackResolution, StackResolutionView,
};
use crate::output;
use crate::output::display_command;
use crate::record;
use crate::record::{Event, LineView, Reply};
use crate::repo::git_run_required;
use crate::shell::{Host, Line, jj_checked};
use crate::shell::wire::Shell;
use crate::stack;
use crate::stack::stack_root;
use crate::text::{cat, cat3, cat5, words};

verus! {

broadcast use crate::record::group_record;

/// What a stack is rebased onto.
pub enum RebaseDestination {
    Trunk(String),
    FrozenBookmark(String),
}

pub enum RebaseDestinationView {
    Trunk(Seq<char>),
    FrozenBookmark(Seq<char>),
}

impl View for RebaseDestination {
    type V = RebaseDestinationView;

    open spec fn view(&self) -> RebaseDestinationView {
        match self {
            RebaseDestination::Trunk(rev) => RebaseDestinationView::Trunk(rev@),
            RebaseDestination::FrozenBookmark(rev) => RebaseDestinationView::FrozenBookmark(rev@),
        }
    }
}

impl RebaseDestinationView {
    pub open spec fn rev(self) -> Seq<char> {
        match self {
            RebaseDestinationView::Trunk(rev) => rev,
            RebaseDestinationView::FrozenBookmark(rev) => rev,
        }
    }

    pub open spec fn label(self) -> Seq<char> {
        match self {
            RebaseDestinationView::Trunk(_) => "trunk"@,
            RebaseDestinationView::FrozenBookmark(_) => "frozen dependency"@,
        }
    }
}

impl RebaseDestination {
    pub fn rev(&self) -> (r: String)
        ensures
            r@ == self@.rev(),
    {
        match self {
            RebaseDestination::Trunk(rev) => rev.clone(),
            RebaseDestination::FrozenBookmark(rev) => rev.clone(),
        }
    }

    pub fn label(&self) -> (r: String)
        ensures
            r@ == self@.label(),
    {
        match self {
            RebaseDestination::Trunk(_) => "trunk".to_owned(),
            RebaseDestination::FrozenBookmark(_) => "frozen dependency".to_owned(),
        }
    }
}

/// A stack goes onto the topmost frozen change below it, or else onto trunk.
pub open spec fn destination_of(
    trunk: Seq<char>,
    resolution: StackResolutionView,
) -> RebaseDestinationView {
    if resolution.frozen_dependencies.len() > 0 {
        RebaseDestinationView::FrozenBookmark(resolution.frozen_dependencies.last().bookmark.name)
    } else {
        RebaseDestinationView::Trunk(trunk)
    }
}

pub fn sync_rebase_destination(config: &AppConfig, stack_resolution: &StackResolution) -> (r:
    RebaseDestination)
    ensures
        r@ == destination_of(config@.trunk, stack_resolution@),
{
    let n: usize = stack_resolution.frozen_dependencies.len();
    if n > 0 {
        assert(stack_resolution@.frozen_dependencies.last()
            == stack_resolution.frozen_dependencies@[n - 1]@);
        RebaseDestination::FrozenBookmark(
            stack_resolution.frozen_dependencies[n - 1].bookmark.name.clone(),
        )
    } else {
        RebaseDestination::Trunk(config.trunk.clone())
    }
}

/// The record from `before` to `after` holds one rebase, or in a dry run the plan of it.
pub open spec fn rebase_done(
    before: Seq<Event>,
    after: Seq<Event>,
    root: ResolvedChangeView,
    what: Seq<char>,
    args: Seq<Seq<char>>,
    destination: RebaseDestinationView,
    dry_run: bool,
    r: Result<usize, Seq<CauseView>>,
) -> bool {
    if dry_run {
        &&& after == before.push(
            Event::Said(
                LineView::Info(
                    "- rebase "@ + what + " "@ + root.change_id + " ("@ + root.commit_id
                        + ") onto "@ + destination.label() + " `"@ + destination.rev() + "`"@,
                ),
            ),
        ).push(Event::Said(LineView::Info("- "@ + output::shown("jj"@, args))))
        &&& r == Ok::<usize, Seq<CauseView>>(1)
    } else {
        &&& record::called(before, after, "jj"@, args)
        &&& r == match output::checked("jj"@, args, record::last_reply(after)) {
            Ok(output) => Ok(1usize),
            Err(e) => Err(e),
        }
    }
}

fn rebase_root<H: Host>(
    sh: &mut Shell<H>,
    root: &ResolvedChange,
    what: &str,
    args: &Vec<String>,
    destination: &RebaseDestination,
    diagnostics: Diagnostics,
) -> (r: Result<usize, Error>)
    ensures
        record::extends(old(sh).log(), final(sh).log()),
        rebase_done(
            old(sh).log(),
            final(sh).log(),
            root@,
            what@,
            args.deep_view(),
            destination@,
            diagnostics.dry_run,
            error::res_of(r),
        ),
{
    if diagnostics.dry_run {
        let mut line = cat5("- rebase ", what, " ", &root.change_id, " (");
        line.append(&root.commit_id);
        line.append(") onto ");
        line.append(&destination.label());
        line.append(" `");
        line.append(&destination.rev());
        line.append("`");
        sh.say(Line::Info(line));
        sh.say(Line::Info(cat("- ", &display_command("jj", args))));
        return Ok(1);
    }
    match jj_checked(sh, args) {
        Ok(_) => Ok(1),
        Err(error) => Err(error),
    }
}

pub open spec fn rebase_source_args(source: Seq<char>, onto: Seq<char>) -> Seq<Seq<char>> {
    seq!["rebase"@, "-s"@, source, "-d"@, onto]
}

/// Rebases the root of a stack with all that stands on it.
pub fn rebase_stack_roots<H: Host>(
    sh: &mut Shell<H>,
    stack: &Vec<ResolvedChange>,
    destination: &RebaseDestination,
    diagnostics: Diagnostics,
) -> (r: Result<usize, Error>)
    ensures
        record::extends(old(sh).log(), final(sh).log()),
        roots_rebased(
            old(sh).log(),
            final(sh).log(),
            stack.deep_view(),
            destination@,
            diagnostics.dry_run,
            error::res_of(r),
        ),
{
    let root = match stack_root(stack) {
        Ok(root) => root,
        Err(error) => return Err(error),
    };
    let onto = destination.rev();
    let args = words(&["rebase", "-s", &root.commit_id, "-d", &onto]);
    assert(args.deep_view() =~= rebase_source_args(root@.commit_id, destination@.rev()));
    rebase_root(sh, &root, "stack root", &args, destination, diagnostics)
}

pub open spec fn roots_rebased(
    before: Seq<Event>,
    after: Seq<Event>,
    stack: Seq<ResolvedChangeView>,
    destination: RebaseDestinationView,
    dry_run: bool,
    r: Result<usize, Seq<CauseView>>,
) -> bool {
    match stack::root_result(stack) {
        Err(e) => record::stopped(before, after, e, r),
        Ok(root) => rebase_done(
            before,
            after,
            root,
            "stack root"@,
            rebase_source_args(root.commit_id, destination.rev()),
            destination,
            dry_run,
            r,
        ),
    }
}

pub open spec fn rebase_set_args(revset: Seq<char>, onto: Seq<char>) -> Seq<Seq<char>> {
    seq!["rebase"@, "-r"@, revset, "-d"@, onto]
}

pub open spec fn selection_rebased(
    before: Seq<Event>,
    after: Seq<Event>,
    revset: Seq<char>,
    stack: Seq<ResolvedChangeView>,
    destination: RebaseDestinationView,
    dry_run: bool,
    r: Result<usize, Seq<CauseView>>,
) -> bool {
    match stack::root_result(stack) {
        Err(e) => record::stopped(before, after, e, r),
        Ok(root) => rebase_done(
            before,
            after,
            root,
            "targeted stack root"@,
            rebase_set_args(revset, destination.rev()),
            destination,
            dry_run,
            r,
        ),
    }
}

/// Rebases just the commits of a revset.
pub fn rebase_selected_stack<H: Host>(
    sh: &mut Shell<H>,
    revset: &str,
    stack: &Vec<ResolvedChange>,
    destination: &RebaseDestination,
    diagnostics: Diagnostics,
) -> (r: Result<usize, Error>)
    ensures
        record::extends(old(sh).log(), final(sh).log()),
        selection_rebased(
            old(sh).log(),
            final(sh).log(),
            revset@,
            stack.deep_view(),
            destination@,
            diagnostics.dry_run,
            error::res_of(r),
        ),
{
    let root = match stack_root(stack) {
        Ok(root) => root,
        Err(error) => return Err(error),
    };
    let onto = destination.rev();
    let args = words(&["rebase", "-r", revset, "-d", &onto]);
    assert(args.deep_view() =~= rebase_set_args(revset@, destination@.rev()));
    rebase_root(sh, &root, "targeted stack root", &args, destination, diagnostics)
}

pub open spec fn rev_parse_args(rev: Seq<char>) -> Seq<Seq<char>> {
    seq!["rev-parse"@, rev]
}

pub open spec fn rev_parse_result(rev: Seq<char>, reply: Reply) -> Result<
    Seq<char>,
    Seq<CauseView>,
> {
    match output::required_output("git"@, rev_parse_args(rev), reply) {
        Ok(id) => Ok(id),
        Err(e) => Err(error::in_context("resolve commit id for `"@ + rev + "`"@, e)),
    }
}

pub fn git_rev_parse<H: Host>(sh: &mut Shell<H>, rev: &str) -> (r: Result<String, Error>)
    ensures
        record::called(old(sh).log(), final(sh).log(), "git"@, rev_parse_args(rev@)),
        error::res(r) == rev_parse_result(rev@, record::last_reply(final(sh).log())),
{
    let args = words(&["rev-parse", rev]);
    assert(args.deep_view() =~= rev_parse_args(rev@));
    match git_run_required(sh, &args) {
        Ok(id) => Ok(id),
        Err(error) => Err(error.context(&cat3("resolve commit id for `", rev, "`"))),
    }
}

pub open spec fn git_ref_of(config: AppConfigView) -> Seq<char> {
    config.remote + "/"@ + config.trunk
}

/// The trunk of the remote, as git names it.
pub fn remote_git_ref(config: &AppConfig) -> (r: String)
    ensures
        r@ == git_ref_of(config@),
{
    cat3(&config.remote, "/", &config.trunk)
}

pub open spec fn jj_ref_of(config: AppConfigView) -> Seq<char> {
    config.trunk + "@"@ + config.remote
}

/// The trunk of the remote, as jj names it.
pub fn remote_jj_ref(config: &AppConfig) -> (r: String)
    ensures
        r@ == jj_ref_of(config@),
{
    cat3(&config.trunk, "@", &config.remote)
}

} // verus!
