//! A stack that trunk has left behind, before it is submitted.

use vstd::prelude::*;

use crate::commands;
use crate::commands::text_of_count;
use crate::error;
use crate::error::{CauseView, CliError, Error, phase_error, report};
use crate::model::{AppConfig, AppConfigView, Diagnostics, ResolvedChange, ResolvedChangeView};
use crate::rebase;
use crate::rebase::{RebaseDestination, RebaseDestinationView, rebase_stack_roots};
use crate::record;
use crate::record::Event;
use crate::shell::Host;
use crate::shell::wire::Shell;
use crate::stack::DEFAULT_STACK_REVSET;
use crate::text::cat5;
use crate::trunk;
use crate::trunk::move_trunk_to_remote;
use crate::ui;

verus! {

broadcast use crate::record::group_record;

pub open spec fn behind_end() -> Seq<char> {
    "submit (dry run) — stack is behind trunk; a real run rebases it, then submits"@
}

/// The record from `before` to `after` holds the rebase of a stack onto trunk. The result says whether
/// the submit can go on; a dry run ends with its plan.
pub open spec fn stack_put_on_trunk(
    before: Seq<Event>,
    after: Seq<Event>,
    trunk: Seq<char>,
    stack: Seq<ResolvedChangeView>,
    diagnostics: Diagnostics,
    r: Result<bool, Seq<CauseView>>,
) -> bool {
    exists|mid: Seq<Event>, rebased: Result<usize, Seq<CauseView>>|
        {
            &&& #[trigger] rebase::roots_rebased(
                before + ui::phase_said(diagnostics, "rebase-stack"@),
                mid,
                stack,
                RebaseDestinationView::Trunk(trunk),
                diagnostics.dry_run,
                rebased,
            )
            &&& match rebased {
                Err(e) => record::stopped(
                    mid,
                    after,
                    error::phase_failure("rebase-stack"@, DEFAULT_STACK_REVSET@, e),
                    r,
                ),
                Ok(_) => if diagnostics.dry_run {
                    after == (mid + ui::plan_said(
                        diagnostics,
                        "- run submit after the rebase"@,
                    )).push(commands::finished(behind_end())) && r == Ok::<bool, Seq<CauseView>>(false)
                } else {
                    after == mid && r == Ok::<bool, Seq<CauseView>>(true)
                },
            }
        }
}

fn put_on_trunk<H: Host>(
    sh: &mut Shell<H>,
    config: &AppConfig,
    stack: &Vec<ResolvedChange>,
    diagnostics: Diagnostics,
) -> (r: Result<bool, Error>)
    ensures
        record::extends(old(sh).log(), final(sh).log()),
        stack_put_on_trunk(
            old(sh).log(),
            final(sh).log(),
            config@.trunk,
            stack.deep_view(),
            diagnostics,
            error::res_of(r),
        ),
{
    let ghost start = sh.log();
    diagnostics.phase(sh, "rebase-stack");
    let destination = RebaseDestination::Trunk(config.trunk.clone());
    let rebased = rebase_stack_roots(sh, stack, &destination, diagnostics);
    let ghost seen = error::res_of(rebased);
    assert(rebase::roots_rebased(
        start + ui::phase_said(diagnostics, "rebase-stack"@),
        sh.log(),
        stack.deep_view(),
        RebaseDestinationView::Trunk(config@.trunk),
        diagnostics.dry_run,
        seen,
    ));
    match rebased {
        Err(error) => Err(phase_error("rebase-stack", DEFAULT_STACK_REVSET, error)),
        Ok(_) => {
            if diagnostics.dry_run {
                diagnostics.plan_line(sh, "- run submit after the rebase");
                sh.progress(
                    "Finished",
                    "submit (dry run) — stack is behind trunk; a real run rebases it, then submits",
                );
                return Ok(false);
            }
            Ok(true)
        },
    }
}

/// The record from `before` to `after` holds how a stack that is behind trunk catches up: trunk moves to
/// the remote trunk, and the stack is rebased onto it.
pub open spec fn stack_caught_up(
    before: Seq<Event>,
    after: Seq<Event>,
    config: AppConfigView,
    stack: Seq<ResolvedChangeView>,
    diagnostics: Diagnostics,
    r: Result<bool, Seq<CauseView>>,
) -> bool {
    exists|mid: Seq<Event>, moved: Result<(), Seq<CauseView>>|
        {
            &&& #[trigger] trunk::trunk_moved(
                before + ui::phase_said(diagnostics, "move-trunk"@),
                mid,
                config,
                diagnostics,
                moved,
            )
            &&& match moved {
                Err(e) => record::stopped(mid, after, error::phase_failure("move-trunk"@, config.trunk, e), r),
                Ok(_) => stack_put_on_trunk(mid, after, config.trunk, stack, diagnostics, r),
            }
        }
}

pub fn catch_up_with_trunk<H: Host>(
    sh: &mut Shell<H>,
    config: &AppConfig,
    stack: &Vec<ResolvedChange>,
    diagnostics: Diagnostics,
) -> (r: Result<bool, Error>)
    ensures
        record::extends(old(sh).log(), final(sh).log()),
        stack_caught_up(
            old(sh).log(),
            final(sh).log(),
            config@,
            stack.deep_view(),
            diagnostics,
            error::res_of(r),
        ),
{
    let ghost start = sh.log();
    diagnostics.phase(sh, "move-trunk");
    let moved = move_trunk_to_remote(sh, config, diagnostics);
    let ghost seen = error::res_of(moved);
    assert(trunk::trunk_moved(
        start + ui::phase_said(diagnostics, "move-trunk"@),
        sh.log(),
        config@,
        diagnostics,
        seen,
    ));
    match moved {
        Err(error) => Err(phase_error("move-trunk", &config.trunk, error)),
        Ok(_) => put_on_trunk(sh, config, stack, diagnostics),
    }
}

/// What a rebase that left so many conflicted changes means for the submit.
pub open spec fn conflicts_result(trunk: Seq<char>, conflicts: usize) -> Result<(), Seq<CauseView>> {
    if conflicts > 0 {
        Err(
            error::phase_failure(
                "rebase-stack"@,
                "stack"@,
                error::reported(
                    error::cli(
                        "rebasing the stack onto trunk `"@ + trunk + "` left "@ + commands::count_text(
                            conflicts,
                        ) + " conflicted change(s)"@,
                    ).fixed_by("resolve the conflicts, then rerun `forklift submit`"@),
                ),
            ),
        )
    } else {
        Ok(())
    }
}

pub fn check_rebase_conflicts(trunk: &str, conflicts: usize) -> (r: Result<(), Error>)
    ensures
        error::res_of(r) == conflicts_result(trunk@, conflicts),
{
    if conflicts > 0 {
        let error = CliError::new(
            &cat5(
                "rebasing the stack onto trunk `",
                trunk,
                "` left ",
                &text_of_count(conflicts),
                " conflicted change(s)",
            ),
        ).resolution("resolve the conflicts, then rerun `forklift submit`");
        return Err(phase_error("rebase-stack", "stack", report(error)));
    }
    Ok(())
}

} // verus!
