//! Repairing stack comments that still list merged pull requests.

use vstd::prelude::*;

use crate::bodies;
use crate::bodies::repaired_stack_comment_body;
use crate::comments;
use crate::comments::{
    StackCommentAction, StackCommentActionView, latest_stack_comment, parse_stack_pr_numbers,
    upsert_stack_comment,
};
use crate::error;
use crate::error::{CauseView, CliError, CliErrorView, Error, fail, report};
use crate::get;
use crate::get::{open_target, reversed, stack_comment_numbers};
use crate::model::{
    AppConfig, AppConfigView, Diagnostics, GhPr, GhPrView, GhStackCommentView, GitHubContext,
    GitHubContextView, RepairAction, RepairActionView, RepairPlan, RepairPlanView, copy_numbers,
};
use crate::plans;
use crate::plans::{bracketed_list, confirm, render_repair_action_plan, repair_pr_list};
use crate::pr;
use crate::pr::{
    GetTarget, GetTargetView, fetch_pr_by_number, hash_text, resolve_get_target_pr, state_is_open,
    validate_get_pr_metadata, validate_get_pr_stack,
};
use crate::record;
use crate::record::{Event, LineView};
use crate::shell::{Host, Line};
use crate::shell::wire::Shell;
use crate::text;
use crate::text::{cat, cat3, cat5, number_text, same_ignoring_case};
use crate::ui;

verus! {

broadcast use crate::record::group_record;

/// What a repair amounted to.
#[derive(Clone, Copy, PartialEq, Eq)]
pub struct RepairSummary {
    pub open_prs: usize,
    pub pruned_merged_prs: usize,
    pub comments_changed: usize,
}

// ---------------------------------------------------------------------------
// What to keep and what to drop
// ---------------------------------------------------------------------------

pub open spec fn is_merged(pr: GhPrView) -> bool {
    pr.merged || text::lower_all(pr.state) == text::lower_all("MERGED"@)
}

pub fn pr_was_merged(pr: &GhPr) -> (r: bool)
    ensures
        r == is_merged(pr@),
{
    pr.merged || same_ignoring_case(&pr.state, "MERGED")
}

pub open spec fn unrepairable(pr: GhPrView, target: u64) -> CliErrorView {
    error::cli("cannot repair stack comment automatically"@).because(
        pr::hash(pr.number) + " is "@ + pr.state + " but not merged"@,
    ).fixed_by(
        "reopen or merge "@ + pr::hash(pr.number)
            + ", or remove it from the stack comment manually, then run `forklift repair "@
            + text::decimal(target as nat) + "`"@,
    ).with("target"@, "#"@ + text::decimal(target as nat)).with(
        "pr"@,
        "#"@ + text::decimal(pr.number as nat),
    ).with("state"@, pr.state)
}

/// Whether a listed pull request stays: an open one does, a merged one goes, any other stops the
/// repair.
pub open spec fn repair_verdict(repo: Seq<char>, target: u64, pr: GhPrView) -> Result<
    bool,
    Seq<CauseView>,
> {
    match pr::metadata_gap(repo, pr) {
        Some(e) => Err(e),
        None => if pr::is_open(pr.state) {
            Ok(true)
        } else if is_merged(pr) {
            Ok(false)
        } else {
            Err(error::reported(unrepairable(pr, target)))
        },
    }
}

pub fn judge_listed_pr(github: &GitHubContext, target: u64, pr: &GhPr) -> (r: Result<bool, Error>)
    ensures
        error::res_of(r) == repair_verdict(github@.repo, target, pr@),
{
    match validate_get_pr_metadata(github, pr) {
        Err(error) => return Err(error),
        Ok(_) => {},
    }
    if state_is_open(&pr.state) {
        return Ok(true);
    }
    if pr_was_merged(pr) {
        return Ok(false);
    }
    let name = hash_text(pr.number);
    let mut reason = cat3(&name, " is ", &pr.state);
    reason.append(" but not merged");
    let fix = cat5(
        "reopen or merge ",
        &name,
        ", or remove it from the stack comment manually, then run `forklift repair ",
        &number_text(target),
        "`",
    );
    Err(
        report(
            CliError::new("cannot repair stack comment automatically").reason(&reason).resolution(
                &fix,
            ).detail("target", &cat("#", &number_text(target))).detail(
                "pr",
                &cat("#", &number_text(pr.number)),
            ).detail("state", &pr.state),
        ),
    )
}

/// The plan of a repair once every listed pull request was judged: those that stay must form a row
/// with the target in it.
pub open spec fn repair_outcome(
    config: AppConfigView,
    github: GitHubContextView,
    target: u64,
    open: Seq<GhPrView>,
    pruned: Seq<u64>,
) -> Result<RepairPlanView, Seq<CauseView>> {
    if !pr::numbers_of(open).contains(target) {
        Err(
            error::plain(
                "repair would remove target "@ + pr::hash(target)
                    + "; choose an open PR still in the stack"@,
            ),
        )
    } else {
        match pr::pr_stack_fault(config, github, target, open) {
            Some(e) => Err(e),
            None => Ok(RepairPlanView { open_prs: open, pruned_merged_prs: pruned }),
        }
    }
}

fn pr_listed(prs: &Vec<GhPr>, number: u64) -> (r: bool)
    ensures
        r == pr::numbers_of(prs.deep_view()).contains(number),
{
    let ghost all = pr::numbers_of(prs.deep_view());
    let mut i: usize = 0;
    while i < prs.len()
        invariant
            i <= prs@.len(),
            all == pr::numbers_of(prs.deep_view()),
            forall|k: int| 0 <= k < i ==> all[k] != number,
        decreases prs@.len() - i,
    {
        assert(all[i as int] == prs@[i as int].number);
        if prs[i].number == number {
            return true;
        }
        i = i + 1;
    }
    false
}

pub fn finish_repair_plan(
    config: &AppConfig,
    github: &GitHubContext,
    target: u64,
    open_prs: Vec<GhPr>,
    pruned_merged_prs: Vec<u64>,
) -> (r: Result<RepairPlan, Error>)
    ensures
        error::res(r) == repair_outcome(
            config@,
            github@,
            target,
            open_prs.deep_view(),
            pruned_merged_prs@,
        ),
{
    if !pr_listed(&open_prs, target) {
        return Err(
            fail(
                &cat3(
                    "repair would remove target ",
                    &hash_text(target),
                    "; choose an open PR still in the stack",
                ),
            ),
        );
    }
    match validate_get_pr_stack(config, github, target, &open_prs) {
        Err(error) => Err(error),
        Ok(_) => Ok(RepairPlan { open_prs, pruned_merged_prs }),
    }
}

/// The record from `before` to `after` holds the request for each listed pull request in turn and
/// what becomes of it.
pub open spec fn repair_walked(
    before: Seq<Event>,
    after: Seq<Event>,
    config: AppConfigView,
    github: GitHubContextView,
    target: u64,
    numbers: Seq<u64>,
    at: int,
    open: Seq<GhPrView>,
    pruned: Seq<u64>,
    r: Result<RepairPlanView, Seq<CauseView>>,
) -> bool
    decreases numbers.len() - at,
{
    if at < 0 || at >= numbers.len() {
        after == before && r == repair_outcome(config, github, target, open, pruned)
    } else if numbers.take(at).contains(numbers[at]) {
        record::stopped(
            before,
            after,
            error::plain("stack comment listed "@ + pr::hash(numbers[at]) + " more than once"@),
            r,
        )
    } else {
        exists|mid: Seq<Event>, fetched: Result<GhPrView, Seq<CauseView>>|
            {
                &&& #[trigger] pr::pr_fetched(
                    before,
                    mid,
                    github.repo,
                    "repair"@,
                    numbers[at],
                    fetched,
                )
                &&& match fetched {
                    Err(e) => record::stopped(mid, after, e, r),
                    Ok(pr) => match repair_verdict(github.repo, target, pr) {
                        Err(e) => record::stopped(mid, after, e, r),
                        Ok(stays) => if stays {
                            repair_walked(
                                mid,
                                after,
                                config,
                                github,
                                target,
                                numbers,
                                at + 1,
                                open.push(pr),
                                pruned,
                                r,
                            )
                        } else {
                            repair_walked(
                                mid,
                                after,
                                config,
                                github,
                                target,
                                numbers,
                                at + 1,
                                open,
                                pruned.push(pr.number),
                                r,
                            )
                        },
                    },
                }
            }
    }
}

fn number_seen(numbers: &Vec<u64>, n: usize, number: u64) -> (r: bool)
    requires
        n <= numbers@.len(),
    ensures
        r == numbers@.take(n as int).contains(number),
{
    let mut i: usize = 0;
    while i < n
        invariant
            i <= n <= numbers@.len(),
            forall|k: int| 0 <= k < i ==> numbers@[k] != number,
        decreases n - i,
    {
        if numbers[i] == number {
            assert(numbers@.take(n as int)[i as int] == number);
            return true;
        }
        i = i + 1;
    }
    false
}

fn walk_repair<H: Host>(
    sh: &mut Shell<H>,
    config: &AppConfig,
    github: &GitHubContext,
    target: u64,
    numbers: &Vec<u64>,
    at: usize,
    open: Vec<GhPr>,
    pruned: Vec<u64>,
) -> (r: Result<RepairPlan, Error>)
    requires
        at <= numbers@.len(),
    ensures
        record::extends(old(sh).log(), final(sh).log()),
        repair_walked(
            old(sh).log(),
            final(sh).log(),
            config@,
            github@,
            target,
            numbers@,
            at as int,
            open.deep_view(),
            pruned@,
            error::res(r),
        ),
    decreases numbers@.len() - at,
{
    if at == numbers.len() {
        return finish_repair_plan(config, github, target, open, pruned);
    }
    if number_seen(numbers, at, numbers[at]) {
        return Err(
            fail(&cat3("stack comment listed ", &hash_text(numbers[at]), " more than once")),
        );
    }
    let ghost start = sh.log();
    let fetched = fetch_pr_by_number(sh, github, "repair", numbers[at]);
    let ghost seen = error::res(fetched);
    assert(pr::pr_fetched(
        start,
        sh.log(),
        github@.repo,
        "repair"@,
        numbers@[at as int],
        seen,
    ));
    let pr = match fetched {
        Ok(pr) => pr,
        Err(error) => return Err(error),
    };
    match judge_listed_pr(github, target, &pr) {
        Err(error) => Err(error),
        Ok(true) => {
            let ghost before = open.deep_view();
            let ghost put = pr@;
            let mut open = open;
            open.push(pr);
            assert(open.deep_view() =~= before.push(put));
            walk_repair(sh, config, github, target, numbers, at + 1, open, pruned)
        },
        Ok(false) => {
            let mut pruned = pruned;
            pruned.push(pr.number);
            walk_repair(sh, config, github, target, numbers, at + 1, open, pruned)
        },
    }
}

pub open spec fn repair_planned(
    before: Seq<Event>,
    after: Seq<Event>,
    config: AppConfigView,
    github: GitHubContextView,
    target: u64,
    numbers: Seq<u64>,
    r: Result<RepairPlanView, Seq<CauseView>>,
) -> bool {
    repair_walked(before, after, config, github, target, numbers, 0, seq![], seq![], r)
}

pub fn plan_stack_comment_repair<H: Host>(
    sh: &mut Shell<H>,
    config: &AppConfig,
    github: &GitHubContext,
    target_pr_number: u64,
    pr_numbers: &Vec<u64>,
) -> (r: Result<RepairPlan, Error>)
    ensures
        record::extends(old(sh).log(), final(sh).log()),
        repair_planned(
            old(sh).log(),
            final(sh).log(),
            config@,
            github@,
            target_pr_number,
            pr_numbers@,
            error::res(r),
        ),
{
    let open: Vec<GhPr> = Vec::new();
    let pruned: Vec<u64> = Vec::new();
    assert(open.deep_view() =~= Seq::<GhPrView>::empty());
    walk_repair(sh, config, github, target_pr_number, pr_numbers, 0, open, pruned)
}

// ---------------------------------------------------------------------------
// Actions
// ---------------------------------------------------------------------------

pub open spec fn repair_action(
    repo: Seq<char>,
    trunk: Seq<char>,
    plan: RepairPlanView,
    pr: GhPrView,
) -> RepairActionView {
    RepairActionView {
        pr_number: pr.number,
        removed_prs: plan.pruned_merged_prs,
        body: bodies::repaired_comment(repo, plan.open_prs, pr.number, trunk),
    }
}

/// If any pull request goes, the comment on each that stays is rewritten.
pub open spec fn actions_of(
    repo: Seq<char>,
    trunk: Seq<char>,
    plan: RepairPlanView,
) -> Seq<RepairActionView> {
    if plan.pruned_merged_prs.len() == 0 {
        seq![]
    } else {
        plan.open_prs.map_values(|pr: GhPrView| repair_action(repo, trunk, plan, pr))
    }
}

pub fn repair_actions(github: &GitHubContext, config: &AppConfig, plan: &RepairPlan) -> (r: Vec<
    RepairAction,
>)
    ensures
        r.deep_view() == actions_of(github@.repo, config@.trunk, plan@),
{
    let mut out: Vec<RepairAction> = Vec::new();
    if plan.pruned_merged_prs.len() == 0 {
        assert(out.deep_view() =~= actions_of(github@.repo, config@.trunk, plan@));
        return out;
    }
    let mut i: usize = 0;
    while i < plan.open_prs.len()
        invariant
            i <= plan.open_prs@.len(),
            out@.len() == i,
            forall|k: int|
                0 <= k < i ==> (#[trigger] out@[k])@ == repair_action(
                    github@.repo,
                    config@.trunk,
                    plan@,
                    plan.open_prs@[k]@,
                ),
        decreases plan.open_prs@.len() - i,
    {
        let number = plan.open_prs[i].number;
        out.push(
            RepairAction {
                pr_number: number,
                removed_prs: copy_numbers(&plan.pruned_merged_prs),
                body: repaired_stack_comment_body(github, &plan.open_prs, number, &config.trunk),
            },
        );
        i = i + 1;
    }
    assert(out.deep_view() =~= actions_of(github@.repo, config@.trunk, plan@));
    out
}

pub open spec fn comment_changed(done: Result<StackCommentActionView, Seq<CauseView>>) -> Result<
    bool,
    Seq<CauseView>,
> {
    match done {
        Err(e) => Err(e),
        Ok(action) => Ok(!(action is Unchanged)),
    }
}

/// The record from `before` to `after` holds how one comment is rewritten.
pub open spec fn action_executed(
    before: Seq<Event>,
    after: Seq<Event>,
    github: GitHubContextView,
    action: RepairActionView,
    r: Result<bool, Seq<CauseView>>,
) -> bool {
    exists|done: Result<StackCommentActionView, Seq<CauseView>>|
        #[trigger] comments::comment_upserted(
            before,
            after,
            github,
            action.pr_number,
            "repair"@,
            action.body,
            done,
        ) && r == comment_changed(done)
}

pub fn execute_repair_action<H: Host>(
    sh: &mut Shell<H>,
    github: &GitHubContext,
    action: &RepairAction,
) -> (r: Result<bool, Error>)
    ensures
        record::extends(old(sh).log(), final(sh).log()),
        action_executed(old(sh).log(), final(sh).log(), github@, action@, error::res_of(r)),
{
    let done = upsert_stack_comment(sh, github, action.pr_number, "repair", &action.body);
    let ghost seen = error::res(done);
    assert(comments::comment_upserted(
        old(sh).log(),
        sh.log(),
        github@,
        action@.pr_number,
        "repair"@,
        action@.body,
        seen,
    ));
    match done {
        Err(error) => Err(error),
        Ok(StackCommentAction::Unchanged(_)) => Ok(false),
        Ok(_) => Ok(true),
    }
}

/// The record from `before` to `after` holds the actions in turn, up to the first failure; so many
/// comments were changed.
pub open spec fn actions_executed(
    before: Seq<Event>,
    after: Seq<Event>,
    github: GitHubContextView,
    actions: Seq<RepairActionView>,
    at: int,
    changed: nat,
    r: Result<nat, Seq<CauseView>>,
) -> bool
    decreases actions.len() - at,
{
    if at < 0 || at >= actions.len() {
        after == before && r == Ok::<nat, Seq<CauseView>>(changed)
    } else {
        exists|mid: Seq<Event>, done: Result<bool, Seq<CauseView>>|
            {
                &&& #[trigger] action_executed(before, mid, github, actions[at], done)
                &&& match done {
                    Err(e) => record::stopped(mid, after, e, r),
                    Ok(hit) => actions_executed(
                        mid,
                        after,
                        github,
                        actions,
                        at + 1,
                        if hit {
                            changed + 1
                        } else {
                            changed
                        },
                        r,
                    ),
                }
            }
    }
}

pub open spec fn as_count(r: Result<usize, Error>) -> Result<nat, Seq<CauseView>> {
    match r {
        Ok(n) => Ok(n as nat),
        Err(error) => Err(error@),
    }
}

fn execute_actions<H: Host>(
    sh: &mut Shell<H>,
    github: &GitHubContext,
    actions: &Vec<RepairAction>,
    at: usize,
    changed: usize,
) -> (r: Result<usize, Error>)
    requires
        changed <= at <= actions@.len(),
    ensures
        record::extends(old(sh).log(), final(sh).log()),
        actions_executed(
            old(sh).log(),
            final(sh).log(),
            github@,
            actions.deep_view(),
            at as int,
            changed as nat,
            as_count(r),
        ),
    decreases actions@.len() - at,
{
    if at == actions.len() {
        return Ok(changed);
    }
    let ghost start = sh.log();
    assert(actions.deep_view()[at as int] == actions@[at as int]@);
    let done = execute_repair_action(sh, github, &actions[at]);
    assert(action_executed(start, sh.log(), github@, actions@[at as int]@, error::res_of(done)));
    match done {
        Err(error) => Err(error),
        Ok(hit) => {
            let changed: usize = if hit {
                changed + 1
            } else {
                changed
            };
            execute_actions(sh, github, actions, at + 1, changed)
        },
    }
}

// ---------------------------------------------------------------------------
// Confirmation
// ---------------------------------------------------------------------------

pub open spec fn repair_command(target: u64) -> Seq<char> {
    "rerun with `forklift repair "@ + text::decimal(target as nat) + " --yes`"@
}

pub open spec fn repair_unasked(target: u64, open: nat) -> CliErrorView {
    error::cli("repair requires confirmation"@).because(
        "repair would update GitHub stack comments, but stdin is not a terminal"@,
    ).fixed_by(repair_command(target)).with("target"@, "#"@ + text::decimal(target as nat)).with(
        "comments"@,
        text::decimal(open),
    )
}

pub open spec fn repair_declined(target: u64) -> CliErrorView {
    error::cli("repair cancelled"@).because("confirmation was not accepted"@).fixed_by(
        repair_command(target),
    )
}

pub open spec fn repair_rows_said(rows: Seq<Seq<char>>) -> Seq<Event> {
    rows.map_values(|line: Seq<char>| Event::Said(LineView::RepairRow(line)))
}

fn say_repair_rows<H: Host>(sh: &mut Shell<H>, rows: &Vec<String>)
    ensures
        record::extends(old(sh).log(), final(sh).log()),
        final(sh).log() == old(sh).log() + repair_rows_said(rows.deep_view()),
{
    let ghost start = sh.log();
    let ghost said = repair_rows_said(rows.deep_view());
    let mut i: usize = 0;
    assert(sh.log() =~= start + said.take(0));
    while i < rows.len()
        invariant
            i <= rows@.len(),
            said == repair_rows_said(rows.deep_view()),
            sh.log() == start + said.take(i as int),
        decreases rows@.len() - i,
    {
        assert(said[i as int] == Event::Said(LineView::RepairRow(rows@[i as int]@)));
        sh.say(Line::RepairRow(rows[i].clone()));
        assert(sh.log() =~= start + said.take(i + 1));
        i = i + 1;
    }
    assert(said.take(i as int) =~= said);
}

/// The record from `before` to `after` holds the plan and the question whether to carry it out.
pub open spec fn repair_confirmed(
    before: Seq<Event>,
    after: Seq<Event>,
    plan: RepairPlanView,
    actions: Seq<RepairActionView>,
    target: u64,
    yes: bool,
    r: Result<(), Seq<CauseView>>,
) -> bool {
    if yes {
        after == before && r == Ok::<(), Seq<CauseView>>(())
    } else {
        plans::asked(
            before + repair_rows_said(plans::repair_plan_lines(plan.pruned_merged_prs, actions)) + seq![
                Event::Said(LineView::Note(""@)),
            ],
            after,
            "repair"@,
            repair_unasked(target, plan.open_prs.len()),
            repair_declined(target),
            r,
        )
    }
}

pub fn confirm_repair_stack_comments<H: Host>(
    sh: &mut Shell<H>,
    plan: &RepairPlan,
    actions: &Vec<RepairAction>,
    target_pr_number: u64,
    yes: bool,
) -> (r: Result<(), Error>)
    ensures
        record::extends(old(sh).log(), final(sh).log()),
        repair_confirmed(
            old(sh).log(),
            final(sh).log(),
            plan@,
            actions.deep_view(),
            target_pr_number,
            yes,
            error::res_of(r),
        ),
{
    if yes {
        return Ok(());
    }
    let ghost start = sh.log();
    let rows = render_repair_action_plan(plan, actions);
    say_repair_rows(sh, &rows);
    sh.say(Line::Note("".to_owned()));
    assert(sh.log() =~= start + repair_rows_said(rows.deep_view()) + seq![
        Event::Said(LineView::Note(""@)),
    ]);
    let number = number_text(target_pr_number);
    let fix = cat3("rerun with `forklift repair ", &number, " --yes`");
    let unasked = CliError::new("repair requires confirmation").reason(
        "repair would update GitHub stack comments, but stdin is not a terminal",
    ).resolution(&fix).detail("target", &cat("#", &number)).detail(
        "comments",
        &number_text(plan.open_prs.len() as u64),
    );
    let declined = CliError::new("repair cancelled").reason(
        "confirmation was not accepted",
    ).resolution(&fix);
    confirm(sh, "repair", unasked, declined)
}

// ---------------------------------------------------------------------------
// Validation
// ---------------------------------------------------------------------------

/// Whether the repaired comment lists just the pull requests that should stay.
pub open spec fn repair_check(planned: RepairPlanView, found: RepairPlanView) -> Result<
    (),
    Seq<CauseView>,
> {
    if found.pruned_merged_prs.len() > 0 {
        Err(
            error::plain(
                "repair validation failed: repaired stack comment still lists merged PR(s): "@
                    + plans::pr_list(found.pruned_merged_prs),
            ),
        )
    } else if pr::numbers_of(found.open_prs) != pr::numbers_of(planned.open_prs) {
        Err(
            error::plain(
                "repair validation failed: stack comment lists "@ + plans::bracketed(
                    pr::numbers_of(found.open_prs),
                ) + ", expected "@ + plans::bracketed(pr::numbers_of(planned.open_prs)),
            ),
        )
    } else {
        Ok(())
    }
}

fn collect_numbers(prs: &Vec<GhPr>) -> (r: Vec<u64>)
    ensures
        r@ == pr::numbers_of(prs.deep_view()),
{
    let mut out: Vec<u64> = Vec::new();
    let mut i: usize = 0;
    while i < prs.len()
        invariant
            i <= prs@.len(),
            out@.len() == i,
            forall|k: int| 0 <= k < i ==> #[trigger] out@[k] == prs@[k]@.number,
        decreases prs@.len() - i,
    {
        out.push(prs[i].number);
        i = i + 1;
    }
    assert(out@ =~= pr::numbers_of(prs.deep_view()));
    out
}

fn same_numbers(a: &Vec<u64>, b: &Vec<u64>) -> (r: bool)
    ensures
        r == (a@ == b@),
{
    if a.len() != b.len() {
        return false;
    }
    let mut i: usize = 0;
    while i < a.len()
        invariant
            i <= a@.len() == b@.len(),
            forall|k: int| 0 <= k < i ==> a@[k] == b@[k],
        decreases a@.len() - i,
    {
        if a[i] != b[i] {
            return false;
        }
        i = i + 1;
    }
    assert(a@ =~= b@);
    true
}

pub fn compare_repair(planned: &RepairPlan, found: &RepairPlan) -> (r: Result<(), Error>)
    ensures
        error::res_of(r) == repair_check(planned@, found@),
{
    if found.pruned_merged_prs.len() > 0 {
        return Err(
            fail(
                &cat(
                    "repair validation failed: repaired stack comment still lists merged PR(s): ",
                    &repair_pr_list(&found.pruned_merged_prs),
                ),
            ),
        );
    }
    let expected = collect_numbers(&planned.open_prs);
    let actual = collect_numbers(&found.open_prs);
    if !same_numbers(&actual, &expected) {
        let mut message = cat3(
            "repair validation failed: stack comment lists ",
            &bracketed_list(&actual),
            ", expected ",
        );
        message.append(&bracketed_list(&expected));
        return Err(fail(&message));
    }
    Ok(())
}

/// The record from `before` to `after` holds a second detection on what the comment now lists.
pub open spec fn repair_rechecked(
    before: Seq<Event>,
    after: Seq<Event>,
    config: AppConfigView,
    github: GitHubContextView,
    target: u64,
    plan: RepairPlanView,
    body: Seq<char>,
    r: Result<(), Seq<CauseView>>,
) -> bool {
    exists|found: Result<RepairPlanView, Seq<CauseView>>|
        {
            &&& #[trigger] repair_planned(
                before,
                after,
                config,
                github,
                target,
                comments::numbers_in(text::lines(body)).reverse(),
                found,
            )
            &&& r == match found {
                Err(e) => Err(
                    error::in_context("re-run repair detection on repaired stack comment"@, e),
                ),
                Ok(found) => repair_check(plan, found),
            }
        }
}

fn recheck_repair<H: Host>(
    sh: &mut Shell<H>,
    config: &AppConfig,
    github: &GitHubContext,
    target: u64,
    plan: &RepairPlan,
    body: &str,
) -> (r: Result<(), Error>)
    ensures
        record::extends(old(sh).log(), final(sh).log()),
        repair_rechecked(
            old(sh).log(),
            final(sh).log(),
            config@,
            github@,
            target,
            plan@,
            body@,
            error::res_of(r),
        ),
{
    let numbers = reversed(&parse_stack_pr_numbers(body));
    let found = plan_stack_comment_repair(sh, config, github, target, &numbers);
    let ghost seen = error::res(found);
    assert(repair_planned(
        old(sh).log(),
        sh.log(),
        config@,
        github@,
        target,
        comments::numbers_in(text::lines(body@)).reverse(),
        seen,
    ));
    match found {
        Err(error) => Err(error.context("re-run repair detection on repaired stack comment")),
        Ok(found) => compare_repair(plan, &found),
    }
}

/// The record from `before` to `after` holds the validation of a repair.
pub open spec fn repair_validated(
    before: Seq<Event>,
    after: Seq<Event>,
    config: AppConfigView,
    github: GitHubContextView,
    target: u64,
    plan: RepairPlanView,
    r: Result<(), Seq<CauseView>>,
) -> bool {
    exists|mid: Seq<Event>, comment: Result<Option<GhStackCommentView>, Seq<CauseView>>|
        {
            &&& #[trigger] comments::latest_comment_found(
                before,
                mid,
                github.repo,
                target,
                "repair-validate"@,
                comment,
            )
            &&& match comment {
                Err(e) => record::stopped(mid, after, e, r),
                Ok(None) => record::stopped(
                    mid,
                    after,
                    error::plain("repaired "@ + pr::hash(target) + " has no stack comment"@),
                    r,
                ),
                Ok(Some(comment)) => repair_rechecked(
                    mid,
                    after,
                    config,
                    github,
                    target,
                    plan,
                    comment.body,
                    r,
                ),
            }
        }
}

pub fn validate_repair_result<H: Host>(
    sh: &mut Shell<H>,
    config: &AppConfig,
    github: &GitHubContext,
    target_pr_number: u64,
    plan: &RepairPlan,
) -> (r: Result<(), Error>)
    ensures
        record::extends(old(sh).log(), final(sh).log()),
        repair_validated(
            old(sh).log(),
            final(sh).log(),
            config@,
            github@,
            target_pr_number,
            plan@,
            error::res_of(r),
        ),
{
    let found = latest_stack_comment(sh, github, target_pr_number, "repair-validate");
    let ghost seen = error::res(found);
    assert(comments::latest_comment_found(
        old(sh).log(),
        sh.log(),
        github@.repo,
        target_pr_number,
        "repair-validate"@,
        seen,
    ));
    match found {
        Err(error) => Err(error),
        Ok(None) => Err(
            fail(&cat3("repaired ", &hash_text(target_pr_number), " has no stack comment")),
        ),
        Ok(Some(comment)) => recheck_repair(
            sh,
            config,
            github,
            target_pr_number,
            plan,
            &comment.body,
        ),
    }
}

// ---------------------------------------------------------------------------
// The whole repair
// ---------------------------------------------------------------------------

pub open spec fn repair_summary(plan: RepairPlanView, changed: usize) -> RepairSummary {
    RepairSummary {
        open_prs: plan.open_prs.len() as usize,
        pruned_merged_prs: plan.pruned_merged_prs.len() as usize,
        comments_changed: changed,
    }
}

/// The record from `before` to `after` holds the validation at the end.
pub open spec fn repair_closed(
    before: Seq<Event>,
    after: Seq<Event>,
    config: AppConfigView,
    github: GitHubContextView,
    target: u64,
    plan: RepairPlanView,
    changed: usize,
    diagnostics: Diagnostics,
    r: Result<RepairSummary, Seq<CauseView>>,
) -> bool {
    exists|checked: Result<(), Seq<CauseView>>|
        {
            &&& #[trigger] repair_validated(
                before + ui::phase_said(diagnostics, "repair-validate"@),
                after,
                config,
                github,
                target,
                plan,
                checked,
            )
            &&& r == match checked {
                Err(e) => Err(e),
                Ok(_) => Ok(repair_summary(plan, changed)),
            }
        }
}

fn close_repair<H: Host>(
    sh: &mut Shell<H>,
    config: &AppConfig,
    github: &GitHubContext,
    target: u64,
    plan: &RepairPlan,
    changed: usize,
    diagnostics: Diagnostics,
) -> (r: Result<RepairSummary, Error>)
    ensures
        record::extends(old(sh).log(), final(sh).log()),
        repair_closed(
            old(sh).log(),
            final(sh).log(),
            config@,
            github@,
            target,
            plan@,
            changed,
            diagnostics,
            error::res_of(r),
        ),
{
    let ghost start = sh.log();
    diagnostics.phase(sh, "repair-validate");
    let checked = validate_repair_result(sh, config, github, target, plan);
    assert(repair_validated(
        start + ui::phase_said(diagnostics, "repair-validate"@),
        sh.log(),
        config@,
        github@,
        target,
        plan@,
        error::res_of(checked),
    ));
    match checked {
        Err(error) => Err(error),
        Ok(_) => Ok(
            RepairSummary {
                open_prs: plan.open_prs.len(),
                pruned_merged_prs: plan.pruned_merged_prs.len(),
                comments_changed: changed,
            },
        ),
    }
}

/// The record from `before` to `after` holds the rewriting of the comments and what follows it.
pub open spec fn repair_carried_out(
    before: Seq<Event>,
    after: Seq<Event>,
    config: AppConfigView,
    github: GitHubContextView,
    target: u64,
    plan: RepairPlanView,
    diagnostics: Diagnostics,
    r: Result<RepairSummary, Seq<CauseView>>,
) -> bool {
    exists|mid: Seq<Event>, changed: Result<nat, Seq<CauseView>>|
        {
            &&& #[trigger] actions_executed(
                before + ui::phase_said(diagnostics, "stack-comments"@),
                mid,
                github,
                actions_of(github.repo, config.trunk, plan),
                0,
                0,
                changed,
            )
            &&& match changed {
                Err(e) => record::stopped(mid, after, e, r),
                Ok(changed) => repair_closed(
                    mid,
                    after,
                    config,
                    github,
                    target,
                    plan,
                    changed as usize,
                    diagnostics,
                    r,
                ),
            }
        }
}

fn carry_out_repair<H: Host>(
    sh: &mut Shell<H>,
    config: &AppConfig,
    github: &GitHubContext,
    target: u64,
    plan: &RepairPlan,
    actions: &Vec<RepairAction>,
    diagnostics: Diagnostics,
) -> (r: Result<RepairSummary, Error>)
    requires
        actions.deep_view() == actions_of(github@.repo, config@.trunk, plan@),
    ensures
        record::extends(old(sh).log(), final(sh).log()),
        repair_carried_out(
            old(sh).log(),
            final(sh).log(),
            config@,
            github@,
            target,
            plan@,
            diagnostics,
            error::res_of(r),
        ),
{
    let ghost start = sh.log();
    diagnostics.phase(sh, "stack-comments");
    let executed = execute_actions(sh, github, actions, 0, 0);
    assert(actions_executed(
        start + ui::phase_said(diagnostics, "stack-comments"@),
        sh.log(),
        github@,
        actions_of(github@.repo, config@.trunk, plan@),
        0,
        0,
        as_count(executed),
    ));
    match executed {
        Err(error) => Err(error),
        Ok(changed) => close_repair(sh, config, github, target, plan, changed, diagnostics),
    }
}

/// The record from `before` to `after` holds the question and, after a yes, the repair.
pub open spec fn repair_allowed(
    before: Seq<Event>,
    after: Seq<Event>,
    config: AppConfigView,
    github: GitHubContextView,
    target: u64,
    plan: RepairPlanView,
    yes: bool,
    diagnostics: Diagnostics,
    r: Result<RepairSummary, Seq<CauseView>>,
) -> bool {
    exists|mid: Seq<Event>, allowed: Result<(), Seq<CauseView>>|
        {
            &&& #[trigger] repair_confirmed(
                before,
                mid,
                plan,
                actions_of(github.repo, config.trunk, plan),
                target,
                yes,
                allowed,
            )
            &&& match allowed {
                Err(e) => record::stopped(mid, after, e, r),
                Ok(_) => repair_carried_out(
                    mid,
                    after,
                    config,
                    github,
                    target,
                    plan,
                    diagnostics,
                    r,
                ),
            }
        }
}

fn allow_repair<H: Host>(
    sh: &mut Shell<H>,
    config: &AppConfig,
    github: &GitHubContext,
    target: u64,
    plan: &RepairPlan,
    actions: &Vec<RepairAction>,
    yes: bool,
    diagnostics: Diagnostics,
) -> (r: Result<RepairSummary, Error>)
    requires
        actions.deep_view() == actions_of(github@.repo, config@.trunk, plan@),
    ensures
        record::extends(old(sh).log(), final(sh).log()),
        repair_allowed(
            old(sh).log(),
            final(sh).log(),
            config@,
            github@,
            target,
            plan@,
            yes,
            diagnostics,
            error::res_of(r),
        ),
{
    let allowed = confirm_repair_stack_comments(sh, plan, actions, target, yes);
    assert(repair_confirmed(
        old(sh).log(),
        sh.log(),
        plan@,
        actions_of(github@.repo, config@.trunk, plan@),
        target,
        yes,
        error::res_of(allowed),
    ));
    match allowed {
        Err(error) => Err(error),
        Ok(_) => carry_out_repair(sh, config, github, target, plan, actions, diagnostics),
    }
}

/// The record from `before` to `after` holds what a plan leads to: a dry run only shows it, and a
/// plan without actions ends there.
pub open spec fn repair_decided(
    before: Seq<Event>,
    after: Seq<Event>,
    config: AppConfigView,
    github: GitHubContextView,
    target: u64,
    plan: RepairPlanView,
    yes: bool,
    diagnostics: Diagnostics,
    r: Result<RepairSummary, Seq<CauseView>>,
) -> bool {
    let actions = actions_of(github.repo, config.trunk, plan);
    let shown = before + ui::plan_rows_said(
        diagnostics,
        plans::repair_plan_lines(plan.pruned_merged_prs, actions),
    );
    if diagnostics.dry_run || actions.len() == 0 {
        after == shown && r == Ok::<_, Seq<CauseView>>(
            repair_summary(plan, actions.len() as usize),
        )
    } else {
        repair_allowed(shown, after, config, github, target, plan, yes, diagnostics, r)
    }
}

fn decide_repair<H: Host>(
    sh: &mut Shell<H>,
    config: &AppConfig,
    github: &GitHubContext,
    target: u64,
    plan: &RepairPlan,
    yes: bool,
    diagnostics: Diagnostics,
) -> (r: Result<RepairSummary, Error>)
    ensures
        record::extends(old(sh).log(), final(sh).log()),
        repair_decided(
            old(sh).log(),
            final(sh).log(),
            config@,
            github@,
            target,
            plan@,
            yes,
            diagnostics,
            error::res_of(r),
        ),
{
    let actions = repair_actions(github, config, plan);
    let rows = render_repair_action_plan(plan, &actions);
    diagnostics.plan_lines(sh, &rows);
    assert(actions@.len() == actions.deep_view().len());
    if diagnostics.dry_run || actions.len() == 0 {
        return Ok(
            RepairSummary {
                open_prs: plan.open_prs.len(),
                pruned_merged_prs: plan.pruned_merged_prs.len(),
                comments_changed: actions.len(),
            },
        );
    }
    allow_repair(sh, config, github, target, plan, &actions, yes, diagnostics)
}

/// The record from `before` to `after` holds the planning of a repair and what follows it.
pub open spec fn repair_listed(
    before: Seq<Event>,
    after: Seq<Event>,
    config: AppConfigView,
    github: GitHubContextView,
    target: u64,
    numbers: Seq<u64>,
    yes: bool,
    diagnostics: Diagnostics,
    r: Result<RepairSummary, Seq<CauseView>>,
) -> bool {
    if !numbers.contains(target) {
        record::stopped(
            before,
            after,
            error::plain("stack comment for "@ + pr::hash(target) + " did not include the target PR"@),
            r,
        )
    } else {
        repair_scanned(before, after, config, github, target, numbers, yes, diagnostics, r)
    }
}

pub open spec fn repair_scanned(
    before: Seq<Event>,
    after: Seq<Event>,
    config: AppConfigView,
    github: GitHubContextView,
    target: u64,
    numbers: Seq<u64>,
    yes: bool,
    diagnostics: Diagnostics,
    r: Result<RepairSummary, Seq<CauseView>>,
) -> bool {
    exists|mid: Seq<Event>, plan: Result<RepairPlanView, Seq<CauseView>>|
        {
            &&& #[trigger] repair_planned(
                before + ui::phase_said(diagnostics, "resolve-prs"@),
                mid,
                config,
                github,
                target,
                numbers,
                plan,
            )
            &&& match plan {
                Err(e) => record::stopped(mid, after, e, r),
                Ok(plan) => repair_decided(
                    mid,
                    after,
                    config,
                    github,
                    target,
                    plan,
                    yes,
                    diagnostics,
                    r,
                ),
            }
        }
}

fn list_repair<H: Host>(
    sh: &mut Shell<H>,
    config: &AppConfig,
    github: &GitHubContext,
    target: u64,
    numbers: &Vec<u64>,
    yes: bool,
    diagnostics: Diagnostics,
) -> (r: Result<RepairSummary, Error>)
    ensures
        record::extends(old(sh).log(), final(sh).log()),
        repair_listed(
            old(sh).log(),
            final(sh).log(),
            config@,
            github@,
            target,
            numbers@,
            yes,
            diagnostics,
            error::res_of(r),
        ),
{
    assert(numbers@.take(numbers@.len() as int) =~= numbers@);
    if !number_seen(numbers, numbers.len(), target) {
        return Err(
            fail(
                &cat3(
                    "stack comment for ",
                    &hash_text(target),
                    " did not include the target PR",
                ),
            ),
        );
    }
    let ghost start = sh.log();
    diagnostics.phase(sh, "resolve-prs");
    let planned = plan_stack_comment_repair(sh, config, github, target, numbers);
    let ghost seen = error::res(planned);
    assert(repair_planned(
        start + ui::phase_said(diagnostics, "resolve-prs"@),
        sh.log(),
        config@,
        github@,
        target,
        numbers@,
        seen,
    ));
    match planned {
        Err(error) => Err(error),
        Ok(plan) => decide_repair(sh, config, github, target, &plan, yes, diagnostics),
    }
}

pub open spec fn closed_target(pr: GhPrView) -> Seq<CauseView> {
    error::plain(
        "repair target "@ + pr::hash(pr.number) + " is "@ + pr.state
            + "; choose an open PR whose stack comment should be repaired"@,
    )
}

pub open spec fn repair_commented(
    before: Seq<Event>,
    after: Seq<Event>,
    config: AppConfigView,
    github: GitHubContextView,
    target: u64,
    yes: bool,
    diagnostics: Diagnostics,
    r: Result<RepairSummary, Seq<CauseView>>,
) -> bool {
    exists|mid: Seq<Event>, comment: Result<Option<GhStackCommentView>, Seq<CauseView>>|
        {
            &&& #[trigger] comments::latest_comment_found(
                before,
                mid,
                github.repo,
                target,
                "repair"@,
                comment,
            )
            &&& match comment {
                Err(e) => record::stopped(mid, after, e, r),
                Ok(comment) => repair_listed(
                    mid,
                    after,
                    config,
                    github,
                    target,
                    get::stack_numbers(comment, target),
                    yes,
                    diagnostics,
                    r,
                ),
            }
        }
}

fn comment_repair<H: Host>(
    sh: &mut Shell<H>,
    config: &AppConfig,
    github: &GitHubContext,
    target: u64,
    yes: bool,
    diagnostics: Diagnostics,
) -> (r: Result<RepairSummary, Error>)
    ensures
        record::extends(old(sh).log(), final(sh).log()),
        repair_commented(
            old(sh).log(),
            final(sh).log(),
            config@,
            github@,
            target,
            yes,
            diagnostics,
            error::res_of(r),
        ),
{
    let found = latest_stack_comment(sh, github, target, "repair");
    let ghost seen = error::res(found);
    assert(comments::latest_comment_found(
        old(sh).log(),
        sh.log(),
        github@.repo,
        target,
        "repair"@,
        seen,
    ));
    match found {
        Err(error) => Err(error),
        Ok(comment) => {
            let numbers = stack_comment_numbers(&comment, target);
            list_repair(sh, config, github, target, &numbers, yes, diagnostics)
        },
    }
}

pub open spec fn repair_targeted(
    before: Seq<Event>,
    after: Seq<Event>,
    config: AppConfigView,
    github: GitHubContextView,
    target: GetTargetView,
    yes: bool,
    diagnostics: Diagnostics,
    r: Result<RepairSummary, Seq<CauseView>>,
) -> bool {
    exists|mid: Seq<Event>, pr: Result<GhPrView, Seq<CauseView>>|
        {
            &&& #[trigger] pr::target_resolved(
                before + ui::phase_said(diagnostics, "resolve-stack-comment"@),
                mid,
                github.repo,
                target,
                "get"@,
                pr,
            )
            &&& match pr {
                Err(e) => record::stopped(mid, after, e, r),
                Ok(pr) => if !pr::is_open(pr.state) {
                    record::stopped(mid, after, closed_target(pr), r)
                } else {
                    repair_commented(mid, after, config, github, pr.number, yes, diagnostics, r)
                },
            }
        }
}

fn target_repair<H: Host>(
    sh: &mut Shell<H>,
    config: &AppConfig,
    github: &GitHubContext,
    target: &GetTarget,
    yes: bool,
    diagnostics: Diagnostics,
) -> (r: Result<RepairSummary, Error>)
    ensures
        record::extends(old(sh).log(), final(sh).log()),
        repair_targeted(
            old(sh).log(),
            final(sh).log(),
            config@,
            github@,
            target@,
            yes,
            diagnostics,
            error::res_of(r),
        ),
{
    let ghost start = sh.log();
    diagnostics.phase(sh, "resolve-stack-comment");
    let found = resolve_get_target_pr(sh, github, target);
    let ghost seen = error::res(found);
    assert(pr::target_resolved(
        start + ui::phase_said(diagnostics, "resolve-stack-comment"@),
        sh.log(),
        github@.repo,
        target@,
        "get"@,
        seen,
    ));
    let pr = match found {
        Ok(pr) => pr,
        Err(error) => return Err(error),
    };
    if !state_is_open(&pr.state) {
        return Err(
            fail(
                &cat5(
                    "repair target ",
                    &hash_text(pr.number),
                    " is ",
                    &pr.state,
                    "; choose an open PR whose stack comment should be repaired",
                ),
            ),
        );
    }
    comment_repair(sh, config, github, pr.number, yes, diagnostics)
}

/// The record from `before` to `after` holds how the comments of a stack are repaired: the stack
/// comment on an open target is read, the merged pull requests in it are found, and, once that is
/// confirmed, the comment on each open one is rewritten without them and read again.
pub open spec fn comments_repaired(
    before: Seq<Event>,
    after: Seq<Event>,
    config: AppConfigView,
    target: Seq<char>,
    yes: bool,
    diagnostics: Diagnostics,
    r: Result<RepairSummary, Seq<CauseView>>,
) -> bool {
    exists|mid: Seq<Event>, opened: Result<(GitHubContextView, GetTargetView), Seq<CauseView>>|
        {
            &&& #[trigger] get::target_opened(before, mid, target, diagnostics, opened)
            &&& match opened {
                Err(e) => record::stopped(mid, after, e, r),
                Ok((github, meaning)) => repair_targeted(
                    mid,
                    after,
                    config,
                    github,
                    meaning,
                    yes,
                    diagnostics,
                    r,
                ),
            }
        }
}

pub fn repair_stack_comments<H: Host>(
    sh: &mut Shell<H>,
    config: &AppConfig,
    target: &str,
    yes: bool,
    diagnostics: Diagnostics,
) -> (r: Result<RepairSummary, Error>)
    ensures
        record::extends(old(sh).log(), final(sh).log()),
        comments_repaired(
            old(sh).log(),
            final(sh).log(),
            config@,
            target@,
            yes,
            diagnostics,
            error::res_of(r),
        ),
{
    let opened = open_target(sh, target, diagnostics);
    assert(get::target_opened(
        old(sh).log(),
        sh.log(),
        target@,
        diagnostics,
        get::opened_parts(opened),
    ));
    match opened {
        Err(error) => Err(error),
        Ok((github, meaning)) => target_repair(sh, config, &github, &meaning, yes, diagnostics),
    }
}

/// The comment that a repair writes, read again, lists just the pull requests that the plan kept,
/// bottom first: a second detection starts from the same row.
pub proof fn law_repair_writes_what_it_kept(
    config: AppConfigView,
    github: GitHubContextView,
    target: u64,
    plan: RepairPlanView,
    pr: GhPrView,
)
    requires
        pr::pr_stack_fault(config, github, target, plan.open_prs) is None,
        bodies::one_line(github.repo),
        !text::contains("/"@ + github.repo + "/pull"@, "/pull/"@),
        bodies::one_line(config.trunk),
        !text::contains(config.trunk, "/pull/"@),
        forall|i: int|
            0 <= i < plan.open_prs.len() ==> !text::contains(
                bodies::link_label((#[trigger] plan.open_prs[i]).title),
                "/pull/"@,
            ) && bodies::one_line(plan.open_prs[i].head_ref_name) && bodies::one_line(plan.open_prs[i].created_at),
    ensures
        comments::numbers_in(text::lines(repair_action(github.repo, config.trunk, plan, pr).body)).reverse()
            == pr::numbers_of(plan.open_prs),
{
    pr::law_accepted_pr_stack_is_a_row(config, github, target, plan.open_prs);
    bodies::law_repaired_comment_reads_back(github.repo, plan.open_prs, pr.number, config.trunk);
}

} // verus!
