//! The plans that are shown before anything is changed, and the question whether to go on.

use vstd::prelude::*;

use crate::error;
use crate::error::{CauseView, CliError, CliErrorView, Error, report};
use crate::model::{
    AppConfig, AppConfigView, RepairAction, RepairActionView, RepairPlan, SubmitPlan,
    SubmitPlanView,
};
use crate::outside::{bold, cyan, dimmed, green, red, yellow};
use crate::pr;
use crate::pr::hash_text;
use crate::record;
use crate::record::Event;
use crate::shell::Host;
use crate::shell::wire::Shell;
use crate::stack;
use crate::stack::short_commit_id;
use crate::text;
use crate::text::{
    after_first, before_first, cat, cat3, cat5, char_count, join_text, number_text, position, same,
    text_skip, text_starts_with, text_take, trimmed, trimmed_start, words,
};
use crate::ui;

verus! {

broadcast use crate::record::group_record;

// ---------------------------------------------------------------------------
// Numbered lists
// ---------------------------------------------------------------------------

pub open spec fn numbered_line(n: nat, what: Seq<char>) -> Seq<char> {
    "  "@ + text::decimal(n) + ". "@ + what
}

pub open spec fn numbered_lines(items: Seq<Seq<char>>) -> Seq<Seq<char>> {
    Seq::new(items.len(), |i: int| numbered_line((i + 1) as nat, items[i]))
}

fn number_line(n: u64, what: &str) -> (r: String)
    ensures
        r@ == numbered_line(n as nat, what@),
{
    let mut line = cat3("  ", &number_text(n), ". ");
    line.append(what);
    line
}

fn number_lines(items: &Vec<String>) -> (r: Vec<String>)
    ensures
        r.deep_view() == numbered_lines(items.deep_view()),
{
    let mut out: Vec<String> = Vec::new();
    let mut i: usize = 0;
    while i < items.len()
        invariant
            i <= items@.len(),
            out@.len() == i,
            forall|k: int|
                0 <= k < i ==> (#[trigger] out@[k])@ == numbered_line((k + 1) as nat, items@[k]@),
        decreases items@.len() - i,
    {
        out.push(number_line((i + 1) as u64, &items[i]));
        i = i + 1;
    }
    assert(out.deep_view() =~= numbered_lines(items.deep_view()));
    out
}

pub open spec fn number_refs(numbers: Seq<u64>) -> Seq<Seq<char>> {
    numbers.map_values(|n: u64| "#"@ + text::decimal(n as nat))
}

pub open spec fn pr_list(numbers: Seq<u64>) -> Seq<char> {
    if numbers.len() == 0 {
        "<none>"@
    } else {
        text::join(number_refs(numbers), ", "@)
    }
}

pub fn repair_pr_list(numbers: &Vec<u64>) -> (r: String)
    ensures
        r@ == pr_list(numbers@),
{
    if numbers.len() == 0 {
        return "<none>".to_owned();
    }
    let mut refs: Vec<String> = Vec::new();
    let mut i: usize = 0;
    while i < numbers.len()
        invariant
            i <= numbers@.len(),
            refs@.len() == i,
            forall|k: int|
                0 <= k < i ==> (#[trigger] refs@[k])@ == "#"@ + text::decimal(numbers@[k] as nat),
        decreases numbers@.len() - i,
    {
        refs.push(cat("#", &number_text(numbers[i])));
        i = i + 1;
    }
    assert(refs.deep_view() =~= number_refs(numbers@));
    join_text(&refs, ", ")
}

pub open spec fn decimals(numbers: Seq<u64>) -> Seq<Seq<char>> {
    numbers.map_values(|n: u64| text::decimal(n as nat))
}

/// Numbers as a bracketed list.
pub open spec fn bracketed(numbers: Seq<u64>) -> Seq<char> {
    "["@ + text::join(decimals(numbers), ", "@) + "]"@
}

pub fn bracketed_list(numbers: &Vec<u64>) -> (r: String)
    ensures
        r@ == bracketed(numbers@),
{
    let mut texts: Vec<String> = Vec::new();
    let mut i: usize = 0;
    while i < numbers.len()
        invariant
            i <= numbers@.len(),
            texts@.len() == i,
            forall|k: int| 0 <= k < i ==> (#[trigger] texts@[k])@ == text::decimal(numbers@[k] as nat),
        decreases numbers@.len() - i,
    {
        texts.push(number_text(numbers[i]));
        i = i + 1;
    }
    assert(texts.deep_view() =~= decimals(numbers@));
    cat3("[", &join_text(&texts, ", "), "]")
}

// ---------------------------------------------------------------------------
// Repairs
// ---------------------------------------------------------------------------

pub open spec fn action_text(action: RepairActionView) -> Seq<char> {
    "update stack comment on "@ + pr::hash(action.pr_number) + " to remove "@ + pr_list(
        action.removed_prs,
    )
}

impl RepairAction {
    pub fn describe(&self) -> (r: String)
        ensures
            r@ == action_text(self@),
    {
        let mut line = cat3(
            "update stack comment on ",
            &hash_text(self.pr_number),
            " to remove ",
        );
        line.append(&repair_pr_list(&self.removed_prs));
        line
    }
}

pub open spec fn action_texts(actions: Seq<RepairActionView>) -> Seq<Seq<char>> {
    actions.map_values(|a: RepairActionView| action_text(a))
}

fn describe_actions(actions: &Vec<RepairAction>) -> (r: Vec<String>)
    ensures
        r.deep_view() == action_texts(actions.deep_view()),
{
    let mut out: Vec<String> = Vec::new();
    let mut i: usize = 0;
    while i < actions.len()
        invariant
            i <= actions@.len(),
            out@.len() == i,
            forall|k: int| 0 <= k < i ==> (#[trigger] out@[k])@ == action_text(actions@[k]@),
        decreases actions@.len() - i,
    {
        out.push(actions[i].describe());
        i = i + 1;
    }
    assert(out.deep_view() =~= action_texts(actions.deep_view()));
    out
}

/// The plan of a repair: what is wrong, and each action in turn.
pub open spec fn repair_plan_lines(pruned: Seq<u64>, actions: Seq<RepairActionView>) -> Seq<
    Seq<char>,
> {
    seq![
        ""@,
        "problems:"@,
        "  merged PRs still listed in stack comment: "@ + pr_list(pruned),
        ""@,
        "actions:"@,
    ] + if actions.len() == 0 {
        seq!["  <none>"@]
    } else {
        numbered_lines(
            action_texts(actions).push("revalidate repaired stack comment topology"@),
        )
    }
}

pub fn render_repair_action_plan(plan: &RepairPlan, actions: &Vec<RepairAction>) -> (r: Vec<String>)
    ensures
        r.deep_view() == repair_plan_lines(plan@.pruned_merged_prs, actions.deep_view()),
{
    let pruned = cat(
        "  merged PRs still listed in stack comment: ",
        &repair_pr_list(&plan.pruned_merged_prs),
    );
    let mut out = words(&["", "problems:", &pruned, "", "actions:"]);
    let ghost head = out.deep_view();
    if actions.len() == 0 {
        out.push("  <none>".to_owned());
        assert(out.deep_view() =~= head + seq!["  <none>"@]);
    } else {
        let mut items = describe_actions(actions);
        let ghost texts = items.deep_view();
        items.push("revalidate repaired stack comment topology".to_owned());
        assert(items.deep_view() =~= texts.push("revalidate repaired stack comment topology"@));
        let mut rows = number_lines(&items);
        let ghost added = rows.deep_view();
        out.append(&mut rows);
        assert(out.deep_view() =~= head + added);
    }
    assert(out.deep_view() =~= repair_plan_lines(plan@.pruned_merged_prs, actions.deep_view()));
    out
}

/// A line of the plan of a repair as it is printed: the headings stand out.
pub open spec fn repair_line_shown(line: Seq<char>, color: bool) -> Seq<char> {
    match text::split_once(line, ":"@) {
        None => line,
        Some((label, rest)) => if color && text::trim(label) == "problems"@ {
            ui::in_bold(ui::in_red(label)) + ":"@ + rest
        } else if color && text::trim(label) == "actions"@ {
            ui::in_bold(ui::in_cyan(label)) + ":"@ + rest
        } else {
            line
        },
    }
}

pub fn print_repair_plan_line(line: &str, color: bool) -> (r: String)
    ensures
        r@ == repair_line_shown(line@, color),
{
    if color {
        if let Some(label) = before_first(line, ":") {
            if let Some(rest) = after_first(line, ":") {
                let name = trimmed(&label);
                if same(&name, "problems") {
                    return cat3(&bold(&red(&label)), ":", &rest);
                }
                if same(&name, "actions") {
                    return cat3(&bold(&cyan(&label)), ":", &rest);
                }
            }
        }
    }
    line.to_owned()
}

// ---------------------------------------------------------------------------
// Submits
// ---------------------------------------------------------------------------

pub open spec fn push_word(push_needed: bool) -> Seq<char> {
    if push_needed {
        "push "@
    } else {
        ""@
    }
}

pub open spec fn branch_detail(config: AppConfigView, plan: SubmitPlanView) -> Seq<char> {
    push_word(plan.push_needed) + config.remote + "/"@ + plan.head_branch + " @ "@ + stack::short_id(
        plan.change.commit_id,
    )
}

/// What a submit does to one change.
pub open spec fn submit_action(config: AppConfigView, plan: SubmitPlanView) -> Seq<char> {
    match plan.existing_pr {
        None => "create new PR `"@ + plan.change.title + "`: "@ + branch_detail(config, plan)
            + ", base "@ + plan.base_branch,
        Some(existing) => if plan.pr_update_needed {
            "update "@ + pr::hash(existing.pr_number) + " `"@ + plan.change.title + "`: "@
                + branch_detail(config, plan) + ", base "@ + plan.base_branch
        } else {
            "unchanged "@ + pr::hash(existing.pr_number) + " `"@ + plan.change.title + "`: "@
                + branch_detail(config, plan)
        },
    }
}

pub fn submit_action_description(config: &AppConfig, plan: &SubmitPlan) -> (r: String)
    ensures
        r@ == submit_action(config@, plan@),
{
    let mut detail = if plan.push_needed {
        "push ".to_owned()
    } else {
        "".to_owned()
    };
    detail.append(&config.remote);
    detail.append("/");
    detail.append(&plan.head_branch);
    detail.append(" @ ");
    detail.append(&short_commit_id(&plan.change.commit_id));
    match &plan.existing_pr {
        None => {
            let mut line = cat5("create new PR `", &plan.change.title, "`: ", &detail, ", base ");
            line.append(&plan.base_branch);
            line
        },
        Some(existing) => {
            let mut line = if plan.pr_update_needed {
                "update ".to_owned()
            } else {
                "unchanged ".to_owned()
            };
            line.append(&hash_text(existing.pr_number));
            line.append(" `");
            line.append(&plan.change.title);
            line.append("`: ");
            line.append(&detail);
            if plan.pr_update_needed {
                line.append(", base ");
                line.append(&plan.base_branch);
            }
            line
        },
    }
}

pub open spec fn submit_actions(config: AppConfigView, plans: Seq<SubmitPlanView>) -> Seq<
    Seq<char>,
> {
    plans.map_values(|plan: SubmitPlanView| submit_action(config, plan))
}

fn describe_submits(config: &AppConfig, plans: &Vec<SubmitPlan>) -> (r: Vec<String>)
    ensures
        r.deep_view() == submit_actions(config@, plans.deep_view()),
{
    let mut out: Vec<String> = Vec::new();
    let mut i: usize = 0;
    while i < plans.len()
        invariant
            i <= plans@.len(),
            out@.len() == i,
            forall|k: int| 0 <= k < i ==> (#[trigger] out@[k])@ == submit_action(config@, plans@[k]@),
        decreases plans@.len() - i,
    {
        out.push(submit_action_description(config, &plans[i]));
        i = i + 1;
    }
    assert(out.deep_view() =~= submit_actions(config@, plans.deep_view()));
    out
}

/// The plan of a submit: each action in turn.
pub open spec fn submit_plan_lines(config: AppConfigView, plans: Seq<SubmitPlanView>) -> Seq<
    Seq<char>,
> {
    let actions = submit_actions(config, plans);
    seq![""@, "actions:"@] + numbered_lines(
        if plans.len() > 0 {
            actions.push("sync stack comments for submitted stack"@)
        } else {
            actions
        },
    ) + seq![""@, "------------------------------------------------------------"@]
}

pub fn render_submit_action_plan(config: &AppConfig, plans: &Vec<SubmitPlan>) -> (r: Vec<String>)
    ensures
        r.deep_view() == submit_plan_lines(config@, plans.deep_view()),
{
    let mut items = describe_submits(config, plans);
    let ghost actions = items.deep_view();
    if plans.len() > 0 {
        items.push("sync stack comments for submitted stack".to_owned());
        assert(items.deep_view() =~= actions.push("sync stack comments for submitted stack"@));
    }
    let mut out = words(&["", "actions:"]);
    let ghost head = out.deep_view();
    let mut rows = number_lines(&items);
    let ghost middle = rows.deep_view();
    out.append(&mut rows);
    let mut foot = words(&["", "------------------------------------------------------------"]);
    let ghost tail = foot.deep_view();
    out.append(&mut foot);
    assert(out.deep_view() =~= head + middle + tail);
    assert(head =~= seq![""@, "actions:"@]);
    assert(tail =~= seq![""@, "------------------------------------------------------------"@]);
    out
}

/// Where the label of an action ends.
pub open spec fn label_end(action: Seq<char>) -> Option<int> {
    if text::starts_with(action, "create new PR"@) {
        Some("create new PR"@.len() as int)
    } else if text::find(action, " PR #"@) is Some {
        text::find(action, " PR #"@)
    } else if text::find(action, " stack comments"@) is Some {
        text::find(action, " stack comments"@)
    } else {
        text::find(action, ":"@)
    }
}

pub fn submit_action_label_end(action_line: &str) -> (r: Option<usize>)
    ensures
        match r {
            Some(i) => label_end(action_line@) == Some(i as int) && i <= action_line@.len(),
            None => label_end(action_line@) is None,
        },
{
    proof {
        text::lemma_find_from(action_line@, " PR #"@, 0);
        text::lemma_find_from(action_line@, " stack comments"@, 0);
        text::lemma_find_from(action_line@, ":"@, 0);
    }
    if text_starts_with(action_line, "create new PR") {
        return Some(char_count("create new PR"));
    }
    if let Some(i) = position(action_line, " PR #") {
        return Some(i);
    }
    if let Some(i) = position(action_line, " stack comments") {
        return Some(i);
    }
    position(action_line, ":")
}

/// The label of an action in the colour of what it does.
pub open spec fn tinted(action: Seq<char>) -> Option<Seq<char>> {
    if text::starts_with(action, "unchanged"@) {
        Some(ui::in_dim(action))
    } else if text::starts_with(action, "create"@) {
        Some(ui::in_green(action))
    } else if text::starts_with(action, "update"@) {
        Some(ui::in_yellow(action))
    } else if text::starts_with(action, "sync"@) {
        Some(ui::in_cyan(action))
    } else if text::starts_with(action, "close"@) || text::starts_with(action, "delete"@) {
        Some(ui::in_red(action))
    } else {
        None
    }
}

fn tint(action: &str) -> (r: Option<String>)
    ensures
        r.deep_view() == tinted(action@),
{
    if text_starts_with(action, "unchanged") {
        Some(dimmed(action))
    } else if text_starts_with(action, "create") {
        Some(green(action))
    } else if text_starts_with(action, "update") {
        Some(yellow(action))
    } else if text_starts_with(action, "sync") {
        Some(cyan(action))
    } else if text_starts_with(action, "close") || text_starts_with(action, "delete") {
        Some(red(action))
    } else {
        None
    }
}

/// A numbered action with its label in colour, if the line is one.
pub open spec fn action_colored(line: Seq<char>) -> Option<Seq<char>> {
    match text::split_once(text::trim_start(line), ". "@) {
        None => None,
        Some((number, action)) => match label_end(action) {
            None => None,
            Some(end) => match tinted(action.take(end)) {
                None => None,
                Some(label) => Some(
                    line.take(line.len() - action.len()) + label + action.skip(end),
                ),
            },
        },
    }
}

pub fn color_submit_action_line(line: &str) -> (r: Option<String>)
    ensures
        r.deep_view() == action_colored(line@),
{
    let rest = trimmed_start(line);
    let action = match after_first(&rest, ". ") {
        Some(action) => action,
        None => return None,
    };
    let end = match submit_action_label_end(&action) {
        Some(end) => end,
        None => return None,
    };
    let label = match tint(&text_take(&action, end)) {
        Some(label) => label,
        None => return None,
    };
    proof {
        text::lemma_trim_len(line@);
        text::lemma_find_from(rest@, ". "@, 0);
    }
    let front = text_take(line, char_count(line) - char_count(&action));
    Some(cat3(&front, &label, &text_skip(&action, end)))
}

/// A line of the plan of a submit as it is printed.
pub open spec fn submit_line_shown(line: Seq<char>, color: bool) -> Seq<char> {
    let colored = match action_colored(line) {
        Some(shown) => shown,
        None => line,
    };
    if !color {
        line
    } else {
        match text::split_once(line, ":"@) {
            None => colored,
            Some((label, rest)) => if text::trim(label) == "actions"@ {
                ui::in_bold(ui::in_cyan(label)) + ":"@ + rest
            } else {
                colored
            },
        }
    }
}

pub fn print_submit_plan_line(line: &str, color: bool) -> (r: String)
    ensures
        r@ == submit_line_shown(line@, color),
{
    if !color {
        return line.to_owned();
    }
    if let Some(label) = before_first(line, ":") {
        if let Some(rest) = after_first(line, ":") {
            if same(&trimmed(&label), "actions") {
                return cat3(&bold(&cyan(&label)), ":", &rest);
            }
        }
    }
    match color_submit_action_line(line) {
        Some(shown) => shown,
        None => line.to_owned(),
    }
}

// ---------------------------------------------------------------------------
// Questions
// ---------------------------------------------------------------------------

pub open spec fn is_yes(answer: Seq<char>) -> bool {
    let word = text::trim(answer);
    word == "y"@ || word == "Y"@ || word == "yes"@ || word == "YES"@ || word == "Yes"@
}

fn answer_is_yes(answer: &str) -> (r: bool)
    ensures
        r == is_yes(answer@),
{
    let word = trimmed(answer);
    same(&word, "y") || same(&word, "Y") || same(&word, "yes") || same(&word, "YES") || same(
        &word,
        "Yes",
    )
}

/// The record from `before` to `after` holds the question and its answer: only a yes goes on.
pub open spec fn asked(
    before: Seq<Event>,
    after: Seq<Event>,
    what: Seq<char>,
    unasked: CliErrorView,
    declined: CliErrorView,
    r: Result<(), Seq<CauseView>>,
) -> bool {
    let n = before.len() as int;
    &&& record::extends(before, after)
    &&& after.len() > n
    &&& after[n] is CouldAsk
    &&& if !after[n]->CouldAsk_0 {
        record::stopped(after.take(n + 1), after, error::reported(unasked), r)
    } else {
        &&& after.len() > n + 1
        &&& after[n + 1] is Prompted
        &&& after[n + 1]->question == "Apply "@ + what + "? [y/N] "@
        &&& match after[n + 1]->prompted {
            Err(e) => record::stopped(
                after.take(n + 2),
                after,
                error::in_context("flush "@ + what + " confirmation prompt"@, e),
                r,
            ),
            Ok(_) => {
                &&& after.len() == n + 3
                &&& after[n + 2] is Answered
                &&& r == match after[n + 2]->answer {
                    Err(e) => Err(error::in_context("read "@ + what + " confirmation"@, e)),
                    Ok(answer) => if is_yes(answer) {
                        Ok(())
                    } else {
                        Err(error::reported(declined))
                    },
                }
            },
        }
    }
}

pub fn confirm<H: Host>(
    sh: &mut Shell<H>,
    what: &str,
    unasked: CliError,
    declined: CliError,
) -> (r: Result<(), Error>)
    ensures
        record::extends(old(sh).log(), final(sh).log()),
        asked(old(sh).log(), final(sh).log(), what@, unasked@, declined@, error::res_of(r)),
{
    let ghost n = sh.log().len() as int;
    if !sh.can_ask() {
        assert(sh.log().take(n + 1) =~= sh.log());
        return Err(report(unasked));
    }
    let ghost could = sh.log();
    let prompted = sh.prompt(&cat3("Apply ", what, "? [y/N] "));
    let ghost put = sh.log();
    assert(put[n] == could[n]);
    assert(put.take(n + 2) =~= put);
    match prompted {
        Err(error) => return Err(
            error.context(&cat3("flush ", what, " confirmation prompt")),
        ),
        Ok(_) => {},
    }
    let answer = sh.answer();
    assert(sh.log()[n] == put[n] && sh.log()[n + 1] == put[n + 1]);
    match answer {
        Err(error) => Err(error.context(&cat3("read ", what, " confirmation"))),
        Ok(answer) => if answer_is_yes(&answer) {
            Ok(())
        } else {
            Err(report(declined))
        },
    }
}

pub open spec fn submit_unasked(yes_command: Seq<char>) -> CliErrorView {
    error::cli("submit requires confirmation"@).because(
        "submit would update GitHub branches, PRs, or stack comments, but stdin is not a terminal"@,
    ).fixed_by("rerun with `"@ + yes_command + "`"@)
}

pub open spec fn submit_declined(yes_command: Seq<char>) -> CliErrorView {
    error::cli("submit cancelled"@).because("user declined to apply the submit plan"@).fixed_by(
        "rerun with `"@ + yes_command + "`"@,
    )
}

pub open spec fn submit_confirmed(
    before: Seq<Event>,
    after: Seq<Event>,
    yes: bool,
    yes_command: Seq<char>,
    r: Result<(), Seq<CauseView>>,
) -> bool {
    if yes {
        after == before && r == Ok::<(), Seq<CauseView>>(())
    } else {
        asked(
            before,
            after,
            "submit"@,
            submit_unasked(yes_command),
            submit_declined(yes_command),
            r,
        )
    }
}

pub fn confirm_submit_stack<H: Host>(sh: &mut Shell<H>, yes: bool, yes_command: &str) -> (r: Result<
    (),
    Error,
>)
    ensures
        record::extends(old(sh).log(), final(sh).log()),
        submit_confirmed(old(sh).log(), final(sh).log(), yes, yes_command@, error::res_of(r)),
{
    if yes {
        return Ok(());
    }
    let fix = cat3("rerun with `", yes_command, "`");
    let unasked = CliError::new("submit requires confirmation").reason(
        "submit would update GitHub branches, PRs, or stack comments, but stdin is not a terminal",
    ).resolution(&fix);
    let declined = CliError::new("submit cancelled").reason(
        "user declined to apply the submit plan",
    ).resolution(&fix);
    confirm(sh, "submit", unasked, declined)
}

} // verus!
