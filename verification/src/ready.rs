//! Whether a pull request may be merged.

use vstd::prelude::*;

use crate::error;
use crate::error::{CauseView, Error, fail};
use crate::model::{
    AppConfig, AppConfigView, GhMergePr, GhMergePrView, GitHubContext, JsonField, JsonFieldView,
    PrCacheEntry, PrCacheEntryView, ResolvedChange, ResolvedChangeView, StatusCheck,
    StatusCheckView,
};
use crate::output;
use crate::output::display_command;
use crate::pr;
use crate::pr::{hash_text, state_is_open};
use crate::record;
use crate::record::Event;
use crate::repo::gh_run;
use crate::shell::Host;
use crate::shell::wire::Shell;
use crate::text;
use crate::text::{cat5, number_text, same, same_ignoring_case, trimmed, words};

verus! {

broadcast use crate::record::group_record;

/// The fields that are asked for when a pull request is to be merged.
pub const MERGE_PR_JSON_FIELDS: &'static str =
    "number,state,headRefName,baseRefName,headRefOid,baseRefOid,title,body,createdAt,isDraft,reviewDecision,mergeable,mergeStateStatus,statusCheckRollup,autoMergeRequest";

/// A refusal with this message, if there is one.
pub open spec fn refused(fault: Option<Seq<char>>) -> Result<(), Seq<CauseView>> {
    match fault {
        Some(message) => Err(error::plain(message)),
        None => Ok(()),
    }
}

// ---------------------------------------------------------------------------
// Status checks
// ---------------------------------------------------------------------------

/// The text in a field, or a stand-in where it holds none.
pub open spec fn field_text(field: JsonFieldView, other: Seq<char>) -> Seq<char> {
    match field {
        JsonFieldView::Text(s) => s,
        _ => other,
    }
}

fn read_field_text(field: &JsonField, other: &str) -> (r: String)
    ensures
        r@ == field_text(field@, other@),
{
    match field {
        JsonField::Text(s) => s.clone(),
        _ => other.to_owned(),
    }
}

/// The name of a check: its `name` where there is such a field, else its `context`.
pub open spec fn check_label(check: StatusCheckView) -> Seq<char> {
    if check.name is Absent {
        field_text(check.context, "<unknown>"@)
    } else {
        field_text(check.name, "<unknown>"@)
    }
}

pub fn check_name(check: &StatusCheck) -> (r: String)
    ensures
        r@ == check_label(check@),
{
    match &check.name {
        JsonField::Absent => read_field_text(&check.context, "<unknown>"),
        _ => read_field_text(&check.name, "<unknown>"),
    }
}

/// The words in which a check stops a merge.
pub open spec fn check_message(
    number: u64,
    what: Seq<char>,
    check: StatusCheckView,
    how: Seq<char>,
    value: Seq<char>,
) -> Seq<char> {
    pr::hash(number) + what + check_label(check) + how + value + "`"@
}

fn check_message_text(number: u64, what: &str, check: &StatusCheck, how: &str, value: &str) -> (r:
    String)
    ensures
        r@ == check_message(number, what@, check@, how@, value@),
{
    let mut message = hash_text(number);
    message.append(what);
    message.append(&check_name(check));
    message.append(how);
    message.append(value);
    message.append("`");
    message
}

pub open spec fn is_good_conclusion(conclusion: Seq<char>) -> bool {
    conclusion == "SUCCESS"@ || conclusion == "SKIPPED"@ || conclusion == "NEUTRAL"@
}

/// The check stands for success: a commit status that succeeded, or a run that completed well.
pub open spec fn check_passes(check: StatusCheckView) -> bool {
    match check.state {
        JsonFieldView::Text(state) => state == "SUCCESS"@,
        _ => {
            &&& field_text(check.status, "UNKNOWN"@) == "COMPLETED"@
            &&& is_good_conclusion(field_text(check.conclusion, "UNKNOWN"@))
        },
    }
}

/// What is wrong with one check.
pub open spec fn check_fault(number: u64, check: StatusCheckView) -> Option<Seq<char>> {
    let status = field_text(check.status, "UNKNOWN"@);
    let conclusion = field_text(check.conclusion, "UNKNOWN"@);
    if check_passes(check) {
        None
    } else {
        Some(
            match check.state {
                JsonFieldView::Text(state) => check_message(
                    number,
                    " checks are not passing: `"@,
                    check,
                    "` is `"@,
                    state,
                ),
                _ => if status != "COMPLETED"@ {
                    check_message(number, " checks are pending: `"@, check, "` is `"@, status)
                } else {
                    check_message(
                        number,
                        " checks are not passing: `"@,
                        check,
                        "` concluded `"@,
                        conclusion,
                    )
                },
            },
        )
    }
}

fn judge_check(number: u64, check: &StatusCheck) -> (r: Option<String>)
    ensures
        r.deep_view() == check_fault(number, check@),
{
    if let JsonField::Text(state) = &check.state {
        if !same(state, "SUCCESS") {
            return Some(
                check_message_text(number, " checks are not passing: `", check, "` is `", state),
            );
        }
        return None;
    }
    let status = read_field_text(&check.status, "UNKNOWN");
    let conclusion = read_field_text(&check.conclusion, "UNKNOWN");
    if !same(&status, "COMPLETED") {
        return Some(
            check_message_text(number, " checks are pending: `", check, "` is `", &status),
        );
    }
    if !(same(&conclusion, "SUCCESS") || same(&conclusion, "SKIPPED") || same(
        &conclusion,
        "NEUTRAL",
    )) {
        return Some(
            check_message_text(
                number,
                " checks are not passing: `",
                check,
                "` concluded `",
                &conclusion,
            ),
        );
    }
    None
}

/// What is wrong with the first check that is not well.
pub open spec fn checks_fault(number: u64, checks: Seq<StatusCheckView>) -> Option<Seq<char>>
    decreases checks.len(),
{
    if checks.len() == 0 {
        None
    } else {
        match check_fault(number, checks[0]) {
            Some(message) => Some(message),
            None => checks_fault(number, checks.skip(1)),
        }
    }
}

/// Requires every reported check to be well, whether branch protection asks for it or not.
pub fn validate_status_checks(pr_number: u64, checks: &Vec<StatusCheck>) -> (r: Result<(), Error>)
    ensures
        error::res_of(r) == refused(checks_fault(pr_number, checks.deep_view())),
{
    let ghost all = checks.deep_view();
    let mut i: usize = 0;
    assert(all.skip(0) =~= all);
    while i < checks.len()
        invariant
            i <= checks@.len(),
            all == checks.deep_view(),
            checks_fault(pr_number, all) == checks_fault(pr_number, all.skip(i as int)),
        decreases checks@.len() - i,
    {
        let fault = judge_check(pr_number, &checks[i]);
        assert(all.skip(i as int)[0] == checks@[i as int]@);
        assert(all.skip(i as int).skip(1) =~= all.skip(i + 1));
        match fault {
            Some(message) => return Err(fail(&message)),
            None => {},
        }
        i = i + 1;
    }
    Ok(())
}

proof fn lemma_checks(number: u64, checks: Seq<StatusCheckView>)
    ensures
        checks_fault(number, checks) is None <==> (forall|i: int|
            0 <= i < checks.len() ==> check_passes(#[trigger] checks[i])),
    decreases checks.len(),
{
    if checks.len() > 0 {
        lemma_checks(number, checks.skip(1));
        assert forall|i: int| 0 < i < checks.len() implies checks[i] == checks.skip(1)[i - 1] by {}
        if checks_fault(number, checks) is None {
            assert forall|i: int| 0 <= i < checks.len() implies check_passes(
                #[trigger] checks[i],
            ) by {
                if i > 0 {
                    assert(check_passes(checks.skip(1)[i - 1]));
                }
            }
        }
        if forall|i: int| 0 <= i < checks.len() ==> check_passes(#[trigger] checks[i]) {
            assert forall|i: int| 0 <= i < checks.skip(1).len() implies check_passes(
                #[trigger] checks.skip(1)[i],
            ) by {
                assert(check_passes(checks[i + 1]));
            }
            assert(check_passes(checks[0]));
        }
    }
}

// ---------------------------------------------------------------------------
// Readiness
// ---------------------------------------------------------------------------

/// What is wrong with the heads: GitHub, the local change and the cache must agree.
pub open spec fn head_fault(
    change: ResolvedChangeView,
    entry: PrCacheEntryView,
    pr: GhMergePrView,
) -> Option<Seq<char>> {
    if pr.head_ref_oid == change.commit_id && pr.head_ref_oid == entry.head_sha {
        None
    } else if pr.head_ref_oid == entry.head_sha {
        Some(
            "local change "@ + change.change_id + " is now "@ + change.commit_id + ", but "@ + pr::hash(
                entry.pr_number,
            ) + " (and the cache) are still at "@ + pr.head_ref_oid
                + "; your stack was rewritten (e.g. by `forklift sync`) but not pushed — run `forklift submit` before merging"@,
        )
    } else if change.commit_id == entry.head_sha {
        Some(
            pr::hash(entry.pr_number) + " head is "@ + pr.head_ref_oid + " on GitHub, but your local change "@
                + change.change_id + " and the cache are both at "@ + change.commit_id
                + "; the PR moved out-of-band — run `forklift sync` then `forklift submit` before merging"@,
        )
    } else {
        Some(
            pr::hash(entry.pr_number) + " is out of sync: GitHub head "@ + pr.head_ref_oid
                + ", local change "@ + change.change_id + " is "@ + change.commit_id
                + ", cache expects "@ + entry.head_sha
                + "; run `forklift sync` then `forklift submit` before merging"@,
        )
    }
}

fn judge_heads(change: &ResolvedChange, entry: &PrCacheEntry, pr: &GhMergePr) -> (r: Option<String>)
    ensures
        r.deep_view() == head_fault(change@, entry@, pr@),
{
    let at_local = same(&pr.head_ref_oid, &change.commit_id);
    let at_cache = same(&pr.head_ref_oid, &entry.head_sha);
    if at_local && at_cache {
        return None;
    }
    if at_cache {
        let mut message = "local change ".to_owned();
        message.append(&change.change_id);
        message.append(" is now ");
        message.append(&change.commit_id);
        message.append(", but ");
        message.append(&hash_text(entry.pr_number));
        message.append(" (and the cache) are still at ");
        message.append(&pr.head_ref_oid);
        message.append(
            "; your stack was rewritten (e.g. by `forklift sync`) but not pushed — run `forklift submit` before merging",
        );
        return Some(message);
    }
    let mut message = hash_text(entry.pr_number);
    if same(&change.commit_id, &entry.head_sha) {
        message.append(" head is ");
        message.append(&pr.head_ref_oid);
        message.append(" on GitHub, but your local change ");
        message.append(&change.change_id);
        message.append(" and the cache are both at ");
        message.append(&change.commit_id);
        message.append(
            "; the PR moved out-of-band — run `forklift sync` then `forklift submit` before merging",
        );
        return Some(message);
    }
    message.append(" is out of sync: GitHub head ");
    message.append(&pr.head_ref_oid);
    message.append(", local change ");
    message.append(&change.change_id);
    message.append(" is ");
    message.append(&change.commit_id);
    message.append(", cache expects ");
    message.append(&entry.head_sha);
    message.append("; run `forklift sync` then `forklift submit` before merging");
    Some(message)
}

pub open spec fn text_or(value: Option<Seq<char>>, other: Seq<char>) -> Seq<char> {
    match value {
        Some(s) => s,
        None => other,
    }
}

pub(crate) fn option_text(value: &Option<String>, other: &str) -> (r: String)
    ensures
        r@ == text_or(value.deep_view(), other@),
{
    match value {
        Some(s) => s.clone(),
        None => other.to_owned(),
    }
}

fn option_is(value: &Option<String>, wanted: &str) -> (r: bool)
    ensures
        r == (value.deep_view() == Some(wanted@)),
{
    match value {
        Some(s) => same(s, wanted),
        None => false,
    }
}

/// The merge state in which nothing on GitHub stands against a merge. An administrator may pass a
/// protected branch.
pub open spec fn is_free_state(status: Seq<char>, admin: bool) -> bool {
    status == "CLEAN"@ || status == "UNSTABLE"@ || (status == "BLOCKED"@ && admin)
}

/// What is wrong with the merge state.
pub open spec fn state_fault(number: u64, status: Seq<char>, admin: bool) -> Option<Seq<char>> {
    if is_free_state(status, admin) {
        None
    } else if status == "QUEUED"@ {
        Some(
            pr::hash(number)
                + " is in a merge queue; this workflow only supports direct squash merge"@,
        )
    } else if status == "HAS_HOOKS"@ {
        Some(
            pr::hash(number)
                + " is waiting on pending deployments or repository hooks; direct squash merge is not safe"@,
        )
    } else if status == "BLOCKED"@ {
        Some(
            pr::hash(number)
                + " is blocked by branch protection or an admin-only merge path; direct squash merge is not supported"@,
        )
    } else {
        Some(
            pr::hash(number) + " cannot be directly squash merged; mergeStateStatus is `"@ + status
                + "`"@,
        )
    }
}

fn judge_state(number: u64, status: &str, admin: bool) -> (r: Option<String>)
    ensures
        r.deep_view() == state_fault(number, status@, admin),
{
    if same(status, "CLEAN") || same(status, "UNSTABLE") || (same(status, "BLOCKED") && admin) {
        return None;
    }
    let mut message = hash_text(number);
    if same(status, "QUEUED") {
        message.append(" is in a merge queue; this workflow only supports direct squash merge");
    } else if same(status, "HAS_HOOKS") {
        message.append(
            " is waiting on pending deployments or repository hooks; direct squash merge is not safe",
        );
    } else if same(status, "BLOCKED") {
        message.append(
            " is blocked by branch protection or an admin-only merge path; direct squash merge is not supported",
        );
    } else {
        message.append(" cannot be directly squash merged; mergeStateStatus is `");
        message.append(status);
        message.append("`");
    }
    Some(message)
}

/// What is wrong with the pull request itself: its state, its heads and its base.
pub open spec fn place_in_merge_fault(
    config: AppConfigView,
    change: ResolvedChangeView,
    entry: PrCacheEntryView,
    pr: GhMergePrView,
) -> Option<Seq<char>> {
    if !pr::is_open(pr.state) {
        Some(
            pr::hash(entry.pr_number) + " for "@ + change.change_id + " is `"@ + pr.state
                + "`; only open PRs can be merged"@,
        )
    } else if pr.is_draft {
        Some(pr::hash(entry.pr_number) + " is draft; mark it ready for review before merge"@)
    } else if head_fault(change, entry, pr) is Some {
        head_fault(change, entry, pr)
    } else if text::lower_all(pr.base_ref_name) != text::lower_all(config.trunk) {
        Some(
            pr::hash(entry.pr_number) + " base is `"@ + pr.base_ref_name
                + "`, but the bottom of the stack must target trunk `"@ + config.trunk
                + "`; run `forklift submit` to repoint the base before merging"@,
        )
    } else {
        None
    }
}

fn judge_place(
    config: &AppConfig,
    change: &ResolvedChange,
    entry: &PrCacheEntry,
    pr: &GhMergePr,
) -> (r: Option<String>)
    ensures
        r.deep_view() == place_in_merge_fault(config@, change@, entry@, pr@),
{
    let mut message = hash_text(entry.pr_number);
    if !state_is_open(&pr.state) {
        message.append(" for ");
        message.append(&change.change_id);
        message.append(" is `");
        message.append(&pr.state);
        message.append("`; only open PRs can be merged");
        return Some(message);
    }
    if pr.is_draft {
        message.append(" is draft; mark it ready for review before merge");
        return Some(message);
    }
    let heads = judge_heads(change, entry, pr);
    if heads.is_some() {
        return heads;
    }
    if !same_ignoring_case(&pr.base_ref_name, &config.trunk) {
        message.append(" base is `");
        message.append(&pr.base_ref_name);
        message.append("`, but the bottom of the stack must target trunk `");
        message.append(&config.trunk);
        message.append("`; run `forklift submit` to repoint the base before merging");
        return Some(message);
    }
    None
}

/// What stands against the merge of a pull request: the first of the things that are wrong.
pub open spec fn merge_fault(
    config: AppConfigView,
    change: ResolvedChangeView,
    entry: PrCacheEntryView,
    pr: GhMergePrView,
    admin: bool,
) -> Option<Seq<char>> {
    let number = entry.pr_number;
    let status = text_or(pr.merge_state_status, "UNKNOWN"@);
    if place_in_merge_fault(config, change, entry, pr) is Some {
        place_in_merge_fault(config, change, entry, pr)
    } else if config.require_approval && !admin && pr.review_decision != Some("APPROVED"@) {
        Some(
            pr::hash(number) + " requires approval; reviewDecision is `"@ + text_or(
                pr.review_decision,
                "NONE"@,
            ) + "`"@,
        )
    } else if pr.auto_merge {
        Some(
            pr::hash(number)
                + " has auto-merge enabled; disable auto-merge before using direct squash merge"@,
        )
    } else if pr.mergeable != Some("MERGEABLE"@) {
        Some(
            pr::hash(number) + " is not mergeable; mergeable is `"@ + text_or(pr.mergeable, "UNKNOWN"@)
                + "`"@,
        )
    } else if state_fault(number, status, admin) is Some {
        state_fault(number, status, admin)
    } else if admin {
        None
    } else {
        checks_fault(number, pr.status_check_rollup)
    }
}

pub fn validate_pr_ready_for_merge(
    config: &AppConfig,
    change: &ResolvedChange,
    entry: &PrCacheEntry,
    pr: &GhMergePr,
    admin: bool,
) -> (r: Result<(), Error>)
    ensures
        error::res_of(r) == refused(merge_fault(config@, change@, entry@, pr@, admin)),
{
    match judge_place(config, change, entry, pr) {
        Some(message) => return Err(fail(&message)),
        None => {},
    }
    let mut message = hash_text(entry.pr_number);
    if config.require_approval && !admin && !option_is(&pr.review_decision, "APPROVED") {
        message.append(" requires approval; reviewDecision is `");
        message.append(&option_text(&pr.review_decision, "NONE"));
        message.append("`");
        return Err(fail(&message));
    }
    if pr.auto_merge {
        message.append(
            " has auto-merge enabled; disable auto-merge before using direct squash merge",
        );
        return Err(fail(&message));
    }
    if !option_is(&pr.mergeable, "MERGEABLE") {
        message.append(" is not mergeable; mergeable is `");
        message.append(&option_text(&pr.mergeable, "UNKNOWN"));
        message.append("`");
        return Err(fail(&message));
    }
    let status = option_text(&pr.merge_state_status, "UNKNOWN");
    match judge_state(entry.pr_number, &status, admin) {
        Some(message) => return Err(fail(&message)),
        None => {},
    }
    if admin {
        return Ok(());
    }
    validate_status_checks(entry.pr_number, &pr.status_check_rollup)
}

/// The pull request is open for review at exactly the commit that is checked out and remembered, and
/// it goes to trunk.
pub open spec fn is_in_place(
    config: AppConfigView,
    change: ResolvedChangeView,
    entry: PrCacheEntryView,
    pr: GhMergePrView,
) -> bool {
    &&& pr::is_open(pr.state)
    &&& !pr.is_draft
    &&& pr.head_ref_oid == change.commit_id
    &&& pr.head_ref_oid == entry.head_sha
    &&& text::lower_all(pr.base_ref_name) == text::lower_all(config.trunk)
}

/// The law of readiness: a pull request passes exactly if it is in place, is approved where approval
/// is required, has no automatic merge pending, is mergeable, is in a free merge state, and passes
/// every check. An administrator needs neither the approval nor the checks.
pub proof fn law_ready_means_every_gate_passed(
    config: AppConfigView,
    change: ResolvedChangeView,
    entry: PrCacheEntryView,
    pr: GhMergePrView,
    admin: bool,
)
    ensures
        merge_fault(config, change, entry, pr, admin) is None <==> {
            &&& is_in_place(config, change, entry, pr)
            &&& config.require_approval && !admin ==> pr.review_decision == Some("APPROVED"@)
            &&& !pr.auto_merge
            &&& pr.mergeable == Some("MERGEABLE"@)
            &&& is_free_state(text_or(pr.merge_state_status, "UNKNOWN"@), admin)
            &&& admin || forall|i: int|
                0 <= i < pr.status_check_rollup.len() ==> check_passes(
                    #[trigger] pr.status_check_rollup[i],
                )
        },
{
    lemma_checks(entry.pr_number, pr.status_check_rollup);
}

/// The law of the administrator: what passes without the administrator's rights passes with them,
/// and what passes with a demand for approval passes without it. Neither ever lets a pull request
/// pass that is not in place.
pub proof fn law_rights_only_relax(
    config: AppConfigView,
    change: ResolvedChangeView,
    entry: PrCacheEntryView,
    pr: GhMergePrView,
    admin: bool,
)
    ensures
        merge_fault(config, change, entry, pr, false) is None ==> merge_fault(
            config,
            change,
            entry,
            pr,
            true,
        ) is None,
        merge_fault(config, change, entry, pr, admin) is None ==> merge_fault(
            (AppConfigView { require_approval: false, ..config }),
            change,
            entry,
            pr,
            admin,
        ) is None,
        merge_fault(
            (AppConfigView { require_approval: false, ..config }),
            change,
            entry,
            pr,
            admin,
        ) is None ==> is_in_place(config, change, entry, pr),
{
}

// ---------------------------------------------------------------------------
// Asking GitHub
// ---------------------------------------------------------------------------

pub open spec fn merge_pr_args(repo: Seq<char>, number: u64) -> Seq<Seq<char>> {
    seq![
        "pr"@,
        "view"@,
        text::decimal(number as nat),
        "--repo"@,
        repo,
        "--json"@,
        MERGE_PR_JSON_FIELDS@,
    ]
}

/// The record from `before` to `after` holds the request for what decides the merge of a pull
/// request, and the reading of the answer.
pub open spec fn merge_pr_fetched(
    before: Seq<Event>,
    after: Seq<Event>,
    repo: Seq<char>,
    change_id: Seq<char>,
    number: u64,
    r: Result<GhMergePrView, Seq<CauseView>>,
) -> bool {
    let n = before.len() as int;
    &&& record::extends(before, after)
    &&& after.len() > n
    &&& record::is_call(after[n], "gh"@, merge_pr_args(repo, number))
    &&& match record::reply_of(after[n]) {
        Err(e) => after.len() == n + 1 && r == Err::<GhMergePrView, _>(e),
        Ok(output) => if !output.success {
            after.len() == n + 1 && r == Err::<GhMergePrView, _>(
                error::plain(
                    "failed-api=`"@ + output::shown("gh"@, merge_pr_args(repo, number)) + "` error="@ + text::trim(
                        output.stderr,
                    ) + " change:"@ + change_id,
                ),
            )
        } else {
            &&& after.len() == n + 2
            &&& after[n + 1] is MergePrRead && after[n + 1]->MergePrRead_json == output.stdout
            &&& r == match after[n + 1]->merge_pr {
                Ok(pr) => Ok(pr),
                Err(e) => Err(
                    error::in_context(
                        "parse merge metadata for "@ + pr::hash(number) + " ("@ + change_id + ")"@,
                        e,
                    ),
                ),
            }
        },
    }
}

pub fn fetch_pr_for_merge<H: Host>(
    sh: &mut Shell<H>,
    github: &GitHubContext,
    change_id: &str,
    pr_number: u64,
) -> (r: Result<GhMergePr, Error>)
    ensures
        record::extends(old(sh).log(), final(sh).log()),
        merge_pr_fetched(
            old(sh).log(),
            final(sh).log(),
            github@.repo,
            change_id@,
            pr_number,
            error::res(r),
        ),
{
    let ghost n = sh.log().len() as int;
    let args = words(
        &[
            "pr",
            "view",
            &number_text(pr_number),
            "--repo",
            &github.repo,
            "--json",
            MERGE_PR_JSON_FIELDS,
        ],
    );
    assert(args.deep_view() =~= merge_pr_args(github@.repo, pr_number));
    let reply = gh_run(sh, &args);
    let ghost mid = sh.log();
    let output = match reply {
        Ok(output) => output,
        Err(error) => return Err(error),
    };
    if !output.success {
        let mut message = "failed-api=`".to_owned();
        message.append(&display_command("gh", &args));
        message.append("` error=");
        message.append(&trimmed(&output.stderr));
        message.append(" change:");
        message.append(change_id);
        return Err(fail(&message));
    }
    let pr = sh.read_merge_pr(&output.stdout);
    assert(sh.log()[n] == mid[n]);
    match pr {
        Ok(pr) => Ok(pr),
        Err(error) => Err(
            error.context(
                &cat5("parse merge metadata for ", &hash_text(pr_number), " (", change_id, ")"),
            ),
        ),
    }
}

/// GitHub has not yet computed whether the pull request can be merged.
pub open spec fn is_unsettled(pr: GhMergePrView) -> bool {
    match pr.mergeable {
        Some(state) => text::lower_all(state) == text::lower_all("UNKNOWN"@),
        None => true,
    }
}

pub fn mergeability_unknown(pr: &GhMergePr) -> (r: bool)
    ensures
        r == is_unsettled(pr@),
{
    match &pr.mergeable {
        Some(state) => same_ignoring_case(state, "UNKNOWN"),
        None => true,
    }
}

} // verus!
