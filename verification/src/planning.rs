//! The plan of a submit, and the push of its branches.

use vstd::prelude::*;

use crate::cache::CacheStore;
use crate::error;
use crate::error::{CauseView, Error, fail, phase_error};
use crate::heads;
use crate::heads::{SubmitHead, SubmitHeadView, resolve_submit_head_branch};
use crate::model::{
    AppConfig, AppConfigView, Diagnostics, Duplicate, FrozenDependency, FrozenDependencyView, GhPr,
    GhPrView, GitHubContext, GitHubContextView, PrCacheEntry, PrCacheEntryView, ResolvedChange,
    ResolvedChangeView, SubmitPlan, SubmitPlanView,
};
use crate::output;
use crate::output::display_command;
use crate::pr;
use crate::pr::{
    fetch_pr_by_number, get_pr_repo, github_pr_url, hash_text, state_is_open,
    validate_get_pr_metadata,
};
use crate::record;
use crate::record::{Event, LineView, Reply};
use crate::repo::git_run_required;
use crate::shell::{Host, jj_run};
use crate::shell::wire::Shell;
use crate::stack;
use crate::stack::selected_parent;
use crate::text;
use crate::text::{blank, cat, cat3, cat5, join_text, number_text, same, trimmed, words};
use crate::ui;
use crate::ui::{log_warning, say_step, ui_finish_progress_bar};

verus! {

broadcast use crate::record::group_record;

/// What was done to a pull request.
#[derive(Clone, Copy, PartialEq, Eq)]
pub enum SubmitPrAction {
    Submit,
    Update,
    Nothing,
}

pub open spec fn action_verb(action: SubmitPrAction) -> Seq<char> {
    match action {
        SubmitPrAction::Submit => "Submitted"@,
        SubmitPrAction::Update => "Updated"@,
        SubmitPrAction::Nothing => "Nothing"@,
    }
}

impl SubmitPrAction {
    pub fn progress_verb(self) -> (r: String)
        ensures
            r@ == action_verb(self),
    {
        match self {
            SubmitPrAction::Submit => "Submitted".to_owned(),
            SubmitPrAction::Update => "Updated".to_owned(),
            SubmitPrAction::Nothing => "Nothing".to_owned(),
        }
    }
}

// ---------------------------------------------------------------------------
// Bases and descriptions
// ---------------------------------------------------------------------------

pub open spec fn merge_base_args(left: Seq<char>, right: Seq<char>) -> Seq<Seq<char>> {
    seq!["merge-base"@, left, right]
}

pub open spec fn merge_base_result(left: Seq<char>, right: Seq<char>, reply: Reply) -> Result<
    Seq<char>,
    Seq<CauseView>,
> {
    match output::required_output("git"@, merge_base_args(left, right), reply) {
        Ok(base) => Ok(base),
        Err(e) => Err(
            error::in_context("validate merge base between "@ + left + " and "@ + right, e),
        ),
    }
}

pub fn merge_base<H: Host>(sh: &mut Shell<H>, left: &str, right: &str) -> (r: Result<String, Error>)
    ensures
        record::called(old(sh).log(), final(sh).log(), "git"@, merge_base_args(left@, right@)),
        error::res(r) == merge_base_result(left@, right@, record::last_reply(final(sh).log())),
{
    let args = words(&["merge-base", left, right]);
    assert(args.deep_view() =~= merge_base_args(left@, right@));
    match git_run_required(sh, &args) {
        Ok(base) => Ok(base),
        Err(error) => {
            let mut context = cat3("validate merge base between ", left, " and ");
            context.append(right);
            Err(error.context(&context))
        },
    }
}

/// What a stack must stand on: a label, the revision to compare with, and the parent that its root
/// must have.
pub struct SubmitBase {
    pub label: String,
    pub target: String,
    pub parent: String,
}

pub struct SubmitBaseView {
    pub label: Seq<char>,
    pub target: Seq<char>,
    pub parent: Seq<char>,
}

impl View for SubmitBase {
    type V = SubmitBaseView;

    open spec fn view(&self) -> SubmitBaseView {
        SubmitBaseView { label: self.label@, target: self.target@, parent: self.parent@ }
    }
}

impl DeepView for SubmitBase {
    type V = SubmitBaseView;

    open spec fn deep_view(&self) -> SubmitBaseView {
        self@
    }
}

/// What a stack must stand on: the topmost frozen change below it, or else trunk, where its root may
/// have any parent.
pub open spec fn base_for(
    trunk: Seq<char>,
    root_parent: Seq<char>,
    frozen: Seq<FrozenDependencyView>,
) -> SubmitBaseView {
    if frozen.len() > 0 {
        SubmitBaseView {
            label: frozen.last().bookmark.name,
            target: frozen.last().change.commit_id,
            parent: frozen.last().change.commit_id,
        }
    } else {
        SubmitBaseView { label: trunk, target: trunk, parent: root_parent }
    }
}

pub open spec fn base_failure(change: ResolvedChangeView) -> Seq<char> {
    "submit base validation failed for "@ + change.change_id + " ("@ + change.commit_id + "): "@
}

/// The base of a stack, if its root has the parent that it must have.
pub open spec fn base_result(
    trunk: Seq<char>,
    stack: Seq<ResolvedChangeView>,
    frozen: Seq<FrozenDependencyView>,
) -> Result<SubmitBaseView, Seq<CauseView>> {
    if stack.len() == 0 {
        Err(error::plain("cannot submit an empty stack"@))
    } else if stack[0].parent_ids.len() == 0 {
        Err(
            error::plain(
                "change "@ + stack[0].change_id + " ("@ + stack[0].commit_id
                    + ") has no parent to compare against trunk `"@ + trunk + "`"@,
            ),
        )
    } else {
        let parent = stack[0].parent_ids[0];
        let base = base_for(trunk, parent, frozen);
        if parent != base.parent {
            Err(
                error::plain(
                    base_failure(stack[0]) + "jj parent is "@ + parent + ", expected base "@
                        + base.label + " at "@ + base.parent,
                ),
            )
        } else {
            Ok(base)
        }
    }
}

fn base_failure_text(change: &ResolvedChange) -> (r: String)
    ensures
        r@ == base_failure(change@),
{
    cat5(
        "submit base validation failed for ",
        &change.change_id,
        " (",
        &change.commit_id,
        "): ",
    )
}

pub fn submit_base(
    config: &AppConfig,
    stack: &Vec<ResolvedChange>,
    frozen_dependencies: &Vec<FrozenDependency>,
) -> (r: Result<SubmitBase, Error>)
    ensures
        error::res(r) == base_result(config@.trunk, stack.deep_view(), frozen_dependencies.deep_view()),
{
    if stack.len() == 0 {
        return Err(fail("cannot submit an empty stack"));
    }
    let root = &stack[0];
    assert(stack.deep_view()[0] == root@);
    assert(root@.parent_ids == root.parent_ids.deep_view());
    if root.parent_ids.len() == 0 {
        let mut message = cat5(
            "change ",
            &root.change_id,
            " (",
            &root.commit_id,
            ") has no parent to compare against trunk `",
        );
        message.append(&config.trunk);
        message.append("`");
        return Err(fail(&message));
    }
    let parent = &root.parent_ids[0];
    assert(root@.parent_ids[0] == parent@);
    let n: usize = frozen_dependencies.len();
    let base = if n > 0 {
        let last = &frozen_dependencies[n - 1];
        assert(frozen_dependencies.deep_view().last() == last@);
        SubmitBase {
            label: last.bookmark.name.clone(),
            target: last.change.commit_id.clone(),
            parent: last.change.commit_id.clone(),
        }
    } else {
        SubmitBase {
            label: config.trunk.clone(),
            target: config.trunk.clone(),
            parent: parent.clone(),
        }
    };
    if !same(parent, &base.parent) {
        let mut message = base_failure_text(root);
        message.append("jj parent is ");
        message.append(parent);
        message.append(", expected base ");
        message.append(&base.label);
        message.append(" at ");
        message.append(&base.parent);
        return Err(fail(&message));
    }
    Ok(base)
}

pub open spec fn parent_failure(
    child: ResolvedChangeView,
    parent: ResolvedChangeView,
) -> Seq<CauseView> {
    error::plain(
        "submit parent validation failed for "@ + child.change_id + " ("@ + child.commit_id
            + "): expected parent commit "@ + parent.commit_id + " from previous change "@
            + parent.change_id,
    )
}

pub open spec fn step_failure(
    child: ResolvedChangeView,
    parent: ResolvedChangeView,
    base: Seq<char>,
) -> Seq<CauseView> {
    error::plain(
        base_failure(child) + "merge-base with parent change "@ + parent.change_id + " ("@
            + parent.commit_id + ") is "@ + base,
    )
}

/// The record from `before` to `after` holds the check of each change from `at` on against the one
/// below it.
pub open spec fn steps_checked(
    before: Seq<Event>,
    after: Seq<Event>,
    stack: Seq<ResolvedChangeView>,
    at: int,
    r: Result<(), Seq<CauseView>>,
) -> bool
    decreases stack.len() - at,
{
    if at < 1 || at >= stack.len() {
        after == before && r == Ok::<(), Seq<CauseView>>(())
    } else {
        let n = before.len() as int;
        let parent = stack[at - 1];
        let child = stack[at];
        if stack::first_among(child.parent_ids, seq![parent.commit_id]) != Some(parent.commit_id) {
            record::stopped(before, after, parent_failure(child, parent), r)
        } else {
            &&& record::extends(before, after)
            &&& after.len() > n
            &&& record::is_call(after[n], "git"@, merge_base_args(child.commit_id, parent.commit_id))
            &&& match merge_base_result(child.commit_id, parent.commit_id, record::reply_of(after[n])) {
                Err(e) => record::stopped(after.take(n + 1), after, e, r),
                Ok(base) => if base != parent.commit_id {
                    record::stopped(after.take(n + 1), after, step_failure(child, parent, base), r)
                } else {
                    steps_checked(after.take(n + 1), after, stack, at + 1, r)
                },
            }
        }
    }
}

fn check_steps<H: Host>(sh: &mut Shell<H>, stack: &Vec<ResolvedChange>, at: usize) -> (r: Result<
    (),
    Error,
>)
    requires
        1 <= at <= stack@.len(),
    ensures
        record::extends(old(sh).log(), final(sh).log()),
        steps_checked(
            old(sh).log(),
            final(sh).log(),
            stack.deep_view(),
            at as int,
            error::res_of(r),
        ),
    decreases stack@.len() - at,
{
    if at == stack.len() {
        return Ok(());
    }
    let ghost n = sh.log().len() as int;
    let parent = &stack[at - 1];
    let child = &stack[at];
    assert(stack.deep_view()[at - 1] == parent@);
    assert(stack.deep_view()[at as int] == child@);
    let mut only: Vec<String> = Vec::new();
    only.push(parent.commit_id.clone());
    assert(only.deep_view() =~= seq![parent@.commit_id]);
    let stands = match selected_parent(child, &only) {
        Some(found) => same(&found, &parent.commit_id),
        None => false,
    };
    if !stands {
        let mut message = cat5(
            "submit parent validation failed for ",
            &child.change_id,
            " (",
            &child.commit_id,
            "): expected parent commit ",
        );
        message.append(&parent.commit_id);
        message.append(" from previous change ");
        message.append(&parent.change_id);
        return Err(fail(&message));
    }
    let found = merge_base(sh, &child.commit_id, &parent.commit_id);
    let ghost mid = sh.log();
    assert(mid.take(n + 1) =~= mid);
    let base = match found {
        Ok(base) => base,
        Err(error) => return Err(error),
    };
    if !same(&base, &parent.commit_id) {
        let mut message = base_failure_text(child);
        message.append("merge-base with parent change ");
        message.append(&parent.change_id);
        message.append(" (");
        message.append(&parent.commit_id);
        message.append(") is ");
        message.append(&base);
        return Err(fail(&message));
    }
    let r = check_steps(sh, stack, at + 1);
    assert(sh.log().take(n + 1) =~= mid);
    assert(sh.log()[n] == sh.log().take(n + 1)[n]);
    r
}

pub open spec fn root_failure(
    root: ResolvedChangeView,
    base: SubmitBaseView,
    found: Seq<char>,
) -> Seq<CauseView> {
    error::plain(
        base_failure(root) + "merge-base with base `"@ + base.label + "` ("@ + base.target
            + ") is "@ + found + ", but expected "@ + base.parent,
    )
}

/// The record from `before` to `after` holds the check that a stack stands on its base and each
/// change on the one below.
pub open spec fn bases_checked(
    before: Seq<Event>,
    after: Seq<Event>,
    trunk: Seq<char>,
    stack: Seq<ResolvedChangeView>,
    frozen: Seq<FrozenDependencyView>,
    r: Result<(), Seq<CauseView>>,
) -> bool {
    let n = before.len() as int;
    match base_result(trunk, stack, frozen) {
        Err(e) => record::stopped(before, after, e, r),
        Ok(base) => {
            &&& record::extends(before, after)
            &&& after.len() > n
            &&& record::is_call(after[n], "git"@, merge_base_args(stack[0].commit_id, base.target))
            &&& match merge_base_result(stack[0].commit_id, base.target, record::reply_of(after[n])) {
                Err(e) => record::stopped(after.take(n + 1), after, e, r),
                Ok(found) => if found != base.parent {
                    record::stopped(after.take(n + 1), after, root_failure(stack[0], base, found), r)
                } else {
                    steps_checked(after.take(n + 1), after, stack, 1, r)
                },
            }
        },
    }
}

pub fn validate_submit_bases<H: Host>(
    sh: &mut Shell<H>,
    config: &AppConfig,
    stack: &Vec<ResolvedChange>,
    frozen_dependencies: &Vec<FrozenDependency>,
) -> (r: Result<(), Error>)
    ensures
        record::extends(old(sh).log(), final(sh).log()),
        bases_checked(
            old(sh).log(),
            final(sh).log(),
            config@.trunk,
            stack.deep_view(),
            frozen_dependencies.deep_view(),
            error::res_of(r),
        ),
{
    let ghost n = sh.log().len() as int;
    let base = match submit_base(config, stack, frozen_dependencies) {
        Ok(base) => base,
        Err(error) => return Err(error),
    };
    assert(stack@.len() == stack.deep_view().len());
    let root = &stack[0];
    assert(stack.deep_view()[0] == root@);
    let asked = merge_base(sh, &root.commit_id, &base.target);
    let ghost mid = sh.log();
    assert(mid.take(n + 1) =~= mid);
    let found = match asked {
        Ok(found) => found,
        Err(error) => return Err(error),
    };
    if !same(&found, &base.parent) {
        let mut message = base_failure_text(root);
        message.append("merge-base with base `");
        message.append(&base.label);
        message.append("` (");
        message.append(&base.target);
        message.append(") is ");
        message.append(&found);
        message.append(", but expected ");
        message.append(&base.parent);
        return Err(fail(&message));
    }
    let r = check_steps(sh, stack, 1);
    assert(sh.log().take(n + 1) =~= mid);
    assert(sh.log()[n] == sh.log().take(n + 1)[n]);
    r
}

/// The changes without a description.
pub open spec fn undescribed(stack: Seq<ResolvedChangeView>) -> Seq<ResolvedChangeView>
    decreases stack.len(),
{
    if stack.len() == 0 {
        seq![]
    } else {
        let rest = undescribed(stack.drop_last());
        if text::is_blank(stack.last().title) {
            rest.push(stack.last())
        } else {
            rest
        }
    }
}

pub open spec fn id_with_commit(change: ResolvedChangeView) -> Seq<char> {
    change.change_id + " ("@ + change.commit_id + ")"@
}

pub open spec fn ids_with_commits(changes: Seq<ResolvedChangeView>) -> Seq<Seq<char>> {
    changes.map_values(|c: ResolvedChangeView| id_with_commit(c))
}

pub open spec fn change_ids(changes: Seq<ResolvedChangeView>) -> Seq<Seq<char>> {
    changes.map_values(|c: ResolvedChangeView| c.change_id)
}

/// Every change needs a description: jj would refuse the push half way.
pub open spec fn descriptions_result(stack: Seq<ResolvedChangeView>) -> Result<
    (),
    Seq<CauseView>,
> {
    let bare = undescribed(stack);
    if bare.len() == 0 {
        Ok(())
    } else {
        Err(
            error::plain(
                "cannot submit: "@ + text::decimal(bare.len())
                    + " change(s) have no description and jj refuses to push undescribed commits: "@
                    + text::join(ids_with_commits(bare), ", "@)
                    + ". Describe them first, e.g. `jj describe -r "@ + text::join(
                    change_ids(bare),
                    " "@,
                ) + "`."@,
            ),
        )
    }
}

pub fn validate_submit_descriptions(stack: &Vec<ResolvedChange>) -> (r: Result<(), Error>)
    ensures
        error::res_of(r) == descriptions_result(stack.deep_view()),
{
    let ghost view = stack.deep_view();
    let mut labels: Vec<String> = Vec::new();
    let mut ids: Vec<String> = Vec::new();
    let mut i: usize = 0;
    assert(labels.deep_view() =~= ids_with_commits(undescribed(view.take(0))));
    assert(ids.deep_view() =~= change_ids(undescribed(view.take(0))));
    while i < stack.len()
        invariant
            i <= stack@.len(),
            view == stack.deep_view(),
            labels.deep_view() == ids_with_commits(undescribed(view.take(i as int))),
            ids.deep_view() == change_ids(undescribed(view.take(i as int))),
        decreases stack@.len() - i,
    {
        assert(view.take(i + 1).drop_last() =~= view.take(i as int));
        assert(view.take(i + 1).last() == stack@[i as int]@);
        let ghost bare = undescribed(view.take(i as int));
        let ghost said = labels.deep_view();
        let ghost named = ids.deep_view();
        let change = &stack[i];
        if blank(&change.title) {
            let mut label = cat3(&change.change_id, " (", &change.commit_id);
            label.append(")");
            labels.push(label);
            ids.push(change.change_id.clone());
            assert(labels.deep_view() =~= said.push(id_with_commit(change@)));
            assert(ids.deep_view() =~= named.push(change@.change_id));
            assert(ids_with_commits(bare.push(change@)) =~= said.push(id_with_commit(change@)));
            assert(change_ids(bare.push(change@)) =~= named.push(change@.change_id));
        }
        i = i + 1;
    }
    assert(view.take(i as int) =~= view);
    assert(ids.deep_view().len() == undescribed(view).len());
    if ids.len() == 0 {
        return Ok(());
    }
    let mut message = cat5(
        "cannot submit: ",
        &number_text(ids.len() as u64),
        " change(s) have no description and jj refuses to push undescribed commits: ",
        &join_text(&labels, ", "),
        ". Describe them first, e.g. `jj describe -r ",
    );
    message.append(&join_text(&ids, " "));
    message.append("`.");
    Err(fail(&message))
}

// ---------------------------------------------------------------------------
// Frozen changes below the stack
// ---------------------------------------------------------------------------

/// What keeps a stack on a frozen change from being submitted.
pub open spec fn frozen_pr_fault(
    repo: Seq<char>,
    dependency: FrozenDependencyView,
    pr: GhPrView,
) -> Option<Seq<CauseView>> {
    let name = dependency.bookmark.name;
    if pr::metadata_gap(repo, pr) is Some {
        pr::metadata_gap(repo, pr)
    } else if !pr::is_open(pr.state) {
        Some(
            error::plain(
                "frozen dependency `"@ + name + "` points to "@ + pr::hash(pr.number)
                    + ", but GitHub reports state "@ + pr.state
                    + "; run `forklift sync` before submitting"@,
            ),
        )
    } else {
        match (pr::repo_result(pr, "head"@), pr::repo_result(pr, "base"@)) {
            (Err(e), _) => Some(e),
            (_, Err(e)) => Some(e),
            (Ok(head), Ok(base)) => if head.name_with_owner != repo || base.name_with_owner
                != repo {
                Some(
                    error::plain(
                        "frozen dependency `"@ + name + "` "@ + pr::hash(pr.number)
                            + " must be same-repo before submit; run `forklift sync` or unfreeze manually"@,
                    ),
                )
            } else if pr.head_ref_oid != dependency.change.commit_id {
                Some(
                    error::plain(
                        "frozen dependency `"@ + name + "` points at "@
                            + dependency.change.commit_id + ", but GitHub "@ + pr::hash(pr.number)
                            + " head is "@ + pr.head_ref_oid
                            + "; run `forklift sync` before submitting"@,
                    ),
                )
            } else {
                None
            },
        }
    }
}

pub fn validate_submit_frozen_dependency_pr(
    github: &GitHubContext,
    dependency: &FrozenDependency,
    pr: &GhPr,
) -> (r: Result<(), Error>)
    ensures
        error::res_of(r) == match frozen_pr_fault(github@.repo, dependency@, pr@) {
            Some(e) => Err(e),
            None => Ok(()),
        },
{
    match validate_get_pr_metadata(github, pr) {
        Ok(_) => {},
        Err(error) => return Err(error),
    }
    let name = &dependency.bookmark.name;
    if !state_is_open(&pr.state) {
        let mut message = cat5(
            "frozen dependency `",
            name,
            "` points to ",
            &hash_text(pr.number),
            ", but GitHub reports state ",
        );
        message.append(&pr.state);
        message.append("; run `forklift sync` before submitting");
        return Err(fail(&message));
    }
    let head = match get_pr_repo(pr, "head") {
        Ok(repo) => repo,
        Err(error) => return Err(error),
    };
    let base = match get_pr_repo(pr, "base") {
        Ok(repo) => repo,
        Err(error) => return Err(error),
    };
    if !same(&head.name_with_owner, &github.repo) || !same(&base.name_with_owner, &github.repo) {
        return Err(
            fail(
                &cat5(
                    "frozen dependency `",
                    name,
                    "` ",
                    &hash_text(pr.number),
                    " must be same-repo before submit; run `forklift sync` or unfreeze manually",
                ),
            ),
        );
    }
    if !same(&pr.head_ref_oid, &dependency.change.commit_id) {
        let mut message = cat5(
            "frozen dependency `",
            name,
            "` points at ",
            &dependency.change.commit_id,
            ", but GitHub ",
        );
        message.append(&hash_text(pr.number));
        message.append(" head is ");
        message.append(&pr.head_ref_oid);
        message.append("; run `forklift sync` before submitting");
        return Err(fail(&message));
    }
    Ok(())
}

/// What the log tells of a frozen change whose pull request was found.
pub open spec fn resolved_dependency(name: Seq<char>, pr: GhPrView) -> Seq<char> {
    "resolved frozen dependency `"@ + name + "` to "@ + pr::hash(pr.number) + " head `"@
        + pr.head_ref_name + "`"@
}

/// The record from `before` to `after` holds the request for the pull request of each frozen change
/// in turn; each that is found is logged.
pub open spec fn frozen_entries_walked(
    before: Seq<Event>,
    after: Seq<Event>,
    repo: Seq<char>,
    dependencies: Seq<FrozenDependencyView>,
    done: Seq<(Seq<char>, PrCacheEntryView)>,
    r: Result<Seq<(Seq<char>, PrCacheEntryView)>, Seq<CauseView>>,
) -> bool
    decreases dependencies.len() - done.len(),
{
    if done.len() >= dependencies.len() {
        after == before && r == Ok::<_, Seq<CauseView>>(done)
    } else {
        let dependency = dependencies[done.len() as int];
        exists|mid: Seq<Event>, fetched: Result<GhPrView, Seq<CauseView>>|
            {
                &&& #[trigger] pr::pr_fetched(
                    before,
                    mid,
                    repo,
                    dependency.change.change_id,
                    dependency.bookmark.pr_number,
                    fetched,
                )
                &&& match fetched {
                    Err(e) => record::stopped(mid, after, e, r),
                    Ok(pr) => match frozen_pr_fault(repo, dependency, pr) {
                        Some(e) => record::stopped(mid, after, e, r),
                        None => frozen_entries_walked(
                            mid + ui::logged(resolved_dependency(dependency.bookmark.name, pr)),
                            after,
                            repo,
                            dependencies,
                            done.push((dependency.change.change_id, pr::entry_of(pr, None))),
                            r,
                        ),
                    },
                }
            }
    }
}

fn walk_frozen_entries<H: Host>(
    sh: &mut Shell<H>,
    github: &GitHubContext,
    dependencies: &Vec<FrozenDependency>,
    done: Vec<(String, PrCacheEntry)>,
) -> (r: Result<Vec<(String, PrCacheEntry)>, Error>)
    requires
        done@.len() <= dependencies@.len(),
    ensures
        record::extends(old(sh).log(), final(sh).log()),
        frozen_entries_walked(
            old(sh).log(),
            final(sh).log(),
            github@.repo,
            dependencies.deep_view(),
            done.deep_view(),
            error::res(r),
        ),
    decreases dependencies@.len() - done@.len(),
{
    let n: usize = done.len();
    if n == dependencies.len() {
        return Ok(done);
    }
    let ghost start = sh.log();
    let ghost before = done.deep_view();
    let dependency = &dependencies[n];
    assert(dependencies.deep_view()[n as int] == dependency@);
    let fetched = fetch_pr_by_number(
        sh,
        github,
        &dependency.change.change_id,
        dependency.bookmark.pr_number,
    );
    let ghost seen = error::res(fetched);
    assert(pr::pr_fetched(
        start,
        sh.log(),
        github@.repo,
        dependency@.change.change_id,
        dependency@.bookmark.pr_number,
        seen,
    ));
    let pr = match fetched {
        Ok(pr) => pr,
        Err(error) => return Err(error),
    };
    match validate_submit_frozen_dependency_pr(github, dependency, &pr) {
        Err(error) => Err(error),
        Ok(_) => {
            let mut message = cat5(
                "resolved frozen dependency `",
                &dependency.bookmark.name,
                "` to ",
                &hash_text(pr.number),
                " head `",
            );
            message.append(&pr.head_ref_name);
            message.append("`");
            log_warning(sh, &message);
            let ghost put = (dependency@.change.change_id, pr::entry_of(pr@, None));
            let mut done = done;
            done.push((dependency.change.change_id.clone(), pr.into_cache_entry(None)));
            assert(done.deep_view() =~= before.push(put));
            walk_frozen_entries(sh, github, dependencies, done)
        },
    }
}

pub open spec fn frozen_entries_resolved(
    before: Seq<Event>,
    after: Seq<Event>,
    repo: Seq<char>,
    dependencies: Seq<FrozenDependencyView>,
    r: Result<Seq<(Seq<char>, PrCacheEntryView)>, Seq<CauseView>>,
) -> bool {
    frozen_entries_walked(before, after, repo, dependencies, seq![], r)
}

pub fn resolve_submit_frozen_dependency_entries<H: Host>(
    sh: &mut Shell<H>,
    github: &GitHubContext,
    dependencies: &Vec<FrozenDependency>,
) -> (r: Result<Vec<(String, PrCacheEntry)>, Error>)
    ensures
        record::extends(old(sh).log(), final(sh).log()),
        frozen_entries_resolved(
            old(sh).log(),
            final(sh).log(),
            github@.repo,
            dependencies.deep_view(),
            error::res(r),
        ),
{
    let done: Vec<(String, PrCacheEntry)> = Vec::new();
    assert(done.deep_view() =~= Seq::<(Seq<char>, PrCacheEntryView)>::empty());
    walk_frozen_entries(sh, github, dependencies, done)
}

// ---------------------------------------------------------------------------
// The plan of a change
// ---------------------------------------------------------------------------

pub open spec fn metadata_differs(
    entry: PrCacheEntryView,
    base_branch: Seq<char>,
    change: ResolvedChangeView,
) -> bool {
    entry.base_branch != base_branch || entry.base_ref != base_branch || entry.title
        != change.title || entry.body != change.body
}

pub fn pr_metadata_changed(entry: &PrCacheEntry, base_branch: &str, change: &ResolvedChange) -> (r:
    bool)
    ensures
        r == metadata_differs(entry@, base_branch@, change@),
{
    !same(&entry.base_branch, base_branch) || !same(&entry.base_ref, base_branch) || !same(
        &entry.title,
        &change.title,
    ) || !same(&entry.body, &change.body)
}

/// The branch of an open pull request may only stand at the change itself or where it was last seen:
/// anything else was pushed by someone, and a forced push would lose it.
pub open spec fn out_of_band(change: ResolvedChangeView, head: SubmitHeadView) -> Option<
    Seq<CauseView>,
> {
    match head.existing_pr {
        None => None,
        Some(entry) => if head.expected_remote_head != Some(change.commit_id)
            && head.expected_remote_head != Some(entry.head_sha) {
            Some(
                error::plain(
                    "phase=plan-submit object=head:"@ + head.head_branch
                        + " error=remote branch is at "@ + or_absent(head.expected_remote_head)
                        + " but cache recorded "@ + entry.head_sha
                        + "; it advanced out-of-band, refusing to force-push. safe-next-command=`forklift submit --dry-run`"@,
                ),
            )
        } else {
            None
        },
    }
}

pub open spec fn or_absent(head: Option<Seq<char>>) -> Seq<char> {
    match head {
        Some(head) => head,
        None => "<absent>"@,
    }
}

/// What a submit does to a change.
pub open spec fn plan_of(
    change: ResolvedChangeView,
    base_branch: Seq<char>,
    head: SubmitHeadView,
) -> SubmitPlanView {
    let push_needed = head.expected_remote_head != Some(change.commit_id);
    SubmitPlanView {
        change,
        head_branch: head.head_branch,
        base_branch,
        existing_pr: head.existing_pr,
        expected_remote_head: head.expected_remote_head,
        push_needed,
        pr_update_needed: match head.existing_pr {
            Some(entry) => push_needed || metadata_differs(entry, base_branch, change),
            None => false,
        },
    }
}

pub open spec fn plan_result(
    change: ResolvedChangeView,
    base_branch: Seq<char>,
    head: SubmitHeadView,
) -> Result<SubmitPlanView, Seq<CauseView>> {
    match out_of_band(change, head) {
        Some(e) => Err(e),
        None => Ok(plan_of(change, base_branch, head)),
    }
}

fn head_is(head: &Option<String>, commit: &str) -> (r: bool)
    ensures
        r == (head.deep_view() == Some(commit@)),
{
    match head {
        Some(head) => same(head, commit),
        None => false,
    }
}

pub fn plan_change(change: &ResolvedChange, base_branch: String, head: SubmitHead) -> (r: Result<
    SubmitPlan,
    Error,
>)
    ensures
        error::res(r) == plan_result(change@, base_branch@, head@),
{
    let at_change = head_is(&head.expected_remote_head, &change.commit_id);
    if let Some(entry) = &head.existing_pr {
        if !at_change && !head_is(&head.expected_remote_head, &entry.head_sha) {
            let absent = "<absent>".to_owned();
            let live = match &head.expected_remote_head {
                Some(head) => head.clone(),
                None => absent,
            };
            let mut message = cat5(
                "phase=plan-submit object=head:",
                &head.head_branch,
                " error=remote branch is at ",
                &live,
                " but cache recorded ",
            );
            message.append(&entry.head_sha);
            message.append(
                "; it advanced out-of-band, refusing to force-push. safe-next-command=`forklift submit --dry-run`",
            );
            return Err(fail(&message));
        }
    }
    let push_needed = !at_change;
    let pr_update_needed = match &head.existing_pr {
        Some(entry) => push_needed || pr_metadata_changed(entry, &base_branch, change),
        None => false,
    };
    Ok(
        SubmitPlan {
            change: change.copy(),
            head_branch: head.head_branch,
            base_branch,
            existing_pr: head.existing_pr,
            expected_remote_head: head.expected_remote_head,
            push_needed,
            pr_update_needed,
        },
    )
}

pub open spec fn plan_heads(plans: Seq<SubmitPlanView>) -> Seq<Seq<char>> {
    plans.map_values(|p: SubmitPlanView| p.head_branch)
}

/// The base branch of the next change: the head of the one below, or what the stack stands on.
pub open spec fn next_base(first: Seq<char>, done: Seq<SubmitPlanView>) -> Seq<char> {
    if done.len() > 0 {
        done.last().head_branch
    } else {
        first
    }
}

/// The record from `before` to `after` holds the planning of each change in turn.
pub open spec fn plans_walked(
    before: Seq<Event>,
    after: Seq<Event>,
    config: AppConfigView,
    github: GitHubContextView,
    all: Map<(Seq<char>, Seq<char>), PrCacheEntryView>,
    stack: Seq<ResolvedChangeView>,
    first: Seq<char>,
    done: Seq<SubmitPlanView>,
    r: Result<Seq<SubmitPlanView>, Seq<CauseView>>,
) -> bool
    decreases stack.len() - done.len(),
{
    if done.len() >= stack.len() {
        after == before && r == Ok::<_, Seq<CauseView>>(done)
    } else {
        let change = stack[done.len() as int];
        exists|mid: Seq<Event>, head: Result<SubmitHeadView, Seq<CauseView>>|
            {
                &&& #[trigger] heads::head_resolved(
                    before,
                    mid,
                    config,
                    github,
                    change,
                    all,
                    plan_heads(done),
                    head,
                )
                &&& match head {
                    Err(e) => record::stopped(
                        mid,
                        after,
                        error::phase_failure("plan-submit"@, "change:"@ + change.change_id, e),
                        r,
                    ),
                    Ok(head) => match plan_result(change, next_base(first, done), head) {
                        Err(e) => record::stopped(mid, after, e, r),
                        Ok(plan) => plans_walked(
                            mid,
                            after,
                            config,
                            github,
                            all,
                            stack,
                            first,
                            done.push(plan),
                            r,
                        ),
                    },
                }
            }
    }
}

fn walk_plans<H: Host>(
    sh: &mut Shell<H>,
    config: &AppConfig,
    github: &GitHubContext,
    store: &CacheStore,
    stack: &Vec<ResolvedChange>,
    first: &str,
    used: Vec<String>,
    done: Vec<SubmitPlan>,
) -> (r: Result<Vec<SubmitPlan>, Error>)
    requires
        done@.len() <= stack@.len(),
        used.deep_view() == plan_heads(done.deep_view()),
    ensures
        record::extends(old(sh).log(), final(sh).log()),
        plans_walked(
            old(sh).log(),
            final(sh).log(),
            config@,
            github@,
            store@,
            stack.deep_view(),
            first@,
            done.deep_view(),
            error::res(r),
        ),
        r matches Ok(plans) ==> plans@.len() == stack@.len(),
    decreases stack@.len() - done@.len(),
{
    let n: usize = done.len();
    if n == stack.len() {
        return Ok(done);
    }
    let ghost start = sh.log();
    let ghost before = done.deep_view();
    let change = &stack[n];
    assert(stack.deep_view()[n as int] == change@);
    let base_branch = if n > 0 {
        assert(before.last() == done@[n - 1]@);
        done[n - 1].head_branch.clone()
    } else {
        first.to_owned()
    };
    let resolved = resolve_submit_head_branch(sh, config, &used, store, github, change);
    let ghost seen = error::res(resolved);
    assert(heads::head_resolved(
        start,
        sh.log(),
        config@,
        github@,
        change@,
        store@,
        plan_heads(before),
        seen,
    ));
    let head = match resolved {
        Ok(head) => head,
        Err(error) => return Err(
            phase_error("plan-submit", &cat("change:", &change.change_id), error),
        ),
    };
    match plan_change(change, base_branch, head) {
        Err(error) => Err(error),
        Ok(plan) => {
            let ghost put = plan@;
            let ghost heads = used.deep_view();
            let mut used = used;
            used.push(plan.head_branch.clone());
            assert(used.deep_view() =~= heads.push(put.head_branch));
            let mut done = done;
            done.push(plan);
            assert(done.deep_view() =~= before.push(put));
            assert(plan_heads(before.push(put)) =~= plan_heads(before).push(put.head_branch));
            walk_plans(sh, config, github, store, stack, first, used, done)
        },
    }
}

pub open spec fn stack_planned(
    before: Seq<Event>,
    after: Seq<Event>,
    config: AppConfigView,
    github: GitHubContextView,
    all: Map<(Seq<char>, Seq<char>), PrCacheEntryView>,
    stack: Seq<ResolvedChangeView>,
    first: Seq<char>,
    r: Result<Seq<SubmitPlanView>, Seq<CauseView>>,
) -> bool {
    plans_walked(before, after, config, github, all, stack, first, seq![], r)
}

/// Plans each change of a stack, bottom first.
pub fn plan_stack<H: Host>(
    sh: &mut Shell<H>,
    config: &AppConfig,
    github: &GitHubContext,
    store: &CacheStore,
    stack: &Vec<ResolvedChange>,
    first: &str,
) -> (r: Result<Vec<SubmitPlan>, Error>)
    ensures
        record::extends(old(sh).log(), final(sh).log()),
        stack_planned(
            old(sh).log(),
            final(sh).log(),
            config@,
            github@,
            store@,
            stack.deep_view(),
            first@,
            error::res(r),
        ),
        r matches Ok(plans) ==> plans@.len() == stack@.len(),
{
    let used: Vec<String> = Vec::new();
    let done: Vec<SubmitPlan> = Vec::new();
    assert(done.deep_view() =~= Seq::<SubmitPlanView>::empty());
    assert(used.deep_view() =~= plan_heads(done.deep_view()));
    walk_plans(sh, config, github, store, stack, first, used, done)
}

// ---------------------------------------------------------------------------
// The plan of a dry run
// ---------------------------------------------------------------------------

/// What a dry run says of one change.
pub open spec fn mutation_lines(remote: Seq<char>, plan: SubmitPlanView) -> Seq<Seq<char>> {
    let head = plan.head_branch;
    let commit = plan.change.commit_id;
    let id = plan.change.change_id;
    let moves = if plan.push_needed {
        seq![
            "- set bookmark "@ + head + " to "@ + commit + " and push to "@ + remote,
            "- push bookmark "@ + head + " to "@ + remote + "/"@ + head,
            "- verify remote lease for "@ + head + ": expected "@ + or_absent(
                plan.expected_remote_head,
            ),
        ]
    } else {
        seq![
            "- leave bookmark "@ + head + " at "@ + commit,
            "- leave remote branch "@ + remote + "/"@ + head + " unchanged at "@ + commit,
        ]
    };
    moves + match plan.existing_pr {
        None => seq![
            "- create PR for "@ + id + ": head="@ + head + " base="@ + plan.base_branch,
            "- upsert stack comment after creating PR for "@ + id,
        ],
        Some(existing) => seq![
            if plan.pr_update_needed {
                "- update "@ + pr::hash(existing.pr_number) + " for "@ + id + ": head="@ + head
                    + " base="@ + plan.base_branch
            } else {
                "- leave "@ + pr::hash(existing.pr_number) + " unchanged for "@ + id
            },
            "- upsert stack comment on "@ + pr::hash(existing.pr_number) + " for "@ + id,
        ],
    }
}

fn render_mutations(remote: &str, plan: &SubmitPlan) -> (r: Vec<String>)
    ensures
        r.deep_view() == mutation_lines(remote@, plan@),
{
    let head = &plan.head_branch;
    let commit = &plan.change.commit_id;
    let id = &plan.change.change_id;
    let mut out: Vec<String> = Vec::new();
    if plan.push_needed {
        let mut line = cat5("- set bookmark ", head, " to ", commit, " and push to ");
        line.append(remote);
        out.push(line);
        let mut line = cat5("- push bookmark ", head, " to ", remote, "/");
        line.append(head);
        out.push(line);
        let mut line = cat3("- verify remote lease for ", head, ": expected ");
        match &plan.expected_remote_head {
            Some(expected) => line.append(expected),
            None => line.append("<absent>"),
        }
        out.push(line);
    } else {
        let mut line = cat3("- leave bookmark ", head, " at ");
        line.append(commit);
        out.push(line);
        let mut line = cat5("- leave remote branch ", remote, "/", head, " unchanged at ");
        line.append(commit);
        out.push(line);
    }
    match &plan.existing_pr {
        None => {
            let mut line = cat5("- create PR for ", id, ": head=", head, " base=");
            line.append(&plan.base_branch);
            out.push(line);
            out.push(cat("- upsert stack comment after creating PR for ", id));
        },
        Some(existing) => {
            let name = hash_text(existing.pr_number);
            if plan.pr_update_needed {
                let mut line = cat5("- update ", &name, " for ", id, ": head=");
                line.append(head);
                line.append(" base=");
                line.append(&plan.base_branch);
                out.push(line);
            } else {
                let mut line = cat3("- leave ", &name, " unchanged for ");
                line.append(id);
                out.push(line);
            }
            let mut line = cat3("- upsert stack comment on ", &name, " for ");
            line.append(id);
            out.push(line);
        },
    }
    assert(out.deep_view() =~= mutation_lines(remote@, plan@));
    out
}

pub open spec fn all_mutation_lines(remote: Seq<char>, plans: Seq<SubmitPlanView>) -> Seq<Seq<char>>
    decreases plans.len(),
{
    if plans.len() == 0 {
        seq![]
    } else {
        all_mutation_lines(remote, plans.drop_last()) + mutation_lines(remote, plans.last())
    }
}

pub open spec fn is_quiet(plan: SubmitPlanView) -> bool {
    !plan.push_needed && !plan.pr_update_needed && plan.existing_pr is Some
}

pub open spec fn all_quiet(plans: Seq<SubmitPlanView>) -> bool {
    forall|i: int| 0 <= i < plans.len() ==> is_quiet(#[trigger] plans[i])
}

/// What a dry run says of a submit.
pub open spec fn submit_mutation_lines(remote: Seq<char>, plans: Seq<SubmitPlanView>) -> Seq<
    Seq<char>,
> {
    let body = seq!["planned mutations:"@] + all_mutation_lines(remote, plans);
    if all_quiet(plans) {
        body.push("- no branch or PR metadata changes"@)
    } else {
        body
    }
}

pub fn render_submit_plan(config: &AppConfig, plans: &Vec<SubmitPlan>) -> (r: Vec<String>)
    ensures
        r.deep_view() == submit_mutation_lines(config@.remote, plans.deep_view()),
{
    let ghost view = plans.deep_view();
    let ghost remote = config@.remote;
    let mut out: Vec<String> = Vec::new();
    out.push("planned mutations:".to_owned());
    let mut quiet = true;
    let mut i: usize = 0;
    assert(out.deep_view() =~= seq!["planned mutations:"@] + all_mutation_lines(
        remote,
        view.take(0),
    ));
    while i < plans.len()
        invariant
            i <= plans@.len(),
            view == plans.deep_view(),
            remote == config@.remote,
            out.deep_view() == seq!["planned mutations:"@] + all_mutation_lines(
                remote,
                view.take(i as int),
            ),
            quiet == all_quiet(view.take(i as int)),
        decreases plans@.len() - i,
    {
        let ghost before = out.deep_view();
        let plan = &plans[i];
        assert(view.take(i + 1).drop_last() =~= view.take(i as int));
        assert(view.take(i + 1).last() == plan@);
        let mut rows = render_mutations(&config.remote, plan);
        let ghost more = rows.deep_view();
        out.append(&mut rows);
        assert(out.deep_view() =~= before + more);
        assert(out.deep_view() =~= seq!["planned mutations:"@] + all_mutation_lines(
            remote,
            view.take(i + 1),
        ));
        let still = !plan.push_needed && !plan.pr_update_needed && plan.existing_pr.is_some();
        proof {
            assert(plan@.existing_pr is Some == plan.existing_pr is Some);
            if quiet && still {
                assert forall|k: int| 0 <= k < i + 1 implies is_quiet(
                    #[trigger] view.take(i + 1)[k],
                ) by {
                    if k < i {
                        assert(view.take(i as int)[k] == view.take(i + 1)[k]);
                    }
                }
            } else if !still {
                assert(!is_quiet(view.take(i + 1)[i as int]));
            } else {
                let k = choose|k: int|
                    0 <= k < view.take(i as int).len() && !is_quiet(
                        #[trigger] view.take(i as int)[k],
                    );
                assert(view.take(i + 1)[k] == view.take(i as int)[k]);
            }
        }
        quiet = quiet && still;
        i = i + 1;
    }
    assert(view.take(i as int) =~= view);
    let ghost body = out.deep_view();
    if quiet {
        out.push("- no branch or PR metadata changes".to_owned());
        assert(out.deep_view() =~= body.push("- no branch or PR metadata changes"@));
    }
    out
}

impl Diagnostics {
    pub fn print_submit_plan<H: Host>(self, sh: &mut Shell<H>, config: &AppConfig, plans: &Vec<
        SubmitPlan,
    >)
        ensures
            record::extends(old(sh).log(), final(sh).log()),
            final(sh).log() == old(sh).log() + ui::plan_rows_said(
                self,
                submit_mutation_lines(config@.remote, plans.deep_view()),
            ),
    {
        let rows = render_submit_plan(config, plans);
        self.plan_lines(sh, &rows);
    }

    pub fn submit_pr_action<H: Host>(
        self,
        sh: &mut Shell<H>,
        repo: &str,
        change: &ResolvedChange,
        action: SubmitPrAction,
        entry: &PrCacheEntry,
    )
        ensures
            record::extends(old(sh).log(), final(sh).log()),
            final(sh).log() == old(sh).log() + action_said(self, repo@, change@, action, entry@),
    {
        if !self.dry_run {
            let mut message = cat3(
                &hash_text(entry.pr_number),
                " ",
                &github_pr_url(repo, entry.pr_number),
            );
            message.append(" - ");
            message.append(&change.title);
            sh.progress(&action.progress_verb(), &message);
        }
        assert(sh.log() =~= old(sh).log() + action_said(self, repo@, change@, action, entry@));
    }
}

/// The lines of output on what was done to a pull request.
pub open spec fn action_said(
    diagnostics: Diagnostics,
    repo: Seq<char>,
    change: ResolvedChangeView,
    action: SubmitPrAction,
    entry: PrCacheEntryView,
) -> Seq<Event> {
    if diagnostics.dry_run {
        seq![]
    } else {
        seq![
            Event::Said(
                LineView::Progress {
                    verb: action_verb(action),
                    message: pr::hash(entry.pr_number) + " "@ + pr::pr_url(repo, entry.pr_number) + " - "@
                        + change.title,
                },
            ),
        ]
    }
}

// ---------------------------------------------------------------------------
// Pushing
// ---------------------------------------------------------------------------

pub open spec fn set_head_args(plan: SubmitPlanView) -> Seq<Seq<char>> {
    seq![
        "bookmark"@,
        "set"@,
        "--allow-backwards"@,
        plan.head_branch,
        "-r"@,
        plan.change.commit_id,
    ]
}

pub open spec fn push_head_args(remote: Seq<char>, plan: SubmitPlanView) -> Seq<Seq<char>> {
    seq!["git"@, "push"@, "--remote"@, remote, "--bookmark"@, plan.head_branch]
}

pub open spec fn push_failure(branch: Seq<char>, args: Seq<Seq<char>>, stderr: Seq<char>) -> Seq<
    CauseView,
> {
    error::plain(
        "phase=push-refs object=bookmark:"@ + branch + " failed-command=`"@ + output::shown("jj"@, args)
            + "` error="@ + text::trim(stderr) + " safe-next-command=`forklift submit --dry-run`"@,
    )
}

pub open spec fn push_result(branch: Seq<char>, args: Seq<Seq<char>>, reply: Reply) -> Result<
    (),
    Seq<CauseView>,
> {
    match reply {
        Err(e) => Err(e),
        Ok(output) => if output.success {
            Ok(())
        } else {
            Err(push_failure(branch, args, output.stderr))
        },
    }
}

fn run_push_step<H: Host>(sh: &mut Shell<H>, branch: &str, args: &Vec<String>) -> (r: Result<
    (),
    Error,
>)
    ensures
        record::called(old(sh).log(), final(sh).log(), "jj"@, args.deep_view()),
        error::res_of(r) == push_result(branch@, args.deep_view(), record::last_reply(final(sh).log())),
{
    let reply = jj_run(sh, args);
    match reply {
        Err(error) => Err(error),
        Ok(output) => if output.success {
            Ok(())
        } else {
            let mut message = cat5(
                "phase=push-refs object=bookmark:",
                branch,
                " failed-command=`",
                &display_command("jj", args),
                "` error=",
            );
            message.append(&trimmed(&output.stderr));
            message.append(" safe-next-command=`forklift submit --dry-run`");
            Err(fail(&message))
        },
    }
}

pub fn set_submit_bookmark<H: Host>(sh: &mut Shell<H>, plan: &SubmitPlan) -> (r: Result<(), Error>)
    ensures
        record::called(old(sh).log(), final(sh).log(), "jj"@, set_head_args(plan@)),
        error::res_of(r) == push_result(
            plan@.head_branch,
            set_head_args(plan@),
            record::last_reply(final(sh).log()),
        ),
{
    let args = words(
        &[
            "bookmark",
            "set",
            "--allow-backwards",
            &plan.head_branch,
            "-r",
            &plan.change.commit_id,
        ],
    );
    assert(args.deep_view() =~= set_head_args(plan@));
    run_push_step(sh, &plan.head_branch, &args)
}

pub fn push_submit_bookmark<H: Host>(sh: &mut Shell<H>, config: &AppConfig, plan: &SubmitPlan) -> (r:
    Result<(), Error>)
    ensures
        record::called(
            old(sh).log(),
            final(sh).log(),
            "jj"@,
            push_head_args(config@.remote, plan@),
        ),
        error::res_of(r) == push_result(
            plan@.head_branch,
            push_head_args(config@.remote, plan@),
            record::last_reply(final(sh).log()),
        ),
{
    let args = words(
        &["git", "push", "--remote", &config.remote, "--bookmark", &plan.head_branch],
    );
    assert(args.deep_view() =~= push_head_args(config@.remote, plan@));
    run_push_step(sh, &plan.head_branch, &args)
}

/// The plans whose branch moves.
pub open spec fn pushed(plans: Seq<SubmitPlanView>) -> Seq<SubmitPlanView>
    decreases plans.len(),
{
    if plans.len() == 0 {
        seq![]
    } else {
        let rest = pushed(plans.drop_last());
        if plans.last().push_needed {
            rest.push(plans.last())
        } else {
            rest
        }
    }
}

fn keep_pushed(plans: &Vec<SubmitPlan>) -> (r: Vec<SubmitPlan>)
    ensures
        r.deep_view() == pushed(plans.deep_view()),
        r@.len() <= plans@.len(),
{
    let ghost view = plans.deep_view();
    let mut out: Vec<SubmitPlan> = Vec::new();
    let mut i: usize = 0;
    assert(out.deep_view() =~= pushed(view.take(0)));
    while i < plans.len()
        invariant
            i <= plans@.len(),
            view == plans.deep_view(),
            out.deep_view() == pushed(view.take(i as int)),
            out@.len() <= i,
        decreases plans@.len() - i,
    {
        let ghost before = out.deep_view();
        assert(view.take(i + 1).drop_last() =~= view.take(i as int));
        assert(view.take(i + 1).last() == plans@[i as int]@);
        if plans[i].push_needed {
            out.push(plans[i].copy());
            assert(out.deep_view() =~= before.push(plans@[i as int]@));
        }
        i = i + 1;
    }
    assert(view.take(i as int) =~= view);
    out
}

/// The record from `before` to `after` holds how each branch is set and pushed in turn, up to the
/// first failure.
pub open spec fn heads_walked(
    before: Seq<Event>,
    after: Seq<Event>,
    remote: Seq<char>,
    plans: Seq<SubmitPlanView>,
    at: int,
    steps: bool,
    r: Result<(), Seq<CauseView>>,
) -> bool
    decreases plans.len() - at,
{
    if at < 0 || at >= plans.len() {
        after == before && r == Ok::<(), Seq<CauseView>>(())
    } else {
        let n = before.len() as int;
        let plan = plans[at];
        &&& record::extends(before, after)
        &&& after.len() > n
        &&& record::is_call(after[n], "jj"@, set_head_args(plan))
        &&& match push_result(plan.head_branch, set_head_args(plan), record::reply_of(after[n])) {
            Err(e) => record::stopped(after.take(n + 1), after, e, r),
            Ok(_) => {
                &&& after.len() > n + 1
                &&& record::is_call(after[n + 1], "jj"@, push_head_args(remote, plan))
                &&& match push_result(
                    plan.head_branch,
                    push_head_args(remote, plan),
                    record::reply_of(after[n + 1]),
                ) {
                    Err(e) => record::stopped(after.take(n + 2), after, e, r),
                    Ok(_) => heads_walked(
                        after.take(n + 2) + ui::step_said(steps, (at + 1) as usize),
                        after,
                        remote,
                        plans,
                        at + 1,
                        steps,
                        r,
                    ),
                }
            },
        }
    }
}

fn walk_heads<H: Host>(
    sh: &mut Shell<H>,
    config: &AppConfig,
    plans: &Vec<SubmitPlan>,
    at: usize,
    steps: bool,
) -> (r: Result<(), Error>)
    requires
        at <= plans@.len(),
    ensures
        record::extends(old(sh).log(), final(sh).log()),
        heads_walked(
            old(sh).log(),
            final(sh).log(),
            config@.remote,
            plans.deep_view(),
            at as int,
            steps,
            error::res_of(r),
        ),
    decreases plans@.len() - at,
{
    if at == plans.len() {
        return Ok(());
    }
    let ghost n = sh.log().len() as int;
    let plan = &plans[at];
    assert(plans.deep_view()[at as int] == plan@);
    let set = set_submit_bookmark(sh, plan);
    let ghost one = sh.log();
    assert(one.take(n + 1) =~= one);
    match set {
        Err(error) => return Err(error),
        Ok(_) => {},
    }
    let put = push_submit_bookmark(sh, config, plan);
    let ghost two = sh.log();
    assert(two.take(n + 2) =~= two);
    assert(two[n] == two.drop_last()[n]);
    match put {
        Err(error) => return Err(error),
        Ok(_) => {},
    }
    say_step(sh, steps, at + 1);
    let r = walk_heads(sh, config, plans, at + 1, steps);
    assert(record::extends(two, sh.log()));
    assert(sh.log().take(n + 2) =~= two);
    assert(sh.log()[n] == sh.log().take(n + 2)[n]);
    assert(sh.log()[n + 1] == sh.log().take(n + 2)[n + 1]);
    r
}

pub open spec fn all_heads_walked(
    before: Seq<Event>,
    after: Seq<Event>,
    remote: Seq<char>,
    plans: Seq<SubmitPlanView>,
    diagnostics: Diagnostics,
    r: Result<(), Seq<CauseView>>,
) -> bool {
    heads_walked(
        before + ui::steps_said(diagnostics, "Pushing"@, "bookmarks"@, plans.len() as usize),
        after,
        remote,
        plans,
        0,
        diagnostics.shows_steps(plans.len()),
        r,
    )
}

/// The record from `before` to `after` holds the push of every branch that moves.
pub open spec fn heads_pushed(
    before: Seq<Event>,
    after: Seq<Event>,
    remote: Seq<char>,
    plans: Seq<SubmitPlanView>,
    diagnostics: Diagnostics,
    r: Result<(), Seq<CauseView>>,
) -> bool {
    if pushed(plans).len() == 0 {
        after == before && r == Ok::<(), Seq<CauseView>>(())
    } else {
        some_heads_pushed(before, after, remote, pushed(plans), diagnostics, r)
    }
}

pub open spec fn some_heads_pushed(
    before: Seq<Event>,
    after: Seq<Event>,
    remote: Seq<char>,
    plans: Seq<SubmitPlanView>,
    diagnostics: Diagnostics,
    r: Result<(), Seq<CauseView>>,
) -> bool {
    exists|mid: Seq<Event>|
        {
            &&& #[trigger] all_heads_walked(before, mid, remote, plans, diagnostics, r)
            &&& after == if r is Ok {
                mid + ui::steps_ended(diagnostics.shows_steps(plans.len()))
            } else {
                mid
            }
        }
}

pub fn push_changed_heads<H: Host>(
    sh: &mut Shell<H>,
    config: &AppConfig,
    plans: &Vec<SubmitPlan>,
    diagnostics: Diagnostics,
) -> (r: Result<(), Error>)
    ensures
        record::extends(old(sh).log(), final(sh).log()),
        heads_pushed(
            old(sh).log(),
            final(sh).log(),
            config@.remote,
            plans.deep_view(),
            diagnostics,
            error::res_of(r),
        ),
{
    let changed = keep_pushed(plans);
    assert(changed@.len() == pushed(plans.deep_view()).len());
    if changed.len() == 0 {
        return Ok(());
    }
    let ghost start = sh.log();
    let steps = diagnostics.progress_bar(sh, "Pushing", "bookmarks", changed.len());
    let done = walk_heads(sh, config, &changed, 0, steps);
    assert(all_heads_walked(
        start,
        sh.log(),
        config@.remote,
        pushed(plans.deep_view()),
        diagnostics,
        error::res_of(done),
    ));
    match done {
        Err(error) => Err(error),
        Ok(_) => {
            ui_finish_progress_bar(sh, steps);
            Ok(())
        },
    }
}

/// Whether the plans, bottom first, give each change of the stack a head of its own, on the head of the
/// change below.
pub open spec fn plans_stand(
    stack: Seq<ResolvedChangeView>,
    first: Seq<char>,
    plans: Seq<SubmitPlanView>,
) -> bool {
    &&& plans.len() <= stack.len()
    &&& forall|i: int|
        0 <= i < plans.len() ==> (#[trigger] plans[i]).change == stack[i]
    &&& plans.len() > 0 ==> plans[0].base_branch == first
    &&& forall|i: int, j: int|
        0 <= i && j == i + 1 && j < plans.len() ==> (#[trigger] plans[j]).base_branch == (
        #[trigger] plans[i]).head_branch
    &&& forall|i: int, j: int|
        0 <= i < j < plans.len() ==> (#[trigger] plans[i]).head_branch != (
        #[trigger] plans[j]).head_branch
}

proof fn lemma_plans_stand(
    before: Seq<Event>,
    after: Seq<Event>,
    config: AppConfigView,
    github: GitHubContextView,
    all: Map<(Seq<char>, Seq<char>), PrCacheEntryView>,
    stack: Seq<ResolvedChangeView>,
    first: Seq<char>,
    done: Seq<SubmitPlanView>,
    r: Result<Seq<SubmitPlanView>, Seq<CauseView>>,
)
    requires
        plans_walked(before, after, config, github, all, stack, first, done, r),
        plans_stand(stack, first, done),
        r is Ok,
    ensures
        (r->Ok_0).len() == stack.len(),
        plans_stand(stack, first, r->Ok_0),
    decreases stack.len() - done.len(),
{
    if done.len() < stack.len() {
        let change = stack[done.len() as int];
        let (mid, head) = choose|mid: Seq<Event>, head: Result<SubmitHeadView, Seq<CauseView>>|
            {
                &&& #[trigger] heads::head_resolved(
                    before,
                    mid,
                    config,
                    github,
                    change,
                    all,
                    plan_heads(done),
                    head,
                )
                &&& match head {
                    Err(e) => record::stopped(
                        mid,
                        after,
                        error::phase_failure("plan-submit"@, "change:"@ + change.change_id, e),
                        r,
                    ),
                    Ok(head) => match plan_result(change, next_base(first, done), head) {
                        Err(e) => record::stopped(mid, after, e, r),
                        Ok(plan) => plans_walked(
                            mid,
                            after,
                            config,
                            github,
                            all,
                            stack,
                            first,
                            done.push(plan),
                            r,
                        ),
                    },
                }
            };
        heads::law_head_is_unused(before, mid, config, github, change, all, plan_heads(done), head);
        let plan = plan_of(change, next_base(first, done), head->Ok_0);
        let next = done.push(plan);
        assert forall|i: int, j: int| 0 <= i < j < next.len() implies (
        #[trigger] next[i]).head_branch != (#[trigger] next[j]).head_branch by {
            assert(plan_heads(done)[i] == done[i].head_branch);
            assert(plan_heads(done).contains(done[i].head_branch));
        }
        lemma_plans_stand(mid, after, config, github, all, stack, first, next, r);
    }
}

/// A stack that was planned has one plan for each change, in the order of the stack. Each stands on the
/// head of the one below, the lowest on what the stack stands on, and no two share a head.
pub proof fn law_plans_stand_on_each_other(
    before: Seq<Event>,
    after: Seq<Event>,
    config: AppConfigView,
    github: GitHubContextView,
    all: Map<(Seq<char>, Seq<char>), PrCacheEntryView>,
    stack: Seq<ResolvedChangeView>,
    first: Seq<char>,
    plans: Seq<SubmitPlanView>,
)
    requires
        stack_planned(before, after, config, github, all, stack, first, Ok(plans)),
    ensures
        plans.len() == stack.len(),
        plans_stand(stack, first, plans),
{
    lemma_plans_stand(
        before,
        after,
        config,
        github,
        all,
        stack,
        first,
        seq![],
        Ok(plans),
    );
}

/// A planned push never overwrites work that is not known: the branch of a request is at the commit of
/// the change, or at the commit that was last recorded for it.
pub proof fn law_plan_overwrites_nothing_unknown(
    change: ResolvedChangeView,
    base_branch: Seq<char>,
    head: SubmitHeadView,
)
    requires
        plan_result(change, base_branch, head) is Ok,
        head.existing_pr is Some,
    ensures
        head.expected_remote_head == Some(change.commit_id) || head.expected_remote_head == Some(
            head.existing_pr->0.head_sha,
        ),
{
}

} // verus!
