//! What a command needs to know before it starts: the stack, what it stands on, and the repository on
//! GitHub.

use vstd::prelude::*;

use crate::bookmarks;
use crate::bookmarks::frozen_bookmarks;
use crate::error;
use crate::error::{CauseView, CliError, CliErrorView, Error, report};
use crate::frozen;
use crate::frozen::{
    frozen_dependency_chain_ending_at, resolve_frozen_changes, resolve_stack_resolution,
};
use crate::model::{
    AppContext, AppContextView, FrozenBookmark, FrozenBookmarkView, FrozenDependency,
    FrozenDependencyView, GitHubContext, GitHubContextView, ResolvedChange, ResolvedChangeView,
    StackResolution, StackResolutionView,
};
use crate::output;
use crate::record;
use crate::record::{Event, LineView};
use crate::repo::gh_run_required;
use crate::shell::{Host, Line};
use crate::shell::wire::Shell;
use crate::stack;
use crate::stack::{
    resolve_single_rev, resolve_stack, short_change_id, short_commit_id, validate_stack_shape,
};
use crate::text;
use crate::text::{cat3, cat5, number_text, words};

verus! {

broadcast use crate::record::group_record;

pub open spec fn repo_view_args() -> Seq<Seq<char>> {
    seq!["repo"@, "view"@, "--json"@, "nameWithOwner"@, "--jq"@, ".nameWithOwner"@]
}

pub open spec fn user_args() -> Seq<Seq<char>> {
    seq!["api"@, "user"@, "--jq"@, ".login"@]
}

/// The record from `before` to `after` holds the questions for the repository and the account.
pub open spec fn github_resolved(
    before: Seq<Event>,
    after: Seq<Event>,
    r: Result<GitHubContextView, Seq<CauseView>>,
) -> bool {
    let n = before.len() as int;
    &&& record::extends(before, after)
    &&& after.len() > n
    &&& record::is_call(after[n], "gh"@, repo_view_args())
    &&& match output::required_output("gh"@, repo_view_args(), record::reply_of(after[n])) {
        Err(e) => after.len() == n + 1 && r == Err::<GitHubContextView, _>(
            error::in_context("resolve GitHub repository with gh"@, e),
        ),
        Ok(repo) => {
            &&& after.len() == n + 2
            &&& record::is_call(after[n + 1], "gh"@, user_args())
            &&& r == match output::required_output("gh"@, user_args(), record::reply_of(after[n + 1])) {
                Err(e) => Err(error::in_context("resolve GitHub username with gh"@, e)),
                Ok(username) => Ok(GitHubContextView { repo, username }),
            }
        },
    }
}

impl GitHubContext {
    pub fn resolve<H: Host>(sh: &mut Shell<H>) -> (r: Result<GitHubContext, Error>)
        ensures
            github_resolved(old(sh).log(), final(sh).log(), error::res(r)),
    {
        let ghost start = sh.log();
        let ghost n = start.len() as int;
        let args = words(&["repo", "view", "--json", "nameWithOwner", "--jq", ".nameWithOwner"]);
        assert(args.deep_view() =~= repo_view_args());
        let first = gh_run_required(sh, &args);
        assert(sh.log().take(n) =~= start);
        let repo = match first {
            Ok(repo) => repo,
            Err(error) => return Err(error.context("resolve GitHub repository with gh")),
        };
        let ghost mid = sh.log();
        let args = words(&["api", "user", "--jq", ".login"]);
        assert(args.deep_view() =~= user_args());
        let second = gh_run_required(sh, &args);
        assert(sh.log().take(n) =~= start);
        assert(sh.log()[n] == mid[n]) by {
            assert(sh.log().drop_last()[n] == mid[n]);
        }
        match second {
            Ok(username) => Ok(GitHubContext { repo, username }),
            Err(error) => Err(error.context("resolve GitHub username with gh")),
        }
    }
}

impl AppContext {
    pub fn new(github: GitHubContext, stack_resolution: StackResolution) -> (r: Self)
        ensures
            r@ == (AppContextView {
                github: github@,
                stack: stack_resolution@.owned,
                frozen_dependencies: stack_resolution@.frozen_dependencies,
            }),
    {
        AppContext {
            github,
            stack: stack_resolution.owned,
            frozen_dependencies: stack_resolution.frozen_dependencies,
        }
    }
}

/// The record from `before` to `after` holds how the owned stack that a revset selects is resolved:
/// trunk must exist, the stack must have an accepted shape, and its base must be sound.
pub open spec fn owned_resolved(
    before: Seq<Event>,
    after: Seq<Event>,
    revset: Seq<char>,
    r: Result<StackResolutionView, Seq<CauseView>>,
) -> bool {
    let n = before.len() as int;
    &&& record::extends(before, after)
    &&& after.len() > n
    &&& record::is_call(after[n], "jj"@, stack::single_rev_args("trunk()"@))
    &&& match stack::single_commit("trunk()"@, record::reply_of(after[n])) {
        Err(e) => after.len() == n + 1 && r == Err::<StackResolutionView, _>(e),
        Ok(trunk) => {
            &&& after.len() > n + 1
            &&& record::is_call(after[n + 1], "jj"@, bookmarks::frozen_list_args())
            &&& match bookmarks::frozen_list_result(record::reply_of(after[n + 1])) {
                Err(e) => after.len() == n + 2 && r == Err::<StackResolutionView, _>(e),
                Ok(bookmarks) => exists|
                    mid: Seq<Event>,
                    stack: Result<Seq<ResolvedChangeView>, Seq<CauseView>>,
                |
                    {
                        &&& #[trigger] stack::stack_resolved(after.take(n + 2), mid, revset, stack)
                        &&& match stack {
                            Err(e) => after == mid && r == Err::<StackResolutionView, _>(e),
                            Ok(stack) => match stack::shape_failure(stack, revset) {
                                Some(error) => after == mid && r == Err::<StackResolutionView, _>(
                                    error::reported(error),
                                ),
                                None => frozen::resolution_made(mid, after, stack, bookmarks, r),
                            },
                        }
                    },
            }
        },
    }
}

fn resolve_owned<H: Host>(sh: &mut Shell<H>, revset: &str) -> (r: Result<StackResolution, Error>)
    ensures
        record::extends(old(sh).log(), final(sh).log()),
        owned_resolved(old(sh).log(), final(sh).log(), revset@, error::res(r)),
        r matches Ok(resolution) ==> stack::shape_failure(resolution@.owned, revset@) is None
            && frozen::dep_commits(resolution@.frozen_dependencies).no_duplicates(),
{
    let ghost start = sh.log();
    let ghost n = start.len() as int;
    let first = resolve_single_rev(sh, "trunk()");
    let ghost a = sh.log();
    assert(a.take(n) =~= start);
    match first {
        Ok(_) => {},
        Err(error) => return Err(error),
    }
    let second = frozen_bookmarks(sh);
    let ghost b = sh.log();
    assert(b.take(n) =~= start);
    assert(b[n] == a[n]) by {
        assert(b.drop_last()[n] == a[n]);
    }
    let bookmarks = match second {
        Ok(bookmarks) => bookmarks,
        Err(error) => return Err(error),
    };
    let third = resolve_stack(sh, revset);
    let ghost c = sh.log();
    let ghost seen = error::res(third);
    proof {
        assert(c.take(n + 2) =~= b);
        assert(c[n] == c.take(n + 2)[n]);
        assert(c[n + 1] == c.take(n + 2)[n + 1]);
        assert(stack::stack_resolved(c.take(n + 2), c, revset@, seen));
    }
    let stack = match third {
        Ok(stack) => stack,
        Err(error) => return Err(error),
    };
    match validate_stack_shape(&stack, revset) {
        Ok(_) => {},
        Err(error) => return Err(error),
    }
    let r = resolve_stack_resolution(sh, stack, &bookmarks);
    proof {
        let d = sh.log();
        assert(d.take(n + 2) =~= b);
        assert(d[n] == d.take(n + 2)[n]);
        assert(d[n + 1] == d.take(n + 2)[n + 1]);
        assert(stack::stack_resolved(d.take(n + 2), c, revset@, seen));
    }
    r
}

/// The record from `before` to `after` holds how a whole context is resolved.
pub open spec fn context_resolved(
    before: Seq<Event>,
    after: Seq<Event>,
    revset: Seq<char>,
    r: Result<AppContextView, Seq<CauseView>>,
) -> bool {
    exists|mid: Seq<Event>, owned: Result<StackResolutionView, Seq<CauseView>>|
        {
            &&& #[trigger] owned_resolved(before, mid, revset, owned)
            &&& match owned {
                Err(e) => after == mid && r == Err::<AppContextView, _>(e),
                Ok(resolution) => exists|github: Result<GitHubContextView, Seq<CauseView>>|
                    {
                        &&& #[trigger] github_resolved(mid, after, github)
                        &&& r == match github {
                            Err(e) => Err(e),
                            Ok(github) => Ok(
                                AppContextView {
                                    github,
                                    stack: resolution.owned,
                                    frozen_dependencies: resolution.frozen_dependencies,
                                },
                            ),
                        }
                    },
            }
        }
}

pub fn resolve_stack_context<H: Host>(sh: &mut Shell<H>, revset: &str) -> (r: Result<
    AppContext,
    Error,
>)
    ensures
        context_resolved(old(sh).log(), final(sh).log(), revset@, error::res(r)),
        record::extends(old(sh).log(), final(sh).log()),
        r matches Ok(context) ==> stack::shape_failure(context@.stack, revset@) is None && frozen::dep_commits(
            context@.frozen_dependencies,
        ).no_duplicates(),
{
    let ghost start = sh.log();
    let owned = resolve_owned(sh, revset);
    let ghost mid = sh.log();
    let ghost seen = error::res(owned);
    assert(owned_resolved(start, mid, revset@, seen));
    let resolution = match owned {
        Ok(resolution) => resolution,
        Err(error) => return Err(error),
    };
    let found = GitHubContext::resolve(sh);
    let ghost g = error::res(found);
    assert(github_resolved(mid, sh.log(), g));
    match found {
        Ok(github) => Ok(AppContext::new(github, resolution)),
        Err(error) => Err(error),
    }
}

// ---------------------------------------------------------------------------
// Stacks that hold nothing but frozen changes
// ---------------------------------------------------------------------------

pub open spec fn nothing_frozen() -> CliErrorView {
    error::cli("empty owned stack and no frozen bookmarks in scope"@).fixed_by(
        "run `forklift get <pr>` first, or move to a mutable stack"@,
    )
}

pub open spec fn not_frozen(commit: Seq<char>) -> CliErrorView {
    error::cli(
        "empty owned stack and current revision "@ + stack::short_id(commit)
            + " is not a `forklift/frozen/pr-*` bookmark target or empty child of one"@,
    ).fixed_by("run `forklift get <pr>` first, or move to a mutable stack"@)
}

pub open spec fn only_frozen(chain: Seq<FrozenDependencyView>) -> StackResolutionView {
    StackResolutionView { owned: seq![], frozen_dependencies: chain }
}

/// The record from `before` to `after` holds the second try for a stack of frozen changes: the
/// current revision is an empty child of a frozen one.
pub open spec fn frozen_child_resolved(
    before: Seq<Event>,
    after: Seq<Event>,
    frozen: Seq<FrozenDependencyView>,
    at_commit: Seq<char>,
    r: Result<StackResolutionView, Seq<CauseView>>,
) -> bool {
    exists|mid: Seq<Event>, current: Result<Seq<ResolvedChangeView>, Seq<CauseView>>|
        {
            &&& #[trigger] stack::stack_resolved(before, mid, "@"@, current)
            &&& match current {
                Err(e) => after == mid && r == Err::<StackResolutionView, _>(
                    error::in_context("resolve current revision for frozen sync"@, e),
                ),
                Ok(current) => if current.len() == 1 && current[0].empty
                    && current[0].parent_ids.len() == 1 {
                    exists|found: Result<Option<Seq<FrozenDependencyView>>, Seq<CauseView>>|
                        {
                            &&& #[trigger] frozen::chain_searched(
                                mid,
                                after,
                                frozen,
                                current[0].parent_ids[0],
                                found,
                            )
                            &&& r == match found {
                                Err(e) => Err(e),
                                Ok(Some(chain)) => Ok(only_frozen(chain)),
                                Ok(None) => Err(error::reported(not_frozen(at_commit))),
                            }
                        }
                } else {
                    after == mid && r == Err::<StackResolutionView, _>(
                        error::reported(not_frozen(at_commit)),
                    )
                },
            }
        }
}

/// The record from `before` to `after` holds the search for a stack of frozen changes among those
/// behind the bookmarks, once they are known.
pub open spec fn frozen_top_resolved(
    before: Seq<Event>,
    after: Seq<Event>,
    frozen: Seq<FrozenDependencyView>,
    at_commit: Seq<char>,
    r: Result<StackResolutionView, Seq<CauseView>>,
) -> bool {
    exists|mid: Seq<Event>, found: Result<Option<Seq<FrozenDependencyView>>, Seq<CauseView>>|
        {
            &&& #[trigger] frozen::chain_searched(before, mid, frozen, at_commit, found)
            &&& match found {
                Err(e) => after == mid && r == Err::<StackResolutionView, _>(e),
                Ok(Some(chain)) => after == mid && r == Ok::<_, Seq<CauseView>>(
                    only_frozen(chain),
                ),
                Ok(None) => frozen_child_resolved(mid, after, frozen, at_commit, r),
            }
        }
}

/// The record from `before` to `after` holds how a stack of nothing but frozen changes is resolved:
/// the current revision, or the parent of an empty current revision, is the top of a frozen chain.
pub open spec fn purely_frozen_resolved(
    before: Seq<Event>,
    after: Seq<Event>,
    bookmarks: Seq<FrozenBookmarkView>,
    r: Result<StackResolutionView, Seq<CauseView>>,
) -> bool {
    if bookmarks.len() == 0 {
        after == before && r == Err::<StackResolutionView, _>(error::reported(nothing_frozen()))
    } else {
        let n = before.len() as int;
        &&& record::extends(before, after)
        &&& after.len() > n
        &&& record::is_call(after[n], "jj"@, stack::single_rev_args("@"@))
        &&& match stack::single_commit("@"@, record::reply_of(after[n])) {
            Err(e) => after.len() == n + 1 && r == Err::<StackResolutionView, _>(
                error::in_context("resolve current revision for frozen sync"@, e),
            ),
            Ok(at_commit) => exists|
                mid: Seq<Event>,
                frozen: Result<Seq<FrozenDependencyView>, Seq<CauseView>>,
            |
                {
                    &&& #[trigger] frozen::all_frozen_resolved(after.take(n + 1), mid, bookmarks, frozen)
                    &&& match frozen {
                        Err(e) => after == mid && r == Err::<StackResolutionView, _>(e),
                        Ok(frozen) => frozen_top_resolved(mid, after, frozen, at_commit, r),
                    }
                },
        }
    }
}

fn frozen_only(frozen_dependencies: Vec<FrozenDependency>) -> (r: StackResolution)
    ensures
        r@ == only_frozen(frozen_dependencies.deep_view()),
{
    let owned: Vec<ResolvedChange> = Vec::new();
    assert(owned.deep_view() =~= seq![]);
    StackResolution { owned, frozen_dependencies }
}

fn resolve_frozen_child<H: Host>(
    sh: &mut Shell<H>,
    frozen: &Vec<FrozenDependency>,
    at_commit: &str,
) -> (r: Result<StackResolution, Error>)
    ensures
        record::extends(old(sh).log(), final(sh).log()),
        frozen_child_resolved(
            old(sh).log(),
            final(sh).log(),
            frozen.deep_view(),
            at_commit@,
            error::res(r),
        ),
{
    let ghost start = sh.log();
    let found = resolve_stack(sh, "@");
    let ghost mid = sh.log();
    let ghost seen = error::res(found);
    assert(stack::stack_resolved(start, mid, "@"@, seen));
    let current = match found {
        Ok(current) => current,
        Err(error) => return Err(error.context("resolve current revision for frozen sync")),
    };
    let ghost all = current.deep_view();
    if current.len() == 1 {
        assert(all[0] == current@[0]@);
        if current[0].empty && current[0].parent_ids.len() == 1 {
            assert(all[0].parent_ids[0] == current@[0].parent_ids@[0]@);
            let found = frozen_dependency_chain_ending_at(sh, frozen, &current[0].parent_ids[0]);
            let ghost chain = error::res(found);
            assert(frozen::chain_searched(
                mid,
                sh.log(),
                frozen.deep_view(),
                all[0].parent_ids[0],
                chain,
            ));
            match found {
                Err(error) => return Err(error),
                Ok(Some(chain)) => return Ok(frozen_only(chain)),
                Ok(None) => {},
            }
        }
    }
    Err(
        report(
            CliError::new(
                &cat3(
                    "empty owned stack and current revision ",
                    &short_commit_id(at_commit),
                    " is not a `forklift/frozen/pr-*` bookmark target or empty child of one",
                ),
            ).resolution("run `forklift get <pr>` first, or move to a mutable stack"),
        ),
    )
}

fn resolve_frozen_top<H: Host>(
    sh: &mut Shell<H>,
    frozen: &Vec<FrozenDependency>,
    at_commit: &str,
) -> (r: Result<StackResolution, Error>)
    ensures
        record::extends(old(sh).log(), final(sh).log()),
        frozen_top_resolved(
            old(sh).log(),
            final(sh).log(),
            frozen.deep_view(),
            at_commit@,
            error::res(r),
        ),
{
    let ghost start = sh.log();
    let found = frozen_dependency_chain_ending_at(sh, frozen, at_commit);
    let ghost chain = error::res(found);
    assert(frozen::chain_searched(start, sh.log(), frozen.deep_view(), at_commit@, chain));
    match found {
        Err(error) => Err(error),
        Ok(Some(chain)) => Ok(frozen_only(chain)),
        Ok(None) => resolve_frozen_child(sh, frozen, at_commit),
    }
}

pub fn resolve_purely_frozen_stack<H: Host>(
    sh: &mut Shell<H>,
    frozen_bookmarks: &Vec<FrozenBookmark>,
) -> (r: Result<StackResolution, Error>)
    ensures
        record::extends(old(sh).log(), final(sh).log()),
        purely_frozen_resolved(
            old(sh).log(),
            final(sh).log(),
            frozen_bookmarks.deep_view(),
            error::res(r),
        ),
{
    if frozen_bookmarks.len() == 0 {
        return Err(
            report(
                CliError::new("empty owned stack and no frozen bookmarks in scope").resolution(
                    "run `forklift get <pr>` first, or move to a mutable stack",
                ),
            ),
        );
    }
    let ghost start = sh.log();
    let ghost n = start.len() as int;
    let first = resolve_single_rev(sh, "@");
    let ghost a = sh.log();
    let at_commit = match first {
        Ok(at_commit) => at_commit,
        Err(error) => return Err(error.context("resolve current revision for frozen sync")),
    };
    let second = resolve_frozen_changes(sh, frozen_bookmarks);
    let ghost b = sh.log();
    let ghost seen = error::res(second);
    assert(b.take(n + 1) =~= a);
    assert(b[n] == b.take(n + 1)[n]);
    assert(frozen::all_frozen_resolved(b.take(n + 1), b, frozen_bookmarks.deep_view(), seen));
    let frozen = match second {
        Ok(frozen) => frozen,
        Err(error) => return Err(error),
    };
    let r = resolve_frozen_top(sh, &frozen, &at_commit);
    let ghost c = sh.log();
    assert(record::extends(a, c));
    assert(c.take(n + 1) =~= a);
    assert(c[n] == c.take(n + 1)[n]);
    assert(frozen::all_frozen_resolved(c.take(n + 1), b, frozen_bookmarks.deep_view(), seen));
    r
}

// ---------------------------------------------------------------------------
// Lines about the stack
// ---------------------------------------------------------------------------

pub open spec fn divergent_warning(change: ResolvedChangeView) -> Seq<char> {
    "change "@ + stack::short_id(change.change_id) + " is divergent; submitting the copy under @ ("@
        + stack::short_id(change.commit_id) + "), other copies left untouched"@
}

/// The warnings about divergent changes: the copy under `@` is submitted.
pub open spec fn divergent_warnings(stack: Seq<ResolvedChangeView>) -> Seq<Event>
    decreases stack.len(),
{
    if stack.len() == 0 {
        seq![]
    } else {
        let rest = divergent_warnings(stack.drop_last());
        if stack.last().divergent {
            rest.push(Event::Said(LineView::Warn(divergent_warning(stack.last()))))
        } else {
            rest
        }
    }
}

pub fn warn_divergent_changes<H: Host>(sh: &mut Shell<H>, stack: &Vec<ResolvedChange>)
    ensures
        final(sh).log() == old(sh).log() + divergent_warnings(stack.deep_view()),
{
    let ghost start = sh.log();
    let ghost all = stack.deep_view();
    let mut i: usize = 0;
    assert(start + divergent_warnings(all.take(0)) =~= start);
    while i < stack.len()
        invariant
            i <= stack@.len(),
            all == stack.deep_view(),
            sh.log() == start + divergent_warnings(all.take(i as int)),
        decreases stack@.len() - i,
    {
        let ghost next = all.take(i + 1);
        assert(next.drop_last() =~= all.take(i as int));
        assert(next.last() == stack@[i as int]@);
        if stack[i].divergent {
            sh.say(
                Line::Warn(
                    cat5(
                        "change ",
                        &short_change_id(&stack[i].change_id),
                        " is divergent; submitting the copy under @ (",
                        &short_commit_id(&stack[i].commit_id),
                        "), other copies left untouched",
                    ),
                ),
            );
        }
        i = i + 1;
        assert(sh.log() =~= start + divergent_warnings(all.take(i as int)));
    }
    assert(all.take(i as int) =~= all);
}

pub fn print_github_context(github: &GitHubContext) -> (r: String)
    ensures
        r@ == "resolved github: repo="@ + github@.repo + ", username="@ + github@.username,
{
    let mut line = "resolved github: repo=".to_owned();
    line.append(&github.repo);
    line.append(", username=");
    line.append(&github.username);
    line
}

pub open spec fn stack_table_row(change: ResolvedChangeView) -> Seq<char> {
    change.change_id + "\t"@ + change.commit_id + "\t"@ + change.title + (if change.conflict {
        " [conflict]"@
    } else {
        ""@
    })
}

/// The table of a resolved stack.
pub open spec fn stack_table(stack: Seq<ResolvedChangeView>) -> Seq<Seq<char>> {
    seq![
        "resolved stack table: "@ + text::decimal(stack.len()) + " changes"@,
        "change\tcommit\ttitle"@,
    ] + stack.map_values(|c: ResolvedChangeView| stack_table_row(c))
}

pub fn print_stack(stack: &Vec<ResolvedChange>) -> (r: Vec<String>)
    ensures
        r.deep_view() == stack_table(stack.deep_view()),
{
    let mut out: Vec<String> = Vec::new();
    out.push(cat3("resolved stack table: ", &number_text(stack.len() as u64), " changes"));
    out.push("change\tcommit\ttitle".to_owned());
    let mut i: usize = 0;
    while i < stack.len()
        invariant
            i <= stack@.len(),
            out@.len() == i + 2,
            out@[0]@ == "resolved stack table: "@ + text::decimal(stack@.len()) + " changes"@,
            out@[1]@ == "change\tcommit\ttitle"@,
            forall|k: int| 0 <= k < i ==> (#[trigger] out@[k + 2])@ == stack_table_row(stack@[k]@),
        decreases stack@.len() - i,
    {
        let mut row = cat5(
            &stack[i].change_id,
            "\t",
            &stack[i].commit_id,
            "\t",
            &stack[i].title,
        );
        row.append(
            if stack[i].conflict {
                " [conflict]"
            } else {
                ""
            },
        );
        out.push(row);
        i = i + 1;
    }
    assert(out.deep_view() =~= stack_table(stack.deep_view())) by {
        let want = stack_table(stack.deep_view());
        assert forall|k: int| 0 <= k < want.len() implies out.deep_view()[k] == want[k] by {
            if k >= 2 {
                assert(out@[(k - 2) + 2]@ == stack_table_row(stack@[k - 2]@));
            }
        }
    }
    out
}

/// Lines for the standard error.
pub open spec fn notes_said(rows: Seq<Seq<char>>) -> Seq<Event> {
    rows.map_values(|row: Seq<char>| Event::Said(LineView::Note(row)))
}

pub fn say_notes<H: Host>(sh: &mut Shell<H>, rows: &Vec<String>)
    ensures
        record::extends(old(sh).log(), final(sh).log()),
        final(sh).log() == old(sh).log() + notes_said(rows.deep_view()),
{
    let ghost start = sh.log();
    let ghost said = notes_said(rows.deep_view());
    let mut i: usize = 0;
    assert(sh.log() =~= start + said.take(0));
    while i < rows.len()
        invariant
            i <= rows@.len(),
            said == notes_said(rows.deep_view()),
            sh.log() == start + said.take(i as int),
        decreases rows@.len() - i,
    {
        assert(said[i as int] == Event::Said(LineView::Note(rows@[i as int]@)));
        sh.say(Line::Note(rows[i].clone()));
        assert(sh.log() =~= start + said.take(i + 1));
        i = i + 1;
    }
    assert(said.take(i as int) =~= said);
}

/// What is said, on request, of a resolved stack.
pub open spec fn stack_said(verbose: bool, stack: Seq<ResolvedChangeView>) -> Seq<Event> {
    if verbose {
        notes_said(stack_table(stack))
    } else {
        seq![]
    }
}

pub fn say_stack<H: Host>(sh: &mut Shell<H>, verbose: bool, stack: &Vec<ResolvedChange>)
    ensures
        record::extends(old(sh).log(), final(sh).log()),
        final(sh).log() == old(sh).log() + stack_said(verbose, stack.deep_view()),
{
    if verbose {
        say_notes(sh, &print_stack(stack));
    } else {
        assert(sh.log() =~= old(sh).log() + stack_said(verbose, stack.deep_view()));
    }
}

/// What is said, on request, of a whole context.
pub open spec fn context_said(verbose: bool, context: AppContextView) -> Seq<Event> {
    if verbose {
        seq![
            Event::Said(
                LineView::Note(
                    "resolved github: repo="@ + context.github.repo + ", username="@
                        + context.github.username,
                ),
            ),
        ] + stack_said(verbose, context.stack)
    } else {
        seq![]
    }
}

pub fn say_context<H: Host>(sh: &mut Shell<H>, verbose: bool, context: &AppContext)
    ensures
        record::extends(old(sh).log(), final(sh).log()),
        final(sh).log() == old(sh).log() + context_said(verbose, context@),
{
    if verbose {
        sh.say(Line::Note(print_github_context(&context.github)));
        say_stack(sh, verbose, &context.stack);
    }
    assert(sh.log() =~= old(sh).log() + context_said(verbose, context@));
}

} // verus!
