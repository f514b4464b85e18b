//! Where the repository lives, and running `git` and `gh` there.
//!
//! A secondary jj workspace has no `.git`: only the primary (colocated) one does. The directory
//! `.jj/repo` of the primary workspace leads there from any workspace.

use vstd::prelude::*;

use crate::error;
use crate::error::{CauseView, Error, fail};
use crate::model::CommandOutput;
use crate::output;
use crate::output::require_output;
use crate::paths;
use crate::paths::{PathStyle, parent_path};
use crate::record;
use crate::record::{Event, Lookup};
use crate::shell::Host;
use crate::shell::wire::Shell;
use crate::text;
use crate::text::cat;

verus! {

pub open spec fn jj_dir_of(style: PathStyle, root: Seq<char>) -> Seq<char> {
    paths::path_below(style, root, ".jj"@)
}

pub open spec fn repo_entry_of(style: PathStyle, root: Seq<char>) -> Seq<char> {
    paths::path_below(style, jj_dir_of(style, root), "repo"@)
}

/// How the last step, naming the directory without links, ends.
pub open spec fn canonical_result(
    path: Seq<char>,
    found: Result<Seq<char>, Seq<CauseView>>,
) -> Result<Seq<char>, Seq<CauseView>> {
    match found {
        Ok(dir) => Ok(dir),
        Err(e) => Err(error::in_context("resolve jj repo directory "@ + path, e)),
    }
}

/// How paths are written, as the first step of a search tells.
pub open spec fn style_told(steps: Seq<Lookup>) -> Option<PathStyle> {
    if steps.len() > 0 && steps[0] is Style {
        Some(steps[0]->style)
    } else {
        None
    }
}

/// What these steps found of the repository directory of the workspace at `root`, where they are the
/// search for it.
pub open spec fn dir_found(steps: Seq<Lookup>, root: Seq<char>) -> Option<
    Result<Seq<char>, Seq<CauseView>>,
> {
    match style_told(steps) {
        Some(style) => entry_found(style, steps.skip(1), root),
        None => None,
    }
}

/// What these steps found below the workspace at `root`: the entry `.jj/repo` is the repository
/// directory, or a file that points to it.
pub open spec fn entry_found(style: PathStyle, steps: Seq<Lookup>, root: Seq<char>) -> Option<
    Result<Seq<char>, Seq<CauseView>>,
> {
    let entry = repo_entry_of(style, root);
    if steps.len() == 0 || steps[0] !is IsDir || steps[0]->IsDir_path != entry {
        None
    } else {
        match steps[0]->directory {
            Err(e) => if steps.len() == 1 {
                Some(Err(error::in_context("read jj repo entry "@ + entry, e)))
            } else {
                None
            },
            Ok(true) => canonical_found(steps.skip(1), entry),
            Ok(false) => pointer_found(style, steps.skip(1), root),
        }
    }
}

/// What the last step found.
pub open spec fn canonical_found(steps: Seq<Lookup>, path: Seq<char>) -> Option<
    Result<Seq<char>, Seq<CauseView>>,
> {
    if steps.len() != 1 || steps[0] !is Canonical || steps[0]->Canonical_path != path {
        None
    } else {
        Some(canonical_result(path, steps[0]->found))
    }
}

/// What these steps found by the file that points to the repository directory.
pub open spec fn pointer_found(style: PathStyle, steps: Seq<Lookup>, root: Seq<char>) -> Option<
    Result<Seq<char>, Seq<CauseView>>,
> {
    let entry = repo_entry_of(style, root);
    if steps.len() == 0 || steps[0] !is FileRead || steps[0]->FileRead_path != entry {
        None
    } else {
        match steps[0]->text {
            Err(e) => if steps.len() == 1 {
                Some(Err(error::in_context("read jj repo pointer "@ + entry, e)))
            } else {
                None
            },
            Ok(pointer) => if text::is_blank(pointer) {
                if steps.len() == 1 {
                    Some(Err(error::plain("jj repo pointer "@ + entry + " is empty"@)))
                } else {
                    None
                }
            } else {
                canonical_found(
                    steps.skip(1),
                    paths::path_below(style, jj_dir_of(style, root), text::trim(pointer)),
                )
            },
        }
    }
}

/// What these steps found of the repository directory of the current workspace, where they are the
/// search for it.
pub open spec fn current_dir_found(steps: Seq<Lookup>) -> Option<
    Result<Seq<char>, Seq<CauseView>>,
> {
    if style_told(steps) is None || steps.len() < 2 || steps[1] !is Root {
        None
    } else {
        match output::required_output("jj"@, seq!["root"@], steps[1]->Root_reply) {
            Err(e) => if steps.len() == 2 {
                Some(Err(error::in_context("resolve jj workspace root"@, e)))
            } else {
                None
            },
            Ok(root) => entry_found(style_told(steps)->Some_0, steps.skip(2), root),
        }
    }
}

/// The workspace that holds `.git`, from where its repository directory is.
pub open spec fn workspace_of(
    style: PathStyle,
    repo_dir: Result<Seq<char>, Seq<CauseView>>,
) -> Result<Seq<char>, Seq<CauseView>> {
    match repo_dir {
        Err(e) => Err(e),
        Ok(dir) => {
            let up = match paths::parent_of(style, dir) {
                Some(jj) => paths::parent_of(style, jj),
                None => None,
            };
            match up {
                Some(root) => Ok(root),
                None => Err(error::plain("derive backing workspace dir from jj repo dir "@ + dir)),
            }
        },
    }
}

/// The law of the way back: the workspace that holds the repository directory `.jj/repo` is found two
/// levels above it, whether it is a directory with a name, or a root, a drive or the empty path.
pub proof fn law_workspace_is_found_back(
    style: PathStyle,
    root: Seq<char>,
    below: Seq<char>,
    dir: Seq<char>,
)
    requires
        dir == below + ".jj"@ + paths::sep_text(style) + "repo"@,
        ({
            ||| below == root && root.len() == paths::body_start(style, dir)
            ||| below == root + paths::sep_text(style) && root.len() > paths::body_start(style, dir)
                && !paths::is_sep(paths::cut_of(style, dir), root.last())
        }),
    ensures
        workspace_of(style, Ok(dir)) == Ok::<Seq<char>, Seq<CauseView>>(root),
{
    reveal_strlit(".jj");
    reveal_strlit("repo");
    reveal_strlit("/");
    reveal_strlit("\\");
    let cut = paths::cut_of(style, dir);
    let start = paths::body_start(style, dir);
    let j = below.len() as int;
    let jj = dir.take(j + 3);
    paths::lemma_front_keeps_start(style, dir, j + 3);
    reveal_with_fuel(paths::last_name, 6);
    reveal_with_fuel(paths::trimmed_to, 3);
    assert(dir[j] == '.' && dir[j + 1] == 'j' && dir[j + 2] == 'j');
    assert(paths::is_sep(cut, dir[j + 3]));
    assert(dir[j + 4] == 'r' && dir[j + 5] == 'e' && dir[j + 6] == 'p' && dir[j + 7] == 'o');
    assert(dir.len() == j + 8);
    assert(paths::last_name(dir, cut, start, j + 8) == j + 4);
    assert(paths::parent_of(style, dir) == Some(jj));
    if below != root {
        assert(jj[j - 1] == paths::sep_text(style)[0]);
        assert(jj[j - 2] == root.last());
    }
    assert(paths::last_name(jj, cut, start, j + 3) == j);
    assert(paths::trimmed_to(jj, cut, start, j) == root.len());
    assert(jj.take(root.len() as int) =~= root);
}

/// What these steps found of the workspace that holds `.git`, where they are the search for it.
pub open spec fn root_found(steps: Seq<Lookup>) -> Option<Result<Seq<char>, Seq<CauseView>>> {
    match current_dir_found(steps) {
        Some(dir) => Some(workspace_of(style_told(steps)->Some_0, dir)),
        None => None,
    }
}

/// The workspace that holds `.git`, two levels above its repository directory.
pub fn workspace_above(style: PathStyle, repo_dir: Result<String, Error>) -> (r: Result<
    String,
    Error,
>)
    ensures
        error::res(r) == workspace_of(style, error::res(repo_dir)),
{
    match repo_dir {
        Err(error) => Err(error),
        Ok(repo_dir) => {
            let up = match parent_path(style, &repo_dir) {
                Some(jj) => parent_path(style, &jj),
                None => None,
            };
            match up {
                Some(root) => Ok(root),
                None => Err(fail(&cat("derive backing workspace dir from jj repo dir ", &repo_dir))),
            }
        },
    }
}

/// Exactly one meeting was added: a search.
pub open spec fn searched(before: Seq<Event>, after: Seq<Event>) -> bool {
    &&& after.len() == before.len() + 1
    &&& after.drop_last() == before
    &&& after.last() is Searched
}

/// Finds the repository directory of the workspace at `workspace_root`.
pub fn resolve_jj_repo_dir<H: Host>(sh: &mut Shell<H>, workspace_root: &str) -> (r: Result<
    String,
    Error,
>)
    ensures
        searched(old(sh).log(), final(sh).log()),
        dir_found(final(sh).log().last()->Searched_steps, workspace_root@) == Some(error::res(r)),
{
    let r = sh.search_below(workspace_root);
    assert(sh.log().drop_last() =~= old(sh).log());
    r
}

/// Finds the repository directory of the current workspace.
pub fn resolve_current_jj_repo_dir<H: Host>(sh: &mut Shell<H>) -> (r: Result<String, Error>)
    ensures
        searched(old(sh).log(), final(sh).log()),
        current_dir_found(final(sh).log().last()->Searched_steps) == Some(error::res(r)),
{
    let (_, r) = sh.search();
    assert(sh.log().drop_last() =~= old(sh).log());
    r
}

/// Finds the workspace that holds `.git`.
pub fn git_workspace_root<H: Host>(sh: &mut Shell<H>) -> (r: Result<String, Error>)
    ensures
        searched(old(sh).log(), final(sh).log()),
        root_found(final(sh).log().last()->Searched_steps) == Some(error::res(r)),
{
    let (style, dir) = sh.search();
    assert(sh.log().drop_last() =~= old(sh).log());
    workspace_above(style, dir)
}

/// Runs `git` in the workspace that holds `.git`, whichever workspace the user is in.
pub fn git_run<H: Host>(sh: &mut Shell<H>, args: &Vec<String>) -> (r: Result<CommandOutput, Error>)
    ensures
        record::called(old(sh).log(), final(sh).log(), "git"@, args.deep_view()),
        error::res(r) == record::last_reply(final(sh).log()),
{
    sh.run_at_root("git", args)
}

/// Runs `gh` in the workspace that holds `.git`: it finds the repository from the remote there.
pub fn gh_run<H: Host>(sh: &mut Shell<H>, args: &Vec<String>) -> (r: Result<CommandOutput, Error>)
    ensures
        record::called(old(sh).log(), final(sh).log(), "gh"@, args.deep_view()),
        error::res(r) == record::last_reply(final(sh).log()),
{
    sh.run_at_root("gh", args)
}

pub fn git_run_required<H: Host>(sh: &mut Shell<H>, args: &Vec<String>) -> (r: Result<
    String,
    Error,
>)
    ensures
        record::called(old(sh).log(), final(sh).log(), "git"@, args.deep_view()),
        error::res(r) == output::required_output("git"@, args.deep_view(), record::last_reply(final(sh).log())),
{
    let reply = git_run(sh, args);
    require_output("git", args, reply)
}

pub fn gh_run_required<H: Host>(sh: &mut Shell<H>, args: &Vec<String>) -> (r: Result<String, Error>)
    ensures
        record::called(old(sh).log(), final(sh).log(), "gh"@, args.deep_view()),
        error::res(r) == output::required_output("gh"@, args.deep_view(), record::last_reply(final(sh).log())),
{
    let reply = gh_run(sh, args);
    require_output("gh", args, reply)
}

} // verus!
