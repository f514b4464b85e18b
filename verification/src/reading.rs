//! What a command line tells the program that reads it to do.
//!
//! Here a command line is read from the side of `jj` and `gh`: each option lends its value a meaning.

use vstd::prelude::*;

use crate::quiet;
use crate::record;
use crate::record::Event;
use crate::text;

verus! {

broadcast use crate::record::group_record;

/// What a program is told to do.
pub enum Deed {
    /// Nothing of what is listed here.
    Unknown,
    /// A bookmark is put at a commit; only with leave may it go back.
    SetBookmark { name: Seq<char>, at: Seq<char>, backwards: bool },
    /// A bookmark of a remote is followed.
    TrackBookmark { remote: Seq<char>, name: Seq<char> },
    /// A bookmark is deleted; the next push deletes it on its remotes.
    DeleteBookmark { name: Seq<char> },
    /// A bookmark is forgotten here, with what is known of it on its remotes.
    ForgetBookmark { name: Seq<char> },
    /// Bookmarks are pushed to a remote.
    Push { remote: Seq<char>, bookmarks: Seq<Seq<char>> },
    /// Branches, or all where none is named, are fetched from a remote.
    Fetch { remote: Seq<char>, branches: Seq<Seq<char>> },
    /// A commit moves with all that stands on it.
    RebaseTree { source: Seq<char>, onto: Seq<char> },
    /// Just the commits of a revset move.
    RebaseSet { revset: Seq<char>, onto: Seq<char> },
    /// A new change begins on a revision.
    NewChange { on: Seq<char> },
    /// A setting of the repository is set.
    SetSetting { key: Seq<char>, value: Seq<char> },
    /// A request with fields is sent to GitHub.
    Request { method: Seq<char>, path: Seq<char>, fields: Seq<Seq<char>> },
    /// A document of GitHub is read, and what a query takes from it is shown.
    Fetched { path: Seq<char>, query: Seq<char>, pages: bool },
    /// The pull requests in a state are listed, with these fields; `by` and `name` narrow the list.
    ListRequests { repo: Seq<char>, by: Seq<char>, name: Seq<char>, state: Seq<char>, shown: Seq<char> },
    /// Fields of one pull request are shown.
    ShowRequest { repo: Seq<char>, number: Seq<char>, shown: Seq<char> },
    /// The commits of a revset are listed.
    ListCommits { revset: Seq<char>, shown: Seq<char>, bottom_first: bool },
    /// Bookmarks are listed; `by` and `name` narrow the list.
    ListBookmarks { by: Seq<char>, name: Seq<char>, shown: Seq<char> },
    /// A setting is asked for.
    GetSetting { key: Seq<char> },
    /// Whether the first commit lies below the second is asked.
    TestAncestor { ancestor: Seq<char>, descendant: Seq<char> },
    /// Where the histories of two commits meet is asked.
    FindFork { left: Seq<char>, right: Seq<char> },
    /// Which commit a name stands for is asked.
    ParseRevision { rev: Seq<char> },
    /// Where a branch of a remote stands is asked.
    FindRemoteHead { remote: Seq<char>, branch: Seq<char> },
    /// Which tree a commit has is asked.
    ShowTree { commit: Seq<char> },
}

/// The values of an option that is given again and again from `i` on.
pub open spec fn values_from(args: Seq<Seq<char>>, option: Seq<char>, i: int) -> Seq<Seq<char>>
    decreases args.len() - i,
{
    if 0 <= i && i + 1 < args.len() && args[i] == option {
        seq![args[i + 1]] + values_from(args, option, i + 2)
    } else {
        seq![]
    }
}

/// What a line for `jj bookmark` says.
pub open spec fn bookmark_deed(args: Seq<Seq<char>>) -> Deed {
    let n = args.len();
    if n == 5 && args[1] == "set"@ && args[3] == "-r"@ {
        Deed::SetBookmark { name: args[2], at: args[4], backwards: false }
    } else if n == 6 && args[1] == "set"@ && args[2] == "--allow-backwards"@ && args[4] == "-r"@ {
        Deed::SetBookmark { name: args[3], at: args[5], backwards: true }
    } else if n == 5 && args[1] == "track"@ && args[2] == "--remote"@ {
        Deed::TrackBookmark { remote: args[3], name: args[4] }
    } else if n == 3 && args[1] == "delete"@ {
        Deed::DeleteBookmark { name: args[2] }
    } else if n == 4 && args[1] == "forget"@ && args[2] == "--include-remotes"@ {
        Deed::ForgetBookmark { name: args[3] }
    } else if args[1] == "list"@ {
        listing_deed(args)
    } else {
        Deed::Unknown
    }
}

/// What a line for `jj bookmark list` says.
pub open spec fn listing_deed(args: Seq<Seq<char>>) -> Deed {
    let n = args.len();
    if n == 4 && args[2] == "-T"@ {
        Deed::ListBookmarks { by: seq![], name: seq![], shown: args[3] }
    } else if n == 5 && args[3] == "-T"@ {
        if args[2] == "--all-remotes"@ {
            Deed::ListBookmarks { by: args[2], name: seq![], shown: args[4] }
        } else {
            Deed::ListBookmarks { by: seq![], name: args[2], shown: args[4] }
        }
    } else if n == 6 && args[4] == "-T"@ && (args[2] == "--all-remotes"@ || args[2]
        == "--revision"@) {
        Deed::ListBookmarks { by: args[2], name: args[3], shown: args[5] }
    } else {
        Deed::Unknown
    }
}

/// What a line for `jj git` says.
pub open spec fn remote_deed(args: Seq<Seq<char>>) -> Deed {
    let bookmarks = values_from(args, "--bookmark"@, 4);
    let branches = values_from(args, "--branch"@, 4);
    if args.len() < 4 || args[2] != "--remote"@ {
        Deed::Unknown
    } else if args[1] == "push"@ && args.len() == 4 + 2 * bookmarks.len() {
        Deed::Push { remote: args[3], bookmarks }
    } else if args[1] == "fetch"@ && args.len() == 4 + 2 * branches.len() {
        Deed::Fetch { remote: args[3], branches }
    } else {
        Deed::Unknown
    }
}

/// What a line for `jj` says.
pub open spec fn jj_deed(args: Seq<Seq<char>>) -> Deed {
    let n = args.len();
    if n > 1 && args[0] == "bookmark"@ {
        bookmark_deed(args)
    } else if n > 1 && args[0] == "git"@ {
        remote_deed(args)
    } else if n == 5 && args[0] == "rebase"@ && args[1] == "-s"@ && args[3] == "-d"@ {
        Deed::RebaseTree { source: args[2], onto: args[4] }
    } else if n == 5 && args[0] == "rebase"@ && args[1] == "-r"@ && args[3] == "-d"@ {
        Deed::RebaseSet { revset: args[2], onto: args[4] }
    } else if n == 2 && args[0] == "new"@ {
        Deed::NewChange { on: args[1] }
    } else if n == 5 && args[0] == "config"@ && args[1] == "set"@ && args[2] == "--repo"@ {
        Deed::SetSetting { key: args[3], value: args[4] }
    } else if n == 3 && args[0] == "config"@ && args[1] == "get"@ {
        Deed::GetSetting { key: args[2] }
    } else if n == 6 && args[0] == "log"@ && args[1] == "--no-graph"@ && args[2] == "-r"@ && args[4]
        == "-T"@ {
        Deed::ListCommits { revset: args[3], shown: args[5], bottom_first: false }
    } else if n == 7 && args[0] == "log"@ && args[1] == "--no-graph"@ && args[2] == "--reversed"@
        && args[3] == "-r"@ && args[5] == "-T"@ {
        Deed::ListCommits { revset: args[4], shown: args[6], bottom_first: true }
    } else {
        Deed::Unknown
    }
}

/// What a line for `git` says.
pub open spec fn git_deed(args: Seq<Seq<char>>) -> Deed {
    let n = args.len();
    if n == 4 && args[0] == "merge-base"@ && args[1] == "--is-ancestor"@ {
        Deed::TestAncestor { ancestor: args[2], descendant: args[3] }
    } else if n == 3 && args[0] == "merge-base"@ {
        Deed::FindFork { left: args[1], right: args[2] }
    } else if n == 2 && args[0] == "rev-parse"@ {
        Deed::ParseRevision { rev: args[1] }
    } else if n == 4 && args[0] == "ls-remote"@ && args[1] == "--heads"@ {
        Deed::FindRemoteHead { remote: args[2], branch: args[3] }
    } else if n == 4 && args[0] == "show"@ && args[1] == "-s"@ && args[2] == "--format=%T"@ {
        Deed::ShowTree { commit: args[3] }
    } else if n == 3 && args[0] == "config"@ && args[1] == "--get"@ {
        Deed::GetSetting { key: args[2] }
    } else {
        Deed::Unknown
    }
}

/// What a line for `gh` says.
pub open spec fn gh_deed(args: Seq<Seq<char>>) -> Deed {
    if args.len() >= 4 && args[0] == "api"@ && args[1] == "-X"@ {
        Deed::Request {
            method: args[2],
            path: args[3],
            fields: values_from(args, "-f"@, 4),
        }
    } else if args.len() == 4 && args[0] == "api"@ && args[2] == "--jq"@ {
        Deed::Fetched { path: args[1], query: args[3], pages: false }
    } else if args.len() == 5 && args[0] == "api"@ && args[1] == "--paginate"@ && args[3]
        == "--jq"@ {
        Deed::Fetched { path: args[2], query: args[4], pages: true }
    } else if args.len() > 1 && args[0] == "pr"@ && args[1] == "list"@ {
        request_listing_deed(args)
    } else if args.len() >= 7 && args[0] == "pr"@ && args[1] == "view"@ && args[3] == "--repo"@
        && args[5] == "--json"@ {
        Deed::ShowRequest { number: args[2], repo: args[4], shown: args[6] }
    } else {
        Deed::Unknown
    }
}

/// What a line for `gh pr list` says.
pub open spec fn request_listing_deed(args: Seq<Seq<char>>) -> Deed {
    let n = args.len();
    if n == 10 && args[2] == "--repo"@ && args[4] == "--state"@ && args[6] == "--json"@ && args[8]
        == "--limit"@ {
        Deed::ListRequests {
            repo: args[3],
            by: args[8],
            name: args[9],
            state: args[5],
            shown: args[7],
        }
    } else if n == 10 && args[2] == "--repo"@ && args[6] == "--state"@ && args[8] == "--json"@ {
        Deed::ListRequests {
            repo: args[3],
            by: args[4],
            name: args[5],
            state: args[7],
            shown: args[9],
        }
    } else {
        Deed::Unknown
    }
}

/// What a command line says.
#[verifier::opaque]
pub open spec fn deed_of(program: Seq<char>, args: Seq<Seq<char>>) -> Deed {
    if program == "jj"@ {
        jj_deed(args)
    } else if program == "gh"@ {
        gh_deed(args)
    } else if program == "git"@ {
        git_deed(args)
    } else {
        Deed::Unknown
    }
}

/// What a meeting told a program to do. A program that was not run was told nothing.
pub open spec fn deed(event: Event) -> Deed {
    match event {
        Event::Call { program, args, .. } => deed_of(program, args),
        _ => Deed::Unknown,
    }
}

/// What the fields of a request say under a name.
pub open spec fn field(fields: Seq<Seq<char>>, name: Seq<char>) -> Option<Seq<char>>
    decreases fields.len(),
{
    if fields.len() == 0 {
        None
    } else if text::starts_with(fields[0], name + "="@) {
        Some(fields[0].skip(name.len() as int + 1))
    } else {
        field(fields.skip(1), name)
    }
}

/// The first field is read under its name.
pub proof fn lemma_field_first(fields: Seq<Seq<char>>, name: Seq<char>, value: Seq<char>)
    requires
        fields.len() > 0,
        fields[0] == name + "="@ + value,
    ensures
        field(fields, name) == Some(value),
{
    reveal_strlit("=");
    assert((name + "="@).len() == name.len() + 1);
    assert(fields[0].take(name.len() as int + 1) =~= name + "="@);
    assert(fields[0].skip(name.len() as int + 1) =~= value);
}

/// The names of fields, as a request holds them.
pub proof fn lemma_field_names()
    ensures
        "title="@ == "title"@ + "="@,
        "head="@ == "head"@ + "="@,
        "base="@ == "base"@ + "="@,
        "body="@ == "body"@ + "="@,
{
    reveal_strlit("=");
    reveal_strlit("title");
    reveal_strlit("title=");
    reveal_strlit("head");
    reveal_strlit("head=");
    reveal_strlit("base");
    reveal_strlit("base=");
    reveal_strlit("body");
    reveal_strlit("body=");
    assert("title="@ =~= "title"@ + "="@);
    assert("head="@ =~= "head"@ + "="@);
    assert("base="@ =~= "base"@ + "="@);
    assert("body="@ =~= "body"@ + "="@);
}

/// A field under another name is passed over.
pub proof fn lemma_field_next(fields: Seq<Seq<char>>, name: Seq<char>, other: Seq<char>, value: Seq<char>, i: int)
    requires
        fields.len() > 0,
        fields[0] == other + value,
        0 <= i < name.len(),
        i < other.len(),
        name[i] != other[i],
    ensures
        field(fields, name) == field(fields.skip(1), name),
{
    reveal_strlit("=");
    assert((name + "="@)[i] == name[i]);
    if text::starts_with(fields[0], name + "="@) {
        assert(fields[0].take((name + "="@).len() as int)[i] == fields[0][i]);
    }
}

/// Words that mean different things are different.
pub proof fn lemma_words()
    ensures
        "jj"@ != "gh"@,
        "jj"@ != "git"@,
        "gh"@ != "git"@,
        "bookmark"@ != "git"@,
        "bookmark"@ != "rebase"@,
        "bookmark"@ != "new"@,
        "bookmark"@ != "config"@,
        "bookmark"@ != "log"@,
        "git"@ != "rebase"@,
        "git"@ != "new"@,
        "git"@ != "config"@,
        "git"@ != "log"@,
        "rebase"@ != "new"@,
        "rebase"@ != "config"@,
        "rebase"@ != "log"@,
        "config"@ != "log"@,
        "set"@ != "track"@,
        "set"@ != "delete"@,
        "set"@ != "forget"@,
        "set"@ != "list"@,
        "set"@ != "get"@,
        "track"@ != "delete"@,
        "track"@ != "list"@,
        "delete"@ != "list"@,
        "forget"@ != "list"@,
        "push"@ != "fetch"@,
        "-s"@ != "-r"@,
        "-s"@ != "-T"@,
        "-r"@ != "-T"@,
        "-f"@ != "--jq"@,
        "--bookmark"@ != "--branch"@,
        "POST"@ != "PATCH"@,
        "api"@ != "pr"@,
        "list"@ != "view"@,
        "-X"@ != "user"@,
        "--no-graph"@ != "--reversed"@,
        "-r"@ != "--reversed"@,
        "--all-remotes"@ != "-T"@,
        "--all-remotes"@ != "--revision"@,
        "--revision"@ != "-T"@,
        "--jq"@ != "--paginate"@,
        "-X"@ != "--paginate"@,
        "--base"@ != "--head"@,
        "--state"@ != "--base"@,
        "--state"@ != "--head"@,
        "--json"@ != "--state"@,
        "--limit"@ != "--json"@,
        "merge-base"@ != "rev-parse"@,
        "merge-base"@ != "ls-remote"@,
        "merge-base"@ != "show"@,
        "merge-base"@ != "config"@,
        "ls-remote"@ != "show"@,
        "--is-ancestor"@ != "--heads"@,
        "rev-parse"@ != "show"@,
        "--limit"@ != "--repo"@,
        "forklift/frozen/*"@ != "--all-remotes"@,
        "--remote"@ != "-r"@,
        "--remote"@ != "--allow-backwards"@,
        "--state"@ != "--limit"@,
{
    reveal_strlit("--all-remotes");
    reveal_strlit("--allow-backwards");
    reveal_strlit("--base");
    reveal_strlit("--bookmark");
    reveal_strlit("--branch");
    reveal_strlit("--head");
    reveal_strlit("--heads");
    reveal_strlit("--is-ancestor");
    reveal_strlit("--jq");
    reveal_strlit("--json");
    reveal_strlit("--limit");
    reveal_strlit("--no-graph");
    reveal_strlit("--paginate");
    reveal_strlit("--remote");
    reveal_strlit("--repo");
    reveal_strlit("--reversed");
    reveal_strlit("--revision");
    reveal_strlit("--state");
    reveal_strlit("-T");
    reveal_strlit("-X");
    reveal_strlit("-f");
    reveal_strlit("-r");
    reveal_strlit("-s");
    reveal_strlit("PATCH");
    reveal_strlit("POST");
    reveal_strlit("api");
    reveal_strlit("bookmark");
    reveal_strlit("config");
    reveal_strlit("delete");
    reveal_strlit("fetch");
    reveal_strlit("forget");
    reveal_strlit("forklift/frozen/*");
    reveal_strlit("get");
    reveal_strlit("gh");
    reveal_strlit("git");
    reveal_strlit("jj");
    reveal_strlit("list");
    reveal_strlit("log");
    reveal_strlit("ls-remote");
    reveal_strlit("merge-base");
    reveal_strlit("new");
    reveal_strlit("pr");
    reveal_strlit("push");
    reveal_strlit("rebase");
    reveal_strlit("rev-parse");
    reveal_strlit("set");
    reveal_strlit("show");
    reveal_strlit("track");
    reveal_strlit("user");
    reveal_strlit("view");
    assert("jj"@[0] != "gh"@[0]);
    assert("jj"@.len() != "git"@.len());
    assert("gh"@.len() != "git"@.len());
    assert("bookmark"@.len() != "git"@.len());
    assert("bookmark"@.len() != "rebase"@.len());
    assert("bookmark"@.len() != "new"@.len());
    assert("bookmark"@.len() != "config"@.len());
    assert("bookmark"@.len() != "log"@.len());
    assert("git"@.len() != "rebase"@.len());
    assert("git"@[0] != "new"@[0]);
    assert("git"@.len() != "config"@.len());
    assert("git"@[0] != "log"@[0]);
    assert("rebase"@.len() != "new"@.len());
    assert("rebase"@[0] != "config"@[0]);
    assert("rebase"@.len() != "log"@.len());
    assert("config"@.len() != "log"@.len());
    assert("set"@.len() != "track"@.len());
    assert("set"@.len() != "delete"@.len());
    assert("set"@.len() != "forget"@.len());
    assert("set"@.len() != "list"@.len());
    assert("set"@[0] != "get"@[0]);
    assert("track"@.len() != "delete"@.len());
    assert("track"@.len() != "list"@.len());
    assert("delete"@.len() != "list"@.len());
    assert("forget"@.len() != "list"@.len());
    assert("push"@.len() != "fetch"@.len());
    assert("-s"@[1] != "-r"@[1]);
    assert("-s"@[1] != "-T"@[1]);
    assert("-r"@[1] != "-T"@[1]);
    assert("-f"@.len() != "--jq"@.len());
    assert("--bookmark"@.len() != "--branch"@.len());
    assert("POST"@.len() != "PATCH"@.len());
    assert("api"@.len() != "pr"@.len());
    assert("list"@[0] != "view"@[0]);
    assert("-X"@.len() != "user"@.len());
    assert("--no-graph"@[2] != "--reversed"@[2]);
    assert("-r"@.len() != "--reversed"@.len());
    assert("--all-remotes"@.len() != "-T"@.len());
    assert("--all-remotes"@.len() != "--revision"@.len());
    assert("--revision"@.len() != "-T"@.len());
    assert("--jq"@.len() != "--paginate"@.len());
    assert("-X"@.len() != "--paginate"@.len());
    assert("--base"@[2] != "--head"@[2]);
    assert("--state"@.len() != "--base"@.len());
    assert("--state"@.len() != "--head"@.len());
    assert("--json"@.len() != "--state"@.len());
    assert("--limit"@.len() != "--json"@.len());
    assert("merge-base"@.len() != "rev-parse"@.len());
    assert("merge-base"@.len() != "ls-remote"@.len());
    assert("merge-base"@.len() != "show"@.len());
    assert("merge-base"@.len() != "config"@.len());
    assert("ls-remote"@.len() != "show"@.len());
    assert("--is-ancestor"@.len() != "--heads"@.len());
    assert("rev-parse"@.len() != "show"@.len());
    assert("--limit"@.len() != "--repo"@.len());
    assert("forklift/frozen/*"@.len() != "--all-remotes"@.len());
    assert("--remote"@.len() != "-r"@.len());
    assert("--remote"@.len() != "--allow-backwards"@.len());
    assert("--state"@[2] != "--limit"@[2]);
}

/// Whether all that was done between `before` and `after` changed nothing, or is allowed by `may`.
#[verifier::opaque]
pub open spec fn did(
    before: Seq<Event>,
    after: Seq<Event>,
    may: spec_fn(Event) -> bool,
) -> bool {
    &&& record::extends(before, after)
    &&& forall|i: int|
        before.len() <= i < after.len() ==> quiet::harmless(#[trigger] after[i]) || may(after[i])
}

pub broadcast proof fn lemma_quiet_did(
    before: Seq<Event>,
    after: Seq<Event>,
    may: spec_fn(Event) -> bool,
)
    requires
        quiet::quiet(before, after),
    ensures
        #[trigger] did(before, after, may),
{
    reveal(did);
    reveal(quiet::quiet);
}

pub broadcast proof fn lemma_did_trans(
    a: Seq<Event>,
    b: Seq<Event>,
    c: Seq<Event>,
    may: spec_fn(Event) -> bool,
)
    requires
        #[trigger] did(a, b, may),
        #[trigger] did(b, c, may),
    ensures
        did(a, c, may),
{
    reveal(did);
    assert forall|i: int| a.len() <= i < c.len() implies quiet::harmless(#[trigger] c[i]) || may(
        c[i],
    ) by {
        if i < b.len() {
            assert(c.take(b.len() as int)[i] == b[i]);
        }
    }
}

pub broadcast proof fn lemma_quiet_then_did(
    a: Seq<Event>,
    b: Seq<Event>,
    c: Seq<Event>,
    may: spec_fn(Event) -> bool,
)
    requires
        #[trigger] quiet::quiet(a, b),
        #[trigger] did(b, c, may),
    ensures
        did(a, c, may),
{
    lemma_quiet_did(a, b, may);
    lemma_did_trans(a, b, c, may);
}

pub broadcast proof fn lemma_did_then_quiet(
    a: Seq<Event>,
    b: Seq<Event>,
    c: Seq<Event>,
    may: spec_fn(Event) -> bool,
)
    requires
        #[trigger] did(a, b, may),
        #[trigger] quiet::quiet(b, c),
    ensures
        did(a, c, may),
{
    lemma_quiet_did(b, c, may);
    lemma_did_trans(a, b, c, may);
}

pub broadcast proof fn lemma_call_did(
    before: Seq<Event>,
    after: Seq<Event>,
    program: Seq<char>,
    args: Seq<Seq<char>>,
    may: spec_fn(Event) -> bool,
)
    requires
        #[trigger] record::called(before, after, program, args),
        after.last() is Call ==> may(after.last()),
    ensures
        #[trigger] did(before, after, may),
{
    reveal(did);
    assert forall|i: int| before.len() <= i < after.len() implies quiet::harmless(
        #[trigger] after[i],
    ) || may(after[i]) by {
        assert(after[i] == after.last());
    }
}

/// Who may do more did no more.
pub proof fn lemma_did_less(
    before: Seq<Event>,
    after: Seq<Event>,
    may: spec_fn(Event) -> bool,
    might: spec_fn(Event) -> bool,
)
    requires
        did(before, after, may),
        forall|event: Event| #[trigger] may(event) ==> might(event),
    ensures
        did(before, after, might),
{
    reveal(did);
}

pub broadcast group group_reading {
    lemma_quiet_did,
    lemma_did_trans,
    lemma_quiet_then_did,
    lemma_did_then_quiet,
    lemma_call_did,
}

} // verus!
