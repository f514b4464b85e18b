//! Local, remote and frozen bookmarks.

use vstd::prelude::*;

use crate::error;
use crate::error::{CauseView, CliError, Error, fail, report};
use crate::model::{
    AppConfig, AppConfigView, Diagnostics, Duplicate, FrozenBookmark, FrozenBookmarkView, GhPr,
    GhPrView, RemoteBookmark, RemoteBookmarkStatus, RemoteBookmarkStatusView, RemoteBookmarkView,
    ResolvedChange,
};
use crate::output;
use crate::output::display_command;
use crate::pr;
use crate::pr::hash_text;
use crate::record;
use crate::record::{Event, LineView, Reply};
use crate::repo::git_run;
use crate::shell::{Host, Line, jj_checked, jj_run, run_required};
use crate::shell::wire::Shell;
use crate::stack::COMMIT_ID_LINE_TEMPLATE;
use crate::text;
use crate::text::{
    blank, cat, cat3, cat5, cat7, join_text, number_text, parse_text_number, same, sorted_set,
    split_text, text_before, text_filled_lines, text_lines, text_number_fault, text_starts_with,
    text_strip_prefix, trimmed, trimmed_end_char, words,
};

verus! {

broadcast use crate::record::group_record;

pub const FROZEN_BOOKMARK_PREFIX: &'static str = "forklift/frozen/pr-";

pub const FROZEN_BOOKMARK_TEMPLATE: &'static str =
    "name ++ \"\\t\" ++ if(conflict, \"conflicted\", \"ok\") ++ \"\\t\" ++ if(conflict, \"\", normal_target.commit_id()) ++ \"\\n\"";

pub const REMOTE_BOOKMARK_TEMPLATE: &'static str =
    "name ++ \"\\t\" ++ remote ++ \"\\t\" ++ if(tracked, \"tracked\", \"untracked\") ++ \"\\t\" ++ if(conflict, \"conflicted\", \"ok\") ++ \"\\t\" ++ if(conflict, \"\", normal_target.commit_id()) ++ \"\\n\"";

pub const BOOKMARK_STATUS_TEMPLATE: &'static str =
    "remote ++ \"\\t\" ++ if(tracked, \"tracked\", \"untracked\") ++ \"\\t\" ++ if(conflict, \"conflicted\", \"ok\") ++ \"\\n\"";

pub const LOCAL_BOOKMARK_TEMPLATE: &'static str = "name ++ \"\\t\" ++ remote ++ \"\\n\"";

/// Like [`LOCAL_BOOKMARK_TEMPLATE`], with the state and the target of each bookmark.
pub const LOCAL_BOOKMARK_STATE_TEMPLATE: &'static str =
    "name ++ \"\\t\" ++ remote ++ \"\\t\" ++ if(conflict, \"conflicted\", \"ok\") ++ \"\\t\" ++ if(conflict, \"\", normal_target.commit_id()) ++ \"\\n\"";

// ---------------------------------------------------------------------------
// Frozen bookmarks
// ---------------------------------------------------------------------------

pub open spec fn frozen_name(pr_number: u64) -> Seq<char> {
    FROZEN_BOOKMARK_PREFIX@ + text::decimal(pr_number as nat)
}

pub fn frozen_bookmark_name(pr_number: u64) -> (r: String)
    ensures
        r@ == frozen_name(pr_number),
{
    cat(FROZEN_BOOKMARK_PREFIX, &number_text(pr_number))
}

/// What one row of the list of frozen bookmarks says; rows of other bookmarks say nothing.
pub open spec fn frozen_row(line: Seq<char>) -> Result<
    Option<FrozenBookmarkView>,
    Seq<CauseView>,
> {
    let fields = text::split(line, '\t');
    if fields.len() != 3 {
        Err(
            error::plain(
                "parse frozen bookmark row `"@ + line + "`: expected 3 tab-separated fields"@,
            ),
        )
    } else {
        let name = fields[0];
        match text::strip_prefix(name, FROZEN_BOOKMARK_PREFIX@) {
            None => Ok(None),
            Some(digits) => match text::parse_number(digits) {
                None => Err(
                    error::in_context(
                        "parse frozen bookmark `"@ + name + "` PR number"@,
                        error::plain(text::number_fault(digits)),
                    ),
                ),
                Some(n) => if fields[1] == "conflicted"@ {
                    Err(
                        error::reported(
                            error::cli("frozen bookmark `"@ + name + "` is conflicted"@).fixed_by(
                                "resolve the bookmark conflict before continuing"@,
                            ),
                        ),
                    )
                } else if text::is_blank(fields[2]) {
                    Err(error::plain("frozen bookmark `"@ + name + "` has no target commit"@))
                } else {
                    Ok(
                        Some(
                            FrozenBookmarkView {
                                name,
                                pr_number: n as u64,
                                commit_id: text::trim(fields[2]),
                            },
                        ),
                    )
                },
            },
        }
    }
}

fn read_frozen_row(line: &str) -> (r: Result<Option<FrozenBookmark>, Error>)
    ensures
        error::res(r) == frozen_row(line@),
{
    let fields = split_text(line, '\t');
    if fields.len() != 3 {
        return Err(
            fail(
                &cat3(
                    "parse frozen bookmark row `",
                    line,
                    "`: expected 3 tab-separated fields",
                ),
            ),
        );
    }
    let ghost f = fields.deep_view();
    assert(f[0] == fields@[0]@ && f[1] == fields@[1]@ && f[2] == fields@[2]@);
    let digits = match text_strip_prefix(&fields[0], FROZEN_BOOKMARK_PREFIX) {
        Some(digits) => digits,
        None => return Ok(None),
    };
    let pr_number = match parse_text_number(&digits) {
        Some(n) => n,
        None => return Err(
            fail(&text_number_fault(&digits)).context(
                &cat3("parse frozen bookmark `", &fields[0], "` PR number"),
            ),
        ),
    };
    if same(&fields[1], "conflicted") {
        return Err(
            report(
                CliError::new(
                    &cat3("frozen bookmark `", &fields[0], "` is conflicted"),
                ).resolution("resolve the bookmark conflict before continuing"),
            ),
        );
    }
    let commit_id = trimmed(&fields[2]);
    if commit_id.as_str().is_empty() {
        return Err(fail(&cat3("frozen bookmark `", &fields[0], "` has no target commit")));
    }
    Ok(Some(FrozenBookmark { name: fields[0].clone(), pr_number, commit_id }))
}

/// A row of bookmarks in order of their pull requests, with one more in its place: behind those with
/// the same number.
pub open spec fn frozen_inserted(
    sorted: Seq<FrozenBookmarkView>,
    item: FrozenBookmarkView,
) -> Seq<FrozenBookmarkView>
    decreases sorted.len(),
{
    if sorted.len() == 0 || sorted.last().pr_number <= item.pr_number {
        sorted.push(item)
    } else {
        frozen_inserted(sorted.drop_last(), item).push(sorted.last())
    }
}

/// The bookmarks that these rows name, in order of their pull requests.
pub open spec fn frozen_from_rows(rows: Seq<Seq<char>>) -> Result<
    Seq<FrozenBookmarkView>,
    Seq<CauseView>,
>
    decreases rows.len(),
{
    if rows.len() == 0 {
        Ok(seq![])
    } else {
        match frozen_from_rows(rows.drop_last()) {
            Err(e) => Err(e),
            Ok(sorted) => if text::is_blank(rows.last()) {
                Ok(sorted)
            } else {
                match frozen_row(rows.last()) {
                    Err(e) => Err(e),
                    Ok(None) => Ok(sorted),
                    Ok(Some(item)) => Ok(frozen_inserted(sorted, item)),
                }
            },
        }
    }
}

proof fn lemma_frozen_inserted_at(
    sorted: Seq<FrozenBookmarkView>,
    item: FrozenBookmarkView,
    at: int,
)
    requires
        0 <= at <= sorted.len(),
        at > 0 ==> sorted[at - 1].pr_number <= item.pr_number,
        forall|k: int| at <= k < sorted.len() ==> (#[trigger] sorted[k]).pr_number > item.pr_number,
    ensures
        frozen_inserted(sorted, item) == sorted.insert(at, item),
    decreases sorted.len(),
{
    if at == sorted.len() {
        assert(sorted.insert(at, item) =~= sorted.push(item));
    } else {
        assert(sorted.last().pr_number > item.pr_number);
        lemma_frozen_inserted_at(sorted.drop_last(), item, at);
        assert(sorted.insert(at, item) =~= sorted.drop_last().insert(at, item).push(sorted.last()));
    }
}

fn insert_frozen(sorted: Vec<FrozenBookmark>, item: FrozenBookmark) -> (r: Vec<FrozenBookmark>)
    ensures
        r.deep_view() == frozen_inserted(sorted.deep_view(), item@),
{
    let mut at: usize = sorted.len();
    while at > 0 && sorted[at - 1].pr_number > item.pr_number
        invariant
            at <= sorted@.len(),
            forall|k: int|
                at <= k < sorted@.len() ==> (#[trigger] sorted.deep_view()[k]).pr_number
                    > item.pr_number,
        decreases at,
    {
        assert(sorted.deep_view()[at - 1] == sorted@[at - 1]@);
        at = at - 1;
    }
    proof {
        lemma_frozen_inserted_at(sorted.deep_view(), item@, at as int);
    }
    let ghost before = sorted.deep_view();
    let mut out = sorted;
    out.insert(at, item);
    assert(out.deep_view() =~= before.insert(at as int, item@));
    out
}

fn read_frozen_rows(rows: &Vec<String>) -> (r: Result<Vec<FrozenBookmark>, Error>)
    ensures
        error::res(r) == frozen_from_rows(rows.deep_view()),
{
    let mut out: Vec<FrozenBookmark> = Vec::new();
    let mut i: usize = 0;
    let ghost all = rows.deep_view();
    assert(out.deep_view() =~= seq![]);
    assert(frozen_from_rows(all.take(0)) == Ok::<_, Seq<CauseView>>(out.deep_view()));
    while i < rows.len()
        invariant
            i <= rows@.len(),
            all == rows.deep_view(),
            frozen_from_rows(all.take(i as int)) == Ok::<_, Seq<CauseView>>(out.deep_view()),
        decreases rows@.len() - i,
    {
        let ghost next = all.take(i + 1);
        assert(next.drop_last() =~= all.take(i as int));
        assert(next.last() == rows@[i as int]@);
        if !blank(&rows[i]) {
            match read_frozen_row(&rows[i]) {
                Err(error) => {
                    proof {
                        lemma_frozen_rows_stop(all, i as int, error@);
                    }
                    return Err(error);
                },
                Ok(None) => {},
                Ok(Some(item)) => {
                    out = insert_frozen(out, item);
                },
            }
        }
        i = i + 1;
    }
    assert(all.take(i as int) =~= all);
    Ok(out)
}

proof fn lemma_frozen_rows_stop(rows: Seq<Seq<char>>, i: int, e: Seq<CauseView>)
    requires
        0 <= i < rows.len(),
        frozen_from_rows(rows.take(i + 1)) == Err::<Seq<FrozenBookmarkView>, _>(e),
    ensures
        frozen_from_rows(rows) == Err::<Seq<FrozenBookmarkView>, _>(e),
    decreases rows.len() - i,
{
    if i + 1 == rows.len() {
        assert(rows.take(i + 1) =~= rows);
    } else {
        assert(rows.take(i + 2).drop_last() =~= rows.take(i + 1));
        lemma_frozen_rows_stop(rows, i + 1, e);
    }
}

pub open spec fn frozen_list_args() -> Seq<Seq<char>> {
    seq!["bookmark"@, "list"@, "forklift/frozen/*"@, "-T"@, FROZEN_BOOKMARK_TEMPLATE@]
}

pub open spec fn frozen_list_result(reply: Reply) -> Result<
    Seq<FrozenBookmarkView>,
    Seq<CauseView>,
> {
    match output::checked("jj"@, frozen_list_args(), reply) {
        Err(e) => Err(e),
        Ok(output) => frozen_from_rows(text::lines(output.stdout)),
    }
}

/// The frozen bookmarks in order of their pull requests.
pub fn frozen_bookmarks<H: Host>(sh: &mut Shell<H>) -> (r: Result<Vec<FrozenBookmark>, Error>)
    ensures
        record::called(old(sh).log(), final(sh).log(), "jj"@, frozen_list_args()),
        error::res(r) == frozen_list_result(record::last_reply(final(sh).log())),
{
    let args = words(&["bookmark", "list", "forklift/frozen/*", "-T", FROZEN_BOOKMARK_TEMPLATE]);
    assert(args.deep_view() =~= frozen_list_args());
    match jj_checked(sh, &args) {
        Err(error) => Err(error),
        Ok(output) => read_frozen_rows(&text_lines(&output.stdout)),
    }
}

/// The name of a frozen bookmark reads back as the bookmark of that pull request.
pub proof fn law_frozen_name_reads_back(pr_number: u64, commit_id: Seq<char>)
    requires
        !text::is_blank(commit_id),
        forall|i: int| 0 <= i < commit_id.len() ==> commit_id[i] != '\t',
    ensures
        frozen_row(frozen_name(pr_number) + "\tok\t"@ + commit_id) == Ok::<_, Seq<CauseView>>(
            Some(
                FrozenBookmarkView {
                    name: frozen_name(pr_number),
                    pr_number,
                    commit_id: text::trim(commit_id),
                },
            ),
        ),
{
    reveal_strlit("\tok\t");
    reveal_strlit("ok");
    reveal_strlit("conflicted");
    reveal_strlit("forklift/frozen/pr-");
    text::law_decimal_reads_back(pr_number as nat);
    let name = frozen_name(pr_number);
    let line = name + "\tok\t"@ + commit_id;
    assert forall|i: int| 0 <= i < name.len() implies name[i] != '\t' by {
        let p = FROZEN_BOOKMARK_PREFIX@.len();
        if i >= p {
            assert(name[i] == text::decimal(pr_number as nat)[i - p]);
            assert(text::is_digit(text::decimal(pr_number as nat)[i - p]));
        }
    }
    text::lemma_until_at(line, '\t', name.len() as int);
    let rest = line.skip(name.len() as int + 1);
    assert(line.take(name.len() as int) =~= name);
    assert(rest =~= "ok\t"@ + commit_id) by {
        reveal_strlit("ok\t");
    }
    reveal_strlit("ok\t");
    text::lemma_until_at(rest, '\t', 2);
    assert(rest.take(2) =~= "ok"@);
    let last = rest.skip(3);
    assert(last =~= commit_id);
    text::lemma_until_at(last, '\t', last.len() as int);
    reveal_with_fuel(text::split, 4);
    assert(text::split(line, '\t') =~= seq![name, "ok"@, commit_id]);
    assert(name.take(FROZEN_BOOKMARK_PREFIX@.len() as int) =~= FROZEN_BOOKMARK_PREFIX@);
    assert(name.skip(FROZEN_BOOKMARK_PREFIX@.len() as int) =~= text::decimal(pr_number as nat));
    assert("ok"@.len() != "conflicted"@.len());
}

// ---------------------------------------------------------------------------
// Ancestry
// ---------------------------------------------------------------------------

pub open spec fn ancestor_args(ancestor: Seq<char>, descendant: Seq<char>) -> Seq<Seq<char>> {
    seq!["merge-base"@, "--is-ancestor"@, ancestor, descendant]
}

pub open spec fn success_of(reply: Reply) -> Result<bool, Seq<CauseView>> {
    match reply {
        Ok(output) => Ok(output.success),
        Err(e) => Err(e),
    }
}

pub fn git_commit_is_ancestor<H: Host>(
    sh: &mut Shell<H>,
    ancestor: &str,
    descendant: &str,
) -> (r: Result<bool, Error>)
    ensures
        record::called(old(sh).log(), final(sh).log(), "git"@, ancestor_args(ancestor@, descendant@)),
        error::res_of(r) == success_of(record::last_reply(final(sh).log())),
{
    let args = words(&["merge-base", "--is-ancestor", ancestor, descendant]);
    assert(args.deep_view() =~= ancestor_args(ancestor@, descendant@));
    match git_run(sh, &args) {
        Ok(output) => Ok(output.success),
        Err(error) => Err(error),
    }
}

pub open spec fn listed_args(revset: Seq<char>) -> Seq<Seq<char>> {
    seq!["log"@, "--no-graph"@, "-r"@, revset, "-T"@, COMMIT_ID_LINE_TEMPLATE@]
}

pub open spec fn listed_commits(revset: Seq<char>, reply: Reply) -> Result<
    Seq<Seq<char>>,
    Seq<CauseView>,
> {
    match output::checked("jj"@, listed_args(revset), reply) {
        Err(e) => Err(e),
        Ok(output) => Ok(text::filled_lines(output.stdout)),
    }
}

/// The commits that a revset selects.
pub fn list_commit_ids<H: Host>(sh: &mut Shell<H>, revset: &str) -> (r: Result<Vec<String>, Error>)
    ensures
        record::called(old(sh).log(), final(sh).log(), "jj"@, listed_args(revset@)),
        error::res(r) == listed_commits(revset@, record::last_reply(final(sh).log())),
{
    let args = words(&["log", "--no-graph", "-r", revset, "-T", COMMIT_ID_LINE_TEMPLATE]);
    assert(args.deep_view() =~= listed_args(revset@));
    match jj_checked(sh, &args) {
        Err(error) => Err(error),
        Ok(output) => Ok(text_filled_lines(&output.stdout)),
    }
}

pub open spec fn present_terms(commits: Seq<Seq<char>>) -> Seq<Seq<char>> {
    commits.map_values(|c: Seq<char>| "present("@ + c + ")"@)
}

/// The revset of the frozen commits that lie nearest below `head`.
pub open spec fn nearest_revset(commits: Seq<Seq<char>>, head: Seq<char>) -> Seq<char> {
    "heads(("@ + text::join(present_terms(commits), " | "@) + ") & ::"@ + head + " & ~"@ + head + ")"@
}

/// The frozen commits that lie nearest below `head`: more than one if the frozen graph branches there,
/// none at the bottom. Going by ancestry, not by parents, bridges the inner commits of a pull request
/// with several.
pub fn nearest_frozen_ancestors<H: Host>(
    sh: &mut Shell<H>,
    frozen_commit_ids: &Vec<String>,
    head: &str,
) -> (r: Result<Vec<String>, Error>)
    ensures
        record::called(
            old(sh).log(),
            final(sh).log(),
            "jj"@,
            listed_args(nearest_revset(frozen_commit_ids.deep_view(), head@)),
        ),
        error::res(r) == listed_commits(
            nearest_revset(frozen_commit_ids.deep_view(), head@),
            record::last_reply(final(sh).log()),
        ),
{
    let mut terms: Vec<String> = Vec::new();
    let mut i: usize = 0;
    while i < frozen_commit_ids.len()
        invariant
            i <= frozen_commit_ids@.len(),
            terms@.len() == i,
            forall|k: int|
                0 <= k < i ==> (#[trigger] terms@[k])@ == "present("@ + frozen_commit_ids@[k]@
                    + ")"@,
        decreases frozen_commit_ids@.len() - i,
    {
        terms.push(cat3("present(", &frozen_commit_ids[i], ")"));
        i = i + 1;
    }
    assert(terms.deep_view() =~= present_terms(frozen_commit_ids.deep_view()));
    let revset = cat7("heads((", &join_text(&terms, " | "), ") & ::", head, " & ~", head, ")");
    list_commit_ids(sh, &revset)
}

// ---------------------------------------------------------------------------
// Single commands on bookmarks
// ---------------------------------------------------------------------------

/// The record from `before` to `after` holds one jj command that must succeed; in a dry run it is
/// only shown.
pub open spec fn jj_step(
    before: Seq<Event>,
    after: Seq<Event>,
    args: Seq<Seq<char>>,
    dry_run: bool,
    r: Result<(), Seq<CauseView>>,
) -> bool {
    if dry_run {
        &&& after == before.push(Event::Said(LineView::Info("- "@ + output::shown("jj"@, args))))
        &&& r == Ok::<(), Seq<CauseView>>(())
    } else {
        &&& record::called(before, after, "jj"@, args)
        &&& r == match output::checked("jj"@, args, record::last_reply(after)) {
            Ok(output) => Ok(()),
            Err(e) => Err(e),
        }
    }
}

pub fn run_jj_step<H: Host>(sh: &mut Shell<H>, args: &Vec<String>, diagnostics: Diagnostics) -> (r:
    Result<(), Error>)
    ensures
        record::extends(old(sh).log(), final(sh).log()),
        jj_step(
            old(sh).log(),
            final(sh).log(),
            args.deep_view(),
            diagnostics.dry_run,
            error::res_of(r),
        ),
{
    if diagnostics.dry_run {
        diagnostics.plan_line(sh, &cat("- ", &display_command("jj", args)));
        assert(sh.log() =~= old(sh).log().push(
            Event::Said(LineView::Info("- "@ + output::shown("jj"@, args.deep_view()))),
        ));
        return Ok(());
    }
    match jj_checked(sh, args) {
        Ok(_) => Ok(()),
        Err(error) => Err(error),
    }
}

pub open spec fn follow_args(remote: Seq<char>, branch: Seq<char>) -> Seq<Seq<char>> {
    seq!["bookmark"@, "track"@, "--remote"@, remote, branch]
}

pub fn track_remote_bookmark<H: Host>(
    sh: &mut Shell<H>,
    config: &AppConfig,
    branch: &str,
    diagnostics: Diagnostics,
) -> (r: Result<(), Error>)
    ensures
        record::extends(old(sh).log(), final(sh).log()),
        jj_step(
            old(sh).log(),
            final(sh).log(),
            follow_args(config@.remote, branch@),
            diagnostics.dry_run,
            error::res_of(r),
        ),
{
    let args = words(&["bookmark", "track", "--remote", &config.remote, branch]);
    assert(args.deep_view() =~= follow_args(config@.remote, branch@));
    run_jj_step(sh, &args, diagnostics)
}

pub open spec fn delete_args(bookmark: Seq<char>) -> Seq<Seq<char>> {
    seq!["bookmark"@, "delete"@, bookmark]
}

pub fn delete_bookmark<H: Host>(sh: &mut Shell<H>, bookmark: &str, diagnostics: Diagnostics) -> (r:
    Result<(), Error>)
    ensures
        record::extends(old(sh).log(), final(sh).log()),
        jj_step(
            old(sh).log(),
            final(sh).log(),
            delete_args(bookmark@),
            diagnostics.dry_run,
            error::res_of(r),
        ),
{
    let args = words(&["bookmark", "delete", bookmark]);
    assert(args.deep_view() =~= delete_args(bookmark@));
    run_jj_step(sh, &args, diagnostics)
}

pub open spec fn forget_args(branch: Seq<char>) -> Seq<Seq<char>> {
    seq!["bookmark"@, "forget"@, "--include-remotes"@, branch]
}

/// Forgets a bookmark and what is followed of it; a failure is ignored. A dry run does nothing.
pub fn forget_bookmark_tracking<H: Host>(
    sh: &mut Shell<H>,
    branch: &str,
    diagnostics: Diagnostics,
)
    ensures
        diagnostics.dry_run ==> final(sh).log() == old(sh).log(),
        !diagnostics.dry_run ==> record::called(
            old(sh).log(),
            final(sh).log(),
            "jj"@,
            forget_args(branch@),
        ),
{
    if diagnostics.dry_run {
        return;
    }
    let args = words(&["bookmark", "forget", "--include-remotes", branch]);
    assert(args.deep_view() =~= forget_args(branch@));
    let _ = jj_run(sh, &args);
}

pub open spec fn deletion_args(remote: Seq<char>, branches: Seq<Seq<char>>) -> Seq<Seq<char>>
    decreases branches.len(),
{
    if branches.len() == 0 {
        seq!["git"@, "push"@, "--remote"@, remote]
    } else {
        deletion_args(remote, branches.drop_last()).push("--bookmark"@).push(branches.last())
    }
}

fn deletion_words(remote: &str, branches: &Vec<String>) -> (r: Vec<String>)
    ensures
        r.deep_view() == deletion_args(remote@, branches.deep_view()),
{
    let mut args = words(&["git", "push", "--remote", remote]);
    assert(args.deep_view() =~= deletion_args(remote@, branches.deep_view().take(0)));
    let mut i: usize = 0;
    while i < branches.len()
        invariant
            i <= branches@.len(),
            args.deep_view() == deletion_args(remote@, branches.deep_view().take(i as int)),
        decreases branches@.len() - i,
    {
        let ghost before = args.deep_view();
        let ghost next = branches.deep_view().take(i + 1);
        assert(next.drop_last() =~= branches.deep_view().take(i as int));
        assert(next.last() == branches@[i as int]@);
        args.push("--bookmark".to_owned());
        args.push(branches[i].clone());
        assert(args.deep_view() =~= before.push("--bookmark"@).push(branches@[i as int]@));
        i = i + 1;
    }
    assert(branches.deep_view().take(i as int) =~= branches.deep_view());
    args
}

/// Pushes the deletion of these bookmarks in one go.
pub fn push_bookmark_deletions<H: Host>(
    sh: &mut Shell<H>,
    config: &AppConfig,
    branches: &Vec<String>,
) -> (r: Result<(), Error>)
    ensures
        record::called(
            old(sh).log(),
            final(sh).log(),
            "jj"@,
            deletion_args(config@.remote, branches.deep_view()),
        ),
        error::res_of(r) == match output::checked(
            "jj"@,
            deletion_args(config@.remote, branches.deep_view()),
            record::last_reply(final(sh).log()),
        ) {
            Ok(output) => Ok(()),
            Err(e) => Err(e),
        },
{
    let args = deletion_words(&config.remote, branches);
    match jj_checked(sh, &args) {
        Ok(_) => Ok(()),
        Err(error) => Err(error),
    }
}

pub open spec fn ref_args(rev: Seq<char>, template: Seq<char>) -> Seq<Seq<char>> {
    seq!["log"@, "--no-graph"@, "-r"@, rev, "-T"@, template]
}

pub open spec fn ref_commit_result(rev: Seq<char>, reply: Reply) -> Result<
    Seq<char>,
    Seq<CauseView>,
> {
    match output::required_output("jj"@, ref_args(rev, "commit_id"@), reply) {
        Ok(id) => Ok(id),
        Err(e) => Err(error::in_context("resolve jj revision `"@ + rev + "`"@, e)),
    }
}

pub fn jj_ref_commit_id<H: Host>(sh: &mut Shell<H>, rev: &str) -> (r: Result<String, Error>)
    ensures
        record::called(old(sh).log(), final(sh).log(), "jj"@, ref_args(rev@, "commit_id"@)),
        error::res(r) == ref_commit_result(rev@, record::last_reply(final(sh).log())),
{
    let args = words(&["log", "--no-graph", "-r", rev, "-T", "commit_id"]);
    assert(args.deep_view() =~= ref_args(rev@, "commit_id"@));
    proof {
        record::lemma_jj_runs_here();
    }
    match run_required(sh, "jj", &args) {
        Ok(id) => Ok(id),
        Err(error) => Err(error.context(&cat3("resolve jj revision `", rev, "`"))),
    }
}

pub fn jj_ref_change_id<H: Host>(sh: &mut Shell<H>, rev: &str) -> (r: Result<String, Error>)
    ensures
        record::called(old(sh).log(), final(sh).log(), "jj"@, ref_args(rev@, "change_id"@)),
        error::res(r) == match output::required_output(
            "jj"@,
            ref_args(rev@, "change_id"@),
            record::last_reply(final(sh).log()),
        ) {
            Ok(id) => Ok(id),
            Err(e) => Err(error::in_context("resolve change id for jj revision `"@ + rev@ + "`"@, e)),
        },
{
    let args = words(&["log", "--no-graph", "-r", rev, "-T", "change_id"]);
    assert(args.deep_view() =~= ref_args(rev@, "change_id"@));
    proof {
        record::lemma_jj_runs_here();
    }
    match run_required(sh, "jj", &args) {
        Ok(id) => Ok(id),
        Err(error) => Err(
            error.context(&cat3("resolve change id for jj revision `", rev, "`")),
        ),
    }
}

// ---------------------------------------------------------------------------
// Remote bookmarks
// ---------------------------------------------------------------------------

/// What one row of the list of remote bookmarks says; rows without remote say nothing.
pub open spec fn remote_row(line: Seq<char>) -> Result<
    Option<RemoteBookmarkView>,
    Seq<CauseView>,
> {
    let f = text::split(line, '\t');
    if f.len() != 5 {
        Err(
            error::plain(
                "parse remote bookmark row `"@ + line + "`: expected 5 tab-separated fields"@,
            ),
        )
    } else if text::is_blank(f[1]) {
        Ok(None)
    } else {
        Ok(
            Some(
                RemoteBookmarkView {
                    name: f[0],
                    remote: text::trim(f[1]),
                    is_tracked: f[2] == "tracked"@,
                    is_conflicted: f[3] == "conflicted"@,
                    commit_id: text::trim(f[4]),
                },
            ),
        )
    }
}

fn read_remote_row(line: &str) -> (r: Result<Option<RemoteBookmark>, Error>)
    ensures
        error::res(r) == remote_row(line@),
{
    let f = split_text(line, '\t');
    if f.len() != 5 {
        return Err(
            fail(
                &cat3(
                    "parse remote bookmark row `",
                    line,
                    "`: expected 5 tab-separated fields",
                ),
            ),
        );
    }
    let ghost v = f.deep_view();
    assert(v[0] == f@[0]@ && v[1] == f@[1]@ && v[2] == f@[2]@ && v[3] == f@[3]@ && v[4]
        == f@[4]@);
    let remote = trimmed(&f[1]);
    if remote.as_str().is_empty() {
        return Ok(None);
    }
    Ok(
        Some(
            RemoteBookmark {
                name: f[0].clone(),
                remote,
                is_tracked: same(&f[2], "tracked"),
                is_conflicted: same(&f[3], "conflicted"),
                commit_id: trimmed(&f[4]),
            },
        ),
    )
}

pub open spec fn remote_from_rows(rows: Seq<Seq<char>>) -> Result<
    Seq<RemoteBookmarkView>,
    Seq<CauseView>,
>
    decreases rows.len(),
{
    if rows.len() == 0 {
        Ok(seq![])
    } else {
        match remote_from_rows(rows.drop_last()) {
            Err(e) => Err(e),
            Ok(done) => if text::is_blank(rows.last()) {
                Ok(done)
            } else {
                match remote_row(rows.last()) {
                    Err(e) => Err(e),
                    Ok(None) => Ok(done),
                    Ok(Some(item)) => Ok(done.push(item)),
                }
            },
        }
    }
}

proof fn lemma_remote_rows_stop(rows: Seq<Seq<char>>, i: int, e: Seq<CauseView>)
    requires
        0 <= i < rows.len(),
        remote_from_rows(rows.take(i + 1)) == Err::<Seq<RemoteBookmarkView>, _>(e),
    ensures
        remote_from_rows(rows) == Err::<Seq<RemoteBookmarkView>, _>(e),
    decreases rows.len() - i,
{
    if i + 1 == rows.len() {
        assert(rows.take(i + 1) =~= rows);
    } else {
        assert(rows.take(i + 2).drop_last() =~= rows.take(i + 1));
        lemma_remote_rows_stop(rows, i + 1, e);
    }
}

fn read_remote_rows(rows: &Vec<String>) -> (r: Result<Vec<RemoteBookmark>, Error>)
    ensures
        error::res(r) == remote_from_rows(rows.deep_view()),
{
    let mut out: Vec<RemoteBookmark> = Vec::new();
    let mut i: usize = 0;
    let ghost all = rows.deep_view();
    assert(out.deep_view() =~= seq![]);
    assert(remote_from_rows(all.take(0)) == Ok::<_, Seq<CauseView>>(out.deep_view()));
    while i < rows.len()
        invariant
            i <= rows@.len(),
            all == rows.deep_view(),
            remote_from_rows(all.take(i as int)) == Ok::<_, Seq<CauseView>>(out.deep_view()),
        decreases rows@.len() - i,
    {
        let ghost next = all.take(i + 1);
        let ghost before = out.deep_view();
        assert(next.drop_last() =~= all.take(i as int));
        assert(next.last() == rows@[i as int]@);
        if !blank(&rows[i]) {
            match read_remote_row(&rows[i]) {
                Err(error) => {
                    proof {
                        lemma_remote_rows_stop(all, i as int, error@);
                    }
                    return Err(error);
                },
                Ok(None) => {},
                Ok(Some(item)) => {
                    out.push(item);
                    assert(out.deep_view() =~= before.push(item@));
                },
            }
        }
        i = i + 1;
    }
    assert(all.take(i as int) =~= all);
    Ok(out)
}

pub open spec fn remote_list_args() -> Seq<Seq<char>> {
    seq!["bookmark"@, "list"@, "--all-remotes"@, "-T"@, REMOTE_BOOKMARK_TEMPLATE@]
}

pub open spec fn remote_list_result(reply: Reply) -> Result<
    Seq<RemoteBookmarkView>,
    Seq<CauseView>,
> {
    match output::checked("jj"@, remote_list_args(), reply) {
        Err(e) => Err(e),
        Ok(output) => remote_from_rows(text::lines(output.stdout)),
    }
}

pub fn remote_bookmarks<H: Host>(sh: &mut Shell<H>) -> (r: Result<Vec<RemoteBookmark>, Error>)
    ensures
        record::called(old(sh).log(), final(sh).log(), "jj"@, remote_list_args()),
        error::res(r) == remote_list_result(record::last_reply(final(sh).log())),
{
    let args = words(&["bookmark", "list", "--all-remotes", "-T", REMOTE_BOOKMARK_TEMPLATE]);
    assert(args.deep_view() =~= remote_list_args());
    match jj_checked(sh, &args) {
        Err(error) => Err(error),
        Ok(output) => read_remote_rows(&text_lines(&output.stdout)),
    }
}

pub open spec fn status_args(branch: Seq<char>) -> Seq<Seq<char>> {
    seq!["bookmark"@, "list"@, "--all-remotes"@, branch, "-T"@, BOOKMARK_STATUS_TEMPLATE@]
}

/// What the first well-formed row of this remote says.
pub open spec fn status_in_rows(rows: Seq<Seq<char>>, remote: Seq<char>) -> Option<
    RemoteBookmarkStatusView,
>
    decreases rows.len(),
{
    if rows.len() == 0 {
        None
    } else {
        let f = text::split(rows[0], '\t');
        if !text::is_blank(rows[0]) && f.len() == 3 && f[0] == remote {
            Some(
                RemoteBookmarkStatusView {
                    is_tracked: f[1] == "tracked"@,
                    is_conflicted: f[2] == "conflicted"@,
                },
            )
        } else {
            status_in_rows(rows.drop_first(), remote)
        }
    }
}

pub open spec fn status_result(remote: Seq<char>, branch: Seq<char>, reply: Reply) -> Result<
    RemoteBookmarkStatusView,
    Seq<CauseView>,
> {
    match output::checked("jj"@, status_args(branch), reply) {
        Err(e) => Err(e),
        Ok(output) => match status_in_rows(text::lines(output.stdout), remote) {
            Some(status) => Ok(status),
            None => Err(
                error::plain(
                    "remote bookmark `"@ + branch + "@"@ + remote
                        + "` is missing from jj; run `jj git fetch --remote "@ + remote
                        + "` before submitting"@,
                ),
            ),
        },
    }
}

pub fn remote_bookmark_status<H: Host>(sh: &mut Shell<H>, config: &AppConfig, branch: &str) -> (r:
    Result<RemoteBookmarkStatus, Error>)
    ensures
        record::called(old(sh).log(), final(sh).log(), "jj"@, status_args(branch@)),
        error::res(r) == status_result(config@.remote, branch@, record::last_reply(final(sh).log())),
{
    let args = words(
        &["bookmark", "list", "--all-remotes", branch, "-T", BOOKMARK_STATUS_TEMPLATE],
    );
    assert(args.deep_view() =~= status_args(branch@));
    let output = match jj_checked(sh, &args) {
        Ok(output) => output,
        Err(error) => return Err(error),
    };
    let rows = text_lines(&output.stdout);
    let ghost all = rows.deep_view();
    let mut i: usize = 0;
    assert(all.skip(0) =~= all);
    while i < rows.len()
        invariant
            i <= rows@.len(),
            all == rows.deep_view(),
            all == text::lines(output.stdout@),
            output::checked("jj"@, status_args(branch@), record::last_reply(sh.log())) == Ok::<
                _,
                Seq<CauseView>,
            >(output@),
            record::called(old(sh).log(), sh.log(), "jj"@, status_args(branch@)),
            status_in_rows(all, config@.remote) == status_in_rows(
                all.skip(i as int),
                config@.remote,
            ),
        decreases rows@.len() - i,
    {
        assert(all.skip(i as int)[0] == rows@[i as int]@);
        assert(all.skip(i as int).drop_first() =~= all.skip(i + 1));
        if !blank(&rows[i]) {
            let f = split_text(&rows[i], '\t');
            if f.len() == 3 {
                let ghost v = f.deep_view();
                assert(v[0] == f@[0]@ && v[1] == f@[1]@ && v[2] == f@[2]@);
                if same(&f[0], &config.remote) {
                    return Ok(
                        RemoteBookmarkStatus {
                            is_tracked: same(&f[1], "tracked"),
                            is_conflicted: same(&f[2], "conflicted"),
                        },
                    );
                }
            }
        }
        i = i + 1;
    }
    Err(
        fail(
            &cat7(
                "remote bookmark `",
                branch,
                "@",
                &config.remote,
                "` is missing from jj; run `jj git fetch --remote ",
                &config.remote,
                "` before submitting",
            ),
        ),
    )
}

// ---------------------------------------------------------------------------
// Local bookmarks
// ---------------------------------------------------------------------------

/// The trimmed field of a row, blank where the row has no such field.
pub open spec fn field_at(fields: Seq<Seq<char>>, i: int) -> Seq<char> {
    if i < fields.len() {
        text::trim(fields[i])
    } else {
        seq![]
    }
}

fn read_field(fields: &Vec<String>, i: usize) -> (r: String)
    ensures
        r@ == field_at(fields.deep_view(), i as int),
{
    if i < fields.len() {
        trimmed(&fields[i])
    } else {
        let none = String::new();
        assert(none@ =~= seq![]);
        none
    }
}

/// The directory that the branches of stacks share.
pub open spec fn stack_dir(config: AppConfigView) -> Seq<char> {
    text::trim_end_char(config.branch_prefix, '/') + "/"@
}

/// Whether a row names a local bookmark below the configured prefix.
pub open spec fn is_stack_row(line: Seq<char>, config: AppConfigView) -> bool {
    let f = text::split(line, '\t');
    field_at(f, 1).len() == 0 && text::starts_with(field_at(f, 0), stack_dir(config))
}

pub open spec fn is_resolvable_target(target: Seq<char>) -> bool {
    target.len() > 0 && !text::starts_with(target, "<Error:"@)
}

pub fn is_resolvable_bookmark_target(target: &str) -> (r: bool)
    ensures
        r == is_resolvable_target(target@),
{
    !target.is_empty() && !text_starts_with(target, "<Error:")
}

/// Whether a row names a local bookmark that is conflicted and lies below the configured prefix.
pub open spec fn is_conflicted_stack_row(line: Seq<char>, config: AppConfigView) -> bool {
    is_stack_row(line, config) && field_at(text::split(line, '\t'), 2) == "conflicted"@
}

/// Whether a row names a local bookmark with a usable target.
pub open spec fn is_usable_row(line: Seq<char>) -> bool {
    let f = text::split(line, '\t');
    field_at(f, 1).len() == 0 && field_at(f, 2) != "conflicted"@ && is_resolvable_target(
        field_at(f, 3),
    )
}

/// The names in the rows that are wanted.
pub open spec fn names_in(rows: Seq<Seq<char>>, wanted: spec_fn(Seq<char>) -> bool) -> Seq<
    Seq<char>,
>
    decreases rows.len(),
{
    if rows.len() == 0 {
        seq![]
    } else {
        let rest = names_in(rows.drop_last(), wanted);
        if wanted(rows.last()) {
            rest.push(field_at(text::split(rows.last(), '\t'), 0))
        } else {
            rest
        }
    }
}

fn stack_names(rows: &Vec<String>, config: &AppConfig, conflicted: bool) -> (r: Vec<String>)
    ensures
        !conflicted ==> r.deep_view() == names_in(
            rows.deep_view(),
            |line: Seq<char>| is_stack_row(line, config@),
        ),
        conflicted ==> r.deep_view() == names_in(
            rows.deep_view(),
            |line: Seq<char>| is_conflicted_stack_row(line, config@),
        ),
{
    let dir = cat(&trimmed_end_char(&config.branch_prefix, '/'), "/");
    let ghost wanted = if conflicted {
        |line: Seq<char>| is_conflicted_stack_row(line, config@)
    } else {
        |line: Seq<char>| is_stack_row(line, config@)
    };
    let ghost all = rows.deep_view();
    let mut out: Vec<String> = Vec::new();
    let mut i: usize = 0;
    assert(out.deep_view() =~= names_in(all.take(0), wanted));
    while i < rows.len()
        invariant
            i <= rows@.len(),
            all == rows.deep_view(),
            dir@ == stack_dir(config@),
            wanted == if conflicted {
                |line: Seq<char>| is_conflicted_stack_row(line, config@)
            } else {
                |line: Seq<char>| is_stack_row(line, config@)
            },
            out.deep_view() == names_in(all.take(i as int), wanted),
        decreases rows@.len() - i,
    {
        let ghost next = all.take(i + 1);
        let ghost before = out.deep_view();
        assert(next.drop_last() =~= all.take(i as int));
        assert(next.last() == rows@[i as int]@);
        let f = split_text(&rows[i], '\t');
        let name = read_field(&f, 0);
        let remote = read_field(&f, 1);
        let state = read_field(&f, 2);
        if remote.as_str().is_empty() && text_starts_with(&name, &dir) && (!conflicted || same(
            &state,
            "conflicted",
        )) {
            out.push(name);
            assert(out.deep_view() =~= before.push(name@));
        }
        i = i + 1;
    }
    assert(all.take(i as int) =~= all);
    out
}

pub open spec fn local_list_args(template: Seq<char>) -> Seq<Seq<char>> {
    seq!["bookmark"@, "list"@, "-T"@, template]
}

/// The answer to a query for local bookmarks: the wanted names in order, each once.
pub open spec fn is_name_list(
    r: Result<Seq<Seq<char>>, Seq<CauseView>>,
    args: Seq<Seq<char>>,
    reply: Reply,
    wanted: spec_fn(Seq<char>) -> bool,
) -> bool {
    match output::checked("jj"@, args, reply) {
        Err(e) => r == Err::<Seq<Seq<char>>, _>(e),
        Ok(output) => match r {
            Ok(names) => text::is_sorted_set(names, names_in(text::lines(output.stdout), wanted)),
            Err(e) => false,
        },
    }
}

/// The answer to a query for the local bookmarks below the configured prefix.
pub open spec fn is_stack_name_list(
    r: Result<Seq<Seq<char>>, Seq<CauseView>>,
    args: Seq<Seq<char>>,
    reply: Reply,
    config: AppConfigView,
) -> bool {
    is_name_list(r, args, reply, |line: Seq<char>| is_stack_row(line, config))
}

pub open spec fn revision_list_args(commit: Seq<char>) -> Seq<Seq<char>> {
    seq!["bookmark"@, "list"@, "--revision"@, commit, "-T"@, LOCAL_BOOKMARK_TEMPLATE@]
}

/// The local bookmarks below the configured prefix that point at a change.
pub fn local_stack_bookmarks_for_change<H: Host>(
    sh: &mut Shell<H>,
    config: &AppConfig,
    change: &ResolvedChange,
) -> (r: Result<Vec<String>, Error>)
    ensures
        record::called(
            old(sh).log(),
            final(sh).log(),
            "jj"@,
            revision_list_args(change@.commit_id),
        ),
        is_stack_name_list(
            error::res(r),
            revision_list_args(change@.commit_id),
            record::last_reply(final(sh).log()),
            config@,
        ),
{
    let args = words(
        &["bookmark", "list", "--revision", &change.commit_id, "-T", LOCAL_BOOKMARK_TEMPLATE],
    );
    assert(args.deep_view() =~= revision_list_args(change@.commit_id));
    match jj_checked(sh, &args) {
        Err(error) => Err(error),
        Ok(output) => Ok(sorted_set(&stack_names(&text_lines(&output.stdout), config, false))),
    }
}

/// The local bookmarks below the configured prefix, wherever they point.
pub fn local_stack_bookmarks<H: Host>(sh: &mut Shell<H>, config: &AppConfig) -> (r: Result<
    Vec<String>,
    Error,
>)
    ensures
        record::called(
            old(sh).log(),
            final(sh).log(),
            "jj"@,
            local_list_args(LOCAL_BOOKMARK_TEMPLATE@),
        ),
        is_name_list(
            error::res(r),
            local_list_args(LOCAL_BOOKMARK_TEMPLATE@),
            record::last_reply(final(sh).log()),
            |line: Seq<char>| is_stack_row(line, config@),
        ),
{
    let args = words(&["bookmark", "list", "-T", LOCAL_BOOKMARK_TEMPLATE]);
    assert(args.deep_view() =~= local_list_args(LOCAL_BOOKMARK_TEMPLATE@));
    match jj_checked(sh, &args) {
        Err(error) => Err(error),
        Ok(output) => Ok(sorted_set(&stack_names(&text_lines(&output.stdout), config, false))),
    }
}

/// The local bookmarks below the configured prefix that are conflicted, so that those whose change
/// has landed can be pruned.
pub fn conflicted_local_stack_bookmarks<H: Host>(sh: &mut Shell<H>, config: &AppConfig) -> (r:
    Result<Vec<String>, Error>)
    ensures
        record::called(
            old(sh).log(),
            final(sh).log(),
            "jj"@,
            local_list_args(LOCAL_BOOKMARK_STATE_TEMPLATE@),
        ),
        is_name_list(
            error::res(r),
            local_list_args(LOCAL_BOOKMARK_STATE_TEMPLATE@),
            record::last_reply(final(sh).log()),
            |line: Seq<char>| is_conflicted_stack_row(line, config@),
        ),
{
    let args = words(&["bookmark", "list", "-T", LOCAL_BOOKMARK_STATE_TEMPLATE]);
    assert(args.deep_view() =~= local_list_args(LOCAL_BOOKMARK_STATE_TEMPLATE@));
    match jj_checked(sh, &args) {
        Err(error) => Err(error),
        Ok(output) => Ok(sorted_set(&stack_names(&text_lines(&output.stdout), config, true))),
    }
}

fn usable_names(rows: &Vec<String>) -> (r: Vec<String>)
    ensures
        r.deep_view() == names_in(rows.deep_view(), |line: Seq<char>| is_usable_row(line)),
{
    let ghost wanted = |line: Seq<char>| is_usable_row(line);
    let ghost all = rows.deep_view();
    let mut out: Vec<String> = Vec::new();
    let mut i: usize = 0;
    assert(out.deep_view() =~= names_in(all.take(0), wanted));
    while i < rows.len()
        invariant
            i <= rows@.len(),
            all == rows.deep_view(),
            wanted == (|line: Seq<char>| is_usable_row(line)),
            out.deep_view() == names_in(all.take(i as int), wanted),
        decreases rows@.len() - i,
    {
        let ghost next = all.take(i + 1);
        let ghost before = out.deep_view();
        assert(next.drop_last() =~= all.take(i as int));
        assert(next.last() == rows@[i as int]@);
        let f = split_text(&rows[i], '\t');
        let name = read_field(&f, 0);
        let remote = read_field(&f, 1);
        let state = read_field(&f, 2);
        let target = read_field(&f, 3);
        if remote.as_str().is_empty() && !same(&state, "conflicted")
            && is_resolvable_bookmark_target(&target) {
            out.push(name);
            assert(out.deep_view() =~= before.push(name@));
        }
        i = i + 1;
    }
    assert(all.take(i as int) =~= all);
    out
}

/// The local bookmarks with a usable target, whatever their prefix.
pub fn local_bookmark_names<H: Host>(sh: &mut Shell<H>) -> (r: Result<Vec<String>, Error>)
    ensures
        record::called(
            old(sh).log(),
            final(sh).log(),
            "jj"@,
            local_list_args(LOCAL_BOOKMARK_STATE_TEMPLATE@),
        ),
        is_name_list(
            error::res(r),
            local_list_args(LOCAL_BOOKMARK_STATE_TEMPLATE@),
            record::last_reply(final(sh).log()),
            |line: Seq<char>| is_usable_row(line),
        ),
{
    let args = words(&["bookmark", "list", "-T", LOCAL_BOOKMARK_STATE_TEMPLATE]);
    assert(args.deep_view() =~= local_list_args(LOCAL_BOOKMARK_STATE_TEMPLATE@));
    match jj_checked(sh, &args) {
        Err(error) => Err(error),
        Ok(output) => Ok(sorted_set(&usable_names(&text_lines(&output.stdout)))),
    }
}

// ---------------------------------------------------------------------------
// Remote bookmarks that keep a change immutable
// ---------------------------------------------------------------------------

/// A bookmark of the remote that may stand on a revision without being followed.
pub open spec fn is_candidate(
    bookmark: RemoteBookmarkView,
    remote: Seq<char>,
    followed: Seq<char>,
) -> bool {
    bookmark.remote == remote && !bookmark.is_tracked && !bookmark.is_conflicted && bookmark.name
        != followed && bookmark.commit_id.len() > 0
}

pub open spec fn candidates(
    all: Seq<RemoteBookmarkView>,
    remote: Seq<char>,
    followed: Seq<char>,
) -> Seq<RemoteBookmarkView>
    decreases all.len(),
{
    if all.len() == 0 {
        seq![]
    } else {
        let rest = candidates(all.drop_last(), remote, followed);
        if is_candidate(all.last(), remote, followed) {
            rest.push(all.last())
        } else {
            rest
        }
    }
}

fn keep_candidates(all: &Vec<RemoteBookmark>, remote: &str, followed: &str) -> (r: Vec<
    RemoteBookmark,
>)
    ensures
        r.deep_view() == candidates(all.deep_view(), remote@, followed@),
{
    let ghost view = all.deep_view();
    let mut out: Vec<RemoteBookmark> = Vec::new();
    assert(out.deep_view() =~= candidates(view.take(0), remote@, followed@));
    let mut i: usize = 0;
    while i < all.len()
        invariant
            i <= all@.len(),
            view == all.deep_view(),
            out.deep_view() == candidates(view.take(i as int), remote@, followed@),
        decreases all@.len() - i,
    {
        let ghost before = out.deep_view();
        assert(view.take(i + 1).drop_last() =~= view.take(i as int));
        assert(view.take(i + 1).last() == all@[i as int]@);
        let bookmark = &all[i];
        if same(&bookmark.remote, remote) && !bookmark.is_tracked && !bookmark.is_conflicted
            && !same(&bookmark.name, followed) && !bookmark.commit_id.as_str().is_empty() {
            out.push(bookmark.copy());
            assert(out.deep_view() =~= before.push(all@[i as int]@));
        }
        i = i + 1;
    }
    assert(view.take(i as int) =~= view);
    out
}

/// A list in the order of its names with one bookmark more, behind those of the same name.
pub open spec fn name_inserted(
    sorted: Seq<RemoteBookmarkView>,
    item: RemoteBookmarkView,
) -> Seq<RemoteBookmarkView>
    decreases sorted.len(),
{
    if sorted.len() == 0 || !text::comes_before(item.name, sorted.last().name) {
        sorted.push(item)
    } else {
        name_inserted(sorted.drop_last(), item).push(sorted.last())
    }
}

proof fn lemma_name_inserted_at(
    sorted: Seq<RemoteBookmarkView>,
    item: RemoteBookmarkView,
    at: int,
)
    requires
        0 <= at <= sorted.len(),
        at > 0 ==> !text::comes_before(item.name, sorted[at - 1].name),
        forall|k: int|
            at <= k < sorted.len() ==> text::comes_before(item.name, (#[trigger] sorted[k]).name),
    ensures
        name_inserted(sorted, item) == sorted.insert(at, item),
    decreases sorted.len(),
{
    if at == sorted.len() {
        assert(sorted.insert(at, item) =~= sorted.push(item));
    } else {
        assert(text::comes_before(item.name, sorted.last().name));
        lemma_name_inserted_at(sorted.drop_last(), item, at);
        assert(sorted.insert(at, item) =~= sorted.drop_last().insert(at, item).push(sorted.last()));
    }
}

fn insert_by_name(sorted: &mut Vec<RemoteBookmark>, item: RemoteBookmark)
    ensures
        final(sorted).deep_view() == name_inserted(old(sorted).deep_view(), item@),
{
    let ghost before = sorted.deep_view();
    let mut at: usize = sorted.len();
    while at > 0 && text_before(&item.name, &sorted[at - 1].name)
        invariant
            at <= sorted@.len(),
            before == sorted.deep_view(),
            forall|k: int|
                at <= k < before.len() ==> text::comes_before(item@.name, (#[trigger] before[k]).name),
        decreases at,
    {
        at = at - 1;
        assert(before[at as int] == sorted@[at as int]@);
    }
    proof {
        if at > 0 {
            assert(before[at - 1] == sorted@[at - 1]@);
        }
        lemma_name_inserted_at(before, item@, at as int);
    }
    sorted.insert(at, item);
    assert(sorted.deep_view() =~= before.insert(at as int, item@));
}

/// The record from `before` to `after` holds the test of each bookmark whether it stands on `rev`;
/// those that do are put in the order of their names.
pub open spec fn blockers_tested(
    before: Seq<Event>,
    after: Seq<Event>,
    rev: Seq<char>,
    left: Seq<RemoteBookmarkView>,
    found: Seq<RemoteBookmarkView>,
    r: Result<Seq<RemoteBookmarkView>, Seq<CauseView>>,
) -> bool
    decreases left.len(),
{
    if left.len() == 0 {
        after == before && r == Ok::<_, Seq<CauseView>>(found)
    } else {
        let n = before.len() as int;
        &&& record::extends(before, after)
        &&& after.len() > n
        &&& record::is_call(after[n], "git"@, ancestor_args(rev, left[0].commit_id))
        &&& match success_of(record::reply_of(after[n])) {
            Err(e) => record::stopped(after.take(n + 1), after, e, r),
            Ok(stands) => blockers_tested(
                after.take(n + 1),
                after,
                rev,
                left.drop_first(),
                if stands {
                    name_inserted(found, left[0])
                } else {
                    found
                },
                r,
            ),
        }
    }
}

fn test_blockers<H: Host>(
    sh: &mut Shell<H>,
    rev: &str,
    left: &Vec<RemoteBookmark>,
    i: usize,
    found: Vec<RemoteBookmark>,
) -> (r: Result<Vec<RemoteBookmark>, Error>)
    requires
        i <= left@.len(),
    ensures
        record::extends(old(sh).log(), final(sh).log()),
        blockers_tested(
            old(sh).log(),
            final(sh).log(),
            rev@,
            left.deep_view().skip(i as int),
            found.deep_view(),
            error::res(r),
        ),
    decreases left@.len() - i,
{
    let ghost view = left.deep_view().skip(i as int);
    if i == left.len() {
        return Ok(found);
    }
    let ghost n = sh.log().len() as int;
    assert(view[0] == left@[i as int]@);
    assert(view.drop_first() =~= left.deep_view().skip(i + 1));
    let stands = git_commit_is_ancestor(sh, rev, &left[i].commit_id);
    let ghost mid = sh.log();
    assert(mid.take(n + 1) =~= mid);
    match stands {
        Err(error) => Err(error),
        Ok(stands) => {
            let mut found = found;
            if stands {
                insert_by_name(&mut found, left[i].copy());
            }
            let r = test_blockers(sh, rev, left, i + 1, found);
            assert(sh.log().take(n + 1) =~= mid);
            assert(sh.log()[n] == sh.log().take(n + 1)[n]);
            r
        },
    }
}

/// The record from `before` to `after` holds the search for the unfollowed bookmarks of the remote
/// that stand on a revision.
pub open spec fn blockers_searched(
    before: Seq<Event>,
    after: Seq<Event>,
    remote: Seq<char>,
    rev: Seq<char>,
    followed: Seq<char>,
    r: Result<Seq<RemoteBookmarkView>, Seq<CauseView>>,
) -> bool {
    let n = before.len() as int;
    &&& record::extends(before, after)
    &&& after.len() > n
    &&& record::is_call(after[n], "jj"@, remote_list_args())
    &&& match remote_list_result(record::reply_of(after[n])) {
        Err(e) => record::stopped(after.take(n + 1), after, e, r),
        Ok(all) => blockers_tested(
            after.take(n + 1),
            after,
            rev,
            candidates(all, remote, followed),
            seq![],
            r,
        ),
    }
}

pub fn untracked_remote_bookmark_blockers<H: Host>(
    sh: &mut Shell<H>,
    config: &AppConfig,
    rev: &str,
    already_tracked_branch: &str,
) -> (r: Result<Vec<RemoteBookmark>, Error>)
    ensures
        record::extends(old(sh).log(), final(sh).log()),
        blockers_searched(
            old(sh).log(),
            final(sh).log(),
            config@.remote,
            rev@,
            already_tracked_branch@,
            error::res(r),
        ),
{
    let ghost n = sh.log().len() as int;
    let listed = remote_bookmarks(sh);
    let ghost mid = sh.log();
    assert(mid.take(n + 1) =~= mid);
    match listed {
        Err(error) => Err(error),
        Ok(all) => {
            let left = keep_candidates(&all, &config.remote, already_tracked_branch);
            let found: Vec<RemoteBookmark> = Vec::new();
            assert(found.deep_view() =~= Seq::<RemoteBookmarkView>::empty());
            assert(left.deep_view().skip(0) =~= left.deep_view());
            let r = test_blockers(sh, rev, &left, 0, found);
            assert(sh.log().take(n + 1) =~= mid);
            assert(sh.log()[n] == sh.log().take(n + 1)[n]);
            r
        },
    }
}

pub open spec fn blocker_warning(blocker: RemoteBookmarkView) -> Seq<char> {
    "remote bookmark `"@ + blocker.name + "@"@ + blocker.remote
        + "` keeps the target immutable; tracking it before adoption"@
}

/// The record from `before` to `after` holds a warning and the command to follow each bookmark, up to
/// the first failure.
pub open spec fn blockers_followed(
    before: Seq<Event>,
    after: Seq<Event>,
    remote: Seq<char>,
    left: Seq<RemoteBookmarkView>,
    dry_run: bool,
    r: Result<(), Seq<CauseView>>,
) -> bool
    decreases left.len(),
{
    if left.len() == 0 {
        after == before && r == Ok::<(), Seq<CauseView>>(())
    } else {
        let n = before.len() as int;
        let warned = before.push(Event::Said(LineView::Warn(blocker_warning(left[0]))));
        let mid = after.take(n + 2);
        &&& record::extends(before, after)
        &&& after.len() >= n + 2
        &&& {
            ||| jj_step(warned, mid, follow_args(remote, left[0].name), dry_run, Ok(()))
                && blockers_followed(mid, after, remote, left.drop_first(), dry_run, r)
            ||| r is Err && after.len() == n + 2 && jj_step(
                warned,
                mid,
                follow_args(remote, left[0].name),
                dry_run,
                r,
            )
        }
    }
}

fn follow_blockers<H: Host>(
    sh: &mut Shell<H>,
    config: &AppConfig,
    left: &Vec<RemoteBookmark>,
    i: usize,
    diagnostics: Diagnostics,
) -> (r: Result<(), Error>)
    requires
        i <= left@.len(),
    ensures
        record::extends(old(sh).log(), final(sh).log()),
        blockers_followed(
            old(sh).log(),
            final(sh).log(),
            config@.remote,
            left.deep_view().skip(i as int),
            diagnostics.dry_run,
            error::res_of(r),
        ),
    decreases left@.len() - i,
{
    if i == left.len() {
        return Ok(());
    }
    let ghost start = sh.log();
    let ghost n = start.len() as int;
    let ghost view = left.deep_view().skip(i as int);
    assert(view[0] == left@[i as int]@);
    assert(view.drop_first() =~= left.deep_view().skip(i + 1));
    let warning = cat5(
        "remote bookmark `",
        &left[i].name,
        "@",
        &left[i].remote,
        "` keeps the target immutable; tracking it before adoption",
    );
    sh.say(Line::Warn(warning));
    let followed = track_remote_bookmark(sh, config, &left[i].name, diagnostics);
    let ghost mid = sh.log();
    assert(mid.take(n + 2) =~= mid);
    match followed {
        Err(error) => Err(error),
        Ok(_) => {
            let r = follow_blockers(sh, config, left, i + 1, diagnostics);
            assert(sh.log().take(n + 2) =~= mid);
            r
        },
    }
}

/// The record from `before` to `after` holds the search for blockers and the commands to follow them.
pub open spec fn blockers_cleared(
    before: Seq<Event>,
    after: Seq<Event>,
    remote: Seq<char>,
    rev: Seq<char>,
    followed: Seq<char>,
    dry_run: bool,
    r: Result<(), Seq<CauseView>>,
) -> bool {
    exists|mid: Seq<Event>, found: Result<Seq<RemoteBookmarkView>, Seq<CauseView>>|
        {
            &&& #[trigger] blockers_searched(before, mid, remote, rev, followed, found)
            &&& match found {
                Err(e) => record::stopped(mid, after, e, r),
                Ok(blockers) => blockers_followed(mid, after, remote, blockers, dry_run, r),
            }
        }
}

pub fn track_untracked_remote_bookmark_blockers<H: Host>(
    sh: &mut Shell<H>,
    config: &AppConfig,
    rev: &str,
    already_tracked_branch: &str,
    diagnostics: Diagnostics,
) -> (r: Result<(), Error>)
    ensures
        record::extends(old(sh).log(), final(sh).log()),
        blockers_cleared(
            old(sh).log(),
            final(sh).log(),
            config@.remote,
            rev@,
            already_tracked_branch@,
            diagnostics.dry_run,
            error::res_of(r),
        ),
{
    let searched = untracked_remote_bookmark_blockers(sh, config, rev, already_tracked_branch);
    let ghost found = error::res(searched);
    assert(blockers_searched(
        old(sh).log(),
        sh.log(),
        config@.remote,
        rev@,
        already_tracked_branch@,
        found,
    ));
    match searched {
        Err(error) => Err(error),
        Ok(blockers) => {
            assert(blockers.deep_view().skip(0) =~= blockers.deep_view());
            follow_blockers(sh, config, &blockers, 0, diagnostics)
        },
    }
}

// ---------------------------------------------------------------------------
// Frozen bookmarks of fetched pull requests
// ---------------------------------------------------------------------------

/// The frozen bookmark of a pull request, the last where there are several.
pub open spec fn frozen_for(list: Seq<FrozenBookmarkView>, number: u64) -> Option<
    FrozenBookmarkView,
>
    decreases list.len(),
{
    if list.len() == 0 {
        None
    } else if list.last().pr_number == number {
        Some(list.last())
    } else {
        frozen_for(list.drop_last(), number)
    }
}

fn find_frozen_for(list: &Vec<FrozenBookmark>, number: u64) -> (r: Option<usize>)
    ensures
        match r {
            Some(i) => i < list@.len() && frozen_for(list.deep_view(), number) == Some(
                list.deep_view()[i as int],
            ),
            None => frozen_for(list.deep_view(), number) is None,
        },
{
    let ghost view = list.deep_view();
    let mut n: usize = list.len();
    assert(view.take(n as int) =~= view);
    while n > 0
        invariant
            n <= list@.len(),
            view == list.deep_view(),
            frozen_for(view, number) == frozen_for(view.take(n as int), number),
        decreases n,
    {
        assert(view.take(n as int).last() == list@[n - 1]@);
        assert(view.take(n as int).drop_last() =~= view.take(n - 1));
        if list[n - 1].pr_number == number {
            return Some(n - 1);
        }
        n = n - 1;
    }
    None
}

pub open spec fn divergent_rewrite(bookmark: FrozenBookmarkView, pr: GhPrView) -> Seq<CauseView> {
    error::plain(
        "frozen bookmark `"@ + bookmark.name + "` points at "@ + bookmark.commit_id
            + ", which is not an ancestor of fetched "@ + pr::hash(pr.number) + " head "@
            + pr.head_ref_oid
            + "; refusing divergent collaborator rewrite. Delete or move the frozen bookmark manually after inspecting the rewrite."@,
    )
}

/// The record from `before` to `after` holds the test of each frozen bookmark that would move: it may
/// only move to a descendant.
pub open spec fn rewrites_tested(
    before: Seq<Event>,
    after: Seq<Event>,
    list: Seq<FrozenBookmarkView>,
    left: Seq<GhPrView>,
    r: Result<(), Seq<CauseView>>,
) -> bool
    decreases left.len(),
{
    if left.len() == 0 {
        after == before && r == Ok::<(), Seq<CauseView>>(())
    } else {
        let n = before.len() as int;
        let pr = left[0];
        let bookmark = frozen_for(list, pr.number);
        if bookmark is None || bookmark->0.commit_id == pr.head_ref_oid {
            rewrites_tested(before, after, list, left.drop_first(), r)
        } else {
            &&& record::extends(before, after)
            &&& after.len() > n
            &&& record::is_call(
                after[n],
                "git"@,
                ancestor_args(bookmark->0.commit_id, pr.head_ref_oid),
            )
            &&& match success_of(record::reply_of(after[n])) {
                Err(e) => record::stopped(after.take(n + 1), after, e, r),
                Ok(forward) => if !forward {
                    record::stopped(after.take(n + 1), after, divergent_rewrite(bookmark->0, pr), r)
                } else {
                    rewrites_tested(after.take(n + 1), after, list, left.drop_first(), r)
                },
            }
        }
    }
}

fn test_rewrites<H: Host>(
    sh: &mut Shell<H>,
    list: &Vec<FrozenBookmark>,
    prs: &Vec<GhPr>,
    i: usize,
) -> (r: Result<(), Error>)
    requires
        i <= prs@.len(),
    ensures
        record::extends(old(sh).log(), final(sh).log()),
        rewrites_tested(
            old(sh).log(),
            final(sh).log(),
            list.deep_view(),
            prs.deep_view().skip(i as int),
            error::res_of(r),
        ),
    decreases prs@.len() - i,
{
    if i == prs.len() {
        return Ok(());
    }
    let ghost n = sh.log().len() as int;
    let ghost view = prs.deep_view().skip(i as int);
    assert(view[0] == prs@[i as int]@);
    assert(view.drop_first() =~= prs.deep_view().skip(i + 1));
    let pr = &prs[i];
    let at = match find_frozen_for(list, pr.number) {
        None => return test_rewrites(sh, list, prs, i + 1),
        Some(at) => at,
    };
    let bookmark = &list[at];
    assert(list.deep_view()[at as int] == bookmark@);
    if same(&bookmark.commit_id, &pr.head_ref_oid) {
        return test_rewrites(sh, list, prs, i + 1);
    }
    let forward = git_commit_is_ancestor(sh, &bookmark.commit_id, &pr.head_ref_oid);
    let ghost mid = sh.log();
    assert(mid.take(n + 1) =~= mid);
    match forward {
        Err(error) => Err(error),
        Ok(false) => {
            let mut message = cat5(
                "frozen bookmark `",
                &bookmark.name,
                "` points at ",
                &bookmark.commit_id,
                ", which is not an ancestor of fetched ",
            );
            message.append(&hash_text(pr.number));
            message.append(" head ");
            message.append(&pr.head_ref_oid);
            message.append(
                "; refusing divergent collaborator rewrite. Delete or move the frozen bookmark manually after inspecting the rewrite.",
            );
            Err(fail(&message))
        },
        Ok(true) => {
            let r = test_rewrites(sh, list, prs, i + 1);
            assert(sh.log().take(n + 1) =~= mid);
            assert(sh.log()[n] == sh.log().take(n + 1)[n]);
            r
        },
    }
}

pub open spec fn set_frozen_args(pr: GhPrView) -> Seq<Seq<char>> {
    seq!["bookmark"@, "set"@, frozen_name(pr.number), "-r"@, pr.head_ref_oid]
}

/// The record from `before` to `after` holds the command that sets each frozen bookmark to the head of
/// its pull request, up to the first failure.
pub open spec fn frozen_set(
    before: Seq<Event>,
    after: Seq<Event>,
    left: Seq<GhPrView>,
    r: Result<(), Seq<CauseView>>,
) -> bool
    decreases left.len(),
{
    if left.len() == 0 {
        after == before && r == Ok::<(), Seq<CauseView>>(())
    } else {
        let n = before.len() as int;
        &&& record::extends(before, after)
        &&& after.len() > n
        &&& record::is_call(after[n], "jj"@, set_frozen_args(left[0]))
        &&& match output::checked("jj"@, set_frozen_args(left[0]), record::reply_of(after[n])) {
            Err(e) => record::stopped(after.take(n + 1), after, e, r),
            Ok(_) => frozen_set(after.take(n + 1), after, left.drop_first(), r),
        }
    }
}

fn set_frozen<H: Host>(sh: &mut Shell<H>, prs: &Vec<GhPr>, i: usize) -> (r: Result<(), Error>)
    requires
        i <= prs@.len(),
    ensures
        record::extends(old(sh).log(), final(sh).log()),
        frozen_set(
            old(sh).log(),
            final(sh).log(),
            prs.deep_view().skip(i as int),
            error::res_of(r),
        ),
    decreases prs@.len() - i,
{
    if i == prs.len() {
        return Ok(());
    }
    let ghost n = sh.log().len() as int;
    let ghost view = prs.deep_view().skip(i as int);
    assert(view[0] == prs@[i as int]@);
    assert(view.drop_first() =~= prs.deep_view().skip(i + 1));
    let name = frozen_bookmark_name(prs[i].number);
    let args = words(&["bookmark", "set", &name, "-r", &prs[i].head_ref_oid]);
    assert(args.deep_view() =~= set_frozen_args(view[0]));
    let done = jj_checked(sh, &args);
    let ghost mid = sh.log();
    assert(mid.take(n + 1) =~= mid);
    match done {
        Err(error) => Err(error),
        Ok(_) => {
            let r = set_frozen(sh, prs, i + 1);
            assert(sh.log().take(n + 1) =~= mid);
            assert(sh.log()[n] == sh.log().take(n + 1)[n]);
            r
        },
    }
}

pub open spec fn frozen_plan(prs: Seq<GhPrView>) -> Seq<Event>
    decreases prs.len(),
{
    if prs.len() == 0 {
        seq![]
    } else {
        frozen_plan(prs.drop_last()).push(
            Event::Said(
                LineView::Info(
                    "- set frozen bookmark "@ + frozen_name(prs.last().number) + " -> "@
                        + prs.last().head_ref_oid,
                ),
            ),
        )
    }
}

fn plan_frozen<H: Host>(sh: &mut Shell<H>, prs: &Vec<GhPr>)
    ensures
        record::extends(old(sh).log(), final(sh).log()),
        final(sh).log() == old(sh).log() + frozen_plan(prs.deep_view()),
{
    let ghost start = sh.log();
    let ghost view = prs.deep_view();
    let mut i: usize = 0;
    assert(view.take(0) =~= Seq::<GhPrView>::empty());
    assert(sh.log() =~= start + frozen_plan(view.take(0)));
    while i < prs.len()
        invariant
            i <= prs@.len(),
            view == prs.deep_view(),
            sh.log() == start + frozen_plan(view.take(i as int)),
        decreases prs@.len() - i,
    {
        let ghost before = sh.log();
        assert(view.take(i + 1).drop_last() =~= view.take(i as int));
        assert(view.take(i + 1).last() == prs@[i as int]@);
        let mut line = cat3("- set frozen bookmark ", &frozen_bookmark_name(prs[i].number), " -> ");
        line.append(&prs[i].head_ref_oid);
        sh.say(Line::Info(line));
        assert(sh.log() =~= start + frozen_plan(view.take(i + 1)));
        i = i + 1;
    }
    assert(view.take(i as int) =~= view);
}

/// The record from `before` to `after` holds how the frozen bookmarks of fetched pull requests are
/// moved: first every move is tested, then all are made. A dry run only says what it would set.
pub open spec fn frozen_updated(
    before: Seq<Event>,
    after: Seq<Event>,
    prs: Seq<GhPrView>,
    dry_run: bool,
    r: Result<(), Seq<CauseView>>,
) -> bool {
    if dry_run {
        after == before + frozen_plan(prs) && r == Ok::<(), Seq<CauseView>>(())
    } else {
        let n = before.len() as int;
        &&& record::extends(before, after)
        &&& after.len() > n
        &&& record::is_call(after[n], "jj"@, frozen_list_args())
        &&& match frozen_list_result(record::reply_of(after[n])) {
            Err(e) => record::stopped(after.take(n + 1), after, e, r),
            Ok(list) => frozen_moved(after.take(n + 1), after, list, prs, r),
        }
    }
}

pub open spec fn frozen_moved(
    before: Seq<Event>,
    after: Seq<Event>,
    list: Seq<FrozenBookmarkView>,
    prs: Seq<GhPrView>,
    r: Result<(), Seq<CauseView>>,
) -> bool {
    exists|mid: Seq<Event>, tested: Result<(), Seq<CauseView>>|
        {
            &&& #[trigger] rewrites_tested(before, mid, list, prs, tested)
            &&& match tested {
                Err(e) => record::stopped(mid, after, e, r),
                Ok(_) => frozen_set(mid, after, prs, r),
            }
        }
}

fn move_frozen<H: Host>(sh: &mut Shell<H>, list: &Vec<FrozenBookmark>, prs: &Vec<GhPr>) -> (r:
    Result<(), Error>)
    ensures
        record::extends(old(sh).log(), final(sh).log()),
        frozen_moved(
            old(sh).log(),
            final(sh).log(),
            list.deep_view(),
            prs.deep_view(),
            error::res_of(r),
        ),
{
    assert(prs.deep_view().skip(0) =~= prs.deep_view());
    let tested = test_rewrites(sh, list, prs, 0);
    assert(rewrites_tested(
        old(sh).log(),
        sh.log(),
        list.deep_view(),
        prs.deep_view(),
        error::res_of(tested),
    ));
    match tested {
        Err(error) => Err(error),
        Ok(_) => set_frozen(sh, prs, 0),
    }
}

pub fn update_get_frozen_bookmarks<H: Host>(
    sh: &mut Shell<H>,
    prs: &Vec<GhPr>,
    diagnostics: Diagnostics,
) -> (r: Result<(), Error>)
    ensures
        record::extends(old(sh).log(), final(sh).log()),
        frozen_updated(
            old(sh).log(),
            final(sh).log(),
            prs.deep_view(),
            diagnostics.dry_run,
            error::res_of(r),
        ),
{
    if diagnostics.dry_run {
        plan_frozen(sh, prs);
        return Ok(());
    }
    let ghost n = sh.log().len() as int;
    let listed = frozen_bookmarks(sh);
    let ghost mid = sh.log();
    assert(mid.take(n + 1) =~= mid);
    match listed {
        Err(error) => Err(error),
        Ok(list) => {
            let r = move_frozen(sh, &list, prs);
            assert(sh.log().take(n + 1) =~= mid);
            assert(sh.log()[n] == sh.log().take(n + 1)[n]);
            r
        },
    }
}

} // verus!
