//! The stack of changes: how it is read from jj and which shapes are accepted.

use vstd::prelude::*;

use crate::error;
use crate::error::{CauseView, CliError, CliErrorView, Error, fail, report};
use crate::model::{Duplicate, ResolvedChange, ResolvedChangeView};
use crate::output;
use crate::output::display_command;
use crate::outside;
use crate::outside::{read_json_bool, read_json_string, read_json_strings};
use crate::record;
use crate::record::{Event, Reply};
use crate::repo::git_run_required;
use crate::shell::{Host, jj_checked, jj_run};
use crate::shell::wire::Shell;
use crate::text;
use crate::text::{
    cat, cat3, cat5, join_text, list_contains, number_text, same, split_text, text_byte_prefix,
    text_filled_lines, text_strip_prefix, trimmed, trimmed_end_char, words,
};

verus! {

pub const DEFAULT_STACK_REVSET: &'static str =
    "trunk()..@ & ~::(immutable_heads() | root()) & ~empty()";

pub const STACK_FIELD_SEPARATOR: char = '\x1f';

pub const STACK_RECORD_SEPARATOR: char = '\x1e';

pub const STACK_LOG_TEMPLATE: &'static str =
    "json(change_id) ++ \"\\x1f\" ++ json(commit_id) ++ \"\\x1f\" ++ json(parents.map(|c| c.commit_id())) ++ \"\\x1f\" ++ json(description.first_line()) ++ \"\\x1f\" ++ json(description) ++ \"\\x1f\" ++ json(empty) ++ \"\\x1f\" ++ json(conflict) ++ \"\\x1f\" ++ json(divergent) ++ \"\\x1e\"";

pub const COMMIT_ID_LINE_TEMPLATE: &'static str = "commit_id ++ \"\\n\"";

// ---------------------------------------------------------------------------
// Labels
// ---------------------------------------------------------------------------

/// The first eight bytes of an id, or the whole id where no character ends there.
pub open spec fn short_id(id: Seq<char>) -> Seq<char> {
    match text::byte_prefix(id, 8) {
        Some(prefix) => prefix,
        None => id,
    }
}

pub fn short_commit_id(commit_id: &str) -> (r: String)
    ensures
        r@ == short_id(commit_id@),
{
    match text_byte_prefix(commit_id, 8) {
        Some(prefix) => prefix,
        None => commit_id.to_owned(),
    }
}

pub fn short_change_id(change_id: &str) -> (r: String)
    ensures
        r@ == short_id(change_id@),
{
    short_commit_id(change_id)
}

/// How a change is named in messages.
pub open spec fn label_of(change: ResolvedChangeView) -> Seq<char> {
    short_id(change.change_id) + " ("@ + short_id(change.commit_id) + ")"@
}

pub fn change_label(change: &ResolvedChange) -> (r: String)
    ensures
        r@ == label_of(change@),
{
    let mut label = short_change_id(&change.change_id);
    label.append(" (");
    label.append(&short_commit_id(&change.commit_id));
    label.append(")");
    label
}

pub open spec fn labels_of(changes: Seq<ResolvedChangeView>) -> Seq<Seq<char>> {
    changes.map_values(|c: ResolvedChangeView| label_of(c))
}

// ---------------------------------------------------------------------------
// Reading records
// ---------------------------------------------------------------------------

/// A description without its title, the blank line behind it, and line feeds at the end.
pub open spec fn body_of(description: Seq<char>, title: Seq<char>) -> Seq<char> {
    let rest = match text::strip_prefix(description, title) {
        Some(rest) => rest,
        None => description,
    };
    let once = match text::strip_prefix(rest, "\n"@) {
        Some(rest) => rest,
        None => rest,
    };
    let twice = match text::strip_prefix(once, "\n"@) {
        Some(rest) => rest,
        None => once,
    };
    text::trim_end_char(twice, '\n')
}

fn without_prefix(s: String, prefix: &str) -> (r: String)
    ensures
        r@ == match text::strip_prefix(s@, prefix@) {
            Some(rest) => rest,
            None => s@,
        },
{
    match text_strip_prefix(&s, prefix) {
        Some(rest) => rest,
        None => s,
    }
}

pub fn description_body(description: &str, title: &str) -> (r: String)
    ensures
        r@ == body_of(description@, title@),
{
    let rest = without_prefix(description.to_owned(), title);
    let once = without_prefix(rest, "\n");
    let twice = without_prefix(once, "\n");
    trimmed_end_char(&twice, '\n')
}

pub open spec fn json_string_field(value: Seq<char>, field: Seq<char>) -> Result<
    Seq<char>,
    Seq<CauseView>,
> {
    match outside::json_string(value) {
        Ok(s) => Ok(s),
        Err(e) => Err(error::in_context("parse "@ + field, error::plain(e))),
    }
}

pub fn parse_json_string(value: &str, field: &str) -> (r: Result<String, Error>)
    ensures
        error::res(r) == json_string_field(value@, field@),
{
    match read_json_string(value) {
        Ok(s) => Ok(s),
        Err(error) => Err(fail(&error).context(&cat("parse ", field))),
    }
}

pub open spec fn json_bool_field(value: Seq<char>, context: Seq<char>) -> Result<
    bool,
    Seq<CauseView>,
> {
    match outside::json_bool(value) {
        Ok(b) => Ok(b),
        Err(e) => Err(error::in_context(context, error::plain(e))),
    }
}

fn parse_json_bool(value: &str, context: &str) -> (r: Result<bool, Error>)
    ensures
        error::res_of(r) == json_bool_field(value@, context@),
{
    match read_json_bool(value) {
        Ok(b) => Ok(b),
        Err(error) => Err(fail(&error).context(context)),
    }
}

/// The change that the eight fields of a record describe, its tree not yet known.
pub open spec fn change_from_fields(f: Seq<Seq<char>>) -> Result<
    ResolvedChangeView,
    Seq<CauseView>,
> {
    match json_string_field(f[0], "change id"@) {
        Err(e) => Err(e),
        Ok(change_id) => match json_string_field(f[1], "commit id"@) {
            Err(e) => Err(e),
            Ok(commit_id) => match outside::json_strings(f[2]) {
                Err(e) => Err(error::in_context("parse parent ids"@, error::plain(e))),
                Ok(parent_ids) => match json_string_field(f[3], "title"@) {
                    Err(e) => Err(e),
                    Ok(title) => match json_string_field(f[4], "description"@) {
                        Err(e) => Err(e),
                        Ok(description) => match json_bool_field(f[5], "parse empty status"@) {
                            Err(e) => Err(e),
                            Ok(empty) => match json_bool_field(f[6], "parse conflict status"@) {
                                Err(e) => Err(e),
                                Ok(conflict) => match json_bool_field(
                                    f[7],
                                    "parse divergent status"@,
                                ) {
                                    Err(e) => Err(e),
                                    Ok(divergent) => Ok(
                                        ResolvedChangeView {
                                            change_id,
                                            commit_id,
                                            parent_ids,
                                            title,
                                            body: body_of(description, title),
                                            tree_id: seq![],
                                            empty,
                                            conflict,
                                            divergent,
                                        },
                                    ),
                                },
                            },
                        },
                    },
                },
            },
        },
    }
}

/// The change that a record describes, its tree not yet known.
pub open spec fn change_from_record(record: Seq<char>) -> Result<
    ResolvedChangeView,
    Seq<CauseView>,
> {
    let fields = text::split(record, STACK_FIELD_SEPARATOR);
    if fields.len() != 8 {
        Err(error::plain("expected 8 stack fields, got "@ + text::decimal(fields.len())))
    } else {
        change_from_fields(fields)
    }
}

/// The change that a record describes, its tree not yet known: everything about the record that needs
/// no command.
pub fn read_stack_record(record: &str) -> (r: Result<ResolvedChange, Error>)
    ensures
        error::res(r) == change_from_record(record@),
{
    let fields = split_text(record, STACK_FIELD_SEPARATOR);
    let ghost f = fields.deep_view();
    if fields.len() != 8 {
        return Err(
            fail(&cat("expected 8 stack fields, got ", &number_text(fields.len() as u64))),
        );
    }
    assert(f[0] == fields@[0]@ && f[1] == fields@[1]@ && f[2] == fields@[2]@ && f[3]
        == fields@[3]@ && f[4] == fields@[4]@ && f[5] == fields@[5]@ && f[6] == fields@[6]@ && f[7]
        == fields@[7]@);
    let change_id = match parse_json_string(&fields[0], "change id") {
        Ok(value) => value,
        Err(error) => return Err(error),
    };
    let commit_id = match parse_json_string(&fields[1], "commit id") {
        Ok(value) => value,
        Err(error) => return Err(error),
    };
    let parent_ids = match read_json_strings(&fields[2]) {
        Ok(value) => value,
        Err(error) => return Err(fail(&error).context("parse parent ids")),
    };
    let title = match parse_json_string(&fields[3], "title") {
        Ok(value) => value,
        Err(error) => return Err(error),
    };
    let description = match parse_json_string(&fields[4], "description") {
        Ok(value) => value,
        Err(error) => return Err(error),
    };
    let empty = match parse_json_bool(&fields[5], "parse empty status") {
        Ok(value) => value,
        Err(error) => return Err(error),
    };
    let conflict = match parse_json_bool(&fields[6], "parse conflict status") {
        Ok(value) => value,
        Err(error) => return Err(error),
    };
    let divergent = match parse_json_bool(&fields[7], "parse divergent status") {
        Ok(value) => value,
        Err(error) => return Err(error),
    };
    let body = description_body(&description, &title);
    let tree_id = String::new();
    assert(tree_id@ =~= seq![]);
    Ok(
        ResolvedChange {
            change_id,
            commit_id,
            parent_ids,
            title,
            body,
            tree_id,
            empty,
            conflict,
            divergent,
        },
    )
}

pub open spec fn tree_args(commit_id: Seq<char>) -> Seq<Seq<char>> {
    seq!["show"@, "-s"@, "--format=%T"@, commit_id]
}

pub open spec fn tree_result(commit_id: Seq<char>, reply: Reply) -> Result<
    Seq<char>,
    Seq<CauseView>,
> {
    match output::required_output("git"@, tree_args(commit_id), reply) {
        Ok(tree) => Ok(tree),
        Err(e) => Err(error::in_context("resolve tree id for commit "@ + commit_id, e)),
    }
}

pub fn resolve_tree_id<H: Host>(sh: &mut Shell<H>, commit_id: &str) -> (r: Result<String, Error>)
    ensures
        record::called(old(sh).log(), final(sh).log(), "git"@, tree_args(commit_id@)),
        error::res(r) == tree_result(commit_id@, record::last_reply(final(sh).log())),
{
    let args = words(&["show", "-s", "--format=%T", commit_id]);
    assert(args.deep_view() =~= tree_args(commit_id@));
    match git_run_required(sh, &args) {
        Ok(tree) => Ok(tree),
        Err(error) => Err(error.context(&cat("resolve tree id for commit ", commit_id))),
    }
}

/// The record from `before` to `after` holds the query for the tree of one described change, if its
/// description could be read; `r` is the change or the failure.
pub open spec fn record_resolved(
    before: Seq<Event>,
    after: Seq<Event>,
    record: Seq<char>,
    r: Result<ResolvedChangeView, Seq<CauseView>>,
) -> bool {
    match change_from_record(record) {
        Err(e) => after == before && r == Err::<ResolvedChangeView, _>(e),
        Ok(change) => {
            &&& record::called(before, after, "git"@, tree_args(change.commit_id))
            &&& r == match tree_result(change.commit_id, record::last_reply(after)) {
                Ok(tree_id) => Ok(ResolvedChangeView { tree_id, ..change }),
                Err(e) => Err(e),
            }
        },
    }
}

pub fn parse_stack_record<H: Host>(sh: &mut Shell<H>, record: &str) -> (r: Result<
    ResolvedChange,
    Error,
>)
    ensures
        record_resolved(old(sh).log(), final(sh).log(), record@, error::res(r)),
{
    let mut change = match read_stack_record(record) {
        Ok(change) => change,
        Err(error) => return Err(error),
    };
    match resolve_tree_id(sh, &change.commit_id) {
        Ok(tree_id) => {
            change.tree_id = tree_id;
            Ok(change)
        },
        Err(error) => Err(error),
    }
}

/// The record from `before` to `after` holds the reading of these records one after the other, up to
/// the first failure; `done` are the changes read before.
pub open spec fn records_resolved(
    before: Seq<Event>,
    after: Seq<Event>,
    done: Seq<ResolvedChangeView>,
    records: Seq<Seq<char>>,
    r: Result<Seq<ResolvedChangeView>, Seq<CauseView>>,
) -> bool
    decreases records.len(),
{
    if records.len() == 0 {
        after == before && r == Ok::<_, Seq<CauseView>>(done)
    } else {
        exists|mid: Seq<Event>, first: Result<ResolvedChangeView, Seq<CauseView>>|
            {
                &&& #[trigger] record_resolved(before, mid, records[0], first)
                &&& match first {
                    Err(e) => after == mid && r == Err::<Seq<ResolvedChangeView>, _>(e),
                    Ok(change) => records_resolved(
                        mid,
                        after,
                        done.push(change),
                        records.drop_first(),
                        r,
                    ),
                }
            }
    }
}

fn resolve_records<H: Host>(
    sh: &mut Shell<H>,
    done: Vec<ResolvedChange>,
    records: &Vec<String>,
    from: usize,
) -> (r: Result<Vec<ResolvedChange>, Error>)
    requires
        from <= records@.len(),
    ensures
        records_resolved(
            old(sh).log(),
            final(sh).log(),
            done.deep_view(),
            records.deep_view().skip(from as int),
            error::res(r),
        ),
    decreases records@.len() - from,
{
    let ghost rest = records.deep_view().skip(from as int);
    if from == records.len() {
        return Ok(done);
    }
    let ghost start = sh.log();
    let first = parse_stack_record(sh, &records[from]);
    let ghost seen = error::res(first);
    assert(record_resolved(start, sh.log(), rest[0], seen));
    match first {
        Err(error) => Err(error),
        Ok(change) => {
            let mut more = done;
            more.push(change);
            assert(more.deep_view() =~= done.deep_view().push(change@));
            assert(rest.drop_first() =~= records.deep_view().skip(from + 1));
            resolve_records(sh, more, records, from + 1)
        },
    }
}

/// The records of a log, which may be empty ones between separators.
pub open spec fn nonempty(parts: Seq<Seq<char>>) -> Seq<Seq<char>>
    decreases parts.len(),
{
    if parts.len() == 0 {
        seq![]
    } else {
        let rest = nonempty(parts.drop_last());
        if parts.last().len() == 0 {
            rest
        } else {
            rest.push(parts.last())
        }
    }
}

pub fn keep_nonempty(parts: &Vec<String>) -> (r: Vec<String>)
    ensures
        r.deep_view() == nonempty(parts.deep_view()),
{
    let mut out: Vec<String> = Vec::new();
    let mut i: usize = 0;
    assert(out.deep_view() =~= nonempty(parts.deep_view().take(0)));
    while i < parts.len()
        invariant
            i <= parts@.len(),
            out.deep_view() == nonempty(parts.deep_view().take(i as int)),
        decreases parts@.len() - i,
    {
        let ghost next = parts.deep_view().take(i + 1);
        let ghost before = out.deep_view();
        assert(next.drop_last() =~= parts.deep_view().take(i as int));
        assert(next.last() == parts@[i as int]@);
        if !parts[i].as_str().is_empty() {
            out.push(parts[i].clone());
            assert(out.deep_view() =~= before.push(parts@[i as int]@));
        }
        i = i + 1;
    }
    assert(parts.deep_view().take(i as int) =~= parts.deep_view());
    out
}

pub open spec fn log_records(stdout: Seq<char>) -> Seq<Seq<char>> {
    nonempty(text::split(stdout, STACK_RECORD_SEPARATOR))
}

/// The record from `before` to `after` holds the reading of a whole log.
pub open spec fn log_resolved(
    before: Seq<Event>,
    after: Seq<Event>,
    stdout: Seq<char>,
    r: Result<Seq<ResolvedChangeView>, Seq<CauseView>>,
) -> bool {
    records_resolved(before, after, seq![], log_records(stdout), r)
}

pub fn parse_stack_log<H: Host>(sh: &mut Shell<H>, stdout: &str) -> (r: Result<
    Vec<ResolvedChange>,
    Error,
>)
    ensures
        log_resolved(old(sh).log(), final(sh).log(), stdout@, error::res(r)),
{
    let records = keep_nonempty(&split_text(stdout, STACK_RECORD_SEPARATOR));
    assert(records.deep_view().skip(0) =~= records.deep_view());
    let none: Vec<ResolvedChange> = Vec::new();
    assert(none.deep_view() =~= seq![]);
    resolve_records(sh, none, &records, 0)
}

pub open spec fn stack_args(revset: Seq<char>) -> Seq<Seq<char>> {
    seq!["log"@, "--no-graph"@, "--reversed"@, "-r"@, revset, "-T"@, STACK_LOG_TEMPLATE@]
}

/// The record from `before` to `after` holds the reading of the stack that a revset selects, bottom
/// first; `r` is the stack or the failure.
pub open spec fn stack_resolved(
    before: Seq<Event>,
    after: Seq<Event>,
    revset: Seq<char>,
    r: Result<Seq<ResolvedChangeView>, Seq<CauseView>>,
) -> bool {
    let n = before.len() as int;
    &&& record::extends(before, after)
    &&& after.len() > n
    &&& record::is_call(after[n], "jj"@, stack_args(revset))
    &&& match record::reply_of(after[n]) {
        Err(e) => after.len() == n + 1 && r == Err::<Seq<ResolvedChangeView>, _>(e),
        Ok(output) => if !output.success {
            after.len() == n + 1 && r == Err::<Seq<ResolvedChangeView>, _>(
                error::plain("`"@ + output::shown("jj"@, stack_args(revset)) + "` failed: "@ + text::trim(output.stderr)),
            )
        } else {
            exists|parsed: Result<Seq<ResolvedChangeView>, Seq<CauseView>>|
                {
                    &&& #[trigger] log_resolved(after.take(n + 1), after, output.stdout, parsed)
                    &&& r == match parsed {
                        Ok(stack) => Ok(stack),
                        Err(e) => Err(error::in_context("parse jj stack log"@, e)),
                    }
                }
        },
    }
}

proof fn lemma_record_extends(
    before: Seq<Event>,
    after: Seq<Event>,
    record: Seq<char>,
    r: Result<ResolvedChangeView, Seq<CauseView>>,
)
    requires
        record_resolved(before, after, record, r),
    ensures
        record::extends(before, after),
{
    assert(after.take(before.len() as int) =~= before);
}

pub proof fn lemma_records_extend(
    before: Seq<Event>,
    after: Seq<Event>,
    done: Seq<ResolvedChangeView>,
    records: Seq<Seq<char>>,
    r: Result<Seq<ResolvedChangeView>, Seq<CauseView>>,
)
    requires
        records_resolved(before, after, done, records, r),
    ensures
        record::extends(before, after),
    decreases records.len(),
{
    if records.len() == 0 {
        assert(after.take(before.len() as int) =~= before);
    } else {
        let (mid, first) = choose|
            mid: Seq<Event>,
            first: Result<ResolvedChangeView, Seq<CauseView>>,
        |
            {
                &&& #[trigger] record_resolved(before, mid, records[0], first)
                &&& match first {
                    Err(e) => after == mid && r == Err::<Seq<ResolvedChangeView>, _>(e),
                    Ok(change) => records_resolved(
                        mid,
                        after,
                        done.push(change),
                        records.drop_first(),
                        r,
                    ),
                }
            };
        lemma_record_extends(before, mid, records[0], first);
        match first {
            Err(e) => {},
            Ok(change) => {
                lemma_records_extend(mid, after, done.push(change), records.drop_first(), r);
                record::lemma_extends_trans(before, mid, after);
            },
        }
    }
}

pub fn resolve_stack<H: Host>(sh: &mut Shell<H>, revset: &str) -> (r: Result<
    Vec<ResolvedChange>,
    Error,
>)
    ensures
        stack_resolved(old(sh).log(), final(sh).log(), revset@, error::res(r)),
{
    let ghost start = sh.log();
    let ghost n = start.len() as int;
    let args = words(
        &["log", "--no-graph", "--reversed", "-r", revset, "-T", STACK_LOG_TEMPLATE],
    );
    assert(args.deep_view() =~= stack_args(revset@));
    let reply = jj_run(sh, &args);
    let ghost mid = sh.log();
    assert(mid.take(n) =~= start);
    let output = match reply {
        Ok(output) => output,
        Err(error) => return Err(error),
    };
    if !output.success {
        let mut message = "`".to_owned();
        message.append(&display_command("jj", &args));
        message.append("` failed: ");
        message.append(&trimmed(&output.stderr));
        return Err(fail(&message));
    }
    let parsed = parse_stack_log(sh, &output.stdout);
    let ghost seen = error::res(parsed);
    proof {
        lemma_records_extend(mid, sh.log(), seq![], log_records(output.stdout@), seen);
        record::lemma_extends_trans(start, mid, sh.log());
        assert(sh.log().take(n + 1) =~= mid);
        assert(sh.log()[n] == sh.log().take(n + 1)[n]);
        assert(log_resolved(sh.log().take(n + 1), sh.log(), output.stdout@, seen));
    }
    let r = match parsed {
        Ok(stack) => Ok(stack),
        Err(error) => Err(error.context("parse jj stack log")),
    };
    assert(record::reply_of(sh.log()[n])->Ok_0.stdout == output.stdout@);
    assert(seen is Ok ==> error::res(r) == seen);
    assert(seen is Err ==> error::res(r) == Err::<Seq<ResolvedChangeView>, _>(error::in_context("parse jj stack log"@, seen->Err_0)));
    r
}

pub open spec fn single_rev_args(rev: Seq<char>) -> Seq<Seq<char>> {
    seq!["log"@, "--no-graph"@, "-r"@, rev, "-T"@, COMMIT_ID_LINE_TEMPLATE@]
}

/// The one commit that a log lists.
pub open spec fn single_commit(rev: Seq<char>, reply: Reply) -> Result<Seq<char>, Seq<CauseView>> {
    match output::checked("jj"@, single_rev_args(rev), reply) {
        Err(e) => Err(e),
        Ok(output) => {
            let commits = text::filled_lines(output.stdout);
            if commits.len() == 1 {
                Ok(commits[0])
            } else if commits.len() == 0 {
                Err(
                    error::plain(
                        "revset `"@ + rev + "` resolved to no commits; expected exactly one"@,
                    ),
                )
            } else {
                Err(
                    error::plain(
                        "revset `"@ + rev + "` resolved to "@ + text::decimal(commits.len())
                            + " commits; expected exactly one"@,
                    ),
                )
            }
        },
    }
}

pub fn resolve_single_rev<H: Host>(sh: &mut Shell<H>, rev: &str) -> (r: Result<String, Error>)
    ensures
        record::called(old(sh).log(), final(sh).log(), "jj"@, single_rev_args(rev@)),
        error::res(r) == single_commit(rev@, record::last_reply(final(sh).log())),
{
    let args = words(&["log", "--no-graph", "-r", rev, "-T", COMMIT_ID_LINE_TEMPLATE]);
    assert(args.deep_view() =~= single_rev_args(rev@));
    let output = match jj_checked(sh, &args) {
        Ok(output) => output,
        Err(error) => return Err(error),
    };
    let commits = text_filled_lines(&output.stdout);
    if commits.len() == 1 {
        assert(commits.deep_view()[0] == commits@[0]@);
        Ok(commits[0].clone())
    } else if commits.len() == 0 {
        Err(fail(&cat3("revset `", rev, "` resolved to no commits; expected exactly one")))
    } else {
        Err(
            fail(
                &cat5(
                    "revset `",
                    rev,
                    "` resolved to ",
                    &number_text(commits.len() as u64),
                    " commits; expected exactly one",
                ),
            ),
        )
    }
}

// ---------------------------------------------------------------------------
// Shape
// ---------------------------------------------------------------------------

pub open spec fn commits_of(stack: Seq<ResolvedChangeView>) -> Seq<Seq<char>> {
    stack.map_values(|c: ResolvedChangeView| c.commit_id)
}

pub fn commit_ids(stack: &Vec<ResolvedChange>) -> (r: Vec<String>)
    ensures
        r.deep_view() == commits_of(stack.deep_view()),
{
    let mut out: Vec<String> = Vec::new();
    let mut i: usize = 0;
    while i < stack.len()
        invariant
            i <= stack@.len(),
            out@.len() == i,
            forall|k: int| 0 <= k < i ==> (#[trigger] out@[k])@ == stack@[k].commit_id@,
        decreases stack@.len() - i,
    {
        out.push(stack[i].commit_id.clone());
        i = i + 1;
    }
    assert(out.deep_view() =~= commits_of(stack.deep_view()));
    out
}

/// The first of these ids that the commits hold.
pub open spec fn first_among(ids: Seq<Seq<char>>, commits: Seq<Seq<char>>) -> Option<Seq<char>>
    decreases ids.len(),
{
    if ids.len() == 0 {
        None
    } else if commits.contains(ids[0]) {
        Some(ids[0])
    } else {
        first_among(ids.drop_first(), commits)
    }
}

pub fn selected_parent(change: &ResolvedChange, selected_commits: &Vec<String>) -> (r: Option<
    String,
>)
    ensures
        r.deep_view() == first_among(change@.parent_ids, selected_commits.deep_view()),
{
    let ids = &change.parent_ids;
    let mut i: usize = 0;
    assert(ids.deep_view().skip(0) =~= ids.deep_view());
    while i < ids.len()
        invariant
            i <= ids@.len(),
            ids.deep_view() == change@.parent_ids,
            first_among(ids.deep_view(), selected_commits.deep_view()) == first_among(
                ids.deep_view().skip(i as int),
                selected_commits.deep_view(),
            ),
        decreases ids@.len() - i,
    {
        assert(ids.deep_view().skip(i as int)[0] == ids@[i as int]@);
        assert(ids.deep_view().skip(i as int).drop_first() =~= ids.deep_view().skip(i + 1));
        if list_contains(selected_commits, &ids[i]) {
            return Some(ids[i].clone());
        }
        i = i + 1;
    }
    None
}

/// Whether no parent of the change is among these commits.
pub open spec fn is_root(change: ResolvedChangeView, commits: Seq<Seq<char>>) -> bool {
    first_among(change.parent_ids, commits) is None
}

/// The changes among `stack` without a parent among `commits`.
pub open spec fn roots_in(
    stack: Seq<ResolvedChangeView>,
    commits: Seq<Seq<char>>,
) -> Seq<ResolvedChangeView>
    decreases stack.len(),
{
    if stack.len() == 0 {
        seq![]
    } else {
        let rest = roots_in(stack.drop_last(), commits);
        if is_root(stack.last(), commits) {
            rest.push(stack.last())
        } else {
            rest
        }
    }
}

pub open spec fn roots_of(stack: Seq<ResolvedChangeView>) -> Seq<ResolvedChangeView> {
    roots_in(stack, commits_of(stack))
}

pub fn stack_roots(stack: &Vec<ResolvedChange>) -> (r: Vec<ResolvedChange>)
    ensures
        r.deep_view() == roots_of(stack.deep_view()),
{
    let commits = commit_ids(stack);
    let mut out: Vec<ResolvedChange> = Vec::new();
    let mut i: usize = 0;
    assert(out.deep_view() =~= roots_in(stack.deep_view().take(0), commits.deep_view()));
    while i < stack.len()
        invariant
            i <= stack@.len(),
            commits.deep_view() == commits_of(stack.deep_view()),
            out.deep_view() == roots_in(stack.deep_view().take(i as int), commits.deep_view()),
        decreases stack@.len() - i,
    {
        let ghost next = stack.deep_view().take(i + 1);
        let ghost before = out.deep_view();
        assert(next.drop_last() =~= stack.deep_view().take(i as int));
        assert(next.last() == stack@[i as int]@);
        if selected_parent(&stack[i], &commits).is_none() {
            out.push(stack[i].copy());
            assert(out.deep_view() =~= before.push(stack@[i as int]@));
        }
        i = i + 1;
    }
    assert(stack.deep_view().take(i as int) =~= stack.deep_view());
    out
}

/// The changes among `stack` whose selected parent is `parent`.
pub open spec fn children_in(
    stack: Seq<ResolvedChangeView>,
    commits: Seq<Seq<char>>,
    parent: Seq<char>,
) -> Seq<ResolvedChangeView>
    decreases stack.len(),
{
    if stack.len() == 0 {
        seq![]
    } else {
        let rest = children_in(stack.drop_last(), commits, parent);
        if first_among(stack.last().parent_ids, commits) == Some(parent) {
            rest.push(stack.last())
        } else {
            rest
        }
    }
}

pub open spec fn children_of(stack: Seq<ResolvedChangeView>, parent: Seq<char>) -> Seq<
    ResolvedChangeView,
> {
    children_in(stack, commits_of(stack), parent)
}

fn children(stack: &Vec<ResolvedChange>, commits: &Vec<String>, parent: &str) -> (r: Vec<
    ResolvedChange,
>)
    ensures
        r.deep_view() == children_in(stack.deep_view(), commits.deep_view(), parent@),
{
    let mut out: Vec<ResolvedChange> = Vec::new();
    let mut i: usize = 0;
    assert(out.deep_view() =~= children_in(
        stack.deep_view().take(0),
        commits.deep_view(),
        parent@,
    ));
    while i < stack.len()
        invariant
            i <= stack@.len(),
            out.deep_view() == children_in(
                stack.deep_view().take(i as int),
                commits.deep_view(),
                parent@,
            ),
        decreases stack@.len() - i,
    {
        let ghost next = stack.deep_view().take(i + 1);
        let ghost before = out.deep_view();
        assert(next.drop_last() =~= stack.deep_view().take(i as int));
        assert(next.last() == stack@[i as int]@);
        let own = match selected_parent(&stack[i], commits) {
            Some(id) => same(&id, parent),
            None => false,
        };
        if own {
            out.push(stack[i].copy());
            assert(out.deep_view() =~= before.push(stack@[i as int]@));
        }
        i = i + 1;
    }
    assert(stack.deep_view().take(i as int) =~= stack.deep_view());
    out
}

/// The first selected parent, in the order of the stack, that has more than one child.
pub open spec fn crowded_parent(stack: Seq<ResolvedChangeView>, from: int) -> Option<Seq<char>>
    decreases stack.len() - from,
{
    if from >= stack.len() {
        None
    } else {
        match first_among(stack[from].parent_ids, commits_of(stack)) {
            Some(parent) if children_of(stack, parent).len() > 1 => Some(parent),
            _ => crowded_parent(stack, from + 1),
        }
    }
}

/// The first change with a property.
pub open spec fn first_with(
    stack: Seq<ResolvedChangeView>,
    wanted: spec_fn(ResolvedChangeView) -> bool,
    from: int,
) -> Option<ResolvedChangeView>
    decreases stack.len() - from,
{
    if from >= stack.len() {
        None
    } else if wanted(stack[from]) {
        Some(stack[from])
    } else {
        first_with(stack, wanted, from + 1)
    }
}

pub open spec fn first_empty(stack: Seq<ResolvedChangeView>) -> Option<ResolvedChangeView> {
    first_with(stack, |c: ResolvedChangeView| c.empty, 0)
}

pub open spec fn first_conflicted(stack: Seq<ResolvedChangeView>) -> Option<ResolvedChangeView> {
    first_with(stack, |c: ResolvedChangeView| c.conflict, 0)
}

pub open spec fn first_merge(stack: Seq<ResolvedChangeView>) -> Option<ResolvedChangeView> {
    first_with(stack, |c: ResolvedChangeView| c.parent_ids.len() > 1, 0)
}

/// Why a stack is refused, if it is: it must be a non-empty row of changes, each the only child of
/// the one below, none of them empty, conflicted or a merge.
pub open spec fn shape_failure(stack: Seq<ResolvedChangeView>, revset: Seq<char>) -> Option<
    CliErrorView,
> {
    if stack.len() == 0 {
        Some(
            error::cli("empty stack selected by `"@ + revset + "`"@).fixed_by(
                "move to a non-empty owned stack"@,
            ),
        )
    } else if first_empty(stack) is Some {
        Some(
            error::cli("empty change "@ + label_of(first_empty(stack)->0) + " selected"@).fixed_by(
                "amend or abandon the empty change"@,
            ),
        )
    } else if first_conflicted(stack) is Some {
        Some(
            error::cli(
                "conflicted change "@ + label_of(first_conflicted(stack)->0) + " selected"@,
            ).fixed_by("resolve conflicts"@),
        )
    } else if first_merge(stack) is Some {
        Some(
            error::cli(
                "merge commit "@ + label_of(first_merge(stack)->0) + " has "@ + text::decimal(
                    first_merge(stack)->0.parent_ids.len(),
                ) + " parents"@,
            ).fixed_by("forklift requires a linear owned stack"@),
        )
    } else if roots_of(stack).len() != 1 {
        Some(
            error::cli("stack has multiple roots ("@ + text::decimal(roots_of(stack).len()) + ")"@).because(
                text::join(labels_of(roots_of(stack)), ", "@),
            ).fixed_by("move to a single linear stack"@),
        )
    } else {
        match crowded_parent(stack, 0) {
            Some(parent) => Some(
                error::cli(
                    "siblings selected under parent "@ + short_id(parent) + " ("@ + text::decimal(
                        children_of(stack, parent).len(),
                    ) + " children)"@,
                ).because(text::join(labels_of(children_of(stack, parent)), ", "@)).fixed_by(
                    "move to one linear branch"@,
                ),
            ),
            None => None,
        }
    }
}

fn find_empty(stack: &Vec<ResolvedChange>) -> (r: Option<usize>)
    ensures
        match r {
            Some(i) => i < stack@.len() && first_empty(stack.deep_view()) == Some(
                stack@[i as int]@,
            ),
            None => first_empty(stack.deep_view()) is None,
        },
{
    let ghost p = |c: ResolvedChangeView| c.empty;
    let mut i: usize = 0;
    while i < stack.len()
        invariant
            i <= stack@.len(),
            p == (|c: ResolvedChangeView| c.empty),
            first_with(stack.deep_view(), p, 0) == first_with(stack.deep_view(), p, i as int),
        decreases stack@.len() - i,
    {
        assert(stack.deep_view()[i as int] == stack@[i as int]@);
        if stack[i].empty {
            return Some(i);
        }
        i = i + 1;
    }
    None
}

fn find_conflicted(stack: &Vec<ResolvedChange>) -> (r: Option<usize>)
    ensures
        match r {
            Some(i) => i < stack@.len() && first_conflicted(stack.deep_view()) == Some(
                stack@[i as int]@,
            ),
            None => first_conflicted(stack.deep_view()) is None,
        },
{
    let ghost p = |c: ResolvedChangeView| c.conflict;
    let mut i: usize = 0;
    while i < stack.len()
        invariant
            i <= stack@.len(),
            p == (|c: ResolvedChangeView| c.conflict),
            first_with(stack.deep_view(), p, 0) == first_with(stack.deep_view(), p, i as int),
        decreases stack@.len() - i,
    {
        assert(stack.deep_view()[i as int] == stack@[i as int]@);
        if stack[i].conflict {
            return Some(i);
        }
        i = i + 1;
    }
    None
}

fn find_merge(stack: &Vec<ResolvedChange>) -> (r: Option<usize>)
    ensures
        match r {
            Some(i) => i < stack@.len() && first_merge(stack.deep_view()) == Some(
                stack@[i as int]@,
            ),
            None => first_merge(stack.deep_view()) is None,
        },
{
    let ghost p = |c: ResolvedChangeView| c.parent_ids.len() > 1;
    let mut i: usize = 0;
    while i < stack.len()
        invariant
            i <= stack@.len(),
            p == (|c: ResolvedChangeView| c.parent_ids.len() > 1),
            first_with(stack.deep_view(), p, 0) == first_with(stack.deep_view(), p, i as int),
        decreases stack@.len() - i,
    {
        assert(stack.deep_view()[i as int] == stack@[i as int]@);
        if stack[i].parent_ids.len() > 1 {
            return Some(i);
        }
        i = i + 1;
    }
    None
}

fn find_crowded(stack: &Vec<ResolvedChange>, commits: &Vec<String>) -> (r: Option<String>)
    requires
        commits.deep_view() == commits_of(stack.deep_view()),
    ensures
        r.deep_view() == crowded_parent(stack.deep_view(), 0),
{
    let mut i: usize = 0;
    while i < stack.len()
        invariant
            i <= stack@.len(),
            commits.deep_view() == commits_of(stack.deep_view()),
            crowded_parent(stack.deep_view(), 0) == crowded_parent(stack.deep_view(), i as int),
        decreases stack@.len() - i,
    {
        assert(stack.deep_view()[i as int] == stack@[i as int]@);
        if let Some(parent) = selected_parent(&stack[i], commits) {
            if children(stack, commits, &parent).len() > 1 {
                return Some(parent);
            }
        }
        i = i + 1;
    }
    None
}

pub fn join_labels(changes: &Vec<ResolvedChange>) -> (r: String)
    ensures
        r@ == text::join(labels_of(changes.deep_view()), ", "@),
{
    let mut labels: Vec<String> = Vec::new();
    let mut i: usize = 0;
    while i < changes.len()
        invariant
            i <= changes@.len(),
            labels@.len() == i,
            forall|k: int| 0 <= k < i ==> (#[trigger] labels@[k])@ == label_of(changes@[k]@),
        decreases changes@.len() - i,
    {
        labels.push(change_label(&changes[i]));
        i = i + 1;
    }
    assert(labels.deep_view() =~= labels_of(changes.deep_view()));
    join_text(&labels, ", ")
}

/// The failure of a stack that does not have exactly one root.
pub open spec fn many_roots(roots: Seq<ResolvedChangeView>) -> CliErrorView {
    error::cli("stack has multiple roots ("@ + text::decimal(roots.len()) + ")"@).because(
        text::join(labels_of(roots), ", "@),
    ).fixed_by("move to a single linear stack"@)
}

pub fn many_roots_error(roots: &Vec<ResolvedChange>) -> (r: CliError)
    ensures
        r@ == many_roots(roots.deep_view()),
{
    CliError::new(
        &cat3("stack has multiple roots (", &number_text(roots.len() as u64), ")"),
    ).reason(&join_labels(roots)).resolution("move to a single linear stack")
}

pub fn validate_stack_shape(stack: &Vec<ResolvedChange>, revset: &str) -> (r: Result<(), Error>)
    ensures
        error::res_of(r) == match shape_failure(stack.deep_view(), revset@) {
            Some(error) => Err(error::reported(error)),
            None => Ok(()),
        },
{
    if stack.len() == 0 {
        return Err(
            report(
                CliError::new(&cat3("empty stack selected by `", revset, "`")).resolution(
                    "move to a non-empty owned stack",
                ),
            ),
        );
    }
    if let Some(i) = find_empty(stack) {
        return Err(
            report(
                CliError::new(
                    &cat3("empty change ", &change_label(&stack[i]), " selected"),
                ).resolution("amend or abandon the empty change"),
            ),
        );
    }
    if let Some(i) = find_conflicted(stack) {
        return Err(
            report(
                CliError::new(
                    &cat3("conflicted change ", &change_label(&stack[i]), " selected"),
                ).resolution("resolve conflicts"),
            ),
        );
    }
    if let Some(i) = find_merge(stack) {
        return Err(
            report(
                CliError::new(
                    &cat5(
                        "merge commit ",
                        &change_label(&stack[i]),
                        " has ",
                        &number_text(stack[i].parent_ids.len() as u64),
                        " parents",
                    ),
                ).resolution("forklift requires a linear owned stack"),
            ),
        );
    }
    let commits = commit_ids(stack);
    let roots = stack_roots(stack);
    if roots.len() != 1 {
        return Err(report(many_roots_error(&roots)));
    }
    if let Some(parent) = find_crowded(stack, &commits) {
        let siblings = children(stack, &commits, &parent);
        return Err(
            report(
                CliError::new(
                    &cat5(
                        "siblings selected under parent ",
                        &short_commit_id(&parent),
                        " (",
                        &number_text(siblings.len() as u64),
                        " children)",
                    ),
                ).reason(&join_labels(&siblings)).resolution("move to one linear branch"),
            ),
        );
    }
    Ok(())
}

pub open spec fn root_result(stack: Seq<ResolvedChangeView>) -> Result<
    ResolvedChangeView,
    Seq<CauseView>,
> {
    match first_with(stack, |c: ResolvedChangeView| is_root(c, commits_of(stack)), 0) {
        Some(root) => Ok(root),
        None => Err(error::plain("stack has no root"@)),
    }
}

/// The lowest change of a stack.
pub fn stack_root(stack: &Vec<ResolvedChange>) -> (r: Result<ResolvedChange, Error>)
    ensures
        error::res(r) == root_result(stack.deep_view()),
{
    let commits = commit_ids(stack);
    let ghost p = |c: ResolvedChangeView| is_root(c, commits_of(stack.deep_view()));
    let mut i: usize = 0;
    while i < stack.len()
        invariant
            i <= stack@.len(),
            commits.deep_view() == commits_of(stack.deep_view()),
            p == (|c: ResolvedChangeView| is_root(c, commits_of(stack.deep_view()))),
            first_with(stack.deep_view(), p, 0) == first_with(stack.deep_view(), p, i as int),
        decreases stack@.len() - i,
    {
        assert(stack.deep_view()[i as int] == stack@[i as int]@);
        if selected_parent(&stack[i], &commits).is_none() {
            return Ok(stack[i].copy());
        }
        i = i + 1;
    }
    Err(fail("stack has no root"))
}

/// Whether the stack is one row of changes: none of them empty, conflicted or a merge, exactly one of
/// them without a parent in the stack, and no two of them on the same parent.
pub open spec fn is_row(stack: Seq<ResolvedChangeView>) -> bool {
    let commits = commits_of(stack);
    &&& stack.len() > 0
    &&& forall|i: int|
        0 <= i < stack.len() ==> {
            &&& !(#[trigger] stack[i]).empty
            &&& !stack[i].conflict
            &&& stack[i].parent_ids.len() <= 1
        }
    &&& exists|r: int|
        {
            &&& 0 <= r < stack.len()
            &&& is_root(#[trigger] stack[r], commits)
        }
    &&& forall|i: int, j: int|
        0 <= i < j < stack.len() ==> first_among((#[trigger] stack[i]).parent_ids, commits)
            != first_among((#[trigger] stack[j]).parent_ids, commits)
}

proof fn lemma_first_with(
    stack: Seq<ResolvedChangeView>,
    wanted: spec_fn(ResolvedChangeView) -> bool,
    from: int,
)
    requires
        0 <= from,
    ensures
        first_with(stack, wanted, from) is None <==> forall|i: int|
            from <= i < stack.len() ==> !wanted(#[trigger] stack[i]),
    decreases stack.len() - from,
{
    if from < stack.len() {
        lemma_first_with(stack, wanted, from + 1);
    }
}

/// How many changes have this answer when asked for their parent in the stack.
pub open spec fn placed(
    stack: Seq<ResolvedChangeView>,
    commits: Seq<Seq<char>>,
    parent: Option<Seq<char>>,
) -> nat {
    match parent {
        None => roots_in(stack, commits).len(),
        Some(parent) => children_in(stack, commits, parent).len(),
    }
}

proof fn lemma_placed(
    stack: Seq<ResolvedChangeView>,
    commits: Seq<Seq<char>>,
    parent: Option<Seq<char>>,
)
    ensures
        placed(stack, commits, parent) == 0 <==> forall|i: int|
            0 <= i < stack.len() ==> first_among((#[trigger] stack[i]).parent_ids, commits)
                != parent,
        placed(stack, commits, parent) <= 1 <==> forall|i: int, j: int|
            0 <= i < j < stack.len() && first_among(
                (#[trigger] stack[i]).parent_ids,
                commits,
            ) == parent ==> first_among((#[trigger] stack[j]).parent_ids, commits) != parent,
    decreases stack.len(),
{
    if stack.len() > 0 {
        let rest = stack.drop_last();
        lemma_placed(rest, commits, parent);
        assert forall|i: int| 0 <= i < rest.len() implies rest[i] == stack[i] by {}
        let own = first_among(stack.last().parent_ids, commits) == parent;
        assert(placed(stack, commits, parent) == placed(rest, commits, parent) + if own {
            1nat
        } else {
            0
        });
        let last = stack.len() - 1;
        if own {
            if placed(rest, commits, parent) > 0 {
                let i = choose|i: int|
                    0 <= i < rest.len() && first_among((#[trigger] rest[i]).parent_ids, commits)
                        == parent;
                assert(first_among(stack[i].parent_ids, commits) == parent);
                assert(first_among(stack[last].parent_ids, commits) == parent);
            } else {
                assert forall|i: int, j: int|
                    0 <= i < j < stack.len() && first_among(
                        (#[trigger] stack[i]).parent_ids,
                        commits,
                    ) == parent implies first_among((#[trigger] stack[j]).parent_ids, commits)
                    != parent by {
                    assert(rest[i] == stack[i]);
                }
            }
            assert(first_among(stack[last].parent_ids, commits) == parent);
        } else {
            if placed(rest, commits, parent) == 0 {
                assert forall|i: int| 0 <= i < stack.len() implies first_among(
                    (#[trigger] stack[i]).parent_ids,
                    commits,
                ) != parent by {
                    if i < last {
                        assert(rest[i] == stack[i]);
                    }
                }
            }
            if placed(rest, commits, parent) <= 1 {
                assert forall|i: int, j: int|
                    0 <= i < j < stack.len() && first_among(
                        (#[trigger] stack[i]).parent_ids,
                        commits,
                    ) == parent implies first_among((#[trigger] stack[j]).parent_ids, commits)
                    != parent by {
                    if j < last {
                        assert(rest[i] == stack[i]);
                        assert(rest[j] == stack[j]);
                    }
                }
            } else {
                let (i, j) = choose|i: int, j: int|
                    0 <= i < j < rest.len() && first_among(
                        (#[trigger] rest[i]).parent_ids,
                        commits,
                    ) == parent && first_among((#[trigger] rest[j]).parent_ids, commits) == parent;
                assert(first_among(stack[i].parent_ids, commits) == parent);
                assert(first_among(stack[j].parent_ids, commits) == parent);
            }
        }
    }
}

proof fn lemma_crowded(stack: Seq<ResolvedChangeView>, from: int)
    requires
        0 <= from,
    ensures
        crowded_parent(stack, from) is None <==> forall|i: int|
            from <= i < stack.len() ==> match first_among(
                (#[trigger] stack[i]).parent_ids,
                commits_of(stack),
            ) {
                Some(parent) => children_of(stack, parent).len() <= 1,
                None => true,
            },
    decreases stack.len() - from,
{
    if from < stack.len() {
        lemma_crowded(stack, from + 1);
    }
}

/// A stack is accepted exactly where it is one row of changes.
pub proof fn law_accepted_stack_is_a_row(stack: Seq<ResolvedChangeView>, revset: Seq<char>)
    ensures
        shape_failure(stack, revset) is None <==> is_row(stack),
{
    let commits = commits_of(stack);
    lemma_first_with(stack, |c: ResolvedChangeView| c.empty, 0);
    lemma_first_with(stack, |c: ResolvedChangeView| c.conflict, 0);
    lemma_first_with(stack, |c: ResolvedChangeView| c.parent_ids.len() > 1, 0);
    lemma_placed(stack, commits, None);
    lemma_crowded(stack, 0);
    assert forall|i: int| 0 <= i < stack.len() implies match first_among(
        (#[trigger] stack[i]).parent_ids,
        commits,
    ) {
        Some(parent) => {
            children_of(stack, parent).len() <= 1 <==> forall|a: int, b: int|
                0 <= a < b < stack.len() && first_among(
                    (#[trigger] stack[a]).parent_ids,
                    commits,
                ) == Some(parent) ==> first_among((#[trigger] stack[b]).parent_ids, commits)
                    != Some(parent)
        },
        None => true,
    } by {
        lemma_placed(stack, commits, first_among(stack[i].parent_ids, commits));
    }
    assert(roots_of(stack).len() == placed(stack, commits, None));
    if is_row(stack) {
        let r = choose|r: int| 0 <= r < stack.len() && is_root(#[trigger] stack[r], commits);
        assert(first_among(stack[r].parent_ids, commits) == None::<Seq<char>>);
        assert(placed(stack, commits, None) == 1);
        assert(shape_failure(stack, revset) is None);
    }
    if shape_failure(stack, revset) is None {
        let r = choose|r: int|
            0 <= r < stack.len() && first_among((#[trigger] stack[r]).parent_ids, commits)
                == None::<Seq<char>>;
        assert(is_root(stack[r], commits));
        assert forall|i: int, j: int| 0 <= i < j < stack.len() implies first_among(
            (#[trigger] stack[i]).parent_ids,
            commits,
        ) != first_among((#[trigger] stack[j]).parent_ids, commits) by {
            lemma_placed(stack, commits, first_among(stack[i].parent_ids, commits));
        }
        assert(is_row(stack));
    }
}

} // verus!
