//! Which branch and which pull request a change is submitted to.

use vstd::prelude::*;

use crate::bookmarks;
use crate::bookmarks::{jj_ref_commit_id, local_stack_bookmarks_for_change, remote_bookmark_status};
use crate::branches;
use crate::branches::deterministic_head_branch;
use crate::cache::CacheStore;
use crate::error;
use crate::error::{CauseView, Error, fail};
use crate::model::{
    AppConfig, AppConfigView, Duplicate, GitHubContext, GitHubContextView, PrCacheEntry,
    PrCacheEntryView, RemoteBookmarkStatusView, ResolvedChange, ResolvedChangeView,
};
use crate::output;
use crate::output::display_command;
use crate::pr;
use crate::pr::{hash_text, lookup_cached_pr, lookup_open_pr_by_head_branch};
use crate::record;
use crate::record::{Event, Reply};
use crate::repo::git_run;
use crate::shell::Host;
use crate::shell::wire::Shell;
use crate::text;
use crate::text::{
    cat3, cat5, char_is_space, chars, join_text, list_contains, number_text, same, slice_text,
    text_filled_lines, trimmed, words,
};
use crate::ui;
use crate::ui::log_warning;

verus! {

broadcast use crate::record::group_record;

/// The head branch of a change, its open pull request, and where the branch stands on the remote.
pub struct SubmitHead {
    pub head_branch: String,
    pub existing_pr: Option<PrCacheEntry>,
    pub expected_remote_head: Option<String>,
}

pub struct SubmitHeadView {
    pub head_branch: Seq<char>,
    pub existing_pr: Option<PrCacheEntryView>,
    pub expected_remote_head: Option<Seq<char>>,
}

impl View for SubmitHead {
    type V = SubmitHeadView;

    open spec fn view(&self) -> SubmitHeadView {
        SubmitHeadView {
            head_branch: self.head_branch@,
            existing_pr: self.existing_pr.deep_view(),
            expected_remote_head: self.expected_remote_head.deep_view(),
        }
    }
}

impl DeepView for SubmitHead {
    type V = SubmitHeadView;

    open spec fn deep_view(&self) -> SubmitHeadView {
        self@
    }
}

// ---------------------------------------------------------------------------
// The bookmark of a pull request
// ---------------------------------------------------------------------------

/// What the remote bookmark of a pull request says against a submit.
pub open spec fn remote_state_result(
    remote: Seq<char>,
    branch: Seq<char>,
    status: Result<RemoteBookmarkStatusView, Seq<CauseView>>,
) -> Result<(), Seq<CauseView>> {
    match status {
        Err(e) => Err(e),
        Ok(status) => if !status.is_tracked {
            Err(
                error::plain(
                    "remote bookmark `"@ + branch + "@"@ + remote
                        + "` is untracked; refusing to submit until jj tracks the PR branch"@,
                ),
            )
        } else if status.is_conflicted {
            Err(
                error::plain(
                    "bookmark `"@ + branch + "` is conflicted with remote `"@ + remote
                        + "`; resolve the jj bookmark conflict before submitting"@,
                ),
            )
        } else {
            Ok(())
        },
    }
}

/// What the local bookmark of a pull request says against a submit.
pub open spec fn local_state_result(
    change: ResolvedChangeView,
    branch: Seq<char>,
    target: Result<Seq<char>, Seq<CauseView>>,
) -> Result<(), Seq<CauseView>> {
    match target {
        Err(e) => Err(
            error::in_context("local head bookmark `"@ + branch + "` is missing or conflicted"@, e),
        ),
        Ok(target) => if target != change.commit_id {
            Err(
                error::plain(
                    "local head bookmark `"@ + branch + "` points at "@ + target
                        + ", but selected change "@ + change.change_id + " is "@ + change.commit_id
                        + "; refusing to submit the wrong revision"@,
                ),
            )
        } else {
            Ok(())
        },
    }
}

/// The record from `before` to `after` holds the check of the bookmark of a pull request: it must
/// point at the change, and its remote counterpart must be followed and without conflict.
pub open spec fn bookmark_checked(
    before: Seq<Event>,
    after: Seq<Event>,
    remote: Seq<char>,
    change: ResolvedChangeView,
    entry: PrCacheEntryView,
    r: Result<(), Seq<CauseView>>,
) -> bool {
    let n = before.len() as int;
    let branch = entry.head_branch;
    &&& record::extends(before, after)
    &&& after.len() > n
    &&& record::is_call(after[n], "jj"@, bookmarks::ref_args(branch, "commit_id"@))
    &&& match local_state_result(change, branch, bookmarks::ref_commit_result(branch, record::reply_of(after[n]))) {
        Err(e) => record::stopped(after.take(n + 1), after, e, r),
        Ok(_) => {
            &&& after.len() == n + 2
            &&& record::is_call(after[n + 1], "jj"@, bookmarks::status_args(branch))
            &&& r == remote_state_result(
                remote,
                branch,
                bookmarks::status_result(remote, branch, record::reply_of(after[n + 1])),
            )
        },
    }
}

pub fn validate_submit_bookmark_state<H: Host>(
    sh: &mut Shell<H>,
    config: &AppConfig,
    change: &ResolvedChange,
    entry: &PrCacheEntry,
) -> (r: Result<(), Error>)
    ensures
        record::extends(old(sh).log(), final(sh).log()),
        bookmark_checked(
            old(sh).log(),
            final(sh).log(),
            config@.remote,
            change@,
            entry@,
            error::res_of(r),
        ),
{
    let ghost n = sh.log().len() as int;
    let branch = &entry.head_branch;
    let pointed = jj_ref_commit_id(sh, branch);
    let ghost mid = sh.log();
    assert(mid.take(n + 1) =~= mid);
    let target = match pointed {
        Ok(target) => target,
        Err(error) => return Err(
            error.context(&cat3("local head bookmark `", branch, "` is missing or conflicted")),
        ),
    };
    if !same(&target, &change.commit_id) {
        let mut message = cat5(
            "local head bookmark `",
            branch,
            "` points at ",
            &target,
            ", but selected change ",
        );
        message.append(&change.change_id);
        message.append(" is ");
        message.append(&change.commit_id);
        message.append("; refusing to submit the wrong revision");
        return Err(fail(&message));
    }
    let status = remote_bookmark_status(sh, config, branch);
    assert(sh.log()[n] == sh.log().drop_last()[n]);
    match status {
        Err(error) => Err(error),
        Ok(status) => if !status.is_tracked {
            Err(
                fail(
                    &cat5(
                        "remote bookmark `",
                        branch,
                        "@",
                        &config.remote,
                        "` is untracked; refusing to submit until jj tracks the PR branch",
                    ),
                ),
            )
        } else if status.is_conflicted {
            Err(
                fail(
                    &cat5(
                        "bookmark `",
                        branch,
                        "` is conflicted with remote `",
                        &config.remote,
                        "`; resolve the jj bookmark conflict before submitting",
                    ),
                ),
            )
        } else {
            Ok(())
        },
    }
}

// ---------------------------------------------------------------------------
// Where a branch stands on the remote
// ---------------------------------------------------------------------------

/// A text up to its first white space.
pub open spec fn first_word(s: Seq<char>) -> Seq<char>
    decreases s.len(),
{
    if s.len() == 0 || text::is_space(s[0]) {
        seq![]
    } else {
        seq![s[0]] + first_word(s.drop_first())
    }
}

pub fn text_first_word(s: &str) -> (r: String)
    ensures
        r@ == first_word(s@),
{
    let v = chars(s);
    let mut i: usize = 0;
    assert(v@.skip(0) =~= v@);
    assert(v@.take(0) + first_word(v@) =~= first_word(v@));
    while i < v.len() && !char_is_space(v[i])
        invariant
            i <= v@.len(),
            first_word(v@) == v@.take(i as int) + first_word(v@.skip(i as int)),
        decreases v@.len() - i,
    {
        let ghost rest = v@.skip(i as int);
        assert(rest.drop_first() =~= v@.skip(i + 1));
        assert(v@.take(i as int) + (seq![rest[0]] + first_word(rest.drop_first())) =~= v@.take(
            i + 1,
        ) + first_word(v@.skip(i + 1)));
        i = i + 1;
    }
    assert(first_word(v@.skip(i as int)) =~= seq![]);
    assert(first_word(v@) =~= v@.subrange(0, i as int));
    slice_text(&v, 0, i)
}

pub open spec fn remote_head_args(remote: Seq<char>, branch: Seq<char>) -> Seq<Seq<char>> {
    seq!["ls-remote"@, "--heads"@, remote, branch]
}

/// The commit of a branch on the remote, if it is there; several answers are a failure.
pub open spec fn remote_head_result(remote: Seq<char>, branch: Seq<char>, reply: Reply) -> Result<
    Option<Seq<char>>,
    Seq<CauseView>,
> {
    match reply {
        Err(e) => Err(e),
        Ok(output) => if !output.success {
            Err(
                error::plain(
                    "`"@ + output::shown("git"@, remote_head_args(remote, branch))
                        + "` failed while resolving remote head `"@ + branch + "`: "@ + text::trim(
                        output.stderr,
                    ),
                ),
            )
        } else {
            let rows = text::filled_lines(output.stdout);
            if rows.len() == 0 {
                Ok(None)
            } else if rows.len() == 1 {
                Ok(Some(first_word(rows[0])))
            } else {
                Err(
                    error::plain(
                        "remote head lookup for `"@ + branch + "` returned "@ + text::decimal(rows.len())
                            + " refs; refusing to push ambiguously"@,
                    ),
                )
            }
        },
    }
}

pub fn remote_head_oid<H: Host>(sh: &mut Shell<H>, remote: &str, branch: &str) -> (r: Result<
    Option<String>,
    Error,
>)
    ensures
        record::called(old(sh).log(), final(sh).log(), "git"@, remote_head_args(remote@, branch@)),
        error::res(r) == remote_head_result(remote@, branch@, record::last_reply(final(sh).log())),
{
    let args = words(&["ls-remote", "--heads", remote, branch]);
    assert(args.deep_view() =~= remote_head_args(remote@, branch@));
    let output = match git_run(sh, &args) {
        Ok(output) => output,
        Err(error) => return Err(error),
    };
    if !output.success {
        let mut message = cat5(
            "`",
            &display_command("git", &args),
            "` failed while resolving remote head `",
            branch,
            "`: ",
        );
        message.append(&trimmed(&output.stderr));
        return Err(fail(&message));
    }
    let rows = text_filled_lines(&output.stdout);
    let ghost view = rows.deep_view();
    assert(view == text::filled_lines(output@.stdout));
    if rows.len() == 0 {
        return Ok(None);
    }
    if rows.len() == 1 {
        assert(view[0] == rows@[0]@);
        return Ok(Some(text_first_word(&rows[0])));
    }
    Err(
        fail(
            &cat5(
                "remote head lookup for `",
                branch,
                "` returned ",
                &number_text(rows.len() as u64),
                " refs; refusing to push ambiguously",
            ),
        ),
    )
}

// ---------------------------------------------------------------------------
// A pull request that a local bookmark leads to
// ---------------------------------------------------------------------------

/// The record from `before` to `after` holds the search for the open pull request of each unused
/// branch in turn.
pub open spec fn branches_searched(
    before: Seq<Event>,
    after: Seq<Event>,
    github: GitHubContextView,
    change_id: Seq<char>,
    names: Seq<Seq<char>>,
    at: int,
    used: Seq<Seq<char>>,
    found: Seq<(Seq<char>, PrCacheEntryView)>,
    r: Result<Seq<(Seq<char>, PrCacheEntryView)>, Seq<CauseView>>,
) -> bool
    decreases names.len() - at,
{
    if at < 0 || at >= names.len() {
        after == before && r == Ok::<_, Seq<CauseView>>(found)
    } else if used.contains(names[at]) {
        branches_searched(before, after, github, change_id, names, at + 1, used, found, r)
    } else {
        exists|mid: Seq<Event>, pr: Result<Option<PrCacheEntryView>, Seq<CauseView>>|
            {
                &&& #[trigger] pr::head_pr_searched(before, mid, github, change_id, names[at], pr)
                &&& match pr {
                    Err(e) => record::stopped(mid, after, e, r),
                    Ok(pr) => branches_searched(
                        mid,
                        after,
                        github,
                        change_id,
                        names,
                        at + 1,
                        used,
                        match pr {
                            Some(pr) => found.push((names[at], pr)),
                            None => found,
                        },
                        r,
                    ),
                }
            }
    }
}

fn search_branches<H: Host>(
    sh: &mut Shell<H>,
    github: &GitHubContext,
    change_id: &str,
    names: &Vec<String>,
    at: usize,
    used: &Vec<String>,
    found: Vec<(String, PrCacheEntry)>,
) -> (r: Result<Vec<(String, PrCacheEntry)>, Error>)
    requires
        at <= names@.len(),
    ensures
        record::extends(old(sh).log(), final(sh).log()),
        branches_searched(
            old(sh).log(),
            final(sh).log(),
            github@,
            change_id@,
            names.deep_view(),
            at as int,
            used.deep_view(),
            found.deep_view(),
            error::res(r),
        ),
    decreases names@.len() - at,
{
    if at == names.len() {
        return Ok(found);
    }
    assert(names.deep_view()[at as int] == names@[at as int]@);
    if list_contains(used, &names[at]) {
        return search_branches(sh, github, change_id, names, at + 1, used, found);
    }
    let ghost start = sh.log();
    let searched = lookup_open_pr_by_head_branch(sh, github, change_id, &names[at]);
    let ghost seen = error::res(searched);
    assert(pr::head_pr_searched(
        start,
        sh.log(),
        github@,
        change_id@,
        names@[at as int]@,
        seen,
    ));
    match searched {
        Err(error) => Err(error),
        Ok(None) => search_branches(sh, github, change_id, names, at + 1, used, found),
        Ok(Some(pr)) => {
            let ghost before = found.deep_view();
            let ghost put = (names@[at as int]@, pr@);
            let mut found = found;
            found.push((names[at].clone(), pr));
            assert(found.deep_view() =~= before.push(put));
            search_branches(sh, github, change_id, names, at + 1, used, found)
        },
    }
}

pub open spec fn match_text(found: (Seq<char>, PrCacheEntryView)) -> Seq<char> {
    found.0 + " -> "@ + pr::hash(found.1.pr_number)
}

pub open spec fn match_texts(found: Seq<(Seq<char>, PrCacheEntryView)>) -> Seq<Seq<char>> {
    found.map_values(|f: (Seq<char>, PrCacheEntryView)| match_text(f))
}

pub open spec fn many_matches(
    config: AppConfigView,
    change: ResolvedChangeView,
    found: Seq<(Seq<char>, PrCacheEntryView)>,
) -> Seq<CauseView> {
    error::plain(
        "multiple local `"@ + config.branch_prefix + "` bookmarks at "@ + change.commit_id
            + " have open GitHub PRs for "@ + change.change_id + "; refusing to choose: "@ + text::join(
            match_texts(found),
            ", "@,
        ),
    )
}

fn many_matches_error(
    config: &AppConfig,
    change: &ResolvedChange,
    found: &Vec<(String, PrCacheEntry)>,
) -> (r: Error)
    ensures
        r@ == many_matches(config@, change@, found.deep_view()),
{
    let mut texts: Vec<String> = Vec::new();
    let mut i: usize = 0;
    while i < found.len()
        invariant
            i <= found@.len(),
            texts@.len() == i,
            forall|k: int|
                0 <= k < i ==> (#[trigger] texts@[k])@ == match_text(found.deep_view()[k]),
        decreases found@.len() - i,
    {
        assert(found.deep_view()[i as int] == (found@[i as int].0@, found@[i as int].1@));
        texts.push(cat3(&found[i].0, " -> ", &hash_text(found[i].1.pr_number)));
        i = i + 1;
    }
    assert(texts.deep_view() =~= match_texts(found.deep_view()));
    let mut message = cat5(
        "multiple local `",
        &config.branch_prefix,
        "` bookmarks at ",
        &change.commit_id,
        " have open GitHub PRs for ",
    );
    message.append(&change.change_id);
    message.append("; refusing to choose: ");
    message.append(&join_text(&texts, ", "));
    fail(&message)
}

/// The record from `before` to `after` holds the question where the branch of a pull request stands
/// on the remote.
pub open spec fn remote_head_asked(
    before: Seq<Event>,
    after: Seq<Event>,
    remote: Seq<char>,
    branch: Seq<char>,
    pr: PrCacheEntryView,
    r: Result<SubmitHeadView, Seq<CauseView>>,
) -> bool {
    &&& record::called(before, after, "git"@, remote_head_args(remote, branch))
    &&& r == match remote_head_result(remote, branch, record::last_reply(after)) {
        Err(e) => Err(e),
        Ok(head) => Ok(
            SubmitHeadView {
                head_branch: branch,
                existing_pr: Some(pr),
                expected_remote_head: head,
            },
        ),
    }
}

fn ask_remote_head<H: Host>(sh: &mut Shell<H>, config: &AppConfig, branch: &str, pr: PrCacheEntry) -> (r:
    Result<SubmitHead, Error>)
    ensures
        record::extends(old(sh).log(), final(sh).log()),
        remote_head_asked(
            old(sh).log(),
            final(sh).log(),
            config@.remote,
            branch@,
            pr@,
            error::res(r),
        ),
{
    match remote_head_oid(sh, &config.remote, branch) {
        Err(error) => Err(error),
        Ok(head) => Ok(
            SubmitHead {
                head_branch: branch.to_owned(),
                existing_pr: Some(pr),
                expected_remote_head: head,
            },
        ),
    }
}

/// The record from `before` to `after` holds the check of the bookmark of a discovered pull request
/// and where its branch stands.
pub open spec fn match_settled(
    before: Seq<Event>,
    after: Seq<Event>,
    remote: Seq<char>,
    change: ResolvedChangeView,
    branch: Seq<char>,
    pr: PrCacheEntryView,
    r: Result<SubmitHeadView, Seq<CauseView>>,
) -> bool {
    exists|mid: Seq<Event>, state: Result<(), Seq<CauseView>>|
        {
            &&& #[trigger] bookmark_checked(before, mid, remote, change, pr, state)
            &&& match state {
                Err(e) => record::stopped(mid, after, e, r),
                Ok(_) => remote_head_asked(mid, after, remote, branch, pr, r),
            }
        }
}

fn settle_match<H: Host>(
    sh: &mut Shell<H>,
    config: &AppConfig,
    change: &ResolvedChange,
    branch: &str,
    pr: PrCacheEntry,
) -> (r: Result<SubmitHead, Error>)
    ensures
        record::extends(old(sh).log(), final(sh).log()),
        match_settled(
            old(sh).log(),
            final(sh).log(),
            config@.remote,
            change@,
            branch@,
            pr@,
            error::res(r),
        ),
{
    let state = validate_submit_bookmark_state(sh, config, change, &pr);
    assert(bookmark_checked(
        old(sh).log(),
        sh.log(),
        config@.remote,
        change@,
        pr@,
        error::res_of(state),
    ));
    match state {
        Err(error) => Err(error),
        Ok(_) => ask_remote_head(sh, config, branch, pr),
    }
}

pub open spec fn as_some<T>(r: Result<T, Seq<CauseView>>) -> Result<Option<T>, Seq<CauseView>> {
    match r {
        Ok(value) => Ok(Some(value)),
        Err(e) => Err(e),
    }
}

pub open spec fn only_match_settled(
    before: Seq<Event>,
    after: Seq<Event>,
    remote: Seq<char>,
    change: ResolvedChangeView,
    branch: Seq<char>,
    pr: PrCacheEntryView,
    r: Result<Option<SubmitHeadView>, Seq<CauseView>>,
) -> bool {
    exists|settled: Result<SubmitHeadView, Seq<CauseView>>|
        #[trigger] match_settled(before, after, remote, change, branch, pr, settled) && r
            == as_some(settled)
}

/// The record from `before` to `after` holds what becomes of the discovered pull requests: exactly
/// one is taken.
pub open spec fn matches_settled(
    before: Seq<Event>,
    after: Seq<Event>,
    config: AppConfigView,
    change: ResolvedChangeView,
    found: Seq<(Seq<char>, PrCacheEntryView)>,
    r: Result<Option<SubmitHeadView>, Seq<CauseView>>,
) -> bool {
    if found.len() == 0 {
        after == before && r == Ok::<_, Seq<CauseView>>(None::<SubmitHeadView>)
    } else if found.len() > 1 {
        record::stopped(before, after, many_matches(config, change, found), r)
    } else {
        only_match_settled(before, after, config.remote, change, found[0].0, found[0].1, r)
    }
}

fn settle_matches<H: Host>(
    sh: &mut Shell<H>,
    config: &AppConfig,
    change: &ResolvedChange,
    found: &Vec<(String, PrCacheEntry)>,
) -> (r: Result<Option<SubmitHead>, Error>)
    ensures
        record::extends(old(sh).log(), final(sh).log()),
        matches_settled(
            old(sh).log(),
            final(sh).log(),
            config@,
            change@,
            found.deep_view(),
            error::res(r),
        ),
{
    if found.len() == 0 {
        return Ok(None);
    }
    if found.len() > 1 {
        return Err(many_matches_error(config, change, found));
    }
    assert(found.deep_view()[0] == (found@[0].0@, found@[0].1@));
    let settled = settle_match(sh, config, change, &found[0].0, found[0].1.copy());
    let ghost seen = error::res(settled);
    assert(match_settled(
        old(sh).log(),
        sh.log(),
        config@.remote,
        change@,
        found@[0].0@,
        found@[0].1@,
        seen,
    ));
    match settled {
        Ok(head) => Ok(Some(head)),
        Err(error) => Err(error),
    }
}

/// The record from `before` to `after` holds the search through the bookmarks that were listed.
pub open spec fn names_tried(
    before: Seq<Event>,
    after: Seq<Event>,
    config: AppConfigView,
    github: GitHubContextView,
    change: ResolvedChangeView,
    names: Seq<Seq<char>>,
    used: Seq<Seq<char>>,
    r: Result<Option<SubmitHeadView>, Seq<CauseView>>,
) -> bool {
    exists|mid: Seq<Event>, found: Result<Seq<(Seq<char>, PrCacheEntryView)>, Seq<CauseView>>|
        {
            &&& #[trigger] all_branches_searched(
                before,
                mid,
                github,
                change.change_id,
                names,
                used,
                found,
            )
            &&& match found {
                Err(e) => record::stopped(mid, after, e, r),
                Ok(found) => matches_settled(mid, after, config, change, found, r),
            }
        }
}

pub open spec fn all_branches_searched(
    before: Seq<Event>,
    after: Seq<Event>,
    github: GitHubContextView,
    change_id: Seq<char>,
    names: Seq<Seq<char>>,
    used: Seq<Seq<char>>,
    r: Result<Seq<(Seq<char>, PrCacheEntryView)>, Seq<CauseView>>,
) -> bool {
    branches_searched(before, after, github, change_id, names, 0, used, seq![], r)
}

fn try_names<H: Host>(
    sh: &mut Shell<H>,
    config: &AppConfig,
    github: &GitHubContext,
    change: &ResolvedChange,
    names: &Vec<String>,
    used: &Vec<String>,
) -> (r: Result<Option<SubmitHead>, Error>)
    ensures
        record::extends(old(sh).log(), final(sh).log()),
        names_tried(
            old(sh).log(),
            final(sh).log(),
            config@,
            github@,
            change@,
            names.deep_view(),
            used.deep_view(),
            error::res(r),
        ),
{
    let none: Vec<(String, PrCacheEntry)> = Vec::new();
    assert(none.deep_view() =~= Seq::<(Seq<char>, PrCacheEntryView)>::empty());
    let searched = search_branches(sh, github, &change.change_id, names, 0, used, none);
    let ghost seen = error::res(searched);
    assert(all_branches_searched(
        old(sh).log(),
        sh.log(),
        github@,
        change@.change_id,
        names.deep_view(),
        used.deep_view(),
        seen,
    ));
    match searched {
        Err(error) => Err(error),
        Ok(found) => settle_matches(sh, config, change, &found),
    }
}

/// The local bookmarks of a change were listed as `names`.
pub open spec fn change_names_listed(
    before: Seq<Event>,
    after: Seq<Event>,
    config: AppConfigView,
    change: ResolvedChangeView,
    names: Result<Seq<Seq<char>>, Seq<CauseView>>,
) -> bool {
    &&& record::called(before, after, "jj"@, bookmarks::revision_list_args(change.commit_id))
    &&& bookmarks::is_stack_name_list(
        names,
        bookmarks::revision_list_args(change.commit_id),
        record::last_reply(after),
        config,
    )
}

/// The record from `before` to `after` holds the search for a pull request by the local bookmarks of
/// a change.
pub open spec fn head_discovered(
    before: Seq<Event>,
    after: Seq<Event>,
    config: AppConfigView,
    github: GitHubContextView,
    change: ResolvedChangeView,
    used: Seq<Seq<char>>,
    r: Result<Option<SubmitHeadView>, Seq<CauseView>>,
) -> bool {
    exists|mid: Seq<Event>, names: Result<Seq<Seq<char>>, Seq<CauseView>>|
        {
            &&& #[trigger] change_names_listed(before, mid, config, change, names)
            &&& match names {
                Err(e) => record::stopped(mid, after, e, r),
                Ok(names) => names_tried(mid, after, config, github, change, names, used, r),
            }
        }
}

pub fn discover_existing_pr_from_local_bookmarks<H: Host>(
    sh: &mut Shell<H>,
    config: &AppConfig,
    used_head_branches: &Vec<String>,
    github: &GitHubContext,
    change: &ResolvedChange,
) -> (r: Result<Option<SubmitHead>, Error>)
    ensures
        record::extends(old(sh).log(), final(sh).log()),
        head_discovered(
            old(sh).log(),
            final(sh).log(),
            config@,
            github@,
            change@,
            used_head_branches.deep_view(),
            error::res(r),
        ),
{
    let listed = local_stack_bookmarks_for_change(sh, config, change);
    let ghost seen = error::res(listed);
    assert(change_names_listed(old(sh).log(), sh.log(), config@, change@, seen));
    match listed {
        Err(error) => Err(error),
        Ok(names) => try_names(sh, config, github, change, &names, used_head_branches),
    }
}

// ---------------------------------------------------------------------------
// A pull request that the cache remembers
// ---------------------------------------------------------------------------

pub open spec fn cached_pr_settled(
    before: Seq<Event>,
    after: Seq<Event>,
    config: AppConfigView,
    repo: Seq<char>,
    change: ResolvedChangeView,
    entry: PrCacheEntryView,
    r: Result<SubmitHeadView, Seq<CauseView>>,
) -> bool {
    exists|mid: Seq<Event>, pr: Result<PrCacheEntryView, Seq<CauseView>>|
        {
            &&& #[trigger] pr::cached_pr_checked(
                before,
                mid,
                repo,
                change.change_id,
                entry.head_branch,
                entry,
                pr,
            )
            &&& match pr {
                Err(e) => record::stopped(mid, after, e, r),
                Ok(pr) => remote_head_asked(
                    mid,
                    after,
                    config.remote,
                    entry.head_branch,
                    pr,
                    r,
                ),
            }
        }
}

fn settle_cached<H: Host>(
    sh: &mut Shell<H>,
    config: &AppConfig,
    github: &GitHubContext,
    change: &ResolvedChange,
    entry: &PrCacheEntry,
) -> (r: Result<SubmitHead, Error>)
    ensures
        record::extends(old(sh).log(), final(sh).log()),
        cached_pr_settled(
            old(sh).log(),
            final(sh).log(),
            config@,
            github@.repo,
            change@,
            entry@,
            error::res(r),
        ),
{
    let checked = lookup_cached_pr(sh, github, &change.change_id, &entry.head_branch, entry);
    let ghost seen = error::res(checked);
    assert(pr::cached_pr_checked(
        old(sh).log(),
        sh.log(),
        github@.repo,
        change@.change_id,
        entry@.head_branch,
        entry@,
        seen,
    ));
    match checked {
        Err(error) => Err(error),
        Ok(pr) => ask_remote_head(sh, config, &entry.head_branch, pr),
    }
}

pub open spec fn cached_state_settled(
    before: Seq<Event>,
    after: Seq<Event>,
    config: AppConfigView,
    repo: Seq<char>,
    change: ResolvedChangeView,
    entry: PrCacheEntryView,
    r: Result<SubmitHeadView, Seq<CauseView>>,
) -> bool {
    exists|mid: Seq<Event>, state: Result<(), Seq<CauseView>>|
        {
            &&& #[trigger] bookmark_checked(before, mid, config.remote, change, entry, state)
            &&& match state {
                Err(e) => record::stopped(mid, after, e, r),
                Ok(_) => cached_pr_settled(mid, after, config, repo, change, entry, r),
            }
        }
}

/// The record from `before` to `after` holds how a remembered pull request is taken up again.
pub open spec fn cached_head_resolved(
    before: Seq<Event>,
    after: Seq<Event>,
    config: AppConfigView,
    repo: Seq<char>,
    change: ResolvedChangeView,
    entry: PrCacheEntryView,
    used: Seq<Seq<char>>,
    r: Result<SubmitHeadView, Seq<CauseView>>,
) -> bool {
    if used.contains(entry.head_branch) {
        record::stopped(
            before,
            after,
            error::plain("cache records duplicate head branch `"@ + entry.head_branch + "` in stack"@),
            r,
        )
    } else {
        cached_state_settled(before, after, config, repo, change, entry, r)
    }
}

pub fn resolve_submit_cached_head_branch<H: Host>(
    sh: &mut Shell<H>,
    config: &AppConfig,
    used_head_branches: &Vec<String>,
    github: &GitHubContext,
    change: &ResolvedChange,
    entry: &PrCacheEntry,
) -> (r: Result<SubmitHead, Error>)
    ensures
        record::extends(old(sh).log(), final(sh).log()),
        cached_head_resolved(
            old(sh).log(),
            final(sh).log(),
            config@,
            github@.repo,
            change@,
            entry@,
            used_head_branches.deep_view(),
            error::res(r),
        ),
{
    if list_contains(used_head_branches, &entry.head_branch) {
        return Err(
            fail(
                &cat3(
                    "cache records duplicate head branch `",
                    &entry.head_branch,
                    "` in stack",
                ),
            ),
        );
    }
    let state = validate_submit_bookmark_state(sh, config, change, entry);
    assert(bookmark_checked(
        old(sh).log(),
        sh.log(),
        config@.remote,
        change@,
        entry@,
        error::res_of(state),
    ));
    match state {
        Err(error) => Err(error),
        Ok(_) => settle_cached(sh, config, github, change, entry),
    }
}

// ---------------------------------------------------------------------------
// A branch of its own
// ---------------------------------------------------------------------------

pub open spec fn taken_branch(branch: Seq<char>, head: Seq<char>) -> Seq<CauseView> {
    error::plain(
        "remote branch `"@ + branch + "` already exists at "@ + head
            + " but local forklift cache does not identify a safe matching PR; refusing to push over it. Run `forklift get` for the PR that owns it, delete the branch, or choose a different change title."@,
    )
}

/// The record from `before` to `after` holds the last checks of a branch: with a pull request its
/// bookmark is checked, without one it must not be on the remote.
pub open spec fn fresh_head_settled(
    before: Seq<Event>,
    after: Seq<Event>,
    config: AppConfigView,
    change: ResolvedChangeView,
    branch: Seq<char>,
    pr: Option<PrCacheEntryView>,
    head: Option<Seq<char>>,
    r: Result<SubmitHeadView, Seq<CauseView>>,
) -> bool {
    match pr {
        Some(pr) => fresh_pr_settled(before, after, config, change, branch, pr, head, r),
        None => match head {
            Some(head) => record::stopped(before, after, taken_branch(branch, head), r),
            None => after == before && r == Ok::<_, Seq<CauseView>>(
                SubmitHeadView {
                    head_branch: branch,
                    existing_pr: None,
                    expected_remote_head: None,
                },
            ),
        },
    }
}

pub open spec fn fresh_pr_settled(
    before: Seq<Event>,
    after: Seq<Event>,
    config: AppConfigView,
    change: ResolvedChangeView,
    branch: Seq<char>,
    pr: PrCacheEntryView,
    head: Option<Seq<char>>,
    r: Result<SubmitHeadView, Seq<CauseView>>,
) -> bool {
    exists|state: Result<(), Seq<CauseView>>|
        {
            &&& #[trigger] bookmark_checked(before, after, config.remote, change, pr, state)
            &&& r == match state {
                Err(e) => Err(e),
                Ok(_) => Ok(
                    SubmitHeadView {
                        head_branch: branch,
                        existing_pr: Some(pr),
                        expected_remote_head: head,
                    },
                ),
            }
        }
}

fn settle_fresh_head<H: Host>(
    sh: &mut Shell<H>,
    config: &AppConfig,
    change: &ResolvedChange,
    branch: String,
    existing_pr: Option<PrCacheEntry>,
    head: Option<String>,
) -> (r: Result<SubmitHead, Error>)
    ensures
        record::extends(old(sh).log(), final(sh).log()),
        fresh_head_settled(
            old(sh).log(),
            final(sh).log(),
            config@,
            change@,
            branch@,
            existing_pr.deep_view(),
            head.deep_view(),
            error::res(r),
        ),
{
    match existing_pr {
        Some(pr) => {
            let state = validate_submit_bookmark_state(sh, config, change, &pr);
            assert(bookmark_checked(
                old(sh).log(),
                sh.log(),
                config@.remote,
                change@,
                pr@,
                error::res_of(state),
            ));
            match state {
                Err(error) => Err(error),
                Ok(_) => Ok(
                    SubmitHead {
                        head_branch: branch,
                        existing_pr: Some(pr),
                        expected_remote_head: head,
                    },
                ),
            }
        },
        None => match head {
            Some(head) => Err(
                fail(
                    &cat5(
                        "remote branch `",
                        &branch,
                        "` already exists at ",
                        &head,
                        " but local forklift cache does not identify a safe matching PR; refusing to push over it. Run `forklift get` for the PR that owns it, delete the branch, or choose a different change title.",
                    ),
                ),
            ),
            None => Ok(
                SubmitHead { head_branch: branch, existing_pr: None, expected_remote_head: None },
            ),
        },
    }
}

pub open spec fn fresh_head_located(
    before: Seq<Event>,
    after: Seq<Event>,
    config: AppConfigView,
    change: ResolvedChangeView,
    branch: Seq<char>,
    pr: Option<PrCacheEntryView>,
    r: Result<SubmitHeadView, Seq<CauseView>>,
) -> bool {
    exists|mid: Seq<Event>|
        {
            &&& #[trigger] record::called(before, mid, "git"@, remote_head_args(config.remote, branch))
            &&& match remote_head_result(config.remote, branch, record::last_reply(mid)) {
                Err(e) => record::stopped(mid, after, e, r),
                Ok(head) => fresh_head_settled(mid, after, config, change, branch, pr, head, r),
            }
        }
}

fn locate_fresh_head<H: Host>(
    sh: &mut Shell<H>,
    config: &AppConfig,
    change: &ResolvedChange,
    branch: String,
    existing_pr: Option<PrCacheEntry>,
) -> (r: Result<SubmitHead, Error>)
    ensures
        record::extends(old(sh).log(), final(sh).log()),
        fresh_head_located(
            old(sh).log(),
            final(sh).log(),
            config@,
            change@,
            branch@,
            existing_pr.deep_view(),
            error::res(r),
        ),
{
    let head = remote_head_oid(sh, &config.remote, &branch);
    assert(record::called(
        old(sh).log(),
        sh.log(),
        "git"@,
        remote_head_args(config@.remote, branch@),
    ));
    match head {
        Err(error) => Err(error),
        Ok(head) => settle_fresh_head(sh, config, change, branch, existing_pr, head),
    }
}

pub open spec fn fresh_branch_resolved(
    before: Seq<Event>,
    after: Seq<Event>,
    config: AppConfigView,
    github: GitHubContextView,
    change: ResolvedChangeView,
    branch: Seq<char>,
    r: Result<SubmitHeadView, Seq<CauseView>>,
) -> bool {
    exists|mid: Seq<Event>, pr: Result<Option<PrCacheEntryView>, Seq<CauseView>>|
        {
            &&& #[trigger] pr::head_pr_searched(before, mid, github, change.change_id, branch, pr)
            &&& match pr {
                Err(e) => record::stopped(mid, after, e, r),
                Ok(pr) => fresh_head_located(mid, after, config, change, branch, pr, r),
            }
        }
}

/// The record from `before` to `after` holds the search for the branch that is made from the title
/// and the id of a change.
pub open spec fn fresh_head_resolved(
    before: Seq<Event>,
    after: Seq<Event>,
    config: AppConfigView,
    github: GitHubContextView,
    change: ResolvedChangeView,
    used: Seq<Seq<char>>,
    r: Result<SubmitHeadView, Seq<CauseView>>,
) -> bool {
    exists|branch: Seq<char>|
        {
            &&& #[trigger] branches::is_unused_branch(branch, branches::head_branch_base(config, change), used)
            &&& fresh_branch_resolved(before, after, config, github, change, branch, r)
        }
}

fn resolve_fresh_head<H: Host>(
    sh: &mut Shell<H>,
    config: &AppConfig,
    used: &Vec<String>,
    github: &GitHubContext,
    change: &ResolvedChange,
) -> (r: Result<SubmitHead, Error>)
    ensures
        record::extends(old(sh).log(), final(sh).log()),
        fresh_head_resolved(
            old(sh).log(),
            final(sh).log(),
            config@,
            github@,
            change@,
            used.deep_view(),
            error::res(r),
        ),
{
    let branch = deterministic_head_branch(config, change, used);
    let ghost name = branch@;
    assert(branches::is_unused_branch(name, branches::head_branch_base(config@, change@), used.deep_view()));
    let searched = lookup_open_pr_by_head_branch(sh, github, &change.change_id, &branch);
    let ghost seen = error::res(searched);
    assert(pr::head_pr_searched(
        old(sh).log(),
        sh.log(),
        github@,
        change@.change_id,
        name,
        seen,
    ));
    let r = match searched {
        Err(error) => Err(error),
        Ok(existing_pr) => locate_fresh_head(sh, config, change, branch, existing_pr),
    };
    assert(fresh_branch_resolved(
        old(sh).log(),
        sh.log(),
        config@,
        github@,
        change@,
        name,
        error::res(r),
    ));
    r
}

// ---------------------------------------------------------------------------
// All three ways
// ---------------------------------------------------------------------------

/// What the log tells of a remembered branch that turned out stale, before the reason.
pub open spec fn stale_hint(change_id: Seq<char>, head_branch: Seq<char>) -> Seq<char> {
    "phase=plan-submit object=cache:"@ + change_id + " error=ignored stale cache hint for `"@
        + head_branch + "`: "@
}

pub open spec fn cached_or_fresh(
    before: Seq<Event>,
    after: Seq<Event>,
    config: AppConfigView,
    github: GitHubContextView,
    change: ResolvedChangeView,
    entry: PrCacheEntryView,
    used: Seq<Seq<char>>,
    r: Result<SubmitHeadView, Seq<CauseView>>,
) -> bool {
    exists|mid: Seq<Event>, cached: Result<SubmitHeadView, Seq<CauseView>>|
        {
            &&& #[trigger] cached_head_resolved(
                before,
                mid,
                config,
                github.repo,
                change,
                entry,
                used,
                cached,
            )
            &&& match cached {
                Ok(head) => after == mid && r == Ok::<_, Seq<CauseView>>(head),
                Err(e) => fresh_head_resolved(
                    mid + ui::failure_logged(stale_hint(change.change_id, entry.head_branch), cached),
                    after,
                    config,
                    github,
                    change,
                    used,
                    r,
                ),
            }
        }
}

/// The record from `before` to `after` holds what follows when no local bookmark led to a pull
/// request: a remembered one is tried, and a hint that turned out stale is passed over.
pub open spec fn unfound_head_resolved(
    before: Seq<Event>,
    after: Seq<Event>,
    config: AppConfigView,
    github: GitHubContextView,
    change: ResolvedChangeView,
    all: Map<(Seq<char>, Seq<char>), PrCacheEntryView>,
    used: Seq<Seq<char>>,
    r: Result<SubmitHeadView, Seq<CauseView>>,
) -> bool {
    let key = (github.repo, change.change_id);
    if all.dom().contains(key) {
        cached_or_fresh(before, after, config, github, change, all[key], used, r)
    } else {
        fresh_head_resolved(before, after, config, github, change, used, r)
    }
}

fn resolve_unfound_head<H: Host>(
    sh: &mut Shell<H>,
    config: &AppConfig,
    used: &Vec<String>,
    store: &CacheStore,
    github: &GitHubContext,
    change: &ResolvedChange,
) -> (r: Result<SubmitHead, Error>)
    ensures
        record::extends(old(sh).log(), final(sh).log()),
        unfound_head_resolved(
            old(sh).log(),
            final(sh).log(),
            config@,
            github@,
            change@,
            store@,
            used.deep_view(),
            error::res(r),
        ),
{
    match store.get_pr(&github.repo, &change.change_id) {
        None => resolve_fresh_head(sh, config, used, github, change),
        Some(entry) => {
            let cached = resolve_submit_cached_head_branch(
                sh,
                config,
                used,
                github,
                change,
                entry,
            );
            let ghost seen = error::res(cached);
            assert(cached_head_resolved(
                old(sh).log(),
                sh.log(),
                config@,
                github@.repo,
                change@,
                entry@,
                used.deep_view(),
                seen,
            ));
            match cached {
                Ok(head) => Ok(head),
                Err(error) => {
                    let mut message = cat5(
                        "phase=plan-submit object=cache:",
                        &change.change_id,
                        " error=ignored stale cache hint for `",
                        &entry.head_branch,
                        "`: ",
                    );
                    message.append(&error.chain_line());
                    log_warning(sh, &message);
                    resolve_fresh_head(sh, config, used, github, change)
                },
            }
        },
    }
}

/// The record from `before` to `after` holds how the branch and the pull request of a change are
/// found: by its local bookmarks, by the cache, or by the branch made from its title.
pub open spec fn head_resolved(
    before: Seq<Event>,
    after: Seq<Event>,
    config: AppConfigView,
    github: GitHubContextView,
    change: ResolvedChangeView,
    all: Map<(Seq<char>, Seq<char>), PrCacheEntryView>,
    used: Seq<Seq<char>>,
    r: Result<SubmitHeadView, Seq<CauseView>>,
) -> bool {
    exists|mid: Seq<Event>, found: Result<Option<SubmitHeadView>, Seq<CauseView>>|
        {
            &&& #[trigger] head_discovered(before, mid, config, github, change, used, found)
            &&& match found {
                Err(e) => record::stopped(mid, after, e, r),
                Ok(Some(head)) => after == mid && r == Ok::<_, Seq<CauseView>>(head),
                Ok(None) => unfound_head_resolved(
                    mid,
                    after,
                    config,
                    github,
                    change,
                    all,
                    used,
                    r,
                ),
            }
        }
}

pub fn resolve_submit_head_branch<H: Host>(
    sh: &mut Shell<H>,
    config: &AppConfig,
    used_head_branches: &Vec<String>,
    store: &CacheStore,
    github: &GitHubContext,
    change: &ResolvedChange,
) -> (r: Result<SubmitHead, Error>)
    ensures
        record::extends(old(sh).log(), final(sh).log()),
        head_resolved(
            old(sh).log(),
            final(sh).log(),
            config@,
            github@,
            change@,
            store@,
            used_head_branches.deep_view(),
            error::res(r),
        ),
{
    let found = discover_existing_pr_from_local_bookmarks(
        sh,
        config,
        used_head_branches,
        github,
        change,
    );
    let ghost seen = error::res(found);
    assert(head_discovered(
        old(sh).log(),
        sh.log(),
        config@,
        github@,
        change@,
        used_head_branches.deep_view(),
        seen,
    ));
    match found {
        Err(error) => Err(error),
        Ok(Some(head)) => Ok(head),
        Ok(None) => resolve_unfound_head(sh, config, used_head_branches, store, github, change),
    }
}

proof fn lemma_found_are_unused(
    before: Seq<Event>,
    after: Seq<Event>,
    github: GitHubContextView,
    change_id: Seq<char>,
    names: Seq<Seq<char>>,
    at: int,
    used: Seq<Seq<char>>,
    found: Seq<(Seq<char>, PrCacheEntryView)>,
    r: Result<Seq<(Seq<char>, PrCacheEntryView)>, Seq<CauseView>>,
)
    requires
        branches_searched(before, after, github, change_id, names, at, used, found, r),
        forall|i: int| 0 <= i < found.len() ==> !used.contains((#[trigger] found[i]).0),
        r is Ok,
    ensures
        forall|i: int| 0 <= i < (r->Ok_0).len() ==> !used.contains((#[trigger] (r->Ok_0)[i]).0),
    decreases names.len() - at,
{
    if at < 0 || at >= names.len() {
    } else if used.contains(names[at]) {
        lemma_found_are_unused(
            before,
            after,
            github,
            change_id,
            names,
            at + 1,
            used,
            found,
            r,
        );
    } else {
        let (mid, pr) = choose|mid: Seq<Event>, pr: Result<Option<PrCacheEntryView>, Seq<CauseView>>|
            {
                &&& #[trigger] pr::head_pr_searched(before, mid, github, change_id, names[at], pr)
                &&& match pr {
                    Err(e) => record::stopped(mid, after, e, r),
                    Ok(pr) => branches_searched(
                        mid,
                        after,
                        github,
                        change_id,
                        names,
                        at + 1,
                        used,
                        match pr {
                            Some(pr) => found.push((names[at], pr)),
                            None => found,
                        },
                        r,
                    ),
                }
            };
        if let Ok(pr) = pr {
            let next = match pr {
                Some(pr) => found.push((names[at], pr)),
                None => found,
            };
            lemma_found_are_unused(
                mid,
                after,
                github,
                change_id,
                names,
                at + 1,
                used,
                next,
                r,
            );
        }
    }
}

/// The branches on which requests were found are unused.
pub broadcast proof fn lemma_searched_are_unused(
    before: Seq<Event>,
    after: Seq<Event>,
    github: GitHubContextView,
    change_id: Seq<char>,
    names: Seq<Seq<char>>,
    used: Seq<Seq<char>>,
    r: Result<Seq<(Seq<char>, PrCacheEntryView)>, Seq<CauseView>>,
)
    requires
        #[trigger] all_branches_searched(before, after, github, change_id, names, used, r),
        r is Ok,
        (r->Ok_0).len() > 0,
    ensures
        !used.contains((r->Ok_0)[0].0),
{
    lemma_found_are_unused(before, after, github, change_id, names, 0, used, seq![], r);
}

broadcast proof fn lemma_discovered_is_unused(
    before: Seq<Event>,
    after: Seq<Event>,
    config: AppConfigView,
    github: GitHubContextView,
    change: ResolvedChangeView,
    used: Seq<Seq<char>>,
    r: Result<Option<SubmitHeadView>, Seq<CauseView>>,
)
    requires
        #[trigger] head_discovered(before, after, config, github, change, used, r),
        r is Ok,
        r->Ok_0 is Some,
    ensures
        !used.contains((r->Ok_0)->0.head_branch),
{
    broadcast use lemma_searched_are_unused;

}

broadcast proof fn lemma_fresh_is_unused(
    before: Seq<Event>,
    after: Seq<Event>,
    config: AppConfigView,
    github: GitHubContextView,
    change: ResolvedChangeView,
    used: Seq<Seq<char>>,
    r: Result<SubmitHeadView, Seq<CauseView>>,
)
    requires
        #[trigger] fresh_head_resolved(before, after, config, github, change, used, r),
        r is Ok,
    ensures
        !used.contains((r->Ok_0).head_branch),
{
}

/// The head that a change gets is none of those in use.
pub proof fn law_head_is_unused(
    before: Seq<Event>,
    after: Seq<Event>,
    config: AppConfigView,
    github: GitHubContextView,
    change: ResolvedChangeView,
    all: Map<(Seq<char>, Seq<char>), PrCacheEntryView>,
    used: Seq<Seq<char>>,
    r: Result<SubmitHeadView, Seq<CauseView>>,
)
    requires
        head_resolved(before, after, config, github, change, all, used, r),
        r is Ok,
    ensures
        !used.contains((r->Ok_0).head_branch),
{
    broadcast use {lemma_discovered_is_unused, lemma_fresh_is_unused};

}

} // verus!
