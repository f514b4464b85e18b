//! Pull requests: how they are named, found and checked.

use vstd::prelude::*;

use crate::bodies;
use crate::branches;
use crate::branches::{change_id_branch_prefix, head_branch_matches_change_prefix};
use crate::comments;
use crate::comments::{find_stack_comment_id, text_leading_digits};
use crate::error;
use crate::error::{CauseView, CliError, CliErrorView, Error, fail, report};
use crate::model::{
    AppConfig, AppConfigView, Duplicate, GhAuthorView, GhMergePr, GhMergePrView, GhPr, GhPrView,
    GhRepository, GhRepositoryView, GitHubContext, GitHubContextView, PrCacheEntry,
    PrCacheEntryView, ResolvedChangeView,
};
use crate::output;
use crate::output::display_command;
use crate::record;
use crate::record::{Event, Reply};
use crate::repo::gh_run;
use crate::shell::{Host, jj_checked, jj_run};
use crate::shell::wire::Shell;
use crate::stack;
use crate::stack::{DEFAULT_STACK_REVSET, resolve_stack, short_change_id, short_commit_id};
use crate::text;
use crate::text::{
    after_first, before_first, blank, cat, cat3, cat5, cat7, char_count, char_is_alnum, chars,
    copy_option, join_text, number_text, parse_text_number, same, same_ignoring_case, split_text,
    text_filled_lines, text_number_fault, text_strip_prefix, trimmed, words,
};

verus! {

broadcast use crate::record::group_record;

pub const PR_JSON_FIELDS: &'static str =
    "number,state,headRefName,baseRefName,headRefOid,baseRefOid,title,body,createdAt,id,author,headRepository";

pub const PR_API_JQ: &'static str =
    "{number,state,merged,headRefName:.head.ref,baseRefName:.base.ref,headRefOid:.head.sha,baseRefOid:.base.sha,title,body,createdAt:.created_at,id:.node_id,headRepository:{id:(.head.repo.id|tostring),node_id:.head.repo.node_id,nameWithOwner:.head.repo.full_name},baseRepository:{id:(.base.repo.id|tostring),node_id:.base.repo.node_id,nameWithOwner:.base.repo.full_name},author:{login:.user.login}}";

pub const CHANGE_ID_LINE_TEMPLATE: &'static str = "change_id ++ \"\\n\"";

pub open spec fn is_open(state: Seq<char>) -> bool {
    text::lower_all(state) == text::lower_all("OPEN"@)
}

pub fn state_is_open(state: &str) -> (r: bool)
    ensures
        r == is_open(state@),
{
    same_ignoring_case(state, "OPEN")
}

pub open spec fn pr_url(repo: Seq<char>, pr_number: u64) -> Seq<char> {
    "https://github.com/"@ + repo + "/pull/"@ + text::decimal(pr_number as nat)
}

pub fn github_pr_url(repo: &str, pr_number: u64) -> (r: String)
    ensures
        r@ == pr_url(repo@, pr_number),
{
    let mut url = "https://github.com/".to_owned();
    url.append(repo);
    url.append("/pull/");
    url.append(&number_text(pr_number));
    url
}

// ---------------------------------------------------------------------------
// Cache entries
// ---------------------------------------------------------------------------

pub open spec fn repo_or_blank(repo: Option<GhRepositoryView>) -> GhRepositoryView {
    match repo {
        Some(repo) => repo,
        None => GhRepositoryView { id: seq![], node_id: seq![], name_with_owner: seq![] },
    }
}

pub open spec fn login_or_blank(author: Option<GhAuthorView>) -> Seq<char> {
    match author {
        Some(author) => author.login,
        None => seq![],
    }
}

/// What is remembered of a pull request.
pub open spec fn entry_of(pr: GhPrView, stack_comment_id: Option<Seq<char>>) -> PrCacheEntryView {
    let head = repo_or_blank(pr.head_repository);
    let base = repo_or_blank(pr.base_repository);
    PrCacheEntryView {
        pr_number: pr.number,
        pr_node_id: pr.id,
        head_branch: pr.head_ref_name,
        base_branch: pr.base_ref_name,
        base_ref: pr.base_ref_name,
        head_repo_id: head.id,
        head_repo_node_id: head.node_id,
        head_repo_name: head.name_with_owner,
        base_repo_id: base.id,
        base_repo_node_id: base.node_id,
        base_repo_name: base.name_with_owner,
        head_sha: pr.head_ref_oid,
        base_sha: pr.base_ref_oid,
        author_login: login_or_blank(pr.author),
        title: pr.title,
        body: pr.body,
        created_at: pr.created_at,
        stack_comment_id,
    }
}

fn blank_text() -> (r: String)
    ensures
        r@ == Seq::<char>::empty(),
{
    String::new()
}

fn owned_repo(repo: Option<GhRepository>) -> (r: GhRepository)
    ensures
        r@ == repo_or_blank(repo.deep_view()),
{
    match repo {
        Some(repo) => repo,
        None => GhRepository {
            id: blank_text(),
            node_id: blank_text(),
            name_with_owner: blank_text(),
        },
    }
}

impl GhPr {
    pub fn into_cache_entry(self, stack_comment_id: Option<String>) -> (r: PrCacheEntry)
        ensures
            r@ == entry_of(self@, stack_comment_id.deep_view()),
    {
        let head = owned_repo(self.head_repository);
        let base = owned_repo(self.base_repository);
        let author_login = match self.author {
            Some(author) => author.login,
            None => blank_text(),
        };
        PrCacheEntry {
            pr_number: self.number,
            pr_node_id: self.id,
            head_branch: self.head_ref_name,
            base_branch: self.base_ref_name.clone(),
            base_ref: self.base_ref_name,
            head_repo_id: head.id,
            head_repo_node_id: head.node_id,
            head_repo_name: head.name_with_owner,
            base_repo_id: base.id,
            base_repo_node_id: base.node_id,
            base_repo_name: base.name_with_owner,
            head_sha: self.head_ref_oid,
            base_sha: self.base_ref_oid,
            author_login,
            title: self.title,
            body: self.body,
            created_at: self.created_at,
            stack_comment_id,
        }
    }
}

pub open spec fn merge_entry_of(
    pr: GhMergePrView,
    stack_comment_id: Option<Seq<char>>,
) -> PrCacheEntryView {
    PrCacheEntryView {
        pr_number: pr.number,
        pr_node_id: seq![],
        head_branch: pr.head_ref_name,
        base_branch: pr.base_ref_name,
        base_ref: pr.base_ref_name,
        head_repo_id: seq![],
        head_repo_node_id: seq![],
        head_repo_name: seq![],
        base_repo_id: seq![],
        base_repo_node_id: seq![],
        base_repo_name: seq![],
        head_sha: pr.head_ref_oid,
        base_sha: pr.base_ref_oid,
        author_login: seq![],
        title: pr.title,
        body: pr.body,
        created_at: pr.created_at,
        stack_comment_id,
    }
}

impl GhMergePr {
    pub fn into_cache_entry(self, stack_comment_id: Option<String>) -> (r: PrCacheEntry)
        ensures
            r@ == merge_entry_of(self@, stack_comment_id.deep_view()),
    {
        PrCacheEntry {
            pr_number: self.number,
            pr_node_id: blank_text(),
            head_branch: self.head_ref_name,
            base_branch: self.base_ref_name.clone(),
            base_ref: self.base_ref_name,
            head_repo_id: blank_text(),
            head_repo_node_id: blank_text(),
            head_repo_name: blank_text(),
            base_repo_id: blank_text(),
            base_repo_node_id: blank_text(),
            base_repo_name: blank_text(),
            head_sha: self.head_ref_oid,
            base_sha: self.base_ref_oid,
            author_login: blank_text(),
            title: self.title,
            body: self.body,
            created_at: self.created_at,
            stack_comment_id,
        }
    }
}

// ---------------------------------------------------------------------------
// Complete metadata
// ---------------------------------------------------------------------------

pub open spec fn missing_repo(number: u64, role: Seq<char>) -> Seq<CauseView> {
    error::plain("PR #"@ + text::decimal(number as nat) + " is missing "@ + role + " repository metadata"@)
}

pub open spec fn repo_result(pr: GhPrView, role: Seq<char>) -> Result<
    GhRepositoryView,
    Seq<CauseView>,
> {
    let repo = if role == "head"@ {
        pr.head_repository
    } else {
        pr.base_repository
    };
    match repo {
        Some(repo) => Ok(repo),
        None => Err(missing_repo(pr.number, role)),
    }
}

/// The repository that a pull request comes from (`head`) or goes to (`base`).
pub fn get_pr_repo(pr: &GhPr, role: &str) -> (r: Result<GhRepository, Error>)
    requires
        role@ == "head"@ || role@ == "base"@,
    ensures
        error::res(r) == repo_result(pr@, role@),
{
    let repo = if same(role, "head") {
        &pr.head_repository
    } else {
        &pr.base_repository
    };
    match repo {
        Some(repo) => Ok(repo.copy()),
        None => Err(
            fail(
                &cat5("PR #", &number_text(pr.number), " is missing ", role, " repository metadata"),
            ),
        ),
    }
}

/// The first blank field of a pull request, by the name that GitHub gives it.
pub open spec fn blank_field(pr: GhPrView) -> Option<Seq<char>> {
    if text::is_blank(pr.id) {
        Some("id"@)
    } else if text::is_blank(pr.state) {
        Some("state"@)
    } else if text::is_blank(pr.head_ref_name) {
        Some("headRefName"@)
    } else if text::is_blank(pr.base_ref_name) {
        Some("baseRefName"@)
    } else if text::is_blank(pr.head_ref_oid) {
        Some("headRefOid"@)
    } else if text::is_blank(pr.base_ref_oid) {
        Some("baseRefOid"@)
    } else if text::is_blank(pr.title) {
        Some("title"@)
    } else if text::is_blank(pr.created_at) {
        Some("createdAt"@)
    } else {
        match pr.author {
            None => Some("author"@),
            Some(author) => if text::is_blank(author.login) {
                Some("author.login"@)
            } else {
                None
            },
        }
    }
}

fn find_blank_field(pr: &GhPr) -> (r: Option<String>)
    ensures
        r.deep_view() == blank_field(pr@),
{
    if blank(&pr.id) {
        Some("id".to_owned())
    } else if blank(&pr.state) {
        Some("state".to_owned())
    } else if blank(&pr.head_ref_name) {
        Some("headRefName".to_owned())
    } else if blank(&pr.base_ref_name) {
        Some("baseRefName".to_owned())
    } else if blank(&pr.head_ref_oid) {
        Some("headRefOid".to_owned())
    } else if blank(&pr.base_ref_oid) {
        Some("baseRefOid".to_owned())
    } else if blank(&pr.title) {
        Some("title".to_owned())
    } else if blank(&pr.created_at) {
        Some("createdAt".to_owned())
    } else {
        match &pr.author {
            None => Some("author".to_owned()),
            Some(author) => if blank(&author.login) {
                Some("author.login".to_owned())
            } else {
                None
            },
        }
    }
}

pub open spec fn blank_repo_field(repo: GhRepositoryView) -> Option<Seq<char>> {
    if text::is_blank(repo.id) {
        Some("id"@)
    } else if text::is_blank(repo.node_id) {
        Some("node_id"@)
    } else if text::is_blank(repo.name_with_owner) {
        Some("nameWithOwner"@)
    } else {
        None
    }
}

fn find_blank_repo_field(repo: &GhRepository) -> (r: Option<String>)
    ensures
        r.deep_view() == blank_repo_field(repo@),
{
    if blank(&repo.id) {
        Some("id".to_owned())
    } else if blank(&repo.node_id) {
        Some("node_id".to_owned())
    } else if blank(&repo.name_with_owner) {
        Some("nameWithOwner".to_owned())
    } else {
        None
    }
}

pub open spec fn missing_field(repo: Seq<char>, number: u64, field: Seq<char>) -> Seq<CauseView> {
    error::plain(
        "get PR metadata for "@ + repo + "/"@ + text::decimal(number as nat)
            + " is missing required field `"@ + field + "`"@,
    )
}

fn missing_field_error(repo: &str, number: u64, field: &str) -> (r: Error)
    ensures
        r@ == missing_field(repo@, number, field@),
{
    fail(
        &cat7(
            "get PR metadata for ",
            repo,
            "/",
            &number_text(number),
            " is missing required field `",
            field,
            "`",
        ),
    )
}

/// What is missing of one repository of a pull request.
pub open spec fn repo_gap(repo: Seq<char>, pr: GhPrView, role: Seq<char>) -> Option<
    Seq<CauseView>,
> {
    match repo_result(pr, role) {
        Err(e) => Some(e),
        Ok(found) => match blank_repo_field(found) {
            Some(field) => Some(missing_field(repo, pr.number, role + "Repository."@ + field)),
            None => None,
        },
    }
}

/// What is missing of a pull request, if anything is.
pub open spec fn metadata_gap(repo: Seq<char>, pr: GhPrView) -> Option<Seq<CauseView>> {
    if pr.number == 0 {
        Some(error::plain("get PR metadata from "@ + repo + " has invalid PR number 0"@))
    } else {
        match blank_field(pr) {
            Some(field) => Some(missing_field(repo, pr.number, field)),
            None => match repo_gap(repo, pr, "head"@) {
                Some(e) => Some(e),
                None => repo_gap(repo, pr, "base"@),
            },
        }
    }
}

fn check_repo(repo: &str, pr: &GhPr, role: &str) -> (r: Result<(), Error>)
    requires
        role@ == "head"@ || role@ == "base"@,
    ensures
        error::res_of(r) == match repo_gap(repo@, pr@, role@) {
            Some(e) => Err(e),
            None => Ok(()),
        },
{
    match get_pr_repo(pr, role) {
        Err(error) => Err(error),
        Ok(found) => match find_blank_repo_field(&found) {
            Some(field) => Err(
                missing_field_error(repo, pr.number, &cat3(role, "Repository.", &field)),
            ),
            None => Ok(()),
        },
    }
}

pub fn validate_get_pr_metadata(github: &GitHubContext, pr: &GhPr) -> (r: Result<(), Error>)
    ensures
        error::res_of(r) == match metadata_gap(github@.repo, pr@) {
            Some(e) => Err(e),
            None => Ok(()),
        },
{
    if pr.number == 0 {
        return Err(
            fail(&cat3("get PR metadata from ", &github.repo, " has invalid PR number 0")),
        );
    }
    if let Some(field) = find_blank_field(pr) {
        return Err(missing_field_error(&github.repo, pr.number, &field));
    }
    match check_repo(&github.repo, pr, "head") {
        Ok(_) => check_repo(&github.repo, pr, "base"),
        Err(error) => Err(error),
    }
}

// ---------------------------------------------------------------------------
// Stacks of pull requests
// ---------------------------------------------------------------------------

pub open spec fn numbers_of(prs: Seq<GhPrView>) -> Seq<u64> {
    prs.map_values(|pr: GhPrView| pr.number)
}

pub open spec fn hash(number: u64) -> Seq<char> {
    "PR #"@ + text::decimal(number as nat)
}

pub fn hash_text(number: u64) -> (r: String)
    ensures
        r@ == hash(number),
{
    cat("PR #", &number_text(number))
}

/// The failure of a pull request that comes from, or goes to, another repository.
pub open spec fn fork_failure(number: u64, role: Seq<char>, name: Seq<char>, repo: Seq<char>) -> Seq<
    CauseView,
> {
    error::reported(
        error::cli(
            "fork-backed "@ + hash(number) + " is unsupported for get: "@ + role + " repo is `"@
                + name + "`, expected `"@ + repo + "`"@,
        ),
    )
}

fn fork_error(number: u64, role: &str, name: &str, repo: &str) -> (r: Error)
    ensures
        r@ == fork_failure(number, role@, name@, repo@),
{
    let mut message = "fork-backed ".to_owned();
    message.append(&hash_text(number));
    message.append(" is unsupported for get: ");
    message.append(role);
    message.append(" repo is `");
    message.append(name);
    message.append("`, expected `");
    message.append(repo);
    message.append("`");
    report(CliError::new(&message))
}

/// What is wrong with the place of a pull request in its stack: the bottom one goes to trunk, every
/// other one to the head of the one below, at the commit it has.
pub open spec fn place_fault(
    config: AppConfigView,
    prs: Seq<GhPrView>,
    i: int,
    base_name: Seq<char>,
) -> Option<Seq<CauseView>> {
    let pr = prs[i];
    if i == 0 {
        if pr.base_ref_name != config.trunk {
            Some(
                error::reported(
                    error::cli(
                        "stack topology mismatch for bottom "@ + hash(pr.number)
                            + ": base branch is `"@ + pr.base_ref_name + "`, expected trunk `"@
                            + config.trunk + "`"@,
                    ),
                ),
            )
        } else {
            None
        }
    } else {
        let previous = prs[i - 1];
        match repo_result(previous, "head"@) {
            Err(e) => Some(e),
            Ok(previous_repo) => if base_name != previous_repo.name_with_owner || pr.base_ref_name
                != previous.head_ref_name {
                Some(
                    error::reported(
                        error::cli(
                            "stack topology mismatch for "@ + hash(pr.number) + ": base is `"@
                                + base_name + "/"@ + pr.base_ref_name + "`, expected previous "@
                                + hash(previous.number) + " head `"@
                                + previous_repo.name_with_owner + "/"@ + previous.head_ref_name
                                + "`"@,
                        ),
                    ),
                )
            } else if pr.base_ref_oid != previous.head_ref_oid {
                Some(
                    error::reported(
                        error::cli(
                            "stack topology mismatch for "@ + hash(pr.number) + ": base SHA is "@
                                + stack::short_id(pr.base_ref_oid) + ", expected previous "@ + hash(
                                previous.number,
                            ) + " head SHA "@ + stack::short_id(previous.head_ref_oid),
                        ),
                    ),
                )
            } else {
                None
            },
        }
    }
}

/// What is wrong with one pull request of a stack.
pub open spec fn stack_pr_fault(
    config: AppConfigView,
    github: GitHubContextView,
    prs: Seq<GhPrView>,
    i: int,
) -> Option<Seq<CauseView>> {
    let pr = prs[i];
    if numbers_of(prs.take(i)).contains(pr.number) {
        Some(error::plain("stack comment listed "@ + hash(pr.number) + " more than once"@))
    } else if metadata_gap(github.repo, pr) is Some {
        metadata_gap(github.repo, pr)
    } else if !is_open(pr.state) {
        Some(
            error::reported(
                error::cli(hash(pr.number) + " is "@ + pr.state + ", expected open"@).fixed_by(
                    "get only supports open PRs"@,
                ),
            ),
        )
    } else {
        match (repo_result(pr, "head"@), repo_result(pr, "base"@)) {
            (Err(e), _) => Some(e),
            (_, Err(e)) => Some(e),
            (Ok(head), Ok(base)) => if head.name_with_owner != github.repo {
                Some(fork_failure(pr.number, "head"@, head.name_with_owner, github.repo))
            } else if base.name_with_owner != github.repo {
                Some(fork_failure(pr.number, "base"@, base.name_with_owner, github.repo))
            } else {
                place_fault(config, prs, i, base.name_with_owner)
            },
        }
    }
}

pub open spec fn stack_fault_from(
    config: AppConfigView,
    github: GitHubContextView,
    prs: Seq<GhPrView>,
    i: int,
) -> Option<Seq<CauseView>>
    decreases prs.len() - i,
{
    if i < 0 || i >= prs.len() {
        None
    } else {
        match stack_pr_fault(config, github, prs, i) {
            Some(e) => Some(e),
            None => stack_fault_from(config, github, prs, i + 1),
        }
    }
}

/// What is wrong with a stack of pull requests that holds `target`, bottom first.
pub open spec fn pr_stack_fault(
    config: AppConfigView,
    github: GitHubContextView,
    target: u64,
    prs: Seq<GhPrView>,
) -> Option<Seq<CauseView>> {
    if prs.len() == 0 {
        Some(error::plain("get resolved an empty PR stack"@))
    } else if !numbers_of(prs).contains(target) {
        Some(error::plain("stack comment for "@ + hash(target) + " did not include the target PR"@))
    } else {
        stack_fault_from(config, github, prs, 0)
    }
}

fn number_before(prs: &Vec<GhPr>, n: usize, number: u64) -> (r: bool)
    requires
        n <= prs@.len(),
    ensures
        r == numbers_of(prs.deep_view().take(n as int)).contains(number),
{
    let ghost all = numbers_of(prs.deep_view().take(n as int));
    let mut i: usize = 0;
    while i < n
        invariant
            i <= n <= prs@.len(),
            all == numbers_of(prs.deep_view().take(n as int)),
            forall|k: int| 0 <= k < i ==> all[k] != number,
        decreases n - i,
    {
        assert(all[i as int] == prs@[i as int].number);
        if prs[i].number == number {
            return true;
        }
        i = i + 1;
    }
    false
}

fn check_place(config: &AppConfig, prs: &Vec<GhPr>, i: usize, base_name: &str) -> (r: Result<
    (),
    Error,
>)
    requires
        i < prs@.len(),
    ensures
        error::res_of(r) == match place_fault(config@, prs.deep_view(), i as int, base_name@) {
            Some(e) => Err(e),
            None => Ok(()),
        },
{
    let pr = &prs[i];
    assert(prs.deep_view()[i as int] == pr@);
    if i == 0 {
        if !same(&pr.base_ref_name, &config.trunk) {
            let mut message = "stack topology mismatch for bottom ".to_owned();
            message.append(&hash_text(pr.number));
            message.append(": base branch is `");
            message.append(&pr.base_ref_name);
            message.append("`, expected trunk `");
            message.append(&config.trunk);
            message.append("`");
            return Err(report(CliError::new(&message)));
        }
        return Ok(());
    }
    let previous = &prs[i - 1];
    assert(prs.deep_view()[i - 1] == previous@);
    let previous_repo = match get_pr_repo(previous, "head") {
        Ok(repo) => repo,
        Err(error) => return Err(error),
    };
    if !same(base_name, &previous_repo.name_with_owner) || !same(
        &pr.base_ref_name,
        &previous.head_ref_name,
    ) {
        let mut message = "stack topology mismatch for ".to_owned();
        message.append(&hash_text(pr.number));
        message.append(": base is `");
        message.append(base_name);
        message.append("/");
        message.append(&pr.base_ref_name);
        message.append("`, expected previous ");
        message.append(&hash_text(previous.number));
        message.append(" head `");
        message.append(&previous_repo.name_with_owner);
        message.append("/");
        message.append(&previous.head_ref_name);
        message.append("`");
        return Err(report(CliError::new(&message)));
    }
    if !same(&pr.base_ref_oid, &previous.head_ref_oid) {
        let mut message = "stack topology mismatch for ".to_owned();
        message.append(&hash_text(pr.number));
        message.append(": base SHA is ");
        message.append(&short_commit_id(&pr.base_ref_oid));
        message.append(", expected previous ");
        message.append(&hash_text(previous.number));
        message.append(" head SHA ");
        message.append(&short_commit_id(&previous.head_ref_oid));
        return Err(report(CliError::new(&message)));
    }
    Ok(())
}

fn check_stack_pr(config: &AppConfig, github: &GitHubContext, prs: &Vec<GhPr>, i: usize) -> (r:
    Result<(), Error>)
    requires
        i < prs@.len(),
    ensures
        error::res_of(r) == match stack_pr_fault(config@, github@, prs.deep_view(), i as int) {
            Some(e) => Err(e),
            None => Ok(()),
        },
{
    let pr = &prs[i];
    assert(prs.deep_view()[i as int] == pr@);
    if number_before(prs, i, pr.number) {
        return Err(
            fail(&cat3("stack comment listed ", &hash_text(pr.number), " more than once")),
        );
    }
    match validate_get_pr_metadata(github, pr) {
        Ok(_) => {},
        Err(error) => return Err(error),
    }
    if !state_is_open(&pr.state) {
        let mut message = hash_text(pr.number);
        message.append(" is ");
        message.append(&pr.state);
        message.append(", expected open");
        return Err(
            report(CliError::new(&message).resolution("get only supports open PRs")),
        );
    }
    let head = match get_pr_repo(pr, "head") {
        Ok(repo) => repo,
        Err(error) => return Err(error),
    };
    let base = match get_pr_repo(pr, "base") {
        Ok(repo) => repo,
        Err(error) => return Err(error),
    };
    if !same(&head.name_with_owner, &github.repo) {
        return Err(fork_error(pr.number, "head", &head.name_with_owner, &github.repo));
    }
    if !same(&base.name_with_owner, &github.repo) {
        return Err(fork_error(pr.number, "base", &base.name_with_owner, &github.repo));
    }
    check_place(config, prs, i, &base.name_with_owner)
}

pub fn validate_get_pr_stack(
    config: &AppConfig,
    github: &GitHubContext,
    target_pr_number: u64,
    prs: &Vec<GhPr>,
) -> (r: Result<(), Error>)
    ensures
        error::res_of(r) == match pr_stack_fault(config@, github@, target_pr_number, prs.deep_view()) {
            Some(e) => Err(e),
            None => Ok(()),
        },
{
    if prs.len() == 0 {
        return Err(fail("get resolved an empty PR stack"));
    }
    assert(prs.deep_view().take(prs@.len() as int) =~= prs.deep_view());
    if !number_before(prs, prs.len(), target_pr_number) {
        return Err(
            fail(
                &cat3(
                    "stack comment for ",
                    &hash_text(target_pr_number),
                    " did not include the target PR",
                ),
            ),
        );
    }
    let mut i: usize = 0;
    while i < prs.len()
        invariant
            i <= prs@.len(),
            prs@.len() > 0,
            numbers_of(prs.deep_view()).contains(target_pr_number),
            stack_fault_from(config@, github@, prs.deep_view(), 0) == stack_fault_from(
                config@,
                github@,
                prs.deep_view(),
                i as int,
            ),
        decreases prs@.len() - i,
    {
        match check_stack_pr(config, github, prs, i) {
            Ok(_) => {},
            Err(error) => return Err(error),
        }
        i = i + 1;
    }
    Ok(())
}

proof fn lemma_sound_prefix(
    config: AppConfigView,
    github: GitHubContextView,
    prs: Seq<GhPrView>,
    from: int,
    k: int,
)
    requires
        0 <= from <= k < prs.len(),
        stack_fault_from(config, github, prs, from) is None,
    ensures
        stack_pr_fault(config, github, prs, k) is None,
    decreases k - from,
{
    if from < k {
        lemma_sound_prefix(config, github, prs, from + 1, k);
    }
}

/// An accepted stack of pull requests is a row: all open, no number twice, the bottom one against
/// trunk, and every other one against the head branch and head commit of the one below.
pub proof fn law_accepted_pr_stack_is_a_row(
    config: AppConfigView,
    github: GitHubContextView,
    target: u64,
    prs: Seq<GhPrView>,
)
    requires
        pr_stack_fault(config, github, target, prs) is None,
    ensures
        prs.len() > 0,
        numbers_of(prs).contains(target),
        numbers_of(prs).no_duplicates(),
        prs[0].base_ref_name == config.trunk,
        forall|k: int| 0 <= k < prs.len() ==> is_open((#[trigger] prs[k]).state),
        forall|k: int|
            0 < k < prs.len() ==> (#[trigger] prs[k]).base_ref_name == prs[k - 1].head_ref_name
                && prs[k].base_ref_oid == prs[k - 1].head_ref_oid,
{
    assert forall|k: int| 0 <= k < prs.len() implies stack_pr_fault(config, github, prs, k)
        is None by {
        lemma_sound_prefix(config, github, prs, 0, k);
    }
    assert forall|k: int| 0 <= k < prs.len() implies is_open((#[trigger] prs[k]).state) by {
        assert(stack_pr_fault(config, github, prs, k) is None);
    }
    assert forall|k: int| 0 < k < prs.len() implies (#[trigger] prs[k]).base_ref_name == prs[k
        - 1].head_ref_name && prs[k].base_ref_oid == prs[k - 1].head_ref_oid by {
        assert(stack_pr_fault(config, github, prs, k) is None);
    }
    assert(stack_pr_fault(config, github, prs, 0) is None);
    let all = numbers_of(prs);
    assert forall|i: int, j: int| 0 <= i < all.len() && 0 <= j < all.len() && i
        != j implies all[i] != all[j] by {
        let a = if i < j {
            i
        } else {
            j
        };
        let b = if i < j {
            j
        } else {
            i
        };
        assert(stack_pr_fault(config, github, prs, b) is None);
        if all[i] == all[j] {
            assert(numbers_of(prs.take(b))[a] == prs[b].number);
        }
    }
}

// ---------------------------------------------------------------------------
// Targets
// ---------------------------------------------------------------------------

/// What the user points at.
pub enum GetTarget {
    PullRequest { repo: String, number: u64 },
    BranchOrChange { repo: String, value: String },
}

pub enum GetTargetView {
    PullRequest { repo: Seq<char>, number: u64 },
    BranchOrChange { repo: Seq<char>, value: Seq<char> },
}

impl View for GetTarget {
    type V = GetTargetView;

    open spec fn view(&self) -> GetTargetView {
        match self {
            GetTarget::PullRequest { repo, number } => GetTargetView::PullRequest {
                repo: repo@,
                number: *number,
            },
            GetTarget::BranchOrChange { repo, value } => GetTargetView::BranchOrChange {
                repo: repo@,
                value: value@,
            },
        }
    }
}

impl DeepView for GetTarget {
    type V = GetTargetView;

    open spec fn deep_view(&self) -> GetTargetView {
        self@
    }
}

impl GetTargetView {
    pub open spec fn place(self) -> Seq<char> {
        match self {
            GetTargetView::PullRequest { repo, number } => repo,
            GetTargetView::BranchOrChange { repo, value } => repo,
        }
    }
}

impl GetTarget {
    pub fn repo(&self) -> (r: String)
        ensures
            r@ == self@.place(),
    {
        match self {
            GetTarget::PullRequest { repo, .. } => repo.clone(),
            GetTarget::BranchOrChange { repo, .. } => repo.clone(),
        }
    }
}

pub open spec fn branch_target(target: Seq<char>) -> Seq<char> {
    match text::strip_prefix(target, "refs/heads/"@) {
        Some(rest) => rest,
        None => target,
    }
}

pub fn normalize_get_branch_target(target: &str) -> (r: String)
    ensures
        r@ == branch_target(target@),
{
    match text_strip_prefix(target, "refs/heads/") {
        Some(rest) => rest,
        None => target.to_owned(),
    }
}

pub open spec fn target_help() -> Seq<char> {
    "pass a PR number, GitHub pull request URL, branch name, or change id prefix"@
}

/// The part of a target between its first `github.com/` and the next one.
pub open spec fn after_host(target: Seq<char>) -> Option<Seq<char>> {
    match text::find(target, "github.com/"@) {
        None => None,
        Some(i) => {
            let rest = target.skip(i + "github.com/"@.len());
            match text::find(rest, "github.com/"@) {
                Some(j) => Some(rest.take(j)),
                None => Some(rest),
            }
        },
    }
}

/// What a target says: a number or the URL of a pull request, else the name of a branch or a change.
pub open spec fn target_meaning(target: Seq<char>, default_repo: Seq<char>) -> Result<
    GetTargetView,
    Seq<CauseView>,
> {
    let target = text::trim(target);
    if target.len() == 0 {
        Err(error::reported(error::cli("missing get target"@).fixed_by(target_help())))
    } else {
        match text::parse_number(target) {
            Some(n) => Ok(
                GetTargetView::PullRequest { repo: default_repo, number: n as u64 },
            ),
            None => match after_host(target) {
                None => Ok(
                    GetTargetView::BranchOrChange {
                        repo: default_repo,
                        value: branch_target(target),
                    },
                ),
                Some(path) => {
                    let parts = text::split(path, '/');
                    if parts.len() < 4 || parts[2] != "pull"@ {
                        Err(
                            error::reported(
                                error::cli("invalid get target `"@ + target + "`"@).fixed_by(
                                    target_help(),
                                ),
                            ),
                        )
                    } else {
                        let digits = comments::leading_digits(parts[3]);
                        match text::parse_number(digits) {
                            Some(n) => Ok(
                                GetTargetView::PullRequest {
                                    repo: parts[0] + "/"@ + parts[1],
                                    number: n as u64,
                                },
                            ),
                            None => Err(
                                error::in_context(
                                    "parse PR number from `"@ + target + "`"@,
                                    error::plain(text::number_fault(digits)),
                                ),
                            ),
                        }
                    }
                },
            },
        }
    }
}

pub fn parse_get_target(target: &str, default_repo: &str) -> (r: Result<GetTarget, Error>)
    ensures
        error::res(r) == target_meaning(target@, default_repo@),
{
    let help = "pass a PR number, GitHub pull request URL, branch name, or change id prefix";
    let target = trimmed(target);
    if target.as_str().is_empty() {
        return Err(report(CliError::new("missing get target").resolution(help)));
    }
    if let Some(number) = parse_text_number(&target) {
        return Ok(GetTarget::PullRequest { repo: default_repo.to_owned(), number });
    }
    let rest = match after_first(&target, "github.com/") {
        Some(rest) => rest,
        None => return Ok(
            GetTarget::BranchOrChange {
                repo: default_repo.to_owned(),
                value: normalize_get_branch_target(&target),
            },
        ),
    };
    let path = match before_first(&rest, "github.com/") {
        Some(path) => path,
        None => rest,
    };
    assert(after_host(target@) == Some(path@));
    let parts = split_text(&path, '/');
    let ghost p = parts.deep_view();
    assert(p == text::split(path@, '/'));
    if parts.len() >= 4 {
        assert(p[0] == parts@[0]@ && p[1] == parts@[1]@ && p[2] == parts@[2]@ && p[3]
            == parts@[3]@);
    }
    if parts.len() < 4 || !same(&parts[2], "pull") {
        return Err(
            report(
                CliError::new(&cat3("invalid get target `", &target, "`")).resolution(help),
            ),
        );
    }
    let digits = text_leading_digits(&parts[3]);
    match parse_text_number(&digits) {
        Some(number) => Ok(
            GetTarget::PullRequest { repo: cat3(&parts[0], "/", &parts[1]), number },
        ),
        None => Err(
            fail(&text_number_fault(&digits)).context(
                &cat3("parse PR number from `", &target, "`"),
            ),
        ),
    }
}

pub open spec fn all_alnum(s: Seq<char>) -> bool {
    forall|i: int| 0 <= i < s.len() ==> text::is_alnum(#[trigger] s[i])
}

fn text_all_alnum(s: &str) -> (r: bool)
    ensures
        r == all_alnum(s@),
{
    let v = chars(s);
    let mut i: usize = 0;
    while i < v.len()
        invariant
            i <= v@.len(),
            v@ == s@,
            forall|k: int| 0 <= k < i ==> text::is_alnum(#[trigger] v@[k]),
        decreases v@.len() - i,
    {
        if !char_is_alnum(v[i]) {
            assert(!text::is_alnum(s@[i as int]));
            return false;
        }
        i = i + 1;
    }
    true
}

/// The branch prefix that a target stands for if it looks like a change id of at least eight
/// characters.
pub open spec fn change_prefix_of(target: Seq<char>) -> Option<Seq<char>> {
    if target.len() < 8 || !all_alnum(target) {
        None
    } else {
        Some(branches::branch_prefix_of(target))
    }
}

pub fn change_prefix_get_target(target: &str) -> (r: Option<String>)
    ensures
        r.deep_view() == change_prefix_of(target@),
{
    if char_count(target) < 8 || !text_all_alnum(target) {
        None
    } else {
        Some(change_id_branch_prefix(target))
    }
}

pub open spec fn change_id_args(rev: Seq<char>) -> Seq<Seq<char>> {
    seq!["log"@, "--no-graph"@, "-r"@, rev, "-T"@, CHANGE_ID_LINE_TEMPLATE@]
}

/// The record from `before` to `after` holds the question to jj for the full id of a change, if the
/// target can be the start of one.
pub open spec fn change_id_expanded(
    before: Seq<Event>,
    after: Seq<Event>,
    target: Seq<char>,
    r: Option<Seq<char>>,
) -> bool {
    if target.len() == 0 || !all_alnum(target) {
        after == before && r is None
    } else {
        &&& record::called(before, after, "jj"@, change_id_args(target))
        &&& r == match record::last_reply(after) {
            Err(e) => None,
            Ok(output) => {
                let ids = text::filled_lines(output.stdout);
                if output.success && ids.len() == 1 {
                    Some(ids[0])
                } else {
                    None
                }
            },
        }
    }
}

/// The full id of the one local change that a short id stands for.
pub fn expand_local_change_id<H: Host>(sh: &mut Shell<H>, target: &str) -> (r: Option<String>)
    ensures
        record::extends(old(sh).log(), final(sh).log()),
        change_id_expanded(old(sh).log(), final(sh).log(), target@, r.deep_view()),
{
    if target.is_empty() || !text_all_alnum(target) {
        return None;
    }
    let args = words(&["log", "--no-graph", "-r", target, "-T", CHANGE_ID_LINE_TEMPLATE]);
    assert(args.deep_view() =~= change_id_args(target@));
    let reply = jj_run(sh, &args);
    match reply {
        Err(_) => None,
        Ok(output) => {
            if !output.success {
                return None;
            }
            let ids = text_filled_lines(&output.stdout);
            if ids.len() == 1 {
                assert(ids.deep_view()[0] == ids@[0]@);
                Some(ids[0].clone())
            } else {
                None
            }
        },
    }
}

pub open spec fn current_change_result(reply: Reply) -> Result<Seq<char>, Seq<CauseView>> {
    match output::checked("jj"@, change_id_args("@"@), reply) {
        Err(e) => Err(e),
        Ok(output) => {
            let ids = text::filled_lines(output.stdout);
            if ids.len() > 0 {
                Ok(ids[0])
            } else {
                Err(error::plain("resolve current change id from `@`"@))
            }
        },
    }
}

/// The change id of the working copy.
pub fn current_change_id<H: Host>(sh: &mut Shell<H>) -> (r: Result<String, Error>)
    ensures
        record::called(old(sh).log(), final(sh).log(), "jj"@, change_id_args("@"@)),
        error::res(r) == current_change_result(record::last_reply(final(sh).log())),
{
    let args = words(&["log", "--no-graph", "-r", "@", "-T", CHANGE_ID_LINE_TEMPLATE]);
    assert(args.deep_view() =~= change_id_args("@"@));
    match jj_checked(sh, &args) {
        Err(error) => Err(error),
        Ok(output) => {
            let ids = text_filled_lines(&output.stdout);
            if ids.len() > 0 {
                assert(ids.deep_view()[0] == ids@[0]@);
                Ok(ids[0].clone())
            } else {
                Err(fail("resolve current change id from `@`"))
            }
        },
    }
}

// ---------------------------------------------------------------------------
// Fetching pull requests
// ---------------------------------------------------------------------------

pub open spec fn pr_args(repo: Seq<char>, number: u64) -> Seq<Seq<char>> {
    seq![
        "api"@,
        "repos/"@ + repo + "/pulls/"@ + text::decimal(number as nat),
        "--jq"@,
        PR_API_JQ@,
    ]
}

/// The record from `before` to `after` holds the request for one pull request and the reading of the
/// answer.
pub open spec fn pr_fetched(
    before: Seq<Event>,
    after: Seq<Event>,
    repo: Seq<char>,
    change_id: Seq<char>,
    number: u64,
    r: Result<GhPrView, Seq<CauseView>>,
) -> bool {
    let n = before.len() as int;
    &&& record::extends(before, after)
    &&& after.len() > n
    &&& record::is_call(after[n], "gh"@, pr_args(repo, number))
    &&& match record::reply_of(after[n]) {
        Err(e) => after.len() == n + 1 && r == Err::<GhPrView, _>(e),
        Ok(output) => if !output.success {
            after.len() == n + 1 && r == Err::<GhPrView, _>(
                error::reported(
                    error::cli(
                        "missing cached PR for "@ + repo + "/"@ + stack::short_id(change_id)
                            + ": cache points to "@ + hash(number) + " but gh could not load it"@,
                    ).because(text::trim(output.stderr)),
                ),
            )
        } else {
            &&& after.len() == n + 2
            &&& after[n + 1] is PrRead && after[n + 1]->PrRead_json == output.stdout
            &&& r == match after[n + 1]->pr {
                Ok(pr) => Ok(pr),
                Err(e) => Err(
                    error::in_context(
                        "parse GitHub "@ + hash(number) + " metadata"@,
                        e,
                    ),
                ),
            }
        },
    }
}

pub fn fetch_pr_by_number<H: Host>(
    sh: &mut Shell<H>,
    github: &GitHubContext,
    change_id: &str,
    pr_number: u64,
) -> (r: Result<GhPr, Error>)
    ensures
        record::extends(old(sh).log(), final(sh).log()),
        pr_fetched(
            old(sh).log(),
            final(sh).log(),
            github@.repo,
            change_id@,
            pr_number,
            error::res(r),
        ),
{
    let ghost start = sh.log();
    let ghost n = start.len() as int;
    let mut endpoint = cat3("repos/", &github.repo, "/pulls/");
    endpoint.append(&number_text(pr_number));
    let args = words(&["api", &endpoint, "--jq", PR_API_JQ]);
    assert(args.deep_view() =~= pr_args(github@.repo, pr_number));
    let reply = gh_run(sh, &args);
    let ghost mid = sh.log();
    let output = match reply {
        Ok(output) => output,
        Err(error) => return Err(error),
    };
    if !output.success {
        let mut message = "missing cached PR for ".to_owned();
        message.append(&github.repo);
        message.append("/");
        message.append(&short_change_id(change_id));
        message.append(": cache points to ");
        message.append(&hash_text(pr_number));
        message.append(" but gh could not load it");
        return Err(report(CliError::new(&message).reason(&trimmed(&output.stderr))));
    }
    let pr = sh.read_pr(&output.stdout);
    assert(sh.log()[n] == mid[n]);
    match pr {
        Ok(pr) => Ok(pr),
        Err(error) => Err(
            error.context(&cat3("parse GitHub ", &hash_text(pr_number), " metadata")),
        ),
    }
}

pub open spec fn open_prs_args(repo: Seq<char>) -> Seq<Seq<char>> {
    seq![
        "pr"@,
        "list"@,
        "--repo"@,
        repo,
        "--state"@,
        "open"@,
        "--json"@,
        PR_JSON_FIELDS@,
        "--limit"@,
        "200"@,
    ]
}

/// The record from `before` to `after` holds the request for the open pull requests and the reading
/// of the answer.
pub open spec fn open_prs_listed(
    before: Seq<Event>,
    after: Seq<Event>,
    repo: Seq<char>,
    purpose: Seq<char>,
    r: Result<Seq<GhPrView>, Seq<CauseView>>,
) -> bool {
    let n = before.len() as int;
    &&& record::extends(before, after)
    &&& after.len() > n
    &&& record::is_call(after[n], "gh"@, open_prs_args(repo))
    &&& match record::reply_of(after[n]) {
        Err(e) => after.len() == n + 1 && r == Err::<Seq<GhPrView>, _>(e),
        Ok(output) => if !output.success {
            after.len() == n + 1 && r == Err::<Seq<GhPrView>, _>(
                error::plain(
                    "`"@ + output::shown("gh"@, open_prs_args(repo))
                        + "` failed while listing open PRs for "@ + purpose + ": "@ + text::trim(
                        output.stderr,
                    ),
                ),
            )
        } else {
            &&& after.len() == n + 2
            &&& after[n + 1] is PrsRead && after[n + 1]->PrsRead_json == output.stdout
            &&& r == match after[n + 1]->prs {
                Ok(prs) => Ok(prs),
                Err(e) => Err(
                    error::in_context(
                        "parse open PR list while resolving "@ + purpose + " target"@,
                        e,
                    ),
                ),
            }
        },
    }
}

pub fn list_open_prs<H: Host>(sh: &mut Shell<H>, github: &GitHubContext, purpose: &str) -> (r:
    Result<Vec<GhPr>, Error>)
    ensures
        record::extends(old(sh).log(), final(sh).log()),
        open_prs_listed(old(sh).log(), final(sh).log(), github@.repo, purpose@, error::res(r)),
{
    let ghost start = sh.log();
    let ghost n = start.len() as int;
    let args = words(
        &[
            "pr",
            "list",
            "--repo",
            &github.repo,
            "--state",
            "open",
            "--json",
            PR_JSON_FIELDS,
            "--limit",
            "200",
        ],
    );
    assert(args.deep_view() =~= open_prs_args(github@.repo));
    let reply = gh_run(sh, &args);
    let ghost mid = sh.log();
    let output = match reply {
        Ok(output) => output,
        Err(error) => return Err(error),
    };
    if !output.success {
        let mut message = cat5(
            "`",
            &display_command("gh", &args),
            "` failed while listing open PRs for ",
            purpose,
            ": ",
        );
        message.append(&trimmed(&output.stderr));
        return Err(fail(&message));
    }
    let prs = sh.read_prs(&output.stdout);
    assert(sh.log()[n] == mid[n]);
    match prs {
        Ok(prs) => Ok(prs),
        Err(error) => Err(
            error.context(&cat3("parse open PR list while resolving ", purpose, " target")),
        ),
    }
}

// ---------------------------------------------------------------------------
// Resolving a target
// ---------------------------------------------------------------------------

pub open spec fn with_head(prs: Seq<GhPrView>, branch: Seq<char>) -> Seq<GhPrView>
    decreases prs.len(),
{
    if prs.len() == 0 {
        seq![]
    } else {
        let rest = with_head(prs.drop_last(), branch);
        if prs.last().head_ref_name == branch {
            rest.push(prs.last())
        } else {
            rest
        }
    }
}

pub open spec fn with_prefix(prs: Seq<GhPrView>, prefix: Seq<char>) -> Seq<GhPrView>
    decreases prs.len(),
{
    if prs.len() == 0 {
        seq![]
    } else {
        let rest = with_prefix(prs.drop_last(), prefix);
        if branches::branch_matches(prs.last().head_ref_name, prefix) {
            rest.push(prs.last())
        } else {
            rest
        }
    }
}

fn keep_with_head(prs: &Vec<GhPr>, branch: &str) -> (r: Vec<GhPr>)
    ensures
        r.deep_view() == with_head(prs.deep_view(), branch@),
{
    let ghost all = prs.deep_view();
    let mut out: Vec<GhPr> = Vec::new();
    let mut i: usize = 0;
    assert(out.deep_view() =~= with_head(all.take(0), branch@));
    while i < prs.len()
        invariant
            i <= prs@.len(),
            all == prs.deep_view(),
            out.deep_view() == with_head(all.take(i as int), branch@),
        decreases prs@.len() - i,
    {
        let ghost before = out.deep_view();
        assert(all.take(i + 1).drop_last() =~= all.take(i as int));
        assert(all.take(i + 1).last() == prs@[i as int]@);
        if same(&prs[i].head_ref_name, branch) {
            out.push(prs[i].copy());
            assert(out.deep_view() =~= before.push(prs@[i as int]@));
        }
        i = i + 1;
    }
    assert(all.take(i as int) =~= all);
    out
}

fn keep_with_prefix(prs: &Vec<GhPr>, prefix: &str) -> (r: Vec<GhPr>)
    ensures
        r.deep_view() == with_prefix(prs.deep_view(), prefix@),
{
    let ghost all = prs.deep_view();
    let mut out: Vec<GhPr> = Vec::new();
    let mut i: usize = 0;
    assert(out.deep_view() =~= with_prefix(all.take(0), prefix@));
    while i < prs.len()
        invariant
            i <= prs@.len(),
            all == prs.deep_view(),
            out.deep_view() == with_prefix(all.take(i as int), prefix@),
        decreases prs@.len() - i,
    {
        let ghost before = out.deep_view();
        assert(all.take(i + 1).drop_last() =~= all.take(i as int));
        assert(all.take(i + 1).last() == prs@[i as int]@);
        if head_branch_matches_change_prefix(&prs[i].head_ref_name, prefix) {
            out.push(prs[i].copy());
            assert(out.deep_view() =~= before.push(prs@[i as int]@));
        }
        i = i + 1;
    }
    assert(all.take(i as int) =~= all);
    out
}

pub open spec fn pr_ref(pr: GhPrView) -> Seq<char> {
    "#"@ + text::decimal(pr.number as nat) + " `"@ + pr.head_ref_name + "`"@
}

pub open spec fn pr_refs(prs: Seq<GhPrView>) -> Seq<char> {
    text::join(prs.map_values(|pr: GhPrView| pr_ref(pr)), ", "@)
}

pub fn join_pr_refs(prs: &Vec<GhPr>) -> (r: String)
    ensures
        r@ == pr_refs(prs.deep_view()),
{
    let mut refs: Vec<String> = Vec::new();
    let mut i: usize = 0;
    while i < prs.len()
        invariant
            i <= prs@.len(),
            refs@.len() == i,
            forall|k: int| 0 <= k < i ==> (#[trigger] refs@[k])@ == pr_ref(prs@[k]@),
        decreases prs@.len() - i,
    {
        refs.push(
            cat5("#", &number_text(prs[i].number), " `", &prs[i].head_ref_name, "`"),
        );
        i = i + 1;
    }
    assert(refs.deep_view() =~= prs.deep_view().map_values(|pr: GhPrView| pr_ref(pr)));
    join_text(&refs, ", ")
}

/// The record from `before` to `after` holds how the one pull request that matched is fetched; no or
/// several matches are a failure.
pub open spec fn one_match_fetched(
    before: Seq<Event>,
    after: Seq<Event>,
    repo: Seq<char>,
    target: Seq<char>,
    kind: Seq<char>,
    matches: Seq<GhPrView>,
    purpose: Seq<char>,
    r: Result<GhPrView, Seq<CauseView>>,
) -> bool {
    if matches.len() == 1 {
        pr_fetched(before, after, repo, purpose, matches[0].number, r)
    } else if matches.len() == 0 {
        after == before && r == Err::<GhPrView, _>(
            error::plain(purpose + " target `"@ + target + "` did not match an open PR "@ + kind),
        )
    } else {
        after == before && r == Err::<GhPrView, _>(
            error::plain(
                purpose + " target `"@ + target + "` matched multiple open PRs by "@ + kind + ": "@
                    + pr_refs(matches),
            ),
        )
    }
}

pub fn one_get_target_match<H: Host>(
    sh: &mut Shell<H>,
    github: &GitHubContext,
    target: &str,
    kind: &str,
    matches: &Vec<GhPr>,
    purpose: &str,
) -> (r: Result<GhPr, Error>)
    ensures
        record::extends(old(sh).log(), final(sh).log()),
        one_match_fetched(
            old(sh).log(),
            final(sh).log(),
            github@.repo,
            target@,
            kind@,
            matches.deep_view(),
            purpose@,
            error::res(r),
        ),
{
    if matches.len() == 1 {
        assert(matches.deep_view()[0] == matches@[0]@);
        return fetch_pr_by_number(sh, github, purpose, matches[0].number);
    }
    if matches.len() == 0 {
        return Err(
            fail(&cat5(purpose, " target `", target, "` did not match an open PR ", kind)),
        );
    }
    Err(
        fail(
            &cat7(
                purpose,
                " target `",
                target,
                "` matched multiple open PRs by ",
                kind,
                ": ",
                &join_pr_refs(matches),
            ),
        ),
    )
}

pub open spec fn no_such_target(purpose: Seq<char>, target: Seq<char>) -> CliErrorView {
    error::cli(purpose + " target `"@ + target + "` did not match an open PR branch"@).fixed_by(
        "pass a PR number, PR URL, exact branch name, or a jj change id prefix (short prefixes work for locally checked-out changes; otherwise use at least 8 chars)"@,
    )
}

/// The record from `before` to `after` holds the search by change id among these pull requests: jj
/// expands a short id of a local change; else the target must itself be a long enough prefix.
pub open spec fn change_target_resolved(
    before: Seq<Event>,
    after: Seq<Event>,
    repo: Seq<char>,
    target: Seq<char>,
    purpose: Seq<char>,
    prs: Seq<GhPrView>,
    r: Result<GhPrView, Seq<CauseView>>,
) -> bool {
    exists|mid: Seq<Event>, expanded: Option<Seq<char>>|
        {
            &&& #[trigger] change_id_expanded(before, mid, target, expanded)
            &&& {
                let prefix = match expanded {
                    Some(id) => Some(branches::branch_prefix_of(id)),
                    None => change_prefix_of(target),
                };
                match prefix {
                    None => after == mid && r == Err::<GhPrView, _>(
                        error::reported(no_such_target(purpose, target)),
                    ),
                    Some(prefix) => one_match_fetched(
                        mid,
                        after,
                        repo,
                        target,
                        "change id prefix"@,
                        with_prefix(prs, prefix),
                        purpose,
                        r,
                    ),
                }
            }
        }
}

fn resolve_change_target<H: Host>(
    sh: &mut Shell<H>,
    github: &GitHubContext,
    target: &str,
    purpose: &str,
    prs: &Vec<GhPr>,
) -> (r: Result<GhPr, Error>)
    ensures
        record::extends(old(sh).log(), final(sh).log()),
        change_target_resolved(
            old(sh).log(),
            final(sh).log(),
            github@.repo,
            target@,
            purpose@,
            prs.deep_view(),
            error::res(r),
        ),
{
    let ghost start = sh.log();
    let expanded = expand_local_change_id(sh, target);
    let ghost seen = expanded.deep_view();
    assert(change_id_expanded(start, sh.log(), target@, seen));
    let prefix = match expanded {
        Some(id) => change_id_branch_prefix(&id),
        None => match change_prefix_get_target(target) {
            Some(prefix) => prefix,
            None => {
                let mut message = cat3(purpose, " target `", target);
                message.append("` did not match an open PR branch");
                return Err(
                    report(
                        CliError::new(&message).resolution(
                            "pass a PR number, PR URL, exact branch name, or a jj change id prefix (short prefixes work for locally checked-out changes; otherwise use at least 8 chars)",
                        ),
                    ),
                );
            },
        },
    };
    let matches = keep_with_prefix(prs, &prefix);
    one_get_target_match(sh, github, target, "change id prefix", &matches, purpose)
}

/// The record from `before` to `after` holds the search for an open pull request by branch name, then
/// by change id.
pub open spec fn target_looked_up(
    before: Seq<Event>,
    after: Seq<Event>,
    repo: Seq<char>,
    target: Seq<char>,
    purpose: Seq<char>,
    r: Result<GhPrView, Seq<CauseView>>,
) -> bool {
    exists|mid: Seq<Event>, listed: Result<Seq<GhPrView>, Seq<CauseView>>|
        {
            &&& #[trigger] open_prs_listed(before, mid, repo, purpose, listed)
            &&& match listed {
                Err(e) => after == mid && r == Err::<GhPrView, _>(e),
                Ok(prs) => if with_head(prs, target).len() > 0 {
                    one_match_fetched(
                        mid,
                        after,
                        repo,
                        target,
                        "branch"@,
                        with_head(prs, target),
                        purpose,
                        r,
                    )
                } else {
                    change_target_resolved(mid, after, repo, target, purpose, prs, r)
                },
            }
        }
}

pub fn lookup_get_target_pr<H: Host>(
    sh: &mut Shell<H>,
    github: &GitHubContext,
    target: &str,
    purpose: &str,
) -> (r: Result<GhPr, Error>)
    ensures
        record::extends(old(sh).log(), final(sh).log()),
        target_looked_up(
            old(sh).log(),
            final(sh).log(),
            github@.repo,
            target@,
            purpose@,
            error::res(r),
        ),
{
    let ghost start = sh.log();
    let listed = list_open_prs(sh, github, purpose);
    let ghost seen = error::res(listed);
    assert(open_prs_listed(start, sh.log(), github@.repo, purpose@, seen));
    let prs = match listed {
        Ok(prs) => prs,
        Err(error) => return Err(error),
    };
    let matches = keep_with_head(&prs, target);
    if matches.len() > 0 {
        return one_get_target_match(sh, github, target, "branch", &matches, purpose);
    }
    resolve_change_target(sh, github, target, purpose, &prs)
}

/// The record from `before` to `after` holds how the pull request that a target means is fetched.
pub open spec fn target_resolved(
    before: Seq<Event>,
    after: Seq<Event>,
    repo: Seq<char>,
    target: GetTargetView,
    purpose: Seq<char>,
    r: Result<GhPrView, Seq<CauseView>>,
) -> bool {
    match target {
        GetTargetView::PullRequest { repo: place, number } => pr_fetched(
            before,
            after,
            repo,
            purpose,
            number,
            r,
        ),
        GetTargetView::BranchOrChange { repo: place, value } => target_looked_up(
            before,
            after,
            repo,
            value,
            purpose,
            r,
        ),
    }
}

pub fn resolve_target_pr<H: Host>(
    sh: &mut Shell<H>,
    github: &GitHubContext,
    target: &GetTarget,
    purpose: &str,
) -> (r: Result<GhPr, Error>)
    ensures
        record::extends(old(sh).log(), final(sh).log()),
        target_resolved(
            old(sh).log(),
            final(sh).log(),
            github@.repo,
            target@,
            purpose@,
            error::res(r),
        ),
{
    match target {
        GetTarget::PullRequest { number, .. } => fetch_pr_by_number(sh, github, purpose, *number),
        GetTarget::BranchOrChange { value, .. } => lookup_get_target_pr(sh, github, value, purpose),
    }
}

pub fn resolve_get_target_pr<H: Host>(
    sh: &mut Shell<H>,
    github: &GitHubContext,
    target: &GetTarget,
) -> (r: Result<GhPr, Error>)
    ensures
        record::extends(old(sh).log(), final(sh).log()),
        target_resolved(
            old(sh).log(),
            final(sh).log(),
            github@.repo,
            target@,
            "get"@,
            error::res(r),
        ),
{
    resolve_target_pr(sh, github, target, "get")
}

// ---------------------------------------------------------------------------
// The browser
// ---------------------------------------------------------------------------

/// The record from `before` to `after` holds the check that the working copy is on a stack.
pub open spec fn default_target_checked(
    before: Seq<Event>,
    after: Seq<Event>,
    trunk: Seq<char>,
    r: Result<(), Seq<CauseView>>,
) -> bool {
    exists|stack: Result<Seq<ResolvedChangeView>, Seq<CauseView>>|
        {
            &&& #[trigger] stack::stack_resolved(before, after, DEFAULT_STACK_REVSET@, stack)
            &&& r == match stack {
                Err(e) => Err(e),
                Ok(stack) => if stack.len() > 0 {
                    Ok(())
                } else {
                    Err(
                        error::reported(
                            error::cli("no current PR"@).because(
                                "current checkout is on trunk `"@ + trunk + "`"@,
                            ).fixed_by("check out a stack change or pass a PR target"@),
                        ),
                    )
                },
            }
        }
}

pub fn ensure_default_pr_target_is_stack_change<H: Host>(
    sh: &mut Shell<H>,
    config: &AppConfig,
) -> (r: Result<(), Error>)
    ensures
        record::extends(old(sh).log(), final(sh).log()),
        default_target_checked(old(sh).log(), final(sh).log(), config@.trunk, error::res_of(r)),
{
    let resolved = resolve_stack(sh, DEFAULT_STACK_REVSET);
    let ghost seen = error::res(resolved);
    assert(stack::stack_resolved(old(sh).log(), sh.log(), DEFAULT_STACK_REVSET@, seen));
    match resolved {
        Err(error) => Err(error),
        Ok(stack) => if stack.len() > 0 {
            Ok(())
        } else {
            Err(
                report(
                    CliError::new("no current PR").reason(
                        &cat3("current checkout is on trunk `", &config.trunk, "`"),
                    ).resolution("check out a stack change or pass a PR target"),
                ),
            )
        },
    }
}

pub open spec fn not_submitted(change_id: Seq<char>) -> Seq<CauseView> {
    error::reported(
        error::cli("current revision is not submitted"@).because(
            "current change `"@ + branches::branch_prefix_of(change_id) + "` has no open PR yet"@,
        ).fixed_by("run `forklift submit --yes`, then `forklift pr`"@),
    )
}

pub open spec fn numbered_url(repo: Seq<char>, found: Result<GhPrView, Seq<CauseView>>) -> Result<
    (u64, Seq<char>),
    Seq<CauseView>,
> {
    match found {
        Err(e) => Err(e),
        Ok(pr) => Ok((pr.number, pr_url(repo, pr.number))),
    }
}

/// The record from `before` to `after` holds the search for the pull request of one change.
pub open spec fn change_url_found(
    before: Seq<Event>,
    after: Seq<Event>,
    repo: Seq<char>,
    change_id: Seq<char>,
    r: Result<(u64, Seq<char>), Seq<CauseView>>,
) -> bool {
    exists|found: Result<GhPrView, Seq<CauseView>>|
        {
            &&& #[trigger] target_looked_up(before, after, repo, change_id, "pr"@, found)
            &&& r == match found {
                Err(e) => Err(not_submitted(change_id)),
                Ok(pr) => Ok((pr.number, pr_url(repo, pr.number))),
            }
        }
}

fn change_pr_url<H: Host>(sh: &mut Shell<H>, github: &GitHubContext, change_id: &str) -> (r: Result<
    (u64, String),
    Error,
>)
    ensures
        record::extends(old(sh).log(), final(sh).log()),
        change_url_found(old(sh).log(), final(sh).log(), github@.repo, change_id@, error::res(r)),
{
    let found = lookup_get_target_pr(sh, github, change_id, "pr");
    let ghost seen = error::res(found);
    assert(target_looked_up(old(sh).log(), sh.log(), github@.repo, change_id@, "pr"@, seen));
    match found {
        Err(_) => Err(
            report(
                CliError::new("current revision is not submitted").reason(
                    &cat3(
                        "current change `",
                        &change_id_branch_prefix(change_id),
                        "` has no open PR yet",
                    ),
                ).resolution("run `forklift submit --yes`, then `forklift pr`"),
            ),
        ),
        Ok(pr) => Ok((pr.number, github_pr_url(&github.repo, pr.number))),
    }
}

/// The record from `before` to `after` holds the question for the change id of the working copy, then
/// the search for its pull request.
pub open spec fn current_url_found(
    before: Seq<Event>,
    after: Seq<Event>,
    repo: Seq<char>,
    r: Result<(u64, Seq<char>), Seq<CauseView>>,
) -> bool {
    exists|mid: Seq<Event>|
        {
            &&& #[trigger] record::called(before, mid, "jj"@, change_id_args("@"@))
            &&& match current_change_result(record::last_reply(mid)) {
                Err(e) => record::stopped(mid, after, e, r),
                Ok(change_id) => change_url_found(mid, after, repo, change_id, r),
            }
        }
}

fn current_pr_url<H: Host>(sh: &mut Shell<H>, github: &GitHubContext) -> (r: Result<
    (u64, String),
    Error,
>)
    ensures
        record::extends(old(sh).log(), final(sh).log()),
        current_url_found(old(sh).log(), final(sh).log(), github@.repo, error::res(r)),
{
    let id = current_change_id(sh);
    assert(record::called(old(sh).log(), sh.log(), "jj"@, change_id_args("@"@)));
    match id {
        Err(error) => Err(error),
        Ok(change_id) => change_pr_url(sh, github, &change_id),
    }
}

/// The record from `before` to `after` holds the search for the pull request of a branch or a change.
pub open spec fn named_url_found(
    before: Seq<Event>,
    after: Seq<Event>,
    repo: Seq<char>,
    value: Seq<char>,
    r: Result<(u64, Seq<char>), Seq<CauseView>>,
) -> bool {
    exists|found: Result<GhPrView, Seq<CauseView>>|
        #[trigger] target_looked_up(before, after, repo, value, "pr"@, found) && r == numbered_url(
            repo,
            found,
        )
}

fn named_pr_url<H: Host>(sh: &mut Shell<H>, github: &GitHubContext, value: &str) -> (r: Result<
    (u64, String),
    Error,
>)
    ensures
        record::extends(old(sh).log(), final(sh).log()),
        named_url_found(old(sh).log(), final(sh).log(), github@.repo, value@, error::res(r)),
{
    let found = lookup_get_target_pr(sh, github, value, "pr");
    let ghost seen = error::res(found);
    assert(target_looked_up(old(sh).log(), sh.log(), github@.repo, value@, "pr"@, seen));
    match found {
        Err(error) => Err(error),
        Ok(pr) => Ok((pr.number, github_pr_url(&github.repo, pr.number))),
    }
}

/// The record from `before` to `after` holds the search for the pull request of the working copy.
pub open spec fn default_url_found(
    before: Seq<Event>,
    after: Seq<Event>,
    trunk: Seq<char>,
    repo: Seq<char>,
    r: Result<(u64, Seq<char>), Seq<CauseView>>,
) -> bool {
    exists|mid: Seq<Event>, checked: Result<(), Seq<CauseView>>|
        {
            &&& #[trigger] default_target_checked(before, mid, trunk, checked)
            &&& match checked {
                Err(e) => record::stopped(mid, after, e, r),
                Ok(_) => current_url_found(mid, after, repo, r),
            }
        }
}

fn default_pr_url<H: Host>(sh: &mut Shell<H>, config: &AppConfig, github: &GitHubContext) -> (r:
    Result<(u64, String), Error>)
    ensures
        record::extends(old(sh).log(), final(sh).log()),
        default_url_found(
            old(sh).log(),
            final(sh).log(),
            config@.trunk,
            github@.repo,
            error::res(r),
        ),
{
    let checked = ensure_default_pr_target_is_stack_change(sh, config);
    assert(default_target_checked(
        old(sh).log(),
        sh.log(),
        config@.trunk,
        error::res_of(checked),
    ));
    match checked {
        Err(error) => Err(error),
        Ok(_) => current_pr_url(sh, github),
    }
}

/// The record from `before` to `after` holds how the page of a pull request is found. A number or a
/// URL asks nothing; without a target it is the pull request of the working copy.
pub open spec fn pr_url_resolved(
    before: Seq<Event>,
    after: Seq<Event>,
    trunk: Seq<char>,
    repo: Seq<char>,
    target: Option<Seq<char>>,
    r: Result<(u64, Seq<char>), Seq<CauseView>>,
) -> bool {
    match target {
        Some(target) => match target_meaning(target, repo) {
            Err(e) => record::stopped(before, after, e, r),
            Ok(GetTargetView::PullRequest { repo: place, number }) => after == before && r == Ok::<
                _,
                Seq<CauseView>,
            >((number, pr_url(place, number))),
            Ok(GetTargetView::BranchOrChange { repo: place, value }) => named_url_found(
                before,
                after,
                repo,
                value,
                r,
            ),
        },
        None => default_url_found(before, after, trunk, repo, r),
    }
}

/// The number of a pull request and the address of its page.
pub fn resolve_pr_url<H: Host>(
    sh: &mut Shell<H>,
    config: &AppConfig,
    github: &GitHubContext,
    target: Option<&str>,
) -> (r: Result<(u64, String), Error>)
    ensures
        record::extends(old(sh).log(), final(sh).log()),
        pr_url_resolved(
            old(sh).log(),
            final(sh).log(),
            config@.trunk,
            github@.repo,
            target.deep_view(),
            error::res(r),
        ),
{
    match target {
        Some(wanted) => match parse_get_target(wanted, &github.repo) {
            Err(error) => Err(error),
            Ok(GetTarget::PullRequest { repo, number }) => {
                let url = github_pr_url(&repo, number);
                Ok((number, url))
            },
            Ok(GetTarget::BranchOrChange { repo: _, value }) => named_pr_url(sh, github, &value),
        },
        None => default_pr_url(sh, config, github),
    }
}

/// The systems that open a browser in different ways.
#[derive(Clone, Copy, PartialEq, Eq)]
pub enum Platform {
    MacOs,
    Windows,
    Other,
}

pub open spec fn opener(platform: Platform) -> Seq<char> {
    match platform {
        Platform::MacOs => "open"@,
        Platform::Windows => "cmd"@,
        Platform::Other => "xdg-open"@,
    }
}

pub open spec fn opener_args(platform: Platform, url: Seq<char>) -> Seq<Seq<char>> {
    match platform {
        Platform::Windows => seq!["/C"@, "start"@, ""@, url],
        _ => seq![url],
    }
}

/// What the opener of the platform makes of an address.
pub open spec fn open_result(platform: Platform, url: Seq<char>, reply: Reply) -> Result<
    (),
    Seq<CauseView>,
> {
    match reply {
        Err(e) => Err(e),
        Ok(output) => if output.success {
            Ok(())
        } else {
            Err(
                error::plain(
                    "failed to open browser: failed-command=`"@ + output::shown(
                        opener(platform),
                        opener_args(platform, url),
                    ) + "` error="@ + text::trim(output.stderr),
                ),
            )
        },
    }
}

/// Opens a page in the browser.
pub fn open_url<H: Host>(sh: &mut Shell<H>, platform: Platform, url: &str) -> (r: Result<(), Error>)
    ensures
        record::called(
            old(sh).log(),
            final(sh).log(),
            opener(platform),
            opener_args(platform, url@),
        ),
        error::res_of(r) == open_result(platform, url@, record::last_reply(final(sh).log())),
{
    let program = match platform {
        Platform::MacOs => "open",
        Platform::Windows => "cmd",
        Platform::Other => "xdg-open",
    };
    let args = match platform {
        Platform::Windows => words(&["/C", "start", "", url]),
        _ => words(&[url]),
    };
    assert(args.deep_view() =~= opener_args(platform, url@));
    proof {
        reveal_strlit("open");
        reveal_strlit("cmd");
        reveal_strlit("xdg-open");
        reveal_strlit("git");
        reveal_strlit("gh");
        assert(program@[0] != "git"@[0] && program@[0] != "gh"@[0]);
    }
    let reply = sh.run(program, &args);
    match reply {
        Err(error) => Err(error),
        Ok(output) => if output.success {
            Ok(())
        } else {
            let mut message = cat3(
                "failed to open browser: failed-command=`",
                &display_command(program, &args),
                "` error=",
            );
            message.append(&trimmed(&output.stderr));
            Err(fail(&message))
        },
    }
}

// ---------------------------------------------------------------------------
// What the cache says of a pull request
// ---------------------------------------------------------------------------

/// The fields of an entry that must not change behind its back, those that must be filled first.
pub open spec fn field_names() -> Seq<Seq<char>> {
    seq![
        "pr_node_id"@,
        "head_repo_id"@,
        "head_repo_node_id"@,
        "head_repo_name"@,
        "base_repo_id"@,
        "base_repo_node_id"@,
        "base_repo_name"@,
        "author_login"@,
        "head_sha"@,
        "base_sha"@,
        "base_branch"@,
    ]
}

pub open spec fn field_values(entry: PrCacheEntryView) -> Seq<Seq<char>> {
    seq![
        entry.pr_node_id,
        entry.head_repo_id,
        entry.head_repo_node_id,
        entry.head_repo_name,
        entry.base_repo_id,
        entry.base_repo_node_id,
        entry.base_repo_name,
        entry.author_login,
        entry.head_sha,
        entry.base_sha,
        entry.base_branch,
    ]
}

fn entry_field_names() -> (r: Vec<String>)
    ensures
        r.deep_view() == field_names(),
{
    let r = words(
        &[
            "pr_node_id",
            "head_repo_id",
            "head_repo_node_id",
            "head_repo_name",
            "base_repo_id",
            "base_repo_node_id",
            "base_repo_name",
            "author_login",
            "head_sha",
            "base_sha",
            "base_branch",
        ],
    );
    assert(r.deep_view() =~= field_names());
    r
}

fn entry_field_values(entry: &PrCacheEntry) -> (r: Vec<String>)
    ensures
        r.deep_view() == field_values(entry@),
{
    let r = words(
        &[
            &entry.pr_node_id,
            &entry.head_repo_id,
            &entry.head_repo_node_id,
            &entry.head_repo_name,
            &entry.base_repo_id,
            &entry.base_repo_node_id,
            &entry.base_repo_name,
            &entry.author_login,
            &entry.head_sha,
            &entry.base_sha,
            &entry.base_branch,
        ],
    );
    assert(r.deep_view() =~= field_values(entry@));
    r
}

pub open spec fn blank_from(values: Seq<Seq<char>>, i: int) -> Option<int>
    decreases 8 - i,
{
    if i < 0 || i >= 8 {
        None
    } else if text::is_blank(values[i]) {
        Some(i)
    } else {
        blank_from(values, i + 1)
    }
}

pub open spec fn change_from(stored: Seq<Seq<char>>, live: Seq<Seq<char>>, i: int) -> Option<int>
    decreases 11 - i,
{
    if i < 0 || i >= 11 {
        None
    } else if stored[i] != live[i] {
        Some(i)
    } else {
        change_from(stored, live, i + 1)
    }
}

/// What is wrong with a remembered entry beside the pull request as it is now.
pub open spec fn cached_fault(
    repo: Seq<char>,
    change_id: Seq<char>,
    entry: PrCacheEntryView,
    pr: GhPrView,
) -> Option<CliErrorView> {
    let stored = field_values(entry);
    let live = field_values(entry_of(pr, entry.stack_comment_id));
    match blank_from(stored, 0) {
        Some(i) => Some(
            error::cli(
                "PR for "@ + repo + "/"@ + stack::short_id(change_id)
                    + " is missing required metadata field `"@ + field_names()[i] + "`"@,
            ).fixed_by(
                "run `forklift get "@ + pr_url(repo, entry.pr_number)
                    + "`, or recreate the PR branch with forklift"@,
            ),
        ),
        None => match change_from(stored, live, 0) {
            Some(i) => Some(
                error::cli(
                    "GitHub PR metadata mismatch for "@ + repo + "/"@ + stack::short_id(change_id) + " "@
                        + hash(entry.pr_number) + " field `"@ + field_names()[i]
                        + "`: cache has `"@ + stored[i] + "`, GitHub has `"@ + live[i] + "`"@,
                ),
            ),
            None => None,
        },
    }
}

pub fn validate_cached_pr_metadata(
    github: &GitHubContext,
    change_id: &str,
    entry: &PrCacheEntry,
    pr: &GhPr,
) -> (r: Result<(), Error>)
    ensures
        error::res_of(r) == match cached_fault(github@.repo, change_id@, entry@, pr@) {
            Some(e) => Err(error::reported(e)),
            None => Ok(()),
        },
{
    let current = pr.copy().into_cache_entry(copy_option(&entry.stack_comment_id));
    let names = entry_field_names();
    let stored = entry_field_values(entry);
    let live = entry_field_values(&current);
    let ghost s = field_values(entry@);
    let ghost l = field_values(entry_of(pr@, entry@.stack_comment_id));
    assert(stored.deep_view() == s && live.deep_view() == l);
    assert(names@.len() == 11 && stored@.len() == 11 && live@.len() == 11) by {
        assert(names.deep_view().len() == 11);
        assert(stored.deep_view().len() == 11);
        assert(live.deep_view().len() == 11);
    }
    assert forall|k: int| 0 <= k < 11 implies (#[trigger] names@[k])@ == field_names()[k] by {
        assert(names.deep_view()[k] == names@[k]@);
    }
    assert forall|k: int| 0 <= k < 11 implies (#[trigger] stored@[k])@ == s[k] by {
        assert(stored.deep_view()[k] == stored@[k]@);
    }
    assert forall|k: int| 0 <= k < 11 implies (#[trigger] live@[k])@ == l[k] by {
        assert(live.deep_view()[k] == live@[k]@);
    }
    let mut i: usize = 0;
    while i < 8
        invariant
            i <= 8,
            names@.len() == 11,
            stored@.len() == 11,
            forall|k: int| 0 <= k < 11 ==> (#[trigger] names@[k])@ == field_names()[k],
            forall|k: int| 0 <= k < 11 ==> (#[trigger] stored@[k])@ == s[k],
            s == field_values(entry@),
            blank_from(s, 0) == blank_from(s, i as int),
        decreases 8 - i,
    {
        if blank(&stored[i]) {
            let mut message = cat5(
                "PR for ",
                &github.repo,
                "/",
                &short_change_id(change_id),
                " is missing required metadata field `",
            );
            message.append(&names[i]);
            message.append("`");
            let fix = cat3(
                "run `forklift get ",
                &github_pr_url(&github.repo, entry.pr_number),
                "`, or recreate the PR branch with forklift",
            );
            return Err(report(CliError::new(&message).resolution(&fix)));
        }
        i = i + 1;
    }
    let mut j: usize = 0;
    while j < 11
        invariant
            j <= 11,
            names@.len() == 11,
            stored@.len() == 11,
            live@.len() == 11,
            forall|k: int| 0 <= k < 11 ==> (#[trigger] names@[k])@ == field_names()[k],
            forall|k: int| 0 <= k < 11 ==> (#[trigger] stored@[k])@ == s[k],
            forall|k: int| 0 <= k < 11 ==> (#[trigger] live@[k])@ == l[k],
            s == field_values(entry@),
            l == field_values(entry_of(pr@, entry@.stack_comment_id)),
            blank_from(s, 0) is None,
            change_from(s, l, 0) == change_from(s, l, j as int),
        decreases 11 - j,
    {
        if !same(&stored[j], &live[j]) {
            let mut message = cat5(
                "GitHub PR metadata mismatch for ",
                &github.repo,
                "/",
                &short_change_id(change_id),
                " ",
            );
            message.append(&hash_text(entry.pr_number));
            message.append(" field `");
            message.append(&names[j]);
            message.append("`: cache has `");
            message.append(&stored[j]);
            message.append("`, GitHub has `");
            message.append(&live[j]);
            message.append("`");
            return Err(report(CliError::new(&message)));
        }
        j = j + 1;
    }
    Ok(())
}

pub open spec fn other_head(
    repo: Seq<char>,
    change_id: Seq<char>,
    cached: Seq<char>,
    expected: Seq<char>,
) -> Seq<CauseView> {
    error::reported(
        error::cli(
            "conflicting cached PR for "@ + repo + "/"@ + stack::short_id(change_id)
                + ": cache records head branch `"@ + cached
                + "`, deterministic head branch is `"@ + expected + "`"@,
        ),
    )
}

/// What a fetched pull request makes of the entry that was remembered for it.
pub open spec fn cached_outcome(
    repo: Seq<char>,
    change_id: Seq<char>,
    head_branch: Seq<char>,
    entry: PrCacheEntryView,
    pr: GhPrView,
) -> Result<PrCacheEntryView, Seq<CauseView>> {
    if !is_open(pr.state) {
        Err(
            error::reported(
                error::cli(
                    "closed cached PR for "@ + repo + "/"@ + stack::short_id(change_id)
                        + ": cache points to "@ + pr.state + " "@ + hash(entry.pr_number) + " on `"@
                        + head_branch + "`"@,
                ),
            ),
        )
    } else if pr.head_ref_name != entry.head_branch {
        Err(
            error::reported(
                error::cli(
                    "conflicting cached PR for "@ + repo + "/"@ + stack::short_id(change_id)
                        + ": cache points to "@ + hash(entry.pr_number)
                        + " but GitHub reports head branch `"@ + pr.head_ref_name
                        + "`, expected `"@ + entry.head_branch + "`"@,
                ),
            ),
        )
    } else {
        match cached_fault(repo, change_id, entry, pr) {
            Some(e) => Err(error::reported(e)),
            None => Ok(entry_of(pr, entry.stack_comment_id)),
        }
    }
}

/// The record from `before` to `after` holds how a remembered pull request is checked.
pub open spec fn cached_pr_checked(
    before: Seq<Event>,
    after: Seq<Event>,
    repo: Seq<char>,
    change_id: Seq<char>,
    head_branch: Seq<char>,
    entry: PrCacheEntryView,
    r: Result<PrCacheEntryView, Seq<CauseView>>,
) -> bool {
    if entry.head_branch != head_branch {
        record::stopped(before, after, other_head(repo, change_id, entry.head_branch, head_branch), r)
    } else {
        exists|fetched: Result<GhPrView, Seq<CauseView>>|
            {
                &&& #[trigger] pr_fetched(
                    before,
                    after,
                    repo,
                    change_id,
                    entry.pr_number,
                    fetched,
                )
                &&& r == match fetched {
                    Err(e) => Err(e),
                    Ok(pr) => cached_outcome(repo, change_id, head_branch, entry, pr),
                }
            }
    }
}

/// What a fetched pull request makes of the entry that was remembered for it.
pub fn settle_cached_pr(
    github: &GitHubContext,
    change_id: &str,
    head_branch: &str,
    entry: &PrCacheEntry,
    pr: GhPr,
) -> (r: Result<PrCacheEntry, Error>)
    ensures
        error::res(r) == cached_outcome(github@.repo, change_id@, head_branch@, entry@, pr@),
{
    if !state_is_open(&pr.state) {
        let mut message = cat5(
            "closed cached PR for ",
            &github.repo,
            "/",
            &short_change_id(change_id),
            ": cache points to ",
        );
        message.append(&pr.state);
        message.append(" ");
        message.append(&hash_text(entry.pr_number));
        message.append(" on `");
        message.append(head_branch);
        message.append("`");
        return Err(report(CliError::new(&message)));
    }
    if !same(&pr.head_ref_name, &entry.head_branch) {
        let mut message = cat5(
            "conflicting cached PR for ",
            &github.repo,
            "/",
            &short_change_id(change_id),
            ": cache points to ",
        );
        message.append(&hash_text(entry.pr_number));
        message.append(" but GitHub reports head branch `");
        message.append(&pr.head_ref_name);
        message.append("`, expected `");
        message.append(&entry.head_branch);
        message.append("`");
        return Err(report(CliError::new(&message)));
    }
    match validate_cached_pr_metadata(github, change_id, entry, &pr) {
        Err(error) => Err(error),
        Ok(_) => Ok(pr.into_cache_entry(copy_option(&entry.stack_comment_id))),
    }
}

pub fn lookup_cached_pr<H: Host>(
    sh: &mut Shell<H>,
    github: &GitHubContext,
    change_id: &str,
    head_branch: &str,
    entry: &PrCacheEntry,
) -> (r: Result<PrCacheEntry, Error>)
    ensures
        record::extends(old(sh).log(), final(sh).log()),
        cached_pr_checked(
            old(sh).log(),
            final(sh).log(),
            github@.repo,
            change_id@,
            head_branch@,
            entry@,
            error::res(r),
        ),
{
    if !same(&entry.head_branch, head_branch) {
        let mut message = cat5(
            "conflicting cached PR for ",
            &github.repo,
            "/",
            &short_change_id(change_id),
            ": cache records head branch `",
        );
        message.append(&entry.head_branch);
        message.append("`, deterministic head branch is `");
        message.append(head_branch);
        message.append("`");
        return Err(report(CliError::new(&message)));
    }
    let fetched = fetch_pr_by_number(sh, github, change_id, entry.pr_number);
    let ghost seen = error::res(fetched);
    assert(pr_fetched(
        old(sh).log(),
        sh.log(),
        github@.repo,
        change_id@,
        entry.pr_number,
        seen,
    ));
    match fetched {
        Err(error) => Err(error),
        Ok(pr) => settle_cached_pr(github, change_id, head_branch, entry, pr),
    }
}

pub open spec fn head_pr_args(repo: Seq<char>, head_branch: Seq<char>) -> Seq<Seq<char>> {
    seq![
        "pr"@,
        "list"@,
        "--repo"@,
        repo,
        "--head"@,
        head_branch,
        "--state"@,
        "open"@,
        "--json"@,
        PR_JSON_FIELDS@,
    ]
}

/// The record from `before` to `after` holds how a listed pull request is fetched with the stack
/// comment on it.
pub open spec fn head_pr_adopted(
    before: Seq<Event>,
    after: Seq<Event>,
    github: GitHubContextView,
    change_id: Seq<char>,
    number: u64,
    r: Result<Option<PrCacheEntryView>, Seq<CauseView>>,
) -> bool {
    exists|mid: Seq<Event>, fetched: Result<GhPrView, Seq<CauseView>>|
        {
            &&& #[trigger] pr_fetched(before, mid, github.repo, change_id, number, fetched)
            &&& match fetched {
                Err(e) => record::stopped(mid, after, e, r),
                Ok(pr) => exists|comment: Option<Seq<char>>|
                    #[trigger] comments::comment_id_searched(
                        mid,
                        after,
                        github,
                        pr.number,
                        change_id,
                        comment,
                    ) && r == Ok::<_, Seq<CauseView>>(Some(entry_of(pr, comment))),
            }
        }
}

fn adopt_head_pr<H: Host>(
    sh: &mut Shell<H>,
    github: &GitHubContext,
    change_id: &str,
    number: u64,
) -> (r: Result<Option<PrCacheEntry>, Error>)
    ensures
        record::extends(old(sh).log(), final(sh).log()),
        head_pr_adopted(old(sh).log(), final(sh).log(), github@, change_id@, number, error::res(r)),
{
    let fetched = fetch_pr_by_number(sh, github, change_id, number);
    let ghost mid = sh.log();
    let ghost seen = error::res(fetched);
    assert(pr_fetched(old(sh).log(), mid, github@.repo, change_id@, number, seen));
    match fetched {
        Err(error) => Err(error),
        Ok(pr) => {
            let comment = find_stack_comment_id(sh, github, pr.number, change_id);
            assert(comments::comment_id_searched(
                mid,
                sh.log(),
                github@,
                pr@.number,
                change_id@,
                comment.deep_view(),
            ));
            Ok(Some(pr.into_cache_entry(comment)))
        },
    }
}

/// What is wrong with the pull requests that were listed for one head branch.
pub open spec fn head_list_fault(
    repo: Seq<char>,
    change_id: Seq<char>,
    head_branch: Seq<char>,
    prs: Seq<GhPrView>,
) -> Option<CliErrorView> {
    if prs.len() == 1 && !is_open(prs[0].state) {
        Some(
            error::cli(
                "conflicting PR lookup for "@ + repo + "/"@ + stack::short_id(change_id) + ": branch `"@
                    + head_branch + "` returned "@ + prs[0].state + " "@ + hash(prs[0].number)
                    + " despite open-state lookup"@,
            ),
        )
    } else if prs.len() > 1 {
        Some(
            error::cli(
                "conflicting PR lookup for "@ + repo + "/"@ + stack::short_id(change_id) + ": branch `"@
                    + head_branch + "` matched "@ + text::decimal(prs.len()) + " open PRs"@,
            ),
        )
    } else {
        None
    }
}

/// The record from `before` to `after` holds the search for the open pull request of a head branch.
pub open spec fn head_pr_searched(
    before: Seq<Event>,
    after: Seq<Event>,
    github: GitHubContextView,
    change_id: Seq<char>,
    head_branch: Seq<char>,
    r: Result<Option<PrCacheEntryView>, Seq<CauseView>>,
) -> bool {
    let n = before.len() as int;
    let args = head_pr_args(github.repo, head_branch);
    &&& record::extends(before, after)
    &&& after.len() > n
    &&& record::is_call(after[n], "gh"@, args)
    &&& match record::reply_of(after[n]) {
        Err(e) => record::stopped(after.take(n + 1), after, e, r),
        Ok(output) => if !output.success {
            record::stopped(
                after.take(n + 1),
                after,
                error::plain(
                    "`"@ + output::shown("gh"@, args) + "` failed while looking up open PR for "@
                        + github.repo + "/"@ + change_id + ": "@ + text::trim(output.stderr),
                ),
                r,
            )
        } else {
            &&& after.len() > n + 1
            &&& after[n + 1] is PrsRead && after[n + 1]->PrsRead_json == output.stdout
            &&& match after[n + 1]->prs {
                Err(e) => record::stopped(
                    after.take(n + 2),
                    after,
                    error::in_context("parse open PR lookup for branch `"@ + head_branch + "`"@, e),
                    r,
                ),
                Ok(prs) => match head_list_fault(github.repo, change_id, head_branch, prs) {
                    Some(e) => record::stopped(after.take(n + 2), after, error::reported(e), r),
                    None => if prs.len() == 0 {
                        after.len() == n + 2 && r == Ok::<_, Seq<CauseView>>(
                            None::<PrCacheEntryView>,
                        )
                    } else {
                        head_pr_adopted(
                            after.take(n + 2),
                            after,
                            github,
                            change_id,
                            prs[0].number,
                            r,
                        )
                    },
                },
            }
        },
    }
}

fn head_list_error(
    github: &GitHubContext,
    change_id: &str,
    head_branch: &str,
    prs: &Vec<GhPr>,
) -> (r: Option<CliError>)
    ensures
        r is Some == head_list_fault(
            github@.repo,
            change_id@,
            head_branch@,
            prs.deep_view(),
        ) is Some,
        r matches Some(e) ==> e@ == head_list_fault(
            github@.repo,
            change_id@,
            head_branch@,
            prs.deep_view(),
        )->0,
{
    let mut message = cat5(
        "conflicting PR lookup for ",
        &github.repo,
        "/",
        &short_change_id(change_id),
        ": branch `",
    );
    message.append(head_branch);
    if prs.len() > 1 {
        message.append("` matched ");
        message.append(&number_text(prs.len() as u64));
        message.append(" open PRs");
        return Some(CliError::new(&message));
    }
    if prs.len() == 1 {
        assert(prs.deep_view()[0] == prs@[0]@);
        if !state_is_open(&prs[0].state) {
            message.append("` returned ");
            message.append(&prs[0].state);
            message.append(" ");
            message.append(&hash_text(prs[0].number));
            message.append(" despite open-state lookup");
            return Some(CliError::new(&message));
        }
    }
    None
}

pub fn lookup_open_pr_by_head_branch<H: Host>(
    sh: &mut Shell<H>,
    github: &GitHubContext,
    change_id: &str,
    head_branch: &str,
) -> (r: Result<Option<PrCacheEntry>, Error>)
    ensures
        record::extends(old(sh).log(), final(sh).log()),
        head_pr_searched(
            old(sh).log(),
            final(sh).log(),
            github@,
            change_id@,
            head_branch@,
            error::res(r),
        ),
{
    let ghost start = sh.log();
    let ghost n = start.len() as int;
    let args = words(
        &[
            "pr",
            "list",
            "--repo",
            &github.repo,
            "--head",
            head_branch,
            "--state",
            "open",
            "--json",
            PR_JSON_FIELDS,
        ],
    );
    assert(args.deep_view() =~= head_pr_args(github@.repo, head_branch@));
    let reply = gh_run(sh, &args);
    let ghost asked = sh.log();
    assert(asked.take(n + 1) =~= asked);
    let output = match reply {
        Ok(output) => output,
        Err(error) => return Err(error),
    };
    if !output.success {
        let mut message = cat5(
            "`",
            &display_command("gh", &args),
            "` failed while looking up open PR for ",
            &github.repo,
            "/",
        );
        message.append(change_id);
        message.append(": ");
        message.append(&trimmed(&output.stderr));
        return Err(fail(&message));
    }
    let listed = sh.read_prs(&output.stdout);
    let ghost read = sh.log();
    assert(read[n] == asked[n]);
    assert(read.take(n + 2) =~= read);
    let prs = match listed {
        Ok(prs) => prs,
        Err(error) => return Err(
            error.context(&cat3("parse open PR lookup for branch `", head_branch, "`")),
        ),
    };
    if let Some(error) = head_list_error(github, change_id, head_branch, &prs) {
        return Err(report(error));
    }
    if prs.len() == 0 {
        return Ok(None);
    }
    assert(prs.deep_view()[0] == prs@[0]@);
    let r = adopt_head_pr(sh, github, change_id, prs[0].number);
    assert(sh.log().take(n + 2) =~= read);
    assert(sh.log()[n] == sh.log().take(n + 2)[n]);
    assert(sh.log()[n + 1] == sh.log().take(n + 2)[n + 1]);
    r
}

// ---------------------------------------------------------------------------
// The law of the address
// ---------------------------------------------------------------------------

spec fn slashless(s: Seq<char>) -> bool {
    forall|i: int| 0 <= i < s.len() ==> #[trigger] s[i] != '/'
}

proof fn lemma_first_piece(a: Seq<char>, b: Seq<char>)
    requires
        slashless(a),
    ensures
        text::split(a + seq!['/'] + b, '/') == seq![a] + text::split(b, '/'),
{
    let s = a + seq!['/'] + b;
    let n = a.len() as int;
    assert(s[n] == '/');
    assert forall|i: int| 0 <= i < n implies s[i] != '/' by {
        assert(s[i] == a[i]);
    }
    text::lemma_until_at(s, '/', n);
    assert(s.take(n) =~= a);
    assert(s.skip(n + 1) =~= b);
}

/// The piece that begins with a number still begins with it, whatever follows behind.
proof fn lemma_number_piece(d: Seq<char>, tail: Seq<char>)
    requires
        text::all_digits(d),
        tail.len() > 0 ==> !text::is_digit(tail[0]),
    ensures
        text::split(d + tail, '/').len() > 0,
        comments::leading_digits(text::split(d + tail, '/')[0]) == d,
{
    let s = d + tail;
    text::lemma_until(s, '/');
    let n = text::until(s, '/') as int;
    if n < d.len() {
        assert(s[n] == d[n]);
        assert(text::is_digit(d[n]));
    }
    let first = text::split(s, '/')[0];
    if n < s.len() {
        assert(first == s.take(n));
        assert(first =~= d + tail.take(n - d.len()));
        if n > d.len() {
            assert(tail.take(n - d.len())[0] == tail[0]);
        }
        bodies::lemma_leading_digits(d, tail.take(n - d.len()));
    } else {
        bodies::lemma_leading_digits(d, tail);
    }
}

/// In the path of a pull request the host does not stand again before the number ends.
proof fn lemma_no_second_host(
    owner: Seq<char>,
    name: Seq<char>,
    d: Seq<char>,
    tail: Seq<char>,
    i: int,
)
    requires
        slashless(owner),
        slashless(name),
        !text::ends_with(owner, "github.com"@),
        !text::ends_with(name, "github.com"@),
        text::all_digits(d),
        d.len() > 0,
        text::stands_at(
            owner + "/"@ + name + "/pull/"@ + d + tail,
            "github.com/"@,
            i,
        ),
    ensures
        i >= owner.len() + 1 + name.len() + 6 + d.len(),
{
    reveal_strlit("github.com/");
    reveal_strlit("github.com");
    reveal_strlit("/pull/");
    reveal_strlit("/");
    let pat = "github.com/"@;
    let rest = owner + "/"@ + name + "/pull/"@ + d + tail;
    let o = owner.len() as int;
    let p = o + 1 + name.len();
    let q = p + 6;
    let end = q + d.len();
    let w = rest.subrange(i, i + 11);
    assert forall|k: int| 0 <= k < 11 implies #[trigger] rest[i + k] == pat[k] by {
        assert(w[k] == rest[i + k]);
    }
    if i < end {
        assert(rest[o] == '/');
        assert(rest[p] == '/');
        assert(rest[p + 4] == 'l');
        assert(rest[p + 5] == '/');
        let last = i + 10;
        assert(rest[i + 10] == '/');
        if last < o {
            assert(rest[last] == owner[last]);
        } else if last == o {
            assert(owner.skip(o - 10) =~= "github.com"@) by {
                assert forall|k: int| 0 <= k < 10 implies #[trigger] owner.skip(o - 10)[k]
                    == "github.com"@[k] by {
                    assert(rest[i + k] == pat[k]);
                    assert(rest[i + k] == owner[o - 10 + k]);
                }
            }
        } else if last < p {
            assert(rest[last] == name[last - o - 1]);
        } else if last == p {
            if i <= o {
                assert(rest[i + (o - i)] == pat[o - i]);
            }
            assert(name.skip(name.len() - 10) =~= "github.com"@) by {
                assert forall|k: int| 0 <= k < 10 implies #[trigger] name.skip(name.len() - 10)[k]
                    == "github.com"@[k] by {
                    assert(rest[i + k] == pat[k]);
                    assert(rest[i + k] == name[name.len() - 10 + k]);
                }
            }
        } else if last < end {
            if last < q {
                assert(rest[i + 9] == pat[9]);
                assert(rest[last] == "/pull/"@[last - p]);
            } else {
                assert(rest[last] == d[last - q]);
                assert(text::is_digit(d[last - q]));
            }
        } else {
            let k = end - 1 - i;
            assert(rest[i + k] == pat[k]);
            assert(rest[end - 1] == d[d.len() - 1]);
            assert(text::is_digit(d[d.len() - 1]));
        }
    }
}

/// The law of the address: the address that is made for a pull request is read as that pull request,
/// also with a further path, a query or a fragment behind it, whatever repository the user is in. A
/// repository whose owner or name ends in `github.com` is left out: the host is then found twice.
pub proof fn law_address_reads_back(
    owner: Seq<char>,
    name: Seq<char>,
    number: u64,
    tail: Seq<char>,
    target: Seq<char>,
    default_repo: Seq<char>,
)
    requires
        forall|i: int| 0 <= i < owner.len() ==> #[trigger] owner[i] != '/',
        forall|i: int| 0 <= i < name.len() ==> #[trigger] name[i] != '/',
        !text::ends_with(owner, "github.com"@),
        !text::ends_with(name, "github.com"@),
        tail.len() > 0 ==> !text::is_digit(tail[0]),
        text::trim(target) == pr_url(owner + "/"@ + name, number) + tail,
    ensures
        target_meaning(target, default_repo) == Ok::<GetTargetView, Seq<CauseView>>(
            GetTargetView::PullRequest { repo: owner + "/"@ + name, number },
        ),
{
    reveal_strlit("https://github.com/");
    reveal_strlit("github.com/");
    reveal_strlit("/pull/");
    reveal_strlit("pull");
    reveal_strlit("/");
    let pat = "github.com/"@;
    let d = text::decimal(number as nat);
    text::law_decimal_reads_back(number as nat);
    let t = text::trim(target);
    let rest = owner + "/"@ + name + "/pull/"@ + d + tail;
    assert(t =~= "https://github.com/"@ + rest);
    assert(t[0] == 'h');
    assert(!text::is_digit('h'));
    assert(text::parse_number(t) is None);
    assert(t.subrange(8, 19) =~= pat);
    assert(text::stands_at(t, pat, 8));
    assert forall|j: int| 0 <= j < 8 implies !#[trigger] text::stands_at(t, pat, j) by {
        if text::stands_at(t, pat, j) {
            assert(t.subrange(j, j + 11)[0] == t[j]);
        }
    }
    text::lemma_find_from(t, pat, 0);
    assert(text::find(t, pat) == Some(8int));
    assert(t.skip(19) =~= rest);
    text::lemma_find_from(rest, pat, 0);
    let path = after_host(t)->Some_0;
    let front = owner + "/"@ + name + "/pull/"@ + d;
    let more = match text::find(rest, pat) {
        Some(j) => {
            lemma_no_second_host(owner, name, d, tail, j);
            tail.take(j - front.len())
        },
        None => tail,
    };
    assert(path =~= front + more);
    assert(more.len() > 0 ==> more[0] == tail[0]);
    let third = d + more;
    let second = "pull"@ + seq!['/'] + third;
    let first = name + seq!['/'] + second;
    assert(path =~= owner + seq!['/'] + first);
    lemma_first_piece(owner, first);
    lemma_first_piece(name, second);
    lemma_first_piece("pull"@, third);
    lemma_number_piece(d, more);
    let parts = text::split(path, '/');
    assert(parts =~= seq![owner, name, "pull"@] + text::split(third, '/'));
    assert(parts[3] == text::split(third, '/')[0]);
}

} // verus!
