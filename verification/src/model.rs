//! The data that the commands work on.
//!
//! Each type has a view over mathematical values, which the contracts speak of, and a copy that
//! keeps the view.

use vstd::prelude::*;

use crate::text::{copy_list, copy_option};

verus! {

/// A type whose values can be copied without change of what they show.
pub trait Duplicate: DeepView + Sized {
    fn copy(&self) -> (r: Self)
        ensures
            r.deep_view() == self.deep_view(),
    ;
}

pub fn copy_all<T: Duplicate>(items: &Vec<T>) -> (r: Vec<T>)
    ensures
        r.deep_view() == items.deep_view(),
{
    let mut out: Vec<T> = Vec::new();
    let mut i: usize = 0;
    while i < items.len()
        invariant
            i <= items@.len(),
            out@.len() == i,
            forall|k: int| 0 <= k < i ==> (#[trigger] out@[k]).deep_view() == items@[k].deep_view(),
        decreases items@.len() - i,
    {
        out.push(items[i].copy());
        i = i + 1;
    }
    assert(out.deep_view() =~= items.deep_view());
    out
}

pub fn copy_opt<T: Duplicate>(item: &Option<T>) -> (r: Option<T>)
    ensures
        r.deep_view() == item.deep_view(),
{
    match item {
        Some(value) => Some(value.copy()),
        None => None,
    }
}

pub fn copy_numbers(items: &Vec<u64>) -> (r: Vec<u64>)
    ensures
        r@ == items@,
{
    let mut out: Vec<u64> = Vec::new();
    let mut i: usize = 0;
    while i < items.len()
        invariant
            i <= items@.len(),
            out@ == items@.take(i as int),
        decreases items@.len() - i,
    {
        out.push(items[i]);
        i = i + 1;
        assert(out@ =~= items@.take(i as int));
    }
    assert(items@.take(i as int) =~= items@);
    out
}

/// How much a run narrates, and whether it changes anything.
#[derive(Clone, Copy)]
pub struct Diagnostics {
    pub verbose: bool,
    pub dry_run: bool,
}

/// A field of a JSON object whose presence and type matter.
pub enum JsonField {
    /// The object has no such field.
    Absent,
    /// The field holds a string.
    Text(String),
    /// The field holds anything else.
    Other,
}

pub enum JsonFieldView {
    Absent,
    Text(Seq<char>),
    Other,
}

impl View for JsonField {
    type V = JsonFieldView;

    open spec fn view(&self) -> JsonFieldView {
        match self {
            JsonField::Absent => JsonFieldView::Absent,
            JsonField::Text(s) => JsonFieldView::Text(s@),
            JsonField::Other => JsonFieldView::Other,
        }
    }
}

impl DeepView for JsonField {
    type V = JsonFieldView;

    open spec fn deep_view(&self) -> JsonFieldView {
        self@
    }
}

impl Duplicate for JsonField {
    fn copy(&self) -> (r: Self) {
        match self {
            JsonField::Absent => JsonField::Absent,
            JsonField::Text(s) => JsonField::Text(s.clone()),
            JsonField::Other => JsonField::Other,
        }
    }
}

/// What the user configured for this repository.
pub struct AppConfig {
    pub remote: String,
    pub trunk: String,
    pub require_approval: bool,
    pub branch_prefix: String,
}

#[verifier::ext_equal]
pub struct AppConfigView {
    pub remote: Seq<char>,
    pub trunk: Seq<char>,
    pub require_approval: bool,
    pub branch_prefix: Seq<char>,
}

impl View for AppConfig {
    type V = AppConfigView;

    open spec fn view(&self) -> AppConfigView {
        AppConfigView {
            remote: self.remote@,
            trunk: self.trunk@,
            require_approval: self.require_approval,
            branch_prefix: self.branch_prefix@,
        }
    }
}

impl DeepView for AppConfig {
    type V = AppConfigView;

    open spec fn deep_view(&self) -> AppConfigView {
        self@
    }
}

impl Duplicate for AppConfig {
    fn copy(&self) -> (r: Self) {
        AppConfig {
            remote: self.remote.clone(),
            trunk: self.trunk.clone(),
            require_approval: self.require_approval,
            branch_prefix: self.branch_prefix.clone(),
        }
    }
}

/// The GitHub repository that is worked on and the account that works.
pub struct GitHubContext {
    pub repo: String,
    pub username: String,
}

#[verifier::ext_equal]
pub struct GitHubContextView {
    pub repo: Seq<char>,
    pub username: Seq<char>,
}

impl View for GitHubContext {
    type V = GitHubContextView;

    open spec fn view(&self) -> GitHubContextView {
        GitHubContextView {
            repo: self.repo@,
            username: self.username@,
        }
    }
}

impl DeepView for GitHubContext {
    type V = GitHubContextView;

    open spec fn deep_view(&self) -> GitHubContextView {
        self@
    }
}

impl Duplicate for GitHubContext {
    fn copy(&self) -> (r: Self) {
        GitHubContext {
            repo: self.repo.clone(),
            username: self.username.clone(),
        }
    }
}

/// How a finished command ended and what it wrote.
pub struct CommandOutput {
    pub success: bool,
    pub stdout: String,
    pub stderr: String,
}

#[verifier::ext_equal]
pub struct CommandOutputView {
    pub success: bool,
    pub stdout: Seq<char>,
    pub stderr: Seq<char>,
}

impl View for CommandOutput {
    type V = CommandOutputView;

    open spec fn view(&self) -> CommandOutputView {
        CommandOutputView {
            success: self.success,
            stdout: self.stdout@,
            stderr: self.stderr@,
        }
    }
}

impl DeepView for CommandOutput {
    type V = CommandOutputView;

    open spec fn deep_view(&self) -> CommandOutputView {
        self@
    }
}

impl Duplicate for CommandOutput {
    fn copy(&self) -> (r: Self) {
        CommandOutput {
            success: self.success,
            stdout: self.stdout.clone(),
            stderr: self.stderr.clone(),
        }
    }
}

/// What is remembered of a pull request.
pub struct PrCacheEntry {
    pub pr_number: u64,
    pub pr_node_id: String,
    pub head_branch: String,
    pub base_branch: String,
    pub base_ref: String,
    pub head_repo_id: String,
    pub head_repo_node_id: String,
    pub head_repo_name: String,
    pub base_repo_id: String,
    pub base_repo_node_id: String,
    pub base_repo_name: String,
    pub head_sha: String,
    pub base_sha: String,
    pub author_login: String,
    pub title: String,
    pub body: String,
    pub created_at: String,
    pub stack_comment_id: Option<String>,
}

#[verifier::ext_equal]
pub struct PrCacheEntryView {
    pub pr_number: u64,
    pub pr_node_id: Seq<char>,
    pub head_branch: Seq<char>,
    pub base_branch: Seq<char>,
    pub base_ref: Seq<char>,
    pub head_repo_id: Seq<char>,
    pub head_repo_node_id: Seq<char>,
    pub head_repo_name: Seq<char>,
    pub base_repo_id: Seq<char>,
    pub base_repo_node_id: Seq<char>,
    pub base_repo_name: Seq<char>,
    pub head_sha: Seq<char>,
    pub base_sha: Seq<char>,
    pub author_login: Seq<char>,
    pub title: Seq<char>,
    pub body: Seq<char>,
    pub created_at: Seq<char>,
    pub stack_comment_id: Option<Seq<char>>,
}

impl View for PrCacheEntry {
    type V = PrCacheEntryView;

    open spec fn view(&self) -> PrCacheEntryView {
        PrCacheEntryView {
            pr_number: self.pr_number,
            pr_node_id: self.pr_node_id@,
            head_branch: self.head_branch@,
            base_branch: self.base_branch@,
            base_ref: self.base_ref@,
            head_repo_id: self.head_repo_id@,
            head_repo_node_id: self.head_repo_node_id@,
            head_repo_name: self.head_repo_name@,
            base_repo_id: self.base_repo_id@,
            base_repo_node_id: self.base_repo_node_id@,
            base_repo_name: self.base_repo_name@,
            head_sha: self.head_sha@,
            base_sha: self.base_sha@,
            author_login: self.author_login@,
            title: self.title@,
            body: self.body@,
            created_at: self.created_at@,
            stack_comment_id: self.stack_comment_id.deep_view(),
        }
    }
}

impl DeepView for PrCacheEntry {
    type V = PrCacheEntryView;

    open spec fn deep_view(&self) -> PrCacheEntryView {
        self@
    }
}

impl Duplicate for PrCacheEntry {
    fn copy(&self) -> (r: Self) {
        PrCacheEntry {
            pr_number: self.pr_number,
            pr_node_id: self.pr_node_id.clone(),
            head_branch: self.head_branch.clone(),
            base_branch: self.base_branch.clone(),
            base_ref: self.base_ref.clone(),
            head_repo_id: self.head_repo_id.clone(),
            head_repo_node_id: self.head_repo_node_id.clone(),
            head_repo_name: self.head_repo_name.clone(),
            base_repo_id: self.base_repo_id.clone(),
            base_repo_node_id: self.base_repo_node_id.clone(),
            base_repo_name: self.base_repo_name.clone(),
            head_sha: self.head_sha.clone(),
            base_sha: self.base_sha.clone(),
            author_login: self.author_login.clone(),
            title: self.title.clone(),
            body: self.body.clone(),
            created_at: self.created_at.clone(),
            stack_comment_id: copy_option(&self.stack_comment_id),
        }
    }
}

/// One remembered pull request with the repository and the change it belongs to.
pub struct CacheRow {
    pub repo: String,
    pub change_id: String,
    pub entry: PrCacheEntry,
}

#[verifier::ext_equal]
pub struct CacheRowView {
    pub repo: Seq<char>,
    pub change_id: Seq<char>,
    pub entry: PrCacheEntryView,
}

impl View for CacheRow {
    type V = CacheRowView;

    open spec fn view(&self) -> CacheRowView {
        CacheRowView {
            repo: self.repo@,
            change_id: self.change_id@,
            entry: self.entry@,
        }
    }
}

impl DeepView for CacheRow {
    type V = CacheRowView;

    open spec fn deep_view(&self) -> CacheRowView {
        self@
    }
}

impl Duplicate for CacheRow {
    fn copy(&self) -> (r: Self) {
        CacheRow {
            repo: self.repo.clone(),
            change_id: self.change_id.clone(),
            entry: self.entry.copy(),
        }
    }
}

/// A jj change with its current commit.
pub struct ResolvedChange {
    pub change_id: String,
    pub commit_id: String,
    pub parent_ids: Vec<String>,
    pub title: String,
    pub body: String,
    pub tree_id: String,
    pub empty: bool,
    pub conflict: bool,
    pub divergent: bool,
}

#[verifier::ext_equal]
pub struct ResolvedChangeView {
    pub change_id: Seq<char>,
    pub commit_id: Seq<char>,
    pub parent_ids: Seq<Seq<char>>,
    pub title: Seq<char>,
    pub body: Seq<char>,
    pub tree_id: Seq<char>,
    pub empty: bool,
    pub conflict: bool,
    pub divergent: bool,
}

impl View for ResolvedChange {
    type V = ResolvedChangeView;

    open spec fn view(&self) -> ResolvedChangeView {
        ResolvedChangeView {
            change_id: self.change_id@,
            commit_id: self.commit_id@,
            parent_ids: self.parent_ids.deep_view(),
            title: self.title@,
            body: self.body@,
            tree_id: self.tree_id@,
            empty: self.empty,
            conflict: self.conflict,
            divergent: self.divergent,
        }
    }
}

impl DeepView for ResolvedChange {
    type V = ResolvedChangeView;

    open spec fn deep_view(&self) -> ResolvedChangeView {
        self@
    }
}

impl Duplicate for ResolvedChange {
    fn copy(&self) -> (r: Self) {
        ResolvedChange {
            change_id: self.change_id.clone(),
            commit_id: self.commit_id.clone(),
            parent_ids: copy_list(&self.parent_ids),
            title: self.title.clone(),
            body: self.body.clone(),
            tree_id: self.tree_id.clone(),
            empty: self.empty,
            conflict: self.conflict,
            divergent: self.divergent,
        }
    }
}

/// A local bookmark that pins the head of a pull request of someone else.
pub struct FrozenBookmark {
    pub name: String,
    pub pr_number: u64,
    pub commit_id: String,
}

#[verifier::ext_equal]
pub struct FrozenBookmarkView {
    pub name: Seq<char>,
    pub pr_number: u64,
    pub commit_id: Seq<char>,
}

impl View for FrozenBookmark {
    type V = FrozenBookmarkView;

    open spec fn view(&self) -> FrozenBookmarkView {
        FrozenBookmarkView {
            name: self.name@,
            pr_number: self.pr_number,
            commit_id: self.commit_id@,
        }
    }
}

impl DeepView for FrozenBookmark {
    type V = FrozenBookmarkView;

    open spec fn deep_view(&self) -> FrozenBookmarkView {
        self@
    }
}

impl Duplicate for FrozenBookmark {
    fn copy(&self) -> (r: Self) {
        FrozenBookmark {
            name: self.name.clone(),
            pr_number: self.pr_number,
            commit_id: self.commit_id.clone(),
        }
    }
}

/// A frozen bookmark with the change it points at.
pub struct FrozenDependency {
    pub bookmark: FrozenBookmark,
    pub change: ResolvedChange,
}

#[verifier::ext_equal]
pub struct FrozenDependencyView {
    pub bookmark: FrozenBookmarkView,
    pub change: ResolvedChangeView,
}

impl View for FrozenDependency {
    type V = FrozenDependencyView;

    open spec fn view(&self) -> FrozenDependencyView {
        FrozenDependencyView {
            bookmark: self.bookmark@,
            change: self.change@,
        }
    }
}

impl DeepView for FrozenDependency {
    type V = FrozenDependencyView;

    open spec fn deep_view(&self) -> FrozenDependencyView {
        self@
    }
}

impl Duplicate for FrozenDependency {
    fn copy(&self) -> (r: Self) {
        FrozenDependency {
            bookmark: self.bookmark.copy(),
            change: self.change.copy(),
        }
    }
}

/// The changes that the user owns and the frozen ones below them, each bottom first.
pub struct StackResolution {
    pub owned: Vec<ResolvedChange>,
    pub frozen_dependencies: Vec<FrozenDependency>,
}

#[verifier::ext_equal]
pub struct StackResolutionView {
    pub owned: Seq<ResolvedChangeView>,
    pub frozen_dependencies: Seq<FrozenDependencyView>,
}

impl View for StackResolution {
    type V = StackResolutionView;

    open spec fn view(&self) -> StackResolutionView {
        StackResolutionView {
            owned: self.owned.deep_view(),
            frozen_dependencies: self.frozen_dependencies.deep_view(),
        }
    }
}

impl DeepView for StackResolution {
    type V = StackResolutionView;

    open spec fn deep_view(&self) -> StackResolutionView {
        self@
    }
}

impl Duplicate for StackResolution {
    fn copy(&self) -> (r: Self) {
        StackResolution {
            owned: copy_all(&self.owned),
            frozen_dependencies: copy_all(&self.frozen_dependencies),
        }
    }
}

/// The resolved stack with the GitHub repository it goes to.
pub struct AppContext {
    pub github: GitHubContext,
    pub stack: Vec<ResolvedChange>,
    pub frozen_dependencies: Vec<FrozenDependency>,
}

#[verifier::ext_equal]
pub struct AppContextView {
    pub github: GitHubContextView,
    pub stack: Seq<ResolvedChangeView>,
    pub frozen_dependencies: Seq<FrozenDependencyView>,
}

impl View for AppContext {
    type V = AppContextView;

    open spec fn view(&self) -> AppContextView {
        AppContextView {
            github: self.github@,
            stack: self.stack.deep_view(),
            frozen_dependencies: self.frozen_dependencies.deep_view(),
        }
    }
}

impl DeepView for AppContext {
    type V = AppContextView;

    open spec fn deep_view(&self) -> AppContextView {
        self@
    }
}

impl Duplicate for AppContext {
    fn copy(&self) -> (r: Self) {
        AppContext {
            github: self.github.copy(),
            stack: copy_all(&self.stack),
            frozen_dependencies: copy_all(&self.frozen_dependencies),
        }
    }
}

/// A bookmark as a remote has it.
pub struct RemoteBookmark {
    pub name: String,
    pub remote: String,
    pub is_tracked: bool,
    pub is_conflicted: bool,
    pub commit_id: String,
}

#[verifier::ext_equal]
pub struct RemoteBookmarkView {
    pub name: Seq<char>,
    pub remote: Seq<char>,
    pub is_tracked: bool,
    pub is_conflicted: bool,
    pub commit_id: Seq<char>,
}

impl View for RemoteBookmark {
    type V = RemoteBookmarkView;

    open spec fn view(&self) -> RemoteBookmarkView {
        RemoteBookmarkView {
            name: self.name@,
            remote: self.remote@,
            is_tracked: self.is_tracked,
            is_conflicted: self.is_conflicted,
            commit_id: self.commit_id@,
        }
    }
}

impl DeepView for RemoteBookmark {
    type V = RemoteBookmarkView;

    open spec fn deep_view(&self) -> RemoteBookmarkView {
        self@
    }
}

impl Duplicate for RemoteBookmark {
    fn copy(&self) -> (r: Self) {
        RemoteBookmark {
            name: self.name.clone(),
            remote: self.remote.clone(),
            is_tracked: self.is_tracked,
            is_conflicted: self.is_conflicted,
            commit_id: self.commit_id.clone(),
        }
    }
}

/// Whether a remote bookmark is followed and whether it is conflicted.
pub struct RemoteBookmarkStatus {
    pub is_tracked: bool,
    pub is_conflicted: bool,
}

#[verifier::ext_equal]
pub struct RemoteBookmarkStatusView {
    pub is_tracked: bool,
    pub is_conflicted: bool,
}

impl View for RemoteBookmarkStatus {
    type V = RemoteBookmarkStatusView;

    open spec fn view(&self) -> RemoteBookmarkStatusView {
        RemoteBookmarkStatusView {
            is_tracked: self.is_tracked,
            is_conflicted: self.is_conflicted,
        }
    }
}

impl DeepView for RemoteBookmarkStatus {
    type V = RemoteBookmarkStatusView;

    open spec fn deep_view(&self) -> RemoteBookmarkStatusView {
        self@
    }
}

impl Duplicate for RemoteBookmarkStatus {
    fn copy(&self) -> (r: Self) {
        RemoteBookmarkStatus {
            is_tracked: self.is_tracked,
            is_conflicted: self.is_conflicted,
        }
    }
}

/// A repository as the GitHub API names it.
pub struct GhRepository {
    pub id: String,
    pub node_id: String,
    pub name_with_owner: String,
}

#[verifier::ext_equal]
pub struct GhRepositoryView {
    pub id: Seq<char>,
    pub node_id: Seq<char>,
    pub name_with_owner: Seq<char>,
}

impl View for GhRepository {
    type V = GhRepositoryView;

    open spec fn view(&self) -> GhRepositoryView {
        GhRepositoryView {
            id: self.id@,
            node_id: self.node_id@,
            name_with_owner: self.name_with_owner@,
        }
    }
}

impl DeepView for GhRepository {
    type V = GhRepositoryView;

    open spec fn deep_view(&self) -> GhRepositoryView {
        self@
    }
}

impl Duplicate for GhRepository {
    fn copy(&self) -> (r: Self) {
        GhRepository {
            id: self.id.clone(),
            node_id: self.node_id.clone(),
            name_with_owner: self.name_with_owner.clone(),
        }
    }
}

/// The author of a pull request.
pub struct GhAuthor {
    pub login: String,
}

#[verifier::ext_equal]
pub struct GhAuthorView {
    pub login: Seq<char>,
}

impl View for GhAuthor {
    type V = GhAuthorView;

    open spec fn view(&self) -> GhAuthorView {
        GhAuthorView {
            login: self.login@,
        }
    }
}

impl DeepView for GhAuthor {
    type V = GhAuthorView;

    open spec fn deep_view(&self) -> GhAuthorView {
        self@
    }
}

impl Duplicate for GhAuthor {
    fn copy(&self) -> (r: Self) {
        GhAuthor {
            login: self.login.clone(),
        }
    }
}

/// A pull request as the GitHub API shows it.
pub struct GhPr {
    pub number: u64,
    pub state: String,
    pub merged: bool,
    pub id: String,
    pub head_ref_name: String,
    pub base_ref_name: String,
    pub head_ref_oid: String,
    pub base_ref_oid: String,
    pub title: String,
    pub body: String,
    pub created_at: String,
    pub head_repository: Option<GhRepository>,
    pub base_repository: Option<GhRepository>,
    pub author: Option<GhAuthor>,
}

#[verifier::ext_equal]
pub struct GhPrView {
    pub number: u64,
    pub state: Seq<char>,
    pub merged: bool,
    pub id: Seq<char>,
    pub head_ref_name: Seq<char>,
    pub base_ref_name: Seq<char>,
    pub head_ref_oid: Seq<char>,
    pub base_ref_oid: Seq<char>,
    pub title: Seq<char>,
    pub body: Seq<char>,
    pub created_at: Seq<char>,
    pub head_repository: Option<GhRepositoryView>,
    pub base_repository: Option<GhRepositoryView>,
    pub author: Option<GhAuthorView>,
}

impl View for GhPr {
    type V = GhPrView;

    open spec fn view(&self) -> GhPrView {
        GhPrView {
            number: self.number,
            state: self.state@,
            merged: self.merged,
            id: self.id@,
            head_ref_name: self.head_ref_name@,
            base_ref_name: self.base_ref_name@,
            head_ref_oid: self.head_ref_oid@,
            base_ref_oid: self.base_ref_oid@,
            title: self.title@,
            body: self.body@,
            created_at: self.created_at@,
            head_repository: self.head_repository.deep_view(),
            base_repository: self.base_repository.deep_view(),
            author: self.author.deep_view(),
        }
    }
}

impl DeepView for GhPr {
    type V = GhPrView;

    open spec fn deep_view(&self) -> GhPrView {
        self@
    }
}

impl Duplicate for GhPr {
    fn copy(&self) -> (r: Self) {
        GhPr {
            number: self.number,
            state: self.state.clone(),
            merged: self.merged,
            id: self.id.clone(),
            head_ref_name: self.head_ref_name.clone(),
            base_ref_name: self.base_ref_name.clone(),
            head_ref_oid: self.head_ref_oid.clone(),
            base_ref_oid: self.base_ref_oid.clone(),
            title: self.title.clone(),
            body: self.body.clone(),
            created_at: self.created_at.clone(),
            head_repository: copy_opt(&self.head_repository),
            base_repository: copy_opt(&self.base_repository),
            author: copy_opt(&self.author),
        }
    }
}

/// One entry of the status checks of a pull request.
pub struct StatusCheck {
    pub name: JsonField,
    pub context: JsonField,
    pub state: JsonField,
    pub status: JsonField,
    pub conclusion: JsonField,
}

#[verifier::ext_equal]
pub struct StatusCheckView {
    pub name: JsonFieldView,
    pub context: JsonFieldView,
    pub state: JsonFieldView,
    pub status: JsonFieldView,
    pub conclusion: JsonFieldView,
}

impl View for StatusCheck {
    type V = StatusCheckView;

    open spec fn view(&self) -> StatusCheckView {
        StatusCheckView {
            name: self.name@,
            context: self.context@,
            state: self.state@,
            status: self.status@,
            conclusion: self.conclusion@,
        }
    }
}

impl DeepView for StatusCheck {
    type V = StatusCheckView;

    open spec fn deep_view(&self) -> StatusCheckView {
        self@
    }
}

impl Duplicate for StatusCheck {
    fn copy(&self) -> (r: Self) {
        StatusCheck {
            name: self.name.copy(),
            context: self.context.copy(),
            state: self.state.copy(),
            status: self.status.copy(),
            conclusion: self.conclusion.copy(),
        }
    }
}

/// A pull request with what decides whether it can be merged.
pub struct GhMergePr {
    pub number: u64,
    pub state: String,
    pub head_ref_name: String,
    pub base_ref_name: String,
    pub head_ref_oid: String,
    pub base_ref_oid: String,
    pub title: String,
    pub body: String,
    pub created_at: String,
    pub is_draft: bool,
    pub review_decision: Option<String>,
    pub mergeable: Option<String>,
    pub merge_state_status: Option<String>,
    pub status_check_rollup: Vec<StatusCheck>,
    pub auto_merge: bool,
}

#[verifier::ext_equal]
pub struct GhMergePrView {
    pub number: u64,
    pub state: Seq<char>,
    pub head_ref_name: Seq<char>,
    pub base_ref_name: Seq<char>,
    pub head_ref_oid: Seq<char>,
    pub base_ref_oid: Seq<char>,
    pub title: Seq<char>,
    pub body: Seq<char>,
    pub created_at: Seq<char>,
    pub is_draft: bool,
    pub review_decision: Option<Seq<char>>,
    pub mergeable: Option<Seq<char>>,
    pub merge_state_status: Option<Seq<char>>,
    pub status_check_rollup: Seq<StatusCheckView>,
    pub auto_merge: bool,
}

impl View for GhMergePr {
    type V = GhMergePrView;

    open spec fn view(&self) -> GhMergePrView {
        GhMergePrView {
            number: self.number,
            state: self.state@,
            head_ref_name: self.head_ref_name@,
            base_ref_name: self.base_ref_name@,
            head_ref_oid: self.head_ref_oid@,
            base_ref_oid: self.base_ref_oid@,
            title: self.title@,
            body: self.body@,
            created_at: self.created_at@,
            is_draft: self.is_draft,
            review_decision: self.review_decision.deep_view(),
            mergeable: self.mergeable.deep_view(),
            merge_state_status: self.merge_state_status.deep_view(),
            status_check_rollup: self.status_check_rollup.deep_view(),
            auto_merge: self.auto_merge,
        }
    }
}

impl DeepView for GhMergePr {
    type V = GhMergePrView;

    open spec fn deep_view(&self) -> GhMergePrView {
        self@
    }
}

impl Duplicate for GhMergePr {
    fn copy(&self) -> (r: Self) {
        GhMergePr {
            number: self.number,
            state: self.state.clone(),
            head_ref_name: self.head_ref_name.clone(),
            base_ref_name: self.base_ref_name.clone(),
            head_ref_oid: self.head_ref_oid.clone(),
            base_ref_oid: self.base_ref_oid.clone(),
            title: self.title.clone(),
            body: self.body.clone(),
            created_at: self.created_at.clone(),
            is_draft: self.is_draft,
            review_decision: copy_option(&self.review_decision),
            mergeable: copy_option(&self.mergeable),
            merge_state_status: copy_option(&self.merge_state_status),
            status_check_rollup: copy_all(&self.status_check_rollup),
            auto_merge: self.auto_merge,
        }
    }
}

/// A comment on a pull request.
pub struct GhStackComment {
    pub id: u64,
    pub body: String,
    pub user_login: String,
    pub updated_at: String,
}

#[verifier::ext_equal]
pub struct GhStackCommentView {
    pub id: u64,
    pub body: Seq<char>,
    pub user_login: Seq<char>,
    pub updated_at: Seq<char>,
}

impl View for GhStackComment {
    type V = GhStackCommentView;

    open spec fn view(&self) -> GhStackCommentView {
        GhStackCommentView {
            id: self.id,
            body: self.body@,
            user_login: self.user_login@,
            updated_at: self.updated_at@,
        }
    }
}

impl DeepView for GhStackComment {
    type V = GhStackCommentView;

    open spec fn deep_view(&self) -> GhStackCommentView {
        self@
    }
}

impl Duplicate for GhStackComment {
    fn copy(&self) -> (r: Self) {
        GhStackComment {
            id: self.id,
            body: self.body.clone(),
            user_login: self.user_login.clone(),
            updated_at: self.updated_at.clone(),
        }
    }
}

/// The commit that a merge or sync target stands for.
pub struct MergeTarget {
    pub input: String,
    pub commit_id: String,
    pub pr_number: Option<u64>,
}

#[verifier::ext_equal]
pub struct MergeTargetView {
    pub input: Seq<char>,
    pub commit_id: Seq<char>,
    pub pr_number: Option<u64>,
}

impl View for MergeTarget {
    type V = MergeTargetView;

    open spec fn view(&self) -> MergeTargetView {
        MergeTargetView {
            input: self.input@,
            commit_id: self.commit_id@,
            pr_number: self.pr_number,
        }
    }
}

impl DeepView for MergeTarget {
    type V = MergeTargetView;

    open spec fn deep_view(&self) -> MergeTargetView {
        self@
    }
}

impl Duplicate for MergeTarget {
    fn copy(&self) -> (r: Self) {
        MergeTarget {
            input: self.input.clone(),
            commit_id: self.commit_id.clone(),
            pr_number: self.pr_number,
        }
    }
}

/// What a merge works on.
pub struct MergeRevset {
    pub revset: String,
    pub target: Option<MergeTarget>,
}

#[verifier::ext_equal]
pub struct MergeRevsetView {
    pub revset: Seq<char>,
    pub target: Option<MergeTargetView>,
}

impl View for MergeRevset {
    type V = MergeRevsetView;

    open spec fn view(&self) -> MergeRevsetView {
        MergeRevsetView {
            revset: self.revset@,
            target: self.target.deep_view(),
        }
    }
}

impl DeepView for MergeRevset {
    type V = MergeRevsetView;

    open spec fn deep_view(&self) -> MergeRevsetView {
        self@
    }
}

impl Duplicate for MergeRevset {
    fn copy(&self) -> (r: Self) {
        MergeRevset {
            revset: self.revset.clone(),
            target: copy_opt(&self.target),
        }
    }
}

/// What a sync works on.
pub struct SyncRevset {
    pub revset: String,
    pub target: Option<MergeTarget>,
}

#[verifier::ext_equal]
pub struct SyncRevsetView {
    pub revset: Seq<char>,
    pub target: Option<MergeTargetView>,
}

impl View for SyncRevset {
    type V = SyncRevsetView;

    open spec fn view(&self) -> SyncRevsetView {
        SyncRevsetView {
            revset: self.revset@,
            target: self.target.deep_view(),
        }
    }
}

impl DeepView for SyncRevset {
    type V = SyncRevsetView;

    open spec fn deep_view(&self) -> SyncRevsetView {
        self@
    }
}

impl Duplicate for SyncRevset {
    fn copy(&self) -> (r: Self) {
        SyncRevset {
            revset: self.revset.clone(),
            target: copy_opt(&self.target),
        }
    }
}

/// A value that the repository configuration of jj must get.
pub struct StartupConfigAction {
    pub key: String,
    pub value: String,
}

#[verifier::ext_equal]
pub struct StartupConfigActionView {
    pub key: Seq<char>,
    pub value: Seq<char>,
}

impl View for StartupConfigAction {
    type V = StartupConfigActionView;

    open spec fn view(&self) -> StartupConfigActionView {
        StartupConfigActionView {
            key: self.key@,
            value: self.value@,
        }
    }
}

impl DeepView for StartupConfigAction {
    type V = StartupConfigActionView;

    open spec fn deep_view(&self) -> StartupConfigActionView {
        self@
    }
}

impl Duplicate for StartupConfigAction {
    fn copy(&self) -> (r: Self) {
        StartupConfigAction {
            key: self.key.clone(),
            value: self.value.clone(),
        }
    }
}

/// What submit does for one change.
pub struct SubmitPlan {
    pub change: ResolvedChange,
    pub head_branch: String,
    pub base_branch: String,
    pub existing_pr: Option<PrCacheEntry>,
    pub expected_remote_head: Option<String>,
    pub push_needed: bool,
    pub pr_update_needed: bool,
}

#[verifier::ext_equal]
pub struct SubmitPlanView {
    pub change: ResolvedChangeView,
    pub head_branch: Seq<char>,
    pub base_branch: Seq<char>,
    pub existing_pr: Option<PrCacheEntryView>,
    pub expected_remote_head: Option<Seq<char>>,
    pub push_needed: bool,
    pub pr_update_needed: bool,
}

impl View for SubmitPlan {
    type V = SubmitPlanView;

    open spec fn view(&self) -> SubmitPlanView {
        SubmitPlanView {
            change: self.change@,
            head_branch: self.head_branch@,
            base_branch: self.base_branch@,
            existing_pr: self.existing_pr.deep_view(),
            expected_remote_head: self.expected_remote_head.deep_view(),
            push_needed: self.push_needed,
            pr_update_needed: self.pr_update_needed,
        }
    }
}

impl DeepView for SubmitPlan {
    type V = SubmitPlanView;

    open spec fn deep_view(&self) -> SubmitPlanView {
        self@
    }
}

impl Duplicate for SubmitPlan {
    fn copy(&self) -> (r: Self) {
        SubmitPlan {
            change: self.change.copy(),
            head_branch: self.head_branch.clone(),
            base_branch: self.base_branch.clone(),
            existing_pr: copy_opt(&self.existing_pr),
            expected_remote_head: copy_option(&self.expected_remote_head),
            push_needed: self.push_needed,
            pr_update_needed: self.pr_update_needed,
        }
    }
}

/// The open pull requests of a stack and the merged ones that its comments still list.
pub struct RepairPlan {
    pub open_prs: Vec<GhPr>,
    pub pruned_merged_prs: Vec<u64>,
}

#[verifier::ext_equal]
pub struct RepairPlanView {
    pub open_prs: Seq<GhPrView>,
    pub pruned_merged_prs: Seq<u64>,
}

impl View for RepairPlan {
    type V = RepairPlanView;

    open spec fn view(&self) -> RepairPlanView {
        RepairPlanView {
            open_prs: self.open_prs.deep_view(),
            pruned_merged_prs: self.pruned_merged_prs@,
        }
    }
}

impl DeepView for RepairPlan {
    type V = RepairPlanView;

    open spec fn deep_view(&self) -> RepairPlanView {
        self@
    }
}

impl Duplicate for RepairPlan {
    fn copy(&self) -> (r: Self) {
        RepairPlan {
            open_prs: copy_all(&self.open_prs),
            pruned_merged_prs: copy_numbers(&self.pruned_merged_prs),
        }
    }
}

/// The stack comment that one pull request gets.
pub struct RepairAction {
    pub pr_number: u64,
    pub removed_prs: Vec<u64>,
    pub body: String,
}

#[verifier::ext_equal]
pub struct RepairActionView {
    pub pr_number: u64,
    pub removed_prs: Seq<u64>,
    pub body: Seq<char>,
}

impl View for RepairAction {
    type V = RepairActionView;

    open spec fn view(&self) -> RepairActionView {
        RepairActionView {
            pr_number: self.pr_number,
            removed_prs: self.removed_prs@,
            body: self.body@,
        }
    }
}

impl DeepView for RepairAction {
    type V = RepairActionView;

    open spec fn deep_view(&self) -> RepairActionView {
        self@
    }
}

impl Duplicate for RepairAction {
    fn copy(&self) -> (r: Self) {
        RepairAction {
            pr_number: self.pr_number,
            removed_prs: copy_numbers(&self.removed_prs),
            body: self.body.clone(),
        }
    }
}

/// The revset aliases that jj is configured with.
pub struct StatusAliasState {
    pub frozen_heads: Option<String>,
    pub immutable_heads: Option<String>,
    pub base_immutable_heads: Option<String>,
    pub actions_needed: Vec<String>,
}

#[verifier::ext_equal]
pub struct StatusAliasStateView {
    pub frozen_heads: Option<Seq<char>>,
    pub immutable_heads: Option<Seq<char>>,
    pub base_immutable_heads: Option<Seq<char>>,
    pub actions_needed: Seq<Seq<char>>,
}

impl View for StatusAliasState {
    type V = StatusAliasStateView;

    open spec fn view(&self) -> StatusAliasStateView {
        StatusAliasStateView {
            frozen_heads: self.frozen_heads.deep_view(),
            immutable_heads: self.immutable_heads.deep_view(),
            base_immutable_heads: self.base_immutable_heads.deep_view(),
            actions_needed: self.actions_needed.deep_view(),
        }
    }
}

impl DeepView for StatusAliasState {
    type V = StatusAliasStateView;

    open spec fn deep_view(&self) -> StatusAliasStateView {
        self@
    }
}

impl Duplicate for StatusAliasState {
    fn copy(&self) -> (r: Self) {
        StatusAliasState {
            frozen_heads: copy_option(&self.frozen_heads),
            immutable_heads: copy_option(&self.immutable_heads),
            base_immutable_heads: copy_option(&self.base_immutable_heads),
            actions_needed: copy_list(&self.actions_needed),
        }
    }
}

/// What submit would do for one owned change.
pub struct StatusOwnedPr {
    pub change_id: String,
    pub commit_id: String,
    pub title: String,
    pub head_branch: String,
    pub base_branch: String,
    pub pr_number: Option<u64>,
    pub action: String,
    pub bookmark_problem: Option<String>,
}

#[verifier::ext_equal]
pub struct StatusOwnedPrView {
    pub change_id: Seq<char>,
    pub commit_id: Seq<char>,
    pub title: Seq<char>,
    pub head_branch: Seq<char>,
    pub base_branch: Seq<char>,
    pub pr_number: Option<u64>,
    pub action: Seq<char>,
    pub bookmark_problem: Option<Seq<char>>,
}

impl View for StatusOwnedPr {
    type V = StatusOwnedPrView;

    open spec fn view(&self) -> StatusOwnedPrView {
        StatusOwnedPrView {
            change_id: self.change_id@,
            commit_id: self.commit_id@,
            title: self.title@,
            head_branch: self.head_branch@,
            base_branch: self.base_branch@,
            pr_number: self.pr_number,
            action: self.action@,
            bookmark_problem: self.bookmark_problem.deep_view(),
        }
    }
}

impl DeepView for StatusOwnedPr {
    type V = StatusOwnedPrView;

    open spec fn deep_view(&self) -> StatusOwnedPrView {
        self@
    }
}

impl Duplicate for StatusOwnedPr {
    fn copy(&self) -> (r: Self) {
        StatusOwnedPr {
            change_id: self.change_id.clone(),
            commit_id: self.commit_id.clone(),
            title: self.title.clone(),
            head_branch: self.head_branch.clone(),
            base_branch: self.base_branch.clone(),
            pr_number: self.pr_number,
            action: self.action.clone(),
            bookmark_problem: copy_option(&self.bookmark_problem),
        }
    }
}

/// The state of one frozen dependency.
pub struct StatusFrozenDependency {
    pub bookmark: String,
    pub pr_number: u64,
    pub change_id: String,
    pub commit_id: String,
    pub title: String,
    pub head_branch: Option<String>,
    pub state: String,
    pub problem: Option<String>,
}

#[verifier::ext_equal]
pub struct StatusFrozenDependencyView {
    pub bookmark: Seq<char>,
    pub pr_number: u64,
    pub change_id: Seq<char>,
    pub commit_id: Seq<char>,
    pub title: Seq<char>,
    pub head_branch: Option<Seq<char>>,
    pub state: Seq<char>,
    pub problem: Option<Seq<char>>,
}

impl View for StatusFrozenDependency {
    type V = StatusFrozenDependencyView;

    open spec fn view(&self) -> StatusFrozenDependencyView {
        StatusFrozenDependencyView {
            bookmark: self.bookmark@,
            pr_number: self.pr_number,
            change_id: self.change_id@,
            commit_id: self.commit_id@,
            title: self.title@,
            head_branch: self.head_branch.deep_view(),
            state: self.state@,
            problem: self.problem.deep_view(),
        }
    }
}

impl DeepView for StatusFrozenDependency {
    type V = StatusFrozenDependencyView;

    open spec fn deep_view(&self) -> StatusFrozenDependencyView {
        self@
    }
}

impl Duplicate for StatusFrozenDependency {
    fn copy(&self) -> (r: Self) {
        StatusFrozenDependency {
            bookmark: self.bookmark.clone(),
            pr_number: self.pr_number,
            change_id: self.change_id.clone(),
            commit_id: self.commit_id.clone(),
            title: self.title.clone(),
            head_branch: copy_option(&self.head_branch),
            state: self.state.clone(),
            problem: copy_option(&self.problem),
        }
    }
}

/// Everything that the status command reports.
pub struct StatusReport {
    pub repo: String,
    pub username: String,
    pub remote: String,
    pub trunk: String,
    pub branch_prefix: String,
    pub require_approval: bool,
    pub startup_aliases: StatusAliasState,
    pub owned_prs: Vec<StatusOwnedPr>,
    pub frozen_dependencies: Vec<StatusFrozenDependency>,
    pub first_owned_base_branch: Option<String>,
    pub merge_blockers: Vec<String>,
    pub bookmark_problems: Vec<String>,
    pub problems: Vec<String>,
    pub suggested_next_command: String,
}

#[verifier::ext_equal]
pub struct StatusReportView {
    pub repo: Seq<char>,
    pub username: Seq<char>,
    pub remote: Seq<char>,
    pub trunk: Seq<char>,
    pub branch_prefix: Seq<char>,
    pub require_approval: bool,
    pub startup_aliases: StatusAliasStateView,
    pub owned_prs: Seq<StatusOwnedPrView>,
    pub frozen_dependencies: Seq<StatusFrozenDependencyView>,
    pub first_owned_base_branch: Option<Seq<char>>,
    pub merge_blockers: Seq<Seq<char>>,
    pub bookmark_problems: Seq<Seq<char>>,
    pub problems: Seq<Seq<char>>,
    pub suggested_next_command: Seq<char>,
}

impl View for StatusReport {
    type V = StatusReportView;

    open spec fn view(&self) -> StatusReportView {
        StatusReportView {
            repo: self.repo@,
            username: self.username@,
            remote: self.remote@,
            trunk: self.trunk@,
            branch_prefix: self.branch_prefix@,
            require_approval: self.require_approval,
            startup_aliases: self.startup_aliases@,
            owned_prs: self.owned_prs.deep_view(),
            frozen_dependencies: self.frozen_dependencies.deep_view(),
            first_owned_base_branch: self.first_owned_base_branch.deep_view(),
            merge_blockers: self.merge_blockers.deep_view(),
            bookmark_problems: self.bookmark_problems.deep_view(),
            problems: self.problems.deep_view(),
            suggested_next_command: self.suggested_next_command@,
        }
    }
}

impl DeepView for StatusReport {
    type V = StatusReportView;

    open spec fn deep_view(&self) -> StatusReportView {
        self@
    }
}

impl Duplicate for StatusReport {
    fn copy(&self) -> (r: Self) {
        StatusReport {
            repo: self.repo.clone(),
            username: self.username.clone(),
            remote: self.remote.clone(),
            trunk: self.trunk.clone(),
            branch_prefix: self.branch_prefix.clone(),
            require_approval: self.require_approval,
            startup_aliases: self.startup_aliases.copy(),
            owned_prs: copy_all(&self.owned_prs),
            frozen_dependencies: copy_all(&self.frozen_dependencies),
            first_owned_base_branch: copy_option(&self.first_owned_base_branch),
            merge_blockers: copy_list(&self.merge_blockers),
            bookmark_problems: copy_list(&self.bookmark_problems),
            problems: copy_list(&self.problems),
            suggested_next_command: self.suggested_next_command.clone(),
        }
    }
}

/// A change being prepared for merge; `needs_settle` says that GitHub must be asked again.
pub struct MergeCandidate {
    pub change: ResolvedChange,
    pub entry: PrCacheEntry,
    pub pr: GhMergePr,
    pub needs_settle: bool,
}

#[verifier::ext_equal]
pub struct MergeCandidateView {
    pub change: ResolvedChangeView,
    pub entry: PrCacheEntryView,
    pub pr: GhMergePrView,
    pub needs_settle: bool,
}

impl View for MergeCandidate {
    type V = MergeCandidateView;

    open spec fn view(&self) -> MergeCandidateView {
        MergeCandidateView {
            change: self.change@,
            entry: self.entry@,
            pr: self.pr@,
            needs_settle: self.needs_settle,
        }
    }
}

impl DeepView for MergeCandidate {
    type V = MergeCandidateView;

    open spec fn deep_view(&self) -> MergeCandidateView {
        self@
    }
}

impl Duplicate for MergeCandidate {
    fn copy(&self) -> (r: Self) {
        MergeCandidate {
            change: self.change.copy(),
            entry: self.entry.copy(),
            pr: self.pr.copy(),
            needs_settle: self.needs_settle,
        }
    }
}

} // verus!
