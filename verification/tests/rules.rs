use forklift::bodies::{
    created_date_fragment, markdown_link_label, push_stack_comment_line,
    repaired_stack_comment_body, stack_comment_body_with_frozen, stack_comment_change_hint,
    CommentRow,
};
use forklift::bookmarks::{frozen_bookmark_name, is_resolvable_bookmark_target};
use forklift::branches::{
    change_id_branch_prefix, deterministic_head_branch, find_unused_head_branch,
    head_branch_matches_change_prefix, slugify_title,
};
use forklift::cache::CacheStore;
use forklift::comments::parse_stack_pr_numbers;
use forklift::config::{parse_bool_config, plan_startup_config, validate_ref_component};
use forklift::error::{
    backtick_value, diagnostic_from_error, diagnostic_from_message, fail,
    find_merge_sync_required, humanize_error, phase_error, render_cli_error, report,
    structured_value, CliError, Error,
};
use forklift::heads::SubmitHead;
use forklift::logging::{
    debug_log_dir, debug_log_filename, file_logging_enabled, is_false_env_value,
    is_true_env_value, stderr_filter, StderrTrace,
};
use forklift::model::{
    AppConfig, AppContext, CacheRow, FrozenBookmark, FrozenDependency, GhAuthor, GhMergePr, GhPr,
    GhRepository, GitHubContext, JsonField, PrCacheEntry, RepairAction, RepairPlan, ResolvedChange,
    StackResolution, StatusCheck, StatusOwnedPr, SubmitPlan,
};
use forklift::paths::PathStyle;
use forklift::planning::{plan_change, pr_metadata_changed, validate_submit_descriptions};
use forklift::plans::{
    print_repair_plan_line, print_submit_plan_line, render_repair_action_plan,
    render_submit_action_plan, repair_pr_list,
};
use forklift::pr::{
    change_prefix_get_target, github_pr_url, normalize_get_branch_target, parse_get_target,
    validate_cached_pr_metadata, validate_get_pr_stack, GetTarget,
};
use forklift::ready::{
    check_name, mergeability_unknown, validate_pr_ready_for_merge, validate_status_checks,
};
use forklift::rebase::sync_rebase_destination;
use forklift::repair::{compare_repair, finish_repair_plan, judge_listed_pr, repair_actions};
use forklift::revsets::merge_revset_for_target;
use forklift::output::display_command;
use forklift::stack::{
    description_body, read_stack_record, short_commit_id, stack_root, validate_stack_shape,
};
use forklift::status::suggested_status_next_command;
use forklift::sync::validate_sync_frozen_pr_stack;
use forklift::text::{number_text, parse_text_number, sorted_set, text_lines};
use forklift::ui::{
    phase_label, ui_detail_line, ui_error, ui_hint, ui_hyperlink, ui_info_line, ui_plan_line,
    ui_progress, ui_warn_line, PlanLineStyle,
};
use forklift::unfreeze::validate_unfreeze_pr;

fn owned(parts: &[&str]) -> Vec<String> {
    parts.iter().map(|part| part.to_string()).collect()
}

fn config() -> AppConfig {
    AppConfig {
        remote: "origin".to_string(),
        trunk: "main".to_string(),
        require_approval: true,
        branch_prefix: "stack".to_string(),
    }
}

fn github() -> GitHubContext {
    GitHubContext { repo: "octo/repo".to_string(), username: "mona".to_string() }
}

fn change(id: &str, commit: &str, parents: &[&str], title: &str) -> ResolvedChange {
    ResolvedChange {
        change_id: id.to_string(),
        commit_id: commit.to_string(),
        parent_ids: owned(parents),
        title: title.to_string(),
        body: String::new(),
        tree_id: format!("tree-{commit}"),
        empty: false,
        conflict: false,
        divergent: false,
    }
}

fn entry(number: u64, head: &str, base: &str, sha: &str) -> PrCacheEntry {
    PrCacheEntry {
        pr_number: number,
        pr_node_id: format!("node-{number}"),
        head_branch: head.to_string(),
        base_branch: base.to_string(),
        base_ref: base.to_string(),
        head_repo_id: "1".to_string(),
        head_repo_node_id: "R1".to_string(),
        head_repo_name: "octo/repo".to_string(),
        base_repo_id: "1".to_string(),
        base_repo_node_id: "R1".to_string(),
        base_repo_name: "octo/repo".to_string(),
        head_sha: sha.to_string(),
        base_sha: "base".to_string(),
        author_login: "mona".to_string(),
        title: "A".to_string(),
        body: String::new(),
        created_at: "2024-01-02T03:04:05Z".to_string(),
        stack_comment_id: None,
    }
}

fn repository() -> GhRepository {
    GhRepository {
        id: "1".to_string(),
        node_id: "R1".to_string(),
        name_with_owner: "octo/repo".to_string(),
    }
}

fn pr(number: u64, head: &str, base: &str, sha: &str) -> GhPr {
    GhPr {
        number,
        state: "OPEN".to_string(),
        merged: false,
        id: format!("node-{number}"),
        head_ref_name: head.to_string(),
        base_ref_name: base.to_string(),
        head_ref_oid: sha.to_string(),
        base_ref_oid: "base".to_string(),
        title: "A".to_string(),
        body: String::new(),
        created_at: "2024-01-02T03:04:05Z".to_string(),
        head_repository: Some(repository()),
        base_repository: Some(repository()),
        author: Some(GhAuthor { login: "mona".to_string() }),
    }
}

fn merge_pr(number: u64, sha: &str) -> GhMergePr {
    GhMergePr {
        number,
        state: "OPEN".to_string(),
        head_ref_name: "stack/a-aaaaaaaa".to_string(),
        base_ref_name: "main".to_string(),
        head_ref_oid: sha.to_string(),
        base_ref_oid: "base".to_string(),
        title: "A".to_string(),
        body: String::new(),
        created_at: String::new(),
        is_draft: false,
        review_decision: Some("APPROVED".to_string()),
        mergeable: Some("MERGEABLE".to_string()),
        merge_state_status: Some("CLEAN".to_string()),
        status_check_rollup: Vec::new(),
        auto_merge: false,
    }
}

fn check(state: JsonField, status: JsonField, conclusion: JsonField) -> StatusCheck {
    StatusCheck {
        name: JsonField::Text("build".to_string()),
        context: JsonField::Absent,
        state,
        status,
        conclusion,
    }
}

fn field(value: &str) -> JsonField {
    JsonField::Text(value.to_string())
}

fn headline<T>(r: Result<T, Error>) -> String {
    match r {
        Ok(_) => panic!("expected a failure"),
        Err(error) => error.top(),
    }
}

// Text

#[test]
fn decimal_numbers_read_back() {
    for n in [0u64, 7, 10, 4096, u64::MAX] {
        assert_eq!(number_text(n), n.to_string());
        assert_eq!(parse_text_number(&number_text(n)), Some(n));
    }
    assert_eq!(parse_text_number("+12"), Some(12));
    assert_eq!(parse_text_number(""), None);
    assert_eq!(parse_text_number("18446744073709551616"), None);
    assert_eq!(parse_text_number("12x"), None);
}

#[test]
fn lines_end_at_line_feeds() {
    assert_eq!(text_lines("a\r\nb\n\nc"), owned(&["a", "b", "", "c"]));
    assert_eq!(text_lines("a\n"), owned(&["a"]));
    assert!(text_lines("").is_empty());
}

#[test]
fn sorted_set_orders_and_drops_repeats() {
    assert_eq!(sorted_set(&owned(&["b", "a", "b", "B"])), owned(&["B", "a", "b"]));
}

#[test]
fn commands_are_shown_with_their_arguments() {
    assert_eq!(display_command("jj", &owned(&["git", "push"])), "jj git push");
}

// Branch names

#[test]
fn slug_decomposes_and_joins() {
    assert_eq!(slugify_title("  Ünïcode: fix_it -- now!  "), "u-ni-code-fix_it-now");
    assert_eq!(slugify_title("Add API v2"), "add-api-v2");
    assert_eq!(slugify_title("???"), "");
}

#[test]
fn head_branch_names_its_change() {
    let named = change("abcdefghijkl", "c1", &["t"], "Add API");
    let branch = deterministic_head_branch(&config(), &named, &Vec::new());
    assert_eq!(branch, "stack/add-api-abcdefgh");
    assert!(head_branch_matches_change_prefix(&branch, "abcdefgh"));
    let second = deterministic_head_branch(&config(), &named, &owned(&["stack/add-api-abcdefgh"]));
    assert_eq!(second, "stack/add-api-abcdefgh-1");
    assert!(head_branch_matches_change_prefix(&second, "abcdefgh"));
    let bare = change("abcdefghijkl", "c1", &["t"], "???");
    assert_eq!(
        deterministic_head_branch(&config(), &bare, &Vec::new()),
        "stack/change-abcdefgh"
    );
    assert!(!head_branch_matches_change_prefix("stack/add-api-abcdefgh-x", "abcdefgh"));
    assert!(!head_branch_matches_change_prefix("stack/add-api-abcdefgh-", "abcdefgh"));
    assert_eq!(change_id_branch_prefix("abc"), "abc");
}

#[test]
fn unused_branch_takes_the_first_free_number() {
    assert_eq!(find_unused_head_branch("b", &owned(&["b", "b-1", "b-3"])), "b-2");
    assert_eq!(find_unused_head_branch("b", &Vec::new()), "b");
}

// Stack records and shapes

#[test]
fn stack_record_is_read() {
    let record = "\"kx\"\x1f\"c1\"\x1f[\"p1\",\"p2\"]\x1f\"Tïtle\"\x1f\"Tïtle\\n\\nbody\\n\"\x1ffalse\x1ftrue\x1ffalse";
    let read = match read_stack_record(record) {
        Ok(read) => read,
        Err(error) => panic!("{}", error.chain_line()),
    };
    assert_eq!(read.change_id, "kx");
    assert_eq!(read.commit_id, "c1");
    assert_eq!(read.parent_ids, owned(&["p1", "p2"]));
    assert_eq!(read.title, "Tïtle");
    assert_eq!(read.body, "body");
    assert!(!read.empty);
    assert!(read.conflict);
    assert!(!read.divergent);
}

#[test]
fn stack_record_with_missing_fields_is_refused() {
    assert!(read_stack_record("\"kx\"\x1f\"c1\"").is_err());
    assert!(read_stack_record(
        "kx\x1f\"c1\"\x1f[]\x1f\"t\"\x1f\"t\"\x1ffalse\x1ffalse\x1ffalse"
    )
    .is_err());
    assert!(read_stack_record(
        "\"kx\"\x1f\"c1\"\x1f{}\x1f\"t\"\x1f\"t\"\x1ffalse\x1ffalse\x1ffalse"
    )
    .is_err());
    assert!(read_stack_record(
        "\"kx\"\x1f\"c1\"\x1f[]\x1f\"t\"\x1f\"t\"\x1f1\x1ffalse\x1ffalse"
    )
    .is_err());
}

#[test]
fn description_body_drops_the_title() {
    assert_eq!(description_body("T\n\nbody\n\n", "T"), "body");
    assert_eq!(description_body("T\nbody", "T"), "body");
    assert_eq!(description_body("other", "T"), "other");
    assert_eq!(description_body("T\n\n\nx", "T"), "\nx");
}

#[test]
fn row_of_changes_is_accepted() {
    let stack = vec![change("a", "c1", &["t"], "A"), change("b", "c2", &["c1"], "B")];
    assert!(validate_stack_shape(&stack, "r").is_ok());
    match stack_root(&stack) {
        Ok(root) => assert_eq!(root.change_id, "a"),
        Err(error) => panic!("{}", error.top()),
    }
}

#[test]
fn misshapen_stacks_are_refused() {
    assert_eq!(
        headline(validate_stack_shape(&Vec::new(), "r")),
        "empty stack selected by `r`"
    );
    let mut empty = change("a", "c1", &["t"], "A");
    empty.empty = true;
    assert_eq!(
        headline(validate_stack_shape(&vec![empty], "r")),
        "empty change a (c1) selected"
    );
    let mut conflicted = change("a", "c1", &["t"], "A");
    conflicted.conflict = true;
    assert_eq!(
        headline(validate_stack_shape(&vec![conflicted], "r")),
        "conflicted change a (c1) selected"
    );
    assert_eq!(
        headline(validate_stack_shape(&vec![change("a", "c1", &["t", "u"], "A")], "r")),
        "merge commit a (c1) has 2 parents"
    );
    assert_eq!(
        headline(validate_stack_shape(
            &vec![change("a", "c1", &["t"], "A"), change("b", "c2", &["u"], "B")],
            "r"
        )),
        "stack has multiple roots (2)"
    );
    assert_eq!(
        headline(validate_stack_shape(
            &vec![
                change("a", "c1", &["t"], "A"),
                change("b", "c2", &["c1"], "B"),
                change("c", "c3", &["c1"], "C")
            ],
            "r"
        )),
        "siblings selected under parent c1 (2 children)"
    );
}

#[test]
fn short_ids_are_eight_bytes() {
    assert_eq!(short_commit_id("0123456789"), "01234567");
    assert_eq!(short_commit_id("0123"), "0123");
    assert_eq!(short_commit_id("0123456é9"), "0123456é9");
}

// Configuration

#[test]
fn ref_components_are_plain_names() {
    assert_eq!(
        validate_ref_component("trunk", "release/1.2_x-y".to_string()).ok(),
        Some("release/1.2_x-y".to_string())
    );
    for bad in ["", "-x", "a..b", "a b", "a:b", "a*"] {
        assert_eq!(
            headline(validate_ref_component("trunk", bad.to_string())),
            format!("invalid stack.trunk value `{bad}`")
        );
    }
}

#[test]
fn boolean_settings_are_read() {
    for yes in ["true", " YES ", "on", "1"] {
        assert_eq!(parse_bool_config("require-approval", yes).ok(), Some(true));
    }
    for no in ["false", "No", "OFF", "0"] {
        assert_eq!(parse_bool_config("require-approval", no).ok(), Some(false));
    }
    assert_eq!(
        headline(parse_bool_config("require-approval", "maybe")),
        "invalid boolean value for stack.require-approval: maybe"
    );
}

#[test]
fn startup_plan_settles_after_one_round() {
    let first = match plan_startup_config(&None, "builtin_immutable_heads()", &None) {
        Ok(actions) => actions,
        Err(error) => panic!("{}", error.top()),
    };
    let settings: Vec<(String, String)> =
        first.iter().map(|action| (action.key.clone(), action.value.clone())).collect();
    assert_eq!(
        settings,
        vec![
            (
                "revset-aliases.\"forklift_frozen_heads()\"".to_string(),
                "bookmarks(glob:'forklift/frozen/*')".to_string()
            ),
            (
                "revset-aliases.\"immutable_heads()\"".to_string(),
                "builtin_immutable_heads() | forklift_frozen_heads()".to_string()
            ),
        ]
    );
    let again = plan_startup_config(
        &Some("bookmarks(glob:'forklift/frozen/*')".to_string()),
        "builtin_immutable_heads() | forklift_frozen_heads()",
        &None,
    );
    match again {
        Ok(actions) => assert!(actions.is_empty()),
        Err(error) => panic!("{}", error.top()),
    }
}

#[test]
fn foreign_frozen_alias_is_refused() {
    assert!(plan_startup_config(&Some("none()".to_string()), "builtin_immutable_heads()", &None)
        .is_err());
}

#[test]
fn log_switches_are_read() {
    for off in ["off", "FALSE", " 0 "] {
        assert!(is_false_env_value(off));
        assert!(!file_logging_enabled(Some(off)));
        assert!(!is_true_env_value(off));
    }
    for on in ["1", "true", "On"] {
        assert!(is_true_env_value(on));
        assert!(!is_false_env_value(on));
        assert!(file_logging_enabled(Some(on)));
    }
    assert!(file_logging_enabled(None));
    assert!(matches!(stderr_filter(None), StderrTrace::Off));
    assert!(matches!(stderr_filter(Some("off")), StderrTrace::Off));
    assert!(matches!(stderr_filter(Some("true")), StderrTrace::Usual));
    assert!(matches!(stderr_filter(Some("forklift=trace")), StderrTrace::Selected));
}

#[test]
fn debug_log_has_a_place() {
    assert_eq!(debug_log_filename(12, 34, "submit"), "12-34-submit.log");
    assert_eq!(
        debug_log_dir(PathStyle::Unix, Some("/r/.jj/repo"), "/home/m/.local/state"),
        "/r/.jj/repo/stack/logs"
    );
    assert_eq!(
        debug_log_dir(PathStyle::Unix, None, "/home/m/.local/state"),
        "/home/m/.local/state/forklift/logs"
    );
    assert_eq!(
        debug_log_dir(PathStyle::Windows, Some("\\\\?\\C:\\r\\.jj\\repo"), "C:\\state"),
        "\\\\?\\C:\\r\\.jj\\repo\\stack\\logs"
    );
    assert_eq!(
        debug_log_dir(PathStyle::Windows, None, "C:\\state"),
        "C:\\state\\forklift\\logs"
    );
}

// Bookmarks

#[test]
fn frozen_bookmarks_carry_their_number() {
    assert_eq!(frozen_bookmark_name(42), "forklift/frozen/pr-42");
    assert!(is_resolvable_bookmark_target("abc"));
    assert!(!is_resolvable_bookmark_target(""));
}

// Targets and requests

#[test]
fn targets_are_read() {
    match parse_get_target(" 42 ", "octo/repo") {
        Ok(GetTarget::PullRequest { repo, number }) => {
            assert_eq!((repo.as_str(), number), ("octo/repo", 42));
        }
        _ => panic!("a number is a pull request"),
    }
    match parse_get_target("https://github.com/a/b/pull/7#issue", "octo/repo") {
        Ok(GetTarget::PullRequest { repo, number }) => {
            assert_eq!((repo.as_str(), number), ("a/b", 7));
        }
        _ => panic!("a link is a pull request"),
    }
    match parse_get_target("refs/heads/stack/x", "octo/repo") {
        Ok(GetTarget::BranchOrChange { repo, value }) => {
            assert_eq!((repo.as_str(), value.as_str()), ("octo/repo", "stack/x"));
        }
        _ => panic!("anything else is a branch or a change"),
    }
    assert_eq!(headline(parse_get_target("  ", "octo/repo")), "missing get target");
    assert_eq!(
        headline(parse_get_target("https://github.com/a/b/issues/7", "octo/repo")),
        "invalid get target `https://github.com/a/b/issues/7`"
    );
    assert_eq!(
        headline(parse_get_target("https://github.com/a/b/pull/x", "octo/repo")),
        "parse PR number from `https://github.com/a/b/pull/x`"
    );
    assert_eq!(normalize_get_branch_target("refs/heads/a"), "a");
    assert_eq!(change_prefix_get_target("abcdefghij"), Some("abcdefgh".to_string()));
    assert_eq!(change_prefix_get_target("abc"), None);
    assert_eq!(change_prefix_get_target("abcdefgh-"), None);
    assert_eq!(github_pr_url("a/b", 7), "https://github.com/a/b/pull/7");
    for tail in ["", "/files", "/files#diff-1", "#issue-2", "?w=1", "/x/github.com/"] {
        match parse_get_target(&format!("{}{tail}", github_pr_url("a/b", 7)), "octo/repo") {
            Ok(GetTarget::PullRequest { repo, number }) => {
                assert_eq!((repo.as_str(), number), ("a/b", 7));
            }
            _ => panic!("an address is a pull request"),
        }
    }
}

#[test]
fn row_of_requests_is_accepted() {
    let mut upper = pr(2, "stack/b", "stack/a", "c2");
    upper.base_ref_oid = "c1".to_string();
    let prs = vec![pr(1, "stack/a", "main", "c1"), upper];
    assert!(validate_get_pr_stack(&config(), &github(), 2, &prs).is_ok());
    let broken = vec![pr(1, "stack/a", "main", "c1"), pr(2, "stack/b", "main", "c2")];
    assert!(validate_get_pr_stack(&config(), &github(), 2, &broken).is_err());
    assert!(validate_get_pr_stack(&config(), &github(), 3, &prs).is_err());
    let mut closed = pr(1, "stack/a", "main", "c1");
    closed.state = "CLOSED".to_string();
    assert!(validate_get_pr_stack(&config(), &github(), 1, &vec![closed]).is_err());
    let mut forked = pr(1, "stack/a", "main", "c1");
    forked.head_repository = None;
    assert!(validate_get_pr_stack(&config(), &github(), 1, &vec![forked]).is_err());
}

#[test]
fn cached_request_must_match() {
    let kept = entry(1, "stack/a", "main", "c1");
    assert!(validate_cached_pr_metadata(&github(), "a", &kept, &pr(1, "stack/a", "main", "c1"))
        .is_ok());
    assert_eq!(
        headline(validate_cached_pr_metadata(
            &github(),
            "a",
            &kept,
            &pr(1, "stack/a", "main", "c9")
        )),
        "GitHub PR metadata mismatch for octo/repo/a PR #1 field `head_sha`: cache has `c1`, GitHub has `c9`"
    );
    let mut nameless = entry(1, "stack/a", "main", "c1");
    nameless.author_login = " ".to_string();
    assert_eq!(
        headline(validate_cached_pr_metadata(
            &github(),
            "a",
            &nameless,
            &pr(1, "stack/a", "main", "c1")
        )),
        "PR for octo/repo/a is missing required metadata field `author_login`"
    );
}

#[test]
fn foreign_request_is_not_unfrozen() {
    assert!(validate_unfreeze_pr(&config(), &github(), &pr(1, "stack/a", "main", "c1")).is_ok());
    assert!(validate_unfreeze_pr(&config(), &github(), &pr(1, "-x", "main", "c1")).is_err());
    let mut closed = pr(1, "stack/a", "main", "c1");
    closed.state = "CLOSED".to_string();
    assert!(validate_unfreeze_pr(&config(), &github(), &closed).is_err());
}

// Comments

#[test]
fn labels_are_escaped() {
    assert_eq!(markdown_link_label("a&b <c> [d]\\\n\u{7}e"), "a&amp;b &lt;c&gt; \\[d\\]\\\\ e");
}

#[test]
fn dates_are_shortened() {
    assert_eq!(created_date_fragment("2024-01-02T03:04:05Z"), " · 2024-01-02 03:04:05");
    assert_eq!(created_date_fragment("2024"), " · 2024");
    assert_eq!(created_date_fragment(""), "");
}

#[test]
fn branch_hints_at_its_change() {
    assert_eq!(stack_comment_change_hint("stack/add-api-abcdefgh"), "abcdefgh");
    assert_eq!(stack_comment_change_hint("stack/add-api-abcdefgh-1"), "abcdefgh");
    assert_eq!(stack_comment_change_hint("12"), "12");
}

#[test]
fn comment_row_links_to_its_request() {
    let mut body = String::from("x\n");
    push_stack_comment_line(
        &mut body,
        "octo/repo",
        &CommentRow {
            title: "A".to_string(),
            number: 7,
            hint: "abcdefgh".to_string(),
            created_at: "2024-01-02T03:04:05Z".to_string(),
            is_current: true,
        },
    );
    assert_eq!(
        body,
        "x\n- **[A #7](https://github.com/octo/repo/pull/7)** _abcdefgh_ · 2024-01-02 03:04:05 👈\n"
    );
}

#[test]
fn stack_comment_lists_its_rows() {
    let context = AppContext {
        github: github(),
        stack: vec![
            change("aaaaaaaaaa", "c1", &["t"], "A"),
            change("bbbbbbbbbb", "c2", &["c1"], "B"),
        ],
        frozen_dependencies: vec![FrozenDependency {
            bookmark: FrozenBookmark {
                name: "forklift/frozen/pr-5".to_string(),
                pr_number: 5,
                commit_id: "c0".to_string(),
            },
            change: change("dddddddddd", "c0", &["t0"], "D"),
        }],
    };
    let entries = vec![
        ("aaaaaaaaaa".to_string(), entry(1, "stack/a", "main", "c1")),
        ("bbbbbbbbbb".to_string(), entry(2, "stack/b", "stack/a", "c2")),
    ];
    let frozen = vec![("dddddddddd".to_string(), entry(5, "stack/d", "main", "c0"))];
    let body = stack_comment_body_with_frozen(&context, &frozen, &entries, "bbbbbbbbbb", "main");
    assert_eq!(
        body,
        "<!-- stack:v1 -->\nStack for octo/repo\n\nCurrent stack:\n\
- **[B #2](https://github.com/octo/repo/pull/2)** _bbbbbbbb_ · 2024-01-02 03:04:05 👈\n\
- [A #1](https://github.com/octo/repo/pull/1) _aaaaaaaa_ · 2024-01-02 03:04:05\n\
\nDependencies:\n\
- [D #5](https://github.com/octo/repo/pull/5) _dddddddd_ · 2024-01-02 03:04:05\n\
- main\n\n\
Check out this stack: `forklift get 2`\n\
Pull/update this stack: `forklift sync`\n\
Publish local edits: `forklift submit`\n\
Merge when ready: `forklift merge`\n"
    );
    assert_eq!(parse_stack_pr_numbers(&body), vec![2, 1, 5]);
}

#[test]
fn repaired_comment_reads_back() {
    let prs = vec![
        pr(1, "stack/a-aaaaaaaa", "main", "c1"),
        pr(2, "stack/b-bbbbbbbb", "stack/a-aaaaaaaa", "c2"),
    ];
    let body = repaired_stack_comment_body(&github(), &prs, 1, "main");
    assert_eq!(parse_stack_pr_numbers(&body), vec![2, 1]);
    assert!(body.contains("Check out this stack: `forklift get 1`\n"));
}

#[test]
fn listed_numbers_are_distinct() {
    assert_eq!(
        parse_stack_pr_numbers("x/pull/3 y\nnothing\n/pull/3)\n/pull/x\n/pull/12)/pull/4\n"),
        vec![3, 12]
    );
}

// Plans

#[test]
fn unknown_work_is_not_overwritten() {
    let named = change("a", "c1", &["t"], "A");
    let head = SubmitHead {
        head_branch: "stack/a".to_string(),
        existing_pr: Some(entry(1, "stack/a", "main", "c0")),
        expected_remote_head: Some("other".to_string()),
    };
    assert!(headline(plan_change(&named, "main".to_string(), head)).contains("out-of-band"));
    let head = SubmitHead {
        head_branch: "stack/a".to_string(),
        existing_pr: Some(entry(1, "stack/a", "main", "c0")),
        expected_remote_head: Some("c0".to_string()),
    };
    match plan_change(&named, "main".to_string(), head) {
        Ok(plan) => assert!(plan.push_needed && plan.pr_update_needed),
        Err(error) => panic!("{}", error.top()),
    }
    let head = SubmitHead {
        head_branch: "stack/a".to_string(),
        existing_pr: Some(entry(1, "stack/a", "main", "c1")),
        expected_remote_head: Some("c1".to_string()),
    };
    match plan_change(&named, "main".to_string(), head) {
        Ok(plan) => assert!(!plan.push_needed && !plan.pr_update_needed),
        Err(error) => panic!("{}", error.top()),
    }
}

#[test]
fn metadata_changes_are_seen() {
    let named = change("a", "c1", &["t"], "A");
    assert!(!pr_metadata_changed(&entry(1, "stack/a", "main", "c1"), "main", &named));
    assert!(pr_metadata_changed(&entry(1, "stack/a", "main", "c1"), "stack/x", &named));
    let renamed = change("a", "c1", &["t"], "B");
    assert!(pr_metadata_changed(&entry(1, "stack/a", "main", "c1"), "main", &renamed));
}

#[test]
fn undescribed_changes_are_refused() {
    assert!(validate_submit_descriptions(&vec![change("a", "c1", &["t"], "A")]).is_ok());
    let message =
        headline(validate_submit_descriptions(&vec![change("a", "c1", &["t"], " ")]));
    assert!(message.starts_with("cannot submit: 1 change(s) have no description"));
}

fn plan(existing: bool, update: bool, push: bool) -> SubmitPlan {
    SubmitPlan {
        change: change("aaaaaaaaaa", "c1", &["t"], "A"),
        head_branch: "stack/a".to_string(),
        base_branch: "main".to_string(),
        existing_pr: if existing { Some(entry(1, "stack/a", "main", "c0")) } else { None },
        expected_remote_head: None,
        push_needed: push,
        pr_update_needed: update,
    }
}

#[test]
fn submit_plan_is_shown() {
    let rows =
        render_submit_action_plan(&config(), &vec![plan(false, false, true), plan(true, true, true)]);
    assert!(rows.iter().any(|row| row.contains("create")));
    assert!(rows.iter().any(|row| row.contains("update")));
    for row in &rows {
        assert_eq!(&print_submit_plan_line(row, false), row);
    }
}

#[test]
fn repair_plan_is_shown() {
    let plan = RepairPlan {
        open_prs: vec![pr(1, "stack/a", "main", "c1")],
        pruned_merged_prs: vec![3, 4],
    };
    let actions = vec![RepairAction {
        pr_number: 1,
        removed_prs: vec![3, 4],
        body: "b".to_string(),
    }];
    let rows = render_repair_action_plan(&plan, &actions);
    assert!(rows.iter().any(|row| row.contains("#3, #4")));
    for row in &rows {
        assert_eq!(&print_repair_plan_line(row, false), row);
    }
    assert_eq!(repair_pr_list(&vec![3, 4]), "#3, #4");
    assert_eq!(repair_pr_list(&Vec::new()), "<none>");
}

#[test]
fn merged_requests_are_dropped_from_a_repair() {
    let open = pr(1, "stack/a", "main", "c1");
    let mut merged = pr(2, "stack/b", "main", "c2");
    merged.state = "closed".to_string();
    merged.merged = true;
    match judge_listed_pr(&github(), 1, &open) {
        Ok(keep) => assert!(keep),
        Err(error) => panic!("{}", error.top()),
    }
    match judge_listed_pr(&github(), 1, &merged) {
        Ok(keep) => assert!(!keep),
        Err(error) => panic!("{}", error.top()),
    }
    let mut closed = pr(3, "stack/c", "main", "c3");
    closed.state = "CLOSED".to_string();
    assert!(judge_listed_pr(&github(), 1, &closed).is_err());
}

#[test]
fn repair_writes_what_it_kept() {
    let plan = match finish_repair_plan(
        &config(),
        &github(),
        1,
        vec![pr(1, "stack/a-aaaaaaaa", "main", "c1")],
        vec![9],
    ) {
        Ok(plan) => plan,
        Err(error) => panic!("{}", error.top()),
    };
    let actions = repair_actions(&github(), &config(), &plan);
    assert_eq!(actions.len(), 1);
    assert_eq!(actions[0].pr_number, 1);
    assert_eq!(actions[0].removed_prs, vec![9]);
    assert_eq!(parse_stack_pr_numbers(&actions[0].body), vec![1]);
    assert!(compare_repair(&plan, &RepairPlan {
        open_prs: vec![pr(1, "stack/a-aaaaaaaa", "main", "c1")],
        pruned_merged_prs: Vec::new(),
    })
    .is_ok());
    assert!(compare_repair(&plan, &RepairPlan {
        open_prs: vec![pr(1, "stack/a-aaaaaaaa", "main", "c1")],
        pruned_merged_prs: vec![9],
    })
    .is_err());
}

// Readiness

fn ready(pr: &GhMergePr, admin: bool) -> Result<(), Error> {
    validate_pr_ready_for_merge(
        &config(),
        &change("a", "c1", &["t"], "A"),
        &entry(1, "stack/a", "main", "c1"),
        pr,
        admin,
    )
}

#[test]
fn ready_request_passes() {
    assert!(ready(&merge_pr(1, "c1"), false).is_ok());
    assert!(!mergeability_unknown(&merge_pr(1, "c1")));
}

#[test]
fn each_gate_is_named() {
    let mut closed = merge_pr(1, "c1");
    closed.state = "CLOSED".to_string();
    assert_eq!(
        headline(ready(&closed, false)),
        "PR #1 for a is `CLOSED`; only open PRs can be merged"
    );
    let mut draft = merge_pr(1, "c1");
    draft.is_draft = true;
    assert_eq!(
        headline(ready(&draft, false)),
        "PR #1 is draft; mark it ready for review before merge"
    );
    assert!(headline(ready(&merge_pr(1, "c9"), false)).contains("moved out-of-band"));
    let mut based = merge_pr(1, "c1");
    based.base_ref_name = "stack/x".to_string();
    assert!(headline(ready(&based, false)).contains("must target trunk `main`"));
    let mut unapproved = merge_pr(1, "c1");
    unapproved.review_decision = None;
    assert_eq!(
        headline(ready(&unapproved, false)),
        "PR #1 requires approval; reviewDecision is `NONE`"
    );
    assert!(ready(&unapproved, true).is_ok());
    let mut automatic = merge_pr(1, "c1");
    automatic.auto_merge = true;
    assert!(headline(ready(&automatic, false)).contains("auto-merge enabled"));
    let mut unknown = merge_pr(1, "c1");
    unknown.mergeable = None;
    assert!(mergeability_unknown(&unknown));
    assert_eq!(
        headline(ready(&unknown, false)),
        "PR #1 is not mergeable; mergeable is `UNKNOWN`"
    );
    for (state, wanted) in [
        ("QUEUED", "merge queue"),
        ("HAS_HOOKS", "pending deployments"),
        ("BLOCKED", "blocked by branch protection"),
        ("DIRTY", "mergeStateStatus is `DIRTY`"),
    ] {
        let mut held = merge_pr(1, "c1");
        held.merge_state_status = Some(state.to_string());
        assert!(headline(ready(&held, false)).contains(wanted));
        assert_eq!(ready(&held, true).is_ok(), state == "BLOCKED");
    }
}

#[test]
fn drifted_heads_are_told_apart() {
    let named = change("a", "c1", &["t"], "A");
    let rewritten = headline(validate_pr_ready_for_merge(
        &config(),
        &named,
        &entry(1, "stack/a", "main", "c0"),
        &merge_pr(1, "c0"),
        false,
    ));
    assert!(rewritten.contains("your stack was rewritten"));
    let drifted = headline(validate_pr_ready_for_merge(
        &config(),
        &named,
        &entry(1, "stack/a", "main", "c0"),
        &merge_pr(1, "c9"),
        false,
    ));
    assert!(drifted.contains("PR #1 is out of sync"));
}

#[test]
fn checks_must_pass() {
    let passing = vec![
        check(field("SUCCESS"), JsonField::Absent, JsonField::Absent),
        check(JsonField::Absent, field("COMPLETED"), field("SKIPPED")),
        check(JsonField::Other, field("COMPLETED"), field("NEUTRAL")),
    ];
    assert!(validate_status_checks(1, &passing).is_ok());
    assert_eq!(
        headline(validate_status_checks(
            1,
            &vec![check(field("FAILURE"), JsonField::Absent, JsonField::Absent)]
        )),
        "PR #1 checks are not passing: `build` is `FAILURE`"
    );
    assert_eq!(
        headline(validate_status_checks(
            1,
            &vec![check(JsonField::Absent, field("QUEUED"), JsonField::Absent)]
        )),
        "PR #1 checks are pending: `build` is `QUEUED`"
    );
    assert_eq!(
        headline(validate_status_checks(
            1,
            &vec![check(JsonField::Absent, field("COMPLETED"), field("FAILURE"))]
        )),
        "PR #1 checks are not passing: `build` concluded `FAILURE`"
    );
    let mut failing = merge_pr(1, "c1");
    failing.status_check_rollup =
        vec![check(field("FAILURE"), JsonField::Absent, JsonField::Absent)];
    assert!(ready(&failing, false).is_err());
    assert!(ready(&failing, true).is_ok());
}

#[test]
fn checks_are_named() {
    let mut named = check(JsonField::Absent, JsonField::Absent, JsonField::Absent);
    assert_eq!(check_name(&named), "build");
    named.name = JsonField::Absent;
    named.context = field("ci/x");
    assert_eq!(check_name(&named), "ci/x");
    named.name = JsonField::Other;
    assert_eq!(check_name(&named), "<unknown>");
}

// Frozen dependencies

fn dependency(number: u64, commit: &str) -> FrozenDependency {
    FrozenDependency {
        bookmark: FrozenBookmark {
            name: frozen_bookmark_name(number),
            pr_number: number,
            commit_id: commit.to_string(),
        },
        change: change("d", commit, &["t"], "D"),
    }
}

#[test]
fn active_frozen_requests_form_a_row() {
    let dependencies = vec![dependency(1, "c1"), dependency(2, "c2")];
    let mut upper = pr(2, "stack/b", "stack/a", "c2");
    upper.base_ref_oid = "c1".to_string();
    let active = vec![pr(1, "stack/a", "main", "c1"), upper];
    match validate_sync_frozen_pr_stack(&config(), &github(), &dependencies, &active) {
        Ok(active) => assert!(active),
        Err(error) => panic!("{}", error.top()),
    }
    let broken = vec![pr(1, "stack/a", "main", "c1"), pr(2, "stack/b", "main", "c2")];
    assert!(validate_sync_frozen_pr_stack(&config(), &github(), &dependencies, &broken).is_err());
}

#[test]
fn stacks_are_rebased_onto_what_they_stand_on() {
    let plain = StackResolution {
        owned: vec![change("a", "c1", &["t"], "A")],
        frozen_dependencies: Vec::new(),
    };
    assert_eq!(sync_rebase_destination(&config(), &plain).rev(), "main");
    let frozen = StackResolution {
        owned: vec![change("a", "c1", &["c0"], "A")],
        frozen_dependencies: vec![dependency(5, "c0")],
    };
    assert_eq!(sync_rebase_destination(&config(), &frozen).rev(), "forklift/frozen/pr-5");
}

#[test]
fn merge_targets_narrow_the_revset() {
    assert_eq!(
        merge_revset_for_target("c1"),
        "trunk()..c1 & ~::(immutable_heads() | root()) & ~empty()"
    );
}

// Status

fn row(action: &str) -> StatusOwnedPr {
    StatusOwnedPr {
        change_id: "a".to_string(),
        commit_id: "c1".to_string(),
        title: "A".to_string(),
        head_branch: "stack/a".to_string(),
        base_branch: "main".to_string(),
        pr_number: None,
        action: action.to_string(),
        bookmark_problem: None,
    }
}

#[test]
fn next_command_is_suggested() {
    let nothing: Vec<String> = Vec::new();
    assert_eq!(
        suggested_status_next_command(
            &vec![row("create")],
            &nothing,
            &owned(&["run `forklift sync`"])
        ),
        "forklift sync"
    );
    assert_eq!(
        suggested_status_next_command(&vec![row("create")], &nothing, &nothing),
        "forklift submit"
    );
    assert_eq!(
        suggested_status_next_command(&vec![row("unchanged")], &owned(&["x"]), &owned(&["x"])),
        "resolve merge blockers"
    );
    assert_eq!(
        suggested_status_next_command(&vec![row("unchanged")], &nothing, &nothing),
        "forklift merge"
    );
}

// Cache

#[test]
fn cache_gives_back_what_was_kept() {
    let mut store = CacheStore::empty("p".to_string());
    store.upsert_pr("octo/repo", "a", entry(1, "stack/a", "main", "c1"));
    store.upsert_pr("octo/repo", "a", entry(2, "stack/a", "main", "c2"));
    store.upsert_pr("octo/repo", "b", entry(3, "stack/b", "main", "c3"));
    assert_eq!(store.get_pr("octo/repo", "a").map(|kept| kept.pr_number), Some(2));
    assert_eq!(store.get_pr("octo/repo", "b").map(|kept| kept.pr_number), Some(3));
    assert!(store.get_pr("octo/other", "a").is_none());
    let loaded = CacheStore::load(
        "p".to_string(),
        vec![CacheRow {
            repo: "octo/repo".to_string(),
            change_id: "a".to_string(),
            entry: entry(9, "stack/a", "main", "c1"),
        }],
    );
    assert_eq!(loaded.get_pr("octo/repo", "a").map(|kept| kept.pr_number), Some(9));
}

// Errors

#[test]
fn errors_are_humanized() {
    assert_eq!(
        humanize_error(
            "phase=push-refs object=x error=failed-command=`jj git push` error=boom safe-next-command=`forklift submit --dry-run`"
        ),
        ("boom".to_string(), Some("forklift submit --dry-run".to_string()))
    );
    assert_eq!(humanize_error(" plain "), ("plain".to_string(), None));
    assert_eq!(structured_value("phase=a object=`b` c", "object="), Some("b".to_string()));
    assert_eq!(structured_value("phase=", "phase="), None);
    assert_eq!(
        backtick_value("failed-command=`jj log` error=x", "failed-command=`"),
        Some("jj log".to_string())
    );
}

#[test]
fn messages_become_diagnostics() {
    let told = diagnostic_from_message(
        "phase=resolve-stack object=@ error=failed-command=`jj log` error=boom safe-next-command=`forklift status`",
    );
    assert_eq!(told.message, "could not resolve stack `@`");
    assert_eq!(told.resolution, Some("run `forklift status`".to_string()));
    assert!(told.reason.is_some());
    assert_eq!(diagnostic_from_message("failed-api=`gh api x` error=y").message, "GitHub API request failed");
    assert_eq!(diagnostic_from_message(" plain ").message, "plain");
}

#[test]
fn phases_keep_the_reason_below() {
    let error = phase_error(
        "resolve-github",
        "github",
        report(CliError::new("no repository").reason("why").resolution("how").detail("k", "v")),
    );
    let told = diagnostic_from_error(&error);
    assert_eq!(told.message, "could not resolve GitHub context for `github`");
    assert_eq!(told.reason, Some("why".to_string()));
    assert_eq!(told.resolution, Some("how".to_string()));
    assert!(find_merge_sync_required(&error).is_none());
    let plain = diagnostic_from_error(&phase_error("resolve-stack", "@", fail("boom")));
    assert_eq!(plain.message, "could not resolve stack `@`");
    assert_eq!(plain.reason, Some("boom".to_string()));
    assert_eq!(
        plain.resolution,
        Some("run `forklift submit --dry-run` to preview the stack state".to_string())
    );
    let absent = phase_error("resolve-pr", "@", report(CliError::new("no current PR")));
    assert_eq!(diagnostic_from_error(&absent).message, "no current PR");
}

#[test]
fn failures_are_rendered_in_sections() {
    let error = report(CliError::new("m").reason("a\nb").resolution("c").detail("k", "v"));
    let rows = render_cli_error(&error, Some("/log"), false);
    assert_eq!(rows[0], "error: m");
    assert!(rows.contains(&"reason:".to_string()));
    assert!(rows.contains(&"  a".to_string()));
    assert!(rows.contains(&"  b".to_string()));
    assert!(rows.contains(&"resolution:".to_string()));
    assert!(rows.contains(&"  c".to_string()));
    assert!(rows.iter().any(|row| row.contains("debug log") && row.contains("/log")));
    let plain = render_cli_error(&fail("boom"), None, false);
    assert_eq!(plain[0], "error: boom");
}

// Output

#[test]
fn lines_are_set_in_the_gutter() {
    assert_eq!(ui_progress("Pushing", "bookmarks", false), "     Pushing bookmarks");
    assert_eq!(ui_info_line("x", false), "        Info x");
    assert_eq!(ui_warn_line("x", false), "     Warning x");
    assert_eq!(ui_detail_line("x", false), "             x");
    assert_eq!(ui_plan_line("x", PlanLineStyle::Create, false), "             x");
    assert_eq!(ui_error("x", false), "error: x");
    assert_eq!(ui_hint("x", false), "hint: x");
    assert_eq!(ui_hyperlink("u", "x", false), "x");
}

#[test]
fn colours_wrap_the_verb() {
    assert_eq!(
        ui_progress("Pushing", "bookmarks", true),
        "\x1b[1m\x1b[32m     Pushing\x1b[39m\x1b[0m bookmarks"
    );
    assert_eq!(ui_info_line("x", true), "\x1b[1m\x1b[36m        Info\x1b[39m\x1b[0m x");
    assert_eq!(ui_warn_line("x", true), "\x1b[1m\x1b[33m     Warning\x1b[39m\x1b[0m x");
    assert_eq!(ui_error("x", true), "\x1b[1m\x1b[31merror:\x1b[39m\x1b[0m x");
    assert_eq!(ui_detail_line("x", true), "             \x1b[2mx\x1b[0m");
    assert_eq!(ui_plan_line("x", PlanLineStyle::Create, true), "             \x1b[32mx\x1b[39m");
    assert_eq!(ui_hyperlink("u", "x", true), "\x1b]8;;u\x1b\\x\x1b]8;;\x1b\\");
}

#[test]
fn phases_have_labels() {
    assert_eq!(phase_label("push-refs"), ("Pushing".to_string(), "bookmarks".to_string()));
    assert_eq!(phase_label("unheard-of").1, "unheard-of");
}
