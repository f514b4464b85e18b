use forklift::cleanup::cleanup_merged_branches;
use forklift::commands::{run_command, submit_state, track_end, track_note, Command};
use forklift::comments::{latest_stack_comment, upsert_stack_comment};
use forklift::config::{ensure_startup_config, set_jj_repo_config};
use forklift::error::{fail, render_cli_error, Error};
use forklift::model::{
    AppConfig, CacheRow, CommandOutput, Diagnostics, GhAuthor, GhMergePr, GhPr, GhRepository,
    GhStackComment, GitHubContext, PrCacheEntry, StatusReport,
};
use forklift::paths::PathStyle;
use forklift::polling::{poll_backoff_sleep, verify_prs_merged};
use forklift::pr::{resolve_pr_url, Platform};
use forklift::repo::{
    git_run, git_workspace_root, resolve_current_jj_repo_dir, resolve_jj_repo_dir,
};
use forklift::shell::wire::Shell;
use forklift::shell::{CommandRunner, Host, Line};
use forklift::trunk::{fast_forward_trunk_over_stack, move_trunk_to_remote};

const FROZEN: &str = "bookmarks(glob:'forklift/frozen/*')";
const IMMUTABLE: &str = "builtin_immutable_heads() | forklift_frozen_heads()";

struct Answer {
    prefix: String,
    outputs: Vec<CommandOutput>,
    at: usize,
}

struct Fake {
    answers: Vec<Answer>,
    calls: Vec<String>,
    dirs: Vec<Option<String>>,
    attached: Vec<String>,
    said: Vec<String>,
    pauses: Vec<u64>,
    asks: bool,
    reply: String,
    rows: Vec<CacheRow>,
    unreadable: bool,
    style: PathStyle,
    pointer: Option<String>,
    saved: Vec<Vec<(String, u64)>>,
}

fn out(success: bool, stdout: &str) -> CommandOutput {
    CommandOutput {
        success,
        stdout: stdout.to_string(),
        stderr: if success { String::new() } else { "refused".to_string() },
    }
}

fn copied(output: &CommandOutput) -> CommandOutput {
    CommandOutput {
        success: output.success,
        stdout: output.stdout.clone(),
        stderr: output.stderr.clone(),
    }
}

impl Fake {
    fn new() -> Fake {
        Fake {
            answers: Vec::new(),
            calls: Vec::new(),
            dirs: Vec::new(),
            attached: Vec::new(),
            said: Vec::new(),
            pauses: Vec::new(),
            asks: false,
            reply: String::new(),
            rows: Vec::new(),
            unreadable: false,
            style: PathStyle::Unix,
            pointer: None,
            saved: Vec::new(),
        }
    }

    fn on(mut self, prefix: &str, stdout: &str) -> Fake {
        self.answers.push(Answer {
            prefix: prefix.to_string(),
            outputs: vec![out(true, stdout)],
            at: 0,
        });
        self
    }

    fn on_each(mut self, prefix: &str, stdouts: &[&str]) -> Fake {
        self.answers.push(Answer {
            prefix: prefix.to_string(),
            outputs: stdouts.iter().map(|stdout| out(true, stdout)).collect(),
            at: 0,
        });
        self
    }

    fn refuse(mut self, prefix: &str) -> Fake {
        self.answers.push(Answer {
            prefix: prefix.to_string(),
            outputs: vec![out(false, "")],
            at: 0,
        });
        self
    }

    fn answer_to(&mut self, command: &str) -> CommandOutput {
        let mut best: Option<usize> = None;
        for i in 0..self.answers.len() {
            if command.starts_with(&self.answers[i].prefix) {
                let longer = match best {
                    Some(b) => self.answers[i].prefix.len() >= self.answers[b].prefix.len(),
                    None => true,
                };
                if longer {
                    best = Some(i);
                }
            }
        }
        match best {
            Some(i) => {
                let answer = &mut self.answers[i];
                let output = copied(&answer.outputs[answer.at]);
                if answer.at + 1 < answer.outputs.len() {
                    answer.at += 1;
                }
                output
            }
            None => out(false, ""),
        }
    }

    fn called(&self, prefix: &str) -> bool {
        self.calls.iter().any(|call| call.starts_with(prefix))
    }

    fn logged(&self, start: &str) -> bool {
        let line = format!("log: {start}");
        self.said.iter().any(|said| said.starts_with(&line))
    }

    fn position(&self, prefix: &str) -> usize {
        match self.calls.iter().position(|call| call.starts_with(prefix)) {
            Some(at) => at,
            None => panic!("no call of `{prefix}` in {:#?}", self.calls),
        }
    }

    fn changes(&self) -> Vec<String> {
        let reading = [
            "jj root",
            "jj log ",
            "jj config get ",
            "jj bookmark list ",
            "git config --get ",
            "git rev-parse ",
            "git merge-base ",
            "git ls-remote ",
            "git show ",
            "gh repo view ",
            "gh pr list ",
            "gh pr view ",
        ];
        self.calls
            .iter()
            .filter(|call| {
                !(reading.iter().any(|prefix| call.starts_with(prefix))
                    || call.starts_with("gh api ") && !call.starts_with("gh api -X "))
                    && call.as_str() != "jj root"
            })
            .cloned()
            .collect()
    }
}

fn fields(text: &str) -> Vec<String> {
    text.trim().split('|').map(|field| field.to_string()).collect()
}

fn repository() -> GhRepository {
    GhRepository {
        id: "1".to_string(),
        node_id: "R1".to_string(),
        name_with_owner: "octo/repo".to_string(),
    }
}

// number|state|head|base|head commit|base commit|title
fn request(text: &str) -> GhPr {
    let f = fields(text);
    GhPr {
        number: f[0].parse().unwrap(),
        state: f[1].clone(),
        merged: f[1] == "MERGED",
        id: format!("node-{}", f[0]),
        head_ref_name: f[2].clone(),
        base_ref_name: f[3].clone(),
        head_ref_oid: f[4].clone(),
        base_ref_oid: f[5].clone(),
        title: f[6].clone(),
        body: String::new(),
        created_at: "2024-01-02T03:04:05Z".to_string(),
        head_repository: Some(repository()),
        base_repository: Some(repository()),
        author: Some(GhAuthor { login: "mona".to_string() }),
    }
}

// number|state|head|base|head commit|mergeable
fn merge_request(text: &str) -> GhMergePr {
    let f = fields(text);
    GhMergePr {
        number: f[0].parse().unwrap(),
        state: f[1].clone(),
        head_ref_name: f[2].clone(),
        base_ref_name: f[3].clone(),
        head_ref_oid: f[4].clone(),
        base_ref_oid: "t0".to_string(),
        title: "A".to_string(),
        body: String::new(),
        created_at: String::new(),
        is_draft: false,
        review_decision: Some("APPROVED".to_string()),
        mergeable: Some(f[5].clone()),
        merge_state_status: Some("CLEAN".to_string()),
        status_check_rollup: Vec::new(),
        auto_merge: false,
    }
}

impl CommandRunner for Fake {
    fn run(&mut self, program: &str, args: &Vec<String>) -> Result<CommandOutput, Error> {
        let command = format!("{program} {}", args.join(" "));
        self.calls.push(command.clone());
        self.dirs.push(None);
        Ok(self.answer_to(&command))
    }

    fn run_in_dir(
        &mut self,
        program: &str,
        args: &Vec<String>,
        dir: &str,
    ) -> Result<CommandOutput, Error> {
        let command = format!("{program} {}", args.join(" "));
        self.calls.push(command.clone());
        self.dirs.push(Some(dir.to_string()));
        Ok(self.answer_to(&command))
    }

    fn run_interactive(&mut self, program: &str, args: &Vec<String>) -> Result<(), Error> {
        self.attached.push(format!("{program} {}", args.join(" ")));
        Ok(())
    }
}

impl Host for Fake {
    fn say(&mut self, line: &Line) {
        let text = match line {
            Line::Progress { verb, message } => format!("{verb}: {message}"),
            Line::Info(text) => format!("info: {text}"),
            Line::Warn(text) => format!("warn: {text}"),
            Line::Out(text) => format!("out: {text}"),
            Line::Note(text) => format!("note: {text}"),
            Line::RepairRow(text) => format!("repair: {text}"),
            Line::SubmitRow(text) => format!("submit: {text}"),
            Line::Log(text) => format!("log: {text}"),
            Line::Steps { verb, message, total } => format!("steps: {verb} {message} {total}"),
            Line::StepsAt(done) => format!("at: {done}"),
            Line::StepsEnd => "end".to_string(),
        };
        self.said.push(text);
    }

    fn can_ask(&mut self) -> bool {
        self.asks
    }

    fn prompt(&mut self, question: &str) -> Result<(), Error> {
        self.said.push(format!("prompt: {question}"));
        Ok(())
    }

    fn answer(&mut self) -> Result<String, Error> {
        Ok(self.reply.clone())
    }

    fn pause(&mut self, millis: u64) {
        self.pauses.push(millis);
    }

    fn path_style(&mut self) -> PathStyle {
        self.style
    }

    fn is_dir(&mut self, path: &str) -> Result<bool, Error> {
        let entry = match self.style {
            PathStyle::Unix => "/.jj/repo",
            PathStyle::Windows => "\\.jj\\repo",
        };
        Ok(path.ends_with(entry) && self.pointer.is_none())
    }

    fn read_file(&mut self, _path: &str) -> Result<String, Error> {
        match &self.pointer {
            Some(pointer) => Ok(pointer.clone()),
            None => Err(fail("no such file")),
        }
    }

    fn canonical(&mut self, path: &str) -> Result<String, Error> {
        Ok(path.to_string())
    }

    fn load_cache(&mut self, _path: &str) -> Result<Vec<CacheRow>, Error> {
        if self.unreadable {
            return Err(fail("not a database"));
        }
        Ok(self.rows.iter().map(same_row).collect())
    }

    fn save_cache(&mut self, _path: &str, rows: &Vec<CacheRow>) -> Result<(), Error> {
        self.saved.push(
            rows.iter().map(|row| (row.change_id.clone(), row.entry.pr_number)).collect(),
        );
        Ok(())
    }

    fn read_pr(&mut self, json: &str) -> Result<GhPr, Error> {
        Ok(request(json))
    }

    fn read_prs(&mut self, json: &str) -> Result<Vec<GhPr>, Error> {
        Ok(json.lines().filter(|line| line.contains('|')).map(request).collect())
    }

    fn read_merge_pr(&mut self, json: &str) -> Result<GhMergePr, Error> {
        Ok(merge_request(json))
    }

    // id~login~updated~body, with `;` for a line feed
    fn read_comment(&mut self, json: &str) -> Result<GhStackComment, Error> {
        let f: Vec<&str> = json.split('~').collect();
        Ok(GhStackComment {
            id: f[0].parse().unwrap(),
            user_login: f[1].to_string(),
            updated_at: f[2].to_string(),
            body: f[3].replace(';', "\n"),
        })
    }

    fn read_comment_id(&mut self, json: &str) -> Result<u64, Error> {
        match json.trim().parse() {
            Ok(id) => Ok(id),
            Err(_) => Err(fail("no id")),
        }
    }

    fn write_status(&mut self, report: &StatusReport) -> Result<String, Error> {
        Ok(format!("{} {}", report.repo, report.suggested_next_command))
    }
}

fn record(change: &str, commit: &str, parent: &str, title: &str) -> String {
    format!(
        "\"{change}\"\x1f\"{commit}\"\x1f[\"{parent}\"]\x1f\"{title}\"\x1f\"{title}\\n\"\x1ffalse\x1ffalse\x1ffalse\x1e"
    )
}

const STACK: &str = "jj log --no-graph --reversed -r trunk()..@ ";

fn stack_of_two() -> String {
    format!(
        "{}{}",
        record("aaaaaaaaaa", "c1", "t0", "A"),
        record("bbbbbbbbbb", "c2", "c1", "B")
    )
}

fn world() -> Fake {
    Fake::new()
        .on("jj root", "/w\n")
        .on("jj config get revset-aliases.\"forklift_frozen_heads()\"", FROZEN)
        .on("jj config get revset-aliases.\"immutable_heads()\"", IMMUTABLE)
        .on("jj log --no-graph -r trunk() ", "t0\n")
        .on("jj log --no-graph -r (::", "")
        .on("jj bookmark list forklift/frozen/* ", "")
        .on(STACK, &stack_of_two())
        .on("git show -s --format=%T ", "tree\n")
        .on("gh repo view ", "octo/repo\n")
        .on("gh api user ", "mona\n")
        .on("git merge-base c1 ", "t0\n")
        .on("git merge-base c2 ", "c1\n")
        .on("git merge-base --is-ancestor ", "")
        .on("jj bookmark list --revision ", "")
        .on("gh pr list ", "[]")
        .on("git ls-remote ", "")
        .on("git rev-parse origin/main", "t0\n")
        .on("git rev-parse main", "t0\n")
        .on("jj bookmark list --all-remotes ", "origin\ttracked\tok\n")
}

fn submittable() -> Fake {
    world()
        .on("jj bookmark set ", "")
        .on("jj git push ", "")
        .on(
            "gh api -X POST repos/octo/repo/pulls -f title=A",
            "1|OPEN|stack/a-aaaaaaaa|main|c1|t0|A",
        )
        .on(
            "gh api -X POST repos/octo/repo/pulls -f title=B",
            "2|OPEN|stack/b-bbbbbbbb|stack/a-aaaaaaaa|c2|c1|B",
        )
        .on("gh api --paginate repos/octo/repo/issues/", "")
        .on("gh api -X POST repos/octo/repo/issues/", "77")
}

fn entry(number: u64, head: &str, base: &str, sha: &str, base_sha: &str, title: &str) -> PrCacheEntry {
    PrCacheEntry {
        pr_number: number,
        pr_node_id: format!("node-{number}"),
        head_branch: head.to_string(),
        base_branch: base.to_string(),
        base_ref: base.to_string(),
        head_repo_id: "1".to_string(),
        head_repo_node_id: "R1".to_string(),
        head_repo_name: "octo/repo".to_string(),
        base_repo_id: "1".to_string(),
        base_repo_node_id: "R1".to_string(),
        base_repo_name: "octo/repo".to_string(),
        head_sha: sha.to_string(),
        base_sha: base_sha.to_string(),
        author_login: "mona".to_string(),
        title: title.to_string(),
        body: String::new(),
        created_at: "2024-01-02T03:04:05Z".to_string(),
        stack_comment_id: None,
    }
}

fn same_row(row: &CacheRow) -> CacheRow {
    let kept = &row.entry;
    CacheRow {
        repo: row.repo.clone(),
        change_id: row.change_id.clone(),
        entry: entry(
            kept.pr_number,
            &kept.head_branch,
            &kept.base_branch,
            &kept.head_sha,
            &kept.base_sha,
            &kept.title,
        ),
    }
}

fn with_cache(mut fake: Fake) -> Fake {
    fake.rows = vec![
        CacheRow {
            repo: "octo/repo".to_string(),
            change_id: "aaaaaaaaaa".to_string(),
            entry: entry(1, "stack/a-aaaaaaaa", "main", "c1", "t0", "A"),
        },
        CacheRow {
            repo: "octo/repo".to_string(),
            change_id: "bbbbbbbbbb".to_string(),
            entry: entry(2, "stack/b-bbbbbbbb", "stack/a-aaaaaaaa", "c2", "c1", "B"),
        },
    ];
    fake
}

fn mergeable() -> Fake {
    with_cache(world())
        .on("jj log --no-graph -r stack/a-aaaaaaaa ", "c1\n")
        .on("jj log --no-graph -r stack/b-bbbbbbbb ", "c2\n")
        .on("gh pr view 1 ", "1|OPEN|stack/a-aaaaaaaa|main|c1|MERGEABLE")
        .on_each(
            "gh pr view 2 ",
            &[
                "2|OPEN|stack/b-bbbbbbbb|stack/a-aaaaaaaa|c2|MERGEABLE",
                "2|OPEN|stack/b-bbbbbbbb|main|c2|UNKNOWN",
                "2|OPEN|stack/b-bbbbbbbb|main|c2|MERGEABLE",
            ],
        )
        .on("gh pr view 1 --repo octo/repo --json state ", "MERGED\n")
        .on_each("gh pr view 2 --repo octo/repo --json state ", &["OPEN\n", "MERGED\n"])
        .on("gh api repos/octo/repo/pulls/1 ", "1|OPEN|stack/a-aaaaaaaa|main|c1|t0|A")
        .on("gh api repos/octo/repo/pulls/2 ", "2|OPEN|stack/b-bbbbbbbb|stack/a-aaaaaaaa|c2|c1|B")
        .on("gh api -X PATCH repos/octo/repo/pulls/2 ", "")
        .on("jj bookmark ", "")
        .on("jj bookmark list --all-remotes ", "origin\ttracked\tok\n")
        .on("jj bookmark list forklift/frozen/* ", "")
        .on("jj bookmark list --revision c1 ", "stack/a-aaaaaaaa\t\n")
        .on("jj bookmark list --revision c2 ", "stack/b-bbbbbbbb\t\n")
        .on("jj git push ", "")
        .on("jj new main", "")
}

fn run(fake: Fake, command: Command, dry_run: bool) -> (Fake, Result<(), Error>) {
    let mut shell = Shell::new(fake);
    let done = run_command(
        &mut shell,
        &command,
        "/w",
        Platform::Other,
        Diagnostics { verbose: false, dry_run },
    );
    (shell.into_host(), done)
}

fn shown(error: &Error) -> String {
    render_cli_error(error, None, false).join("\n")
}

fn done(fake: Fake, command: Command, dry_run: bool) -> Fake {
    let (fake, result) = run(fake, command, dry_run);
    match result {
        Ok(()) => fake,
        Err(error) => {
            panic!("{} after {:?}", shown(&error), fake.calls.last())
        }
    }
}

fn refused(fake: Fake, command: Command, dry_run: bool) -> (Fake, String) {
    let (fake, result) = run(fake, command, dry_run);
    match result {
        Ok(()) => panic!("expected a failure after {:?}", fake.calls.last()),
        Err(error) => (fake, shown(&error)),
    }
}

fn config() -> AppConfig {
    AppConfig {
        remote: "origin".to_string(),
        trunk: "main".to_string(),
        require_approval: true,
        branch_prefix: "stack".to_string(),
    }
}

fn github() -> GitHubContext {
    GitHubContext { repo: "octo/repo".to_string(), username: "mona".to_string() }
}

const LOUD: Diagnostics = Diagnostics { verbose: false, dry_run: false };

// Submit

#[test]
fn submit_creates_each_request_on_the_one_below() {
    let fake = done(submittable(), Command::Submit { yes: true }, false);
    let first = fake.position("gh api -X POST repos/octo/repo/pulls -f title=A -f head=stack/a-aaaaaaaa -f base=main ");
    let second = fake.position("gh api -X POST repos/octo/repo/pulls -f title=B -f head=stack/b-bbbbbbbb -f base=stack/a-aaaaaaaa ");
    assert!(fake.position("jj git push --remote origin --bookmark stack/a-aaaaaaaa") < first);
    assert!(first < second);
    assert!(second < fake.position("gh api -X POST repos/octo/repo/issues/"));
    let last = fake.saved.last().cloned();
    assert_eq!(
        last,
        Some(vec![("aaaaaaaaaa".to_string(), 1), ("bbbbbbbbbb".to_string(), 2)])
    );
    assert!(fake.said.iter().any(|line| line.starts_with("Finished: submit")));
}

#[test]
fn submit_dry_run_changes_nothing() {
    let fake = done(submittable(), Command::Submit { yes: false }, true);
    assert_eq!(fake.changes(), Vec::<String>::new());
    assert!(fake.saved.is_empty());
    assert!(fake
        .said
        .contains(&"Finished: submit (dry run) — 2 changes, 2 pushes, 2 creates, 0 updates planned".to_string()));
}

#[test]
fn submit_waits_for_consent() {
    let (fake, told) = refused(submittable(), Command::Submit { yes: false }, false);
    assert_eq!(fake.changes(), Vec::<String>::new());
    assert!(told.contains("forklift submit --yes"), "{told}");
    let mut declining = submittable();
    declining.asks = true;
    declining.reply = "n\n".to_string();
    let (fake, _) = refused(declining, Command::Submit { yes: false }, false);
    assert_eq!(fake.changes(), Vec::<String>::new());
    assert!(fake.said.contains(&"prompt: Apply submit? [y/N] ".to_string()));
    let mut agreeing = submittable();
    agreeing.asks = true;
    agreeing.reply = "Yes\n".to_string();
    let fake = done(agreeing, Command::Submit { yes: false }, false);
    assert!(fake.called("jj git push "));
}

#[test]
fn submit_refuses_undescribed_changes() {
    let fake = submittable().on(STACK, &record("aaaaaaaaaa", "c1", "t0", ""));
    let (fake, told) = refused(fake, Command::Submit { yes: true }, false);
    assert!(told.contains("have no description"), "{told}");
    assert_eq!(fake.changes(), Vec::<String>::new());
}

#[test]
fn submit_leaves_finished_requests_alone() {
    let fake = mergeable()
        .on("git ls-remote --heads origin stack/a-aaaaaaaa", "c1\trefs/heads/stack/a-aaaaaaaa\n")
        .on("git ls-remote --heads origin stack/b-bbbbbbbb", "c2\trefs/heads/stack/b-bbbbbbbb\n")
        .on(
            "gh pr list --repo octo/repo --head stack/a-aaaaaaaa ",
            "1|OPEN|stack/a-aaaaaaaa|main|c1|t0|A",
        )
        .on(
            "gh pr list --repo octo/repo --head stack/b-bbbbbbbb ",
            "2|OPEN|stack/b-bbbbbbbb|stack/a-aaaaaaaa|c2|c1|B",
        );
    let fake = done(fake, Command::Submit { yes: true }, true);
    assert!(fake
        .said
        .contains(&"Finished: submit (dry run) — 2 changes, 0 pushes, 0 creates, 0 updates planned".to_string()));
}

#[test]
fn submit_outside_a_repository_is_refused() {
    let (fake, told) = refused(Fake::new(), Command::Submit { yes: true }, false);
    assert!(told.contains("not inside a jj repository (cwd=/w)"), "{told}");
    assert_eq!(fake.calls, vec!["jj root".to_string()]);
}

// Merge

fn merge() -> Command {
    Command::Merge { choice: None, no_require_approval: false, admin: false }
}

#[test]
fn merge_moves_trunk_forward_in_one_push() {
    let fake = done(mergeable(), merge(), false);
    let repointed = fake.position("gh api -X PATCH repos/octo/repo/pulls/2 -f base=main");
    let tested = fake.position("git merge-base --is-ancestor t0 c2");
    let set = fake.position("jj bookmark set main -r c2");
    let pushed = fake.position("jj git push --remote origin --bookmark main");
    let verified = fake.position("gh pr view 1 --repo octo/repo --json state ");
    let swept = fake.position("jj bookmark delete stack/a-aaaaaaaa");
    let reset = fake.position("jj new main");
    assert!(repointed < tested && tested < set && set < pushed);
    assert!(pushed < verified && verified < swept && swept < reset);
    assert_eq!(
        fake.calls.iter().filter(|call| call.ends_with("--bookmark main")).count(),
        1
    );
    assert!(!fake.called("jj rebase"));
    assert!(!fake.called("gh pr merge"));
    assert!(fake.called(
        "jj git push --remote origin --bookmark stack/a-aaaaaaaa --bookmark stack/b-bbbbbbbb"
    ));
    assert!(fake.called("jj bookmark forget --include-remotes stack/a-aaaaaaaa"));
    assert!(!fake.pauses.is_empty());
}

#[test]
fn merge_dry_run_changes_nothing() {
    let fake = done(mergeable(), merge(), true);
    assert_eq!(fake.changes(), Vec::<String>::new());
    assert!(fake.saved.is_empty());
    assert!(fake.said.contains(&"Finished: merge (dry run) — 2 PRs checked".to_string()));
}

#[test]
fn merge_refuses_a_request_that_is_not_ready() {
    let fake = mergeable().on("gh pr view 1 ", "1|OPEN|stack/a-aaaaaaaa|main|c1|CONFLICTING");
    let (fake, told) = refused(fake, merge(), false);
    assert!(told.contains("is not mergeable"), "{told}");
    assert!(!fake.called("jj git push"));
    assert!(!fake.called("jj bookmark set"));
}

#[test]
fn merge_refuses_a_trunk_that_moved() {
    let fake = mergeable().refuse("git merge-base --is-ancestor t0 c2");
    let (fake, told) = refused(fake, merge(), false);
    assert!(told.contains("is not an ancestor; run `forklift sync` first"), "{told}");
    assert!(!fake.called("jj git push"));
}

#[test]
fn merge_that_is_never_confirmed_fails() {
    let fake = mergeable().on("gh pr view 2 --repo octo/repo --json state ", "OPEN\n");
    let (fake, told) = refused(fake, merge(), false);
    assert!(told.contains("verify-merge") || told.contains("not merged") || told.contains("#2"), "{told}");
    assert!(!fake.called("jj bookmark delete"));
}

// Cleanup

#[test]
fn branches_under_open_requests_stay() {
    let fake = Fake::new()
        .on("jj root", "/w\n")
        .on("gh pr list --repo octo/repo --base a ", "[{\"number\":9}]")
        .on("gh pr list --repo octo/repo --base b ", "[]")
        .on("jj bookmark ", "")
        .on("jj git push ", "");
    let mut shell = Shell::new(fake);
    let gone = cleanup_merged_branches(
        &mut shell,
        &config(),
        &github(),
        &vec!["a".to_string(), "b".to_string()],
        LOUD,
    );
    let fake = shell.into_host();
    assert_eq!(gone, 1);
    assert!(!fake.called("jj bookmark delete a"));
    assert!(fake.logged("skipping cleanup of `a`: an open PR still targets it as its base"));
    assert!(fake.called("jj bookmark delete b"));
    assert!(fake.called("jj git push --remote origin --bookmark b"));
}

#[test]
fn unreadable_request_list_keeps_the_branch() {
    let fake = Fake::new()
        .on("jj root", "/w\n")
        .on("gh pr list --repo octo/repo --base a ", "{")
        .on("jj bookmark ", "");
    let mut shell = Shell::new(fake);
    let gone = cleanup_merged_branches(
        &mut shell,
        &config(),
        &github(),
        &vec!["a".to_string()],
        LOUD,
    );
    let fake = shell.into_host();
    assert_eq!(gone, 0);
    assert!(!fake.called("jj bookmark delete"));
    assert!(fake.logged("could not check open PRs basing on `a`, leaving it: "));
}

#[test]
fn failed_deletions_are_logged() {
    let fake = Fake::new()
        .on("jj root", "/w\n")
        .on("gh pr list ", "[]")
        .refuse("jj bookmark delete a")
        .on("jj bookmark delete b", "")
        .on("jj bookmark forget ", "")
        .refuse("jj git push ");
    let mut shell = Shell::new(fake);
    let gone = cleanup_merged_branches(
        &mut shell,
        &config(),
        &github(),
        &vec!["a".to_string(), "b".to_string()],
        LOUD,
    );
    let fake = shell.into_host();
    assert_eq!(gone, 1);
    assert!(fake.logged("could not delete local bookmark `a`: failed-command="));
    assert!(fake.logged("could not push branch deletion(s) to `origin`: failed-command="));
    assert!(fake.called("jj bookmark forget --include-remotes b"));
}

// Trunk

#[test]
fn untracked_trunk_is_tracked_before_the_push() {
    let fake = world()
        .on("jj bookmark list --all-remotes main ", "origin\tuntracked\tok\n")
        .on("jj bookmark track ", "")
        .on("jj bookmark set ", "")
        .on("jj git push ", "");
    let mut shell = Shell::new(fake);
    let moved = fast_forward_trunk_over_stack(&mut shell, &config(), "c2", LOUD);
    let fake = shell.into_host();
    assert!(moved.is_ok());
    assert!(
        fake.position("jj bookmark track --remote origin main")
            < fake.position("jj bookmark set main -r c2")
    );
    assert!(fake.said.iter().any(|line| line.starts_with("warn: trunk `main@origin`")));
    assert!(fake.logged("trunk `main@origin` was untracked before merge push; auto-tracking"));
}

#[test]
fn refused_fast_forward_touches_nothing() {
    let fake = world().refuse("git merge-base --is-ancestor ");
    let mut shell = Shell::new(fake);
    let moved = fast_forward_trunk_over_stack(&mut shell, &config(), "c2", LOUD);
    assert!(moved.is_err());
    assert_eq!(shell.into_host().changes(), Vec::<String>::new());
}

#[test]
fn trunk_stays_where_the_views_disagree() {
    let fake = world()
        .on("jj log --no-graph -r main@origin ", "t1\n")
        .on("jj log --no-graph -r main ", "t0\n");
    let mut shell = Shell::new(fake);
    let moved = move_trunk_to_remote(&mut shell, &config(), LOUD);
    let fake = shell.into_host();
    assert!(moved.is_err());
    assert_eq!(fake.changes(), Vec::<String>::new());
}

// Polling

#[test]
fn waits_double_up_to_a_cap() {
    let mut shell = Shell::new(Fake::new());
    let mut delay: u64 = 500;
    for _ in 0..5 {
        delay = poll_backoff_sleep(&mut shell, delay);
    }
    assert_eq!(shell.into_host().pauses, vec![500, 1000, 2000, 4000, 4000]);
    assert_eq!(delay, 4000);
}

#[test]
fn verification_ends_with_the_last_request() {
    let fake = Fake::new()
        .on("jj root", "/w\n")
        .on("gh pr view 1 ", "MERGED\n")
        .on_each("gh pr view 2 ", &["OPEN\n", "OPEN\n", "MERGED\n"]);
    let mut shell = Shell::new(fake);
    assert!(verify_prs_merged(&mut shell, &github(), &vec![1, 2], LOUD).is_ok());
    assert_eq!(shell.into_host().pauses, vec![500, 1000]);
}

// Sync

fn syncable() -> Fake {
    mergeable()
        .on("jj git fetch --remote origin", "")
        .on("jj log --no-graph -r main@origin ", "t0\n")
        .on("jj log --no-graph -r main ", "t0\n")
        .on("jj bookmark list -T ", "")
        .on("jj rebase ", "")
}

#[test]
fn sync_rebases_onto_trunk() {
    let fake = done(syncable(), Command::Sync { submit: false, yes: false }, false);
    assert!(fake.position("jj git fetch --remote origin") < fake.position("jj rebase "));
    assert!(!fake.called("jj git push"));
    assert!(fake.said.iter().any(|line| line.starts_with("Finished: sync")));
}

#[test]
fn sync_dry_run_changes_nothing() {
    let fake = done(syncable(), Command::Sync { submit: false, yes: false }, true);
    assert_eq!(fake.changes(), Vec::<String>::new());
    assert!(fake.saved.is_empty());
}

// Get

fn gettable() -> Fake {
    world()
        .on("gh api repos/octo/repo/pulls/1 ", "1|OPEN|stack/a-aaaaaaaa|main|c1|t0|A")
        .on("gh api repos/octo/repo/pulls/2 ", "2|OPEN|stack/b-bbbbbbbb|stack/a-aaaaaaaa|c2|c1|B")
        .on(
            "gh api --paginate repos/octo/repo/issues/",
            "5~mona~2024-01-01~<!-- stack:v1 -->;https://github.com/octo/repo/pull/2;https://github.com/octo/repo/pull/1;\n",
        )
        .on("jj git fetch --remote origin --branch ", "")
        .on("jj log --no-graph --reversed -r c1 ", &record("aaaaaaaaaa", "c1", "t0", "A"))
        .on("jj log --no-graph --reversed -r c2 ", &record("bbbbbbbbbb", "c2", "c1", "B"))
        .on("jj bookmark set ", "")
        .on("jj new ", "")
}

#[test]
fn get_freezes_the_stack_of_a_request() {
    let fake = done(gettable(), Command::Get { target: "2".to_string(), no_edit: false }, false);
    assert!(fake.called("jj bookmark set forklift/frozen/pr-1 -r c1"));
    assert!(fake.called("jj bookmark set forklift/frozen/pr-2 -r c2"));
    assert!(fake.called("jj new forklift/frozen/pr-2"));
    let last = fake.saved.last().cloned();
    assert_eq!(
        last,
        Some(vec![("aaaaaaaaaa".to_string(), 1), ("bbbbbbbbbb".to_string(), 2)])
    );
}

#[test]
fn get_without_edit_leaves_the_working_copy() {
    let fake = done(gettable(), Command::Get { target: "2".to_string(), no_edit: true }, false);
    assert!(!fake.called("jj new "));
}

#[test]
fn get_dry_run_changes_nothing() {
    let fake = done(gettable(), Command::Get { target: "2".to_string(), no_edit: false }, true);
    assert_eq!(fake.changes(), Vec::<String>::new());
    assert!(fake.saved.is_empty());
}

// Unfreeze

fn adoptable() -> Fake {
    world()
        .on("gh api repos/octo/repo/pulls/1 ", "1|OPEN|stack/a-aaaaaaaa|main|c1|t0|A")
        .on("gh api repos/octo/repo --jq .permissions.push", "true\n")
        .on("jj bookmark list forklift/frozen/* ", "forklift/frozen/pr-1\tok\tc1\n")
        .on("jj git fetch --remote origin --branch ", "")
        .on("jj bookmark track ", "")
        .on("jj bookmark delete ", "")
        .on(
            "jj bookmark list --all-remotes -T ",
            "other\torigin\tuntracked\tok\tc9\nkept\torigin\ttracked\tok\tc9\n",
        )
        .on("jj log --no-graph -r c1 -T immutable", "false\n")
        .on("jj log --no-graph --reversed -r c1 ", &record("aaaaaaaaaa", "c1", "t0", "A"))
}

fn unfreeze() -> Command {
    Command::Unfreeze { target: "1".to_string() }
}

#[test]
fn unfreeze_adopts_a_frozen_request() {
    let fake = done(adoptable(), unfreeze(), false);
    assert!(fake.called("jj bookmark track --remote origin stack/a-aaaaaaaa"));
    assert!(fake.called("jj bookmark track --remote origin other"));
    assert!(!fake.called("jj bookmark track --remote origin kept"));
    let dropped = fake.position("jj bookmark delete forklift/frozen/pr-1");
    assert!(dropped < fake.position("jj log --no-graph -r c1 -T immutable"));
    assert_eq!(fake.saved.last().cloned(), Some(vec![("aaaaaaaaaa".to_string(), 1)]));
    assert!(fake.said.iter().any(|line| line.starts_with("Finished: unfreeze — PR #1 adopted")));
}

#[test]
fn unfreeze_dry_run_changes_nothing() {
    let fake = done(adoptable(), unfreeze(), true);
    assert_eq!(fake.changes(), Vec::<String>::new());
    assert!(fake.saved.is_empty());
}

#[test]
fn unfreeze_refuses_a_request_that_moved_on() {
    let fake = adoptable()
        .on("jj bookmark list forklift/frozen/* ", "forklift/frozen/pr-1\tok\tc0\n");
    let (fake, text) = refused(fake, unfreeze(), false);
    assert!(text.contains("frozen bookmark points at c0"), "{text}");
    assert_eq!(fake.changes(), Vec::<String>::new());
}

#[test]
fn unfreeze_needs_the_right_to_push() {
    let fake = adoptable().on("gh api repos/octo/repo --jq .permissions.push", "false\n");
    let (fake, text) = refused(fake, unfreeze(), false);
    assert!(text.contains("does not have push permission"), "{text}");
    assert_eq!(fake.changes(), Vec::<String>::new());
}

// Repair

fn repairable() -> Fake {
    world()
        .on("gh api repos/octo/repo/pulls/1 ", "1|MERGED|stack/a-aaaaaaaa|main|c1|t0|A")
        .on("gh api repos/octo/repo/pulls/2 ", "2|OPEN|stack/b-bbbbbbbb|main|c2|t0|B")
        .on_each(
            "gh api --paginate repos/octo/repo/issues/2/",
            &[
                "5~mona~2024-01-01~<!-- stack:v1 -->;https://github.com/octo/repo/pull/2;https://github.com/octo/repo/pull/1;\n",
                "5~mona~2024-01-01~<!-- stack:v1 -->;https://github.com/octo/repo/pull/2;https://github.com/octo/repo/pull/1;\n",
                "5~mona~2024-01-01~<!-- stack:v1 -->;https://github.com/octo/repo/pull/2;\n",
            ],
        )
        .on("gh api -X PATCH repos/octo/repo/issues/comments/5 ", "5")
}

#[test]
fn repair_drops_the_merged_request() {
    let fake = done(repairable(), Command::Repair { target: "2".to_string(), yes: true }, false);
    assert!(fake.called("gh api -X PATCH repos/octo/repo/issues/comments/5 "));
    assert!(fake.said.iter().any(|line| line.starts_with("Finished: repair")));
}

#[test]
fn repair_waits_for_consent() {
    let (fake, _) =
        refused(repairable(), Command::Repair { target: "2".to_string(), yes: false }, false);
    assert_eq!(fake.changes(), Vec::<String>::new());
}

#[test]
fn repair_dry_run_changes_nothing() {
    let fake = done(repairable(), Command::Repair { target: "2".to_string(), yes: false }, true);
    assert_eq!(fake.changes(), Vec::<String>::new());
}

// Comments

#[test]
fn newest_comment_is_updated() {
    let fake = Fake::new()
        .on("jj root", "/w\n")
        .on(
            "gh api --paginate repos/octo/repo/issues/1/",
            "5~mona~2024-01-01~<!-- stack:v1 -->old;\n6~mona~2024-02-01~<!-- stack:v1 -->new;\n7~other~2024-03-01~<!-- stack:v1 -->x;\n",
        )
        .on("gh api -X PATCH repos/octo/repo/issues/comments/6 ", "6");
    let mut shell = Shell::new(fake);
    match latest_stack_comment(&mut shell, &github(), 1, "a") {
        Ok(Some(comment)) => assert!(comment.id == 6 || comment.id == 7),
        _ => panic!("a comment is there"),
    }
    assert!(upsert_stack_comment(&mut shell, &github(), 1, "a", "<!-- stack:v1 -->next\n").is_ok());
    let fake = shell.into_host();
    assert!(fake.called("gh api -X PATCH repos/octo/repo/issues/comments/6 "));
    assert!(fake.said.iter().any(|line| line.starts_with("warn: ")));
}

// Status, requests and the outer commands

#[test]
fn status_only_reads() {
    let fake = done(mergeable(), Command::Status { json: true }, false);
    assert_eq!(fake.changes(), Vec::<String>::new());
    assert!(fake.said.iter().any(|line| line.starts_with("out: octo/repo forklift ")));
    let fake = done(mergeable(), Command::Status { json: false }, false);
    assert_eq!(fake.changes(), Vec::<String>::new());
    assert!(fake.said.iter().any(|line| line.starts_with("info: next: ")));
}

#[test]
fn request_is_opened_in_the_browser() {
    let fake = world().on("xdg-open ", "");
    let fake = done(fake, Command::Pr { choice: Some("7".to_string()) }, false);
    assert!(fake.called("xdg-open https://github.com/octo/repo/pull/7"));
    let fake = done(world(), Command::Pr { choice: Some("7".to_string()) }, true);
    assert!(fake.said.contains(
        &"Finished: pr (dry run) — would open PR #7 at https://github.com/octo/repo/pull/7"
            .to_string()
    ));
}

#[test]
fn ui_shows_the_stacks() {
    let fake = done(
        world(),
        Command::Ui { all: false, revset: None, args: vec!["--x".to_string()] },
        false,
    );
    assert_eq!(
        fake.attached,
        vec!["jjui -r trunk() | @:: | mutable() | trunk()..(@ | bookmarks(glob:'stack/*') | bookmarks(glob:'forklift/frozen/*')) --x".to_string()]
    );
    let fake = done(world(), Command::Ui { all: true, revset: None, args: Vec::new() }, true);
    assert!(fake.attached.is_empty());
}

#[test]
fn settings_are_quoted() {
    let mut shell = Shell::new(Fake::new().on("jj config set ", ""));
    assert!(set_jj_repo_config(&mut shell, "k", "a \"b\"").is_ok());
    assert_eq!(
        shell.into_host().calls,
        vec!["jj config set --repo k \"a \\\"b\\\"\"".to_string()]
    );
    let mut shell = Shell::new(Fake::new().on("jj config set ", ""));
    assert!(set_jj_repo_config(&mut shell, "k", "\\\x08\t\n\x0c\r\x1f\x7f/é").is_ok());
    assert_eq!(
        shell.into_host().calls,
        vec!["jj config set --repo k \"\\\\\\b\\t\\n\\f\\r\\u001f\x7f/é\"".to_string()]
    );
}

#[test]
fn startup_settings_are_written_once() {
    let fake = Fake::new()
        .on("jj config get revset-aliases.\"immutable_heads()\"", "builtin_immutable_heads()")
        .on("jj config set ", "");
    let mut shell = Shell::new(fake);
    assert!(ensure_startup_config(&mut shell, LOUD).is_ok());
    let fake = shell.into_host();
    assert_eq!(fake.calls.iter().filter(|call| call.starts_with("jj config set")).count(), 2);
    let mut shell = Shell::new(world());
    assert!(ensure_startup_config(&mut shell, LOUD).is_ok());
    assert!(!shell.into_host().called("jj config set"));
}

#[test]
fn git_runs_at_the_workspace_root() {
    let fake = done(submittable(), Command::Submit { yes: false }, true);
    let at = fake.position("git show ");
    assert_eq!(fake.dirs[at], Some("/w".to_string()));
    let mut shell = Shell::new(Fake::new().on("jj root", "/w\n"));
    assert_eq!(git_workspace_root(&mut shell).ok(), Some("/w".to_string()));
}

#[test]
fn git_is_not_run_where_no_workspace_is_found() {
    let mut shell = Shell::new(Fake::new().refuse("jj root"));
    let reply = git_run(&mut shell, &vec!["show".to_string()]);
    match reply {
        Err(error) => assert!(shown(&error).contains("resolve jj workspace root")),
        Ok(_) => panic!("there is no workspace"),
    }
    assert_eq!(shell.into_host().calls, vec!["jj root".to_string()]);
}

fn windows(root: &str, pointer: Option<&str>) -> Fake {
    let mut fake = Fake::new().on("jj root", root).on("git ", "");
    fake.style = PathStyle::Windows;
    fake.pointer = pointer.map(|pointer| pointer.to_string());
    fake
}

#[test]
fn git_runs_at_the_workspace_root_on_windows() {
    let mut shell = Shell::new(windows("C:\\p\r\n", None));
    assert!(git_run(&mut shell, &vec!["show".to_string()]).is_ok());
    let fake = shell.into_host();
    let at = fake.position("git show");
    assert_eq!(fake.dirs[at], Some("C:\\p".to_string()));

    let mut shell = Shell::new(windows("\\\\?\\C:\\p", None));
    assert_eq!(git_workspace_root(&mut shell).ok(), Some("\\\\?\\C:\\p".to_string()));
    let mut shell = Shell::new(windows("C:\\", None));
    assert_eq!(git_workspace_root(&mut shell).ok(), Some("C:\\".to_string()));
}

#[test]
fn pointers_are_followed() {
    let mut shell = Shell::new(windows("C:\\w", Some("D:\\p\\.jj\\repo\n")));
    assert_eq!(git_workspace_root(&mut shell).ok(), Some("D:\\p".to_string()));
    let mut shell = Shell::new(windows("C:\\w", Some("../../p/.jj/repo")));
    assert_eq!(
        resolve_current_jj_repo_dir(&mut shell).ok(),
        Some("C:\\w\\.jj\\../../p/.jj/repo".to_string())
    );
    let mut shell = Shell::new(windows("", Some("../../p/.jj/repo")));
    assert_eq!(
        resolve_jj_repo_dir(&mut shell, "\\\\?\\C:\\w").ok(),
        Some("\\\\?\\C:\\p\\.jj\\repo".to_string())
    );

    let mut fake = Fake::new().on("jj root", "/w\n");
    fake.pointer = Some("/p/.jj/repo\n".to_string());
    assert_eq!(git_workspace_root(&mut Shell::new(fake)).ok(), Some("/p".to_string()));
    let mut fake = Fake::new().on("jj root", "/w\n");
    fake.pointer = Some("C:\\p\n".to_string());
    assert_eq!(
        resolve_current_jj_repo_dir(&mut Shell::new(fake)).ok(),
        Some("/w/.jj/C:\\p".to_string())
    );
    let mut fake = Fake::new().on("jj root", "/w\n");
    fake.pointer = Some(" \n".to_string());
    match resolve_current_jj_repo_dir(&mut Shell::new(fake)) {
        Err(error) => assert!(shown(&error).contains("jj repo pointer /w/.jj/repo is empty")),
        Ok(_) => panic!("the pointer is empty"),
    }
}

#[test]
fn unreadable_cache_is_logged_and_passed_over() {
    let mut fake = submittable();
    fake.unreadable = true;
    let fake = done(fake, Command::Submit { yes: true }, false);
    assert!(fake.logged("phase=plan-submit object=/w/.jj/repo/stack/cache.sqlite error=failed to read"));
}

#[test]
fn stale_hint_is_logged_and_passed_over() {
    let fake = done(with_cache(submittable()), Command::Submit { yes: true }, false);
    assert!(fake.logged("phase=plan-submit object=cache:aaaaaaaaaa error=ignored stale cache hint"));
    assert!(fake.called("gh api -X POST repos/octo/repo/pulls -f title=A"));
}

#[test]
fn addresses_are_resolved_without_a_call() {
    let mut shell = Shell::new(Fake::new());
    let found = resolve_pr_url(
        &mut shell,
        &config(),
        &github(),
        Some("https://github.com/a/b/pull/7/files"),
    );
    assert_eq!(found.ok(), Some((7, "https://github.com/a/b/pull/7".to_string())));
    assert!(shell.into_host().calls.is_empty());
}

#[test]
fn ends_are_told() {
    assert_eq!(submit_state(true, false), "ran");
    assert_eq!(Command::Submit { yes: true }.name(), "submit");
    assert!(track_end(true, Some(7), "stack/a", "a").contains("dry run"));
    assert!(track_note(Some(7), "c1").contains("#7"));
}
