//! Settings, and the revset aliases that jj must have.

use vstd::prelude::*;

use crate::error;
use crate::error::{CauseView, CliError, Error, fail, report};
use crate::model::{
    AppConfig, AppConfigView, CommandOutput, Diagnostics, StartupConfigAction,
    StartupConfigActionView,
};
use crate::output;
use crate::output::display_command;
use crate::outside;
use crate::outside::quote_json;
use crate::record;
use crate::record::{Event, LineView, Reply};
use crate::repo::git_run;
use crate::shell::{Host, jj_run};
use crate::shell::wire::Shell;
use crate::text;
use crate::text::{
    cat3, cat5, cat7, char_is_alnum, chars, lowered, same, text_contains, trimmed, words,
};

verus! {

pub const CONFIG_PREFIX: &'static str = "stack";

pub const DEFAULT_REMOTE: &'static str = "origin";

pub const DEFAULT_TRUNK: &'static str = "main";

pub const DEFAULT_REQUIRE_APPROVAL: bool = true;

pub const DEFAULT_BRANCH_PREFIX: &'static str = "stack";

pub const JJ_CONFIG_FROZEN_ALIAS_KEY: &'static str = "revset-aliases.\"forklift_frozen_heads()\"";

pub const JJ_CONFIG_IMMUTABLE_ALIAS_KEY: &'static str = "revset-aliases.\"immutable_heads()\"";

pub const JJ_CONFIG_BASE_IMMUTABLE_ALIAS_KEY: &'static str =
    "revset-aliases.\"forklift_base_immutable_heads()\"";

pub const JJ_FROZEN_ALIAS_VALUE: &'static str = "bookmarks(glob:'forklift/frozen/*')";

pub const JJ_DEFAULT_IMMUTABLE_ALIAS_VALUE: &'static str = "builtin_immutable_heads()";

pub const JJ_REQUIRED_IMMUTABLE_ALIAS_VALUE: &'static str =
    "builtin_immutable_heads() | forklift_frozen_heads()";

pub const JJ_WRAPPED_IMMUTABLE_ALIAS_VALUE: &'static str =
    "forklift_base_immutable_heads() | forklift_frozen_heads()";

// ---------------------------------------------------------------------------
// Values
// ---------------------------------------------------------------------------

pub open spec fn is_ref_char(c: char) -> bool {
    text::is_alnum(c) || c == '/' || c == '-' || c == '_' || c == '.'
}

/// A plain ref name: it can be passed to `jj` and `git` and is taken for nothing but data.
pub open spec fn is_ref_component(value: Seq<char>) -> bool {
    &&& value.len() > 0
    &&& value[0] != '-'
    &&& !text::contains(value, ".."@)
    &&& forall|i: int| 0 <= i < value.len() ==> is_ref_char(#[trigger] value[i])
}

pub open spec fn ref_component_result(name: Seq<char>, value: Seq<char>) -> Result<
    Seq<char>,
    Seq<CauseView>,
> {
    if is_ref_component(value) {
        Ok(value)
    } else {
        Err(
            error::reported(
                error::cli("invalid "@ + CONFIG_PREFIX@ + "."@ + name + " value `"@ + value + "`"@).fixed_by(
                    "use a plain ref name (letters, digits, `/`, `-`, `_`, `.`; no leading `-`, whitespace, `:`, glob, or `..`)"@,
                ),
            ),
        )
    }
}

/// Accepts a configured ref component (remote, trunk, branch prefix) only if it is a plain name. A
/// value that began with `-` would be read as a flag.
pub fn validate_ref_component(name: &str, value: String) -> (r: Result<String, Error>)
    ensures
        error::res(r) == ref_component_result(name@, value@),
{
    let v = chars(&value);
    let mut valid = v.len() > 0 && v[0] != '-' && !text_contains(&value, "..");
    let mut i: usize = 0;
    while i < v.len()
        invariant
            i <= v@.len(),
            v@ == value@,
            valid == (v@.len() > 0 && v@[0] != '-' && !text::contains(v@, ".."@) && forall|k: int|
                0 <= k < i ==> is_ref_char(#[trigger] v@[k])),
        decreases v@.len() - i,
    {
        let c = v[i];
        if !(char_is_alnum(c) || c == '/' || c == '-' || c == '_' || c == '.') {
            valid = false;
            assert(!is_ref_char(v@[i as int]));
        }
        i = i + 1;
    }
    if valid {
        Ok(value)
    } else {
        Err(
            report(
                CliError::new(
                    &cat7("invalid ", CONFIG_PREFIX, ".", name, " value `", &value, "`"),
                ).resolution(
                    "use a plain ref name (letters, digits, `/`, `-`, `_`, `.`; no leading `-`, whitespace, `:`, glob, or `..`)",
                ),
            ),
        )
    }
}

pub open spec fn bool_word(value: Seq<char>) -> Option<bool> {
    let word = text::lower_all(text::trim(value));
    if word == "true"@ || word == "yes"@ || word == "on"@ || word == "1"@ {
        Some(true)
    } else if word == "false"@ || word == "no"@ || word == "off"@ || word == "0"@ {
        Some(false)
    } else {
        None
    }
}

pub open spec fn bool_config_result(name: Seq<char>, value: Seq<char>) -> Result<
    bool,
    Seq<CauseView>,
> {
    match bool_word(value) {
        Some(b) => Ok(b),
        None => Err(
            error::plain(
                "invalid boolean value for "@ + CONFIG_PREFIX@ + "."@ + name + ": "@ + value,
            ),
        ),
    }
}

pub fn parse_bool_config(name: &str, value: &str) -> (r: Result<bool, Error>)
    ensures
        error::res_of(r) == bool_config_result(name@, value@),
{
    let word = lowered(&trimmed(value));
    if same(&word, "true") || same(&word, "yes") || same(&word, "on") || same(&word, "1") {
        Ok(true)
    } else if same(&word, "false") || same(&word, "no") || same(&word, "off") || same(&word, "0") {
        Ok(false)
    } else {
        let mut message = "invalid boolean value for ".to_owned();
        message.append(CONFIG_PREFIX);
        message.append(".");
        message.append(name);
        message.append(": ");
        message.append(value);
        Err(fail(&message))
    }
}

// ---------------------------------------------------------------------------
// Looking settings up
// ---------------------------------------------------------------------------

pub open spec fn config_key(name: Seq<char>) -> Seq<char> {
    CONFIG_PREFIX@ + "."@ + name
}

pub open spec fn jj_setting_args(name: Seq<char>) -> Seq<Seq<char>> {
    seq!["config"@, "get"@, config_key(name)]
}

pub open spec fn git_setting_args(name: Seq<char>) -> Seq<Seq<char>> {
    seq!["config"@, "--get"@, config_key(name)]
}

/// The value that a configuration query answered, if it answered one.
pub open spec fn setting_answer(reply: Reply) -> Option<Seq<char>> {
    match reply {
        Ok(output) => if output.success && !text::is_blank(output.stdout) {
            Some(text::trim(output.stdout))
        } else {
            None
        },
        Err(e) => None,
    }
}

fn read_setting(reply: Result<CommandOutput, Error>) -> (r: Option<String>)
    ensures
        r.deep_view() == setting_answer(error::res(reply)),
{
    match reply {
        Ok(output) => {
            if !output.success {
                return None;
            }
            let value = trimmed(&output.stdout);
            if value.as_str().is_empty() {
                None
            } else {
                Some(value)
            }
        },
        Err(_) => None,
    }
}

/// The value of a setting in the configuration of `jj` or of `git`.
pub fn config_value<H: Host>(sh: &mut Shell<H>, program: &str, name: &str) -> (r: Option<String>)
    ensures
        program@ == "jj"@ ==> record::called(old(sh).log(), final(sh).log(), "jj"@, jj_setting_args(name@)),
        program@ == "git"@ ==> record::called(
            old(sh).log(),
            final(sh).log(),
            "git"@,
            git_setting_args(name@),
        ),
        program@ == "jj"@ || program@ == "git"@ ==> r.deep_view() == setting_answer(
            record::last_reply(final(sh).log()),
        ),
        program@ != "jj"@ && program@ != "git"@ ==> r is None && final(sh).log() == old(sh).log(),
{
    let key = cat3(CONFIG_PREFIX, ".", name);
    if same(program, "jj") {
        let args = words(&["config", "get", &key]);
        assert(args.deep_view() =~= jj_setting_args(name@));
        let reply = jj_run(sh, &args);
        proof {
            reveal_strlit("jj");
            reveal_strlit("git");
            assert("jj"@.len() != "git"@.len());
        }
        read_setting(reply)
    } else if same(program, "git") {
        let args = words(&["config", "--get", &key]);
        assert(args.deep_view() =~= git_setting_args(name@));
        let reply = git_run(sh, &args);
        read_setting(reply)
    } else {
        None
    }
}

/// The record from `before` to `after` holds the search for a setting, first with `jj` and then with
/// `git`, and the value that was found.
pub open spec fn setting_searched(
    before: Seq<Event>,
    after: Seq<Event>,
    name: Seq<char>,
    found: Option<Seq<char>>,
) -> bool {
    let n = before.len() as int;
    &&& record::extends(before, after)
    &&& after.len() > n
    &&& record::is_call(after[n], "jj"@, jj_setting_args(name))
    &&& match setting_answer(record::reply_of(after[n])) {
        Some(value) => after.len() == n + 1 && found == Some(value),
        None => {
            &&& after.len() == n + 2
            &&& record::is_call(after[n + 1], "git"@, git_setting_args(name))
            &&& found == setting_answer(record::reply_of(after[n + 1]))
        },
    }
}

fn search_setting<H: Host>(sh: &mut Shell<H>, name: &str) -> (r: Option<String>)
    ensures
        setting_searched(old(sh).log(), final(sh).log(), name@, r.deep_view()),
{
    let ghost before = sh.log();
    let ghost n = before.len() as int;
    if let Some(value) = config_value(sh, "jj", name) {
        assert(sh.log().take(n) =~= before);
        return Some(value);
    }
    let ghost mid = sh.log();
    assert(mid.take(n) =~= before);
    let r = config_value(sh, "git", name);
    proof {
        assert(sh.log().take(n) =~= before);
        assert(sh.log()[n] == sh.log().drop_last()[n]);
    }
    r
}

pub fn resolve_string_config<H: Host>(sh: &mut Shell<H>, name: &str, default: &str) -> (r: String)
    ensures
        exists|found: Option<Seq<char>>|
            {
                &&& #[trigger] setting_searched(old(sh).log(), final(sh).log(), name@, found)
                &&& r@ == match found {
                    Some(value) => value,
                    None => default@,
                }
            },
{
    let found = search_setting(sh, name);
    let ghost seen = found.deep_view();
    assert(setting_searched(old(sh).log(), sh.log(), name@, seen));
    match found {
        Some(value) => value,
        None => default.to_owned(),
    }
}

pub fn resolve_bool_config<H: Host>(sh: &mut Shell<H>, name: &str, default: bool) -> (r: Result<
    bool,
    Error,
>)
    ensures
        exists|found: Option<Seq<char>>|
            {
                &&& #[trigger] setting_searched(old(sh).log(), final(sh).log(), name@, found)
                &&& error::res_of(r) == match found {
                    Some(value) => bool_config_result(name@, value),
                    None => Ok(default),
                }
            },
{
    let found = search_setting(sh, name);
    let ghost seen = found.deep_view();
    assert(setting_searched(old(sh).log(), sh.log(), name@, seen));
    match found {
        Some(value) => parse_bool_config(name, &value),
        None => Ok(default),
    }
}

/// The value of a search, or the default.
pub open spec fn or_default(found: Option<Seq<char>>, default: Seq<char>) -> Seq<char> {
    match found {
        Some(value) => value,
        None => default,
    }
}

/// The configuration that four searches give. The approval setting is only searched when the remote
/// and the trunk are plain names.
pub open spec fn config_result(
    remote: Option<Seq<char>>,
    trunk: Option<Seq<char>>,
    prefix: Option<Seq<char>>,
    approval: Option<Seq<char>>,
) -> Result<AppConfigView, Seq<CauseView>> {
    let remote = or_default(remote, DEFAULT_REMOTE@);
    let trunk = or_default(trunk, DEFAULT_TRUNK@);
    let prefix = or_default(prefix, DEFAULT_BRANCH_PREFIX@);
    match ref_component_result("remote"@, remote) {
        Err(e) => Err(e),
        Ok(remote) => match ref_component_result("trunk"@, trunk) {
            Err(e) => Err(e),
            Ok(trunk) => {
                let approved = match approval {
                    Some(value) => bool_config_result("require-approval"@, value),
                    None => Ok(DEFAULT_REQUIRE_APPROVAL),
                };
                match approved {
                    Err(e) => Err(e),
                    Ok(require_approval) => match ref_component_result("branch-prefix"@, prefix) {
                        Err(e) => Err(e),
                        Ok(branch_prefix) => Ok(
                            AppConfigView { remote, trunk, require_approval, branch_prefix },
                        ),
                    },
                }
            },
        },
    }
}

/// The record from `before` to `after` holds the searches for the four settings.
pub open spec fn config_searched(
    before: Seq<Event>,
    a: Seq<Event>,
    b: Seq<Event>,
    c: Seq<Event>,
    after: Seq<Event>,
    remote: Option<Seq<char>>,
    trunk: Option<Seq<char>>,
    prefix: Option<Seq<char>>,
    approval: Option<Seq<char>>,
) -> bool {
    &&& setting_searched(before, a, "remote"@, remote)
    &&& setting_searched(a, b, "trunk"@, trunk)
    &&& setting_searched(b, c, "branch-prefix"@, prefix)
    &&& if is_ref_component(or_default(remote, DEFAULT_REMOTE@)) && is_ref_component(
        or_default(trunk, DEFAULT_TRUNK@),
    ) {
        setting_searched(c, after, "require-approval"@, approval)
    } else {
        after == c && approval is None
    }
}

/// The record from `before` to `after` holds how the configuration is resolved.
pub open spec fn config_resolved(
    before: Seq<Event>,
    after: Seq<Event>,
    r: Result<AppConfigView, Seq<CauseView>>,
) -> bool {
    exists|
        a: Seq<Event>,
        b: Seq<Event>,
        c: Seq<Event>,
        remote: Option<Seq<char>>,
        trunk: Option<Seq<char>>,
        prefix: Option<Seq<char>>,
        approval: Option<Seq<char>>,
    |
        {
            &&& #[trigger] config_searched(
                before,
                a,
                b,
                c,
                after,
                remote,
                trunk,
                prefix,
                approval,
            )
            &&& r == config_result(remote, trunk, prefix, approval)
        }
}

impl AppConfig {
    pub fn resolve<H: Host>(sh: &mut Shell<H>) -> (r: Result<AppConfig, Error>)
        ensures
            config_resolved(old(sh).log(), final(sh).log(), error::res(r)),
            r matches Ok(config) ==> is_ref_component(config.remote@) && is_ref_component(
                config.trunk@,
            ) && is_ref_component(config.branch_prefix@),
    {
        let ghost start = sh.log();
        let found_remote = search_setting(sh, "remote");
        let ghost a = sh.log();
        let found_trunk = search_setting(sh, "trunk");
        let ghost b = sh.log();
        let found_prefix = search_setting(sh, "branch-prefix");
        let ghost c = sh.log();
        let ghost f = (found_remote.deep_view(), found_trunk.deep_view(), found_prefix.deep_view());
        let remote = match found_remote {
            Some(value) => value,
            None => DEFAULT_REMOTE.to_owned(),
        };
        let trunk = match found_trunk {
            Some(value) => value,
            None => DEFAULT_TRUNK.to_owned(),
        };
        let prefix = match found_prefix {
            Some(value) => value,
            None => DEFAULT_BRANCH_PREFIX.to_owned(),
        };
        let remote = match validate_ref_component("remote", remote) {
            Ok(remote) => remote,
            Err(error) => {
                assert(config_searched(start, a, b, c, c, f.0, f.1, f.2, None));
                return Err(error);
            },
        };
        let trunk = match validate_ref_component("trunk", trunk) {
            Ok(trunk) => trunk,
            Err(error) => {
                assert(config_searched(start, a, b, c, c, f.0, f.1, f.2, None));
                return Err(error);
            },
        };
        let found = search_setting(sh, "require-approval");
        let ghost approval = found.deep_view();
        assert(config_searched(start, a, b, c, sh.log(), f.0, f.1, f.2, approval));
        let require_approval = match found {
            Some(value) => match parse_bool_config("require-approval", &value) {
                Ok(b) => b,
                Err(error) => {
                    return Err(error);
                },
            },
            None => DEFAULT_REQUIRE_APPROVAL,
        };
        let branch_prefix = match validate_ref_component("branch-prefix", prefix) {
            Ok(prefix) => prefix,
            Err(error) => {
                return Err(error);
            },
        };
        Ok(AppConfig { remote, trunk, require_approval, branch_prefix })
    }
}

// ---------------------------------------------------------------------------
// Startup
// ---------------------------------------------------------------------------

/// What `jj root` says of the current directory.
pub open spec fn jj_repo_result(cwd: Seq<char>, reply: Reply) -> Result<(), Seq<CauseView>> {
    match reply {
        Err(e) => Err(e),
        Ok(output) => if output.success {
            Ok(())
        } else {
            Err(
                error::reported(
                    error::cli("not inside a jj repository (cwd="@ + cwd + ")"@).fixed_by(
                        "run from within your repo, or initialize one with `jj git init --colocate`"@,
                    ),
                ),
            )
        },
    }
}

/// Fails unless the current directory is inside a jj repository.
pub fn ensure_jj_repo<H: Host>(sh: &mut Shell<H>, cwd: &str) -> (r: Result<(), Error>)
    ensures
        record::called(old(sh).log(), final(sh).log(), "jj"@, seq!["root"@]),
        error::res_of(r) == jj_repo_result(cwd@, record::last_reply(final(sh).log())),
{
    let args = words(&["root"]);
    assert(args.deep_view() =~= seq!["root"@]);
    let reply = jj_run(sh, &args);
    match reply {
        Err(error) => Err(error),
        Ok(output) => if output.success {
            Ok(())
        } else {
            Err(
                report(
                    CliError::new(&cat3("not inside a jj repository (cwd=", cwd, ")")).resolution(
                        "run from within your repo, or initialize one with `jj git init --colocate`",
                    ),
                ),
            )
        },
    }
}

pub open spec fn config_get_args(key: Seq<char>) -> Seq<Seq<char>> {
    seq!["config"@, "get"@, key]
}

/// A failed command with the next safe step.
pub open spec fn failed_config(args: Seq<Seq<char>>, stderr: Seq<char>) -> Seq<CauseView> {
    error::plain(
        "failed-command=`"@ + output::shown("jj"@, args) + "` error="@ + text::trim(stderr)
            + " safe-next-command=`forklift submit --dry-run`"@,
    )
}

fn config_failure(args: &Vec<String>, stderr: &str) -> (r: Error)
    ensures
        r@ == failed_config(args.deep_view(), stderr@),
{
    let mut message = "failed-command=`".to_owned();
    message.append(&display_command("jj", args));
    message.append("` error=");
    message.append(&trimmed(stderr));
    message.append(" safe-next-command=`forklift submit --dry-run`");
    fail(&message)
}

pub open spec fn required_alias(key: Seq<char>, reply: Reply) -> Result<Seq<char>, Seq<CauseView>> {
    match reply {
        Err(e) => Err(e),
        Ok(output) => if output.success {
            Ok(text::trim(output.stdout))
        } else {
            Err(failed_config(config_get_args(key), output.stderr))
        },
    }
}

pub fn jj_config_required<H: Host>(sh: &mut Shell<H>, key: &str) -> (r: Result<String, Error>)
    ensures
        record::called(old(sh).log(), final(sh).log(), "jj"@, config_get_args(key@)),
        error::res(r) == required_alias(key@, record::last_reply(final(sh).log())),
{
    let args = words(&["config", "get", key]);
    assert(args.deep_view() =~= config_get_args(key@));
    let reply = jj_run(sh, &args);
    match reply {
        Err(error) => Err(error),
        Ok(output) => if output.success {
            Ok(trimmed(&output.stdout))
        } else {
            Err(config_failure(&args, &output.stderr))
        },
    }
}

pub open spec fn optional_alias(reply: Reply) -> Result<Option<Seq<char>>, Seq<CauseView>> {
    match reply {
        Err(e) => Err(e),
        Ok(output) => Ok(
            if output.success && !text::is_blank(output.stdout) {
                Some(text::trim(output.stdout))
            } else {
                None
            },
        ),
    }
}

pub fn jj_config_optional<H: Host>(sh: &mut Shell<H>, key: &str) -> (r: Result<
    Option<String>,
    Error,
>)
    ensures
        record::called(old(sh).log(), final(sh).log(), "jj"@, config_get_args(key@)),
        error::res(r) == optional_alias(record::last_reply(final(sh).log())),
{
    let args = words(&["config", "get", key]);
    assert(args.deep_view() =~= config_get_args(key@));
    let reply = jj_run(sh, &args);
    match reply {
        Err(error) => Err(error),
        Ok(output) => {
            let value = trimmed(&output.stdout);
            if output.success && !value.as_str().is_empty() {
                Ok(Some(value))
            } else {
                Ok(None)
            }
        },
    }
}

pub open spec fn config_action(key: Seq<char>, value: Seq<char>) -> StartupConfigActionView {
    StartupConfigActionView { key, value }
}

/// What the frozen alias needs.
pub open spec fn frozen_alias_plan(frozen: Option<Seq<char>>) -> Result<
    Seq<StartupConfigActionView>,
    Seq<CauseView>,
> {
    match frozen {
        None => Ok(seq![config_action(JJ_CONFIG_FROZEN_ALIAS_KEY@, JJ_FROZEN_ALIAS_VALUE@)]),
        Some(value) => if value == JJ_FROZEN_ALIAS_VALUE@ {
            Ok(seq![])
        } else {
            Err(
                error::reported(
                    error::cli(
                        "repo config `"@ + JJ_CONFIG_FROZEN_ALIAS_KEY@ + "` is `"@ + value
                            + "`, expected `"@ + JJ_FROZEN_ALIAS_VALUE@ + "`"@,
                    ),
                ),
            )
        },
    }
}

/// What the immutable alias needs.
pub open spec fn immutable_alias_plan(immutable: Seq<char>, base: Option<Seq<char>>) -> Result<
    Seq<StartupConfigActionView>,
    Seq<CauseView>,
> {
    if immutable == JJ_DEFAULT_IMMUTABLE_ALIAS_VALUE@ {
        Ok(
            seq![
                config_action(JJ_CONFIG_IMMUTABLE_ALIAS_KEY@, JJ_REQUIRED_IMMUTABLE_ALIAS_VALUE@),
            ],
        )
    } else if immutable == JJ_REQUIRED_IMMUTABLE_ALIAS_VALUE@ {
        Ok(seq![])
    } else if immutable == JJ_WRAPPED_IMMUTABLE_ALIAS_VALUE@ {
        if base is None {
            Err(
                error::reported(
                    error::cli(
                        "repo config `"@ + JJ_CONFIG_IMMUTABLE_ALIAS_KEY@ + "` wraps `"@
                            + JJ_CONFIG_BASE_IMMUTABLE_ALIAS_KEY@
                            + "`, but the base alias is missing"@,
                    ),
                ),
            )
        } else {
            Ok(seq![])
        }
    } else if text::contains(immutable, "forklift_frozen_heads()"@) {
        Ok(seq![])
    } else {
        match base {
            None => Ok(
                seq![
                    config_action(JJ_CONFIG_BASE_IMMUTABLE_ALIAS_KEY@, immutable),
                    config_action(
                        JJ_CONFIG_IMMUTABLE_ALIAS_KEY@,
                        JJ_WRAPPED_IMMUTABLE_ALIAS_VALUE@,
                    ),
                ],
            ),
            Some(existing) => Err(
                error::reported(
                    error::cli(
                        "repo config `"@ + JJ_CONFIG_IMMUTABLE_ALIAS_KEY@ + "` is custom (`"@
                            + immutable + "`), but `"@ + JJ_CONFIG_BASE_IMMUTABLE_ALIAS_KEY@
                            + "` already exists as `"@ + existing + "`"@,
                    ),
                ),
            ),
        }
    }
}

/// Everything that the aliases need.
pub open spec fn startup_plan(
    frozen: Option<Seq<char>>,
    immutable: Seq<char>,
    base: Option<Seq<char>>,
) -> Result<Seq<StartupConfigActionView>, Seq<CauseView>> {
    match frozen_alias_plan(frozen) {
        Err(e) => Err(e),
        Ok(first) => match immutable_alias_plan(immutable, base) {
            Err(e) => Err(e),
            Ok(second) => Ok(first + second),
        },
    }
}

fn make_action(key: &str, value: &str) -> (r: StartupConfigAction)
    ensures
        r@ == config_action(key@, value@),
{
    StartupConfigAction { key: key.to_owned(), value: value.to_owned() }
}

/// The repository settings that make frozen bookmarks immutable, given what is configured. A custom
/// immutable alias is kept under the base alias and wrapped.
pub fn plan_startup_config(
    frozen: &Option<String>,
    immutable: &str,
    base: &Option<String>,
) -> (r: Result<Vec<StartupConfigAction>, Error>)
    ensures
        error::res(r) == startup_plan(frozen.deep_view(), immutable@, base.deep_view()),
{
    let mut actions: Vec<StartupConfigAction> = Vec::new();
    match frozen {
        Some(value) => if !same(value, JJ_FROZEN_ALIAS_VALUE) {
            return Err(
                report(
                    CliError::new(
                        &cat7(
                            "repo config `",
                            JJ_CONFIG_FROZEN_ALIAS_KEY,
                            "` is `",
                            value,
                            "`, expected `",
                            JJ_FROZEN_ALIAS_VALUE,
                            "`",
                        ),
                    ),
                ),
            );
        },
        None => {
            actions.push(make_action(JJ_CONFIG_FROZEN_ALIAS_KEY, JJ_FROZEN_ALIAS_VALUE));
        },
    }
    let ghost first = actions.deep_view();
    assert(frozen_alias_plan(frozen.deep_view())->Ok_0 =~= first);
    if same(immutable, JJ_DEFAULT_IMMUTABLE_ALIAS_VALUE) {
        actions.push(
            make_action(JJ_CONFIG_IMMUTABLE_ALIAS_KEY, JJ_REQUIRED_IMMUTABLE_ALIAS_VALUE),
        );
    } else if same(immutable, JJ_REQUIRED_IMMUTABLE_ALIAS_VALUE) {
    } else if same(immutable, JJ_WRAPPED_IMMUTABLE_ALIAS_VALUE) {
        if base.is_none() {
            return Err(
                report(
                    CliError::new(
                        &cat5(
                            "repo config `",
                            JJ_CONFIG_IMMUTABLE_ALIAS_KEY,
                            "` wraps `",
                            JJ_CONFIG_BASE_IMMUTABLE_ALIAS_KEY,
                            "`, but the base alias is missing",
                        ),
                    ),
                ),
            );
        }
    } else if text_contains(immutable, "forklift_frozen_heads()") {
    } else {
        match base {
            None => {
                actions.push(make_action(JJ_CONFIG_BASE_IMMUTABLE_ALIAS_KEY, immutable));
                actions.push(
                    make_action(JJ_CONFIG_IMMUTABLE_ALIAS_KEY, JJ_WRAPPED_IMMUTABLE_ALIAS_VALUE),
                );
            },
            Some(existing) => {
                let mut message = cat5(
                    "repo config `",
                    JJ_CONFIG_IMMUTABLE_ALIAS_KEY,
                    "` is custom (`",
                    immutable,
                    "`), but `",
                );
                message.append(JJ_CONFIG_BASE_IMMUTABLE_ALIAS_KEY);
                message.append("` already exists as `");
                message.append(existing);
                message.append("`");
                return Err(report(CliError::new(&message)));
            },
        }
    }
    assert(actions.deep_view() =~= first + immutable_alias_plan(
        immutable@,
        base.deep_view(),
    )->Ok_0);
    Ok(actions)
}

/// The value of an alias after these actions.
pub open spec fn alias_after(
    current: Option<Seq<char>>,
    key: Seq<char>,
    actions: Seq<StartupConfigActionView>,
) -> Option<Seq<char>>
    decreases actions.len(),
{
    if actions.len() == 0 {
        current
    } else if actions.last().key == key {
        Some(actions.last().value)
    } else {
        alias_after(current, key, actions.drop_last())
    }
}

/// Once its actions are carried out, the startup plan asks for nothing more.
pub proof fn law_startup_plan_settles(
    frozen: Option<Seq<char>>,
    immutable: Seq<char>,
    base: Option<Seq<char>>,
)
    requires
        startup_plan(frozen, immutable, base) is Ok,
    ensures
        ({
            let actions = startup_plan(frozen, immutable, base)->Ok_0;
            startup_plan(
                alias_after(frozen, JJ_CONFIG_FROZEN_ALIAS_KEY@, actions),
                alias_after(Some(immutable), JJ_CONFIG_IMMUTABLE_ALIAS_KEY@, actions)->0,
                alias_after(base, JJ_CONFIG_BASE_IMMUTABLE_ALIAS_KEY@, actions),
            ) == Ok::<_, Seq<CauseView>>(Seq::<StartupConfigActionView>::empty())
        }),
{
    reveal_strlit("revset-aliases.\"forklift_frozen_heads()\"");
    reveal_strlit("revset-aliases.\"immutable_heads()\"");
    reveal_strlit("revset-aliases.\"forklift_base_immutable_heads()\"");
    reveal_strlit("builtin_immutable_heads()");
    reveal_strlit("builtin_immutable_heads() | forklift_frozen_heads()");
    reveal_strlit("forklift_base_immutable_heads() | forklift_frozen_heads()");
    reveal_with_fuel(alias_after, 5);
    let actions = startup_plan(frozen, immutable, base)->Ok_0;
    let first = frozen_alias_plan(frozen)->Ok_0;
    let second = immutable_alias_plan(immutable, base)->Ok_0;
    if actions.len() > 0 {
        assert(actions.drop_last() =~= first + second.take(second.len() - 1) || second.len() == 0);
    }
    assert(alias_after(frozen, JJ_CONFIG_FROZEN_ALIAS_KEY@, actions) == Some(
        JJ_FROZEN_ALIAS_VALUE@,
    ));
}

pub open spec fn config_set_args(key: Seq<char>, quoted: Seq<char>) -> Seq<Seq<char>> {
    seq!["config"@, "set"@, "--repo"@, key, quoted]
}

/// The record from `before` to `after` holds the write of one setting, which ended with `r`.
pub open spec fn setting_written(
    before: Seq<Event>,
    after: Seq<Event>,
    key: Seq<char>,
    value: Seq<char>,
    r: Result<(), Seq<CauseView>>,
) -> bool {
    let args = config_set_args(key, outside::json_quoted(value));
    &&& record::called(before, after, "jj"@, args)
    &&& r == match record::last_reply(after) {
        Err(e) => Err(e),
        Ok(output) => if output.success {
            Ok(())
        } else {
            Err(failed_config(args, output.stderr))
        },
    }
}

pub fn set_jj_repo_config<H: Host>(sh: &mut Shell<H>, key: &str, value: &str) -> (r: Result<
    (),
    Error,
>)
    ensures
        setting_written(old(sh).log(), final(sh).log(), key@, value@, error::res_of(r)),
{
    let quoted = match quote_json(value) {
        Ok(quoted) => quoted,
        Err(error) => {
            return Err(fail(&error).context("quote jj config value"));
        },
    };
    let args = words(&["config", "set", "--repo", key, &quoted]);
    assert(args.deep_view() =~= config_set_args(key@, quoted@));
    let reply = jj_run(sh, &args);
    match reply {
        Err(error) => Err(error),
        Ok(output) => if output.success {
            Ok(())
        } else {
            Err(config_failure(&args, &output.stderr))
        },
    }
}

pub open spec fn action_line(action: StartupConfigActionView) -> Seq<char> {
    "- set repo jj config "@ + action.key + " = "@ + action.value
}

/// The record from `before` to `after` holds the first `done` of these actions, each written with
/// success, and if that is not all of them the one that failed.
pub open spec fn actions_written(
    before: Seq<Event>,
    after: Seq<Event>,
    actions: Seq<StartupConfigActionView>,
    r: Result<(), Seq<CauseView>>,
) -> bool
    decreases actions.len(),
{
    if actions.len() == 0 {
        after == before && r == Ok::<(), Seq<CauseView>>(())
    } else {
        exists|mid: Seq<Event>, first: Result<(), Seq<CauseView>>|
            {
                &&& #[trigger] setting_written(
                    before,
                    mid,
                    actions[0].key,
                    actions[0].value,
                    first,
                )
                &&& match first {
                    Err(e) => after == mid && r == Err::<(), _>(e),
                    Ok(u) => actions_written(mid, after, actions.drop_first(), r),
                }
            }
    }
}

fn write_actions<H: Host>(sh: &mut Shell<H>, actions: &Vec<StartupConfigAction>, from: usize) -> (r:
    Result<(), Error>)
    requires
        from <= actions@.len(),
    ensures
        actions_written(
            old(sh).log(),
            final(sh).log(),
            actions.deep_view().skip(from as int),
            error::res_of(r),
        ),
    decreases actions@.len() - from,
{
    let ghost rest = actions.deep_view().skip(from as int);
    if from == actions.len() {
        return Ok(());
    }
    let ghost start = sh.log();
    let first = set_jj_repo_config(sh, &actions[from].key, &actions[from].value);
    assert(setting_written(start, sh.log(), rest[0].key, rest[0].value, error::res_of(first)));
    match first {
        Err(error) => Err(error),
        Ok(_) => {
            assert(rest.drop_first() =~= actions.deep_view().skip(from + 1));
            write_actions(sh, actions, from + 1)
        },
    }
}

fn show_actions<H: Host>(
    sh: &mut Shell<H>,
    actions: &Vec<StartupConfigAction>,
    diagnostics: Diagnostics,
)
    requires
        diagnostics.dry_run,
    ensures
        final(sh).log() == old(sh).log() + actions.deep_view().map_values(
            |a: StartupConfigActionView| Event::Said(LineView::Info(action_line(a))),
        ),
{
    let ghost start = sh.log();
    let ghost lines = actions.deep_view().map_values(
        |a: StartupConfigActionView| Event::Said(LineView::Info(action_line(a))),
    );
    let mut i: usize = 0;
    while i < actions.len()
        invariant
            i <= actions@.len(),
            diagnostics.dry_run,
            lines == actions.deep_view().map_values(
                |a: StartupConfigActionView| Event::Said(LineView::Info(action_line(a))),
            ),
            sh.log() == start + lines.take(i as int),
        decreases actions@.len() - i,
    {
        let mut line = "- set repo jj config ".to_owned();
        line.append(&actions[i].key);
        line.append(" = ");
        line.append(&actions[i].value);
        diagnostics.plan_line(sh, &line);
        i = i + 1;
        assert(sh.log() =~= start + lines.take(i as int));
    }
    assert(lines.take(i as int) =~= lines);
}

/// The record from `before` to `mid` holds the three queries for the aliases, up to the first one
/// that failed; `plan` is what they call for.
pub open spec fn aliases_queried(
    before: Seq<Event>,
    after: Seq<Event>,
    plan: Result<Seq<StartupConfigActionView>, Seq<CauseView>>,
) -> bool {
    let n = before.len() as int;
    &&& record::extends(before, after)
    &&& after.len() > n
    &&& record::is_call(after[n], "jj"@, config_get_args(JJ_CONFIG_FROZEN_ALIAS_KEY@))
    &&& match optional_alias(record::reply_of(after[n])) {
        Err(e) => after.len() == n + 1 && plan == Err::<Seq<StartupConfigActionView>, _>(e),
        Ok(frozen) => {
            &&& after.len() > n + 1
            &&& record::is_call(after[n + 1], "jj"@, config_get_args(JJ_CONFIG_IMMUTABLE_ALIAS_KEY@))
            &&& match required_alias(JJ_CONFIG_IMMUTABLE_ALIAS_KEY@, record::reply_of(after[n + 1])) {
                Err(e) => after.len() == n + 2 && plan == Err::<Seq<StartupConfigActionView>, _>(e),
                Ok(immutable) => {
                    &&& after.len() == n + 3
                    &&& record::is_call(
                        after[n + 2],
                        "jj"@,
                        config_get_args(JJ_CONFIG_BASE_IMMUTABLE_ALIAS_KEY@),
                    )
                    &&& match optional_alias(record::reply_of(after[n + 2])) {
                        Err(e) => plan == Err::<Seq<StartupConfigActionView>, _>(e),
                        Ok(base) => plan == startup_plan(frozen, immutable, base),
                    }
                },
            }
        },
    }
}

fn query_aliases<H: Host>(sh: &mut Shell<H>) -> (r: Result<Vec<StartupConfigAction>, Error>)
    ensures
        aliases_queried(old(sh).log(), final(sh).log(), error::res(r)),
{
    let ghost start = sh.log();
    let ghost n = start.len() as int;
    let first = jj_config_optional(sh, JJ_CONFIG_FROZEN_ALIAS_KEY);
    let ghost a = sh.log();
    assert(a.take(n) =~= start);
    let frozen = match first {
        Ok(frozen) => frozen,
        Err(error) => {
            return Err(error);
        },
    };
    let second = jj_config_required(sh, JJ_CONFIG_IMMUTABLE_ALIAS_KEY);
    let ghost b = sh.log();
    assert(b.take(n) =~= start);
    assert(b[n] == b.drop_last()[n]);
    let immutable = match second {
        Ok(immutable) => immutable,
        Err(error) => {
            return Err(error);
        },
    };
    let third = jj_config_optional(sh, JJ_CONFIG_BASE_IMMUTABLE_ALIAS_KEY);
    let ghost c = sh.log();
    assert(c.take(n) =~= start);
    assert(c[n] == c.drop_last()[n]);
    assert(c[n + 1] == c.drop_last()[n + 1]);
    match third {
        Ok(base) => plan_startup_config(&frozen, &immutable, &base),
        Err(error) => Err(error),
    }
}

/// The record from `before` to `after` holds how jj is given the aliases that it needs. A dry run only
/// shows what it would set.
pub open spec fn startup_ensured(
    before: Seq<Event>,
    after: Seq<Event>,
    dry_run: bool,
    r: Result<(), Seq<CauseView>>,
) -> bool {
    exists|mid: Seq<Event>, plan: Result<Seq<StartupConfigActionView>, Seq<CauseView>>|
        {
            &&& #[trigger] aliases_queried(before, mid, plan)
            &&& match plan {
                Err(e) => record::stopped(mid, after, e, r),
                Ok(actions) => if dry_run {
                    &&& r is Ok
                    &&& after == mid + actions.map_values(
                        |a: StartupConfigActionView| Event::Said(LineView::Info(action_line(a))),
                    )
                } else {
                    actions_written(mid, after, actions, r)
                },
            }
        }
}

pub fn ensure_startup_config<H: Host>(sh: &mut Shell<H>, diagnostics: Diagnostics) -> (r: Result<
    (),
    Error,
>)
    ensures
        startup_ensured(old(sh).log(), final(sh).log(), diagnostics.dry_run, error::res_of(r)),
{
    let planned = query_aliases(sh);
    let ghost mid = sh.log();
    let ghost plan = error::res(planned);
    assert(aliases_queried(old(sh).log(), mid, plan));
    match planned {
        Err(error) => Err(error),
        Ok(actions) => {
            if diagnostics.dry_run {
                show_actions(sh, &actions, diagnostics);
                Ok(())
            } else {
                assert(actions.deep_view().skip(0) =~= actions.deep_view());
                write_actions(sh, &actions, 0)
            }
        },
    }
}

} // verus!
