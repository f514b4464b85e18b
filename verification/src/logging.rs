//! Where the trace of a run goes.

use vstd::prelude::*;

use crate::config::CONFIG_PREFIX;
use crate::paths;
use crate::paths::{PathStyle, join_path};
use crate::text;
use crate::text::{cat5, lowered, number_text, same, trimmed};

verus! {

/// The value of a switch says no.
pub open spec fn says_no(value: Seq<char>) -> bool {
    let word = text::lower_all(text::trim(value));
    word == ""@ || word == "0"@ || word == "false"@ || word == "no"@ || word == "off"@
}

pub fn is_false_env_value(value: &str) -> (r: bool)
    ensures
        r == says_no(value@),
{
    let word = lowered(&trimmed(value));
    same(&word, "") || same(&word, "0") || same(&word, "false") || same(&word, "no") || same(
        &word,
        "off",
    )
}

/// The value of a switch says yes.
pub open spec fn says_yes(value: Seq<char>) -> bool {
    let word = text::lower_all(text::trim(value));
    word == "1"@ || word == "true"@ || word == "yes"@ || word == "on"@
}

pub fn is_true_env_value(value: &str) -> (r: bool)
    ensures
        r == says_yes(value@),
{
    let word = lowered(&trimmed(value));
    same(&word, "1") || same(&word, "true") || same(&word, "yes") || same(&word, "on")
}

/// Whether a trace file is written: unless the switch is set and says no.
pub fn file_logging_enabled(value: Option<&str>) -> (r: bool)
    ensures
        r == match value.deep_view() {
            Some(value) => !says_no(value),
            None => true,
        },
{
    match value {
        Some(value) => !is_false_env_value(value),
        None => true,
    }
}

/// What is traced to the standard error.
#[derive(Clone, Copy, PartialEq, Eq, Structural)]
pub enum StderrTrace {
    /// Nothing.
    Off,
    /// What is traced by default.
    Usual,
    /// What the value of the switch selects.
    Selected,
}

/// What the switch for the standard error asks for.
pub open spec fn stderr_trace(value: Option<Seq<char>>) -> StderrTrace {
    match value {
        None => StderrTrace::Off,
        Some(value) => if says_no(value) {
            StderrTrace::Off
        } else if says_yes(value) {
            StderrTrace::Usual
        } else {
            StderrTrace::Selected
        },
    }
}

pub fn stderr_filter(value: Option<&str>) -> (r: StderrTrace)
    ensures
        r == stderr_trace(value.deep_view()),
{
    match value {
        None => StderrTrace::Off,
        Some(value) => {
            if is_false_env_value(value) {
                StderrTrace::Off
            } else if is_true_env_value(value) {
                StderrTrace::Usual
            } else {
                StderrTrace::Selected
            }
        },
    }
}

/// The name of a trace file: when the run began, which process it is, and which command it runs.
pub fn debug_log_filename(timestamp_ms: u64, process_id: u64, command_name: &str) -> (r: String)
    ensures
        r@ == text::decimal(timestamp_ms as nat) + "-"@ + text::decimal(process_id as nat) + "-"@
            + command_name@ + ".log"@,
{
    let mut name = cat5(
        &number_text(timestamp_ms),
        "-",
        &number_text(process_id),
        "-",
        command_name,
    );
    name.append(".log");
    name
}

/// Where trace files go: into the repository, where there is one, else into the state directory of the
/// user.
pub open spec fn log_dir(
    style: PathStyle,
    repo_dir: Option<Seq<char>>,
    state_home: Seq<char>,
) -> Seq<char> {
    let home = match repo_dir {
        Some(dir) => paths::path_below(style, dir, CONFIG_PREFIX@),
        None => paths::path_below(style, state_home, "forklift"@),
    };
    paths::path_below(style, home, "logs"@)
}

pub fn debug_log_dir(style: PathStyle, repo_dir: Option<&str>, state_home: &str) -> (r: String)
    ensures
        r@ == log_dir(style, repo_dir.deep_view(), state_home@),
{
    let home = match repo_dir {
        Some(dir) => join_path(style, dir, CONFIG_PREFIX),
        None => join_path(style, state_home, "forklift"),
    };
    join_path(style, &home, "logs")
}

/// The law of the switches: no value says both yes and no.
pub proof fn law_no_switch_says_both(value: Seq<char>)
    ensures
        !(says_yes(value) && says_no(value)),
{
    reveal_strlit("");
    reveal_strlit("0");
    reveal_strlit("1");
    reveal_strlit("no");
    reveal_strlit("on");
    reveal_strlit("off");
    reveal_strlit("yes");
    reveal_strlit("true");
    reveal_strlit("false");
    let word = text::lower_all(text::trim(value));
    assert(says_no(value) ==> word.len() == 0 || word[0] == '0' || word[0] == 'f' || word[0] == 'n'
        || (word[0] == 'o' && word[1] == 'f'));
    assert(says_yes(value) ==> word.len() > 0 && (word[0] == '1' || word[0] == 't' || word[0] == 'y'
        || (word[0] == 'o' && word[1] == 'n')));
}

} // verus!
