//! The calls into other crates. What each promises is stated here and nowhere proved.

use vstd::prelude::*;

use owo_colors::OwoColorize;
use unicode_normalization::UnicodeNormalization;

verus! {

/// What `serde_json::from_str::<String>` makes of a text: the string, or its error message.
pub uninterp spec fn json_string(text: Seq<char>) -> Result<Seq<char>, Seq<char>>;

/// What `serde_json::from_str::<Vec<String>>` makes of a text: the strings, or its error message.
pub uninterp spec fn json_strings(text: Seq<char>) -> Result<Seq<Seq<char>>, Seq<char>>;

/// What `serde_json::from_str::<bool>` makes of a text: the value, or its error message.
pub uninterp spec fn json_bool(text: Seq<char>) -> Result<bool, Seq<char>>;

/// What `serde_json::from_str::<Vec<serde_json::Value>>` makes of a text: the elements of the array,
/// each as a JSON text, or its error message.
pub uninterp spec fn json_array(text: Seq<char>) -> Result<Seq<Seq<char>>, Seq<char>>;

/// The canonical decomposition (normalization form D) of a text.
pub uninterp spec fn decomposed(text: Seq<char>) -> Seq<char>;

/// `serde_json::from_str::<String>`: reads one JSON string. The result depends on the text alone.
#[verifier::external_body]
pub(crate) fn read_json_string(text: &str) -> (r: Result<String, String>)
    ensures
        (match r {
            Ok(s) => Ok(s@),
            Err(e) => Err(e@),
        }) == json_string(text@),
{
    serde_json::from_str::<String>(text).map_err(|error| error.to_string())
}

/// `serde_json::from_str::<Vec<String>>`: reads a JSON array of strings. The result depends on the
/// text alone.
#[verifier::external_body]
pub(crate) fn read_json_strings(text: &str) -> (r: Result<Vec<String>, String>)
    ensures
        (match r {
            Ok(v) => Ok(v.deep_view()),
            Err(e) => Err(e@),
        }) == json_strings(text@),
{
    serde_json::from_str::<Vec<String>>(text).map_err(|error| error.to_string())
}

/// `serde_json::from_str::<bool>`: reads a JSON boolean. The result depends on the text alone.
#[verifier::external_body]
pub(crate) fn read_json_bool(text: &str) -> (r: Result<bool, String>)
    ensures
        (match r {
            Ok(b) => Ok(b),
            Err(e) => Err(e@),
        }) == json_bool(text@),
{
    serde_json::from_str::<bool>(text).map_err(|error| error.to_string())
}

/// `serde_json::from_str::<Vec<serde_json::Value>>`: reads a JSON array of anything; each value that
/// comes back is turned into its JSON text. The result depends on the text alone.
#[verifier::external_body]
pub(crate) fn read_json_array(text: &str) -> (r: Result<Vec<String>, String>)
    ensures
        (match r {
            Ok(v) => Ok(v.deep_view()),
            Err(e) => Err(e@),
        }) == json_array(text@),
{
    match serde_json::from_str::<Vec<serde_json::Value>>(text) {
        Ok(values) => Ok(values.iter().map(|value| value.to_string()).collect::<Vec<String>>()),
        Err(error) => Err(error.to_string()),
    }
}

/// How a character stands in a JSON string: the quote, the backslash and the control characters are
/// escaped, every other stands for itself.
pub open spec fn json_escaped(c: char) -> Seq<char> {
    if c == '"' || c == '\\' {
        seq!['\\', c]
    } else if c == '\x08' {
        seq!['\\', 'b']
    } else if c == '\t' {
        seq!['\\', 't']
    } else if c == '\n' {
        seq!['\\', 'n']
    } else if c == '\x0c' {
        seq!['\\', 'f']
    } else if c == '\r' {
        seq!['\\', 'r']
    } else if (c as int) < 0x20 {
        let digits = "0123456789abcdef"@;
        seq!['\\', 'u', '0', '0', digits[(c as int) / 16], digits[(c as int) % 16]]
    } else {
        seq![c]
    }
}

/// A text as a JSON string.
pub open spec fn json_quoted(text: Seq<char>) -> Seq<char> {
    seq!['"'] + text.map_values(|c: char| json_escaped(c)).flatten() + seq!['"']
}

/// `serde_json::to_string` on a string: writes it between quotes, each character as JSON escapes it.
/// It never fails on a string.
#[verifier::external_body]
pub(crate) fn quote_json(text: &str) -> (r: Result<String, String>)
    ensures
        r is Ok,
        r->Ok_0@ == json_quoted(text@),
{
    serde_json::to_string(text).map_err(|error| error.to_string())
}

/// `UnicodeNormalization::nfd`: the characters of the canonical decomposition, in order. The result
/// depends on the text alone.
#[verifier::external_body]
pub(crate) fn decompose(text: &str) -> (r: String)
    ensures
        r@ == decomposed(text@),
{
    text.nfd().collect::<String>()
}

/// `OwoColorize::red`: the text between the escape for a red foreground and the one that resets the
/// foreground.
#[verifier::external_body]
pub(crate) fn red(text: &str) -> (r: String)
    ensures
        r@ == "\x1b[31m"@ + text@ + "\x1b[39m"@,
{
    text.red().to_string()
}

/// `OwoColorize::green`: as `red`, with a green foreground.
#[verifier::external_body]
pub(crate) fn green(text: &str) -> (r: String)
    ensures
        r@ == "\x1b[32m"@ + text@ + "\x1b[39m"@,
{
    text.green().to_string()
}

/// `OwoColorize::yellow`: as `red`, with a yellow foreground.
#[verifier::external_body]
pub(crate) fn yellow(text: &str) -> (r: String)
    ensures
        r@ == "\x1b[33m"@ + text@ + "\x1b[39m"@,
{
    text.yellow().to_string()
}

/// `OwoColorize::cyan`: as `red`, with a cyan foreground.
#[verifier::external_body]
pub(crate) fn cyan(text: &str) -> (r: String)
    ensures
        r@ == "\x1b[36m"@ + text@ + "\x1b[39m"@,
{
    text.cyan().to_string()
}

/// `OwoColorize::bold`: the text between the escape for bold type and the one that resets every
/// style.
#[verifier::external_body]
pub(crate) fn bold(text: &str) -> (r: String)
    ensures
        r@ == "\x1b[1m"@ + text@ + "\x1b[0m"@,
{
    text.bold().to_string()
}

/// `OwoColorize::dimmed`: the text between the escape for dim type and the one that resets every
/// style.
#[verifier::external_body]
pub(crate) fn dimmed(text: &str) -> (r: String)
    ensures
        r@ == "\x1b[2m"@ + text@ + "\x1b[0m"@,
{
    text.dimmed().to_string()
}

} // verus!
