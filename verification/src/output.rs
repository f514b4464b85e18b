//! Commands and their answers.

use vstd::prelude::*;

use crate::error;
use crate::error::{CauseView, Error, fail};
use crate::model::CommandOutput;
use crate::record::Reply;
use crate::text;
use crate::text::{cat3, copy_list, join_text, trimmed};

verus! {

/// A command line as it is shown to the user.
pub open spec fn shown(program: Seq<char>, args: Seq<Seq<char>>) -> Seq<char> {
    text::join(seq![program] + args, " "@)
}

pub fn display_command(program: &str, args: &Vec<String>) -> (r: String)
    ensures
        r@ == shown(program@, args.deep_view()),
{
    let mut all: Vec<String> = Vec::new();
    all.push(program.to_owned());
    let mut rest = copy_list(args);
    all.append(&mut rest);
    assert(all.deep_view() =~= seq![program@] + args.deep_view());
    join_text(&all, " ")
}

/// The failure of a command that ended without success, in breadcrumb form.
pub open spec fn failed_command(
    program: Seq<char>,
    args: Seq<Seq<char>>,
    stderr: Seq<char>,
) -> Seq<CauseView> {
    error::plain("failed-command=`"@ + shown(program, args) + "` error="@ + text::trim(stderr))
}

/// What a command answered, where ending without success is a failure.
pub open spec fn checked(program: Seq<char>, args: Seq<Seq<char>>, reply: Reply) -> Reply {
    match reply {
        Ok(output) => if output.success {
            Ok(output)
        } else {
            Err(failed_command(program, args, output.stderr))
        },
        Err(e) => Err(e),
    }
}

pub fn check_output(
    program: &str,
    args: &Vec<String>,
    reply: Result<CommandOutput, Error>,
) -> (r: Result<CommandOutput, Error>)
    ensures
        error::res(r) == checked(program@, args.deep_view(), error::res(reply)),
{
    match reply {
        Ok(output) => if output.success {
            Ok(output)
        } else {
            let mut message = "failed-command=`".to_owned();
            message.append(&display_command(program, args));
            message.append("` error=");
            message.append(&trimmed(&output.stderr));
            Err(fail(&message))
        },
        Err(error) => Err(error),
    }
}

/// The trimmed output of a command that must succeed and must write something.
pub open spec fn required_output(program: Seq<char>, args: Seq<Seq<char>>, reply: Reply) -> Result<
    Seq<char>,
    Seq<CauseView>,
> {
    match reply {
        Ok(output) => if !output.success {
            Err(error::plain("`"@ + shown(program, args) + "` failed: "@ + text::trim(output.stderr)))
        } else if text::is_blank(output.stdout) {
            Err(error::plain("`"@ + shown(program, args) + "` returned empty output"@))
        } else {
            Ok(text::trim(output.stdout))
        },
        Err(e) => Err(e),
    }
}

pub fn require_output(
    program: &str,
    args: &Vec<String>,
    reply: Result<CommandOutput, Error>,
) -> (r: Result<String, Error>)
    ensures
        error::res(r) == required_output(program@, args.deep_view(), error::res(reply)),
{
    match reply {
        Ok(output) => {
            if !output.success {
                let mut message = "`".to_owned();
                message.append(&display_command(program, args));
                message.append("` failed: ");
                message.append(&trimmed(&output.stderr));
                return Err(fail(&message));
            }
            let value = trimmed(&output.stdout);
            if value.as_str().is_empty() {
                return Err(fail(&cat3("`", &display_command(program, args), "` returned empty output")));
            }
            Ok(value)
        },
        Err(error) => Err(error),
    }
}

} // verus!
