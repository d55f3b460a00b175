//! How the program ends: what it prints and whether it succeeded.

use crate::config::cli::CliEarlyExit;
use crate::text::{
    is_blank, is_white_space, law_trimmed_end_loses_white_space_only, trimmed_end,
};
use vstd::prelude::*;
use vstd::string::*;

verus! {

/// What a run of the program came to.
#[derive(Debug, PartialEq, Eq)]
pub enum Outcome {
    /// The model gave its final answer.
    Answered(String),
    /// The command line asked for a text in place of a run.
    Exit(CliEarlyExit),
    /// Something failed, which the log tells.
    Failed,
}

/// What the program prints, and whether its exit code means success.
#[derive(Debug, PartialEq, Eq)]
pub struct Ending {
    pub stdout: String,
    pub stderr: String,
    pub success: bool,
}

/// What is printed to standard output.
pub open spec fn stdout_text(outcome: Outcome) -> Seq<char> {
    match outcome {
        Outcome::Answered(answer) => answer@ + "\n"@,
        Outcome::Exit(exit) => if exit.success {
            trimmed_end(exit.output@) + "\n"@
        } else {
            Seq::empty()
        },
        Outcome::Failed => Seq::empty(),
    }
}

/// What is printed to standard error, besides the log.
pub open spec fn stderr_text(outcome: Outcome) -> Seq<char> {
    match outcome {
        Outcome::Exit(exit) => if exit.success {
            Seq::empty()
        } else {
            exit.output@
        },
        _ => Seq::empty(),
    }
}

/// Whether the exit code means success: there is an answer, or the text that was asked for.
pub open spec fn succeeded(outcome: Outcome) -> bool {
    match outcome {
        Outcome::Answered(_) => true,
        Outcome::Exit(exit) => exit.success,
        Outcome::Failed => false,
    }
}

/// Says how the program ends.
pub fn conclude(outcome: Outcome) -> (r: Ending)
    ensures
        r.stdout@ == stdout_text(outcome),
        r.stderr@ == stderr_text(outcome),
        r.success == succeeded(outcome),
{
    match outcome {
        Outcome::Answered(answer) => Ending {
            stdout: answer.concat("\n"),
            stderr: String::new(),
            success: true,
        },
        Outcome::Exit(exit) => if exit.success {
            Ending {
                stdout: exit.message().concat("\n"),
                stderr: String::new(),
                success: true,
            }
        } else {
            Ending { stdout: String::new(), stderr: exit.output, success: false }
        },
        Outcome::Failed => Ending {
            stdout: String::new(),
            stderr: String::new(),
            success: false,
        },
    }
}

/// Standard output is the answer alone, and it stays empty where the program fails.
pub proof fn law_output_is_the_answer(outcome: Outcome)
    ensures
        outcome matches Outcome::Answered(answer) ==> stdout_text(outcome) == answer@ + "\n"@
            && stderr_text(outcome).len() == 0 && succeeded(outcome),
        !succeeded(outcome) ==> stdout_text(outcome).len() == 0,
{
}

/// A text that was asked for goes to standard output, without the white space at its end and
/// with one line break. What is wrong with the arguments goes to standard error as it is. In
/// either case nothing goes to the other, and the exit code tells which it was.
pub proof fn law_exit_text_is_printed_once(exit: CliEarlyExit)
    ensures
        ({
            let outcome = Outcome::Exit(exit);
            let printed = stdout_text(outcome);
            let text = printed.drop_last();
            &&& succeeded(outcome) == exit.success
            &&& exit.success ==> {
                &&& printed.len() > 0
                &&& printed.last() == '\n'
                &&& text.is_prefix_of(exit.output@)
                &&& is_blank(exit.output@.skip(text.len() as int))
                &&& text.len() > 0 ==> !is_white_space(text.last())
                &&& stderr_text(outcome).len() == 0
            }
            &&& !exit.success ==> stderr_text(outcome) == exit.output@ && printed.len() == 0
        }),
{
    reveal_strlit("\n");
    law_trimmed_end_loses_white_space_only(exit.output@);
    if exit.success {
        assert(stdout_text(Outcome::Exit(exit)).drop_last() =~= trimmed_end(exit.output@));
    }
}

/// A failure prints nothing besides the log, and the exit code tells it.
pub proof fn law_failure_prints_nothing()
    ensures
        stdout_text(Outcome::Failed).len() == 0,
        stderr_text(Outcome::Failed).len() == 0,
        !succeeded(Outcome::Failed),
{
}

} // verus!
