//! The command line.

use crate::text::{
    blank, is_blank, is_white_space, law_trimmed_end_loses_white_space_only, trim_end, trimmed_end,
};
use vstd::prelude::*;
use vstd::string::*;

verus! {

/// The arguments of a run.
#[derive(Debug, PartialEq, Eq)]
pub struct CliArgs {
    /// The configuration file, where one was named.
    pub config: Option<String>,
    /// The workspace directory.
    pub workspace: String,
    /// The task to carry out.
    pub task: String,
}

/// A text to print in place of a run: the help text, or what is wrong with the arguments.
#[derive(Debug, PartialEq, Eq)]
pub struct CliEarlyExit {
    pub output: String,
    pub success: bool,
}

/// Why the arguments make no run.
#[derive(Debug, PartialEq, Eq)]
pub enum CliError {
    NotUnicode,
    Exit(CliEarlyExit),
    EmptyWorkspace,
    EmptyTask,
}

impl CliEarlyExit {
    /// Returns the text without the white space at its end.
    pub fn message(&self) -> (r: String)
        ensures
            r@ == trimmed_end(self.output@),
    {
        trim_end(self.output.as_str()).to_owned()
    }
}

impl CliError {
    /// What the user is told.
    pub open spec fn text(self) -> Seq<char> {
        match self {
            CliError::NotUnicode => "command-line arguments must be valid Unicode"@,
            CliError::Exit(exit) => trimmed_end(exit.output@),
            CliError::EmptyWorkspace => "workspace must not be empty"@,
            CliError::EmptyTask => "task must not be empty"@,
        }
    }

    /// Returns what the user is told.
    pub fn message(&self) -> (r: String)
        ensures
            r@ == self.text(),
    {
        match self {
            CliError::NotUnicode => "command-line arguments must be valid Unicode".to_owned(),
            CliError::Exit(exit) => exit.message(),
            CliError::EmptyWorkspace => "workspace must not be empty".to_owned(),
            CliError::EmptyTask => "task must not be empty".to_owned(),
        }
    }
}

/// What the arguments come to. `parsed` is what the argument parser made of them, or nothing
/// where they are not all Unicode.
pub open spec fn args_in(parsed: Option<Result<CliArgs, CliEarlyExit>>) -> Result<
    CliArgs,
    CliError,
> {
    match parsed {
        None => Err(CliError::NotUnicode),
        Some(Err(exit)) => Err(CliError::Exit(exit)),
        Some(Ok(args)) => if args.workspace@.len() == 0 {
            Err(CliError::EmptyWorkspace)
        } else if is_blank(args.task@) {
            Err(CliError::EmptyTask)
        } else {
            Ok(args)
        },
    }
}

/// Checks what the argument parser made of the command line: a workspace is named and the
/// task is not blank. `parsed` is nothing where the arguments are not all Unicode.
pub fn parse_args(parsed: Option<Result<CliArgs, CliEarlyExit>>) -> (r: Result<
    CliArgs,
    CliError,
>)
    ensures
        r == args_in(parsed),
{
    let args: CliArgs = match parsed {
        None => {
            return Err(CliError::NotUnicode);
        },
        Some(Err(exit)) => {
            return Err(CliError::Exit(exit));
        },
        Some(Ok(args)) => args,
    };
    if args.workspace.as_str().is_empty() {
        return Err(CliError::EmptyWorkspace);
    }
    if blank(args.task.as_str()) {
        return Err(CliError::EmptyTask);
    }
    Ok(args)
}

/// Arguments that are accepted are handed on as they were parsed, with the configuration file,
/// the workspace and the task that they name. They are accepted exactly where the workspace has
/// a name and the task a character that is not white space.
pub proof fn law_accepted_arguments_are_kept(args: CliArgs)
    ensures
        ({
            let r = args_in(Some(Ok(args)));
            let named = args.workspace@.len() > 0;
            let asked = exists|i: int| 0 <= i < args.task@.len() && !is_white_space(
                #[trigger] args.task@[i],
            );
            &&& r is Ok <==> named && asked
            &&& r matches Ok(kept) ==> {
                &&& kept == args
                &&& kept.config == args.config
                &&& kept.workspace@ == args.workspace@
                &&& kept.task@ == args.task@
            }
            &&& !named ==> r == Err::<CliArgs, CliError>(CliError::EmptyWorkspace)
            &&& named && !asked ==> r == Err::<CliArgs, CliError>(CliError::EmptyTask)
        }),
{
}

/// Nothing but parsed arguments makes a run, and what stands in place of a run is handed on as
/// it came.
pub proof fn law_a_run_needs_parsed_arguments(
    parsed: Option<Result<CliArgs, CliEarlyExit>>,
    exit: CliEarlyExit,
)
    ensures
        args_in(parsed) matches Ok(args) ==> parsed == Some(Ok::<CliArgs, CliEarlyExit>(args)),
        parsed is None <==> args_in(parsed) == Err::<CliArgs, CliError>(CliError::NotUnicode),
        parsed == Some(Err::<CliArgs, CliEarlyExit>(exit)) <==> args_in(parsed) == Err::<
            CliArgs,
            CliError,
        >(CliError::Exit(exit)),
{
}

/// The text in place of a run is told without the white space at its end.
pub proof fn law_exit_text_is_told(exit: CliEarlyExit)
    ensures
        ({
            let told = CliError::Exit(exit).text();
            &&& told.is_prefix_of(exit.output@)
            &&& is_blank(exit.output@.skip(told.len() as int))
            &&& told.len() > 0 ==> !is_white_space(told.last())
        }),
{
    law_trimmed_end_loses_white_space_only(exit.output@);
}

/// The user is told which of the arguments is at fault.
pub proof fn law_refusal_names_the_argument(error: CliError)
    ensures
        error is NotUnicode ==> "command-line arguments"@.is_prefix_of(error.text()),
        error is EmptyWorkspace ==> "workspace must not be empty"@.is_prefix_of(error.text()),
        error is EmptyTask ==> "task must not be empty"@.is_prefix_of(error.text()),
{
    reveal_strlit("command-line arguments");
    reveal_strlit("command-line arguments must be valid Unicode");
}

} // verus!
