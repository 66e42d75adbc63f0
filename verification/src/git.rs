//! The two commands of the version-control tool that the store relies on:
//! which arguments each takes, and what its outcome means.

use crate::parser::{all_branch_names, parse, parsed_names};
use crate::process::{ran_successfully, Outcome, ProcessLaunchError};
use crate::text::{decode, decode_text};
use vstd::prelude::*;

verus! {

/// Why the branches could not be listed.
#[derive(Debug, Clone, PartialEq, Eq)]
pub enum RefreshError {
    /// The tool could not be started.
    Launch(ProcessLaunchError),
    /// The tool ran and did not report success.
    Failed {
        /// The exit code, if there was one.
        exit_status: Option<i32>,
        /// What the tool wrote to its standard error.
        stderr: String,
    },
}

/// Why a branch could not be deleted.
#[derive(Debug, Clone, PartialEq, Eq)]
pub enum DeleteError {
    /// The tool could not be started.
    Launch(ProcessLaunchError),
    /// The tool refused to delete the branch.
    Refused {
        /// What the tool wrote to its standard error.
        stderr: String,
    },
}

/// The argument vector that lists the branches, one short name per line.
pub open spec fn list_command_line() -> Seq<Seq<char>> {
    seq!["git"@, "branch"@, "--format=%(refname:short)"@]
}

/// The argument vector that deletes the branch `branch`.
pub open spec fn delete_command_line(branch: Seq<char>) -> Seq<Seq<char>> {
    seq!["git"@, "branch"@, "-D"@, branch]
}

/// What listing gives for an outcome: the parsed names where the tool ran
/// successfully, nothing otherwise.
pub open spec fn listed(outcome: Outcome) -> Option<Seq<Seq<char>>> {
    match outcome {
        Ok(output) => if output.succeeded() {
            Some(parsed_names(output.stdout@))
        } else {
            None
        },
        Err(_) => None,
    }
}

/// Builds the argument vector that lists the branches.
pub fn list_command() -> (command: Vec<String>)
    ensures
        command.deep_view() == list_command_line(),
{
    let mut command: Vec<String> = Vec::new();
    command.push("git".to_owned());
    command.push("branch".to_owned());
    command.push("--format=%(refname:short)".to_owned());
    assert(command.deep_view() =~= list_command_line());
    command
}

/// Builds the argument vector that deletes `branch`.
pub fn delete_command(branch: &str) -> (command: Vec<String>)
    ensures
        command.deep_view() == delete_command_line(branch@),
{
    let mut command: Vec<String> = Vec::new();
    command.push("git".to_owned());
    command.push("branch".to_owned());
    command.push("-D".to_owned());
    command.push(branch.to_owned());
    assert(command.deep_view() =~= delete_command_line(branch@));
    command
}

/// Reads the outcome of the list command. Where the tool ran successfully the
/// result holds the names parsed from its standard output, in their order.
/// Where it never started the launch error is handed on; where it ran without
/// success the error holds its exit status and what it wrote to standard error.
pub fn list_branches(outcome: Outcome) -> (result: Result<Vec<String>, RefreshError>)
    ensures
        match outcome {
            Ok(output) => if output.succeeded() {
                &&& result matches Ok(names)
                &&& names.deep_view() == parsed_names(output.stdout@)
                &&& all_branch_names(names.deep_view())
            } else {
                &&& result matches Err(RefreshError::Failed { exit_status, stderr })
                &&& exit_status == output.exit_status
                &&& stderr@ == decode(output.stderr@)
            },
            Err(error) => result == Err::<Vec<String>, RefreshError>(RefreshError::Launch(error)),
        },
        result matches Ok(names) ==> listed(outcome) == Some(names.deep_view()),
        result is Err ==> listed(outcome) is None,
{
    match outcome {
        Ok(output) => {
            if output.is_success() {
                Ok(parse(output.stdout.as_slice()))
            } else {
                Err(
                    RefreshError::Failed {
                        exit_status: output.exit_status,
                        stderr: decode_text(output.stderr.as_slice()),
                    },
                )
            }
        },
        Err(error) => Err(RefreshError::Launch(error)),
    }
}

/// Reads the outcome of the delete command. The branch is gone exactly where
/// the tool ran successfully. Where it never started the launch error is
/// handed on; where it refused the error holds what it wrote to standard error.
pub fn delete_branch(outcome: Outcome) -> (result: Result<(), DeleteError>)
    ensures
        match outcome {
            Ok(output) => if output.succeeded() {
                result is Ok
            } else {
                &&& result matches Err(DeleteError::Refused { stderr })
                &&& stderr@ == decode(output.stderr@)
            },
            Err(error) => result == Err::<(), DeleteError>(DeleteError::Launch(error)),
        },
        result is Ok <==> ran_successfully(outcome),
{
    match outcome {
        Ok(output) => {
            if output.is_success() {
                Ok(())
            } else {
                Err(DeleteError::Refused { stderr: decode_text(output.stderr.as_slice()) })
            }
        },
        Err(error) => Err(DeleteError::Launch(error)),
    }
}

} // verus!
