use branch_wipe::git::{
    delete_branch, delete_command, list_branches, list_command, DeleteError, RefreshError,
};
use branch_wipe::process::{ProcessLaunchError, ProcessOutput};

fn output(stdout: &[u8], stderr: &[u8], exit_status: Option<i32>) -> ProcessOutput {
    ProcessOutput { stdout: stdout.to_vec(), stderr: stderr.to_vec(), exit_status }
}

fn launch_error() -> ProcessLaunchError {
    ProcessLaunchError { reason: "No such file or directory".to_string() }
}

#[test]
fn list_command_is_the_short_name_listing() {
    assert_eq!(
        list_command(),
        vec!["git".to_string(), "branch".to_string(), "--format=%(refname:short)".to_string()]
    );
}

#[test]
fn delete_command_names_the_branch() {
    assert_eq!(
        delete_command("feature/x"),
        vec!["git".to_string(), "branch".to_string(), "-D".to_string(), "feature/x".to_string()]
    );
}

#[test]
fn list_branches_parses_a_successful_run() {
    let result = list_branches(Ok(output(b"main\n dev\n", b"", Some(0))));
    assert_eq!(result, Ok(vec!["main".to_string(), "dev".to_string()]));
}

#[test]
fn list_branches_ignores_stderr_of_a_successful_run() {
    let result = list_branches(Ok(output(b"main\n", b"warning: something\n", Some(0))));
    assert_eq!(result, Ok(vec!["main".to_string()]));
}

#[test]
fn list_branches_reports_a_failed_run() {
    let result = list_branches(Ok(output(b"main\n", b"fatal: not a git repository\n", Some(128))));
    assert_eq!(
        result,
        Err(RefreshError::Failed {
            exit_status: Some(128),
            stderr: "fatal: not a git repository\n".to_string(),
        })
    );
}

#[test]
fn list_branches_reports_a_run_without_exit_code() {
    let result = list_branches(Ok(output(b"main\n", b"", None)));
    assert_eq!(result, Err(RefreshError::Failed { exit_status: None, stderr: String::new() }));
}

#[test]
fn list_branches_hands_on_a_launch_error() {
    assert_eq!(list_branches(Err(launch_error())), Err(RefreshError::Launch(launch_error())));
}

#[test]
fn delete_branch_accepts_a_successful_run() {
    assert_eq!(delete_branch(Ok(output(b"Deleted branch temp (was 1a2b3c4).\n", b"", Some(0)))), Ok(()));
}

#[test]
fn delete_branch_reports_a_refusal_with_its_text() {
    let text = b"error: Cannot delete branch 'main' checked out at '/repo'\n";
    assert_eq!(
        delete_branch(Ok(output(b"", text, Some(1)))),
        Err(DeleteError::Refused {
            stderr: "error: Cannot delete branch 'main' checked out at '/repo'\n".to_string(),
        })
    );
}

#[test]
fn delete_branch_reports_a_run_without_exit_code() {
    assert_eq!(
        delete_branch(Ok(output(b"", b"", None))),
        Err(DeleteError::Refused { stderr: String::new() })
    );
}

#[test]
fn delete_branch_hands_on_a_launch_error() {
    assert_eq!(delete_branch(Err(launch_error())), Err(DeleteError::Launch(launch_error())));
}

#[test]
fn is_success_only_for_exit_code_zero() {
    assert!(output(b"", b"", Some(0)).is_success());
    assert!(!output(b"", b"", Some(1)).is_success());
    assert!(!output(b"", b"", Some(-1)).is_success());
    assert!(!output(b"", b"", None).is_success());
}
