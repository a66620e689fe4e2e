use md5check::release::{parse_release, release_argv};
use md5check::retry::{error_is_transient, read_error_is_spurious, AttemptError};
use md5check::text::{open_failure_message, read_failure_message, report_line, u64_to_string};

#[test]
fn release_command_is_tokenized_by_whitespace() {
    assert_eq!(parse_release("mv -t archive/"), vec!["mv", "-t", "archive/"]);
    assert_eq!(parse_release("  mv\t-t  archive/ \n"), vec!["mv", "-t", "archive/"]);
    assert_eq!(parse_release(""), Vec::<String>::new());
    assert_eq!(parse_release(" \t "), Vec::<String>::new());
    assert_eq!(parse_release("rm"), vec!["rm"]);
}

#[test]
fn hook_argv_appends_the_path() {
    // release command "mv -t archive/" invoked for pathX
    let tokens = parse_release("mv -t archive/");
    let argv = release_argv(&tokens, "pathX").expect("hook configured");
    assert_eq!(argv, vec!["mv", "-t", "archive/", "pathX"]);
}

#[test]
fn no_hook_means_no_invocation() {
    let tokens = parse_release("");
    assert!(release_argv(&tokens, "pathX").is_none());
}

#[test]
fn decimal_rendering() {
    assert_eq!(u64_to_string(0), "0");
    assert_eq!(u64_to_string(7), "7");
    assert_eq!(u64_to_string(10), "10");
    assert_eq!(u64_to_string(1024), "1024");
    assert_eq!(u64_to_string(u64::MAX), "18446744073709551615");
}

#[test]
fn report_lines() {
    assert_eq!(report_line("some/path", true), "some/path OK");
    assert_eq!(report_line("some/path", false), "some/path FAIL");
}

#[test]
fn error_messages_identify_the_path() {
    assert_eq!(read_failure_message("p", "permission denied"), "failed reading p: permission denied");
    assert_eq!(open_failure_message("p"), "Failed to open p");
}

#[test]
fn transient_errors_are_retried_and_others_are_not() {
    assert!(error_is_transient(&AttemptError::TimedOut));
    assert!(error_is_transient(&AttemptError::Interrupted));
    assert!(!error_is_transient(&AttemptError::Other));
}

#[test]
fn only_the_spurious_read_code_is_absorbed() {
    assert!(read_error_is_spurious(Some(16)));
    assert!(!read_error_is_spurious(Some(5)));
    assert!(!read_error_is_spurious(None));
}
