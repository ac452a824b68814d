use mansplain::source::{read_outcome, viewer_command, SourceError, ViewerOutcome};

fn exited(success: bool, stdout: &[u8], stderr: &[u8]) -> ViewerOutcome {
    ViewerOutcome::Exited { success, stdout: stdout.to_vec(), stderr: stderr.to_vec() }
}

#[test]
fn the_viewer_is_man_with_the_command_as_argument() {
    let invocation = viewer_command("ls", None);
    assert_eq!(invocation.program, "man");
    assert_eq!(invocation.arguments, vec!["ls".to_string()]);
}

#[test]
fn a_section_comes_before_the_command() {
    let invocation = viewer_command("printf", Some("3"));
    assert_eq!(invocation.arguments, vec!["3".to_string(), "printf".to_string()]);
}

#[test]
fn the_environment_switches_off_the_pager_and_sets_the_locale() {
    let invocation = viewer_command("ls", Some("1"));
    let settings: Vec<(&str, &str)> = invocation
        .environment
        .iter()
        .map(|setting| (setting.name.as_str(), setting.value.as_str()))
        .collect();
    assert_eq!(settings, vec![("MANPAGER", "cat"), ("LC_ALL", "C.UTF-8"), ("LANG", "C.UTF-8")]);
}

#[test]
fn a_successful_run_gives_the_manual_text() {
    let text = read_outcome("ls", exited(true, "LS(1)\n\u{2014} list\n".as_bytes(), b"warning")).unwrap();
    assert_eq!(text, "LS(1)\n\u{2014} list\n");
    assert_eq!(read_outcome("ls", exited(true, b"", b"")).unwrap(), "");
}

#[test]
fn a_nonexistent_command_is_not_found() {
    let error = read_outcome(
        "no-such-command",
        exited(false, b"", b"No manual entry for no-such-command\n"),
    )
    .unwrap_err();
    match error {
        SourceError::NotFound { command, stderr } => {
            assert_eq!(command, "no-such-command");
            assert_eq!(stderr, "No manual entry for no-such-command\n");
        }
        other => panic!("unexpected error: {:?}", other),
    }
}

#[test]
fn a_failed_run_is_not_found_whatever_it_printed() {
    let error = read_outcome("ls", exited(false, b"LS(1)", &[b'x', 0xff])).unwrap_err();
    assert!(matches!(
        error,
        SourceError::NotFound { ref command, ref stderr } if command == "ls" && stderr == "x\u{fffd}"
    ));
}

#[test]
fn a_viewer_that_did_not_start_is_unavailable() {
    let error = read_outcome("ls", ViewerOutcome::NotStarted).unwrap_err();
    assert!(matches!(error, SourceError::ToolUnavailable));
}

#[test]
fn output_that_is_not_utf8_is_an_encoding_error() {
    let error = read_outcome("ls", exited(true, &[b'L', 0xc3, b'S'], b"")).unwrap_err();
    assert!(matches!(error, SourceError::EncodingError));
    let truncated = read_outcome("ls", exited(true, &[0xe2, 0x80], b"")).unwrap_err();
    assert!(matches!(truncated, SourceError::EncodingError));
}

#[test]
fn source_failures_describe_themselves() {
    assert_eq!(
        SourceError::ToolUnavailable.message(),
        "Failed to execute man command. Is 'man' installed?"
    );
    assert_eq!(SourceError::EncodingError.message(), "Man page output is not valid UTF-8");
    let not_found =
        SourceError::NotFound { command: "foo".to_string(), stderr: "nothing here".to_string() };
    assert_eq!(not_found.message(), "Failed to fetch man page: nothing here");
}

#[test]
fn the_diagnostic_names_the_command() {
    let not_found =
        SourceError::NotFound { command: "foo".to_string(), stderr: "nothing here".to_string() };
    assert_eq!(
        not_found.diagnostic("foo"),
        "No manual entry for 'foo': Failed to fetch man page: nothing here"
    );
    assert_eq!(
        SourceError::EncodingError.diagnostic("ls"),
        "No manual entry for 'ls': Man page output is not valid UTF-8"
    );
}
