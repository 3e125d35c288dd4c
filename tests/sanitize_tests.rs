use cmdgen::sanitize::{sanitize, SanitizeError};

fn lines(raw: &str) -> Vec<String> {
    match sanitize(raw) {
        Ok(cs) => cs.lines().clone(),
        Err(e) => panic!("unexpected error {:?}", e),
    }
}

#[test]
fn fenced_single_command() {
    assert_eq!(lines("```\nls -la\n```"), vec!["ls -la".to_string()]);
}

#[test]
fn keeps_each_nonblank_line_in_order() {
    let raw = "```bash\n  cd /tmp  \n\n\tls -la\n   \npwd\n```\n";
    assert_eq!(
        lines(raw),
        vec!["bash".to_string(), "cd /tmp".to_string(), "ls -la".to_string(), "pwd".to_string()]
    );
}

#[test]
fn removes_backticks_inside_a_line() {
    assert_eq!(lines("echo `date`"), vec!["echo date".to_string()]);
}

#[test]
fn empty_answer_is_rejected() {
    assert!(matches!(sanitize(""), Err(SanitizeError::EmptyCommandSet)));
}

#[test]
fn only_fences_and_blanks_is_rejected() {
    assert!(matches!(sanitize("```\n   \n\t\n```\n"), Err(SanitizeError::EmptyCommandSet)));
}

#[test]
fn clean_line_gives_itself_trimmed() {
    assert_eq!(lines("  git status  "), vec!["git status".to_string()]);
    assert_eq!(lines("git status"), vec!["git status".to_string()]);
}

#[test]
fn sanitizing_a_command_again_changes_nothing() {
    let first = lines("```\n  du -sh *  \n```");
    let again = lines(&first[0]);
    assert_eq!(first, again);
}

#[test]
fn unicode_whitespace_is_trimmed() {
    assert_eq!(lines("\u{3000}\u{a0}ls\u{2003}\r\n"), vec!["ls".to_string()]);
}

#[test]
fn carriage_returns_are_trimmed() {
    assert_eq!(lines("ls\r\npwd\r\n"), vec!["ls".to_string(), "pwd".to_string()]);
}

#[test]
fn command_set_accessors() {
    let cs = sanitize("a\nb").unwrap();
    assert_eq!(cs.len(), 2);
    assert_eq!(cs.get(1), "b");
}

#[test]
fn join_two_commands() {
    let cs = sanitize("ls -la\npwd").unwrap();
    assert_eq!(cs.joined(), "ls -la && pwd");
}

#[test]
fn join_single_command_has_no_connector() {
    let cs = sanitize("```\nls -la\n```").unwrap();
    assert_eq!(cs.joined(), "ls -la");
}

#[test]
fn join_three_commands() {
    let cs = sanitize("a\nb\nc").unwrap();
    assert_eq!(cs.joined(), "a && b && c");
}
