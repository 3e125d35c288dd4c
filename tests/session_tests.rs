use cmdgen::decision::UserDecision;
use cmdgen::sanitize::sanitize;
use cmdgen::session::{Action, Outcome, Phase, Session};

fn session(raw: &str) -> Session {
    Session::new(sanitize(raw).unwrap())
}

#[test]
fn decision_letters() {
    assert_eq!(UserDecision::parse("c\n"), UserDecision::Copy);
    assert_eq!(UserDecision::parse("  e "), UserDecision::Execute);
    assert_eq!(UserDecision::parse("q"), UserDecision::Quit);
    assert_eq!(UserDecision::parse("x"), UserDecision::Invalid);
    assert_eq!(UserDecision::parse(""), UserDecision::Invalid);
    assert_eq!(UserDecision::parse("cc"), UserDecision::Invalid);
}

#[test]
fn decision_upper_case_is_folded() {
    assert_eq!(UserDecision::parse("C\n"), UserDecision::Copy);
    assert_eq!(UserDecision::parse(" E"), UserDecision::Execute);
    assert_eq!(UserDecision::parse("Q"), UserDecision::Quit);
}

#[test]
fn decision_from_folded_does_not_fold() {
    assert_eq!(UserDecision::from_folded(" q\n"), UserDecision::Quit);
    assert_eq!(UserDecision::from_folded("Q"), UserDecision::Invalid);
}

#[test]
fn invalid_then_quit() {
    let mut s = session("ls");
    assert_eq!(s.on_input("x\n"), Action::ShowInvalid);
    assert_eq!(s.phase(), Phase::Awaiting);
    let a = s.on_input("q\n");
    assert_eq!(a, Action::Stop(Outcome::Quit));
    assert_eq!(s.phase(), Phase::Done(Outcome::Quit));
    assert_eq!(Outcome::Quit.exit_code(), 0);
}

#[test]
fn execution_stops_at_first_failure() {
    let mut s = session("echo a\nfalse\necho b");
    assert_eq!(s.on_input("e"), Action::Run("echo a".to_string()));
    assert_eq!(s.on_exit(Some(0)), Action::Run("false".to_string()));
    let a = s.on_exit(Some(1));
    assert_eq!(a, Action::Stop(Outcome::Failed(1)));
    assert_eq!(s.phase(), Phase::Done(Outcome::Failed(1)));
    assert_eq!(Outcome::Failed(1).exit_code(), 1);
}

#[test]
fn execution_completes_when_all_succeed() {
    let mut s = session("true\ntrue");
    assert_eq!(s.on_input("e"), Action::Run("true".to_string()));
    assert_eq!(s.phase(), Phase::Running(0));
    assert_eq!(s.on_exit(Some(0)), Action::Run("true".to_string()));
    assert_eq!(s.phase(), Phase::Running(1));
    assert_eq!(s.on_exit(Some(0)), Action::Stop(Outcome::Completed));
    assert_eq!(Outcome::Completed.exit_code(), 0);
}

#[test]
fn signal_ended_command_fails_with_one() {
    let mut s = session("sleep 100\necho b");
    s.on_input("e");
    assert_eq!(s.on_exit(None), Action::Stop(Outcome::Failed(1)));
}

#[test]
fn exit_code_is_propagated() {
    let mut s = session("exit 3");
    s.on_input("e");
    assert_eq!(s.on_exit(Some(3)), Action::Stop(Outcome::Failed(3)));
    assert_eq!(Outcome::Failed(3).exit_code(), 3);
}

#[test]
fn fenced_command_copied() {
    let mut s = session("```\nls -la\n```");
    assert_eq!(s.on_input("c"), Action::Copy("ls -la".to_string()));
    assert_eq!(s.phase(), Phase::Copying);
    assert_eq!(s.on_copied(true), Action::Stop(Outcome::Copied));
    assert_eq!(Outcome::Copied.exit_code(), 0);
}

#[test]
fn copy_joins_commands() {
    let mut s = session("ls -la\npwd");
    assert_eq!(s.on_input("C"), Action::Copy("ls -la && pwd".to_string()));
}

#[test]
fn clipboard_unavailable_fails() {
    let mut s = session("ls");
    s.on_input("c");
    assert_eq!(s.on_copied(false), Action::Stop(Outcome::ClipboardUnavailable));
    assert_eq!(Outcome::ClipboardUnavailable.exit_code(), 1);
}

#[test]
fn decide_directly() {
    let mut s = session("ls");
    assert_eq!(s.decide(UserDecision::Invalid), Action::ShowInvalid);
    assert_eq!(s.decide(UserDecision::Quit), Action::Stop(Outcome::Quit));
    assert_eq!(s.commands().len(), 1);
}
