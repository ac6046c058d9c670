use thane::osc::{parse_osc, OscEvent, ShellMark};

#[test]
fn test_parse_title() {
    assert_eq!(parse_osc(0, "my terminal"), OscEvent::SetTitle("my terminal".to_string()));
}

#[test]
fn test_parse_cwd() {
    assert_eq!(
        parse_osc(7, "file://localhost/home/user/project"),
        OscEvent::SetCwd("/home/user/project".to_string())
    );
}

#[test]
fn test_parse_notification() {
    assert_eq!(parse_osc(9, "Build done!"), OscEvent::Notification { body: "Build done!".to_string() });
}

#[test]
fn test_parse_shell_marks() {
    assert_eq!(parse_osc(133, "A"), OscEvent::ShellIntegration(ShellMark::PromptStart));
    assert_eq!(parse_osc(133, "D;0"), OscEvent::ShellIntegration(ShellMark::CommandFinished(Some(0))));
}

#[test]
fn test_parse_osc777() {
    assert_eq!(
        parse_osc(777, "notify;Build;Tests passed"),
        OscEvent::RxvtNotification { title: "Build".to_string(), body: "Tests passed".to_string() }
    );
}

#[test]
fn osc_other_forms() {
    assert_eq!(parse_osc(2, "t"), OscEvent::SetTitle("t".to_string()));
    assert_eq!(parse_osc(99, "p"), OscEvent::KittyNotification { payload: "p".to_string() });
    assert_eq!(parse_osc(133, "B"), OscEvent::ShellIntegration(ShellMark::CommandStart));
    assert_eq!(parse_osc(133, "C"), OscEvent::ShellIntegration(ShellMark::CommandExecuted));
    assert_eq!(parse_osc(133, "D"), OscEvent::ShellIntegration(ShellMark::CommandFinished(None)));
    assert_eq!(parse_osc(133, "D;-2"), OscEvent::ShellIntegration(ShellMark::CommandFinished(Some(-2))));
    assert_eq!(parse_osc(5, "x"), OscEvent::Unknown { number: 5, payload: "x".to_string() });
}
