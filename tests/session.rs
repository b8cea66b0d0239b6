use clay::actions::Action;
use clay::commit::version_report;
use clay::llm::json_span;
use clay::script::{marked_command, parse_command, take_finish_marker, CMD_FINISHED_MARKER};

#[test]
fn scripted_commands_echo_the_marker() {
    assert_eq!(marked_command("cargo build"), format!("cargo build\necho {}\n", CMD_FINISHED_MARKER));
}

#[test]
fn finish_marker_is_taken_out() {
    let out = format!("done\r\n{}\r\n$ ", CMD_FINISHED_MARKER);
    let (text, finished) = take_finish_marker(&out);
    assert!(finished);
    assert_eq!(text, "done\r\n\r\n$");
    let (text, finished) = take_finish_marker("partial output  \n");
    assert!(!finished);
    assert_eq!(text, "partial output  \n");
}

#[test]
fn slash_commands_name_actions() {
    assert_eq!(parse_command("/build"), Some(Action::Build));
    assert_eq!(parse_command("  /add serde tokio"), Some(Action::AddPackage));
    assert_eq!(parse_command("/exit"), Some(Action::Quit));
    assert_eq!(parse_command("/"), Some(Action::EnterCommandMode));
    assert_eq!(parse_command("/nothing"), None);
    assert_eq!(parse_command(""), None);
}

#[test]
fn version_reports_are_read() {
    assert_eq!(version_report("Version: 1.0.0 -> 1.0.1\n"), ("1.0.0".to_string(), "1.0.1".to_string()));
    assert_eq!(
        version_report("Version: 1.0.0 -> 1.0.1 in /x/Cargo.toml"),
        ("version".to_string(), "new_version".to_string())
    );
}

#[test]
fn json_is_cut_out_of_a_reply() {
    assert_eq!(json_span("Here: {\"a\": {\"b\": 1}} done"), Some("{\"a\": {\"b\": 1}}".to_string()));
    assert_eq!(json_span("no json"), None);
    assert_eq!(json_span("}{"), Some(String::new()));
    assert_eq!(json_span("} x {"), None);
}
