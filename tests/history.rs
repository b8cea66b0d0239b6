use clay::history::{CommandHistory, MAX_HISTORY_SIZE};

#[test]
fn blank_and_repeated_commands_are_not_added() {
    let mut h = CommandHistory::new();
    h.add_command("ls".to_string());
    h.add_command("   \t".to_string());
    h.add_command("\u{3000}".to_string());
    h.add_command("ls".to_string());
    h.add_command("pwd".to_string());
    h.add_command("ls".to_string());
    assert_eq!(h.commands(), &vec!["ls".to_string(), "pwd".to_string(), "ls".to_string()]);
}

#[test]
fn navigation_walks_back_and_returns_to_input() {
    let mut h = CommandHistory::new();
    assert_eq!(h.navigate_up("typed"), None);
    h.add_command("one".to_string());
    h.add_command("two".to_string());
    assert_eq!(h.navigate_down(), None);
    assert_eq!(h.navigate_up("typed"), Some("two".to_string()));
    assert_eq!(h.navigate_up("ignored"), Some("one".to_string()));
    assert_eq!(h.navigate_up("ignored"), None);
    assert_eq!(h.navigate_down(), Some("two".to_string()));
    assert_eq!(h.navigate_down(), Some("typed".to_string()));
    assert_eq!(h.navigate_down(), None);
    h.navigate_up("again");
    h.reset_navigation();
    assert_eq!(h.navigate_down(), None);
}

#[test]
fn history_keeps_the_newest_commands() {
    let mut h = CommandHistory::new();
    for i in 0..MAX_HISTORY_SIZE + 5 {
        h.add_command(format!("cmd{}", i));
    }
    assert_eq!(h.commands().len(), MAX_HISTORY_SIZE);
    assert_eq!(h.commands()[0], "cmd5");
    assert_eq!(h.commands()[MAX_HISTORY_SIZE - 1], format!("cmd{}", MAX_HISTORY_SIZE + 4));
}

#[test]
fn loaded_lines_are_trimmed_and_blank_ones_skipped() {
    let mut h = CommandHistory::new();
    h.load_lines(&vec!["  git status  ".to_string(), "".to_string(), "\t".to_string(), "make".to_string()]);
    assert_eq!(h.commands(), &vec!["git status".to_string(), "make".to_string()]);
    let many: Vec<String> = (0..MAX_HISTORY_SIZE + 2).map(|i| format!("c{}", i)).collect();
    h.load_lines(&many);
    assert_eq!(h.commands().len(), MAX_HISTORY_SIZE);
    assert_eq!(h.commands()[0], "c2");
}
