use clay::actions::Action;
use clay::app::App;
use clay::config::{Config, Keybind};
use clay::history::CommandHistory;
use clay::modes::{BottomBarMode, InputContext, ScriptEndStatus};
use clay::project::{get_default_pnpm_config, get_default_rust_config};
use clay::script::CMD_FINISHED_MARKER;

fn app() -> App {
    App::new(20, 5, Config::default(), None, CommandHistory::new())
}

#[test]
fn editing_the_command_line() {
    let mut a = app();
    for c in "lst".chars() {
        a.enter_char(c);
    }
    a.move_cursor_left();
    a.enter_char(' ');
    assert_eq!(a.command_input, "ls t");
    assert_eq!(a.command_cursor_position, 3);
    a.delete_char();
    assert_eq!(a.command_input, "lst");
    assert_eq!(a.command_cursor_position, 2);
    a.move_cursor_right();
    a.move_cursor_right();
    assert_eq!(a.command_cursor_position, 3);
    for _ in 0..5 {
        a.move_cursor_left();
    }
    assert_eq!(a.command_cursor_position, 0);
    a.delete_char();
    assert_eq!(a.command_input, "lst");
    a.enter_char('\u{e9}');
    assert_eq!(a.command_input, "\u{e9}lst");
    assert_eq!(a.command_cursor_position, 1);
}

#[test]
fn submitted_commands_enter_history() {
    let mut a = app();
    for c in "  make  ".chars() {
        a.enter_char(c);
    }
    a.bottom_bar_mode = BottomBarMode::Command;
    a.submit_command();
    assert_eq!(a.command_input, "");
    assert_eq!(a.command_cursor_position, 0);
    assert_eq!(a.bottom_bar_mode, BottomBarMode::Tips);
    assert_eq!(a.command_history.commands(), &vec!["make".to_string()]);
    a.enter_char('x');
    a.navigate_history_up();
    assert_eq!(a.command_input, "make");
    assert_eq!(a.command_cursor_position, 4);
    a.navigate_history_down();
    assert_eq!(a.command_input, "x");
    assert_eq!(a.command_cursor_position, 1);
    a.submit_command();
    a.submit_command();
    assert_eq!(a.command_history.commands().len(), 2);
}

#[test]
fn scripts_are_logged() {
    let mut a = app();
    a.start_script("build", "Building");
    assert!(a.is_script_running);
    assert_eq!(a.bottom_bar_mode, BottomBarMode::Status);
    assert_eq!(a.status_message, "Building");
    a.finish_script(ScriptEndStatus::Cancelled);
    assert!(!a.is_script_running);
    assert_eq!(a.current_script, "");
    assert_eq!(a.logs, vec!["Script 'build' running...".to_string(), "Script 'build' cancelled.".to_string()]);
    a.start_script("lint", "Formatting");
    a.finish_script(ScriptEndStatus::Finished);
    assert_eq!(a.logs[3], "Script 'lint' finished.");
}

#[test]
fn help_closes_only_without_conflicts() {
    let mut a = app();
    a.show_help = true;
    assert!(a.validate_and_prepare_to_close_help());
    assert!(!a.show_help);
    a.show_help = true;
    a.config.set_keybind(Action::Clean, Keybind::Char('h'));
    assert!(!a.validate_and_prepare_to_close_help());
    assert!(a.show_help);
    assert!(a.show_conflict_dialog);
    assert_eq!(a.key_conflicts, vec!['h']);
    a.unbind_conflicting_keys();
    assert!(a.key_conflicts.is_empty());
    assert_eq!(a.config.get_keybind(Action::Clean), Some(&Keybind::Unbound));
}

#[test]
fn help_lists_fixed_actions_first_then_by_command() {
    let a = app();
    let commands: Vec<&str> = a.sorted_actions.iter().map(|x| x.command_str()).collect();
    assert_eq!(commands.len(), 20);
    assert_eq!(&commands[..6], &["/", "/c", "/down", "/help", "/quit", "/up"]);
    assert_eq!(commands[6], "/add");
    assert_eq!(commands[19], "/ver");
}

#[test]
fn pane_scrolls_through_the_app() {
    let mut a = app();
    a.terminal.process_bytes(b"1\r\n2\r\n3\r\n4\r\n5\r\n6\r\n7");
    a.scroll_up();
    assert_eq!(a.terminal.scroll_offset(), 1);
    a.scroll_down();
    a.scroll_down();
    assert_eq!(a.terminal.scroll_offset(), 0);
}

#[test]
fn shell_commands_start_scripts() {
    let mut a = App::new(20, 5, Config::default(), Some(get_default_rust_config()), CommandHistory::new());
    a.terminal.process_bytes(b"old output");
    let text = a.run_shell_command("push", "git push", "Pushing");
    assert_eq!(text, format!("git push\necho {}\n", CMD_FINISHED_MARKER));
    assert_eq!(a.terminal.state().cursor(), (0, 0));
    assert_eq!(a.status_message, "Pushing (Press Ctrl+c to cancel)...");
    assert_eq!(a.current_script, "push");
    let built = a.execute_project_script("build", "Building").unwrap();
    assert!(built.starts_with("cargo build\n"));
    assert!(a.execute_project_script("missing", "Nothing").is_none());
    assert_eq!(a.current_script, "build");
}

#[test]
fn typed_lines_become_commands() {
    let a = App::new(20, 5, Config::default(), Some(get_default_pnpm_config()), CommandHistory::new());
    assert_eq!(
        a.input_command(InputContext::AddPackage, "react"),
        Some(("add".to_string(), "pnpm add react".to_string()))
    );
    assert_eq!(
        a.input_command(InputContext::CommitMessage, "fix: typo"),
        Some(("commit".to_string(), "git add . && git commit -m \"fix: typo\"".to_string()))
    );
    let b = app();
    assert_eq!(b.input_command(InputContext::RemovePackage, "x"), None);
}
