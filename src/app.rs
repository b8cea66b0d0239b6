use vstd::prelude::*;

use crate::actions::{all_actions, help_le, sorted_for_help, Action};
use crate::config::{unbound, is_conflict, Config};
use crate::history::{after_add, after_down, after_up, strings_view, CommandHistory, HistoryView};
use crate::modes::{BottomBarMode, HelpConflictDialogSelection, InputContext, ScriptEndStatus};
use crate::grid::blank_rows;
use crate::model::TermView;
use crate::project::{lookup, scripts_view, ProjectConfig};
use crate::script::{marked_command, CMD_FINISHED_MARKER};
use crate::terminal::{max_scroll, VirtualTerminal, VtView};
use crate::text::{append_chars, chars_of, chars_to_string, trim_str, trimmed};

verus! {

/// Everything the screen shows and the keys act on: the shell pane, the
/// log, the bar at the bottom with its command line, and the help screen.
pub struct App {
    pub terminal: VirtualTerminal,
    pub logs: Vec<String>,
    pub bottom_bar_mode: BottomBarMode,
    pub should_quit: bool,
    pub command_input: String,
    /// The cursor of the command line, in characters from its start.
    pub command_cursor_position: usize,
    pub command_history: CommandHistory,
    pub config: Config,
    pub project_config: Option<ProjectConfig>,
    pub is_script_running: bool,
    pub current_script: String,
    pub status_message: String,
    pub input_context: Option<InputContext>,
    pub show_help: bool,
    pub help_selected_action_index: usize,
    pub is_editing_keybinding: bool,
    pub show_conflict_dialog: bool,
    pub key_conflicts: Vec<char>,
    pub conflict_dialog_selection: HelpConflictDialogSelection,
    pub sorted_actions: Vec<Action>,
}

/// The line logged when script `name` starts.
pub open spec fn started_log(name: Seq<char>) -> Seq<char> {
    "Script '"@ + name + "' running..."@
}

/// The line logged when script `name` ends in `status`.
pub open spec fn ended_log(name: Seq<char>, status: ScriptEndStatus) -> Seq<char> {
    match status {
        ScriptEndStatus::Finished => "Script '"@ + name + "' finished."@,
        ScriptEndStatus::Cancelled => "Script '"@ + name + "' cancelled."@,
    }
}

impl App {
    /// The parts are well formed and the cursor stands within the command
    /// line.
    pub open spec fn wf(&self) -> bool {
        &&& self.terminal.wf()
        &&& self.command_history.wf()
        &&& self.config.wf()
        &&& self.command_cursor_position <= self.command_input@.len()
    }

    /// A new screen whose shell pane is `cols` wide and shows `rows` rows,
    /// with the actions of the help screen in its order.
    pub fn new(
        cols: u16,
        rows: u16,
        config: Config,
        project_config: Option<ProjectConfig>,
        command_history: CommandHistory,
    ) -> (r: App)
        requires
            cols > 0,
            config.wf(),
            command_history.wf(),
        ensures
            r.wf(),
            r.terminal@ == (VtView {
                term: crate::model::TermView::initial(crate::terminal::SCROLLBACK_BUFFER_SIZE as nat, cols as nat),
                visible_rows: rows as nat,
                scroll_offset: 0,
            }),
            r.logs@.len() == 0,
            r.bottom_bar_mode == BottomBarMode::Tips,
            !r.should_quit,
            r.command_input@.len() == 0,
            r.command_cursor_position == 0,
            r.command_history == command_history,
            r.config == config,
            r.project_config == project_config,
            !r.is_script_running,
            r.current_script@.len() == 0,
            r.status_message@.len() == 0,
            r.input_context is None,
            !r.show_help,
            r.help_selected_action_index == 0,
            !r.is_editing_keybinding,
            !r.show_conflict_dialog,
            r.key_conflicts@.len() == 0,
            r.conflict_dialog_selection == HelpConflictDialogSelection::Inspect,
            r.sorted_actions@.to_multiset() == all_actions().to_multiset(),
            forall|i: int, j: int|
                0 <= i < j < r.sorted_actions@.len() ==> help_le(#[trigger] r.sorted_actions@[i], #[trigger] r.sorted_actions@[j]),
    {
        App {
            terminal: VirtualTerminal::new(rows, cols),
            logs: Vec::new(),
            bottom_bar_mode: BottomBarMode::Tips,
            should_quit: false,
            command_input: String::new(),
            command_cursor_position: 0,
            command_history,
            config,
            project_config,
            is_script_running: false,
            current_script: String::new(),
            status_message: String::new(),
            input_context: None,
            show_help: false,
            help_selected_action_index: 0,
            is_editing_keybinding: false,
            show_conflict_dialog: false,
            key_conflicts: Vec::new(),
            conflict_dialog_selection: HelpConflictDialogSelection::Inspect,
            sorted_actions: sorted_for_help(),
        }
    }

    /// Scrolls the shell pane one row back.
    pub fn scroll_up(&mut self)
        requires
            old(self).wf(),
        ensures
            final(self).wf(),
            *final(self) == (App { terminal: final(self).terminal, ..*old(self) }),
            final(self).terminal@ == (VtView {
                scroll_offset: crate::model::min_nat(
                    old(self).terminal@.scroll_offset + 1,
                    max_scroll(old(self).terminal@.term.bottom, old(self).terminal@.visible_rows),
                ),
                ..old(self).terminal@
            }),
    {
        self.terminal.scroll_up(1);
    }

    /// Scrolls the shell pane one row toward the tail.
    pub fn scroll_down(&mut self)
        requires
            old(self).wf(),
        ensures
            final(self).wf(),
            *final(self) == (App { terminal: final(self).terminal, ..*old(self) }),
            final(self).terminal@ == (VtView {
                scroll_offset: crate::model::sub_nat(old(self).terminal@.scroll_offset, 1),
                ..old(self).terminal@
            }),
    {
        self.terminal.scroll_down(1);
    }

    /// Moves the command-line cursor one character left, if it can.
    pub fn move_cursor_left(&mut self)
        requires
            old(self).wf(),
        ensures
            final(self).wf(),
            *final(self) == (App {
                command_cursor_position: crate::model::sub_nat(old(self).command_cursor_position as nat, 1) as usize,
                ..*old(self)
            }),
    {
        if self.command_cursor_position > 0 {
            self.command_cursor_position = self.command_cursor_position - 1;
        }
    }

    /// Moves the command-line cursor one character right, no further than
    /// the end of the line.
    pub fn move_cursor_right(&mut self)
        requires
            old(self).wf(),
        ensures
            final(self).wf(),
            *final(self) == (App {
                command_cursor_position: if old(self).command_cursor_position < old(self).command_input@.len() {
                    (old(self).command_cursor_position + 1) as usize
                } else {
                    old(self).command_cursor_position
                },
                ..*old(self)
            }),
    {
        let len = chars_of(self.command_input.as_str()).len();
        if self.command_cursor_position < len {
            self.command_cursor_position = self.command_cursor_position + 1;
        }
    }

    /// Types `new_char` at the cursor and moves the cursor past it.
    pub fn enter_char(&mut self, new_char: char)
        requires
            old(self).wf(),
        ensures
            final(self).wf(),
            final(self).command_input@ == old(self).command_input@.insert(
                old(self).command_cursor_position as int,
                new_char,
            ),
            final(self).command_cursor_position == old(self).command_cursor_position + 1,
            *final(self) == (App {
                command_input: final(self).command_input,
                command_cursor_position: final(self).command_cursor_position,
                ..*old(self)
            }),
    {
        let chars = chars_of(self.command_input.as_str());
        let cur = self.command_cursor_position;
        let mut out: Vec<char> = Vec::new();
        let mut k: usize = 0;
        while k < cur
            invariant
                k <= cur,
                cur <= chars@.len(),
                out@ == chars@.take(k as int),
            decreases cur - k,
        {
            out.push(chars[k]);
            proof {
                assert(chars@.take(k + 1) =~= chars@.take(k as int).push(chars@[k as int]));
            }
            k += 1;
        }
        out.push(new_char);
        let ghost head = out@;
        let mut m: usize = cur;
        while m < chars.len()
            invariant
                cur <= m <= chars@.len(),
                out@ == head + chars@.subrange(cur as int, m as int),
            decreases chars@.len() - m,
        {
            out.push(chars[m]);
            proof {
                assert(head + chars@.subrange(cur as int, m + 1) =~= (head + chars@.subrange(cur as int, m as int)).push(
                    chars@[m as int],
                ));
            }
            m += 1;
        }
        proof {
            assert(out@ =~= old(self).command_input@.insert(cur as int, new_char));
        }
        let n = out.len();
        self.command_input = chars_to_string(&out);
        proof {
            assert(cur + 1 <= n);
        }
        self.command_cursor_position = cur + 1;
    }

    /// Deletes the character before the cursor, if any, and moves the
    /// cursor back over it.
    pub fn delete_char(&mut self)
        requires
            old(self).wf(),
        ensures
            final(self).wf(),
            old(self).command_cursor_position == 0 ==> *final(self) == *old(self),
            old(self).command_cursor_position > 0 ==> {
                &&& final(self).command_input@ == old(self).command_input@.remove(
                    old(self).command_cursor_position - 1,
                )
                &&& final(self).command_cursor_position == old(self).command_cursor_position - 1
                &&& *final(self) == (App {
                    command_input: final(self).command_input,
                    command_cursor_position: final(self).command_cursor_position,
                    ..*old(self)
                })
            },
    {
        if self.command_cursor_position > 0 {
            let chars = chars_of(self.command_input.as_str());
            let cur = self.command_cursor_position;
            let mut out: Vec<char> = Vec::new();
            let mut k: usize = 0;
            while k < cur - 1
                invariant
                    0 < cur <= chars@.len(),
                    k <= cur - 1,
                    out@ == chars@.take(k as int),
                decreases cur - 1 - k,
            {
                out.push(chars[k]);
                proof {
                    assert(chars@.take(k + 1) =~= chars@.take(k as int).push(chars@[k as int]));
                }
                k += 1;
            }
            let ghost head = out@;
            let mut m: usize = cur;
            while m < chars.len()
                invariant
                    0 < cur <= m <= chars@.len(),
                    out@ == head + chars@.subrange(cur as int, m as int),
                decreases chars@.len() - m,
            {
                out.push(chars[m]);
                proof {
                    assert(head + chars@.subrange(cur as int, m + 1) =~= (head + chars@.subrange(cur as int, m as int)).push(
                        chars@[m as int],
                    ));
                }
                m += 1;
            }
            proof {
                assert(out@ =~= old(self).command_input@.remove(cur - 1));
            }
            self.command_input = chars_to_string(&out);
            self.command_cursor_position = cur - 1;
        }
    }

    /// Enters the command line, trimmed, into the history unless it is
    /// empty, then clears the line and goes back to the tips.
    pub fn submit_command(&mut self)
        requires
            old(self).wf(),
        ensures
            final(self).wf(),
            final(self).command_history@ == if trimmed(old(self).command_input@).len() > 0 {
                after_add(old(self).command_history@, trimmed(old(self).command_input@))
            } else {
                old(self).command_history@
            },
            final(self).command_input@.len() == 0,
            *final(self) == (App {
                command_history: final(self).command_history,
                command_input: final(self).command_input,
                command_cursor_position: 0,
                bottom_bar_mode: BottomBarMode::Tips,
                ..*old(self)
            }),
    {
        let cmd = chars_of(trim_str(self.command_input.as_str()));
        if cmd.len() > 0 {
            self.command_history.add_command(chars_to_string(&cmd));
        }
        self.command_input = String::new();
        self.command_cursor_position = 0;
        self.bottom_bar_mode = BottomBarMode::Tips;
    }

    /// Shows the next older command of the history in the command line, if
    /// there is one.
    pub fn navigate_history_up(&mut self)
        requires
            old(self).wf(),
        ensures
            final(self).wf(),
            final(self).command_history@ == after_up(old(self).command_history@, old(self).command_input@).0,
            match after_up(old(self).command_history@, old(self).command_input@).1 {
                Some(c) => final(self).command_input@ == c && final(self).command_cursor_position == c.len(),
                None => final(self).command_input == old(self).command_input && final(self).command_cursor_position
                    == old(self).command_cursor_position,
            },
            *final(self) == (App {
                command_history: final(self).command_history,
                command_input: final(self).command_input,
                command_cursor_position: final(self).command_cursor_position,
                ..*old(self)
            }),
    {
        match self.command_history.navigate_up(self.command_input.as_str()) {
            Some(command) => {
                let len = chars_of(command.as_str()).len();
                self.command_input = command;
                self.command_cursor_position = len;
            },
            None => {},
        }
    }

    /// Shows the next newer command of the history in the command line, or
    /// the input kept when navigation began.
    pub fn navigate_history_down(&mut self)
        requires
            old(self).wf(),
        ensures
            final(self).wf(),
            final(self).command_history@ == after_down(old(self).command_history@).0,
            match after_down(old(self).command_history@).1 {
                Some(c) => final(self).command_input@ == c && final(self).command_cursor_position == c.len(),
                None => final(self).command_input == old(self).command_input && final(self).command_cursor_position
                    == old(self).command_cursor_position,
            },
            *final(self) == (App {
                command_history: final(self).command_history,
                command_input: final(self).command_input,
                command_cursor_position: final(self).command_cursor_position,
                ..*old(self)
            }),
    {
        match self.command_history.navigate_down() {
            Some(command) => {
                let len = chars_of(command.as_str()).len();
                self.command_input = command;
                self.command_cursor_position = len;
            },
            None => {},
        }
    }

    /// Ends navigation through the history.
    pub fn reset_history_navigation(&mut self)
        requires
            old(self).wf(),
        ensures
            final(self).wf(),
            final(self).command_history@ == (HistoryView {
                index: None,
                temp_input: Seq::empty(),
                ..old(self).command_history@
            }),
            *final(self) == (App { command_history: final(self).command_history, ..*old(self) }),
    {
        self.command_history.reset_navigation();
    }

    /// Marks script `name` as running, shows `status_msg`, and logs that it
    /// started.
    pub fn start_script(&mut self, name: &str, status_msg: &str)
        requires
            old(self).wf(),
        ensures
            final(self).wf(),
            final(self).current_script@ == name@,
            final(self).status_message@ == status_msg@,
            strings_view(final(self).logs@) == strings_view(old(self).logs@).push(started_log(name@)),
            *final(self) == (App {
                is_script_running: true,
                current_script: final(self).current_script,
                status_message: final(self).status_message,
                bottom_bar_mode: BottomBarMode::Status,
                logs: final(self).logs,
                ..*old(self)
            }),
    {
        self.is_script_running = true;
        self.current_script = chars_to_string(&chars_of(name));
        self.status_message = chars_to_string(&chars_of(status_msg));
        self.bottom_bar_mode = BottomBarMode::Status;
        let mut line = chars_of("Script '");
        append_chars(&mut line, &chars_of(name));
        append_chars(&mut line, &chars_of("' running..."));
        let ghost before = self.logs@;
        self.logs.push(chars_to_string(&line));
        proof {
            assert(strings_view(self.logs@) =~= strings_view(before).push(started_log(name@)));
        }
    }

    /// Logs how the running script ended and goes back to the tips.
    pub fn finish_script(&mut self, status: ScriptEndStatus)
        requires
            old(self).wf(),
        ensures
            final(self).wf(),
            final(self).current_script@.len() == 0,
            final(self).status_message@.len() == 0,
            strings_view(final(self).logs@) == strings_view(old(self).logs@).push(
                ended_log(old(self).current_script@, status),
            ),
            *final(self) == (App {
                is_script_running: false,
                current_script: final(self).current_script,
                status_message: final(self).status_message,
                bottom_bar_mode: BottomBarMode::Tips,
                logs: final(self).logs,
                ..*old(self)
            }),
    {
        let mut line = chars_of("Script '");
        append_chars(&mut line, &chars_of(self.current_script.as_str()));
        match status {
            ScriptEndStatus::Finished => append_chars(&mut line, &chars_of("' finished.")),
            ScriptEndStatus::Cancelled => append_chars(&mut line, &chars_of("' cancelled.")),
        }
        let ghost before = self.logs@;
        self.logs.push(chars_to_string(&line));
        proof {
            assert(strings_view(self.logs@) =~= strings_view(before).push(ended_log(old(self).current_script@, status)));
        }
        self.is_script_running = false;
        self.current_script = String::new();
        self.status_message = String::new();
        self.bottom_bar_mode = BottomBarMode::Tips;
    }

    /// Looks for characters that reach two actions. Where there are none,
    /// closes the help screen and returns true; else opens the dialog about
    /// them and returns false.
    pub fn validate_and_prepare_to_close_help(&mut self) -> (r: bool)
        requires
            old(self).wf(),
        ensures
            final(self).wf(),
            forall|c: char| final(self).key_conflicts@.contains(c) <==> is_conflict(old(self).config@, c),
            final(self).key_conflicts@.no_duplicates(),
            r == (final(self).key_conflicts@.len() == 0),
            *final(self) == (App {
                key_conflicts: final(self).key_conflicts,
                show_help: if r { false } else { old(self).show_help },
                show_conflict_dialog: if r { old(self).show_conflict_dialog } else { true },
                ..*old(self)
            }),
    {
        self.key_conflicts = self.config.find_conflicts();
        if self.key_conflicts.len() == 0 {
            self.show_help = false;
            true
        } else {
            self.show_conflict_dialog = true;
            false
        }
    }

    /// Unbinds the editable actions bound to a conflicting character and
    /// forgets the conflicts.
    pub fn unbind_conflicting_keys(&mut self)
        requires
            old(self).wf(),
        ensures
            final(self).wf(),
            final(self).config@ == unbound(old(self).config@, old(self).key_conflicts@),
            final(self).key_conflicts@.len() == 0,
            *final(self) == (App { config: final(self).config, key_conflicts: final(self).key_conflicts, ..*old(self) }),
    {
        self.config.unbind_keys(&self.key_conflicts);
        self.key_conflicts = Vec::new();
    }

    /// Starts `command` in the shell pane as script `script_name`: clears
    /// the pane, marks the script running with `status` and a hint how to
    /// cancel it, and returns what is to be written to the shell.
    pub fn run_shell_command(&mut self, script_name: &str, command: &str, status: &str) -> (r: String)
        requires
            old(self).wf(),
        ensures
            final(self).wf(),
            r@ == command@ + seq!['\n'] + "echo "@ + CMD_FINISHED_MARKER@ + seq!['\n'],
            final(self).terminal@ == (VtView {
                term: TermView {
                    rows: blank_rows(old(self).terminal@.term.height, old(self).terminal@.term.width),
                    row: 0,
                    col: 0,
                    bottom: 0,
                    ..old(self).terminal@.term
                },
                scroll_offset: 0,
                ..old(self).terminal@
            }),
            final(self).current_script@ == script_name@,
            final(self).status_message@ == status@ + " (Press Ctrl+c to cancel)..."@,
            strings_view(final(self).logs@) == strings_view(old(self).logs@).push(started_log(script_name@)),
            *final(self) == (App {
                terminal: final(self).terminal,
                is_script_running: true,
                current_script: final(self).current_script,
                status_message: final(self).status_message,
                bottom_bar_mode: BottomBarMode::Status,
                logs: final(self).logs,
                ..*old(self)
            }),
    {
        self.terminal.clear();
        let text = marked_command(command);
        let mut message = chars_of(status);
        append_chars(&mut message, &chars_of(" (Press Ctrl+c to cancel)..."));
        let message = chars_to_string(&message);
        self.start_script(script_name, message.as_str());
        text
    }

    /// Runs the project's script `script_name` as `run_shell_command` does;
    /// `None`, with nothing changed, where the project has no such script.
    pub fn execute_project_script(&mut self, script_name: &str, status: &str) -> (r: Option<String>)
        requires
            old(self).wf(),
        ensures
            final(self).wf(),
            match script_of(old(self).project_config, script_name@) {
                None => r is None && *final(self) == *old(self),
                Some(c) => {
                    &&& r matches Some(t) && t@ == c + seq!['\n'] + "echo "@ + CMD_FINISHED_MARKER@ + seq!['\n']
                    &&& final(self).terminal@ == (VtView {
                        term: TermView {
                            rows: blank_rows(old(self).terminal@.term.height, old(self).terminal@.term.width),
                            row: 0,
                            col: 0,
                            bottom: 0,
                            ..old(self).terminal@.term
                        },
                        scroll_offset: 0,
                        ..old(self).terminal@
                    })
                    &&& final(self).current_script@ == script_name@
                    &&& final(self).status_message@ == status@ + " (Press Ctrl+c to cancel)..."@
                    &&& strings_view(final(self).logs@) == strings_view(old(self).logs@).push(started_log(script_name@))
                    &&& *final(self) == (App {
                        terminal: final(self).terminal,
                        is_script_running: true,
                        current_script: final(self).current_script,
                        status_message: final(self).status_message,
                        bottom_bar_mode: BottomBarMode::Status,
                        logs: final(self).logs,
                        ..*old(self)
                    })
                },
            },
    {
        let name = chars_to_string(&chars_of(script_name));
        let command = match &self.project_config {
            Some(config) => match config.script(&name) {
                Some(c) => Some(c.clone()),
                None => None,
            },
            None => None,
        };
        match command {
            Some(c) => Some(self.run_shell_command(script_name, c.as_str(), status)),
            None => None,
        }
    }

    /// The shell command that a line typed in input mode runs, with the
    /// script it counts as: a commit of everything with the line as its
    /// message, or the project's script for adding or removing packages
    /// followed by the line. `None` where the project has no such script.
    pub fn input_command(&self, context: InputContext, input: &str) -> (r: Option<(String, String)>)
        ensures
            match context {
                InputContext::CommitMessage => r matches Some((n, c)) && n@ == "commit"@ && c@
                    == "git add . && git commit -m \""@ + input@ + "\""@,
                _ => match script_of(self.project_config, context.spec_script().0@) {
                    None => r is None,
                    Some(base) => r matches Some((n, c)) && n@ == context.spec_script().0@ && c@ == base + seq![' ']
                        + input@,
                },
            },
    {
        let (script_name, _) = context.script();
        match context {
            InputContext::CommitMessage => {
                let mut c = chars_of("git add . && git commit -m \"");
                append_chars(&mut c, &chars_of(input));
                append_chars(&mut c, &chars_of("\""));
                Some((chars_to_string(&chars_of("commit")), chars_to_string(&c)))
            },
            _ => {
                let name = chars_to_string(&chars_of(script_name));
                match &self.project_config {
                    Some(config) => match config.script(&name) {
                        Some(base) => {
                            let mut c = chars_of(base.as_str());
                            c.push(' ');
                            append_chars(&mut c, &chars_of(input));
                            Some((name, chars_to_string(&c)))
                        },
                        None => None,
                    },
                    None => None,
                }
            },
        }
    }
}

/// The command of the script named `name` of the project, if there is a
/// project and it has one.
pub open spec fn script_of(p: Option<ProjectConfig>, name: Seq<char>) -> Option<Seq<char>> {
    match p {
        Some(c) => lookup(scripts_view(c.scripts@), name),
        None => None,
    }
}

} // verus!
