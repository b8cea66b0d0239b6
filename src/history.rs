use vstd::prelude::*;

use crate::text::{blank, is_blank, trim_str, trimmed};

verus! {

/// Commands the history keeps; the oldest go first.
pub const MAX_HISTORY_SIZE: usize = 500;

/// The saved lines that a history keeps: each trimmed, the blank ones left
/// out.
pub open spec fn kept_lines(lines: Seq<Seq<char>>) -> Seq<Seq<char>>
    decreases lines.len(),
{
    if lines.len() == 0 {
        Seq::empty()
    } else {
        let t = trimmed(lines.last());
        if t.len() == 0 {
            kept_lines(lines.drop_last())
        } else {
            kept_lines(lines.drop_last()).push(t)
        }
    }
}

/// The commands as character sequences.
pub open spec fn strings_view(v: Seq<String>) -> Seq<Seq<char>> {
    v.map_values(|s: String| s@)
}

/// The last `MAX_HISTORY_SIZE` of `cmds`.
pub open spec fn capped(cmds: Seq<Seq<char>>) -> Seq<Seq<char>> {
    if cmds.len() > MAX_HISTORY_SIZE {
        cmds.skip(cmds.len() - MAX_HISTORY_SIZE)
    } else {
        cmds
    }
}

/// The history as plain values: the commands, oldest first, the entry
/// being looked at while navigating, and the input that was being typed
/// when navigation began.
pub struct HistoryView {
    pub commands: Seq<Seq<char>>,
    pub index: Option<nat>,
    pub temp_input: Seq<char>,
}

/// The history after `command` is entered: unchanged where the command is
/// blank or repeats the newest one; else the command added, the oldest
/// dropped beyond `MAX_HISTORY_SIZE`, and navigation ended.
pub open spec fn after_add(h: HistoryView, command: Seq<char>) -> HistoryView {
    if blank(command) || (h.commands.len() > 0 && h.commands.last() == command) {
        h
    } else {
        HistoryView { commands: capped(h.commands.push(command)), index: None, temp_input: Seq::empty() }
    }
}

/// One step back through the history, with `current` the input being typed:
/// the history after it and the command it shows, if any.
pub open spec fn after_up(h: HistoryView, current: Seq<char>) -> (HistoryView, Option<Seq<char>>) {
    let n = h.commands.len();
    if n == 0 {
        (h, None)
    } else {
        match h.index {
            None => (HistoryView { index: Some((n - 1) as nat), temp_input: current, ..h }, Some(h.commands[n - 1])),
            Some(i) => if i > 0 {
                (HistoryView { index: Some((i - 1) as nat), ..h }, Some(h.commands[i - 1]))
            } else {
                (h, None)
            },
        }
    }
}

/// One step forward through the history: the history after it and what it
/// shows, the kept input once past the newest command.
pub open spec fn after_down(h: HistoryView) -> (HistoryView, Option<Seq<char>>) {
    match h.index {
        None => (h, None),
        Some(i) => if i + 1 < h.commands.len() {
            (HistoryView { index: Some(i + 1), ..h }, Some(h.commands[i + 1 as int]))
        } else {
            (HistoryView { index: None, ..h }, Some(h.temp_input))
        },
    }
}

/// A returned text as a character sequence.
pub open spec fn text_view(r: Option<String>) -> Option<Seq<char>> {
    match r {
        Some(s) => Some(s@),
        None => None,
    }
}

/// The commands entered so far, and where the user stands while stepping
/// through them.
pub struct CommandHistory {
    commands: Vec<String>,
    current_index: Option<usize>,
    temp_input: String,
}

impl View for CommandHistory {
    type V = HistoryView;

    closed spec fn view(&self) -> HistoryView {
        HistoryView {
            commands: strings_view(self.commands@),
            index: match self.current_index {
                Some(i) => Some(i as nat),
                None => None,
            },
            temp_input: self.temp_input@,
        }
    }
}

impl CommandHistory {
    /// At most `MAX_HISTORY_SIZE` commands; a navigation index points at
    /// one of them.
    pub open spec fn wf(&self) -> bool {
        &&& self@.commands.len() <= MAX_HISTORY_SIZE
        &&& (self@.index matches Some(i) ==> i < self@.commands.len())
    }

    /// An empty history, not navigating.
    pub fn new() -> (r: CommandHistory)
        ensures
            r.wf(),
            r@ == (HistoryView { commands: Seq::empty(), index: None, temp_input: Seq::empty() }),
    {
        let r = CommandHistory { commands: Vec::new(), current_index: None, temp_input: String::new() };
        proof {
            assert(r@.commands =~= Seq::<Seq<char>>::empty());
        }
        r
    }

    /// Adds saved commands, each line trimmed and blank ones skipped, then
    /// keeps the newest `MAX_HISTORY_SIZE`.
    pub fn load_lines(&mut self, lines: &Vec<String>)
        requires
            old(self).wf(),
        ensures
            final(self).wf(),
            final(self)@ == (HistoryView {
                commands: capped(old(self)@.commands + kept_lines(strings_view(lines@))),
                ..old(self)@
            }),
    {
        let mut i: usize = 0;
        while i < lines.len()
            invariant
                i <= lines@.len(),
                self.current_index == old(self).current_index,
                self.temp_input@ == old(self)@.temp_input,
                strings_view(self.commands@) == old(self)@.commands + kept_lines(strings_view(lines@.take(i as int))),
            decreases lines@.len() - i,
        {
            let t = trim_str(lines[i].as_str());
            proof {
                assert(strings_view(lines@.take(i as int + 1)).drop_last() =~= strings_view(lines@.take(i as int)));
            }
            if !t.is_empty() {
                let ghost before = strings_view(self.commands@);
                self.commands.push(t.to_owned());
                proof {
                    assert(strings_view(self.commands@) =~= before.push(t@));
                    assert(old(self)@.commands + kept_lines(strings_view(lines@.take(i as int + 1))) =~= (old(self)@.commands
                        + kept_lines(strings_view(lines@.take(i as int)))).push(t@));
                }
            }
            i += 1;
        }
        proof {
            assert(lines@.take(i as int) =~= lines@);
        }
        let ghost all = strings_view(self.commands@);
        if self.commands.len() > MAX_HISTORY_SIZE {
            let extra = self.commands.len() - MAX_HISTORY_SIZE;
            let mut kept: Vec<String> = Vec::new();
            let mut k: usize = extra;
            while k < self.commands.len()
                invariant
                    extra <= k <= self.commands@.len(),
                    all == strings_view(self.commands@),
                    extra == all.len() - MAX_HISTORY_SIZE,
                    strings_view(kept@) == all.subrange(extra as int, k as int),
                decreases self.commands@.len() - k,
            {
                let ghost before = kept@;
                let c = self.commands[k].clone();
                kept.push(c);
                proof {
                    assert(c@ == all[k as int]);
                    assert(kept@ == before.push(c));
                    assert(strings_view(kept@) =~= strings_view(before).push(c@));
                    assert(strings_view(kept@) =~= all.subrange(extra as int, k as int + 1));
                }
                k += 1;
            }
            self.commands = kept;
            proof {
                assert(strings_view(self.commands@) =~= capped(all));
            }
        }
    }

    /// Adds `command` unless it is blank or repeats the newest command,
    /// drops the oldest beyond `MAX_HISTORY_SIZE`, and ends navigation.
    pub fn add_command(&mut self, command: String)
        requires
            old(self).wf(),
        ensures
            final(self).wf(),
            final(self)@ == after_add(old(self)@, command@),
    {
        if is_blank(command.as_str()) {
            return;
        }
        let n = self.commands.len();
        if n > 0 && self.commands[n - 1] == command {
            return;
        }
        let ghost pushed = old(self)@.commands.push(command@);
        self.commands.push(command);
        proof {
            assert(strings_view(self.commands@) =~= pushed);
        }
        if self.commands.len() > MAX_HISTORY_SIZE {
            self.commands.remove(0);
            proof {
                assert(strings_view(self.commands@) =~= capped(pushed));
            }
        }
        self.reset_navigation();
    }

    /// Steps to the next older command and returns it; on the first step,
    /// keeps `current_input` to come back to. `None` where there is no
    /// older command.
    pub fn navigate_up(&mut self, current_input: &str) -> (r: Option<String>)
        requires
            old(self).wf(),
        ensures
            final(self).wf(),
            (final(self)@, text_view(r)) == after_up(old(self)@, current_input@),
    {
        let n = self.commands.len();
        if n == 0 {
            return None;
        }
        match self.current_index {
            None => {
                self.temp_input = current_input.to_owned();
                self.current_index = Some(n - 1);
                Some(self.commands[n - 1].clone())
            },
            Some(i) => {
                if i > 0 {
                    self.current_index = Some(i - 1);
                    Some(self.commands[i - 1].clone())
                } else {
                    None
                }
            },
        }
    }

    /// Steps to the next newer command and returns it; past the newest,
    /// ends navigation and returns the input kept when it began. `None`
    /// where not navigating.
    pub fn navigate_down(&mut self) -> (r: Option<String>)
        requires
            old(self).wf(),
        ensures
            final(self).wf(),
            (final(self)@, text_view(r)) == after_down(old(self)@),
    {
        match self.current_index {
            None => None,
            Some(i) => {
                if i < self.commands.len() - 1 {
                    self.current_index = Some(i + 1);
                    Some(self.commands[i + 1].clone())
                } else {
                    self.current_index = None;
                    Some(self.temp_input.clone())
                }
            },
        }
    }

    /// Ends navigation and forgets the kept input.
    pub fn reset_navigation(&mut self)
        requires
            old(self).wf(),
        ensures
            final(self).wf(),
            final(self)@ == (HistoryView { index: None, temp_input: Seq::empty(), ..old(self)@ }),
    {
        self.current_index = None;
        self.temp_input = String::new();
    }

    /// The commands, oldest first.
    pub fn commands(&self) -> (r: &Vec<String>)
        ensures
            strings_view(r@) == self@.commands,
    {
        &self.commands
    }
}

} // verus!
