use vstd::prelude::*;

use crate::actions::{all_actions, Action};
use crate::text::{
    append_chars, char_is_whitespace, chars_of, chars_to_string, copy_chars, contains_seq, has_infix, replace_all,
    replace_chars, same_chars, string_of,
    trim_end_of, words, words_of,
};

verus! {

/// Echoed after each scripted command, so that its end shows in the output.
pub const CMD_FINISHED_MARKER: &'static str = "CLAY_CMD_FINISHED_MARKER_v1";

/// What is written to the shell to run `command`: the command, then an
/// echo of the marker, each on a line of its own.
pub fn marked_command(command: &str) -> (r: String)
    ensures
        r@ == command@ + seq!['\n'] + "echo "@ + CMD_FINISHED_MARKER@ + seq!['\n'],
{
    let mut v = chars_of(command);
    v.push('\n');
    append_chars(&mut v, &chars_of("echo "));
    append_chars(&mut v, &chars_of(CMD_FINISHED_MARKER));
    v.push('\n');
    chars_to_string(&v)
}

/// `s` without its trailing white space.
fn trim_end_chars(s: &Vec<char>) -> (r: String)
    ensures
        r@ == trim_end_of(s@),
{
    let mut end: usize = s.len();
    proof {
        assert(s@.take(end as int) =~= s@);
    }
    while end > 0 && char_is_whitespace(s[end - 1])
        invariant
            end <= s@.len(),
            trim_end_of(s@.take(end as int)) == trim_end_of(s@),
        decreases end,
    {
        proof {
            assert(s@.take(end as int).drop_last() =~= s@.take(end - 1));
        }
        end -= 1;
    }
    let r = string_of(s, 0, end);
    proof {
        assert(trim_end_of(s@.take(end as int)) == s@.take(end as int));
        assert(s@.subrange(0, end as int) =~= s@.take(end as int));
    }
    r
}

/// Output from the shell with the end-of-script marker taken out: where the
/// marker occurs, every occurrence is removed, the trailing white space is
/// trimmed, and the script has finished.
pub fn take_finish_marker(output: &str) -> (r: (String, bool))
    ensures
        r.1 == has_infix(output@, CMD_FINISHED_MARKER@),
        r.1 ==> r.0@ == trim_end_of(replace_all(output@, CMD_FINISHED_MARKER@, Seq::empty())),
        !r.1 ==> r.0@ == output@,
{
    let text = chars_of(output);
    let marker = chars_of(CMD_FINISHED_MARKER);
    if contains_seq(&text, &marker) {
        proof {
            reveal_strlit("CLAY_CMD_FINISHED_MARKER_v1");
        }
        let nothing: Vec<char> = Vec::new();
        let removed = replace_chars(&text, &marker, &nothing);
        (trim_end_chars(&removed), true)
    } else {
        (chars_to_string(&text), false)
    }
}

/// The action whose command is `cmd`, of several the first in declaration
/// order; "/exit" also quits.
pub open spec fn command_action(cmd: Seq<char>) -> Option<Action> {
    if exists|i: int| 0 <= i < all_actions().len() && (#[trigger] all_actions()[i]).spec_command_str()@ == cmd {
        let i = choose|i: int|
            0 <= i < all_actions().len() && (#[trigger] all_actions()[i]).spec_command_str()@ == cmd && forall|k: int|
                0 <= k < i ==> (#[trigger] all_actions()[k]).spec_command_str()@ != cmd;
        Some(all_actions()[i])
    } else if cmd == "/exit"@ {
        Some(Action::Quit)
    } else {
        None
    }
}

/// The action that a line typed in command mode names by its first word;
/// see `command_action`.
pub fn parse_command(input: &str) -> (r: Option<Action>)
    ensures
        r == command_action(if words(input@).len() > 0 {
            words(input@)[0]
        } else {
            Seq::empty()
        }),
{
    let text = chars_of(input);
    let ws = words_of(&text);
    let first: Vec<char> = if ws.len() > 0 {
        proof {
            assert(ws@.map_values(|w: Vec<char>| w@)[0] == ws@[0]@);
        }
        copy_chars(&ws[0])
    } else {
        Vec::new()
    };
    let ghost cmd = first@;
    proof {
        assert(cmd == if words(input@).len() > 0 {
            words(input@)[0]
        } else {
            Seq::<char>::empty()
        });
    }
    let actions = Action::all();
    let mut i: usize = 0;
    while i < actions.len()
        invariant
            i <= actions@.len(),
            actions@ == all_actions(),
            first@ == cmd,
            cmd == (if words(input@).len() > 0 {
                words(input@)[0]
            } else {
                Seq::<char>::empty()
            }),
            forall|k: int| 0 <= k < i ==> (#[trigger] all_actions()[k]).spec_command_str()@ != cmd,
        decreases actions@.len() - i,
    {
        let a = actions[i];
        let cs = a.command_str();
        let c = chars_of(cs);
        proof {
            assert(a == all_actions()[i as int]);
            assert(cs == a.spec_command_str());
            assert(c@ == a.spec_command_str()@);
        }
        if same_chars(&c, &first) {
            proof {
                assert(all_actions()[i as int].spec_command_str()@ == cmd);
                assert(0 <= i < all_actions().len() && (#[trigger] all_actions()[i as int]).spec_command_str()@ == cmd
                    && forall|k: int| 0 <= k < i ==> (#[trigger] all_actions()[k]).spec_command_str()@ != cmd);
                let j = choose|j: int|
                    0 <= j < all_actions().len() && (#[trigger] all_actions()[j]).spec_command_str()@ == cmd && forall|k: int|
                        0 <= k < j ==> (#[trigger] all_actions()[k]).spec_command_str()@ != cmd;
                assert(j == i) by {
                    if j < i {
                    } else if j > i {
                        assert(all_actions()[i as int].spec_command_str()@ != cmd);
                    }
                }
            }
            return Some(a);
        }
        i += 1;
    }
    let exit = chars_of("/exit");
    if same_chars(&exit, &first) {
        Some(Action::Quit)
    } else {
        None
    }
}

} // verus!
