//! The keys of the command panel: typing, completing and leaving.
use vstd::prelude::*;
use crate::chars::{chars_of, push_char, string_of};
use crate::editor::{App, AppMode, texts};
use crate::keys::{Key, KeyPress};
use crate::text::{eq_chars, has_prefix, starts_with_spec};

verus! {

/// What the command panel made of a key.
#[derive(Clone, Copy, Debug, PartialEq, Eq, Structural)]
pub enum CommandOutcome {
    /// The key was handled (or the panel is not open).
    Done,
    /// Enter: the caller runs the command typed in the panel.
    Execute,
}

/// The completions in `cs` that start with `p`, in order.
pub open spec fn matching(cs: Seq<Seq<char>>, p: Seq<char>) -> Seq<Seq<char>>
    decreases cs.len(),
{
    if cs.len() == 0 {
        Seq::empty()
    } else {
        let rest = matching(cs.drop_last(), p);
        if starts_with_spec(cs.last(), p) {
            rest.push(cs.last())
        } else {
            rest
        }
    }
}

/// The index of the first entry of `ms` at or after `i` equal to `x`;
/// `ms.len()` where there is none.
pub open spec fn index_in(ms: Seq<Seq<char>>, x: Seq<char>, i: int) -> int
    decreases ms.len() - i,
{
    if i < 0 || i >= ms.len() {
        ms.len() as int
    } else if ms[i] == x {
        i
    } else {
        index_in(ms, x, i + 1)
    }
}

/// What Tab leaves in the panel: where the typed text is one of the
/// completions that start with it, the next of them (after the last, the
/// first again); else the first of them; with none, the typed text.
pub open spec fn tab_completion(cs: Seq<Seq<char>>, input: Seq<char>) -> Seq<char> {
    let ms = matching(cs, input);
    if ms.len() == 0 {
        input
    } else {
        let k = index_in(ms, input, 0);
        if k < ms.len() {
            ms[(k + 1) % (ms.len() as int)]
        } else {
            ms[0]
        }
    }
}

/// The first completion at or after `i` that starts with `input` and is longer.
pub open spec fn first_extension(cs: Seq<Seq<char>>, input: Seq<char>, i: int) -> Option<
    Seq<char>,
>
    decreases cs.len() - i,
{
    if i < 0 || i >= cs.len() {
        None
    } else if starts_with_spec(cs[i], input) && cs[i] != input {
        Some(cs[i])
    } else {
        first_extension(cs, input, i + 1)
    }
}

/// What Right leaves in the panel: the first completion that extends the
/// typed text, where there is typed text and such a completion.
pub open spec fn right_completion(cs: Seq<Seq<char>>, input: Seq<char>) -> Seq<char> {
    if input.len() == 0 {
        input
    } else {
        match first_extension(cs, input, 0) {
            Some(c) => c,
            None => input,
        }
    }
}

/// Only the panel's own state differs between `pre` and `post`.
pub open spec fn panel_only(pre: App, post: App) -> bool {
    post == App {
        mode: post.mode,
        command_input: post.command_input,
        command_error: post.command_error,
        ..pre
    }
}

fn matching_of(cs: &Vec<Vec<char>>, p: &Vec<char>) -> (r: Vec<Vec<char>>)
    ensures
        r@.map_values(|v: Vec<char>| v@) == matching(cs@.map_values(|v: Vec<char>| v@), p@),
{
    let ghost all = cs@.map_values(|v: Vec<char>| v@);
    let mut r: Vec<Vec<char>> = Vec::new();
    let mut i: usize = 0;
    while i < cs.len()
        invariant
            i <= cs.len(),
            all == cs@.map_values(|v: Vec<char>| v@),
            r@.map_values(|v: Vec<char>| v@) == matching(all.take(i as int), p@),
        decreases cs.len() - i,
    {
        proof {
            assert(all.take(i + 1).drop_last() =~= all.take(i as int));
            assert(all.take(i + 1).last() == cs@[i as int]@);
        }
        if has_prefix(&cs[i], p) {
            let ghost before = r@;
            r.push(cs[i].clone());
            proof {
                assert(r@.map_values(|v: Vec<char>| v@) =~= before.map_values(|v: Vec<char>| v@).push(
                    cs@[i as int]@,
                ));
            }
        }
        i += 1;
    }
    proof {
        assert(all.take(cs.len() as int) =~= all);
    }
    r
}

fn index_of(ms: &Vec<Vec<char>>, x: &Vec<char>) -> (r: usize)
    ensures
        r == index_in(ms@.map_values(|v: Vec<char>| v@), x@, 0),
{
    let ghost all = ms@.map_values(|v: Vec<char>| v@);
    let mut i: usize = 0;
    while i < ms.len()
        invariant
            i <= ms.len(),
            all == ms@.map_values(|v: Vec<char>| v@),
            index_in(all, x@, 0) == index_in(all, x@, i as int),
        decreases ms.len() - i,
    {
        if eq_chars(&ms[i], x) {
            return i;
        }
        i += 1;
    }
    i
}

fn extension_of(cs: &Vec<Vec<char>>, input: &Vec<char>) -> (r: Option<Vec<char>>)
    ensures
        match (r, first_extension(cs@.map_values(|v: Vec<char>| v@), input@, 0)) {
            (Some(a), Some(b)) => a@ == b,
            (None, None) => true,
            _ => false,
        },
{
    let ghost all = cs@.map_values(|v: Vec<char>| v@);
    let mut i: usize = 0;
    while i < cs.len()
        invariant
            i <= cs.len(),
            all == cs@.map_values(|v: Vec<char>| v@),
            first_extension(all, input@, 0) == first_extension(all, input@, i as int),
        decreases cs.len() - i,
    {
        if has_prefix(&cs[i], input) && !eq_chars(&cs[i], input) {
            return Some(cs[i].clone());
        }
        i += 1;
    }
    None
}

impl App {
    /// Handles `key` in the command panel, given the commands that the panel
    /// completes to: Esc closes the panel, Tab and Right complete, Backspace
    /// deletes (an emptied panel closes), a character is typed, and Enter
    /// asks the caller to run the command. Outside the panel nothing happens.
    pub fn handle_command(&mut self, key: KeyPress, completions: &Vec<String>) -> (r: CommandOutcome)
        ensures
            panel_only(*old(self), *final(self)),
            r == (if old(self).mode == AppMode::Command && key.code == Key::Enter {
                CommandOutcome::Execute
            } else {
                CommandOutcome::Done
            }),
            ({
                let input = old(self).command_input@;
                let cs = texts(completions@);
                if old(self).mode != AppMode::Command {
                    *final(self) == *old(self)
                } else {
                    match key.code {
                        Key::Esc => {
                            &&& final(self).mode == old(self).previous_mode
                            &&& final(self).command_input@.len() == 0
                            &&& !final(self).command_error
                        },
                        Key::Tab => {
                            &&& final(self).mode == old(self).mode
                            &&& final(self).command_input@ == tab_completion(cs, input)
                            &&& final(self).command_error == old(self).command_error
                        },
                        Key::Right => {
                            &&& final(self).mode == old(self).mode
                            &&& final(self).command_input@ == right_completion(cs, input)
                            &&& final(self).command_error == old(self).command_error
                        },
                        Key::Backspace => {
                            let left = if input.len() > 0 {
                                input.drop_last()
                            } else {
                                input
                            };
                            &&& final(self).command_input@ == left
                            &&& final(self).mode == if left.len() == 0 {
                                old(self).previous_mode
                            } else {
                                old(self).mode
                            }
                            &&& !final(self).command_error
                        },
                        Key::Char(c) => {
                            &&& final(self).mode == old(self).mode
                            &&& final(self).command_input@ == input.push(c)
                            &&& !final(self).command_error
                        },
                        _ => *final(self) == *old(self),
                    }
                }
            }),
    {
        if self.mode != AppMode::Command {
            return CommandOutcome::Done;
        }
        match key.code {
            Key::Esc => {
                self.mode = self.previous_mode;
                self.command_input = String::new();
                self.command_error = false;
            },
            Key::Tab => {
                let cs = completion_chars(completions);
                let input = chars_of(self.command_input.as_str());
                let ms = matching_of(&cs, &input);
                if ms.len() > 0 {
                    let k = index_of(&ms, &input);
                    let next = if k < ms.len() {
                        (k + 1) % ms.len()
                    } else {
                        0
                    };
                    proof {
                        if k < ms.len() {
                            assert(ms@.map_values(|v: Vec<char>| v@)[next as int] == ms@[next as int]@);
                        } else {
                            assert(ms@.map_values(|v: Vec<char>| v@)[0] == ms@[0]@);
                        }
                    }
                    self.command_input = string_of(&ms[next]);
                }
            },
            Key::Right => {
                let input = chars_of(self.command_input.as_str());
                if input.len() > 0 {
                    let cs = completion_chars(completions);
                    match extension_of(&cs, &input) {
                        Some(c) => {
                            self.command_input = string_of(&c);
                        },
                        None => {},
                    }
                }
            },
            Key::Backspace => {
                let mut input = chars_of(self.command_input.as_str());
                if input.len() > 0 {
                    input.pop();
                }
                self.command_input = string_of(&input);
                if input.len() == 0 {
                    self.mode = self.previous_mode;
                }
                self.command_error = false;
            },
            Key::Enter => {
                return CommandOutcome::Execute;
            },
            Key::Char(c) => {
                push_char(&mut self.command_input, c);
                self.command_error = false;
            },
            _ => {},
        }
        CommandOutcome::Done
    }
}

fn completion_chars(cs: &Vec<String>) -> (r: Vec<Vec<char>>)
    ensures
        r@.map_values(|v: Vec<char>| v@) == texts(cs@),
{
    let mut r: Vec<Vec<char>> = Vec::new();
    let mut i: usize = 0;
    while i < cs.len()
        invariant
            i <= cs.len(),
            r@.len() == i,
            forall|k: int| 0 <= k < i ==> #[trigger] r@[k]@ == cs@[k]@,
        decreases cs.len() - i,
    {
        r.push(chars_of(cs[i].as_str()));
        i += 1;
    }
    proof {
        assert(r@.map_values(|v: Vec<char>| v@) =~= texts(cs@));
    }
    r
}

} // verus!
