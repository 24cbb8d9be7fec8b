//! The modal (vi-style) key layer. In its normal sub-mode letters move the
//! cursor and edit; `i`, `a`, `o` and their capitals enter the insert
//! sub-mode, where keys type text until Esc.
use vstd::prelude::*;
use crate::editing::{
    cut_line_post, delete_word_forward_post, paste_post, delete_forward_post, end_post, home_post, left_post, newline_post, redone, right_post, undone,
    up_post, down_post, word_left_post, word_right_post,
};
use crate::editor::{App, AppMode};
use crate::keys::{Key, KeyPress};
use crate::text::{is_whitespace, is_ws};

verus! {

/// What became of a key in the modal layer.
#[derive(Clone, Copy, Debug, PartialEq, Eq, Structural)]
pub enum VimResult {
    /// Not the layer's key: the regular editor handles it.
    FallThrough,
    /// Handled.
    Handled,
}

/// The cursor motion or edit that a key makes.
#[derive(Clone, Copy, Debug, PartialEq, Eq, Structural)]
pub enum VimAction {
    Nothing,
    Left,
    Right,
    Up,
    Down,
    WordRight,
    WordLeft,
    /// To the last character of the word (`e`).
    WordEnd,
    Home,
    End,
    /// A new line below the cursor's line (`o`).
    OpenBelow,
    /// A new line above the cursor's line (`O`).
    OpenAbove,
    DeleteChar,
    /// The line goes to the clipboard (`dd`).
    CutLine,
    /// The word after the cursor goes (`dw`).
    DeleteWordForward,
    /// One step right, then the clipboard is pasted (`p`).
    PasteAfter,
    /// The clipboard is pasted at the cursor (`P`).
    PasteBefore,
    Undo,
    Redo,
}

/// What a key does in the modal layer.
#[derive(Clone, Copy, Debug, PartialEq, Eq, Structural)]
pub struct VimPlan {
    pub result: VimResult,
    pub action: VimAction,
    /// The selection is cleared.
    pub clears_selection: bool,
    /// The visual column that vertical motion keeps is to be taken again.
    pub update_target_x: bool,
    pub text_changed: bool,
    pub cursor_moved: bool,
    /// The insert sub-mode after the key.
    pub insert: bool,
    /// The operator waiting after the key.
    pub pending: Option<char>,
    /// The command panel opens.
    pub opens_command: bool,
}

/// A key that the layer leaves to the regular editor.
pub open spec fn fall_through(insert: bool, pending: Option<char>) -> VimPlan {
    VimPlan {
        result: VimResult::FallThrough,
        action: VimAction::Nothing,
        clears_selection: false,
        update_target_x: false,
        text_changed: false,
        cursor_moved: false,
        insert,
        pending,
        opens_command: false,
    }
}

/// A key that the layer handles.
pub open spec fn done(
    action: VimAction,
    clears: bool,
    target_x: bool,
    text: bool,
    moved: bool,
    insert: bool,
) -> VimPlan {
    VimPlan {
        result: VimResult::Handled,
        action,
        clears_selection: clears,
        update_target_x: target_x,
        text_changed: text,
        cursor_moved: moved,
        insert,
        pending: None,
        opens_command: false,
    }
}

/// What a letter does in the normal sub-mode, Control not held.
pub open spec fn char_plan(c: char) -> VimPlan {
    if c == 'h' {
        done(VimAction::Left, true, true, false, true, false)
    } else if c == 'l' {
        done(VimAction::Right, true, true, false, true, false)
    } else if c == 'j' {
        done(VimAction::Down, true, false, false, true, false)
    } else if c == 'k' {
        done(VimAction::Up, true, false, false, true, false)
    } else if c == 'w' {
        done(VimAction::WordRight, true, true, false, true, false)
    } else if c == 'b' {
        done(VimAction::WordLeft, true, true, false, true, false)
    } else if c == 'e' {
        done(VimAction::WordEnd, true, true, false, true, false)
    } else if c == '0' {
        done(VimAction::Home, true, true, false, true, false)
    } else if c == '$' {
        done(VimAction::End, true, true, false, true, false)
    } else if c == 'i' {
        done(VimAction::Nothing, false, false, false, false, true)
    } else if c == 'I' {
        done(VimAction::Home, false, true, false, true, true)
    } else if c == 'a' {
        done(VimAction::Right, false, true, false, true, true)
    } else if c == 'A' {
        done(VimAction::End, false, true, false, true, true)
    } else if c == 'o' {
        done(VimAction::OpenBelow, false, true, true, true, true)
    } else if c == 'O' {
        done(VimAction::OpenAbove, false, true, true, true, true)
    } else if c == 'x' {
        done(VimAction::DeleteChar, false, true, true, true, false)
    } else if c == 'p' {
        done(VimAction::PasteAfter, false, true, true, true, false)
    } else if c == 'P' {
        done(VimAction::PasteBefore, false, true, true, true, false)
    } else if c == 'd' {
        VimPlan { pending: Some('d'), ..done(VimAction::Nothing, false, false, false, false, false) }
    } else if c == 'u' {
        done(VimAction::Undo, false, true, true, true, false)
    } else if c == 'U' {
        done(VimAction::Redo, false, true, true, true, false)
    } else if c == ':' {
        VimPlan { opens_command: true, ..done(VimAction::Nothing, false, false, false, false, false) }
    } else {
        done(VimAction::Nothing, false, false, false, false, false)
    }
}

/// What key `k` does in the modal layer: with the layer on (`modal`) and the
/// editor on its normal screen (`normal`), in the insert sub-mode or not,
/// with operator `pending` waiting, the cursor at column `cursor_x`.
pub open spec fn vim_plan_spec(
    modal: bool,
    normal: bool,
    insert: bool,
    pending: Option<char>,
    k: KeyPress,
    cursor_x: int,
) -> VimPlan {
    if !modal || !normal {
        fall_through(insert, pending)
    } else if insert {
        if k.code == Key::Esc && !k.ctrl {
            let back = cursor_x > 0;
            done(if back { VimAction::Left } else { VimAction::Nothing }, false, back, false, back, false)
        } else {
            fall_through(true, pending)
        }
    } else if pending == Some('d') && k.code == Key::Char('d') && !k.ctrl {
        done(VimAction::CutLine, false, true, true, true, false)
    } else if pending == Some('d') && k.code == Key::Char('w') && !k.ctrl {
        done(VimAction::DeleteWordForward, false, true, true, true, false)
    } else {
        match k.code {
            Key::Char(c) => if k.ctrl { fall_through(false, None) } else { char_plan(c) },
            _ => fall_through(false, None),
        }
    }
}

/// The first column at or after `x` that is not whitespace.
pub open spec fn skip_ws(s: Seq<char>, x: int) -> int
    decreases s.len() - x,
{
    if 0 <= x < s.len() && is_ws(s[x]) {
        skip_ws(s, x + 1)
    } else {
        x
    }
}

/// The last column of the word that column `x` is in.
pub open spec fn word_last(s: Seq<char>, x: int) -> int
    decreases s.len() - x,
{
    if 0 <= x && x + 1 < s.len() && !is_ws(s[x + 1]) {
        word_last(s, x + 1)
    } else {
        x
    }
}

/// Where `e` goes from column `x`: one step off a word character, over
/// whitespace, then to the last character of that word.
pub open spec fn word_end_target(s: Seq<char>, x: int) -> int {
    let x1 = if 0 <= x < s.len() && !is_ws(s[x]) { x + 1 } else { x };
    word_last(s, skip_ws(s, x1))
}

/// The column that `e` leaves the cursor at: the target, where it is on
/// the line; else the cursor stays.
pub open spec fn word_end_col(s: Seq<char>, x: int) -> int {
    if word_end_target(s, x) < s.len() {
        word_end_target(s, x)
    } else {
        x
    }
}

/// What `action` does to the editor's text and cursor; only undo and redo
/// touch the undo history, and only a cut the clipboard.
pub open spec fn acted(pre: App, post: App, action: VimAction) -> bool {
    &&& (!(action is Undo) && !(action is Redo) ==> post.undo_stack == pre.undo_stack && post.redo_stack
        == pre.redo_stack)
    &&& (!(action is CutLine) ==> post.clipboard == pre.clipboard)
    &&& match action {
        VimAction::Nothing => {
            &&& post.lines == pre.lines
            &&& post.types == pre.types
            &&& post.cursor_y == pre.cursor_y
            &&& post.cursor_x == pre.cursor_x
            &&& post.dirty == pre.dirty
        },
        VimAction::Left => left_post(pre, post),
        VimAction::Right => right_post(pre, post),
        VimAction::Up => up_post(pre, post),
        VimAction::Down => down_post(pre, post),
        VimAction::WordRight => word_right_post(pre, post),
        VimAction::WordLeft => word_left_post(pre, post),
        VimAction::WordEnd => {
            &&& post.lines == pre.lines
            &&& post.types == pre.types
            &&& post.cursor_y == pre.cursor_y
            &&& post.cursor_x == word_end_col(pre.text()[pre.cursor_y as int], pre.cursor_x as int)
            &&& post.dirty == pre.dirty
        },
        VimAction::Home => home_post(pre, post),
        VimAction::End => end_post(pre, post),
        VimAction::OpenBelow => exists|m: App| #[trigger]
            end_post(pre, m) && newline_post(m, post, false),
        VimAction::OpenAbove => exists|m1: App, m2: App|
            {
                &&& #[trigger] m1.cursor_x == 0
                &&& m1.cursor_y == pre.cursor_y
                &&& m1.lines == pre.lines
                &&& m1.types == pre.types
                &&& #[trigger] newline_post(m1, m2, false)
                &&& up_post(m2, post)
            },
        VimAction::DeleteChar => delete_forward_post(pre, post),
        VimAction::CutLine => cut_line_post(pre, post),
        VimAction::DeleteWordForward => delete_word_forward_post(pre, post),
        VimAction::PasteAfter => exists|m: App| #[trigger]
            right_post(pre, m) && m.clipboard == pre.clipboard && paste_post(m, post),
        VimAction::PasteBefore => paste_post(pre, post),
        VimAction::Undo => undone(pre, post),
        VimAction::Redo => redone(pre, post),
    }
}

fn done_plan(
    action: VimAction,
    clears: bool,
    target_x: bool,
    text: bool,
    moved: bool,
    insert: bool,
) -> (r: VimPlan)
    ensures
        r == done(action, clears, target_x, text, moved, insert),
{
    VimPlan {
        result: VimResult::Handled,
        action,
        clears_selection: clears,
        update_target_x: target_x,
        text_changed: text,
        cursor_moved: moved,
        insert,
        pending: None,
        opens_command: false,
    }
}

fn char_plan_of(c: char) -> (r: VimPlan)
    ensures
        r == char_plan(c),
{
    if c == 'h' {
        done_plan(VimAction::Left, true, true, false, true, false)
    } else if c == 'l' {
        done_plan(VimAction::Right, true, true, false, true, false)
    } else if c == 'j' {
        done_plan(VimAction::Down, true, false, false, true, false)
    } else if c == 'k' {
        done_plan(VimAction::Up, true, false, false, true, false)
    } else if c == 'w' {
        done_plan(VimAction::WordRight, true, true, false, true, false)
    } else if c == 'b' {
        done_plan(VimAction::WordLeft, true, true, false, true, false)
    } else if c == 'e' {
        done_plan(VimAction::WordEnd, true, true, false, true, false)
    } else if c == '0' {
        done_plan(VimAction::Home, true, true, false, true, false)
    } else if c == '$' {
        done_plan(VimAction::End, true, true, false, true, false)
    } else if c == 'i' {
        done_plan(VimAction::Nothing, false, false, false, false, true)
    } else if c == 'I' {
        done_plan(VimAction::Home, false, true, false, true, true)
    } else if c == 'a' {
        done_plan(VimAction::Right, false, true, false, true, true)
    } else if c == 'A' {
        done_plan(VimAction::End, false, true, false, true, true)
    } else if c == 'o' {
        done_plan(VimAction::OpenBelow, false, true, true, true, true)
    } else if c == 'O' {
        done_plan(VimAction::OpenAbove, false, true, true, true, true)
    } else if c == 'x' {
        done_plan(VimAction::DeleteChar, false, true, true, true, false)
    } else if c == 'p' {
        done_plan(VimAction::PasteAfter, false, true, true, true, false)
    } else if c == 'P' {
        done_plan(VimAction::PasteBefore, false, true, true, true, false)
    } else if c == 'd' {
        VimPlan {
            pending: Some('d'),
            ..done_plan(VimAction::Nothing, false, false, false, false, false)
        }
    } else if c == 'u' {
        done_plan(VimAction::Undo, false, true, true, true, false)
    } else if c == 'U' {
        done_plan(VimAction::Redo, false, true, true, true, false)
    } else if c == ':' {
        VimPlan {
            opens_command: true,
            ..done_plan(VimAction::Nothing, false, false, false, false, false)
        }
    } else {
        done_plan(VimAction::Nothing, false, false, false, false, false)
    }
}

/// What key `k` does in the modal layer (see `vim_plan_spec`).
pub fn vim_plan(
    modal: bool,
    normal: bool,
    insert: bool,
    pending: Option<char>,
    k: KeyPress,
    cursor_x: usize,
) -> (r: VimPlan)
    ensures
        r == vim_plan_spec(modal, normal, insert, pending, k, cursor_x as int),
{
    let ft = VimPlan {
        result: VimResult::FallThrough,
        action: VimAction::Nothing,
        clears_selection: false,
        update_target_x: false,
        text_changed: false,
        cursor_moved: false,
        insert: false,
        pending: None,
        opens_command: false,
    };
    if !modal || !normal {
        return VimPlan { insert, pending, ..ft };
    }
    if insert {
        if k.code == Key::Esc && !k.ctrl {
            let back = cursor_x > 0;
            let action = if back {
                VimAction::Left
            } else {
                VimAction::Nothing
            };
            return done_plan(action, false, back, false, back, false);
        }
        return VimPlan { insert: true, pending, ..ft };
    }
    if pending == Some('d') && !k.ctrl {
        if k.code == Key::Char('d') {
            return done_plan(VimAction::CutLine, false, true, true, true, false);
        }
        if k.code == Key::Char('w') {
            return done_plan(VimAction::DeleteWordForward, false, true, true, true, false);
        }
    }
    match k.code {
        Key::Char(c) => if k.ctrl {
            ft
        } else {
            char_plan_of(c)
        },
        _ => ft,
    }
}

/// The column `e` aims at in line `s` from column `x`.
fn word_end_column(s: &Vec<char>, x: usize) -> (r: usize)
    ensures
        r == word_end_target(s@, x as int),
{
    let max = s.len();
    let mut x = x;
    if x < max && !is_whitespace(s[x]) {
        x += 1;
    }
    let ghost x1 = x;
    while x < max && is_whitespace(s[x])
        invariant
            max == s@.len(),
            skip_ws(s@, x1 as int) == skip_ws(s@, x as int),
        decreases max - x,
    {
        x += 1;
    }
    let ghost x2 = x;
    while x < max && x + 1 < max && !is_whitespace(s[x + 1])
        invariant
            max == s@.len(),
            word_last(s@, x2 as int) == word_last(s@, x as int),
        decreases max - x,
    {
        x += 1;
    }
    x
}

impl App {
    /// Makes the cursor motion or edit `action` (see `acted`).
    fn perform_vim_action(&mut self, action: VimAction)
        requires
            old(self).cursor_ok(),
            old(self).lines@.len() + 2 <= usize::MAX,
        ensures
            acted(*old(self), *final(self), action),
            *final(self) == (App {
                lines: final(self).lines,
                types: final(self).types,
                cursor_y: final(self).cursor_y,
                cursor_x: final(self).cursor_x,
                dirty: final(self).dirty,
                undo_stack: final(self).undo_stack,
                redo_stack: final(self).redo_stack,
                clipboard: final(self).clipboard,
                ..*old(self)
            }),
    {
        let ghost pre = *self;
        let ghost mut m1 = *self;
        let ghost mut m2 = *self;
        match action {
            VimAction::Nothing => {},
            VimAction::Left => self.move_left(),
            VimAction::Right => self.move_right(),
            VimAction::Up => self.move_up(),
            VimAction::Down => self.move_down(),
            VimAction::WordRight => self.move_word_right(),
            VimAction::WordLeft => self.move_word_left(),
            VimAction::WordEnd => {
                let s = self.cur_line();
                let t = word_end_column(&s, self.cursor_x);
                if t < s.len() {
                    self.cursor_x = t;
                }
            },
            VimAction::Home => self.move_home(),
            VimAction::End => self.move_end(),
            VimAction::OpenBelow => {
                self.move_end();
                proof {
                    m1 = *self;
                }
                self.insert_newline(false);
            },
            VimAction::OpenAbove => {
                self.cursor_x = 0;
                proof {
                    m1 = *self;
                }
                self.insert_newline(false);
                proof {
                    m2 = *self;
                }
                self.move_up();
            },
            VimAction::DeleteChar => self.delete_forward(),
            VimAction::CutLine => self.cut_line(),
            VimAction::DeleteWordForward => self.delete_word_forward(),
            VimAction::PasteAfter => {
                self.move_right();
                proof {
                    m1 = *self;
                }
                self.paste_line();
            },
            VimAction::PasteBefore => self.paste_line(),
            VimAction::Undo => self.undo(),
            VimAction::Redo => self.redo(),
        }
        proof {
            match action {
                VimAction::OpenBelow => {
                    assert(end_post(pre, m1) && newline_post(m1, *self, false));
                },
                VimAction::OpenAbove => {
                    assert(newline_post(m1, m2, false) && up_post(m2, *self));
                },
                VimAction::PasteAfter => {
                    assert(right_post(pre, m1) && m1.clipboard == pre.clipboard && paste_post(m1, *self));
                },
                _ => {},
            }
        }
    }

    /// Handles key `key` in the modal layer (see `vim_plan_spec`) and
    /// raises the three flags that the plan raises.
    #[verifier::rlimit(40)]
    #[verifier::spinoff_prover]
    pub fn handle_vim_key(
        &mut self,
        key: KeyPress,
        update_target_x: &mut bool,
        text_changed: &mut bool,
        cursor_moved: &mut bool,
    ) -> (r: VimResult)
        requires
            old(self).cursor_ok(),
            old(self).lines@.len() + 2 <= usize::MAX,
        ensures
            ({
                let p = vim_plan_spec(
                    old(self).modal_editing,
                    old(self).mode == AppMode::Normal,
                    old(self).vim_mode_insert,
                    old(self).vim_pending_key,
                    key,
                    old(self).cursor_x as int,
                );
                &&& r == p.result
                &&& acted(*old(self), *final(self), p.action)
                &&& *final(update_target_x) == (*old(update_target_x) || p.update_target_x)
                &&& *final(text_changed) == (*old(text_changed) || p.text_changed)
                &&& *final(cursor_moved) == (*old(cursor_moved) || p.cursor_moved)
                &&& final(self).vim_mode_insert == p.insert
                &&& final(self).vim_pending_key == p.pending
                &&& final(self).selection_anchor == if p.clears_selection {
                    None
                } else {
                    old(self).selection_anchor
                }
                &&& if p.opens_command {
                    &&& final(self).mode == AppMode::Command
                    &&& final(self).previous_mode == old(self).mode
                    &&& final(self).command_input@.len() == 0
                    &&& !final(self).command_error
                } else {
                    &&& final(self).mode == old(self).mode
                    &&& final(self).previous_mode == old(self).previous_mode
                    &&& final(self).command_input == old(self).command_input
                    &&& final(self).command_error == old(self).command_error
                }
                &&& final(self).modal_editing == old(self).modal_editing
            }),
            *final(self) == (App {
                lines: final(self).lines,
                types: final(self).types,
                cursor_y: final(self).cursor_y,
                cursor_x: final(self).cursor_x,
                dirty: final(self).dirty,
                undo_stack: final(self).undo_stack,
                redo_stack: final(self).redo_stack,
                clipboard: final(self).clipboard,
                vim_mode_insert: final(self).vim_mode_insert,
                vim_pending_key: final(self).vim_pending_key,
                selection_anchor: final(self).selection_anchor,
                mode: final(self).mode,
                previous_mode: final(self).previous_mode,
                command_input: final(self).command_input,
                command_error: final(self).command_error,
                ..*old(self)
            }),
    {
        let ghost pre = *self;
        let plan = vim_plan(
            self.modal_editing,
            self.mode == AppMode::Normal,
            self.vim_mode_insert,
            self.vim_pending_key,
            key,
            self.cursor_x,
        );
        self.perform_vim_action(plan.action);
        let ghost mid = *self;
        self.vim_mode_insert = plan.insert;
        self.vim_pending_key = plan.pending;
        if plan.clears_selection {
            self.selection_anchor = None;
        }
        if plan.opens_command {
            self.previous_mode = self.mode;
            self.mode = AppMode::Command;
            self.command_input = String::new();
            self.command_error = false;
        }
        if plan.update_target_x {
            *update_target_x = true;
        }
        if plan.text_changed {
            *text_changed = true;
        }
        if plan.cursor_moved {
            *cursor_moved = true;
        }
        plan.result
    }
}

/// `a` in the normal sub-mode appends: typing starts, with the cursor
/// moved one column right, past the character under it, and the text left
/// as it is. (`i` starts typing where the cursor is.)
pub proof fn law_append_steps_right(pre: App, post: App, pending: Option<char>)
    requires
        pre.cursor_ok(),
        acted(
            pre,
            post,
            vim_plan_spec(true, true, false, pending, KeyPress { code: Key::Char('a'), ctrl: false }, pre.cursor_x as int).action,
        ),
    ensures
        vim_plan_spec(true, true, false, pending, KeyPress { code: Key::Char('a'), ctrl: false }, pre.cursor_x as int).insert,
        post.text() == pre.text(),
        pre.col() < pre.text()[pre.cursor_y as int].len() ==> post.cursor_y == pre.cursor_y && post.cursor_x == pre.col()
            + 1,
{
}

/// `i` in the normal sub-mode starts typing with the cursor and the text
/// left as they are.
pub proof fn law_insert_stays(pre: App, post: App, pending: Option<char>)
    requires
        pre.cursor_ok(),
        acted(
            pre,
            post,
            vim_plan_spec(true, true, false, pending, KeyPress { code: Key::Char('i'), ctrl: false }, pre.cursor_x as int).action,
        ),
    ensures
        vim_plan_spec(true, true, false, pending, KeyPress { code: Key::Char('i'), ctrl: false }, pre.cursor_x as int).insert,
        post.text() == pre.text(),
        post.cursor_y == pre.cursor_y,
        post.cursor_x == pre.cursor_x,
{
}

} // verus!
