//! Cursor movement and text editing in the editor.
use vstd::prelude::*;
use crate::chars::{alphanumeric, chars_of, is_alphanumeric, string_of};
use crate::classify::{LineType, classify_spec};
use crate::editor::{App, EditState, VisualRow, same_ui, texts};
use crate::layout::{find_row, row_of, wrap, wrap_rows, wrap_width, wrap_width_spec};
use crate::text::{is_whitespace, is_ws, push_all, slice_chars};

verus! {

/// The line type used to lay out line `y` (action when unknown).
pub open spec fn type_at(types: Seq<LineType>, y: int) -> LineType {
    if 0 <= y < types.len() {
        types[y]
    } else {
        LineType::Action
    }
}

/// The screen rows of line `y`.
pub open spec fn line_rows(lines: Seq<Seq<char>>, types: Seq<LineType>, y: int) -> Seq<(int, int)> {
    wrap_rows(lines[y], wrap_width_spec(type_at(types, y)))
}

/// Two characters that smart deletion removes together.
pub open spec fn is_pair(a: char, b: char) -> bool {
    ||| (a == '(' && b == ')')
    ||| (a == '[' && b == ']')
    ||| (a == '"' && b == '"')
    ||| (a == '\'' && b == '\'')
}

/// The closing character paired with an opening one.
pub open spec fn closing(c: char) -> char {
    if c == '(' {
        ')'
    } else {
        c
    }
}

/// How many `c` there are in `s`, a single quote right after a letter or
/// digit (an apostrophe) not counted.
pub open spec fn quote_count(s: Seq<char>, c: char) -> nat
    decreases s.len(),
{
    if s.len() == 0 {
        0
    } else {
        let k = s.len() - 1;
        let counts = s[k] == c && !(c == '\'' && k > 0 && alphanumeric(s[k - 1]));
        quote_count(s.drop_last(), c) + if counts {
            1nat
        } else {
            0nat
        }
    }
}

/// What typing `c` at column `x` of line `s` does: the new line and the new
/// column.
pub open spec fn insert_char_spec(s: Seq<char>, x: int, c: char) -> (Seq<char>, int) {
    let prev_alnum = x > 0 && alphanumeric(s[x - 1]);
    let has_next = x < s.len();
    let plain = (s.take(x).push(c) + s.skip(x), x + 1);
    if (c == ')' || c == ']') && has_next && s[x] == c {
        (s, x + 1)
    } else if (c == '"' || c == '\'') && has_next && s[x] == c && quote_count(s.take(x), c) % 2 == 1 {
        (s, x + 1)
    } else if c == '[' && x > 0 && s[x - 1] == '[' {
        (s.take(x) + seq!['[', ']', ']'] + s.skip(x), x + 1)
    } else if c == '*' && x > 0 && s[x - 1] == '/' {
        (s.take(x) + seq!['*', '*', '/'] + s.skip(x), x + 1)
    } else if c == '*' && x > 0 && s[x - 1] == '*' {
        (s.take(x) + seq!['*', '*', '*'] + s.skip(x), x + 1)
    } else if c == '\'' && prev_alnum {
        plain
    } else if (c == '(' || c == '"' || c == '\'') && !(has_next && alphanumeric(s[x])) {
        (s.take(x) + seq![c, closing(c)] + s.skip(x), x + 1)
    } else {
        plain
    }
}

/// Start of the word before column `x`: back over whitespace, then back
/// over the word.
pub open spec fn word_start_before(s: Seq<char>, x: int) -> int
    decreases x,
{
    if x <= 0 || x > s.len() {
        0
    } else if is_ws(s[x - 1]) {
        word_start_before(s, x - 1)
    } else {
        word_back(s, x)
    }
}

pub open spec fn word_back(s: Seq<char>, x: int) -> int
    decreases x,
{
    if x <= 0 || x > s.len() {
        0
    } else if is_ws(s[x - 1]) {
        x
    } else {
        word_back(s, x - 1)
    }
}

/// End of the word after column `x`: over whitespace, then over the word.
pub open spec fn word_end_after(s: Seq<char>, x: int) -> int
    decreases s.len() - x,
{
    if x < 0 || x >= s.len() {
        s.len() as int
    } else if is_ws(s[x]) {
        word_end_after(s, x + 1)
    } else {
        word_fwd(s, x)
    }
}

pub open spec fn word_fwd(s: Seq<char>, x: int) -> int
    decreases s.len() - x,
{
    if x < 0 || x >= s.len() {
        s.len() as int
    } else if is_ws(s[x]) {
        x
    } else {
        word_fwd(s, x + 1)
    }
}

pub proof fn lemma_word_bounds(s: Seq<char>, x: int)
    requires
        0 <= x <= s.len(),
    ensures
        0 <= word_start_before(s, x) <= x,
        0 <= word_back(s, x) <= x,
        x <= word_end_after(s, x) <= s.len(),
        x <= word_fwd(s, x) <= s.len(),
    decreases s.len() + x,
{
    if x > 0 {
        lemma_word_bounds(s, x - 1);
    }
    if x < s.len() {
        lemma_word_bounds_fwd(s, x + 1);
    }
}

proof fn lemma_word_bounds_fwd(s: Seq<char>, x: int)
    requires
        0 <= x <= s.len(),
    ensures
        x <= word_end_after(s, x) <= s.len(),
        x <= word_fwd(s, x) <= s.len(),
    decreases s.len() - x,
{
    if x < s.len() {
        lemma_word_bounds_fwd(s, x + 1);
    }
}

/// Characters of the document up to and including the end of each line.
pub open spec fn chars_before(lines: Seq<Seq<char>>, y: int) -> nat
    decreases y,
{
    if y <= 0 || y > lines.len() {
        0
    } else {
        chars_before(lines, y - 1) + lines[y - 1].len() + 1
    }
}

/// `<n>/<total> (<percent>%)`.
pub open spec fn fraction_text(n: nat, total: nat) -> Seq<char> {
    crate::text::decimal_spec(n) + "/"@ + crate::text::decimal_spec(total) + " ("@
        + crate::text::decimal_spec(n * 100 / total) + "%)"@
}

/// The status line `/pos` shows for a cursor at line `y`, column `x`.
pub open spec fn position_text(lines: Seq<Seq<char>>, y: int, x: int) -> Seq<char> {
    "line "@ + fraction_text((y + 1) as nat, lines.len()) + ", col "@ + fraction_text(
        (x + 1) as nat,
        (lines[y].len() + 1) as nat,
    ) + ", char "@ + fraction_text(
        (chars_before(lines, y) + x + 1) as nat,
        chars_before(lines, lines.len() as int),
    )
}

pub proof fn lemma_chars_before_mono(lines: Seq<Seq<char>>, a: int, b: int)
    requires
        0 <= a <= b <= lines.len(),
    ensures
        chars_before(lines, a) + (if a < b { lines[a].len() + 1 } else { 0 }) <= chars_before(lines, b),
    decreases b - a,
{
    if a < b {
        if a + 1 < b {
            lemma_chars_before_mono(lines, a + 1, b);
        }
    }
}

fn concat(a: &Vec<char>, b: &Vec<char>) -> (r: Vec<char>)
    ensures
        r@ == a@ + b@,
{
    let mut r = slice_chars(a, 0, a.len());
    push_all(&mut r, b);
    proof {
        assert(a@.subrange(0, a@.len() as int) == a@);
    }
    r
}

/// `s[..x] + mid + s[y..]`.
fn splice(s: &Vec<char>, x: usize, y: usize, mid: &Vec<char>) -> (r: Vec<char>)
    requires
        x <= y <= s.len(),
    ensures
        r@ == s@.take(x as int) + mid@ + s@.skip(y as int),
{
    let a = slice_chars(s, 0, x);
    let b = slice_chars(s, y, s.len());
    let r = concat(&concat(&a, mid), &b);
    proof {
        assert(a@ == s@.take(x as int));
        assert(b@ == s@.skip(y as int));
    }
    r
}

fn count_quotes(s: &Vec<char>, x: usize, c: char) -> (r: usize)
    requires
        x <= s.len(),
    ensures
        r == quote_count(s@.take(x as int), c),
{
    let mut n: usize = 0;
    let mut i: usize = 0;
    while i < x
        invariant
            i <= x <= s.len(),
            n == quote_count(s@.take(i as int), c),
            n <= i,
        decreases x - i,
    {
        let counts = s[i] == c && !(c == '\'' && i > 0 && is_alphanumeric(s[i - 1]));
        proof {
            let t = s@.take(i + 1);
            assert(t.drop_last() == s@.take(i as int));
            assert(t[i as int] == s@[i as int]);
            if i > 0 {
                assert(t[i - 1] == s@[i - 1]);
            }
        }
        if counts {
            n += 1;
        }
        i += 1;
    }
    n
}

fn line_type(types: &Vec<LineType>, y: usize) -> (r: LineType)
    ensures
        r == type_at(types@, y as int),
{
    if y < types.len() {
        types[y]
    } else {
        LineType::Action
    }
}

/// Where `move_left` takes the cursor.
pub open spec fn left_post(pre: App, post: App) -> bool {
    &&& post.cursor_ok()
    &&& post.lines == pre.lines
    &&& post.types == pre.types
    &&& post.dirty == pre.dirty
    &&& {
        let x = pre.col();
        let y = pre.cursor_y as int;
        if x > 0 {
            post.cursor_y == y && post.cursor_x == x - 1
        } else if y > 0 {
            post.cursor_y == y - 1 && post.cursor_x == pre.text()[y - 1].len()
        } else {
            post.cursor_y == 0 && post.cursor_x == 0
        }
    }
}

/// Where `move_right` takes the cursor.
pub open spec fn right_post(pre: App, post: App) -> bool {
    &&& post.cursor_ok()
    &&& post.lines == pre.lines
    &&& post.types == pre.types
    &&& post.dirty == pre.dirty
    &&& {
        let x = pre.col();
        let y = pre.cursor_y as int;
        if x < pre.text()[y].len() {
            post.cursor_y == y && post.cursor_x == x + 1
        } else if y + 1 < pre.lines@.len() {
            post.cursor_y == y + 1 && post.cursor_x == 0
        } else {
            post.cursor_y == y && post.cursor_x == x
        }
    }
}

/// What `move_home` does.
pub open spec fn home_post(pre: App, post: App) -> bool {
    &&& post.cursor_x == 0
    &&& post.cursor_y == pre.cursor_y
    &&& post.lines == pre.lines
    &&& post.types == pre.types
}

/// What `move_end` does.
pub open spec fn end_post(pre: App, post: App) -> bool {
    &&& post.cursor_x == pre.text()[pre.cursor_y as int].len()
    &&& post.cursor_y == pre.cursor_y
    &&& post.lines == pre.lines
    &&& post.types == pre.types
}

/// Where `move_word_right` takes the cursor.
pub open spec fn word_right_post(pre: App, post: App) -> bool {
    &&& post.cursor_ok()
    &&& post.lines == pre.lines
    &&& post.types == pre.types
    &&& {
        let x = pre.col();
        let y = pre.cursor_y as int;
        let s = pre.text()[y];
        if x < s.len() {
            post.cursor_y == y && post.cursor_x == word_end_after(s, x)
        } else if y + 1 < pre.lines@.len() {
            post.cursor_y == y + 1 && post.cursor_x == 0
        } else {
            post.cursor_y == y && post.cursor_x == x
        }
    }
}

/// Where `move_word_left` takes the cursor.
pub open spec fn word_left_post(pre: App, post: App) -> bool {
    &&& post.cursor_ok()
    &&& post.lines == pre.lines
    &&& post.types == pre.types
    &&& {
        let x = pre.col();
        let y = pre.cursor_y as int;
        let s = pre.text()[y];
        if x > 0 {
            post.cursor_y == y && post.cursor_x == word_start_before(s, x)
        } else if y > 0 {
            post.cursor_y == y - 1 && post.cursor_x == pre.text()[y - 1].len()
        } else {
            post.cursor_y == y && post.cursor_x == 0
        }
    }
}

/// Where `move_up` takes the cursor.
pub open spec fn up_post(pre: App, post: App) -> bool {
    &&& post.cursor_ok()
    &&& post.lines == pre.lines
    &&& post.types == pre.types
    &&& post.target_visual_x == pre.target_visual_x
    &&& {
        let l = pre.text();
        let y = pre.cursor_y as int;
        let rows = line_rows(l, pre.types@, y);
        let r = row_of(rows, pre.col());
        let t = pre.target_visual_x as int;
        if r > 0 {
            post.cursor_y == y && post.cursor_x == place_in_row(rows[r - 1], t, false)
        } else if y > 0 {
            let pr = line_rows(l, pre.types@, y - 1);
            post.cursor_y == y - 1 && post.cursor_x == place_in_row(
                pr[pr.len() - 1],
                t,
                true,
            )
        } else {
            post.cursor_y == y && post.cursor_x == pre.cursor_x
        }
    }
}

/// Where `move_down` takes the cursor.
pub open spec fn down_post(pre: App, post: App) -> bool {
    &&& post.cursor_ok()
    &&& post.lines == pre.lines
    &&& post.types == pre.types
    &&& post.target_visual_x == pre.target_visual_x
    &&& {
        let l = pre.text();
        let y = pre.cursor_y as int;
        let rows = line_rows(l, pre.types@, y);
        let r = row_of(rows, pre.col());
        let t = pre.target_visual_x as int;
        if r + 1 < rows.len() {
            post.cursor_y == y && post.cursor_x == place_in_row(
                rows[r + 1],
                t,
                r + 2 == rows.len(),
            )
        } else if y + 1 < l.len() {
            let nr = line_rows(l, pre.types@, y + 1);
            post.cursor_y == y + 1 && post.cursor_x == place_in_row(
                nr[0],
                t,
                nr.len() == 1,
            )
        } else {
            post.cursor_y == y && post.cursor_x == pre.cursor_x
        }
    }
}

/// What `delete_forward` does.
pub open spec fn delete_forward_post(pre: App, post: App) -> bool {
    &&& post.cursor_ok()
    &&& post.types == pre.types
    &&& post.cursor_y == pre.cursor_y
    &&& {
        let l = pre.text();
        let y = pre.cursor_y as int;
        let s = l[y];
        let x = pre.col();
        if x < s.len() {
            &&& post.text() == l.update(y, s.take(x) + s.skip(x + 1))
            &&& post.cursor_x == x
            &&& post.dirty
        } else if y + 1 < l.len() {
            &&& post.text() == l.update(y, s + l[y + 1]).remove(y + 1)
            &&& post.cursor_x == x
            &&& post.dirty
        } else {
            &&& post.text() == l
            &&& post.cursor_x == pre.cursor_x
            &&& post.dirty == pre.dirty
        }
    }
}

/// What `insert_newline` does.
pub open spec fn newline_post(pre: App, post: App, extra_blank: bool) -> bool {
    &&& post.cursor_ok()
    &&& post.dirty
    &&& post.types == pre.types
    &&& {
        let l = pre.text();
        let y = pre.cursor_y as int;
        let s = l[y];
        let x = pre.col();
        if extra_blank {
            &&& post.text() == l.update(y, s.take(x)).insert(y + 1, Seq::empty()).insert(
                y + 2,
                s.skip(x),
            )
            &&& post.cursor_y == y + 2
        } else {
            &&& post.text() == l.update(y, s.take(x)).insert(y + 1, s.skip(x))
            &&& post.cursor_y == y + 1
        }
    }
    &&& post.cursor_x == 0
}

impl App {
    /// The cursor column, clamped to the end of its line.
    pub open spec fn col(&self) -> int {
        if self.cursor_x <= self.text()[self.cursor_y as int].len() {
            self.cursor_x as int
        } else {
            self.text()[self.cursor_y as int].len() as int
        }
    }

    /// The cursor is on a line of the script.
    pub open spec fn cursor_ok(&self) -> bool {
        self.cursor_y < self.lines@.len()
    }

    pub(crate) fn cur_line(&self) -> (r: Vec<char>)
        requires
            self.cursor_ok(),
        ensures
            r@ == self.text()[self.cursor_y as int],
    {
        chars_of(self.lines[self.cursor_y].as_str())
    }

    fn clamped_x(&self, s: &Vec<char>) -> (r: usize)
        requires
            self.cursor_ok(),
            s@ == self.text()[self.cursor_y as int],
        ensures
            r == self.col(),
    {
        if self.cursor_x <= s.len() {
            self.cursor_x
        } else {
            s.len()
        }
    }

    fn put_line(&mut self, y: usize, v: &Vec<char>)
        requires
            y < old(self).lines@.len(),
        ensures
            final(self).text() == old(self).text().update(y as int, v@),
            final(self).lines@.len() == old(self).lines@.len(),
            final(self).types == old(self).types,
            final(self).cursor_y == old(self).cursor_y,
            final(self).cursor_x == old(self).cursor_x,
            final(self).target_visual_x == old(self).target_visual_x,
            final(self).dirty == old(self).dirty,
            final(self).undo_stack == old(self).undo_stack,
            final(self).redo_stack == old(self).redo_stack,
            final(self).status_msg == old(self).status_msg,
            final(self).mode == old(self).mode,
            final(self).selected_card_idx == old(self).selected_card_idx,
            final(self).is_card_editing == old(self).is_card_editing,
            final(self).is_heading_editing == old(self).is_heading_editing,
            final(self).card_input_buffer == old(self).card_input_buffer,
            same_ui(*old(self), *final(self)),
            *final(self) == (App { lines: final(self).lines, ..*old(self) }),
    {
        let ghost before = self.text();
        self.lines.set(y, string_of(v));
        proof {
            assert(self.text() =~= before.update(y as int, v@));
        }
    }

    /// Deletes the character before the cursor; between a pair such as `()`
    /// both go. At the start of a line, joins it to the line above.
    #[verifier::spinoff_prover]
    #[verifier::rlimit(30)]
    pub fn backspace(&mut self)
        requires
            old(self).cursor_ok(),
        ensures
            final(self).cursor_ok(),
            final(self).types == old(self).types,
            ({
                let l = old(self).text();
                let y = old(self).cursor_y as int;
                let s = l[y];
                let x = old(self).col();
                if x > 0 {
                    let both = x < s.len() && is_pair(s[x - 1], s[x]);
                    &&& final(self).text() == l.update(
                        y,
                        s.take(x - 1) + s.skip(if both { x + 1 } else { x }),
                    )
                    &&& final(self).cursor_y == y
                    &&& final(self).cursor_x == x - 1
                    &&& final(self).dirty
                } else if y > 0 {
                    &&& final(self).text() == l.update(y - 1, l[y - 1] + s).remove(y)
                    &&& final(self).cursor_y == y - 1
                    &&& final(self).cursor_x == l[y - 1].len()
                    &&& final(self).dirty
                } else {
                    &&& final(self).text() == l
                    &&& final(self).cursor_y == old(self).cursor_y
                    &&& final(self).cursor_x == old(self).cursor_x
                    &&& final(self).dirty == old(self).dirty
                }
            }),
            *final(self) == (App { lines: final(self).lines, cursor_y: final(self).cursor_y, cursor_x: final(self).cursor_x, dirty: final(self).dirty, ..*old(self) }),
    {
        let y = self.cursor_y;
        let s = self.cur_line();
        let x = self.clamped_x(&s);
        if x > 0 {
            let both = x < s.len() && ((s[x - 1] == '(' && s[x] == ')') || (s[x - 1] == '[' && s[x]
                == ']') || (s[x - 1] == '"' && s[x] == '"') || (s[x - 1] == '\'' && s[x] == '\''));
            let end = if both {
                x + 1
            } else {
                x
            };
            let new_line = splice(&s, x - 1, end, &Vec::new());
            proof {
                assert(new_line@ == s@.take(x - 1) + s@.skip(end as int));
            }
            self.put_line(y, &new_line);
            self.cursor_x = x - 1;
            self.dirty = true;
        } else if y > 0 {
            let prev = chars_of(self.lines[y - 1].as_str());
            let joined = concat(&prev, &s);
            self.put_line(y - 1, &joined);
            let ghost mid = self.text();
            self.lines.remove(y);
            proof {
                assert(self.text() =~= mid.remove(y as int));
            }
            self.cursor_y = y - 1;
            self.cursor_x = prev.len();
            self.dirty = true;
        }
    }

    /// Deletes the character after the cursor. At the end of a line, joins
    /// the next line to it.
    #[verifier::spinoff_prover]
    #[verifier::rlimit(80)]
    pub fn delete_forward(&mut self)
        requires
            old(self).cursor_ok(),
        ensures
            delete_forward_post(*old(self), *final(self)),
            same_ui(*old(self), *final(self)),
            *final(self) == (App { lines: final(self).lines, cursor_y: final(self).cursor_y, cursor_x: final(self).cursor_x, dirty: final(self).dirty, ..*old(self) }),
    {
        let y = self.cursor_y;
        let s = self.cur_line();
        let x = self.clamped_x(&s);
        if x < s.len() {
            let new_line = splice(&s, x, x + 1, &Vec::new());
            proof {
                assert(new_line@ == s@.take(x as int) + s@.skip(x + 1));
            }
            self.put_line(y, &new_line);
            self.cursor_x = x;
            self.dirty = true;
        } else if y < self.lines.len() - 1 {
            let next = chars_of(self.lines[y + 1].as_str());
            let joined = concat(&s, &next);
            self.put_line(y, &joined);
            let ghost mid = self.text();
            let ghost a1 = *self;
            self.lines.remove(y + 1);
            proof {
                assert(self.text() =~= mid.remove(y + 1));
                assert(*self == (App { lines: self.lines, ..a1 }));
            }
            self.cursor_x = x;
            self.dirty = true;
        }
    }

    /// Types `c` at the cursor, pairing brackets and quotes: `(`, `"` and
    /// `'` get their closing mate unless a letter or digit follows (and a
    /// `'` right after a letter or digit is an apostrophe); typing a closing
    /// character that is already there steps over it (a quote only when an
    /// odd number of the same quotes precede it); `[[`, `/*` and `**` are
    /// completed to `[[]]`, `/**/` and `****`.
    pub fn insert_char(&mut self, c: char)
        requires
            old(self).cursor_ok(),
            old(self).text()[old(self).cursor_y as int].len() < usize::MAX,
        ensures
            final(self).cursor_ok(),
            final(self).types == old(self).types,
            final(self).cursor_y == old(self).cursor_y,
            ({
                let l = old(self).text();
                let y = old(self).cursor_y as int;
                let r = insert_char_spec(l[y], old(self).col(), c);
                &&& final(self).text() == l.update(y, r.0)
                &&& final(self).cursor_x == r.1
                &&& final(self).dirty == (old(self).dirty || r.0 != l[y])
            }),
            *final(self) == (App { lines: final(self).lines, cursor_y: final(self).cursor_y, cursor_x: final(self).cursor_x, dirty: final(self).dirty, ..*old(self) }),
    {
        let y = self.cursor_y;
        let s = self.cur_line();
        let x = self.clamped_x(&s);
        let (new_line, nx) = typed_char(&s, x, c);
        if nx == x + 1 && new_line.len() == s.len() {
            proof {
                assert(new_line@ == s@);
            }
            self.cursor_x = nx;
            return;
        }
        proof {
            assert(new_line@ != s@);
        }
        self.put_line(y, &new_line);
        self.cursor_x = nx;
        self.dirty = true;
    }

    /// Breaks the line at the cursor; the cursor goes to the start of the
    /// new line. With `extra_blank`, an empty line is put between the two parts.
    #[verifier::spinoff_prover]
    #[verifier::rlimit(30)]
    pub fn insert_newline(&mut self, extra_blank: bool)
        requires
            old(self).cursor_ok(),
            old(self).lines@.len() + 2 <= usize::MAX,
        ensures
            newline_post(*old(self), *final(self), extra_blank),
            same_ui(*old(self), *final(self)),
            *final(self) == (App { lines: final(self).lines, cursor_y: final(self).cursor_y, cursor_x: final(self).cursor_x, dirty: final(self).dirty, ..*old(self) }),
    {
        let y = self.cursor_y;
        let s = self.cur_line();
        let x = self.clamped_x(&s);
        let head = slice_chars(&s, 0, x);
        let tail = slice_chars(&s, x, s.len());
        proof {
            assert(head@ == s@.take(x as int));
            assert(tail@ == s@.skip(x as int));
        }
        self.put_line(y, &head);
        let mut at = y + 1;
        if extra_blank {
            let ghost m = self.text();
            self.lines.insert(at, String::new());
            proof {
                assert(self.text() =~= m.insert(at as int, Seq::empty()));
            }
            at = at + 1;
        }
        let ghost m2 = self.text();
        self.lines.insert(at, string_of(&tail));
        proof {
            assert(self.text() =~= m2.insert(at as int, tail@));
        }
        self.cursor_y = at;
        self.cursor_x = 0;
        self.dirty = true;
    }

    /// Moves the cursor one character left, to the end of the line above at
    /// the start of a line.
    pub fn move_left(&mut self)
        requires
            old(self).cursor_ok(),
        ensures
            left_post(*old(self), *final(self)),
            same_ui(*old(self), *final(self)),
            *final(self) == (App { cursor_y: final(self).cursor_y, cursor_x: final(self).cursor_x, ..*old(self) }),
    {
        let s = self.cur_line();
        let x = self.clamped_x(&s);
        if x > 0 {
            self.cursor_x = x - 1;
        } else if self.cursor_y > 0 {
            self.cursor_y = self.cursor_y - 1;
            self.cursor_x = chars_of(self.lines[self.cursor_y].as_str()).len();
        } else {
            self.cursor_x = 0;
        }
    }

    /// Moves the cursor one character right, to the start of the next line
    /// at the end of a line.
    pub fn move_right(&mut self)
        requires
            old(self).cursor_ok(),
        ensures
            right_post(*old(self), *final(self)),
            same_ui(*old(self), *final(self)),
            *final(self) == (App { cursor_y: final(self).cursor_y, cursor_x: final(self).cursor_x, ..*old(self) }),
    {
        let s = self.cur_line();
        let x = self.clamped_x(&s);
        if x < s.len() {
            self.cursor_x = x + 1;
        } else if self.cursor_y < self.lines.len() - 1 {
            self.cursor_y = self.cursor_y + 1;
            self.cursor_x = 0;
        } else {
            self.cursor_x = x;
        }
    }

    /// Moves the cursor to the start of its line.
    pub fn move_home(&mut self)
        ensures
            home_post(*old(self), *final(self)),
            same_ui(*old(self), *final(self)),
            *final(self) == (App { cursor_y: final(self).cursor_y, cursor_x: final(self).cursor_x, ..*old(self) }),
    {
        self.cursor_x = 0;
    }

    /// Moves the cursor to the end of its line.
    pub fn move_end(&mut self)
        requires
            old(self).cursor_ok(),
        ensures
            end_post(*old(self), *final(self)),
            same_ui(*old(self), *final(self)),
            *final(self) == (App { cursor_y: final(self).cursor_y, cursor_x: final(self).cursor_x, ..*old(self) }),
    {
        self.cursor_x = self.cur_line().len();
    }

    /// Moves the cursor past the end of the next word; at the end of a line,
    /// to the start of the next line.
    pub fn move_word_right(&mut self)
        requires
            old(self).cursor_ok(),
        ensures
            word_right_post(*old(self), *final(self)),
            same_ui(*old(self), *final(self)),
            *final(self) == (App { cursor_y: final(self).cursor_y, cursor_x: final(self).cursor_x, ..*old(self) }),
    {
        let s = self.cur_line();
        let x = self.clamped_x(&s);
        if x < s.len() {
            let mut k = x;
            while k < s.len() && is_whitespace(s[k])
                invariant
                    x <= k <= s.len(),
                    word_end_after(s@, x as int) == word_end_after(s@, k as int),
                decreases s.len() - k,
            {
                k += 1;
            }
            proof {
                if k < s.len() {
                    assert(word_end_after(s@, k as int) == word_fwd(s@, k as int));
                }
            }
            while k < s.len() && !is_whitespace(s[k])
                invariant
                    x <= k <= s.len(),
                    word_end_after(s@, x as int) == word_fwd(s@, k as int),
                decreases s.len() - k,
            {
                k += 1;
            }
            self.cursor_x = k;
        } else if self.cursor_y < self.lines.len() - 1 {
            self.cursor_y = self.cursor_y + 1;
            self.cursor_x = 0;
        } else {
            self.cursor_x = x;
        }
    }

    /// Moves the cursor to the start of the word before it; at the start of
    /// a line, to the end of the line above.
    pub fn move_word_left(&mut self)
        requires
            old(self).cursor_ok(),
        ensures
            word_left_post(*old(self), *final(self)),
            same_ui(*old(self), *final(self)),
            *final(self) == (App { cursor_y: final(self).cursor_y, cursor_x: final(self).cursor_x, ..*old(self) }),
    {
        let s = self.cur_line();
        let x = self.clamped_x(&s);
        if x > 0 {
            let k = word_start(&s, x);
            self.cursor_x = k;
        } else if self.cursor_y > 0 {
            self.cursor_y = self.cursor_y - 1;
            self.cursor_x = chars_of(self.lines[self.cursor_y].as_str()).len();
        } else {
            self.cursor_x = 0;
        }
    }

    /// Deletes from the start of the word before the cursor to the cursor;
    /// at the start of a line, joins it to the line above.
    pub fn delete_word_back(&mut self)
        requires
            old(self).cursor_ok(),
        ensures
            final(self).cursor_ok(),
            final(self).types == old(self).types,
            ({
                let l = old(self).text();
                let y = old(self).cursor_y as int;
                let s = l[y];
                let x = old(self).col();
                if x > 0 {
                    let k = word_start_before(s, x);
                    &&& final(self).text() == l.update(y, s.take(k) + s.skip(x))
                    &&& final(self).cursor_y == y
                    &&& final(self).cursor_x == k
                    &&& final(self).dirty
                } else if y > 0 {
                    &&& final(self).text() == l.update(y - 1, l[y - 1] + s).remove(y)
                    &&& final(self).cursor_y == y - 1
                    &&& final(self).cursor_x == l[y - 1].len()
                } else {
                    &&& final(self).text() == l
                    &&& final(self).cursor_y == old(self).cursor_y
                }
            }),
            *final(self) == (App { lines: final(self).lines, cursor_y: final(self).cursor_y, cursor_x: final(self).cursor_x, dirty: final(self).dirty, ..*old(self) }),
    {
        let s = self.cur_line();
        let x = self.clamped_x(&s);
        if x > 0 {
            let k = word_start(&s, x);
            let new_line = splice(&s, k, x, &Vec::new());
            proof {
                assert(new_line@ == s@.take(k as int) + s@.skip(x as int));
            }
            self.put_line(self.cursor_y, &new_line);
            self.cursor_x = k;
            self.dirty = true;
        } else {
            self.backspace();
        }
    }

    /// The screen rows of line `y`.
    fn rows_of_line(&self, y: usize) -> (r: Vec<(usize, usize)>)
        requires
            y < self.lines@.len(),
        ensures
            r@.map_values(|p: (usize, usize)| (p.0 as int, p.1 as int)) == line_rows(self.text(), self.types@, y as int),
            r@.len() >= 1,
            forall|k: int| 0 <= k < r@.len() ==> #[trigger] r@[k].0 <= r@[k].1 <= self.text()[y as int].len(),
            forall|k: int| 0 < k < r@.len() ==> #[trigger] r@[k].0 == r@[k - 1].1,
            r@[0].0 == 0,
            r@[r@.len() - 1].1 == self.text()[y as int].len(),
    {
        let s = chars_of(self.lines[y].as_str());
        let w = wrap_width(line_type(&self.types, y));
        wrap(&s, w)
    }

    /// The cursor's column within its screen row.
    pub fn current_visual_x(&self) -> (r: usize)
        requires
            self.cursor_ok(),
        ensures
            ({
                let rows = line_rows(self.text(), self.types@, self.cursor_y as int);
                r == self.col() - rows[row_of(rows, self.col())].0
            }),
    {
        let s = self.cur_line();
        let x = self.clamped_x(&s);
        let rows = self.rows_of_line(self.cursor_y);
        let r = find_row(&rows, x);
        proof {
            crate::layout::lemma_row_of(line_rows(self.text(), self.types@, self.cursor_y as int), x as int);
            let rs = line_rows(self.text(), self.types@, self.cursor_y as int);
            crate::layout::lemma_row_of_start(rs, x as int);
            if r > 0 {
                assert(rs[r - 1].1 == rows@[r - 1].1);
                assert(rows@[r as int].0 == rows@[r - 1].1);
            }
            assert(rows@[r as int].0 <= x);
        }
        x - rows[r].0
    }
}

/// Typing `c` at column `x` of `s`: the new line and column.
fn typed_char(s: &Vec<char>, x: usize, c: char) -> (r: (Vec<char>, usize))
    requires
        x <= s.len() < usize::MAX,
    ensures
        (r.0@, r.1 as int) == insert_char_spec(s@, x as int, c),
        r.1 == x + 1,
        r.0@ == s@ || r.0@.len() > s@.len(),
{
    let has_next = x < s.len();
    if (c == ')' || c == ']') && has_next && s[x] == c {
        return (slice_chars(s, 0, s.len()), x + 1);
    }
    if (c == '"' || c == '\'') && has_next && s[x] == c && count_quotes(s, x, c) % 2 == 1 {
        return (slice_chars(s, 0, s.len()), x + 1);
    }
    let mut mid: Vec<char> = Vec::new();
    mid.push(c);
    if c == '[' && x > 0 && s[x - 1] == '[' {
        mid.push(']');
        mid.push(']');
    } else if c == '*' && x > 0 && s[x - 1] == '/' {
        mid.push('*');
        mid.push('/');
    } else if c == '*' && x > 0 && s[x - 1] == '*' {
        mid.push('*');
        mid.push('*');
    } else if c == '\'' && x > 0 && is_alphanumeric(s[x - 1]) {
    } else if (c == '(' || c == '"' || c == '\'') && !(has_next && is_alphanumeric(s[x])) {
        mid.push(if c == '(' {
            ')'
        } else {
            c
        });
    }
    let new_line = splice(s, x, x, &mid);
    proof {
        assert(s@.take(x as int).push(c) + s@.skip(x as int) =~= s@.take(x as int) + seq![c]
            + s@.skip(x as int));
        assert(new_line@.len() > s@.len());
    }
    (new_line, x + 1)
}

/// Start of the word before column `x` of `s`.
fn word_start(s: &Vec<char>, x: usize) -> (k: usize)
    requires
        0 < x <= s.len(),
    ensures
        k == word_start_before(s@, x as int),
        k <= x,
{
    let mut k = x;
    while k > 0 && is_whitespace(s[k - 1])
        invariant
            k <= x <= s.len(),
            word_start_before(s@, x as int) == word_start_before(s@, k as int),
        decreases k,
    {
        k -= 1;
    }
    proof {
        if k > 0 {
            assert(word_start_before(s@, k as int) == word_back(s@, k as int));
        }
    }
    while k > 0 && !is_whitespace(s[k - 1])
        invariant
            k <= x <= s.len(),
            k > 0 ==> word_start_before(s@, x as int) == word_back(s@, k as int),
            k == 0 ==> word_start_before(s@, x as int) == 0,
        decreases k,
    {
        k -= 1;
    }
    k
}


/// What `delete_word_forward` does: from the cursor to where
/// `move_word_right` would take it on the line, the text goes; at the end
/// of a line, the next line is joined to it.
pub open spec fn delete_word_forward_post(pre: App, post: App) -> bool {
    &&& post.cursor_ok()
    &&& post.types == pre.types
    &&& post.cursor_y == pre.cursor_y
    &&& {
        let l = pre.text();
        let y = pre.cursor_y as int;
        let s = l[y];
        let x = pre.col();
        if x < s.len() {
            &&& post.text() == l.update(y, s.take(x) + s.skip(word_end_after(s, x)))
            &&& post.cursor_x == x
            &&& post.dirty
        } else if y + 1 < l.len() {
            &&& post.text() == l.update(y, s + l[y + 1]).remove(y + 1)
            &&& post.cursor_x == x
            &&& post.dirty
        } else {
            &&& post.text() == l
            &&& post.cursor_x == pre.cursor_x
            &&& post.dirty == pre.dirty
        }
    }
}

/// What `cut_line` does: the cursor's line goes to the clipboard and out
/// of the script (the only line of a script is emptied instead); the
/// cursor goes to the start of the line that takes its place, or of the
/// line above where the last line was cut.
pub open spec fn cut_line_post(pre: App, post: App) -> bool {
    let l = pre.text();
    let y = pre.cursor_y as int;
    &&& post.cursor_ok()
    &&& post.types == pre.types
    &&& post.clipboard@ == l[y]
    &&& post.cursor_x == 0
    &&& post.dirty
    &&& if l.len() > 1 {
        &&& post.text() == l.remove(y)
        &&& post.cursor_y == if y + 1 < l.len() { y } else { y - 1 }
    } else {
        &&& post.text() == seq![Seq::<char>::empty()]
        &&& post.cursor_y == 0
    }
}

/// What `paste_line` does: the clipboard's text goes in at the cursor,
/// which moves past it.
pub open spec fn paste_post(pre: App, post: App) -> bool {
    let l = pre.text();
    let y = pre.cursor_y as int;
    let s = l[y];
    let x = pre.col();
    &&& post.cursor_ok()
    &&& post.types == pre.types
    &&& post.clipboard == pre.clipboard
    &&& post.text() == l.update(y, s.take(x) + pre.clipboard@ + s.skip(x))
    &&& post.cursor_y == y
    &&& post.cursor_x == x + pre.clipboard@.len()
    &&& post.dirty
}

/// Where `move_word_right` goes from column `x` on line `s` (see
/// `word_end_after`).
fn word_end_from(s: &Vec<char>, x: usize) -> (r: usize)
    requires
        x <= s@.len(),
    ensures
        r == word_end_after(s@, x as int),
        x <= r <= s@.len(),
{
    let mut k = x;
    while k < s.len() && is_whitespace(s[k])
        invariant
            x <= k <= s@.len(),
            word_end_after(s@, x as int) == word_end_after(s@, k as int),
        decreases s.len() - k,
    {
        k += 1;
    }
    proof {
        if k < s.len() {
            assert(word_end_after(s@, k as int) == word_fwd(s@, k as int));
        }
    }
    while k < s.len() && !is_whitespace(s[k])
        invariant
            x <= k <= s@.len(),
            word_end_after(s@, x as int) == word_fwd(s@, k as int),
        decreases s.len() - k,
    {
        k += 1;
    }
    k
}

impl App {
    /// Deletes the word after the cursor (what `move_word_right` would move
    /// over on the line); at the end of a line, joins the next line to it.
    pub fn delete_word_forward(&mut self)
        requires
            old(self).cursor_ok(),
        ensures
            delete_word_forward_post(*old(self), *final(self)),
            same_ui(*old(self), *final(self)),
            *final(self) == (App { lines: final(self).lines, cursor_y: final(self).cursor_y, cursor_x: final(self).cursor_x, dirty: final(self).dirty, ..*old(self) }),
    {
        let s = self.cur_line();
        let x = self.clamped_x(&s);
        if x < s.len() {
            let k = word_end_from(&s, x);
            let new_line = splice(&s, x, k, &Vec::new());
            proof {
                assert(new_line@ == s@.take(x as int) + s@.skip(k as int));
            }
            self.put_line(self.cursor_y, &new_line);
            self.cursor_x = x;
            self.dirty = true;
        } else {
            self.delete_forward();
        }
    }

    /// Cuts the cursor's line into the clipboard (`dd`).
    pub fn cut_line(&mut self)
        requires
            old(self).cursor_ok(),
        ensures
            cut_line_post(*old(self), *final(self)),
            same_ui(*old(self), *final(self)),
            *final(self) == (App { lines: final(self).lines, cursor_y: final(self).cursor_y, cursor_x: final(self).cursor_x, dirty: final(self).dirty, clipboard: final(self).clipboard, ..*old(self) }),
    {
        let y = self.cursor_y;
        let ghost l = self.text();
        if self.lines.len() > 1 {
            let cut = self.lines.remove(y);
            proof {
                assert(self.text() =~= l.remove(y as int));
            }
            self.clipboard = cut;
            if y >= self.lines.len() {
                self.cursor_y = y - 1;
            }
        } else {
            let cut = self.lines.remove(y);
            self.lines.push(String::new());
            proof {
                assert(self.text() =~= seq![Seq::<char>::empty()]);
            }
            self.clipboard = cut;
            self.cursor_y = 0;
        }
        self.cursor_x = 0;
        self.dirty = true;
    }

    /// Inserts the clipboard's text at the cursor (`p`, `P`).
    pub fn paste_line(&mut self)
        requires
            old(self).cursor_ok(),
        ensures
            paste_post(*old(self), *final(self)),
            same_ui(*old(self), *final(self)),
            *final(self) == (App { lines: final(self).lines, cursor_x: final(self).cursor_x, dirty: final(self).dirty, ..*old(self) }),
    {
        let s = self.cur_line();
        let x = self.clamped_x(&s);
        let c = chars_of(self.clipboard.as_str());
        let new_line = splice(&s, x, x, &c);
        proof {
            assert(new_line@ == s@.take(x as int) + self.clipboard@ + s@.skip(x as int));
            assert(new_line@.len() == s@.len() + c@.len());
        }
        let n = new_line.len();
        assert(x + c.len() <= n);
        self.put_line(self.cursor_y, &new_line);
        self.cursor_x = x + c.len();
        self.dirty = true;
    }
}

} // verus!

verus! {

/// Where vertical movement lands in a row: column `t` of the row, or its
/// last position (the end of the line for the last row, the last character
/// for the others).
pub open spec fn place_in_row(row: (int, int), t: int, last: bool) -> int {
    let room = if last {
        row.1 - row.0
    } else if row.1 - row.0 >= 1 {
        row.1 - row.0 - 1
    } else {
        0
    };
    row.0 + if t < room {
        t
    } else {
        room
    }
}

/// The screen rows of all lines, in order.
pub open spec fn layout_spec(lines: Seq<Seq<char>>, types: Seq<LineType>, n: int) -> Seq<VisualRow>
    decreases n,
{
    if n <= 0 || n > lines.len() {
        Seq::empty()
    } else {
        layout_spec(lines, types, n - 1) + line_rows(lines, types, n - 1).map_values(
            |p: (int, int)| VisualRow { line_idx: (n - 1) as usize, char_start: p.0 as usize, char_end: p.1 as usize },
        )
    }
}

fn place(row: (usize, usize), t: usize, last: bool) -> (r: usize)
    requires
        row.0 <= row.1,
    ensures
        r == place_in_row((row.0 as int, row.1 as int), t as int, last),
        row.0 <= r <= row.1,
{
    let room = if last {
        row.1 - row.0
    } else if row.1 - row.0 >= 1 {
        row.1 - row.0 - 1
    } else {
        0
    };
    row.0 + if t < room {
        t
    } else {
        room
    }
}

pub fn copy_lines(v: &Vec<String>) -> (r: Vec<String>)
    ensures
        texts(r@) == texts(v@),
        r@.len() == v@.len(),
{
    let mut r: Vec<String> = Vec::new();
    let mut i: usize = 0;
    while i < v.len()
        invariant
            i <= v.len(),
            r@.len() == i,
            forall|k: int| 0 <= k < i ==> #[trigger] r@[k]@ == v@[k]@,
        decreases v.len() - i,
    {
        r.push(v[i].clone());
        i += 1;
    }
    proof {
        assert(texts(r@) =~= texts(v@));
    }
    r
}

/// What `undo` does: with nothing to undo, nothing; else the last
/// remembered text and cursor come back, and the text left is remembered
/// for redo.
pub open spec fn undone(pre: App, post: App) -> bool {
    &&& pre.undo_stack@.len() == 0 ==> post.lines == pre.lines && post.undo_stack@ == pre.undo_stack@
    &&& pre.undo_stack@.len() > 0 ==> {
        let st = pre.undo_stack@.last();
        &&& post.text() == texts(st.lines@)
        &&& post.cursor_y == st.cursor_y
        &&& post.cursor_x == st.cursor_x
        &&& post.undo_stack@ == pre.undo_stack@.drop_last()
        &&& post.redo_stack@.len() == pre.redo_stack@.len() + 1
        &&& texts(post.redo_stack@.last().lines@) == pre.text()
        &&& post.redo_stack@.last().cursor_y == pre.cursor_y
        &&& post.redo_stack@.last().cursor_x == pre.cursor_x
        &&& post.types@ == classify_spec(post.text())
        &&& post.dirty
    }
}

/// What `redo` does: with nothing to redo, nothing; else the text last
/// undone and its cursor come back, and the text left is remembered for
/// undo.
pub open spec fn redone(pre: App, post: App) -> bool {
    &&& pre.redo_stack@.len() == 0 ==> post.lines == pre.lines && post.redo_stack@ == pre.redo_stack@
    &&& pre.redo_stack@.len() > 0 ==> {
        let st = pre.redo_stack@.last();
        &&& post.text() == texts(st.lines@)
        &&& post.cursor_y == st.cursor_y
        &&& post.cursor_x == st.cursor_x
        &&& post.redo_stack@ == pre.redo_stack@.drop_last()
        &&& post.undo_stack@.len() == pre.undo_stack@.len() + 1
        &&& texts(post.undo_stack@.last().lines@) == pre.text()
        &&& post.undo_stack@.last().cursor_y == pre.cursor_y
        &&& post.undo_stack@.last().cursor_x == pre.cursor_x
        &&& post.types@ == classify_spec(post.text())
        &&& post.dirty
    }
}

/// What `save_state` does: the text and cursor are remembered for undo,
/// and with `clear_redo` nothing is left to redo; nothing else changes.
pub open spec fn saved(pre: App, post: App, clear_redo: bool) -> bool {
    &&& post.undo_stack@.len() == pre.undo_stack@.len() + 1
    &&& post.undo_stack@.take(pre.undo_stack@.len() as int) == pre.undo_stack@
    &&& texts(post.undo_stack@.last().lines@) == pre.text()
    &&& post.undo_stack@.last().cursor_y == pre.cursor_y
    &&& post.undo_stack@.last().cursor_x == pre.cursor_x
    &&& clear_redo ==> post.redo_stack@.len() == 0
    &&& !clear_redo ==> post.redo_stack == pre.redo_stack
    &&& post.lines == pre.lines
    &&& post.types == pre.types
    &&& post.cursor_y == pre.cursor_y
    &&& post.cursor_x == pre.cursor_x
}

/// Undo takes the script back to the last state remembered for undo: after
/// `save_state`, any edits that leave the undo history alone, and `undo`,
/// the text and cursor are those of the moment of saving.
pub proof fn law_undo_returns_to_saved(a0: App, a1: App, a2: App, a3: App, clear_redo: bool)
    requires
        saved(a0, a1, clear_redo),
        a2.undo_stack == a1.undo_stack,
        undone(a2, a3),
    ensures
        a3.text() == a0.text(),
        a3.cursor_y == a0.cursor_y,
        a3.cursor_x == a0.cursor_x,
        a3.undo_stack@ == a0.undo_stack@,
{
    assert(a1.undo_stack@.drop_last() =~= a0.undo_stack@);
}

/// Redo cancels undo: when there was something to undo, undoing and then
/// redoing gives back the text and cursor from before the undo.
pub proof fn law_redo_cancels_undo(a0: App, a1: App, a2: App)
    requires
        a0.undo_stack@.len() > 0,
        undone(a0, a1),
        redone(a1, a2),
    ensures
        a2.text() == a0.text(),
        a2.cursor_y == a0.cursor_y,
        a2.cursor_x == a0.cursor_x,
        a2.undo_stack@.len() == a0.undo_stack@.len(),
{
}

impl App {
    /// Moves the cursor one screen row up, keeping the target column.
    pub fn move_up(&mut self)
        requires
            old(self).cursor_ok(),
        ensures
            up_post(*old(self), *final(self)),
            same_ui(*old(self), *final(self)),
            *final(self) == (App { cursor_y: final(self).cursor_y, cursor_x: final(self).cursor_x, ..*old(self) }),
    {
        let s = self.cur_line();
        let x = self.clamped_x(&s);
        let rows = self.rows_of_line(self.cursor_y);
        let r = find_row(&rows, x);
        proof {
            assert(rows@[r as int] == rows@[r as int]);
        }
        if r > 0 {
            proof {
                assert(rows@.map_values(|p: (usize, usize)| (p.0 as int, p.1 as int))[r - 1] == (
                rows@[r - 1].0 as int, rows@[r - 1].1 as int));
            }
            self.cursor_x = place(rows[r - 1], self.target_visual_x, false);
        } else if self.cursor_y > 0 {
            let pr = self.rows_of_line(self.cursor_y - 1);
            let last = pr[pr.len() - 1];
            proof {
                assert(pr@.map_values(|p: (usize, usize)| (p.0 as int, p.1 as int))[pr@.len() - 1] == (
                last.0 as int, last.1 as int));
            }
            self.cursor_x = place(last, self.target_visual_x, true);
            self.cursor_y = self.cursor_y - 1;
        }
    }

    /// Moves the cursor one screen row down, keeping the target column.
    pub fn move_down(&mut self)
        requires
            old(self).cursor_ok(),
        ensures
            down_post(*old(self), *final(self)),
            same_ui(*old(self), *final(self)),
            *final(self) == (App { cursor_y: final(self).cursor_y, cursor_x: final(self).cursor_x, ..*old(self) }),
    {
        let s = self.cur_line();
        let x = self.clamped_x(&s);
        let rows = self.rows_of_line(self.cursor_y);
        let r = find_row(&rows, x);
        if r < rows.len() - 1 {
            proof {
                assert(rows@.map_values(|p: (usize, usize)| (p.0 as int, p.1 as int))[r + 1] == (
                rows@[r + 1].0 as int, rows@[r + 1].1 as int));
            }
            self.cursor_x = place(rows[r + 1], self.target_visual_x, r + 2 == rows.len());
        } else if self.cursor_y < self.lines.len() - 1 {
            let nr = self.rows_of_line(self.cursor_y + 1);
            proof {
                assert(nr@.map_values(|p: (usize, usize)| (p.0 as int, p.1 as int))[0] == (
                nr@[0].0 as int, nr@[0].1 as int));
            }
            self.cursor_x = place(nr[0], self.target_visual_x, nr.len() == 1);
            self.cursor_y = self.cursor_y + 1;
        }
    }

    /// Lays out every line into screen rows.
    pub fn update_layout(&mut self)
        ensures
            final(self).layout@ == layout_spec(old(self).text(), old(self).types@, old(self).lines@.len() as int),
            final(self).lines == old(self).lines,
            final(self).types == old(self).types,
            final(self).cursor_y == old(self).cursor_y,
            final(self).cursor_x == old(self).cursor_x,
            final(self).target_visual_x == old(self).target_visual_x,
            final(self).dirty == old(self).dirty,
            final(self).status_msg == old(self).status_msg,
            final(self).undo_stack == old(self).undo_stack,
            final(self).redo_stack == old(self).redo_stack,
            final(self).selected_card_idx == old(self).selected_card_idx,
            final(self).is_card_editing == old(self).is_card_editing,
            final(self).is_heading_editing == old(self).is_heading_editing,
            final(self).card_input_buffer == old(self).card_input_buffer,
            final(self).mode == old(self).mode,
            *final(self) == (App { layout: final(self).layout, ..*old(self) }),
    {
        let mut out: Vec<VisualRow> = Vec::new();
        let mut i: usize = 0;
        while i < self.lines.len()
            invariant
                i <= self.lines@.len(),
                out@ == layout_spec(self.text(), self.types@, i as int),
            decreases self.lines.len() - i,
        {
            let rows = self.rows_of_line(i);
            let ghost before = out@;
            let mut k: usize = 0;
            while k < rows.len()
                invariant
                    k <= rows@.len(),
                    out@ == before + rows@.take(k as int).map_values(|p: (usize, usize)| VisualRow { line_idx: i, char_start: p.0, char_end: p.1 }),
                decreases rows.len() - k,
            {
                out.push(VisualRow { line_idx: i, char_start: rows[k].0, char_end: rows[k].1 });
                k += 1;
                proof {
                    assert(rows@.take(k as int).map_values(|p: (usize, usize)| VisualRow { line_idx: i, char_start: p.0, char_end: p.1 })
                        =~= rows@.take(k - 1).map_values(|p: (usize, usize)| VisualRow { line_idx: i, char_start: p.0, char_end: p.1 }).push(
                            VisualRow { line_idx: i, char_start: rows@[k - 1].0, char_end: rows@[k - 1].1 }));
                }
            }
            proof {
                let lr = line_rows(self.text(), self.types@, i as int);
                assert(rows@.take(rows@.len() as int) =~= rows@);
                assert(lr.map_values(|p: (int, int)| VisualRow { line_idx: i, char_start: p.0 as usize, char_end: p.1 as usize })
                    =~= rows@.map_values(|p: (usize, usize)| VisualRow { line_idx: i, char_start: p.0, char_end: p.1 })) by {
                    assert forall|k: int| 0 <= k < lr.len() implies #[trigger] lr[k] == (rows@[k].0 as int, rows@[k].1 as int) by {
                        assert(rows@.map_values(|p: (usize, usize)| (p.0 as int, p.1 as int))[k] == (rows@[k].0 as int, rows@[k].1 as int));
                    }
                }
            }
            i += 1;
        }
        self.layout = out;
    }

    /// Remembers the text and cursor for undo; with `clear_redo`, what could
    /// be redone is forgotten.
    pub fn save_state(&mut self, clear_redo: bool)
        ensures
            saved(*old(self), *final(self), clear_redo),
            final(self).undo_stack@.len() == old(self).undo_stack@.len() + 1,
            final(self).undo_stack@.take(old(self).undo_stack@.len() as int) == old(self).undo_stack@,
            texts(final(self).undo_stack@.last().lines@) == old(self).text(),
            final(self).undo_stack@.last().cursor_y == old(self).cursor_y,
            final(self).undo_stack@.last().cursor_x == old(self).cursor_x,
            clear_redo ==> final(self).redo_stack@.len() == 0,
            !clear_redo ==> final(self).redo_stack == old(self).redo_stack,
            final(self).lines == old(self).lines,
            final(self).types == old(self).types,
            final(self).cursor_y == old(self).cursor_y,
            final(self).cursor_x == old(self).cursor_x,
            final(self).target_visual_x == old(self).target_visual_x,
            final(self).dirty == old(self).dirty,
            final(self).status_msg == old(self).status_msg,
            final(self).selected_card_idx == old(self).selected_card_idx,
            final(self).is_card_editing == old(self).is_card_editing,
            final(self).is_heading_editing == old(self).is_heading_editing,
            final(self).card_input_buffer == old(self).card_input_buffer,
            final(self).mode == old(self).mode,
            *final(self) == (App { undo_stack: final(self).undo_stack, redo_stack: final(self).redo_stack, ..*old(self) }),
    {
        let st = EditState { lines: copy_lines(&self.lines), cursor_y: self.cursor_y, cursor_x: self.cursor_x };
        let ghost u0 = self.undo_stack@;
        self.undo_stack.push(st);
        proof {
            assert(self.undo_stack@.take(u0.len() as int) =~= u0);
        }
        if clear_redo {
            self.redo_stack = Vec::new();
        }
    }

    /// Goes back to the last state remembered for undo; the current state
    /// can then be redone.
    pub fn undo(&mut self)
        ensures
            undone(*old(self), *final(self)),
            same_ui(*old(self), *final(self)),
            *final(self) == (App { lines: final(self).lines, cursor_y: final(self).cursor_y, cursor_x: final(self).cursor_x, dirty: final(self).dirty, types: final(self).types, undo_stack: final(self).undo_stack, redo_stack: final(self).redo_stack, ..*old(self) }),
    {
        match self.undo_stack.pop() {
            Some(st) => {
                let cur = EditState { lines: copy_lines(&self.lines), cursor_y: self.cursor_y, cursor_x: self.cursor_x };
                self.redo_stack.push(cur);
                self.lines = st.lines;
                self.cursor_y = st.cursor_y;
                self.cursor_x = st.cursor_x;
                self.dirty = true;
                self.parse_document();
            },
            None => {},
        }
    }

    /// Goes forward to the state last undone.
    pub fn redo(&mut self)
        ensures
            redone(*old(self), *final(self)),
            same_ui(*old(self), *final(self)),
            *final(self) == (App { lines: final(self).lines, cursor_y: final(self).cursor_y, cursor_x: final(self).cursor_x, dirty: final(self).dirty, types: final(self).types, undo_stack: final(self).undo_stack, redo_stack: final(self).redo_stack, ..*old(self) }),
    {
        match self.redo_stack.pop() {
            Some(st) => {
                let cur = EditState { lines: copy_lines(&self.lines), cursor_y: self.cursor_y, cursor_x: self.cursor_x };
                self.undo_stack.push(cur);
                self.lines = st.lines;
                self.cursor_y = st.cursor_y;
                self.cursor_x = st.cursor_x;
                self.dirty = true;
                self.parse_document();
            },
            None => {},
        }
    }
}

} // verus!

verus! {

fn fraction(n: usize, total: usize) -> (r: Vec<char>)
    requires
        total > 0,
        n * 100 <= usize::MAX,
    ensures
        r@ == fraction_text(n as nat, total as nat),
{
    let mut r = crate::text::decimal(n);
    let slash = chars_of("/");
    push_all(&mut r, &slash);
    let t = crate::text::decimal(total);
    push_all(&mut r, &t);
    let open = chars_of(" (");
    push_all(&mut r, &open);
    let pct = crate::text::decimal(n * 100 / total);
    push_all(&mut r, &pct);
    let close = chars_of("%)");
    push_all(&mut r, &close);
    r
}

impl App {
    /// Characters of the document before line `y` (each line counting its
    /// line break).
    fn count_chars_before(&self, y: usize) -> (r: usize)
        requires
            y <= self.lines@.len(),
            chars_before(self.text(), self.lines@.len() as int) <= usize::MAX,
        ensures
            r == chars_before(self.text(), y as int),
    {
        let mut n: usize = 0;
        let mut i: usize = 0;
        while i < y
            invariant
                i <= y <= self.lines@.len(),
                n == chars_before(self.text(), i as int),
                chars_before(self.text(), self.lines@.len() as int) <= usize::MAX,
            decreases y - i,
        {
            proof {
                lemma_chars_before_mono(self.text(), (i + 1) as int, self.lines@.len() as int);
            }
            let l = chars_of(self.lines[i].as_str());
            n = n + l.len() + 1;
            i += 1;
        }
        n
    }

    /// Shows where the cursor is: `line a/b (p%), col c/d (q%), char e/f (r%)`,
    /// counting characters (not bytes), with each line's end counting as one
    /// position.
    pub fn report_cursor_position(&mut self)
        requires
            old(self).cursor_ok(),
            chars_before(old(self).text(), old(self).lines@.len() as int) * 100 <= usize::MAX,
            old(self).lines@.len() * 100 <= usize::MAX,
        ensures
            final(self).status_msg matches Some(m) && m@ == position_text(
                old(self).text(),
                old(self).cursor_y as int,
                old(self).col(),
            ),
            final(self).lines == old(self).lines,
            final(self).types == old(self).types,
            final(self).cursor_y == old(self).cursor_y,
            final(self).cursor_x == old(self).cursor_x,
            *final(self) == (App { status_msg: final(self).status_msg, command_error: final(self).command_error, ..*old(self) }),
    {
        let y = self.cursor_y;
        let s = self.cur_line();
        let x = self.clamped_x(&s);
        let n = self.lines.len();
        proof {
            lemma_chars_before_mono(self.text(), y as int, n as int);
            lemma_chars_before_mono(self.text(), (y + 1) as int, n as int);
        }
        let before = self.count_chars_before(y);
        let total = self.count_chars_before(n);
        let mut msg = chars_of("line ");
        let a = fraction(y + 1, n);
        push_all(&mut msg, &a);
        let c1 = chars_of(", col ");
        push_all(&mut msg, &c1);
        let b = fraction(x + 1, s.len() + 1);
        push_all(&mut msg, &b);
        let c2 = chars_of(", char ");
        push_all(&mut msg, &c2);
        let c = fraction(before + x + 1, total);
        push_all(&mut msg, &c);
        self.status_msg = Some(string_of(&msg));
        self.command_error = false;
    }

    /// Cycles the forcing sigil at the start of the cursor's line: none,
    /// then `@` (character cue), then `.` (scene heading), then `>`
    /// (transition), then none again.
    pub fn handle_tab(&mut self)
        requires
            old(self).cursor_ok(),
            old(self).text()[old(self).cursor_y as int].len() < usize::MAX,
        ensures
            final(self).cursor_ok(),
            final(self).cursor_y == old(self).cursor_y,
            final(self).dirty,
            final(self).types@ == classify_spec(final(self).text()),
            ({
                let l = old(self).text();
                let y = old(self).cursor_y as int;
                let s = l[y];
                let x = old(self).col();
                if s.len() > 0 && s[0] == '@' {
                    final(self).text() == l.update(y, seq!['.'] + s.skip(1)) && final(self).cursor_x == x
                } else if s.len() > 0 && s[0] == '.' {
                    final(self).text() == l.update(y, seq!['>'] + s.skip(1)) && final(self).cursor_x == x
                } else if s.len() > 0 && s[0] == '>' {
                    final(self).text() == l.update(y, s.skip(1)) && final(self).cursor_x == if x > 0 {
                        x - 1
                    } else {
                        0
                    }
                } else {
                    final(self).text() == l.update(y, seq!['@'] + s) && final(self).cursor_x == x + 1
                }
            }),
            *final(self) == (App { lines: final(self).lines, types: final(self).types, cursor_x: final(self).cursor_x, dirty: final(self).dirty, ..*old(self) }),
    {
        let y = self.cursor_y;
        let s = self.cur_line();
        let x = self.clamped_x(&s);
        if s.len() > 0 && (s[0] == '@' || s[0] == '.') {
            let mut head: Vec<char> = Vec::new();
            head.push(if s[0] == '@' {
                '.'
            } else {
                '>'
            });
            let new_line = splice(&s, 0, 1, &head);
            proof {
                assert(s@.take(0) + head@ + s@.skip(1) =~= head@ + s@.skip(1));
            }
            self.put_line(y, &new_line);
            self.cursor_x = x;
        } else if s.len() > 0 && s[0] == '>' {
            let new_line = slice_chars(&s, 1, s.len());
            proof {
                assert(new_line@ == s@.skip(1));
            }
            self.put_line(y, &new_line);
            self.cursor_x = if x > 0 {
                x - 1
            } else {
                0
            };
        } else {
            let mut head: Vec<char> = Vec::new();
            head.push('@');
            let new_line = concat(&head, &s);
            self.put_line(y, &new_line);
            self.cursor_x = x + 1;
        }
        self.dirty = true;
        self.parse_document();
    }
}

} // verus!
