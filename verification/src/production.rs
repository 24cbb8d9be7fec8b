//! Production scene numbers: a scene heading may end in a tag `#label#`;
//! these functions add, renumber and remove such tags.
use vstd::prelude::*;
use crate::chars::{chars_of, string_of};
use crate::classify::{LineType, classify_spec};
use crate::editor::{App, texts};
use crate::text::{
    decimal, decimal_spec, digit_char, is_digit, is_upper_ascii, is_ws, push_all, slice_chars,
    starts_with_spec, trim_end,
    trim_end_spec,
};

verus! {

/// Index of the last `c` among the first `end` characters of `s`.
pub open spec fn last_index_spec(s: Seq<char>, c: char, end: int) -> Option<int>
    decreases end,
{
    if end <= 0 || end > s.len() {
        None
    } else if s[end - 1] == c {
        Some(end - 1)
    } else {
        last_index_spec(s, c, end - 1)
    }
}

/// Where the tag of a line starts: the line, without trailing whitespace,
/// ends in `#label#` where the label is not empty and holds no space.
pub open spec fn tag_pos(line: Seq<char>) -> Option<int> {
    let t = trim_end_spec(line);
    if t.len() >= 1 && t.last() == '#' {
        match last_index_spec(t, '#', t.len() - 1) {
            Some(o) => {
                let inner = t.subrange(o + 1, t.len() - 1);
                if inner.len() > 0 && !inner.contains(' ') {
                    Some(o)
                } else {
                    None
                }
            },
            None => None,
        }
    } else {
        None
    }
}

/// The scene number tag of a line, if it has one.
pub open spec fn scene_tag(line: Seq<char>) -> Option<Seq<char>> {
    let t = trim_end_spec(line);
    match tag_pos(line) {
        Some(o) => Some(t.subrange(o + 1, t.len() - 1)),
        None => None,
    }
}

/// The line without its scene number tag and without trailing whitespace.
pub open spec fn strip_spec(line: Seq<char>) -> Seq<char> {
    let t = trim_end_spec(line);
    match tag_pos(line) {
        Some(o) => trim_end_spec(t.take(o)),
        None => t,
    }
}

pub open spec fn all_digits(s: Seq<char>) -> bool {
    forall|i: int| 0 <= i < s.len() ==> is_digit(#[trigger] s[i])
}

/// A tag that is not a plain integer (such as `12A`), kept by renumbering.
pub open spec fn custom_tag(line: Seq<char>) -> Option<Seq<char>> {
    match scene_tag(line) {
        Some(t) => if all_digits(t) {
            None
        } else {
            Some(t)
        },
        None => None,
    }
}

/// A heading `base` with the tag `label`: `base #label#`.
pub open spec fn numbered_line(base: Seq<char>, label: Seq<char>) -> Seq<char> {
    base + " #"@ + label + "#"@
}

pub open spec fn is_heading(types: Seq<LineType>, i: int) -> bool {
    0 <= i < types.len() && types[i] == LineType::SceneHeading
}

/// How many scene headings before line `i` carry no custom tag: the integer
/// numbers handed out before it.
pub open spec fn plain_count(lines: Seq<Seq<char>>, types: Seq<LineType>, i: int) -> nat
    decreases i,
{
    if i <= 0 {
        0
    } else {
        plain_count(lines, types, i - 1) + if is_heading(types, i - 1) && custom_tag(lines[i - 1])
            is None {
            1nat
        } else {
            0nat
        }
    }
}

/// The number renumbering gives the heading at line `i`.
pub open spec fn scene_number(lines: Seq<Seq<char>>, types: Seq<LineType>, i: int) -> nat {
    plain_count(lines, types, i) + 1
}

/// The tag renumbering gives the heading at line `i`: its custom tag, or its number.
pub open spec fn renumber_label(lines: Seq<Seq<char>>, types: Seq<LineType>, i: int) -> Seq<char> {
    match custom_tag(lines[i]) {
        Some(c) => c,
        None => decimal_spec(scene_number(lines, types, i)),
    }
}

/// Every scene heading numbered in order, custom tags kept.
pub open spec fn renumber_spec(lines: Seq<Seq<char>>, types: Seq<LineType>) -> Seq<Seq<char>> {
    Seq::new(
        lines.len(),
        |i: int|
            if is_heading(types, i) {
                numbered_line(strip_spec(lines[i]), renumber_label(lines, types, i))
            } else {
                lines[i]
            },
    )
}

/// Every scene heading without its tag.
pub open spec fn strip_all_spec(lines: Seq<Seq<char>>, types: Seq<LineType>) -> Seq<Seq<char>> {
    Seq::new(
        lines.len(),
        |i: int|
            if is_heading(types, i) && trim_end_spec(lines[i]) != strip_spec(lines[i]) {
                strip_spec(lines[i])
            } else {
                lines[i]
            },
    )
}

/// The nearest scene heading at or above line `y < types.len()`.
pub open spec fn heading_at_or_above(types: Seq<LineType>, y: int) -> Option<int>
    decreases y,
{
    if y < 0 || y >= types.len() {
        None
    } else if types[y] == LineType::SceneHeading {
        Some(y)
    } else if y == 0 {
        None
    } else {
        heading_at_or_above(types, y - 1)
    }
}

/// The nearest scene heading at or above line `y`, `y` clamped to the script.
pub open spec fn heading_above(types: Seq<LineType>, y: int) -> Option<int> {
    if types.len() == 0 {
        None
    } else if y >= types.len() {
        heading_at_or_above(types, types.len() - 1)
    } else {
        heading_at_or_above(types, y)
    }
}

pub proof fn lemma_last_index(s: Seq<char>, c: char, end: int)
    ensures
        last_index_spec(s, c, end) matches Some(o) ==> 0 <= o < end && o < s.len() && s[o] == c
            && forall|k: int| o < k < end ==> s[k] != c,
        last_index_spec(s, c, end) is None && end <= s.len() ==> forall|k: int|
            0 <= k < end ==> s[k] != c,
    decreases end,
{
    if end <= 0 || end > s.len() {
    } else if s[end - 1] == c {
    } else {
        lemma_last_index(s, c, end - 1);
    }
}

fn last_index(v: &Vec<char>, c: char, end: usize) -> (r: Option<usize>)
    requires
        end <= v.len(),
    ensures
        r matches Some(o) ==> last_index_spec(v@, c, end as int) == Some(o as int),
        r is None ==> last_index_spec(v@, c, end as int) is None,
{
    let mut k: usize = end;
    while k > 0
        invariant
            k <= end <= v.len(),
            last_index_spec(v@, c, end as int) == last_index_spec(v@, c, k as int),
        decreases k,
    {
        if v[k - 1] == c {
            return Some(k - 1);
        }
        k -= 1;
    }
    None
}

fn has_char(v: &Vec<char>, c: char) -> (r: bool)
    ensures
        r == v@.contains(c),
{
    let mut i: usize = 0;
    while i < v.len()
        invariant
            i <= v.len(),
            forall|k: int| 0 <= k < i ==> v@[k] != c,
        decreases v.len() - i,
    {
        if v[i] == c {
            proof {
                assert(v@[i as int] == c);
            }
            return true;
        }
        i += 1;
    }
    false
}

/// The line without trailing whitespace, and where its tag starts.
fn tag_split(line: &Vec<char>) -> (r: (Vec<char>, Option<usize>))
    ensures
        r.0@ == trim_end_spec(line@),
        r.1 matches Some(o) ==> tag_pos(line@) == Some(o as int),
        r.1 is None ==> tag_pos(line@) is None,
{
    let t = trim_end(line);
    if t.len() >= 1 && t[t.len() - 1] == '#' {
        match last_index(&t, '#', t.len() - 1) {
            Some(o) => {
                proof {
                    lemma_last_index(t@, '#', t@.len() - 1);
                }
                let inner = slice_chars(&t, o + 1, t.len() - 1);
                if inner.len() > 0 && !has_char(&inner, ' ') {
                    (t, Some(o))
                } else {
                    (t, None)
                }
            },
            None => (t, None),
        }
    } else {
        (t, None)
    }
}

/// The scene number tag of a line (`#label#` at its end), if it has one.
pub fn scene_tag_of(line: &Vec<char>) -> (r: Option<Vec<char>>)
    ensures
        r matches Some(t) ==> scene_tag(line@) == Some(t@),
        r is None ==> scene_tag(line@) is None,
{
    let (t, pos) = tag_split(line);
    match pos {
        Some(o) => {
            proof {
                lemma_last_index(t@, '#', t@.len() - 1);
                assert(last_index_spec(t@, '#', t@.len() - 1) == Some(o as int));
            }
            Some(slice_chars(&t, o + 1, t.len() - 1))
        },
        None => None,
    }
}

/// The line without its scene number tag and without trailing whitespace.
pub fn strip_number(line: &Vec<char>) -> (r: Vec<char>)
    ensures
        r@ == strip_spec(line@),
{
    let (t, pos) = tag_split(line);
    match pos {
        Some(o) => {
            proof {
                lemma_last_index(t@, '#', t@.len() - 1);
                assert(last_index_spec(t@, '#', t@.len() - 1) == Some(o as int));
            }
            let head = slice_chars(&t, 0, o);
            proof {
                assert(head@ == t@.take(o as int));
            }
            trim_end(&head)
        },
        None => t,
    }
}

fn digits_only(v: &Vec<char>) -> (r: bool)
    ensures
        r == all_digits(v@),
{
    let mut i: usize = 0;
    while i < v.len()
        invariant
            i <= v.len(),
            forall|k: int| 0 <= k < i ==> is_digit(#[trigger] v@[k]),
        decreases v.len() - i,
    {
        if !crate::text::is_ascii_digit(v[i]) {
            return false;
        }
        i += 1;
    }
    true
}

/// The custom (non-integer) tag of a line, if it has one.
pub fn custom_tag_of(line: &Vec<char>) -> (r: Option<Vec<char>>)
    ensures
        r matches Some(t) ==> custom_tag(line@) == Some(t@),
        r is None ==> custom_tag(line@) is None,
{
    match scene_tag_of(line) {
        Some(t) => if digits_only(&t) {
            None
        } else {
            Some(t)
        },
        None => None,
    }
}

/// `base #label#`.
pub fn numbered(base: &Vec<char>, label: &Vec<char>) -> (r: Vec<char>)
    ensures
        r@ == numbered_line(base@, label@),
{
    let mut r = slice_chars(base, 0, base.len());
    let sep = chars_of(" #");
    let end = chars_of("#");
    push_all(&mut r, &sep);
    push_all(&mut r, label);
    push_all(&mut r, &end);
    proof {
        assert(base@.subrange(0, base@.len() as int) == base@);
    }
    r
}

impl App {
    /// The line without its scene number tag (`#label#` at its end) and
    /// without trailing whitespace.
    pub fn strip_scene_number_from_line(line: &str) -> (r: String)
        ensures
            r@ == strip_spec(line@),
    {
        string_of(&strip_number(&chars_of(line)))
    }

    /// The scene number tag of a line, if it has one.
    pub fn extract_scene_tag(line: &str) -> (r: Option<String>)
        ensures
            r matches Some(t) ==> scene_tag(line@) == Some(t@),
            r is None ==> scene_tag(line@) is None,
    {
        match scene_tag_of(&chars_of(line)) {
            Some(t) => Some(string_of(&t)),
            None => None,
        }
    }

    /// The number renumbering would give the scene heading at line `y`: one
    /// more than the headings above it that carry no custom tag.
    pub fn compute_scene_number_for(&self, y: usize) -> (r: usize)
        requires
            self.typed(),
            y < self.lines@.len(),
        ensures
            r == scene_number(self.text(), self.types@, y as int),
    {
        let mut count: usize = 0;
        let mut i: usize = 0;
        let n: usize = self.lines.len();
        while i < y
            invariant
                self.typed(),
                i <= y < n,
                n == self.lines@.len(),
                count == plain_count(self.text(), self.types@, i as int),
                count <= i,
            decreases y - i,
        {
            if self.types[i] == LineType::SceneHeading {
                let l = chars_of(self.lines[i].as_str());
                if custom_tag_of(&l).is_none() {
                    count += 1;
                }
            }
            i += 1;
        }
        count + 1
    }

    /// Numbers every scene heading in order (`#1#`, `#2#`, ...), keeping
    /// custom tags such as `#12A#`, which take no number. Lines are
    /// classified again when anything changed.
    pub fn renumber_all_scenes(&mut self)
        requires
            old(self).typed(),
        ensures
            final(self).text() == renumber_spec(old(self).text(), old(self).types@),
            final(self).types@ == if final(self).text() == old(self).text() {
                old(self).types@
            } else {
                classify_spec(final(self).text())
            },
            final(self).typed(),
            final(self).cursor_y == old(self).cursor_y,
            final(self).cursor_x == old(self).cursor_x,
            final(self).status_msg == old(self).status_msg,
            final(self).dirty == old(self).dirty,
            *final(self) == (App { lines: final(self).lines, types: final(self).types, ..*old(self) }),
    {
        let ghost l0 = self.text();
        let ghost t0 = self.types@;
        let mut done: usize = 0;
        let mut changed = false;
        let mut i: usize = 0;
        while i < self.lines.len()
            invariant
                self.typed(),
                self.types@ == t0,
                i <= self.lines@.len() == l0.len(),
                done <= i,
                done == plain_count(l0, t0, i as int),
                forall|k: int| 0 <= k < i ==> #[trigger] self.text()[k] == renumber_spec(l0, t0)[k],
                forall|k: int| i <= k < l0.len() ==> #[trigger] self.text()[k] == l0[k],
                changed == (exists|k: int| 0 <= k < i && #[trigger] self.text()[k] != l0[k]),
                self.cursor_y == old(self).cursor_y,
                self.cursor_x == old(self).cursor_x,
                self.status_msg == old(self).status_msg,
                self.dirty == old(self).dirty,
                *self == (App { lines: self.lines, ..*old(self) }),
            decreases self.lines.len() - i,
        {
            if self.types[i] != LineType::SceneHeading {
                i += 1;
                continue;
            }
            let l = chars_of(self.lines[i].as_str());
            let base = strip_number(&l);
            let new_line = match custom_tag_of(&l) {
                Some(custom) => numbered(&base, &custom),
                None => {
                    let n = done + 1;
                    done += 1;
                    numbered(&base, &decimal(n))
                },
            };
            proof {
                assert(self.text()[i as int] == l0[i as int]);
                assert(l@ == l0[i as int]);
                assert(new_line@ == renumber_spec(l0, t0)[i as int]);
            }
            if !crate::text::eq_chars(&new_line, &l) {
                let s = string_of(&new_line);
                let ghost before = self.text();
                let ghost sv = s@;
                self.lines.set(i, s);
                proof {
                    assert forall|k: int| 0 <= k < l0.len() && k != i implies #[trigger] self.text()[k]
                        == before[k] by {}
                    assert(self.text()[i as int] == sv);
                    assert(self.text()[i as int] != l0[i as int]);
                }
                changed = true;
            }
            i += 1;
        }
        proof {
            assert(self.text() =~= renumber_spec(l0, t0));
            if !changed {
                assert(self.text() =~= l0);
            }
        }
        if changed {
            self.parse_document();
        }
    }

    /// Removes the scene number tag of every scene heading.
    pub fn strip_all_scene_numbers(&mut self)
        requires
            old(self).typed(),
        ensures
            final(self).text() == strip_all_spec(old(self).text(), old(self).types@),
            final(self).types@ == if final(self).text() == old(self).text() {
                old(self).types@
            } else {
                classify_spec(final(self).text())
            },
            final(self).typed(),
            final(self).status_msg matches Some(m) && m@ == if final(self).text() == old(self).text() {
                "No scene numbers found"@
            } else {
                "All scene numbers cleared"@
            },
            final(self).cursor_y == old(self).cursor_y,
            final(self).cursor_x == old(self).cursor_x,
            final(self).dirty == old(self).dirty,
            *final(self) == (App { lines: final(self).lines, types: final(self).types, status_msg: final(self).status_msg, command_error: final(self).command_error, ..*old(self) }),
    {
        let ghost l0 = self.text();
        let ghost t0 = self.types@;
        let mut changed = false;
        let mut i: usize = 0;
        while i < self.lines.len()
            invariant
                self.typed(),
                self.types@ == t0,
                i <= self.lines@.len() == l0.len(),
                forall|k: int| 0 <= k < i ==> #[trigger] self.text()[k] == strip_all_spec(l0, t0)[k],
                forall|k: int| i <= k < l0.len() ==> #[trigger] self.text()[k] == l0[k],
                changed == (exists|k: int| 0 <= k < i && #[trigger] self.text()[k] != l0[k]),
                self.cursor_y == old(self).cursor_y,
                self.cursor_x == old(self).cursor_x,
                self.dirty == old(self).dirty,
                *self == (App { lines: self.lines, ..*old(self) }),
            decreases self.lines.len() - i,
        {
            if self.types[i] != LineType::SceneHeading {
                i += 1;
                continue;
            }
            let l = chars_of(self.lines[i].as_str());
            let base = strip_number(&l);
            let t = trim_end(&l);
            proof {
                assert(self.text()[i as int] == l0[i as int]);
                assert(l@ == l0[i as int]);
            }
            if !crate::text::eq_chars(&t, &base) {
                let ghost before = self.text();
                let sb = string_of(&base);
                let ghost sv = sb@;
                self.lines.set(i, sb);
                proof {
                    assert forall|k: int| 0 <= k < l0.len() && k != i implies #[trigger] self.text()[k]
                        == before[k] by {}
                    assert(self.text()[i as int] == sv);
                    assert(sv == strip_all_spec(l0, t0)[i as int]);
                    if sv == l0[i as int] {
                        lemma_trim_end_idem(l0[i as int]);
                        lemma_strip_trimmed(l0[i as int]);
                    }
                    assert(self.text()[i as int] != l0[i as int]);
                }
                changed = true;
            } else {
                proof {
                    assert(strip_all_spec(l0, t0)[i as int] == l0[i as int]);
                }
            }
            i += 1;
        }
        proof {
            assert(self.text() =~= strip_all_spec(l0, t0));
            if !changed {
                assert(self.text() =~= l0);
            }
        }
        if changed {
            self.parse_document();
            self.set_status("All scene numbers cleared");
        } else {
            self.set_status("No scene numbers found");
        }
    }
}

impl App {
    /// The line that injecting a scene number gives the heading at line `y`
    /// (the tag `tag`, or else the heading's custom tag or its number).
    pub open spec fn injected_line(&self, y: int, tag: Option<Seq<char>>) -> Seq<char> {
        numbered_line(strip_spec(self.text()[y]), injected_label(self.text(), self.types@, y, tag))
    }
}

/// What tagging the scene heading at or above the cursor with `tg` (or,
/// where it is `None`, with the heading's custom tag or number) does: the
/// heading's line is rewritten and the script classified again, or, where
/// there is no heading or the line would stay the same, the script stays;
/// the status line says which.
pub open spec fn number_injected(pre: App, post: App, tg: Option<Seq<char>>) -> bool {
    &&& post.typed()
    &&& post.cursor_y == pre.cursor_y
    &&& post.cursor_x == pre.cursor_x
    &&& post.dirty == pre.dirty
    &&& match heading_above(pre.types@, pre.cursor_y as int) {
        None => {
            &&& post.lines == pre.lines
            &&& post.types == pre.types
            &&& post.status_msg matches Some(m) && m@ == "No scene heading found"@
        },
        Some(y) => {
            let new_line = pre.injected_line(y, tg);
            let label = injected_label(pre.text(), pre.types@, y, tg);
            if new_line == pre.text()[y] {
                &&& post.lines == pre.lines
                &&& post.types == pre.types
                &&& post.status_msg matches Some(m) && m@ == "Scene already numbered"@
            } else {
                &&& post.text() == pre.text().update(y, new_line)
                &&& post.types@ == classify_spec(post.text())
                &&& post.status_msg matches Some(m) && m@ == "Scene #"@ + label + " injected"@
            }
        },
    }
}

impl App {
    /// Tags the scene heading at or above the cursor with `tag`, or, when
    /// `tag` is `None`, with its custom tag or the number renumbering would
    /// give it.
    #[verifier::spinoff_prover]
    #[verifier::rlimit(30)]
    pub fn inject_scene_number_tag(&mut self, tag: Option<&str>)
        requires
            old(self).typed(),
        ensures
            final(self).typed(),
            final(self).cursor_y == old(self).cursor_y,
            final(self).cursor_x == old(self).cursor_x,
            final(self).dirty == old(self).dirty,
            number_injected(*old(self), *final(self), match tag {
                Some(t) => Some(t@),
                None => None,
            }),
            *final(self) == (App { lines: final(self).lines, types: final(self).types, status_msg: final(self).status_msg, command_error: final(self).command_error, ..*old(self) }),
    {
        let len = self.types.len();
        let mut y: usize = if self.cursor_y < len {
            self.cursor_y
        } else if len > 0 {
            len - 1
        } else {
            0
        };
        let ghost y0 = y;
        while y > 0 && self.types[y] != LineType::SceneHeading
            invariant
                self.typed(),
                len == self.types@.len(),
                y < len || len == 0,
                y == 0 || y < len,
                heading_above(self.types@, self.cursor_y as int) == if len == 0 {
                    None
                } else {
                    heading_at_or_above(self.types@, y as int)
                },
            decreases y,
        {
            y -= 1;
        }
        if y >= len || self.types[y] != LineType::SceneHeading {
            self.set_status("No scene heading found");
            return;
        }
        let l = chars_of(self.lines[y].as_str());
        let base = strip_number(&l);
        let label: Vec<char> = match tag {
            Some(t) => chars_of(t),
            None => match custom_tag_of(&l) {
                Some(c) => c,
                None => decimal(self.compute_scene_number_for(y)),
            },
        };
        let new_line = numbered(&base, &label);
        proof {
            assert(l@ == self.text()[y as int]);
        }
        if !crate::text::eq_chars(&new_line, &l) {
            let ghost before = self.text();
            let sn = string_of(&new_line);
            self.lines.set(y, sn);
            proof {
                assert(self.text() =~= before.update(y as int, new_line@));
            }
            self.parse_document();
            let mut msg = chars_of("Scene #");
            push_all(&mut msg, &label);
            let tail = chars_of(" injected");
            push_all(&mut msg, &tail);
            self.status_msg = Some(string_of(&msg));
            self.command_error = false;
        } else {
            self.set_status("Scene already numbered");
        }
    }

    /// Tags the scene heading at or above the cursor with its custom tag or
    /// the number renumbering would give it.
    pub fn inject_current_scene_number(&mut self)
        requires
            old(self).typed(),
        ensures
            number_injected(*old(self), *final(self), None),
            *final(self) == (App { lines: final(self).lines, types: final(self).types, status_msg: final(self).status_msg, command_error: final(self).command_error, ..*old(self) }),
    {
        self.inject_scene_number_tag(None);
    }
}

/// Injecting the current scene's number (`inject_current_scene_number`,
/// which is `inject_scene_number_tag` without a tag) rewrites the heading
/// at or above the cursor, and only it, as its text without its number tag
/// followed by ` #`, its custom tag or else its number, and `#`; with no
/// heading there the script stays.
pub proof fn law_current_number_injection(pre: App, post: App)
    requires
        pre.typed(),
        number_injected(pre, post, None),
    ensures
        match heading_above(pre.types@, pre.cursor_y as int) {
            None => post.text() == pre.text(),
            Some(y) => {
                &&& post.text().len() == pre.text().len()
                &&& post.text()[y] == numbered_line(strip_spec(pre.text()[y]), renumber_label(pre.text(), pre.types@, y))
                &&& forall|i: int| 0 <= i < pre.text().len() && i != y ==> post.text()[i] == pre.text()[i]
            },
        },
{
    lemma_heading_above(pre.types@, pre.cursor_y as int);
}

/// The label injected at line `y`: the given tag, or else the line's
/// custom tag or number.
pub open spec fn injected_label(lines: Seq<Seq<char>>, types: Seq<LineType>, y: int, tag: Option<
    Seq<char>,
>) -> Seq<char> {
    match tag {
        Some(t) => t,
        None => renumber_label(lines, types, y),
    }
}

pub proof fn lemma_heading_at_or_above(types: Seq<LineType>, y: int)
    ensures
        heading_at_or_above(types, y) matches Some(h) ==> 0 <= h <= y && h < types.len()
            && types[h] == LineType::SceneHeading,
    decreases y,
{
    if y > 0 && y < types.len() && types[y] != LineType::SceneHeading {
        lemma_heading_at_or_above(types, y - 1);
    }
}

/// The heading found above a line is a scene heading of the script.
pub proof fn lemma_heading_above(types: Seq<LineType>, y: int)
    ensures
        heading_above(types, y) matches Some(h) ==> 0 <= h < types.len() && types[h]
            == LineType::SceneHeading && (y >= 0 ==> h <= y),
{
    if types.len() > 0 {
        if y >= types.len() {
            lemma_heading_at_or_above(types, types.len() - 1);
        } else {
            lemma_heading_at_or_above(types, y);
        }
    }
}

/// The tag-less form of a line has no trailing whitespace.
pub proof fn lemma_strip_trimmed(s: Seq<char>)
    ensures
        trim_end_spec(strip_spec(s)) == strip_spec(s),
{
    lemma_trim_end_idem(s);
    let t = trim_end_spec(s);
    if let Some(o) = tag_pos(s) {
        lemma_trim_end_idem(t.take(o));
    }
}

/// Removing trailing whitespace twice is removing it once.
pub proof fn lemma_trim_end_idem(s: Seq<char>)
    ensures
        trim_end_spec(trim_end_spec(s)) == trim_end_spec(s),
    decreases s.len(),
{
    if s.len() > 0 && is_ws(s.last()) {
        lemma_trim_end_idem(s.drop_last());
    }
}

} // verus!

verus! {

proof fn lemma_last_index_unique(s: Seq<char>, c: char, o: int, end: int)
    requires
        0 <= o < end <= s.len(),
        s[o] == c,
        forall|k: int| o < k < end ==> s[k] != c,
    ensures
        last_index_spec(s, c, end) == Some(o),
    decreases end - o,
{
    if end - 1 > o {
        lemma_last_index_unique(s, c, o, end - 1);
    }
}

/// A label as tags carry it: not empty, no `#`, no space.
pub open spec fn good_label(label: Seq<char>) -> bool {
    label.len() > 0 && !label.contains('#') && !label.contains(' ')
}

/// Reading back a numbered heading gives its parts.
pub proof fn lemma_numbered_parse(base: Seq<char>, label: Seq<char>)
    requires
        trim_end_spec(base) == base,
        good_label(label),
    ensures
        tag_pos(numbered_line(base, label)) == Some((base.len() + 1) as int),
        scene_tag(numbered_line(base, label)) == Some(label),
        strip_spec(numbered_line(base, label)) == base,
{
    reveal_strlit(" #");
    reveal_strlit("#");
    let n = numbered_line(base, label);
    assert(n =~= base + seq![' ', '#'] + label + seq!['#']);
    assert(n.last() == '#');
    assert(!is_ws('#'));
    assert(trim_end_spec(n) == n);
    let o: int = (base.len() + 1) as int;
    assert(n[o] == '#');
    assert forall|k: int| o < k < n.len() - 1 implies n[k] != '#' by {
        assert(n[k] == label[k - o - 1]);
        if n[k] == '#' {
            assert(label.contains('#'));
        }
    }
    lemma_last_index_unique(n, '#', o, n.len() - 1);
    assert(n.subrange(o + 1, n.len() - 1) =~= label);
    assert(n.take(o) =~= base.push(' '));
    assert(base.push(' ').drop_last() =~= base);
    assert(is_ws(' '));
}

proof fn lemma_digit_char_is_digit(d: nat)
    ensures
        is_digit(digit_char(d)),
{
}

/// Decimal numerals are good labels made only of digits.
pub proof fn lemma_decimal_label(n: nat)
    ensures
        good_label(decimal_spec(n)),
        all_digits(decimal_spec(n)),
    decreases n,
{
    let d = decimal_spec(n);
    if n >= 10 {
        lemma_decimal_label(n / 10);
        lemma_digit_char_is_digit(n % 10);
    } else {
        lemma_digit_char_is_digit(n);
    }
    assert(all_digits(d)) by {
        if n >= 10 {
            assert forall|i: int| 0 <= i < d.len() implies is_digit(#[trigger] d[i]) by {
                if i < d.len() - 1 {
                    assert(d[i] == decimal_spec(n / 10)[i]);
                }
            }
        }
    }
    if d.contains('#') {
        let i = choose|i: int| 0 <= i < d.len() && d[i] == '#';
        assert(is_digit(d[i]));
    }
    if d.contains(' ') {
        let i = choose|i: int| 0 <= i < d.len() && d[i] == ' ';
        assert(is_digit(d[i]));
    }
}

/// Tags read from a line are good labels.
pub proof fn lemma_scene_tag_good(line: Seq<char>)
    ensures
        scene_tag(line) matches Some(t) ==> good_label(t),
{
    let t = trim_end_spec(line);
    if let Some(o) = tag_pos(line) {
        lemma_last_index(t, '#', t.len() - 1);
        let inner = t.subrange(o + 1, t.len() - 1);
        if inner.contains('#') {
            let i = choose|i: int| 0 <= i < inner.len() && inner[i] == '#';
            assert(t[o + 1 + i] == '#');
        }
    }
}

/// The label renumbering gives a heading is good, and is all digits exactly
/// when the heading has no custom tag.
proof fn lemma_renumber_label(lines: Seq<Seq<char>>, types: Seq<LineType>, i: int)
    requires
        0 <= i < lines.len(),
    ensures
        good_label(renumber_label(lines, types, i)),
        all_digits(renumber_label(lines, types, i)) <==> custom_tag(lines[i]) is None,
{
    lemma_scene_tag_good(lines[i]);
    lemma_decimal_label(scene_number(lines, types, i));
}

/// A renumbered heading keeps its text and custom tag, and carries its label.
pub proof fn lemma_renumbered_line(lines: Seq<Seq<char>>, types: Seq<LineType>, i: int)
    requires
        0 <= i < lines.len(),
        is_heading(types, i),
    ensures
        strip_spec(renumber_spec(lines, types)[i]) == strip_spec(lines[i]),
        scene_tag(renumber_spec(lines, types)[i]) == Some(renumber_label(lines, types, i)),
        custom_tag(renumber_spec(lines, types)[i]) == custom_tag(lines[i]),
{
    lemma_strip_trimmed(lines[i]);
    lemma_renumber_label(lines, types, i);
    lemma_numbered_parse(strip_spec(lines[i]), renumber_label(lines, types, i));
}

proof fn lemma_plain_count_renumbered(lines: Seq<Seq<char>>, types: Seq<LineType>, i: int)
    requires
        0 <= i <= lines.len(),
    ensures
        plain_count(renumber_spec(lines, types), types, i) == plain_count(lines, types, i),
    decreases i,
{
    if i > 0 {
        lemma_plain_count_renumbered(lines, types, i - 1);
        if is_heading(types, i - 1) {
            lemma_renumbered_line(lines, types, i - 1);
        }
    }
}

/// Renumbering twice numbers as renumbering once: a renumbered script is
/// left as it is by renumbering (the line types being the same).
pub proof fn law_renumber_idempotent(lines: Seq<Seq<char>>, types: Seq<LineType>)
    ensures
        renumber_spec(renumber_spec(lines, types), types) == renumber_spec(lines, types),
{
    let r = renumber_spec(lines, types);
    assert forall|i: int| 0 <= i < lines.len() implies #[trigger] renumber_spec(r, types)[i] == r[i] by {
        if is_heading(types, i) {
            lemma_renumbered_line(lines, types, i);
            lemma_plain_count_renumbered(lines, types, i);
            lemma_renumbered_line(r, types, i);
            lemma_renumber_label(lines, types, i);
            lemma_strip_trimmed(lines[i]);
            lemma_numbered_parse(strip_spec(lines[i]), renumber_label(lines, types, i));
        }
    }
    assert(renumber_spec(r, types) =~= r);
}

/// Renumbering keeps the text of every scene heading and gives it its
/// custom tag or its number, counting only headings without a custom tag.
pub proof fn law_renumber_tags(lines: Seq<Seq<char>>, types: Seq<LineType>, i: int)
    requires
        0 <= i < lines.len(),
        is_heading(types, i),
    ensures
        strip_spec(renumber_spec(lines, types)[i]) == strip_spec(lines[i]),
        scene_tag(renumber_spec(lines, types)[i]) == Some(
            match custom_tag(lines[i]) {
                Some(c) => c,
                None => decimal_spec(plain_count(lines, types, i) + 1),
            },
        ),
{
    lemma_renumbered_line(lines, types, i);
}

/// Injecting a number into a heading writes the same line as renumbering
/// the whole script does for that heading.
pub proof fn law_inject_agrees_with_renumber(lines: Seq<Seq<char>>, types: Seq<LineType>, y: int)
    requires
        0 <= y < lines.len(),
        is_heading(types, y),
    ensures
        numbered_line(strip_spec(lines[y]), injected_label(lines, types, y, None)) == renumber_spec(
            lines,
            types,
        )[y],
{
}

/// Removing the tags of a renumbered script gives every heading back its text.
pub proof fn law_strip_after_renumber(lines: Seq<Seq<char>>, types: Seq<LineType>, i: int)
    requires
        0 <= i < lines.len(),
        is_heading(types, i),
    ensures
        strip_all_spec(renumber_spec(lines, types), types)[i] == strip_spec(lines[i]),
{
    lemma_renumbered_line(lines, types, i);
    lemma_renumber_label(lines, types, i);
    lemma_strip_trimmed(lines[i]);
    lemma_numbered_parse(strip_spec(lines[i]), renumber_label(lines, types, i));
    reveal_strlit("#");
    let r = renumber_spec(lines, types)[i];
    assert(r.last() == '#');
}

} // verus!

verus! {

/// `A`..`Z` for `0..26`.
pub open spec fn letter(d: nat) -> char {
    "ABCDEFGHIJKLMNOPQRSTUVWXYZ"@[d as int]
}

/// The `k`-th suffix label: `A`, ..., `Z`, `AA`, `AB`, ... (bijective base 26).
pub open spec fn suffix_label(k: nat) -> Seq<char>
    decreases k,
{
    if k < 26 {
        seq![letter(k)]
    } else {
        suffix_label((k / 26 - 1) as nat).push(letter(k % 26))
    }
}

/// The first label index at or after `k` that `taken` does not hold (the
/// search stops at index `taken.len()`: of `taken.len() + 1` labels one is
/// free).
pub open spec fn first_free(taken: Seq<Seq<char>>, k: nat) -> nat
    decreases taken.len() + 1 - k,
{
    if k >= taken.len() || !taken.contains(suffix_label(k)) {
        k
    } else {
        first_free(taken, k + 1)
    }
}

/// The first suffix label not in `taken`.
pub open spec fn next_suffix_spec(taken: Seq<Seq<char>>) -> Seq<char> {
    suffix_label(first_free(taken, 0))
}

/// The leading decimal digits of `s`.
pub open spec fn leading_digits(s: Seq<char>) -> Seq<char>
    decreases s.len(),
{
    if s.len() > 0 && is_digit(s[0]) {
        seq![s[0]] + leading_digits(s.drop_first())
    } else {
        Seq::empty()
    }
}

/// The number a tag starts with (0 when it does not fit a `usize`), if it
/// starts with digits.
pub open spec fn tag_base(t: Seq<char>) -> Option<nat> {
    let d = leading_digits(t);
    if d.len() == 0 {
        None
    } else if crate::text::digits_value(d) <= usize::MAX {
        Some(crate::text::digits_value(d))
    } else {
        Some(0)
    }
}

/// The number of the nearest heading above line `i` whose tag starts with
/// digits; 0 if there is none.
pub open spec fn prev_base(lines: Seq<Seq<char>>, types: Seq<LineType>, i: int) -> nat
    decreases i,
{
    if i <= 0 {
        0
    } else if is_heading(types, i - 1) && (scene_tag(lines[i - 1]) matches Some(t) && tag_base(t) is Some) {
        tag_base(scene_tag(lines[i - 1])->0)->0
    } else {
        prev_base(lines, types, i - 1)
    }
}

/// The capital-letter suffix of tag `t` after the number `prefix`.
pub open spec fn suffix_of(t: Seq<char>, prefix: Seq<char>) -> Option<Seq<char>> {
    if t.len() > prefix.len() && starts_with_spec(t, prefix) && forall|k: int|
        prefix.len() <= k < t.len() ==> #[trigger] is_upper_ascii(t[k]) {
        Some(t.skip(prefix.len() as int))
    } else {
        None
    }
}

/// The suffixes after `prefix` of the tags of the headings among the first
/// `n` lines, skipping line `skip`.
pub open spec fn suffixes(lines: Seq<Seq<char>>, types: Seq<LineType>, prefix: Seq<char>, skip: int, n: int) -> Seq<Seq<char>>
    decreases n,
{
    if n <= 0 {
        Seq::empty()
    } else {
        let rest = suffixes(lines, types, prefix, skip, n - 1);
        if n - 1 != skip && is_heading(types, n - 1) && (scene_tag(lines[n - 1]) matches Some(t)
            && suffix_of(t, prefix) is Some) {
            rest.push(suffix_of(scene_tag(lines[n - 1])->0, prefix)->0)
        } else {
            rest
        }
    }
}

/// The suffixes already in use when heading `i` is numbered: those of the
/// tags the script had at the start, then those of the tags of the other
/// headings now.
pub open spec fn taken_suffixes(start: Seq<Seq<char>>, cur: Seq<Seq<char>>, types: Seq<LineType>, i: int) -> Seq<Seq<char>> {
    let prefix = decimal_spec(prev_base(start, types, i));
    suffixes(start, types, prefix, -1, start.len() as int) + suffixes(cur, types, prefix, i, cur.len() as int)
}

/// The script after the headings among the first `n` lines are locked:
/// each heading without a tag gets the number of the nearest numbered
/// heading above it (0 if none) and the first free letter suffix.
pub open spec fn auto_number_run(start: Seq<Seq<char>>, types: Seq<LineType>, n: int) -> Seq<Seq<char>>
    decreases n,
{
    if n <= 0 {
        start
    } else {
        let cur = auto_number_run(start, types, n - 1);
        let i = n - 1;
        if i < start.len() && is_heading(types, i) && scene_tag(start[i]) is None {
            let label = decimal_spec(prev_base(start, types, i)) + next_suffix_spec(
                taken_suffixes(start, cur, types, i),
            );
            cur.update(i, numbered_line(strip_spec(cur[i]), label))
        } else {
            cur
        }
    }
}

/// The script after all scene headings without a tag are locked.
pub open spec fn auto_number_spec(lines: Seq<Seq<char>>, types: Seq<LineType>) -> Seq<Seq<char>> {
    auto_number_run(lines, types, lines.len() as int)
}

fn letter_at(d: usize) -> (c: char)
    requires
        d < 26,
    ensures
        c == letter(d as nat),
{
    let alphabet = "ABCDEFGHIJKLMNOPQRSTUVWXYZ";
    proof {
        reveal_strlit("ABCDEFGHIJKLMNOPQRSTUVWXYZ");
    }
    alphabet.get_char(d)
}

/// The `k`-th suffix label.
pub fn suffix_label_of(k: usize) -> (r: Vec<char>)
    ensures
        r@ == suffix_label(k as nat),
    decreases k,
{
    if k < 26 {
        let mut v: Vec<char> = Vec::new();
        v.push(letter_at(k));
        proof {
            assert(v@ == seq![letter(k as nat)]);
        }
        v
    } else {
        let mut v = suffix_label_of(k / 26 - 1);
        v.push(letter_at(k % 26));
        v
    }
}

fn contains_seq(v: &Vec<Vec<char>>, x: &Vec<char>) -> (r: bool)
    ensures
        r == v@.map_values(|s: Vec<char>| s@).contains(x@),
{
    let ghost vs = v@.map_values(|s: Vec<char>| s@);
    let mut i: usize = 0;
    while i < v.len()
        invariant
            i <= v.len(),
            vs == v@.map_values(|s: Vec<char>| s@),
            forall|k: int| 0 <= k < i ==> vs[k] != x@,
        decreases v.len() - i,
    {
        if crate::text::eq_chars(&v[i], x) {
            proof {
                assert(vs[i as int] == x@);
            }
            return true;
        }
        i += 1;
    }
    false
}

/// The first suffix label not in `taken`.
pub fn next_suffix(taken: &Vec<Vec<char>>) -> (r: Vec<char>)
    ensures
        r@ == next_suffix_spec(taken@.map_values(|s: Vec<char>| s@)),
{
    let ghost ts = taken@.map_values(|s: Vec<char>| s@);
    let mut k: usize = 0;
    loop
        invariant
            k <= taken.len(),
            ts == taken@.map_values(|s: Vec<char>| s@),
            first_free(ts, 0) == first_free(ts, k as nat),
        decreases taken.len() - k,
    {
        if k >= taken.len() {
            return suffix_label_of(k);
        }
        let l = suffix_label_of(k);
        if !contains_seq(taken, &l) {
            return l;
        }
        k += 1;
    }
}

fn leading_digits_of(t: &Vec<char>) -> (r: Vec<char>)
    ensures
        r@ == leading_digits(t@),
{
    let mut i: usize = 0;
    while i < t.len() && crate::text::is_ascii_digit(t[i])
        invariant
            i <= t.len(),
            forall|k: int| 0 <= k < i ==> is_digit(#[trigger] t@[k]),
        decreases t.len() - i,
    {
        i += 1;
    }
    proof {
        lemma_leading_digits(t@, i as int);
    }
    slice_chars(t, 0, i)
}

proof fn lemma_leading_digits(s: Seq<char>, i: int)
    requires
        0 <= i <= s.len(),
        forall|k: int| 0 <= k < i ==> is_digit(#[trigger] s[k]),
        i == s.len() || !is_digit(s[i]),
    ensures
        leading_digits(s) == s.take(i),
    decreases i,
{
    if i > 0 {
        lemma_leading_digits(s.drop_first(), i - 1);
        assert(s.take(i) =~= seq![s[0]] + s.drop_first().take(i - 1));
    } else {
        assert(s.take(0) =~= Seq::<char>::empty());
    }
}

fn tag_base_of(t: &Vec<char>) -> (r: Option<usize>)
    ensures
        r matches Some(n) ==> tag_base(t@) == Some(n as nat),
        r is None ==> tag_base(t@) is None,
{
    let d = leading_digits_of(t);
    if d.len() == 0 {
        None
    } else {
        match crate::text::parse_digits(&d) {
            Some(n) => Some(n),
            None => Some(0),
        }
    }
}

fn all_upper_from(t: &Vec<char>, from: usize) -> (r: bool)
    ensures
        r == forall|k: int| from <= k < t@.len() ==> #[trigger] is_upper_ascii(t@[k]),
{
    let mut i: usize = from;
    while i < t.len()
        invariant
            from <= i,
            forall|k: int| from <= k < i && k < t@.len() ==> #[trigger] is_upper_ascii(t@[k]),
        decreases t.len() - i,
    {
        if !crate::text::is_ascii_uppercase(t[i]) {
            return false;
        }
        i += 1;
    }
    true
}

fn suffix_after(t: &Vec<char>, prefix: &Vec<char>) -> (r: Option<Vec<char>>)
    ensures
        r matches Some(s) ==> suffix_of(t@, prefix@) == Some(s@),
        r is None ==> suffix_of(t@, prefix@) is None,
{
    if t.len() > prefix.len() && crate::text::matches_at(t, prefix, 0) && all_upper_from(t, prefix.len()) {
        proof {
            assert(t@.subrange(0, prefix@.len() as int) == t@.take(prefix@.len() as int));
        }
        Some(slice_chars(t, prefix.len(), t.len()))
    } else {
        proof {
            if t@.len() > prefix@.len() {
                assert(t@.subrange(0, prefix@.len() as int) == t@.take(prefix@.len() as int));
            }
        }
        None
    }
}

impl App {
    /// The first suffix label (`A`, `B`, ..., `Z`, `AA`, ...) not among `existing`.
    pub fn next_suffix_label(existing: &Vec<String>) -> (r: String)
        ensures
            r@ == next_suffix_spec(texts(existing@)),
    {
        let mut v: Vec<Vec<char>> = Vec::new();
        let mut i: usize = 0;
        while i < existing.len()
            invariant
                i <= existing.len(),
                v@.len() == i,
                forall|k: int| 0 <= k < i ==> #[trigger] v@[k]@ == existing@[k]@,
            decreases existing.len() - i,
        {
            v.push(chars_of(existing[i].as_str()));
            i += 1;
        }
        proof {
            assert(v@.map_values(|s: Vec<char>| s@) =~= texts(existing@));
        }
        string_of(&next_suffix(&v))
    }

    /// The suffixes after `prefix` of the tags of the headings, skipping line
    /// `skip` (`lines` read as they are now).
    fn collect_suffixes(lines: &Vec<Vec<char>>, types: &Vec<LineType>, prefix: &Vec<char>, skip: Option<usize>, out: &mut Vec<Vec<char>>)
        requires
            types@.len() == lines@.len(),
        ensures
            final(out)@.map_values(|s: Vec<char>| s@) == old(out)@.map_values(|s: Vec<char>| s@) + suffixes(
                lines@.map_values(|l: Vec<char>| l@),
                types@,
                prefix@,
                match skip {
                    Some(k) => k as int,
                    None => -1,
                },
                lines@.len() as int,
            ),
    {
        let ghost ls = lines@.map_values(|l: Vec<char>| l@);
        let ghost sk: int = match skip {
            Some(k) => k as int,
            None => -1,
        };
        let ghost o0 = out@.map_values(|s: Vec<char>| s@);
        let mut j: usize = 0;
        while j < lines.len()
            invariant
                j <= lines@.len() == types@.len(),
                ls == lines@.map_values(|l: Vec<char>| l@),
                sk == match skip {
                    Some(k) => k as int,
                    None => -1,
                },
                out@.map_values(|s: Vec<char>| s@) == o0 + suffixes(ls, types@, prefix@, sk, j as int),
            decreases lines.len() - j,
        {
            proof {
                assert(lines@[j as int]@ == ls[j as int]);
            }
            let not_skipped = match skip {
                Some(k) => k != j,
                None => true,
            };
            let ghost prev = suffixes(ls, types@, prefix@, sk, j as int);
            let ghost before = out@.map_values(|s: Vec<char>| s@);
            if not_skipped && types[j] == LineType::SceneHeading {
                match scene_tag_of(&lines[j]) {
                    Some(t) => {
                        match suffix_after(&t, prefix) {
                            Some(sfx) => {
                                out.push(sfx);
                                proof {
                                    assert(j != sk);
                                    assert(is_heading(types@, j as int));
                                    assert(scene_tag(ls[j as int]) == Some(t@));
                                    assert(suffix_of(t@, prefix@) == Some(sfx@));
                                    assert(suffixes(ls, types@, prefix@, sk, j + 1) == prev.push(sfx@));
                                    assert(out@.map_values(|s: Vec<char>| s@) =~= before.push(sfx@));
                                    assert(o0 + prev.push(sfx@) =~= (o0 + prev).push(sfx@));
                                }
                            },
                            None => {
                                proof {
                                    assert(suffixes(ls, types@, prefix@, sk, j + 1) == prev);
                                }
                            },
                        }
                    },
                    None => {
                        proof {
                            assert(suffixes(ls, types@, prefix@, sk, j + 1) == prev);
                        }
                    },
                }
            } else {
                proof {
                    assert(!(j != sk && is_heading(types@, j as int)));
                    assert(suffixes(ls, types@, prefix@, sk, j + 1) == prev);
                }
            }
            j += 1;
        }
    }

    /// Locks scene numbers for production: every scene heading without a
    /// tag gets the number of the nearest numbered heading above it (0 if
    /// none) followed by the first letter suffix not yet used with that
    /// number (`4A`, `4B`, ...). Headings with a tag, and other lines, stay.
    pub fn auto_number_locked_scenes(&mut self)
        requires
            old(self).typed(),
        ensures
            final(self).text() == auto_number_spec(old(self).text(), old(self).types@),
            final(self).types == old(self).types,
            final(self).cursor_y == old(self).cursor_y,
            final(self).cursor_x == old(self).cursor_x,
            final(self).status_msg == old(self).status_msg,
            final(self).dirty == old(self).dirty,
            *final(self) == (App { lines: final(self).lines, types: final(self).types, ..*old(self) }),
    {
        let start = self.line_chars();
        let ghost l0 = self.text();
        let mut cur = self.line_chars();
        let mut i: usize = 0;
        while i < self.lines.len()
            invariant
                self.typed(),
                self.types == old(self).types,
                i <= self.lines@.len() == l0.len() == start@.len() == cur@.len(),
                start@.map_values(|l: Vec<char>| l@) == l0,
                cur@.map_values(|l: Vec<char>| l@) == self.text(),
                self.text() == auto_number_run(l0, self.types@, i as int),
                self.cursor_y == old(self).cursor_y,
                self.cursor_x == old(self).cursor_x,
                self.status_msg == old(self).status_msg,
                self.dirty == old(self).dirty,
                *self == (App { lines: self.lines, ..*old(self) }),
            decreases self.lines.len() - i,
        {
            proof {
                assert(start@[i as int]@ == l0[i as int]);
            }
            if self.types[i] == LineType::SceneHeading && scene_tag_of(&start[i]).is_none() {
                // The nearest heading above whose tag, as it was before, starts with digits.
                let mut base: usize = 0;
                let mut j: usize = i;
                while j > 0
                    invariant_except_break
                        j <= i < start@.len(),
                        self.types@.len() == start@.len(),
                        start@.map_values(|l: Vec<char>| l@) == l0,
                        prev_base(l0, self.types@, i as int) == prev_base(l0, self.types@, j as int),
                        base == 0,
                    ensures
                        prev_base(l0, self.types@, i as int) == base as nat,
                    decreases j,
                {
                    proof {
                        assert(start@[j - 1]@ == l0[j - 1]);
                    }
                    if self.types[j - 1] == LineType::SceneHeading {
                        match scene_tag_of(&start[j - 1]) {
                            Some(t) => {
                                match tag_base_of(&t) {
                                    Some(b) => {
                                        base = b;
                                        break;
                                    },
                                    None => {},
                                }
                            },
                            None => {},
                        }
                    }
                    j -= 1;
                }
                let prefix = decimal(base);
                let mut taken: Vec<Vec<char>> = Vec::new();
                Self::collect_suffixes(&start, &self.types, &prefix, None, &mut taken);
                Self::collect_suffixes(&cur, &self.types, &prefix, Some(i), &mut taken);
                let sfx = next_suffix(&taken);
                let mut label = prefix;
                push_all(&mut label, &sfx);
                let base_line = strip_number(&cur[i]);
                let new_line = numbered(&base_line, &label);
                let ghost before = self.text();
                let ghost nl = new_line@;
                self.lines.set(i, string_of(&new_line));
                cur.set(i, new_line);
                proof {
                    assert(self.text() =~= before.update(i as int, nl));
                    assert(cur@.map_values(|l: Vec<char>| l@) =~= self.text());
                    assert(auto_number_run(l0, self.types@, i + 1) == before.update(
                        i as int,
                        numbered_line(strip_spec(before[i as int]), label@),
                    ));
                }
            }
            i += 1;
        }
    }
}


proof fn lemma_letters_distinct(a: nat, b: nat)
    requires
        a < 26,
        b < 26,
        letter(a) == letter(b),
    ensures
        a == b,
{
    reveal_strlit("ABCDEFGHIJKLMNOPQRSTUVWXYZ");
}

proof fn lemma_suffix_label_len(k: nat)
    ensures
        suffix_label(k).len() >= 1,
        k >= 26 ==> suffix_label(k).len() >= 2,
    decreases k,
{
    if k >= 26 {
        lemma_suffix_label_len((k / 26 - 1) as nat);
    }
}

/// Different indices give different suffix labels.
pub proof fn lemma_suffix_label_injective(a: nat, b: nat)
    requires
        suffix_label(a) == suffix_label(b),
    ensures
        a == b,
    decreases a,
{
    lemma_suffix_label_len(a);
    lemma_suffix_label_len(b);
    if a < 26 && b < 26 {
        assert(suffix_label(a) == seq![letter(a)]);
        assert(suffix_label(b) == seq![letter(b)]);
        assert(suffix_label(a)[0] == suffix_label(b)[0]);
        assert(seq![letter(a)][0] == letter(a));
        assert(seq![letter(b)][0] == letter(b));
        lemma_letters_distinct(a, b);
    } else if a >= 26 && b >= 26 {
        let pa = suffix_label((a / 26 - 1) as nat);
        let pb = suffix_label((b / 26 - 1) as nat);
        assert(suffix_label(a).last() == letter(a % 26));
        assert(suffix_label(b).last() == letter(b % 26));
        lemma_letters_distinct(a % 26, b % 26);
        assert(pa =~= suffix_label(a).drop_last());
        assert(pb =~= suffix_label(b).drop_last());
        lemma_suffix_label_injective((a / 26 - 1) as nat, (b / 26 - 1) as nat);
    }
}

proof fn lemma_first_free(taken: Seq<Seq<char>>, k: nat)
    requires
        k <= taken.len(),
    ensures
        k <= first_free(taken, k) <= taken.len(),
        first_free(taken, k) < taken.len() ==> !taken.contains(suffix_label(first_free(taken, k))),
        forall|j: nat| k <= j < first_free(taken, k) ==> taken.contains(#[trigger] suffix_label(j)),
    decreases taken.len() + 1 - k,
{
    if k < taken.len() && taken.contains(suffix_label(k)) {
        lemma_first_free(taken, k + 1);
    }
}

/// The suffix chosen for a scene is free: it is not among the suffixes in
/// use (of `n` suffixes in use, one of the first `n + 1` labels is free).
pub proof fn law_next_suffix_is_free(taken: Seq<Seq<char>>)
    ensures
        !taken.contains(next_suffix_spec(taken)),
{
    let n = taken.len();
    lemma_first_free(taken, 0);
    let k = first_free(taken, 0);
    if k == n && taken.contains(suffix_label(k)) {
        let labels = Seq::new((n + 1) as nat, |j: int| suffix_label(j as nat));
        assert(labels.no_duplicates()) by {
            assert forall|i: int, j: int| 0 <= i < labels.len() && 0 <= j < labels.len() && i != j implies labels[i]
                != labels[j] by {
                if labels[i] == labels[j] {
                    lemma_suffix_label_injective(i as nat, j as nat);
                }
            }
        }
        labels.unique_seq_to_set();
        taken.lemma_cardinality_of_set();
        assert(labels.to_set().subset_of(taken.to_set())) by {
            assert forall|x: Seq<char>| labels.to_set().contains(x) implies taken.to_set().contains(x) by {
                let j = choose|j: int| 0 <= j < labels.len() && labels[j] == x;
                assert(labels[j] == suffix_label(j as nat));
                if j < n {
                    assert(taken.contains(suffix_label(j as nat)));
                }
            }
        }
        vstd::set_lib::lemma_len_subset(labels.to_set(), taken.to_set());
        assert(false);
    }
}

} // verus!
