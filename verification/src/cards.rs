//! Index cards: one card per scene, from its heading to the line before
//! the next heading, and the edits the card view makes to the script.
use vstd::prelude::*;
use crate::chars::{chars_of, string_of};
use crate::classify::{LineType, classify_spec};
use crate::editor::{App, texts};
use crate::editing::{copy_lines, layout_spec};
use crate::production::{scene_tag, scene_tag_of, strip_number, strip_spec};
use crate::text::{push_all, slice_chars, starts_with_spec, trim_start, trim_start_spec};

verus! {

/// A scene as an index card.
#[derive(Clone, Debug)]
pub struct SceneCard {
    /// The line of the scene heading.
    pub start_line: usize,
    /// The last line of the scene.
    pub end_line: usize,
    /// The heading without its scene number tag.
    pub heading: String,
    /// The scene's synopsis lines, joined by newlines.
    pub synopsis: String,
    /// The scene's first action or dialogue line.
    pub preview: String,
    /// The scene number tag of the heading.
    pub scene_num: Option<String>,
}

/// A card as values.
pub struct CardV {
    pub start: int,
    pub end: int,
    pub heading: Seq<char>,
    pub synopsis: Seq<char>,
    pub preview: Seq<char>,
    pub num: Option<Seq<char>>,
}

pub open spec fn card_view(c: SceneCard) -> CardV {
    CardV {
        start: c.start_line as int,
        end: c.end_line as int,
        heading: c.heading@,
        synopsis: c.synopsis@,
        preview: c.preview@,
        num: match c.scene_num {
            Some(n) => Some(n@),
            None => None,
        },
    }
}

pub open spec fn cards_view(cs: Seq<SceneCard>) -> Seq<CardV> {
    cs.map_values(|c: SceneCard| card_view(c))
}

/// The text of a synopsis line: without its leading `=` and the whitespace around it.
pub open spec fn synopsis_text(line: Seq<char>) -> Seq<char> {
    let t = trim_start_spec(line);
    if t.len() > 0 && t[0] == '=' {
        trim_start_spec(t.skip(1))
    } else {
        t
    }
}

/// The heading shown on a card: the line without its scene number tag, if
/// it has one.
pub open spec fn card_heading(line: Seq<char>) -> Seq<char> {
    if scene_tag(line) is Some {
        strip_spec(line)
    } else {
        line
    }
}

/// Reading line `i` (type `lt`, text `line`) of a script of `total` lines:
/// the finished cards and the card being read.
pub open spec fn card_step(
    cards: Seq<CardV>,
    cur: Option<CardV>,
    i: int,
    lt: LineType,
    line: Seq<char>,
    total: int,
) -> (Seq<CardV>, Option<CardV>) {
    if lt == LineType::SceneHeading {
        let done = match cur {
            Some(c) => cards.push(CardV { end: if i >= 1 { i - 1 } else { 0 }, ..c }),
            None => cards,
        };
        (
            done,
            Some(
                CardV {
                    start: i,
                    end: if total >= 1 { total - 1 } else { 0 },
                    heading: card_heading(line),
                    synopsis: Seq::empty(),
                    preview: Seq::empty(),
                    num: scene_tag(line),
                },
            ),
        )
    } else {
        match cur {
            Some(c) => if lt == LineType::Synopsis {
                let sep = if c.synopsis.len() > 0 {
                    c.synopsis.push('\n')
                } else {
                    c.synopsis
                };
                (cards, Some(CardV { synopsis: sep + synopsis_text(line), ..c }))
            } else if c.preview.len() == 0 && (lt == LineType::Action || lt == LineType::Dialogue) {
                (cards, Some(CardV { preview: line, ..c }))
            } else {
                (cards, cur)
            },
            None => (cards, cur),
        }
    }
}

/// The cards after reading the first `n` lines.
pub open spec fn cards_run(lines: Seq<Seq<char>>, types: Seq<LineType>, n: int) -> (Seq<CardV>, Option<CardV>)
    decreases n,
{
    if n <= 0 {
        (Seq::empty(), None)
    } else {
        let (cs, cur) = cards_run(lines, types, n - 1);
        card_step(cs, cur, n - 1, types[n - 1], lines[n - 1], lines.len() as int)
    }
}

/// The index cards of a script.
pub open spec fn cards_spec(lines: Seq<Seq<char>>, types: Seq<LineType>) -> Seq<CardV> {
    let (cs, cur) = cards_run(lines, types, lines.len() as int);
    match cur {
        Some(c) => cs.push(c),
        None => cs,
    }
}

/// Cards cut the script into scenes: each card runs from a scene heading
/// to the line before the next one (the last to the end of the script),
/// no heading lies inside a card, and none lies before the first.
pub open spec fn cards_wf(cards: Seq<CardV>, types: Seq<LineType>, total: int) -> bool {
    &&& forall|k: int| 0 <= k < cards.len() ==> 0 <= #[trigger] cards[k].start <= cards[k].end < total
    &&& forall|k: int| 0 <= k < cards.len() ==> types[#[trigger] cards[k].start] == LineType::SceneHeading
    &&& forall|k: int| 0 <= k < cards.len() - 1 ==> #[trigger] cards[k].end + 1 == cards[k + 1].start
    &&& cards.len() > 0 ==> cards[cards.len() - 1].end == total - 1
    &&& forall|k: int, j: int|
        #![trigger cards[k], types[j]]
        0 <= k < cards.len() && cards[k].start < j <= cards[k].end ==> types[j] != LineType::SceneHeading
    &&& forall|j: int|
        0 <= j < total && (cards.len() == 0 || j < cards[0].start) ==> types[j] != LineType::SceneHeading
}

/// What holds of the cards while the first `n` lines have been read.
spec fn run_wf(cs: Seq<CardV>, cur: Option<CardV>, types: Seq<LineType>, total: int, n: int) -> bool {
    &&& forall|k: int| 0 <= k < cs.len() ==> 0 <= #[trigger] cs[k].start <= cs[k].end < n
    &&& forall|k: int| 0 <= k < cs.len() ==> types[#[trigger] cs[k].start] == LineType::SceneHeading
    &&& forall|k: int| 0 <= k < cs.len() - 1 ==> #[trigger] cs[k].end + 1 == cs[k + 1].start
    &&& forall|k: int, j: int|
        #![trigger cs[k], types[j]]
        0 <= k < cs.len() && cs[k].start < j <= cs[k].end ==> types[j] != LineType::SceneHeading
    &&& match cur {
        Some(c) => {
            &&& 0 <= c.start < n
            &&& c.end == total - 1
            &&& types[c.start] == LineType::SceneHeading
            &&& forall|j: int| c.start < j < n ==> types[j] != LineType::SceneHeading
            &&& cs.len() > 0 ==> cs[cs.len() - 1].end + 1 == c.start
            &&& forall|j: int| 0 <= j < n && (cs.len() == 0 || j < cs[0].start) && j < c.start
                ==> types[j] != LineType::SceneHeading
        },
        None => {
            &&& cs.len() == 0
            &&& forall|j: int| 0 <= j < n ==> types[j] != LineType::SceneHeading
        },
    }
}

#[verifier::spinoff_prover]
#[verifier::rlimit(40)]
proof fn lemma_cards_run_wf(lines: Seq<Seq<char>>, types: Seq<LineType>, n: int)
    requires
        0 <= n <= lines.len() == types.len(),
    ensures
        run_wf(cards_run(lines, types, n).0, cards_run(lines, types, n).1, types, lines.len() as int, n),
    decreases n,
{
    if n > 0 {
        lemma_cards_run_wf(lines, types, n - 1);
        let (cs, cur) = cards_run(lines, types, n - 1);
        let i = n - 1;
        if types[i] == LineType::SceneHeading {
            if let Some(c) = cur {
                let done = cs.push(CardV { end: i - 1, ..c });
                assert(done[done.len() - 1].start == c.start);
                assert forall|k: int, j: int|
                    #![trigger done[k], types[j]]
                    0 <= k < done.len() && done[k].start < j <= done[k].end implies types[j]
                    != LineType::SceneHeading by {
                    if k < cs.len() {
                        assert(done[k] == cs[k]);
                    }
                }
            }
        }
    }
}

/// The cards of a script cut it into its scenes.
pub proof fn law_cards_wf(lines: Seq<Seq<char>>, types: Seq<LineType>)
    requires
        lines.len() == types.len(),
    ensures
        cards_wf(cards_spec(lines, types), types, lines.len() as int),
{
    lemma_cards_run_wf(lines, types, lines.len() as int);
    let (cs, cur) = cards_run(lines, types, lines.len() as int);
    if let Some(c) = cur {
        let all = cs.push(c);
        assert(all[all.len() - 1] == c);
        assert forall|k: int, j: int|
            #![trigger all[k], types[j]]
            0 <= k < all.len() && all[k].start < j <= all[k].end implies types[j]
            != LineType::SceneHeading by {
            if k < cs.len() {
                assert(all[k] == cs[k]);
            }
        }
        assert forall|j: int|
            0 <= j < lines.len() && (all.len() == 0 || j < all[0].start) implies types[j]
            != LineType::SceneHeading by {
            if cs.len() > 0 {
                assert(all[0] == cs[0]);
                assert(cs[0].start <= c.start);
            }
        }
    }
}

fn copy_string(s: &String) -> (r: String)
    ensures
        r@ == s@,
{
    s.clone()
}

fn synopsis_of(line: &Vec<char>) -> (r: Vec<char>)
    ensures
        r@ == synopsis_text(line@),
{
    let t = trim_start(line);
    if t.len() > 0 && t[0] == '=' {
        let rest = slice_chars(&t, 1, t.len());
        proof {
            assert(rest@ == t@.skip(1));
        }
        trim_start(&rest)
    } else {
        t
    }
}

impl App {
    /// The index cards of the script, one per scene heading, in order.
    pub fn extract_scene_cards(&self) -> (r: Vec<SceneCard>)
        requires
            self.typed(),
        ensures
            cards_view(r@) == cards_spec(self.text(), self.types@),
            cards_wf(cards_view(r@), self.types@, self.lines@.len() as int),
    {
        let ghost l = self.text();
        let ghost t = self.types@;
        let total = self.lines.len();
        let mut cards: Vec<SceneCard> = Vec::new();
        let mut cur: Option<SceneCard> = None;
        let mut i: usize = 0;
        while i < total
            invariant
                self.typed(),
                i <= total == l.len() == t.len(),
                l == self.text(),
                t == self.types@,
                cards_run(l, t, i as int) == (cards_view(cards@), match cur {
                    Some(c) => Some(card_view(c)),
                    None => None,
                }),
            decreases total - i,
        {
            let lt = self.types[i];
            let line = chars_of(self.lines[i].as_str());
            proof {
                assert(line@ == l[i as int]);
            }
            if lt == LineType::SceneHeading {
                match cur {
                    Some(c) => {
                        let mut c2 = c;
                        c2.end_line = if i >= 1 {
                            i - 1
                        } else {
                            0
                        };
                        let ghost before = cards_view(cards@);
                        cards.push(c2);
                        proof {
                            assert(cards_view(cards@) =~= before.push(card_view(c2)));
                        }
                    },
                    None => {},
                }
                let (heading, num) = match scene_tag_of(&line) {
                    Some(tag) => (string_of(&strip_number(&line)), Some(string_of(&tag))),
                    None => (string_of(&line), None),
                };
                cur = Some(SceneCard {
                    start_line: i,
                    end_line: if total >= 1 {
                        total - 1
                    } else {
                        0
                    },
                    heading,
                    synopsis: String::new(),
                    preview: String::new(),
                    scene_num: num,
                });
            } else {
                match cur {
                    Some(c) => {
                        let mut c2 = c;
                        if lt == LineType::Synopsis {
                            let mut syn = chars_of(c2.synopsis.as_str());
                            if syn.len() > 0 {
                                syn.push('\n');
                            }
                            let st = synopsis_of(&line);
                            push_all(&mut syn, &st);
                            c2.synopsis = string_of(&syn);
                        } else if c2.preview.unicode_len() == 0 && (lt == LineType::Action || lt
                            == LineType::Dialogue) {
                            c2.preview = string_of(&line);
                        }
                        cur = Some(c2);
                    },
                    None => {},
                }
            }
            i += 1;
        }
        match cur {
            Some(c) => {
                let ghost before = cards_view(cards@);
                cards.push(c);
                proof {
                    assert(cards_view(cards@) =~= before.push(card_view(c)));
                }
            },
            None => {},
        }
        proof {
            law_cards_wf(l, t);
        }
        cards
    }
}


/// The script with the scenes `a` and `b` (`a` first) in each other's
/// place; the lines between them stay between them.
pub open spec fn swap_spec(lines: Seq<Seq<char>>, a: CardV, b: CardV) -> Seq<Seq<char>> {
    lines.take(a.start) + lines.subrange(b.start, b.end + 1) + lines.subrange(a.end + 1, b.start)
        + lines.subrange(a.start, a.end + 1) + lines.skip(b.end + 1)
}

/// The lines of a new, empty scene: a blank line, a forced scene heading,
/// an empty synopsis and a blank line.
pub open spec fn blank_scene() -> Seq<Seq<char>> {
    seq![Seq::<char>::empty(), seq!['.', ' '], seq!['=', ' '], Seq::<char>::empty()]
}

/// Where `add_card` puts the new scene: after card `after` when there is
/// one, else at the end of the script.
pub open spec fn add_line(cards: Seq<CardV>, after: int, total: int) -> int {
    if 0 <= after < cards.len() {
        cards[after].end + 1
    } else {
        total
    }
}

/// The script without the scene of card `c`; a script left with no line
/// keeps one empty line.
pub open spec fn delete_spec(lines: Seq<Seq<char>>, c: CardV) -> Seq<Seq<char>> {
    let rest = lines.take(c.start) + lines.skip(c.end + 1);
    if rest.len() == 0 {
        seq![Seq::<char>::empty()]
    } else {
        rest
    }
}

/// A heading as the card editor writes it: with a leading `.`, which
/// forces a scene heading.
pub open spec fn dotted(h: Seq<char>) -> Seq<char> {
    if h.len() > 0 && h[0] == '.' {
        h
    } else {
        seq!['.'] + h
    }
}

/// The first synopsis line among lines `from..=to`.
pub open spec fn first_synopsis(types: Seq<LineType>, from: int, to: int) -> Option<int>
    decreases to - from + 1,
{
    if from > to {
        None
    } else if types[from] == LineType::Synopsis {
        Some(from)
    } else {
        first_synopsis(types, from + 1, to)
    }
}

/// The script after card `c` was given the heading `h` and the synopsis
/// `syn`: the heading line is replaced, and so is the scene's first
/// synopsis line; where it has none, one is put under the heading.
pub open spec fn update_spec(
    lines: Seq<Seq<char>>,
    types: Seq<LineType>,
    start: int,
    end: int,
    h: Seq<char>,
    syn: Seq<char>,
) -> Seq<Seq<char>> {
    let t = lines.update(start, dotted(h));
    let sl = seq!['=', ' '] + syn;
    match first_synopsis(types, start + 1, end) {
        Some(k) => t.update(k, sl),
        None => t.insert(start + 1, sl),
    }
}

proof fn lemma_first_synopsis(types: Seq<LineType>, from: int, to: int)
    ensures
        first_synopsis(types, from, to) matches Some(k) ==> from <= k <= to && types[k] == LineType::Synopsis,
        first_synopsis(types, from, to) is None ==> forall|j: int| from <= j <= to ==> types[j] != LineType::Synopsis,
    decreases to - from + 1,
{
    if from <= to && types[from] != LineType::Synopsis {
        lemma_first_synopsis(types, from + 1, to);
    }
}

/// Appends lines `from..to` of `src` to `out`.
fn push_lines(out: &mut Vec<String>, src: &Vec<String>, from: usize, to: usize)
    requires
        from <= to <= src@.len(),
    ensures
        texts(final(out)@) == texts(old(out)@) + texts(src@).subrange(from as int, to as int),
{
    let ghost start = texts(out@);
    let mut i = from;
    while i < to
        invariant
            from <= i <= to <= src@.len(),
            texts(out@) == start + texts(src@).subrange(from as int, i as int),
        decreases to - i,
    {
        let ghost before = texts(out@);
        out.push(copy_string(&src[i]));
        proof {
            assert(texts(out@) =~= before.push(src@[i as int]@));
            assert(texts(src@).subrange(from as int, i + 1) =~= texts(src@).subrange(from as int, i as int).push(src@[i as int]@));
        }
        i += 1;
    }
}


/// What every card edit does besides changing the text to `text`: the
/// old text is remembered for undo (and nothing is left to redo), every
/// line is classified and laid out again, and the cursor, mode and status
/// line stay as they were.
pub open spec fn card_edit(pre: App, post: App, text: Seq<Seq<char>>) -> bool {
    &&& post.text() == text
    &&& post.types@ == classify_spec(text)
    &&& post.layout@ == layout_spec(text, post.types@, text.len() as int)
    &&& post.undo_stack@.len() == pre.undo_stack@.len() + 1
    &&& post.undo_stack@.take(pre.undo_stack@.len() as int) == pre.undo_stack@
    &&& texts(post.undo_stack@.last().lines@) == pre.text()
    &&& post.undo_stack@.last().cursor_y == pre.cursor_y
    &&& post.undo_stack@.last().cursor_x == pre.cursor_x
    &&& post.redo_stack@.len() == 0
    &&& post.cursor_y == pre.cursor_y
    &&& post.cursor_x == pre.cursor_x
    &&& post.mode == pre.mode
    &&& post.status_msg == pre.status_msg
}

/// Lines `from..=to` of `types`: the first that is a synopsis.
fn find_synopsis(types: &Vec<LineType>, from: usize, to: usize) -> (r: Option<usize>)
    requires
        to < types@.len(),
    ensures
        r == (match first_synopsis(types@, from as int, to as int) {
            Some(k) => Some(k as usize),
            None => None,
        }),
        r matches Some(k) ==> from <= k <= to,
{
    proof {
        lemma_first_synopsis(types@, from as int, to as int);
    }
    let n = types.len();
    if from > to {
        return None;
    }
    let mut k = from;
    while k <= to
        invariant
            from <= k <= to + 1,
            to < types@.len() == n,
            first_synopsis(types@, from as int, to as int) == first_synopsis(types@, k as int, to as int),
        decreases to + 1 - k,
    {
        if types[k] == LineType::Synopsis {
            return Some(k);
        }
        k += 1;
    }
    None
}

/// `lines` with a new, empty scene put before line `at`.
fn with_blank_scene(lines: &Vec<String>, at: usize) -> (out: Vec<String>)
    requires
        at <= lines@.len(),
    ensures
        texts(out@) == texts(lines@).take(at as int) + blank_scene() + texts(lines@).skip(at as int),
{
    let mut out: Vec<String> = Vec::new();
    push_lines(&mut out, lines, 0, at);
    let ghost mid = texts(out@);
    let blank1 = string_of(&Vec::new());
    let dot = string_of(&chars_of(". "));
    let eq = string_of(&chars_of("= "));
    let blank2 = string_of(&Vec::new());
    proof {
        reveal_strlit(". ");
        reveal_strlit("= ");
        assert(dot@ == seq!['.', ' ']);
        assert(eq@ == seq!['=', ' ']);
    }
    out.push(blank1);
    out.push(dot);
    out.push(eq);
    out.push(blank2);
    proof {
        assert(texts(out@) =~= mid + blank_scene());
    }
    push_lines(&mut out, lines, at, lines.len());
    proof {
        assert(texts(out@) =~= texts(lines@).take(at as int) + blank_scene() + texts(lines@).skip(at as int));
    }
    out
}

/// `lines` with the scenes of cards `a` and `b` (`a` first) in each other's place.
fn swapped(lines: &Vec<String>, a: &SceneCard, b: &SceneCard) -> (out: Vec<String>)
    requires
        a.start_line <= a.end_line < b.start_line <= b.end_line < lines@.len(),
    ensures
        texts(out@) == swap_spec(texts(lines@), card_view(*a), card_view(*b)),
{
    let total = lines.len();
    let mut out: Vec<String> = Vec::new();
    push_lines(&mut out, lines, 0, a.start_line);
    push_lines(&mut out, lines, b.start_line, b.end_line + 1);
    push_lines(&mut out, lines, a.end_line + 1, b.start_line);
    push_lines(&mut out, lines, a.start_line, a.end_line + 1);
    push_lines(&mut out, lines, b.end_line + 1, total);
    proof {
        assert(texts(out@) =~= swap_spec(texts(lines@), card_view(*a), card_view(*b)));
    }
    out
}

impl App {
    /// Swaps two cards: each scene takes the other's place (the lines
    /// between them stay between them) and the later place becomes the
    /// selected card; the edit is remembered for undo. An index that names
    /// no card, or the same card twice, changes nothing.
    pub fn swap_cards(&mut self, i: usize, j: usize)
        requires
            old(self).typed(),
        ensures
            ({
                let cs = cards_spec(old(self).text(), old(self).types@);
                let f = if i < j { i as int } else { j as int };
                let s = if i < j { j as int } else { i as int };
                if i >= cs.len() || j >= cs.len() || i == j {
                    *final(self) == *old(self)
                } else {
                    &&& card_edit(*old(self), *final(self), swap_spec(old(self).text(), cs[f], cs[s]))
                    &&& final(self).selected_card_idx == s
                    &&& final(self).dirty
                }
            }),
            *final(self) == (App { lines: final(self).lines, types: final(self).types, layout: final(self).layout, undo_stack: final(self).undo_stack, redo_stack: final(self).redo_stack, dirty: final(self).dirty, selected_card_idx: final(self).selected_card_idx, ..*old(self) }),
    {
        let cards = self.extract_scene_cards();
        let ghost cs = cards_spec(self.text(), self.types@);
        let n = cards.len();
        if i >= n || j >= n || i == j {
            return;
        }
        self.save_state(true);
        let (f, s) = if i < j {
            (i, j)
        } else {
            (j, i)
        };
        let ghost old_text = self.text();
        proof {
            assert(cards_view(cards@)[f as int] == card_view(cards@[f as int]));
            assert(cards_view(cards@)[s as int] == card_view(cards@[s as int]));
            law_cards_wf(old_text, self.types@);
            lemma_cards_ordered(cs, self.types@, old_text.len() as int, f as int, s as int);
        }
        self.lines = swapped(&self.lines, &cards[f], &cards[s]);
        self.selected_card_idx = s;
        self.dirty = true;
        self.parse_document();
        self.update_layout();
    }

    /// Puts a new, empty scene after card `after_idx` (at the end of the
    /// script when there is no such card), selects it and opens its heading
    /// for editing.
    pub fn add_card(&mut self, after_idx: usize)
        requires
            old(self).typed(),
        ensures
            ({
                let cs = cards_spec(old(self).text(), old(self).types@);
                let at = add_line(cs, after_idx as int, old(self).lines@.len() as int);
                &&& card_edit(*old(self), *final(self), old(self).text().take(at) + blank_scene() + old(self).text().skip(at))
                &&& final(self).selected_card_idx == (if after_idx < cs.len() { after_idx + 1 } else { cs.len() as int })
                &&& final(self).is_card_editing
                &&& final(self).is_heading_editing
                &&& final(self).card_input_buffer@ == Seq::<char>::empty()
                &&& final(self).dirty == old(self).dirty
            }),
            *final(self) == (App { lines: final(self).lines, types: final(self).types, layout: final(self).layout, undo_stack: final(self).undo_stack, redo_stack: final(self).redo_stack, dirty: final(self).dirty, selected_card_idx: final(self).selected_card_idx, is_card_editing: final(self).is_card_editing, is_heading_editing: final(self).is_heading_editing, card_input_buffer: final(self).card_input_buffer, ..*old(self) }),
    {
        self.save_state(true);
        let cards = self.extract_scene_cards();
        let total = self.lines.len();
        let at = if after_idx < cards.len() {
            proof {
                assert(cards_view(cards@)[after_idx as int] == card_view(cards@[after_idx as int]));
            }
            cards[after_idx].end_line + 1
        } else {
            total
        };
        self.lines = with_blank_scene(&self.lines, at);
        self.parse_document();
        self.update_layout();
        self.selected_card_idx = if after_idx < cards.len() {
            after_idx + 1
        } else {
            cards.len()
        };
        self.is_card_editing = true;
        self.is_heading_editing = true;
        self.card_input_buffer = String::new();
    }

    /// Removes the scene of card `idx` and selects the card before it; an
    /// index that names no card changes nothing.
    pub fn delete_card(&mut self, idx: usize)
        requires
            old(self).typed(),
        ensures
            ({
                let cs = cards_spec(old(self).text(), old(self).types@);
                if idx >= cs.len() {
                    *final(self) == *old(self)
                } else {
                    &&& card_edit(*old(self), *final(self), delete_spec(old(self).text(), cs[idx as int]))
                    &&& final(self).selected_card_idx == (if idx > 0 { idx - 1 } else { 0 })
                    &&& final(self).dirty == old(self).dirty
                }
            }),
            *final(self) == (App { lines: final(self).lines, types: final(self).types, layout: final(self).layout, undo_stack: final(self).undo_stack, redo_stack: final(self).redo_stack, dirty: final(self).dirty, selected_card_idx: final(self).selected_card_idx, ..*old(self) }),
    {
        let cards = self.extract_scene_cards();
        let ghost cs = cards_spec(self.text(), self.types@);
        if idx >= cards.len() {
            return;
        }
        self.save_state(true);
        let ghost old_text = self.text();
        proof {
            assert(cards_view(cards@)[idx as int] == card_view(cards@[idx as int]));
        }
        let start = cards[idx].start_line;
        let end = cards[idx].end_line;
        let total = self.lines.len();
        let mut out: Vec<String> = Vec::new();
        push_lines(&mut out, &self.lines, 0, start);
        push_lines(&mut out, &self.lines, end + 1, total);
        proof {
            assert(texts(out@) =~= old_text.take(start as int) + old_text.skip(end + 1));
        }
        if out.len() == 0 {
            out.push(String::new());
            proof {
                assert(texts(out@) =~= seq![Seq::<char>::empty()]);
            }
        }
        self.lines = out;
        self.parse_document();
        self.update_layout();
        self.selected_card_idx = if idx > 0 {
            idx - 1
        } else {
            0
        };
    }

    /// Gives card `idx` a new heading and synopsis; an index that names no
    /// card changes nothing.
    pub fn update_card_content(&mut self, idx: usize, heading: String, synopsis: String)
        requires
            old(self).typed(),
        ensures
            ({
                let cs = cards_spec(old(self).text(), old(self).types@);
                if idx >= cs.len() {
                    *final(self) == *old(self)
                } else {
                    &&& card_edit(*old(self), *final(self),
                        update_spec(old(self).text(), old(self).types@, cs[idx as int].start, cs[idx as int].end, heading@, synopsis@))
                    &&& final(self).selected_card_idx == old(self).selected_card_idx
                    &&& final(self).dirty == old(self).dirty
                }
            }),
            *final(self) == (App { lines: final(self).lines, types: final(self).types, layout: final(self).layout, undo_stack: final(self).undo_stack, redo_stack: final(self).redo_stack, dirty: final(self).dirty, ..*old(self) }),
    {
        let cards = self.extract_scene_cards();
        if idx >= cards.len() {
            return;
        }
        self.save_state(true);
        proof {
            assert(cards_view(cards@)[idx as int] == card_view(cards@[idx as int]));
        }
        let start = cards[idx].start_line;
        let end = cards[idx].end_line;
        self.lines = edited_lines(&self.lines, &self.types, start, end, heading, &synopsis);
        self.parse_document();
        self.update_layout();
    }
}

/// The lines after the scene at lines `start..=end` was given the heading
/// `heading` and the synopsis `synopsis`.
fn edited_lines(
    lines: &Vec<String>,
    types: &Vec<LineType>,
    start: usize,
    end: usize,
    heading: String,
    synopsis: &String,
) -> (r: Vec<String>)
    requires
        start <= end < lines@.len() == types@.len(),
    ensures
        texts(r@) == update_spec(texts(lines@), types@, start as int, end as int, heading@, synopsis@),
{
    let ghost hv = heading@;
    let n = lines.len();
    let h = chars_of(heading.as_str());
    let new_heading = if h.len() > 0 && h[0] == '.' {
        heading
    } else {
        let mut d = chars_of(".");
        proof {
            reveal_strlit(".");
        }
        push_all(&mut d, &h);
        string_of(&d)
    };
    let mut sl = chars_of("= ");
    proof {
        reveal_strlit("= ");
    }
    push_all(&mut sl, &chars_of(synopsis.as_str()));
    let syn_line = string_of(&sl);
    proof {
        assert(new_heading@ == dotted(hv));
        assert(syn_line@ == seq!['=', ' '] + synopsis@);
    }
    let ghost t1 = texts(lines@).update(start as int, dotted(hv));
    let mut out = copy_lines(lines);
    out.set(start, new_heading);
    proof {
        assert(texts(out@) =~= t1);
    }
    let found = find_synopsis(types, start + 1, end);
    proof {
        lemma_first_synopsis(types@, start + 1, end as int);
    }
    match found {
        Some(k) => {
            out.set(k, syn_line);
            proof {
                assert(first_synopsis(types@, start + 1, end as int) == Some(k as int));
                assert(texts(out@) =~= t1.update(k as int, seq!['=', ' '] + synopsis@));
            }
        },
        None => {
            out.insert(start + 1, syn_line);
            proof {
                assert(first_synopsis(types@, start + 1, end as int) is None);
                assert(texts(out@) =~= t1.insert(start + 1, seq!['=', ' '] + synopsis@));
            }
        },
    }
    out
}


/// Swapping two cards moves lines and nothing else: the script keeps every
/// line, as many times as it had it.
#[verifier::spinoff_prover]
#[verifier::rlimit(40)]
pub proof fn law_swap_keeps_lines(lines: Seq<Seq<char>>, types: Seq<LineType>, f: int, s: int)
    requires
        lines.len() == types.len(),
        0 <= f < s,
        s < cards_spec(lines, types).len(),
    ensures
        ({
            let cs = cards_spec(lines, types);
            let out = swap_spec(lines, cs[f], cs[s]);
            &&& out.len() == lines.len()
            &&& out.to_multiset() == lines.to_multiset()
        }),
{
    let cs = cards_spec(lines, types);
    law_cards_wf(lines, types);
    lemma_cards_ordered(cs, types, lines.len() as int, f, s);
    let a = cs[f];
    let b = cs[s];
    let p = lines.take(a.start);
    let sa = lines.subrange(a.start, a.end + 1);
    let m = lines.subrange(a.end + 1, b.start);
    let sb = lines.subrange(b.start, b.end + 1);
    let q = lines.skip(b.end + 1);
    assert(lines =~= p + sa + m + sb + q);
    assert(swap_spec(lines, a, b) =~= p + sb + m + sa + q);
    lemma_swap_blocks(p, sa, m, sb, q);
}

/// Swapping two neighbouring cards twice gives the script back, where the
/// scene headings are found again where the two scenes now start: the
/// cards of the swapped script (under its types `types2`) at the same two
/// places are the two scenes that traded places.
#[verifier::spinoff_prover]
#[verifier::rlimit(40)]
pub proof fn law_swap_twice_restores(lines: Seq<Seq<char>>, types: Seq<LineType>, f: int, types2: Seq<LineType>)
    requires
        lines.len() == types.len(),
        0 <= f,
        f + 1 < cards_spec(lines, types).len(),
        ({
            let cs = cards_spec(lines, types);
            let out = swap_spec(lines, cs[f], cs[f + 1]);
            let cs2 = cards_spec(out, types2);
            &&& f + 1 < cs2.len()
            &&& cs2[f].start == cs[f].start
            &&& cs2[f].end == cs[f].start + (cs[f + 1].end - cs[f + 1].start)
            &&& cs2[f + 1].start == cs2[f].end + 1
            &&& cs2[f + 1].end == cs[f + 1].end
        }),
    ensures
        ({
            let cs = cards_spec(lines, types);
            let out = swap_spec(lines, cs[f], cs[f + 1]);
            let cs2 = cards_spec(out, types2);
            swap_spec(out, cs2[f], cs2[f + 1]) == lines
        }),
{
    let cs = cards_spec(lines, types);
    law_cards_wf(lines, types);
    lemma_cards_ordered(cs, types, lines.len() as int, f, f + 1);
    let out = swap_spec(lines, cs[f], cs[f + 1]);
    let cs2 = cards_spec(out, types2);
    lemma_swap_back(lines, cs[f], cs[f + 1], cs2[f], cs2[f + 1]);
}

/// Neighbouring blocks swapped, then swapped back at their new places.
proof fn lemma_swap_back(lines: Seq<Seq<char>>, a: CardV, b: CardV, a2: CardV, b2: CardV)
    requires
        0 <= a.start <= a.end,
        a.end + 1 == b.start,
        b.start <= b.end < lines.len(),
        a2.start == a.start,
        a2.end == a.start + (b.end - b.start),
        b2.start == a2.end + 1,
        b2.end == b.end,
    ensures
        swap_spec(swap_spec(lines, a, b), a2, b2) == lines,
{
    let p = lines.take(a.start);
    let sa = lines.subrange(a.start, a.end + 1);
    let sb = lines.subrange(b.start, b.end + 1);
    let q = lines.skip(b.end + 1);
    let out = swap_spec(lines, a, b);
    assert(lines.subrange(a.end + 1, b.start) =~= Seq::<Seq<char>>::empty());
    assert(out =~= p + sb + sa + q);
    assert(out.take(a2.start) =~= p);
    assert(out.subrange(b2.start, b2.end + 1) =~= sa);
    assert(out.subrange(a2.end + 1, b2.start) =~= Seq::<Seq<char>>::empty());
    assert(out.subrange(a2.start, a2.end + 1) =~= sb);
    assert(out.skip(b2.end + 1) =~= q);
    assert(lines =~= p + sa + sb + q);
    assert(swap_spec(out, a2, b2) =~= lines);
}

/// A card ends before any later card starts.
proof fn lemma_cards_ordered(cs: Seq<CardV>, types: Seq<LineType>, total: int, f: int, s: int)
    requires
        cards_wf(cs, types, total),
        0 <= f < s < cs.len(),
    ensures
        0 <= cs[f].start <= cs[f].end < cs[s].start <= cs[s].end < total,
    decreases s - f,
{
    assert(0 <= cs[f].start <= cs[f].end < total);
    assert(0 <= cs[s].start <= cs[s].end < total);
    assert(cs[s - 1].end + 1 == cs[s].start);
    if f + 1 < s {
        lemma_cards_ordered(cs, types, total, f, s - 1);
        assert(0 <= cs[s - 1].start <= cs[s - 1].end < total);
    }
}

proof fn lemma_swap_blocks(
    p: Seq<Seq<char>>,
    sa: Seq<Seq<char>>,
    m: Seq<Seq<char>>,
    sb: Seq<Seq<char>>,
    q: Seq<Seq<char>>,
)
    ensures
        (p + sb + m + sa + q).to_multiset() == (p + sa + m + sb + q).to_multiset(),
{
    broadcast use vstd::multiset::group_multiset_axioms;
    vstd::seq_lib::lemma_multiset_commutative(p + sa + m + sb, q);
    vstd::seq_lib::lemma_multiset_commutative(p + sa + m, sb);
    vstd::seq_lib::lemma_multiset_commutative(p + sa, m);
    vstd::seq_lib::lemma_multiset_commutative(p, sa);
    vstd::seq_lib::lemma_multiset_commutative(p + sb + m + sa, q);
    vstd::seq_lib::lemma_multiset_commutative(p + sb + m, sa);
    vstd::seq_lib::lemma_multiset_commutative(p + sb, m);
    vstd::seq_lib::lemma_multiset_commutative(p, sb);
    assert(p.to_multiset().add(sa.to_multiset()).add(m.to_multiset()).add(sb.to_multiset())
        =~= p.to_multiset().add(sb.to_multiset()).add(m.to_multiset()).add(sa.to_multiset()));
}

} // verus!
