//! Page layout of the PDF export: which lines of which text go on which
//! page, at which line, in which margin. The drawing itself (positions in
//! points, fonts) is left to the caller, which also measures how many
//! characters fit between each pair of margins.
use vstd::prelude::*;
use crate::pdf::{
    break_points, break_points_spec, bottom_margin_spec, max_lines_spec, top_margin_spec, BreakPoint, MirrorOption,
    PdfExporter, FONT_SIZE,
};
use crate::chars::{chars_of, string_of, to_uppercase, uppercase};
use crate::fdx::{lemma_runs_plain, runs_plain};
use crate::text::{decimal, decimal_spec, eq_str, push_all};
use crate::rich::{plain_style, RichElement, RichString, Style};
use crate::screenplay::{
    copy_rich, dialogue_v, element_v, part_v, runs, span_v, spans_v, Dialogue, Element, Screenplay, Span, DialogueElement, DialogueElementV, DialogueV, ElementV, SpanV,
};

verus! {

/// How a line is placed between its margins.
#[derive(Clone, Copy, Debug, PartialEq, Eq, Structural)]
pub enum Alignment {
    LeftToRight,
    RightToLeft,
    Centered,
}

/// The pair of margins a text is set between.
#[derive(Clone, Copy, Debug, PartialEq, Eq, Structural)]
pub enum MarginKind {
    Heading,
    Action,
    Character,
    Parenthetical,
    DialogueLine,
    DualLeftCharacter,
    DualLeftParenthetical,
    DualLeftLine,
    DualRightCharacter,
    DualRightParenthetical,
    DualRightLine,
    Lyrics,
    Transition,
    Centered,
    Synopsis,
    PageNumber,
    NumberLeft,
    NumberRight,
}

/// How many characters fit on a line between each pair of margins.
#[derive(Clone, Copy, Debug)]
pub struct GlyphSpans {
    pub heading: usize,
    pub action: usize,
    pub character: usize,
    pub parenthetical: usize,
    pub dialogue_line: usize,
    pub dual_left_character: usize,
    pub dual_left_parenthetical: usize,
    pub dual_left_line: usize,
    pub dual_right_character: usize,
    pub dual_right_parenthetical: usize,
    pub dual_right_line: usize,
    pub lyrics: usize,
    pub transition: usize,
    pub centered: usize,
    pub synopsis: usize,
    pub page_number: usize,
    pub number_left: usize,
    pub number_right: usize,
}

/// The span of a margin kind.
pub open spec fn span_of(g: GlyphSpans, m: MarginKind) -> int {
    match m {
        MarginKind::Heading => g.heading as int,
        MarginKind::Action => g.action as int,
        MarginKind::Character => g.character as int,
        MarginKind::Parenthetical => g.parenthetical as int,
        MarginKind::DialogueLine => g.dialogue_line as int,
        MarginKind::DualLeftCharacter => g.dual_left_character as int,
        MarginKind::DualLeftParenthetical => g.dual_left_parenthetical as int,
        MarginKind::DualLeftLine => g.dual_left_line as int,
        MarginKind::DualRightCharacter => g.dual_right_character as int,
        MarginKind::DualRightParenthetical => g.dual_right_parenthetical as int,
        MarginKind::DualRightLine => g.dual_right_line as int,
        MarginKind::Lyrics => g.lyrics as int,
        MarginKind::Transition => g.transition as int,
        MarginKind::Centered => g.centered as int,
        MarginKind::Synopsis => g.synopsis as int,
        MarginKind::PageNumber => g.page_number as int,
        MarginKind::NumberLeft => g.number_left as int,
        MarginKind::NumberRight => g.number_right as int,
    }
}

/// Every span holds at least two characters.
pub open spec fn spans_wide(g: GlyphSpans) -> bool {
    &&& g.heading >= 2
    &&& g.action >= 2
    &&& g.character >= 2
    &&& g.parenthetical >= 2
    &&& g.dialogue_line >= 2
    &&& g.dual_left_character >= 2
    &&& g.dual_left_parenthetical >= 2
    &&& g.dual_left_line >= 2
    &&& g.dual_right_character >= 2
    &&& g.dual_right_parenthetical >= 2
    &&& g.dual_right_line >= 2
    &&& g.lyrics >= 2
    &&& g.transition >= 2
    &&& g.centered >= 2
    &&& g.synopsis >= 2
    &&& g.page_number >= 2
    &&& g.number_left >= 2
    &&& g.number_right >= 2
}

impl GlyphSpans {
    pub fn span(&self, m: MarginKind) -> (r: usize)
        ensures
            r == span_of(*self, m),
    {
        match m {
            MarginKind::Heading => self.heading,
            MarginKind::Action => self.action,
            MarginKind::Character => self.character,
            MarginKind::Parenthetical => self.parenthetical,
            MarginKind::DialogueLine => self.dialogue_line,
            MarginKind::DualLeftCharacter => self.dual_left_character,
            MarginKind::DualLeftParenthetical => self.dual_left_parenthetical,
            MarginKind::DualLeftLine => self.dual_left_line,
            MarginKind::DualRightCharacter => self.dual_right_character,
            MarginKind::DualRightParenthetical => self.dual_right_parenthetical,
            MarginKind::DualRightLine => self.dual_right_line,
            MarginKind::Lyrics => self.lyrics,
            MarginKind::Transition => self.transition,
            MarginKind::Centered => self.centered,
            MarginKind::Synopsis => self.synopsis,
            MarginKind::PageNumber => self.page_number,
            MarginKind::NumberLeft => self.number_left,
            MarginKind::NumberRight => self.number_right,
        }
    }
}

/// One line of a text: characters `start` up to the break point `end`
/// (to the end of the text when there is none), set at line `line`.
#[derive(Clone, Copy, Debug, PartialEq, Eq, Structural)]
pub struct PlacedLine {
    pub line: usize,
    pub start: usize,
    pub end: Option<BreakPoint>,
}

/// Why a layout cannot be made.
#[derive(Clone, Copy, Debug, PartialEq, Eq, Structural)]
pub enum PlanError {
    /// A line starts where the text has no character (an empty text).
    NoCharacter,
    /// The page number does not fit its space.
    PageNumberTooLong,
    /// A character name takes a whole page.
    CharacterNameTooLong,
    /// The layout needs more pages than allowed.
    TooManyPages,
}

/// The lines placed of a text with break points `bps` (of `plain`), from
/// line `bi` of the text and line `line` of the page, while the page has
/// room (`line < lm`): the lines, the next line of the page, and the line
/// of the text left for the next page, if any. `None` where a line starts
/// where the text has no character.
pub open spec fn place_spec(plain: Seq<char>, bps: Seq<BreakPoint>, bi: int, line: int, lm: int) -> Option<(Seq<PlacedLine>, int, Option<int>)>
    decreases bps.len() + 1 - bi,
{
    if bi > bps.len() || bi < 0 {
        Some((Seq::empty(), line, None))
    } else if line >= lm {
        Some((Seq::empty(), line, Some(bi)))
    } else {
        match line_at(plain, bps, bi, line) {
            None => None,
            Some(pl) => match place_spec(plain, bps, bi + 1, line + 1, lm) {
                Some((rest, l2, r)) => Some((seq![pl] + rest, l2, r)),
                None => None,
            },
        }
    }
}

/// Line `b` of a text set at line `l`: `None` where it starts past the
/// text's end.
pub open spec fn line_at(plain: Seq<char>, bps: Seq<BreakPoint>, b: int, l: int) -> Option<PlacedLine> {
    let s0 = if b == 0 { 0 } else { bps[b - 1].index as int };
    if s0 >= plain.len() || s0 < 0 {
        None
    } else {
        let start = if plain[s0] == '\n' { s0 + 1 } else { s0 };
        Some(PlacedLine { line: l as usize, start: start as usize, end: if b < bps.len() { Some(bps[b]) } else { None } })
    }
}

fn line_of(plain: &Vec<char>, bps: &Vec<BreakPoint>, b: usize, l: usize) -> (r: Option<PlacedLine>)
    requires
        b <= bps@.len(),
    ensures
        r == line_at(plain@, bps@, b as int, l as int),
{
    let s0 = if b == 0 {
        0
    } else {
        bps[b - 1].index
    };
    if s0 >= plain.len() {
        return None;
    }
    let start = if plain[s0] == '\n' {
        s0 + 1
    } else {
        s0
    };
    let end = if b < bps.len() {
        Some(bps[b])
    } else {
        None
    };
    Some(PlacedLine { line: l, start, end })
}

/// Places the lines of a text (see `place_spec`).
pub fn place_lines(plain: &Vec<char>, bps: &Vec<BreakPoint>, bi: usize, line: usize, lm: usize) -> (r: Option<(Vec<PlacedLine>, usize, Option<usize>)>)
    requires
        lm < usize::MAX,
    ensures
        match (place_spec(plain@, bps@, bi as int, line as int, lm as int), r) {
            (Some((ls, l2, res)), Some(x)) => x.0@ == ls && x.1 == l2 && opt_v(x.2) == res,
            (None, None) => true,
            _ => false,
        },
{
    let mut out: Vec<PlacedLine> = Vec::new();
    let mut b = bi;
    let mut l = line;
    let ghost base = place_spec(plain@, bps@, bi as int, line as int, lm as int);
    proof {
        match base {
            Some((ls, l2, res)) => {
                assert(out@ + ls =~= ls);
            },
            None => {},
        }
    }
    if b > bps.len() {
        return Some((out, l, None));
    }
    loop
        invariant
            lm < usize::MAX,
            b <= bps@.len(),
            l == line || l <= lm,
            base == place_spec(plain@, bps@, bi as int, line as int, lm as int),
            match place_spec(plain@, bps@, b as int, l as int, lm as int) {
                Some((ls, l2, res)) => base == Some((out@ + ls, l2, res)),
                None => base is None,
            },
        decreases bps@.len() - b,
    {
        if l >= lm {
            proof {
                assert(out@ + Seq::<PlacedLine>::empty() =~= out@);
            }
            return Some((out, l, Some(b)));
        }
        let pl = match line_of(plain, bps, b, l) {
            Some(p) => p,
            None => {
                return None;
            },
        };
        let ghost o = out@;
        out.push(pl);
        proof {
            match place_spec(plain@, bps@, b + 1, l + 1, lm as int) {
                Some((rest, l2, res)) => {
                    assert(o + (seq![pl] + rest) =~= out@ + rest);
                },
                None => {},
            }
        }
        l += 1;
        if b == bps.len() {
            proof {
                assert(place_spec(plain@, bps@, b + 1, l as int, lm as int) == Some((Seq::<PlacedLine>::empty(), l as int, None::<int>)));
                assert(out@ + Seq::<PlacedLine>::empty() =~= out@);
            }
            return Some((out, l, None));
        }
        b += 1;
    }
}


/// A text set in one pair of margins on one page: its runs, where and how
/// it is set, whether its lines are marked as revised, and its lines.
pub struct Block {
    pub page: usize,
    pub text: RichString,
    pub margin: MarginKind,
    pub align: Alignment,
    /// The top of line 0, in points.
    pub top: usize,
    pub revised: bool,
    pub lines: Vec<PlacedLine>,
}

/// A scene in the document outline: its heading, page and line.
pub struct OutlineEntry {
    pub title: String,
    pub page: usize,
    pub line: usize,
}

/// The layout of a screenplay: the number of pages (a title page, when
/// there is one, is page 0), the texts set on them, and the outline.
pub struct Plan {
    pub pages: usize,
    pub blocks: Vec<Block>,
    pub outline: Vec<OutlineEntry>,
}

/// A block as values.
pub struct BlockV {
    pub page: int,
    pub text: Seq<(Seq<char>, Style)>,
    pub margin: MarginKind,
    pub align: Alignment,
    pub top: int,
    pub revised: bool,
    pub lines: Seq<PlacedLine>,
}

pub open spec fn block_v(b: Block) -> BlockV {
    BlockV {
        page: b.page as int,
        text: runs(b.text),
        margin: b.margin,
        align: b.align,
        top: b.top as int,
        revised: b.revised,
        lines: b.lines@,
    }
}

/// The state of the layout between elements: the element to set next, the
/// page, where a text interrupted by a page break goes on (the line of the
/// text; the part of a speech; the same for each side of dual dialogue),
/// and what has been set.
pub struct St {
    pub k: int,
    pub page: int,
    pub rbp: Option<int>,
    pub rdlg: Option<int>,
    pub rd0: Option<int>,
    pub rd1: Option<int>,
    pub rb0: Option<int>,
    pub rb1: Option<int>,
    pub blocks: Seq<BlockV>,
    pub outline: Seq<(Seq<char>, int, int)>,
}

/// The settings of the layout.
pub struct LayoutOptions {
    pub synopses: bool,
    pub sections: bool,
    pub bold_scene_headings: bool,
    pub mirror_scene_numbers: bool,
    pub sans: bool,
    pub has_title_page: bool,
    pub max_lines: usize,
    pub spans: GlyphSpans,
}

/// The runs in bold, italic or sans where asked, and upper-cased where asked.
pub open spec fn restyle_spec(rs: Seq<(Seq<char>, Style)>, bold: bool, italic: bool, sans: bool, upper: bool) -> Seq<(Seq<char>, Style)> {
    rs.map_values(|r: (Seq<char>, Style)| (
        if upper { uppercase(r.0) } else { r.0 },
        Style { bold: r.1.bold || bold, italic: r.1.italic || italic, sans: r.1.sans || sans, ..r.1 },
    ))
}

/// A run of plain text.
pub open spec fn plain_run(t: Seq<char>) -> Seq<(Seq<char>, Style)> {
    seq![(t, plain_style())]
}

/// Sets a text: the block is added on the current page; the next line of
/// the page and the line of the text left over come back.
pub open spec fn put_spec(
    st: St,
    g: GlyphSpans,
    rs: Seq<(Seq<char>, Style)>,
    m: MarginKind,
    al: Alignment,
    top: int,
    bi: int,
    line: int,
    lm: int,
    revised: bool,
) -> Result<(St, int, Option<int>), PlanError> {
    let plain = runs_plain(rs);
    match place_spec(plain, break_points_spec(plain, span_of(g, m)), bi, line, lm) {
        None => Err(PlanError::NoCharacter),
        Some((ls, l2, r)) => Ok((
            St {
                blocks: st.blocks.push(BlockV { page: st.page, text: rs, margin: m, align: al, top, revised, lines: ls }),
                ..st
            },
            l2,
            r,
        )),
    }
}

/// The margins of a speech: character, parenthetical, dialogue.
pub open spec fn speech_margins(side: int) -> (MarginKind, MarginKind, MarginKind) {
    if side == 0 {
        (MarginKind::Character, MarginKind::Parenthetical, MarginKind::DialogueLine)
    } else if side == 1 {
        (MarginKind::DualLeftCharacter, MarginKind::DualLeftParenthetical, MarginKind::DualLeftLine)
    } else {
        (MarginKind::DualRightCharacter, MarginKind::DualRightParenthetical, MarginKind::DualRightLine)
    }
}

/// The character cue set above a speech: `(CONT'D)` after it when the
/// speech goes on from the page before, else its extension in brackets.
pub open spec fn cue_runs(d: DialogueV, continued: bool) -> Seq<(Seq<char>, Style)> {
    d.character + if continued {
        plain_run(" (CONT'D)"@)
    } else {
        match d.extension {
            Some(e) => plain_run(" ("@) + e + plain_run(")"@),
            None => Seq::empty(),
        }
    }
}

/// The parts of a speech from part `di`, the first from line `rbp` of its
/// text: when the page is full, `(MORE)` is set under it, centred over the
/// dialogue column, and the speech stops there. The result: the state, the part and text line to go on
/// from, the next line, and whether the speech stopped early.
pub open spec fn parts_spec(
    st: St,
    g: GlyphSpans,
    parts: Seq<DialogueElementV>,
    side: int,
    di: int,
    rbp: Option<int>,
    line: int,
    max: int,
    revised: bool,
) -> Result<(St, Option<int>, Option<int>, int, bool), PlanError>
    decreases parts.len() - di, if line >= max { 0int } else { 1int },
{
    let (mc, mp, ml) = speech_margins(side);
    if di >= parts.len() || di < 0 {
        Ok((st, None, rbp, line, false))
    } else if line >= max {
        match put_spec(st, g, plain_run("(MORE)"@), ml, Alignment::Centered, 40, 0, line, max + 1, revised) {
            Err(e) => Err(e),
            Ok((s2, l2, _)) => Ok((s2, Some(di), rbp, l2, true)),
        }
    } else {
        let bi = match rbp {
            Some(i) => i,
            None => 0,
        };
        let (rs, m) = match parts[di] {
            DialogueElementV::Parenthetical(r) => (r, mp),
            DialogueElementV::Line(r) => (r, ml),
        };
        match put_spec(st, g, rs, m, Alignment::LeftToRight, 40, bi, line, max, revised) {
            Err(e) => Err(e),
            Ok((s2, l2, r)) => {
                proof {
                    let plain = runs_plain(rs);
                    lemma_place_mono(plain, break_points_spec(plain, span_of(g, m)), bi, line, max);
                }
                if r is Some {
                    parts_spec(s2, g, parts, side, di, r, l2, max, revised)
                } else {
                    parts_spec(s2, g, parts, side, di + 1, None, l2, max, revised)
                }
            },
        }
    }
}

/// The lines a speech has still to set, from part `di` (the first of them
/// from its line `bi`), in order: `true` for a line of dialogue, `false`
/// for a line of a parenthetical.
pub open spec fn speech_lines(g: GlyphSpans, parts: Seq<DialogueElementV>, side: int, di: int, bi: int) -> Seq<bool>
    decreases parts.len() - di,
{
    if di < 0 || di >= parts.len() {
        Seq::empty()
    } else {
        let (_, mp, ml) = speech_margins(side);
        let (rs, m, spoken) = match parts[di] {
            DialogueElementV::Parenthetical(r) => (r, mp, false),
            DialogueElementV::Line(r) => (r, ml, true),
        };
        let n = break_points_spec(runs_plain(rs), span_of(g, m)).len() + 1 - bi;
        Seq::new(if n > 0 { n as nat } else { 0 }, |j: int| spoken) + speech_lines(g, parts, side, di + 1, 0)
    }
}

/// How many lines of dialogue `s` holds.
pub open spec fn dialogue_count(s: Seq<bool>) -> int
    decreases s.len(),
{
    if s.len() == 0 {
        0
    } else {
        dialogue_count(s.drop_last()) + if s.last() { 1int } else { 0 }
    }
}

/// A speech may break after its first `j` lines: two lines of dialogue
/// at least stay above the break, and two at least go below it.
pub open spec fn split_ok(s: Seq<bool>, j: int) -> bool {
    dialogue_count(s.take(j)) >= 2 && dialogue_count(s) - dialogue_count(s.take(j)) >= 2
}

/// The latest break, after at most `k` lines, that a speech with lines `s`
/// allows; 0 where it allows none.
pub open spec fn split_point(s: Seq<bool>, k: int) -> int
    decreases k,
{
    if k <= 0 {
        0
    } else if split_ok(s, k) {
        k
    } else {
        split_point(s, k - 1)
    }
}

/// The lines a speech has still to set where it goes on from part `rdlg`
/// and text line `rbp` (from its start where they are `None`).
pub open spec fn speech_rest(g: GlyphSpans, d: DialogueV, side: int, rdlg: Option<int>, rbp: Option<int>) -> Seq<bool> {
    speech_lines(g, d.elements, side, match rdlg {
        Some(i) => i,
        None => 0,
    }, match rbp {
        Some(i) => i,
        None => 0,
    })
}

/// How many lines the cue of a speech takes.
pub open spec fn cue_lines(g: GlyphSpans, d: DialogueV, side: int, rdlg: Option<int>) -> int {
    let (mc, _, _) = speech_margins(side);
    break_points_spec(runs_plain(cue_runs(d, rdlg is Some)), span_of(g, mc)).len() + 1int
}

/// Where the parts of a speech set from line `line` must stop: `None`
/// where the speech goes whole to the next page. A speech whose cue does
/// not leave a line free under it goes on. Else one that fits under its
/// cue is set whole; one that does not is broken where it allows (see
/// `split_ok`), as late as the page allows; one that allows no break on
/// the page goes on, unless the page is empty, where it fills the page.
pub open spec fn speech_limit(g: GlyphSpans, d: DialogueV, side: int, rdlg: Option<int>, rbp: Option<int>, line: int, max: int) -> Option<int> {
    let l1 = line + cue_lines(g, d, side, rdlg);
    let s = speech_rest(g, d, side, rdlg, rbp);
    if l1 + 1 >= max {
        None
    } else if s.len() <= max - l1 {
        Some(max)
    } else if split_point(s, max - l1) > 0 {
        Some(l1 + split_point(s, max - l1))
    } else if line == 0 {
        Some(max)
    } else {
        None
    }
}

/// The latest allowed break within `k` lines is an allowed break.
pub proof fn lemma_split_point_ok(s: Seq<bool>, k: int)
    ensures
        split_point(s, k) > 0 ==> split_ok(s, split_point(s, k)),
    decreases k,
{
    if k > 0 && !split_ok(s, k) {
        lemma_split_point_ok(s, k - 1);
    }
}

/// A speech that does not fit under its cue, and is not moved whole to the
/// next page, breaks with two lines of dialogue at least above the break
/// and two at least below it. (On an empty page a speech that allows no
/// break fills the page instead; that case is left out.)
pub proof fn law_speech_breaks_between_dialogue_lines(g: GlyphSpans, d: DialogueV, side: int, rdlg: Option<int>, rbp: Option<int>, line: int, max: int)
    requires
        ({
            let l1 = line + cue_lines(g, d, side, rdlg);
            let s = speech_rest(g, d, side, rdlg, rbp);
            !(line == 0 && s.len() > max - l1 && split_point(s, max - l1) == 0)
        }),
    ensures
        ({
            let l1 = line + cue_lines(g, d, side, rdlg);
            let s = speech_rest(g, d, side, rdlg, rbp);
            speech_limit(g, d, side, rdlg, rbp, line, max) matches Some(lim) ==> (s.len() > lim - l1 ==> split_ok(s, lim - l1))
        }),
{
    let l1 = line + cue_lines(g, d, side, rdlg);
    let s = speech_rest(g, d, side, rdlg, rbp);
    lemma_split_point_ok(s, max - l1);
    lemma_split_point_le(s, max - l1);
}

/// A speech's parts that stop early end with `(MORE)`, centred in the
/// dialogue column, and name a part of the speech to go on from.
proof fn lemma_parts_stop(st: St, g: GlyphSpans, parts: Seq<DialogueElementV>, side: int, di: int, rbp: Option<int>, line: int, max: int, revised: bool)
    ensures
        parts_spec(st, g, parts, side, di, rbp, line, max, revised) matches Ok((s2, rd, rb, l2, p)) ==> (p ==> (rd matches Some(
            i,
        ) && 0 <= i < parts.len()) && s2.blocks.len() > 0 && s2.blocks.last().text == plain_run("(MORE)"@)
            && s2.blocks.last().align == Alignment::Centered && s2.blocks.last().margin == speech_margins(side).2),
    decreases parts.len() - di, if line >= max { 0int } else { 1int },
{
    let (mc, mp, ml) = speech_margins(side);
    if di >= parts.len() || di < 0 {
    } else if line >= max {
    } else {
        let bi = match rbp {
            Some(i) => i,
            None => 0,
        };
        let (rs, m) = match parts[di] {
            DialogueElementV::Parenthetical(r) => (r, mp),
            DialogueElementV::Line(r) => (r, ml),
        };
        lemma_put_mono(st, g, rs, m, Alignment::LeftToRight, 40, bi, line, max, revised);
        match put_spec(st, g, rs, m, Alignment::LeftToRight, 40, bi, line, max, revised) {
            Err(e) => {},
            Ok((s2, l2, r)) => {
                if r is Some {
                    lemma_parts_stop(s2, g, parts, side, di, r, l2, max, revised);
                } else {
                    lemma_parts_stop(s2, g, parts, side, di + 1, None, l2, max, revised);
                }
            },
        }
    }
}

/// A speech broken by a page: where the speech stops after setting
/// anything, its last text is `(MORE)`, centred in the dialogue column,
/// and the part to go on from is one of its parts; where it goes on from
/// an earlier page (`rdlg` given) and sets anything, the first text set is
/// its cue followed by ` (CONT'D)`, without the extension. The parts then
/// go on from part `rdlg`, at line `rbp` of its text (see `dialogue_spec`).
pub proof fn law_split_speech_resumes(st: St, g: GlyphSpans, d: DialogueV, side: int, rdlg: Option<int>, rbp: Option<int>, line: int, max: int, revised: bool)
    ensures
        dialogue_spec(st, g, d, side, rdlg, rbp, line, max, revised) matches Ok((s2, rd, rb, l2, stopped)) ==> {
            &&& stopped && s2.blocks.len() > st.blocks.len() ==> (rd matches Some(i) && 0 <= i < d.elements.len())
                && s2.blocks.last().text == plain_run("(MORE)"@) && s2.blocks.last().align == Alignment::Centered
                && s2.blocks.last().margin == speech_margins(side).2
            &&& rdlg is Some && s2.blocks.len() > st.blocks.len() ==> s2.blocks[st.blocks.len() as int].text == d.character
                + plain_run(" (CONT'D)"@)
        },
{
    let (mc, _, _) = speech_margins(side);
    let name = cue_runs(d, rdlg is Some);
    let di = match rdlg {
        Some(i) => i,
        None => 0,
    };
    if let Some(lim) = speech_limit(g, d, side, rdlg, rbp, line, max) {
        lemma_put_extends(st, g, name, mc, Alignment::LeftToRight, 40, 0, line, max, revised);
        if let Ok((s1, l1, _)) = put_spec(st, g, name, mc, Alignment::LeftToRight, 40, 0, line, max, revised) {
            assert(s1.blocks[st.blocks.len() as int].text == name);
            lemma_parts_extends(s1, g, d.elements, side, di, rbp, l1, lim, revised);
            lemma_parts_stop(s1, g, d.elements, side, di, rbp, l1, lim, revised);
        }
    }
}

/// A speech (`write_dialogue`): its cue, then its parts down to the line
/// that `speech_limit` gives; where it gives none, nothing is set and the
/// speech stops early.
pub open spec fn dialogue_spec(
    st: St,
    g: GlyphSpans,
    d: DialogueV,
    side: int,
    rdlg: Option<int>,
    rbp: Option<int>,
    line: int,
    max: int,
    revised: bool,
) -> Result<(St, Option<int>, Option<int>, int, bool), PlanError> {
    let (mc, _, _) = speech_margins(side);
    let name = cue_runs(d, rdlg is Some);
    if cue_lines(g, d, side, rdlg) >= max {
        Err(PlanError::CharacterNameTooLong)
    } else {
        match speech_limit(g, d, side, rdlg, rbp, line, max) {
            None => Ok((st, rdlg, rbp, line, true)),
            Some(lim) => match put_spec(st, g, name, mc, Alignment::LeftToRight, 40, 0, line, max, revised) {
                Err(e) => Err(e),
                Ok((s1, l1, _)) => parts_spec(s1, g, d.elements, side, match rdlg {
                    Some(i) => i,
                    None => 0,
                }, rbp, l1, lim, revised),
            },
        }
    }
}

/// A break comes after no more lines than asked for.
pub proof fn lemma_split_point_le(s: Seq<bool>, k: int)
    ensures
        0 <= split_point(s, k) <= if k > 0 { k } else { 0 },
    decreases k,
{
    if k > 0 {
        lemma_split_point_le(s, k - 1);
    }
}

/// The limit of a speech's parts is within the page.
pub proof fn lemma_speech_limit_le(g: GlyphSpans, d: DialogueV, side: int, rdlg: Option<int>, rbp: Option<int>, line: int, max: int)
    ensures
        speech_limit(g, d, side, rdlg, rbp, line, max) matches Some(lim) ==> lim <= max,
{
    let l1 = line + cue_lines(g, d, side, rdlg);
    let s = speech_rest(g, d, side, rdlg, rbp);
    lemma_split_point_le(s, max - l1);
}

pub proof fn lemma_place_mono(plain: Seq<char>, bps: Seq<BreakPoint>, bi: int, line: int, lm: int)
    ensures
        place_spec(plain, bps, bi, line, lm) matches Some((ls, l2, r)) ==> l2 >= line && (r is Some ==> l2 >= lm),
    decreases bps.len() + 1 - bi,
{
    if 0 <= bi <= bps.len() && line < lm {
        lemma_place_mono(plain, bps, bi + 1, line + 1, lm);
    }
}


/// `i - 1`, or 0 for line 0.
pub open spec fn before_line(i: int) -> int {
    if i >= 1 {
        i - 1
    } else {
        0
    }
}

/// Some line of `a..=b` (counted from 1) is marked as revised.
pub open spec fn revised_in(rl: Seq<bool>, a: int, b: int) -> bool {
    exists|i: int| a <= i <= b && 0 <= #[trigger] before_line(i) < rl.len() && rl[before_line(i)]
}

/// Sets a text in one pair of margins, left to right, the line of the text
/// left over becoming the one to go on from.
pub open spec fn put_rest(
    st: St,
    g: GlyphSpans,
    rs: Seq<(Seq<char>, Style)>,
    m: MarginKind,
    al: Alignment,
    bi: int,
    line: int,
    max: int,
    revised: bool,
) -> Result<(St, int, bool), PlanError> {
    match put_spec(st, g, rs, m, al, 40, bi, line, max, revised) {
        Err(e) => Err(e),
        Ok((s2, l2, r)) => Ok((St { rbp: r, ..s2 }, l2, false)),
    }
}

/// A scene heading: it starts a page unless it and three more lines fit;
/// its number is set beside it (on both sides when mirrored), and it goes
/// into the outline.
pub open spec fn heading_spec(
    st: St,
    o: LayoutOptions,
    slug: Seq<(Seq<char>, Style)>,
    number: Option<Seq<char>>,
    line: int,
    bi: int,
    revised: bool,
) -> Result<(St, int, bool), PlanError> {
    let g = o.spans;
    let max = o.max_lines as int;
    let hl = break_points_spec(runs_plain(slug), span_of(g, MarginKind::Heading)).len() + 1;
    let remaining = if max > line { max - line } else { 0 };
    if remaining < hl + 3 {
        Ok((st, line, true))
    } else {
        let numbered: Result<St, PlanError> = match number {
            Some(n) => match put_spec(st, g, plain_run(n), MarginKind::NumberLeft, Alignment::LeftToRight, 40, 0, line, max, revised) {
                Err(e) => Err(e),
                Ok((s1, _, _)) => if o.mirror_scene_numbers {
                    match put_spec(s1, g, plain_run(n), MarginKind::NumberRight, Alignment::RightToLeft, 40, 0, line, max, revised) {
                        Err(e) => Err(e),
                        Ok((s2, _, _)) => Ok(s2),
                    }
                } else {
                    Ok(s1)
                },
            },
            None => Ok(st),
        };
        match numbered {
            Err(e) => Err(e),
            Ok(s3) => {
                let s4 = St { outline: s3.outline.push((runs_plain(slug), st.page, line)), ..s3 };
                let rs = if o.bold_scene_headings { restyle_spec(slug, true, false, false, false) } else { slug };
                put_rest(s4, g, rs, MarginKind::Heading, Alignment::LeftToRight, bi, line, max, revised)
            },
        }
    }
}

/// Dual dialogue: the two speeches side by side, each going on where it
/// was interrupted; the page ends when either stops early.
pub open spec fn dual_spec(st: St, o: LayoutOptions, d0: DialogueV, d1: DialogueV, line: int, revised: bool) -> Result<(St, int, bool), PlanError> {
    let g = o.spans;
    let max = o.max_lines as int;
    let first: Result<(St, int, bool), PlanError> = if (st.rd0 is None && st.rd1 is None) || st.rd0 is Some {
        match dialogue_spec(st, g, d0, 1, st.rd0, st.rb0, line, max, revised) {
            Err(e) => Err(e),
            Ok((s2, rd, rb, l2, prem)) => Ok((St { rd0: rd, rb0: rb, ..s2 }, l2, prem)),
        }
    } else {
        Ok((st, line, false))
    };
    match first {
        Err(e) => Err(e),
        Ok((s1, l1, p1)) => {
            let second: Result<(St, int, bool), PlanError> = if (s1.rd1 is None && s1.rd0 is None) || s1.rd1 is Some {
                if p1 {
                    Ok((s1, if l1 > line { l1 } else { line }, true))
                } else {
                    match dialogue_spec(s1, g, d1, 2, s1.rd1, s1.rb1, line, max, revised) {
                        Err(e) => Err(e),
                        Ok((s2, rd, rb, l2, prem)) => Ok((St { rd1: rd, rb1: rb, ..s2 }, if l1 > l2 { l1 } else { l2 }, prem)),
                    }
                }
            } else {
                Ok((s1, l1, p1))
            };
            match second {
                Err(e) => Err(e),
                Ok((s3, l3, p3)) => Ok((s3, l3, s3.rd0 is Some || s3.rd1 is Some || p3)),
            }
        },
    }
}

/// One element on the page from line `line`, its text from line `bi`: the
/// state, the next line, and whether the page ends here.
#[verifier::opaque]
pub open spec fn element_spec(
    st: St,
    o: LayoutOptions,
    e: ElementV,
    line: int,
    bi: int,
    revised: bool,
) -> Result<(St, int, bool), PlanError> {
    let g = o.spans;
    let max = o.max_lines as int;
    match e {
        ElementV::Heading(slug, number) => heading_spec(st, o, slug, number, line, bi, revised),
        ElementV::Action(r) => put_rest(st, g, r, MarginKind::Action, Alignment::LeftToRight, bi, line, max, revised),
        ElementV::Dialogue(d) => match dialogue_spec(st, g, d, 0, st.rdlg, st.rbp, line, max, revised) {
            Err(e) => Err(e),
            Ok((s2, rd, rb, l2, prem)) => Ok((St { rdlg: rd, rbp: rb, ..s2 }, l2, rd is Some || prem)),
        },
        ElementV::DualDialogue(d0, d1) => dual_spec(st, o, d0, d1, line, revised),
        ElementV::Lyrics(r) => put_rest(st, g, restyle_spec(r, false, true, false, false), MarginKind::Lyrics, Alignment::Centered, bi, line, max, revised),
        ElementV::Transition(r) => put_rest(st, g, r, MarginKind::Transition, Alignment::RightToLeft, bi, line, max, revised),
        ElementV::CenteredText(r) => put_rest(st, g, r, MarginKind::Centered, Alignment::Centered, bi, line, max, revised),
        ElementV::Shot(r) => put_rest(st, g, restyle_spec(r, o.bold_scene_headings, false, false, true), MarginKind::Action, Alignment::LeftToRight, bi, line, max, revised),
        ElementV::Synopsis(r) => if o.synopses {
            put_rest(st, g, restyle_spec(r, true, true, o.sans, false), MarginKind::Synopsis, Alignment::LeftToRight, bi, line, max, revised)
        } else {
            Ok((st, line, false))
        },
        ElementV::Section(r) => if o.sections {
            put_rest(st, g, restyle_spec(r, true, false, o.sans, true), MarginKind::Action, Alignment::LeftToRight, bi, line, max, revised)
        } else {
            Ok((st, line, false))
        },
        ElementV::PageBreak => Ok((St { k: st.k + 1, ..st }, line, true)),
    }
}


pub proof fn lemma_put_mono(st: St, g: GlyphSpans, rs: Seq<(Seq<char>, Style)>, m: MarginKind, al: Alignment, top: int, bi: int, line: int, lm: int, revised: bool)
    ensures
        put_spec(st, g, rs, m, al, top, bi, line, lm, revised) matches Ok((s2, l2, r)) ==> l2 >= line && (r is Some ==> l2 >= lm),
{
    let plain = runs_plain(rs);
    lemma_place_mono(plain, break_points_spec(plain, span_of(g, m)), bi, line, lm);
}

pub proof fn lemma_parts_mono(st: St, g: GlyphSpans, parts: Seq<DialogueElementV>, side: int, di: int, rbp: Option<int>, line: int, max: int, revised: bool)
    ensures
        parts_spec(st, g, parts, side, di, rbp, line, max, revised) matches Ok((s2, rd, rb, l2, p)) ==> l2 >= line,
    decreases parts.len() - di, if line >= max { 0int } else { 1int },
{
    let (mc, mp, ml) = speech_margins(side);
    if di >= parts.len() || di < 0 {
    } else if line >= max {
        lemma_put_mono(st, g, plain_run("(MORE)"@), ml, Alignment::Centered, 40, 0, line, max + 1, revised);
    } else {
        let bi = match rbp {
            Some(i) => i,
            None => 0,
        };
        let (rs, m) = match parts[di] {
            DialogueElementV::Parenthetical(r) => (r, mp),
            DialogueElementV::Line(r) => (r, ml),
        };
        lemma_put_mono(st, g, rs, m, Alignment::LeftToRight, 40, bi, line, max, revised);
        match put_spec(st, g, rs, m, Alignment::LeftToRight, 40, bi, line, max, revised) {
            Err(e) => {},
            Ok((s2, l2, r)) => {
                if r is Some {
                    lemma_parts_mono(s2, g, parts, side, di, r, l2, max, revised);
                } else {
                    lemma_parts_mono(s2, g, parts, side, di + 1, None, l2, max, revised);
                }
            },
        }
    }
}

pub proof fn lemma_dialogue_mono(st: St, g: GlyphSpans, d: DialogueV, side: int, rdlg: Option<int>, rbp: Option<int>, line: int, max: int, revised: bool)
    ensures
        dialogue_spec(st, g, d, side, rdlg, rbp, line, max, revised) matches Ok((s2, rd, rb, l2, p)) ==> l2 >= line,
{
    let (mc, _, _) = speech_margins(side);
    let name = cue_runs(d, rdlg is Some);
    let di = match rdlg {
        Some(i) => i,
        None => 0,
    };
    if let Some(lim) = speech_limit(g, d, side, rdlg, rbp, line, max) {
        lemma_put_mono(st, g, name, mc, Alignment::LeftToRight, 40, 0, line, max, revised);
        if let Ok((s1, l1, _)) = put_spec(st, g, name, mc, Alignment::LeftToRight, 40, 0, line, max, revised) {
            lemma_parts_mono(s1, g, d.elements, side, di, rbp, l1, lim, revised);
        }
    }
}

pub proof fn lemma_element_mono(st: St, o: LayoutOptions, e: ElementV, line: int, bi: int, revised: bool)
    ensures
        element_spec(st, o, e, line, bi, revised) matches Ok((s2, l2, b)) ==> l2 >= line,
{
    reveal(element_spec);
    let g = o.spans;
    let max = o.max_lines as int;
    match e {
        ElementV::Heading(slug, number) => {
            let numbered: Result<St, PlanError> = match number {
                Some(n) => match put_spec(st, g, plain_run(n), MarginKind::NumberLeft, Alignment::LeftToRight, 40, 0, line, max, revised) {
                    Err(e) => Err(e),
                    Ok((s1, _, _)) => if o.mirror_scene_numbers {
                        match put_spec(s1, g, plain_run(n), MarginKind::NumberRight, Alignment::RightToLeft, 40, 0, line, max, revised) {
                            Err(e) => Err(e),
                            Ok((s2, _, _)) => Ok(s2),
                        }
                    } else {
                        Ok(s1)
                    },
                },
                None => Ok(st),
            };
            match numbered {
                Err(e) => {},
                Ok(s3) => {
                    let s4 = St { outline: s3.outline.push((runs_plain(slug), st.page, line)), ..s3 };
                    let rs = if o.bold_scene_headings { restyle_spec(slug, true, false, false, false) } else { slug };
                    lemma_put_mono(s4, g, rs, MarginKind::Heading, Alignment::LeftToRight, 40, bi, line, max, revised);
                },
            }
        },
        ElementV::Action(r) => lemma_put_mono(st, g, r, MarginKind::Action, Alignment::LeftToRight, 40, bi, line, max, revised),
        ElementV::Dialogue(d) => lemma_dialogue_mono(st, g, d, 0, st.rdlg, st.rbp, line, max, revised),
        ElementV::DualDialogue(d0, d1) => {
            lemma_dialogue_mono(st, g, d0, 1, st.rd0, st.rb0, line, max, revised);
        },
        ElementV::Lyrics(r) => lemma_put_mono(st, g, restyle_spec(r, false, true, false, false), MarginKind::Lyrics, Alignment::Centered, 40, bi, line, max, revised),
        ElementV::Transition(r) => lemma_put_mono(st, g, r, MarginKind::Transition, Alignment::RightToLeft, 40, bi, line, max, revised),
        ElementV::CenteredText(r) => lemma_put_mono(st, g, r, MarginKind::Centered, Alignment::Centered, 40, bi, line, max, revised),
        ElementV::Shot(r) => lemma_put_mono(st, g, restyle_spec(r, o.bold_scene_headings, false, false, true), MarginKind::Action, Alignment::LeftToRight, 40, bi, line, max, revised),
        ElementV::Synopsis(r) => lemma_put_mono(st, g, restyle_spec(r, true, true, o.sans, false), MarginKind::Synopsis, Alignment::LeftToRight, 40, bi, line, max, revised),
        ElementV::Section(r) => lemma_put_mono(st, g, restyle_spec(r, true, false, o.sans, true), MarginKind::Action, Alignment::LeftToRight, 40, bi, line, max, revised),
        ElementV::PageBreak => {},
    }
}

/// The elements set on one page from line `line`: until the page is full,
/// an element ends the page, or none is left. After each element a line
/// is left blank; an element that goes on onto the next page stays the
/// one to set next.
#[verifier::opaque]
pub open spec fn page_body(st: St, o: LayoutOptions, elems: Seq<SpanV>, rl: Seq<bool>, line: int) -> Result<St, PlanError>
    decreases o.max_lines + 3 - line,
{
    if st.k < 0 || st.k >= elems.len() || line >= o.max_lines || line < 0 {
        Ok(st)
    } else {
        let sp = elems[st.k];
        let bi = match st.rbp {
            Some(i) => i,
            None => 0,
        };
        let rbp1 = if sp.inner is Dialogue { st.rbp } else { None };
        let st1 = St { rbp: rbp1, ..st };
        let revised = revised_in(rl, sp.start, sp.end);
        match element_spec(st1, o, sp.inner, line, bi, revised) {
            Err(e) => Err(e),
            Ok((st2, l2, brk)) => {
                proof {
                    lemma_element_mono(st1, o, sp.inner, line, bi, revised);
                }
                if brk {
                    Ok(st2)
                } else {
                    let st3 = if st2.rbp is Some { st2 } else { St { k: st2.k + 1, ..st2 } };
                    if l2 + 1 <= o.max_lines + 3 {
                        page_body(st3, o, elems, rl, l2 + 1)
                    } else {
                        Ok(st3)
                    }
                }
            },
        }
    }
}


/// The page number set on page `page`: counted from the first page of the
/// script, without the title page.
pub open spec fn page_number_text(o: LayoutOptions, page: int) -> Seq<char> {
    decimal_spec((if o.has_title_page { page } else { page + 1 }) as nat) + "."@
}

/// Pages after the first page of the script carry a page number.
pub open spec fn numbered_page(o: LayoutOptions, page: int) -> bool {
    (!o.has_title_page && page > 0) || (o.has_title_page && page > 1)
}

/// The pages from the state `st` on, at most `fuel` more of them.
pub open spec fn pages_spec(st: St, o: LayoutOptions, elems: Seq<SpanV>, rl: Seq<bool>, fuel: nat) -> Result<St, PlanError>
    decreases fuel,
{
    if st.k < 0 || st.k >= elems.len() {
        Ok(st)
    } else if fuel == 0 {
        Err(PlanError::TooManyPages)
    } else {
        let pn: Result<St, PlanError> = if numbered_page(o, st.page) {
            match put_spec(st, o.spans, plain_run(page_number_text(o, st.page)), MarginKind::PageNumber, Alignment::RightToLeft, 36, 0, 0, 36, false) {
                Err(e) => Err(e),
                Ok((s1, _, r)) => if r is Some {
                    Err(PlanError::PageNumberTooLong)
                } else {
                    Ok(s1)
                },
            }
        } else {
            Ok(st)
        };
        match pn {
            Err(e) => Err(e),
            Ok(s1) => match page_body(s1, o, elems, rl, 0) {
                Err(e) => Err(e),
                Ok(s2) => pages_spec(St { page: s2.page + 1, ..s2 }, o, elems, rl, (fuel - 1) as nat),
            },
        }
    }
}

/// The state before the first page of the script.
pub open spec fn plan_start(o: LayoutOptions) -> St {
    St {
        k: 0,
        page: if o.has_title_page { 1 } else { 0 },
        rbp: None,
        rdlg: None,
        rd0: None,
        rd1: None,
        rb0: None,
        rb1: None,
        blocks: Seq::empty(),
        outline: Seq::empty(),
    }
}

/// The layout of a screenplay's elements, with at most `page_limit` pages
/// after the title page.
pub open spec fn plan_spec(o: LayoutOptions, elems: Seq<SpanV>, rl: Seq<bool>, page_limit: nat) -> Result<St, PlanError> {
    pages_spec(plan_start(o), o, elems, rl, page_limit)
}

pub open spec fn opt_v(o: Option<usize>) -> Option<int> {
    match o {
        Some(i) => Some(i as int),
        None => None,
    }
}

pub open spec fn outline_v(e: OutlineEntry) -> (Seq<char>, int, int) {
    (e.title@, e.page as int, e.line as int)
}

/// The layout made so far.
struct Planner {
    k: usize,
    page: usize,
    rbp: Option<usize>,
    rdlg: Option<usize>,
    rd0: Option<usize>,
    rd1: Option<usize>,
    rb0: Option<usize>,
    rb1: Option<usize>,
    blocks: Vec<Block>,
    outline: Vec<OutlineEntry>,
}

spec fn planner_v(p: Planner) -> St {
    St {
        k: p.k as int,
        page: p.page as int,
        rbp: opt_v(p.rbp),
        rdlg: opt_v(p.rdlg),
        rd0: opt_v(p.rd0),
        rd1: opt_v(p.rd1),
        rb0: opt_v(p.rb0),
        rb1: opt_v(p.rb1),
        blocks: p.blocks@.map_values(|b: Block| block_v(b)),
        outline: p.outline@.map_values(|e: OutlineEntry| outline_v(e)),
    }
}

/// A copy of `r` in bold, italic or sans where asked, upper-cased where asked.
pub(crate) fn restyle(r: &RichString, bold: bool, italic: bool, sans: bool, upper: bool) -> (out: RichString)
    ensures
        runs(out) == restyle_spec(runs(*r), bold, italic, sans, upper),
{
    let mut es: Vec<RichElement> = Vec::new();
    let mut i: usize = 0;
    while i < r.elements.len()
        invariant
            i <= r.elements@.len(),
            es@.map_values(|e: RichElement| (e.text@, e.style)) == restyle_spec(runs(*r), bold, italic, sans, upper).take(i as int),
        decreases r.elements.len() - i,
    {
        let mut e = r.elements[i].copy();
        if upper {
            let u = to_uppercase(&chars_of(e.text.as_str()));
            e.text = string_of(&u);
        }
        if bold {
            e.set_bold();
        }
        if italic {
            e.set_italic();
        }
        if sans {
            e.set_sans();
        }
        let ghost before = es@;
        es.push(e);
        proof {
            let rs = restyle_spec(runs(*r), bold, italic, sans, upper);
            assert(rs[i as int] == (e.text@, e.style));
            assert(es@.map_values(|e: RichElement| (e.text@, e.style)) =~= before.map_values(|e: RichElement| (e.text@, e.style)).push((e.text@, e.style)));
            assert(rs.take(i + 1) =~= rs.take(i as int).push(rs[i as int]));
        }
        i += 1;
    }
    let out = RichString { elements: es };
    proof {
        assert(runs(out) =~= restyle_spec(runs(*r), bold, italic, sans, upper));
    }
    out
}

fn plain_rich(s: &Vec<char>) -> (r: RichString)
    ensures
        runs(r) == plain_run(s@),
{
    let mut es: Vec<RichElement> = Vec::new();
    es.push(RichElement { text: string_of(s), style: Style::plain() });
    let r = RichString { elements: es };
    proof {
        assert(runs(r) =~= plain_run(s@));
    }
    r
}

fn append_rich(a: &mut RichString, b: RichString)
    ensures
        runs(*final(a)) == runs(*old(a)) + runs(b),
{
    a.append(b);
    proof {
        assert(runs(*a) =~= runs(*old(a)) + runs(b));
    }
}

/// Whether some line of `a..=b` (counted from 1) is marked as revised.
fn revised_of(rl: &Vec<bool>, a: usize, b: usize) -> (r: bool)
    ensures
        r == revised_in(rl@, a as int, b as int),
{
    let n = rl.len();
    let hi = if b > n {
        n
    } else {
        b
    };
    if a > hi {
        proof {
            assert forall|i: int| a <= i <= b && 0 <= #[trigger] before_line(i) < rl@.len() implies !rl@[before_line(i)] by {
                assert(i > hi);
                assert(false);
            }
        }
        return false;
    }
    let mut i = a;
    loop
        invariant
            a <= i <= hi <= b,
            hi <= n == rl@.len(),
            hi == (if b > n { n } else { b }),
            forall|j: int| a <= j < i && 0 <= #[trigger] before_line(j) < rl@.len() ==> !rl@[before_line(j)],
        decreases hi - i,
    {
        let k = if i >= 1 {
            i - 1
        } else {
            0
        };
        if k < n && rl[k] {
            proof {
                assert(before_line(i as int) == k);
            }
            return true;
        }
        if i == hi {
            proof {
                assert(before_line(i as int) == k);
                assert forall|j: int| a <= j <= b && 0 <= #[trigger] before_line(j) < rl@.len() implies !rl@[before_line(j)] by {
                    if j > hi {
                        assert(before_line(j) >= hi);
                    } else if j == i {
                    } else {
                        assert(j < i);
                    }
                }
            }
            return false;
        }
        i += 1;
    }
}

impl Planner {
    /// Sets a text (see `put_spec`).
    fn put(
        &mut self,
        g: &GlyphSpans,
        text: RichString,
        m: MarginKind,
        al: Alignment,
        top: usize,
        bi: usize,
        line: usize,
        lm: usize,
        revised: bool,
    ) -> (res: Result<(usize, Option<usize>), PlanError>)
        requires
            spans_wide(*g),
            lm < usize::MAX,
        ensures
            final(self).page == old(self).page,
            final(self).k == old(self).k,
            match (put_spec(planner_v(*old(self)), *g, runs(text), m, al, top as int, bi as int, line as int, lm as int, revised), res) {
                (Ok((s, l2, r)), Ok((l, rr))) => l == l2 && opt_v(rr) == r && planner_v(*final(self)) == s,
                (Err(e1), Err(e2)) => e1 == e2,
                _ => false,
            },
    {
        proof {
            lemma_runs_plain(text.elements@);
        }
        let plain = text.to_plain_chars();
        let span = g.span(m);
        let bps = break_points(&text, span);
        match place_lines(&plain, &bps, bi, line, lm) {
            None => Err(PlanError::NoCharacter),
            Some((lines, l2, r)) => {
                let ghost before = planner_v(*self);
                let b = Block { page: self.page, text, margin: m, align: al, top, revised, lines };
                self.blocks.push(b);
                proof {
                    assert(planner_v(*self).blocks =~= before.blocks.push(block_v(b)));
                }
                Ok((l2, r))
            },
        }
    }

    /// The parts of a speech (see `parts_spec`).
    fn parts(
        &mut self,
        g: &GlyphSpans,
        parts: &Vec<DialogueElement>,
        side: usize,
        di0: usize,
        rbp0: Option<usize>,
        line0: usize,
        max: usize,
        revised: bool,
    ) -> (res: Result<(Option<usize>, Option<usize>, usize, bool), PlanError>)
        requires
            spans_wide(*g),
            max < usize::MAX - 1,
        ensures
            final(self).page == old(self).page,
            final(self).k == old(self).k,
            match (parts_spec(planner_v(*old(self)), *g, parts@.map_values(|p: DialogueElement| part_v(p)), side as int, di0 as int, opt_v(rbp0), line0 as int, max as int, revised), res) {
                (Ok((s, rd, rb, l2, p2)), Ok((a, b, l, p))) => opt_v(a) == rd && opt_v(b) == rb && l == l2 && p == p2 && planner_v(*final(self)) == s,
                (Err(e1), Err(e2)) => e1 == e2,
                _ => false,
            },
    {
        let ghost pv = parts@.map_values(|p: DialogueElement| part_v(p));
        let ghost r0 = parts_spec(planner_v(*self), *g, pv, side as int, di0 as int, opt_v(rbp0), line0 as int, max as int, revised);
        let (mc, mp, ml) = margins_of(side);
        let mut di = di0;
        let mut rbp = rbp0;
        let mut line = line0;
        loop
            invariant
                spans_wide(*g),
                max < usize::MAX - 1,
                pv == parts@.map_values(|p: DialogueElement| part_v(p)),
                (mc, mp, ml) == speech_margins(side as int),
                self.page == old(self).page,
                self.k == old(self).k,
                parts_spec(planner_v(*self), *g, pv, side as int, di as int, opt_v(rbp), line as int, max as int, revised) == r0,
                r0 == parts_spec(planner_v(*old(self)), *g, pv, side as int, di0 as int, opt_v(rbp0), line0 as int, max as int, revised),
            decreases pv.len() - di, if line >= max { 0int } else { 1int },
        {
            if di >= parts.len() {
                return Ok((None, rbp, line, false));
            }
            if line >= max {
                let more = plain_rich(&chars_of("(MORE)"));
                match self.put(g, more, ml, Alignment::Centered, 40, 0, line, max + 1, revised) {
                    Err(e) => {
                        return Err(e);
                    },
                    Ok((l2, _)) => {
                        return Ok((Some(di), rbp, l2, true));
                    },
                }
            }
            let bi = match rbp {
                Some(i) => i,
                None => 0,
            };
            let (text, m) = match &parts[di] {
                DialogueElement::Parenthetical(r) => (copy_rich(r), mp),
                DialogueElement::Line(r) => (copy_rich(r), ml),
            };
            proof {
                assert(pv[di as int] == part_v(parts@[di as int]));
                lemma_put_mono(planner_v(*self), *g, runs(text), m, Alignment::LeftToRight, 40, bi as int, line as int, max as int, revised);
            }
            match self.put(g, text, m, Alignment::LeftToRight, 40, bi, line, max, revised) {
                Err(e) => {
                    return Err(e);
                },
                Ok((l2, r)) => {
                    if r.is_some() {
                        rbp = r;
                        line = l2;
                    } else {
                        di += 1;
                        rbp = None;
                        line = l2;
                    }
                },
            }
        }
    }

    /// A speech (see `dialogue_spec`).
    fn dialogue(
        &mut self,
        g: &GlyphSpans,
        d: &Dialogue,
        side: usize,
        rdlg: Option<usize>,
        rbp: Option<usize>,
        line: usize,
        max: usize,
        revised: bool,
    ) -> (res: Result<(Option<usize>, Option<usize>, usize, bool), PlanError>)
        requires
            spans_wide(*g),
            max < usize::MAX / 4,
            line <= max + 2,
        ensures
            final(self).page == old(self).page,
            final(self).k == old(self).k,
            match (dialogue_spec(planner_v(*old(self)), *g, dialogue_v(*d), side as int, opt_v(rdlg), opt_v(rbp), line as int, max as int, revised), res) {
                (Ok((s, rd, rb, l2, p2)), Ok((a, b, l, p))) => opt_v(a) == rd && opt_v(b) == rb && l == l2 && p == p2 && planner_v(*final(self)) == s,
                (Err(e1), Err(e2)) => e1 == e2,
                _ => false,
            },
    {
        let (mc, _, _) = margins_of(side);
        let mut name = copy_rich(&d.character);
        if rdlg.is_some() {
            append_rich(&mut name, plain_rich(&chars_of(" (CONT'D)")));
        } else {
            match &d.extension {
                Some(e) => {
                    append_rich(&mut name, plain_rich(&chars_of(" (")));
                    append_rich(&mut name, copy_rich(e));
                    append_rich(&mut name, plain_rich(&chars_of(")")));
                },
                None => {
                    proof {
                        assert(runs(name) + Seq::<(Seq<char>, Style)>::empty() =~= runs(name));
                    }
                },
            }
        }
        proof {
            assert(runs(name) =~= cue_runs(dialogue_v(*d), rdlg is Some));
            lemma_runs_plain(name.elements@);
        }
        let bps = break_points(&name, g.span(mc));
        if bps.len() >= max {
            return Err(PlanError::CharacterNameTooLong);
        }
        let nl = bps.len() + 1;
        if nl >= max {
            return Err(PlanError::CharacterNameTooLong);
        }
        if line + nl + 1 >= max {
            return Ok((rdlg, rbp, line, true));
        }
        let di = match rdlg {
            Some(i) => i,
            None => 0,
        };
        let bi = match rbp {
            Some(i) => i,
            None => 0,
        };
        let l1 = line + nl;
        let room = max - l1;
        let lines = speech_lines_of(g, &d.elements, side, di, bi);
        let lim = if lines.len() <= room {
            max
        } else {
            let k = split_point_of(&lines, room);
            if k > 0 {
                l1 + k
            } else if line == 0 {
                max
            } else {
                return Ok((rdlg, rbp, line, true));
            }
        };
        proof {
            assert(speech_limit(*g, dialogue_v(*d), side as int, opt_v(rdlg), opt_v(rbp), line as int, max as int) == Some(lim as int));
        }
        match self.put(g, name, mc, Alignment::LeftToRight, 40, 0, line, max, revised) {
            Err(e) => Err(e),
            Ok((l2, _)) => self.parts(g, &d.elements, side, di, rbp, l2, lim, revised),
        }
    }
}

/// The lines of a speech still to set (see `speech_lines`).
fn speech_lines_of(g: &GlyphSpans, parts: &Vec<DialogueElement>, side: usize, di: usize, bi: usize) -> (r: Vec<bool>)
    requires
        spans_wide(*g),
    ensures
        r@ == speech_lines(*g, parts@.map_values(|p: DialogueElement| part_v(p)), side as int, di as int, bi as int),
{
    let ghost pv = parts@.map_values(|p: DialogueElement| part_v(p));
    let (_, mp, ml) = margins_of(side);
    let mut out: Vec<bool> = Vec::new();
    let mut i = di;
    let mut b = bi;
    proof {
        assert(out@ + speech_lines(*g, pv, side as int, i as int, b as int) =~= speech_lines(*g, pv, side as int, di as int, bi as int));
    }
    while i < parts.len()
        invariant
            spans_wide(*g),
            pv == parts@.map_values(|p: DialogueElement| part_v(p)),
            (mp, ml) == ((speech_margins(side as int).1, speech_margins(side as int).2)),
            out@ + speech_lines(*g, pv, side as int, i as int, b as int) == speech_lines(*g, pv, side as int, di as int, bi as int),
        decreases parts.len() - i,
    {
        let (spoken, n) = match &parts[i] {
            DialogueElement::Parenthetical(r) => {
                proof {
                    lemma_runs_plain(r.elements@);
                }
                (false, break_points(r, g.span(mp)).len())
            },
            DialogueElement::Line(r) => {
                proof {
                    lemma_runs_plain(r.elements@);
                }
                (true, break_points(r, g.span(ml)).len())
            },
        };
        let ghost o = out@;
        let ghost cnt: int = n + 1 - b;
        proof {
            assert(pv[i as int] == part_v(parts@[i as int]));
        }
        if b <= n {
            out.push(spoken);
            let mut j = b;
            while j < n
                invariant
                    b <= j <= n,
                    out@ == o + Seq::new((j - b + 1) as nat, |x: int| spoken),
                decreases n - j,
            {
                out.push(spoken);
                j += 1;
                proof {
                    assert(out@ =~= o + Seq::new((j - b + 1) as nat, |x: int| spoken));
                }
            }
        } else {
            proof {
                assert(o + Seq::new(0, |x: int| spoken) =~= o);
            }
        }
        proof {
            let rest = speech_lines(*g, pv, side as int, i + 1, 0);
            let here = Seq::new(if cnt > 0 { cnt as nat } else { 0 }, |x: int| spoken);
            assert(out@ == o + here);
            assert(speech_lines(*g, pv, side as int, i as int, b as int) == here + rest);
            assert(o + (here + rest) =~= (o + here) + rest);
        }
        i += 1;
        b = 0;
    }
    proof {
        assert(out@ + Seq::<bool>::empty() =~= out@);
    }
    out
}

/// The latest break a speech allows (see `split_point`).
fn split_point_of(s: &Vec<bool>, k: usize) -> (r: usize)
    requires
        k <= s@.len(),
    ensures
        r == split_point(s@, k as int),
        r <= k,
{
    let mut total: usize = 0;
    let mut i: usize = 0;
    while i < s.len()
        invariant
            i <= s@.len(),
            total <= i,
            total == dialogue_count(s@.take(i as int)),
        decreases s@.len() - i,
    {
        proof {
            assert(s@.take(i + 1).drop_last() =~= s@.take(i as int));
        }
        if s[i] {
            total += 1;
        }
        i += 1;
    }
    proof {
        assert(s@.take(s@.len() as int) =~= s@);
    }
    let mut c: usize = 0;
    let mut best: usize = 0;
    let mut j: usize = 0;
    while j < k
        invariant
            j <= k <= s@.len(),
            c <= j,
            best <= j,
            c == dialogue_count(s@.take(j as int)),
            best == split_point(s@, j as int),
            total == dialogue_count(s@),
        decreases k - j,
    {
        proof {
            assert(s@.take(j + 1).drop_last() =~= s@.take(j as int));
        }
        if s[j] {
            c += 1;
        }
        j += 1;
        if c >= 2 && total >= c && total - c >= 2 {
            best = j;
        }
    }
    best
}

fn margins_of(side: usize) -> (r: (MarginKind, MarginKind, MarginKind))
    ensures
        r == speech_margins(side as int),
{
    if side == 0 {
        (MarginKind::Character, MarginKind::Parenthetical, MarginKind::DialogueLine)
    } else if side == 1 {
        (MarginKind::DualLeftCharacter, MarginKind::DualLeftParenthetical, MarginKind::DualLeftLine)
    } else {
        (MarginKind::DualRightCharacter, MarginKind::DualRightParenthetical, MarginKind::DualRightLine)
    }
}


spec fn result_is(spec: Result<(St, int, bool), PlanError>, p: Planner, res: Result<(usize, bool), PlanError>) -> bool {
    match (spec, res) {
        (Ok((s, l2, b)), Ok((l, bb))) => l == l2 && bb == b && planner_v(p) == s,
        (Err(e1), Err(e2)) => e1 == e2,
        _ => false,
    }
}

impl Planner {
    /// Sets a text, the line of it left over becoming the one to go on from.
    fn put_rest(
        &mut self,
        g: &GlyphSpans,
        text: RichString,
        m: MarginKind,
        al: Alignment,
        bi: usize,
        line: usize,
        max: usize,
        revised: bool,
    ) -> (res: Result<(usize, bool), PlanError>)
        requires
            spans_wide(*g),
            max < usize::MAX - 1,
        ensures
            final(self).page == old(self).page,
            final(self).k == old(self).k,
            result_is(put_rest(planner_v(*old(self)), *g, runs(text), m, al, bi as int, line as int, max as int, revised), *final(self), res),
    {
        match self.put(g, text, m, al, 40, bi, line, max, revised) {
            Err(e) => Err(e),
            Ok((l2, r)) => {
                self.rbp = r;
                Ok((l2, false))
            },
        }
    }

    /// A scene heading (see `heading_spec`).
    fn heading(&mut self, o: &LayoutOptions, slug: &RichString, number: &Option<String>, line: usize, bi: usize, revised: bool) -> (res: Result<(usize, bool), PlanError>)
        requires
            spans_wide(o.spans),
            o.max_lines < usize::MAX / 4,
            line < o.max_lines,
        ensures
            final(self).page == old(self).page,
            final(self).k == old(self).k,
            result_is(heading_spec(planner_v(*old(self)), *o, runs(*slug), match *number {
                Some(n) => Some(n@),
                None => None,
            }, line as int, bi as int, revised), *final(self), res),
    {
        let g = &o.spans;
        let max = o.max_lines;
        let bps = break_points(slug, g.span(MarginKind::Heading));
        proof {
            lemma_runs_plain(slug.elements@);
        }
        let remaining = max - line;
        if bps.len() >= remaining || remaining - bps.len() < 4 {
            return Ok((line, true));
        }
        match number {
            Some(n) => {
                let nr = plain_rich(&chars_of(n.as_str()));
                match self.put(g, nr, MarginKind::NumberLeft, Alignment::LeftToRight, 40, 0, line, max, revised) {
                    Err(e) => {
                        return Err(e);
                    },
                    Ok(_) => {},
                }
                if o.mirror_scene_numbers {
                    let nr2 = plain_rich(&chars_of(n.as_str()));
                    match self.put(g, nr2, MarginKind::NumberRight, Alignment::RightToLeft, 40, 0, line, max, revised) {
                        Err(e) => {
                            return Err(e);
                        },
                        Ok(_) => {},
                    }
                }
            },
            None => {},
        }
        let ghost before = planner_v(*self);
        let entry = OutlineEntry { title: slug.to_plain_string(), page: self.page, line };
        self.outline.push(entry);
        proof {
            assert(planner_v(*self).outline =~= before.outline.push(outline_v(entry)));
        }
        let rs = if o.bold_scene_headings {
            restyle(slug, true, false, false, false)
        } else {
            copy_rich(slug)
        };
        self.put_rest(g, rs, MarginKind::Heading, Alignment::LeftToRight, bi, line, max, revised)
    
    }

    /// Dual dialogue (see `dual_spec`).
    fn dual(&mut self, o: &LayoutOptions, d0: &Dialogue, d1: &Dialogue, line: usize, revised: bool) -> (res: Result<(usize, bool), PlanError>)
        requires
            spans_wide(o.spans),
            o.max_lines < usize::MAX / 4,
            line < o.max_lines,
        ensures
            final(self).page == old(self).page,
            final(self).k == old(self).k,
            result_is(dual_spec(planner_v(*old(self)), *o, dialogue_v(*d0), dialogue_v(*d1), line as int, revised), *final(self), res),
    {
        let g = &o.spans;
        let max = o.max_lines;
        let mut l1 = line;
        let mut p1 = false;
        if (self.rd0.is_none() && self.rd1.is_none()) || self.rd0.is_some() {
            let rd0 = self.rd0;
            let rb0 = self.rb0;
            match self.dialogue(g, d0, 1, rd0, rb0, line, max, revised) {
                Err(e) => {
                    return Err(e);
                },
                Ok((rd, rb, l2, prem)) => {
                    self.rd0 = rd;
                    self.rb0 = rb;
                    l1 = l2;
                    p1 = prem;
                },
            }
        }
        let mut l3 = l1;
        let mut p3 = p1;
        if (self.rd1.is_none() && self.rd0.is_none()) || self.rd1.is_some() {
            if p1 {
                l3 = if l1 > line {
                    l1
                } else {
                    line
                };
            } else {
                let rd1 = self.rd1;
                let rb1 = self.rb1;
                match self.dialogue(g, d1, 2, rd1, rb1, line, max, revised) {
                    Err(e) => {
                        return Err(e);
                    },
                    Ok((rd, rb, l2, prem)) => {
                        self.rd1 = rd;
                        self.rb1 = rb;
                        l3 = if l1 > l2 {
                            l1
                        } else {
                            l2
                        };
                        p3 = prem;
                    },
                }
            }
        }
        Ok((l3, self.rd0.is_some() || self.rd1.is_some() || p3))
    
    }

    /// One element (see `element_spec`).
    #[verifier::spinoff_prover]
    fn element(&mut self, o: &LayoutOptions, sp: &Span, line: usize, bi: usize, revised: bool) -> (res: Result<(usize, bool), PlanError>)
        requires
            spans_wide(o.spans),
            o.max_lines < usize::MAX / 4,
            line < o.max_lines,
            old(self).k < usize::MAX,
        ensures
            final(self).page == old(self).page,
            res matches Ok((_, b)) && !b ==> final(self).k == old(self).k,
            result_is(element_spec(planner_v(*old(self)), *o, element_v(sp.inner), line as int, bi as int, revised), *final(self), res),
    {
        reveal(element_spec);
        let g = &o.spans;
        let max = o.max_lines;
        match &sp.inner {
            Element::Heading { slug, number } => self.heading(o, slug, number, line, bi, revised),
            Element::Action(r) => self.put_rest(g, copy_rich(r), MarginKind::Action, Alignment::LeftToRight, bi, line, max, revised),
            Element::Dialogue(d) => {
                let rdlg = self.rdlg;
                let rbp = self.rbp;
                match self.dialogue(g, d, 0, rdlg, rbp, line, max, revised) {
                    Err(e) => Err(e),
                    Ok((rd, rb, l2, prem)) => {
                        self.rdlg = rd;
                        self.rbp = rb;
                        Ok((l2, rd.is_some() || prem))
                    },
                }
            },
            Element::DualDialogue(d0, d1) => self.dual(o, d0, d1, line, revised),
            Element::Lyrics(r) => self.put_rest(g, restyle(r, false, true, false, false), MarginKind::Lyrics, Alignment::Centered, bi, line, max, revised),
            Element::Transition(r) => self.put_rest(g, copy_rich(r), MarginKind::Transition, Alignment::RightToLeft, bi, line, max, revised),
            Element::CenteredText(r) => self.put_rest(g, copy_rich(r), MarginKind::Centered, Alignment::Centered, bi, line, max, revised),
            Element::Shot(r) => self.put_rest(g, restyle(r, o.bold_scene_headings, false, false, true), MarginKind::Action, Alignment::LeftToRight, bi, line, max, revised),
            Element::Synopsis(r) => {
                if o.synopses {
                    self.put_rest(g, restyle(r, true, true, o.sans, false), MarginKind::Synopsis, Alignment::LeftToRight, bi, line, max, revised)
                } else {
                    Ok((line, false))
                }
            },
            Element::Section(r) => {
                if o.sections {
                    self.put_rest(g, restyle(r, true, false, o.sans, true), MarginKind::Action, Alignment::LeftToRight, bi, line, max, revised)
                } else {
                    Ok((line, false))
                }
            },
            Element::PageBreak => {
                self.k = self.k + 1;
                Ok((line, true))
            },
        }
    }
}


spec fn unit_result_is(spec: Result<St, PlanError>, p: Planner, res: Result<(), PlanError>) -> bool {
    match (spec, res) {
        (Ok(s), Ok(())) => planner_v(p) == s,
        (Err(e1), Err(e2)) => e1 == e2,
        _ => false,
    }
}

impl Planner {
    /// The elements set on one page (see `page_body`).
    fn page(&mut self, o: &LayoutOptions, spans: &Vec<Span>, rl: &Vec<bool>) -> (res: Result<(), PlanError>)
        requires
            spans_wide(o.spans),
            o.max_lines < usize::MAX / 4,
        ensures
            final(self).page == old(self).page,
            unit_result_is(page_body(planner_v(*old(self)), *o, spans_v(spans@), rl@, 0), *final(self), res),
    {
        reveal(page_body);
        let ghost sv = spans_v(spans@);
        let ghost r0 = page_body(planner_v(*self), *o, sv, rl@, 0);
        let max = o.max_lines;
        let mut line: usize = 0;
        loop
            invariant
                spans_wide(o.spans),
                max == o.max_lines,
                max < usize::MAX / 4,
                line <= max + 3,
                sv == spans_v(spans@),
                r0 == page_body(planner_v(*old(self)), *o, sv, rl@, 0),
                page_body(planner_v(*self), *o, sv, rl@, line as int) == r0,
                self.page == old(self).page,
            decreases max + 3 - line,
        {
            proof {
                reveal(page_body);
            }
            if self.k >= spans.len() || line >= max {
                return Ok(());
            }
            let sp = &spans[self.k];
            proof {
                assert(sv[self.k as int] == span_v(spans@[self.k as int]));
            }
            let bi = match self.rbp {
                Some(i) => i,
                None => 0,
            };
            let is_dialogue = match &sp.inner {
                Element::Dialogue(_) => true,
                _ => false,
            };
            if !is_dialogue {
                self.rbp = None;
            }
            let revised = revised_of(rl, sp.start_line, sp.end_line);
            proof {
                lemma_element_mono(planner_v(*self), *o, sv[self.k as int].inner, line as int, bi as int, revised);
            }
            match self.element(o, sp, line, bi, revised) {
                Err(e) => {
                    return Err(e);
                },
                Ok((l2, brk)) => {
                    if brk {
                        return Ok(());
                    }
                    if self.rbp.is_none() {
                        self.k = self.k + 1;
                    }
                    if l2 >= max + 3 {
                        return Ok(());
                    }
                    line = l2 + 1;
                },
            }
        }
    }

    /// The pages, at most `fuel` more of them (see `pages_spec`).
    fn pages(&mut self, o: &LayoutOptions, spans: &Vec<Span>, rl: &Vec<bool>, fuel: usize) -> (res: Result<(), PlanError>)
        requires
            spans_wide(o.spans),
            o.max_lines < usize::MAX / 4,
            old(self).page + fuel < usize::MAX - 1,
        ensures
            unit_result_is(pages_spec(planner_v(*old(self)), *o, spans_v(spans@), rl@, fuel as nat), *final(self), res),
    {
        let ghost sv = spans_v(spans@);
        let ghost r0 = pages_spec(planner_v(*self), *o, sv, rl@, fuel as nat);
        let mut f = fuel;
        loop
            invariant
                spans_wide(o.spans),
                o.max_lines < usize::MAX / 4,
                self.page + f < usize::MAX - 1,
                sv == spans_v(spans@),
                r0 == pages_spec(planner_v(*old(self)), *o, sv, rl@, fuel as nat),
                pages_spec(planner_v(*self), *o, sv, rl@, f as nat) == r0,
            decreases f,
        {
            if self.k >= spans.len() {
                return Ok(());
            }
            if f == 0 {
                return Err(PlanError::TooManyPages);
            }
            if (!o.has_title_page && self.page > 0) || (o.has_title_page && self.page > 1) {
                let n = if o.has_title_page {
                    self.page
                } else {
                    self.page + 1
                };
                let mut t = decimal(n);
                push_all(&mut t, &chars_of("."));
                proof {
                    assert(t@ == page_number_text(*o, self.page as int));
                }
                let pn = plain_rich(&t);
                match self.put(&o.spans, pn, MarginKind::PageNumber, Alignment::RightToLeft, 36, 0, 0, 36, false) {
                    Err(e) => {
                        return Err(e);
                    },
                    Ok((_, r)) => {
                        if r.is_some() {
                            return Err(PlanError::PageNumberTooLong);
                        }
                    },
                }
            }
            match self.page(o, spans, rl) {
                Err(e) => {
                    return Err(e);
                },
                Ok(()) => {},
            }
            self.page = self.page + 1;
            f = f - 1;
        }
    }
}

proof fn lemma_pages_fuel(st: St, o: LayoutOptions, elems: Seq<SpanV>, rl: Seq<bool>, f: nat, f2: nat)
    requires
        f <= f2,
        pages_spec(st, o, elems, rl, f) != Err::<St, PlanError>(PlanError::TooManyPages),
    ensures
        pages_spec(st, o, elems, rl, f2) == pages_spec(st, o, elems, rl, f),
    decreases f,
{
    if st.k < 0 || st.k >= elems.len() {
    } else if f > 0 {
        let pn: Result<St, PlanError> = if numbered_page(o, st.page) {
            match put_spec(st, o.spans, plain_run(page_number_text(o, st.page)), MarginKind::PageNumber, Alignment::RightToLeft, 36, 0, 0, 36, false) {
                Err(e) => Err(e),
                Ok((s1, _, r)) => if r is Some {
                    Err(PlanError::PageNumberTooLong)
                } else {
                    Ok(s1)
                },
            }
        } else {
            Ok(st)
        };
        if let Ok(s1) = pn {
            if let Ok(s2) = page_body(s1, o, elems, rl, 0) {
                lemma_pages_fuel(St { page: s2.page + 1, ..s2 }, o, elems, rl, (f - 1) as nat, (f2 - 1) as nat);
            }
        }
    }
}

/// The page limit only caps the layout: a layout made within a limit (or
/// refused for any other reason) is what any larger limit gives too, so
/// wherever a limit suffices, the layout does not depend on it.
pub proof fn law_page_limit_only_caps(o: LayoutOptions, elems: Seq<SpanV>, rl: Seq<bool>, n: nat, m: nat)
    requires
        n <= m,
        plan_spec(o, elems, rl, n) != Err::<St, PlanError>(PlanError::TooManyPages),
    ensures
        plan_spec(o, elems, rl, m) == plan_spec(o, elems, rl, n),
{
    lemma_pages_fuel(plan_start(o), o, elems, rl, n, m);
}

/// The layout settings of an export of `sp` with the given spans.
pub open spec fn layout_options(ex: PdfExporter, sp: Screenplay, spans: GlyphSpans) -> LayoutOptions {
    LayoutOptions {
        synopses: ex.synopses,
        sections: ex.sections,
        bold_scene_headings: ex.bold_scene_headings,
        mirror_scene_numbers: ex.mirror_scene_numbers != MirrorOption::Off,
        sans: ex.export_font@ == "courier_prime_sans"@,
        has_title_page: sp.titlepage is Some,
        max_lines: max_lines_spec(ex.paper_size) as usize,
        spans,
    }
}

impl PdfExporter {
    /// The layout of `screenplay` on pages of the exporter's paper size,
    /// with the characters that fit between each pair of margins given by
    /// `spans`: every element in order, scene headings not left alone at
    /// the foot of a page, speeches going on over a page break with
    /// `(MORE)` and `(CONT'D)` where two lines of dialogue at least stay on
    /// each side of the break (else they move whole to the next page), and
    /// page numbers. At most `page_limit`
    /// pages follow the title page; a layout that would need more is
    /// refused.
    pub fn plan_pages(&self, screenplay: &Screenplay, spans: &GlyphSpans, page_limit: usize) -> (r: Result<Plan, PlanError>)
        requires
            spans_wide(*spans),
            self.paper_size.y >= top_margin_spec() + bottom_margin_spec(self.paper_size) + FONT_SIZE,
            page_limit < usize::MAX - 4,
        ensures
            match (plan_spec(layout_options(*self, *screenplay, *spans), spans_v(screenplay.elements@), self.revised_lines@, page_limit as nat), r) {
                (Ok(s), Ok(p)) => p.pages == s.page && p.blocks@.map_values(|b: Block| block_v(b)) == s.blocks
                    && p.outline@.map_values(|e: OutlineEntry| outline_v(e)) == s.outline,
                (Err(e1), Err(e2)) => e1 == e2,
                _ => false,
            },
    {
        let max = self.paper_size.max_lines_per_page();
        let sans = eq_str(&chars_of(self.export_font.as_str()), "courier_prime_sans");
        let o = LayoutOptions {
            synopses: self.synopses,
            sections: self.sections,
            bold_scene_headings: self.bold_scene_headings,
            mirror_scene_numbers: self.mirror_scene_numbers != MirrorOption::Off,
            sans,
            has_title_page: screenplay.titlepage.is_some(),
            max_lines: max,
            spans: *spans,
        };
        proof {
            assert(o == layout_options(*self, *screenplay, *spans));
        }
        let mut p = Planner {
            k: 0,
            page: if screenplay.titlepage.is_some() {
                1
            } else {
                0
            },
            rbp: None,
            rdlg: None,
            rd0: None,
            rd1: None,
            rb0: None,
            rb1: None,
            blocks: Vec::new(),
            outline: Vec::new(),
        };
        proof {
            assert(p.blocks@.map_values(|b: Block| block_v(b)) =~= Seq::<BlockV>::empty());
            assert(p.outline@.map_values(|e: OutlineEntry| outline_v(e)) =~= Seq::<(Seq<char>, int, int)>::empty());
            assert(planner_v(p) == plan_start(o));
        }
        match p.pages(&o, &screenplay.elements, &self.revised_lines, page_limit) {
            Err(e) => Err(e),
            Ok(()) => Ok(Plan { pages: p.page, blocks: p.blocks, outline: p.outline }),
        }
    }
}


/// How far down a page the lines of a text may go: page numbers stay in
/// the top margin's 36 lines, everything else within the page's lines
/// (one more for `(MORE)`).
pub open spec fn line_bound(m: MarginKind, max: int) -> int {
    if m == MarginKind::PageNumber {
        36
    } else {
        max + 1
    }
}

/// A block's lines follow one another down the page, within its bound.
pub open spec fn block_ok(b: BlockV, max: int) -> bool {
    forall|j: int|
        0 <= j < b.lines.len() ==> (#[trigger] b.lines[j]).line < line_bound(b.margin, max) && (j > 0 ==> b.lines[j].line
            == b.lines[j - 1].line + 1)
}

pub open spec fn blocks_ok(bs: Seq<BlockV>, max: int) -> bool {
    forall|i: int| 0 <= i < bs.len() ==> block_ok(#[trigger] bs[i], max)
}

proof fn lemma_place_lines(plain: Seq<char>, bps: Seq<BreakPoint>, bi: int, line: int, lm: int)
    requires
        0 <= line,
        lm <= usize::MAX,
    ensures
        place_spec(plain, bps, bi, line, lm) matches Some((ls, l2, r)) ==> forall|j: int|
            0 <= j < ls.len() ==> (#[trigger] ls[j]).line == line + j && line + j < lm,
    decreases bps.len() + 1 - bi,
{
    if 0 <= bi <= bps.len() && line < lm {
        lemma_place_lines(plain, bps, bi + 1, line + 1, lm);
        match place_spec(plain, bps, bi, line, lm) {
            Some((ls, l2, r)) => {
                match (line_at(plain, bps, bi, line), place_spec(plain, bps, bi + 1, line + 1, lm)) {
                    (Some(pl), Some((rest, l3, r3))) => {
                        assert(ls == seq![pl] + rest);
                        assert forall|j: int| 0 <= j < ls.len() implies (#[trigger] ls[j]).line == line + j && line + j < lm by {
                            if j > 0 {
                                assert(ls[j] == rest[j - 1]);
                            }
                        }
                    },
                    _ => {},
                }
            },
            None => {},
        }
    }
}

proof fn lemma_put_ok(st: St, g: GlyphSpans, rs: Seq<(Seq<char>, Style)>, m: MarginKind, al: Alignment, top: int, bi: int, line: int, lm: int, revised: bool, max: int)
    requires
        blocks_ok(st.blocks, max),
        0 <= line,
        lm <= line_bound(m, max),
        max + 1 <= usize::MAX,
    ensures
        put_spec(st, g, rs, m, al, top, bi, line, lm, revised) matches Ok((s2, l2, r)) ==> blocks_ok(s2.blocks, max) && s2.page == st.page,
{
    let plain = runs_plain(rs);
    lemma_place_lines(plain, break_points_spec(plain, span_of(g, m)), bi, line, lm);
    match put_spec(st, g, rs, m, al, top, bi, line, lm, revised) {
        Ok((s2, l2, r)) => {
            let b = s2.blocks.last();
            assert(s2.blocks == st.blocks.push(b));
            assert(block_ok(b, max));
            assert forall|i: int| 0 <= i < s2.blocks.len() implies block_ok(#[trigger] s2.blocks[i], max) by {
                if i < st.blocks.len() {
                    assert(s2.blocks[i] == st.blocks[i]);
                }
            }
        },
        Err(_) => {},
    }
}

proof fn lemma_parts_ok(st: St, g: GlyphSpans, parts: Seq<DialogueElementV>, side: int, di: int, rbp: Option<int>, line: int, max: int, revised: bool, bound: int)
    requires
        blocks_ok(st.blocks, bound),
        0 <= line,
        max <= bound,
        bound + 1 < usize::MAX,
    ensures
        parts_spec(st, g, parts, side, di, rbp, line, max, revised) matches Ok((s2, rd, rb, l2, p)) ==> blocks_ok(s2.blocks, bound),
    decreases parts.len() - di, if line >= max { 0int } else { 1int },
{
    let (mc, mp, ml) = speech_margins(side);
    if di >= parts.len() || di < 0 {
    } else if line >= max {
        lemma_put_ok(st, g, plain_run("(MORE)"@), ml, Alignment::Centered, 40, 0, line, max + 1, revised, bound);
    } else {
        let bi = match rbp {
            Some(i) => i,
            None => 0,
        };
        let (rs, m) = match parts[di] {
            DialogueElementV::Parenthetical(r) => (r, mp),
            DialogueElementV::Line(r) => (r, ml),
        };
        lemma_put_ok(st, g, rs, m, Alignment::LeftToRight, 40, bi, line, max, revised, bound);
        lemma_put_mono(st, g, rs, m, Alignment::LeftToRight, 40, bi, line, max, revised);
        match put_spec(st, g, rs, m, Alignment::LeftToRight, 40, bi, line, max, revised) {
            Err(e) => {},
            Ok((s2, l2, r)) => {
                if r is Some {
                    lemma_parts_ok(s2, g, parts, side, di, r, l2, max, revised, bound);
                } else {
                    lemma_parts_ok(s2, g, parts, side, di + 1, None, l2, max, revised, bound);
                }
            },
        }
    }
}

proof fn lemma_dialogue_ok(st: St, g: GlyphSpans, d: DialogueV, side: int, rdlg: Option<int>, rbp: Option<int>, line: int, max: int, revised: bool)
    requires
        blocks_ok(st.blocks, max),
        0 <= line,
        max + 1 < usize::MAX,
    ensures
        dialogue_spec(st, g, d, side, rdlg, rbp, line, max, revised) matches Ok((s2, rd, rb, l2, p)) ==> blocks_ok(s2.blocks, max),
{
    let (mc, _, _) = speech_margins(side);
    let name = cue_runs(d, rdlg is Some);
    let di = match rdlg {
        Some(i) => i,
        None => 0,
    };
    lemma_speech_limit_le(g, d, side, rdlg, rbp, line, max);
    if let Some(lim) = speech_limit(g, d, side, rdlg, rbp, line, max) {
        lemma_put_ok(st, g, name, mc, Alignment::LeftToRight, 40, 0, line, max, revised, max);
        lemma_put_mono(st, g, name, mc, Alignment::LeftToRight, 40, 0, line, max, revised);
        if let Ok((s1, l1, _)) = put_spec(st, g, name, mc, Alignment::LeftToRight, 40, 0, line, max, revised) {
            lemma_parts_ok(s1, g, d.elements, side, di, rbp, l1, lim, revised, max);
        }
    }
}

proof fn lemma_element_ok(st: St, o: LayoutOptions, e: ElementV, line: int, bi: int, revised: bool)
    requires
        blocks_ok(st.blocks, o.max_lines as int),
        0 <= line,
        o.max_lines + 1 < usize::MAX,
    ensures
        element_spec(st, o, e, line, bi, revised) matches Ok((s2, l2, b)) ==> blocks_ok(s2.blocks, o.max_lines as int),
{
    reveal(element_spec);
    let g = o.spans;
    let max = o.max_lines as int;
    match e {
        ElementV::Heading(slug, number) => {
            match number {
                Some(n) => {
                    lemma_put_ok(st, g, plain_run(n), MarginKind::NumberLeft, Alignment::LeftToRight, 40, 0, line, max, revised, max);
                    match put_spec(st, g, plain_run(n), MarginKind::NumberLeft, Alignment::LeftToRight, 40, 0, line, max, revised) {
                        Ok((s1, _, _)) => {
                            lemma_put_ok(s1, g, plain_run(n), MarginKind::NumberRight, Alignment::RightToLeft, 40, 0, line, max, revised, max);
                        },
                        Err(_) => {},
                    }
                },
                None => {},
            }
            let numbered: Result<St, PlanError> = match number {
                Some(n) => match put_spec(st, g, plain_run(n), MarginKind::NumberLeft, Alignment::LeftToRight, 40, 0, line, max, revised) {
                    Err(e) => Err(e),
                    Ok((s1, _, _)) => if o.mirror_scene_numbers {
                        match put_spec(s1, g, plain_run(n), MarginKind::NumberRight, Alignment::RightToLeft, 40, 0, line, max, revised) {
                            Err(e) => Err(e),
                            Ok((s2, _, _)) => Ok(s2),
                        }
                    } else {
                        Ok(s1)
                    },
                },
                None => Ok(st),
            };
            match numbered {
                Err(e) => {},
                Ok(s3) => {
                    let s4 = St { outline: s3.outline.push((runs_plain(slug), st.page, line)), ..s3 };
                    let rs = if o.bold_scene_headings { restyle_spec(slug, true, false, false, false) } else { slug };
                    lemma_put_ok(s4, g, rs, MarginKind::Heading, Alignment::LeftToRight, 40, bi, line, max, revised, max);
                },
            }
        },
        ElementV::Action(r) => lemma_put_ok(st, g, r, MarginKind::Action, Alignment::LeftToRight, 40, bi, line, max, revised, max),
        ElementV::Dialogue(d) => lemma_dialogue_ok(st, g, d, 0, st.rdlg, st.rbp, line, max, revised),
        ElementV::DualDialogue(d0, d1) => {
            lemma_dialogue_ok(st, g, d0, 1, st.rd0, st.rb0, line, max, revised);
            let first: Result<(St, int, bool), PlanError> = if (st.rd0 is None && st.rd1 is None) || st.rd0 is Some {
                match dialogue_spec(st, g, d0, 1, st.rd0, st.rb0, line, max, revised) {
                    Err(e) => Err(e),
                    Ok((s2, rd, rb, l2, prem)) => Ok((St { rd0: rd, rb0: rb, ..s2 }, l2, prem)),
                }
            } else {
                Ok((st, line, false))
            };
            match first {
                Err(e) => {},
                Ok((s1, l1, p1)) => {
                    lemma_dialogue_ok(s1, g, d1, 2, s1.rd1, s1.rb1, line, max, revised);
                },
            }
        },
        ElementV::Lyrics(r) => lemma_put_ok(st, g, restyle_spec(r, false, true, false, false), MarginKind::Lyrics, Alignment::Centered, 40, bi, line, max, revised, max),
        ElementV::Transition(r) => lemma_put_ok(st, g, r, MarginKind::Transition, Alignment::RightToLeft, 40, bi, line, max, revised, max),
        ElementV::CenteredText(r) => lemma_put_ok(st, g, r, MarginKind::Centered, Alignment::Centered, 40, bi, line, max, revised, max),
        ElementV::Shot(r) => lemma_put_ok(st, g, restyle_spec(r, o.bold_scene_headings, false, false, true), MarginKind::Action, Alignment::LeftToRight, 40, bi, line, max, revised, max),
        ElementV::Synopsis(r) => lemma_put_ok(st, g, restyle_spec(r, true, true, o.sans, false), MarginKind::Synopsis, Alignment::LeftToRight, 40, bi, line, max, revised, max),
        ElementV::Section(r) => lemma_put_ok(st, g, restyle_spec(r, true, false, o.sans, true), MarginKind::Action, Alignment::LeftToRight, 40, bi, line, max, revised, max),
        ElementV::PageBreak => {},
    }
}

proof fn lemma_page_body_ok(st: St, o: LayoutOptions, elems: Seq<SpanV>, rl: Seq<bool>, line: int)
    requires
        blocks_ok(st.blocks, o.max_lines as int),
        0 <= line,
        o.max_lines + 1 < usize::MAX,
    ensures
        page_body(st, o, elems, rl, line) matches Ok(s2) ==> blocks_ok(s2.blocks, o.max_lines as int),
    decreases o.max_lines + 3 - line,
{
    reveal(page_body);
    if st.k < 0 || st.k >= elems.len() || line >= o.max_lines || line < 0 {
    } else {
        let sp = elems[st.k];
        let bi = match st.rbp {
            Some(i) => i,
            None => 0,
        };
        let rbp1 = if sp.inner is Dialogue { st.rbp } else { None };
        let st1 = St { rbp: rbp1, ..st };
        let revised = revised_in(rl, sp.start, sp.end);
        lemma_element_ok(st1, o, sp.inner, line, bi, revised);
        lemma_element_mono(st1, o, sp.inner, line, bi, revised);
        match element_spec(st1, o, sp.inner, line, bi, revised) {
            Err(e) => {},
            Ok((st2, l2, brk)) => {
                if !brk {
                    let st3 = if st2.rbp is Some { st2 } else { St { k: st2.k + 1, ..st2 } };
                    if l2 + 1 <= o.max_lines + 3 {
                        lemma_page_body_ok(st3, o, elems, rl, l2 + 1);
                    }
                }
            },
        }
    }
}

proof fn lemma_pages_ok(st: St, o: LayoutOptions, elems: Seq<SpanV>, rl: Seq<bool>, fuel: nat)
    requires
        blocks_ok(st.blocks, o.max_lines as int),
        o.max_lines + 1 < usize::MAX,
    ensures
        pages_spec(st, o, elems, rl, fuel) matches Ok(s2) ==> blocks_ok(s2.blocks, o.max_lines as int),
    decreases fuel,
{
    if st.k < 0 || st.k >= elems.len() || fuel == 0 {
    } else {
        let max = o.max_lines as int;
        lemma_put_ok(st, o.spans, plain_run(page_number_text(o, st.page)), MarginKind::PageNumber, Alignment::RightToLeft, 36, 0, 0, 36, false, max);
        let pn: Result<St, PlanError> = if numbered_page(o, st.page) {
            match put_spec(st, o.spans, plain_run(page_number_text(o, st.page)), MarginKind::PageNumber, Alignment::RightToLeft, 36, 0, 0, 36, false) {
                Err(e) => Err(e),
                Ok((s1, _, r)) => if r is Some {
                    Err(PlanError::PageNumberTooLong)
                } else {
                    Ok(s1)
                },
            }
        } else {
            Ok(st)
        };
        match pn {
            Err(e) => {},
            Ok(s1) => {
                lemma_page_body_ok(s1, o, elems, rl, 0);
                match page_body(s1, o, elems, rl, 0) {
                    Err(e) => {},
                    Ok(s2) => {
                        lemma_pages_ok(St { page: s2.page + 1, ..s2 }, o, elems, rl, (fuel - 1) as nat);
                    },
                }
            },
        }
    }
}

/// The layout keeps every text on its page: the lines of a text follow one
/// another down the page, page numbers stay within the top margin's 36
/// lines, and no other line goes below the page's last line (the line
/// after it holds only a speech's `(MORE)`).
pub proof fn law_lines_stay_on_page(o: LayoutOptions, elems: Seq<SpanV>, rl: Seq<bool>, page_limit: nat)
    requires
        o.max_lines + 1 < usize::MAX,
    ensures
        plan_spec(o, elems, rl, page_limit) matches Ok(st) ==> blocks_ok(st.blocks, o.max_lines as int),
{
    lemma_pages_ok(plan_start(o), o, elems, rl, page_limit);
}

/// `b` goes on from `a`: the same page, and the blocks of `a` first.
pub open spec fn extends(a: St, b: St) -> bool {
    &&& b.page == a.page
    &&& a.blocks.len() <= b.blocks.len()
    &&& forall|i: int| 0 <= i < a.blocks.len() ==> #[trigger] b.blocks[i] == a.blocks[i]
}

proof fn lemma_extends_trans(a: St, b: St, c: St)
    requires
        extends(a, b),
        extends(b, c),
    ensures
        extends(a, c),
{
    assert forall|i: int| 0 <= i < a.blocks.len() implies #[trigger] c.blocks[i] == a.blocks[i] by {
        assert(c.blocks[i] == b.blocks[i]);
    }
}

proof fn lemma_put_extends(st: St, g: GlyphSpans, rs: Seq<(Seq<char>, Style)>, m: MarginKind, al: Alignment, top: int, bi: int, line: int, lm: int, revised: bool)
    ensures
        put_spec(st, g, rs, m, al, top, bi, line, lm, revised) matches Ok((s2, l2, r)) ==> extends(st, s2),
{
}

proof fn lemma_parts_extends(st: St, g: GlyphSpans, parts: Seq<DialogueElementV>, side: int, di: int, rbp: Option<int>, line: int, max: int, revised: bool)
    ensures
        parts_spec(st, g, parts, side, di, rbp, line, max, revised) matches Ok((s2, rd, rb, l2, p)) ==> extends(st, s2),
    decreases parts.len() - di, if line >= max { 0int } else { 1int },
{
    let (mc, mp, ml) = speech_margins(side);
    if di >= parts.len() || di < 0 {
    } else if line >= max {
        lemma_put_extends(st, g, plain_run("(MORE)"@), ml, Alignment::Centered, 40, 0, line, max + 1, revised);
    } else {
        let bi = match rbp {
            Some(i) => i,
            None => 0,
        };
        let (rs, m) = match parts[di] {
            DialogueElementV::Parenthetical(r) => (r, mp),
            DialogueElementV::Line(r) => (r, ml),
        };
        lemma_put_extends(st, g, rs, m, Alignment::LeftToRight, 40, bi, line, max, revised);
        lemma_put_mono(st, g, rs, m, Alignment::LeftToRight, 40, bi, line, max, revised);
        match put_spec(st, g, rs, m, Alignment::LeftToRight, 40, bi, line, max, revised) {
            Err(e) => {},
            Ok((s2, l2, r)) => {
                let next = if r is Some { r } else { None };
                let ndi = if r is Some { di } else { di + 1 };
                lemma_parts_extends(s2, g, parts, side, ndi, next, l2, max, revised);
                match parts_spec(s2, g, parts, side, ndi, next, l2, max, revised) {
                    Ok((s3, _, _, _, _)) => lemma_extends_trans(st, s2, s3),
                    Err(_) => {},
                }
            },
        }
    }
}

proof fn lemma_dialogue_extends(st: St, g: GlyphSpans, d: DialogueV, side: int, rdlg: Option<int>, rbp: Option<int>, line: int, max: int, revised: bool)
    ensures
        dialogue_spec(st, g, d, side, rdlg, rbp, line, max, revised) matches Ok((s2, rd, rb, l2, p)) ==> extends(st, s2),
{
    let (mc, _, _) = speech_margins(side);
    let name = cue_runs(d, rdlg is Some);
    let di = match rdlg {
        Some(i) => i,
        None => 0,
    };
    if let Some(lim) = speech_limit(g, d, side, rdlg, rbp, line, max) {
        lemma_put_extends(st, g, name, mc, Alignment::LeftToRight, 40, 0, line, max, revised);
        if let Ok((s1, l1, _)) = put_spec(st, g, name, mc, Alignment::LeftToRight, 40, 0, line, max, revised) {
            lemma_parts_extends(s1, g, d.elements, side, di, rbp, l1, lim, revised);
            if let Ok((s3, _, _, _, _)) = parts_spec(s1, g, d.elements, side, di, rbp, l1, lim, revised) {
                lemma_extends_trans(st, s1, s3);
            }
        }
    }
}

proof fn lemma_element_extends(st: St, o: LayoutOptions, e: ElementV, line: int, bi: int, revised: bool)
    ensures
        element_spec(st, o, e, line, bi, revised) matches Ok((s2, l2, b)) ==> extends(st, s2),
{
    reveal(element_spec);
    let g = o.spans;
    let max = o.max_lines as int;
    match e {
        ElementV::Heading(slug, number) => {
            let numbered: Result<St, PlanError> = match number {
                Some(n) => match put_spec(st, g, plain_run(n), MarginKind::NumberLeft, Alignment::LeftToRight, 40, 0, line, max, revised) {
                    Err(e) => Err(e),
                    Ok((s1, _, _)) => if o.mirror_scene_numbers {
                        match put_spec(s1, g, plain_run(n), MarginKind::NumberRight, Alignment::RightToLeft, 40, 0, line, max, revised) {
                            Err(e) => Err(e),
                            Ok((s2, _, _)) => Ok(s2),
                        }
                    } else {
                        Ok(s1)
                    },
                },
                None => Ok(st),
            };
            match number {
                Some(n) => {
                    lemma_put_extends(st, g, plain_run(n), MarginKind::NumberLeft, Alignment::LeftToRight, 40, 0, line, max, revised);
                    match put_spec(st, g, plain_run(n), MarginKind::NumberLeft, Alignment::LeftToRight, 40, 0, line, max, revised) {
                        Ok((s1, _, _)) => {
                            lemma_put_extends(s1, g, plain_run(n), MarginKind::NumberRight, Alignment::RightToLeft, 40, 0, line, max, revised);
                            match put_spec(s1, g, plain_run(n), MarginKind::NumberRight, Alignment::RightToLeft, 40, 0, line, max, revised) {
                                Ok((s2, _, _)) => lemma_extends_trans(st, s1, s2),
                                Err(_) => {},
                            }
                        },
                        Err(_) => {},
                    }
                },
                None => {},
            }
            match numbered {
                Err(e) => {},
                Ok(s3) => {
                    let s4 = St { outline: s3.outline.push((runs_plain(slug), st.page, line)), ..s3 };
                    let rs = if o.bold_scene_headings { restyle_spec(slug, true, false, false, false) } else { slug };
                    lemma_put_extends(s4, g, rs, MarginKind::Heading, Alignment::LeftToRight, 40, bi, line, max, revised);
                    match put_spec(s4, g, rs, MarginKind::Heading, Alignment::LeftToRight, 40, bi, line, max, revised) {
                        Ok((s5, _, _)) => {
                            assert(extends(st, s4));
                            lemma_extends_trans(st, s4, s5);
                        },
                        Err(_) => {},
                    }
                },
            }
        },
        ElementV::Dialogue(d) => lemma_dialogue_extends(st, g, d, 0, st.rdlg, st.rbp, line, max, revised),
        ElementV::DualDialogue(d0, d1) => {
            lemma_dialogue_extends(st, g, d0, 1, st.rd0, st.rb0, line, max, revised);
            let first: Result<(St, int, bool), PlanError> = if (st.rd0 is None && st.rd1 is None) || st.rd0 is Some {
                match dialogue_spec(st, g, d0, 1, st.rd0, st.rb0, line, max, revised) {
                    Err(e) => Err(e),
                    Ok((s2, rd, rb, l2, prem)) => Ok((St { rd0: rd, rb0: rb, ..s2 }, l2, prem)),
                }
            } else {
                Ok((st, line, false))
            };
            match first {
                Err(e) => {},
                Ok((s1, l1, p1)) => {
                    assert(extends(st, s1));
                    lemma_dialogue_extends(s1, g, d1, 2, s1.rd1, s1.rb1, line, max, revised);
                    match dialogue_spec(s1, g, d1, 2, s1.rd1, s1.rb1, line, max, revised) {
                        Ok((s2, _, _, _, _)) => lemma_extends_trans(st, s1, s2),
                        Err(_) => {},
                    }
                },
            }
        },
        ElementV::Action(r) => lemma_put_extends(st, g, r, MarginKind::Action, Alignment::LeftToRight, 40, bi, line, max, revised),
        ElementV::Lyrics(r) => lemma_put_extends(st, g, restyle_spec(r, false, true, false, false), MarginKind::Lyrics, Alignment::Centered, 40, bi, line, max, revised),
        ElementV::Transition(r) => lemma_put_extends(st, g, r, MarginKind::Transition, Alignment::RightToLeft, 40, bi, line, max, revised),
        ElementV::CenteredText(r) => lemma_put_extends(st, g, r, MarginKind::Centered, Alignment::Centered, 40, bi, line, max, revised),
        ElementV::Shot(r) => lemma_put_extends(st, g, restyle_spec(r, o.bold_scene_headings, false, false, true), MarginKind::Action, Alignment::LeftToRight, 40, bi, line, max, revised),
        ElementV::Synopsis(r) => lemma_put_extends(st, g, restyle_spec(r, true, true, o.sans, false), MarginKind::Synopsis, Alignment::LeftToRight, 40, bi, line, max, revised),
        ElementV::Section(r) => lemma_put_extends(st, g, restyle_spec(r, true, false, o.sans, true), MarginKind::Action, Alignment::LeftToRight, 40, bi, line, max, revised),
        ElementV::PageBreak => {},
    }
}

proof fn lemma_page_body_extends(st: St, o: LayoutOptions, elems: Seq<SpanV>, rl: Seq<bool>, line: int)
    ensures
        page_body(st, o, elems, rl, line) matches Ok(s2) ==> extends(st, s2),
    decreases o.max_lines + 3 - line,
{
    reveal(page_body);
    if st.k < 0 || st.k >= elems.len() || line >= o.max_lines || line < 0 {
    } else {
        let sp = elems[st.k];
        let bi = match st.rbp {
            Some(i) => i,
            None => 0,
        };
        let rbp1 = if sp.inner is Dialogue { st.rbp } else { None };
        let st1 = St { rbp: rbp1, ..st };
        let revised = revised_in(rl, sp.start, sp.end);
        lemma_element_extends(st1, o, sp.inner, line, bi, revised);
        lemma_element_mono(st1, o, sp.inner, line, bi, revised);
        match element_spec(st1, o, sp.inner, line, bi, revised) {
            Err(e) => {},
            Ok((st2, l2, brk)) => {
                assert(extends(st, st1));
                lemma_extends_trans(st, st1, st2);
                if !brk {
                    let st3 = if st2.rbp is Some { st2 } else { St { k: st2.k + 1, ..st2 } };
                    assert(extends(st2, st3));
                    lemma_extends_trans(st, st2, st3);
                    if l2 + 1 <= o.max_lines + 3 {
                        lemma_page_body_extends(st3, o, elems, rl, l2 + 1);
                        match page_body(st3, o, elems, rl, l2 + 1) {
                            Ok(s4) => lemma_extends_trans(st, st3, s4),
                            Err(_) => {},
                        }
                    }
                }
            },
        }
    }
}

/// The blocks `bs` hold the page number of page `p`.
pub open spec fn numbered_block(bs: Seq<BlockV>, o: LayoutOptions, p: int) -> bool {
    exists|i: int|
        0 <= i < bs.len() && (#[trigger] bs[i]).page == p && bs[i].margin == MarginKind::PageNumber
            && bs[i].text == plain_run(page_number_text(o, p))
}

proof fn lemma_numbered_kept(a: St, b: St, o: LayoutOptions, p: int)
    requires
        extends(a, b),
        numbered_block(a.blocks, o, p),
    ensures
        numbered_block(b.blocks, o, p),
{
    let i = choose|i: int|
        0 <= i < a.blocks.len() && (#[trigger] a.blocks[i]).page == p && a.blocks[i].margin == MarginKind::PageNumber
            && a.blocks[i].text == plain_run(page_number_text(o, p));
    assert(b.blocks[i] == a.blocks[i]);
}

proof fn lemma_pages_numbered(st: St, o: LayoutOptions, elems: Seq<SpanV>, rl: Seq<bool>, fuel: nat, lo: int)
    requires
        forall|p: int| lo <= p < st.page && numbered_page(o, p) ==> numbered_block(st.blocks, o, p),
    ensures
        pages_spec(st, o, elems, rl, fuel) matches Ok(s2) ==> forall|p: int|
            lo <= p < s2.page && numbered_page(o, p) ==> numbered_block(s2.blocks, o, p),
    decreases fuel,
{
    if st.k < 0 || st.k >= elems.len() || fuel == 0 {
    } else {
        let pn: Result<St, PlanError> = if numbered_page(o, st.page) {
            match put_spec(st, o.spans, plain_run(page_number_text(o, st.page)), MarginKind::PageNumber, Alignment::RightToLeft, 36, 0, 0, 36, false) {
                Err(e) => Err(e),
                Ok((s1, _, r)) => if r is Some {
                    Err(PlanError::PageNumberTooLong)
                } else {
                    Ok(s1)
                },
            }
        } else {
            Ok(st)
        };
        lemma_put_extends(st, o.spans, plain_run(page_number_text(o, st.page)), MarginKind::PageNumber, Alignment::RightToLeft, 36, 0, 0, 36, false);
        match pn {
            Err(e) => {},
            Ok(s1) => {
                assert(extends(st, s1));
                assert forall|p: int| lo <= p <= st.page && numbered_page(o, p) implies numbered_block(s1.blocks, o, p) by {
                    if p < st.page {
                        lemma_numbered_kept(st, s1, o, p);
                    } else {
                        let k = st.blocks.len() as int;
                        assert(s1.blocks[k].page == p);
                    }
                }
                lemma_page_body_extends(s1, o, elems, rl, 0);
                match page_body(s1, o, elems, rl, 0) {
                    Err(e) => {},
                    Ok(s2) => {
                        let s3 = St { page: s2.page + 1, ..s2 };
                        assert forall|p: int| lo <= p < s3.page && numbered_page(o, p) implies numbered_block(s3.blocks, o, p) by {
                            lemma_numbered_kept(s1, s2, o, p);
                        }
                        lemma_pages_numbered(s3, o, elems, rl, (fuel - 1) as nat, lo);
                    },
                }
            },
        }
    }
}

/// Every page of the script after its first carries its page number,
/// counted from the first page of the script (a title page is not
/// counted): `2.`, `3.`, and so on.
pub proof fn law_page_numbers(o: LayoutOptions, elems: Seq<SpanV>, rl: Seq<bool>, page_limit: nat)
    ensures
        plan_spec(o, elems, rl, page_limit) matches Ok(st) ==> forall|p: int|
            plan_start(o).page <= p < st.page && numbered_page(o, p) ==> numbered_block(st.blocks, o, p),
{
    lemma_pages_numbered(plan_start(o), o, elems, rl, page_limit, plan_start(o).page);
}

/// A scene heading set on a page leaves three lines under it (a blank line
/// and two lines of what follows) before the page's last line.
pub open spec fn heading_room(b: BlockV, max: int) -> bool {
    b.margin == MarginKind::Heading && b.lines.len() > 0 ==> b.lines[0].line + b.lines.len() + 3 <= max
}

pub open spec fn headings_ok(bs: Seq<BlockV>, max: int) -> bool {
    forall|i: int| 0 <= i < bs.len() ==> heading_room(#[trigger] bs[i], max)
}

proof fn lemma_place_count(plain: Seq<char>, bps: Seq<BreakPoint>, bi: int, line: int, lm: int)
    requires
        0 <= bi,
        0 <= line,
        lm <= usize::MAX,
    ensures
        place_spec(plain, bps, bi, line, lm) matches Some((ls, l2, r)) ==> (ls.len() == 0 || ls.len() <= bps.len()
            + 1 - bi) && (ls.len() > 0 ==> ls[0].line == line),
    decreases bps.len() + 1 - bi,
{
    if bi <= bps.len() && line < lm {
        lemma_place_count(plain, bps, bi + 1, line + 1, lm);
    }
}

proof fn lemma_restyle_plain(rs: Seq<(Seq<char>, Style)>, bold: bool, italic: bool, sans: bool)
    ensures
        runs_plain(restyle_spec(rs, bold, italic, sans, false)) == runs_plain(rs),
    decreases rs.len(),
{
    if rs.len() > 0 {
        lemma_restyle_plain(rs.drop_last(), bold, italic, sans);
        assert(restyle_spec(rs, bold, italic, sans, false).drop_last() =~= restyle_spec(
            rs.drop_last(),
            bold,
            italic,
            sans,
            false,
        ));
    }
}

proof fn lemma_put_headings(st: St, g: GlyphSpans, rs: Seq<(Seq<char>, Style)>, m: MarginKind, al: Alignment, top: int, bi: int, line: int, lm: int, revised: bool, max: int)
    requires
        headings_ok(st.blocks, max),
        0 <= bi,
        m == MarginKind::Heading ==> line + break_points_spec(runs_plain(rs), span_of(g, m)).len() + 1 + 3 <= max
            && 0 <= line && lm <= usize::MAX,
    ensures
        put_spec(st, g, rs, m, al, top, bi, line, lm, revised) matches Ok((s2, l2, r)) ==> headings_ok(s2.blocks, max),
{
    let plain = runs_plain(rs);
    if m == MarginKind::Heading {
        lemma_place_count(plain, break_points_spec(plain, span_of(g, m)), bi, line, lm);
    }
    match put_spec(st, g, rs, m, al, top, bi, line, lm, revised) {
        Ok((s2, l2, r)) => {
            assert forall|i: int| 0 <= i < s2.blocks.len() implies heading_room(#[trigger] s2.blocks[i], max) by {
                if i < st.blocks.len() {
                    assert(s2.blocks[i] == st.blocks[i]);
                }
            }
        },
        Err(_) => {},
    }
}

proof fn lemma_parts_headings(st: St, g: GlyphSpans, parts: Seq<DialogueElementV>, side: int, di: int, rbp: Option<int>, line: int, max: int, revised: bool, bound: int)
    requires
        headings_ok(st.blocks, bound),
        rbp matches Some(b) ==> b >= 0,
    ensures
        parts_spec(st, g, parts, side, di, rbp, line, max, revised) matches Ok((s2, rd, rb, l2, p)) ==> headings_ok(s2.blocks, bound),
    decreases parts.len() - di, if line >= max { 0int } else { 1int },
{
    let (mc, mp, ml) = speech_margins(side);
    if di >= parts.len() || di < 0 {
    } else if line >= max {
        lemma_put_headings(st, g, plain_run("(MORE)"@), ml, Alignment::Centered, 40, 0, line, max + 1, revised, bound);
    } else {
        let bi = match rbp {
            Some(i) => i,
            None => 0,
        };
        let (rs, m) = match parts[di] {
            DialogueElementV::Parenthetical(r) => (r, mp),
            DialogueElementV::Line(r) => (r, ml),
        };
        lemma_put_headings(st, g, rs, m, Alignment::LeftToRight, 40, bi, line, max, revised, bound);
        lemma_put_mono(st, g, rs, m, Alignment::LeftToRight, 40, bi, line, max, revised);
        match put_spec(st, g, rs, m, Alignment::LeftToRight, 40, bi, line, max, revised) {
            Err(e) => {},
            Ok((s2, l2, r)) => {
                lemma_put_rest_index(st, g, rs, m, Alignment::LeftToRight, 40, bi, line, max, revised);
                if r is Some {
                    lemma_parts_headings(s2, g, parts, side, di, r, l2, max, revised, bound);
                } else {
                    lemma_parts_headings(s2, g, parts, side, di + 1, None, l2, max, revised, bound);
                }
            },
        }
    }
}

/// The line of a text left over for the next page is a line of the text.
proof fn lemma_put_rest_index(st: St, g: GlyphSpans, rs: Seq<(Seq<char>, Style)>, m: MarginKind, al: Alignment, top: int, bi: int, line: int, lm: int, revised: bool)
    requires
        0 <= bi,
    ensures
        put_spec(st, g, rs, m, al, top, bi, line, lm, revised) matches Ok((s2, l2, r)) ==> (r matches Some(b) ==> b >= 0),
{
    let plain = runs_plain(rs);
    lemma_place_rest(plain, break_points_spec(plain, span_of(g, m)), bi, line, lm);
}

proof fn lemma_place_rest(plain: Seq<char>, bps: Seq<BreakPoint>, bi: int, line: int, lm: int)
    requires
        0 <= bi,
    ensures
        place_spec(plain, bps, bi, line, lm) matches Some((ls, l2, r)) ==> (r matches Some(b) ==> b >= 0),
    decreases bps.len() + 1 - bi,
{
    if bi <= bps.len() && line < lm {
        lemma_place_rest(plain, bps, bi + 1, line + 1, lm);
    }
}

proof fn lemma_dialogue_headings(st: St, g: GlyphSpans, d: DialogueV, side: int, rdlg: Option<int>, rbp: Option<int>, line: int, max: int, revised: bool)
    requires
        headings_ok(st.blocks, max),
        rbp matches Some(b) ==> b >= 0,
    ensures
        dialogue_spec(st, g, d, side, rdlg, rbp, line, max, revised) matches Ok((s2, rd, rb, l2, p)) ==> headings_ok(s2.blocks, max),
{
    let (mc, _, _) = speech_margins(side);
    let name = cue_runs(d, rdlg is Some);
    let di = match rdlg {
        Some(i) => i,
        None => 0,
    };
    if let Some(lim) = speech_limit(g, d, side, rdlg, rbp, line, max) {
        lemma_put_headings(st, g, name, mc, Alignment::LeftToRight, 40, 0, line, max, revised, max);
        if let Ok((s1, l1, _)) = put_spec(st, g, name, mc, Alignment::LeftToRight, 40, 0, line, max, revised) {
            lemma_parts_headings(s1, g, d.elements, side, di, rbp, l1, lim, revised, max);
        }
    }
}

proof fn lemma_dialogue_rest(st: St, g: GlyphSpans, d: DialogueV, side: int, rdlg: Option<int>, rbp: Option<int>, line: int, max: int, revised: bool)
    requires
        rbp matches Some(b) ==> b >= 0,
    ensures
        dialogue_spec(st, g, d, side, rdlg, rbp, line, max, revised) matches Ok((s2, rd, rb, l2, p)) ==> (rb matches Some(b) ==> b >= 0)
            && s2 == (St { blocks: s2.blocks, ..st }),
{
    let (mc, _, _) = speech_margins(side);
    let name = cue_runs(d, rdlg is Some);
    let di = match rdlg {
        Some(i) => i,
        None => 0,
    };
    if let Some(lim) = speech_limit(g, d, side, rdlg, rbp, line, max) {
        if let Ok((s1, l1, _)) = put_spec(st, g, name, mc, Alignment::LeftToRight, 40, 0, line, max, revised) {
            lemma_parts_rest(s1, g, d.elements, side, di, rbp, l1, lim, revised);
        }
    }
}

proof fn lemma_parts_rest(st: St, g: GlyphSpans, parts: Seq<DialogueElementV>, side: int, di: int, rbp: Option<int>, line: int, max: int, revised: bool)
    requires
        rbp matches Some(b) ==> b >= 0,
    ensures
        parts_spec(st, g, parts, side, di, rbp, line, max, revised) matches Ok((s2, rd, rb, l2, p)) ==> (rb matches Some(b) ==> b >= 0)
            && s2 == (St { blocks: s2.blocks, ..st }),
    decreases parts.len() - di, if line >= max { 0int } else { 1int },
{
    let (mc, mp, ml) = speech_margins(side);
    if di >= parts.len() || di < 0 {
    } else if line >= max {
    } else {
        let bi = match rbp {
            Some(i) => i,
            None => 0,
        };
        let (rs, m) = match parts[di] {
            DialogueElementV::Parenthetical(r) => (r, mp),
            DialogueElementV::Line(r) => (r, ml),
        };
        lemma_put_mono(st, g, rs, m, Alignment::LeftToRight, 40, bi, line, max, revised);
        lemma_put_rest_index(st, g, rs, m, Alignment::LeftToRight, 40, bi, line, max, revised);
        match put_spec(st, g, rs, m, Alignment::LeftToRight, 40, bi, line, max, revised) {
            Err(e) => {},
            Ok((s2, l2, r)) => {
                if r is Some {
                    lemma_parts_rest(s2, g, parts, side, di, r, l2, max, revised);
                } else {
                    lemma_parts_rest(s2, g, parts, side, di + 1, None, l2, max, revised);
                }
            },
        }
    }
}

/// What the layout state holds between elements: leftover text lines are
/// lines of their texts.
pub open spec fn rests_ok(st: St) -> bool {
    &&& (st.rbp matches Some(b) ==> b >= 0)
    &&& (st.rb0 matches Some(b) ==> b >= 0)
    &&& (st.rb1 matches Some(b) ==> b >= 0)
}

proof fn lemma_element_headings(st: St, o: LayoutOptions, e: ElementV, line: int, bi: int, revised: bool)
    requires
        headings_ok(st.blocks, o.max_lines as int),
        rests_ok(st),
        0 <= bi,
        0 <= line,
    ensures
        element_spec(st, o, e, line, bi, revised) matches Ok((s2, l2, b)) ==> headings_ok(s2.blocks, o.max_lines as int)
            && rests_ok(s2),
{
    reveal(element_spec);
    let g = o.spans;
    let max = o.max_lines as int;
    match e {
        ElementV::Heading(slug, number) => {
            let hl = break_points_spec(runs_plain(slug), span_of(g, MarginKind::Heading)).len() + 1;
            let remaining = if max > line { max - line } else { 0 };
            if remaining >= hl + 3 {
                match number {
                    Some(n) => {
                        lemma_put_headings(st, g, plain_run(n), MarginKind::NumberLeft, Alignment::LeftToRight, 40, 0, line, max, revised, max);
                        match put_spec(st, g, plain_run(n), MarginKind::NumberLeft, Alignment::LeftToRight, 40, 0, line, max, revised) {
                            Ok((s1, _, _)) => {
                                lemma_put_headings(s1, g, plain_run(n), MarginKind::NumberRight, Alignment::RightToLeft, 40, 0, line, max, revised, max);
                            },
                            Err(_) => {},
                        }
                    },
                    None => {},
                }
                let numbered: Result<St, PlanError> = match number {
                    Some(n) => match put_spec(st, g, plain_run(n), MarginKind::NumberLeft, Alignment::LeftToRight, 40, 0, line, max, revised) {
                        Err(e) => Err(e),
                        Ok((s1, _, _)) => if o.mirror_scene_numbers {
                            match put_spec(s1, g, plain_run(n), MarginKind::NumberRight, Alignment::RightToLeft, 40, 0, line, max, revised) {
                                Err(e) => Err(e),
                                Ok((s2, _, _)) => Ok(s2),
                            }
                        } else {
                            Ok(s1)
                        },
                    },
                    None => Ok(st),
                };
                match numbered {
                    Err(e) => {},
                    Ok(s3) => {
                        let s4 = St { outline: s3.outline.push((runs_plain(slug), st.page, line)), ..s3 };
                        let rs = if o.bold_scene_headings { restyle_spec(slug, true, false, false, false) } else { slug };
                        lemma_restyle_plain(slug, true, false, false);
                        lemma_put_headings(s4, g, rs, MarginKind::Heading, Alignment::LeftToRight, 40, bi, line, max, revised, max);
                        lemma_put_rest_index(s4, g, rs, MarginKind::Heading, Alignment::LeftToRight, 40, bi, line, max, revised);
                    },
                }
            }
        },
        ElementV::Action(r) => {
            lemma_put_headings(st, g, r, MarginKind::Action, Alignment::LeftToRight, 40, bi, line, max, revised, max);
            lemma_put_rest_index(st, g, r, MarginKind::Action, Alignment::LeftToRight, 40, bi, line, max, revised);
        },
        ElementV::Dialogue(d) => {
            lemma_dialogue_headings(st, g, d, 0, st.rdlg, st.rbp, line, max, revised);
            lemma_dialogue_rest(st, g, d, 0, st.rdlg, st.rbp, line, max, revised);
        },
        ElementV::DualDialogue(d0, d1) => {
            lemma_dialogue_headings(st, g, d0, 1, st.rd0, st.rb0, line, max, revised);
            lemma_dialogue_rest(st, g, d0, 1, st.rd0, st.rb0, line, max, revised);
            let first: Result<(St, int, bool), PlanError> = if (st.rd0 is None && st.rd1 is None) || st.rd0 is Some {
                match dialogue_spec(st, g, d0, 1, st.rd0, st.rb0, line, max, revised) {
                    Err(e) => Err(e),
                    Ok((s2, rd, rb, l2, prem)) => Ok((St { rd0: rd, rb0: rb, ..s2 }, l2, prem)),
                }
            } else {
                Ok((st, line, false))
            };
            match first {
                Err(e) => {},
                Ok((s1, l1, p1)) => {
                    lemma_dialogue_headings(s1, g, d1, 2, s1.rd1, s1.rb1, line, max, revised);
                    lemma_dialogue_rest(s1, g, d1, 2, s1.rd1, s1.rb1, line, max, revised);
                },
            }
        },
        ElementV::Lyrics(r) => {
            let rs = restyle_spec(r, false, true, false, false);
            lemma_put_headings(st, g, rs, MarginKind::Lyrics, Alignment::Centered, 40, bi, line, max, revised, max);
            lemma_put_rest_index(st, g, rs, MarginKind::Lyrics, Alignment::Centered, 40, bi, line, max, revised);
        },
        ElementV::Transition(r) => {
            lemma_put_headings(st, g, r, MarginKind::Transition, Alignment::RightToLeft, 40, bi, line, max, revised, max);
            lemma_put_rest_index(st, g, r, MarginKind::Transition, Alignment::RightToLeft, 40, bi, line, max, revised);
        },
        ElementV::CenteredText(r) => {
            lemma_put_headings(st, g, r, MarginKind::Centered, Alignment::Centered, 40, bi, line, max, revised, max);
            lemma_put_rest_index(st, g, r, MarginKind::Centered, Alignment::Centered, 40, bi, line, max, revised);
        },
        ElementV::Shot(r) => {
            let rs = restyle_spec(r, o.bold_scene_headings, false, false, true);
            lemma_put_headings(st, g, rs, MarginKind::Action, Alignment::LeftToRight, 40, bi, line, max, revised, max);
            lemma_put_rest_index(st, g, rs, MarginKind::Action, Alignment::LeftToRight, 40, bi, line, max, revised);
        },
        ElementV::Synopsis(r) => {
            let rs = restyle_spec(r, true, true, o.sans, false);
            lemma_put_headings(st, g, rs, MarginKind::Synopsis, Alignment::LeftToRight, 40, bi, line, max, revised, max);
            lemma_put_rest_index(st, g, rs, MarginKind::Synopsis, Alignment::LeftToRight, 40, bi, line, max, revised);
        },
        ElementV::Section(r) => {
            let rs = restyle_spec(r, true, false, o.sans, true);
            lemma_put_headings(st, g, rs, MarginKind::Action, Alignment::LeftToRight, 40, bi, line, max, revised, max);
            lemma_put_rest_index(st, g, rs, MarginKind::Action, Alignment::LeftToRight, 40, bi, line, max, revised);
        },
        ElementV::PageBreak => {},
    }
}

proof fn lemma_page_body_headings(st: St, o: LayoutOptions, elems: Seq<SpanV>, rl: Seq<bool>, line: int)
    requires
        headings_ok(st.blocks, o.max_lines as int),
        rests_ok(st),
    ensures
        page_body(st, o, elems, rl, line) matches Ok(s2) ==> headings_ok(s2.blocks, o.max_lines as int) && rests_ok(s2),
    decreases o.max_lines + 3 - line,
{
    reveal(page_body);
    if st.k < 0 || st.k >= elems.len() || line >= o.max_lines || line < 0 {
    } else {
        let sp = elems[st.k];
        let bi = match st.rbp {
            Some(i) => i,
            None => 0,
        };
        let rbp1 = if sp.inner is Dialogue { st.rbp } else { None };
        let st1 = St { rbp: rbp1, ..st };
        let revised = revised_in(rl, sp.start, sp.end);
        lemma_element_headings(st1, o, sp.inner, line, bi, revised);
        lemma_element_mono(st1, o, sp.inner, line, bi, revised);
        match element_spec(st1, o, sp.inner, line, bi, revised) {
            Err(e) => {},
            Ok((st2, l2, brk)) => {
                if !brk {
                    let st3 = if st2.rbp is Some { st2 } else { St { k: st2.k + 1, ..st2 } };
                    if l2 + 1 <= o.max_lines + 3 {
                        lemma_page_body_headings(st3, o, elems, rl, l2 + 1);
                    }
                }
            },
        }
    }
}

proof fn lemma_pages_headings(st: St, o: LayoutOptions, elems: Seq<SpanV>, rl: Seq<bool>, fuel: nat)
    requires
        headings_ok(st.blocks, o.max_lines as int),
        rests_ok(st),
    ensures
        pages_spec(st, o, elems, rl, fuel) matches Ok(s2) ==> headings_ok(s2.blocks, o.max_lines as int),
    decreases fuel,
{
    if st.k < 0 || st.k >= elems.len() || fuel == 0 {
    } else {
        let max = o.max_lines as int;
        lemma_put_headings(st, o.spans, plain_run(page_number_text(o, st.page)), MarginKind::PageNumber, Alignment::RightToLeft, 36, 0, 0, 36, false, max);
        let pn: Result<St, PlanError> = if numbered_page(o, st.page) {
            match put_spec(st, o.spans, plain_run(page_number_text(o, st.page)), MarginKind::PageNumber, Alignment::RightToLeft, 36, 0, 0, 36, false) {
                Err(e) => Err(e),
                Ok((s1, _, r)) => if r is Some {
                    Err(PlanError::PageNumberTooLong)
                } else {
                    Ok(s1)
                },
            }
        } else {
            Ok(st)
        };
        match pn {
            Err(e) => {},
            Ok(s1) => {
                lemma_page_body_headings(s1, o, elems, rl, 0);
                match page_body(s1, o, elems, rl, 0) {
                    Err(e) => {},
                    Ok(s2) => {
                        lemma_pages_headings(St { page: s2.page + 1, ..s2 }, o, elems, rl, (fuel - 1) as nat);
                    },
                }
            },
        }
    }
}

/// A scene heading never stands alone at the bottom of a page: wherever a
/// heading is set, at least three lines (a blank line and two lines of
/// what follows) still fit under it on its page.
pub proof fn law_headings_keep_room(o: LayoutOptions, elems: Seq<SpanV>, rl: Seq<bool>, page_limit: nat)
    ensures
        plan_spec(o, elems, rl, page_limit) matches Ok(st) ==> headings_ok(st.blocks, o.max_lines as int),
{
    lemma_pages_headings(plan_start(o), o, elems, rl, page_limit);
}

} // verus!
