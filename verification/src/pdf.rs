//! Page geometry and line breaking for the PDF export. Everything that
//! draws (fonts, glyph positions in points) lives with the PDF writer; here
//! are the integer rules it follows.
use vstd::prelude::*;
use crate::rich::RichString;
use crate::text::is_ws;

verus! {

/// Height of one text line, in points (12pt Courier).
pub const FONT_SIZE: usize = 12;

/// A paper size in points.
#[derive(Clone, Copy, Debug, PartialEq, Eq, Structural)]
pub struct PaperSize {
    pub x: usize,
    pub y: usize,
}

/// ISO A4, in points.
pub open spec fn a4_spec() -> PaperSize {
    PaperSize { x: 595, y: 842 }
}

/// US Letter, in points.
pub open spec fn letter_spec() -> PaperSize {
    PaperSize { x: 612, y: 792 }
}

impl Default for PaperSize {
    /// A4.
    fn default() -> (r: PaperSize)
        ensures
            r == a4_spec(),
    {
        PaperSize::a4()
    }
}

impl PaperSize {
    /// ISO A4.
    pub fn a4() -> (r: PaperSize)
        ensures
            r == a4_spec(),
    {
        PaperSize { x: 595, y: 842 }
    }

    /// US Letter.
    pub fn letter() -> (r: PaperSize)
        ensures
            r == letter_spec(),
    {
        PaperSize { x: 612, y: 792 }
    }

    /// The top page margin, in points.
    pub fn top_margin(&self) -> (r: usize)
        ensures
            r == top_margin_spec(),
    {
        40
    }

    /// The bottom page margin, in points: A4 pages keep ten points more.
    pub fn bottom_margin(&self) -> (r: usize)
        ensures
            r == bottom_margin_spec(*self),
    {
        if self.x == 595 && self.y == 842 {
            60
        } else {
            50
        }
    }

    /// How many text lines a page holds between its margins, one line being
    /// kept free.
    pub fn max_lines_per_page(&self) -> (r: usize)
        requires
            self.y >= top_margin_spec() + bottom_margin_spec(*self) + FONT_SIZE,
        ensures
            r == max_lines_spec(*self),
    {
        let top = self.top_margin();
        let bottom = self.bottom_margin();
        (self.y - (top + bottom)) / FONT_SIZE - 1
    }
}

/// The top page margin, in points.
pub open spec fn top_margin_spec() -> int {
    40
}

/// The bottom page margin, in points: 60 on A4, 50 on any other paper.
pub open spec fn bottom_margin_spec(p: PaperSize) -> int {
    if p == a4_spec() {
        60
    } else {
        50
    }
}

/// The text lines of a page between its margins, less the one kept free.
pub open spec fn max_lines_spec(p: PaperSize) -> int {
    (p.y - top_margin_spec() - bottom_margin_spec(p)) / (FONT_SIZE as int) - 1
}

/// How scene numbers are mirrored on the right-hand side.
#[derive(Clone, Copy, Debug, PartialEq, Eq, Structural)]
pub enum MirrorOption {
    Off,
    Always,
    Export,
}

/// Settings of the PDF export.
pub struct PdfExporter {
    pub synopses: bool,
    pub sections: bool,
    pub paper_size: PaperSize,
    pub bold_scene_headings: bool,
    pub mirror_scene_numbers: MirrorOption,
    pub export_font: String,
    pub revised_lines: Vec<bool>,
}

impl PdfExporter {
    /// The default settings: A4, nothing optional exported.
    pub fn new() -> (r: PdfExporter)
        ensures
            !r.synopses,
            !r.sections,
            r.paper_size == a4_spec(),
            !r.bold_scene_headings,
            r.mirror_scene_numbers == MirrorOption::Off,
            r.export_font@.len() == 0,
            r.revised_lines@.len() == 0,
    {
        PdfExporter {
            synopses: false,
            sections: false,
            paper_size: PaperSize::a4(),
            bold_scene_headings: false,
            mirror_scene_numbers: MirrorOption::Off,
            export_font: String::new(),
            revised_lines: Vec::new(),
        }
    }

    /// The file extension of the export.
    pub fn file_extension(&self) -> (r: &'static str)
        ensures
            r@ == "pdf"@,
    {
        "pdf"
    }
}

/// Why a line ends where it does.
#[derive(Clone, Copy, Debug, PartialEq, Eq, Structural)]
pub enum BreakType {
    /// The line ends at a newline or before a word.
    NewLine,
    /// A word is broken; the line gets a hyphen.
    BreakWord,
}

/// The character index at which a new line starts.
#[derive(Clone, Copy, Debug, PartialEq, Eq, Structural)]
pub struct BreakPoint {
    pub index: usize,
    pub break_type: BreakType,
}

/// The state of the line breaker after reading a prefix of the text.
pub struct BpState {
    pub bps: Seq<BreakPoint>,
    /// `bps.len() + 1` at the time the last whitespace or hyphen was read.
    pub lw_count: int,
    /// Index of the last whitespace or hyphen.
    pub lw_pos: int,
    /// Characters read on the current line.
    pub line_len: int,
}

pub open spec fn bp_start() -> BpState {
    BpState { bps: Seq::empty(), lw_count: 0, lw_pos: 0, line_len: 0 }
}

/// Reading character `c` at index `i` with lines `span` characters wide:
/// a newline ends the line there; whitespace and hyphens are remembered as
/// places to break; a line that reaches `span` characters breaks after the
/// last whitespace or hyphen on it, or, if there is none, inside the word.
pub open spec fn bp_step(st: BpState, i: int, c: char, span: int) -> BpState {
    let ll = st.line_len + 1;
    if c == '\n' {
        BpState {
            bps: st.bps.push(BreakPoint { index: i as usize, break_type: BreakType::NewLine }),
            line_len: 0,
            ..st
        }
    } else if is_ws(c) || c == '-' {
        BpState { lw_count: (st.bps.len() + 1) as int, lw_pos: i, line_len: ll, ..st }
    } else if ll >= span {
        if st.bps.len() + 1 != st.lw_count {
            BpState {
                bps: st.bps.push(BreakPoint { index: i as usize, break_type: BreakType::BreakWord }),
                line_len: 0,
                ..st
            }
        } else {
            BpState {
                bps: st.bps.push(
                    BreakPoint { index: (st.lw_pos + 1) as usize, break_type: BreakType::NewLine },
                ),
                line_len: i - st.lw_pos,
                ..st
            }
        }
    } else {
        BpState { line_len: ll, ..st }
    }
}

/// The line breaker after reading all of `s`.
pub open spec fn bp_run(s: Seq<char>, span: int) -> BpState
    decreases s.len(),
{
    if s.len() == 0 {
        bp_start()
    } else {
        bp_step(bp_run(s.drop_last(), span), s.len() - 1, s.last(), span)
    }
}

/// The break points of text `s` laid out in lines `span` characters wide.
pub open spec fn break_points_spec(s: Seq<char>, span: int) -> Seq<BreakPoint> {
    bp_run(s, span).bps
}

spec fn bp_inv(st: BpState, n: int) -> bool {
    &&& forall|j: int| 0 <= j < st.bps.len() ==> #[trigger] st.bps[j].index < n
    &&& forall|j: int, k: int|
        0 <= j < k < st.bps.len() ==> #[trigger] st.bps[j].index < #[trigger] st.bps[k].index
    &&& st.lw_count <= st.bps.len() + 1
    &&& st.lw_count == st.bps.len() + 1 ==> 0 <= st.lw_pos < n && (st.bps.len() > 0
        ==> st.bps.last().index <= st.lw_pos)
    &&& 0 <= st.line_len <= n
    &&& st.bps.len() <= n
}

proof fn lemma_bp_inv(s: Seq<char>, span: int)
    requires
        s.len() <= usize::MAX,
    ensures
        bp_inv(bp_run(s, span), s.len() as int),
    decreases s.len(),
{
    if s.len() > 0 {
        let p = s.drop_last();
        lemma_bp_inv(p, span);
        let st = bp_run(p, span);
        let i = s.len() - 1;
        let n = bp_run(s, span);
        assert(n == bp_step(st, i, s.last(), span));
        if n.bps.len() > st.bps.len() {
            assert(n.bps.drop_last() == st.bps);
            assert forall|j: int| 0 <= j < n.bps.len() implies #[trigger] n.bps[j].index < s.len() by {
                if j < st.bps.len() {
                    assert(n.bps[j] == st.bps[j]);
                }
            }
            assert forall|j: int, k: int|
                0 <= j < k < n.bps.len() implies #[trigger] n.bps[j].index
                < #[trigger] n.bps[k].index by {
                assert(n.bps[j] == st.bps[j]);
                if k < st.bps.len() {
                    assert(n.bps[k] == st.bps[k]);
                } else {
                    assert(st.bps[j].index < i);
                    if st.bps.len() > 0 && s.last() != '\n' && st.bps.len() + 1 == st.lw_count {
                        assert(st.bps[j].index <= st.bps.last().index);
                    }
                }
            }
        }
    }
}

/// Break points come in increasing order and lie inside the text.
pub proof fn lemma_break_points_ordered(s: Seq<char>, span: int)
    requires
        s.len() <= usize::MAX,
    ensures
        forall|j: int|
            0 <= j < break_points_spec(s, span).len() ==> #[trigger] break_points_spec(
                s,
                span,
            )[j].index < s.len(),
        forall|j: int, k: int|
            0 <= j < k < break_points_spec(s, span).len() ==> #[trigger] break_points_spec(
                s,
                span,
            )[j].index < #[trigger] break_points_spec(s, span)[k].index,
{
    lemma_bp_inv(s, span);
}

/// Where each break point of `s` lies: a word is broken only before a
/// character that is neither whitespace nor a hyphen; every other line
/// starts after a newline it ends at, or right after whitespace or a hyphen.
pub open spec fn breaks_sound(s: Seq<char>, bps: Seq<BreakPoint>) -> bool {
    forall|j: int|
        0 <= j < bps.len() ==> {
            let k = (#[trigger] bps[j]).index as int;
            &&& 0 <= k < s.len()
            &&& (bps[j].break_type == BreakType::BreakWord ==> !is_ws(s[k]) && s[k] != '-')
            &&& (bps[j].break_type == BreakType::NewLine ==> s[k] == '\n' || (k > 0 && (is_ws(s[k - 1]) || s[k - 1]
                == '-')))
        }
}

proof fn lemma_bp_sound(s: Seq<char>, span: int)
    requires
        s.len() <= usize::MAX,
    ensures
        breaks_sound(s, bp_run(s, span).bps),
        bp_run(s, span).lw_count == bp_run(s, span).bps.len() + 1 ==> 0 <= bp_run(s, span).lw_pos < s.len() && (is_ws(
            s[bp_run(s, span).lw_pos],
        ) || s[bp_run(s, span).lw_pos] == '-'),
    decreases s.len(),
{
    if s.len() > 0 {
        let p = s.drop_last();
        lemma_bp_sound(p, span);
        lemma_bp_inv(p, span);
        let st = bp_run(p, span);
        let i = s.len() - 1;
        let n = bp_run(s, span);
        assert(n == bp_step(st, i, s.last(), span));
        assert forall|k: int| 0 <= k < p.len() implies p[k] == s[k] by {}
        assert forall|j: int| 0 <= j < n.bps.len() implies {
            let k = (#[trigger] n.bps[j]).index as int;
            &&& 0 <= k < s.len()
            &&& (n.bps[j].break_type == BreakType::BreakWord ==> !is_ws(s[k]) && s[k] != '-')
            &&& (n.bps[j].break_type == BreakType::NewLine ==> s[k] == '\n' || (k > 0 && (is_ws(s[k - 1])
                || s[k - 1] == '-')))
        } by {
            if j < st.bps.len() {
                assert(n.bps[j] == st.bps[j]);
            } else {
                if s.last() != '\n' && !(is_ws(s.last()) || s.last() == '-') && st.bps.len() + 1 == st.lw_count {
                    assert(s[st.lw_pos] == p[st.lw_pos]);
                }
            }
        }
    }
}

/// Where the break points of a text lie (see `breaks_sound`).
pub proof fn law_breaks_sound(s: Seq<char>, span: int)
    requires
        s.len() <= usize::MAX,
    ensures
        breaks_sound(s, break_points_spec(s, span)),
{
    lemma_bp_sound(s, span);
}

/// A text with no newline, shorter than a line, is not broken.
pub proof fn law_short_text_unbroken(s: Seq<char>, span: int)
    requires
        s.len() < span,
        forall|k: int| 0 <= k < s.len() ==> s[k] != '\n',
    ensures
        break_points_spec(s, span).len() == 0,
        bp_run(s, span).line_len == s.len(),
    decreases s.len(),
{
    if s.len() > 0 {
        let p = s.drop_last();
        assert forall|k: int| 0 <= k < p.len() implies p[k] != '\n' by {
            assert(p[k] == s[k]);
        }
        law_short_text_unbroken(p, span);
        assert(bp_run(s, span) == bp_step(bp_run(p, span), s.len() - 1, s.last(), span));
    }
}

/// Every newline in the text starts a new line there.
pub proof fn lemma_newline_breaks(s: Seq<char>, span: int, k: int)
    requires
        s.len() <= usize::MAX,
        0 <= k < s.len(),
        s[k] == '\n',
    ensures
        exists|j: int|
            0 <= j < break_points_spec(s, span).len() && #[trigger] break_points_spec(s, span)[j]
                == (BreakPoint { index: k as usize, break_type: BreakType::NewLine }),
    decreases s.len(),
{
    let p = s.drop_last();
    let st = bp_run(p, span);
    let n = bp_run(s, span);
    assert(n == bp_step(st, s.len() - 1, s.last(), span));
    assert(break_points_spec(s, span) == n.bps);
    if k == s.len() - 1 {
        let j = n.bps.len() - 1;
        assert(break_points_spec(s, span)[j] == BreakPoint { index: k as usize, break_type: BreakType::NewLine });
    } else {
        assert(p[k] == s[k]);
        lemma_newline_breaks(p, span, k);
        let j = choose|j: int|
            0 <= j < st.bps.len() && #[trigger] st.bps[j] == (BreakPoint {
                index: k as usize,
                break_type: BreakType::NewLine,
            });
        assert(n.bps.len() >= st.bps.len());
        assert(n.bps[j] == st.bps[j]);
        assert(break_points_spec(s, span)[j] == BreakPoint { index: k as usize, break_type: BreakType::NewLine });
    }
}

/// The break points of a character sequence.
pub fn break_points_chars(v: &Vec<char>, span: usize) -> (r: Vec<BreakPoint>)
    requires
        span >= 2,
    ensures
        r@ == break_points_spec(v@, span as int),
{
    let mut bps: Vec<BreakPoint> = Vec::new();
    let mut lw_count: usize = 0;
    let mut lw_pos: usize = 0;
    let mut line_len: usize = 0;
    let mut i: usize = 0;
    while i < v.len()
        invariant
            i <= v.len(),
            ({
                let st = bp_run(v@.take(i as int), span as int);
                &&& st.bps == bps@
                &&& st.lw_count == lw_count
                &&& st.lw_pos == lw_pos
                &&& st.line_len == line_len
            }),
            bp_inv(bp_run(v@.take(i as int), span as int), i as int),
        decreases v.len() - i,
    {
        proof {
            assert(v@.take(i + 1).drop_last() == v@.take(i as int));
            lemma_bp_inv(v@.take(i + 1), span as int);
        }
        let c = v[i];
        line_len += 1;
        if c == '\n' {
            bps.push(BreakPoint { index: i, break_type: BreakType::NewLine });
            line_len = 0;
        } else if crate::text::is_whitespace(c) || c == '-' {
            lw_count = bps.len() + 1;
            lw_pos = i;
        } else if line_len >= span {
            if bps.len() + 1 != lw_count {
                bps.push(BreakPoint { index: i, break_type: BreakType::BreakWord });
                line_len = 0;
            } else {
                bps.push(BreakPoint { index: lw_pos + 1, break_type: BreakType::NewLine });
                line_len = i - lw_pos;
            }
        }
        i += 1;
    }
    proof {
        assert(v@.take(v.len() as int) == v@);
    }
    bps
}

/// Where the text of `content` breaks into lines `span` characters wide.
pub fn break_points(content: &RichString, span: usize) -> (r: Vec<BreakPoint>)
    requires
        span >= 2,
    ensures
        r@ == break_points_spec(content.plain(), span as int),
{
    let v = content.to_plain_chars();
    break_points_chars(&v, span)
}

} // verus!
