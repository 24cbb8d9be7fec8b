//! What one placed line of a text draws: its pieces, each in one font
//! face, the column each starts at, and whether a hyphen ends the line.
use vstd::prelude::*;
use crate::chars::{chars_of, string_of};
use crate::fdx::{lemma_runs_plain, runs_plain};
use crate::paginate::PlacedLine;
use crate::pdf::BreakType;
use crate::rich::{RichString, Style};
use crate::screenplay::runs;
use crate::text::slice_chars;

verus! {

/// The faces of the font family.
#[derive(Clone, Copy, Debug, PartialEq, Eq, Structural)]
pub enum FontFace {
    Regular,
    Bold,
    Italic,
    BoldItalic,
    SansRegular,
    SansBold,
    SansItalic,
    SansBoldItalic,
}

/// The face of a run in style `st`; with `sans` every run is set sans.
pub open spec fn face_of(st: Style, sans: bool) -> FontFace {
    if sans || st.sans {
        if st.bold && st.italic {
            FontFace::SansBoldItalic
        } else if st.bold {
            FontFace::SansBold
        } else if st.italic {
            FontFace::SansItalic
        } else {
            FontFace::SansRegular
        }
    } else {
        if st.bold && st.italic {
            FontFace::BoldItalic
        } else if st.bold {
            FontFace::Bold
        } else if st.italic {
            FontFace::Italic
        } else {
            FontFace::Regular
        }
    }
}

/// A piece of a line in one face: its characters, the column (in
/// characters from the line's start) it starts at, and whether it is
/// underlined.
pub struct LineSegment {
    pub text: String,
    pub column: usize,
    pub face: FontFace,
    pub underline: bool,
}

/// A line segment as values.
pub struct SegmentV {
    pub text: Seq<char>,
    pub column: int,
    pub face: FontFace,
    pub underline: bool,
}

pub open spec fn segment_v(s: LineSegment) -> SegmentV {
    SegmentV { text: s.text@, column: s.column as int, face: s.face, underline: s.underline }
}

/// What a line draws: its segments, its length in characters (which the
/// caller aligns it by) and whether a hyphen follows it.
pub struct LineDraw {
    pub segments: Vec<LineSegment>,
    pub length: usize,
    pub hyphen: bool,
}

/// The segments of characters `a..b` of the text with runs `rs`, from run
/// `k`, which starts at character `off`: each run's part of `a..b`, where
/// it is not empty.
pub open spec fn segments_from(
    rs: Seq<(Seq<char>, Style)>,
    k: int,
    off: int,
    a: int,
    b: int,
    sans: bool,
) -> Seq<SegmentV>
    decreases rs.len() - k,
{
    if k < 0 || k >= rs.len() {
        Seq::empty()
    } else {
        let len = rs[k].0.len() as int;
        let lo = if a > off { a } else { off };
        let hi = if b < off + len { b } else { off + len };
        let rest = segments_from(rs, k + 1, off + len, a, b, sans);
        if lo < hi {
            seq![
                SegmentV {
                    text: rs[k].0.subrange(lo - off, hi - off),
                    column: lo - a,
                    face: face_of(rs[k].1, sans),
                    underline: rs[k].1.underline,
                },
            ] + rest
        } else {
            rest
        }
    }
}

/// Where line `l` of a text of `n` characters ends.
pub open spec fn line_end(n: int, l: PlacedLine) -> int {
    match l.end {
        Some(bp) => bp.index as int,
        None => n,
    }
}

proof fn lemma_prefix_len(rs: Seq<(Seq<char>, Style)>, k: int)
    requires
        0 <= k <= rs.len(),
    ensures
        runs_plain(rs.take(k)).len() <= runs_plain(rs).len(),
    decreases rs.len() - k,
{
    if k < rs.len() {
        lemma_prefix_len(rs, k + 1);
        assert(rs.take(k + 1).drop_last() =~= rs.take(k));
    } else {
        assert(rs.take(k) =~= rs);
    }
}

fn face(st: Style, sans: bool) -> (r: FontFace)
    ensures
        r == face_of(st, sans),
{
    if sans || st.sans {
        if st.bold && st.italic {
            FontFace::SansBoldItalic
        } else if st.bold {
            FontFace::SansBold
        } else if st.italic {
            FontFace::SansItalic
        } else {
            FontFace::SansRegular
        }
    } else {
        if st.bold && st.italic {
            FontFace::BoldItalic
        } else if st.bold {
            FontFace::Bold
        } else if st.italic {
            FontFace::Italic
        } else {
            FontFace::Regular
        }
    }
}

/// What line `line` of `content` draws (see `segments_from`); with `sans`
/// the whole text is set sans.
pub fn line_draw(content: &RichString, line: &PlacedLine, sans: bool) -> (r: LineDraw)
    requires
        content.plain().len() <= usize::MAX,
        line.start <= line_end(content.plain().len() as int, *line) <= content.plain().len(),
    ensures
        ({
            let a = line.start as int;
            let b = line_end(content.plain().len() as int, *line);
            &&& r.length == b - a
            &&& r.hyphen == (line.end matches Some(bp) && bp.break_type == BreakType::BreakWord)
            &&& r.segments@.map_values(|s: LineSegment| segment_v(s)) == segments_from(
                runs(*content),
                0,
                0,
                a,
                b,
                sans,
            )
        }),
{
    let ghost rs = runs(*content);
    proof {
        lemma_runs_plain(content.elements@);
    }
    let n = content.to_plain_chars().len();
    let a = line.start;
    let (b, hyphen) = match line.end {
        Some(bp) => (bp.index, match bp.break_type {
            BreakType::BreakWord => true,
            BreakType::NewLine => false,
        }),
        None => (n, false),
    };
    let mut segs: Vec<LineSegment> = Vec::new();
    let mut off: usize = 0;
    let mut k: usize = 0;
    while k < content.elements.len()
        invariant
            rs == runs(*content),
            k <= rs.len(),
            n == runs_plain(rs).len(),
            a <= b <= n,
            off == runs_plain(rs.take(k as int)).len(),
            segments_from(rs, 0, 0, a as int, b as int, sans) == segs@.map_values(
                |s: LineSegment| segment_v(s),
            ) + segments_from(rs, k as int, off as int, a as int, b as int, sans),
        decreases content.elements.len() - k,
    {
        proof {
            assert(rs.take(k + 1).drop_last() =~= rs.take(k as int));
            lemma_prefix_len(rs, k + 1);
        }
        let text = chars_of(content.elements[k].text.as_str());
        let len = text.len();
        let st = content.elements[k].style;
        let lo = if a > off {
            a
        } else {
            off
        };
        let hi = if b < off + len {
            b
        } else {
            off + len
        };
        if lo < hi {
            let piece = slice_chars(&text, lo - off, hi - off);
            let seg = LineSegment {
                text: string_of(&piece),
                column: lo - a,
                face: face(st, sans),
                underline: st.underline,
            };
            let ghost before = segs@;
            segs.push(seg);
            proof {
                assert(segs@.map_values(|s: LineSegment| segment_v(s)) =~= before.map_values(
                    |s: LineSegment| segment_v(s),
                ).push(segment_v(seg)));
            }
        }
        off = off + len;
        k += 1;
    }
    proof {
        assert(segs@.map_values(|s: LineSegment| segment_v(s)) + Seq::<SegmentV>::empty() =~= segs@.map_values(
            |s: LineSegment| segment_v(s),
        ));
    }
    LineDraw { segments: segs, length: b - a, hyphen }
}

/// The face is a bold one.
pub open spec fn face_bold(f: FontFace) -> bool {
    f == FontFace::Bold || f == FontFace::BoldItalic || f == FontFace::SansBold || f == FontFace::SansBoldItalic
}

/// The face is an italic one.
pub open spec fn face_italic(f: FontFace) -> bool {
    f == FontFace::Italic || f == FontFace::BoldItalic || f == FontFace::SansItalic || f == FontFace::SansBoldItalic
}

/// The face is a sans one.
pub open spec fn face_sans(f: FontFace) -> bool {
    f == FontFace::SansRegular || f == FontFace::SansBold || f == FontFace::SansItalic || f == FontFace::SansBoldItalic
}

/// How many characters come before run `k`.
pub open spec fn run_start(rs: Seq<(Seq<char>, Style)>, k: int) -> int {
    runs_plain(rs.take(k)).len() as int
}

/// Segment `g` of a line starting at character `a` is a non-empty piece of
/// run `m`, taken at the place it is drawn, in the run's own emphasis: a
/// bold face exactly for bold text, an italic face exactly for italic
/// text, a sans face for sans text or where all is set sans, and underlined
/// exactly where the text is.
pub open spec fn drawn_from(g: SegmentV, rs: Seq<(Seq<char>, Style)>, m: int, a: int, sans: bool) -> bool {
    let lo = a + g.column - run_start(rs, m);
    &&& g.text.len() > 0
    &&& 0 <= lo
    &&& lo + g.text.len() <= rs[m].0.len()
    &&& g.text == rs[m].0.subrange(lo, lo + g.text.len())
    &&& face_bold(g.face) == rs[m].1.bold
    &&& face_italic(g.face) == rs[m].1.italic
    &&& face_sans(g.face) == (sans || rs[m].1.sans)
    &&& g.underline == rs[m].1.underline
}

/// Every segment of `segs` is drawn from a run from `k` on (see
/// `drawn_from`).
pub open spec fn pieces_drawn(segs: Seq<SegmentV>, rs: Seq<(Seq<char>, Style)>, k: int, a: int, sans: bool) -> bool {
    forall|j: int| 0 <= j < segs.len() ==> #[trigger] piece_drawn(segs[j], rs, k, a, sans)
}

/// Segment `g` is drawn from a run from `k` on (see `drawn_from`).
pub open spec fn piece_drawn(g: SegmentV, rs: Seq<(Seq<char>, Style)>, k: int, a: int, sans: bool) -> bool {
    exists|m: int| k <= m < rs.len() && #[trigger] drawn_from(g, rs, m, a, sans)
}

/// A run's face carries its emphasis.
pub proof fn law_face_keeps_emphasis(st: Style, sans: bool)
    ensures
        face_bold(face_of(st, sans)) == st.bold,
        face_italic(face_of(st, sans)) == st.italic,
        face_sans(face_of(st, sans)) == (sans || st.sans),
{
}

proof fn lemma_segments_drawn(rs: Seq<(Seq<char>, Style)>, k: int, a: int, b: int, sans: bool)
    requires
        0 <= k <= rs.len(),
    ensures
        pieces_drawn(segments_from(rs, k, run_start(rs, k), a, b, sans), rs, k, a, sans),
    decreases rs.len() - k,
{
    if k < rs.len() {
        lemma_segments_drawn(rs, k + 1, a, b, sans);
        assert(rs.take(k + 1).drop_last() =~= rs.take(k));
        assert(run_start(rs, k + 1) == run_start(rs, k) + rs[k].0.len());
        law_face_keeps_emphasis(rs[k].1, sans);
        let off = run_start(rs, k);
        let segs = segments_from(rs, k, off, a, b, sans);
        let rest = segments_from(rs, k + 1, off + rs[k].0.len(), a, b, sans);
        let len = rs[k].0.len() as int;
        let lo = if a > off { a } else { off };
        let hi = if b < off + len { b } else { off + len };
        if lo < hi {
            assert(segs == seq![segs[0]] + rest);
            let g = segs[0];
            assert(g.text == rs[k].0.subrange(lo - off, hi - off));
            assert(g.column == lo - a);
            assert(drawn_from(g, rs, k, a, sans));
            assert forall|j: int| 0 <= j < segs.len() implies #[trigger] piece_drawn(segs[j], rs, k, a, sans) by {
                if j > 0 {
                    assert(segs[j] == rest[j - 1]);
                    assert(piece_drawn(rest[j - 1], rs, k + 1, a, sans));
                    let m = choose|m: int| k + 1 <= m < rs.len() && #[trigger] drawn_from(rest[j - 1], rs, m, a, sans);
                    assert(drawn_from(segs[j], rs, m, a, sans));
                } else {
                    assert(drawn_from(segs[j], rs, k, a, sans));
                }
            }
        } else {
            assert(segs == rest);
            assert forall|j: int| 0 <= j < segs.len() implies #[trigger] piece_drawn(segs[j], rs, k, a, sans) by {
                assert(segs[j] == rest[j]);
                assert(piece_drawn(rest[j], rs, k + 1, a, sans));
                let m = choose|m: int| k + 1 <= m < rs.len() && #[trigger] drawn_from(rest[j], rs, m, a, sans);
                assert(drawn_from(segs[j], rs, m, a, sans));
            }
        }
    } else {
        assert(segments_from(rs, k, run_start(rs, k), a, b, sans).len() == 0);
    }
}

/// Every piece a line draws is a non-empty piece of one run of the text,
/// taken where it is drawn, in that run's emphasis (see `drawn_from`): an
/// italic run is drawn in an italic face, a bold one in a bold face, an
/// underlined one underlined, and plain text in the regular face.
pub proof fn law_line_pieces_keep_style(rs: Seq<(Seq<char>, Style)>, a: int, b: int, sans: bool)
    ensures
        pieces_drawn(segments_from(rs, 0, 0, a, b, sans), rs, 0, a, sans),
{
    assert(rs.take(0) =~= Seq::<(Seq<char>, Style)>::empty());
    assert(run_start(rs, 0) == 0);
    lemma_segments_drawn(rs, 0, a, b, sans);
}

} // verus!
