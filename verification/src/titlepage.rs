//! The layout of the title page. The title (in capitals and bold), credit,
//! authors and source are centred in the upper region, from its line 20;
//! contact and notes go to the lower left and the draft date to the lower
//! right, each column placed so that it ends at the bottom of the region.
use vstd::prelude::*;
use crate::fdx::{lemma_runs_plain, runs_plain};
use crate::paginate::{place_lines, place_spec, restyle, restyle_spec, Alignment, PlacedLine, PlanError};
use crate::pdf::{break_points, break_points_spec, PdfExporter};
use crate::rich::{RichString, Style};
use crate::screenplay::{entries_v, runs, title_page_v, TitlePage, TitlePageV};

verus! {

/// The top of the upper region, in points.
pub const TITLE_TOP: usize = 40;

/// The height of the upper region, in points.
pub const TITLE_UPPER_HEIGHT: usize = 400;

/// The top of the lower region, in points.
pub const TITLE_LOWER_TOP: usize = 440;

/// The line of the upper region where the title starts.
pub const TITLE_FIRST_LINE: usize = 20;

/// The columns of the title page.
#[derive(Clone, Copy, Debug, PartialEq, Eq, Structural)]
pub enum TitleColumn {
    Center,
    Left,
    Right,
}

/// How many characters a line of each column holds; the caller measures
/// them from the paper and the fonts.
#[derive(Clone, Copy, Debug, PartialEq, Eq, Structural)]
pub struct TitleSpans {
    pub center: usize,
    pub left: usize,
    pub right: usize,
}

/// A text set on the title page: its column and alignment, the top of its
/// region in points, and its lines.
pub struct TitleBlock {
    pub text: RichString,
    pub column: TitleColumn,
    pub align: Alignment,
    pub top: usize,
    pub lines: Vec<PlacedLine>,
}

/// A title block as values.
pub struct TitleBlockV {
    pub text: Seq<(Seq<char>, Style)>,
    pub column: TitleColumn,
    pub align: Alignment,
    pub top: int,
    pub lines: Seq<PlacedLine>,
}

pub open spec fn title_block_v(b: TitleBlock) -> TitleBlockV {
    TitleBlockV { text: runs(b.text), column: b.column, align: b.align, top: b.top as int, lines: b.lines@ }
}

/// All spans hold at least two characters.
pub open spec fn title_spans_wide(s: TitleSpans) -> bool {
    s.center >= 2 && s.left >= 2 && s.right >= 2
}

pub open spec fn column_span(s: TitleSpans, c: TitleColumn) -> int {
    match c {
        TitleColumn::Center => s.center as int,
        TitleColumn::Left => s.left as int,
        TitleColumn::Right => s.right as int,
    }
}

/// Where a column is set: its alignment and the top of its region.
pub open spec fn column_place(c: TitleColumn) -> (Alignment, int) {
    match c {
        TitleColumn::Center => (Alignment::Centered, TITLE_TOP as int),
        TitleColumn::Left => (Alignment::LeftToRight, TITLE_LOWER_TOP as int),
        TitleColumn::Right => (Alignment::RightToLeft, TITLE_LOWER_TOP as int),
    }
}

/// Sets entries `i..` of `es` in column `c` from line `line`, while the
/// region (of `max` lines) has room, after the blocks `acc`: the blocks and
/// the next line. A line that starts where its text has no character (an
/// empty entry) makes the layout fail.
pub open spec fn set_from(
    es: Seq<Seq<(Seq<char>, Style)>>,
    i: int,
    s: TitleSpans,
    c: TitleColumn,
    line: int,
    max: int,
    acc: Seq<TitleBlockV>,
) -> Result<(Seq<TitleBlockV>, int), PlanError>
    decreases es.len() - i,
{
    if i < 0 || i >= es.len() {
        Ok((acc, line))
    } else {
        let plain = runs_plain(es[i]);
        match place_spec(plain, break_points_spec(plain, column_span(s, c)), 0, line, max) {
            None => Err(PlanError::NoCharacter),
            Some((ls, l2, _)) => set_from(
                es,
                i + 1,
                s,
                c,
                l2,
                max,
                acc.push(
                    TitleBlockV {
                        text: es[i],
                        column: c,
                        align: column_place(c).0,
                        top: column_place(c).1,
                        lines: ls,
                    },
                ),
            ),
        }
    }
}

/// Sets the entries `es` after `prev`, `gap` lines below where it ended.
pub open spec fn then_set(
    prev: Result<(Seq<TitleBlockV>, int), PlanError>,
    es: Seq<Seq<(Seq<char>, Style)>>,
    gap: int,
    s: TitleSpans,
    c: TitleColumn,
    max: int,
) -> Result<(Seq<TitleBlockV>, int), PlanError> {
    match prev {
        Err(e) => Err(e),
        Ok((bs, l)) => set_from(es, 0, s, c, l + gap, max, bs),
    }
}

/// The lines that entry `rs` takes in a column of `span` characters.
pub open spec fn entry_lines(rs: Seq<(Seq<char>, Style)>, span: int) -> int {
    1 + break_points_spec(runs_plain(rs), span).len() as int
}

/// The lines that entries `es` take in a column of `span` characters.
pub open spec fn lines_of(es: Seq<Seq<(Seq<char>, Style)>>, span: int) -> int
    decreases es.len(),
{
    if es.len() == 0 {
        0
    } else {
        lines_of(es.drop_last(), span) + entry_lines(es.last(), span)
    }
}

/// `a - b`, or 0 where `b` is larger.
pub open spec fn sat_sub(a: int, b: int) -> int {
    if a >= b {
        a - b
    } else {
        0
    }
}

/// The lines of the upper region: it is 400 points high on every paper.
pub open spec fn upper_lines() -> int {
    TITLE_UPPER_HEIGHT as int / 12
}

/// The lines of the lower region of a page `y` points high: from its top
/// at 440 points down to the bottom margin of 65 points, less four lines
/// (48 points) kept free.
pub open spec fn lower_lines(y: int) -> int {
    sat_sub(y, 440int + 65 + 48) / 12
}

/// Entries in capitals and bold, as the title is set.
pub open spec fn titled(v: Seq<Seq<(Seq<char>, Style)>>) -> Seq<Seq<(Seq<char>, Style)>> {
    v.map_values(|r: Seq<(Seq<char>, Style)>| restyle_spec(r, true, false, false, true))
}

/// The title entries as set.
pub open spec fn title_runs(t: TitlePageV) -> Seq<Seq<(Seq<char>, Style)>> {
    titled(t.title)
}

/// The upper region: title, credit, authors and source, each after a
/// blank line, all centred, from line 20 of a region of `um` lines.
pub open spec fn upper_part(t: TitlePageV, s: TitleSpans, um: int) -> Result<(Seq<TitleBlockV>, int), PlanError> {
    let top = set_from(title_runs(t), 0, s, TitleColumn::Center, TITLE_FIRST_LINE as int, um, Seq::empty());
    let credit = then_set(top, t.credit, 1, s, TitleColumn::Center, um);
    let authors = then_set(credit, t.authors, 1, s, TitleColumn::Center, um);
    if t.source.len() > 0 {
        then_set(authors, t.source, 1, s, TitleColumn::Center, um)
    } else {
        authors
    }
}

/// The lines the lower left column takes: contact, notes, and a blank
/// line between them where there are both.
pub open spec fn left_total(t: TitlePageV, s: TitleSpans) -> int {
    let both = t.contact.len() > 0 && t.notes.len() > 0;
    lines_of(t.contact, s.left as int) + lines_of(t.notes, s.left as int) + if both {
        1int
    } else {
        0int
    }
}

/// The lower left column, after the blocks `bs`, placed to end at the
/// bottom of a region of `lm` lines.
pub open spec fn left_part(t: TitlePageV, s: TitleSpans, lm: int, bs: Seq<TitleBlockV>) -> Result<
    (Seq<TitleBlockV>, int),
    PlanError,
> {
    let both = t.contact.len() > 0 && t.notes.len() > 0;
    let contact = set_from(t.contact, 0, s, TitleColumn::Left, sat_sub(lm, left_total(t, s)), lm, bs);
    then_set(contact, t.notes, if both { 1int } else { 0int }, s, TitleColumn::Left, lm)
}

/// The lower right column (the draft date), after the blocks `bs`, placed
/// to end at the bottom of a region of `lm` lines.
pub open spec fn right_part(t: TitlePageV, s: TitleSpans, lm: int, bs: Seq<TitleBlockV>) -> Result<
    (Seq<TitleBlockV>, int),
    PlanError,
> {
    set_from(t.draft_date, 0, s, TitleColumn::Right, sat_sub(lm, lines_of(t.draft_date, s.right as int)), lm, bs)
}

/// The blocks of the title page `t` of a page `y` points high.
pub open spec fn title_plan_spec(t: TitlePageV, s: TitleSpans, y: int) -> Result<Seq<TitleBlockV>, PlanError> {
    let lm = lower_lines(y);
    match upper_part(t, s, upper_lines()) {
        Err(e) => Err(e),
        Ok((bs, _)) => match left_part(t, s, lm, bs) {
            Err(e) => Err(e),
            Ok((bs2, _)) => match right_part(t, s, lm, bs2) {
                Err(e) => Err(e),
                Ok((bs3, _)) => Ok(bs3),
            },
        },
    }
}

/// The lines that entries `i..` of `es` take in a column of `span` characters.
pub open spec fn lines_from(es: Seq<Seq<(Seq<char>, Style)>>, i: int, span: int) -> int
    decreases es.len() - i,
{
    if i < 0 || i >= es.len() {
        0
    } else {
        entry_lines(es[i], span) + lines_from(es, i + 1, span)
    }
}

proof fn lemma_lines_split(es: Seq<Seq<(Seq<char>, Style)>>, i: int, span: int)
    requires
        0 <= i <= es.len(),
    ensures
        lines_of(es.take(i), span) + lines_from(es, i, span) == lines_of(es, span),
    decreases es.len() - i,
{
    if i < es.len() {
        lemma_lines_split(es, i + 1, span);
        assert(es.take(i + 1).drop_last() =~= es.take(i));
    } else {
        assert(es.take(i) =~= es);
    }
}

/// Placing a text whose lines fit: they all go, one a line.
proof fn lemma_place_fits(plain: Seq<char>, bps: Seq<crate::pdf::BreakPoint>, bi: int, line: int, lm: int)
    requires
        0 <= bi <= bps.len() + 1,
        line + (bps.len() + 1 - bi) <= lm,
    ensures
        place_spec(plain, bps, bi, line, lm) matches Some((ls, l2, r)) ==> l2 == line + (bps.len() + 1 - bi),
    decreases bps.len() + 1 - bi,
{
    if bi <= bps.len() {
        lemma_place_fits(plain, bps, bi + 1, line + 1, lm);
    }
}

/// Setting entries whose lines fit: the next line is the last one's next.
proof fn lemma_set_fits(
    es: Seq<Seq<(Seq<char>, Style)>>,
    i: int,
    s: TitleSpans,
    c: TitleColumn,
    line: int,
    max: int,
    acc: Seq<TitleBlockV>,
)
    requires
        0 <= i <= es.len(),
        line + lines_from(es, i, column_span(s, c)) <= max,
    ensures
        set_from(es, i, s, c, line, max, acc) matches Ok((bs, l2)) ==> l2 == line + lines_from(
            es,
            i,
            column_span(s, c),
        ),
    decreases es.len() - i,
{
    if i < es.len() {
        let plain = runs_plain(es[i]);
        let bps = break_points_spec(plain, column_span(s, c));
        lemma_lines_from_nonneg(es, i + 1, column_span(s, c));
        lemma_place_fits(plain, bps, 0, line, max);
        match place_spec(plain, bps, 0, line, max) {
            Some((ls, l2, _)) => {
                let blk = TitleBlockV {
                    text: es[i],
                    column: c,
                    align: column_place(c).0,
                    top: column_place(c).1,
                    lines: ls,
                };
                lemma_set_fits(es, i + 1, s, c, l2, max, acc.push(blk));
            },
            None => {},
        }
    }
}

proof fn lemma_lines_from_nonneg(es: Seq<Seq<(Seq<char>, Style)>>, i: int, span: int)
    ensures
        lines_from(es, i, span) >= 0,
    decreases es.len() - i,
{
    if 0 <= i < es.len() {
        lemma_lines_from_nonneg(es, i + 1, span);
    }
}

/// The lower columns are bottom-aligned: where the lines of a column fit
/// the lower region, the column ends on the region's last line.
pub proof fn law_lower_columns_end_at_bottom(t: TitlePageV, s: TitleSpans, lm: int, bs: Seq<TitleBlockV>)
    requires
        lm >= 0,
    ensures
        left_total(t, s) <= lm ==> (left_part(t, s, lm, bs) matches Ok((b2, end)) ==> end == lm),
        lines_of(t.draft_date, s.right as int) <= lm ==> (right_part(t, s, lm, bs) matches Ok((b2, end)) ==> end
            == lm),
{
    let sl = s.left as int;
    let sr = s.right as int;
    lemma_lines_split(t.contact, 0, sl);
    lemma_lines_split(t.notes, 0, sl);
    lemma_lines_split(t.draft_date, 0, sr);
    assert(t.contact.take(0) =~= Seq::<Seq<(Seq<char>, Style)>>::empty());
    assert(t.notes.take(0) =~= Seq::<Seq<(Seq<char>, Style)>>::empty());
    assert(t.draft_date.take(0) =~= Seq::<Seq<(Seq<char>, Style)>>::empty());
    lemma_lines_of_nonneg(t.contact, sl);
    lemma_lines_of_nonneg(t.notes, sl);
    lemma_lines_of_nonneg(t.draft_date, sr);
    if left_total(t, s) <= lm {
        let both = t.contact.len() > 0 && t.notes.len() > 0;
        let gap = if both { 1int } else { 0int };
        let start = lm - left_total(t, s);
        lemma_set_fits(t.contact, 0, s, TitleColumn::Left, start, lm, bs);
        match set_from(t.contact, 0, s, TitleColumn::Left, start, lm, bs) {
            Ok((b1, l1)) => {
                lemma_set_fits(t.notes, 0, s, TitleColumn::Left, l1 + gap, lm, b1);
            },
            Err(_) => {},
        }
    }
    if lines_of(t.draft_date, sr) <= lm {
        lemma_set_fits(t.draft_date, 0, s, TitleColumn::Right, lm - lines_of(t.draft_date, sr), lm, bs);
    }
}

proof fn lemma_place_bound(plain: Seq<char>, bps: Seq<crate::pdf::BreakPoint>, bi: int, line: int, lm: int)
    ensures
        place_spec(plain, bps, bi, line, lm) matches Some((ls, l2, r)) ==> l2 <= if line >= lm {
            line
        } else {
            lm
        },
    decreases bps.len() + 1 - bi,
{
    if 0 <= bi <= bps.len() && line < lm {
        lemma_place_bound(plain, bps, bi + 1, line + 1, lm);
    }
}

proof fn lemma_lines_of_nonneg(es: Seq<Seq<(Seq<char>, Style)>>, span: int)
    ensures
        lines_of(es, span) >= 0,
    decreases es.len(),
{
    if es.len() > 0 {
        lemma_lines_of_nonneg(es.drop_last(), span);
    }
}

pub proof fn lemma_sat_sub_twice(a: int, b: int, c: int)
    requires
        b >= 0,
        c >= 0,
    ensures
        sat_sub(sat_sub(a, b), c) == sat_sub(a, b + c),
{
}

fn column_span_of(s: &TitleSpans, c: TitleColumn) -> (r: usize)
    ensures
        r == column_span(*s, c),
{
    match c {
        TitleColumn::Center => s.center,
        TitleColumn::Left => s.left,
        TitleColumn::Right => s.right,
    }
}

/// `start` less the lines that `es` take in a column of `span` characters.
fn less_lines(start: usize, es: &Vec<RichString>, span: usize) -> (r: usize)
    requires
        span >= 2,
    ensures
        r == sat_sub(start as int, lines_of(entries_v(es@), span as int)),
{
    let ghost all = entries_v(es@);
    let mut cur = start;
    let mut i: usize = 0;
    while i < es.len()
        invariant
            i <= es@.len(),
            span >= 2,
            all == entries_v(es@),
            cur == sat_sub(start as int, lines_of(all.take(i as int), span as int)),
            lines_of(all.take(i as int), span as int) >= 0,
        decreases es.len() - i,
    {
        proof {
            lemma_runs_plain(es@[i as int].elements@);
            assert(all.take(i + 1).drop_last() =~= all.take(i as int));
            assert(all.take(i + 1).last() == runs(es@[i as int]));
        }
        let n = break_points(&es[i], span).len();
        proof {
            lemma_sat_sub_twice(start as int, lines_of(all.take(i as int), span as int), 1);
            lemma_sat_sub_twice(start as int, lines_of(all.take(i as int), span as int) + 1, n as int);
        }
        cur = cur.saturating_sub(1).saturating_sub(n);
        i += 1;
    }
    proof {
        assert(all.take(es@.len() as int) =~= all);
    }
    cur
}

/// Sets the entries `es` (in capitals and bold, with `title`) in column `c`
/// from line `line` (see `set_from`).
fn set_entries(
    es: &Vec<RichString>,
    title: bool,
    s: &TitleSpans,
    c: TitleColumn,
    line: usize,
    max: usize,
    out: &mut Vec<TitleBlock>,
) -> (r: Result<usize, PlanError>)
    requires
        title_spans_wide(*s),
        max < usize::MAX,
    ensures
        ({
            let v = if title {
                titled(entries_v(es@))
            } else {
                entries_v(es@)
            };
            let acc = old(out)@.map_values(|b: TitleBlock| title_block_v(b));
            match (set_from(v, 0, *s, c, line as int, max as int, acc), r) {
                (Ok((bs, l)), Ok(l2)) => l == l2 && final(out)@.map_values(|b: TitleBlock| title_block_v(b)) == bs,
                (Err(e1), Err(e2)) => e1 == e2,
                _ => false,
            }
        }),
        r matches Ok(l2) ==> l2 <= if line >= max {
            line
        } else {
            max
        },
{
    let ghost v = if title {
        titled(entries_v(es@))
    } else {
        entries_v(es@)
    };
    let ghost acc0 = out@.map_values(|b: TitleBlock| title_block_v(b));
    let span = column_span_of(s, c);
    let (align, top) = match c {
        TitleColumn::Center => (Alignment::Centered, TITLE_TOP),
        TitleColumn::Left => (Alignment::LeftToRight, TITLE_LOWER_TOP),
        TitleColumn::Right => (Alignment::RightToLeft, TITLE_LOWER_TOP),
    };
    let ghost bound = if line >= max {
        line
    } else {
        max
    };
    let mut cur = line;
    let mut i: usize = 0;
    while i < es.len()
        invariant
            i <= es@.len(),
            cur <= bound,
            line <= bound,
            max <= bound,
            span == column_span(*s, c),
            span >= 2,
            max < usize::MAX,
            (align, top as int) == column_place(c),
            v.len() == es@.len(),
            forall|k: int| 0 <= k < es@.len() ==> #[trigger] v[k] == if title {
                restyle_spec(runs(es@[k]), true, false, false, true)
            } else {
                runs(es@[k])
            },
            acc0 == old(out)@.map_values(|b: TitleBlock| title_block_v(b)),
            v == if title {
                titled(entries_v(es@))
            } else {
                entries_v(es@)
            },
            set_from(v, 0, *s, c, line as int, max as int, acc0) == set_from(
                v,
                i as int,
                *s,
                c,
                cur as int,
                max as int,
                out@.map_values(|b: TitleBlock| title_block_v(b)),
            ),
        decreases es.len() - i,
    {
        let text = if title {
            restyle(&es[i], true, false, false, true)
        } else {
            crate::screenplay::copy_rich(&es[i])
        };
        proof {
            lemma_runs_plain(text.elements@);
            assert(v[i as int] == runs(text));
        }
        let plain = text.to_plain_chars();
        let bps = break_points(&text, span);
        proof {
            lemma_place_bound(plain@, bps@, 0, cur as int, max as int);
            assert(runs_plain(v[i as int]) == plain@);
            assert(bps@ == break_points_spec(runs_plain(v[i as int]), column_span(*s, c)));
        }
        match place_lines(&plain, &bps, 0, cur, max) {
            None => {
                proof {
                    assert(set_from(v, i as int, *s, c, cur as int, max as int, out@.map_values(|b: TitleBlock| title_block_v(b))) == Err::<(Seq<TitleBlockV>, int), PlanError>(PlanError::NoCharacter));
                }
                return Err(PlanError::NoCharacter);
            },
            Some((lines, l2, _)) => {
                let ghost before = out@;
                let b = TitleBlock { text, column: c, align, top, lines };
                out.push(b);
                proof {
                    assert(out@.map_values(|b: TitleBlock| title_block_v(b)) =~= before.map_values(
                        |b: TitleBlock| title_block_v(b),
                    ).push(title_block_v(b)));
                }
                cur = l2;
            },
        }
        i += 1;
    }
    Ok(cur)
}

impl PdfExporter {
    /// The layout of title page `titlepage` on this exporter's paper, its
    /// columns `spans` characters wide (see `title_plan_spec`).
    #[verifier::rlimit(30)]
    pub fn plan_title_page(&self, titlepage: &TitlePage, spans: &TitleSpans) -> (r: Result<
        Vec<TitleBlock>,
        PlanError,
    >)
        requires
            title_spans_wide(*spans),
        ensures
            match (title_plan_spec(title_page_v(*titlepage), *spans, self.paper_size.y as int), r) {
                (Ok(bs), Ok(v)) => v@.map_values(|b: TitleBlock| title_block_v(b)) == bs,
                (Err(e1), Err(e2)) => e1 == e2,
                _ => false,
            },
    {
        let y = self.paper_size.y;
        let um = TITLE_UPPER_HEIGHT / 12;
        let lm = y.saturating_sub(440 + 65 + 48) / 12;
        let t = titlepage;
        let mut out: Vec<TitleBlock> = Vec::new();
        proof {
            assert(out@.map_values(|b: TitleBlock| title_block_v(b)) =~= Seq::<TitleBlockV>::empty());
        }
        let l = match set_entries(&t.title, true, spans, TitleColumn::Center, TITLE_FIRST_LINE, um, &mut out) {
            Ok(l) => l,
            Err(e) => {
                return Err(e);
            },
        };
        let l = match set_entries(&t.credit, false, spans, TitleColumn::Center, l + 1, um, &mut out) {
            Ok(l) => l,
            Err(e) => {
                return Err(e);
            },
        };
        let l = match set_entries(&t.authors, false, spans, TitleColumn::Center, l + 1, um, &mut out) {
            Ok(l) => l,
            Err(e) => {
                return Err(e);
            },
        };
        if t.source.len() > 0 {
            match set_entries(&t.source, false, spans, TitleColumn::Center, l + 1, um, &mut out) {
                Ok(_) => {},
                Err(e) => {
                    return Err(e);
                },
            }
        }
        let both = t.contact.len() > 0 && t.notes.len() > 0;
        let mut left = less_lines(lm, &t.contact, spans.left);
        left = less_lines(left, &t.notes, spans.left);
        if both {
            left = left.saturating_sub(1);
        }
        proof {
            let lc = lines_of(entries_v(t.contact@), spans.left as int);
            let ln = lines_of(entries_v(t.notes@), spans.left as int);
            lemma_lines_of_nonneg(entries_v(t.contact@), spans.left as int);
            lemma_lines_of_nonneg(entries_v(t.notes@), spans.left as int);
            lemma_sat_sub_twice(lm as int, lc, ln);
            lemma_sat_sub_twice(lm as int, lc + ln, 1);
        }
        let l = match set_entries(&t.contact, false, spans, TitleColumn::Left, left, lm, &mut out) {
            Ok(l) => l,
            Err(e) => {
                return Err(e);
            },
        };
        match set_entries(&t.notes, false, spans, TitleColumn::Left, if both { l + 1 } else { l }, lm, &mut out) {
            Ok(_) => {},
            Err(e) => {
                return Err(e);
            },
        }
        let right = less_lines(lm, &t.draft_date, spans.right);
        match set_entries(&t.draft_date, false, spans, TitleColumn::Right, right, lm, &mut out) {
            Ok(_) => {},
            Err(e) => {
                return Err(e);
            },
        }
        Ok(out)
    }
}

} // verus!
