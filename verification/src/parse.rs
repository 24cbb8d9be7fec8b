//! Reading a Fountain script into a screenplay: every line is classified,
//! the title page block gives the title page, and each body line gives an
//! element (a speech takes its character line and the lines that follow).
use vstd::prelude::*;
use crate::cards::card_heading;
use crate::chars::{chars_of, string_of};
use crate::classify::{LineType, classify, classify_spec, is_key_line, key_upper};
use crate::production::{scene_tag, scene_tag_of, strip_number};
use crate::rich::{parse_markup, markup_spec, plain_style, runs_maximal, styled_chars, RichString};
use crate::screenplay::{spans_v, Dialogue, DialogueElement, Element, Screenplay, Span, TitlePage};
use crate::fdx::{span_ok, spans_ok};
use crate::text::{
    char_index, char_index_spec, ends_with, eq_str, ends_with_spec, find, find_spec, lemma_char_index_bounds,
    lemma_find_bounds, push_all, slice_chars, split_spec, starts_with, starts_with_spec, trim, trim_spec,
};

verus! {

/// `s` without its closed `[[...]]` notes.
pub open spec fn remove_notes(s: Seq<char>) -> Seq<char>
    decreases s.len(),
{
    match find_spec(s, "[["@, 0) {
        None => s,
        Some(a) => match find_spec(s, "]]"@, a) {
            None => s,
            Some(b) => {
                proof {
                    lemma_find_bounds(s, "[["@, 0);
                    lemma_find_bounds(s, "]]"@, a);
                    reveal_strlit("]]");
                }
                if 0 <= a && b + 2 <= s.len() {
                    s.take(a) + remove_notes(s.skip(b + 2))
                } else {
                    s
                }
            },
        },
    }
}

/// The text of a line: without notes and surrounding whitespace.
pub open spec fn clean(s: Seq<char>) -> Seq<char> {
    trim_spec(remove_notes(s))
}

/// `t` without its first character when that is `c`, trimmed.
pub open spec fn drop_mark(t: Seq<char>, c: char) -> Seq<char> {
    if t.len() > 0 && t[0] == c {
        trim_spec(t.skip(1))
    } else {
        t
    }
}

/// The slug of a scene heading line: without the `.` that forces a
/// heading and without its scene number tag.
pub open spec fn slug_text(line: Seq<char>) -> Seq<char> {
    card_heading(unforced(clean(line)))
}

/// A heading without the `.` that forces it.
pub open spec fn unforced(t: Seq<char>) -> Seq<char> {
    if starts_with_spec(t, "."@) && !starts_with_spec(t, ".."@) {
        t.skip(1)
    } else {
        t
    }
}

/// The scene number tag of a scene heading line.
pub open spec fn heading_number(line: Seq<char>) -> Option<Seq<char>> {
    scene_tag(unforced(clean(line)))
}

/// `t` without the leading `#` of a section.
pub open spec fn drop_hashes(t: Seq<char>) -> Seq<char>
    decreases t.len(),
{
    if t.len() > 0 && t[0] == '#' {
        drop_hashes(t.skip(1))
    } else {
        trim_spec(t)
    }
}

/// Centered text: without `>` before it and `<` after it.
pub open spec fn centered_text(t: Seq<char>) -> Seq<char> {
    let a = drop_mark(t, '>');
    if a.len() > 0 && a.last() == '<' {
        trim_spec(a.drop_last())
    } else {
        a
    }
}

/// A character cue: the name without `@` and `^`, and the extension in
/// brackets at its end, if any.
pub open spec fn cue_parts(line: Seq<char>) -> (Seq<char>, Option<Seq<char>>) {
    let t0 = drop_mark(clean(line), '@');
    let t = if t0.len() > 0 && t0.last() == '^' { trim_spec(t0.drop_last()) } else { t0 };
    if t.len() > 0 && t.last() == ')' {
        match char_index_spec(t, '(', 0) {
            Some(p) => (trim_spec(t.take(p)), Some(t.subrange(p + 1, t.len() - 1))),
            None => (t, None),
        }
    } else {
        (t, None)
    }
}

/// The rich string `r` reads the emphasis markup of `text`.
pub open spec fn rich_is(r: RichString, text: Seq<char>) -> bool {
    styled_chars(r.elements@) == markup_spec(text, plain_style()) && runs_maximal(r.elements@)
}

/// `v` without its closed `[[...]]` notes.
pub fn strip_notes(v: &Vec<char>) -> (r: Vec<char>)
    ensures
        r@ == remove_notes(v@),
    decreases v@.len(),
{
    let open = chars_of("[[");
    let close = chars_of("]]");
    proof {
        reveal_strlit("[[");
        reveal_strlit("]]");
        lemma_find_bounds(v@, "[["@, 0);
    }
    let n = v.len();
    match find(v, &open, 0) {
        None => slice_chars(v, 0, n),
        Some(a) => {
            proof {
                lemma_find_bounds(v@, "]]"@, a as int);
            }
            match find(v, &close, a) {
                None => slice_chars(v, 0, n),
                Some(b) => {
                    let rest = slice_chars(v, b + 2, n);
                    proof {
                        assert(rest@ == v@.skip(b + 2));
                    }
                    let tail = strip_notes(&rest);
                    let mut head = slice_chars(v, 0, a);
                    push_all(&mut head, &tail);
                    proof {
                        assert(v@.subrange(0, a as int) == v@.take(a as int));
                    }
                    head
                },
            }
        },
    }
}

/// The text of a line: without notes and surrounding whitespace.
pub fn clean_line(v: &Vec<char>) -> (r: Vec<char>)
    ensures
        r@ == clean(v@),
{
    let s = strip_notes(v);
    trim(&s)
}

fn drop_mark_of(t: &Vec<char>, c: char) -> (r: Vec<char>)
    ensures
        r@ == drop_mark(t@, c),
{
    if t.len() > 0 && t[0] == c {
        let rest = slice_chars(t, 1, t.len());
        proof {
            assert(rest@ == t@.skip(1));
        }
        trim(&rest)
    } else {
        slice_chars(t, 0, t.len())
    }
}

fn unforced_of(t: &Vec<char>) -> (r: Vec<char>)
    ensures
        r@ == unforced(t@),
{
    proof {
        reveal_strlit(".");
    }
    if starts_with(t, ".") && !starts_with(t, "..") {
        let rest = slice_chars(t, 1, t.len());
        proof {
            assert(rest@ == t@.skip(1));
        }
        rest
    } else {
        slice_chars(t, 0, t.len())
    }
}

fn drop_hashes_of(t: &Vec<char>) -> (r: Vec<char>)
    ensures
        r@ == drop_hashes(t@),
{
    let mut i: usize = 0;
    proof {
        assert(t@.skip(0) =~= t@);
    }
    while i < t.len() && t[i] == '#'
        invariant
            i <= t@.len(),
            drop_hashes(t@) == drop_hashes(t@.skip(i as int)),
        decreases t.len() - i,
    {
        proof {
            assert(t@.skip(i as int).skip(1) =~= t@.skip(i + 1));
        }
        i += 1;
    }
    let rest = slice_chars(t, i, t.len());
    proof {
        assert(rest@ =~= t@.skip(i as int));
    }
    trim(&rest)
}

fn centered_of(t: &Vec<char>) -> (r: Vec<char>)
    ensures
        r@ == centered_text(t@),
{
    let a = drop_mark_of(t, '>');
    if a.len() > 0 && a[a.len() - 1] == '<' {
        let b = slice_chars(&a, 0, a.len() - 1);
        proof {
            assert(b@ =~= a@.drop_last());
        }
        trim(&b)
    } else {
        a
    }
}

fn cue_of(line: &Vec<char>) -> (r: (Vec<char>, Option<Vec<char>>))
    ensures
        r.0@ == cue_parts(line@).0,
        r.1 matches Some(e) ==> cue_parts(line@).1 == Some(e@),
        r.1 is None ==> cue_parts(line@).1 is None,
{
    let c = clean_line(line);
    let t0 = drop_mark_of(&c, '@');
    let t = if t0.len() > 0 && t0[t0.len() - 1] == '^' {
        let b = slice_chars(&t0, 0, t0.len() - 1);
        proof {
            assert(b@ =~= t0@.drop_last());
        }
        trim(&b)
    } else {
        t0
    };
    let n = t.len();
    if n > 0 && t[n - 1] == ')' {
        proof {
            lemma_char_index_bounds(t@, '(', 0);
        }
        match char_index(&t, '(', 0) {
            Some(p) => {
                let name = slice_chars(&t, 0, p);
                proof {
                    assert(name@ == t@.take(p as int));
                }
                (trim(&name), Some(slice_chars(&t, p + 1, n - 1)))
            },
            None => (t, None),
        }
    } else {
        (t, None)
    }
}

/// A rich string reading the emphasis markup of `text`.
pub fn rich_of(text: &Vec<char>) -> (r: RichString)
    ensures
        rich_is(r, text@),
{
    RichString { elements: parse_markup(text) }
}


/// A part of a speech as read.
pub enum PartP {
    Paren(Seq<char>),
    Line(Seq<char>),
}

/// A speech as read: name, extension and parts.
pub struct SpeechP {
    pub name: Seq<char>,
    pub ext: Option<Seq<char>>,
    pub parts: Seq<PartP>,
}

/// An element as read, with its texts before emphasis markup is read.
pub enum ElemP {
    Heading(Seq<char>, Option<Seq<char>>),
    Action(Seq<char>),
    Speech(SpeechP),
    Dual(SpeechP, SpeechP),
    Transition(Seq<char>),
    Centered(Seq<char>),
    Synopsis(Seq<char>),
    Section(Seq<char>),
    Lyrics(Seq<char>),
    PageBreak,
}

/// An element with its first and last line, counted from 1.
pub struct SpanP {
    pub start: int,
    pub end: int,
    pub elem: ElemP,
}

/// The title page entries as read.
pub struct TitleP {
    pub title: Seq<Seq<char>>,
    pub credit: Seq<Seq<char>>,
    pub authors: Seq<Seq<char>>,
    pub source: Seq<Seq<char>>,
    pub draft_date: Seq<Seq<char>>,
    pub contact: Seq<Seq<char>>,
    pub notes: Seq<Seq<char>>,
}

/// What has been read so far: the title page, whether the script has one,
/// the key of the title page entry being read, and the elements.
pub struct ParseP {
    pub title: TitleP,
    pub has_title: bool,
    pub key: Seq<char>,
    pub spans: Seq<SpanP>,
}

pub open spec fn parse_start() -> ParseP {
    ParseP {
        title: TitleP {
            title: Seq::empty(),
            credit: Seq::empty(),
            authors: Seq::empty(),
            source: Seq::empty(),
            draft_date: Seq::empty(),
            contact: Seq::empty(),
            notes: Seq::empty(),
        },
        has_title: false,
        key: Seq::empty(),
        spans: Seq::empty(),
    }
}

/// The title page with the entry `v` added under the key `key` (upper
/// case); an unknown key adds nothing.
pub open spec fn add_entry(t: TitleP, key: Seq<char>, v: Seq<char>) -> TitleP {
    if key == "TITLE"@ {
        TitleP { title: t.title.push(v), ..t }
    } else if key == "CREDIT"@ {
        TitleP { credit: t.credit.push(v), ..t }
    } else if key == "AUTHOR"@ || key == "AUTHORS"@ {
        TitleP { authors: t.authors.push(v), ..t }
    } else if key == "SOURCE"@ {
        TitleP { source: t.source.push(v), ..t }
    } else if key == "DRAFT DATE"@ {
        TitleP { draft_date: t.draft_date.push(v), ..t }
    } else if key == "CONTACT"@ {
        TitleP { contact: t.contact.push(v), ..t }
    } else if key == "NOTES"@ {
        TitleP { notes: t.notes.push(v), ..t }
    } else {
        t
    }
}

/// The value of a `Key: value` line.
pub open spec fn key_value_text(line: Seq<char>) -> Seq<char> {
    match char_index_spec(line, ':', 0) {
        Some(i) => clean(line.skip(i + 1)),
        None => Seq::empty(),
    }
}

/// The elements with `e`, read from line `i` (0-based), added.
pub open spec fn push_span(spans: Seq<SpanP>, i: int, e: ElemP) -> Seq<SpanP> {
    spans.push(SpanP { start: i + 1, end: i + 1, elem: e })
}

/// A part read from line `i` (0-based) added to the speech before it,
/// which then ends at that line; without a speech before it, nothing.
pub open spec fn attach(spans: Seq<SpanP>, i: int, p: PartP) -> Seq<SpanP> {
    if spans.len() == 0 {
        spans
    } else {
        let last = spans.last();
        match last.elem {
            ElemP::Speech(s) => spans.drop_last().push(
                SpanP { start: last.start, end: i + 1, elem: ElemP::Speech(SpeechP { parts: s.parts.push(p), ..s }) },
            ),
            ElemP::Dual(a, b) => spans.drop_last().push(
                SpanP { start: last.start, end: i + 1, elem: ElemP::Dual(a, SpeechP { parts: b.parts.push(p), ..b }) },
            ),
            _ => spans,
        }
    }
}

/// A speech whose cue ends in `^`, read from line `i`: it joins the speech
/// before it as dual dialogue; without a speech before it, it stands alone.
pub open spec fn add_dual(spans: Seq<SpanP>, i: int, sp: SpeechP) -> Seq<SpanP> {
    if spans.len() > 0 && spans.last().elem is Speech {
        let last = spans.last();
        match last.elem {
            ElemP::Speech(a) => spans.drop_last().push(SpanP { start: last.start, end: i + 1, elem: ElemP::Dual(a, sp) }),
            _ => spans,
        }
    } else {
        push_span(spans, i, ElemP::Speech(sp))
    }
}

/// Reading line `i` (0-based) of type `ty`.
pub open spec fn parse_step(st: ParseP, i: int, ty: LineType, line: Seq<char>) -> ParseP {
    match ty {
        LineType::MetadataTitle | LineType::MetadataKey => {
            let k = key_upper(line);
            let v = key_value_text(line);
            ParseP { key: k, has_title: true, title: if v.len() > 0 { add_entry(st.title, k, v) } else { st.title }, ..st }
        },
        LineType::MetadataValue => {
            let v = clean(line);
            if v.len() > 0 {
                ParseP { title: add_entry(st.title, st.key, v), ..st }
            } else {
                st
            }
        },
        LineType::SceneHeading => ParseP { spans: push_span(st.spans, i, ElemP::Heading(slug_text(line), heading_number(line))), ..st },
        LineType::Action => ParseP { spans: push_span(st.spans, i, ElemP::Action(drop_mark(clean(line), '!'))), ..st },
        LineType::Character => {
            let (n, e) = cue_parts(line);
            ParseP { spans: push_span(st.spans, i, ElemP::Speech(SpeechP { name: n, ext: e, parts: Seq::empty() })), ..st }
        },
        LineType::DualDialogueCharacter => {
            let (n, e) = cue_parts(line);
            ParseP { spans: add_dual(st.spans, i, SpeechP { name: n, ext: e, parts: Seq::empty() }), ..st }
        },
        LineType::Parenthetical => ParseP { spans: attach(st.spans, i, PartP::Paren(clean(line))), ..st },
        LineType::Dialogue => ParseP { spans: attach(st.spans, i, PartP::Line(clean(line))), ..st },
        LineType::Transition => ParseP { spans: push_span(st.spans, i, ElemP::Transition(drop_mark(clean(line), '>'))), ..st },
        LineType::Centered => ParseP { spans: push_span(st.spans, i, ElemP::Centered(centered_text(clean(line)))), ..st },
        LineType::Synopsis => ParseP { spans: push_span(st.spans, i, ElemP::Synopsis(drop_mark(clean(line), '='))), ..st },
        LineType::Section => ParseP { spans: push_span(st.spans, i, ElemP::Section(drop_hashes(clean(line)))), ..st },
        LineType::Lyrics => ParseP { spans: push_span(st.spans, i, ElemP::Lyrics(drop_mark(clean(line), '~'))), ..st },
        LineType::PageBreak => ParseP { spans: push_span(st.spans, i, ElemP::PageBreak), ..st },
        _ => st,
    }
}

/// What has been read after the first `n` lines.
pub open spec fn parse_run(lines: Seq<Seq<char>>, types: Seq<LineType>, n: int) -> ParseP
    decreases n,
{
    if n <= 0 {
        parse_start()
    } else {
        parse_step(parse_run(lines, types, n - 1), n - 1, types[n - 1], lines[n - 1])
    }
}

/// The script read from its lines.
pub open spec fn parse_lines_spec(lines: Seq<Seq<char>>) -> ParseP {
    parse_run(lines, classify_spec(lines), lines.len() as int)
}

/// Rich strings reading the given texts, one each.
pub open spec fn entries_are(v: Seq<RichString>, t: Seq<Seq<char>>) -> bool {
    v.len() == t.len() && forall|k: int| 0 <= k < v.len() ==> rich_is(#[trigger] v[k], t[k])
}

pub open spec fn title_is(tp: TitlePage, t: TitleP) -> bool {
    &&& entries_are(tp.title@, t.title)
    &&& entries_are(tp.credit@, t.credit)
    &&& entries_are(tp.authors@, t.authors)
    &&& entries_are(tp.source@, t.source)
    &&& entries_are(tp.draft_date@, t.draft_date)
    &&& entries_are(tp.contact@, t.contact)
    &&& entries_are(tp.notes@, t.notes)
}

pub open spec fn part_is(p: DialogueElement, q: PartP) -> bool {
    match (p, q) {
        (DialogueElement::Parenthetical(r), PartP::Paren(t)) => rich_is(r, t),
        (DialogueElement::Line(r), PartP::Line(t)) => rich_is(r, t),
        _ => false,
    }
}

pub open spec fn speech_is(d: Dialogue, s: SpeechP) -> bool {
    &&& rich_is(d.character, s.name)
    &&& match (d.extension, s.ext) {
        (Some(e), Some(t)) => rich_is(e, t),
        (None, None) => true,
        _ => false,
    }
    &&& d.elements@.len() == s.parts.len()
    &&& forall|k: int| 0 <= k < s.parts.len() ==> part_is(#[trigger] d.elements@[k], s.parts[k])
}

pub open spec fn element_is(e: Element, p: ElemP) -> bool {
    match (e, p) {
        (Element::Heading { slug, number }, ElemP::Heading(t, n)) => rich_is(slug, t) && match (number, n) {
            (Some(a), Some(b)) => a@ == b,
            (None, None) => true,
            _ => false,
        },
        (Element::Action(r), ElemP::Action(t)) => rich_is(r, t),
        (Element::Dialogue(d), ElemP::Speech(s)) => speech_is(d, s),
        (Element::DualDialogue(a, b), ElemP::Dual(x, y)) => speech_is(a, x) && speech_is(b, y),
        (Element::Transition(r), ElemP::Transition(t)) => rich_is(r, t),
        (Element::CenteredText(r), ElemP::Centered(t)) => rich_is(r, t),
        (Element::Synopsis(r), ElemP::Synopsis(t)) => rich_is(r, t),
        (Element::Section(r), ElemP::Section(t)) => rich_is(r, t),
        (Element::Lyrics(r), ElemP::Lyrics(t)) => rich_is(r, t),
        (Element::PageBreak, ElemP::PageBreak) => true,
        _ => false,
    }
}

pub open spec fn span_is(s: Span, p: SpanP) -> bool {
    s.start_line == p.start && s.end_line == p.end && element_is(s.inner, p.elem)
}

pub open spec fn spans_are(v: Seq<Span>, p: Seq<SpanP>) -> bool {
    v.len() == p.len() && forall|k: int| 0 <= k < v.len() ==> span_is(#[trigger] v[k], p[k])
}

/// The screenplay `r` is what `p` read: a title page exactly when the
/// script has one, and the elements in order.
pub open spec fn screenplay_is(r: Screenplay, p: ParseP) -> bool {
    &&& (r.titlepage is Some <==> p.has_title)
    &&& (r.titlepage matches Some(tp) ==> title_is(tp, p.title))
    &&& spans_are(r.elements@, p.spans)
}


fn push_entry(v: &mut Vec<RichString>, text: &Vec<char>, Ghost(t): Ghost<Seq<Seq<char>>>)
    requires
        entries_are(old(v)@, t),
    ensures
        entries_are(final(v)@, t.push(text@)),
{
    v.push(rich_of(text));
    proof {
        assert forall|k: int| 0 <= k < v@.len() implies rich_is(#[trigger] v@[k], t.push(text@)[k]) by {
            if k < t.len() {
                assert(v@[k] == old(v)@[k]);
            }
        }
    }
}

fn add_title_entry(tp: &mut TitlePage, key: &Vec<char>, v: &Vec<char>, Ghost(t): Ghost<TitleP>)
    requires
        title_is(*old(tp), t),
    ensures
        title_is(*final(tp), add_entry(t, key@, v@)),
{
    if eq_str(key, "TITLE") {
        push_entry(&mut tp.title, v, Ghost(t.title));
    } else if eq_str(key, "CREDIT") {
        push_entry(&mut tp.credit, v, Ghost(t.credit));
    } else if eq_str(key, "AUTHOR") || eq_str(key, "AUTHORS") {
        push_entry(&mut tp.authors, v, Ghost(t.authors));
    } else if eq_str(key, "SOURCE") {
        push_entry(&mut tp.source, v, Ghost(t.source));
    } else if eq_str(key, "DRAFT DATE") {
        push_entry(&mut tp.draft_date, v, Ghost(t.draft_date));
    } else if eq_str(key, "CONTACT") {
        push_entry(&mut tp.contact, v, Ghost(t.contact));
    } else if eq_str(key, "NOTES") {
        push_entry(&mut tp.notes, v, Ghost(t.notes));
    }
}

fn push_elem(spans: &mut Vec<Span>, i: usize, e: Element, Ghost(sp): Ghost<Seq<SpanP>>, Ghost(p): Ghost<ElemP>)
    requires
        spans_are(old(spans)@, sp),
        element_is(e, p),
        i < usize::MAX,
    ensures
        spans_are(final(spans)@, push_span(sp, i as int, p)),
{
    spans.push(Span { start_line: i + 1, end_line: i + 1, inner: e });
    proof {
        let q = push_span(sp, i as int, p);
        assert forall|k: int| 0 <= k < spans@.len() implies span_is(#[trigger] spans@[k], q[k]) by {
            if k < sp.len() {
                assert(spans@[k] == old(spans)@[k]);
            }
        }
    }
}

fn push_part(d: &mut Dialogue, part: DialogueElement, Ghost(s): Ghost<SpeechP>, Ghost(q): Ghost<PartP>)
    requires
        speech_is(*old(d), s),
        part_is(part, q),
    ensures
        speech_is(*final(d), SpeechP { parts: s.parts.push(q), ..s }),
{
    d.elements.push(part);
    proof {
        let s2 = SpeechP { parts: s.parts.push(q), ..s };
        assert forall|k: int| 0 <= k < s2.parts.len() implies part_is(#[trigger] d.elements@[k], s2.parts[k]) by {
            if k < s.parts.len() {
                assert(d.elements@[k] == old(d).elements@[k]);
            }
        }
    }
}

proof fn lemma_spans_prefix(v: Seq<Span>, p: Seq<SpanP>)
    requires
        spans_are(v, p),
        v.len() > 0,
    ensures
        spans_are(v.drop_last(), p.drop_last()),
        span_is(v.last(), p.last()),
{
    assert forall|k: int| 0 <= k < v.drop_last().len() implies span_is(#[trigger] v.drop_last()[k], p.drop_last()[k]) by {
        assert(v.drop_last()[k] == v[k]);
        assert(span_is(v[k], p[k]));
    }
    assert(span_is(v[v.len() - 1], p[p.len() - 1]));
}

/// Adds a part read from line `i` (0-based) to the speech before it.
fn attach_part(spans: &mut Vec<Span>, i: usize, part: DialogueElement, Ghost(sp): Ghost<Seq<SpanP>>, Ghost(q): Ghost<PartP>)
    requires
        spans_are(old(spans)@, sp),
        part_is(part, q),
        i < usize::MAX,
    ensures
        spans_are(final(spans)@, attach(sp, i as int, q)),
{
    if spans.len() == 0 {
        return;
    }
    proof {
        lemma_spans_prefix(spans@, sp);
    }
    let ghost lp = sp.last();
    let last = spans.pop().unwrap();
    proof {
        assert(spans@ =~= old(spans)@.drop_last());
    }
    let Span { start_line, end_line, inner } = last;
    match inner {
        Element::Dialogue(d) => {
            let ghost s = match lp.elem {
                ElemP::Speech(s) => s,
                _ => arbitrary(),
            };
            let mut d = d;
            push_part(&mut d, part, Ghost(s), Ghost(q));
            let ns = Span { start_line, end_line: i + 1, inner: Element::Dialogue(d) };
            spans.push(ns);
            proof {
                let np = SpanP { start: lp.start, end: i + 1, elem: ElemP::Speech(SpeechP { parts: s.parts.push(q), ..s }) };
                assert(span_is(ns, np));
                let target = sp.drop_last().push(np);
                assert forall|k: int| 0 <= k < spans@.len() implies span_is(#[trigger] spans@[k], target[k]) by {
                    if k < sp.len() - 1 {
                        assert(spans@[k] == old(spans)@[k]);
                        assert(span_is(old(spans)@[k], sp[k]));
                    }
                }
            }
        },
        Element::DualDialogue(a, b) => {
            let ghost (sa, sb) = match lp.elem {
                ElemP::Dual(x, y) => (x, y),
                _ => arbitrary(),
            };
            let mut b = b;
            push_part(&mut b, part, Ghost(sb), Ghost(q));
            let ns = Span { start_line, end_line: i + 1, inner: Element::DualDialogue(a, b) };
            spans.push(ns);
            proof {
                let np = SpanP { start: lp.start, end: i + 1, elem: ElemP::Dual(sa, SpeechP { parts: sb.parts.push(q), ..sb }) };
                assert(span_is(ns, np));
                let target = sp.drop_last().push(np);
                assert forall|k: int| 0 <= k < spans@.len() implies span_is(#[trigger] spans@[k], target[k]) by {
                    if k < sp.len() - 1 {
                        assert(spans@[k] == old(spans)@[k]);
                        assert(span_is(old(spans)@[k], sp[k]));
                    }
                }
            }
        },
        other => {
            let ns = Span { start_line, end_line, inner: other };
            spans.push(ns);
            proof {
                assert(spans@ =~= old(spans)@);
            }
        },
    }
}

/// Adds a speech whose cue ends in `^`, read from line `i` (0-based).
fn add_dual_speech(spans: &mut Vec<Span>, i: usize, d: Dialogue, Ghost(sp): Ghost<Seq<SpanP>>, Ghost(s): Ghost<SpeechP>)
    requires
        spans_are(old(spans)@, sp),
        speech_is(d, s),
        i < usize::MAX,
    ensures
        spans_are(final(spans)@, add_dual(sp, i as int, s)),
{
    let is_speech = spans.len() > 0 && match &spans[spans.len() - 1].inner {
        Element::Dialogue(_) => true,
        _ => false,
    };
    if !is_speech {
        proof {
            if sp.len() > 0 {
                lemma_spans_prefix(spans@, sp);
            }
        }
        push_elem(spans, i, Element::Dialogue(d), Ghost(sp), Ghost(ElemP::Speech(s)));
        return;
    }
    proof {
        lemma_spans_prefix(spans@, sp);
    }
    let ghost lp = sp.last();
    let last = spans.pop().unwrap();
    proof {
        assert(spans@ =~= old(spans)@.drop_last());
    }
    let Span { start_line, end_line, inner } = last;
    match inner {
        Element::Dialogue(a) => {
            let ghost sa = match lp.elem {
                ElemP::Speech(x) => x,
                _ => arbitrary(),
            };
            let ns = Span { start_line, end_line: i + 1, inner: Element::DualDialogue(a, d) };
            spans.push(ns);
            proof {
                let np = SpanP { start: lp.start, end: i + 1, elem: ElemP::Dual(sa, s) };
                assert(span_is(ns, np));
                let target = sp.drop_last().push(np);
                assert forall|k: int| 0 <= k < spans@.len() implies span_is(#[trigger] spans@[k], target[k]) by {
                    if k < sp.len() - 1 {
                        assert(spans@[k] == old(spans)@[k]);
                        assert(span_is(old(spans)@[k], sp[k]));
                    }
                }
            }
        },
        other => {
            spans.push(Span { start_line, end_line, inner: other });
        },
    }
}


fn key_value_of_line(line: &Vec<char>) -> (r: Vec<char>)
    ensures
        r@ == key_value_text(line@),
{
    let n = line.len();
    proof {
        lemma_char_index_bounds(line@, ':', 0);
    }
    match char_index(line, ':', 0) {
        Some(i) => {
            let rest = slice_chars(line, i + 1, n);
            proof {
                assert(rest@ == line@.skip(i + 1));
            }
            clean_line(&rest)
        },
        None => Vec::new(),
    }
}

fn upper_key(line: &Vec<char>) -> (r: Vec<char>)
    ensures
        r@ == key_upper(line@),
{
    let n = line.len();
    proof {
        lemma_char_index_bounds(line@, ':', 0);
    }
    match char_index(line, ':', 0) {
        Some(i) => {
            let k = slice_chars(line, 0, i);
            proof {
                assert(k@ == line@.take(i as int));
            }
            let t = trim(&k);
            crate::classify::upper_ascii(&t)
        },
        None => Vec::new(),
    }
}

fn speech_of(line: &Vec<char>) -> (r: Dialogue)
    ensures
        speech_is(r, SpeechP { name: cue_parts(line@).0, ext: cue_parts(line@).1, parts: Seq::empty() }),
{
    let (name, ext) = cue_of(line);
    Dialogue {
        character: rich_of(&name),
        extension: match ext {
            Some(e) => Some(rich_of(&e)),
            None => None,
        },
        elements: Vec::new(),
    }
}

pub open spec fn chars_v(v: Seq<Vec<char>>) -> Seq<Seq<char>> {
    v.map_values(|l: Vec<char>| l@)
}

/// Reads a script given as lines: the title page block at its start (keys
/// `Title`, `Credit`, `Author`/`Authors`, `Source`, `Draft date`, `Contact`
/// and `Notes`; indented lines continue the entry above them), then one
/// element per body line, a speech taking its character line and the
/// parenthetical and dialogue lines under it. Notes are left out of the
/// texts, and blank lines, notes and comments give no element.
pub fn parse_lines(lines: &Vec<Vec<char>>) -> (r: Screenplay)
    ensures
        screenplay_is(r, parse_lines_spec(chars_v(lines@))),
{
    let ghost lv = chars_v(lines@);
    let types = classify(lines);
    let ghost tv = types@;
    let mut tp = TitlePage {
        title: Vec::new(),
        credit: Vec::new(),
        authors: Vec::new(),
        source: Vec::new(),
        draft_date: Vec::new(),
        contact: Vec::new(),
        notes: Vec::new(),
    };
    let mut has_title = false;
    let mut key: Vec<char> = Vec::new();
    let mut spans: Vec<Span> = Vec::new();
    let mut i: usize = 0;
    while i < lines.len()
        invariant
            i <= lines@.len() == tv.len(),
            lv == chars_v(lines@),
            tv == classify_spec(lv),
            tv == types@,
            title_is(tp, parse_run(lv, tv, i as int).title),
            has_title == parse_run(lv, tv, i as int).has_title,
            key@ == parse_run(lv, tv, i as int).key,
            spans_are(spans@, parse_run(lv, tv, i as int).spans),
        decreases lines.len() - i,
    {
        let ghost st = parse_run(lv, tv, i as int);
        let line = &lines[i];
        proof {
            assert(lv[i as int] == line@);
        }
        match types[i] {
            LineType::MetadataTitle | LineType::MetadataKey => {
                let k = upper_key(line);
                let v = key_value_of_line(line);
                if v.len() > 0 {
                    add_title_entry(&mut tp, &k, &v, Ghost(st.title));
                }
                key = k;
                has_title = true;
            },
            LineType::MetadataValue => {
                let v = clean_line(line);
                if v.len() > 0 {
                    add_title_entry(&mut tp, &key, &v, Ghost(st.title));
                }
            },
            LineType::SceneHeading => {
                let c = clean_line(line);
                let u = unforced_of(&c);
                let number = match scene_tag_of(&u) {
                    Some(n) => Some(string_of(&n)),
                    None => None,
                };
                let slug = if number.is_some() {
                    strip_number(&u)
                } else {
                    u
                };
                let e = Element::Heading { slug: rich_of(&slug), number };
                push_elem(&mut spans, i, e, Ghost(st.spans), Ghost(ElemP::Heading(slug_text(line@), heading_number(line@))));
            },
            LineType::Action => {
                let c = clean_line(line);
                let t = drop_mark_of(&c, '!');
                push_elem(&mut spans, i, Element::Action(rich_of(&t)), Ghost(st.spans), Ghost(ElemP::Action(t@)));
            },
            LineType::Character => {
                let d = speech_of(line);
                let ghost s = SpeechP { name: cue_parts(line@).0, ext: cue_parts(line@).1, parts: Seq::empty() };
                push_elem(&mut spans, i, Element::Dialogue(d), Ghost(st.spans), Ghost(ElemP::Speech(s)));
            },
            LineType::DualDialogueCharacter => {
                let d = speech_of(line);
                let ghost s = SpeechP { name: cue_parts(line@).0, ext: cue_parts(line@).1, parts: Seq::empty() };
                add_dual_speech(&mut spans, i, d, Ghost(st.spans), Ghost(s));
            },
            LineType::Parenthetical => {
                let c = clean_line(line);
                let part = DialogueElement::Parenthetical(rich_of(&c));
                attach_part(&mut spans, i, part, Ghost(st.spans), Ghost(PartP::Paren(c@)));
            },
            LineType::Dialogue => {
                let c = clean_line(line);
                let part = DialogueElement::Line(rich_of(&c));
                attach_part(&mut spans, i, part, Ghost(st.spans), Ghost(PartP::Line(c@)));
            },
            LineType::Transition => {
                let c = clean_line(line);
                let t = drop_mark_of(&c, '>');
                push_elem(&mut spans, i, Element::Transition(rich_of(&t)), Ghost(st.spans), Ghost(ElemP::Transition(t@)));
            },
            LineType::Centered => {
                let c = clean_line(line);
                let t = centered_of(&c);
                push_elem(&mut spans, i, Element::CenteredText(rich_of(&t)), Ghost(st.spans), Ghost(ElemP::Centered(t@)));
            },
            LineType::Synopsis => {
                let c = clean_line(line);
                let t = drop_mark_of(&c, '=');
                push_elem(&mut spans, i, Element::Synopsis(rich_of(&t)), Ghost(st.spans), Ghost(ElemP::Synopsis(t@)));
            },
            LineType::Section => {
                let c = clean_line(line);
                let t = drop_hashes_of(&c);
                push_elem(&mut spans, i, Element::Section(rich_of(&t)), Ghost(st.spans), Ghost(ElemP::Section(t@)));
            },
            LineType::Lyrics => {
                let c = clean_line(line);
                let t = drop_mark_of(&c, '~');
                push_elem(&mut spans, i, Element::Lyrics(rich_of(&t)), Ghost(st.spans), Ghost(ElemP::Lyrics(t@)));
            },
            LineType::PageBreak => {
                push_elem(&mut spans, i, Element::PageBreak, Ghost(st.spans), Ghost(ElemP::PageBreak));
            },
            _ => {},
        }
        i += 1;
    }
    Screenplay {
        titlepage: if has_title {
            Some(tp)
        } else {
            None
        },
        elements: spans,
    }
}


/// A line without the `\r` of a `\r\n` line ending.
pub open spec fn strip_cr(l: Seq<char>) -> Seq<char> {
    if l.len() > 0 && l.last() == '\r' {
        l.drop_last()
    } else {
        l
    }
}

/// The lines of a text, as `str::lines` gives them: split at `\n` (a
/// `\r` before it belongs to the line ending), and a line ending at the
/// very end starts no further line.
pub open spec fn script_lines(s: Seq<char>) -> Seq<Seq<char>> {
    let parts = split_spec(s, '\n');
    let body = parts.drop_last().map_values(|l: Seq<char>| strip_cr(l));
    if parts.last().len() > 0 {
        body.push(parts.last())
    } else {
        body
    }
}

proof fn lemma_split_nonempty(s: Seq<char>, c: char)
    ensures
        split_spec(s, c).len() >= 1,
    decreases s.len(),
{
    lemma_char_index_bounds(s, c, 0);
    match char_index_spec(s, c, 0) {
        Some(i) => {
            if 0 <= i < s.len() {
                lemma_split_nonempty(s.skip(i + 1), c);
            }
        },
        None => {},
    }
}

/// `v` split at every `c`.
fn split_on(v: &Vec<char>, c: char) -> (r: Vec<Vec<char>>)
    ensures
        chars_v(r@) == split_spec(v@, c),
    decreases v@.len(),
{
    let n = v.len();
    proof {
        lemma_char_index_bounds(v@, c, 0);
    }
    match char_index(v, c, 0) {
        Some(i) => {
            let head = slice_chars(v, 0, i);
            let rest = slice_chars(v, i + 1, n);
            proof {
                assert(head@ == v@.take(i as int));
                assert(rest@ == v@.skip(i + 1));
            }
            let tail = split_on(&rest, c);
            let mut out: Vec<Vec<char>> = Vec::new();
            out.push(head);
            let mut k: usize = 0;
            while k < tail.len()
                invariant
                    k <= tail@.len(),
                    chars_v(out@) == seq![v@.take(i as int)] + chars_v(tail@).take(k as int),
                decreases tail.len() - k,
            {
                let ghost before = chars_v(out@);
                let piece = slice_chars(&tail[k], 0, tail[k].len());
                proof {
                    assert(piece@ =~= tail@[k as int]@);
                }
                out.push(piece);
                proof {
                    assert(chars_v(out@) =~= before.push(tail@[k as int]@));
                    assert(chars_v(tail@).take(k + 1) =~= chars_v(tail@).take(k as int).push(tail@[k as int]@));
                }
                k += 1;
            }
            proof {
                assert(chars_v(tail@).take(tail@.len() as int) =~= chars_v(tail@));
            }
            out
        },
        None => {
            let mut out: Vec<Vec<char>> = Vec::new();
            let all = slice_chars(v, 0, n);
            proof {
                assert(all@ =~= v@);
            }
            out.push(all);
            proof {
                assert(chars_v(out@) =~= seq![v@]);
            }
            out
        },
    }
}

/// The lines of a text (see `script_lines`).
pub fn split_lines(s: &Vec<char>) -> (r: Vec<Vec<char>>)
    ensures
        chars_v(r@) == script_lines(s@),
{
    let parts = split_on(s, '\n');
    proof {
        lemma_split_nonempty(s@, '\n');
    }
    let ghost pv = chars_v(parts@);
    let m = parts.len() - 1;
    let mut out: Vec<Vec<char>> = Vec::new();
    let mut k: usize = 0;
    while k < m
        invariant
            m == parts@.len() - 1,
            k <= m,
            pv == chars_v(parts@),
            chars_v(out@) == pv.drop_last().map_values(|l: Seq<char>| strip_cr(l)).take(k as int),
        decreases m - k,
    {
        let p = &parts[k];
        let line = if p.len() > 0 && p[p.len() - 1] == '\r' {
            slice_chars(p, 0, p.len() - 1)
        } else {
            slice_chars(p, 0, p.len())
        };
        proof {
            assert(line@ == strip_cr(pv[k as int]));
        }
        let ghost before = chars_v(out@);
        out.push(line);
        proof {
            assert(chars_v(out@) =~= before.push(line@));
            assert(pv.drop_last().map_values(|l: Seq<char>| strip_cr(l)).take(k + 1) =~= pv.drop_last().map_values(
                |l: Seq<char>| strip_cr(l),
            ).take(k as int).push(strip_cr(pv[k as int])));
        }
        k += 1;
    }
    proof {
        assert(pv.drop_last().map_values(|l: Seq<char>| strip_cr(l)).take(m as int) =~= pv.drop_last().map_values(
            |l: Seq<char>| strip_cr(l),
        ));
    }
    let last = &parts[m];
    if last.len() > 0 {
        let ghost before = chars_v(out@);
        let l = slice_chars(last, 0, last.len());
        proof {
            assert(l@ =~= pv.last());
        }
        out.push(l);
        proof {
            assert(chars_v(out@) =~= before.push(pv.last()));
        }
    }
    out
}

/// Reads a Fountain script (see `parse_lines`).
pub fn parse(script: &str) -> (r: Screenplay)
    ensures
        screenplay_is(r, parse_lines_spec(script_lines(script@))),
{
    let v = chars_of(script);
    let lines = split_lines(&v);
    parse_lines(&lines)
}

/// Every element read from the first `n` lines lies within them: it starts
/// at line 1 or later and ends at line `n` or earlier (lines counted from 1).
proof fn lemma_parse_run_spans(lines: Seq<Seq<char>>, types: Seq<LineType>, n: int)
    ensures
        forall|k: int|
            0 <= k < parse_run(lines, types, n).spans.len() ==> 1 <= (#[trigger] parse_run(lines, types, n).spans[k]).start
                && parse_run(lines, types, n).spans[k].end <= if n > 0 { n } else { 0 },
    decreases n,
{
    if n > 0 {
        lemma_parse_run_spans(lines, types, n - 1);
        let st = parse_run(lines, types, n - 1);
        let r = parse_run(lines, types, n);
        assert(r == parse_step(st, n - 1, types[n - 1], lines[n - 1]));
        assert forall|k: int| 0 <= k < r.spans.len() implies 1 <= (#[trigger] r.spans[k]).start && r.spans[k].end <= n by {
            if k < st.spans.len() && k + 1 < st.spans.len() {
                assert(r.spans[k] == st.spans[k]);
            } else if k < st.spans.len() {
                assert(st.spans[k].start >= 1);
            }
        }
    }
}

/// What `parse` reads from a script's lines lies within them: every element
/// (speeches included, which the FDX export reads line by line) starts at
/// line 1 or later and ends at the script's last line or earlier.
pub proof fn law_parsed_spans_ok(r: Screenplay, lines: Seq<Seq<char>>)
    requires
        screenplay_is(r, parse_lines_spec(lines)),
    ensures
        spans_ok(lines.len() as int, spans_v(r.elements@)),
{
    let n = lines.len() as int;
    lemma_parse_run_spans(lines, classify_spec(lines), n);
    let p = parse_lines_spec(lines);
    assert forall|k: int| 0 <= k < spans_v(r.elements@).len() implies #[trigger] span_ok(n, spans_v(r.elements@)[k]) by {
        assert(span_is(r.elements@[k], p.spans[k]));
        assert(1 <= p.spans[k].start);
    }
}

} // verus!
