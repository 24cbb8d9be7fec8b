//! Export to Final Draft (FDX): the script body as typed paragraphs, the
//! title page, and the production tags and script notes written in
//! `[[key: value]]` notes.
use vstd::prelude::*;
use crate::chars::{alphanumeric, ascii_upper, chars_of, string_of, is_alphanumeric, lowercase, to_ascii_uppercase, to_lowercase};
use crate::rich::{plain_chars, RichElement, RichString, Style};
use crate::classify::{blank, is_blank};
use crate::editor::texts;
use crate::screenplay::{
    copy_dialogue, dialogue_v, entries_v, part_v, runs, span_v, spans_v, title_page_v, Dialogue, DialogueElement,
    DialogueElementV, DialogueV, Element, ElementV, Screenplay, Span, SpanV, TitlePage, TitlePageV,
};
use crate::text::{
    char_index, char_index_spec, eq_chars, find, find_spec, lemma_char_index_bounds, lemma_find_bounds, push_all,
    eq_str, slice_chars, split_spec, trim, trim_end, trim_end_spec, trim_spec, trim_start, trim_start_spec,
};

verus! {

/// XML for one character: the five reserved characters become entities.
pub open spec fn escape_char(c: char) -> Seq<char> {
    if c == '<' {
        "&lt;"@
    } else if c == '>' {
        "&gt;"@
    } else if c == '&' {
        "&amp;"@
    } else if c == '"' {
        "&quot;"@
    } else if c == '\'' {
        "&apos;"@
    } else {
        seq![c]
    }
}

/// `s` as XML character data.
pub open spec fn escape_spec(s: Seq<char>) -> Seq<char>
    decreases s.len(),
{
    if s.len() == 0 {
        Seq::empty()
    } else {
        escape_spec(s.drop_last()) + escape_char(s.last())
    }
}

/// `s` as an XML id: letters and digits upper-cased (ASCII), anything else `_`.
pub open spec fn xml_id_spec(s: Seq<char>) -> Seq<char> {
    s.map_values(|c: char| if alphanumeric(c) { ascii_upper(c) } else { '_' })
}

/// The names of a style's emphases joined by `+`.
pub open spec fn style_join(st: Style) -> Seq<char> {
    let b: Seq<char> = if st.bold { "Bold"@ } else { Seq::empty() };
    let i: Seq<char> = if st.italic {
        (if st.bold { "+"@ } else { Seq::<char>::empty() }) + "Italic"@
    } else {
        Seq::empty()
    };
    let u: Seq<char> = if st.underline {
        (if st.bold || st.italic { "+"@ } else { Seq::<char>::empty() }) + "Underline"@
    } else {
        Seq::empty()
    };
    b + i + u
}

/// The `Style` attribute of a run; none for plain text.
pub open spec fn style_attr(st: Style) -> Seq<char> {
    if !st.bold && !st.italic && !st.underline {
        Seq::empty()
    } else {
        " Style=\""@ + style_join(st) + "\""@
    }
}

/// The text of run `i` as exported: the first run without leading and
/// the last without trailing whitespace.
pub open spec fn run_text(rs: Seq<(Seq<char>, Style)>, i: int) -> Seq<char> {
    let t = if i == 0 { trim_start_spec(rs[i].0) } else { rs[i].0 };
    if i == rs.len() - 1 {
        trim_end_spec(t)
    } else {
        t
    }
}

/// One run as a `Text` element; an empty run gives nothing.
pub open spec fn run_xml(t: Seq<char>, st: Style) -> Seq<char> {
    if t.len() == 0 {
        Seq::empty()
    } else {
        "<Text"@ + style_attr(st) + ">"@ + escape_spec(t) + "</Text>"@
    }
}

/// The first `n` runs as `Text` elements.
pub open spec fn rich_upto(rs: Seq<(Seq<char>, Style)>, n: int) -> Seq<char>
    decreases n,
{
    if n <= 0 {
        Seq::empty()
    } else {
        rich_upto(rs, n - 1) + run_xml(run_text(rs, n - 1), rs[n - 1].1)
    }
}

/// A rich string as FDX `Text` elements.
pub open spec fn rich_fdx(rs: Seq<(Seq<char>, Style)>) -> Seq<char> {
    rich_upto(rs, rs.len() as int)
}

/// The contents of the `[[...]]` notes of `s`, searching from `from`.
pub open spec fn bracket_contents(s: Seq<char>, from: int) -> Seq<Seq<char>>
    decreases s.len() + 1 - from,
{
    match find_spec(s, "[["@, from) {
        None => Seq::empty(),
        Some(a) => match find_spec(s, "]]"@, a) {
            None => Seq::empty(),
            Some(b) => {
                proof {
                    lemma_find_bounds(s, "[["@, from);
                    lemma_find_bounds(s, "]]"@, a);
                    reveal_strlit("]]");
                }
                if b + 2 <= s.len() {
                    seq![s.subrange(a + 2, b)] + bracket_contents(s, b + 2)
                } else {
                    Seq::empty()
                }
            },
        },
    }
}

/// The note keys that make script notes.
pub open spec fn note_key(k: Seq<char>) -> bool {
    k == "note"@ || k == "marker"@ || k == "subtext"@ || k == "tags"@
}

/// The note keys that make production tags: all but the script notes and
/// the scene settings.
pub open spec fn tag_key(k: Seq<char>) -> bool {
    !note_key(k) && k != "scenetype"@ && k != "scenestatus"@ && k != "sceneclr"@ && k != "synopsis"@
}

/// A note's `key: value`, split at the first `:`; the key trimmed and
/// lower-cased.
pub open spec fn key_value(c: Seq<char>) -> Option<(Seq<char>, Seq<char>)> {
    match char_index_spec(c, ':', 0) {
        Some(i) => Some((lowercase(trim_spec(c.take(i))), c.skip(i + 1))),
        None => None,
    }
}

/// The tags `(key, item)` of the comma-separated items; empty items are
/// left out.
pub open spec fn item_tags(key: Seq<char>, items: Seq<Seq<char>>) -> Seq<(Seq<char>, Seq<char>)>
    decreases items.len(),
{
    if items.len() == 0 {
        Seq::empty()
    } else {
        let v = trim_spec(items[0]);
        (if v.len() > 0 { seq![(key, v)] } else { Seq::empty() }) + item_tags(key, items.skip(1))
    }
}

/// The production tags of a note with key `k` (lower-cased) and value `v`:
/// the comma-separated items of `v`, where `k` names a production tag.
pub open spec fn key_tags(k: Seq<char>, v: Seq<char>) -> Seq<(Seq<char>, Seq<char>)> {
    if tag_key(k) {
        item_tags(k, split_spec(v, ','))
    } else {
        Seq::empty()
    }
}

/// The script note of a note with key `k` (lower-cased) and value `v`:
/// the trimmed value, where `k` names a script note.
pub open spec fn key_note(k: Seq<char>, v: Seq<char>) -> Seq<(Seq<char>, Seq<char>)> {
    if note_key(k) {
        seq![(k, trim_spec(v))]
    } else {
        Seq::empty()
    }
}

/// The production tags of one note.
pub open spec fn content_tags(c: Seq<char>) -> Seq<(Seq<char>, Seq<char>)> {
    match key_value(c) {
        Some((k, v)) => key_tags(k, v),
        None => Seq::empty(),
    }
}

/// The script note `(key, text)` of one note, if it is one.
pub open spec fn content_notes(c: Seq<char>) -> Seq<(Seq<char>, Seq<char>)> {
    match key_value(c) {
        Some((k, v)) => key_note(k, v),
        None => Seq::empty(),
    }
}

pub open spec fn all_tags(cs: Seq<Seq<char>>) -> Seq<(Seq<char>, Seq<char>)>
    decreases cs.len(),
{
    if cs.len() == 0 {
        Seq::empty()
    } else {
        content_tags(cs[0]) + all_tags(cs.skip(1))
    }
}

pub open spec fn all_notes(cs: Seq<Seq<char>>) -> Seq<(Seq<char>, Seq<char>)>
    decreases cs.len(),
{
    if cs.len() == 0 {
        Seq::empty()
    } else {
        content_notes(cs[0]) + all_notes(cs.skip(1))
    }
}

/// The production tags `(category, item)` of a line, in order.
pub open spec fn line_tags(s: Seq<char>) -> Seq<(Seq<char>, Seq<char>)> {
    all_tags(bracket_contents(s, 0))
}

/// The script notes `(key, text)` of a line, in order.
pub open spec fn line_notes(s: Seq<char>) -> Seq<(Seq<char>, Seq<char>)> {
    all_notes(bracket_contents(s, 0))
}

pub open spec fn pairs_v(v: Seq<(Vec<char>, Vec<char>)>) -> Seq<(Seq<char>, Seq<char>)> {
    v.map_values(|p: (Vec<char>, Vec<char>)| (p.0@, p.1@))
}

/// Appends the characters of `s`.
fn push_str(out: &mut Vec<char>, s: &str)
    ensures
        final(out)@ == old(out)@ + s@,
{
    let v = chars_of(s);
    push_all(out, &v);
}

/// `s` as XML character data.
pub fn escape_xml(s: &Vec<char>) -> (r: Vec<char>)
    ensures
        r@ == escape_spec(s@),
{
    let mut out: Vec<char> = Vec::new();
    let mut i: usize = 0;
    while i < s.len()
        invariant
            i <= s.len(),
            out@ == escape_spec(s@.take(i as int)),
        decreases s.len() - i,
    {
        let c = s[i];
        if c == '<' {
            push_str(&mut out, "&lt;");
        } else if c == '>' {
            push_str(&mut out, "&gt;");
        } else if c == '&' {
            push_str(&mut out, "&amp;");
        } else if c == '"' {
            push_str(&mut out, "&quot;");
        } else if c == '\'' {
            push_str(&mut out, "&apos;");
        } else {
            out.push(c);
        }
        proof {
            assert(s@.take(i + 1).drop_last() == s@.take(i as int));
        }
        i += 1;
    }
    proof {
        assert(s@.take(s@.len() as int) == s@);
    }
    out
}

/// `s` as an XML id.
pub fn make_xml_id(s: &Vec<char>) -> (r: Vec<char>)
    ensures
        r@ == xml_id_spec(s@),
{
    let mut out: Vec<char> = Vec::new();
    let mut i: usize = 0;
    while i < s.len()
        invariant
            i <= s.len(),
            out@ == xml_id_spec(s@.take(i as int)),
        decreases s.len() - i,
    {
        let c = s[i];
        if is_alphanumeric(c) {
            out.push(to_ascii_uppercase(c));
        } else {
            out.push('_');
        }
        i += 1;
        proof {
            assert(xml_id_spec(s@.take(i as int)) =~= xml_id_spec(s@.take(i - 1)).push(
                if alphanumeric(c) { ascii_upper(c) } else { '_' },
            ));
        }
    }
    proof {
        assert(s@.take(s@.len() as int) == s@);
    }
    out
}

fn style_attribute(st: Style) -> (r: Vec<char>)
    ensures
        r@ == style_attr(st),
{
    let mut out: Vec<char> = Vec::new();
    if !st.bold && !st.italic && !st.underline {
        return out;
    }
    push_str(&mut out, " Style=\"");
    let ghost a = out@;
    if st.bold {
        push_str(&mut out, "Bold");
    }
    if st.italic {
        if st.bold {
            push_str(&mut out, "+");
        }
        push_str(&mut out, "Italic");
    }
    if st.underline {
        if st.bold || st.italic {
            push_str(&mut out, "+");
        }
        push_str(&mut out, "Underline");
    }
    proof {
        assert(out@ =~= a + style_join(st));
    }
    push_str(&mut out, "\"");
    out
}

/// A rich string as FDX `Text` elements.
pub fn rich_string_to_fdx(rs: &RichString) -> (r: Vec<char>)
    ensures
        r@ == rich_fdx(runs(*rs)),
{
    let ghost v = runs(*rs);
    let n = rs.elements.len();
    let mut out: Vec<char> = Vec::new();
    let mut i: usize = 0;
    while i < n
        invariant
            i <= n == v.len(),
            v == runs(*rs),
            out@ == rich_upto(v, i as int),
        decreases n - i,
    {
        let e = &rs.elements[i];
        let t0 = chars_of(e.text.as_str());
        let t1 = if i == 0 {
            trim_start(&t0)
        } else {
            t0
        };
        let t = if i == n - 1 {
            trim_end(&t1)
        } else {
            t1
        };
        proof {
            assert(v[i as int] == (e.text@, e.style));
            assert(t@ == run_text(v, i as int));
        }
        if t.len() > 0 {
            push_str(&mut out, "<Text");
            let sa = style_attribute(e.style);
            push_all(&mut out, &sa);
            push_str(&mut out, ">");
            let esc = escape_xml(&t);
            push_all(&mut out, &esc);
            push_str(&mut out, "</Text>");
        }
        i += 1;
    }
    out
}

/// The items of `val` split at commas, trimmed, as tags of `key`.
fn split_items(key: &Vec<char>, val: &Vec<char>, out: &mut Vec<(Vec<char>, Vec<char>)>)
    ensures
        pairs_v(final(out)@) == pairs_v(old(out)@) + item_tags(key@, split_spec(val@, ',')),
    decreases val@.len(),
{
    let ghost o = pairs_v(out@);
    let n = val.len();
    proof {
        lemma_char_index_bounds(val@, ',', 0);
    }
    match char_index(val, ',', 0) {
        Some(i) => {
            let piece = slice_chars(val, 0, i);
            let v = trim(&piece);
            let rest = slice_chars(val, i + 1, n);
            proof {
                assert(piece@ == val@.take(i as int));
                assert(rest@ == val@.skip(i + 1));
                let items = split_spec(val@, ',');
                assert(items == seq![val@.take(i as int)] + split_spec(val@.skip(i + 1), ','));
                assert(items[0] == val@.take(i as int));
                assert(items.skip(1) =~= split_spec(val@.skip(i + 1), ','));
            }
            if v.len() > 0 {
                out.push((copy_chars(key), v));
                proof {
                    assert(pairs_v(out@) =~= o + seq![(key@, trim_spec(piece@))]);
                }
            }
            let ghost o2 = pairs_v(out@);
            split_items(key, &rest, out);
            proof {
                assert(pairs_v(out@) =~= o + item_tags(key@, split_spec(val@, ',')));
            }
        },
        None => {
            let v = trim(val);
            proof {
                let items = split_spec(val@, ',');
                assert(items == seq![val@]);
                assert(items.skip(1) =~= Seq::<Seq<char>>::empty());
                assert(item_tags(key@, items.skip(1)) == Seq::<(Seq<char>, Seq<char>)>::empty());
            }
            if v.len() > 0 {
                out.push((copy_chars(key), v));
                proof {
                    assert(pairs_v(out@) =~= o + seq![(key@, trim_spec(val@))]);
                }
            }
            proof {
                assert(pairs_v(out@) =~= o + item_tags(key@, split_spec(val@, ',')));
            }
        },
    }
}

fn copy_chars(v: &Vec<char>) -> (r: Vec<char>)
    ensures
        r@ == v@,
{
    slice_chars(v, 0, v.len())
}


pub open spec fn chars_v(v: Seq<Vec<char>>) -> Seq<Seq<char>> {
    v.map_values(|x: Vec<char>| x@)
}

/// The contents of the `[[...]]` notes of a line.
fn bracket_list(line: &Vec<char>) -> (r: Vec<Vec<char>>)
    ensures
        chars_v(r@) == bracket_contents(line@, 0),
{
    let open = chars_of("[[");
    let close = chars_of("]]");
    proof {
        reveal_strlit("[[");
        reveal_strlit("]]");
    }
    let mut out: Vec<Vec<char>> = Vec::new();
    let mut from: usize = 0;
    let n = line.len();
    loop
        invariant_except_break
            n == line@.len(),
            open@ == "[["@,
            close@ == "]]"@,
            chars_v(out@) + bracket_contents(line@, from as int) == bracket_contents(line@, 0),
        ensures
            chars_v(out@) == bracket_contents(line@, 0),
        decreases line@.len() + 1 - from,
    {
        proof {
            reveal_strlit("[[");
            reveal_strlit("]]");
            lemma_find_bounds(line@, "[["@, from as int);
        }
        match find(line, &open, from) {
            None => {
                proof {
                    assert(chars_v(out@) + Seq::<Seq<char>>::empty() == chars_v(out@));
                }
                break;
            },
            Some(a) => {
                proof {
                    lemma_find_bounds(line@, "]]"@, a as int);
                }
                match find(line, &close, a) {
                    None => {
                        proof {
                            assert(chars_v(out@) + Seq::<Seq<char>>::empty() == chars_v(out@));
                        }
                        break;
                    },
                    Some(b) => {
                        proof {
                            assert(line@[a as int] == '[' && line@[a + 1] == '[') by {
                                assert(line@.subrange(a as int, a + 2)[0] == line@[a as int]);
                                assert(line@.subrange(a as int, a + 2)[1] == line@[a + 1]);
                            }
                            assert(line@[b as int] == ']' && line@[b + 1] == ']') by {
                                assert(line@.subrange(b as int, b + 2)[0] == line@[b as int]);
                                assert(line@.subrange(b as int, b + 2)[1] == line@[b + 1]);
                            }
                        }
                        let content = slice_chars(line, a + 2, b);
                        let ghost before = chars_v(out@);
                        out.push(content);
                        proof {
                            assert(chars_v(out@) =~= before.push(content@));
                            assert(bracket_contents(line@, from as int) == seq![line@.subrange(a + 2, b as int)]
                                + bracket_contents(line@, b + 2));
                            assert(before.push(content@) + bracket_contents(line@, b + 2) =~= before
                                + bracket_contents(line@, from as int));
                        }
                        from = b + 2;
                    },
                }
            },
        }
    }
    out
}

/// A note's key (trimmed, lower-cased) and value, split at the first `:`.
fn key_value_of(c: &Vec<char>) -> (r: Option<(Vec<char>, Vec<char>)>)
    ensures
        r matches Some(p) ==> key_value(c@) == Some((p.0@, p.1@)),
        r is None ==> key_value(c@) is None,
{
    let n = c.len();
    proof {
        lemma_char_index_bounds(c@, ':', 0);
    }
    match char_index(c, ':', 0) {
        Some(i) => {
            let k = slice_chars(c, 0, i);
            let kt = trim(&k);
            let key = to_lowercase(&kt);
            let val = slice_chars(c, i + 1, n);
            proof {
                assert(k@ == c@.take(i as int));
                assert(val@ == c@.skip(i + 1));
            }
            Some((key, val))
        },
        None => None,
    }
}

fn is_note_key(k: &Vec<char>) -> (r: bool)
    ensures
        r == note_key(k@),
{
    eq_str(k, "note") || eq_str(k, "marker") || eq_str(k, "subtext") || eq_str(k, "tags")
}

fn is_tag_key(k: &Vec<char>) -> (r: bool)
    ensures
        r == tag_key(k@),
{
    !is_note_key(k) && !eq_str(k, "scenetype") && !eq_str(k, "scenestatus") && !eq_str(k, "sceneclr")
        && !eq_str(k, "synopsis")
}

/// The production tags of a note whose key, already trimmed and
/// lower-cased, is `key` and whose value is `value` (see `key_tags`).
pub fn note_tags(key: &Vec<char>, value: &Vec<char>) -> (r: Vec<(Vec<char>, Vec<char>)>)
    ensures
        pairs_v(r@) == key_tags(key@, value@),
{
    let mut out: Vec<(Vec<char>, Vec<char>)> = Vec::new();
    push_note_tags(key, value, &mut out);
    proof {
        assert(pairs_v(out@) =~= key_tags(key@, value@));
    }
    out
}

/// Appends the production tags of a note (see `key_tags`).
fn push_note_tags(key: &Vec<char>, value: &Vec<char>, out: &mut Vec<(Vec<char>, Vec<char>)>)
    ensures
        pairs_v(final(out)@) == pairs_v(old(out)@) + key_tags(key@, value@),
{
    if is_tag_key(key) {
        split_items(key, value, out);
    } else {
        proof {
            assert(pairs_v(out@) + Seq::<(Seq<char>, Seq<char>)>::empty() =~= pairs_v(out@));
        }
    }
}

/// The script note of a note whose key, already trimmed and lower-cased,
/// is `key` and whose value is `value` (see `key_note`).
pub fn note_text(key: &Vec<char>, value: &Vec<char>) -> (r: Option<(Vec<char>, Vec<char>)>)
    ensures
        match r {
            Some(p) => key_note(key@, value@) == seq![(p.0@, p.1@)],
            None => key_note(key@, value@) == Seq::<(Seq<char>, Seq<char>)>::empty(),
        },
{
    if is_note_key(key) {
        Some((key.clone(), trim(value)))
    } else {
        None
    }
}

/// The production tags `(category, item)` of a line: the comma-separated
/// items of its `[[key: items]]` notes, for every key that is neither a
/// script note nor a scene setting.
pub fn parse_line_tags(line: &Vec<char>) -> (r: Vec<(Vec<char>, Vec<char>)>)
    ensures
        pairs_v(r@) == line_tags(line@),
{
    let cs = bracket_list(line);
    let mut out: Vec<(Vec<char>, Vec<char>)> = Vec::new();
    let mut i: usize = 0;
    proof {
        assert(chars_v(cs@).skip(0) =~= chars_v(cs@));
        assert(pairs_v(out@) + all_tags(chars_v(cs@)) =~= all_tags(chars_v(cs@)));
    }
    while i < cs.len()
        invariant
            i <= cs@.len(),
            pairs_v(out@) + all_tags(chars_v(cs@).skip(i as int)) == line_tags(line@),
            chars_v(cs@) == bracket_contents(line@, 0),
        decreases cs.len() - i,
    {
        let ghost rest = chars_v(cs@).skip(i as int);
        let ghost o = pairs_v(out@);
        proof {
            assert(rest[0] == cs@[i as int]@);
            assert(rest.skip(1) =~= chars_v(cs@).skip(i + 1));
        }
        match key_value_of(&cs[i]) {
            Some((k, v)) => {
                push_note_tags(&k, &v, &mut out);
            },
            None => {},
        }
        proof {
            assert(pairs_v(out@) == o + content_tags(cs@[i as int]@));
            assert(o + content_tags(cs@[i as int]@) + all_tags(rest.skip(1)) =~= o + all_tags(rest));
        }
        i += 1;
    }
    proof {
        assert(chars_v(cs@).skip(i as int) =~= Seq::<Seq<char>>::empty());
        assert(pairs_v(out@) + Seq::<(Seq<char>, Seq<char>)>::empty() == pairs_v(out@));
    }
    out
}

/// The script notes `(key, text)` of a line: its `[[note: ...]]`,
/// `[[marker: ...]]`, `[[subtext: ...]]` and `[[tags: ...]]` notes.
pub fn parse_line_notes(line: &Vec<char>) -> (r: Vec<(Vec<char>, Vec<char>)>)
    ensures
        pairs_v(r@) == line_notes(line@),
{
    let cs = bracket_list(line);
    let mut out: Vec<(Vec<char>, Vec<char>)> = Vec::new();
    let mut i: usize = 0;
    proof {
        assert(chars_v(cs@).skip(0) =~= chars_v(cs@));
        assert(pairs_v(out@) + all_notes(chars_v(cs@)) =~= all_notes(chars_v(cs@)));
    }
    while i < cs.len()
        invariant
            i <= cs@.len(),
            pairs_v(out@) + all_notes(chars_v(cs@).skip(i as int)) == line_notes(line@),
            chars_v(cs@) == bracket_contents(line@, 0),
        decreases cs.len() - i,
    {
        let ghost rest = chars_v(cs@).skip(i as int);
        let ghost o = pairs_v(out@);
        proof {
            assert(rest[0] == cs@[i as int]@);
            assert(rest.skip(1) =~= chars_v(cs@).skip(i + 1));
        }
        match key_value_of(&cs[i]) {
            Some((k, v)) => {
                if let Some(p) = note_text(&k, &v) {
                    out.push(p);
                    proof {
                        assert(pairs_v(out@) =~= o + content_notes(cs@[i as int]@));
                    }
                }
            },
            None => {},
        }
        proof {
            assert(pairs_v(out@) == o + content_notes(cs@[i as int]@));
            assert(o + content_notes(cs@[i as int]@) + all_notes(rest.skip(1)) =~= o + all_notes(rest));
        }
        i += 1;
    }
    proof {
        assert(chars_v(cs@).skip(i as int) =~= Seq::<Seq<char>>::empty());
        assert(pairs_v(out@) + Seq::<(Seq<char>, Seq<char>)>::empty() == pairs_v(out@));
    }
    out
}


/// The exporter: the script's lines and what to export besides the body.
pub struct FdxExporter {
    pub raw_lines: Vec<String>,
    pub include_title_page: bool,
    pub export_sections: bool,
    pub export_synopses: bool,
    pub export_production_tags: bool,
}

/// The script lines of an exporter.
pub open spec fn raw_of(ex: FdxExporter) -> Seq<Seq<char>> {
    texts(ex.raw_lines@)
}

/// The 0-based index of the first line of a 1-based range that exists.
pub open spec fn clip_lo(a: int) -> int {
    if a < 1 {
        0
    } else {
        a - 1
    }
}

/// The 0-based end (exclusive) of a 1-based range ending at line `b`,
/// within a script of `n` lines.
pub open spec fn clip_hi(b: int, n: int) -> int {
    if b > n {
        n
    } else {
        b
    }
}

/// The tags of lines `lo..hi` (0-based), in order.
pub open spec fn tags_between(raw: Seq<Seq<char>>, lo: int, hi: int) -> Seq<(Seq<char>, Seq<char>)>
    decreases hi - lo,
{
    if hi <= lo {
        Seq::empty()
    } else {
        tags_between(raw, lo, hi - 1) + line_tags(raw[hi - 1])
    }
}

/// The script notes of lines `lo..hi` (0-based), in order.
pub open spec fn notes_between(raw: Seq<Seq<char>>, lo: int, hi: int) -> Seq<(Seq<char>, Seq<char>)>
    decreases hi - lo,
{
    if hi <= lo {
        Seq::empty()
    } else {
        notes_between(raw, lo, hi - 1) + line_notes(raw[hi - 1])
    }
}

/// Colour, label and text prefix of a script note of key `k`.
pub open spec fn note_style(k: Seq<char>) -> (Seq<char>, Seq<char>, Seq<char>) {
    if k == "note"@ {
        ("#FFFF80"@, "Note"@, "[NOTE]"@)
    } else if k == "marker"@ {
        ("#80FF80"@, "Marker"@, "[MARKER]"@)
    } else if k == "subtext"@ {
        ("#8080FF"@, "Subtext"@, "[SUBTEXT]"@)
    } else if k == "tags"@ {
        ("#FF80FF"@, "General Tag"@, "[TAG]"@)
    } else {
        ("#C0C0C0"@, "Note"@, ""@)
    }
}

/// A script note as FDX.
pub open spec fn note_xml(n: (Seq<char>, Seq<char>)) -> Seq<char> {
    let (color, label, prefix) = note_style(n.0);
    "<ScriptNote Label=\""@ + label + "\" Color=\""@ + color + "\" Author=\"Fount\"><Paragraph><Text>"@ + prefix
        + " "@ + escape_spec(n.1) + "</Text></Paragraph></ScriptNote>"@
}

pub open spec fn notes_xml(ns: Seq<(Seq<char>, Seq<char>)>) -> Seq<char>
    decreases ns.len(),
{
    if ns.len() == 0 {
        Seq::empty()
    } else {
        notes_xml(ns.drop_last()) + note_xml(ns.last())
    }
}

/// The id of the tag `item` of category `cat`.
pub open spec fn tag_id(t: (Seq<char>, Seq<char>)) -> Seq<char> {
    "TAG_"@ + xml_id_spec(t.0) + "_"@ + xml_id_spec(t.1)
}

pub open spec fn tag_refs(ts: Seq<(Seq<char>, Seq<char>)>) -> Seq<char>
    decreases ts.len(),
{
    if ts.len() == 0 {
        Seq::empty()
    } else {
        tag_refs(ts.drop_last()) + "<Tag Id=\""@ + tag_id(ts.last()) + "\"/>"@
    }
}

/// A paragraph of type `ptype` holding `text_xml`, with the tags and
/// script notes of lines `a..=b` (counted from 1; lines that do not exist
/// are left out). The tags are referenced only when they are exported.
pub open spec fn para_spec(
    ptype: Seq<char>,
    extra: Seq<char>,
    text_xml: Seq<char>,
    raw: Seq<Seq<char>>,
    a: int,
    b: int,
    tags_on: bool,
) -> Seq<char> {
    let lo = clip_lo(a);
    let hi = clip_hi(b, raw.len() as int);
    "    <Paragraph Type=\""@ + ptype + "\""@ + extra + ">"@ + text_xml + tags_xml(tags_between(raw, lo, hi), tags_on)
        + notes_xml(notes_between(raw, lo, hi)) + "</Paragraph>\n"@
}

/// The tags of a paragraph: none when its lines have none, else a `Tags`
/// element referencing each when tags are exported.
pub open spec fn tags_xml(ts: Seq<(Seq<char>, Seq<char>)>, tags_on: bool) -> Seq<char> {
    if ts.len() > 0 {
        "<Tags>"@ + (if tags_on { tag_refs(ts) } else { Seq::<char>::empty() }) + "</Tags>"@
    } else {
        Seq::<char>::empty()
    }
}

/// The text of runs, without styles.
pub open spec fn runs_plain(rs: Seq<(Seq<char>, Style)>) -> Seq<char>
    decreases rs.len(),
{
    if rs.len() == 0 {
        Seq::empty()
    } else {
        runs_plain(rs.drop_last()) + rs.last().0
    }
}

/// The first line at or after `d` (0-based) and before `end` that is not blank.
pub open spec fn skip_blank(raw: Seq<Seq<char>>, end: int, d: int) -> int
    decreases end - d,
{
    if d < end && is_blank(raw[d]) {
        skip_blank(raw, end, d + 1)
    } else {
        d
    }
}

/// The speech parts from part `k` on, the next at the first non-blank
/// line from `d` (0-based); parts for which no line is left before `end`
/// are left out.
pub open spec fn parts_xml(
    raw: Seq<Seq<char>>,
    end: int,
    parts: Seq<DialogueElementV>,
    k: int,
    d: int,
    tags_on: bool,
) -> Seq<char>
    decreases parts.len() - k,
{
    if k >= parts.len() || k < 0 {
        Seq::empty()
    } else {
        let d2 = skip_blank(raw, end, d);
        if d2 >= end {
            Seq::empty()
        } else {
            let x = match parts[k] {
                DialogueElementV::Parenthetical(r) => para_spec("Parenthetical"@, Seq::empty(), rich_fdx(r), raw, d2 + 1, d2 + 1, tags_on),
                DialogueElementV::Line(r) => para_spec("Dialogue"@, Seq::empty(), rich_fdx(r), raw, d2 + 1, d2 + 1, tags_on),
            };
            x + parts_xml(raw, end, parts, k + 1, d2 + 1, tags_on)
        }
    }
}

/// The character cue of a speech: the name and, in brackets, the extension.
pub open spec fn cue_text(d: DialogueV) -> Seq<char> {
    runs_plain(d.character) + match d.extension {
        Some(e) => " ("@ + runs_plain(e) + ")"@,
        None => Seq::empty(),
    }
}

/// A speech read from lines `start..=end` (counted from 1): the character
/// paragraph, then one paragraph per part.
pub open spec fn dialogue_xml(raw: Seq<Seq<char>>, start: int, end: int, d: DialogueV, tags_on: bool) -> Seq<char> {
    para_spec("Character"@, Seq::empty(), "<Text>"@ + escape_spec(trim_spec(cue_text(d))) + "</Text>"@, raw, start, start, tags_on)
        + parts_xml(raw, end, d.elements, 0, start, tags_on)
}

/// The number of `#` in `s`.
pub open spec fn hash_count(s: Seq<char>) -> nat
    decreases s.len(),
{
    if s.len() == 0 {
        0
    } else {
        hash_count(s.drop_last()) + if s.last() == '#' { 1nat } else { 0nat }
    }
}

/// The outline level of a section paragraph.
pub open spec fn outline_type(n: nat) -> Seq<char> {
    if n <= 1 {
        "Outline 1"@
    } else if n == 2 {
        "Outline 2"@
    } else {
        "Outline 3"@
    }
}

/// The `#` count of a section's line (1 where the line does not exist).
pub open spec fn section_level(raw: Seq<Seq<char>>, start: int) -> nat {
    if 1 <= start <= raw.len() {
        hash_count(raw[start - 1])
    } else {
        1
    }
}

/// Paragraphs of standalone lines: a line outside every element that has
/// script notes becomes an action paragraph holding them.
pub open spec fn standalone_xml(line: Seq<char>) -> Seq<char> {
    let ns = line_notes(line);
    if ns.len() > 0 {
        "    <Paragraph Type=\"Action\">"@ + notes_xml(ns) + "</Paragraph>\n"@
    } else {
        Seq::empty()
    }
}


/// The paragraph of a body element read from lines `start..=end`.
pub open spec fn simple_para(ex: FdxExporter, ptype: Seq<char>, rs: Seq<(Seq<char>, Style)>, sp: SpanV) -> Seq<char> {
    para_spec(ptype, Seq::empty(), rich_fdx(rs), raw_of(ex), sp.start, sp.end, ex.export_production_tags)
}

/// A span as FDX. A dual dialogue is written as two whole documents, one
/// for each speech alone (`depth` bounds this nesting).
pub open spec fn element_spec(ex: FdxExporter, depth: nat, sp: SpanV) -> Seq<char>
    decreases depth, 1int, 0int, 0int,
{
    let raw = raw_of(ex);
    match sp.inner {
        ElementV::Heading(slug, number) => {
            let attr = match number {
                Some(n) => " Number=\""@ + escape_spec(n) + "\""@,
                None => Seq::empty(),
            };
            para_spec("Scene Heading"@, attr, rich_fdx(slug), raw, sp.start, sp.end, ex.export_production_tags)
        },
        ElementV::Action(r) => simple_para(ex, "Action"@, r, sp),
        ElementV::Dialogue(d) => dialogue_xml(raw, sp.start, sp.end, d, ex.export_production_tags),
        ElementV::DualDialogue(a, b) => if depth == 0 {
            Seq::empty()
        } else {
            doc_spec(ex, (depth - 1) as nat, None, seq![SpanV { inner: ElementV::Dialogue(a), ..sp }])
                + doc_spec(ex, (depth - 1) as nat, None, seq![SpanV { inner: ElementV::Dialogue(b), ..sp }])
        },
        ElementV::Transition(r) => simple_para(ex, "Transition"@, r, sp),
        ElementV::Shot(r) => simple_para(ex, "Shot"@, r, sp),
        ElementV::CenteredText(r) => simple_para(ex, "Centered"@, r, sp),
        ElementV::Synopsis(r) => if ex.export_synopses {
            simple_para(ex, "Synopsis"@, r, sp)
        } else {
            Seq::empty()
        },
        ElementV::Section(r) => if ex.export_sections {
            simple_para(ex, outline_type(section_level(raw, sp.start)), r, sp)
        } else {
            Seq::empty()
        },
        ElementV::Lyrics(_) => Seq::empty(),
        ElementV::PageBreak => "    <Paragraph Type=\"New Page\"/>\n"@,
    }
}

/// The body from line `li` (0-based) on, with spans `k..` still to come:
/// a span is written when its first line (counted from 1) is reached,
/// and the walk goes on after its last line; other lines are standalone.
pub open spec fn content_run(ex: FdxExporter, depth: nat, spans: Seq<SpanV>, k: int, li: int) -> Seq<char>
    decreases depth, 2int, spans.len() - k, raw_of(ex).len() - li,
{
    if li < 0 || li >= raw_of(ex).len() || k < 0 {
        Seq::empty()
    } else if k < spans.len() && spans[k].start <= li + 1 {
        element_spec(ex, depth, spans[k]) + content_run(ex, depth, spans, k + 1, spans[k].end)
    } else {
        standalone_xml(raw_of(ex)[li]) + content_run(ex, depth, spans, k, li + 1)
    }
}

/// The title page entries of one type as paragraphs.
pub open spec fn title_paras(ptype: Seq<char>, items: Seq<Seq<(Seq<char>, Style)>>) -> Seq<char>
    decreases items.len(),
{
    if items.len() == 0 {
        Seq::empty()
    } else {
        title_paras(ptype, items.drop_last()) + "    <Paragraph Type=\""@ + ptype + "\">"@ + rich_fdx(items.last())
            + "</Paragraph>\n"@
    }
}

/// The title page, when there is one and it is exported.
pub open spec fn title_xml(ex: FdxExporter, tp: Option<TitlePageV>) -> Seq<char> {
    match tp {
        Some(t) => if ex.include_title_page {
            "  <TitlePage>\n"@ + title_paras("Title"@, t.title) + title_paras("Credit"@, t.credit) + title_paras(
                "Writer"@,
                t.authors,
            ) + title_paras("Source"@, t.source) + title_paras("Draft Date"@, t.draft_date) + title_paras(
                "Contact"@,
                t.contact,
            ) + title_paras("Notes"@, t.notes) + "  </TitlePage>\n"@
        } else {
            Seq::empty()
        },
        None => Seq::empty(),
    }
}

/// The tags of all lines of the spans, span by span.
pub open spec fn spans_tags(raw: Seq<Seq<char>>, spans: Seq<SpanV>) -> Seq<(Seq<char>, Seq<char>)>
    decreases spans.len(),
{
    if spans.len() == 0 {
        Seq::empty()
    } else {
        spans_tags(raw, spans.drop_last()) + tags_between(
            raw,
            clip_lo(spans.last().start),
            clip_hi(spans.last().end, raw.len() as int),
        )
    }
}

/// `a` comes before `b` in the order of `String` (by code points).
pub open spec fn str_lt(a: Seq<char>, b: Seq<char>) -> bool
    decreases a.len(),
{
    if a.len() == 0 {
        b.len() > 0
    } else if b.len() == 0 {
        false
    } else if a[0] != b[0] {
        (a[0] as int) < (b[0] as int)
    } else {
        str_lt(a.skip(1), b.skip(1))
    }
}

/// `a` comes before `b` in the order of pairs of strings.
pub open spec fn pair_lt(a: (Seq<char>, Seq<char>), b: (Seq<char>, Seq<char>)) -> bool {
    str_lt(a.0, b.0) || (a.0 == b.0 && str_lt(a.1, b.1))
}

/// `l` with `x` inserted before the first item after it, unless `x` is
/// already there (an ordered set's insert).
pub open spec fn insert_str(l: Seq<Seq<char>>, x: Seq<char>) -> Seq<Seq<char>>
    decreases l.len(),
{
    if l.len() == 0 {
        seq![x]
    } else if l[0] == x {
        l
    } else if str_lt(x, l[0]) {
        seq![x] + l
    } else {
        seq![l[0]] + insert_str(l.skip(1), x)
    }
}

/// The same for pairs.
pub open spec fn insert_pair(l: Seq<(Seq<char>, Seq<char>)>, x: (Seq<char>, Seq<char>)) -> Seq<(Seq<char>, Seq<char>)>
    decreases l.len(),
{
    if l.len() == 0 {
        seq![x]
    } else if l[0] == x {
        l
    } else if pair_lt(x, l[0]) {
        seq![x] + l
    } else {
        seq![l[0]] + insert_pair(l.skip(1), x)
    }
}

/// The categories of the tags, each once, in order.
pub open spec fn category_set(ts: Seq<(Seq<char>, Seq<char>)>) -> Seq<Seq<char>>
    decreases ts.len(),
{
    if ts.len() == 0 {
        Seq::empty()
    } else {
        insert_str(category_set(ts.drop_last()), ts.last().0)
    }
}

/// The tags, each once, in order.
pub open spec fn tag_set(ts: Seq<(Seq<char>, Seq<char>)>) -> Seq<(Seq<char>, Seq<char>)>
    decreases ts.len(),
{
    if ts.len() == 0 {
        Seq::empty()
    } else {
        insert_pair(tag_set(ts.drop_last()), ts.last())
    }
}

/// The display name of a tag category.
pub open spec fn category_name(c: Seq<char>) -> Seq<char> {
    if c == "cast"@ { "Cast Members"@ }
    else if c == "props"@ { "Props"@ }
    else if c == "wardrobe"@ { "Wardrobe"@ }
    else if c == "makeup"@ { "Makeup/Hair"@ }
    else if c == "sfx"@ { "Special Effects"@ }
    else if c == "vfx"@ { "Visual Effects"@ }
    else if c == "music"@ { "Music"@ }
    else if c == "dnotes"@ { "Production Notes"@ }
    else if c == "extras"@ { "Background Actors"@ }
    else if c == "stunts"@ { "Stunts"@ }
    else if c == "vehicles"@ { "Vehicles"@ }
    else if c == "animals"@ { "Animals"@ }
    else if c == "setdressing"@ { "Set Dressing"@ }
    else if c == "sound"@ { "Sound"@ }
    else if c == "equipment"@ { "Special Equipment"@ }
    else if c == "security"@ { "Security"@ }
    else if c == "greenery"@ { "Greenery"@ }
    else { "General Tag"@ }
}

/// The colour of a tag category.
pub open spec fn category_color(c: Seq<char>) -> Seq<char> {
    if c == "cast"@ { "#4080FF"@ }
    else if c == "props"@ { "#FF4040"@ }
    else if c == "wardrobe"@ { "#40FF40"@ }
    else if c == "makeup"@ { "#FF40FF"@ }
    else if c == "sfx"@ { "#FFFF40"@ }
    else if c == "vfx"@ { "#40FFFF"@ }
    else if c == "music"@ { "#FF8000"@ }
    else if c == "dnotes"@ { "#808080"@ }
    else if c == "extras"@ { "#8040FF"@ }
    else if c == "stunts"@ { "#FF4080"@ }
    else if c == "vehicles"@ { "#0080FF"@ }
    else if c == "animals"@ { "#FF8040"@ }
    else if c == "setdressing"@ { "#80FF00"@ }
    else if c == "sound"@ { "#00FF80"@ }
    else if c == "equipment"@ { "#FF00FF"@ }
    else if c == "security"@ { "#FF0000"@ }
    else if c == "greenery"@ { "#00FF00"@ }
    else { "#C0C0C0"@ }
}

pub open spec fn category_lines(cs: Seq<Seq<char>>) -> Seq<char>
    decreases cs.len(),
{
    if cs.len() == 0 {
        Seq::empty()
    } else {
        let c = cs.last();
        category_lines(cs.drop_last()) + "      <TagCategory Id=\"CAT_"@ + xml_id_spec(c) + "\" Name=\""@ + category_name(c)
            + "\" Color=\""@ + category_color(c) + "\" Style=\"Bold\"/>\n"@
    }
}

pub open spec fn tag_lines(ts: Seq<(Seq<char>, Seq<char>)>) -> Seq<char>
    decreases ts.len(),
{
    if ts.len() == 0 {
        Seq::empty()
    } else {
        let t = ts.last();
        tag_lines(ts.drop_last()) + "      <Tag Id=\""@ + tag_id(t) + "\" Name=\""@ + escape_spec(t.1) + "\" CategoryId=\"CAT_"@
            + xml_id_spec(t.0) + "\"/>\n"@
    }
}

/// The registry of the production tags of the spans, when tags are
/// exported and there are any.
pub open spec fn tagdata_xml(ex: FdxExporter, spans: Seq<SpanV>) -> Seq<char> {
    let ts: Seq<(Seq<char>, Seq<char>)> = if ex.export_production_tags {
        spans_tags(raw_of(ex), spans)
    } else {
        Seq::empty()
    };
    if ts.len() == 0 {
        Seq::empty()
    } else {
        "  <TagData>\n"@ + "    <TagCategories>\n"@ + category_lines(category_set(ts)) + "    </TagCategories>\n"@
            + "    <Tags>\n"@ + tag_lines(tag_set(ts)) + "    </Tags>\n"@ + "  </TagData>\n"@
    }
}

/// The FDX document of a screenplay.
pub open spec fn doc_spec(ex: FdxExporter, depth: nat, tp: Option<TitlePageV>, spans: Seq<SpanV>) -> Seq<char>
    decreases depth, 3int, 0int, 0int,
{
    "<?xml version=\"1.0\" encoding=\"UTF-8\" standalone=\"no\" ?>\n"@ + "<FinalDraft DocumentType=\"Script\" Version=\"4\">\n"@
        + "  <Content>\n"@ + content_run(ex, depth, spans, 0, 0) + "  </Content>\n"@ + title_xml(ex, tp)
        + tagdata_xml(ex, spans) + "</FinalDraft>\n"@
}


/// Dialogue spans lie inside the script: a speech is read line by line.
pub open spec fn spans_ok(n: int, spans: Seq<SpanV>) -> bool {
    forall|k: int| 0 <= k < spans.len() ==> #[trigger] span_ok(n, spans[k])
}

pub open spec fn span_ok(n: int, sp: SpanV) -> bool {
    (sp.inner is Dialogue || sp.inner is DualDialogue) ==> 1 <= sp.start && sp.end <= n
}

pub proof fn lemma_runs_plain(es: Seq<RichElement>)
    ensures
        runs_plain(es.map_values(|e: RichElement| (e.text@, e.style))) == plain_chars(es),
    decreases es.len(),
{
    if es.len() > 0 {
        lemma_runs_plain(es.drop_last());
        assert(es.map_values(|e: RichElement| (e.text@, e.style)).drop_last() =~= es.drop_last().map_values(
            |e: RichElement| (e.text@, e.style),
        ));
    }
}

fn plain_of(r: &RichString) -> (v: Vec<char>)
    ensures
        v@ == runs_plain(runs(*r)),
{
    proof {
        lemma_runs_plain(r.elements@);
    }
    r.to_plain_chars()
}

fn append_pairs(dst: &mut Vec<(Vec<char>, Vec<char>)>, src: &Vec<(Vec<char>, Vec<char>)>)
    ensures
        pairs_v(final(dst)@) == pairs_v(old(dst)@) + pairs_v(src@),
{
    let ghost d0 = pairs_v(dst@);
    let mut i: usize = 0;
    let n = src.len();
    let ghost s0 = pairs_v(src@);
    while i < n
        invariant
            n == src@.len(),
            i <= n,
            pairs_v(src@) == s0,
            pairs_v(dst@) == d0 + s0.take(i as int),
        decreases n - i,
    {
        let p = (copy_chars(&src[i].0), copy_chars(&src[i].1));
        let ghost before = pairs_v(dst@);
        dst.push(p);
        proof {
            assert(pairs_v(dst@) =~= before.push(s0[i as int]));
            assert(s0.take(i + 1) =~= s0.take(i as int).push(s0[i as int]));
        }
        i += 1;
    }
    proof {
        assert(s0.take(n as int) =~= s0);
    }
}


/// The tags of lines `lo..hi` (0-based).
fn tags_in(raw: &Vec<Vec<char>>, lo: usize, hi: usize) -> (r: Vec<(Vec<char>, Vec<char>)>)
    requires
        hi <= raw@.len(),
    ensures
        pairs_v(r@) == tags_between(chars_v(raw@), lo as int, hi as int),
{
    let mut out: Vec<(Vec<char>, Vec<char>)> = Vec::new();
    if hi <= lo {
        return out;
    }
    let mut l = lo;
    while l < hi
        invariant
            lo <= l <= hi <= raw@.len(),
            pairs_v(out@) == tags_between(chars_v(raw@), lo as int, l as int),
        decreases hi - l,
    {
        let ts = parse_line_tags(&raw[l]);
        append_pairs(&mut out, &ts);
        l += 1;
    }
    out
}

/// The script notes of lines `lo..hi` (0-based).
fn notes_in(raw: &Vec<Vec<char>>, lo: usize, hi: usize) -> (r: Vec<(Vec<char>, Vec<char>)>)
    requires
        hi <= raw@.len(),
    ensures
        pairs_v(r@) == notes_between(chars_v(raw@), lo as int, hi as int),
{
    let mut out: Vec<(Vec<char>, Vec<char>)> = Vec::new();
    if hi <= lo {
        return out;
    }
    let mut l = lo;
    while l < hi
        invariant
            lo <= l <= hi <= raw@.len(),
            pairs_v(out@) == notes_between(chars_v(raw@), lo as int, l as int),
        decreases hi - l,
    {
        let ns = parse_line_notes(&raw[l]);
        append_pairs(&mut out, &ns);
        l += 1;
    }
    out
}

fn get_note_color_label_prefix(k: &Vec<char>) -> (r: (&'static str, &'static str, &'static str))
    ensures
        (r.0@, r.1@, r.2@) == note_style(k@),
{
    if eq_str(k, "note") {
        ("#FFFF80", "Note", "[NOTE]")
    } else if eq_str(k, "marker") {
        ("#80FF80", "Marker", "[MARKER]")
    } else if eq_str(k, "subtext") {
        ("#8080FF", "Subtext", "[SUBTEXT]")
    } else if eq_str(k, "tags") {
        ("#FF80FF", "General Tag", "[TAG]")
    } else {
        ("#C0C0C0", "Note", "")
    }
}

fn write_notes(out: &mut Vec<char>, ns: &Vec<(Vec<char>, Vec<char>)>)
    ensures
        final(out)@ == old(out)@ + notes_xml(pairs_v(ns@)),
{
    let ghost base = out@;
    let ghost nv = pairs_v(ns@);
    let mut i: usize = 0;
    while i < ns.len()
        invariant
            i <= ns@.len(),
            nv == pairs_v(ns@),
            out@ == base + notes_xml(nv.take(i as int)),
        decreases ns.len() - i,
    {
        let (color, label, prefix) = get_note_color_label_prefix(&ns[i].0);
        let ghost o = out@;
        push_str(out, "<ScriptNote Label=\"");
        push_str(out, label);
        push_str(out, "\" Color=\"");
        push_str(out, color);
        push_str(out, "\" Author=\"Fount\"><Paragraph><Text>");
        push_str(out, prefix);
        push_str(out, " ");
        let esc = escape_xml(&ns[i].1);
        push_all(out, &esc);
        push_str(out, "</Text></Paragraph></ScriptNote>");
        proof {
            assert(nv[i as int] == (ns@[i as int].0@, ns@[i as int].1@));
            assert(out@ =~= o + note_xml(nv[i as int]));
            assert(nv.take(i + 1).drop_last() =~= nv.take(i as int));
        }
        i += 1;
    }
    proof {
        assert(nv.take(ns@.len() as int) =~= nv);
    }
}

fn write_tag_refs(out: &mut Vec<char>, ts: &Vec<(Vec<char>, Vec<char>)>)
    ensures
        final(out)@ == old(out)@ + tag_refs(pairs_v(ts@)),
{
    let ghost base = out@;
    let ghost tv = pairs_v(ts@);
    let mut i: usize = 0;
    while i < ts.len()
        invariant
            i <= ts@.len(),
            tv == pairs_v(ts@),
            out@ == base + tag_refs(tv.take(i as int)),
        decreases ts.len() - i,
    {
        let ghost o = out@;
        push_str(out, "<Tag Id=\"");
        push_tag_id(out, &ts[i].0, &ts[i].1);
        push_str(out, "\"/>");
        proof {
            assert(tv[i as int] == (ts@[i as int].0@, ts@[i as int].1@));
            assert(out@ =~= o + "<Tag Id=\""@ + tag_id(tv[i as int]) + "\"/>"@);
            assert(tv.take(i + 1).drop_last() =~= tv.take(i as int));
        }
        i += 1;
    }
    proof {
        assert(tv.take(ts@.len() as int) =~= tv);
    }
}

fn push_tag_id(out: &mut Vec<char>, cat: &Vec<char>, item: &Vec<char>)
    ensures
        final(out)@ == old(out)@ + tag_id((cat@, item@)),
{
    let ghost o = out@;
    push_str(out, "TAG_");
    let a = make_xml_id(cat);
    push_all(out, &a);
    push_str(out, "_");
    let b = make_xml_id(item);
    push_all(out, &b);
    proof {
        assert(out@ =~= o + tag_id((cat@, item@)));
    }
}

/// Writes a paragraph of type `ptype` holding `text_xml`, with the tags
/// and script notes of lines `a..=b` (counted from 1). A tag is referenced
/// by its id when tags are exported: every tag of these lines is then in
/// the registry, which is made from the lines of all spans.
fn write_paragraph(
    out: &mut Vec<char>,
    ptype: &str,
    extra: &Vec<char>,
    text_xml: &Vec<char>,
    raw: &Vec<Vec<char>>,
    a: usize,
    b: usize,
    tags_on: bool,
)
    ensures
        final(out)@ == old(out)@ + para_spec(ptype@, extra@, text_xml@, chars_v(raw@), a as int, b as int, tags_on),
{
    let n = raw.len();
    let lo: usize = if a < 1 {
        0
    } else {
        a - 1
    };
    let hi: usize = if b > n {
        n
    } else {
        b
    };
    let mut p = chars_of("    <Paragraph Type=\"");
    push_str(&mut p, ptype);
    push_str(&mut p, "\"");
    push_all(&mut p, extra);
    push_str(&mut p, ">");
    push_all(&mut p, text_xml);
    let ts = tags_in(raw, lo, hi);
    let tx = tags_part(&ts, tags_on);
    push_all(&mut p, &tx);
    let ns = notes_in(raw, lo, hi);
    let nx = notes_part(&ns);
    push_all(&mut p, &nx);
    push_str(&mut p, "</Paragraph>\n");
    push_all(out, &p);
}

fn notes_part(ns: &Vec<(Vec<char>, Vec<char>)>) -> (r: Vec<char>)
    ensures
        r@ == notes_xml(pairs_v(ns@)),
{
    let mut out: Vec<char> = Vec::new();
    write_notes(&mut out, ns);
    proof {
        assert(out@ =~= notes_xml(pairs_v(ns@)));
    }
    out
}

fn tags_part(ts: &Vec<(Vec<char>, Vec<char>)>, tags_on: bool) -> (r: Vec<char>)
    ensures
        r@ == tags_xml(pairs_v(ts@), tags_on),
{
    let mut out: Vec<char> = Vec::new();
    if ts.len() > 0 {
        push_str(&mut out, "<Tags>");
        if tags_on {
            write_tag_refs(&mut out, ts);
        }
        push_str(&mut out, "</Tags>");
        proof {
            if !tags_on {
                assert(out@ =~= "<Tags>"@ + Seq::<char>::empty() + "</Tags>"@);
            }
        }
    }
    out
}


/// A paragraph as a new vector (see `write_paragraph`).
fn paragraph(
    ptype: &str,
    extra: &Vec<char>,
    text_xml: &Vec<char>,
    raw: &Vec<Vec<char>>,
    a: usize,
    b: usize,
    tags_on: bool,
) -> (r: Vec<char>)
    ensures
        r@ == para_spec(ptype@, extra@, text_xml@, chars_v(raw@), a as int, b as int, tags_on),
{
    let mut out: Vec<char> = Vec::new();
    write_paragraph(&mut out, ptype, extra, text_xml, raw, a, b, tags_on);
    proof {
        assert(out@ =~= para_spec(ptype@, extra@, text_xml@, chars_v(raw@), a as int, b as int, tags_on));
    }
    out
}

/// The parts of a speech, the first looked for at line `d0` (0-based).
fn parts_of(
    raw: &Vec<Vec<char>>,
    end: usize,
    parts: &Vec<DialogueElement>,
    d0: usize,
    tags_on: bool,
) -> (r: Vec<char>)
    requires
        end <= raw@.len(),
    ensures
        r@ == parts_xml(chars_v(raw@), end as int, parts@.map_values(|p: DialogueElement| part_v(p)), 0, d0 as int, tags_on),
{
    let ghost rv = chars_v(raw@);
    let ghost pv = parts@.map_values(|p: DialogueElement| part_v(p));
    let empty: Vec<char> = Vec::new();
    let mut out: Vec<char> = Vec::new();
    let mut k: usize = 0;
    let mut d: usize = d0;
    proof {
        assert(out@ + parts_xml(rv, end as int, pv, 0, d0 as int, tags_on) =~= parts_xml(rv, end as int, pv, 0, d0 as int, tags_on));
    }
    loop
        invariant_except_break
            end <= raw@.len(),
            rv == chars_v(raw@),
            pv == parts@.map_values(|p: DialogueElement| part_v(p)),
            empty@.len() == 0,
            k <= parts@.len(),
            out@ + parts_xml(rv, end as int, pv, k as int, d as int, tags_on) == parts_xml(rv, end as int, pv, 0, d0 as int, tags_on),
        ensures
            out@ == parts_xml(rv, end as int, pv, 0, d0 as int, tags_on),
        decreases parts@.len() - k,
    {
        if k >= parts.len() {
            proof {
                assert(out@ + Seq::<char>::empty() =~= out@);
            }
            break;
        }
        let ghost ds = d;
        while d < end && blank(&raw[d])
            invariant
                end <= raw@.len(),
                rv == chars_v(raw@),
                ds <= d,
                skip_blank(rv, end as int, d as int) == skip_blank(rv, end as int, ds as int),
            decreases end - d,
        {
            d += 1;
        }
        if d >= end {
            proof {
                assert(out@ + Seq::<char>::empty() =~= out@);
            }
            break;
        }
        let x = match &parts[k] {
            DialogueElement::Parenthetical(r) => {
                let t = rich_string_to_fdx(r);
                paragraph("Parenthetical", &empty, &t, raw, d + 1, d + 1, tags_on)
            },
            DialogueElement::Line(r) => {
                let t = rich_string_to_fdx(r);
                paragraph("Dialogue", &empty, &t, raw, d + 1, d + 1, tags_on)
            },
        };
        proof {
            assert(empty@ == Seq::<char>::empty());
            assert(pv[k as int] == part_v(parts@[k as int]));
        }
        let ghost o = out@;
        push_all(&mut out, &x);
        proof {
            assert(o + x@ + parts_xml(rv, end as int, pv, k + 1, d + 1, tags_on) =~= o + parts_xml(rv, end as int, pv, k as int, ds as int, tags_on));
        }
        d += 1;
        k += 1;
    }
    out
}

/// A speech read from lines `start..=end` (counted from 1).
fn dialogue_of(raw: &Vec<Vec<char>>, start: usize, end: usize, d: &Dialogue, tags_on: bool) -> (r: Vec<char>)
    requires
        1 <= start,
        end <= raw@.len(),
    ensures
        r@ == dialogue_xml(chars_v(raw@), start as int, end as int, dialogue_v(*d), tags_on),
{
    let mut cue = plain_of(&d.character);
    match &d.extension {
        Some(e) => {
            push_str(&mut cue, " (");
            let pe = plain_of(e);
            push_all(&mut cue, &pe);
            push_str(&mut cue, ")");
        },
        None => {},
    }
    proof {
        assert(cue@ =~= cue_text(dialogue_v(*d)));
    }
    let t = trim(&cue);
    let mut text = chars_of("<Text>");
    let esc = escape_xml(&t);
    push_all(&mut text, &esc);
    push_str(&mut text, "</Text>");
    let empty: Vec<char> = Vec::new();
    let mut p = paragraph("Character", &empty, &text, raw, start, start, tags_on);
    let parts = parts_of(raw, end, &d.elements, start, tags_on);
    push_all(&mut p, &parts);
    proof {
        assert(empty@ =~= Seq::<char>::empty());
    }
    p
}

fn hashes(s: &Vec<char>) -> (r: usize)
    ensures
        r == hash_count(s@),
{
    let mut n: usize = 0;
    let mut i: usize = 0;
    while i < s.len()
        invariant
            i <= s@.len(),
            n == hash_count(s@.take(i as int)),
            n <= i,
        decreases s.len() - i,
    {
        proof {
            assert(s@.take(i + 1).drop_last() =~= s@.take(i as int));
        }
        if s[i] == '#' {
            n += 1;
        }
        i += 1;
    }
    proof {
        assert(s@.take(s@.len() as int) =~= s@);
    }
    n
}

fn outline_of(n: usize) -> (r: &'static str)
    ensures
        r@ == outline_type(n as nat),
{
    if n <= 1 {
        "Outline 1"
    } else if n == 2 {
        "Outline 2"
    } else {
        "Outline 3"
    }
}


/// `a` comes before `b` in the order of `String`.
fn str_less(a: &Vec<char>, b: &Vec<char>) -> (r: bool)
    ensures
        r == str_lt(a@, b@),
{
    let mut i: usize = 0;
    proof {
        assert(a@.skip(0) =~= a@);
        assert(b@.skip(0) =~= b@);
    }
    while i < a.len() && i < b.len()
        invariant
            i <= a@.len(),
            i <= b@.len(),
            str_lt(a@, b@) == str_lt(a@.skip(i as int), b@.skip(i as int)),
        decreases a.len() - i,
    {
        proof {
            let x = a@.skip(i as int);
            let y = b@.skip(i as int);
            assert(x[0] == a@[i as int] && y[0] == b@[i as int]);
            assert(x.skip(1) =~= a@.skip(i + 1));
            assert(y.skip(1) =~= b@.skip(i + 1));
        }
        if a[i] != b[i] {
            return a[i] < b[i];
        }
        i += 1;
    }
    proof {
        assert(a@.skip(i as int).len() == a@.len() - i);
        assert(b@.skip(i as int).len() == b@.len() - i);
    }
    i == a.len() && i < b.len()
}

fn pair_less(a: &(Vec<char>, Vec<char>), b: &(Vec<char>, Vec<char>)) -> (r: bool)
    ensures
        r == pair_lt((a.0@, a.1@), (b.0@, b.1@)),
{
    str_less(&a.0, &b.0) || (eq_chars(&a.0, &b.0) && str_less(&a.1, &b.1))
}

/// Inserts `x` into the ordered list `l`, unless it is there already.
fn insert_sorted_str(l: &mut Vec<Vec<char>>, x: &Vec<char>)
    ensures
        chars_v(final(l)@) == insert_str(chars_v(old(l)@), x@),
{
    let ghost l0 = chars_v(l@);
    let mut j: usize = 0;
    proof {
        assert(l0.take(0) + l0.skip(0) =~= l0);
    }
    while j < l.len()
        invariant
            j <= l@.len(),
            chars_v(l@) == l0,
            l0 == chars_v(old(l)@),
            insert_str(l0, x@) == l0.take(j as int) + insert_str(l0.skip(j as int), x@),
        decreases l.len() - j,
    {
        let ghost rest = l0.skip(j as int);
        proof {
            assert(rest[0] == l@[j as int]@);
        }
        if eq_chars(&l[j], x) {
            proof {
                assert(insert_str(rest, x@) == rest);
                assert(l0.take(j as int) + rest =~= l0);
            }
            return;
        }
        if str_less(x, &l[j]) {
            l.insert(j, copy_chars(x));
            proof {
                assert(insert_str(rest, x@) == seq![x@] + rest);
                assert(chars_v(l@) =~= l0.take(j as int) + (seq![x@] + rest));
            }
            return;
        }
        proof {
            assert(rest.skip(1) =~= l0.skip(j + 1));
            assert(l0.take(j as int) + (seq![rest[0]] + insert_str(rest.skip(1), x@)) =~= l0.take(j + 1) + insert_str(
                l0.skip(j + 1),
                x@,
            ));
        }
        j += 1;
    }
    let ghost before = chars_v(l@);
    l.push(copy_chars(x));
    proof {
        assert(l0.skip(j as int) =~= Seq::<Seq<char>>::empty());
        assert(l0.take(j as int) =~= l0);
        assert(chars_v(l@) =~= before.push(x@));
        assert(insert_str(l0, x@) =~= l0 + seq![x@]);
    }
}

/// Inserts `x` into the ordered list of pairs `l`, unless it is there already.
fn insert_sorted_pair(l: &mut Vec<(Vec<char>, Vec<char>)>, x: &(Vec<char>, Vec<char>))
    ensures
        pairs_v(final(l)@) == insert_pair(pairs_v(old(l)@), (x.0@, x.1@)),
{
    let ghost l0 = pairs_v(l@);
    let ghost xv = (x.0@, x.1@);
    let mut j: usize = 0;
    proof {
        assert(l0.take(0) + l0.skip(0) =~= l0);
    }
    while j < l.len()
        invariant
            j <= l@.len(),
            pairs_v(l@) == l0,
            l0 == pairs_v(old(l)@),
            xv == (x.0@, x.1@),
            insert_pair(l0, xv) == l0.take(j as int) + insert_pair(l0.skip(j as int), xv),
        decreases l.len() - j,
    {
        let ghost rest = l0.skip(j as int);
        proof {
            assert(rest[0] == (l@[j as int].0@, l@[j as int].1@));
        }
        if eq_chars(&l[j].0, &x.0) && eq_chars(&l[j].1, &x.1) {
            proof {
                assert(insert_pair(rest, xv) == rest);
                assert(l0.take(j as int) + rest =~= l0);
            }
            return;
        }
        if pair_less(x, &l[j]) {
            l.insert(j, (copy_chars(&x.0), copy_chars(&x.1)));
            proof {
                assert(insert_pair(rest, xv) == seq![xv] + rest);
                assert(pairs_v(l@) =~= l0.take(j as int) + (seq![xv] + rest));
            }
            return;
        }
        proof {
            assert(rest.skip(1) =~= l0.skip(j + 1));
            assert(l0.take(j as int) + (seq![rest[0]] + insert_pair(rest.skip(1), xv)) =~= l0.take(j + 1) + insert_pair(
                l0.skip(j + 1),
                xv,
            ));
        }
        j += 1;
    }
    let ghost before = pairs_v(l@);
    l.push((copy_chars(&x.0), copy_chars(&x.1)));
    proof {
        assert(l0.skip(j as int) =~= Seq::<(Seq<char>, Seq<char>)>::empty());
        assert(l0.take(j as int) =~= l0);
        assert(pairs_v(l@) =~= before.push(xv));
        assert(insert_pair(l0, xv) =~= l0 + seq![xv]);
    }
}

fn map_category_name(c: &Vec<char>) -> (r: &'static str)
    ensures
        r@ == category_name(c@),
{
    if eq_str(c, "cast") {
        "Cast Members"
    } else if eq_str(c, "props") {
        "Props"
    } else if eq_str(c, "wardrobe") {
        "Wardrobe"
    } else if eq_str(c, "makeup") {
        "Makeup/Hair"
    } else if eq_str(c, "sfx") {
        "Special Effects"
    } else if eq_str(c, "vfx") {
        "Visual Effects"
    } else if eq_str(c, "music") {
        "Music"
    } else if eq_str(c, "dnotes") {
        "Production Notes"
    } else if eq_str(c, "extras") {
        "Background Actors"
    } else if eq_str(c, "stunts") {
        "Stunts"
    } else if eq_str(c, "vehicles") {
        "Vehicles"
    } else if eq_str(c, "animals") {
        "Animals"
    } else if eq_str(c, "setdressing") {
        "Set Dressing"
    } else if eq_str(c, "sound") {
        "Sound"
    } else if eq_str(c, "equipment") {
        "Special Equipment"
    } else if eq_str(c, "security") {
        "Security"
    } else if eq_str(c, "greenery") {
        "Greenery"
    } else {
        "General Tag"
    }
}

fn map_category_color(c: &Vec<char>) -> (r: &'static str)
    ensures
        r@ == category_color(c@),
{
    if eq_str(c, "cast") {
        "#4080FF"
    } else if eq_str(c, "props") {
        "#FF4040"
    } else if eq_str(c, "wardrobe") {
        "#40FF40"
    } else if eq_str(c, "makeup") {
        "#FF40FF"
    } else if eq_str(c, "sfx") {
        "#FFFF40"
    } else if eq_str(c, "vfx") {
        "#40FFFF"
    } else if eq_str(c, "music") {
        "#FF8000"
    } else if eq_str(c, "dnotes") {
        "#808080"
    } else if eq_str(c, "extras") {
        "#8040FF"
    } else if eq_str(c, "stunts") {
        "#FF4080"
    } else if eq_str(c, "vehicles") {
        "#0080FF"
    } else if eq_str(c, "animals") {
        "#FF8040"
    } else if eq_str(c, "setdressing") {
        "#80FF00"
    } else if eq_str(c, "sound") {
        "#00FF80"
    } else if eq_str(c, "equipment") {
        "#FF00FF"
    } else if eq_str(c, "security") {
        "#FF0000"
    } else if eq_str(c, "greenery") {
        "#00FF00"
    } else {
        "#C0C0C0"
    }
}


/// The tags of the lines of all spans, span by span.
fn spans_tags_of(raw: &Vec<Vec<char>>, spans: &Vec<Span>) -> (r: Vec<(Vec<char>, Vec<char>)>)
    ensures
        pairs_v(r@) == spans_tags(chars_v(raw@), spans_v(spans@)),
{
    let ghost sv = spans_v(spans@);
    let n = raw.len();
    let mut out: Vec<(Vec<char>, Vec<char>)> = Vec::new();
    let mut i: usize = 0;
    while i < spans.len()
        invariant
            i <= spans@.len(),
            n == raw@.len(),
            sv == spans_v(spans@),
            pairs_v(out@) == spans_tags(chars_v(raw@), sv.take(i as int)),
        decreases spans.len() - i,
    {
        let a = spans[i].start_line;
        let b = spans[i].end_line;
        let lo: usize = if a < 1 {
            0
        } else {
            a - 1
        };
        let hi: usize = if b > n {
            n
        } else {
            b
        };
        let ts = tags_in(raw, lo, hi);
        append_pairs(&mut out, &ts);
        proof {
            assert(sv.take(i + 1).drop_last() =~= sv.take(i as int));
            assert(sv.take(i + 1).last() == sv[i as int]);
        }
        i += 1;
    }
    proof {
        assert(sv.take(spans@.len() as int) =~= sv);
    }
    out
}

fn category_lines_of(cs: &Vec<Vec<char>>) -> (r: Vec<char>)
    ensures
        r@ == category_lines(chars_v(cs@)),
{
    let ghost cv = chars_v(cs@);
    let mut out: Vec<char> = Vec::new();
    let mut i: usize = 0;
    while i < cs.len()
        invariant
            i <= cs@.len(),
            cv == chars_v(cs@),
            out@ == category_lines(cv.take(i as int)),
        decreases cs.len() - i,
    {
        let c = &cs[i];
        push_str(&mut out, "      <TagCategory Id=\"CAT_");
        let id = make_xml_id(c);
        push_all(&mut out, &id);
        push_str(&mut out, "\" Name=\"");
        push_str(&mut out, map_category_name(c));
        push_str(&mut out, "\" Color=\"");
        push_str(&mut out, map_category_color(c));
        push_str(&mut out, "\" Style=\"Bold\"/>\n");
        proof {
            assert(cv.take(i + 1).drop_last() =~= cv.take(i as int));
            assert(cv.take(i + 1).last() == c@);
        }
        i += 1;
    }
    proof {
        assert(cv.take(cs@.len() as int) =~= cv);
    }
    out
}

fn tag_lines_of(ts: &Vec<(Vec<char>, Vec<char>)>) -> (r: Vec<char>)
    ensures
        r@ == tag_lines(pairs_v(ts@)),
{
    let ghost tv = pairs_v(ts@);
    let mut out: Vec<char> = Vec::new();
    let mut i: usize = 0;
    while i < ts.len()
        invariant
            i <= ts@.len(),
            tv == pairs_v(ts@),
            out@ == tag_lines(tv.take(i as int)),
        decreases ts.len() - i,
    {
        let t = &ts[i];
        push_str(&mut out, "      <Tag Id=\"");
        push_tag_id(&mut out, &t.0, &t.1);
        push_str(&mut out, "\" Name=\"");
        let esc = escape_xml(&t.1);
        push_all(&mut out, &esc);
        push_str(&mut out, "\" CategoryId=\"CAT_");
        let id = make_xml_id(&t.0);
        push_all(&mut out, &id);
        push_str(&mut out, "\"/>\n");
        proof {
            assert(tv.take(i + 1).drop_last() =~= tv.take(i as int));
            assert(tv.take(i + 1).last() == (t.0@, t.1@));
        }
        i += 1;
    }
    proof {
        assert(tv.take(ts@.len() as int) =~= tv);
    }
    out
}

/// The tag registry: categories and tags, each once, in order.
fn tagdata_of(ex: &FdxExporter, raw: &Vec<Vec<char>>, spans: &Vec<Span>) -> (r: Vec<char>)
    requires
        chars_v(raw@) == raw_of(*ex),
    ensures
        r@ == tagdata_xml(*ex, spans_v(spans@)),
{
    let ts = if ex.export_production_tags {
        spans_tags_of(raw, spans)
    } else {
        Vec::new()
    };
    let ghost tv = pairs_v(ts@);
    proof {
        if !ex.export_production_tags {
            assert(tv =~= Seq::<(Seq<char>, Seq<char>)>::empty());
        }
    }
    if ts.len() == 0 {
        return Vec::new();
    }
    let mut cats: Vec<Vec<char>> = Vec::new();
    let mut tags: Vec<(Vec<char>, Vec<char>)> = Vec::new();
    let mut i: usize = 0;
    while i < ts.len()
        invariant
            i <= ts@.len(),
            tv == pairs_v(ts@),
            chars_v(cats@) == category_set(tv.take(i as int)),
            pairs_v(tags@) == tag_set(tv.take(i as int)),
        decreases ts.len() - i,
    {
        insert_sorted_str(&mut cats, &ts[i].0);
        insert_sorted_pair(&mut tags, &ts[i]);
        proof {
            assert(tv.take(i + 1).drop_last() =~= tv.take(i as int));
            assert(tv.take(i + 1).last() == (ts@[i as int].0@, ts@[i as int].1@));
        }
        i += 1;
    }
    proof {
        assert(tv.take(ts@.len() as int) =~= tv);
    }
    let mut out = chars_of("  <TagData>\n");
    push_str(&mut out, "    <TagCategories>\n");
    let cl = category_lines_of(&cats);
    push_all(&mut out, &cl);
    push_str(&mut out, "    </TagCategories>\n");
    push_str(&mut out, "    <Tags>\n");
    let tl = tag_lines_of(&tags);
    push_all(&mut out, &tl);
    push_str(&mut out, "    </Tags>\n");
    push_str(&mut out, "  </TagData>\n");
    out
}

fn write_title_paragraphs(ptype: &str, items: &Vec<RichString>) -> (r: Vec<char>)
    ensures
        r@ == title_paras(ptype@, entries_v(items@)),
{
    let ghost iv = entries_v(items@);
    let mut out: Vec<char> = Vec::new();
    let mut i: usize = 0;
    while i < items.len()
        invariant
            i <= items@.len(),
            iv == entries_v(items@),
            out@ == title_paras(ptype@, iv.take(i as int)),
        decreases items.len() - i,
    {
        push_str(&mut out, "    <Paragraph Type=\"");
        push_str(&mut out, ptype);
        push_str(&mut out, "\">");
        let t = rich_string_to_fdx(&items[i]);
        push_all(&mut out, &t);
        push_str(&mut out, "</Paragraph>\n");
        proof {
            assert(iv.take(i + 1).drop_last() =~= iv.take(i as int));
            assert(iv.take(i + 1).last() == runs(items@[i as int]));
        }
        i += 1;
    }
    proof {
        assert(iv.take(items@.len() as int) =~= iv);
    }
    out
}

/// The title page, when there is one and it is exported.
fn title_of(ex: &FdxExporter, tp: Option<&TitlePage>) -> (r: Vec<char>)
    ensures
        r@ == title_xml(*ex, match tp {
            Some(t) => Some(title_page_v(*t)),
            None => None,
        }),
{
    match tp {
        Some(t) => {
            if !ex.include_title_page {
                return Vec::new();
            }
            let mut out = chars_of("  <TitlePage>\n");
            let x = write_title_paragraphs("Title", &t.title);
            push_all(&mut out, &x);
            let x = write_title_paragraphs("Credit", &t.credit);
            push_all(&mut out, &x);
            let x = write_title_paragraphs("Writer", &t.authors);
            push_all(&mut out, &x);
            let x = write_title_paragraphs("Source", &t.source);
            push_all(&mut out, &x);
            let x = write_title_paragraphs("Draft Date", &t.draft_date);
            push_all(&mut out, &x);
            let x = write_title_paragraphs("Contact", &t.contact);
            push_all(&mut out, &x);
            let x = write_title_paragraphs("Notes", &t.notes);
            push_all(&mut out, &x);
            push_str(&mut out, "  </TitlePage>\n");
            out
        },
        None => Vec::new(),
    }
}

/// The paragraph of a standalone line: its script notes, if it has any.
fn standalone_of(line: &Vec<char>) -> (r: Vec<char>)
    ensures
        r@ == standalone_xml(line@),
{
    let ns = parse_line_notes(line);
    if ns.len() > 0 {
        let mut out = chars_of("    <Paragraph Type=\"Action\">");
        let nx = notes_part(&ns);
        push_all(&mut out, &nx);
        push_str(&mut out, "</Paragraph>\n");
        out
    } else {
        Vec::new()
    }
}


impl FdxExporter {
    /// An exporter of `raw_lines` that exports everything: title page,
    /// sections, synopses and production tags.
    pub fn new(raw_lines: Vec<String>) -> (r: FdxExporter)
        ensures
            r.raw_lines == raw_lines,
            r.include_title_page,
            r.export_sections,
            r.export_synopses,
            r.export_production_tags,
    {
        FdxExporter {
            raw_lines,
            include_title_page: true,
            export_sections: true,
            export_synopses: true,
            export_production_tags: true,
        }
    }

    /// The file extension of the export.
    pub fn file_extension(&self) -> (r: &'static str)
        ensures
            r@ == "fdx"@,
    {
        "fdx"
    }

    fn raw_chars(&self) -> (r: Vec<Vec<char>>)
        ensures
            chars_v(r@) == raw_of(*self),
    {
        let mut r: Vec<Vec<char>> = Vec::new();
        let mut i: usize = 0;
        while i < self.raw_lines.len()
            invariant
                i <= self.raw_lines@.len(),
                chars_v(r@) == raw_of(*self).take(i as int),
            decreases self.raw_lines.len() - i,
        {
            let ghost before = chars_v(r@);
            r.push(chars_of(self.raw_lines[i].as_str()));
            proof {
                assert(chars_v(r@) =~= before.push(self.raw_lines@[i as int]@));
                assert(raw_of(*self).take(i + 1) =~= raw_of(*self).take(i as int).push(self.raw_lines@[i as int]@));
            }
            i += 1;
        }
        proof {
            assert(raw_of(*self).take(self.raw_lines@.len() as int) =~= raw_of(*self));
        }
        r
    }

    /// The paragraphs of one span.
    fn element_of(&self, depth: usize, sp: &Span, raw: &Vec<Vec<char>>) -> (r: Vec<char>)
        requires
            chars_v(raw@) == raw_of(*self),
            span_ok(raw@.len() as int, span_v(*sp)),
        ensures
            r@ == element_spec(*self, depth as nat, span_v(*sp)),
        decreases depth, 1int,
    {
        let tags_on = self.export_production_tags;
        let empty: Vec<char> = Vec::new();
        proof {
            assert(empty@ =~= Seq::<char>::empty());
        }
        match &sp.inner {
            Element::Heading { slug, number } => {
                let mut attr: Vec<char> = Vec::new();
                match number {
                    Some(n) => {
                        push_str(&mut attr, " Number=\"");
                        let esc = escape_xml(&chars_of(n.as_str()));
                        push_all(&mut attr, &esc);
                        push_str(&mut attr, "\"");
                        proof {
                            assert(attr@ =~= " Number=\""@ + escape_spec(n@) + "\""@);
                        }
                    },
                    None => {
                        proof {
                            assert(attr@ =~= Seq::<char>::empty());
                        }
                    },
                }
                let t = rich_string_to_fdx(slug);
                paragraph("Scene Heading", &attr, &t, raw, sp.start_line, sp.end_line, tags_on)
            },
            Element::Action(r) => {
                let t = rich_string_to_fdx(r);
                paragraph("Action", &empty, &t, raw, sp.start_line, sp.end_line, tags_on)
            },
            Element::Dialogue(d) => dialogue_of(raw, sp.start_line, sp.end_line, d, tags_on),
            Element::DualDialogue(a, b) => {
                if depth == 0 {
                    return Vec::new();
                }
                let mut x = self.single_doc(depth - 1, sp.start_line, sp.end_line, a, raw);
                let y = self.single_doc(depth - 1, sp.start_line, sp.end_line, b, raw);
                push_all(&mut x, &y);
                x
            },
            Element::Transition(r) => {
                let t = rich_string_to_fdx(r);
                paragraph("Transition", &empty, &t, raw, sp.start_line, sp.end_line, tags_on)
            },
            Element::Shot(r) => {
                let t = rich_string_to_fdx(r);
                paragraph("Shot", &empty, &t, raw, sp.start_line, sp.end_line, tags_on)
            },
            Element::CenteredText(r) => {
                let t = rich_string_to_fdx(r);
                paragraph("Centered", &empty, &t, raw, sp.start_line, sp.end_line, tags_on)
            },
            Element::Synopsis(r) => {
                if !self.export_synopses {
                    return Vec::new();
                }
                let t = rich_string_to_fdx(r);
                paragraph("Synopsis", &empty, &t, raw, sp.start_line, sp.end_line, tags_on)
            },
            Element::Section(r) => {
                if !self.export_sections {
                    return Vec::new();
                }
                let n = raw.len();
                let level = if sp.start_line >= 1 && sp.start_line <= n {
                    hashes(&raw[sp.start_line - 1])
                } else {
                    1
                };
                let t = rich_string_to_fdx(r);
                paragraph(outline_of(level), &empty, &t, raw, sp.start_line, sp.end_line, tags_on)
            },
            Element::Lyrics(_) => Vec::new(),
            Element::PageBreak => chars_of("    <Paragraph Type=\"New Page\"/>\n"),
        }
    }

    /// The document of one speech alone, read from lines `start..=end`.
    fn single_doc(&self, depth: usize, start: usize, end: usize, d: &Dialogue, raw: &Vec<Vec<char>>) -> (r: Vec<char>)
        requires
            chars_v(raw@) == raw_of(*self),
            1 <= start,
            end <= raw@.len(),
        ensures
            r@ == doc_spec(
                *self,
                depth as nat,
                None,
                seq![SpanV { start: start as int, end: end as int, inner: ElementV::Dialogue(dialogue_v(*d)) }],
            ),
        decreases depth, 3int,
    {
        let sp = Span { start_line: start, end_line: end, inner: Element::Dialogue(copy_dialogue(d)) };
        let mut v: Vec<Span> = Vec::new();
        v.push(sp);
        proof {
            assert(spans_v(v@) =~= seq![
                SpanV { start: start as int, end: end as int, inner: ElementV::Dialogue(dialogue_v(*d)) },
            ]);
            assert(span_ok(raw@.len() as int, spans_v(v@)[0]));
        }
        self.doc_of(depth, None, &v, raw)
    }

    /// The document of a screenplay.
    fn doc_of(&self, depth: usize, tp: Option<&TitlePage>, spans: &Vec<Span>, raw: &Vec<Vec<char>>) -> (r: Vec<char>)
        requires
            chars_v(raw@) == raw_of(*self),
            spans_ok(raw@.len() as int, spans_v(spans@)),
        ensures
            r@ == doc_spec(*self, depth as nat, match tp {
                Some(t) => Some(title_page_v(*t)),
                None => None,
            }, spans_v(spans@)),
        decreases depth, 2int,
    {
        let ghost sv = spans_v(spans@);
        let n = raw.len();
        let mut c: Vec<char> = Vec::new();
        let mut k: usize = 0;
        let mut li: usize = 0;
        proof {
            assert(c@ + content_run(*self, depth as nat, sv, 0, 0) =~= content_run(*self, depth as nat, sv, 0, 0));
        }
        while li < n
            invariant
                chars_v(raw@) == raw_of(*self),
                n == raw@.len(),
                sv == spans_v(spans@),
                spans_ok(n as int, sv),
                k <= spans@.len(),
                c@ + content_run(*self, depth as nat, sv, k as int, li as int) == content_run(*self, depth as nat, sv, 0, 0),
            decreases spans@.len() - k, n - li,
        {
            let ghost c0 = c@;
            if k < spans.len() && spans[k].start_line <= li + 1 {
                proof {
                    assert(sv[k as int] == span_v(spans@[k as int]));
                    assert(span_ok(n as int, sv[k as int]));
                }
                let x = self.element_of(depth, &spans[k], raw);
                push_all(&mut c, &x);
                proof {
                    assert(c0 + x@ + content_run(*self, depth as nat, sv, k + 1, spans@[k as int].end_line as int) =~= c0
                        + content_run(*self, depth as nat, sv, k as int, li as int));
                }
                li = spans[k].end_line;
                k += 1;
            } else {
                let x = standalone_of(&raw[li]);
                push_all(&mut c, &x);
                proof {
                    assert(raw_of(*self)[li as int] == raw@[li as int]@);
                    assert(c0 + x@ + content_run(*self, depth as nat, sv, k as int, li + 1) =~= c0 + content_run(
                        *self,
                        depth as nat,
                        sv,
                        k as int,
                        li as int,
                    ));
                }
                li += 1;
            }
        }
        proof {
            assert(c@ + Seq::<char>::empty() =~= c@);
        }
        let mut out = chars_of("<?xml version=\"1.0\" encoding=\"UTF-8\" standalone=\"no\" ?>\n");
        push_str(&mut out, "<FinalDraft DocumentType=\"Script\" Version=\"4\">\n");
        push_str(&mut out, "  <Content>\n");
        push_all(&mut out, &c);
        push_str(&mut out, "  </Content>\n");
        let t = title_of(self, tp);
        push_all(&mut out, &t);
        let g = tagdata_of(self, raw, spans);
        push_all(&mut out, &g);
        push_str(&mut out, "</FinalDraft>\n");
        out
    }

    /// The FDX document of `screenplay`: the body as typed paragraphs,
    /// each with the production tags and script notes of its lines;
    /// standalone lines with script notes as action paragraphs; the title
    /// page; and the registry of the production tags.
    pub fn export(&self, screenplay: &Screenplay) -> (r: String)
        requires
            spans_ok(self.raw_lines@.len() as int, spans_v(screenplay.elements@)),
        ensures
            r@ == doc_spec(*self, 1, match screenplay.titlepage {
                Some(t) => Some(title_page_v(t)),
                None => None,
            }, spans_v(screenplay.elements@)),
    {
        let raw = self.raw_chars();
        let tp = match &screenplay.titlepage {
            Some(t) => Some(t),
            None => None,
        };
        let out = self.doc_of(1, tp, &screenplay.elements, &raw);
        string_of(&out)
    }
}


proof fn lemma_str_lt_total(a: Seq<char>, b: Seq<char>)
    requires
        a != b,
    ensures
        str_lt(a, b) || str_lt(b, a),
    decreases a.len(),
{
    if a.len() == 0 && b.len() == 0 {
        assert(a =~= b);
    } else if a.len() == 0 {
        assert(str_lt(a, b));
    } else if b.len() == 0 {
        assert(str_lt(b, a));
    } else if a[0] != b[0] {
        if (a[0] as int) < (b[0] as int) {
            assert(str_lt(a, b));
        } else {
            assert(str_lt(b, a));
        }
    } else {
        if a.skip(1) == b.skip(1) {
            assert(a =~= seq![a[0]] + a.skip(1));
            assert(b =~= seq![b[0]] + b.skip(1));
        }
        lemma_str_lt_total(a.skip(1), b.skip(1));
        assert(str_lt(a, b) == str_lt(a.skip(1), b.skip(1)));
        assert(str_lt(b, a) == str_lt(b.skip(1), a.skip(1)));
    }
}

proof fn lemma_str_lt_trans(a: Seq<char>, b: Seq<char>, c: Seq<char>)
    requires
        str_lt(a, b),
        str_lt(b, c),
    ensures
        str_lt(a, c),
    decreases a.len(),
{
    if a.len() > 0 && b.len() > 0 && c.len() > 0 && a[0] == b[0] && b[0] == c[0] {
        lemma_str_lt_trans(a.skip(1), b.skip(1), c.skip(1));
    }
}

proof fn lemma_pair_lt_total(a: (Seq<char>, Seq<char>), b: (Seq<char>, Seq<char>))
    requires
        a != b,
    ensures
        pair_lt(a, b) || pair_lt(b, a),
{
    if a.0 != b.0 {
        lemma_str_lt_total(a.0, b.0);
    } else {
        lemma_str_lt_total(a.1, b.1);
    }
}

proof fn lemma_pair_lt_trans(a: (Seq<char>, Seq<char>), b: (Seq<char>, Seq<char>), c: (Seq<char>, Seq<char>))
    requires
        pair_lt(a, b),
        pair_lt(b, c),
    ensures
        pair_lt(a, c),
{
    if str_lt(a.0, b.0) && str_lt(b.0, c.0) {
        lemma_str_lt_trans(a.0, b.0, c.0);
    } else if str_lt(a.0, b.0) {
    } else if str_lt(b.0, c.0) {
    } else {
        lemma_str_lt_trans(a.1, b.1, c.1);
    }
}

/// Strictly increasing in the order of `String`.
pub open spec fn sorted_strs(l: Seq<Seq<char>>) -> bool {
    forall|i: int, j: int| 0 <= i < j < l.len() ==> str_lt(#[trigger] l[i], #[trigger] l[j])
}

/// Strictly increasing in the order of pairs of strings.
pub open spec fn sorted_pairs(l: Seq<(Seq<char>, Seq<char>)>) -> bool {
    forall|i: int, j: int| 0 <= i < j < l.len() ==> pair_lt(#[trigger] l[i], #[trigger] l[j])
}

proof fn lemma_insert_str(l: Seq<Seq<char>>, x: Seq<char>)
    requires
        sorted_strs(l),
    ensures
        sorted_strs(insert_str(l, x)),
        forall|y: Seq<char>| #[trigger] insert_str(l, x).contains(y) <==> (l.contains(y) || y == x),
    decreases l.len(),
{
    if l.len() == 0 {
        assert(insert_str(l, x) == seq![x]);
        assert forall|y: Seq<char>| insert_str(l, x).contains(y) <==> (l.contains(y) || y == x) by {
            if insert_str(l, x).contains(y) {
                assert(seq![x][0] == x);
            }
            if y == x {
                assert(seq![x][0] == x);
            }
        }
    } else if l[0] == x {
    } else if str_lt(x, l[0]) {
        let r = seq![x] + l;
        assert forall|i: int, j: int| 0 <= i < j < r.len() implies str_lt(#[trigger] r[i], #[trigger] r[j]) by {
            if i == 0 {
                if j > 1 {
                    lemma_str_lt_trans(x, l[0], l[j - 1]);
                }
            } else {
                assert(r[i] == l[i - 1] && r[j] == l[j - 1]);
            }
        }
        assert forall|y: Seq<char>| r.contains(y) <==> (l.contains(y) || y == x) by {
            if r.contains(y) {
                let k = choose|k: int| 0 <= k < r.len() && r[k] == y;
                if k > 0 {
                    assert(l[k - 1] == y);
                }
            }
            if l.contains(y) {
                let k = choose|k: int| 0 <= k < l.len() && l[k] == y;
                assert(r[k + 1] == y);
            }
            if y == x {
                assert(r[0] == x);
            }
        }
    } else {
        let t = l.skip(1);
        assert(sorted_strs(t)) by {
            assert forall|i: int, j: int| 0 <= i < j < t.len() implies str_lt(#[trigger] t[i], #[trigger] t[j]) by {
                assert(t[i] == l[i + 1] && t[j] == l[j + 1]);
            }
        }
        lemma_insert_str(t, x);
        lemma_str_lt_total(x, l[0]);
        let it = insert_str(t, x);
        let r = seq![l[0]] + it;
        assert forall|i: int, j: int| 0 <= i < j < r.len() implies str_lt(#[trigger] r[i], #[trigger] r[j]) by {
            if i == 0 {
                assert(it.contains(r[j])) by {
                    assert(it[j - 1] == r[j]);
                }
                if r[j] != x {
                    assert(t.contains(r[j]));
                    let k = choose|k: int| 0 <= k < t.len() && t[k] == r[j];
                    assert(l[k + 1] == r[j]);
                    assert(str_lt(l[0], l[k + 1]));
                }
            } else {
                assert(r[i] == it[i - 1] && r[j] == it[j - 1]);
            }
        }
        assert forall|y: Seq<char>| r.contains(y) <==> (l.contains(y) || y == x) by {
            if r.contains(y) {
                let k = choose|k: int| 0 <= k < r.len() && r[k] == y;
                if k > 0 {
                    assert(it[k - 1] == y);
                    assert(it.contains(y));
                    assert(t.contains(y) || y == x);
                    if t.contains(y) {
                        let m = choose|m: int| 0 <= m < t.len() && t[m] == y;
                        assert(l[m + 1] == y);
                    }
                } else {
                    assert(l[0] == y);
                }
            }
            if l.contains(y) {
                let k = choose|k: int| 0 <= k < l.len() && l[k] == y;
                if k == 0 {
                    assert(r[0] == y);
                } else {
                    assert(t[k - 1] == y);
                    assert(t.contains(y));
                    assert(it.contains(y));
                    let m = choose|m: int| 0 <= m < it.len() && it[m] == y;
                    assert(r[m + 1] == y);
                }
            }
            if y == x {
                assert(it.contains(x));
                let m = choose|m: int| 0 <= m < it.len() && it[m] == x;
                assert(r[m + 1] == x);
            }
        }
    }
}

/// The tag categories in the registry are listed once each, in the order
/// of `String`, and they are exactly the categories of the tags.
pub proof fn law_categories_sorted_once(ts: Seq<(Seq<char>, Seq<char>)>)
    ensures
        sorted_strs(category_set(ts)),
        forall|c: Seq<char>| category_set(ts).contains(c) <==> exists|i: int| 0 <= i < ts.len() && (#[trigger] ts[i]).0 == c,
    decreases ts.len(),
{
    if ts.len() > 0 {
        let p = ts.drop_last();
        law_categories_sorted_once(p);
        lemma_insert_str(category_set(p), ts.last().0);
        assert forall|c: Seq<char>| category_set(ts).contains(c) <==> exists|i: int| 0 <= i < ts.len() && (#[trigger] ts[i]).0 == c by {
            if category_set(ts).contains(c) {
                if c == ts.last().0 {
                    assert(ts[ts.len() - 1].0 == c);
                } else {
                    let i = choose|i: int| 0 <= i < p.len() && (#[trigger] p[i]).0 == c;
                    assert(ts[i] == p[i]);
                }
            }
            if exists|i: int| 0 <= i < ts.len() && (#[trigger] ts[i]).0 == c {
                let i = choose|i: int| 0 <= i < ts.len() && (#[trigger] ts[i]).0 == c;
                if i < ts.len() - 1 {
                    assert(p[i] == ts[i]);
                }
            }
        }
    }
}

proof fn lemma_insert_pair(l: Seq<(Seq<char>, Seq<char>)>, x: (Seq<char>, Seq<char>))
    requires
        sorted_pairs(l),
    ensures
        sorted_pairs(insert_pair(l, x)),
        forall|y: (Seq<char>, Seq<char>)| #[trigger] insert_pair(l, x).contains(y) <==> (l.contains(y) || y == x),
    decreases l.len(),
{
    if l.len() == 0 {
        assert(insert_pair(l, x) == seq![x]);
        assert forall|y: (Seq<char>, Seq<char>)| insert_pair(l, x).contains(y) <==> (l.contains(y) || y == x) by {
            if insert_pair(l, x).contains(y) {
                assert(seq![x][0] == x);
            }
            if y == x {
                assert(seq![x][0] == x);
            }
        }
    } else if l[0] == x {
    } else if pair_lt(x, l[0]) {
        let r = seq![x] + l;
        assert forall|i: int, j: int| 0 <= i < j < r.len() implies pair_lt(#[trigger] r[i], #[trigger] r[j]) by {
            if i == 0 {
                if j > 1 {
                    lemma_pair_lt_trans(x, l[0], l[j - 1]);
                }
            } else {
                assert(r[i] == l[i - 1] && r[j] == l[j - 1]);
            }
        }
        assert forall|y: (Seq<char>, Seq<char>)| r.contains(y) <==> (l.contains(y) || y == x) by {
            if r.contains(y) {
                let k = choose|k: int| 0 <= k < r.len() && r[k] == y;
                if k > 0 {
                    assert(l[k - 1] == y);
                }
            }
            if l.contains(y) {
                let k = choose|k: int| 0 <= k < l.len() && l[k] == y;
                assert(r[k + 1] == y);
            }
            if y == x {
                assert(r[0] == x);
            }
        }
    } else {
        let t = l.skip(1);
        assert(sorted_pairs(t)) by {
            assert forall|i: int, j: int| 0 <= i < j < t.len() implies pair_lt(#[trigger] t[i], #[trigger] t[j]) by {
                assert(t[i] == l[i + 1] && t[j] == l[j + 1]);
            }
        }
        lemma_insert_pair(t, x);
        lemma_pair_lt_total(x, l[0]);
        let it = insert_pair(t, x);
        let r = seq![l[0]] + it;
        assert forall|i: int, j: int| 0 <= i < j < r.len() implies pair_lt(#[trigger] r[i], #[trigger] r[j]) by {
            if i == 0 {
                assert(it.contains(r[j])) by {
                    assert(it[j - 1] == r[j]);
                }
                if r[j] != x {
                    assert(t.contains(r[j]));
                    let k = choose|k: int| 0 <= k < t.len() && t[k] == r[j];
                    assert(l[k + 1] == r[j]);
                    assert(pair_lt(l[0], l[k + 1]));
                }
            } else {
                assert(r[i] == it[i - 1] && r[j] == it[j - 1]);
            }
        }
        assert forall|y: (Seq<char>, Seq<char>)| r.contains(y) <==> (l.contains(y) || y == x) by {
            if r.contains(y) {
                let k = choose|k: int| 0 <= k < r.len() && r[k] == y;
                if k > 0 {
                    assert(it[k - 1] == y);
                    assert(it.contains(y));
                    assert(t.contains(y) || y == x);
                    if t.contains(y) {
                        let m = choose|m: int| 0 <= m < t.len() && t[m] == y;
                        assert(l[m + 1] == y);
                    }
                } else {
                    assert(l[0] == y);
                }
            }
            if l.contains(y) {
                let k = choose|k: int| 0 <= k < l.len() && l[k] == y;
                if k == 0 {
                    assert(r[0] == y);
                } else {
                    assert(t[k - 1] == y);
                    assert(t.contains(y));
                    assert(it.contains(y));
                    let m = choose|m: int| 0 <= m < it.len() && it[m] == y;
                    assert(r[m + 1] == y);
                }
            }
            if y == x {
                assert(it.contains(x));
                let m = choose|m: int| 0 <= m < it.len() && it[m] == x;
                assert(r[m + 1] == x);
            }
        }
    }
}

/// The tags in the registry are listed once each, in the order of pairs
/// (category, then item), and they are exactly the tags found.
pub proof fn law_tags_sorted_once(ts: Seq<(Seq<char>, Seq<char>)>)
    ensures
        sorted_pairs(tag_set(ts)),
        forall|t: (Seq<char>, Seq<char>)| tag_set(ts).contains(t) <==> ts.contains(t),
    decreases ts.len(),
{
    if ts.len() > 0 {
        let p = ts.drop_last();
        law_tags_sorted_once(p);
        lemma_insert_pair(tag_set(p), ts.last());
        assert forall|t: (Seq<char>, Seq<char>)| tag_set(ts).contains(t) <==> ts.contains(t) by {
            if tag_set(ts).contains(t) {
                if t == ts.last() {
                    assert(ts[ts.len() - 1] == t);
                } else {
                    assert(p.contains(t));
                    let i = choose|i: int| 0 <= i < p.len() && p[i] == t;
                    assert(ts[i] == t);
                }
            }
            if ts.contains(t) {
                let i = choose|i: int| 0 <= i < ts.len() && ts[i] == t;
                if i < ts.len() - 1 {
                    assert(p[i] == t);
                    assert(p.contains(t));
                }
            }
        }
    }
}

proof fn lemma_index_none(s: Seq<char>, c: char, from: int)
    requires
        forall|i: int| 0 <= i < s.len() ==> s[i] != c,
    ensures
        char_index_spec(s, c, from) is None,
    decreases s.len() - from,
{
    if 0 <= from < s.len() {
        lemma_index_none(s, c, from + 1);
    }
}

proof fn lemma_index_at(s: Seq<char>, c: char, from: int, p: int)
    requires
        0 <= from <= p < s.len(),
        s[p] == c,
        forall|i: int| from <= i < p ==> s[i] != c,
    ensures
        char_index_spec(s, c, from) == Some(p),
    decreases p - from,
{
    if from < p {
        lemma_index_at(s, c, from + 1, p);
    }
}

/// A word without `+` is one name.
proof fn lemma_split_word(a: Seq<char>)
    requires
        forall|i: int| 0 <= i < a.len() ==> a[i] != '+',
    ensures
        split_spec(a, '+') == seq![a],
{
    lemma_index_none(a, '+', 0);
}

/// A word without `+`, a `+`, and the rest: the word is the first name.
proof fn lemma_split_join(a: Seq<char>, b: Seq<char>)
    requires
        forall|i: int| 0 <= i < a.len() ==> a[i] != '+',
    ensures
        split_spec(a + "+"@ + b, '+') == seq![a] + split_spec(b, '+'),
{
    reveal_strlit("+");
    let s = a + "+"@ + b;
    assert forall|i: int| 0 <= i < a.len() implies s[i] != '+' by {
        assert(s[i] == a[i]);
    }
    lemma_index_at(s, '+', 0, a.len() as int);
    assert(s.take(a.len() as int) =~= a);
    assert(s.skip(a.len() + 1int) =~= b);
}

/// The `Text` element of a run carries a `Style` attribute exactly when the
/// run is bold, italic or underlined; its value names, joined by `+`, are
/// `Bold` for bold text, `Italic` for italic text and `Underline` for
/// underlined text, and nothing else.
pub proof fn law_text_run_style(t: Seq<char>, st: Style)
    requires
        t.len() > 0,
    ensures
        !st.bold && !st.italic && !st.underline ==> run_xml(t, st) == "<Text"@ + ">"@ + escape_spec(t) + "</Text>"@,
        st.bold || st.italic || st.underline ==> {
            let names = split_spec(style_join(st), '+');
            &&& run_xml(t, st) == "<Text"@ + " Style=\""@ + style_join(st) + "\""@ + ">"@ + escape_spec(t) + "</Text>"@
            &&& names.contains("Bold"@) == st.bold
            &&& names.contains("Italic"@) == st.italic
            &&& names.contains("Underline"@) == st.underline
            &&& forall|k: int| 0 <= k < names.len() ==> names[k] == "Bold"@ || names[k] == "Italic"@ || names[k] == "Underline"@
        },
{
    reveal_strlit("Bold");
    reveal_strlit("Italic");
    reveal_strlit("Underline");
    reveal_strlit("+");
    let bo = "Bold"@;
    let it = "Italic"@;
    let un = "Underline"@;
    assert(bo.len() == 4 && it.len() == 6 && un.len() == 9);
    assert forall|i: int| 0 <= i < bo.len() implies bo[i] != '+' by {}
    assert forall|i: int| 0 <= i < it.len() implies it[i] != '+' by {}
    assert forall|i: int| 0 <= i < un.len() implies un[i] != '+' by {}
    let j = style_join(st);
    let e = Seq::<char>::empty();
    lemma_split_word(bo);
    lemma_split_word(it);
    lemma_split_word(un);
    let names = split_spec(j, '+');
    if st.bold {
        if st.italic {
            lemma_split_join(it, un);
            if st.underline {
                assert(j =~= bo + "+"@ + (it + "+"@ + un));
                lemma_split_join(bo, it + "+"@ + un);
                assert(names =~= seq![bo, it, un]);
            } else {
                assert(j =~= bo + "+"@ + it);
                lemma_split_join(bo, it);
                assert(names =~= seq![bo, it]);
                assert(names[0] != un && names[1] != un);
            }
        } else if st.underline {
            assert(j =~= bo + "+"@ + un);
            lemma_split_join(bo, un);
            assert(names =~= seq![bo, un]);
            assert(names[0] != it && names[1] != it);
        } else {
            assert(j =~= bo);
            assert(names =~= seq![bo]);
            assert(names[0] != it && names[0] != un);
        }
    } else if st.italic {
        if st.underline {
            assert(j =~= it + "+"@ + un);
            lemma_split_join(it, un);
            assert(names =~= seq![it, un]);
            assert(names[0] != bo && names[1] != bo);
        } else {
            assert(j =~= it);
            assert(names =~= seq![it]);
            assert(names[0] != bo && names[0] != un);
        }
    } else if st.underline {
        assert(j =~= un);
        assert(names =~= seq![un]);
        assert(names[0] != bo && names[0] != it);
    }
}

} // verus!
