//! Styled text: a sequence of runs, each with one style, parsed from
//! Fountain emphasis markup (`**bold**`, `*italic*`, `_underline_`, and `\`
//! to take the next character literally).
use vstd::prelude::*;
use crate::chars::{chars_of, string_of};

verus! {

/// The style of a run of text.
#[derive(Clone, Copy, Debug, PartialEq, Eq, Structural)]
pub struct Style {
    pub bold: bool,
    pub italic: bool,
    pub underline: bool,
    pub sans: bool,
}

/// The style of unmarked text.
pub open spec fn plain_style() -> Style {
    Style { bold: false, italic: false, underline: false, sans: false }
}

impl Style {
    pub fn plain() -> (r: Style)
        ensures
            r == plain_style(),
    {
        Style { bold: false, italic: false, underline: false, sans: false }
    }
}

/// One run of text in one style.
#[derive(Clone, Debug)]
pub struct RichElement {
    pub text: String,
    pub style: Style,
}

impl RichElement {
    pub fn is_bold(&self) -> (r: bool)
        ensures
            r == self.style.bold,
    {
        self.style.bold
    }

    pub fn is_italic(&self) -> (r: bool)
        ensures
            r == self.style.italic,
    {
        self.style.italic
    }

    pub fn is_underline(&self) -> (r: bool)
        ensures
            r == self.style.underline,
    {
        self.style.underline
    }

    pub fn is_sans(&self) -> (r: bool)
        ensures
            r == self.style.sans,
    {
        self.style.sans
    }

    /// A copy of this run.
    pub fn copy(&self) -> (r: RichElement)
        ensures
            r == *self,
    {
        RichElement { text: self.text.clone(), style: self.style }
    }

    pub fn set_bold(&mut self)
        ensures
            final(self).text@ == old(self).text@,
            final(self).style == (Style { bold: true, ..old(self).style }),
    {
        self.style.bold = true;
    }

    pub fn set_italic(&mut self)
        ensures
            final(self).text@ == old(self).text@,
            final(self).style == (Style { italic: true, ..old(self).style }),
    {
        self.style.italic = true;
    }

    pub fn set_sans(&mut self)
        ensures
            final(self).text@ == old(self).text@,
            final(self).style == (Style { sans: true, ..old(self).style }),
    {
        self.style.sans = true;
    }
}

/// Text made of styled runs.
#[derive(Clone, Debug)]
pub struct RichString {
    pub elements: Vec<RichElement>,
}

/// The characters of the runs, each paired with its run's style.
pub open spec fn styled_chars(es: Seq<RichElement>) -> Seq<(char, Style)>
    decreases es.len(),
{
    if es.len() == 0 {
        Seq::empty()
    } else {
        styled_chars(es.drop_last()) + es.last().text@.map_values(|c: char| (c, es.last().style))
    }
}

/// The text of the runs, without styles.
pub open spec fn plain_chars(es: Seq<RichElement>) -> Seq<char>
    decreases es.len(),
{
    if es.len() == 0 {
        Seq::empty()
    } else {
        plain_chars(es.drop_last()) + es.last().text@
    }
}

/// The runs are as few as possible: none is empty and neighbours differ in style.
pub open spec fn runs_maximal(es: Seq<RichElement>) -> bool {
    &&& forall|i: int| 0 <= i < es.len() ==> #[trigger] es[i].text@.len() > 0
    &&& forall|i: int| 0 < i < es.len() ==> #[trigger] es[i].style != es[i - 1].style
}

/// Reading Fountain emphasis markup from `s` in style `st`: each character
/// of text paired with the style in force at it. `**` turns bold on or off,
/// `*` italic, `_` underline; a `\` makes the next character plain text.
pub open spec fn markup_spec(s: Seq<char>, st: Style) -> Seq<(char, Style)>
    decreases s.len(),
{
    if s.len() == 0 {
        Seq::empty()
    } else if s[0] == '\\' && s.len() >= 2 {
        seq![(s[1], st)] + markup_spec(s.skip(2), st)
    } else if s[0] == '*' && s.len() >= 2 && s[1] == '*' {
        markup_spec(s.skip(2), Style { bold: !st.bold, ..st })
    } else if s[0] == '*' {
        markup_spec(s.skip(1), Style { italic: !st.italic, ..st })
    } else if s[0] == '_' {
        markup_spec(s.skip(1), Style { underline: !st.underline, ..st })
    } else {
        seq![(s[0], st)] + markup_spec(s.skip(1), st)
    }
}

proof fn lemma_plain_chars_push(es: Seq<RichElement>, e: RichElement)
    ensures
        plain_chars(es.push(e)) == plain_chars(es) + e.text@,
        styled_chars(es.push(e)) == styled_chars(es) + e.text@.map_values(|c: char| (c, e.style)),
{
    assert(es.push(e).drop_last() == es);
}

proof fn lemma_plain_chars_add(a: Seq<RichElement>, b: Seq<RichElement>)
    ensures
        plain_chars(a + b) == plain_chars(a) + plain_chars(b),
        styled_chars(a + b) == styled_chars(a) + styled_chars(b),
    decreases b.len(),
{
    if b.len() == 0 {
        assert(a + b == a);
    } else {
        lemma_plain_chars_add(a, b.drop_last());
        assert((a + b).drop_last() == a + b.drop_last());
    }
}

impl RichString {
    /// An empty rich string.
    pub fn new() -> (r: RichString)
        ensures
            r.elements@.len() == 0,
    {
        RichString { elements: Vec::new() }
    }

    /// The characters, without styles.
    pub open spec fn plain(&self) -> Seq<char> {
        plain_chars(self.elements@)
    }

    /// A rich string of one plain run holding `s` as it is (no markup is read).
    pub fn from_text(s: &str) -> (r: RichString)
        ensures
            r.plain() == s@,
            styled_chars(r.elements@) == s@.map_values(|c: char| (c, plain_style())),
            r.elements@.len() == 1,
            r.elements@[0].text@ == s@,
            r.elements@[0].style == plain_style(),
    {
        let mut elements: Vec<RichElement> = Vec::new();
        let e = RichElement { text: string_of(&chars_of(s)), style: Style::plain() };
        elements.push(e);
        proof {
            lemma_plain_chars_push(Seq::empty(), e);
            assert(Seq::<RichElement>::empty().push(e) == elements@);
            assert(plain_chars(Seq::<RichElement>::empty()) == Seq::<char>::empty());
            assert(Seq::<char>::empty() + s@ == s@);
            assert(Seq::<(char, Style)>::empty() + s@.map_values(|c: char| (c, plain_style()))
                == s@.map_values(|c: char| (c, plain_style())));
        }
        RichString { elements }
    }

    /// Appends the text of `s`, reading its emphasis markup. The new runs
    /// come after the old ones and are as few as possible.
    pub fn push_str(&mut self, s: &str)
        ensures
            final(self).elements@.len() >= old(self).elements@.len(),
            final(self).elements@.take(old(self).elements@.len() as int) == old(self).elements@,
            styled_chars(final(self).elements@.skip(old(self).elements@.len() as int))
                == markup_spec(s@, plain_style()),
            runs_maximal(final(self).elements@.skip(old(self).elements@.len() as int)),
    {
        let v = chars_of(s);
        let runs = parse_markup(&v);
        let ghost old_es = self.elements@;
        let mut i: usize = 0;
        while i < runs.len()
            invariant
                self.elements@ == old_es + runs@.take(i as int),
                i <= runs.len(),
            decreases runs.len() - i,
        {
            self.elements.push(runs[i].copy());
            i += 1;
            proof {
                assert(runs@.take(i as int) == runs@.take(i - 1).push(runs@[i - 1]));
            }
        }
        proof {
            assert(runs@.take(runs.len() as int) == runs@);
            assert(self.elements@.skip(old_es.len() as int) == runs@);
            assert(self.elements@.take(old_es.len() as int) == old_es);
        }
    }

    /// Number of characters of text.
    pub fn char_count(&self) -> (r: usize)
        requires
            self.plain().len() <= usize::MAX,
        ensures
            r == self.plain().len(),
    {
        let v = self.to_plain_chars();
        v.len()
    }

    /// The characters of text.
    pub fn to_plain_chars(&self) -> (r: Vec<char>)
        ensures
            r@ == self.plain(),
    {
        let mut r: Vec<char> = Vec::new();
        let mut i: usize = 0;
        while i < self.elements.len()
            invariant
                i <= self.elements.len(),
                r@ == plain_chars(self.elements@.take(i as int)),
            decreases self.elements.len() - i,
        {
            let t = chars_of(self.elements[i].text.as_str());
            crate::text::push_all(&mut r, &t);
            proof {
                let es = self.elements@;
                assert(es.take(i + 1).drop_last() == es.take(i as int));
                assert(es.take(i + 1).last() == es[i as int]);
            }
            i += 1;
        }
        proof {
            assert(self.elements@.take(self.elements.len() as int) == self.elements@);
        }
        r
    }

    /// The text without styles.
    pub fn to_plain_string(&self) -> (r: String)
        ensures
            r@ == self.plain(),
    {
        string_of(&self.to_plain_chars())
    }

    /// Appends the runs of `other`.
    pub fn append(&mut self, other: RichString)
        ensures
            final(self).elements@ == old(self).elements@ + other.elements@,
            final(self).plain() == old(self).plain() + other.plain(),
    {
        let ghost old_es = self.elements@;
        let mut i: usize = 0;
        while i < other.elements.len()
            invariant
                self.elements@ == old_es + other.elements@.take(i as int),
                i <= other.elements.len(),
            decreases other.elements.len() - i,
        {
            self.elements.push(other.elements[i].copy());
            i += 1;
            proof {
                assert(other.elements@.take(i as int) == other.elements@.take(i - 1).push(
                    other.elements@[i - 1],
                ));
            }
        }
        proof {
            assert(other.elements@.take(other.elements.len() as int) == other.elements@);
            lemma_plain_chars_add(old_es, other.elements@);
        }
    }
}

proof fn lemma_assoc3<A>(a: Seq<A>, b: Seq<A>, c: Seq<A>)
    ensures
        (a + b) + c == a + (b + c),
{
    assert((a + b) + c =~= a + (b + c));
}

/// One step of reading markup.
proof fn lemma_markup_unfold(s: Seq<char>, st: Style)
    requires
        s.len() > 0,
    ensures
        s[0] == '\\' && s.len() >= 2 ==> markup_spec(s, st) == seq![(s[1], st)] + markup_spec(s.skip(2), st),
        !(s[0] == '\\' && s.len() >= 2) && s[0] == '*' && s.len() >= 2 && s[1] == '*' ==> markup_spec(s, st)
            == markup_spec(s.skip(2), Style { bold: !st.bold, ..st }),
        !(s[0] == '\\' && s.len() >= 2) && !(s[0] == '*' && s.len() >= 2 && s[1] == '*') && s[0] == '*'
            ==> markup_spec(s, st) == markup_spec(s.skip(1), Style { italic: !st.italic, ..st }),
        s[0] != '\\' && s[0] != '*' && s[0] == '_' ==> markup_spec(s, st) == markup_spec(
            s.skip(1),
            Style { underline: !st.underline, ..st },
        ),
        !(s[0] == '\\' && s.len() >= 2) && s[0] != '*' && s[0] != '_' ==> markup_spec(s, st) == seq![(s[0], st)]
            + markup_spec(s.skip(1), st),
{
}

/// Appends `c` in style `st` to `cur`/`cur_style`, moving the current run to
/// `out` first when the style changes.
fn emit(out: &mut Vec<RichElement>, cur: &mut Vec<char>, cur_style: &mut Style, c: char, st: Style)
    requires
        runs_maximal(old(out)@),
        old(cur)@.len() == 0 ==> old(out)@.len() == 0,
        old(cur)@.len() > 0 ==> (old(out)@.len() > 0 ==> old(out)@.last().style != *old(cur_style)),
    ensures
        runs_maximal(final(out)@),
        final(cur)@.len() > 0,
        *final(cur_style) == st,
        final(out)@.len() > 0 ==> final(out)@.last().style != st,
        styled_chars(final(out)@) + final(cur)@.map_values(|x: char| (x, *final(cur_style)))
            == styled_chars(old(out)@) + old(cur)@.map_values(|x: char| (x, *old(cur_style))) + seq![(c, st)],
{
    if cur.len() > 0 && *cur_style != st {
        let e = RichElement { text: string_of(cur), style: *cur_style };
        let ghost o = out@;
        out.push(e);
        proof {
            lemma_plain_chars_push(o, e);
            assert(out@.drop_last() == o);
        }
        *cur = Vec::new();
        *cur_style = st;
        cur.push(c);
        proof {
            assert(cur@.map_values(|x: char| (x, st)) == seq![(c, st)]);
        }
    } else {
        let ghost c0 = cur@;
        if cur.len() == 0 {
            *cur_style = st;
        }
        cur.push(c);
        proof {
            assert(cur@.map_values(|x: char| (x, st)) == c0.map_values(|x: char| (x, st)) + seq![(c, st)]);
        }
    }
}

/// Reads the emphasis markup in `v` into as few runs as possible.
pub fn parse_markup(v: &Vec<char>) -> (r: Vec<RichElement>)
    ensures
        styled_chars(r@) == markup_spec(v@, plain_style()),
        runs_maximal(r@),
{
    let mut out: Vec<RichElement> = Vec::new();
    let mut cur: Vec<char> = Vec::new();
    let mut cur_style = Style::plain();
    let mut st = Style::plain();
    let mut i: usize = 0;
    proof {
        assert(v@.skip(0) == v@);
        assert(styled_chars(out@) == Seq::<(char, Style)>::empty());
        assert(cur@.map_values(|x: char| (x, cur_style)) == Seq::<(char, Style)>::empty());
        assert(Seq::<(char, Style)>::empty() + Seq::<(char, Style)>::empty() + markup_spec(v@, st)
            == markup_spec(v@, st));
    }
    while i < v.len()
        invariant
            i <= v.len(),
            runs_maximal(out@),
            cur@.len() > 0 ==> (out@.len() > 0 ==> out@.last().style != cur_style),
            cur@.len() == 0 ==> out@.len() == 0,
            styled_chars(out@) + cur@.map_values(|x: char| (x, cur_style)) + markup_spec(v@.skip(i as int), st)
                == markup_spec(v@, plain_style()),
        decreases v.len() - i,
    {
        let ghost rest = v@.skip(i as int);
        let ghost before = styled_chars(out@) + cur@.map_values(|x: char| (x, cur_style));
        let ghost st0 = st;
        proof {
            lemma_markup_unfold(rest, st);
        }
        let c = v[i];
        if c == '\\' && i + 1 < v.len() {
            let d = v[i + 1];
            emit(&mut out, &mut cur, &mut cur_style, d, st);
            proof {
                assert(rest.skip(2) == v@.skip(i + 2));
                lemma_assoc3(before, seq![(d, st0)], markup_spec(rest.skip(2), st0));
            }
            i += 2;
        } else if c == '*' && i + 1 < v.len() && v[i + 1] == '*' {
            st = Style { bold: !st.bold, ..st };
            proof {
                assert(rest.skip(2) == v@.skip(i + 2));
            }
            i += 2;
        } else if c == '*' {
            st = Style { italic: !st.italic, ..st };
            proof {
                assert(rest.skip(1) == v@.skip(i + 1));
            }
            i += 1;
        } else if c == '_' {
            st = Style { underline: !st.underline, ..st };
            proof {
                assert(rest.skip(1) == v@.skip(i + 1));
            }
            i += 1;
        } else {
            emit(&mut out, &mut cur, &mut cur_style, c, st);
            proof {
                assert(rest.skip(1) == v@.skip(i + 1));
                lemma_assoc3(before, seq![(c, st0)], markup_spec(rest.skip(1), st0));
            }
            i += 1;
        }
    }
    proof {
        assert(v@.skip(i as int).len() == 0);
    }
    if cur.len() > 0 {
        let e = RichElement { text: string_of(&cur), style: cur_style };
        let ghost o = out@;
        out.push(e);
        proof {
            lemma_plain_chars_push(o, e);
        }
    }
    out
}

} // verus!
