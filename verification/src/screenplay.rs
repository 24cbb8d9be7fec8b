//! A parsed screenplay: its title page and its elements, each with the
//! lines (counted from 1) it was read from.
use vstd::prelude::*;
use crate::rich::{RichElement, RichString, Style};

verus! {

/// A part of a speech.
pub enum DialogueElement {
    Parenthetical(RichString),
    Line(RichString),
}

/// A speech: who speaks, an extension such as `V.O.`, and what is said.
pub struct Dialogue {
    pub character: RichString,
    pub extension: Option<RichString>,
    pub elements: Vec<DialogueElement>,
}

/// An element of the script body.
pub enum Element {
    Heading { slug: RichString, number: Option<String> },
    Action(RichString),
    Dialogue(Dialogue),
    DualDialogue(Dialogue, Dialogue),
    Transition(RichString),
    Shot(RichString),
    CenteredText(RichString),
    Synopsis(RichString),
    Section(RichString),
    Lyrics(RichString),
    PageBreak,
}

/// An element with the first and last line it was read from, counted from 1.
pub struct Span {
    pub start_line: usize,
    pub end_line: usize,
    pub inner: Element,
}

/// The entries of the title page, each a list of lines.
pub struct TitlePage {
    pub title: Vec<RichString>,
    pub credit: Vec<RichString>,
    pub authors: Vec<RichString>,
    pub source: Vec<RichString>,
    pub draft_date: Vec<RichString>,
    pub contact: Vec<RichString>,
    pub notes: Vec<RichString>,
}

/// A screenplay: an optional title page and the body elements in order.
pub struct Screenplay {
    pub titlepage: Option<TitlePage>,
    pub elements: Vec<Span>,
}

impl Screenplay {
    pub fn new(titlepage: Option<TitlePage>, elements: Vec<Span>) -> (r: Screenplay)
        ensures
            r.titlepage == titlepage,
            r.elements == elements,
    {
        Screenplay { titlepage, elements }
    }
}

/// The runs of a rich string as values: text and style of each.
pub open spec fn runs(r: RichString) -> Seq<(Seq<char>, Style)> {
    r.elements@.map_values(|e: RichElement| (e.text@, e.style))
}

/// A dialogue part as values.
pub enum DialogueElementV {
    Parenthetical(Seq<(Seq<char>, Style)>),
    Line(Seq<(Seq<char>, Style)>),
}

/// A speech as values.
pub struct DialogueV {
    pub character: Seq<(Seq<char>, Style)>,
    pub extension: Option<Seq<(Seq<char>, Style)>>,
    pub elements: Seq<DialogueElementV>,
}

/// An element as values.
pub enum ElementV {
    Heading(Seq<(Seq<char>, Style)>, Option<Seq<char>>),
    Action(Seq<(Seq<char>, Style)>),
    Dialogue(DialogueV),
    DualDialogue(DialogueV, DialogueV),
    Transition(Seq<(Seq<char>, Style)>),
    Shot(Seq<(Seq<char>, Style)>),
    CenteredText(Seq<(Seq<char>, Style)>),
    Synopsis(Seq<(Seq<char>, Style)>),
    Section(Seq<(Seq<char>, Style)>),
    Lyrics(Seq<(Seq<char>, Style)>),
    PageBreak,
}

/// A span as values.
pub struct SpanV {
    pub start: int,
    pub end: int,
    pub inner: ElementV,
}

/// A title page as values.
pub struct TitlePageV {
    pub title: Seq<Seq<(Seq<char>, Style)>>,
    pub credit: Seq<Seq<(Seq<char>, Style)>>,
    pub authors: Seq<Seq<(Seq<char>, Style)>>,
    pub source: Seq<Seq<(Seq<char>, Style)>>,
    pub draft_date: Seq<Seq<(Seq<char>, Style)>>,
    pub contact: Seq<Seq<(Seq<char>, Style)>>,
    pub notes: Seq<Seq<(Seq<char>, Style)>>,
}

pub open spec fn part_v(d: DialogueElement) -> DialogueElementV {
    match d {
        DialogueElement::Parenthetical(r) => DialogueElementV::Parenthetical(runs(r)),
        DialogueElement::Line(r) => DialogueElementV::Line(runs(r)),
    }
}

pub open spec fn dialogue_v(d: Dialogue) -> DialogueV {
    DialogueV {
        character: runs(d.character),
        extension: match d.extension {
            Some(e) => Some(runs(e)),
            None => None,
        },
        elements: d.elements@.map_values(|p: DialogueElement| part_v(p)),
    }
}

pub open spec fn element_v(e: Element) -> ElementV {
    match e {
        Element::Heading { slug, number } => ElementV::Heading(
            runs(slug),
            match number {
                Some(n) => Some(n@),
                None => None,
            },
        ),
        Element::Action(r) => ElementV::Action(runs(r)),
        Element::Dialogue(d) => ElementV::Dialogue(dialogue_v(d)),
        Element::DualDialogue(a, b) => ElementV::DualDialogue(dialogue_v(a), dialogue_v(b)),
        Element::Transition(r) => ElementV::Transition(runs(r)),
        Element::Shot(r) => ElementV::Shot(runs(r)),
        Element::CenteredText(r) => ElementV::CenteredText(runs(r)),
        Element::Synopsis(r) => ElementV::Synopsis(runs(r)),
        Element::Section(r) => ElementV::Section(runs(r)),
        Element::Lyrics(r) => ElementV::Lyrics(runs(r)),
        Element::PageBreak => ElementV::PageBreak,
    }
}

pub open spec fn span_v(s: Span) -> SpanV {
    SpanV { start: s.start_line as int, end: s.end_line as int, inner: element_v(s.inner) }
}

pub open spec fn spans_v(s: Seq<Span>) -> Seq<SpanV> {
    s.map_values(|x: Span| span_v(x))
}

pub open spec fn entries_v(v: Seq<RichString>) -> Seq<Seq<(Seq<char>, Style)>> {
    v.map_values(|r: RichString| runs(r))
}

pub open spec fn title_page_v(t: TitlePage) -> TitlePageV {
    TitlePageV {
        title: entries_v(t.title@),
        credit: entries_v(t.credit@),
        authors: entries_v(t.authors@),
        source: entries_v(t.source@),
        draft_date: entries_v(t.draft_date@),
        contact: entries_v(t.contact@),
        notes: entries_v(t.notes@),
    }
}

/// A copy of a rich string.
pub fn copy_rich(r: &RichString) -> (c: RichString)
    ensures
        runs(c) == runs(*r),
        c.elements@ == r.elements@,
{
    let mut es: Vec<RichElement> = Vec::new();
    let mut i: usize = 0;
    while i < r.elements.len()
        invariant
            i <= r.elements@.len(),
            es@ == r.elements@.take(i as int),
        decreases r.elements.len() - i,
    {
        es.push(r.elements[i].copy());
        i += 1;
        proof {
            assert(es@ =~= r.elements@.take(i as int));
        }
    }
    proof {
        assert(es@ =~= r.elements@);
    }
    RichString { elements: es }
}

fn copy_part(p: &DialogueElement) -> (c: DialogueElement)
    ensures
        part_v(c) == part_v(*p),
{
    match p {
        DialogueElement::Parenthetical(r) => DialogueElement::Parenthetical(copy_rich(r)),
        DialogueElement::Line(r) => DialogueElement::Line(copy_rich(r)),
    }
}

/// A copy of a speech.
pub fn copy_dialogue(d: &Dialogue) -> (c: Dialogue)
    ensures
        dialogue_v(c) == dialogue_v(*d),
{
    let mut es: Vec<DialogueElement> = Vec::new();
    let mut i: usize = 0;
    while i < d.elements.len()
        invariant
            i <= d.elements@.len(),
            es@.len() == i,
            forall|k: int| 0 <= k < i ==> part_v(#[trigger] es@[k]) == part_v(d.elements@[k]),
        decreases d.elements.len() - i,
    {
        es.push(copy_part(&d.elements[i]));
        i += 1;
    }
    let c = Dialogue {
        character: copy_rich(&d.character),
        extension: match &d.extension {
            Some(e) => Some(copy_rich(e)),
            None => None,
        },
        elements: es,
    };
    proof {
        assert(c.elements@.map_values(|p: DialogueElement| part_v(p)) =~= d.elements@.map_values(
            |p: DialogueElement| part_v(p),
        ));
    }
    c
}

} // verus!
