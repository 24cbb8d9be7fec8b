//! The element type of each line of a Fountain screenplay.
use vstd::prelude::*;
use crate::chars::{ascii_upper, to_ascii_uppercase};
use crate::text::{
    contains, contains_spec, ends_with, ends_with_spec, eq_str, is_ascii_uppercase, is_upper_ascii,
    is_whitespace, is_ws, slice_chars, starts_with, starts_with_spec, trim, trim_spec, char_index,
    char_index_spec,
};

verus! {

/// What a line of the script is.
#[derive(Clone, Copy, Debug, PartialEq, Eq, Structural)]
pub enum LineType {
    Empty,
    SceneHeading,
    Action,
    Character,
    DualDialogueCharacter,
    Parenthetical,
    Dialogue,
    Transition,
    Centered,
    Lyrics,
    Section,
    Synopsis,
    Note,
    Boneyard,
    PageBreak,
    Shot,
    MetadataTitle,
    MetadataKey,
    MetadataValue,
}

/// What the classifier carries from one line to the next.
#[derive(Clone, Copy, Debug, PartialEq, Eq, Structural)]
pub struct ClassState {
    /// The type of the previous line.
    pub prev: LineType,
    /// Inside a `/* ... */` comment that has not been closed.
    pub boneyard: bool,
    /// Still inside the title page block at the start of the document.
    pub title: bool,
}

pub open spec fn class_start() -> ClassState {
    ClassState { prev: LineType::Empty, boneyard: false, title: true }
}

pub open spec fn is_blank(s: Seq<char>) -> bool {
    trim_spec(s).len() == 0
}

/// No ASCII lower-case letter.
pub open spec fn no_lower(s: Seq<char>) -> bool {
    forall|i: int| 0 <= i < s.len() ==> !('a' <= #[trigger] s[i] && s[i] <= 'z')
}

/// Some ASCII capital letter.
pub open spec fn some_upper(s: Seq<char>) -> bool {
    exists|i: int| 0 <= i < s.len() && #[trigger] is_upper_ascii(s[i])
}

/// A `Key: value` line: some text, then a colon, and the key does not start with whitespace.
pub open spec fn is_key_line(s: Seq<char>) -> bool {
    match char_index_spec(s, ':', 0) {
        Some(i) => i > 0 && !is_ws(s[0]),
        None => false,
    }
}

/// The key of a `Key: value` line, upper-cased in ASCII.
pub open spec fn key_upper(s: Seq<char>) -> Seq<char> {
    match char_index_spec(s, ':', 0) {
        Some(i) => trim_spec(s.take(i)).map_values(|c: char| ascii_upper(c)),
        None => Seq::empty(),
    }
}

/// The first four characters begin a scene heading (`INT.`, `EXT.`, `EST.`,
/// `INT `, `EXT `, `EST `, `I/E.`, `I/E `, `INT/`), in any ASCII case.
pub open spec fn scene_prefix(s: Seq<char>) -> bool {
    s.len() >= 4 && {
        let p = s.take(4).map_values(|c: char| ascii_upper(c));
        ||| p == "INT."@
        ||| p == "EXT."@
        ||| p == "EST."@
        ||| p == "INT "@
        ||| p == "EXT "@
        ||| p == "EST "@
        ||| p == "I/E."@
        ||| p == "I/E "@
        ||| p == "INT/"@
    }
}

/// Three or more `=` and nothing else.
pub open spec fn is_page_break(t: Seq<char>) -> bool {
    t.len() >= 3 && forall|i: int| 0 <= i < t.len() ==> #[trigger] t[i] == '='
}

pub open spec fn in_dialogue(prev: LineType) -> bool {
    ||| prev == LineType::Character
    ||| prev == LineType::DualDialogueCharacter
    ||| prev == LineType::Dialogue
    ||| prev == LineType::Parenthetical
}

/// The type of a line outside the title page and outside comments, given
/// the previous line's type and whether the next line is blank.
pub open spec fn body_type(s: Seq<char>, prev: LineType, next_blank: bool) -> LineType {
    let t = trim_spec(s);
    if t.len() == 0 {
        LineType::Empty
    } else if in_dialogue(prev) && starts_with_spec(t, "("@) {
        LineType::Parenthetical
    } else if in_dialogue(prev) {
        LineType::Dialogue
    } else if starts_with_spec(t, "/*"@) {
        LineType::Boneyard
    } else if starts_with_spec(t, "[["@) {
        LineType::Note
    } else if is_page_break(t) {
        LineType::PageBreak
    } else if starts_with_spec(t, "="@) {
        LineType::Synopsis
    } else if starts_with_spec(t, "#"@) {
        LineType::Section
    } else if starts_with_spec(t, "~"@) {
        LineType::Lyrics
    } else if starts_with_spec(t, ">"@) && ends_with_spec(t, "<"@) && t.len() >= 2 {
        LineType::Centered
    } else if starts_with_spec(t, ">"@) {
        LineType::Transition
    } else if starts_with_spec(t, "!"@) {
        LineType::Action
    } else if starts_with_spec(t, "."@) && !starts_with_spec(t, ".."@) {
        LineType::SceneHeading
    } else if scene_prefix(t) {
        LineType::SceneHeading
    } else if prev == LineType::Empty && ends_with_spec(t, "TO:"@) && no_lower(t) {
        LineType::Transition
    } else if prev == LineType::Empty && !next_blank && (starts_with_spec(t, "@"@) || (no_lower(t)
        && some_upper(t))) {
        if ends_with_spec(t, "^"@) {
            LineType::DualDialogueCharacter
        } else {
            LineType::Character
        }
    } else {
        LineType::Action
    }
}

/// The type of a line and the state after it.
pub open spec fn line_step(s: Seq<char>, st: ClassState, first: bool, next_blank: bool) -> (
    LineType,
    ClassState,
) {
    if st.boneyard {
        (
            LineType::Boneyard,
            ClassState { prev: LineType::Boneyard, boneyard: !contains_spec(s, "*/"@), title: false },
        )
    } else if st.title && is_blank(s) {
        (LineType::Empty, ClassState { prev: LineType::Empty, boneyard: false, title: false })
    } else if st.title && (!first || is_key_line(s)) {
        let ty = if is_key_line(s) && key_upper(s) == "TITLE"@ {
            LineType::MetadataTitle
        } else if is_key_line(s) {
            LineType::MetadataKey
        } else {
            LineType::MetadataValue
        };
        (ty, ClassState { prev: ty, boneyard: false, title: true })
    } else {
        let ty = body_type(s, st.prev, next_blank);
        let t = trim_spec(s);
        let opens = ty == LineType::Boneyard && !contains_spec(t.skip(2), "*/"@);
        (ty, ClassState { prev: ty, boneyard: opens, title: false })
    }
}

/// The next line is blank (or there is none).
pub open spec fn next_blank_at(lines: Seq<Seq<char>>, i: int) -> bool {
    i + 1 >= lines.len() || is_blank(lines[i + 1])
}

/// The types of the first `n` lines, and the state after them.
pub open spec fn classify_run(lines: Seq<Seq<char>>, n: nat) -> (Seq<LineType>, ClassState)
    decreases n,
{
    if n == 0 {
        (Seq::empty(), class_start())
    } else {
        let (tys, st) = classify_run(lines, (n - 1) as nat);
        let (ty, st2) = line_step(lines[n - 1], st, n - 1 == 0, next_blank_at(lines, n - 1));
        (tys.push(ty), st2)
    }
}

/// The type of every line of the script.
pub open spec fn classify_spec(lines: Seq<Seq<char>>) -> Seq<LineType> {
    classify_run(lines, lines.len()).0
}

pub proof fn lemma_classify_len(lines: Seq<Seq<char>>, n: nat)
    ensures
        classify_run(lines, n).0.len() == n,
    decreases n,
{
    if n > 0 {
        lemma_classify_len(lines, (n - 1) as nat);
    }
}

fn has_no_lower(t: &Vec<char>) -> (r: bool)
    ensures
        r == no_lower(t@),
{
    let mut i: usize = 0;
    while i < t.len()
        invariant
            i <= t.len(),
            forall|k: int| 0 <= k < i ==> !('a' <= #[trigger] t@[k] && t@[k] <= 'z'),
        decreases t.len() - i,
    {
        if 'a' <= t[i] && t[i] <= 'z' {
            return false;
        }
        i += 1;
    }
    true
}

fn has_upper(t: &Vec<char>) -> (r: bool)
    ensures
        r == some_upper(t@),
{
    let mut i: usize = 0;
    while i < t.len()
        invariant
            i <= t.len(),
            forall|k: int| 0 <= k < i ==> !#[trigger] is_upper_ascii(t@[k]),
        decreases t.len() - i,
    {
        if is_ascii_uppercase(t[i]) {
            return true;
        }
        i += 1;
    }
    false
}

fn all_equals_signs(t: &Vec<char>) -> (r: bool)
    ensures
        r == is_page_break(t@),
{
    if t.len() < 3 {
        return false;
    }
    let mut i: usize = 0;
    while i < t.len()
        invariant
            i <= t.len(),
            forall|k: int| 0 <= k < i ==> #[trigger] t@[k] == '=',
        decreases t.len() - i,
    {
        if t[i] != '=' {
            return false;
        }
        i += 1;
    }
    true
}

/// ASCII upper-casing of every character.
pub fn upper_ascii(v: &Vec<char>) -> (r: Vec<char>)
    ensures
        r@ == v@.map_values(|c: char| ascii_upper(c)),
{
    let mut r: Vec<char> = Vec::new();
    let mut i: usize = 0;
    while i < v.len()
        invariant
            i <= v.len(),
            r@ == v@.take(i as int).map_values(|c: char| ascii_upper(c)),
        decreases v.len() - i,
    {
        r.push(to_ascii_uppercase(v[i]));
        i += 1;
        proof {
            assert(v@.take(i as int).map_values(|c: char| ascii_upper(c)) == v@.take(i - 1).map_values(
                |c: char| ascii_upper(c),
            ).push(ascii_upper(v@[i - 1])));
        }
    }
    proof {
        assert(v@.take(v.len() as int) == v@);
    }
    r
}

fn has_scene_prefix(t: &Vec<char>) -> (r: bool)
    ensures
        r == scene_prefix(t@),
{
    if t.len() < 4 {
        return false;
    }
    let head = slice_chars(t, 0, 4);
    let p = upper_ascii(&head);
    proof {
        assert(head@ == t@.take(4));
    }
    eq_str(&p, "INT.") || eq_str(&p, "EXT.") || eq_str(&p, "EST.") || eq_str(&p, "INT ")
        || eq_str(&p, "EXT ") || eq_str(&p, "EST ") || eq_str(&p, "I/E.") || eq_str(&p, "I/E ")
        || eq_str(&p, "INT/")
}

fn key_line(s: &Vec<char>) -> (r: bool)
    ensures
        r == is_key_line(s@),
{
    match char_index(s, ':', 0) {
        Some(i) => {
            proof {
                crate::text::lemma_char_index_bounds(s@, ':', 0);
            }
            i > 0 && !is_whitespace(s[0])
        },
        None => false,
    }
}

fn key_is_title(s: &Vec<char>) -> (r: bool)
    ensures
        r == (key_upper(s@) == "TITLE"@),
{
    match char_index(s, ':', 0) {
        Some(i) => {
            proof {
                crate::text::lemma_char_index_bounds(s@, ':', 0);
            }
            let k = slice_chars(s, 0, i);
            let kt = trim(&k);
            let ku = upper_ascii(&kt);
            proof {
                assert(k@ == s@.take(i as int));
            }
            eq_str(&ku, "TITLE")
        },
        None => {
            proof {
                reveal_strlit("TITLE");
                assert(Seq::<char>::empty().len() != "TITLE"@.len());
            }
            false
        },
    }
}

fn dialogue_context(prev: LineType) -> (r: bool)
    ensures
        r == in_dialogue(prev),
{
    prev == LineType::Character || prev == LineType::DualDialogueCharacter || prev
        == LineType::Dialogue || prev == LineType::Parenthetical
}

/// The type of a body line (see `body_type`).
pub fn body_line_type(s: &Vec<char>, prev: LineType, next_blank: bool) -> (r: LineType)
    ensures
        r == body_type(s@, prev, next_blank),
{
    let t = trim(s);
    if t.len() == 0 {
        LineType::Empty
    } else if dialogue_context(prev) && starts_with(&t, "(") {
        LineType::Parenthetical
    } else if dialogue_context(prev) {
        LineType::Dialogue
    } else if starts_with(&t, "/*") {
        LineType::Boneyard
    } else if starts_with(&t, "[[") {
        LineType::Note
    } else if all_equals_signs(&t) {
        LineType::PageBreak
    } else if starts_with(&t, "=") {
        LineType::Synopsis
    } else if starts_with(&t, "#") {
        LineType::Section
    } else if starts_with(&t, "~") {
        LineType::Lyrics
    } else if starts_with(&t, ">") && ends_with(&t, "<") && t.len() >= 2 {
        LineType::Centered
    } else if starts_with(&t, ">") {
        LineType::Transition
    } else if starts_with(&t, "!") {
        LineType::Action
    } else if starts_with(&t, ".") && !starts_with(&t, "..") {
        LineType::SceneHeading
    } else if has_scene_prefix(&t) {
        LineType::SceneHeading
    } else if prev == LineType::Empty && ends_with(&t, "TO:") && has_no_lower(&t) {
        LineType::Transition
    } else if prev == LineType::Empty && !next_blank && (starts_with(&t, "@") || (has_no_lower(&t)
        && has_upper(&t))) {
        if ends_with(&t, "^") {
            LineType::DualDialogueCharacter
        } else {
            LineType::Character
        }
    } else {
        LineType::Action
    }
}

/// The line is blank.
pub fn blank(s: &Vec<char>) -> (r: bool)
    ensures
        r == is_blank(s@),
{
    trim(s).len() == 0
}

/// One step of the classifier (see `line_step`).
pub fn classify_line(s: &Vec<char>, st: ClassState, first: bool, next_blank: bool) -> (r: (
    LineType,
    ClassState,
))
    ensures
        r == line_step(s@, st, first, next_blank),
{
    if st.boneyard {
        let closes = contains(s, "*/");
        (LineType::Boneyard, ClassState { prev: LineType::Boneyard, boneyard: !closes, title: false })
    } else if st.title && blank(s) {
        (LineType::Empty, ClassState { prev: LineType::Empty, boneyard: false, title: false })
    } else if st.title && (!first || key_line(s)) {
        let ty = if key_line(s) && key_is_title(s) {
            LineType::MetadataTitle
        } else if key_line(s) {
            LineType::MetadataKey
        } else {
            LineType::MetadataValue
        };
        (ty, ClassState { prev: ty, boneyard: false, title: true })
    } else {
        let ty = body_line_type(s, st.prev, next_blank);
        let opens = if ty == LineType::Boneyard {
            let t = trim(s);
            proof {
                assert(starts_with_spec(t@, "/*"@));
                reveal_strlit("/*");
            }
            let rest = slice_chars(&t, 2, t.len());
            proof {
                assert(rest@ == t@.skip(2));
            }
            !contains(&rest, "*/")
        } else {
            false
        };
        (ty, ClassState { prev: ty, boneyard: opens, title: false })
    }
}

/// The type of every line (`lines` given as characters).
pub fn classify(lines: &Vec<Vec<char>>) -> (r: Vec<LineType>)
    ensures
        r@ == classify_spec(lines@.map_values(|l: Vec<char>| l@)),
        r@.len() == lines@.len(),
{
    let ghost ls = lines@.map_values(|l: Vec<char>| l@);
    let mut r: Vec<LineType> = Vec::new();
    let mut st = ClassState { prev: LineType::Empty, boneyard: false, title: true };
    let mut i: usize = 0;
    while i < lines.len()
        invariant
            i <= lines.len(),
            ls == lines@.map_values(|l: Vec<char>| l@),
            classify_run(ls, i as nat) == (r@, st),
        decreases lines.len() - i,
    {
        let next_blank = i + 1 >= lines.len() || blank(&lines[i + 1]);
        let (ty, st2) = classify_line(&lines[i], st, i == 0, next_blank);
        r.push(ty);
        st = st2;
        i += 1;
    }
    proof {
        lemma_classify_len(ls, lines.len() as nat);
    }
    r
}

} // verus!
