//! Character classes and operations on character sequences.
//!
//! Text is held as `Vec<char>` while it is worked on; its view is the
//! sequence of Unicode scalar values, the same sequence that `str::chars`
//! yields, so char indices here are the char indices of the string.
use vstd::prelude::*;

verus! {

/// The characters with the Unicode `White_Space` property, which is what
/// `char::is_whitespace` tests.
pub open spec fn is_ws(c: char) -> bool {
    ||| ('\u{9}' <= c && c <= '\u{d}')
    ||| c == ' '
    ||| c == '\u{85}'
    ||| c == '\u{a0}'
    ||| c == '\u{1680}'
    ||| ('\u{2000}' <= c && c <= '\u{200a}')
    ||| c == '\u{2028}'
    ||| c == '\u{2029}'
    ||| c == '\u{202f}'
    ||| c == '\u{205f}'
    ||| c == '\u{3000}'
}

/// Whitespace test on one character.
pub fn is_whitespace(c: char) -> (r: bool)
    ensures
        r == is_ws(c),
{
    ('\u{9}' <= c && c <= '\u{d}') || c == ' ' || c == '\u{85}' || c == '\u{a0}' || c
        == '\u{1680}' || ('\u{2000}' <= c && c <= '\u{200a}') || c == '\u{2028}' || c
        == '\u{2029}' || c == '\u{202f}' || c == '\u{205f}' || c == '\u{3000}'
}

pub open spec fn is_digit(c: char) -> bool {
    '0' <= c && c <= '9'
}

pub open spec fn is_upper_ascii(c: char) -> bool {
    'A' <= c && c <= 'Z'
}

/// ASCII decimal digit test (`char::is_ascii_digit`).
pub fn is_ascii_digit(c: char) -> (r: bool)
    ensures
        r == is_digit(c),
{
    '0' <= c && c <= '9'
}

/// ASCII capital letter test (`char::is_ascii_uppercase`).
pub fn is_ascii_uppercase(c: char) -> (r: bool)
    ensures
        r == is_upper_ascii(c),
{
    'A' <= c && c <= 'Z'
}

/// Removes leading whitespace.
pub open spec fn trim_start_spec(s: Seq<char>) -> Seq<char>
    decreases s.len(),
{
    if s.len() > 0 && is_ws(s[0]) {
        trim_start_spec(s.drop_first())
    } else {
        s
    }
}

/// Removes trailing whitespace.
pub open spec fn trim_end_spec(s: Seq<char>) -> Seq<char>
    decreases s.len(),
{
    if s.len() > 0 && is_ws(s.last()) {
        trim_end_spec(s.drop_last())
    } else {
        s
    }
}

/// Removes leading and trailing whitespace (`str::trim`).
pub open spec fn trim_spec(s: Seq<char>) -> Seq<char> {
    trim_end_spec(trim_start_spec(s))
}

/// `p` occurs in `s` starting at index `i`.
pub open spec fn match_at(s: Seq<char>, p: Seq<char>, i: int) -> bool {
    0 <= i && i + p.len() <= s.len() && s.subrange(i, i + p.len()) == p
}

/// Index of the first occurrence of `p` in `s` at or after `from`.
pub open spec fn find_spec(s: Seq<char>, p: Seq<char>, from: int) -> Option<int>
    decreases s.len() + 1 - from,
{
    if from < 0 || from + p.len() > s.len() {
        None
    } else if match_at(s, p, from) {
        Some(from)
    } else {
        find_spec(s, p, from + 1)
    }
}

/// Index of the first `c` in `s` at or after `from`.
pub open spec fn char_index_spec(s: Seq<char>, c: char, from: int) -> Option<int>
    decreases s.len() - from,
{
    if from < 0 || from >= s.len() {
        None
    } else if s[from] == c {
        Some(from)
    } else {
        char_index_spec(s, c, from + 1)
    }
}

/// Splits `s` on every `c` (`str::split` with a char pattern).
pub open spec fn split_spec(s: Seq<char>, c: char) -> Seq<Seq<char>>
    decreases s.len(),
{
    match char_index_spec(s, c, 0) {
        None => seq![s],
        Some(i) => {
            if 0 <= i < s.len() {
                seq![s.take(i)] + split_spec(s.skip(i + 1), c)
            } else {
                seq![s]
            }
        },
    }
}

pub proof fn lemma_char_index_bounds(s: Seq<char>, c: char, from: int)
    ensures
        char_index_spec(s, c, from) matches Some(i) ==> from <= i < s.len() && s[i] == c && (
        forall|k: int| from <= k < i ==> s[k] != c),
        char_index_spec(s, c, from) is None && from >= 0 ==> forall|k: int|
            from <= k < s.len() ==> s[k] != c,
    decreases s.len() - from,
{
    if from < 0 || from >= s.len() {
    } else if s[from] == c {
    } else {
        lemma_char_index_bounds(s, c, from + 1);
    }
}

pub proof fn lemma_find_bounds(s: Seq<char>, p: Seq<char>, from: int)
    ensures
        find_spec(s, p, from) matches Some(i) ==> from <= i && match_at(s, p, i) && (forall|k: int|
            from <= k < i ==> !match_at(s, p, k)),
        find_spec(s, p, from) is None && from >= 0 ==> forall|k: int|
            from <= k ==> !match_at(s, p, k),
    decreases s.len() + 1 - from,
{
    if from < 0 || from + p.len() > s.len() {
    } else if match_at(s, p, from) {
    } else {
        lemma_find_bounds(s, p, from + 1);
    }
}

/// A copy of `v[a..b]`.
pub fn slice_chars(v: &Vec<char>, a: usize, b: usize) -> (r: Vec<char>)
    requires
        a <= b <= v.len(),
    ensures
        r@ == v@.subrange(a as int, b as int),
{
    let mut r: Vec<char> = Vec::new();
    let mut i: usize = a;
    while i < b
        invariant
            a <= i <= b <= v.len(),
            r@ == v@.subrange(a as int, i as int),
        decreases b - i,
    {
        r.push(v[i]);
        i += 1;
    }
    r
}

/// Appends all of `src` to `dst`.
pub fn push_all(dst: &mut Vec<char>, src: &Vec<char>)
    ensures
        final(dst)@ == old(dst)@ + src@,
{
    let mut i: usize = 0;
    let ghost d0 = dst@;
    while i < src.len()
        invariant
            i <= src.len(),
            dst@ == d0 + src@.take(i as int),
        decreases src.len() - i,
    {
        dst.push(src[i]);
        i += 1;
        proof {
            assert(src@.take(i as int) == src@.take(i - 1) + seq![src@[i - 1]]);
        }
    }
    proof {
        assert(src@.take(src.len() as int) == src@);
    }
}

proof fn lemma_trim_start_skip(s: Seq<char>, i: int)
    requires
        0 <= i <= s.len(),
        forall|k: int| 0 <= k < i ==> is_ws(s[k]),
    ensures
        trim_start_spec(s) == trim_start_spec(s.skip(i)),
    decreases i,
{
    if i > 0 {
        assert(s.drop_first().skip(i - 1) == s.skip(i));
        lemma_trim_start_skip(s.drop_first(), i - 1);
    } else {
        assert(s.skip(0) == s);
    }
}

proof fn lemma_trim_end_take(s: Seq<char>, j: int)
    requires
        0 <= j <= s.len(),
        forall|k: int| j <= k < s.len() ==> is_ws(s[k]),
    ensures
        trim_end_spec(s) == trim_end_spec(s.take(j)),
    decreases s.len() - j,
{
    if j < s.len() {
        assert(s.drop_last().take(j) == s.take(j));
        lemma_trim_end_take(s.drop_last(), j);
    } else {
        assert(s.take(j) == s);
    }
}

/// Index of the first non-whitespace character (the length if none).
pub fn first_non_ws(v: &Vec<char>) -> (i: usize)
    ensures
        i <= v.len(),
        forall|k: int| 0 <= k < i ==> is_ws(v@[k]),
        i < v.len() ==> !is_ws(v@[i as int]),
        trim_start_spec(v@) == v@.skip(i as int),
{
    let mut i: usize = 0;
    while i < v.len() && is_whitespace(v[i])
        invariant
            i <= v.len(),
            forall|k: int| 0 <= k < i ==> is_ws(v@[k]),
        decreases v.len() - i,
    {
        i += 1;
    }
    proof {
        lemma_trim_start_skip(v@, i as int);
    }
    i
}

/// Removes leading whitespace (`str::trim_start`).
pub fn trim_start(v: &Vec<char>) -> (r: Vec<char>)
    ensures
        r@ == trim_start_spec(v@),
{
    let i: usize = first_non_ws(v);
    slice_chars(v, i, v.len())
}

/// Index just past the last non-whitespace character at or after `lo`.
fn end_non_ws(v: &Vec<char>, lo: usize) -> (j: usize)
    requires
        lo <= v.len(),
    ensures
        lo <= j <= v.len(),
        forall|k: int| j <= k < v.len() ==> is_ws(v@[k]),
        j > lo ==> !is_ws(v@[j - 1]),
{
    let mut j: usize = v.len();
    while j > lo && is_whitespace(v[j - 1])
        invariant
            lo <= j <= v.len(),
            forall|k: int| j <= k < v.len() ==> is_ws(v@[k]),
        decreases j,
    {
        j -= 1;
    }
    j
}

/// Removes trailing whitespace (`str::trim_end`).
pub fn trim_end(v: &Vec<char>) -> (r: Vec<char>)
    ensures
        r@ == trim_end_spec(v@),
{
    let j: usize = end_non_ws(v, 0);
    proof {
        lemma_trim_end_take(v@, j as int);
        if j > 0 {
            assert(v@.take(j as int).last() == v@[j - 1]);
        }
    }
    slice_chars(v, 0, j)
}

/// Removes leading and trailing whitespace (`str::trim`).
pub fn trim(v: &Vec<char>) -> (r: Vec<char>)
    ensures
        r@ == trim_spec(v@),
{
    let i: usize = first_non_ws(v);
    let j: usize = end_non_ws(v, i);
    proof {
        let t = v@.skip(i as int);
        assert forall|k: int| (j - i) <= k < t.len() implies is_ws(t[k]) by {
            assert(t[k] == v@[k + i]);
        }
        lemma_trim_end_take(t, j - i);
        assert(t.take(j - i) == v@.subrange(i as int, j as int));
        if j > i {
            assert(v@.subrange(i as int, j as int).last() == v@[j - 1]);
        }
    }
    slice_chars(v, i, j)
}

/// Index of the first `c` at or after `from`.
pub fn char_index(v: &Vec<char>, c: char, from: usize) -> (r: Option<usize>)
    ensures
        r matches Some(i) ==> char_index_spec(v@, c, from as int) == Some(i as int),
        r is None ==> char_index_spec(v@, c, from as int) is None,
{
    let mut i: usize = from;
    proof {
        lemma_char_index_bounds(v@, c, from as int);
    }
    while i < v.len()
        invariant
            from <= i,
            forall|k: int| from <= k < i && k < v.len() ==> v@[k] != c,
        decreases v.len() - i,
    {
        if v[i] == c {
            proof {
                lemma_char_index_bounds(v@, c, from as int);
                lemma_char_index_unique(v@, c, from as int, i as int);
            }
            return Some(i);
        }
        i += 1;
    }
    proof {
        lemma_char_index_bounds(v@, c, from as int);
        if let Some(k) = char_index_spec(v@, c, from as int) {
            assert(v@[k] != c);
        }
    }
    None
}

proof fn lemma_char_index_unique(s: Seq<char>, c: char, from: int, i: int)
    requires
        0 <= from <= i < s.len(),
        s[i] == c,
        forall|k: int| from <= k < i ==> s[k] != c,
    ensures
        char_index_spec(s, c, from) == Some(i),
    decreases i - from,
{
    if from < i {
        lemma_char_index_unique(s, c, from + 1, i);
    }
}

proof fn lemma_find_unique(s: Seq<char>, p: Seq<char>, from: int, i: int)
    requires
        0 <= from <= i,
        match_at(s, p, i),
        forall|k: int| from <= k < i ==> !match_at(s, p, k),
    ensures
        find_spec(s, p, from) == Some(i),
    decreases i - from,
{
    if from < i {
        lemma_find_unique(s, p, from + 1, i);
    }
}

/// `p` occurs in `v` at index `i`.
pub fn matches_at(v: &Vec<char>, p: &Vec<char>, i: usize) -> (r: bool)
    ensures
        r == match_at(v@, p@, i as int),
{
    if i > v.len() || p.len() > v.len() - i {
        return false;
    }
    let mut k: usize = 0;
    while k < p.len()
        invariant
            i + p.len() <= v.len(),
            k <= p.len(),
            forall|m: int| 0 <= m < k ==> v@[i + m] == p@[m],
        decreases p.len() - k,
    {
        if v[i + k] != p[k] {
            proof {
                assert(v@.subrange(i as int, i + p.len())[k as int] != p@[k as int]);
            }
            return false;
        }
        k += 1;
    }
    proof {
        assert(v@.subrange(i as int, i + p.len()) =~= p@);
    }
    true
}

/// Index of the first occurrence of `p` at or after `from` (`str::find`).
pub fn find(v: &Vec<char>, p: &Vec<char>, from: usize) -> (r: Option<usize>)
    ensures
        r matches Some(i) ==> find_spec(v@, p@, from as int) == Some(i as int),
        r is None ==> find_spec(v@, p@, from as int) is None,
{
    let mut i: usize = from;
    loop
        invariant_except_break
            from <= i,
            forall|k: int| from <= k < i ==> !match_at(v@, p@, k),
        ensures
            forall|k: int| from <= k ==> !match_at(v@, p@, k),
        decreases v.len() + 1 - i,
    {
        if i > v.len() || p.len() > v.len() - i {
            assert(forall|k: int| i <= k ==> !match_at(v@, p@, k));
            break;
        }
        if matches_at(v, p, i) {
            proof {
                lemma_find_unique(v@, p@, from as int, i as int);
            }
            return Some(i);
        }
        if i == v.len() {
            assert(forall|k: int| i <= k ==> !match_at(v@, p@, k));
            break;
        }
        i += 1;
    }
    proof {
        lemma_find_bounds(v@, p@, from as int);
        if let Some(k) = find_spec(v@, p@, from as int) {
            assert(match_at(v@, p@, k));
        }
    }
    None
}

} // verus!

verus! {

/// The decimal digit character of `d < 10`.
pub open spec fn digit_char(d: nat) -> char {
    if d == 0 { '0' }
    else if d == 1 { '1' }
    else if d == 2 { '2' }
    else if d == 3 { '3' }
    else if d == 4 { '4' }
    else if d == 5 { '5' }
    else if d == 6 { '6' }
    else if d == 7 { '7' }
    else if d == 8 { '8' }
    else { '9' }
}

/// The value of a decimal digit character.
pub open spec fn digit_value(c: char) -> nat {
    if c == '1' { 1 }
    else if c == '2' { 2 }
    else if c == '3' { 3 }
    else if c == '4' { 4 }
    else if c == '5' { 5 }
    else if c == '6' { 6 }
    else if c == '7' { 7 }
    else if c == '8' { 8 }
    else if c == '9' { 9 }
    else { 0 }
}

/// The decimal notation of `n`, without leading zeros (`usize::to_string`).
pub open spec fn decimal_spec(n: nat) -> Seq<char>
    decreases n,
{
    if n < 10 {
        seq![digit_char(n)]
    } else {
        decimal_spec(n / 10).push(digit_char(n % 10))
    }
}

/// The number that the decimal digits `s` denote.
pub open spec fn digits_value(s: Seq<char>) -> nat
    decreases s.len(),
{
    if s.len() == 0 {
        0
    } else {
        digits_value(s.drop_last()) * 10 + digit_value(s.last())
    }
}

fn digit(d: usize) -> (c: char)
    requires
        d < 10,
    ensures
        c == digit_char(d as nat),
{
    if d == 0 { '0' }
    else if d == 1 { '1' }
    else if d == 2 { '2' }
    else if d == 3 { '3' }
    else if d == 4 { '4' }
    else if d == 5 { '5' }
    else if d == 6 { '6' }
    else if d == 7 { '7' }
    else if d == 8 { '8' }
    else { '9' }
}

fn value_of_digit(c: char) -> (d: usize)
    ensures
        d == digit_value(c),
        d < 10,
{
    if c == '1' { 1 }
    else if c == '2' { 2 }
    else if c == '3' { 3 }
    else if c == '4' { 4 }
    else if c == '5' { 5 }
    else if c == '6' { 6 }
    else if c == '7' { 7 }
    else if c == '8' { 8 }
    else if c == '9' { 9 }
    else { 0 }
}

/// The decimal notation of `n`.
pub fn decimal(n: usize) -> (r: Vec<char>)
    ensures
        r@ == decimal_spec(n as nat),
    decreases n,
{
    if n < 10 {
        let mut v: Vec<char> = Vec::new();
        v.push(digit(n));
        proof {
            assert(v@ == seq![digit_char(n as nat)]);
        }
        v
    } else {
        let mut v = decimal(n / 10);
        v.push(digit(n % 10));
        v
    }
}

/// The value of the decimal digits `v` (`str::parse::<usize>`), or `None`
/// when it does not fit in a `usize`.
pub fn parse_digits(v: &Vec<char>) -> (r: Option<usize>)
    ensures
        r matches Some(n) ==> n == digits_value(v@),
        r is None ==> digits_value(v@) > usize::MAX,
{
    let mut acc: usize = 0;
    let mut i: usize = 0;
    while i < v.len()
        invariant
            i <= v.len(),
            acc == digits_value(v@.take(i as int)),
        decreases v.len() - i,
    {
        proof {
            assert(v@.take(i + 1).drop_last() == v@.take(i as int));
        }
        let d = value_of_digit(v[i]);
        if acc > (usize::MAX - d) / 10 {
            proof {
                lemma_digits_value_prefix(v@, (i + 1) as int);
            }
            return None;
        }
        acc = acc * 10 + d;
        i += 1;
    }
    proof {
        assert(v@.take(v.len() as int) == v@);
    }
    Some(acc)
}

/// A longer prefix of digits never denotes a smaller number.
proof fn lemma_digits_value_prefix(s: Seq<char>, k: int)
    requires
        0 <= k <= s.len(),
    ensures
        digits_value(s.take(k)) <= digits_value(s),
    decreases s.len() - k,
{
    if k < s.len() {
        assert(s.drop_last().take(k) == s.take(k));
        lemma_digits_value_prefix(s.drop_last(), k);
    } else {
        assert(s.take(k) == s);
    }
}

} // verus!

verus! {

/// `s` begins with `p`.
pub open spec fn starts_with_spec(s: Seq<char>, p: Seq<char>) -> bool {
    p.len() <= s.len() && s.take(p.len() as int) == p
}

/// `s` ends with `p`.
pub open spec fn ends_with_spec(s: Seq<char>, p: Seq<char>) -> bool {
    p.len() <= s.len() && s.skip(s.len() - p.len()) == p
}

/// `p` occurs somewhere in `s`.
pub open spec fn contains_spec(s: Seq<char>, p: Seq<char>) -> bool {
    find_spec(s, p, 0) is Some
}

/// `v` begins with `p`.
pub fn starts_with(v: &Vec<char>, p: &str) -> (r: bool)
    ensures
        r == starts_with_spec(v@, p@),
{
    let pv = crate::chars::chars_of(p);
    let ok = matches_at(v, &pv, 0);
    proof {
        if ok {
            assert(v@.subrange(0, pv@.len() as int) == v@.take(pv@.len() as int));
        } else if pv@.len() <= v@.len() {
            assert(v@.subrange(0, pv@.len() as int) == v@.take(pv@.len() as int));
        }
    }
    ok
}

/// `v` starts with the characters `p`.
pub fn has_prefix(v: &Vec<char>, p: &Vec<char>) -> (r: bool)
    ensures
        r == starts_with_spec(v@, p@),
{
    let ok = matches_at(v, p, 0);
    proof {
        if p@.len() <= v@.len() {
            assert(v@.subrange(0, p@.len() as int) == v@.take(p@.len() as int));
        }
    }
    ok
}

/// `v` ends with `p`.
pub fn ends_with(v: &Vec<char>, p: &str) -> (r: bool)
    ensures
        r == ends_with_spec(v@, p@),
{
    let pv = crate::chars::chars_of(p);
    if pv.len() > v.len() {
        return false;
    }
    let ok = matches_at(v, &pv, v.len() - pv.len());
    proof {
        assert(v@.subrange(v.len() - pv@.len(), v.len() as int) == v@.skip(v.len() - pv@.len()));
    }
    ok
}

/// `p` occurs somewhere in `v`.
pub fn contains(v: &Vec<char>, p: &str) -> (r: bool)
    ensures
        r == contains_spec(v@, p@),
{
    let pv = crate::chars::chars_of(p);
    find(v, &pv, 0).is_some()
}

/// `v` holds exactly the characters of `p`.
pub fn eq_str(v: &Vec<char>, p: &str) -> (r: bool)
    ensures
        r == (v@ == p@),
{
    let pv = crate::chars::chars_of(p);
    if pv.len() != v.len() {
        return false;
    }
    let ok = matches_at(v, &pv, 0);
    proof {
        assert(v@.subrange(0, v@.len() as int) == v@);
    }
    ok
}

/// Two character sequences are equal.
pub fn eq_chars(a: &Vec<char>, b: &Vec<char>) -> (r: bool)
    ensures
        r == (a@ == b@),
{
    if a.len() != b.len() {
        return false;
    }
    let ok = matches_at(a, b, 0);
    proof {
        assert(a@.subrange(0, a@.len() as int) == a@);
    }
    ok
}

} // verus!
