//! Calls into std's Unicode tables, ASCII upper-casing, and conversion
//! between `String` and character vectors.
use vstd::prelude::*;

verus! {

/// What `char::is_alphanumeric` returns for a character.
pub uninterp spec fn alphanumeric(c: char) -> bool;

/// What `str::to_lowercase` returns for a string, as characters.
pub uninterp spec fn lowercase(s: Seq<char>) -> Seq<char>;

/// What `str::to_uppercase` returns for a string, as characters.
pub uninterp spec fn uppercase(s: Seq<char>) -> Seq<char>;

/// What `Path::file_name` returns for the path `p`, as characters: the
/// last component of the path, if it has one.
pub uninterp spec fn path_file_name(p: Seq<char>) -> Option<Seq<char>>;

/// What `Path::file_stem` returns for the path `p`, as characters: the
/// file name without its extension, if the path has a file name.
pub uninterp spec fn path_file_stem(p: Seq<char>) -> Option<Seq<char>>;

/// ASCII upper-casing of one character (`char::to_ascii_uppercase`).
pub open spec fn ascii_upper(c: char) -> char {
    if 'a' <= c && c <= 'z' {
        ((c as int) - 32) as char
    } else {
        c
    }
}

/// std `char::is_alphanumeric` (Unicode `Alphabetic` or `Numeric`). The
/// contract only names the result: the Unicode tables are not stated here.
#[verifier::external_body]
pub(crate) fn is_alphanumeric(c: char) -> (r: bool)
    ensures
        r == alphanumeric(c),
{
    c.is_alphanumeric()
}

/// ASCII upper-casing of one character, as `char::to_ascii_uppercase`
/// does it: `a`..=`z` become `A`..=`Z`, every other character stays.
pub(crate) fn to_ascii_uppercase(c: char) -> (r: char)
    ensures
        r == ascii_upper(c),
{
    if 'a' <= c && c <= 'z' {
        ((c as u32 - 32) as u8) as char
    } else {
        c
    }
}

/// std `str::to_lowercase` on the string made of `v`. The contract only
/// names the result: the Unicode case mapping is not stated here.
#[verifier::external_body]
pub(crate) fn to_lowercase(v: &Vec<char>) -> (r: Vec<char>)
    ensures
        r@ == lowercase(v@),
{
    let s: String = v.iter().collect();
    s.to_lowercase().chars().collect()
}

/// std `str::to_uppercase` on the string made of `v`. The contract only
/// names the result: the Unicode case mapping is not stated here.
#[verifier::external_body]
pub(crate) fn to_uppercase(v: &Vec<char>) -> (r: Vec<char>)
    ensures
        r@ == uppercase(v@),
{
    let s: String = v.iter().collect();
    s.to_uppercase().chars().collect()
}

/// std `Path::file_name` of the path `p`, made a string. The contract only
/// names the result: how a path splits into components is not stated here.
#[verifier::external_body]
pub(crate) fn file_name(p: &str) -> (r: Option<String>)
    ensures
        match r {
            Some(s) => path_file_name(p@) == Some(s@),
            None => path_file_name(p@) is None,
        },
{
    std::path::Path::new(p).file_name().map(|n| n.to_string_lossy().into_owned())
}

/// std `Path::file_stem` of the path `p`, made a string. The contract only
/// names the result: how a path splits into name and extension is not
/// stated here.
#[verifier::external_body]
pub(crate) fn file_stem(p: &str) -> (r: Option<String>)
    ensures
        match r {
            Some(s) => path_file_stem(p@) == Some(s@),
            None => path_file_stem(p@) is None,
        },
{
    std::path::Path::new(p).file_stem().map(|n| n.to_string_lossy().into_owned())
}

/// std `String::push`: appends one character.
#[verifier::external_body]
pub(crate) fn push_char(s: &mut String, c: char)
    ensures
        final(s)@ == old(s)@.push(c),
{
    s.push(c)
}

/// The characters of a string.
pub fn chars_of(s: &str) -> (r: Vec<char>)
    ensures
        r@ == s@,
{
    let n: usize = s.unicode_len();
    let mut r: Vec<char> = Vec::new();
    let mut i: usize = 0;
    while i < n
        invariant
            n == s@.len(),
            i <= n,
            r@ == s@.take(i as int),
        decreases n - i,
    {
        r.push(s.get_char(i));
        i += 1;
        proof {
            assert(s@.take(i as int) == s@.take(i - 1).push(s@[i - 1]));
        }
    }
    proof {
        assert(s@.take(n as int) == s@);
    }
    r
}

/// The string made of the characters `v`.
pub fn string_of(v: &Vec<char>) -> (r: String)
    ensures
        r@ == v@,
{
    let mut r: String = String::new();
    let mut i: usize = 0;
    while i < v.len()
        invariant
            i <= v.len(),
            r@ == v@.take(i as int),
        decreases v.len() - i,
    {
        push_char(&mut r, v[i]);
        i += 1;
        proof {
            assert(v@.take(i as int) == v@.take(i - 1).push(v@[i - 1]));
        }
    }
    proof {
        assert(v@.take(v.len() as int) == v@);
    }
    r
}

} // verus!
