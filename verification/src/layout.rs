//! Soft wrapping of script lines into visual rows on screen.
use vstd::prelude::*;
use crate::classify::LineType;
use crate::text::{is_whitespace, is_ws};

verus! {

/// How many characters of a line of this type fit on one screen row.
pub open spec fn wrap_width_spec(t: LineType) -> nat {
    match t {
        LineType::Dialogue => 35,
        LineType::Parenthetical => 28,
        LineType::Character => 38,
        LineType::DualDialogueCharacter => 38,
        _ => 60,
    }
}

pub fn wrap_width(t: LineType) -> (r: usize)
    ensures
        r == wrap_width_spec(t),
{
    match t {
        LineType::Dialogue => 35,
        LineType::Parenthetical => 28,
        LineType::Character => 38,
        LineType::DualDialogueCharacter => 38,
        _ => 60,
    }
}

/// The last whitespace at an index in `a..=b`.
pub open spec fn last_ws_in(s: Seq<char>, a: int, b: int) -> Option<int>
    decreases b - a,
{
    if b < a || b < 0 || b >= s.len() {
        None
    } else if is_ws(s[b]) {
        Some(b)
    } else if b == a {
        None
    } else {
        last_ws_in(s, a, b - 1)
    }
}

/// Where the row that starts at `start` ends: the rest of the line if it
/// fits in `w` characters, else just after the last whitespace that lets the
/// row fit (a trailing space may hang over), else after `w` characters.
pub open spec fn row_end(s: Seq<char>, start: int, w: nat) -> int {
    if s.len() - start <= w {
        s.len() as int
    } else {
        match last_ws_in(s, start, start + w) {
            Some(p) => p + 1,
            None => start + w,
        }
    }
}

pub proof fn lemma_last_ws_in(s: Seq<char>, a: int, b: int)
    ensures
        last_ws_in(s, a, b) matches Some(p) ==> a <= p <= b && 0 <= p < s.len() && is_ws(s[p]),
    decreases b - a,
{
    if !(b < a || b < 0 || b >= s.len()) && !is_ws(s[b]) && b != a {
        lemma_last_ws_in(s, a, b - 1);
    }
}

/// The rows of `s` from `start` on.
pub open spec fn rows_from(s: Seq<char>, start: int, w: nat) -> Seq<(int, int)>
    decreases s.len() - start,
{
    if start < 0 || start >= s.len() || w == 0 {
        Seq::empty()
    } else {
        let e = row_end(s, start, w);
        if e <= start || e > s.len() {
            Seq::empty()
        } else {
            seq![(start, e)] + rows_from(s, e, w)
        }
    }
}

/// The rows of a line `w` characters wide, as `(start, end)` character
/// ranges; an empty line has one empty row.
pub open spec fn wrap_rows(s: Seq<char>, w: nat) -> Seq<(int, int)> {
    if s.len() == 0 {
        seq![(0, 0)]
    } else {
        rows_from(s, 0, w)
    }
}

fn find_last_ws(v: &Vec<char>, a: usize, b: usize) -> (r: Option<usize>)
    requires
        a <= b < v.len(),
    ensures
        r matches Some(p) ==> last_ws_in(v@, a as int, b as int) == Some(p as int),
        r is None ==> last_ws_in(v@, a as int, b as int) is None,
{
    let mut k: usize = b;
    loop
        invariant
            a <= k <= b < v.len(),
            last_ws_in(v@, a as int, b as int) == last_ws_in(v@, a as int, k as int),
        decreases k,
    {
        if is_whitespace(v[k]) {
            return Some(k);
        }
        if k == a {
            return None;
        }
        k -= 1;
    }
}

/// The end of the row starting at `start`.
pub fn row_end_of(v: &Vec<char>, start: usize, w: usize) -> (r: usize)
    requires
        start < v.len(),
        w >= 1,
    ensures
        r == row_end(v@, start as int, w as nat),
        start < r <= v.len(),
{
    if v.len() - start <= w {
        v.len()
    } else {
        match find_last_ws(v, start, start + w) {
            Some(p) => {
                proof {
                    lemma_last_ws_in(v@, start as int, (start + w) as int);
                }
                p + 1
            },
            None => start + w,
        }
    }
}

/// The rows of a line `w` characters wide.
pub fn wrap(v: &Vec<char>, w: usize) -> (r: Vec<(usize, usize)>)
    requires
        w >= 1,
    ensures
        r@.map_values(|p: (usize, usize)| (p.0 as int, p.1 as int)) == wrap_rows(v@, w as nat),
        r@.len() >= 1,
        forall|k: int| 0 <= k < r@.len() ==> #[trigger] r@[k].0 <= r@[k].1 <= v@.len(),
        v@.len() > 0 ==> forall|k: int| 0 <= k < r@.len() ==> #[trigger] r@[k].0 < r@[k].1,
        forall|k: int| 0 < k < r@.len() ==> #[trigger] r@[k].0 == r@[k - 1].1,
        r@[0].0 == 0,
        r@[r@.len() - 1].1 == v@.len(),
{
    let mut r: Vec<(usize, usize)> = Vec::new();
    if v.len() == 0 {
        r.push((0, 0));
        proof {
            assert(r@.map_values(|p: (usize, usize)| (p.0 as int, p.1 as int)) =~= seq![(0int, 0int)]);
        }
        return r;
    }
    let mut start: usize = 0;
    while start < v.len()
        invariant
            w >= 1,
            0 < v@.len(),
            start <= v@.len(),
            r@.map_values(|p: (usize, usize)| (p.0 as int, p.1 as int)) + rows_from(v@, start as int, w as nat)
                == rows_from(v@, 0, w as nat),
            forall|k: int| 0 <= k < r@.len() ==> #[trigger] r@[k].0 < r@[k].1 <= v@.len(),
            forall|k: int| 0 < k < r@.len() ==> #[trigger] r@[k].0 == r@[k - 1].1,
            r@.len() > 0 ==> r@[0].0 == 0 && r@[r@.len() - 1].1 == start,
            r@.len() == 0 ==> start == 0,
        decreases v.len() - start,
    {
        let e = row_end_of(v, start, w);
        let ghost before = r@.map_values(|p: (usize, usize)| (p.0 as int, p.1 as int));
        r.push((start, e));
        proof {
            assert(r@.map_values(|p: (usize, usize)| (p.0 as int, p.1 as int)) =~= before.push((start as int, e as int)));
            assert(rows_from(v@, start as int, w as nat) == seq![(start as int, e as int)] + rows_from(v@, e as int, w as nat));
            assert(before.push((start as int, e as int)) + rows_from(v@, e as int, w as nat) =~= before + (seq![(start as int, e as int)] + rows_from(v@, e as int, w as nat)));
        }
        start = e;
    }
    proof {
        assert(rows_from(v@, start as int, w as nat) == Seq::<(int, int)>::empty());
        assert(r@.map_values(|p: (usize, usize)| (p.0 as int, p.1 as int)) + Seq::<(int, int)>::empty()
            =~= r@.map_values(|p: (usize, usize)| (p.0 as int, p.1 as int)));
    }
    r
}

/// The row that holds cursor column `x`: the first row that ends after it,
/// or the last row.
pub open spec fn row_of(rows: Seq<(int, int)>, x: int) -> int
    decreases rows.len(),
{
    if rows.len() <= 1 {
        0
    } else if x < rows[0].1 {
        0
    } else {
        1 + row_of(rows.drop_first(), x)
    }
}

pub proof fn lemma_row_of(rows: Seq<(int, int)>, x: int)
    ensures
        rows.len() > 0 ==> 0 <= row_of(rows, x) < rows.len(),
    decreases rows.len(),
{
    if rows.len() > 1 && x >= rows[0].1 {
        lemma_row_of(rows.drop_first(), x);
    }
}

/// The row found for a column starts at or before it.
pub proof fn lemma_row_of_start(rows: Seq<(int, int)>, x: int)
    ensures
        row_of(rows, x) > 0 ==> row_of(rows, x) < rows.len() && x >= rows[row_of(rows, x) - 1].1,
    decreases rows.len(),
{
    if rows.len() > 1 && x >= rows[0].1 {
        lemma_row_of_start(rows.drop_first(), x);
        lemma_row_of(rows.drop_first(), x);
    }
}

/// The row of `rows` that holds column `x`.
pub fn find_row(rows: &Vec<(usize, usize)>, x: usize) -> (r: usize)
    requires
        rows@.len() > 0,
    ensures
        r == row_of(rows@.map_values(|p: (usize, usize)| (p.0 as int, p.1 as int)), x as int),
        r < rows@.len(),
{
    let ghost rs = rows@.map_values(|p: (usize, usize)| (p.0 as int, p.1 as int));
    let mut k: usize = 0;
    proof {
        assert(rs.skip(0) =~= rs);
    }
    while k < rows.len() - 1 && x >= rows[k].1
        invariant
            k < rows@.len(),
            rs == rows@.map_values(|p: (usize, usize)| (p.0 as int, p.1 as int)),
            row_of(rs, x as int) == k + row_of(rs.skip(k as int), x as int),
        decreases rows.len() - k,
    {
        proof {
            assert(rs.skip(k as int).drop_first() =~= rs.skip(k + 1));
        }
        k += 1;
    }
    proof {
        assert(rs.skip(k as int)[0] == rs[k as int]);
    }
    k
}

} // verus!
