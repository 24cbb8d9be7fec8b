//! The interaction table of the character overview: pairs of characters
//! and how many scenes they share, most first, with a bar for each and a
//! scroll position. The drawing is left to the caller.
use vstd::prelude::*;

verus! {

/// `s` with `x` put after every entry whose count is at least its own.
pub open spec fn insert_ranked(s: Seq<(String, String, usize)>, x: (String, String, usize)) -> Seq<(String, String, usize)>
    decreases s.len(),
{
    if s.len() == 0 {
        seq![x]
    } else if s.last().2 >= x.2 {
        s.push(x)
    } else {
        insert_ranked(s.drop_last(), x).push(s.last())
    }
}

/// The interactions ranked by count, most first; pairs with equal counts
/// keep the order they came in.
pub open spec fn ranked(v: Seq<(String, String, usize)>) -> Seq<(String, String, usize)>
    decreases v.len(),
{
    if v.len() == 0 {
        Seq::empty()
    } else {
        insert_ranked(ranked(v.drop_last()), v.last())
    }
}

/// The counts of `s` never go up.
pub open spec fn descending(s: Seq<(String, String, usize)>) -> bool {
    forall|i: int, j: int| 0 <= i < j < s.len() ==> s[i].2 >= s[j].2
}

proof fn lemma_insert_ranked(s: Seq<(String, String, usize)>, x: (String, String, usize))
    requires
        descending(s),
    ensures
        descending(insert_ranked(s, x)),
        insert_ranked(s, x).len() == s.len() + 1,
        insert_ranked(s, x).to_multiset() == s.to_multiset().insert(x),
    decreases s.len(),
{
    broadcast use vstd::multiset::group_multiset_axioms, vstd::seq_lib::group_seq_properties;
    if s.len() == 0 {
        assert(seq![x].to_multiset() =~= vstd::multiset::Multiset::empty().insert(x)) by {
            }
    } else if s.last().2 >= x.2 {
    } else {
        let p = s.drop_last();
        assert(descending(p));
        lemma_insert_ranked(p, x);
        let r = insert_ranked(p, x);
        assert(s =~= p.push(s.last()));
        assert forall|i: int| 0 <= i < r.len() implies r[i].2 >= s.last().2 by {
            if r[i] == x {
            } else {
                assert(r.to_multiset().count(r[i]) > 0);
                assert(p.to_multiset().count(r[i]) > 0);
                assert(p.contains(r[i]));
                let k = choose|k: int| 0 <= k < p.len() && p[k] == r[i];
                assert(s[k] == p[k]);
            }
        }
        assert(r.to_multiset().insert(s.last()) =~= s.to_multiset().insert(x)) by {
            assert(s.to_multiset() =~= p.to_multiset().insert(s.last()));
        }
    }
}

/// The ranking lists every interaction once and puts the most shared
/// scenes first.
pub proof fn law_ranked_descending(v: Seq<(String, String, usize)>)
    ensures
        descending(ranked(v)),
        ranked(v).len() == v.len(),
        ranked(v).to_multiset() == v.to_multiset(),
    decreases v.len(),
{
    broadcast use vstd::multiset::group_multiset_axioms, vstd::seq_lib::group_seq_properties;
    if v.len() > 0 {
        law_ranked_descending(v.drop_last());
        lemma_insert_ranked(ranked(v.drop_last()), v.last());
        assert(v =~= v.drop_last().push(v.last()));
    } else {
    }
}

/// Ranks the interactions (see `ranked`).
pub fn rank_interactions(v: Vec<(String, String, usize)>) -> (r: Vec<(String, String, usize)>)
    ensures
        r@ == ranked(v@),
{
    let mut out: Vec<(String, String, usize)> = Vec::new();
    let mut rest = v;
    let ghost orig = rest@;
    let mut taken: Vec<(String, String, usize)> = Vec::new();
    // `taken` holds, reversed, the entries not yet ranked
    while rest.len() > 0
        invariant
            taken@ + rest@.reverse() =~= orig.reverse(),
        decreases rest@.len(),
    {
        let ghost before = rest@;
        let x = rest.pop().unwrap();
        proof {
            assert(before =~= rest@.push(x));
            assert(before.reverse() =~= seq![x] + rest@.reverse());
        }
        taken.push(x);
        proof {
            assert(taken@ + rest@.reverse() =~= orig.reverse());
        }
    }
    // now taken@ == orig.reverse(): rank from its end, the input's start
    proof {
        assert(taken@ =~= orig.reverse());
    }
    let ghost n = orig.len();
    while taken.len() > 0
        invariant
            n == orig.len(),
            taken@.len() <= n,
            taken@ =~= orig.skip(n - taken@.len()).reverse(),
            out@ == ranked(orig.take(n - taken@.len())),
        decreases taken@.len(),
    {
        let ghost i = n - taken@.len();
        let x = taken.pop().unwrap();
        proof {
            assert(x == orig[i]);
            assert(orig.take(i + 1).drop_last() =~= orig.take(i));
            assert(taken@ =~= orig.skip(i + 1).reverse());
        }
        insert_ranked_into(&mut out, x);
    }
    proof {
        assert(orig.take(n as int) =~= orig);
    }
    out
}

/// Puts `x` into `out` after every entry whose count is at least its own.
fn insert_ranked_into(out: &mut Vec<(String, String, usize)>, x: (String, String, usize))
    ensures
        final(out)@ == insert_ranked(old(out)@, x),
{
    let ghost o = out@;
    let mut tail: Vec<(String, String, usize)> = Vec::new();
    // move the entries with smaller counts off the end
    while out.len() > 0 && out[out.len() - 1].2 < x.2
        invariant
            insert_ranked(o, x) == insert_ranked(out@, x) + tail@.reverse(),
        decreases out@.len(),
    {
        let ghost before = out@;
        let y = out.pop().unwrap();
        proof {
            assert(before =~= out@.push(y));
            assert(insert_ranked(before, x) == insert_ranked(out@, x).push(y));
            assert(tail@.push(y).reverse() =~= seq![y] + tail@.reverse());
            assert(insert_ranked(out@, x).push(y) + tail@.reverse() =~= insert_ranked(out@, x) + tail@.push(y).reverse());
        }
        tail.push(y);
    }
    proof {
        if out@.len() == 0 {
            assert(insert_ranked(out@, x) == seq![x]);
        } else {
            assert(insert_ranked(out@, x) == out@.push(x));
        }
        assert(insert_ranked(out@, x) =~= out@.push(x));
    }
    out.push(x);
    while tail.len() > 0
        invariant
            insert_ranked(o, x) == out@ + tail@.reverse(),
        decreases tail@.len(),
    {
        let ghost before = tail@;
        let y = tail.pop().unwrap();
        proof {
            assert(before =~= tail@.push(y));
            assert(before.reverse() =~= seq![y] + tail@.reverse());
        }
        let ghost ob = out@;
        out.push(y);
        proof {
            assert(ob + (seq![y] + tail@.reverse()) =~= out@ + tail@.reverse());
        }
    }
    proof {
        assert(out@ + tail@.reverse() =~= out@);
    }
}

/// The first row of the interaction table shown: the asked scroll, kept so
/// that the table stays full (`rows` entries, `height` rows shown).
pub fn interaction_scroll(rows: usize, height: usize, scroll: usize) -> (r: usize)
    ensures
        r == if scroll < rows - height { scroll as int } else if rows >= height { rows - height } else { 0 },
{
    let max_scroll = rows.saturating_sub(height);
    if scroll < max_scroll {
        scroll
    } else {
        max_scroll
    }
}

/// How many of the twelve cells of an interaction's bar are filled: its
/// share of the highest count (taken as at least 1).
pub fn interaction_bar(count: usize, max_count: usize) -> (r: usize)
    requires
        count <= max_count || count <= 1,
        count <= usize::MAX / 12,
    ensures
        r == count * 12 / (if max_count > 1 { max_count as int } else { 1 }),
        r <= 12,
{
    let m = if max_count > 1 {
        max_count
    } else {
        1
    };
    let r = count * 12 / m;
    assert((count as int) * 12 / (m as int) <= 12) by (nonlinear_arith)
        requires
            count <= m,
            m >= 1,
    ;
    r
}

} // verus!
