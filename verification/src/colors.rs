//! Colours of the interface themes, written as `#rrggbb`.
use vstd::prelude::*;

verus! {

/// The value of an ASCII hexadecimal digit.
pub open spec fn hex_digit(b: u8) -> Option<int> {
    if 48 <= b <= 57 {
        Some(b - 48)
    } else if 97 <= b <= 102 {
        Some(b - 87)
    } else if 65 <= b <= 70 {
        Some(b - 55)
    } else {
        None
    }
}

/// Two bytes read as a number in base 16 (`u8::from_str_radix`, which
/// takes a leading `+`), 128 where they are no such number.
pub open spec fn pair_value(a: u8, b: u8) -> int {
    if a == 43 {
        match hex_digit(b) {
            Some(v) => v,
            None => 128,
        }
    } else {
        match (hex_digit(a), hex_digit(b)) {
            (Some(x), Some(y)) => 16 * x + y,
            _ => 128,
        }
    }
}

/// `s` without its leading `#`.
pub open spec fn without_hashes(s: Seq<u8>) -> Seq<u8>
    decreases s.len(),
{
    if s.len() > 0 && s[0] == 35 {
        without_hashes(s.skip(1))
    } else {
        s
    }
}

/// A byte that continues a UTF-8 sequence.
pub open spec fn continuation(b: u8) -> bool {
    0x80 <= b <= 0xBF
}

/// Position `p` of `t` is at a character boundary.
pub open spec fn boundary(t: Seq<u8>, p: int) -> bool {
    p == t.len() || (0 <= p < t.len() && !continuation(t[p]))
}

/// The colour `#rrggbb` names: grey (128, 128, 128) when fewer than six
/// bytes follow the `#`, and 128 for each pair that is not a number.
pub open spec fn rgb_spec(hex: Seq<u8>) -> (int, int, int) {
    let t = without_hashes(hex);
    if t.len() < 6 {
        (128, 128, 128)
    } else {
        (pair_value(t[0], t[1]), pair_value(t[2], t[3]), pair_value(t[4], t[5]))
    }
}

fn hex_digit_of(b: u8) -> (r: Option<u8>)
    ensures
        match hex_digit(b) {
            Some(v) => r == Some(v as u8),
            None => r is None,
        },
{
    if 48 <= b && b <= 57 {
        Some(b - 48)
    } else if 97 <= b && b <= 102 {
        Some(b - 87)
    } else if 65 <= b && b <= 70 {
        Some(b - 55)
    } else {
        None
    }
}

fn pair_of(a: u8, b: u8) -> (r: u8)
    ensures
        r == pair_value(a, b),
{
    if a == 43 {
        match hex_digit_of(b) {
            Some(v) => v,
            None => 128,
        }
    } else {
        match (hex_digit_of(a), hex_digit_of(b)) {
            (Some(x), Some(y)) => 16 * x + y,
            _ => 128,
        }
    }
}

/// The colour of a `#rrggbb` theme entry, given as the bytes of its text.
/// The text is cut into pairs at bytes 2, 4 and 6 after the `#`, which
/// must fall between characters.
pub fn hex_to_rgb(hex: &[u8]) -> (r: (u8, u8, u8))
    requires
        without_hashes(hex@).len() >= 6 ==> boundary(without_hashes(hex@), 2) && boundary(without_hashes(hex@), 4)
            && boundary(without_hashes(hex@), 6),
    ensures
        (r.0 as int, r.1 as int, r.2 as int) == rgb_spec(hex@),
{
    let mut i: usize = 0;
    proof {
        assert(hex@.skip(0) =~= hex@);
    }
    while i < hex.len() && hex[i] == 35
        invariant
            i <= hex@.len(),
            without_hashes(hex@) == without_hashes(hex@.skip(i as int)),
        decreases hex.len() - i,
    {
        proof {
            assert(hex@.skip(i as int).skip(1) =~= hex@.skip(i + 1));
        }
        i += 1;
    }
    proof {
        assert(without_hashes(hex@.skip(i as int)) == hex@.skip(i as int));
    }
    if hex.len() - i < 6 {
        return (128, 128, 128);
    }
    (pair_of(hex[i], hex[i + 1]), pair_of(hex[i + 2], hex[i + 3]), pair_of(hex[i + 4], hex[i + 5]))
}

/// The digits `0`-`9`, `a`-`f` as ASCII bytes.
pub open spec fn lower_hex_digits() -> Seq<u8> {
    seq![48u8, 49u8, 50u8, 51u8, 52u8, 53u8, 54u8, 55u8, 56u8, 57u8, 97u8, 98u8, 99u8, 100u8, 101u8, 102u8]
}

/// The digits `0`-`9`, `A`-`F` as ASCII bytes.
pub open spec fn upper_hex_digits() -> Seq<u8> {
    seq![48u8, 49u8, 50u8, 51u8, 52u8, 53u8, 54u8, 55u8, 56u8, 57u8, 65u8, 66u8, 67u8, 68u8, 69u8, 70u8]
}

/// The byte that spells hexadecimal digit `d`, in upper or lower case.
pub open spec fn spelled_digit(d: int, upper: bool) -> u8 {
    if upper {
        upper_hex_digits()[d]
    } else {
        lower_hex_digits()[d]
    }
}

proof fn lemma_spelled_digit(d: int, upper: bool)
    requires
        0 <= d < 16,
    ensures
        hex_digit(spelled_digit(d, upper)) == Some(d),
        spelled_digit(d, upper) != 35,
        spelled_digit(d, upper) != 43,
        !continuation(spelled_digit(d, upper)),
{
    assert(hex_digit(48u8) == Some(0int));
    assert(hex_digit(48u8) == Some(0int));
    assert(hex_digit(49u8) == Some(1int));
    assert(hex_digit(49u8) == Some(1int));
    assert(hex_digit(50u8) == Some(2int));
    assert(hex_digit(50u8) == Some(2int));
    assert(hex_digit(51u8) == Some(3int));
    assert(hex_digit(51u8) == Some(3int));
    assert(hex_digit(52u8) == Some(4int));
    assert(hex_digit(52u8) == Some(4int));
    assert(hex_digit(53u8) == Some(5int));
    assert(hex_digit(53u8) == Some(5int));
    assert(hex_digit(54u8) == Some(6int));
    assert(hex_digit(54u8) == Some(6int));
    assert(hex_digit(55u8) == Some(7int));
    assert(hex_digit(55u8) == Some(7int));
    assert(hex_digit(56u8) == Some(8int));
    assert(hex_digit(56u8) == Some(8int));
    assert(hex_digit(57u8) == Some(9int));
    assert(hex_digit(57u8) == Some(9int));
    assert(hex_digit(97u8) == Some(10int));
    assert(hex_digit(65u8) == Some(10int));
    assert(hex_digit(98u8) == Some(11int));
    assert(hex_digit(66u8) == Some(11int));
    assert(hex_digit(99u8) == Some(12int));
    assert(hex_digit(67u8) == Some(12int));
    assert(hex_digit(100u8) == Some(13int));
    assert(hex_digit(68u8) == Some(13int));
    assert(hex_digit(101u8) == Some(14int));
    assert(hex_digit(69u8) == Some(14int));
    assert(hex_digit(102u8) == Some(15int));
    assert(hex_digit(70u8) == Some(15int));
}

/// A theme colour written `#` and six hexadecimal digits, each in either
/// case, names the three numbers the digit pairs spell in base 16: the
/// digits `d` with the case of each in `upper`.
pub proof fn law_hex_colour(d: Seq<int>, upper: Seq<bool>)
    requires
        d.len() == 6,
        upper.len() == 6,
        forall|k: int| 0 <= k < 6 ==> 0 <= #[trigger] d[k] < 16,
    ensures
        ({
            let hex = seq![35u8] + Seq::new(6, |k: int| spelled_digit(d[k], upper[k]));
            &&& boundary(without_hashes(hex), 2) && boundary(without_hashes(hex), 4) && boundary(without_hashes(hex), 6)
            &&& rgb_spec(hex) == (16 * d[0] + d[1], 16 * d[2] + d[3], 16 * d[4] + d[5])
        }),
{
    let t = Seq::new(6, |k: int| spelled_digit(d[k], upper[k]));
    let hex = seq![35u8] + t;
    assert forall|k: int| 0 <= k < 6 implies hex_digit(#[trigger] t[k]) == Some(d[k]) && t[k] != 35 && t[k] != 43
        && !continuation(t[k]) by {
        lemma_spelled_digit(d[k], upper[k]);
    }
    assert(hex.skip(1) =~= t);
    assert(without_hashes(t) == t);
    assert(without_hashes(hex) == t);
}

} // verus!
