//! Display colours and the hexadecimal colour parser. A malformed colour
//! string falls back to the given default; it is never an error.

use vstd::prelude::*;
use vstd::string::StringSliceAdditionalSpecFns;

verus! {

/// A premultiplied RGBA colour.
#[derive(Clone, Copy, PartialEq, Eq, Structural, Debug)]
pub struct Colour {
    pub r: u8,
    pub g: u8,
    pub b: u8,
    pub a: u8,
}

impl Colour {
    /// The fallback for bodies that name no colour.
    pub fn white() -> (c: Colour)
        ensures
            c == (Colour { r: 255u8, g: 255u8, b: 255u8, a: 255u8 }),
    {
        Colour { r: 255, g: 255, b: 255, a: 255 }
    }
}

/// The value of one hexadecimal digit, or `-1` for any other byte.
pub open spec fn hex_digit_val(c: u8) -> int {
    if 48 <= c <= 57 {
        c - 48
    } else if 97 <= c <= 102 {
        c - 87
    } else if 65 <= c <= 70 {
        c - 55
    } else {
        -1
    }
}

pub open spec fn is_hex_digit(c: u8) -> bool {
    hex_digit_val(c) >= 0
}

/// The number a big-endian string of hexadecimal digits denotes.
pub open spec fn hex_value(s: Seq<u8>) -> int
    decreases s.len(),
{
    if s.len() == 0 {
        0
    } else {
        16 * hex_value(s.drop_last()) + hex_digit_val(s.last())
    }
}

/// A colour string this parser accepts: plain hexadecimal digits, short
/// enough that the value cannot leave the fixed-point range.
pub open spec fn valid_hex(s: Seq<u8>) -> bool {
    1 <= s.len() <= 15 && forall|i: int| 0 <= i < s.len() ==> is_hex_digit(#[trigger] s[i])
}

/// `16^n`.
pub open spec fn pow16(n: int) -> int
    decreases n,
{
    if n <= 0 {
        1
    } else {
        16 * pow16(n - 1)
    }
}

pub proof fn lemma_hex_value_bound(s: Seq<u8>)
    requires
        forall|i: int| 0 <= i < s.len() ==> is_hex_digit(#[trigger] s[i]),
    ensures
        0 <= hex_value(s) < pow16(s.len() as int),
    decreases s.len(),
{
    if s.len() > 0 {
        assert(forall|i: int|
            0 <= i < s.drop_last().len() ==> is_hex_digit(#[trigger] s.drop_last()[i]));
        lemma_hex_value_bound(s.drop_last());
        assert(s[s.len() - 1] == s.last());
        let h = hex_value(s.drop_last());
        let p = pow16(s.drop_last().len() as int);
        assert(16 * h + 15 < 16 * p) by (nonlinear_arith)
            requires h < p;
    }
}

/// The colour a parsed value denotes: bytes from most to least
/// significant are red, green, blue, alpha.
pub open spec fn colour_from_value(v: int) -> Colour {
    Colour {
        r: ((v / 16777216) % 256) as u8,
        g: ((v / 65536) % 256) as u8,
        b: ((v / 256) % 256) as u8,
        a: (v % 256) as u8,
    }
}

/// What `parse_colour` answers.
pub open spec fn parse_colour_spec(s: Seq<u8>, default: Colour) -> Colour {
    if valid_hex(s) {
        colour_from_value(hex_value(s))
    } else {
        default
    }
}

/// Parse a string of hexadecimal digits; any other string has no value.
pub fn parse_hex(s: &[u8]) -> (r: Option<i64>)
    ensures
        r is Some <==> valid_hex(s@),
        r is Some ==> r->Some_0 as int == hex_value(s@) && 0 <= r->Some_0,
{
    let n = s.len();
    if n == 0 || n > 15 {
        return None;
    }
    proof {
        assert(pow16(15) == 0x1000000000000000) by {
            reveal_with_fuel(pow16, 17);
        }
    }
    let mut acc: i64 = 0;
    let mut j: usize = 0;
    while j < n
        invariant
            0 <= j <= n,
            n == s@.len(),
            1 <= n <= 15,
            forall|i: int| 0 <= i < j ==> is_hex_digit(#[trigger] s@[i]),
            acc as int == hex_value(s@.take(j as int)),
            0 <= acc < 0x1000000000000000,
        decreases n - j,
    {
        let c = s[j];
        let d: i64 = if c >= 48 && c <= 57 {
            (c - 48) as i64
        } else if c >= 97 && c <= 102 {
            (c - 87) as i64
        } else if c >= 65 && c <= 70 {
            (c - 55) as i64
        } else {
            return None;
        };
        proof {
            assert(s@.take(j as int + 1).drop_last() =~= s@.take(j as int));
            assert(s@.take(j as int + 1).last() == s@[j as int]);
            assert(forall|i: int|
                0 <= i < s@.take(j as int + 1).len() ==> is_hex_digit(
                    #[trigger] s@.take(j as int + 1)[i],
                ));
            lemma_hex_value_bound(s@.take(j as int + 1));
            assert(pow16(j as int + 1) <= pow16(15)) by {
                lemma_pow16_increases(j as int + 1, 15);
            }
            assert(pow16(15) == 0x1000000000000000) by {
                reveal_with_fuel(pow16, 17);
            }
        }
        acc = 16 * acc + d;
        j = j + 1;
    }
    proof {
        assert(s@.take(n as int) =~= s@);
    }
    Some(acc)
}

pub proof fn lemma_pow16_increases(m: int, n: int)
    requires
        0 <= m <= n,
    ensures
        pow16(m) <= pow16(n),
        pow16(m) >= 1,
    decreases n,
{
    if m < n {
        lemma_pow16_increases(m, n - 1);
        assert(pow16(n - 1) <= 16 * pow16(n - 1)) by (nonlinear_arith)
            requires pow16(n - 1) >= 1;
    } else if n > 0 {
        lemma_pow16_increases(m - 1, n - 1);
        assert(pow16(n - 1) >= 1 ==> 16 * pow16(n - 1) >= 1) by (nonlinear_arith);
    }
}

/// The colour of a body: its hexadecimal colour string if it parses, the
/// default otherwise (also when no colour is named at all).
pub fn parse_colour(col: Option<&str>, default: Colour) -> (c: Colour)
    ensures
        match col {
            None => c == default,
            Some(s) => c == parse_colour_spec(s.spec_bytes(), default),
        },
{
    match col {
        None => default,
        Some(s) => {
            let bytes = s.as_bytes();
            match parse_hex(bytes) {
                None => default,
                Some(v) => {
                    let vu = v as u64;
                    let a = (vu % 256) as u8;
                    let b = ((vu / 256) % 256) as u8;
                    let g = ((vu / 65536) % 256) as u8;
                    let r = ((vu / 16777216) % 256) as u8;
                    Colour { r, g, b, a }
                },
            }
        },
    }
}

} // verus!
