//! Theme appearance and color parsing.

use vstd::prelude::*;
use vstd::string::*;
use crate::chars::{lower_seq, matches_ignore_ascii_case};

verus! {

/// Whether a theme renders on a light or a dark background.
#[derive(Clone, Copy, Debug, PartialEq, Eq, Structural)]
pub enum Appearance {
    Light,
    Dark,
}

/// The appearance a configuration string names, matched without regard to
/// ASCII case; anything unrecognized falls back to light.
pub open spec fn appearance_from_spec(s: Seq<char>) -> Appearance {
    if lower_seq(s) == "light"@ {
        Appearance::Light
    } else if lower_seq(s) == "dark"@ {
        Appearance::Dark
    } else {
        Appearance::Light
    }
}

impl From<String> for Appearance {
    fn from(s: String) -> (r: Self) {
        if matches_ignore_ascii_case(s.as_str(), "light") {
            Appearance::Light
        } else if matches_ignore_ascii_case(s.as_str(), "dark") {
            Appearance::Dark
        } else {
            Appearance::Light
        }
    }
}

impl vstd::std_specs::convert::FromSpecImpl<String> for Appearance {
    open spec fn obeys_from_spec() -> bool {
        true
    }

    open spec fn from_spec(s: String) -> Self {
        appearance_from_spec(s@)
    }
}

impl Appearance {
    /// Whether this is the light appearance.
    pub fn is_light(&self) -> (r: bool)
        ensures
            r == (*self matches Appearance::Light),
    {
        match self {
            Appearance::Light => true,
            Appearance::Dark => false,
        }
    }
}

/// Helpers for deriving colors from other colors.
pub struct ColorTools {}

/// The numeric value of one hexadecimal digit, if the character is one.
pub open spec fn hex_digit_value(c: char) -> Option<int> {
    let code = c as u32;
    if 48 <= code <= 57 {
        Some(code - 48)
    } else if 97 <= code <= 102 {
        Some(code - 87)
    } else if 65 <= code <= 70 {
        Some(code - 55)
    } else {
        None
    }
}

/// Whether every character of the sequence is a hexadecimal digit.
pub open spec fn all_hex_digits(s: Seq<char>) -> bool {
    forall|i: int| 0 <= i < s.len() ==> hex_digit_value(s[i]) is Some
}

/// The value of a big-endian sequence of hexadecimal digits.
pub open spec fn hex_value(s: Seq<char>) -> int
    decreases s.len(),
{
    if s.len() == 0 {
        0
    } else {
        hex_value(s.drop_last()) * 16 + (match hex_digit_value(s.last()) {
            Some(v) => v,
            None => 0,
        })
    }
}

/// Each character of the sequence doubled in place.
pub open spec fn doubled(s: Seq<char>) -> Seq<char> {
    Seq::new(s.len() * 2, |i: int| s[i / 2])
}

/// A color string brought to the eight-digit form: an optional leading `#`
/// is dropped, three- and four-digit shorthands double each digit, and six
/// digits gain an opaque alpha channel.
pub open spec fn normalized_hex(s: Seq<char>) -> Seq<char> {
    let bare = if s.len() > 0 && s[0] == '#' {
        s.drop_first()
    } else {
        s
    };
    let expanded = if bare.len() == 3 || bare.len() == 4 {
        doubled(bare)
    } else {
        bare
    };
    if expanded.len() == 6 {
        expanded + "ff"@
    } else {
        expanded
    }
}

/// The RGBA value a hex color string denotes: its normalized form read as a
/// hexadecimal number, provided it has between one and eight hex digits.
pub open spec fn parse_hex_spec(s: Seq<char>) -> Option<u32> {
    let n = normalized_hex(s);
    if 1 <= n.len() <= 8 && all_hex_digits(n) {
        Some(hex_value(n) as u32)
    } else {
        None
    }
}

/// Reads a hex color string — 3, 4, 6 or 8 digits, with or without a
/// leading `#` — as its RGBA value.
pub fn parse_hex_color(s: &str) -> (r: Option<u32>)
    ensures
        r == parse_hex_spec(s@),
{
    let n = s.unicode_len();
    let mut digits: Vec<char> = Vec::new();
    let mut i: usize = if n > 0 && s.get_char(0) == '#' {
        1
    } else {
        0
    };
    let ghost bare = if s@.len() > 0 && s@[0] == '#' {
        s@.drop_first()
    } else {
        s@
    };
    let ghost start = i as int;
    proof {
        assert(digits@ =~= s@.subrange(start, start));
        assert(bare =~= s@.subrange(start, n as int));
    }
    while i < n
        invariant
            start <= i as int <= n,
            n == s@.len(),
            start == (if s@.len() > 0 && s@[0] == '#' {
                1int
            } else {
                0int
            }),
            bare == s@.subrange(start, n as int),
            digits@ == s@.subrange(start, i as int),
        decreases n - i,
    {
        digits.push(s.get_char(i));
        proof {
            assert(s@.subrange(start, i as int + 1) =~= s@.subrange(start, i as int).push(
                s@[i as int],
            ));
        }
        i = i + 1;
    }
    proof {
        assert(digits@ =~= bare);
    }
    let expanded: Vec<char> = if digits.len() == 3 || digits.len() == 4 {
        let mut twice: Vec<char> = Vec::new();
        let mut j: usize = 0;
        while j < digits.len()
            invariant
                j <= digits@.len(),
                twice@.len() == 2 * j,
                forall|k: int| 0 <= k < twice@.len() ==> twice@[k] == digits@[k / 2],
            decreases digits@.len() - j,
        {
            let c = digits[j];
            twice.push(c);
            twice.push(c);
            j = j + 1;
        }
        proof {
            assert(twice@ =~= doubled(digits@));
        }
        twice
    } else {
        digits
    };
    let mut full = expanded;
    if full.len() == 6 {
        proof {
            reveal_strlit("ff");
        }
        full.push('f');
        full.push('f');
        proof {
            assert(full@ =~= normalized_hex(s@));
        }
    } else {
        proof {
            assert(full@ =~= normalized_hex(s@));
        }
    }
    if full.len() < 1 || full.len() > 8 {
        return None;
    }
    let mut value: u32 = 0;
    let mut j: usize = 0;
    while j < full.len()
        invariant
            j <= full@.len(),
            1 <= full@.len() <= 8,
            full@ == normalized_hex(s@),
            all_hex_digits(full@.take(j as int)),
            value == hex_value(full@.take(j as int)),
            value < pow16(j as nat),
        decreases full@.len() - j,
    {
        let c = full[j];
        let code = c as u32;
        let digit: u32 = if 48 <= code && code <= 57 {
            code - 48
        } else if 97 <= code && code <= 102 {
            code - 87
        } else if 65 <= code && code <= 70 {
            code - 55
        } else {
            proof {
                assert(hex_digit_value(full@[j as int]) is None);
            }
            return None;
        };
        proof {
            assert(hex_digit_value(full@[j as int]) == Some(digit as int));
            assert(full@.take(j as int + 1).drop_last() =~= full@.take(j as int));
            assert(full@.take(j as int + 1).last() == full@[j as int]);
            lemma_pow16_bounds(j as nat);
            lemma_pow16_bounds((j + 1) as nat);
            assert(pow16((j + 1) as nat) == 16 * pow16(j as nat));
        }
        value = value * 16 + digit;
        j = j + 1;
    }
    proof {
        assert(full@.take(full@.len() as int) =~= full@);
        lemma_pow16_bounds(full@.len() as nat);
    }
    Some(value)
}

/// Sixteen to the `n`th power.
pub open spec fn pow16(n: nat) -> int
    decreases n,
{
    if n == 0 {
        1
    } else {
        16 * pow16((n - 1) as nat)
    }
}

/// Small powers of sixteen, spelled out for the overflow bounds.
proof fn lemma_pow16_bounds(n: nat)
    ensures
        pow16(n) >= 1,
        n <= 1 ==> pow16(n) <= 0x10,
        n <= 2 ==> pow16(n) <= 0x100,
        n <= 3 ==> pow16(n) <= 0x1000,
        n <= 4 ==> pow16(n) <= 0x10000,
        n <= 5 ==> pow16(n) <= 0x100000,
        n <= 6 ==> pow16(n) <= 0x1000000,
        n <= 7 ==> pow16(n) <= 0x10000000,
        n <= 8 ==> pow16(n) <= 0x100000000,
    decreases n,
{
    if n > 0 {
        lemma_pow16_bounds((n - 1) as nat);
    }
}

} // verus!
