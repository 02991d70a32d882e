//! Character-level string helpers shared by the text-handling modules.

use vstd::prelude::*;
use vstd::string::*;

verus! {

/// Whether a character sequence begins with the given prefix.
pub open spec fn starts_with_spec(s: Seq<char>, prefix: Seq<char>) -> bool {
    prefix.len() <= s.len() && s.subrange(0, prefix.len() as int) == prefix
}

/// An uppercase ASCII letter folded to lowercase; everything else kept.
pub open spec fn lower_char(c: char) -> char {
    if 65 <= c as int <= 90 {
        (((c as int) + 32) as u8) as char
    } else {
        c
    }
}

/// A character sequence with its ASCII uppercase letters folded.
pub open spec fn lower_seq(s: Seq<char>) -> Seq<char> {
    s.map_values(|c: char| lower_char(c))
}

/// Whether a string begins with the given prefix.
pub fn starts_with_prefix(s: &str, prefix: &str) -> (r: bool)
    ensures
        r == starts_with_spec(s@, prefix@),
{
    let n = prefix.unicode_len();
    if s.unicode_len() < n {
        return false;
    }
    let head = s.substring_char(0, n);
    String::from_str(head).eq(&String::from_str(prefix))
}

/// The character with its ASCII uppercase letter folded to lowercase.
fn lower_char_exec(c: char) -> (r: char)
    ensures
        r == lower_char(c),
{
    let code = c as u32;
    if 65 <= code && code <= 90 {
        ((code + 32) as u8) as char
    } else {
        c
    }
}

/// Whether `s`, with its ASCII uppercase letters folded, is exactly
/// `lower`.
pub fn matches_ignore_ascii_case(s: &str, lower: &str) -> (r: bool)
    ensures
        r == (lower_seq(s@) == lower@),
{
    let n = s.unicode_len();
    if n != lower.unicode_len() {
        proof {
            assert(lower_seq(s@).len() == s@.len());
        }
        return false;
    }
    let mut i: usize = 0;
    while i < n
        invariant
            i <= n,
            n == s@.len(),
            n == lower@.len(),
            forall|j: int| 0 <= j < i ==> lower_seq(s@)[j] == lower@[j],
        decreases n - i,
    {
        let folded = lower_char_exec(s.get_char(i));
        if folded != lower.get_char(i) {
            proof {
                assert(lower_seq(s@)[i as int] != lower@[i as int]);
            }
            return false;
        }
        i = i + 1;
    }
    proof {
        assert(lower_seq(s@) =~= lower@);
    }
    true
}

} // verus!
