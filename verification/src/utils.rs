//! Column arithmetic in UTF-16 code units, the unit in which editors
//! exchange positions.

use vstd::prelude::*;
use vstd::std_specs::iter::IteratorSpec;

verus! {

/// Number of UTF-16 code units that encode `c`: two for a character outside
/// the basic multilingual plane, one for any other.
pub open spec fn utf16_units_of(c: char) -> nat {
    if c as u32 >= 0x1_0000 {
        2
    } else {
        1
    }
}

/// Number of UTF-16 code units that encode the text `s`.
pub open spec fn utf16_units(s: Seq<char>) -> nat
    decreases s.len(),
{
    if s.len() == 0 {
        0
    } else {
        utf16_units(s.drop_last()) + utf16_units_of(s.last())
    }
}

/// The column just past the text `s`, in a 32-bit position: its UTF-16
/// length, reduced modulo 2^32 where it does not fit.
pub open spec fn utf16_column(s: Seq<char>) -> u32 {
    (utf16_units(s) % 0x1_0000_0000) as u32
}

/// Length of `content` in UTF-16 code units.
pub fn get_utf16_len(content: &str) -> (len: u32)
    ensures
        len == utf16_column(content@),
        utf16_units(content@) <= u32::MAX ==> len == utf16_units(content@),
{
    let mut len: u32 = 0;
    let ghost mut seen: Seq<char> = Seq::empty();
    for c in it: content.chars()
        invariant
            it.seq() == content@,
            seen == it.history(),
            len == utf16_column(seen),
    {
        let units: u32 = if c as u32 >= 0x1_0000 {
            2
        } else {
            1
        };
        proof {
            assert(seen.push(c).drop_last() == seen);
            seen = seen.push(c);
        }
        len = len.wrapping_add(units);
    }
    assert(seen == content@);
    len
}

} // verus!
