//! The byte-order selector used by the slice-oriented read and write
//! functions: a plain runtime value, `Big` or `Little`.
#![allow(unused_imports)]
use vstd::prelude::*;

verus! {

/// Byte order of a multi-byte value on the wire: most significant byte
/// first (`Big`) or least significant byte first (`Little`).
#[derive(Clone, Copy, Debug, PartialEq, Eq, Structural)]
pub enum Endianness {
    Big,
    Little,
}

/// The code point of `c` with an ASCII uppercase letter folded to its
/// lowercase counterpart.
pub open spec fn lower_code(c: char) -> int {
    if 65 <= c as int && c as int <= 90 {
        c as int + 32
    } else {
        c as int
    }
}

/// Whether `s` spells "big" in any mix of ASCII upper and lower case.
pub open spec fn spec_is_big(s: Seq<char>) -> bool {
    &&& s.len() == 3
    &&& lower_code(s[0]) == 98
    &&& lower_code(s[1]) == 105
    &&& lower_code(s[2]) == 103
}

/// Whether `s` spells "little" in any mix of ASCII upper and lower case.
pub open spec fn spec_is_little(s: Seq<char>) -> bool {
    &&& s.len() == 6
    &&& lower_code(s[0]) == 108
    &&& lower_code(s[1]) == 105
    &&& lower_code(s[2]) == 116
    &&& lower_code(s[3]) == 116
    &&& lower_code(s[4]) == 108
    &&& lower_code(s[5]) == 101
}

impl Endianness {
    /// Parses a byte-order name: `input` must spell "big" or "little",
    /// case-insensitively.
    pub fn from(input: &str) -> (r: Endianness)
        requires
            spec_is_big(input@) || spec_is_little(input@),
        ensures
            spec_is_big(input@) ==> r == Endianness::Big,
            spec_is_little(input@) ==> r == Endianness::Little,
    {
        proof {
            broadcast use vstd::string::is_ascii_spec_bytes;

            assert forall|i: int| 0 <= i < input@.len() implies '\0' <= #[trigger] input@[i]
                <= '\u{7f}' by {
                assert(lower_code(input@[i]) < 128);
            }
            assert(vstd::string::is_ascii(input));
        }
        let bs = input.as_bytes();
        let c = bs[0];
        let folded = if c >= 65 && c <= 90 {
            c + 32
        } else {
            c
        };
        if folded == 98 {
            Endianness::Big
        } else {
            Endianness::Little
        }
    }
}

} // verus!
