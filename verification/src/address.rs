//! The format of an address: `0x` and forty hexadecimal digits.

use vstd::prelude::*;
use vstd::string::StrSliceExecFns;

verus! {

/// Number of characters of a well-formed address.
pub const ADDRESS_LEN: usize = 42usize;

/// `0`-`9`, `a`-`f` or `A`-`F`.
pub open spec fn is_hex_digit(c: char) -> bool {
    ('0' <= c && c <= '9') || ('a' <= c && c <= 'f') || ('A' <= c && c <= 'F')
}

/// The text is `0x` followed by exactly forty hexadecimal digits and nothing
/// else.
pub open spec fn well_formed_address(s: Seq<char>) -> bool {
    &&& s.len() == ADDRESS_LEN
    &&& s[0] == '0'
    &&& s[1] == 'x'
    &&& forall|i: int| 2 <= i < ADDRESS_LEN ==> is_hex_digit(#[trigger] s[i])
}

/// Whether `c` is a hexadecimal digit, in either case.
pub fn hex_digit(c: char) -> (r: bool)
    ensures
        r == is_hex_digit(c),
{
    ('0' <= c && c <= '9') || ('a' <= c && c <= 'f') || ('A' <= c && c <= 'F')
}

/// Whether `address` has the format of an address.
pub fn is_valid_address(address: &str) -> (r: bool)
    ensures
        r == well_formed_address(address@),
{
    if address.unicode_len() != ADDRESS_LEN {
        return false;
    }
    if address.get_char(0) != '0' || address.get_char(1) != 'x' {
        return false;
    }
    let mut i: usize = 2;
    while i < ADDRESS_LEN
        invariant
            2 <= i <= ADDRESS_LEN,
            address@.len() == ADDRESS_LEN,
            forall|j: int| 2 <= j < i ==> is_hex_digit(#[trigger] address@[j]),
        decreases ADDRESS_LEN - i,
    {
        if !hex_digit(address.get_char(i)) {
            return false;
        }
        i += 1;
    }
    true
}

} // verus!
