//! Recognition of the canonical text of a version 5 UUID.

use vstd::prelude::*;
use crate::text::{chars_of, char_is_hex_digit, is_hex_digit};

verus! {

/// Number of characters in the canonical text of a UUID.
pub const UUID_TEXT_LEN: usize = 36;

/// The four places at which the canonical text holds a hyphen.
pub open spec fn is_hyphen_position(i: int) -> bool {
    i == 8 || i == 13 || i == 18 || i == 23
}

/// The hexadecimal digits whose two high bits are `10`, the variant of RFC 4122.
pub open spec fn is_variant_digit(c: char) -> bool {
    c == '8' || c == '9' || c == 'a' || c == 'A' || c == 'b' || c == 'B'
}

/// `s` has the layout 8-4-4-4-12: hyphens at the four fixed places and a
/// hexadecimal digit everywhere else.
pub open spec fn has_uuid_layout(s: Seq<char>) -> bool {
    &&& s.len() == 36
    &&& forall|i: int|
        0 <= i < 36 ==> if is_hyphen_position(i) {
            #[trigger] s[i] == '-'
        } else {
            is_hex_digit(s[i])
        }
}

/// `s` is the canonical text of a version 5 UUID: the layout 8-4-4-4-12, the
/// third group starting with `5` and the fourth with a variant digit.
pub open spec fn is_uuid_v5(s: Seq<char>) -> bool {
    &&& has_uuid_layout(s)
    &&& s[14] == '5'
    &&& is_variant_digit(s[19])
}

/// Tells whether `chars` has the layout 8-4-4-4-12.
pub fn check_uuid_layout(chars: &Vec<char>) -> (r: bool)
    ensures
        r == has_uuid_layout(chars@),
{
    if chars.len() != UUID_TEXT_LEN {
        return false;
    }
    let mut i: usize = 0;
    while i < UUID_TEXT_LEN
        invariant
            i <= 36,
            chars.len() == 36,
            forall|j: int|
                0 <= j < i ==> if is_hyphen_position(j) {
                    #[trigger] chars@[j] == '-'
                } else {
                    is_hex_digit(chars@[j])
                },
        decreases 36 - i,
    {
        let c = chars[i];
        let ok = if i == 8 || i == 13 || i == 18 || i == 23 {
            c == '-'
        } else {
            char_is_hex_digit(c)
        };
        if !ok {
            return false;
        }
        i += 1;
    }
    true
}

/// Tells whether `uuid_str` is the canonical text of a version 5 UUID.
///
/// Letters are accepted in either case. Anything else (another grouping or
/// length, another version or variant, a character that is no hexadecimal
/// digit) gives `false`.
pub fn validate_uuid(uuid_str: &String) -> (r: bool)
    ensures
        r == is_uuid_v5(uuid_str@),
{
    let chars = chars_of(uuid_str.as_str());
    if !check_uuid_layout(&chars) {
        return false;
    }
    let version = chars[14];
    let variant = chars[19];
    version == '5' && (variant == '8' || variant == '9' || variant == 'a' || variant == 'A'
        || variant == 'b' || variant == 'B')
}

} // verus!
