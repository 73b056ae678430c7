//! Content identifiers: 128-bit values and their canonical text.

use vstd::prelude::*;
use crate::text::{chars_of, is_hex_digit};
use crate::validators::validate_uuid::{has_uuid_layout, is_hyphen_position, is_uuid_v5};

verus! {

/// The lower-case hexadecimal digit for `v`, which is below 16.
pub open spec fn hex_char(v: int) -> char {
    if v < 10 {
        ((48 + v) as u8) as char
    } else {
        ((87 + v) as u8) as char
    }
}

/// The `j`-th group of four bits of `bits`, counted from the high end.
pub open spec fn nibble(bits: u128, j: int) -> int {
    ((bits >> ((124 - 4 * j) as u128)) & 0xf) as int
}

/// How many hexadecimal digits stand before place `i` of the canonical
/// text. At a place that holds a digit, this is the group of four bits that
/// the digit shows.
pub open spec fn nibble_index(i: int) -> int {
    if i <= 8 {
        i
    } else if i <= 13 {
        i - 1
    } else if i <= 18 {
        i - 2
    } else if i <= 23 {
        i - 3
    } else {
        i - 4
    }
}

/// The canonical text of a 128-bit identifier: its 32 hexadecimal digits in
/// lower case, high end first, in groups of 8, 4, 4, 4 and 12 with a hyphen
/// between them.
pub open spec fn canonical_text(bits: u128) -> Seq<char> {
    Seq::new(
        36,
        |i: int|
            if is_hyphen_position(i) {
                '-'
            } else {
                hex_char(nibble(bits, nibble_index(i)))
            },
    )
}

/// The lower-case hexadecimal digit for `v`.
pub fn digit_char(v: u8) -> (c: char)
    requires
        v < 16,
    ensures
        c == hex_char(v as int),
{
    if v < 10 {
        (48 + v) as char
    } else {
        (87 + v) as char
    }
}

/// The value of the lower-case hexadecimal digit `c`, or `None` where `c` is
/// none.
pub fn char_digit(c: char) -> (r: Option<u8>)
    ensures
        match r {
            Some(v) => v < 16 && c == hex_char(v as int),
            None => forall|v: int| 0 <= v < 16 ==> c != hex_char(v),
        },
{
    if '0' <= c && c <= '9' {
        Some(((c as u32) - 48) as u8)
    } else if 'a' <= c && c <= 'f' {
        Some(((c as u32) - 87) as u8)
    } else {
        None
    }
}

/// The group of four bits that place `i` of the canonical text shows.
pub fn nibble_at(bits: u128, i: usize) -> (v: u8)
    requires
        i < 36,
        !is_hyphen_position(i as int),
    ensures
        v < 16,
        v == nibble(bits, nibble_index(i as int)),
{
    let j: usize = if i < 8 {
        i
    } else if i < 13 {
        i - 1
    } else if i < 18 {
        i - 2
    } else if i < 23 {
        i - 3
    } else {
        i - 4
    };
    let shift: u128 = (124 - 4 * j) as u128;
    let v: u128 = (bits >> shift) & 0xf;
    assert(v < 16) by (bit_vector)
        requires
            v == (bits >> shift) & 0xf,
    ;
    v as u8
}

/// The bits of `acc` from group `j` on are all zero.
spec fn low_clear(acc: u128, j: int) -> bool {
    let sh = (124 - 4 * j) as u128;
    (acc >> sh) << sh == acc && (acc >> sh) & 0xf == 0
}

/// Every group of four bits is a number below 16.
pub proof fn lemma_nibble_range(bits: u128, j: int)
    requires
        0 <= j < 32,
    ensures
        0 <= nibble(bits, j) < 16,
{
    let sh = (124 - 4 * j) as u128;
    assert((bits >> sh) & 0xf < 16) by (bit_vector);
}

/// Writing `d` into group `j`, below which all is zero, sets that group,
/// keeps the groups above it and leaves the groups below it zero.
proof fn lemma_place_nibble(acc: u128, d: u128, j: int)
    requires
        0 <= j < 32,
        d < 16,
        low_clear(acc, j),
    ensures
        ({
            let placed = acc | (d << ((124 - 4 * j) as u128));
            &&& nibble(placed, j) == d
            &&& forall|j2: int| 0 <= j2 < j ==> #[trigger] nibble(placed, j2) == nibble(acc, j2)
            &&& j < 31 ==> low_clear(placed, j + 1)
        }),
{
    let sh = (124 - 4 * j) as u128;
    let placed = acc | (d << sh);
    assert((placed >> sh) & 0xf == d) by (bit_vector)
        requires
            placed == acc | (d << sh),
            sh <= 124,
            d < 16,
            (acc >> sh) << sh == acc,
            (acc >> sh) & 0xf == 0,
    ;
    assert forall|j2: int| 0 <= j2 < j implies #[trigger] nibble(placed, j2) == nibble(acc, j2) by {
        let sh2 = (124 - 4 * j2) as u128;
        assert((placed >> sh2) & 0xf == (acc >> sh2) & 0xf) by (bit_vector)
            requires
                placed == acc | (d << sh),
                sh + 4 <= sh2,
                sh2 <= 124,
                d < 16,
        ;
    }
    if j < 31 {
        let below = (124 - 4 * (j + 1)) as u128;
        assert((placed >> below) << below == placed && (placed >> below) & 0xf == 0)
            by (bit_vector)
            requires
                placed == acc | (d << sh),
                below + 4 == sh,
                sh <= 124,
                d < 16,
                (acc >> sh) << sh == acc,
                (acc >> sh) & 0xf == 0,
        ;
    }
}

/// A 128-bit identifier of a file's content.
#[derive(Clone, Copy, Debug, PartialEq, Eq, Structural)]
pub struct ContentIdentifier {
    pub bits: u128,
}

impl ContentIdentifier {
    /// The canonical text of the identifier.
    pub fn to_text(&self) -> (r: String)
        ensures
            r@ == canonical_text(self.bits),
    {
        let mut r = String::new();
        let mut i: usize = 0;
        while i < 36
            invariant
                i <= 36,
                r@.len() == i,
                forall|k: int| 0 <= k < i ==> #[trigger] r@[k] == canonical_text(self.bits)[k],
            decreases 36 - i,
        {
            let c = if i == 8 || i == 13 || i == 18 || i == 23 {
                '-'
            } else {
                digit_char(nibble_at(self.bits, i))
            };
            r.push(c);
            i += 1;
        }
        assert(r@ =~= canonical_text(self.bits));
        r
    }

    /// Tells whether the identifier is of version 5 and of the variant of
    /// RFC 4122, as every identifier derived from content is.
    pub fn is_version_5(&self) -> (r: bool)
        ensures
            r == is_version_5_identifier(self.bits),
    {
        (self.bits >> 76) & 0xf == 5 && (self.bits >> 62) & 0x3 == 2
    }

    /// Reads the canonical text of an identifier.
    ///
    /// Gives the identifier that `text` is the canonical text of, or `None`
    /// where it is that of none: upper-case digits, a missing hyphen or any
    /// other spelling are not read.
    pub fn parse(text: &str) -> (r: Option<ContentIdentifier>)
        ensures
            match r {
                Some(id) => text@ == canonical_text(id.bits),
                None => forall|bits: u128| text@ != #[trigger] canonical_text(bits),
            },
    {
        let chars = chars_of(text);
        if chars.len() != 36 {
            return None;
        }
        let mut acc: u128 = 0;
        let mut j: usize = 0;
        let mut i: usize = 0;
        assert(low_clear(0, 0)) by {
            assert((0u128 >> 124u128) << 124u128 == 0u128 && (0u128 >> 124u128) & 0xf == 0)
                by (bit_vector);
        }
        while i < 36
            invariant
                i <= 36,
                chars.len() == 36,
                chars@ == text@,
                j == nibble_index(i as int),
                j < 32 ==> low_clear(acc, j as int),
                forall|k: int|
                    0 <= k < i ==> #[trigger] chars@[k] == canonical_text(acc)[k],
            decreases 36 - i,
        {
            let c = chars[i];
            if i == 8 || i == 13 || i == 18 || i == 23 {
                if c != '-' {
                    assert forall|bits: u128| text@ != #[trigger] canonical_text(bits) by {
                        assert(canonical_text(bits)[i as int] == '-');
                    }
                    return None;
                }
            } else {
                match char_digit(c) {
                    None => {
                        assert forall|bits: u128| text@ != #[trigger] canonical_text(bits) by {
                            lemma_nibble_range(bits, j as int);
                            assert(canonical_text(bits)[i as int] == hex_char(
                                nibble(bits, j as int),
                            ));
                        }
                        return None;
                    },
                    Some(d) => {
                        let shift: u128 = (124 - 4 * j) as u128;
                        let ghost before = acc;
                        proof {
                            lemma_place_nibble(acc, d as u128, j as int);
                        }
                        acc = acc | ((d as u128) << shift);
                        assert forall|k: int| 0 <= k < i + 1 implies #[trigger] chars@[k]
                            == canonical_text(acc)[k] by {
                            if k < i {
                                assert(chars@[k] == canonical_text(before)[k]);
                                if !is_hyphen_position(k) {
                                    assert(nibble_index(k) < j);
                                    assert(nibble(acc, nibble_index(k)) == nibble(
                                        before,
                                        nibble_index(k),
                                    ));
                                }
                            }
                        }
                        j += 1;
                    },
                }
            }
            i += 1;
        }
        assert(text@ =~= canonical_text(acc));
        Some(ContentIdentifier { bits: acc })
    }
}

/// The version of the identifier is 5: name-based, by SHA-1.
pub open spec fn has_version_5(bits: u128) -> bool {
    (bits >> 76) & 0xf == 5
}

/// The variant of the identifier is that of RFC 4122: its two bits are `10`.
pub open spec fn has_rfc_variant(bits: u128) -> bool {
    (bits >> 62) & 0x3 == 2
}

/// The identifier is a name-based UUID: of version 5 and of the variant of
/// RFC 4122.
pub open spec fn is_version_5_identifier(bits: u128) -> bool {
    has_version_5(bits) && has_rfc_variant(bits)
}

/// Two identifiers that agree in their first `m` groups of four bits agree
/// in their `4 * m` high bits.
proof fn lemma_high_bits_agree(a: u128, b: u128, m: int)
    requires
        1 <= m <= 32,
        forall|j: int| 0 <= j < m ==> #[trigger] nibble(a, j) == nibble(b, j),
    ensures
        a >> ((128 - 4 * m) as u128) == b >> ((128 - 4 * m) as u128),
    decreases m,
{
    let sh = (128 - 4 * m) as u128;
    assert(nibble(a, m - 1) == nibble(b, m - 1));
    if m == 1 {
        assert(a >> 124 == b >> 124) by (bit_vector)
            requires
                (a >> 124) & 0xf == (b >> 124) & 0xf,
        ;
    } else {
        lemma_high_bits_agree(a, b, m - 1);
        let above = (128 - 4 * (m - 1)) as u128;
        assert(a >> sh == b >> sh) by (bit_vector)
            requires
                above == sh + 4,
                above <= 124,
                a >> above == b >> above,
                (a >> sh) & 0xf == (b >> sh) & 0xf,
        ;
    }
}

/// The canonical text identifies: two identifiers with the same text are
/// the same.
pub proof fn lemma_canonical_text_injective(a: u128, b: u128)
    requires
        canonical_text(a) == canonical_text(b),
    ensures
        a == b,
{
    assert forall|j: int| 0 <= j < 32 implies #[trigger] nibble(a, j) == nibble(b, j) by {
        let i = if j < 8 {
            j
        } else if j < 12 {
            j + 1
        } else if j < 16 {
            j + 2
        } else if j < 20 {
            j + 3
        } else {
            j + 4
        };
        assert(nibble_index(i) == j && !is_hyphen_position(i));
        lemma_nibble_range(a, j);
        lemma_nibble_range(b, j);
        assert(canonical_text(a)[i] == hex_char(nibble(a, j)));
        assert(canonical_text(b)[i] == hex_char(nibble(b, j)));
    }
    lemma_high_bits_agree(a, b, 32);
    assert(a >> 0 == a && b >> 0 == b) by (bit_vector);
}

/// Every canonical text has the layout 8-4-4-4-12.
pub proof fn lemma_canonical_text_layout(bits: u128)
    ensures
        has_uuid_layout(canonical_text(bits)),
{
    let s = canonical_text(bits);
    assert forall|i: int| 0 <= i < 36 implies if is_hyphen_position(i) {
        #[trigger] s[i] == '-'
    } else {
        is_hex_digit(s[i])
    } by {
        if !is_hyphen_position(i) {
            lemma_nibble_range(bits, nibble_index(i));
        }
    }
}

/// The canonical text of an identifier of version 5 and of the variant of
/// RFC 4122 is what `validate_uuid` accepts.
pub proof fn lemma_version_5_text_is_valid(bits: u128)
    requires
        has_version_5(bits),
        has_rfc_variant(bits),
    ensures
        is_uuid_v5(canonical_text(bits)),
{
    lemma_canonical_text_layout(bits);
    assert(nibble_index(14) == 12 && nibble_index(19) == 16);
    assert(nibble(bits, 12) == 5);
    let variant = (bits >> 60) & 0xf;
    assert(8 <= variant <= 11) by (bit_vector)
        requires
            variant == (bits >> 60) & 0xf,
            (bits >> 62) & 0x3 == 2,
    ;
    assert(nibble(bits, 16) == variant);
}

/// An identifier whose canonical text `validate_uuid` accepts is of version
/// 5 and of the variant of RFC 4122.
pub proof fn lemma_valid_text_is_version_5(bits: u128)
    requires
        is_uuid_v5(canonical_text(bits)),
    ensures
        has_version_5(bits),
        has_rfc_variant(bits),
{
    let s = canonical_text(bits);
    assert(nibble_index(14) == 12 && nibble_index(19) == 16);
    lemma_nibble_range(bits, 12);
    lemma_nibble_range(bits, 16);
    assert(s[14] == hex_char(nibble(bits, 12)));
    assert(s[19] == hex_char(nibble(bits, 16)));
    assert(nibble(bits, 12) == 5);
    let variant = (bits >> 60) & 0xf;
    assert(nibble(bits, 16) == variant);
    assert((bits >> 62) & 0x3 == 2) by (bit_vector)
        requires
            variant == (bits >> 60) & 0xf,
            8 <= variant <= 11,
    ;
}

/// The namespace under which content identifiers are derived: the one that
/// RFC 4122 gives for the domain name system.
pub const NAMESPACE: u128 = 0x6ba7b8109dad11d180b400c04fd430c8;

/// What `uuid::Uuid::new_v5` gives for a namespace and a name, as a 128-bit
/// number in big-endian order.
pub uninterp spec fn uuid_v5(namespace: u128, name: Seq<u8>) -> u128;

/// The identifier of a file's content: the name-based UUID of its bytes
/// under `NAMESPACE`.
pub open spec fn content_id(bytes: Seq<u8>) -> u128 {
    uuid_v5(NAMESPACE, bytes)
}

/// Calls `uuid::Uuid::new_v5`, which hashes the namespace and the name with
/// SHA-1 and writes version and variant over six bits of the hash. Trusted:
/// the result is the one named `uuid_v5`, its version is 5 and its variant
/// is that of RFC 4122.
#[verifier::external_body]
pub(crate) fn new_v5(namespace: u128, name: &[u8]) -> (r: u128)
    ensures
        r == uuid_v5(namespace, name@),
        has_version_5(r),
        has_rfc_variant(r),
{
    uuid::Uuid::new_v5(&uuid::Uuid::from_u128(namespace), name).as_u128()
}

/// Derives the identifier of a file from its bytes.
///
/// The same bytes give the same identifier, whatever the file is called.
pub fn content_identifier(bytes: &[u8]) -> (id: ContentIdentifier)
    ensures
        id.bits == content_id(bytes@),
        is_version_5_identifier(id.bits),
        is_uuid_v5(canonical_text(id.bits)),
{
    let bits = new_v5(NAMESPACE, bytes);
    proof {
        lemma_version_5_text_is_valid(bits);
    }
    ContentIdentifier { bits }
}

/// The identifier is determined by the content: the same bytes have the
/// same identifier, and therefore the same canonical text, whenever and
/// under whatever name they are uploaded.
pub proof fn lemma_same_content_same_identifier(first: Seq<u8>, second: Seq<u8>)
    requires
        first == second,
    ensures
        content_id(first) == content_id(second),
        canonical_text(content_id(first)) == canonical_text(content_id(second)),
{
}

} // verus!
