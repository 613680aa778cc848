//! Hexadecimal digits and fixed-width big-endian hexadecimal fields of a
//! line of text.

use vstd::prelude::*;

verus! {

/// A character that stands for a hexadecimal digit.
pub open spec fn is_hex_digit(c: char) -> bool {
    ('0' as int <= c as int && c as int <= '9' as int) || ('a' as int <= c as int && c as int
        <= 'f' as int) || ('A' as int <= c as int && c as int <= 'F' as int)
}

/// The numeric value of a hexadecimal digit character, and 0 on any other
/// character.
pub open spec fn hex_digit_value(c: char) -> nat {
    if '0' as int <= c as int && c as int <= '9' as int {
        (c as int - '0' as int) as nat
    } else if 'a' as int <= c as int && c as int <= 'f' as int {
        (c as int - 'a' as int + 10) as nat
    } else if 'A' as int <= c as int && c as int <= 'F' as int {
        (c as int - 'A' as int + 10) as nat
    } else {
        0
    }
}

/// Every character of the `width`-wide field of `s` starting at `start` is a
/// hexadecimal digit.
pub open spec fn hex_field_ok(s: Seq<char>, start: int, width: int) -> bool {
    forall|i: int| start <= i < start + width ==> is_hex_digit(#[trigger] s[i])
}

/// The value of the `width`-wide big-endian hexadecimal field of `s` starting
/// at `start`.
pub open spec fn hex_field_value(s: Seq<char>, start: int, width: int) -> nat
    decreases width,
{
    if width <= 0 {
        0
    } else {
        hex_field_value(s, start, width - 1) * 16 + hex_digit_value(s[start + width - 1])
    }
}

/// 16 to the power `width`: one more than the largest value a field of that
/// width can hold.
pub open spec fn pow16(width: int) -> nat
    decreases width,
{
    if width <= 0 {
        1
    } else {
        16 * pow16(width - 1)
    }
}

/// A hexadecimal field's value is below 16 to the power of its width.
pub proof fn lemma_hex_field_value_bound(s: Seq<char>, start: int, width: int)
    requires
        0 <= width,
    ensures
        hex_field_value(s, start, width) < pow16(width),
    decreases width,
{
    if width > 0 {
        lemma_hex_field_value_bound(s, start, width - 1);
    }
}

/// Two fields that hold the same characters have the same value.
pub proof fn lemma_hex_field_value_agree(s1: Seq<char>, start1: int, s2: Seq<char>, start2: int, width: int)
    requires
        forall|i: int| 0 <= i < width ==> #[trigger] s1[start1 + i] == s2[start2 + i],
    ensures
        hex_field_value(s1, start1, width) == hex_field_value(s2, start2, width),
    decreases width,
{
    if width > 0 {
        lemma_hex_field_value_agree(s1, start1, s2, start2, width - 1);
    }
}

/// The numeric value of one hexadecimal digit character, or `None` on any
/// other character.
pub fn hex_digit_of(c: char) -> (r: Option<u8>)
    ensures
        is_hex_digit(c) ==> r == Some(hex_digit_value(c) as u8),
        !is_hex_digit(c) ==> r is None,
{
    let code = c as u32;
    if 48 <= code && code <= 57 {
        Some((code - 48) as u8)
    } else if 97 <= code && code <= 102 {
        Some((code - 97 + 10) as u8)
    } else if 65 <= code && code <= 70 {
        Some((code - 65 + 10) as u8)
    } else {
        None
    }
}

/// Reads the `width`-wide hexadecimal field of `s` starting at character
/// offset `start`, or returns `None` when any character of the field is not a
/// hexadecimal digit.
pub fn parse_hex_field(s: &str, start: usize, width: usize) -> (r: Option<u32>)
    requires
        start + width <= s@.len(),
        start + width <= usize::MAX,
        width <= 4,
    ensures
        r is Some <==> hex_field_ok(s@, start as int, width as int),
        hex_field_ok(s@, start as int, width as int) ==> r == Some(
            hex_field_value(s@, start as int, width as int) as u32,
        ),
{
    let mut value: u32 = 0;
    let mut i: usize = 0;
    while i < width
        invariant
            i <= width,
            width <= 4,
            start + width <= s@.len(),
            start + width <= usize::MAX,
            forall|j: int| start <= j < start + i ==> is_hex_digit(#[trigger] s@[j]),
            value == hex_field_value(s@, start as int, i as int),
        decreases width - i,
    {
        proof {
            lemma_hex_field_value_bound(s@, start as int, i as int);
            assert(pow16(0) == 1);
            assert(pow16(1) == 16);
            assert(pow16(2) == 256);
            assert(pow16(3) == 4096);
            assert(value < 4096);
        }
        let c = s.get_char(start + i);
        match hex_digit_of(c) {
            None => {
                proof {
                    assert(!is_hex_digit(s@[start + i as int]));
                }
                return None;
            },
            Some(d) => {
                value = value * 16 + d as u32;
            },
        }
        i = i + 1;
    }
    Some(value)
}

} // verus!
