use vstd::prelude::*;

use crate::error::ConvertError;

verus! {

/// The value of one hexadecimal digit, in either case.
pub open spec fn hex_value(c: char) -> Option<int> {
    if '0' <= c <= '9' {
        Some(c as int - '0' as int)
    } else if 'a' <= c <= 'f' {
        Some(c as int - 'a' as int + 10)
    } else if 'A' <= c <= 'F' {
        Some(c as int - 'A' as int + 10)
    } else {
        None
    }
}

/// The digits of a color literal: the text after one leading `#`, if any.
pub open spec fn color_digits(s: Seq<char>) -> Seq<char> {
    if s.len() > 0 && s[0] == '#' {
        s.skip(1)
    } else {
        s
    }
}

pub open spec fn all_hex(d: Seq<char>) -> bool {
    forall|i: int| 0 <= i < d.len() ==> (#[trigger] hex_value(d[i])) is Some
}

/// The channel bytes of a color literal: with 3 or 4 digits each digit `x`
/// is the byte `0xxx`; with 6 or 8 digits each pair is one byte.
pub open spec fn color_bytes(s: Seq<char>) -> Option<Seq<u8>> {
    let d = color_digits(s);
    if !all_hex(d) {
        None
    } else if d.len() == 3 || d.len() == 4 {
        Some(Seq::new(d.len(), |i: int| (hex_value(d[i])->0 * 17) as u8))
    } else if d.len() == 6 || d.len() == 8 {
        Some(
            Seq::new(
                d.len() / 2,
                |i: int| (hex_value(d[2 * i])->0 * 16 + hex_value(d[2 * i + 1])->0) as u8,
            ),
        )
    } else {
        None
    }
}

fn hex_digit(c: char) -> (r: Option<u8>)
    ensures
        hex_value(c) is None ==> r is None,
        hex_value(c) matches Some(v) ==> r == Some(v as u8) && v < 16,
{
    if '0' <= c && c <= '9' {
        Some(((c as u32) - ('0' as u32)) as u8)
    } else if 'a' <= c && c <= 'f' {
        Some(((c as u32) - ('a' as u32) + 10) as u8)
    } else if 'A' <= c && c <= 'F' {
        Some(((c as u32) - ('A' as u32) + 10) as u8)
    } else {
        None
    }
}

/// The channel bytes of a hex color literal (`#RGB`, `#RGBA`, `#RRGGBB`,
/// `#RRGGBBAA`, the `#` optional).
pub fn resolve_hex_color(hex_color: &str) -> (r: Result<Vec<u8>, ConvertError>)
    ensures
        color_bytes(hex_color@) is None ==> r == Err::<Vec<u8>, ConvertError>(
            ConvertError::InvalidHexColor,
        ),
        color_bytes(hex_color@) matches Some(b) ==> r is Ok && r->Ok_0@ == b,
{
    let total = hex_color.unicode_len();
    let start: usize = if total > 0 && hex_color.get_char(0) == '#' {
        1
    } else {
        0
    };
    let ghost d = color_digits(hex_color@);
    let size = total - start;
    assert(d.len() == size);
    assert(forall|i: int| 0 <= i < size ==> d[i] == hex_color@[start + i]);
    if !(size == 3 || size == 4 || size == 6 || size == 8) {
        return Err(ConvertError::InvalidHexColor);
    }
    let mut digits: Vec<u8> = Vec::new();
    let mut i: usize = 0;
    while i < size
        invariant
            total == hex_color@.len(),
            size == total - start,
            d == color_digits(hex_color@),
            d.len() == size,
            forall|k: int| 0 <= k < size ==> d[k] == hex_color@[start + k],
            i <= size,
            digits@.len() == i,
            forall|k: int|
                0 <= k < i ==> hex_value(d[k]) == Some(#[trigger] digits@[k] as int) && digits@[k] < 16,
        decreases size - i,
    {
        match hex_digit(hex_color.get_char(start + i)) {
            Some(v) => digits.push(v),
            None => {
                assert(d[i as int] == hex_color@[start + i]);
                assert(hex_value(d[i as int]) is None);
                assert(!all_hex(d));
                return Err(ConvertError::InvalidHexColor);
            },
        }
        i = i + 1;
    }
    assert forall|k: int| 0 <= k < d.len() implies (#[trigger] hex_value(d[k])) is Some by {
        assert(hex_value(d[k]) == Some(digits@[k] as int));
    }
    assert(all_hex(d));
    let mut bytes: Vec<u8> = Vec::new();
    if size == 3 || size == 4 {
        let mut k: usize = 0;
        while k < size
            invariant
                digits@.len() == size,
                size == 3 || size == 4,
                forall|j: int| 0 <= j < size ==> #[trigger] digits@[j] < 16,
                k <= size,
                bytes@.len() == k,
                forall|j: int| 0 <= j < k ==> #[trigger] bytes@[j] == (digits@[j] * 17) as u8,
            decreases size - k,
        {
            bytes.push(digits[k] * 17);
            k = k + 1;
        }
        let ghost want = Seq::new(d.len(), |j: int| (hex_value(d[j])->0 * 17) as u8);
        assert(bytes@ =~= want);
    } else {
        let half = size / 2;
        let mut k: usize = 0;
        while k < half
            invariant
                digits@.len() == size,
                half == size / 2,
                size == 6 || size == 8,
                forall|j: int| 0 <= j < size ==> #[trigger] digits@[j] < 16,
                k <= half,
                bytes@.len() == k,
                forall|j: int|
                    0 <= j < k ==> #[trigger] bytes@[j] == (digits@[2 * j] * 16 + digits@[2 * j
                        + 1]) as u8,
            decreases half - k,
        {
            bytes.push(digits[2 * k] * 16 + digits[2 * k + 1]);
            k = k + 1;
        }
        let ghost want = Seq::new(
            d.len() / 2,
            |j: int| (hex_value(d[2 * j])->0 * 16 + hex_value(d[2 * j + 1])->0) as u8,
        );
        assert(bytes@ =~= want);
    }
    Ok(bytes)
}

} // verus!
