//! Decoding of UTF-16 code units into text, with a replacement character
//! where a surrogate stands alone.

use vstd::prelude::*;

verus! {

/// The character that stands for a code unit that cannot be decoded.
pub const REPLACEMENT: char = '\u{FFFD}';

/// `n` is a Unicode scalar value: a code point that is no surrogate.
pub open spec fn is_scalar(n: u32) -> bool {
    n <= 0xD7FF || 0xE000 <= n <= 0x10FFFF
}

/// `char::from_u32` of the standard library gives the character with the
/// code point `i`, and `None` where `i` is not a valid value for a `char`,
/// that is, a surrogate or above the last code point.
pub assume_specification[ char::from_u32 ](i: u32) -> (c: Option<char>)
    ensures
        c == (if is_scalar(i) {
            Some(i as char)
        } else {
            None
        }),
;

/// `u` is the first half of a surrogate pair.
pub open spec fn is_high_surrogate(u: u16) -> bool {
    0xD800 <= u <= 0xDBFF
}

/// `u` is the second half of a surrogate pair.
pub open spec fn is_low_surrogate(u: u16) -> bool {
    0xDC00 <= u <= 0xDFFF
}

/// The code point that a surrogate pair stands for.
pub open spec fn pair_scalar(high: u16, low: u16) -> u32 {
    (0x10000 + (high - 0xD800) * 0x400 + (low - 0xDC00)) as u32
}

/// The text of the code units of `units` from position `from` on. A
/// surrogate pair gives one character; a surrogate without its partner gives
/// the replacement character; every other unit gives the character with its
/// code point.
pub open spec fn decode_from(units: Seq<u16>, from: int) -> Seq<char>
    decreases units.len() - from,
{
    if from < 0 || from >= units.len() {
        Seq::empty()
    } else if is_high_surrogate(units[from]) && from + 1 < units.len() && is_low_surrogate(
        units[from + 1],
    ) {
        seq![pair_scalar(units[from], units[from + 1]) as char] + decode_from(units, from + 2)
    } else if is_high_surrogate(units[from]) || is_low_surrogate(units[from]) {
        seq![REPLACEMENT] + decode_from(units, from + 1)
    } else {
        seq![units[from] as char] + decode_from(units, from + 1)
    }
}

/// The text that the code units of `units` stand for.
pub open spec fn decode_lossy(units: Seq<u16>) -> Seq<char> {
    decode_from(units, 0)
}

/// Decodes UTF-16 code units. Nothing is refused: what cannot be decoded is
/// replaced.
pub fn decode_utf16_lossy(units: &[u16]) -> (text: String)
    ensures
        text@ == decode_lossy(units@),
{
    let len = units.len();
    let mut text = String::new();
    let mut i: usize = 0;
    while i < len
        invariant
            i <= len == units@.len(),
            decode_lossy(units@) == text@ + decode_from(units@, i as int),
        decreases len - i,
    {
        let ghost before = text@;
        let u = units[i];
        if 0xD800 <= u && u <= 0xDBFF && i + 1 < len && 0xDC00 <= units[i + 1] && units[i + 1]
            <= 0xDFFF {
            let low = units[i + 1];
            let n: u32 = 0x10000 + (u as u32 - 0xD800) * 0x400 + (low as u32 - 0xDC00);
            match char::from_u32(n) {
                Some(c) => text.push(c),
                None => text.push(REPLACEMENT),
            }
            assert(text@ == before.push(pair_scalar(u, low) as char));
            assert(decode_lossy(units@) =~= text@ + decode_from(units@, i + 2));
            i += 2;
        } else {
            if 0xD800 <= u && u <= 0xDFFF {
                text.push(REPLACEMENT);
            } else {
                match char::from_u32(u as u32) {
                    Some(c) => text.push(c),
                    None => text.push(REPLACEMENT),
                }
                assert(text@ == before.push(u as char));
            }
            assert(decode_lossy(units@) =~= text@ + decode_from(units@, i + 1));
            i += 1;
        }
    }
    assert(text@ + Seq::<char>::empty() =~= text@);
    text
}

} // verus!
