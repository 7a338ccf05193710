//! The textual form of a hardware address: how it is recognised and written.

use vstd::prelude::*;

verus! {

/// Number of octets in a hardware address.
pub const MAC_OCTETS: usize = 6;

/// Number of characters in the text of a hardware address.
pub const MAC_TEXT_LEN: usize = 17;

/// `c` is one of `0-9`, `a-f`, `A-F`.
pub open spec fn is_hex_digit(c: char) -> bool {
    ('0' <= c && c <= '9') || ('a' <= c && c <= 'f') || ('A' <= c && c <= 'F')
}

/// `c` is one of `0-9`, `A-F`.
pub open spec fn is_upper_hex_digit(c: char) -> bool {
    ('0' <= c && c <= '9') || ('A' <= c && c <= 'F')
}

/// `s` is six groups of two hexadecimal digits with a colon between
/// neighbouring groups, and nothing else.
pub open spec fn mac_format(s: Seq<char>) -> bool {
    &&& s.len() == 17
    &&& forall|i: int|
        0 <= i < 17 ==> if i % 3 == 2 {
            s[i] == ':'
        } else {
            is_hex_digit(#[trigger] s[i])
        }
}

/// Tells whether `c` is a hexadecimal digit of either case.
pub fn hex_digit(c: char) -> (yes: bool)
    ensures
        yes == is_hex_digit(c),
{
    ('0' <= c && c <= '9') || ('a' <= c && c <= 'f') || ('A' <= c && c <= 'F')
}

/// Tells whether `mac` has the shape `XX:XX:XX:XX:XX:XX`. The case of the
/// digits is not looked at.
pub fn is_valid_mac(mac: &str) -> (ok: bool)
    ensures
        ok == mac_format(mac@),
{
    let mut i: usize = 0;
    for c in it: mac.chars()
        invariant
            it.seq() == mac@,
            i == it.index(),
            i <= 17,
            forall|j: int|
                0 <= j < i ==> if j % 3 == 2 {
                    mac@[j] == ':'
                } else {
                    is_hex_digit(#[trigger] mac@[j])
                },
    {
        if i >= 17 {
            return false;
        }
        let fits = if i % 3 == 2 {
            c == ':'
        } else {
            hex_digit(c)
        };
        if !fits {
            return false;
        }
        i += 1;
    }
    i == 17
}

/// The upper-case hexadecimal digit whose value is `d`, for `0 <= d < 16`.
pub open spec fn upper_hex(d: int) -> char {
    if d < 10 {
        ('0' as int + d) as char
    } else {
        ('A' as int + d - 10) as char
    }
}

/// The text of the address `bytes`: each octet as two upper-case hexadecimal
/// digits, high digit first, with a colon between neighbouring octets.
pub open spec fn mac_text(bytes: Seq<u8>) -> Seq<char> {
    Seq::new(
        17,
        |i: int|
            if i % 3 == 2 {
                ':'
            } else if i % 3 == 0 {
                upper_hex(bytes[i / 3] as int / 16)
            } else {
                upper_hex(bytes[i / 3] as int % 16)
            },
    )
}

/// No letter of `s` is lower-case: every character is a digit, one of
/// `A-F`, or a colon.
pub open spec fn is_upper_mac_text(s: Seq<char>) -> bool {
    forall|i: int| 0 <= i < s.len() ==> s[i] == ':' || is_upper_hex_digit(#[trigger] s[i])
}

/// The digit for a value below sixteen.
fn upper_hex_digit(d: u8) -> (c: char)
    requires
        d < 16,
    ensures
        c == upper_hex(d as int),
        is_upper_hex_digit(c),
{
    if d < 10 {
        (48u8 + d) as char
    } else {
        (65u8 + (d - 10)) as char
    }
}

/// Writes the first six bytes of `bytes` as `XX:XX:XX:XX:XX:XX`.
pub(crate) fn write_octets(bytes: &[u8]) -> (text: String)
    requires
        bytes@.len() >= 6,
    ensures
        text@ == mac_text(bytes@),
        mac_format(text@),
        is_upper_mac_text(text@),
{
    let mut text = String::new();
    let mut k: usize = 0;
    while k < 6
        invariant
            k <= 6,
            bytes@.len() >= 6,
            text@.len() == (if k == 0 {
                0
            } else {
                3 * k - 1
            }),
            forall|j: int| 0 <= j < text@.len() ==> text@[j] == mac_text(bytes@)[j],
        decreases 6 - k,
    {
        let b = bytes[k];
        if k > 0 {
            text.push(':');
        }
        text.push(upper_hex_digit(b / 16));
        text.push(upper_hex_digit(b % 16));
        k += 1;
    }
    proof {
        lemma_format_round_trip(bytes@);
        assert(text@ =~= mac_text(bytes@));
    }
    text
}

/// Writes a six-byte address as `XX:XX:XX:XX:XX:XX`.
pub fn format_mac(bytes: &[u8; 6]) -> (text: String)
    ensures
        text@ == mac_text(bytes@),
        mac_format(text@),
        is_upper_mac_text(text@),
{
    write_octets(bytes.as_slice())
}

/// Writing an address and reading the text back through the validator always
/// succeeds, and the text holds no lower-case letter.
pub proof fn lemma_format_round_trip(bytes: Seq<u8>)
    requires
        bytes.len() >= 6,
    ensures
        mac_format(mac_text(bytes)),
        is_upper_mac_text(mac_text(bytes)),
{
    let text = mac_text(bytes);
    assert forall|i: int| 0 <= i < 17 implies (text[i] == ':' && i % 3 == 2) || (
    is_upper_hex_digit(#[trigger] text[i]) && i % 3 != 2) by {
        let b = bytes[i / 3] as int;
        assert(0 <= b / 16 < 16);
        assert(0 <= b % 16 < 16);
    }
}

} // verus!
