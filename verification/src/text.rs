//! The text form of a device address: 23 characters, two hexadecimal
//! digits per byte with one separator between each pair.  Parsing accepts
//! either letter case and any separator characters, and rejects any text
//! shorter than 23 characters.

use vstd::prelude::*;
use crate::Rom;

verus! {

/// The hexadecimal digit for a value below 16.
pub open spec fn hex_char(n: u8) -> char {
    if n == 0 {
        '0'
    } else if n == 1 {
        '1'
    } else if n == 2 {
        '2'
    } else if n == 3 {
        '3'
    } else if n == 4 {
        '4'
    } else if n == 5 {
        '5'
    } else if n == 6 {
        '6'
    } else if n == 7 {
        '7'
    } else if n == 8 {
        '8'
    } else if n == 9 {
        '9'
    } else if n == 10 {
        'A'
    } else if n == 11 {
        'B'
    } else if n == 12 {
        'C'
    } else if n == 13 {
        'D'
    } else if n == 14 {
        'E'
    } else {
        'F'
    }
}

/// The two digits of one byte.
pub open spec fn byte_text(x: u8) -> Seq<char> {
    seq![hex_char(x >> 4), hex_char(x & 0xF)]
}

/// The text of the first `n` bytes, separator between each pair of digits.
pub open spec fn rom_text_prefix(b: Seq<u8>, n: int) -> Seq<char>
    decreases n,
{
    if n <= 0 {
        Seq::empty()
    } else if n == 1 {
        byte_text(b[0])
    } else {
        rom_text_prefix(b, n - 1) + seq![':'] + byte_text(b[n - 1])
    }
}

/// The 23-character text of an 8-byte address.
pub open spec fn rom_text(b: Seq<u8>) -> Seq<char> {
    rom_text_prefix(b, 8)
}

/// A hexadecimal digit of either case.
pub open spec fn is_hex_digit(c: char) -> bool {
    (48 <= c as u32 && c as u32 <= 57) || (65 <= c as u32 && c as u32 <= 70) || (97 <= c as u32
        && c as u32 <= 102)
}

/// The value of a hexadecimal digit.
pub open spec fn hex_digit_val(c: char) -> u8 {
    if 48 <= c as u32 && c as u32 <= 57 {
        (c as u32 - 48) as u8
    } else if 65 <= c as u32 && c as u32 <= 70 {
        (c as u32 - 55) as u8
    } else {
        (c as u32 - 87) as u8
    }
}

/// Text that parses as an address: at least 23 characters, with both
/// digits of each of the 8 pairs hexadecimal.  The characters between the
/// pairs are not inspected.
pub open spec fn parse_ok(t: Seq<char>) -> bool {
    &&& t.len() >= 23
    &&& forall|k: int|
        0 <= k < 8 ==> is_hex_digit(#[trigger] t[3 * k]) && is_hex_digit(t[3 * k + 1])
}

/// The byte encoded by pair `k` of the text.
pub open spec fn byte_val(t: Seq<char>, k: int) -> u8 {
    (hex_digit_val(t[3 * k]) * 16 + hex_digit_val(t[3 * k + 1])) as u8
}

/// The 8 bytes encoded by a parsable text.
pub open spec fn parsed_bytes(t: Seq<char>) -> Seq<u8> {
    Seq::new(8, |k: int| byte_val(t, k))
}

/// Formatting then parsing is the identity: the text of any 8 bytes is 23
/// characters long, parses, and parses back to exactly those bytes.
pub proof fn lemma_text_round_trip(b: Seq<u8>)
    requires
        b.len() == 8,
    ensures
        rom_text(b).len() == 23,
        parse_ok(rom_text(b)),
        parsed_bytes(rom_text(b)) =~= b,
{
    let t = rom_text(b);
    lemma_prefix_shape(b, 8);
    assert forall|k: int| 0 <= k < 8 implies is_hex_digit(#[trigger] t[3 * k]) && is_hex_digit(
        t[3 * k + 1],
    ) && byte_val(t, k) == b[k] by {
        let x = b[k];
        assert(rom_text_prefix(b, 8)[3 * k] == hex_char(x >> 4));
        assert(rom_text_prefix(b, 8)[3 * k + 1] == hex_char(x & 0xF));
        assert((x >> 4) < 16 && (x & 0xF) < 16 && ((x >> 4) * 16 + (x & 0xF)) == x) by (bit_vector);
        lemma_hex_char_round_trip(x >> 4);
        lemma_hex_char_round_trip(x & 0xF);
    }
}

/// The digits of byte `k` stand at positions `3k` and `3k + 1` of the text
/// of the first `n` bytes, whose length is `3n - 1`.
proof fn lemma_prefix_shape(b: Seq<u8>, n: int)
    requires
        b.len() == 8,
        1 <= n <= 8,
    ensures
        rom_text_prefix(b, n).len() == 3 * n - 1,
        forall|k: int|
            0 <= k < n ==> #[trigger] rom_text_prefix(b, n)[3 * k] == hex_char(b[k] >> 4)
                && rom_text_prefix(b, n)[3 * k + 1] == hex_char(b[k] & 0xF),
    decreases n,
{
    if n > 1 {
        lemma_prefix_shape(b, n - 1);
    }
}

/// Every digit character is a hexadecimal digit and parses back to the
/// value it was written for.
proof fn lemma_hex_char_round_trip(h: u8)
    requires
        h < 16,
    ensures
        is_hex_digit(hex_char(h)),
        hex_digit_val(hex_char(h)) == h,
{
}

/// The digit value of one character, `None` when it is not a digit.
fn parse_hex_digit(c: char) -> (r: Option<u8>)
    ensures
        is_hex_digit(c) ==> r == Some(hex_digit_val(c)),
        !is_hex_digit(c) ==> r is None,
        r matches Some(v) ==> v < 16,
{
    let u = c as u32;
    if 48 <= u && u <= 57 {
        Some((u - 48) as u8)
    } else if 65 <= u && u <= 70 {
        Some((u - 55) as u8)
    } else if 97 <= u && u <= 102 {
        Some((u - 87) as u8)
    } else {
        None
    }
}

/// The byte at pair `k`: the digits at positions `3k` and `3k + 1`.
fn parse_byte_at(s: &str, k: usize) -> (r: Option<u8>)
    requires
        s@.len() >= 23,
        k < 8,
    ensures
        (is_hex_digit(s@[3 * k as int]) && is_hex_digit(s@[3 * k as int + 1])) ==> r == Some(
            byte_val(s@, k as int),
        ),
        !(is_hex_digit(s@[3 * k as int]) && is_hex_digit(s@[3 * k as int + 1])) ==> r is None,
{
    let hi = parse_hex_digit(s.get_char(3 * k));
    let lo = parse_hex_digit(s.get_char(3 * k + 1));
    match (hi, lo) {
        (Some(h), Some(l)) => Some(h * 16 + l),
        _ => None,
    }
}

impl Rom {
    /// Parse the 23-character text form; `None` for shorter text or a
    /// non-digit in any of the 8 pairs.
    pub fn from_text(s: &str) -> (r: Option<Rom>)
        ensures
            r matches Some(rom) ==> parse_ok(s@) && rom.0@ =~= parsed_bytes(s@),
            r is None ==> !parse_ok(s@),
    {
        if s.unicode_len() < 23 {
            return None;
        }
        let b0 = match parse_byte_at(s, 0) {
            Some(v) => v,
            None => {
                return None;
            },
        };
        let b1 = match parse_byte_at(s, 1) {
            Some(v) => v,
            None => {
                return None;
            },
        };
        let b2 = match parse_byte_at(s, 2) {
            Some(v) => v,
            None => {
                return None;
            },
        };
        let b3 = match parse_byte_at(s, 3) {
            Some(v) => v,
            None => {
                return None;
            },
        };
        let b4 = match parse_byte_at(s, 4) {
            Some(v) => v,
            None => {
                return None;
            },
        };
        let b5 = match parse_byte_at(s, 5) {
            Some(v) => v,
            None => {
                return None;
            },
        };
        let b6 = match parse_byte_at(s, 6) {
            Some(v) => v,
            None => {
                return None;
            },
        };
        let b7 = match parse_byte_at(s, 7) {
            Some(v) => v,
            None => {
                return None;
            },
        };
        Some(Rom([b0, b1, b2, b3, b4, b5, b6, b7]))
    }

    /// The 23-character text form, upper-case digits with `:` separators.
    pub fn to_text(&self) -> (s: String)
        ensures
            s@ == rom_text(self.0@),
    {
        let mut s = String::new();
        push_byte_text(&mut s, self.0[0]);
        let mut i: usize = 1;
        while i < 8
            invariant
                1 <= i <= 8,
                s@ =~= rom_text_prefix(self.0@, i as int),
            decreases 8 - i,
        {
            push_separator(&mut s);
            push_byte_text(&mut s, self.0[i]);
            i = i + 1;
        }
        s
    }
}

/// Append the two digits of one byte.
fn push_byte_text(s: &mut String, x: u8)
    ensures
        final(s)@ =~= old(s)@ + byte_text(x),
{
    proof {
        assert((x >> 4) < 16 && (x & 0xF) < 16) by (bit_vector);
    }
    push_hex_digit(s, x >> 4);
    push_hex_digit(s, x & 0xF);
}

/// Append the separator between two byte pairs.
fn push_separator(s: &mut String)
    ensures
        final(s)@ =~= old(s)@ + seq![':'],
{
    proof {
        reveal_strlit(":");
    }
    s.append(":");
}

/// Append one hexadecimal digit.
fn push_hex_digit(s: &mut String, n: u8)
    requires
        n < 16,
    ensures
        final(s)@ =~= old(s)@.push(hex_char(n)),
{
    proof {
        reveal_strlit("0");
        reveal_strlit("1");
        reveal_strlit("2");
        reveal_strlit("3");
        reveal_strlit("4");
        reveal_strlit("5");
        reveal_strlit("6");
        reveal_strlit("7");
        reveal_strlit("8");
        reveal_strlit("9");
        reveal_strlit("A");
        reveal_strlit("B");
        reveal_strlit("C");
        reveal_strlit("D");
        reveal_strlit("E");
        reveal_strlit("F");
    }
    match n {
        0 => s.append("0"),
        1 => s.append("1"),
        2 => s.append("2"),
        3 => s.append("3"),
        4 => s.append("4"),
        5 => s.append("5"),
        6 => s.append("6"),
        7 => s.append("7"),
        8 => s.append("8"),
        9 => s.append("9"),
        10 => s.append("A"),
        11 => s.append("B"),
        12 => s.append("C"),
        13 => s.append("D"),
        14 => s.append("E"),
        _ => s.append("F"),
    }
}

} // verus!
