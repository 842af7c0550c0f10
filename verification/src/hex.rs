//! Hexadecimal text: the `0x`-prefixed lower-case form of a byte string, and
//! the reading of hexadecimal text back into bytes.

use vstd::prelude::*;
use vstd::string::StringExecFns;

verus! {

/// The lower-case hexadecimal digit for a value below 16.
pub open spec fn hex_digit(n: int) -> char {
    if n == 0 {
        '0'
    } else if n == 1 {
        '1'
    } else if n == 2 {
        '2'
    } else if n == 3 {
        '3'
    } else if n == 4 {
        '4'
    } else if n == 5 {
        '5'
    } else if n == 6 {
        '6'
    } else if n == 7 {
        '7'
    } else if n == 8 {
        '8'
    } else if n == 9 {
        '9'
    } else if n == 10 {
        'a'
    } else if n == 11 {
        'b'
    } else if n == 12 {
        'c'
    } else if n == 13 {
        'd'
    } else if n == 14 {
        'e'
    } else {
        'f'
    }
}

/// Two lower-case hexadecimal digits for each byte, in order.
pub open spec fn hex_chars(bytes: Seq<u8>) -> Seq<char>
    decreases bytes.len(),
{
    if bytes.len() == 0 {
        Seq::empty()
    } else {
        hex_chars(bytes.drop_last()).push(hex_digit(bytes.last() as int / 16)).push(
            hex_digit(bytes.last() as int % 16),
        )
    }
}

/// `0x` followed by the hexadecimal digits of `bytes`.
pub open spec fn hex_prefixed(bytes: Seq<u8>) -> Seq<char> {
    seq!['0', 'x'] + hex_chars(bytes)
}

/// The value of an ASCII hexadecimal digit, of either case.
pub open spec fn hex_value(c: u8) -> Option<u8> {
    if 48 <= c <= 57 {
        Some((c - 48) as u8)
    } else if 97 <= c <= 102 {
        Some((c - 87) as u8)
    } else if 65 <= c <= 70 {
        Some((c - 55) as u8)
    } else {
        None
    }
}

/// `text` without a leading `0x` or `0X`.
pub open spec fn strip_hex_prefix(text: Seq<u8>) -> Seq<u8> {
    if text.len() >= 2 && text[0] == 48 && (text[1] == 120 || text[1] == 88) {
        text.subrange(2, text.len() as int)
    } else {
        text
    }
}

/// Whether every byte of `digits` is a hexadecimal digit.
pub open spec fn all_hex_digits(digits: Seq<u8>) -> bool {
    forall|i: int| 0 <= i < digits.len() ==> (#[trigger] hex_value(digits[i])) is Some
}

/// The bytes that an even number of hexadecimal digits spell.
pub open spec fn hex_bytes(digits: Seq<u8>) -> Seq<u8> {
    Seq::new(
        digits.len() / 2,
        |i: int| (hex_value(digits[2 * i]).unwrap() * 16 + hex_value(digits[2 * i + 1]).unwrap()) as u8,
    )
}

/// The bytes that hexadecimal `text` spells: the text has an even length,
/// may start with `0x` or `0X`, and holds hexadecimal digits only.
pub open spec fn hex_decode_spec(text: Seq<u8>) -> Option<Seq<u8>> {
    if text.len() % 2 != 0 {
        None
    } else if all_hex_digits(strip_hex_prefix(text)) {
        Some(hex_bytes(strip_hex_prefix(text)))
    } else {
        None
    }
}

/// The one-character text of a hexadecimal digit.
pub fn hex_digit_str(n: u8) -> (s: &'static str)
    requires
        n < 16,
    ensures
        s@ == seq![hex_digit(n as int)],
{
    proof {
        reveal_strlit("0");
        reveal_strlit("1");
        reveal_strlit("2");
        reveal_strlit("3");
        reveal_strlit("4");
        reveal_strlit("5");
        reveal_strlit("6");
        reveal_strlit("7");
        reveal_strlit("8");
        reveal_strlit("9");
        reveal_strlit("a");
        reveal_strlit("b");
        reveal_strlit("c");
        reveal_strlit("d");
        reveal_strlit("e");
        reveal_strlit("f");
    }
    let s = if n == 0 {
        "0"
    } else if n == 1 {
        "1"
    } else if n == 2 {
        "2"
    } else if n == 3 {
        "3"
    } else if n == 4 {
        "4"
    } else if n == 5 {
        "5"
    } else if n == 6 {
        "6"
    } else if n == 7 {
        "7"
    } else if n == 8 {
        "8"
    } else if n == 9 {
        "9"
    } else if n == 10 {
        "a"
    } else if n == 11 {
        "b"
    } else if n == 12 {
        "c"
    } else if n == 13 {
        "d"
    } else if n == 14 {
        "e"
    } else {
        "f"
    };
    assert(s@ =~= seq![hex_digit(n as int)]);
    s
}

/// Writes `bytes` as `0x` followed by two lower-case digits per byte.
pub fn encode_prefixed(bytes: &[u8]) -> (s: String)
    ensures
        s@ == hex_prefixed(bytes@),
{
    proof {
        reveal_strlit("0x");
    }
    let mut s: String = String::from_str("0x");
    assert(s@ =~= seq!['0', 'x']);
    let mut i: usize = 0;
    while i < bytes.len()
        invariant
            i <= bytes.len(),
            s@ == seq!['0', 'x'] + hex_chars(bytes@.take(i as int)),
        decreases bytes.len() - i,
    {
        let b: u8 = bytes[i];
        s.append(hex_digit_str(b / 16));
        s.append(hex_digit_str(b % 16));
        proof {
            let next = bytes@.take(i + 1);
            assert(next.drop_last() =~= bytes@.take(i as int));
            assert(next.last() == b);
            assert(s@ =~= seq!['0', 'x'] + hex_chars(next));
        }
        i += 1;
    }
    assert(bytes@.take(i as int) =~= bytes@);
    s
}

fn nibble(c: u8) -> (res: Option<u8>)
    ensures
        res == hex_value(c),
        res matches Some(v) ==> v < 16,
{
    if 48 <= c && c <= 57 {
        Some(c - 48)
    } else if 97 <= c && c <= 102 {
        Some(c - 87)
    } else if 65 <= c && c <= 70 {
        Some(c - 55)
    } else {
        None
    }
}

/// Reads hexadecimal text. `None` when the text has an odd length or holds
/// anything but hexadecimal digits after an optional `0x` or `0X`.
pub fn decode(text: &[u8]) -> (res: Option<Vec<u8>>)
    ensures
        match res {
            Some(bytes) => hex_decode_spec(text@) == Some(bytes@) && 2 * bytes@.len() <= text@.len(),
            None => hex_decode_spec(text@) is None,
        },
{
    let n: usize = text.len();
    if n % 2 != 0 {
        return None;
    }
    let start: usize = if n >= 2 && text[0] == 48 && (text[1] == 120 || text[1] == 88) {
        2
    } else {
        0
    };
    let ghost digits = strip_hex_prefix(text@);
    assert(digits =~= text@.subrange(start as int, n as int));
    let mut out: Vec<u8> = Vec::new();
    let mut i: usize = start;
    while i < n
        invariant
            start <= i <= n,
            n == text.len(),
            (i - start) % 2 == 0,
            (n - start) % 2 == 0,
            digits == text@.subrange(start as int, n as int),
            digits == strip_hex_prefix(text@),
            out.len() == (i - start) / 2,
            forall|j: int| 0 <= j < i - start ==> (#[trigger] hex_value(digits[j])) is Some,
            forall|k: int| 0 <= k < out.len() ==> out[k] == hex_bytes(digits)[k],
        decreases n - i,
    {
        let hi = nibble(text[i]);
        let lo = nibble(text[i + 1]);
        match (hi, lo) {
            (Some(h), Some(l)) => {
                assert(digits[i - start] == text[i as int]);
                assert(digits[i + 1 - start] == text[i + 1]);
                out.push(h * 16 + l);
                assert(2 * ((i - start) / 2) == i - start);
            },
            _ => {
                assert(digits[i - start] == text[i as int]);
                assert(digits[i + 1 - start] == text[i + 1]);
                assert(hex_value(digits[i - start]) is None || hex_value(digits[i + 1 - start]) is None);
                return None;
            },
        }
        i += 2;
    }
    assert(out@ =~= hex_bytes(digits));
    Some(out)
}

} // verus!
