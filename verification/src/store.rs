//! What the schema hands to the entity store: the key of an entity, the value
//! of its identifier, and the reading of identifiers that are written as
//! bytes.
//!
//! An identifier of type `Bytes` is written in hexadecimal: an optional `0x`
//! in front, then two digits for each byte, the high half first. Digits may
//! be in either case. No digits at all stand for no bytes.

use vstd::prelude::*;
use vstd::string::{is_ascii_spec_bytes, StringSliceAdditionalSpecFns};

verus! {

/// The key of an entity: the name of its type and its identifier as written.
#[derive(Debug, PartialEq, Eq)]
pub struct EntityKey {
    pub entity_type: String,
    pub entity_id: String,
}

/// The value of an identifier, as the store holds it.
#[derive(Debug, PartialEq, Eq)]
pub enum StoreValue {
    String(String),
    Bytes(Vec<u8>),
}

/// The view of a [`StoreValue`].
pub enum StoreValueView {
    String(Seq<char>),
    Bytes(Seq<u8>),
}

impl View for StoreValue {
    type V = StoreValueView;

    open spec fn view(&self) -> StoreValueView {
        match self {
            StoreValue::String(text) => StoreValueView::String(text@),
            StoreValue::Bytes(bytes) => StoreValueView::Bytes(bytes@),
        }
    }
}

/// Whether a character is one of the first 128.
pub open spec fn is_plain(c: char) -> bool {
    '\0' <= c <= '\u{7f}'
}

/// The value of a hexadecimal digit, in either case.
pub open spec fn hex_digit(c: char) -> Option<int> {
    if '0' <= c <= '9' {
        Some(c as u32 - '0' as u32)
    } else if 'a' <= c <= 'f' {
        Some(c as u32 - 'a' as u32 + 10)
    } else if 'A' <= c <= 'F' {
        Some(c as u32 - 'A' as u32 + 10)
    } else {
        None
    }
}

/// Whether the text starts with `0x`.
pub open spec fn has_hex_prefix(raw: Seq<char>) -> bool {
    raw.len() >= 2 && raw[0] == '0' && raw[1] == 'x'
}

/// The digits of a hexadecimal text: the text without its `0x`, if it has one.
pub open spec fn hex_digits(raw: Seq<char>) -> Seq<char> {
    if has_hex_prefix(raw) {
        raw.skip(2)
    } else {
        raw
    }
}

/// Whether the digits stand for whole bytes: an even number of them, each a
/// hexadecimal digit.
pub open spec fn is_hex(digits: Seq<char>) -> bool {
    &&& digits.len() % 2 == 0
    &&& forall|i: int| 0 <= i < digits.len() ==> hex_digit(#[trigger] digits[i]) is Some
}

/// The byte that two digits stand for, the high half first.
pub open spec fn hex_byte(high: char, low: char) -> u8 {
    (16 * hex_digit(high)->Some_0 + hex_digit(low)->Some_0) as u8
}

/// The bytes that a hexadecimal text stands for, if it is well formed.
pub open spec fn decode_hex(raw: Seq<char>) -> Option<Seq<u8>> {
    let digits = hex_digits(raw);
    if is_hex(digits) {
        Some(Seq::new(digits.len() / 2, |i: int| hex_byte(digits[2 * i], digits[2 * i + 1])))
    } else {
        None
    }
}

/// The value of the hexadecimal digit that a byte of text holds.
fn digit_value(b: u8) -> (r: Option<u8>)
    ensures
        b < 128 ==> match r {
            Some(v) => hex_digit(b as char) == Some(v as int) && v < 16,
            None => hex_digit(b as char) is None,
        },
{
    if b >= 48 && b <= 57 {
        Some(b - 48)
    } else if b >= 97 && b <= 102 {
        Some(b - 97 + 10)
    } else if b >= 65 && b <= 70 {
        Some(b - 65 + 10)
    } else {
        None
    }
}

/// Reads a hexadecimal text into the bytes it stands for.
pub fn parse_hex(raw: &str) -> (r: Option<Vec<u8>>)
    ensures
        match r {
            Some(bytes) => decode_hex(raw@) == Some(bytes@),
            None => decode_hex(raw@) is None,
        },
{
    if !raw.is_ascii() {
        proof {
            let at = choose|i: int| 0 <= i < raw@.len() && !is_plain(#[trigger] raw@[i]);
            if has_hex_prefix(raw@) {
                assert(hex_digits(raw@)[at - 2] == raw@[at]);
            }
        }
        return None;
    }
    let text = raw.as_bytes();
    proof {
        is_ascii_spec_bytes(raw);
    }
    assert(text@.len() == raw@.len());
    assert(forall|i: int| 0 <= i < text@.len() ==> text@[i] == (#[trigger] raw@[i]) as u8);
    let start: usize = if text.len() >= 2 && text[0] == 48 && text[1] == 120 {
        2
    } else {
        0
    };
    let ghost digits = hex_digits(raw@);
    assert(digits.len() == text@.len() - start);
    assert(forall|i: int| 0 <= i < digits.len() ==> #[trigger] digits[i] == raw@[i + start]);
    if (text.len() - start) % 2 != 0 {
        return None;
    }
    let mut bytes: Vec<u8> = Vec::new();
    let mut i: usize = start;
    while i < text.len()
        invariant
            start <= i <= text.len(),
            (i - start) % 2 == 0,
            (text.len() - start) % 2 == 0,
            digits == hex_digits(raw@),
            digits.len() == text@.len() - start,
            text@.len() == raw@.len(),
            forall|k: int| 0 <= k < text@.len() ==> text@[k] == (#[trigger] raw@[k]) as u8,
            forall|k: int| 0 <= k < raw@.len() ==> is_plain(#[trigger] raw@[k]),
            forall|k: int| 0 <= k < digits.len() ==> #[trigger] digits[k] == raw@[k + start],
            forall|k: int| 0 <= k < i - start ==> hex_digit(#[trigger] digits[k]) is Some,
            bytes@.len() == (i - start) / 2,
            forall|k: int|
                0 <= k < bytes@.len() ==> #[trigger] bytes@[k] == hex_byte(
                    digits[2 * k],
                    digits[2 * k + 1],
                ),
        decreases text.len() - i,
    {
        let ghost at = (i - start) as int;
        assert(digits[at] == raw@[i as int]);
        assert(digits[at + 1] == raw@[i + 1]);
        assert(text@[i as int] == raw@[i as int] as u8);
        assert(text@[i + 1] == raw@[i + 1] as u8);
        assert(text@[i as int] as char == raw@[i as int]);
        assert(text@[i + 1] as char == raw@[i + 1]);
        let high = match digit_value(text[i]) {
            Some(v) => v,
            None => {
                assert(hex_digit(digits[at]) is None);
                return None;
            },
        };
        let low = match digit_value(text[i + 1]) {
            Some(v) => v,
            None => {
                assert(hex_digit(digits[at + 1]) is None);
                return None;
            },
        };
        bytes.push(high * 16 + low);
        assert(bytes@[at / 2] == hex_byte(digits[2 * (at / 2)], digits[2 * (at / 2) + 1]));
        i += 2;
    }
    assert(is_hex(digits));
    assert(bytes@ =~= decode_hex(raw@)->Some_0);
    Some(bytes)
}

} // verus!
