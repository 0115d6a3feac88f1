//! Numbers and names as text, for the descriptions that the tags give of
//! themselves.

use crate::words::{le32, lemma_le_len};
use vstd::bytes::u32_to_le_bytes;
use vstd::prelude::*;
use vstd::string::*;

verus! {

/// The character for a digit below sixteen: `0` to `9`, then `a` to `f`.
pub open spec fn digit(n: int) -> char {
    if n < 10 {
        (n + 0x30) as char
    } else {
        (n + 0x57) as char
    }
}

/// `value` in base sixteen, in at least `digits` digits, with leading
/// zeros.
pub open spec fn hex_text(value: nat, digits: nat) -> Seq<char>
    decreases value + digits,
{
    if value < 16 && digits <= 1 {
        seq![digit(value as int)]
    } else {
        hex_text(
            value / 16,
            if digits > 0 {
                (digits - 1) as nat
            } else {
                0
            },
        ) + seq![digit(value as int % 16)]
    }
}

/// `value` in base ten.
pub open spec fn decimal_text(value: nat) -> Seq<char>
    decreases value,
{
    if value < 10 {
        seq![digit(value as int)]
    } else {
        decimal_text(value / 10) + seq![digit(value as int % 10)]
    }
}

/// The text that `bytes` are read as: the text that they encode in UTF-8,
/// with a replacement character where they encode none.
pub uninterp spec fn lossy_text(bytes: Seq<u8>) -> Seq<char>;

/// Whether every byte of `bytes` is an ASCII character.
pub open spec fn is_ascii_bytes(bytes: Seq<u8>) -> bool {
    forall|i: int| 0 <= i < bytes.len() ==> #[trigger] bytes[i] < 0x80
}

/// The name that a code spells: its four bytes, least significant first,
/// read as text.
pub open spec fn name_text(code: u32) -> Seq<char> {
    lossy_text(le32(code))
}

/// Calls `String::from_utf8_lossy`. The contract names the result, and
/// says of ASCII bytes what the documentation says of all valid UTF-8:
/// they are read as the characters that they are.
#[verifier::external_body]
fn lossy(bytes: &[u8]) -> (text: String)
    ensures
        text@ == lossy_text(bytes@),
        is_ascii_bytes(bytes@) ==> text@ == Seq::new(bytes@.len(), |i: int| bytes@[i] as char),
{
    String::from_utf8_lossy(bytes).into_owned()
}

/// The digit for `n` as text.
fn digit_str(n: u8) -> (text: &'static str)
    requires
        n < 16,
    ensures
        text@ == seq![digit(n as int)],
{
    proof {
        reveal_strlit("0");
        reveal_strlit("1");
        reveal_strlit("2");
        reveal_strlit("3");
        reveal_strlit("4");
        reveal_strlit("5");
        reveal_strlit("6");
        reveal_strlit("7");
        reveal_strlit("8");
        reveal_strlit("9");
        reveal_strlit("a");
        reveal_strlit("b");
        reveal_strlit("c");
        reveal_strlit("d");
        reveal_strlit("e");
        reveal_strlit("f");
    }
    let text = match n {
        0 => "0",
        1 => "1",
        2 => "2",
        3 => "3",
        4 => "4",
        5 => "5",
        6 => "6",
        7 => "7",
        8 => "8",
        9 => "9",
        10 => "a",
        11 => "b",
        12 => "c",
        13 => "d",
        14 => "e",
        _ => "f",
    };
    assert(text@ =~= seq![digit(n as int)]);
    text
}

/// Appends `value` in base sixteen, in at least `digits` digits.
pub fn push_hex(text: &mut String, value: u128, digits: u8)
    ensures
        final(text)@ == old(text)@ + hex_text(value as nat, digits as nat),
    decreases value + digits,
{
    if value >= 16 || digits > 1 {
        push_hex(text, value / 16, if digits > 0 {
            digits - 1
        } else {
            0
        });
    }
    text.append(digit_str((value % 16) as u8));
    assert(text@ =~= old(text)@ + hex_text(value as nat, digits as nat));
}

/// Appends `value` in base ten.
pub fn push_decimal(text: &mut String, value: u128)
    ensures
        final(text)@ == old(text)@ + decimal_text(value as nat),
    decreases value,
{
    if value >= 10 {
        push_decimal(text, value / 10);
    }
    text.append(digit_str((value % 10) as u8));
    assert(text@ =~= old(text)@ + decimal_text(value as nat));
}

/// The four bytes of a code as characters.
pub open spec fn code_chars(code: u32) -> Seq<char> {
    Seq::new(4, |i: int| le32(code)[i] as char)
}

/// Appends the name that `code` spells. A code of four ASCII bytes spells
/// the characters that they are.
pub fn push_name(text: &mut String, code: u32)
    ensures
        final(text)@ == old(text)@ + name_text(code),
        is_ascii_bytes(le32(code)) ==> name_text(code) == code_chars(code),
{
    let bytes = u32_to_le_bytes(code);
    proof {
        lemma_le_len();
    }
    let name = lossy(bytes.as_slice());
    assert(is_ascii_bytes(le32(code)) ==> name@ =~= code_chars(code));
    text.append(name.as_str());
}

} // verus!
