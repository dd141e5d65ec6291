//! The integer literals of the emitted text, written so that they read back
//! as the values they stand for.

use vstd::prelude::*;
use vstd::string::*;
use vstd::utf8::{encode_utf8, is_ascii_chars, is_ascii_chars_encode_utf8};
use crate::flags_type::FlagsType;
use crate::utils::{
    digit_value, digits_value, is_suffix_start, is_width_suffix, lemma_digits_len, literal_radix,
    number_of_literal, valid_tail, Radix, DIGIT_0, UPPER_A,
};

verus! {

/// The ASCII code of a hexadecimal digit, letters in upper case.
pub open spec fn hex_byte(digit: nat) -> u8 {
    if digit < 10 {
        (DIGIT_0 + digit) as u8
    } else {
        (UPPER_A + digit - 10) as u8
    }
}

/// The hexadecimal digits of a number, most significant first, without
/// leading zeros; zero is written `0`.
pub open spec fn hex_digits(value: nat) -> Seq<char>
    decreases value,
{
    if value < 16 {
        seq![hex_byte(value) as char]
    } else {
        hex_digits(value / 16).push(hex_byte(value % 16) as char)
    }
}

/// The literal that stands for `value` in the emitted text: `0x`, the
/// hexadecimal digits, and the storage type as its suffix.
pub open spec fn value_literal(value: u128, flags_type: FlagsType) -> Seq<char> {
    "0x"@ + hex_digits(value as nat) + flags_type.keyword()
}

/// The bytes of a text made of ASCII characters.
pub open spec fn ascii_bytes(text: Seq<char>) -> Seq<u8> {
    Seq::new(text.len(), |i: int| text[i] as u8)
}

fn hex_digit(digit: u8) -> (text: &'static str)
    requires
        digit < 16,
    ensures
        text@ == seq![hex_byte(digit as nat) as char],
{
    proof {
        reveal_strlit("0");
        reveal_strlit("1");
        reveal_strlit("2");
        reveal_strlit("3");
        reveal_strlit("4");
        reveal_strlit("5");
        reveal_strlit("6");
        reveal_strlit("7");
        reveal_strlit("8");
        reveal_strlit("9");
        reveal_strlit("A");
        reveal_strlit("B");
        reveal_strlit("C");
        reveal_strlit("D");
        reveal_strlit("E");
        reveal_strlit("F");
    }
    let text = match digit {
        0 => "0",
        1 => "1",
        2 => "2",
        3 => "3",
        4 => "4",
        5 => "5",
        6 => "6",
        7 => "7",
        8 => "8",
        9 => "9",
        10 => "A",
        11 => "B",
        12 => "C",
        13 => "D",
        14 => "E",
        _ => "F",
    };
    assert(text@ =~= seq![hex_byte(digit as nat) as char]);
    text
}

fn push_hex(out: &mut String, value: u128)
    ensures
        final(out)@ == old(out)@ + hex_digits(value as nat),
    decreases value,
{
    if value >= 16 {
        push_hex(out, value / 16);
    }
    out.append(hex_digit((value % 16) as u8));
    proof {
        assert(out@ =~= old(out)@ + hex_digits(value as nat));
    }
}

/// Every hexadecimal digit that is written is read as the same digit, and
/// the digits read back as the number.
proof fn lemma_hex_digits_value(value: nat)
    ensures
        hex_digits(value).len() > 0,
        is_ascii_chars(hex_digits(value)),
        forall|i: int|
            0 <= i < hex_digits(value).len() ==> digit_value(
                #[trigger] ascii_bytes(hex_digits(value))[i],
                Radix::Hexadecimal,
            ) is Some,
        digits_value(ascii_bytes(hex_digits(value)), Radix::Hexadecimal) == value,
    decreases value,
{
    let digits = hex_digits(value);
    let bytes = ascii_bytes(digits);
    let last = hex_byte(value % 16);
    assert(last as char as u8 == last);
    assert(digit_value(last, Radix::Hexadecimal) == Some(value % 16));
    if value < 16 {
        assert(bytes =~= seq![last]);
        assert(bytes.drop_last() =~= Seq::<u8>::empty());
        assert(digits_value(bytes.drop_last(), Radix::Hexadecimal) == 0);
    } else {
        lemma_hex_digits_value(value / 16);
        let front = hex_digits(value / 16);
        assert(digits =~= front.push(last as char));
        assert(bytes.drop_last() =~= ascii_bytes(front));
        assert(bytes.last() == last);
        assert forall|i: int| 0 <= i < digits.len() implies digit_value(
            #[trigger] bytes[i],
            Radix::Hexadecimal,
        ) is Some by {
            if i < front.len() {
                assert(bytes[i] == ascii_bytes(front)[i]);
            }
        }
    }
}

/// The literal written for a value reads back as that value.
pub proof fn lemma_literal_round_trip(value: u128, flags_type: FlagsType)
    ensures
        is_ascii_chars(value_literal(value, flags_type)),
        number_of_literal(ascii_bytes(value_literal(value, flags_type))) == Some(value),
{
    reveal_strlit("0x");
    reveal_strlit("u8");
    reveal_strlit("u16");
    reveal_strlit("u32");
    reveal_strlit("u64");
    reveal_strlit("u128");
    let digits = hex_digits(value as nat);
    let suffix = flags_type.keyword();
    let literal = value_literal(value, flags_type);
    let text = ascii_bytes(literal);
    lemma_hex_digits_value(value as nat);
    let n = digits.len() as int;
    assert(literal.len() == 2 + n + suffix.len());
    assert(is_ascii_chars(literal)) by {
        assert forall|i: int| 0 <= i < literal.len() implies '\0' <= #[trigger] literal[i]
            <= '\u{7f}' by {
            if 2 <= i < 2 + n {
                assert(literal[i] == digits[i - 2]);
            }
        }
    }
    assert(literal_radix(text) == (Radix::Hexadecimal, 2int));
    let body = text.skip(2);
    assert(body =~= ascii_bytes(digits) + ascii_bytes(suffix));
    assert forall|j: int| 0 <= j < n implies digit_value(
        #[trigger] body[j],
        Radix::Hexadecimal,
    ) is Some by {
        assert(body[j] == ascii_bytes(digits)[j]);
    }
    assert(body[n] == ascii_bytes(suffix)[0]);
    assert(is_suffix_start(body[n]));
    assert(digit_value(body[n], Radix::Hexadecimal) is None);
    lemma_digits_len(body, Radix::Hexadecimal, n);
    assert(body.take(n) =~= ascii_bytes(digits));
    let tail = body.skip(n);
    assert(tail =~= ascii_bytes(suffix));
    assert(is_width_suffix(tail.drop_first()));
    assert(valid_tail(tail));
}

/// Writes the literal that stands for `value` in the emitted text. Read as
/// an integer literal, it has the value `value`.
pub fn format_literal(value: u128, flags_type: FlagsType) -> (text: String)
    ensures
        text@ == value_literal(value, flags_type),
        number_of_literal(encode_utf8(text@)) == Some(value),
{
    let mut text = String::from_str("0x");
    push_hex(&mut text, value);
    text.append(flags_type.as_str());
    proof {
        lemma_literal_round_trip(value, flags_type);
        is_ascii_chars_encode_utf8(text@);
        assert(encode_utf8(text@) =~= ascii_bytes(text@));
    }
    text
}

} // verus!
