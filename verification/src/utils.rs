//! The hasher of names, the validator of names, and the parser of integer
//! literals.

use vstd::prelude::*;
use vstd::slice::slice_subrange;
use vstd::string::*;
use vstd::utf8::{encode_utf8, encode_utf8_decode_utf8};

verus! {

/// Code returned by the digit classifiers for a byte that starts a type suffix.
pub const SUFFIX_MARKER: u8 = 254;

/// Code returned by the digit classifiers for a byte that is neither a digit
/// nor the start of a type suffix.
pub const UNKNOWN_CHAR: u8 = 255;

/// Offset basis of the 64-bit FNV-1a hash.
pub const FNV_OFFSET_BASIS: u64 = 0xcbf29ce484222325;

/// Prime of the 64-bit FNV-1a hash.
pub const FNV_PRIME: u64 = 0x00000100000001B3;

// ASCII codes of the bytes that the parsers tell apart.
pub const DIGIT_0: u8 = 0x30;

pub const DIGIT_1: u8 = 0x31;

pub const DIGIT_2: u8 = 0x32;

pub const DIGIT_3: u8 = 0x33;

pub const DIGIT_4: u8 = 0x34;

pub const DIGIT_6: u8 = 0x36;

pub const DIGIT_7: u8 = 0x37;

pub const DIGIT_8: u8 = 0x38;

pub const DIGIT_9: u8 = 0x39;

pub const UPPER_A: u8 = 0x41;

pub const UPPER_F: u8 = 0x46;

pub const UPPER_Z: u8 = 0x5A;

pub const LOWER_A: u8 = 0x61;

pub const LOWER_B: u8 = 0x62;

pub const LOWER_F: u8 = 0x66;

pub const LOWER_I: u8 = 0x69;

pub const LOWER_O: u8 = 0x6F;

pub const LOWER_U: u8 = 0x75;

pub const LOWER_X: u8 = 0x78;

// ---------------------------------------------------------------------------
// Text
// ---------------------------------------------------------------------------

/// Tells whether two strings hold the same text.
pub fn same_text(a: &str, b: &str) -> (same: bool)
    ensures
        same == (a@ == b@),
{
    let left = a.as_bytes();
    let right = b.as_bytes();
    if left.len() != right.len() {
        return false;
    }
    let mut index: usize = 0;
    while index < left.len()
        invariant
            index <= left.len(),
            left.len() == right.len(),
            left@ == encode_utf8(a@),
            right@ == encode_utf8(b@),
            forall|j: int| 0 <= j < index ==> left@[j] == right@[j],
        decreases left.len() - index,
    {
        if left[index] != right[index] {
            return false;
        }
        index += 1;
    }
    proof {
        assert(left@ =~= right@);
        encode_utf8_decode_utf8(a@);
        encode_utf8_decode_utf8(b@);
    }
    true
}

// ---------------------------------------------------------------------------
// Name hasher
// ---------------------------------------------------------------------------

/// ASCII case folding: upper-case letters map to lower case, every other
/// byte is left as it is.
pub open spec fn lower_case(byte: u8) -> u8 {
    if UPPER_A <= byte <= UPPER_Z {
        (byte + 0x20) as u8
    } else {
        byte
    }
}

/// One round of FNV-1a over the case-folded byte.
pub open spec fn fnv_step(hash: u64, byte: u8) -> u64 {
    (hash ^ (lower_case(byte) as u64)).wrapping_mul(FNV_PRIME)
}

/// FNV-1a over the case-folded bytes, first byte first.
pub open spec fn fnv_fold(bytes: Seq<u8>) -> u64
    decreases bytes.len(),
{
    if bytes.len() == 0 {
        FNV_OFFSET_BASIS
    } else {
        fnv_step(fnv_fold(bytes.drop_last()), bytes.last())
    }
}

/// The case-insensitive fingerprint of a name. The empty name has
/// fingerprint 0.
pub open spec fn string_hash(bytes: Seq<u8>) -> u64 {
    if bytes.len() == 0 {
        0
    } else {
        fnv_fold(bytes)
    }
}

/// Two byte strings are the same name up to ASCII letter case.
pub open spec fn same_ignoring_case(a: Seq<u8>, b: Seq<u8>) -> bool {
    &&& a.len() == b.len()
    &&& forall|i: int| 0 <= i < a.len() ==> lower_case(#[trigger] a[i]) == lower_case(b[i])
}

/// Folds an upper-case ASCII letter to lower case.
pub fn to_lower_case(byte: u8) -> (folded: u8)
    ensures
        folded == lower_case(byte),
{
    if UPPER_A <= byte && byte <= UPPER_Z {
        byte + 0x20
    } else {
        byte
    }
}

/// Computes the case-insensitive 64-bit FNV-1a fingerprint of a name.
pub fn compute_string_hash(buf: &[u8]) -> (hash: u64)
    ensures
        hash == string_hash(buf@),
{
    if buf.len() == 0 {
        return 0;
    }
    let mut hash: u64 = FNV_OFFSET_BASIS;
    let mut idx: usize = 0;
    while idx < buf.len()
        invariant
            idx <= buf.len(),
            hash == fnv_fold(buf@.take(idx as int)),
        decreases buf.len() - idx,
    {
        proof {
            assert(buf@.take(idx + 1).drop_last() =~= buf@.take(idx as int));
        }
        hash = hash ^ (to_lower_case(buf[idx]) as u64);
        hash = hash.wrapping_mul(FNV_PRIME);
        idx += 1;
    }
    proof {
        assert(buf@.take(idx as int) =~= buf@);
    }
    hash
}

/// Names that differ only in the case of their ASCII letters have the same
/// fingerprint.
pub proof fn lemma_hash_ignores_case(a: Seq<u8>, b: Seq<u8>)
    requires
        same_ignoring_case(a, b),
    ensures
        string_hash(a) == string_hash(b),
{
    lemma_fold_ignores_case(a, b);
}

proof fn lemma_fold_ignores_case(a: Seq<u8>, b: Seq<u8>)
    requires
        same_ignoring_case(a, b),
    ensures
        fnv_fold(a) == fnv_fold(b),
    decreases a.len(),
{
    if a.len() > 0 {
        assert(lower_case(a[a.len() - 1]) == lower_case(b[a.len() - 1]));
        assert forall|i: int| 0 <= i < a.drop_last().len() implies lower_case(
            #[trigger] a.drop_last()[i],
        ) == lower_case(b.drop_last()[i]) by {
            assert(lower_case(a[i]) == lower_case(b[i]));
        }
        lemma_fold_ignores_case(a.drop_last(), b.drop_last());
    }
}

// ---------------------------------------------------------------------------
// Identifier validator
// ---------------------------------------------------------------------------

/// An ASCII letter of either case.
pub open spec fn is_ascii_letter(c: char) -> bool {
    ('A' <= c && c <= 'Z') || ('a' <= c && c <= 'z')
}

/// An ASCII decimal digit.
pub open spec fn is_ascii_digit(c: char) -> bool {
    '0' <= c && c <= '9'
}

/// A legal name is not empty, is made of ASCII letters, digits and
/// underscores, and does not start with a digit.
pub open spec fn is_valid_name(name: Seq<char>) -> bool {
    &&& name.len() > 0
    &&& !is_ascii_digit(name[0])
    &&& forall|i: int|
        0 <= i < name.len() ==> {
            let c = #[trigger] name[i];
            is_ascii_letter(c) || is_ascii_digit(c) || c == '_'
        }
}

/// Tells whether `name` is a legal name for a variant.
pub fn validate_enum_variant_name(name: &str) -> (valid: bool)
    ensures
        valid == is_valid_name(name@),
{
    let mut valid = true;
    let mut empty = true;
    for ch in it: name.chars()
        invariant
            it.seq() == name@,
            empty == (it.index() == 0),
            valid == ((it.index() > 0 ==> !is_ascii_digit(name@[0])) && forall|i: int|
                0 <= i < it.index() ==> {
                    let c = #[trigger] name@[i];
                    is_ascii_letter(c) || is_ascii_digit(c) || c == '_'
                }),
    {
        if (ch >= 'A' && ch <= 'Z') || (ch >= 'a' && ch <= 'z') || ch == '_' {
        } else if ch >= '0' && ch <= '9' {
            if empty {
                valid = false;
            }
        } else {
            valid = false;
        }
        empty = false;
    }
    valid && !empty
}

// ---------------------------------------------------------------------------
// Numeric literal parser
// ---------------------------------------------------------------------------

/// The base in which the digits of a literal are written.
#[derive(Clone, Copy, PartialEq, Eq, Structural, Debug)]
pub enum Radix {
    Binary,
    Octal,
    Decimal,
    Hexadecimal,
}

impl Radix {
    /// The number of digits of the base.
    pub open spec fn base(self) -> nat {
        match self {
            Radix::Binary => 2,
            Radix::Octal => 8,
            Radix::Decimal => 10,
            Radix::Hexadecimal => 16,
        }
    }

    /// The number of digits of the base.
    pub fn value(&self) -> (base: u128)
        ensures
            base == self.base(),
    {
        match self {
            Radix::Binary => 2,
            Radix::Octal => 8,
            Radix::Decimal => 10,
            Radix::Hexadecimal => 16,
        }
    }
}

/// The value of a byte read as a hexadecimal digit, in either letter case.
pub open spec fn hex_digit_value(ch: u8) -> Option<nat> {
    if DIGIT_0 <= ch <= DIGIT_9 {
        Some((ch - DIGIT_0) as nat)
    } else if LOWER_A <= ch <= LOWER_F {
        Some((ch - LOWER_A + 10) as nat)
    } else if UPPER_A <= ch <= UPPER_F {
        Some((ch - UPPER_A + 10) as nat)
    } else {
        None
    }
}

/// The value of a byte read as a digit of the given base, if it is one.
pub open spec fn digit_value(ch: u8, radix: Radix) -> Option<nat> {
    match hex_digit_value(ch) {
        Some(d) => if d < radix.base() {
            Some(d)
        } else {
            None
        },
        None => None,
    }
}

/// A type suffix starts with `u` or `i`.
pub open spec fn is_suffix_start(ch: u8) -> bool {
    ch == LOWER_U || ch == LOWER_I
}

/// What a digit classifier returns for a byte: the digit's value, or one of
/// the two marker codes.
pub open spec fn digit_code(ch: u8, radix: Radix) -> u8 {
    match digit_value(ch, radix) {
        Some(d) => d as u8,
        None => if is_suffix_start(ch) {
            SUFFIX_MARKER
        } else {
            UNKNOWN_CHAR
        },
    }
}

/// The width part of a type suffix: one of `8`, `16`, `32`, `64`, `128`.
pub open spec fn is_width_suffix(suffix: Seq<u8>) -> bool {
    ||| suffix =~= seq![DIGIT_8]
    ||| suffix =~= seq![DIGIT_1, DIGIT_6]
    ||| suffix =~= seq![DIGIT_3, DIGIT_2]
    ||| suffix =~= seq![DIGIT_6, DIGIT_4]
    ||| suffix =~= seq![DIGIT_1, DIGIT_2, DIGIT_8]
}

/// Length of the longest prefix of `text` made of digits of the base.
pub open spec fn digits_len(text: Seq<u8>, radix: Radix) -> nat
    decreases text.len(),
{
    if text.len() == 0 || digit_value(text[0], radix) is None {
        0
    } else {
        1 + digits_len(text.drop_first(), radix)
    }
}

/// The number that a string of digits denotes in the base, most significant
/// digit first. It is not bounded.
pub open spec fn digits_value(digits: Seq<u8>, radix: Radix) -> nat
    decreases digits.len(),
{
    if digits.len() == 0 {
        0
    } else {
        digits_value(digits.drop_last(), radix) * radix.base() + digit_value(
            digits.last(),
            radix,
        ).unwrap_or(0)
    }
}

/// What follows the digits is nothing at all, or a well-formed type suffix.
pub open spec fn valid_tail(tail: Seq<u8>) -> bool {
    tail.len() == 0 || (is_suffix_start(tail[0]) && is_width_suffix(tail.drop_first()))
}

/// The value of digits in the given base that an optional type suffix may
/// follow: the exact number the digits denote when it fits in 128 bits and
/// the tail is valid, nothing otherwise.
pub open spec fn number_of_text(text: Seq<u8>, radix: Radix) -> Option<u128> {
    let n = digits_len(text, radix) as int;
    let value = digits_value(text.take(n), radix);
    if valid_tail(text.skip(n)) && value <= u128::MAX {
        Some(value as u128)
    } else {
        None
    }
}

/// The base that the first two bytes of a literal select, with the number of
/// bytes of the prefix.
pub open spec fn literal_radix(text: Seq<u8>) -> (Radix, int) {
    if text.len() >= 2 && text[0] == DIGIT_0 && text[1] == LOWER_X {
        (Radix::Hexadecimal, 2)
    } else if text.len() >= 2 && text[0] == DIGIT_0 && text[1] == LOWER_O {
        (Radix::Octal, 2)
    } else if text.len() >= 2 && text[0] == DIGIT_0 && text[1] == LOWER_B {
        (Radix::Binary, 2)
    } else {
        (Radix::Decimal, 0)
    }
}

/// The value of an integer literal: an optional `0x`, `0o` or `0b` prefix,
/// digits, and an optional type suffix. The empty text has no value.
pub open spec fn number_of_literal(text: Seq<u8>) -> Option<u128> {
    if text.len() == 0 {
        None
    } else {
        let (radix, start) = literal_radix(text);
        number_of_text(text.skip(start), radix)
    }
}

/// Tells whether `suffix` is the width of a type suffix.
pub fn validate_suffix(suffix: &[u8]) -> (valid: bool)
    ensures
        valid == is_width_suffix(suffix@),
{
    match suffix.len() {
        1 => suffix[0] == DIGIT_8,
        2 => {
            (suffix[0] == DIGIT_1 && suffix[1] == DIGIT_6) || (suffix[0] == DIGIT_3 && suffix[1]
                == DIGIT_2) || (suffix[0] == DIGIT_6 && suffix[1] == DIGIT_4)
        },
        3 => suffix[0] == DIGIT_1 && suffix[1] == DIGIT_2 && suffix[2] == DIGIT_8,
        _ => false,
    }
}

/// Classifies a byte of a hexadecimal literal.
pub fn char_to_hex(ch: u8) -> (code: u8)
    ensures
        code == digit_code(ch, Radix::Hexadecimal),
{
    if DIGIT_0 <= ch && ch <= DIGIT_9 {
        ch - DIGIT_0
    } else if LOWER_A <= ch && ch <= LOWER_F {
        ch - LOWER_A + 10
    } else if UPPER_A <= ch && ch <= UPPER_F {
        ch - UPPER_A + 10
    } else if ch == LOWER_U || ch == LOWER_I {
        SUFFIX_MARKER
    } else {
        UNKNOWN_CHAR
    }
}

/// Classifies a byte of a decimal literal.
pub fn char_to_dec(ch: u8) -> (code: u8)
    ensures
        code == digit_code(ch, Radix::Decimal),
{
    if DIGIT_0 <= ch && ch <= DIGIT_9 {
        ch - DIGIT_0
    } else if ch == LOWER_U || ch == LOWER_I {
        SUFFIX_MARKER
    } else {
        UNKNOWN_CHAR
    }
}

/// Classifies a byte of an octal literal.
pub fn char_to_oct(ch: u8) -> (code: u8)
    ensures
        code == digit_code(ch, Radix::Octal),
{
    if DIGIT_0 <= ch && ch <= DIGIT_7 {
        ch - DIGIT_0
    } else if ch == LOWER_U || ch == LOWER_I {
        SUFFIX_MARKER
    } else {
        UNKNOWN_CHAR
    }
}

/// Classifies a byte of a binary literal.
pub fn char_to_bin(ch: u8) -> (code: u8)
    ensures
        code == digit_code(ch, Radix::Binary),
{
    if ch == DIGIT_0 {
        0
    } else if ch == DIGIT_1 {
        1
    } else if ch == LOWER_U || ch == LOWER_I {
        SUFFIX_MARKER
    } else {
        UNKNOWN_CHAR
    }
}

/// Classifies a byte as a digit of the base, the start of a suffix, or
/// neither.
pub fn char_to_digit(ch: u8, radix: Radix) -> (code: u8)
    ensures
        code == digit_code(ch, radix),
{
    match radix {
        Radix::Binary => char_to_bin(ch),
        Radix::Octal => char_to_oct(ch),
        Radix::Decimal => char_to_dec(ch),
        Radix::Hexadecimal => char_to_hex(ch),
    }
}

/// A prefix of digits that ends at the end of the text or before a byte that
/// is no digit is the longest one.
pub proof fn lemma_digits_len(text: Seq<u8>, radix: Radix, n: int)
    requires
        0 <= n <= text.len(),
        forall|j: int| 0 <= j < n ==> digit_value(#[trigger] text[j], radix) is Some,
        n < text.len() ==> digit_value(text[n], radix) is None,
    ensures
        digits_len(text, radix) == n,
    decreases n,
{
    if n > 0 {
        assert(digit_value(text[0], radix) is Some);
        let rest = text.drop_first();
        assert forall|j: int| 0 <= j < n - 1 implies digit_value(
            #[trigger] rest[j],
            radix,
        ) is Some by {
            assert(rest[j] == text[j + 1]);
        }
        lemma_digits_len(rest, radix, n - 1);
    }
}

/// Parsing is exact: a text made of digits of the base and of a tail that
/// does not start with such a digit has the value of the digits, provided
/// that the tail is empty or a type suffix and that the value fits in 128
/// bits; otherwise it has none.
pub proof fn lemma_number_of_text(digits: Seq<u8>, tail: Seq<u8>, radix: Radix)
    requires
        forall|i: int| 0 <= i < digits.len() ==> digit_value(#[trigger] digits[i], radix) is Some,
        tail.len() > 0 ==> digit_value(tail[0], radix) is None,
    ensures
        number_of_text(digits + tail, radix) == (if valid_tail(tail) && digits_value(digits, radix)
            <= u128::MAX {
            Some(digits_value(digits, radix) as u128)
        } else {
            None
        }),
{
    let text = digits + tail;
    let n = digits.len() as int;
    assert forall|j: int| 0 <= j < n implies digit_value(#[trigger] text[j], radix) is Some by {
        assert(text[j] == digits[j]);
    }
    if n < text.len() {
        assert(text[n] == tail[0]);
    }
    lemma_digits_len(text, radix, n);
    assert(text.take(n) =~= digits);
    assert(text.skip(n) =~= tail);
}

/// More digits never denote a smaller number.
proof fn lemma_digits_value_grows(digits: Seq<u8>, radix: Radix, k: int)
    requires
        0 <= k <= digits.len(),
    ensures
        digits_value(digits.take(k), radix) <= digits_value(digits, radix),
    decreases digits.len() - k,
{
    if k < digits.len() {
        let shorter = digits.drop_last();
        assert(shorter.take(k) =~= digits.take(k));
        lemma_digits_value_grows(shorter, radix, k);
        let v = digits_value(shorter, radix);
        assert(v <= v * radix.base()) by (nonlinear_arith)
            requires
                radix.base() >= 1,
        ;
    } else {
        assert(digits.take(k) =~= digits);
    }
}

/// Parses digits of the given base, which a type suffix may follow.
pub fn text_to_number(value: &[u8], radix: Radix) -> (number: Option<u128>)
    ensures
        number == number_of_text(value@, radix),
{
    let base = radix.value();
    let len = value.len();
    let mut result: u128 = 0;
    let mut index: usize = 0;
    while index < len
        invariant
            len == value@.len(),
            index <= len,
            base == radix.base(),
            forall|j: int| 0 <= j < index ==> digit_value(#[trigger] value@[j], radix) is Some,
            result == digits_value(value@.take(index as int), radix),
        decreases len - index,
    {
        let v = char_to_digit(value[index], radix);
        if v == UNKNOWN_CHAR {
            proof {
                lemma_digits_len(value@, radix, index as int);
                assert(!is_suffix_start(value@.skip(index as int)[0]));
            }
            return None;
        }
        if v == SUFFIX_MARKER {
            let suffix = slice_subrange(value, index + 1, len);
            let valid = validate_suffix(suffix);
            proof {
                lemma_digits_len(value@, radix, index as int);
                let tail = value@.skip(index as int);
                assert(tail[0] == value@[index as int]);
                assert(tail.drop_first() =~= suffix@);
            }
            if !valid {
                return None;
            }
            return Some(result);
        }
        proof {
            let next = value@.take(index + 1);
            assert(next.drop_last() =~= value@.take(index as int));
            assert(next.last() == value@[index as int]);
            assert(digits_value(next, radix) == result * base + v);
            let n = digits_len(value@, radix) as int;
            if result * base + v > u128::MAX {
                lemma_digits_len_at_least(value@, radix, index + 1);
                lemma_digits_value_grows(value@.take(n), radix, index + 1);
                assert(value@.take(n).take(index + 1) =~= next);
            }
        }
        let scaled = match result.checked_mul(base) {
            Some(s) => s,
            None => {
                return None;
            },
        };
        result = match scaled.checked_add(v as u128) {
            Some(r) => r,
            None => {
                return None;
            },
        };
        index += 1;
    }
    proof {
        lemma_digits_len(value@, radix, len as int);
        assert(value@.take(len as int) =~= value@);
        assert(value@.skip(len as int).len() == 0);
    }
    Some(result)
}

/// The longest prefix of digits is at least as long as any prefix of digits.
proof fn lemma_digits_len_at_least(text: Seq<u8>, radix: Radix, n: int)
    requires
        0 <= n <= text.len(),
        forall|j: int| 0 <= j < n ==> digit_value(#[trigger] text[j], radix) is Some,
    ensures
        n <= digits_len(text, radix) <= text.len(),
    decreases text.len(),
{
    if text.len() > 0 && digit_value(text[0], radix) is Some {
        let rest = text.drop_first();
        if n > 0 {
            assert forall|j: int| 0 <= j < n - 1 implies digit_value(
                #[trigger] rest[j],
                radix,
            ) is Some by {
                assert(rest[j] == text[j + 1]);
            }
            lemma_digits_len_at_least(rest, radix, n - 1);
        } else {
            lemma_digits_len_at_least(rest, radix, 0);
        }
    } else if n > 0 {
        assert(digit_value(text[0], radix) is Some);
    }
}

/// Parses an integer literal: an optional `0x`, `0o` or `0b` prefix, digits
/// of that base, and an optional type suffix, which is not interpreted.
/// Returns the exact value, or `None` for the empty text, a byte that is no
/// digit of the base, a malformed suffix, or a value over 128 bits.
pub fn string_to_number(value: &str) -> (number: Option<u128>)
    ensures
        number == number_of_literal(value.spec_bytes()),
{
    let b = value.as_bytes();
    if b.len() == 0 {
        return None;
    }
    if b.len() >= 2 && b[0] == DIGIT_0 {
        if b[1] == LOWER_X {
            return text_to_number(slice_subrange(b, 2, b.len()), Radix::Hexadecimal);
        } else if b[1] == LOWER_O {
            return text_to_number(slice_subrange(b, 2, b.len()), Radix::Octal);
        } else if b[1] == LOWER_B {
            return text_to_number(slice_subrange(b, 2, b.len()), Radix::Binary);
        }
    }
    proof {
        assert(b@.skip(0) =~= b@);
    }
    text_to_number(b, Radix::Decimal)
}

} // verus!
