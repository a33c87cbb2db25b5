//! The words of the source text: reserved words and the reading of numbers.

use vstd::prelude::*;
use vstd::string::*;
use vstd::utf8::*;

verus! {

/// Whether two strings hold the same characters.
pub fn str_eq(a: &str, b: &str) -> (equal: bool)
    ensures
        equal == (a@ == b@),
{
    let x = a.as_bytes();
    let y = b.as_bytes();
    proof {
        // Equal encodings decode to equal strings.
        encode_utf8_decode_utf8(a@);
        encode_utf8_decode_utf8(b@);
    }
    if x.len() != y.len() {
        return false;
    }
    let mut i: usize = 0;
    while i < x.len()
        invariant
            i <= x@.len(),
            x@.len() == y@.len(),
            x@ == a.spec_bytes(),
            y@ == b.spec_bytes(),
            forall|j: int| 0 <= j < i ==> x@[j] == y@[j],
        decreases x.len() - i,
    {
        if x[i] != y[i] {
            return false;
        }
        i += 1;
    }
    assert(x@ =~= y@);
    true
}

/// The words that no identifier and no type name may be.
pub open spec fn is_reserved_word(name: Seq<char>) -> bool {
    ||| name == "class"@
    ||| name == "else"@
    ||| name == "false"@
    ||| name == "fn"@
    ||| name == "let"@
    ||| name == "if"@
    ||| name == "true"@
}

/// Whether `name` is a reserved word.
pub fn is_reserved(name: &str) -> (reserved: bool)
    ensures
        reserved == is_reserved_word(name@),
{
    str_eq(name, "class") || str_eq(name, "else") || str_eq(name, "false") || str_eq(name, "fn")
        || str_eq(name, "let") || str_eq(name, "if") || str_eq(name, "true")
}

/// The decimal digits.
pub open spec fn is_digit(c: char) -> bool {
    '0' <= c <= '9'
}

/// Every character of `text` is a decimal digit.
pub open spec fn all_digits(text: Seq<char>) -> bool {
    forall|i: int| 0 <= i < text.len() ==> is_digit(#[trigger] text[i])
}

/// The number that a run of decimal digits denotes.
pub open spec fn decimal_value(text: Seq<char>) -> nat
    decreases text.len(),
{
    if text.len() == 0 {
        0
    } else {
        decimal_value(text.drop_last()) * 10 + (text.last() as nat - '0' as nat) as nat
    }
}

/// The value of an integer literal: its text is one or more decimal digits and
/// denotes a number that fits in 64 bits.
pub open spec fn integer_of(text: Seq<char>) -> Option<u64> {
    if text.len() > 0 && all_digits(text) && decimal_value(text) <= u64::MAX {
        Some(decimal_value(text) as u64)
    } else {
        None
    }
}

/// A run of digits denotes at least what any of its prefixes denotes.
pub proof fn lemma_decimal_value_grows(text: Seq<char>, n: int)
    requires
        0 <= n <= text.len(),
        all_digits(text),
    ensures
        decimal_value(text.subrange(0, n)) <= decimal_value(text),
    decreases text.len() - n,
{
    if n == text.len() {
        assert(text.subrange(0, n) =~= text);
    } else {
        let longer = text.subrange(0, n + 1);
        assert(longer.drop_last() =~= text.subrange(0, n));
        lemma_decimal_value_grows(text, n + 1);
    }
}

/// Reads the text of an integer literal: one or more decimal digits, and no
/// other character, that denote a number below 2^64.
pub fn parse_integer(text: &str) -> (value: Option<u64>)
    ensures
        value == integer_of(text@),
{
    if !text.is_ascii() {
        // A character beyond ASCII is no digit.
        assert(!all_digits(text@)) by {
            let i = choose|i: int| 0 <= i < text@.len() && !('\0' <= #[trigger] text@[i] <= '\u{7f}');
        }
        return None;
    }
    let bytes = text.as_bytes();
    proof {
        is_ascii_spec_bytes(text);
    }
    let n = bytes.len();
    if n == 0 {
        return None;
    }
    let mut value: u64 = 0;
    let mut i: usize = 0;
    while i < n
        invariant
            i <= n,
            n == text@.len(),
            n == bytes@.len(),
            is_ascii_chars(text@),
            forall|j: int| 0 <= j < n ==> bytes@[j] == text@[j] as u8,
            all_digits(text@.subrange(0, i as int)),
            value == decimal_value(text@.subrange(0, i as int)),
        decreases n - i,
    {
        let b = bytes[i];
        let ghost longer = text@.subrange(0, i + 1);
        proof {
            assert(longer.drop_last() =~= text@.subrange(0, i as int));
        }
        if b < 48 || b > 57 {
            return None;
        }
        let digit: u64 = (b - 48) as u64;
        if value > (u64::MAX - digit) / 10 {
            // The digits read so far already denote too much, and so does
            // the whole text if it is all digits.
            proof {
                if all_digits(text@) {
                    lemma_decimal_value_grows(text@, i + 1);
                }
            }
            return None;
        }
        value = value * 10 + digit;
        proof {
            assert forall|j: int| 0 <= j < longer.len() implies is_digit(#[trigger] longer[j]) by {}
        }
        i += 1;
    }
    assert(text@.subrange(0, n as int) =~= text@);
    Some(value)
}

} // verus!
