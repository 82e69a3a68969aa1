//! Building text: appending to a string, decimal and hexadecimal digits.

use vstd::prelude::*;

verus! {

/// The sixteen lowercase hexadecimal digits, in order.
pub open spec fn hex_digits() -> Seq<char> {
    seq!['0', '1', '2', '3', '4', '5', '6', '7', '8', '9', 'a', 'b', 'c', 'd', 'e', 'f']
}

/// The character for one decimal digit.
pub open spec fn decimal_digit(d: nat) -> char
    recommends
        d < 10,
{
    hex_digits()[d as int]
}

/// The decimal numeral of `n`, without sign or leading zeros.
pub open spec fn decimal(n: nat) -> Seq<char>
    decreases n,
{
    if n < 10 {
        seq![decimal_digit(n)]
    } else {
        decimal(n / 10).push(decimal_digit(n % 10))
    }
}

/// The lowercase hexadecimal rendering of `bytes`: two digits per byte, the
/// high half first.
pub open spec fn hex(bytes: Seq<u8>) -> Seq<char> {
    Seq::new(
        2 * bytes.len(),
        |i: int|
            if i % 2 == 0 {
                hex_digits()[bytes[i / 2] as int / 16]
            } else {
                hex_digits()[bytes[i / 2] as int % 16]
            },
    )
}

/// The value of a hexadecimal digit of either case; nothing for any other
/// character.
pub open spec fn hex_value(c: char) -> Option<u8> {
    if '0' <= c && c <= '9' {
        Some((c as u32 - 48) as u8)
    } else if 'a' <= c && c <= 'f' {
        Some((c as u32 - 87) as u8)
    } else if 'A' <= c && c <= 'F' {
        Some((c as u32 - 55) as u8)
    } else {
        None
    }
}

/// The value of a decimal digit; nothing for any other character.
pub open spec fn decimal_value(c: char) -> Option<u8> {
    if '0' <= c && c <= '9' {
        Some((c as u32 - 48) as u8)
    } else {
        None
    }
}

/// Whether `text` is a decimal numeral: one digit or more, and digits only.
pub open spec fn is_numeral(text: Seq<char>) -> bool {
    text.len() > 0 && forall|i: int| 0 <= i < text.len() ==> decimal_value(#[trigger] text[i]) is Some
}

/// The number that the decimal numeral `text` writes.
pub open spec fn numeral_value(text: Seq<char>) -> nat
    decreases text.len(),
{
    if text.len() == 0 {
        0
    } else {
        numeral_value(text.drop_last()) * 10 + decimal_value(text.last()).unwrap_or(0) as nat
    }
}

/// `String::push` of std: the string afterwards is the string before with
/// `c` appended.
#[verifier::external_body]
pub(crate) fn push_char(out: &mut String, c: char)
    ensures
        final(out)@ == old(out)@.push(c),
{
    out.push(c)
}

/// The character for a value below sixteen.
pub fn hex_digit(d: u8) -> (c: char)
    requires
        d < 16,
    ensures
        c == hex_digits()[d as int],
{
    match d {
        0 => '0',
        1 => '1',
        2 => '2',
        3 => '3',
        4 => '4',
        5 => '5',
        6 => '6',
        7 => '7',
        8 => '8',
        9 => '9',
        10 => 'a',
        11 => 'b',
        12 => 'c',
        13 => 'd',
        14 => 'e',
        _ => 'f',
    }
}

/// Reads one hexadecimal digit of either case.
pub fn hex_digit_value(c: char) -> (value: Option<u8>)
    ensures
        value == hex_value(c),
        value matches Some(v) ==> v < 16,
{
    if '0' <= c && c <= '9' {
        Some((c as u32 - 48) as u8)
    } else if 'a' <= c && c <= 'f' {
        Some((c as u32 - 87) as u8)
    } else if 'A' <= c && c <= 'F' {
        Some((c as u32 - 55) as u8)
    } else {
        None
    }
}

/// Reads one decimal digit.
pub fn decimal_digit_value(c: char) -> (value: Option<u8>)
    ensures
        value == decimal_value(c),
        value matches Some(v) ==> v < 10,
{
    if '0' <= c && c <= '9' {
        Some((c as u32 - 48) as u8)
    } else {
        None
    }
}

/// Appends the decimal numeral of `n`.
pub fn push_decimal(out: &mut String, n: u32)
    ensures
        final(out)@ == old(out)@ + decimal(n as nat),
    decreases n,
{
    if n >= 10 {
        push_decimal(out, n / 10);
    }
    let d: u8 = (n % 10) as u8;
    push_char(out, hex_digit(d));
    assert(out@ =~= old(out)@ + decimal(n as nat));
}

/// Reading a digit back gives the value it was written for.
pub proof fn lemma_hex_digit_round_trip(d: u8)
    requires
        d < 16,
    ensures
        hex_value(hex_digits()[d as int]) == Some(d),
        d < 10 ==> decimal_value(decimal_digit(d as nat)) == Some(d),
{
}

/// A numeral writes at least what any of its beginnings writes.
pub proof fn lemma_numeral_value_grows(text: Seq<char>, n: int)
    requires
        0 <= n <= text.len(),
    ensures
        numeral_value(text.take(n)) <= numeral_value(text),
    decreases text.len(),
{
    if n == text.len() {
        assert(text.take(n) =~= text);
    } else {
        assert(text.drop_last().take(n) =~= text.take(n));
        lemma_numeral_value_grows(text.drop_last(), n);
    }
}

/// The decimal numeral of a number is a numeral, and it writes that number.
pub proof fn lemma_decimal_reads_back(n: nat)
    ensures
        is_numeral(decimal(n)),
        numeral_value(decimal(n)) == n,
    decreases n,
{
    let text = decimal(n);
    if n < 10 {
        lemma_hex_digit_round_trip(n as u8);
        assert(text.drop_last().len() == 0);
        assert(numeral_value(text.drop_last()) == 0);
        assert(text.last() == decimal_digit(n));
    } else {
        lemma_decimal_reads_back(n / 10);
        lemma_hex_digit_round_trip((n % 10) as u8);
        assert(text.drop_last() =~= decimal(n / 10));
        assert(text.last() == decimal_digit(n % 10));
        assert forall|i: int| 0 <= i < text.len() implies decimal_value(#[trigger] text[i]) is Some by {
            if i < text.len() - 1 {
                assert(text[i] == decimal(n / 10)[i]);
            }
        }
    }
}

/// Appends the hexadecimal rendering of `bytes`.
pub fn push_hex(out: &mut String, bytes: &[u8])
    ensures
        final(out)@ == old(out)@ + hex(bytes@),
{
    let mut i: usize = 0;
    while i < bytes.len()
        invariant
            i <= bytes.len(),
            out@ == old(out)@ + hex(bytes@.take(i as int)),
        decreases bytes.len() - i,
    {
        let b: u8 = bytes[i];
        push_char(out, hex_digit(b / 16));
        push_char(out, hex_digit(b % 16));
        i = i + 1;
        assert(out@ =~= old(out)@ + hex(bytes@.take(i as int)));
    }
    assert(bytes@.take(i as int) =~= bytes@);
}

} // verus!
