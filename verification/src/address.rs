//! Account and contract addresses.

use vstd::prelude::*;
use vstd::std_specs::cmp::PartialEqSpecImpl;
use crate::text::{hex, hex_digit_value, hex_value, lemma_hex_digit_round_trip, push_hex};

verus! {

/// A 20-byte account or contract identifier.
#[derive(Clone, Copy, Debug, Hash)]
pub struct Address {
    pub bytes: [u8; 20],
}

impl View for Address {
    type V = Seq<u8>;

    open spec fn view(&self) -> Seq<u8> {
        self.bytes@
    }
}

impl PartialEq for Address {
    fn eq(&self, other: &Address) -> (same: bool) {
        let mut i: usize = 0;
        while i < 20
            invariant
                i <= 20,
                self.bytes@.take(i as int) == other.bytes@.take(i as int),
            decreases 20 - i,
        {
            if self.bytes[i] != other.bytes[i] {
                return false;
            }
            i = i + 1;
            assert(self.bytes@.take(i as int) =~= self.bytes@.take(i - 1).push(self.bytes@[i - 1]));
            assert(other.bytes@.take(i as int) =~= other.bytes@.take(i - 1).push(
                other.bytes@[i - 1],
            ));
        }
        assert(self.bytes@.take(20) =~= self.bytes@);
        assert(other.bytes@.take(20) =~= other.bytes@);
        true
    }
}

impl PartialEqSpecImpl for Address {
    open spec fn obeys_eq_spec() -> bool {
        true
    }

    open spec fn eq_spec(&self, other: &Address) -> bool {
        self.bytes@ == other.bytes@
    }
}

impl Eq for Address {

}

/// Whether `text` writes an address: `0x`, then forty hexadecimal digits of
/// either case.
pub open spec fn is_address_text(text: Seq<char>) -> bool {
    &&& text.len() == 42
    &&& text[0] == '0'
    &&& text[1] == 'x'
    &&& forall|i: int| 2 <= i < 42 ==> hex_value(#[trigger] text[i]) is Some
}

/// The twenty bytes that `text` writes, two digits each, the high half
/// first.
pub open spec fn address_bytes(text: Seq<char>) -> Seq<u8>
    recommends
        is_address_text(text),
{
    Seq::new(
        20,
        |k: int|
            (hex_value(text[2 + 2 * k]).unwrap() * 16 + hex_value(text[3 + 2 * k]).unwrap()) as u8,
    )
}

impl Address {
    /// How the address is written in a request: `0x`, then two lowercase
    /// hexadecimal digits for each of the twenty bytes.
    pub open spec fn rendering(self) -> Seq<char> {
        "0x"@ + hex(self@)
    }

    /// The address with the given bytes.
    pub fn new(bytes: [u8; 20]) -> (address: Address)
        ensures
            address.bytes == bytes,
    {
        Address { bytes }
    }

    /// Reads an address from its text. The digits may be of either case;
    /// anything but `0x` and forty digits is refused.
    pub fn from_hex(text: &str) -> (parsed: Option<Address>)
        ensures
            parsed is Some <==> is_address_text(text@),
            parsed matches Some(address) ==> address@ == address_bytes(text@),
    {
        if text.unicode_len() != 42 {
            return None;
        }
        if text.get_char(0) != '0' || text.get_char(1) != 'x' {
            return None;
        }
        let mut bytes: [u8; 20] = [0u8; 20];
        let mut k: usize = 0;
        while k < 20
            invariant
                k <= 20,
                text@.len() == 42,
                forall|i: int| 2 <= i < 2 + 2 * k ==> hex_value(#[trigger] text@[i]) is Some,
                forall|j: int| 0 <= j < k ==> #[trigger] bytes@[j] == address_bytes(text@)[j],
            decreases 20 - k,
        {
            let high = hex_digit_value(text.get_char(2 + 2 * k));
            let low = hex_digit_value(text.get_char(3 + 2 * k));
            match (high, low) {
                (Some(h), Some(l)) => {
                    bytes[k] = h * 16 + l;
                },
                _ => {
                    return None;
                },
            }
            k = k + 1;
        }
        let address = Address { bytes };
        assert(address@ =~= address_bytes(text@));
        Some(address)
    }

    /// Appends the address as it is written in a request.
    pub fn push_to(&self, out: &mut String)
        ensures
            final(out)@ == old(out)@ + self.rendering(),
    {
        out.append("0x");
        push_hex(out, self.bytes.as_slice());
        assert(out@ =~= old(out)@ + self.rendering());
    }

    /// The address as it is written in a request.
    pub fn to_hex(&self) -> (text: String)
        ensures
            text@ == self.rendering(),
    {
        let mut text = String::new();
        self.push_to(&mut text);
        assert(text@ =~= self.rendering());
        text
    }
}

/// A rendered address is 42 characters long, starts with `0x`, and holds
/// after that nothing but the digits `0` to `9` and the lowercase letters
/// `a` to `f`.
pub proof fn lemma_rendering_is_lowercase_hex(address: Address)
    ensures
        address.rendering().len() == 42,
        address.rendering()[0] == '0',
        address.rendering()[1] == 'x',
        forall|i: int|
            2 <= i < 42 ==> {
                let c = #[trigger] address.rendering()[i];
                ('0' <= c && c <= '9') || ('a' <= c && c <= 'f')
            },
{
    reveal_strlit("0x");
    let r = address.rendering();
    assert(address@.len() == 20);
    assert forall|i: int| 2 <= i < 42 implies {
        let c = #[trigger] r[i];
        ('0' <= c && c <= '9') || ('a' <= c && c <= 'f')
    } by {
        let j = i - 2;
        assert(r[i] == hex(address@)[j]);
        lemma_hex_digit_is_lowercase(address@[j / 2] as int / 16);
        lemma_hex_digit_is_lowercase(address@[j / 2] as int % 16);
    }
}

/// An address is read back from its own rendering.
pub proof fn lemma_rendering_reads_back(address: Address)
    ensures
        is_address_text(address.rendering()),
        address_bytes(address.rendering()) == address@,
{
    reveal_strlit("0x");
    let r = address.rendering();
    assert(address@.len() == 20);
    assert forall|i: int| 2 <= i < 42 implies hex_value(#[trigger] r[i]) is Some by {
        let j = i - 2;
        assert(r[i] == hex(address@)[j]);
        lemma_hex_digit_round_trip((address@[j / 2] / 16) as u8);
        lemma_hex_digit_round_trip((address@[j / 2] % 16) as u8);
    }
    assert forall|k: int| 0 <= k < 20 implies address_bytes(r)[k] == address@[k] by {
        assert(r[2 + 2 * k] == hex(address@)[2 * k]);
        assert(r[3 + 2 * k] == hex(address@)[2 * k + 1]);
        lemma_hex_digit_round_trip((address@[k] / 16) as u8);
        lemma_hex_digit_round_trip((address@[k] % 16) as u8);
    }
    assert(address_bytes(r) =~= address@);
}

/// Each of the sixteen digits is one of `0` to `9` or `a` to `f`.
pub proof fn lemma_hex_digit_is_lowercase(d: int)
    requires
        0 <= d < 16,
    ensures
        ({
            let c = crate::text::hex_digits()[d];
            ('0' <= c && c <= '9') || ('a' <= c && c <= 'f')
        }),
{
}

} // verus!
