//! Token amounts: unsigned integers of 256 bits.

use vstd::prelude::*;
use crate::text::{decimal_digit_value, decimal_value, is_numeral, lemma_numeral_value_grows, numeral_value};

verus! {

/// Two to the power 128.
pub open spec fn pow2_128() -> nat {
    u128::MAX as nat + 1
}

/// Two to the power 256: one more than the largest amount.
pub open spec fn pow2_256() -> nat {
    pow2_128() * pow2_128()
}

/// An unsigned 256-bit integer, kept as its high and low halves.
#[derive(Clone, Copy, Debug, PartialEq, Eq, Hash, Structural)]
pub struct U256 {
    pub hi: u128,
    pub lo: u128,
}

impl View for U256 {
    type V = nat;

    open spec fn view(&self) -> nat {
        self.hi as nat * pow2_128() + self.lo as nat
    }
}

impl U256 {
    /// Zero.
    pub fn zero() -> (n: U256)
        ensures
            n@ == 0,
    {
        U256 { hi: 0, lo: 0 }
    }

    /// The integer with the given value.
    pub fn from_u128(value: u128) -> (n: U256)
        ensures
            n@ == value,
    {
        U256 { hi: 0, lo: value }
    }

    /// Ten times the integer, plus `digit`, where that still fits in 256
    /// bits.
    pub fn times_ten_plus(self, digit: u8) -> (next: Option<U256>)
        requires
            digit < 10,
        ensures
            next is Some <==> self@ * 10 + digit < pow2_256(),
            next matches Some(n) ==> n@ == self@ * 10 + digit,
    {
        let low: u128 = self.lo % 0x1_0000_0000_0000_0000;
        let high: u128 = self.lo / 0x1_0000_0000_0000_0000;
        let t0: u128 = low * 10 + digit as u128;
        let t1: u128 = high * 10 + t0 / 0x1_0000_0000_0000_0000;
        let carry: u128 = t1 / 0x1_0000_0000_0000_0000;
        let lo: u128 = (t1 % 0x1_0000_0000_0000_0000) * 0x1_0000_0000_0000_0000 + t0
            % 0x1_0000_0000_0000_0000;
        assert(lo as nat + carry as nat * pow2_128() == self.lo as nat * 10 + digit as nat) by {
            let b: int = 0x1_0000_0000_0000_0000;
            let q0: int = t0 as int / 0x1_0000_0000_0000_0000;
            let r0: int = t0 as int % 0x1_0000_0000_0000_0000;
            let r1: int = t1 as int % 0x1_0000_0000_0000_0000;
            assert(self.lo as int == high as int * 0x1_0000_0000_0000_0000 + low as int);
            assert(t0 as int == q0 * 0x1_0000_0000_0000_0000 + r0);
            assert(t1 as int == carry as int * 0x1_0000_0000_0000_0000 + r1);
            assert(pow2_128() == b * b);
            assert(lo as int + carry as int * (b * b) == self.lo as int * 10 + digit as int)
                by (nonlinear_arith)
                requires
                    b == 0x1_0000_0000_0000_0000,
                    self.lo as int == high as int * b + low as int,
                    t0 as int == low as int * 10 + digit as int,
                    t0 as int == q0 * b + r0,
                    t1 as int == high as int * 10 + q0,
                    t1 as int == carry as int * b + r1,
                    lo as int == r1 * b + r0,
            ;
        }
        if self.hi > (u128::MAX - carry) / 10 {
            assert(self@ * 10 + digit >= pow2_256()) by {
                assert(self.hi as nat * 10 + carry as nat >= pow2_128());
                lemma_halves_bound(self.hi as nat * 10 + carry as nat, lo as nat);
                assert(self@ * 10 + digit == (self.hi as nat * 10 + carry as nat) * pow2_128()
                    + lo as nat) by (nonlinear_arith)
                    requires
                        self@ == self.hi as nat * pow2_128() + self.lo as nat,
                        lo as nat + carry as nat * pow2_128() == self.lo as nat * 10 + digit as nat,
                ;
            }
            None
        } else {
            let hi: u128 = self.hi * 10 + carry;
            let next = U256 { hi, lo };
            assert(next@ == self@ * 10 + digit) by (nonlinear_arith)
                requires
                    next@ == hi as nat * pow2_128() + lo as nat,
                    hi as nat == self.hi as nat * 10 + carry as nat,
                    self@ == self.hi as nat * pow2_128() + self.lo as nat,
                    lo as nat + carry as nat * pow2_128() == self.lo as nat * 10 + digit as nat,
            ;
            proof {
                lemma_halves_bound(hi as nat, lo as nat);
            }
            Some(next)
        }
    }

    /// Reads an integer from its decimal numeral. Anything but digits, the
    /// empty text, and a number of more than 256 bits are refused.
    pub fn from_dec_str(text: &str) -> (parsed: Option<U256>)
        ensures
            parsed is Some <==> is_numeral(text@) && numeral_value(text@) < pow2_256(),
            parsed matches Some(n) ==> n@ == numeral_value(text@),
    {
        let len = text.unicode_len();
        if len == 0 {
            return None;
        }
        let mut acc = U256::zero();
        let mut i: usize = 0;
        assert(text@.take(0).len() == 0);
        assert(numeral_value(text@.take(0)) == 0);
        while i < len
            invariant
                i <= len,
                len == text@.len(),
                forall|j: int| 0 <= j < i ==> decimal_value(#[trigger] text@[j]) is Some,
                acc@ == numeral_value(text@.take(i as int)),
            decreases len - i,
        {
            proof {
                let prefix = text@.take(i + 1);
                assert(prefix.drop_last() =~= text@.take(i as int));
                assert(prefix.last() == text@[i as int]);
                lemma_numeral_value_grows(text@, i + 1);
            }
            match decimal_digit_value(text.get_char(i)) {
                None => {
                    return None;
                },
                Some(digit) => match acc.times_ten_plus(digit) {
                    None => {
                        return None;
                    },
                    Some(next) => {
                        acc = next;
                    },
                },
            }
            i = i + 1;
        }
        assert(text@.take(len as int) =~= text@);
        proof {
            lemma_halves_bound(acc.hi as nat, acc.lo as nat);
        }
        Some(acc)
    }

    /// The integer with the given halves.
    pub fn from_halves(hi: u128, lo: u128) -> (n: U256)
        ensures
            n@ == hi as nat * pow2_128() + lo as nat,
            n.hi == hi,
            n.lo == lo,
    {
        U256 { hi, lo }
    }
}

/// A value with a high half below two to the 128 is below two to the 256,
/// and one with a high half from there on is not.
pub proof fn lemma_halves_bound(hi: nat, lo: nat)
    requires
        lo < pow2_128(),
    ensures
        hi < pow2_128() ==> hi * pow2_128() + lo < pow2_256(),
        hi >= pow2_128() ==> hi * pow2_128() + lo >= pow2_256(),
{
    if hi < pow2_128() {
        assert(hi * pow2_128() + pow2_128() <= pow2_128() * pow2_128()) by (nonlinear_arith)
            requires
                hi + 1 <= pow2_128(),
        ;
    } else {
        assert(hi * pow2_128() >= pow2_128() * pow2_128()) by (nonlinear_arith)
            requires
                hi >= pow2_128(),
        ;
    }
}

/// Two amounts with the same value are the same amount.
pub proof fn lemma_value_determines_amount(a: U256, b: U256)
    requires
        a@ == b@,
    ensures
        a == b,
{
    assert(a.hi as nat * pow2_128() + a.lo as nat == b.hi as nat * pow2_128() + b.lo as nat);
    if a.hi < b.hi {
        assert(b.hi as nat * pow2_128() >= (a.hi as nat + 1) * pow2_128()) by (nonlinear_arith)
            requires
                a.hi < b.hi,
        ;
        assert((a.hi as nat + 1) * pow2_128() == a.hi as nat * pow2_128() + pow2_128())
            by (nonlinear_arith);
    } else if b.hi < a.hi {
        assert(a.hi as nat * pow2_128() >= (b.hi as nat + 1) * pow2_128()) by (nonlinear_arith)
            requires
                b.hi < a.hi,
        ;
        assert((b.hi as nat + 1) * pow2_128() == b.hi as nat * pow2_128() + pow2_128())
            by (nonlinear_arith);
    }
}

} // verus!
