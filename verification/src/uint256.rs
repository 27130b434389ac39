//! 256-bit unsigned integers for balances, transfer amounts and sequence
//! numbers. The arithmetic itself is done by `web3::types::U256`; this module
//! holds the words as plain integers and states what each operation returns.

use vstd::arithmetic::power::pow;
use vstd::prelude::*;

verus! {

/// 2^64, the weight of the second word.
pub open spec fn word() -> int {
    0x1_0000_0000_0000_0000
}

/// 2^256, one more than the largest value.
pub open spec fn modulus() -> int {
    word() * word() * word() * word()
}

/// A 256-bit unsigned integer as four 64-bit words, least significant first.
#[derive(Clone, Copy, Debug, PartialEq, Eq, Structural)]
pub struct Uint256 {
    pub w0: u64,
    pub w1: u64,
    pub w2: u64,
    pub w3: u64,
}

/// The character of a decimal digit.
pub open spec fn digit(d: int) -> char
    recommends
        0 <= d < 10,
{
    seq!['0', '1', '2', '3', '4', '5', '6', '7', '8', '9'][d]
}

/// A number in decimal digits, without leading zeros.
pub open spec fn decimal(value: int) -> Seq<char>
    recommends
        value >= 0,
    decreases value,
{
    if value < 10 {
        seq![digit(value)]
    } else {
        decimal(value / 10).push(digit(value % 10))
    }
}

impl Uint256 {
    /// The number that the four words stand for.
    pub open spec fn value(self) -> int {
        self.w0 + self.w1 * word() + self.w2 * word() * word() + self.w3 * word() * word() * word()
    }

    /// The value lies in `0 .. 2^256`.
    pub proof fn lemma_value_range(self)
        ensures
            0 <= self.value() < modulus(),
    {
        let b = word();
        assert(self.w1 * b <= (b - 1) * b) by (nonlinear_arith)
            requires
                0 <= self.w1 <= b - 1,
                b > 0,
        ;
        assert(self.w2 * b * b <= (b - 1) * b * b) by (nonlinear_arith)
            requires
                0 <= self.w2 <= b - 1,
                b > 0,
        ;
        assert(self.w3 * b * b * b <= (b - 1) * b * b * b) by (nonlinear_arith)
            requires
                0 <= self.w3 <= b - 1,
                b > 0,
        ;
        assert(0 <= self.w1 * b && 0 <= self.w2 * b * b && 0 <= self.w3 * b * b * b)
            by (nonlinear_arith)
            requires
                0 <= self.w1,
                0 <= self.w2,
                0 <= self.w3,
                b > 0,
        ;
        assert((b - 1) + (b - 1) * b + (b - 1) * b * b + (b - 1) * b * b * b == b * b * b * b - 1)
            by (nonlinear_arith);
    }

    /// Two numbers with the same value have the same words.
    pub proof fn lemma_value_injective(self, other: Uint256)
        requires
            self.value() == other.value(),
        ensures
            self == other,
    {
        let b = word();
        let hi_a = self.w1 + self.w2 * b + self.w3 * b * b;
        let hi_b = other.w1 + other.w2 * b + other.w3 * b * b;
        assert(self.value() == self.w0 + hi_a * b) by (nonlinear_arith)
            requires
                self.value() == self.w0 + self.w1 * b + self.w2 * b * b + self.w3 * b * b * b,
                hi_a == self.w1 + self.w2 * b + self.w3 * b * b,
        ;
        assert(other.value() == other.w0 + hi_b * b) by (nonlinear_arith)
            requires
                other.value() == other.w0 + other.w1 * b + other.w2 * b * b + other.w3 * b * b
                    * b,
                hi_b == other.w1 + other.w2 * b + other.w3 * b * b,
        ;
        lemma_split_unique(self.w0 as int, hi_a, other.w0 as int, hi_b);
        let top_a = self.w2 + self.w3 * b;
        let top_b = other.w2 + other.w3 * b;
        assert(hi_a == self.w1 + top_a * b) by (nonlinear_arith)
            requires
                hi_a == self.w1 + self.w2 * b + self.w3 * b * b,
                top_a == self.w2 + self.w3 * b,
        ;
        assert(hi_b == other.w1 + top_b * b) by (nonlinear_arith)
            requires
                hi_b == other.w1 + other.w2 * b + other.w3 * b * b,
                top_b == other.w2 + other.w3 * b,
        ;
        lemma_split_unique(self.w1 as int, top_a, other.w1 as int, top_b);
        lemma_split_unique(self.w2 as int, self.w3 as int, other.w2 as int, other.w3 as int);
    }

    /// Zero.
    pub fn zero() -> (r: Uint256)
        ensures
            r.value() == 0,
    {
        Uint256 { w0: 0, w1: 0, w2: 0, w3: 0 }
    }

    /// The largest value, `2^256 - 1`.
    pub fn max() -> (r: Uint256)
        ensures
            r.value() == modulus() - 1,
    {
        let r = Uint256 { w0: u64::MAX, w1: u64::MAX, w2: u64::MAX, w3: u64::MAX };
        proof {
            let b = word();
            assert((b - 1) + (b - 1) * b + (b - 1) * b * b + (b - 1) * b * b * b == b * b * b * b
                - 1) by (nonlinear_arith);
        }
        r
    }

    /// The 256-bit integer with the value of `v`.
    pub fn from_u64(v: u64) -> (r: Uint256)
        ensures
            r.value() == v,
    {
        Uint256 { w0: v, w1: 0, w2: 0, w3: 0 }
    }

    /// Whether the value is zero.
    pub fn is_zero(&self) -> (r: bool)
        ensures
            r == (self.value() == 0),
    {
        proof {
            if self.value() == 0 {
                Uint256 { w0: 0, w1: 0, w2: 0, w3: 0 }.lemma_value_injective(*self);
            }
        }
        self.w0 == 0 && self.w1 == 0 && self.w2 == 0 && self.w3 == 0
    }

    /// The value as a `u64`, where it fits.
    pub fn to_u64(&self) -> (r: Option<u64>)
        ensures
            r is Some <==> self.value() <= u64::MAX,
            r is Some ==> r.unwrap() == self.value(),
    {
        proof {
            let b = word();
            assert(0 <= self.w1 * b && 0 <= self.w2 * b * b && 0 <= self.w3 * b * b * b)
                by (nonlinear_arith)
                requires
                    0 <= self.w1,
                    0 <= self.w2,
                    0 <= self.w3,
                    b > 0,
            ;
            if self.w1 > 0 {
                assert(self.w1 * b >= b) by (nonlinear_arith)
                    requires
                        self.w1 >= 1,
                        b > 0,
                ;
            }
            if self.w2 > 0 {
                assert(self.w2 * b * b >= b) by (nonlinear_arith)
                    requires
                        self.w2 >= 1,
                        b >= 1,
                ;
            }
            if self.w3 > 0 {
                assert(self.w3 * b * b * b >= b) by (nonlinear_arith)
                    requires
                        self.w3 >= 1,
                        b >= 1,
                ;
            }
        }
        if self.w1 == 0 && self.w2 == 0 && self.w3 == 0 {
            Some(self.w0)
        } else {
            None
        }
    }

    /// `10^n`, where it fits in 256 bits: for `n` up to 77.
    pub fn exp10(n: usize) -> (r: Option<Uint256>)
        ensures
            r is Some <==> n <= 77,
            r is Some ==> r.unwrap().value() == pow(10, n as nat),
    {
        if n <= 77 {
            Some(u256_exp10(n))
        } else {
            None
        }
    }

    /// The product, where it fits in 256 bits.
    pub fn checked_mul(&self, other: &Uint256) -> (r: Option<Uint256>)
        ensures
            r is Some <==> self.value() * other.value() < modulus(),
            r is Some ==> r.unwrap().value() == self.value() * other.value(),
    {
        u256_checked_mul(self, other)
    }

    /// The difference, where `other` is not the larger.
    pub fn checked_sub(&self, other: &Uint256) -> (r: Option<Uint256>)
        ensures
            r is Some <==> other.value() <= self.value(),
            r is Some ==> r.unwrap().value() == self.value() - other.value(),
    {
        u256_checked_sub(self, other)
    }

    /// The quotient, rounded down, where `other` is not zero.
    pub fn checked_div(&self, other: &Uint256) -> (r: Option<Uint256>)
        ensures
            r is Some <==> other.value() != 0,
            r is Some ==> r.unwrap().value() == self.value() / other.value(),
    {
        u256_checked_div(self, other)
    }

    /// The value in decimal digits.
    pub fn to_decimal(&self) -> (r: String)
        ensures
            r@ == decimal(self.value()),
    {
        u256_to_string(self)
    }

    /// Whether `self` is smaller than `other`.
    pub fn lt(&self, other: &Uint256) -> (r: bool)
        ensures
            r == (self.value() < other.value()),
    {
        u256_less(self, other)
    }

    /// Whether `self` is at least `other`.
    pub fn ge(&self, other: &Uint256) -> (r: bool)
        ensures
            r == (self.value() >= other.value()),
    {
        !u256_less(self, other)
    }
}

/// A number below `b * b` splits into a low and a high part in one way only.
proof fn lemma_split_unique(lo_a: int, hi_a: int, lo_b: int, hi_b: int)
    requires
        0 <= lo_a < word(),
        0 <= lo_b < word(),
        lo_a + hi_a * word() == lo_b + hi_b * word(),
    ensures
        lo_a == lo_b,
        hi_a == hi_b,
{
    let b = word();
    assert(hi_a == hi_b) by (nonlinear_arith)
        requires
            0 <= lo_a < b,
            0 <= lo_b < b,
            lo_a + hi_a * b == lo_b + hi_b * b,
    ;
}

/// `U256::exp10` of primitive-types, reached as `web3::types::U256`: ten to
/// the power `n`. The outside function panics when the power does not fit,
/// which is the case from `n = 78` on.
#[verifier::external_body]
fn u256_exp10(n: usize) -> (r: Uint256)
    requires
        n <= 77,
    ensures
        r.value() == pow(10, n as nat),
{
    let p = web3::types::U256::exp10(n);
    Uint256 { w0: p.0[0], w1: p.0[1], w2: p.0[2], w3: p.0[3] }
}

/// `U256::checked_mul`: the product, or `None` where it does not fit in 256
/// bits.
#[verifier::external_body]
fn u256_checked_mul(a: &Uint256, b: &Uint256) -> (r: Option<Uint256>)
    ensures
        r is Some <==> a.value() * b.value() < modulus(),
        r is Some ==> r.unwrap().value() == a.value() * b.value(),
{
    let x = web3::types::U256([a.w0, a.w1, a.w2, a.w3]);
    let y = web3::types::U256([b.w0, b.w1, b.w2, b.w3]);
    match x.checked_mul(y) {
        Some(p) => Some(Uint256 { w0: p.0[0], w1: p.0[1], w2: p.0[2], w3: p.0[3] }),
        None => None,
    }
}

/// `U256::checked_sub`: the difference, or `None` where the second number is
/// the larger.
#[verifier::external_body]
fn u256_checked_sub(a: &Uint256, b: &Uint256) -> (r: Option<Uint256>)
    ensures
        r is Some <==> b.value() <= a.value(),
        r is Some ==> r.unwrap().value() == a.value() - b.value(),
{
    let x = web3::types::U256([a.w0, a.w1, a.w2, a.w3]);
    let y = web3::types::U256([b.w0, b.w1, b.w2, b.w3]);
    match x.checked_sub(y) {
        Some(p) => Some(Uint256 { w0: p.0[0], w1: p.0[1], w2: p.0[2], w3: p.0[3] }),
        None => None,
    }
}

/// `U256::checked_div`: the quotient rounded down, or `None` where the
/// divisor is zero.
#[verifier::external_body]
fn u256_checked_div(a: &Uint256, b: &Uint256) -> (r: Option<Uint256>)
    ensures
        r is Some <==> b.value() != 0,
        r is Some ==> r.unwrap().value() == a.value() / b.value(),
{
    let x = web3::types::U256([a.w0, a.w1, a.w2, a.w3]);
    let y = web3::types::U256([b.w0, b.w1, b.w2, b.w3]);
    match x.checked_div(y) {
        Some(p) => Some(Uint256 { w0: p.0[0], w1: p.0[1], w2: p.0[2], w3: p.0[3] }),
        None => None,
    }
}

/// The `to_string` of `U256`: the value in decimal digits, without leading
/// zeros.
#[verifier::external_body]
fn u256_to_string(a: &Uint256) -> (r: String)
    ensures
        r@ == decimal(a.value()),
{
    web3::types::U256([a.w0, a.w1, a.w2, a.w3]).to_string()
}

/// The `<` of `U256`, which orders by value.
#[verifier::external_body]
fn u256_less(a: &Uint256, b: &Uint256) -> (r: bool)
    ensures
        r == (a.value() < b.value()),
{
    web3::types::U256([a.w0, a.w1, a.w2, a.w3]) < web3::types::U256([b.w0, b.w1, b.w2, b.w3])
}

} // verus!
