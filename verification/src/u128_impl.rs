//! Token amounts: moving a whole-unit amount to and from the smallest unit of
//! a token with a given number of decimals.
use vstd::arithmetic::div_mod::{lemma_div_by_multiple, lemma_fundamental_div_mod};
use vstd::prelude::*;

use crate::types::TokenDecimals;

verus! {

/// Ten to the power `d`.
pub open spec fn pow10(d: nat) -> nat
    decreases d,
{
    if d == 0 {
        1
    } else {
        10 * pow10((d - 1) as nat)
    }
}

/// Powers of ten grow with the exponent and are positive.
pub proof fn lemma_pow10_monotone(a: nat, b: nat)
    requires
        a <= b,
    ensures
        0 < pow10(a) <= pow10(b),
    decreases b,
{
    if a < b {
        lemma_pow10_monotone(a, (b - 1) as nat);
    } else if a > 0 {
        lemma_pow10_monotone((a - 1) as nat, (a - 1) as nat);
    }
}

/// Ten to the power `d`, which must fit in a `u128`.
pub fn ten_pow(d: TokenDecimals) -> (r: u128)
    requires
        pow10(d as nat) <= u128::MAX,
    ensures
        r == pow10(d as nat),
{
    let mut r: u128 = 1;
    let mut i: u8 = 0;
    while i < d
        invariant
            i <= d,
            r == pow10(i as nat),
            pow10(d as nat) <= u128::MAX,
        decreases d - i,
    {
        proof {
            lemma_pow10_monotone((i + 1) as nat, d as nat);
        }
        r = r * 10;
        i = i + 1;
    }
    r
}

/// Conversion of an amount between whole units and the smallest unit of a
/// token with `decimals` decimals.
pub trait U128Extensions: Sized {
    /// The amount that the value stands for.
    spec fn amount(self) -> nat;

    /// The amount in smallest units: `self * 10^decimals`. Both the factor
    /// and the product must fit in a `u128`.
    fn to_decimals(self, decimals: TokenDecimals) -> (r: u128)
        requires
            pow10(decimals as nat) <= u128::MAX,
            self.amount() * pow10(decimals as nat) <= u128::MAX,
        ensures
            r == self.amount() * pow10(decimals as nat),
    ;

    /// The amount in whole units: `self / 10^decimals`, rounded down. The
    /// factor must fit in a `u128`.
    fn strip_decimals(self, decimals: TokenDecimals) -> (r: u128)
        requires
            pow10(decimals as nat) <= u128::MAX,
        ensures
            r == self.amount() / pow10(decimals as nat),
    ;
}

impl U128Extensions for u128 {
    open spec fn amount(self) -> nat {
        self as nat
    }

    fn to_decimals(self, decimals: TokenDecimals) -> (r: u128) {
        let f = ten_pow(decimals);
        self * f
    }

    fn strip_decimals(self, decimals: TokenDecimals) -> (r: u128) {
        let f = ten_pow(decimals);
        proof {
            lemma_pow10_monotone(0, decimals as nat);
        }
        self / f
    }
}

/// Stripping the decimals of an amount that was given decimals gives the
/// amount back.
pub proof fn law_strip_undoes_to_decimals(x: u128, decimals: TokenDecimals)
    requires
        pow10(decimals as nat) <= u128::MAX,
        x.amount() * pow10(decimals as nat) <= u128::MAX,
    ensures
        (x.amount() * pow10(decimals as nat)) / pow10(decimals as nat) == x.amount(),
{
    lemma_pow10_monotone(0, decimals as nat);
    lemma_div_by_multiple(x as int, pow10(decimals as nat) as int);
}

/// Stripping decimals drops less than one whole unit: giving the stripped
/// amount its decimals back lands at most `10^decimals - 1` below the
/// original amount.
pub proof fn law_strip_rounds_down(x: u128, decimals: TokenDecimals)
    requires
        pow10(decimals as nat) <= u128::MAX,
    ensures
        (x.amount() / pow10(decimals as nat)) * pow10(decimals as nat) <= x.amount(),
        x.amount() < (x.amount() / pow10(decimals as nat)) * pow10(decimals as nat) + pow10(
            decimals as nat,
        ),
{
    lemma_pow10_monotone(0, decimals as nat);
    let p = pow10(decimals as nat) as int;
    lemma_fundamental_div_mod(x as int, p);
    assert((x as int / p) * p == p * (x as int / p)) by (nonlinear_arith);
}

/// The scale factor is the power of ten: one for no decimals, and ten
/// times more for each further decimal.
pub proof fn law_pow10_is_power_of_ten(d: nat)
    ensures
        pow10(0) == 1,
        pow10(d + 1) == 10 * pow10(d),
        pow10(d) == vstd::arithmetic::power::pow(10, d),
    decreases d,
{
    vstd::arithmetic::power::lemma_pow0(10);
    if d > 0 {
        law_pow10_is_power_of_ten((d - 1) as nat);
        vstd::arithmetic::power::lemma_pow_adds(10, (d - 1) as nat, 1);
        vstd::arithmetic::power::lemma_pow1(10);
    }
}

/// One more decimal multiplies an amount in smallest units by ten.
pub proof fn law_to_decimals_step(x: u128, d: nat)
    ensures
        x.amount() * pow10(d + 1) == 10 * (x.amount() * pow10(d)),
{
    law_pow10_is_power_of_ten(d);
    assert(x.amount() * (10 * pow10(d)) == 10 * (x.amount() * pow10(d))) by (nonlinear_arith);
}

} // verus!
