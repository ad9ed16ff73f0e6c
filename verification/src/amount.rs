//! Amounts in Wei: unsigned 256-bit integers.

use vstd::prelude::*;
use vstd::arithmetic::div_mod::lemma_fundamental_div_mod_converse;
use vstd::arithmetic::div_mod::lemma_fundamental_div_mod;
use crate::primitives::be_value;
use ethers_core::types::U256;

verus! {

/// Two to the power 64: the weight of the second limb.
pub open spec fn limb_base() -> nat {
    0x1_0000_0000_0000_0000nat
}

/// Two to the power 256: the first value that no amount can hold.
pub open spec fn wei_bound() -> nat {
    0x1_0000_0000_0000_0000_0000_0000_0000_0000_0000_0000_0000_0000_0000_0000_0000_0000nat
}

/// The number that four limbs stand for, least significant limb first.
pub open spec fn limbs_value(limbs: Seq<u64>) -> nat {
    (limbs[0] as nat) + (limbs[1] as nat) * limb_base() + (limbs[2] as nat) * limb_base()
        * limb_base() + (limbs[3] as nat) * limb_base() * limb_base() * limb_base()
}

/// An amount of Wei, held as four 64-bit limbs, least significant first.
#[derive(Clone, Copy, Debug, PartialEq, Eq)]
pub struct Wei {
    pub limbs: [u64; 4],
}

impl View for Wei {
    type V = nat;

    open spec fn view(&self) -> nat {
        limbs_value(self.limbs@)
    }
}

/// The weights of the third and fourth limb, and of the bound, as
/// numbers.
pub proof fn lemma_limb_products()
    ensures
        limb_base() * limb_base() == 0x1_0000_0000_0000_0000_0000_0000_0000_0000nat,
        limb_base() * limb_base() * limb_base()
            == 0x1_0000_0000_0000_0000_0000_0000_0000_0000_0000_0000_0000_0000nat,
        limb_base() * limb_base() * limb_base() * limb_base() == wei_bound(),
{
    let b = limb_base();
    assert(b * b == 0x1_0000_0000_0000_0000_0000_0000_0000_0000nat) by (nonlinear_arith)
        requires
            b == 0x1_0000_0000_0000_0000nat,
    ;
    assert(b * b * b == 0x1_0000_0000_0000_0000_0000_0000_0000_0000_0000_0000_0000_0000nat)
        by (nonlinear_arith)
        requires
            b == 0x1_0000_0000_0000_0000nat,
    ;
    assert(b * b * b * b == wei_bound()) by (nonlinear_arith)
        requires
            b == 0x1_0000_0000_0000_0000nat,
            wei_bound()
                == 0x1_0000_0000_0000_0000_0000_0000_0000_0000_0000_0000_0000_0000_0000_0000_0000_0000nat,
    ;
}

/// What each limb contributes to the value, as a product with a number.
pub proof fn lemma_limbs_weigh(l: Seq<u64>)
    ensures
        limbs_value(l) == (l[0] as nat) + (l[1] as nat) * 0x1_0000_0000_0000_0000nat + (l[2] as nat)
            * 0x1_0000_0000_0000_0000_0000_0000_0000_0000nat + (l[3] as nat)
            * 0x1_0000_0000_0000_0000_0000_0000_0000_0000_0000_0000_0000_0000nat,
{
    let b = limb_base();
    lemma_limb_products();
    assert((l[2] as nat) * b * b == (l[2] as nat) * (b * b)) by (nonlinear_arith);
    assert((l[3] as nat) * b * b * b == (l[3] as nat) * (b * b * b)) by (nonlinear_arith);
}

/// Limbs that stand for the same number are the same limbs.
pub proof fn lemma_value_injective(a: Seq<u64>, b: Seq<u64>)
    ensures
        limbs_value(a) == limbs_value(b) <==> (a[0] == b[0] && a[1] == b[1] && a[2] == b[2]
            && a[3] == b[3]),
{
    lemma_limbs_weigh(a);
    lemma_limbs_weigh(b);
}

/// The value is ordered by the limbs, most significant limb first.
pub proof fn lemma_value_order(a: Seq<u64>, b: Seq<u64>)
    ensures
        (a[3] < b[3] || (a[3] == b[3] && (a[2] < b[2] || (a[2] == b[2] && (a[1] < b[1] || (a[1]
            == b[1] && a[0] < b[0])))))) ==> limbs_value(a) < limbs_value(b),
{
    lemma_limbs_weigh(a);
    lemma_limbs_weigh(b);
}

/// Every amount is below two to the power 256.
pub proof fn lemma_wei_in_range(w: Wei)
    ensures
        w@ < wei_bound(),
{
    lemma_limbs_weigh(w.limbs@);
}

/// A ratio of an amount, rounded down and capped at the largest amount:
/// the lesser of `floor(x * numerator / denominator)` and
/// `wei_bound() - 1`.
pub open spec fn ratio_capped(x: nat, numerator: nat, denominator: nat) -> nat {
    let exact = (x * numerator) / denominator;
    if exact < wei_bound() {
        exact
    } else {
        (wei_bound() - 1) as nat
    }
}

/// Splitting a ratio at the divisor: with `x = q * d + r`, the ratio
/// `floor(x * n / d)` is `q * n + floor(r * n / d)`.
pub proof fn lemma_ratio_split(x: nat, n: nat, d: nat)
    requires
        d > 0,
    ensures
        (x * n) / d == (x / d) * n + ((x % d) * n) / d,
        ((x % d) * n) / d < n || n == 0,
{
    let q = (x / d) as int;
    let r = (x % d) as int;
    let di = d as int;
    let ni = n as int;
    lemma_fundamental_div_mod(x as int, di);
    let t = (r * ni) / di;
    let m = (r * ni) % di;
    lemma_fundamental_div_mod(r * ni, di);
    assert((x as int) * ni == (q * ni + t) * di + m) by (nonlinear_arith)
        requires
            x as int == di * q + r,
            r * ni == di * t + m,
    ;
    lemma_fundamental_div_mod_converse((x as int) * ni, di, q * ni + t, m);
    assert(0 <= r * ni) by (nonlinear_arith)
        requires
            0 <= r,
            0 <= ni,
    ;
    if n > 0 {
        assert(t < ni) by (nonlinear_arith)
            requires
                r * ni == di * t + m,
                0 <= m,
                0 <= r < di,
                0 < ni,
        ;
    }
    assert(0 <= t) by (nonlinear_arith)
        requires
            r * ni == di * t + m,
            m < di,
            0 < di,
            0 <= r * ni,
    ;
}

/// `U256::checked_mul`: the product of two 256-bit numbers, or `None`
/// where the product does not fit in 256 bits.
#[verifier::external_body]
pub(crate) fn u256_checked_mul(a: &Wei, b: &Wei) -> (r: Option<Wei>)
    ensures
        a@ * b@ < wei_bound() ==> r.is_some() && r.unwrap()@ == a@ * b@,
        a@ * b@ >= wei_bound() ==> r.is_none(),
{
    U256(a.limbs).checked_mul(U256(b.limbs)).map(|p| Wei { limbs: p.0 })
}

/// `U256::checked_add`: the sum of two 256-bit numbers, or `None` where
/// the sum does not fit in 256 bits.
#[verifier::external_body]
pub(crate) fn u256_checked_add(a: &Wei, b: &Wei) -> (r: Option<Wei>)
    ensures
        a@ + b@ < wei_bound() ==> r.is_some() && r.unwrap()@ == a@ + b@,
        a@ + b@ >= wei_bound() ==> r.is_none(),
{
    U256(a.limbs).checked_add(U256(b.limbs)).map(|p| Wei { limbs: p.0 })
}

/// `U256::div_mod`: quotient and remainder of two 256-bit numbers. The
/// outside function panics on a zero divisor, which `requires` excludes.
#[verifier::external_body]
pub(crate) fn u256_div_mod(a: &Wei, b: &Wei) -> (r: (Wei, Wei))
    requires
        b@ != 0,
    ensures
        r.0@ == a@ / b@,
        r.1@ == a@ % b@,
{
    let (q, m) = U256(a.limbs).div_mod(U256(b.limbs));
    (Wei { limbs: q.0 }, Wei { limbs: m.0 })
}

/// `U256::from_big_endian` on thirty-two bytes: the number that the
/// bytes stand for, most significant byte first.
#[verifier::external_body]
pub(crate) fn u256_from_big_endian(bytes: &[u8; 32]) -> (r: Wei)
    ensures
        r@ == be_value(bytes@),
{
    Wei { limbs: U256::from_big_endian(bytes).0 }
}

impl Wei {
    /// The amount zero.
    pub fn zero() -> (r: Wei)
        ensures
            r@ == 0,
    {
        Wei { limbs: [0, 0, 0, 0] }
    }

    /// The amount that a 64-bit number stands for.
    pub fn from_u64(x: u64) -> (r: Wei)
        ensures
            r@ == x,
    {
        Wei { limbs: [x, 0, 0, 0] }
    }

    /// The largest amount: two to the power 256, less one.
    pub fn max_value() -> (r: Wei)
        ensures
            r@ == wei_bound() - 1,
    {
        let r = Wei {
            limbs: [
                0xffff_ffff_ffff_ffff,
                0xffff_ffff_ffff_ffff,
                0xffff_ffff_ffff_ffff,
                0xffff_ffff_ffff_ffff,
            ],
        };
        proof {
            lemma_limb_products();
        }
        r
    }

    /// Whether the amount fits in 64 bits, and then its value.
    pub fn to_u64(&self) -> (r: Option<u64>)
        ensures
            self@ <= u64::MAX ==> r == Some(self@ as u64),
            self@ > u64::MAX ==> r.is_none(),
    {
        proof {
            lemma_limb_products();
            lemma_limbs_weigh(self.limbs@);
        }
        if self.limbs[1] == 0 && self.limbs[2] == 0 && self.limbs[3] == 0 {
            Some(self.limbs[0])
        } else {
            None
        }
    }

    /// Whether two amounts are the same number.
    pub fn eq_amount(&self, other: &Wei) -> (r: bool)
        ensures
            r == (self@ == other@),
    {
        proof {
            lemma_value_injective(self.limbs@, other.limbs@);
        }
        self.limbs[0] == other.limbs[0] && self.limbs[1] == other.limbs[1] && self.limbs[2]
            == other.limbs[2] && self.limbs[3] == other.limbs[3]
    }

    /// Whether this amount is at most the other.
    pub fn le(&self, other: &Wei) -> (r: bool)
        ensures
            r == (self@ <= other@),
    {
        proof {
            lemma_value_order(self.limbs@, other.limbs@);
            lemma_value_order(other.limbs@, self.limbs@);
        }
        if self.limbs[3] != other.limbs[3] {
            self.limbs[3] < other.limbs[3]
        } else if self.limbs[2] != other.limbs[2] {
            self.limbs[2] < other.limbs[2]
        } else if self.limbs[1] != other.limbs[1] {
            self.limbs[1] < other.limbs[1]
        } else {
            self.limbs[0] <= other.limbs[0]
        }
    }

    /// Quotient and remainder by a divisor, or `None` for the divisor
    /// zero.
    pub fn checked_div_rem(&self, divisor: &Wei) -> (r: Option<(Wei, Wei)>)
        ensures
            divisor@ == 0 ==> r.is_none(),
            divisor@ != 0 ==> r.is_some() && r.unwrap().0@ == self@ / divisor@ && r.unwrap().1@
                == self@ % divisor@,
    {
        if divisor.eq_amount(&Wei::zero()) {
            None
        } else {
            Some(u256_div_mod(self, divisor))
        }
    }

    /// This amount times `numerator / denominator`, rounded down, and
    /// capped at the largest amount where the exact ratio does not fit;
    /// `None` for the denominator zero.
    pub fn mul_ratio(&self, numerator: u64, denominator: u64) -> (r: Option<Wei>)
        ensures
            r.is_some() == (denominator != 0),
            r.is_some() ==> r.unwrap()@ == ratio_capped(
                self@,
                numerator as nat,
                denominator as nat,
            ),
    {
        if denominator == 0 {
            return None;
        }
        let den = Wei::from_u64(denominator);
        let num = Wei::from_u64(numerator);
        let (quotient, rest) = u256_div_mod(self, &den);
        proof {
            lemma_ratio_split(self@, numerator as nat, denominator as nat);
            lemma_wei_in_range(*self);
        }
        let rest64: u64 = match rest.to_u64() {
            Some(v) => v,
            None => 0,
        };
        assert(rest64 == self@ % (denominator as nat));
        assert((rest64 as u128) * (numerator as u128) <= u128::MAX) by (nonlinear_arith)
            requires
                rest64 <= u64::MAX,
                numerator <= u64::MAX,
        ;
        let tail128: u128 = ((rest64 as u128) * (numerator as u128)) / (denominator as u128);
        let tail64: u64 = tail128 as u64;
        let tail = Wei::from_u64(tail64);
        match u256_checked_mul(&quotient, &num) {
            None => Some(Wei::max_value()),
            Some(scaled) => match u256_checked_add(&scaled, &tail) {
                None => Some(Wei::max_value()),
                Some(sum) => Some(sum),
            },
        }
    }

    /// The whole Gwei in this amount of Wei: the amount divided by ten to
    /// the power nine, rounded down.
    pub fn to_gwei(&self) -> (r: Wei)
        ensures
            r@ == self@ / 1_000_000_000,
    {
        let unit = Wei::from_u64(1_000_000_000);
        u256_div_mod(self, &unit).0
    }
}

} // verus!
