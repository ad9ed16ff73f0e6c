//! Fee policies and their estimation from what the node suggests.

use vstd::prelude::*;
use crate::amount::{ratio_capped, u256_checked_mul, wei_bound, Wei};
use crate::error::ErrorKind;

verus! {

/// The gas that a plain transfer of value between two accounts uses.
pub const TRANSFER_GAS_LIMIT: u64 = 21000;

/// A rational factor of at least one, by which suggested fees are raised.
#[derive(Clone, Copy, Debug, PartialEq, Eq)]
pub struct Multiplier {
    numerator: u64,
    denominator: u64,
}

impl Multiplier {
    #[verifier::type_invariant]
    spec fn well_formed(self) -> bool {
        0 < self.denominator <= self.numerator
    }

    /// The numerator of the factor.
    pub closed spec fn num(self) -> nat {
        self.numerator as nat
    }

    /// The denominator of the factor.
    pub closed spec fn den(self) -> nat {
        self.denominator as nat
    }

    /// The factor `numerator / denominator`, or `None` where the
    /// denominator is zero or the factor is below one.
    pub fn new(numerator: u64, denominator: u64) -> (r: Option<Multiplier>)
        ensures
            r.is_some() <==> 0 < denominator <= numerator,
            r.is_some() ==> r.unwrap().num() == numerator && r.unwrap().den() == denominator,
    {
        if 0 < denominator && denominator <= numerator {
            Some(Multiplier { numerator, denominator })
        } else {
            None
        }
    }

    /// The factor two, which absorbs the drift of fees between the
    /// estimate and the inclusion of a transaction.
    pub fn double() -> (r: Multiplier)
        ensures
            r.num() == 2,
            r.den() == 1,
    {
        Multiplier { numerator: 2, denominator: 1 }
    }

    /// The numerator of the factor, which is at least the denominator.
    pub fn numerator(&self) -> (r: u64)
        ensures
            r == self.num(),
            self.den() <= r,
    {
        proof {
            use_type_invariant(self);
        }
        self.numerator
    }

    /// The denominator of the factor, which is not zero.
    pub fn denominator(&self) -> (r: u64)
        ensures
            r == self.den(),
            0 < r,
    {
        proof {
            use_type_invariant(self);
        }
        self.denominator
    }

    /// A suggested fee raised by this factor: rounded down, and capped at
    /// the largest amount.
    pub open spec fn raise(self, fee: nat) -> nat {
        ratio_capped(fee, self.num(), self.den())
    }

    /// Raises a suggested fee by this factor.
    pub fn apply(&self, fee: &Wei) -> (r: Wei)
        ensures
            r@ == self.raise(fee@),
    {
        proof {
            use_type_invariant(self);
        }
        match fee.mul_ratio(self.numerator, self.denominator) {
            Some(raised) => raised,
            None => *fee,
        }
    }
}

/// How a transaction pays for its gas.
#[derive(Clone, Copy, Debug, PartialEq, Eq)]
pub enum GasPolicy {
    /// One price per unit of gas.
    Legacy { gas_price: Wei },
    /// A cap on the whole fee per unit of gas, and a cap on the part of it
    /// that goes to the block's producer.
    Eip1559 { max_fee_per_gas: Wei, max_priority_fee_per_gas: Wei },
}

impl GasPolicy {
    /// The cap on the whole fee is at least the cap on the priority fee.
    pub open spec fn well_formed(self) -> bool {
        match self {
            GasPolicy::Legacy { .. } => true,
            GasPolicy::Eip1559 { max_fee_per_gas, max_priority_fee_per_gas } => max_fee_per_gas@
                >= max_priority_fee_per_gas@,
        }
    }

    /// Fee-market caps, or `None` where the cap on the whole fee is below
    /// the cap on the priority fee.
    pub fn fee_market(max_fee_per_gas: Wei, max_priority_fee_per_gas: Wei) -> (r: Option<GasPolicy>)
        ensures
            r.is_some() == (max_fee_per_gas@ >= max_priority_fee_per_gas@),
            r.is_some() ==> r.unwrap() == (GasPolicy::Eip1559 {
                max_fee_per_gas,
                max_priority_fee_per_gas,
            }),
    {
        if max_priority_fee_per_gas.le(&max_fee_per_gas) {
            Some(GasPolicy::Eip1559 { max_fee_per_gas, max_priority_fee_per_gas })
        } else {
            None
        }
    }

    /// Whether the cap on the whole fee is at least the cap on the
    /// priority fee.
    pub fn is_well_formed(&self) -> (r: bool)
        ensures
            r == self.well_formed(),
    {
        match self {
            GasPolicy::Legacy { .. } => true,
            GasPolicy::Eip1559 { max_fee_per_gas, max_priority_fee_per_gas } => {
                max_priority_fee_per_gas.le(max_fee_per_gas)
            },
        }
    }

    /// The most that one unit of gas can cost under this policy.
    pub open spec fn price_cap(self) -> nat {
        match self {
            GasPolicy::Legacy { gas_price } => gas_price@,
            GasPolicy::Eip1559 { max_fee_per_gas, .. } => max_fee_per_gas@,
        }
    }

    /// The most that `gas_limit` units of gas can cost under this policy,
    /// or `None` where that needs more than 256 bits.
    pub fn max_cost(&self, gas_limit: u64) -> (r: Option<Wei>)
        ensures
            self.price_cap() * gas_limit < wei_bound() ==> r.is_some() && r.unwrap()@
                == self.price_cap() * gas_limit,
            self.price_cap() * gas_limit >= wei_bound() ==> r.is_none(),
    {
        let limit = Wei::from_u64(gas_limit);
        match self {
            GasPolicy::Legacy { gas_price } => u256_checked_mul(gas_price, &limit),
            GasPolicy::Eip1559 { max_fee_per_gas, .. } => u256_checked_mul(max_fee_per_gas, &limit),
        }
    }
}

/// What the node reports of the current fees.
#[derive(Clone, Copy, Debug, PartialEq, Eq)]
pub enum FeeSuggestion {
    /// The node has no fee data.
    Unavailable,
    /// A flat gas price, as chains without a fee market report it.
    Legacy { gas_price: Wei },
    /// The caps that the fee market suggests.
    Eip1559 { max_fee_per_gas: Wei, max_priority_fee_per_gas: Wei },
}

/// The policy that a suggestion and a factor give: both fees raised by
/// the factor, and the cap on the whole fee lifted to the cap on the
/// priority fee where it fell below it.
pub open spec fn fees_match(suggestion: FeeSuggestion, multiplier: Multiplier, policy: GasPolicy) -> bool {
    match suggestion {
        FeeSuggestion::Unavailable => false,
        FeeSuggestion::Legacy { gas_price } => policy matches GasPolicy::Legacy { gas_price: raised }
            && raised@ == multiplier.raise(gas_price@),
        FeeSuggestion::Eip1559 { max_fee_per_gas, max_priority_fee_per_gas } => {
            let fee = multiplier.raise(max_fee_per_gas@);
            let tip = multiplier.raise(max_priority_fee_per_gas@);
            policy matches GasPolicy::Eip1559 {
                max_fee_per_gas: raised_fee,
                max_priority_fee_per_gas: raised_tip,
            } && raised_tip@ == tip && raised_fee@ == (if fee >= tip {
                fee
            } else {
                tip
            })
        },
    }
}

/// The fee policy for the next transaction, from the node's suggestion
/// and a safety factor. Fails only where the node has no fee data.
pub fn estimate_fees(suggestion: &FeeSuggestion, multiplier: &Multiplier) -> (r: Result<
    GasPolicy,
    ErrorKind,
>)
    ensures
        *suggestion is Unavailable <==> r.is_err(),
        r.is_err() ==> r == Err::<GasPolicy, ErrorKind>(ErrorKind::EstimationUnavailable),
        r.is_ok() ==> fees_match(*suggestion, *multiplier, r.unwrap()),
        r.is_ok() ==> r.unwrap().well_formed(),
{
    match suggestion {
        FeeSuggestion::Unavailable => Err(ErrorKind::EstimationUnavailable),
        FeeSuggestion::Legacy { gas_price } => Ok(
            GasPolicy::Legacy { gas_price: multiplier.apply(gas_price) },
        ),
        FeeSuggestion::Eip1559 { max_fee_per_gas, max_priority_fee_per_gas } => {
            let fee = multiplier.apply(max_fee_per_gas);
            let tip = multiplier.apply(max_priority_fee_per_gas);
            let capped = if tip.le(&fee) {
                fee
            } else {
                tip
            };
            Ok(GasPolicy::Eip1559 { max_fee_per_gas: capped, max_priority_fee_per_gas: tip })
        },
    }
}

/// A gas price of up to ten to the power twelve Wei, paid for up to ten
/// to the power seven units of gas, is an amount: the product fits in 256
/// bits, and in 64 bits too.
pub proof fn lemma_realistic_cost_fits(policy: GasPolicy, gas_limit: u64)
    requires
        policy.price_cap() <= 1_000_000_000_000,
        gas_limit <= 10_000_000,
    ensures
        policy.price_cap() * gas_limit <= 10_000_000_000_000_000_000,
        policy.price_cap() * gas_limit < wei_bound(),
{
    assert(policy.price_cap() * gas_limit <= 1_000_000_000_000 * 10_000_000) by (nonlinear_arith)
        requires
            policy.price_cap() <= 1_000_000_000_000,
            gas_limit <= 10_000_000,
    ;
}

/// Raising a fee by a factor of at least one never lowers it.
pub proof fn lemma_raise_not_below(multiplier: Multiplier, fee: Wei)
    requires
        0 < multiplier.den() <= multiplier.num(),
    ensures
        multiplier.raise(fee@) >= fee@,
{
    crate::amount::lemma_wei_in_range(fee);
    let x = fee@ as int;
    let n = multiplier.num() as int;
    let d = multiplier.den() as int;
    assert(x * n >= x * d) by (nonlinear_arith)
        requires
            n >= d,
            x >= 0,
    ;
    assert(d * x == x * d) by (nonlinear_arith);
    vstd::arithmetic::div_mod::lemma_div_is_ordered(d * x, x * n, d);
    vstd::arithmetic::div_mod::lemma_div_multiples_vanish(x, d);
    assert((d * x) / d == x);
    assert((fee@ * multiplier.num()) / multiplier.den() == (x * n) / d);
}

} // verus!
