use vstd::prelude::*;

verus! {

/// The platform's share of every payment, in basis points (5%).
pub const PLATFORM_FEE_BPS: i128 = 500;

/// The number of basis points in a whole.
pub const BPS_DENOMINATOR: i128 = 10000;

/// The quotient of `a` by a positive `b`, rounded toward zero.
pub open spec fn div_toward_zero(a: int, b: int) -> int {
    if a >= 0 {
        a / b
    } else {
        -((-a) / b)
    }
}

/// The platform's share of a payment of `amount`: the exact product of the
/// amount and the rate, divided by the denominator and rounded toward zero.
pub open spec fn platform_fee(amount: int) -> int {
    div_toward_zero(amount * PLATFORM_FEE_BPS, BPS_DENOMINATOR as int)
}

/// What is left of a payment of `amount` for its recipient.
pub open spec fn recipient_amount(amount: int) -> int {
    amount - platform_fee(amount)
}

/// A payment divided between the platform and the recipient.
#[derive(Clone, Copy, Debug, PartialEq, Eq, Structural)]
pub struct FeeSplit {
    pub platform_fee: i128,
    pub recipient_amount: i128,
}

/// Divides a payment of `amount` between the platform and the recipient.
///
/// The product of the amount and the rate is never formed in 128 bits: the
/// amount is first divided by the denominator, and the rate is applied to the
/// quotient and to the remainder apart, so every amount of the type is split
/// without overflow.
pub fn split_fee(amount: i128) -> (split: FeeSplit)
    ensures
        split.platform_fee == platform_fee(amount as int),
        split.recipient_amount == recipient_amount(amount as int),
        split.platform_fee + split.recipient_amount == amount,
{
    let whole: i128 = amount / BPS_DENOMINATOR;
    let rest: i128 = amount % BPS_DENOMINATOR;
    let fee: i128 = whole * PLATFORM_FEE_BPS + (rest * PLATFORM_FEE_BPS) / BPS_DENOMINATOR;
    FeeSplit { platform_fee: fee, recipient_amount: amount - fee }
}

/// The two shares of a payment add up to the payment: nothing is made or lost
/// by rounding.
pub proof fn lemma_split_conserves(amount: int)
    ensures
        platform_fee(amount) + recipient_amount(amount) == amount,
{
}

/// Of a payment that is not negative the platform's share is the floor of
/// `amount * 500 / 10000`, and neither share is negative.
pub proof fn lemma_fee_is_floor(amount: int)
    requires
        amount >= 0,
    ensures
        platform_fee(amount) == (amount * 500) / 10000,
        0 <= platform_fee(amount) <= amount,
        0 <= recipient_amount(amount) <= amount,
{
}

} // verus!
