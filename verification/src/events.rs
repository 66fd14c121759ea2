use vstd::prelude::*;
use crate::address::Address;

verus! {

/// What a component tells its observers after a change. Every operation that
/// changes state hands back exactly one of these; the fields of a variant are
/// the payload, in the order in which it is published.
#[derive(Debug, PartialEq, Eq)]
pub enum Event {
    ContentMinted { content_id: u64, creator: Address, price: i128 },
    ContentUpdated { content_id: u64, creator: Address },
    PriceUpdated { content_id: u64, new_price: i128 },
    PaymentProcessed {
        payment_id: u64,
        payer: Address,
        creator: Address,
        amount: i128,
        content_id: u64,
    },
    TipSent { payment_id: u64, tipper: Address, creator: Address, amount: i128 },
    EarningRecorded { creator: Address, amount: i128 },
    WithdrawalProcessed { creator: Address, amount: i128 },
    TierCreated { tier_id: u64, creator: Address, price: i128 },
    Subscribed { subscriber: Address, creator: Address, tier_id: u64, expiry_date: u64 },
    SubscriptionCancelled { subscriber: Address, creator: Address },
    SubscriptionRenewed { subscriber: Address, creator: Address, expiry_date: u64 },
}

impl Event {
    /// The topic under which the event is published.
    pub open spec fn topic_name(&self) -> Seq<char> {
        match self {
            Event::ContentMinted { .. } => "content_minted"@,
            Event::ContentUpdated { .. } => "content_updated"@,
            Event::PriceUpdated { .. } => "price_updated"@,
            Event::PaymentProcessed { .. } => "payment_processed"@,
            Event::TipSent { .. } => "tip_sent"@,
            Event::EarningRecorded { .. } => "earning_recorded"@,
            Event::WithdrawalProcessed { .. } => "withdrawal_processed"@,
            Event::TierCreated { .. } => "tier_created"@,
            Event::Subscribed { .. } => "subscribed"@,
            Event::SubscriptionCancelled { .. } => "subscription_cancelled"@,
            Event::SubscriptionRenewed { .. } => "subscription_renewed"@,
        }
    }

    /// The topic under which the event is published.
    pub fn topic(&self) -> (name: &'static str)
        ensures
            name@ == self.topic_name(),
    {
        match self {
            Event::ContentMinted { .. } => "content_minted",
            Event::ContentUpdated { .. } => "content_updated",
            Event::PriceUpdated { .. } => "price_updated",
            Event::PaymentProcessed { .. } => "payment_processed",
            Event::TipSent { .. } => "tip_sent",
            Event::EarningRecorded { .. } => "earning_recorded",
            Event::WithdrawalProcessed { .. } => "withdrawal_processed",
            Event::TierCreated { .. } => "tier_created",
            Event::Subscribed { .. } => "subscribed",
            Event::SubscriptionCancelled { .. } => "subscription_cancelled",
            Event::SubscriptionRenewed { .. } => "subscription_renewed",
        }
    }
}

} // verus!
