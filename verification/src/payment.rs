use vstd::prelude::*;
use crate::address::Address;
use crate::error::Error;
use crate::events::Event;
use crate::fees::{platform_fee, recipient_amount, split_fee};

verus! {

/// What a payment was made for.
#[derive(Clone, Copy, Debug, PartialEq, Eq, Structural)]
pub enum PaymentType {
    Content,
    Tip,
}

impl PaymentType {
    /// The name of the kind: `content` or `tip`.
    pub open spec fn name_text(&self) -> Seq<char> {
        match self {
            PaymentType::Content => "content"@,
            PaymentType::Tip => "tip"@,
        }
    }

    /// The name of the kind: `content` or `tip`.
    pub fn name(&self) -> (text: &'static str)
        ensures
            text@ == self.name_text(),
    {
        match self {
            PaymentType::Content => "content",
            PaymentType::Tip => "tip",
        }
    }
}

/// One payment, as it was made. A record never changes.
#[derive(Debug, PartialEq, Eq)]
pub struct PaymentRecord {
    pub payment_id: u64,
    pub payer: Address,
    pub recipient: Address,
    pub amount: i128,
    pub platform_fee: i128,
    pub payment_type: PaymentType,
    pub content_id: Option<u64>,
    pub timestamp: u64,
}

impl PaymentRecord {
    /// What the recipient got of the payment.
    pub open spec fn recipient_amount(&self) -> int {
        self.amount - self.platform_fee
    }

    /// Whether the record is one of a payment split by the platform's rate,
    /// with a content identifier exactly when it paid for content.
    pub open spec fn consistent(&self) -> bool {
        &&& self.platform_fee == platform_fee(self.amount as int)
        &&& self.payment_type == PaymentType::Content <==> self.content_id is Some
    }
}

impl Clone for PaymentRecord {
    fn clone(&self) -> (c: PaymentRecord)
        ensures
            c == *self,
    {
        PaymentRecord {
            payment_id: self.payment_id,
            payer: self.payer.clone(),
            recipient: self.recipient.clone(),
            amount: self.amount,
            platform_fee: self.platform_fee,
            payment_type: self.payment_type,
            content_id: self.content_id,
            timestamp: self.timestamp,
        }
    }
}

/// An order to move `amount` of `token` from one account to another. The
/// processor decides when and how much; moving it is the caller's part.
#[derive(Debug, PartialEq, Eq)]
pub struct Transfer {
    pub token: Address,
    pub from: Address,
    pub to: Address,
    pub amount: i128,
}

/// What a payment leaves to do and to tell: the two transfers, to be carried
/// out in this order, and the event to publish. If a transfer fails the
/// payment has failed, and the processor as it was before the payment stands.
#[derive(Debug, PartialEq, Eq)]
pub struct PaymentReceipt {
    pub payment_id: u64,
    pub to_recipient: Transfer,
    pub to_platform: Transfer,
    pub event: Event,
}

/// What a payment processor holds, as mathematics: its two accounts once it
/// was given them, how many payments were made, and the record of each by
/// identifier.
pub struct PaymentView {
    pub platform_address: Option<Address>,
    pub token_address: Option<Address>,
    pub counter: nat,
    pub payments: Map<u64, PaymentRecord>,
}

impl PaymentView {
    /// The processor that was given no account and made no payment yet.
    pub open spec fn empty() -> PaymentView {
        PaymentView {
            platform_address: None,
            token_address: None,
            counter: 0,
            payments: Map::empty(),
        }
    }

    /// Whether a payment was recorded under `payment_id`.
    pub open spec fn paid(self, payment_id: u64) -> bool {
        self.payments.dom().contains(payment_id)
    }

    /// What holds of every processor: the identifiers in use are exactly 1 to
    /// the counter, every record carries its own identifier, and every record
    /// is consistent.
    pub open spec fn inv(self) -> bool {
        &&& self.counter <= u64::MAX
        &&& forall|id: u64| #[trigger] self.paid(id) <==> 1 <= id <= self.counter
        &&& forall|id: u64| #[trigger]
            self.paid(id) ==> self.payments[id].payment_id == id && self.payments[id].consistent()
    }

    /// The processor after it was given its accounts.
    pub open spec fn configure(
        self,
        platform_address: Address,
        token_address: Address,
    ) -> PaymentView {
        PaymentView {
            platform_address: Some(platform_address),
            token_address: Some(token_address),
            ..self
        }
    }

    /// Why a payment asked by `caller` in the name of `payer` is refused, if
    /// it is: the caller must be the payer, the processor must have its
    /// accounts, and an identifier must be left.
    pub open spec fn payment_refusal(self, caller: Seq<char>, payer: Seq<char>) -> Option<Error> {
        if caller != payer {
            Some(Error::Unauthorized)
        } else if self.platform_address is None || self.token_address is None {
            Some(Error::NotConfigured)
        } else if self.counter >= u64::MAX {
            Some(Error::Overflow)
        } else {
            None
        }
    }

    /// The processor after one more payment was recorded at time `now`.
    pub open spec fn record(
        self,
        payer: Address,
        recipient: Address,
        amount: i128,
        payment_type: PaymentType,
        content_id: Option<u64>,
        now: u64,
    ) -> PaymentView {
        let id = (self.counter + 1) as u64;
        PaymentView {
            counter: self.counter + 1,
            payments: self.payments.insert(
                id,
                PaymentRecord {
                    payment_id: id,
                    payer,
                    recipient,
                    amount,
                    platform_fee: platform_fee(amount as int) as i128,
                    payment_type,
                    content_id,
                    timestamp: now,
                },
            ),
            ..self
        }
    }

    /// The receipt of the payment that `record` records.
    pub open spec fn receipt(
        self,
        payer: Address,
        recipient: Address,
        amount: i128,
        event: Event,
    ) -> PaymentReceipt {
        PaymentReceipt {
            payment_id: (self.counter + 1) as u64,
            to_recipient: Transfer {
                token: self.token_address->0,
                from: payer,
                to: recipient,
                amount: recipient_amount(amount as int) as i128,
            },
            to_platform: Transfer {
                token: self.token_address->0,
                from: payer,
                to: self.platform_address->0,
                amount: platform_fee(amount as int) as i128,
            },
            event,
        }
    }
}

/// Every recorded payment is conserved: the platform's fee and the
/// recipient's amount add up to the amount paid, and the fee is the amount
/// times the rate, rounded toward zero; for an amount that is not negative
/// that is the floor of `amount * 500 / 10000`.
pub proof fn lemma_payments_are_conserved(s: PaymentView, payment_id: u64)
    requires
        s.inv(),
        s.paid(payment_id),
    ensures
        ({
            let record = s.payments[payment_id];
            &&& record.platform_fee + record.recipient_amount() == record.amount
            &&& record.platform_fee == platform_fee(record.amount as int)
            &&& record.recipient_amount() == recipient_amount(record.amount as int)
            &&& record.amount >= 0 ==> record.platform_fee == (record.amount * 500) / 10000
        }),
{
}

/// Recording a payment keeps a processor in order, gives the payment the
/// identifier that follows the counter, and leaves the earlier records as they
/// were.
pub proof fn lemma_record_preserves_inv(
    s: PaymentView,
    payer: Address,
    recipient: Address,
    amount: i128,
    payment_type: PaymentType,
    content_id: Option<u64>,
    now: u64,
)
    requires
        s.inv(),
        s.counter < u64::MAX,
        payment_type == PaymentType::Content <==> content_id is Some,
    ensures
        ({
            let t = s.record(payer, recipient, amount, payment_type, content_id, now);
            let id = (s.counter + 1) as u64;
            &&& t.inv()
            &&& !s.paid(id)
            &&& forall|other: u64| #[trigger] t.paid(other) <==> s.paid(other) || other == id
            &&& forall|other: u64| #[trigger]
                s.paid(other) ==> other < id && t.payments[other] == s.payments[other]
        }),
{
    let t = s.record(payer, recipient, amount, payment_type, content_id, now);
    let id = (s.counter + 1) as u64;
    assert(!s.paid(id));
    assert forall|other: u64| #[trigger] t.paid(other) <==> s.paid(other) || other == id by {}
}

/// Whether `records` are numbered from 1 in their order, and each of them is
/// consistent.
pub open spec fn restorable(records: Seq<PaymentRecord>) -> bool {
    forall|i: int|
        0 <= i < records.len() ==> (#[trigger] records[i]).payment_id == i + 1
            && records[i].consistent()
}

/// The payment processor: the platform's account, the token in which
/// payments are made, and the history of payments.
pub struct PaymentContract {
    platform_address: Option<Address>,
    token_address: Option<Address>,
    payments: Vec<PaymentRecord>,
}

impl View for PaymentContract {
    type V = PaymentView;

    closed spec fn view(&self) -> PaymentView {
        PaymentView {
            platform_address: self.platform_address,
            token_address: self.token_address,
            counter: self.payments@.len(),
            payments: Map::new(
                |id: u64| 1 <= id <= self.payments@.len(),
                |id: u64| self.payments@[id - 1],
            ),
        }
    }
}

impl PaymentContract {
    /// Whether the processor is one that `new` and the operations can have
    /// made.
    pub open spec fn wf(&self) -> bool {
        self@.inv()
    }

    /// A processor that was given no account and made no payment yet.
    pub fn new() -> (processor: PaymentContract)
        ensures
            processor.wf(),
            processor@ == PaymentView::empty(),
    {
        let processor = PaymentContract {
            platform_address: None,
            token_address: None,
            payments: Vec::new(),
        };
        assert(processor@.payments =~= Map::empty());
        processor
    }

    /// The processor that holds the accounts and `records`, as they were
    /// kept elsewhere in the order of their identifiers; none if the records
    /// are not numbered from 1 in that order, or one of them is not
    /// consistent.
    pub fn restore(
        platform_address: Option<Address>,
        token_address: Option<Address>,
        records: Vec<PaymentRecord>,
    ) -> (restored: Option<PaymentContract>)
        ensures
            match restored {
                Some(processor) => {
                    &&& restorable(records@)
                    &&& processor.wf()
                    &&& processor@.platform_address == platform_address
                    &&& processor@.token_address == token_address
                    &&& processor@.counter == records@.len()
                    &&& forall|i: int|
                        0 <= i < records@.len() ==> processor@.payments[(i + 1) as u64]
                            == #[trigger] records@[i]
                },
                None => !restorable(records@),
            },
    {
        let mut i: usize = 0;
        while i < records.len()
            invariant
                i <= records@.len(),
                forall|j: int|
                    0 <= j < i ==> (#[trigger] records@[j]).payment_id == j + 1
                        && records@[j].consistent(),
            decreases records@.len() - i,
        {
            let record = &records[i];
            let for_content = match record.payment_type {
                PaymentType::Content => true,
                PaymentType::Tip => false,
            };
            if record.payment_id != i as u64 + 1 || record.platform_fee != split_fee(
                record.amount,
            ).platform_fee || for_content != record.content_id.is_some() {
                return None;
            }
            i += 1;
        }
        let processor = PaymentContract { platform_address, token_address, payments: records };
        proof {
            assert forall|id: u64| #[trigger] processor@.paid(id) implies processor@.payments[id].payment_id
                == id && processor@.payments[id].consistent() by {
                assert(records@[id - 1].payment_id == id);
            }
        }
        Some(processor)
    }

    /// Gives the processor the platform's account and the token in which
    /// payments are made. Accounts given earlier are replaced.
    pub fn initialize(&mut self, platform_address: Address, token_address: Address)
        requires
            old(self).wf(),
        ensures
            final(self).wf(),
            final(self)@ == old(self)@.configure(platform_address, token_address),
    {
        let ghost before = *self;
        self.platform_address = Some(platform_address);
        self.token_address = Some(token_address);
        proof {
            assert(self@.payments =~= before@.payments);
            assert forall|id: u64| #[trigger] self@.paid(id) <==> before@.paid(id) by {}
        }
    }

    /// Appends the record of a payment and returns its identifier.
    fn record_payment(
        &mut self,
        payer: Address,
        recipient: Address,
        amount: i128,
        platform_fee: i128,
        payment_type: PaymentType,
        content_id: Option<u64>,
        now: u64,
    ) -> (payment_id: u64)
        requires
            old(self).wf(),
            old(self)@.counter < u64::MAX,
            platform_fee == crate::fees::platform_fee(amount as int),
            payment_type == PaymentType::Content <==> content_id is Some,
        ensures
            final(self).wf(),
            payment_id == old(self)@.counter + 1,
            final(self)@ == old(self)@.record(
                payer,
                recipient,
                amount,
                payment_type,
                content_id,
                now,
            ),
    {
        let payment_id: u64 = self.payments.len() as u64 + 1;
        let ghost before = *self;
        self.payments.push(
            PaymentRecord {
                payment_id,
                payer,
                recipient,
                amount,
                platform_fee,
                payment_type,
                content_id,
                timestamp: now,
            },
        );
        proof {
            let after = before@.record(payer, recipient, amount, payment_type, content_id, now);
            assert(self@.payments =~= after.payments);
            lemma_record_preserves_inv(
                before@,
                payer,
                recipient,
                amount,
                payment_type,
                content_id,
                now,
            );
        }
        payment_id
    }

    /// Pays `amount` from `payer` to `creator` for `content_id` at time
    /// `now`: the platform takes its fee, the creator gets the rest, and the
    /// payment is recorded under the next identifier.
    ///
    /// The caller must be the payer, the processor must have its accounts,
    /// and an identifier must be left; a refused payment changes nothing. No
    /// amount is turned away for its sign.
    pub fn pay_for_content(
        &mut self,
        caller: &Address,
        now: u64,
        payer: Address,
        creator: Address,
        amount: i128,
        content_id: u64,
    ) -> (paid: Result<PaymentReceipt, Error>)
        requires
            old(self).wf(),
        ensures
            final(self).wf(),
            match old(self)@.payment_refusal(caller@, payer@) {
                Some(e) => paid == Err::<PaymentReceipt, Error>(e) && *final(self) == *old(self),
                None => {
                    &&& paid == Ok::<PaymentReceipt, Error>(
                        old(self)@.receipt(
                            payer,
                            creator,
                            amount,
                            Event::PaymentProcessed {
                                payment_id: (old(self)@.counter + 1) as u64,
                                payer,
                                creator,
                                amount,
                                content_id,
                            },
                        ),
                    )
                    &&& final(self)@ == old(self)@.record(
                        payer,
                        creator,
                        amount,
                        PaymentType::Content,
                        Some(content_id),
                        now,
                    )
                },
            },
    {
        if !(*caller == payer) {
            return Err(Error::Unauthorized);
        }
        let platform_address = match &self.platform_address {
            Some(address) => address.clone(),
            None => { return Err(Error::NotConfigured); },
        };
        let token_address = match &self.token_address {
            Some(address) => address.clone(),
            None => { return Err(Error::NotConfigured); },
        };
        if self.payments.len() as u64 == u64::MAX {
            return Err(Error::Overflow);
        }
        let split = split_fee(amount);
        let payment_id = self.record_payment(
            payer.clone(),
            creator.clone(),
            amount,
            split.platform_fee,
            PaymentType::Content,
            Some(content_id),
            now,
        );
        Ok(
            PaymentReceipt {
                payment_id,
                to_recipient: Transfer {
                    token: token_address.clone(),
                    from: payer.clone(),
                    to: creator.clone(),
                    amount: split.recipient_amount,
                },
                to_platform: Transfer {
                    token: token_address,
                    from: payer.clone(),
                    to: platform_address,
                    amount: split.platform_fee,
                },
                event: Event::PaymentProcessed { payment_id, payer, creator, amount, content_id },
            },
        )
    }

    /// Tips `creator` with `amount` from `tipper` at time `now`: the platform
    /// takes its fee, the creator gets the rest, and the tip is recorded
    /// under the next identifier.
    ///
    /// The caller must be the tipper, the processor must have its accounts,
    /// and an identifier must be left; a refused tip changes nothing. No
    /// amount is turned away for its sign.
    pub fn send_tip(
        &mut self,
        caller: &Address,
        now: u64,
        tipper: Address,
        creator: Address,
        amount: i128,
    ) -> (tipped: Result<PaymentReceipt, Error>)
        requires
            old(self).wf(),
        ensures
            final(self).wf(),
            match old(self)@.payment_refusal(caller@, tipper@) {
                Some(e) => tipped == Err::<PaymentReceipt, Error>(e) && *final(self) == *old(self),
                None => {
                    &&& tipped == Ok::<PaymentReceipt, Error>(
                        old(self)@.receipt(
                            tipper,
                            creator,
                            amount,
                            Event::TipSent {
                                payment_id: (old(self)@.counter + 1) as u64,
                                tipper,
                                creator,
                                amount,
                            },
                        ),
                    )
                    &&& final(self)@ == old(self)@.record(
                        tipper,
                        creator,
                        amount,
                        PaymentType::Tip,
                        None,
                        now,
                    )
                },
            },
    {
        if !(*caller == tipper) {
            return Err(Error::Unauthorized);
        }
        let platform_address = match &self.platform_address {
            Some(address) => address.clone(),
            None => { return Err(Error::NotConfigured); },
        };
        let token_address = match &self.token_address {
            Some(address) => address.clone(),
            None => { return Err(Error::NotConfigured); },
        };
        if self.payments.len() as u64 == u64::MAX {
            return Err(Error::Overflow);
        }
        let split = split_fee(amount);
        let payment_id = self.record_payment(
            tipper.clone(),
            creator.clone(),
            amount,
            split.platform_fee,
            PaymentType::Tip,
            None,
            now,
        );
        Ok(
            PaymentReceipt {
                payment_id,
                to_recipient: Transfer {
                    token: token_address.clone(),
                    from: tipper.clone(),
                    to: creator.clone(),
                    amount: split.recipient_amount,
                },
                to_platform: Transfer {
                    token: token_address,
                    from: tipper.clone(),
                    to: platform_address,
                    amount: split.platform_fee,
                },
                event: Event::TipSent { payment_id, tipper, creator, amount },
            },
        )
    }

    /// The record of `payment_id`, if a payment was recorded under it.
    pub fn get_payment(&self, payment_id: u64) -> (found: Option<PaymentRecord>)
        requires
            self.wf(),
        ensures
            found == if self@.paid(payment_id) {
                Some(self@.payments[payment_id])
            } else {
                None
            },
    {
        if 1 <= payment_id && payment_id - 1 < self.payments.len() as u64 {
            Some(self.payments[(payment_id - 1) as usize].clone())
        } else {
            None
        }
    }
}

} // verus!
