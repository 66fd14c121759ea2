use vstd::prelude::*;
use crate::address::Address;
use crate::error::Error;
use crate::events::Event;
use crate::keyed::{
    as_map, distinct_keys, has_key, index_of, lemma_lookup, lemma_push, lemma_update, Keyed,
};

verus! {

/// The least amount that can be withdrawn, unless another is set.
pub const DEFAULT_MIN_WITHDRAWAL: i128 = 1_000_000;

/// What a creator has earned, has withdrawn and can still withdraw.
#[derive(Debug, PartialEq, Eq)]
pub struct CreatorBalance {
    pub creator: Address,
    pub available_balance: i128,
    pub total_earned: i128,
    pub total_withdrawn: i128,
    pub last_withdrawal: u64,
}

impl CreatorBalance {
    /// The balance of a creator who has earned and withdrawn nothing.
    pub open spec fn zero(creator: Address) -> CreatorBalance {
        CreatorBalance {
            creator,
            available_balance: 0,
            total_earned: 0,
            total_withdrawn: 0,
            last_withdrawal: 0,
        }
    }

    /// What is available is what was earned less what was withdrawn, and
    /// nothing negative was withdrawn.
    pub open spec fn balanced(&self) -> bool {
        &&& self.available_balance == self.total_earned - self.total_withdrawn
        &&& self.total_withdrawn >= 0
    }

    /// None of the three amounts is negative.
    pub open spec fn nonnegative(&self) -> bool {
        &&& self.available_balance >= 0
        &&& self.total_earned >= 0
        &&& self.total_withdrawn >= 0
    }

    /// The balance after `amount` more was earned.
    pub open spec fn credit(self, amount: i128) -> CreatorBalance {
        CreatorBalance {
            available_balance: (self.available_balance + amount) as i128,
            total_earned: (self.total_earned + amount) as i128,
            ..self
        }
    }

    /// Whether `amount` more can be earned without an amount leaving its
    /// range.
    pub open spec fn can_credit(self, amount: i128) -> bool {
        &&& i128::MIN <= self.available_balance + amount <= i128::MAX
        &&& i128::MIN <= self.total_earned + amount <= i128::MAX
    }

    /// The balance after `amount` was withdrawn at time `now`.
    pub open spec fn debit(self, amount: i128, now: u64) -> CreatorBalance {
        CreatorBalance {
            available_balance: (self.available_balance - amount) as i128,
            total_withdrawn: (self.total_withdrawn + amount) as i128,
            last_withdrawal: now,
            ..self
        }
    }
}

impl Clone for CreatorBalance {
    fn clone(&self) -> (c: CreatorBalance)
        ensures
            c == *self,
    {
        CreatorBalance {
            creator: self.creator.clone(),
            available_balance: self.available_balance,
            total_earned: self.total_earned,
            total_withdrawn: self.total_withdrawn,
            last_withdrawal: self.last_withdrawal,
        }
    }
}

impl Keyed for CreatorBalance {
    type Key = Seq<char>;

    open spec fn key(&self) -> Seq<char> {
        self.creator@
    }
}

/// An order to move `amount` of `token` out of the ledger's own custody to a
/// creator. The ledger decides when and how much; moving it is the caller's
/// part.
#[derive(Debug, PartialEq, Eq)]
pub struct Payout {
    pub token: Address,
    pub to: Address,
    pub amount: i128,
}

/// What a revenue ledger holds, as mathematics: the token that it pays out in
/// once it was given one, the least amount that can be withdrawn, and the
/// balance of every creator who has one.
pub struct RevenueView {
    pub token_address: Option<Address>,
    pub min_withdrawal: i128,
    pub balances: Map<Seq<char>, CreatorBalance>,
}

impl RevenueView {
    /// The ledger that was given no token and holds no balance yet.
    pub open spec fn empty() -> RevenueView {
        RevenueView {
            token_address: None,
            min_withdrawal: DEFAULT_MIN_WITHDRAWAL,
            balances: Map::empty(),
        }
    }

    /// Whether `creator` has a balance.
    pub open spec fn has_balance(self, creator: Seq<char>) -> bool {
        self.balances.dom().contains(creator)
    }

    /// The balance of `creator`: the one that is kept, or for a creator
    /// without one the balance of nothing earned and nothing withdrawn.
    pub open spec fn balance_of(self, creator: Address) -> CreatorBalance {
        if self.has_balance(creator@) {
            self.balances[creator@]
        } else {
            CreatorBalance::zero(creator)
        }
    }

    /// What holds of every ledger: the threshold is not negative, every
    /// balance is kept under its creator, and in every balance what is
    /// available is what was earned less what was withdrawn.
    pub open spec fn inv(self) -> bool {
        &&& self.min_withdrawal >= 0
        &&& forall|c: Seq<char>| #[trigger]
            self.has_balance(c) ==> self.balances[c].creator@ == c && self.balances[c].balanced()
    }

    /// No amount of any balance is negative.
    pub open spec fn solvent(self) -> bool {
        forall|c: Seq<char>| #[trigger] self.has_balance(c) ==> self.balances[c].nonnegative()
    }

    /// The ledger after it was given its token.
    pub open spec fn configure(self, token_address: Address) -> RevenueView {
        RevenueView {
            token_address: Some(token_address),
            min_withdrawal: DEFAULT_MIN_WITHDRAWAL,
            ..self
        }
    }

    /// Why an earning of `amount` for `creator` is refused, if it is: no
    /// amount of the balance may leave its range.
    pub open spec fn earning_refusal(self, creator: Address, amount: i128) -> Option<Error> {
        if !self.balance_of(creator).can_credit(amount) {
            Some(Error::Overflow)
        } else {
            None
        }
    }

    /// The ledger after `creator` earned `amount` more.
    pub open spec fn earn(self, creator: Address, amount: i128) -> RevenueView {
        RevenueView {
            balances: self.balances.insert(creator@, self.balance_of(creator).credit(amount)),
            ..self
        }
    }

    /// Why a withdrawal of `amount` asked by `caller` in the name of
    /// `creator` is refused, if it is. The caller must be the creator; the
    /// creator must have a balance; the amount must reach the threshold; it
    /// must not exceed what is available; and the ledger must have its token.
    pub open spec fn withdrawal_refusal(
        self,
        caller: Seq<char>,
        creator: Seq<char>,
        amount: i128,
    ) -> Option<Error> {
        if caller != creator {
            Some(Error::Unauthorized)
        } else if !self.has_balance(creator) {
            Some(Error::NotFound)
        } else if amount < self.min_withdrawal {
            Some(Error::BelowMinimum)
        } else if amount > self.balances[creator].available_balance {
            Some(Error::InsufficientBalance)
        } else if self.token_address is None {
            Some(Error::NotConfigured)
        } else {
            None
        }
    }

    /// The ledger after `creator` withdrew `amount` at time `now`.
    pub open spec fn withdraw(self, creator: Seq<char>, amount: i128, now: u64) -> RevenueView {
        RevenueView {
            balances: self.balances.insert(creator, self.balances[creator].debit(amount, now)),
            ..self
        }
    }
}

/// An earning keeps a ledger in order, and one that is not negative keeps it
/// solvent.
pub proof fn lemma_earning_preserves_inv(s: RevenueView, creator: Address, amount: i128)
    requires
        s.inv(),
        s.earning_refusal(creator, amount) is None,
    ensures
        s.earn(creator, amount).inv(),
        s.solvent() && amount >= 0 ==> s.earn(creator, amount).solvent(),
{
    let t = s.earn(creator, amount);
    assert forall|c: Seq<char>| #[trigger] t.has_balance(c) implies t.balances[c].creator@ == c
        && t.balances[c].balanced() by {
        if c != creator@ {
            assert(s.has_balance(c));
        }
    }
    if s.solvent() && amount >= 0 {
        assert forall|c: Seq<char>| #[trigger] t.has_balance(c) implies t.balances[c].nonnegative() by {
            if c != creator@ {
                assert(s.has_balance(c));
            }
        }
    }
}

/// A withdrawal that is not refused keeps a ledger in order and solvent, and
/// moves the amount from what is available to what was withdrawn: what was
/// earned stays, and no amount leaves its range.
pub proof fn lemma_withdrawal_preserves_inv(
    s: RevenueView,
    caller: Seq<char>,
    creator: Seq<char>,
    amount: i128,
    now: u64,
)
    requires
        s.inv(),
        s.withdrawal_refusal(caller, creator, amount) is None,
    ensures
        s.withdraw(creator, amount, now).inv(),
        s.solvent() ==> s.withdraw(creator, amount, now).solvent(),
        ({
            let before = s.balances[creator];
            let after = s.withdraw(creator, amount, now).balances[creator];
            &&& after.available_balance == before.available_balance - amount
            &&& after.total_withdrawn == before.total_withdrawn + amount
            &&& after.total_earned == before.total_earned
            &&& after.last_withdrawal == now
            &&& after.available_balance >= 0
        }),
{
    let t = s.withdraw(creator, amount, now);
    assert(s.has_balance(creator));
    assert forall|c: Seq<char>| #[trigger] t.has_balance(c) implies t.balances[c].creator@ == c
        && t.balances[c].balanced() by {
        if c != creator {
            assert(s.has_balance(c));
        }
    }
    if s.solvent() {
        assert forall|c: Seq<char>| #[trigger] t.has_balance(c) implies t.balances[c].nonnegative() by {
            if c != creator {
                assert(s.has_balance(c));
            }
        }
    }
}

/// A withdrawal of less than the threshold is refused, whatever the balance;
/// for the creator's own call on a balance that exists the reason is that it
/// is below the minimum.
pub proof fn lemma_withdrawal_below_minimum_is_refused(
    s: RevenueView,
    caller: Seq<char>,
    creator: Seq<char>,
    amount: i128,
)
    requires
        amount < s.min_withdrawal,
    ensures
        s.withdrawal_refusal(caller, creator, amount) is Some,
        caller == creator && s.has_balance(creator) ==> s.withdrawal_refusal(
            caller,
            creator,
            amount,
        ) == Some(Error::BelowMinimum),
{
}

/// A withdrawal of more than is available is refused, also where it reaches
/// the threshold; for the creator's own call that reaches the threshold the
/// reason is that the balance is insufficient.
pub proof fn lemma_withdrawal_above_balance_is_refused(
    s: RevenueView,
    caller: Seq<char>,
    creator: Seq<char>,
    amount: i128,
)
    requires
        s.has_balance(creator),
        amount > s.balances[creator].available_balance,
    ensures
        s.withdrawal_refusal(caller, creator, amount) is Some,
        caller == creator && amount >= s.min_withdrawal ==> s.withdrawal_refusal(
            caller,
            creator,
            amount,
        ) == Some(Error::InsufficientBalance),
{
}

/// One call on a ledger.
pub enum LedgerCall {
    Initialize { token_address: Address },
    RecordEarning { creator: Address, amount: i128 },
    Withdraw { caller: Address, creator: Address, amount: i128, now: u64 },
}

impl RevenueView {
    /// The ledger after `call`: changed as the call asks where the call is
    /// not refused, and as it was where it is.
    pub open spec fn after(self, call: LedgerCall) -> RevenueView {
        match call {
            LedgerCall::Initialize { token_address } => self.configure(token_address),
            LedgerCall::RecordEarning { creator, amount } => {
                if self.earning_refusal(creator, amount) is None {
                    self.earn(creator, amount)
                } else {
                    self
                }
            },
            LedgerCall::Withdraw { caller, creator, amount, now } => {
                if self.withdrawal_refusal(caller@, creator@, amount) is None {
                    self.withdraw(creator@, amount, now)
                } else {
                    self
                }
            },
        }
    }

    /// The ledger after `calls`, one after another.
    pub open spec fn after_all(self, calls: Seq<LedgerCall>) -> RevenueView
        decreases calls.len(),
    {
        if calls.len() == 0 {
            self
        } else {
            self.after_all(calls.drop_last()).after(calls.last())
        }
    }
}

/// No earning among `calls` is negative.
pub open spec fn no_negative_earning(calls: Seq<LedgerCall>) -> bool {
    forall|k: int|
        0 <= k < calls.len() ==> match #[trigger] calls[k] {
            LedgerCall::RecordEarning { amount, .. } => amount >= 0,
            _ => true,
        }
}

/// Whatever calls a new ledger has served, in every balance what is available
/// is what was earned less what was withdrawn, and nothing negative was
/// withdrawn. If no earning among the calls was negative, then no amount of
/// any balance is negative either.
pub proof fn lemma_balances_add_up(calls: Seq<LedgerCall>)
    ensures
        RevenueView::empty().after_all(calls).inv(),
        no_negative_earning(calls) ==> RevenueView::empty().after_all(calls).solvent(),
    decreases calls.len(),
{
    if calls.len() > 0 {
        let earlier = calls.drop_last();
        let s = RevenueView::empty().after_all(earlier);
        lemma_balances_add_up(earlier);
        if no_negative_earning(calls) {
            assert forall|k: int| 0 <= k < earlier.len() implies match #[trigger] earlier[k] {
                LedgerCall::RecordEarning { amount, .. } => amount >= 0,
                _ => true,
            } by {
                assert(earlier[k] == calls[k]);
            }
            assert(s.solvent());
        }
        match calls.last() {
            LedgerCall::Initialize { token_address } => {
                let t = s.configure(token_address);
                assert forall|c: Seq<char>| #[trigger] t.has_balance(c) <==> s.has_balance(c) by {}
            },
            LedgerCall::RecordEarning { creator, amount } => {
                if s.earning_refusal(creator, amount) is None {
                    lemma_earning_preserves_inv(s, creator, amount);
                }
            },
            LedgerCall::Withdraw { caller, creator, amount, now } => {
                if s.withdrawal_refusal(caller@, creator@, amount) is None {
                    lemma_withdrawal_preserves_inv(s, caller@, creator@, amount, now);
                }
            },
        }
    }
}

/// Whether a ledger can hold `min_withdrawal` and `balances`: the threshold
/// is not negative, no creator has two balances, and in every balance what
/// is available is what was earned less what was withdrawn.
pub open spec fn restorable(min_withdrawal: i128, balances: Seq<CreatorBalance>) -> bool {
    &&& min_withdrawal >= 0
    &&& distinct_keys(balances)
    &&& forall|i: int| 0 <= i < balances.len() ==> (#[trigger] balances[i]).balanced()
}

/// The revenue ledger: the balance of every creator, the least amount that
/// can be withdrawn, and the token in which it pays out.
pub struct RevenueContract {
    token_address: Option<Address>,
    min_withdrawal: i128,
    balances: Vec<CreatorBalance>,
}

impl View for RevenueContract {
    type V = RevenueView;

    closed spec fn view(&self) -> RevenueView {
        RevenueView {
            token_address: self.token_address,
            min_withdrawal: self.min_withdrawal,
            balances: as_map(self.balances@),
        }
    }
}

impl RevenueContract {
    /// How the ledger is laid out in memory: one balance for each creator.
    pub closed spec fn laid_out(&self) -> bool {
        distinct_keys(self.balances@)
    }

    /// Whether the ledger is one that `new` and the operations can have made.
    pub open spec fn wf(&self) -> bool {
        self.laid_out() && self@.inv()
    }

    /// A ledger that was given no token and holds no balance yet, with the
    /// default threshold.
    pub fn new() -> (ledger: RevenueContract)
        ensures
            ledger.wf(),
            ledger@ == RevenueView::empty(),
    {
        let ledger = RevenueContract {
            token_address: None,
            min_withdrawal: DEFAULT_MIN_WITHDRAWAL,
            balances: Vec::new(),
        };
        assert(ledger@.balances =~= Map::empty());
        ledger
    }

    /// The ledger that holds the token, the threshold and `balances`, as they
    /// were kept elsewhere; none if the threshold is negative, a creator has
    /// two balances, or in a balance what is available is not what was earned
    /// less what was withdrawn.
    pub fn restore(
        token_address: Option<Address>,
        min_withdrawal: i128,
        balances: Vec<CreatorBalance>,
    ) -> (restored: Option<RevenueContract>)
        ensures
            match restored {
                Some(ledger) => {
                    &&& restorable(min_withdrawal, balances@)
                    &&& ledger.wf()
                    &&& ledger@.token_address == token_address
                    &&& ledger@.min_withdrawal == min_withdrawal
                    &&& ledger@.balances == as_map(balances@)
                },
                None => !restorable(min_withdrawal, balances@),
            },
    {
        if min_withdrawal < 0 {
            return None;
        }
        let mut i: usize = 0;
        while i < balances.len()
            invariant
                i <= balances@.len(),
                forall|a: int| 0 <= a < i ==> (#[trigger] balances@[a]).balanced(),
                forall|a: int, b: int|
                    0 <= a < b < i ==> (#[trigger] balances@[a]).key() != (
                    #[trigger] balances@[b]).key(),
            decreases balances@.len() - i,
        {
            let balance = &balances[i];
            if balance.total_withdrawn < 0 {
                return None;
            }
            match balance.total_earned.checked_sub(balance.total_withdrawn) {
                Some(left) => {
                    if left != balance.available_balance {
                        return None;
                    }
                },
                None => {
                    return None;
                },
            }
            let mut j: usize = 0;
            while j < i
                invariant
                    j <= i < balances@.len(),
                    forall|a: int|
                        0 <= a < j ==> (#[trigger] balances@[a]).key() != balances@[i as int].key(),
                decreases i - j,
            {
                if balances[j].creator == balances[i].creator {
                    return None;
                }
                j += 1;
            }
            i += 1;
        }
        let ledger = RevenueContract { token_address, min_withdrawal, balances };
        proof {
            assert forall|c: Seq<char>| #[trigger] ledger@.has_balance(c) implies {
                &&& ledger@.balances[c].creator@ == c
                &&& ledger@.balances[c].balanced()
            } by {
                let k = index_of(balances@, c);
                assert(balances@[k].key() == c);
            }
        }
        Some(ledger)
    }

    /// Gives the ledger the token in which it pays out, and sets the
    /// threshold to the default. A token given earlier is replaced.
    pub fn initialize(&mut self, token_address: Address)
        requires
            old(self).wf(),
        ensures
            final(self).wf(),
            final(self)@ == old(self)@.configure(token_address),
            final(self)@ == old(self)@.after(LedgerCall::Initialize { token_address }),
            old(self)@.solvent() ==> final(self)@.solvent(),
    {
        let ghost before = *self;
        self.token_address = Some(token_address);
        self.min_withdrawal = DEFAULT_MIN_WITHDRAWAL;
        proof {
            assert forall|c: Seq<char>| #[trigger] self@.has_balance(c) <==> before@.has_balance(c) by {}
        }
    }

    /// Where the balance of `creator` is kept, if there is one.
    fn find_balance(&self, creator: &Address) -> (found: Option<usize>)
        ensures
            match found {
                Some(i) => i < self.balances@.len() && self.balances@[i as int].creator@ == creator@,
                None => !has_key(self.balances@, creator@),
            },
    {
        let mut i: usize = 0;
        while i < self.balances.len()
            invariant
                i <= self.balances@.len(),
                forall|j: int| 0 <= j < i ==> (#[trigger] self.balances@[j]).key() != creator@,
            decreases self.balances@.len() - i,
        {
            if self.balances[i].creator == *creator {
                return Some(i);
            }
            i += 1;
        }
        None
    }

    /// Adds `amount` to what `creator` has earned and to what is available
    /// to them; a creator without a balance gets one that starts at nothing.
    ///
    /// Any caller may report an earning, and no amount is turned away for its
    /// sign. The earning is refused only where an amount of the balance would
    /// leave its range, and a refused earning changes nothing.
    pub fn record_earning(&mut self, creator: Address, amount: i128) -> (recorded: Result<Event, Error>)
        requires
            old(self).wf(),
        ensures
            final(self).wf(),
            match old(self)@.earning_refusal(creator, amount) {
                Some(e) => recorded == Err::<Event, Error>(e) && *final(self) == *old(self),
                None => {
                    &&& recorded == Ok::<Event, Error>(Event::EarningRecorded { creator, amount })
                    &&& final(self)@ == old(self)@.earn(creator, amount)
                },
            },
            final(self)@ == old(self)@.after(LedgerCall::RecordEarning { creator, amount }),
            old(self)@.solvent() && amount >= 0 ==> final(self)@.solvent(),
    {
        let ghost before = *self;
        match self.find_balance(&creator) {
            Some(i) => {
                proof {
                    lemma_lookup(before.balances@, i as int);
                }
                let available = self.balances[i].available_balance.checked_add(amount);
                let earned = self.balances[i].total_earned.checked_add(amount);
                match (available, earned) {
                    (Some(available_balance), Some(total_earned)) => {
                        self.balances[i].available_balance = available_balance;
                        self.balances[i].total_earned = total_earned;
                        proof {
                            lemma_update(before.balances@, i as int, self.balances@[i as int]);
                            assert(self.balances@ =~= before.balances@.update(
                                i as int,
                                self.balances@[i as int],
                            ));
                        }
                    },
                    _ => {
                        return Err(Error::Overflow);
                    },
                }
            },
            None => {
                let balance = CreatorBalance {
                    creator: creator.clone(),
                    available_balance: amount,
                    total_earned: amount,
                    total_withdrawn: 0,
                    last_withdrawal: 0,
                };
                proof {
                    lemma_push(before.balances@, balance);
                }
                self.balances.push(balance);
            },
        }
        proof {
            lemma_earning_preserves_inv(before@, creator, amount);
        }
        Ok(Event::EarningRecorded { creator, amount })
    }

    /// Withdraws `amount` of what is available to `creator` at time `now`:
    /// the amount moves from what is available to what was withdrawn, and the
    /// payout of the amount is ordered.
    ///
    /// The caller must be the creator, the creator must have a balance, the
    /// amount must reach the threshold and must not exceed what is
    /// available, and the ledger must have its token; a refused withdrawal
    /// changes nothing. The balance is charged first and the payout is made
    /// after: the caller keeps the charged ledger only once the payout was
    /// made, and goes back to the ledger of before the withdrawal if the
    /// payout fails.
    pub fn withdraw(
        &mut self,
        caller: &Address,
        now: u64,
        creator: Address,
        amount: i128,
    ) -> (withdrawn: Result<(Payout, Event), Error>)
        requires
            old(self).wf(),
        ensures
            final(self).wf(),
            match old(self)@.withdrawal_refusal(caller@, creator@, amount) {
                Some(e) => withdrawn == Err::<(Payout, Event), Error>(e) && *final(self) == *old(
                    self,
                ),
                None => {
                    &&& withdrawn == Ok::<(Payout, Event), Error>(
                        (
                            Payout { token: old(self)@.token_address->0, to: creator, amount },
                            Event::WithdrawalProcessed { creator, amount },
                        ),
                    )
                    &&& final(self)@ == old(self)@.withdraw(creator@, amount, now)
                },
            },
            final(self)@ == old(self)@.after(
                LedgerCall::Withdraw { caller: *caller, creator, amount, now },
            ),
            amount < old(self)@.min_withdrawal ==> withdrawn is Err,
            amount > old(self)@.balance_of(creator).available_balance ==> withdrawn is Err,
            old(self)@.solvent() ==> final(self)@.solvent(),
    {
        if !(*caller == creator) {
            return Err(Error::Unauthorized);
        }
        let ghost before = *self;
        let i = match self.find_balance(&creator) {
            Some(i) => i,
            None => { return Err(Error::NotFound); },
        };
        proof {
            lemma_lookup(before.balances@, i as int);
        }
        if amount < self.min_withdrawal {
            return Err(Error::BelowMinimum);
        }
        if amount > self.balances[i].available_balance {
            return Err(Error::InsufficientBalance);
        }
        let token = match &self.token_address {
            Some(address) => address.clone(),
            None => { return Err(Error::NotConfigured); },
        };
        proof {
            lemma_withdrawal_preserves_inv(before@, caller@, creator@, amount, now);
        }
        self.balances[i].available_balance = self.balances[i].available_balance - amount;
        self.balances[i].total_withdrawn = self.balances[i].total_withdrawn + amount;
        self.balances[i].last_withdrawal = now;
        proof {
            lemma_update(before.balances@, i as int, self.balances@[i as int]);
            assert(self.balances@ =~= before.balances@.update(i as int, self.balances@[i as int]));
        }
        Ok(
            (
                Payout { token, to: creator.clone(), amount },
                Event::WithdrawalProcessed { creator, amount },
            ),
        )
    }

    /// The balance of `creator`: the one that is kept, or for a creator
    /// without one the balance of nothing earned and nothing withdrawn. In
    /// it what is available is what was earned less what was withdrawn.
    pub fn get_balance(&self, creator: Address) -> (balance: CreatorBalance)
        requires
            self.wf(),
        ensures
            balance == self@.balance_of(creator),
            balance.creator@ == creator@,
            balance.balanced(),
            self@.solvent() ==> balance.nonnegative(),
    {
        match self.find_balance(&creator) {
            Some(i) => {
                proof {
                    lemma_lookup(self.balances@, i as int);
                    assert(self@.has_balance(creator@));
                }
                self.balances[i].clone()
            },
            None => CreatorBalance {
                creator,
                available_balance: 0,
                total_earned: 0,
                total_withdrawn: 0,
                last_withdrawal: 0,
            },
        }
    }

    /// What is available to `creator`; nothing for a creator without a
    /// balance.
    pub fn get_available_balance(&self, creator: Address) -> (available: i128)
        requires
            self.wf(),
        ensures
            available == self@.balance_of(creator).available_balance,
    {
        self.get_balance(creator).available_balance
    }
}

} // verus!
