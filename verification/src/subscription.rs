use vstd::prelude::*;
use crate::address::Address;
use crate::error::Error;
use crate::events::Event;
use crate::keyed::{
    as_map, distinct_keys, has_key, index_of, lemma_lookup, lemma_push, lemma_update, Keyed,
};

verus! {

/// The length of a day, in seconds.
pub const SECONDS_PER_DAY: u64 = 86400;

/// An offer of a creator: access for `duration_days` days at `price`. A tier
/// never changes.
#[derive(Debug, PartialEq, Eq)]
pub struct SubscriptionTier {
    pub tier_id: u64,
    pub creator: Address,
    pub name: String,
    pub price: i128,
    pub duration_days: u32,
}

impl Clone for SubscriptionTier {
    fn clone(&self) -> (c: SubscriptionTier)
        ensures
            c == *self,
    {
        SubscriptionTier {
            tier_id: self.tier_id,
            creator: self.creator.clone(),
            name: self.name.clone(),
            price: self.price,
            duration_days: self.duration_days,
        }
    }
}

/// The entitlement of a subscriber with a creator. Whether it is active is
/// not kept: it follows from the expiry date and the time of asking.
#[derive(Debug, PartialEq, Eq)]
pub struct Subscription {
    pub subscriber: Address,
    pub creator: Address,
    pub tier_id: u64,
    pub start_date: u64,
    pub expiry_date: u64,
    pub auto_renew: bool,
}

impl Subscription {
    /// Whether the subscription is active at time `now`: strictly before it
    /// expires.
    pub open spec fn active_at(&self, now: u64) -> bool {
        now < self.expiry_date
    }
}

impl Clone for Subscription {
    fn clone(&self) -> (c: Subscription)
        ensures
            c == *self,
    {
        Subscription {
            subscriber: self.subscriber.clone(),
            creator: self.creator.clone(),
            tier_id: self.tier_id,
            start_date: self.start_date,
            expiry_date: self.expiry_date,
            auto_renew: self.auto_renew,
        }
    }
}

impl Keyed for Subscription {
    type Key = (Seq<char>, Seq<char>);

    open spec fn key(&self) -> (Seq<char>, Seq<char>) {
        (self.subscriber@, self.creator@)
    }
}

/// When a subscription taken or renewed at time `now` for `duration_days`
/// days expires.
pub open spec fn expiry_from(now: u64, duration_days: u32) -> int {
    now + duration_days * SECONDS_PER_DAY
}

/// What a subscription manager holds, as mathematics: how many tiers were
/// created, each tier by identifier, and the one subscription of each pair of
/// a subscriber and a creator.
pub struct SubscriptionView {
    pub counter: nat,
    pub tiers: Map<u64, SubscriptionTier>,
    pub subscriptions: Map<(Seq<char>, Seq<char>), Subscription>,
}

impl SubscriptionView {
    /// The manager without tiers and without subscriptions.
    pub open spec fn empty() -> SubscriptionView {
        SubscriptionView { counter: 0, tiers: Map::empty(), subscriptions: Map::empty() }
    }

    /// Whether a tier was created under `tier_id`.
    pub open spec fn has_tier(self, tier_id: u64) -> bool {
        self.tiers.dom().contains(tier_id)
    }

    /// Whether `subscriber` has a subscription with `creator`, active or not.
    pub open spec fn has_subscription(self, subscriber: Seq<char>, creator: Seq<char>) -> bool {
        self.subscriptions.dom().contains((subscriber, creator))
    }

    /// Whether `subscriber` is subscribed to `creator` at time `now`: there
    /// is a subscription, and it has not expired.
    pub open spec fn subscribed(self, subscriber: Seq<char>, creator: Seq<char>, now: u64) -> bool {
        self.has_subscription(subscriber, creator) && self.subscriptions[(
            subscriber,
            creator,
        )].active_at(now)
    }

    /// What holds of every manager: the tier identifiers in use are exactly
    /// 1 to the counter, every tier carries its own identifier, and every
    /// subscription is kept under its own pair and names a tier that exists.
    pub open spec fn inv(self) -> bool {
        &&& self.counter <= u64::MAX
        &&& forall|id: u64| #[trigger] self.has_tier(id) <==> 1 <= id <= self.counter
        &&& forall|id: u64| #[trigger] self.has_tier(id) ==> self.tiers[id].tier_id == id
        &&& forall|s: Seq<char>, c: Seq<char>| #[trigger]
            self.has_subscription(s, c) ==> {
                &&& self.subscriptions[(s, c)].subscriber@ == s
                &&& self.subscriptions[(s, c)].creator@ == c
                &&& self.has_tier(self.subscriptions[(s, c)].tier_id)
            }
    }

    /// Why the creation of a tier asked by `caller` in the name of `creator`
    /// is refused, if it is: the caller must be the creator, and an
    /// identifier must be left.
    pub open spec fn tier_refusal(self, caller: Seq<char>, creator: Seq<char>) -> Option<Error> {
        if caller != creator {
            Some(Error::Unauthorized)
        } else if self.counter >= u64::MAX {
            Some(Error::Overflow)
        } else {
            None
        }
    }

    /// The manager after one more tier was created.
    pub open spec fn add_tier(
        self,
        creator: Address,
        name: String,
        price: i128,
        duration_days: u32,
    ) -> SubscriptionView {
        let id = (self.counter + 1) as u64;
        SubscriptionView {
            counter: self.counter + 1,
            tiers: self.tiers.insert(
                id,
                SubscriptionTier { tier_id: id, creator, name, price, duration_days },
            ),
            ..self
        }
    }

    /// Why a subscription to `tier_id` asked by `caller` in the name of
    /// `subscriber` at time `now` is refused, if it is: the caller must be
    /// the subscriber, the tier must exist, and the expiry date must be in
    /// range.
    pub open spec fn subscribe_refusal(
        self,
        caller: Seq<char>,
        subscriber: Seq<char>,
        tier_id: u64,
        now: u64,
    ) -> Option<Error> {
        if caller != subscriber {
            Some(Error::Unauthorized)
        } else if !self.has_tier(tier_id) {
            Some(Error::NotFound)
        } else if expiry_from(now, self.tiers[tier_id].duration_days) > u64::MAX {
            Some(Error::Overflow)
        } else {
            None
        }
    }

    /// The manager after `subscriber` subscribed to `creator` by `tier_id`
    /// at time `now`. What the pair had before is gone.
    pub open spec fn subscribe(
        self,
        subscriber: Address,
        creator: Address,
        tier_id: u64,
        auto_renew: bool,
        now: u64,
    ) -> SubscriptionView {
        SubscriptionView {
            subscriptions: self.subscriptions.insert(
                (subscriber@, creator@),
                Subscription {
                    subscriber,
                    creator,
                    tier_id,
                    start_date: now,
                    expiry_date: expiry_from(now, self.tiers[tier_id].duration_days) as u64,
                    auto_renew,
                },
            ),
            ..self
        }
    }

    /// Why a cancellation asked by `caller` in the name of `subscriber` is
    /// refused, if it is: the caller must be the subscriber, and the
    /// subscription must exist.
    pub open spec fn cancel_refusal(
        self,
        caller: Seq<char>,
        subscriber: Seq<char>,
        creator: Seq<char>,
    ) -> Option<Error> {
        if caller != subscriber {
            Some(Error::Unauthorized)
        } else if !self.has_subscription(subscriber, creator) {
            Some(Error::NotFound)
        } else {
            None
        }
    }

    /// The manager after the subscription of the pair was cancelled: it is
    /// no longer to be renewed by itself, and nothing else of it changes.
    pub open spec fn cancel(self, subscriber: Seq<char>, creator: Seq<char>) -> SubscriptionView {
        SubscriptionView {
            subscriptions: self.subscriptions.insert(
                (subscriber, creator),
                Subscription { auto_renew: false, ..self.subscriptions[(subscriber, creator)] },
            ),
            ..self
        }
    }

    /// Why a renewal by `tier_id` asked by `caller` in the name of
    /// `subscriber` at time `now` is refused, if it is: the caller must be
    /// the subscriber, the tier and the subscription must exist, and the
    /// expiry date must be in range.
    pub open spec fn renew_refusal(
        self,
        caller: Seq<char>,
        subscriber: Seq<char>,
        creator: Seq<char>,
        tier_id: u64,
        now: u64,
    ) -> Option<Error> {
        if caller != subscriber {
            Some(Error::Unauthorized)
        } else if !self.has_tier(tier_id) {
            Some(Error::NotFound)
        } else if !self.has_subscription(subscriber, creator) {
            Some(Error::NotFound)
        } else if expiry_from(now, self.tiers[tier_id].duration_days) > u64::MAX {
            Some(Error::Overflow)
        } else {
            None
        }
    }

    /// The manager after the subscription of the pair was renewed by
    /// `tier_id` at time `now`: it expires a tier's length after `now`,
    /// whatever was left of it, and nothing else of it changes.
    pub open spec fn renew(
        self,
        subscriber: Seq<char>,
        creator: Seq<char>,
        tier_id: u64,
        now: u64,
    ) -> SubscriptionView {
        SubscriptionView {
            subscriptions: self.subscriptions.insert(
                (subscriber, creator),
                Subscription {
                    expiry_date: expiry_from(now, self.tiers[tier_id].duration_days) as u64,
                    ..self.subscriptions[(subscriber, creator)]
                },
            ),
            ..self
        }
    }
}

/// Creating a tier keeps a manager in order, gives the tier the identifier
/// that follows the counter, and leaves the earlier tiers and every
/// subscription as they were.
pub proof fn lemma_add_tier_preserves_inv(
    s: SubscriptionView,
    creator: Address,
    name: String,
    price: i128,
    duration_days: u32,
)
    requires
        s.inv(),
        s.counter < u64::MAX,
    ensures
        ({
            let t = s.add_tier(creator, name, price, duration_days);
            let id = (s.counter + 1) as u64;
            &&& t.inv()
            &&& !s.has_tier(id)
            &&& forall|other: u64| #[trigger] t.has_tier(other) <==> s.has_tier(other) || other == id
            &&& forall|other: u64| #[trigger]
                s.has_tier(other) ==> other < id && t.tiers[other] == s.tiers[other]
        }),
{
    let t = s.add_tier(creator, name, price, duration_days);
    let id = (s.counter + 1) as u64;
    assert(!s.has_tier(id));
    assert forall|other: u64| #[trigger] t.has_tier(other) <==> s.has_tier(other) || other == id by {}
    assert forall|a: Seq<char>, b: Seq<char>| #[trigger] t.has_subscription(a, b) implies {
        &&& t.subscriptions[(a, b)].subscriber@ == a
        &&& t.subscriptions[(a, b)].creator@ == b
        &&& t.has_tier(t.subscriptions[(a, b)].tier_id)
    } by {
        assert(s.has_subscription(a, b));
    }
}

/// Subscribing, cancelling and renewing keep a manager in order.
pub proof fn lemma_subscription_changes_preserve_inv(
    s: SubscriptionView,
    subscriber: Address,
    creator: Address,
    tier_id: u64,
    auto_renew: bool,
    now: u64,
)
    requires
        s.inv(),
        s.has_tier(tier_id),
    ensures
        s.subscribe(subscriber, creator, tier_id, auto_renew, now).inv(),
        s.has_subscription(subscriber@, creator@) ==> s.cancel(subscriber@, creator@).inv(),
        s.has_subscription(subscriber@, creator@) ==> s.renew(
            subscriber@,
            creator@,
            tier_id,
            now,
        ).inv(),
{
    let key = (subscriber@, creator@);
    let t = s.subscribe(subscriber, creator, tier_id, auto_renew, now);
    assert forall|id: u64| #[trigger] t.has_tier(id) <==> s.has_tier(id) by {}
    assert forall|a: Seq<char>, b: Seq<char>| #[trigger] t.has_subscription(a, b) implies {
        &&& t.subscriptions[(a, b)].subscriber@ == a
        &&& t.subscriptions[(a, b)].creator@ == b
        &&& t.has_tier(t.subscriptions[(a, b)].tier_id)
    } by {
        if (a, b) != key {
            assert(s.has_subscription(a, b));
        }
    }
    if s.has_subscription(subscriber@, creator@) {
        let u = s.cancel(subscriber@, creator@);
        assert forall|id: u64| #[trigger] u.has_tier(id) <==> s.has_tier(id) by {}
        assert forall|a: Seq<char>, b: Seq<char>| #[trigger] u.has_subscription(a, b) implies {
            &&& u.subscriptions[(a, b)].subscriber@ == a
            &&& u.subscriptions[(a, b)].creator@ == b
            &&& u.has_tier(u.subscriptions[(a, b)].tier_id)
        } by {
            assert(s.has_subscription(a, b));
        }
        let v = s.renew(subscriber@, creator@, tier_id, now);
        assert forall|id: u64| #[trigger] v.has_tier(id) <==> s.has_tier(id) by {}
        assert forall|a: Seq<char>, b: Seq<char>| #[trigger] v.has_subscription(a, b) implies {
            &&& v.subscriptions[(a, b)].subscriber@ == a
            &&& v.subscriptions[(a, b)].creator@ == b
            &&& v.has_tier(v.subscriptions[(a, b)].tier_id)
        } by {
            assert(s.has_subscription(a, b));
        }
    }
}

/// A subscriber is subscribed at exactly the times strictly before the expiry
/// date of their subscription: at the expiry date itself they no longer are,
/// and without a subscription they never are.
pub proof fn lemma_subscribed_strictly_before_expiry(
    s: SubscriptionView,
    subscriber: Seq<char>,
    creator: Seq<char>,
    now: u64,
)
    ensures
        s.subscribed(subscriber, creator, now) <==> s.has_subscription(subscriber, creator) && now
            < s.subscriptions[(subscriber, creator)].expiry_date,
        s.has_subscription(subscriber, creator) ==> !s.subscribed(
            subscriber,
            creator,
            s.subscriptions[(subscriber, creator)].expiry_date,
        ),
        !s.has_subscription(subscriber, creator) ==> !s.subscribed(subscriber, creator, now),
{
}

/// After subscribing at time `now` the subscriber is subscribed at exactly
/// the times before `now` plus the length of the tier: still one second
/// before that, and no longer at that time itself.
pub proof fn lemma_subscribed_until_expiry(
    s: SubscriptionView,
    subscriber: Address,
    creator: Address,
    tier_id: u64,
    auto_renew: bool,
    now: u64,
    asked: u64,
)
    requires
        s.subscribe_refusal(subscriber@, subscriber@, tier_id, now) is None,
    ensures
        s.subscribe(subscriber, creator, tier_id, auto_renew, now).subscribed(
            subscriber@,
            creator@,
            asked,
        ) <==> asked < now + s.tiers[tier_id].duration_days * 86400,
{
}

/// Subscribing again replaces what the pair had: the manager is the one that
/// the second subscription alone would have made, so the expiry date is that
/// of the second tier from the second time, and nothing of the first is
/// added to it.
pub proof fn lemma_resubscribing_replaces(
    s: SubscriptionView,
    subscriber: Address,
    creator: Address,
    first_tier: u64,
    first_auto_renew: bool,
    first_time: u64,
    again: Address,
    same_creator: Address,
    second_tier: u64,
    second_auto_renew: bool,
    second_time: u64,
)
    requires
        again@ == subscriber@,
        same_creator@ == creator@,
    ensures
        s.subscribe(subscriber, creator, first_tier, first_auto_renew, first_time).subscribe(
            again,
            same_creator,
            second_tier,
            second_auto_renew,
            second_time,
        ) == s.subscribe(again, same_creator, second_tier, second_auto_renew, second_time),
        s.subscribe(subscriber, creator, first_tier, first_auto_renew, first_time).subscribe(
            again,
            same_creator,
            second_tier,
            second_auto_renew,
            second_time,
        ).subscriptions[(subscriber@, creator@)].expiry_date == expiry_from(
            second_time,
            s.tiers[second_tier].duration_days,
        ) as u64,
{
    let once = s.subscribe(again, same_creator, second_tier, second_auto_renew, second_time);
    let twice = s.subscribe(subscriber, creator, first_tier, first_auto_renew, first_time).subscribe(
        again,
        same_creator,
        second_tier,
        second_auto_renew,
        second_time,
    );
    assert(twice.subscriptions =~= once.subscriptions);
}

/// Whether a manager can hold `tiers` and `subscriptions`: the tiers are
/// numbered from 1 in their order, no pair has two subscriptions, and every
/// subscription names one of the tiers.
pub open spec fn restorable(tiers: Seq<SubscriptionTier>, subscriptions: Seq<Subscription>) -> bool {
    &&& forall|i: int| 0 <= i < tiers.len() ==> (#[trigger] tiers[i]).tier_id == i + 1
    &&& distinct_keys(subscriptions)
    &&& forall|i: int|
        0 <= i < subscriptions.len() ==> 1 <= (#[trigger] subscriptions[i]).tier_id <= tiers.len()
}

/// The subscription manager: the tiers that creators offer, and who is
/// subscribed to whom until when.
pub struct SubscriptionContract {
    tiers: Vec<SubscriptionTier>,
    subscriptions: Vec<Subscription>,
}

impl View for SubscriptionContract {
    type V = SubscriptionView;

    closed spec fn view(&self) -> SubscriptionView {
        SubscriptionView {
            counter: self.tiers@.len(),
            tiers: Map::new(|id: u64| 1 <= id <= self.tiers@.len(), |id: u64| self.tiers@[id - 1]),
            subscriptions: as_map(self.subscriptions@),
        }
    }
}

impl SubscriptionContract {
    /// How the manager is laid out in memory: one subscription for each pair
    /// of a subscriber and a creator.
    pub closed spec fn laid_out(&self) -> bool {
        distinct_keys(self.subscriptions@)
    }

    /// Whether the manager is one that `new` and the operations can have
    /// made.
    pub open spec fn wf(&self) -> bool {
        self.laid_out() && self@.inv()
    }

    /// A manager without tiers and without subscriptions.
    pub fn new() -> (manager: SubscriptionContract)
        ensures
            manager.wf(),
            manager@ == SubscriptionView::empty(),
    {
        let manager = SubscriptionContract { tiers: Vec::new(), subscriptions: Vec::new() };
        assert(manager@.tiers =~= Map::empty());
        assert(manager@.subscriptions =~= Map::empty());
        manager
    }

    /// The manager that holds `tiers`, in the order of their identifiers,
    /// and `subscriptions`, as they were kept elsewhere; none if the tiers
    /// are not numbered from 1 in that order, a pair has two subscriptions,
    /// or a subscription names a tier that is not among them.
    pub fn restore(
        tiers: Vec<SubscriptionTier>,
        subscriptions: Vec<Subscription>,
    ) -> (restored: Option<SubscriptionContract>)
        ensures
            match restored {
                Some(manager) => {
                    &&& restorable(tiers@, subscriptions@)
                    &&& manager.wf()
                    &&& manager@.counter == tiers@.len()
                    &&& forall|i: int|
                        0 <= i < tiers@.len() ==> manager@.tiers[(i + 1) as u64]
                            == #[trigger] tiers@[i]
                    &&& manager@.subscriptions == as_map(subscriptions@)
                },
                None => !restorable(tiers@, subscriptions@),
            },
    {
        let mut t: usize = 0;
        while t < tiers.len()
            invariant
                t <= tiers@.len(),
                forall|a: int| 0 <= a < t ==> (#[trigger] tiers@[a]).tier_id == a + 1,
            decreases tiers@.len() - t,
        {
            if tiers[t].tier_id != t as u64 + 1 {
                return None;
            }
            t += 1;
        }
        let mut i: usize = 0;
        while i < subscriptions.len()
            invariant
                i <= subscriptions@.len(),
                forall|a: int|
                    0 <= a < i ==> 1 <= (#[trigger] subscriptions@[a]).tier_id <= tiers@.len(),
                forall|a: int, b: int|
                    0 <= a < b < i ==> (#[trigger] subscriptions@[a]).key() != (
                    #[trigger] subscriptions@[b]).key(),
            decreases subscriptions@.len() - i,
        {
            let tier_id = subscriptions[i].tier_id;
            if tier_id == 0 || tier_id - 1 >= tiers.len() as u64 {
                return None;
            }
            let mut j: usize = 0;
            while j < i
                invariant
                    j <= i < subscriptions@.len(),
                    forall|a: int|
                        0 <= a < j ==> (#[trigger] subscriptions@[a]).key()
                            != subscriptions@[i as int].key(),
                decreases i - j,
            {
                if subscriptions[j].subscriber == subscriptions[i].subscriber
                    && subscriptions[j].creator == subscriptions[i].creator {
                    return None;
                }
                j += 1;
            }
            i += 1;
        }
        let manager = SubscriptionContract { tiers, subscriptions };
        proof {
            assert forall|s: Seq<char>, c: Seq<char>| #[trigger]
                manager@.has_subscription(s, c) implies {
                &&& manager@.subscriptions[(s, c)].subscriber@ == s
                &&& manager@.subscriptions[(s, c)].creator@ == c
                &&& manager@.has_tier(manager@.subscriptions[(s, c)].tier_id)
            } by {
                let k = index_of(subscriptions@, (s, c));
                assert(subscriptions@[k].key() == (s, c));
            }
        }
        Some(manager)
    }

    /// Where the subscription of `subscriber` with `creator` is kept, if
    /// there is one.
    fn find_subscription(&self, subscriber: &Address, creator: &Address) -> (found: Option<usize>)
        ensures
            match found {
                Some(i) => i < self.subscriptions@.len() && self.subscriptions@[i as int].key() == (
                    subscriber@,
                    creator@,
                ),
                None => !has_key(self.subscriptions@, (subscriber@, creator@)),
            },
    {
        let mut i: usize = 0;
        while i < self.subscriptions.len()
            invariant
                i <= self.subscriptions@.len(),
                forall|j: int|
                    0 <= j < i ==> (#[trigger] self.subscriptions@[j]).key() != (
                        subscriber@,
                        creator@,
                    ),
            decreases self.subscriptions@.len() - i,
        {
            if self.subscriptions[i].subscriber == *subscriber && self.subscriptions[i].creator
                == *creator {
                return Some(i);
            }
            i += 1;
        }
        None
    }

    /// When a subscription taken at time `now` by the tier at `slot` expires,
    /// if that date is in range.
    fn expiry_date(&self, slot: usize, now: u64) -> (date: Option<u64>)
        requires
            slot < self.tiers@.len(),
        ensures
            date == if expiry_from(now, self.tiers@[slot as int].duration_days) <= u64::MAX {
                Some(expiry_from(now, self.tiers@[slot as int].duration_days) as u64)
            } else {
                None
            },
    {
        let duration_seconds: u64 = (self.tiers[slot].duration_days as u64) * SECONDS_PER_DAY;
        now.checked_add(duration_seconds)
    }

    /// Creates a tier of `creator` and gives it the next identifier: one
    /// more than the number of tiers created before.
    ///
    /// The caller must be the creator, and an identifier must be left; a
    /// refused creation changes nothing. No price is turned away for its
    /// sign, and no length for being zero.
    pub fn create_tier(
        &mut self,
        caller: &Address,
        creator: Address,
        name: String,
        price: i128,
        duration_days: u32,
    ) -> (created: Result<(u64, Event), Error>)
        requires
            old(self).wf(),
        ensures
            final(self).wf(),
            match old(self)@.tier_refusal(caller@, creator@) {
                Some(e) => created == Err::<(u64, Event), Error>(e) && *final(self) == *old(self),
                None => {
                    let id = (old(self)@.counter + 1) as u64;
                    &&& created == Ok::<(u64, Event), Error>(
                        (id, Event::TierCreated { tier_id: id, creator, price }),
                    )
                    &&& final(self)@ == old(self)@.add_tier(creator, name, price, duration_days)
                },
            },
    {
        if !(*caller == creator) {
            return Err(Error::Unauthorized);
        }
        let count = self.tiers.len() as u64;
        if count == u64::MAX {
            return Err(Error::Overflow);
        }
        let tier_id: u64 = count + 1;
        let ghost before = *self;
        self.tiers.push(
            SubscriptionTier { tier_id, creator: creator.clone(), name, price, duration_days },
        );
        proof {
            let after = before@.add_tier(creator, name, price, duration_days);
            assert(self@.tiers =~= after.tiers);
            lemma_add_tier_preserves_inv(before@, creator, name, price, duration_days);
        }
        Ok((tier_id, Event::TierCreated { tier_id, creator, price }))
    }

    /// Subscribes `subscriber` to `creator` by `tier_id` at time `now`: the
    /// subscription starts now and expires a tier's length later. A
    /// subscription that the pair had is replaced, with whatever was left of
    /// it.
    ///
    /// The caller must be the subscriber, the tier must exist, and the
    /// expiry date must be in range; a refused subscription changes nothing.
    pub fn subscribe(
        &mut self,
        caller: &Address,
        now: u64,
        subscriber: Address,
        creator: Address,
        tier_id: u64,
        auto_renew: bool,
    ) -> (subscribed: Result<Event, Error>)
        requires
            old(self).wf(),
        ensures
            final(self).wf(),
            match old(self)@.subscribe_refusal(caller@, subscriber@, tier_id, now) {
                Some(e) => subscribed == Err::<Event, Error>(e) && *final(self) == *old(self),
                None => {
                    &&& subscribed == Ok::<Event, Error>(
                        Event::Subscribed {
                            subscriber,
                            creator,
                            tier_id,
                            expiry_date: expiry_from(
                                now,
                                old(self)@.tiers[tier_id].duration_days,
                            ) as u64,
                        },
                    )
                    &&& final(self)@ == old(self)@.subscribe(
                        subscriber,
                        creator,
                        tier_id,
                        auto_renew,
                        now,
                    )
                },
            },
    {
        if !(*caller == subscriber) {
            return Err(Error::Unauthorized);
        }
        if tier_id == 0 || tier_id - 1 >= self.tiers.len() as u64 {
            return Err(Error::NotFound);
        }
        let expiry_date = match self.expiry_date((tier_id - 1) as usize, now) {
            Some(date) => date,
            None => { return Err(Error::Overflow); },
        };
        let ghost before = *self;
        let subscription = Subscription {
            subscriber: subscriber.clone(),
            creator: creator.clone(),
            tier_id,
            start_date: now,
            expiry_date,
            auto_renew,
        };
        match self.find_subscription(&subscriber, &creator) {
            Some(i) => {
                proof {
                    lemma_update(before.subscriptions@, i as int, subscription);
                }
                self.subscriptions.set(i, subscription);
            },
            None => {
                proof {
                    lemma_push(before.subscriptions@, subscription);
                }
                self.subscriptions.push(subscription);
            },
        }
        proof {
            lemma_subscription_changes_preserve_inv(
                before@,
                subscriber,
                creator,
                tier_id,
                auto_renew,
                now,
            );
        }
        Ok(Event::Subscribed { subscriber, creator, tier_id, expiry_date })
    }

    /// Whether `subscriber` is subscribed to `creator` at time `now`: there
    /// is a subscription, and `now` is strictly before its expiry date.
    pub fn is_subscribed(&self, now: u64, subscriber: Address, creator: Address) -> (active: bool)
        requires
            self.wf(),
        ensures
            active == self@.subscribed(subscriber@, creator@, now),
            active <==> self@.has_subscription(subscriber@, creator@) && now
                < self@.subscriptions[(subscriber@, creator@)].expiry_date,
    {
        match self.find_subscription(&subscriber, &creator) {
            Some(i) => {
                proof {
                    lemma_lookup(self.subscriptions@, i as int);
                }
                now < self.subscriptions[i].expiry_date
            },
            None => false,
        }
    }

    /// The subscription of `subscriber` with `creator`, active or not, if
    /// there is one.
    pub fn get_subscription(&self, subscriber: Address, creator: Address) -> (found: Option<Subscription>)
        requires
            self.wf(),
        ensures
            found == if self@.has_subscription(subscriber@, creator@) {
                Some(self@.subscriptions[(subscriber@, creator@)])
            } else {
                None
            },
    {
        match self.find_subscription(&subscriber, &creator) {
            Some(i) => {
                proof {
                    lemma_lookup(self.subscriptions@, i as int);
                }
                Some(self.subscriptions[i].clone())
            },
            None => None,
        }
    }

    /// Cancels the subscription of `subscriber` with `creator`: it is no
    /// longer to be renewed by itself. It stays, and expires when it would
    /// have.
    ///
    /// The caller must be the subscriber, and the subscription must exist; a
    /// refused cancellation changes nothing.
    pub fn cancel_subscription(
        &mut self,
        caller: &Address,
        subscriber: Address,
        creator: Address,
    ) -> (cancelled: Result<Event, Error>)
        requires
            old(self).wf(),
        ensures
            final(self).wf(),
            match old(self)@.cancel_refusal(caller@, subscriber@, creator@) {
                Some(e) => cancelled == Err::<Event, Error>(e) && *final(self) == *old(self),
                None => {
                    &&& cancelled == Ok::<Event, Error>(
                        Event::SubscriptionCancelled { subscriber, creator },
                    )
                    &&& final(self)@ == old(self)@.cancel(subscriber@, creator@)
                },
            },
    {
        if !(*caller == subscriber) {
            return Err(Error::Unauthorized);
        }
        let ghost before = *self;
        let i = match self.find_subscription(&subscriber, &creator) {
            Some(i) => i,
            None => { return Err(Error::NotFound); },
        };
        self.subscriptions[i].auto_renew = false;
        proof {
            lemma_lookup(before.subscriptions@, i as int);
            lemma_update(before.subscriptions@, i as int, self.subscriptions@[i as int]);
            assert(self.subscriptions@ =~= before.subscriptions@.update(
                i as int,
                self.subscriptions@[i as int],
            ));
            let tier_id = before.subscriptions@[i as int].tier_id;
            assert(before@.has_subscription(subscriber@, creator@));
            lemma_subscription_changes_preserve_inv(
                before@,
                subscriber,
                creator,
                tier_id,
                false,
                0,
            );
        }
        Ok(Event::SubscriptionCancelled { subscriber, creator })
    }

    /// Renews the subscription of `subscriber` with `creator` by `tier_id`
    /// at time `now`: it expires a tier's length after `now`. What was left
    /// of it is not added, and nothing else of it changes.
    ///
    /// The caller must be the subscriber, the tier and the subscription must
    /// exist, and the expiry date must be in range; a refused renewal
    /// changes nothing.
    pub fn renew_subscription(
        &mut self,
        caller: &Address,
        now: u64,
        subscriber: Address,
        creator: Address,
        tier_id: u64,
    ) -> (renewed: Result<Event, Error>)
        requires
            old(self).wf(),
        ensures
            final(self).wf(),
            match old(self)@.renew_refusal(caller@, subscriber@, creator@, tier_id, now) {
                Some(e) => renewed == Err::<Event, Error>(e) && *final(self) == *old(self),
                None => {
                    &&& renewed == Ok::<Event, Error>(
                        Event::SubscriptionRenewed {
                            subscriber,
                            creator,
                            expiry_date: expiry_from(
                                now,
                                old(self)@.tiers[tier_id].duration_days,
                            ) as u64,
                        },
                    )
                    &&& final(self)@ == old(self)@.renew(subscriber@, creator@, tier_id, now)
                },
            },
    {
        if !(*caller == subscriber) {
            return Err(Error::Unauthorized);
        }
        if tier_id == 0 || tier_id - 1 >= self.tiers.len() as u64 {
            return Err(Error::NotFound);
        }
        let ghost before = *self;
        let i = match self.find_subscription(&subscriber, &creator) {
            Some(i) => i,
            None => { return Err(Error::NotFound); },
        };
        let expiry_date = match self.expiry_date((tier_id - 1) as usize, now) {
            Some(date) => date,
            None => { return Err(Error::Overflow); },
        };
        self.subscriptions[i].expiry_date = expiry_date;
        proof {
            lemma_lookup(before.subscriptions@, i as int);
            lemma_update(before.subscriptions@, i as int, self.subscriptions@[i as int]);
            assert(self.subscriptions@ =~= before.subscriptions@.update(
                i as int,
                self.subscriptions@[i as int],
            ));
            assert(before@.has_subscription(subscriber@, creator@));
            lemma_subscription_changes_preserve_inv(
                before@,
                subscriber,
                creator,
                tier_id,
                false,
                now,
            );
        }
        Ok(Event::SubscriptionRenewed { subscriber, creator, expiry_date })
    }

    /// The tier of `tier_id`, if it was created.
    pub fn get_tier(&self, tier_id: u64) -> (found: Option<SubscriptionTier>)
        requires
            self.wf(),
        ensures
            found == if self@.has_tier(tier_id) {
                Some(self@.tiers[tier_id])
            } else {
                None
            },
    {
        if 1 <= tier_id && tier_id - 1 < self.tiers.len() as u64 {
            Some(self.tiers[(tier_id - 1) as usize].clone())
        } else {
            None
        }
    }
}

} // verus!
