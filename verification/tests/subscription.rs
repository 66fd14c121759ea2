use creator_ledger::address::Address;
use creator_ledger::error::Error;
use creator_ledger::events::Event;
use creator_ledger::subscription::{Subscription, SubscriptionContract, SubscriptionTier, SECONDS_PER_DAY};

fn person(name: &str) -> Address {
    Address::new(name.to_string())
}

fn manager_with_tier(duration_days: u32) -> SubscriptionContract {
    let mut manager = SubscriptionContract::new();
    manager
        .create_tier(&person("alice"), person("alice"), "gold".to_string(), 700, duration_days)
        .unwrap();
    manager
}

#[test]
fn a_day_has_86400_seconds() {
    assert_eq!(SECONDS_PER_DAY, 86400);
}

#[test]
fn create_tier_numbers_tiers_from_one() {
    let mut manager = SubscriptionContract::new();
    let (id, event) = manager
        .create_tier(&person("alice"), person("alice"), "gold".to_string(), 700, 30)
        .unwrap();
    assert_eq!(id, 1);
    assert_eq!(event, Event::TierCreated { tier_id: 1, creator: person("alice"), price: 700 });
    assert_eq!(event.topic(), "tier_created");
    let (second, _) = manager
        .create_tier(&person("bob"), person("bob"), "silver".to_string(), -3, 0)
        .unwrap();
    assert_eq!(second, 2);
    assert_eq!(
        manager.get_tier(1),
        Some(SubscriptionTier {
            tier_id: 1,
            creator: person("alice"),
            name: "gold".to_string(),
            price: 700,
            duration_days: 30,
        })
    );
    assert_eq!(manager.get_tier(2).unwrap().duration_days, 0);
    assert_eq!(manager.get_tier(0), None);
    assert_eq!(manager.get_tier(3), None);
}

#[test]
fn create_tier_by_another_caller_is_unauthorized() {
    let mut manager = SubscriptionContract::new();
    assert_eq!(
        manager.create_tier(&person("bob"), person("alice"), "gold".to_string(), 700, 30),
        Err(Error::Unauthorized)
    );
    assert_eq!(manager.get_tier(1), None);
}

#[test]
fn scenario_thirty_day_subscription() {
    let mut manager = manager_with_tier(30);
    let t: u64 = 1_700_000_000;
    let event = manager.subscribe(&person("bob"), t, person("bob"), person("alice"), 1, true).unwrap();
    assert_eq!(
        event,
        Event::Subscribed {
            subscriber: person("bob"),
            creator: person("alice"),
            tier_id: 1,
            expiry_date: t + 2_592_000,
        }
    );
    assert_eq!(event.topic(), "subscribed");
    assert_eq!(
        manager.get_subscription(person("bob"), person("alice")),
        Some(Subscription {
            subscriber: person("bob"),
            creator: person("alice"),
            tier_id: 1,
            start_date: t,
            expiry_date: t + 2_592_000,
            auto_renew: true,
        })
    );
    assert!(manager.is_subscribed(t, person("bob"), person("alice")));
    assert!(manager.is_subscribed(t + 2_591_999, person("bob"), person("alice")));
    assert!(!manager.is_subscribed(t + 2_592_000, person("bob"), person("alice")));
    assert!(!manager.is_subscribed(t + 2_592_001, person("bob"), person("alice")));
}

#[test]
fn is_subscribed_without_a_subscription_is_false() {
    let manager = manager_with_tier(30);
    assert!(!manager.is_subscribed(0, person("bob"), person("alice")));
    assert_eq!(manager.get_subscription(person("bob"), person("alice")), None);
}

#[test]
fn subscription_is_per_pair_and_directed() {
    let mut manager = manager_with_tier(1);
    manager.subscribe(&person("bob"), 10, person("bob"), person("alice"), 1, false).unwrap();
    assert!(manager.is_subscribed(10, person("bob"), person("alice")));
    assert!(!manager.is_subscribed(10, person("alice"), person("bob")));
    assert!(!manager.is_subscribed(10, person("bob"), person("carol")));
    assert!(!manager.is_subscribed(10, person("carol"), person("alice")));
}

#[test]
fn zero_day_tier_is_never_active() {
    let mut manager = manager_with_tier(0);
    manager.subscribe(&person("bob"), 10, person("bob"), person("alice"), 1, false).unwrap();
    assert!(!manager.is_subscribed(10, person("bob"), person("alice")));
    assert!(manager.is_subscribed(9, person("bob"), person("alice")));
}

#[test]
fn subscribe_to_unknown_tier_is_not_found() {
    let mut manager = manager_with_tier(30);
    assert_eq!(
        manager.subscribe(&person("bob"), 10, person("bob"), person("alice"), 2, false),
        Err(Error::NotFound)
    );
    assert_eq!(
        manager.subscribe(&person("bob"), 10, person("bob"), person("alice"), 0, false),
        Err(Error::NotFound)
    );
    assert_eq!(manager.get_subscription(person("bob"), person("alice")), None);
}

#[test]
fn subscribe_by_another_caller_is_unauthorized() {
    let mut manager = manager_with_tier(30);
    assert_eq!(
        manager.subscribe(&person("mallory"), 10, person("bob"), person("alice"), 1, false),
        Err(Error::Unauthorized)
    );
    assert_eq!(manager.get_subscription(person("bob"), person("alice")), None);
}

#[test]
fn subscribe_past_the_end_of_time_overflows() {
    let mut manager = manager_with_tier(30);
    assert_eq!(
        manager.subscribe(&person("bob"), u64::MAX - 2_591_999, person("bob"), person("alice"), 1, false),
        Err(Error::Overflow)
    );
    assert!(manager
        .subscribe(&person("bob"), u64::MAX - 2_592_000, person("bob"), person("alice"), 1, false)
        .is_ok());
    assert_eq!(
        manager.get_subscription(person("bob"), person("alice")).unwrap().expiry_date,
        u64::MAX
    );
}

#[test]
fn resubscribing_replaces_the_record() {
    let mut manager = manager_with_tier(30);
    manager.create_tier(&person("alice"), person("alice"), "week".to_string(), 100, 7).unwrap();
    manager.subscribe(&person("bob"), 1000, person("bob"), person("alice"), 1, true).unwrap();
    manager.subscribe(&person("bob"), 2000, person("bob"), person("alice"), 2, false).unwrap();
    assert_eq!(
        manager.get_subscription(person("bob"), person("alice")),
        Some(Subscription {
            subscriber: person("bob"),
            creator: person("alice"),
            tier_id: 2,
            start_date: 2000,
            expiry_date: 2000 + 7 * 86400,
            auto_renew: false,
        })
    );
    assert!(!manager.is_subscribed(2000 + 7 * 86400, person("bob"), person("alice")));
}

#[test]
fn cancel_only_clears_auto_renew() {
    let mut manager = manager_with_tier(30);
    manager.subscribe(&person("bob"), 1000, person("bob"), person("alice"), 1, true).unwrap();
    let event = manager.cancel_subscription(&person("bob"), person("bob"), person("alice")).unwrap();
    assert_eq!(
        event,
        Event::SubscriptionCancelled { subscriber: person("bob"), creator: person("alice") }
    );
    assert_eq!(event.topic(), "subscription_cancelled");
    assert_eq!(
        manager.get_subscription(person("bob"), person("alice")),
        Some(Subscription {
            subscriber: person("bob"),
            creator: person("alice"),
            tier_id: 1,
            start_date: 1000,
            expiry_date: 1000 + 2_592_000,
            auto_renew: false,
        })
    );
    assert!(manager.is_subscribed(1000 + 2_591_999, person("bob"), person("alice")));
}

#[test]
fn cancel_without_a_subscription_is_not_found() {
    let mut manager = manager_with_tier(30);
    assert_eq!(
        manager.cancel_subscription(&person("bob"), person("bob"), person("alice")),
        Err(Error::NotFound)
    );
    assert_eq!(
        manager.cancel_subscription(&person("carol"), person("bob"), person("alice")),
        Err(Error::Unauthorized)
    );
}

#[test]
fn renew_counts_from_now_and_keeps_the_rest() {
    let mut manager = manager_with_tier(30);
    manager.create_tier(&person("alice"), person("alice"), "week".to_string(), 100, 7).unwrap();
    manager.subscribe(&person("bob"), 1000, person("bob"), person("alice"), 1, true).unwrap();
    let event = manager
        .renew_subscription(&person("bob"), 5000, person("bob"), person("alice"), 2)
        .unwrap();
    assert_eq!(
        event,
        Event::SubscriptionRenewed {
            subscriber: person("bob"),
            creator: person("alice"),
            expiry_date: 5000 + 7 * 86400,
        }
    );
    assert_eq!(event.topic(), "subscription_renewed");
    assert_eq!(
        manager.get_subscription(person("bob"), person("alice")),
        Some(Subscription {
            subscriber: person("bob"),
            creator: person("alice"),
            tier_id: 1,
            start_date: 1000,
            expiry_date: 5000 + 7 * 86400,
            auto_renew: true,
        })
    );
}

#[test]
fn renew_refusals() {
    let mut manager = manager_with_tier(30);
    assert_eq!(
        manager.renew_subscription(&person("bob"), 5000, person("bob"), person("alice"), 1),
        Err(Error::NotFound)
    );
    manager.subscribe(&person("bob"), 1000, person("bob"), person("alice"), 1, true).unwrap();
    assert_eq!(
        manager.renew_subscription(&person("bob"), 5000, person("bob"), person("alice"), 9),
        Err(Error::NotFound)
    );
    assert_eq!(
        manager.renew_subscription(&person("eve"), 5000, person("bob"), person("alice"), 1),
        Err(Error::Unauthorized)
    );
    assert_eq!(
        manager.renew_subscription(&person("bob"), u64::MAX, person("bob"), person("alice"), 1),
        Err(Error::Overflow)
    );
    assert_eq!(
        manager.get_subscription(person("bob"), person("alice")).unwrap().expiry_date,
        1000 + 2_592_000
    );
}

#[test]
fn subscription_restore_keeps_tiers_and_subscriptions() {
    let mut manager = manager_with_tier(30);
    manager.subscribe(&person("bob"), 1000, person("bob"), person("alice"), 1, true).unwrap();
    let tiers = vec![manager.get_tier(1).unwrap()];
    let subscriptions = vec![manager.get_subscription(person("bob"), person("alice")).unwrap()];
    let mut restored = SubscriptionContract::restore(tiers, subscriptions).unwrap();
    assert_eq!(restored.get_tier(1), manager.get_tier(1));
    assert!(restored.is_subscribed(1000, person("bob"), person("alice")));
    let (id, _) = restored
        .create_tier(&person("bob"), person("bob"), "x".to_string(), 1, 1)
        .unwrap();
    assert_eq!(id, 2);
}

#[test]
fn subscription_restore_refuses_what_no_manager_holds() {
    let manager = manager_with_tier(30);
    let tier = manager.get_tier(1).unwrap();
    let sub = Subscription {
        subscriber: person("bob"),
        creator: person("alice"),
        tier_id: 1,
        start_date: 0,
        expiry_date: 5,
        auto_renew: false,
    };
    assert!(SubscriptionContract::restore(vec![tier.clone()], vec![sub.clone()]).is_some());
    assert!(SubscriptionContract::restore(vec![tier.clone()], vec![sub.clone(), sub.clone()]).is_none());
    assert!(SubscriptionContract::restore(Vec::new(), vec![sub.clone()]).is_none());
    let mut misnumbered = tier.clone();
    misnumbered.tier_id = 2;
    assert!(SubscriptionContract::restore(vec![misnumbered], Vec::new()).is_none());
    let mut other = sub.clone();
    other.creator = person("carol");
    assert!(SubscriptionContract::restore(vec![tier], vec![sub, other]).is_some());
}
