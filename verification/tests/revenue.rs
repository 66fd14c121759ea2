use creator_ledger::address::Address;
use creator_ledger::error::Error;
use creator_ledger::events::Event;
use creator_ledger::revenue::{CreatorBalance, Payout, RevenueContract, DEFAULT_MIN_WITHDRAWAL};

fn creator(name: &str) -> Address {
    Address::new(name.to_string())
}

fn ledger_with_token() -> RevenueContract {
    let mut ledger = RevenueContract::new();
    ledger.initialize(creator("token"));
    ledger
}

fn balance(name: &str, available: i128, earned: i128, withdrawn: i128, last: u64) -> CreatorBalance {
    CreatorBalance {
        creator: creator(name),
        available_balance: available,
        total_earned: earned,
        total_withdrawn: withdrawn,
        last_withdrawal: last,
    }
}

#[test]
fn default_threshold_is_one_million() {
    assert_eq!(DEFAULT_MIN_WITHDRAWAL, 1_000_000);
}

#[test]
fn balance_of_unknown_creator_is_zero() {
    let ledger = RevenueContract::new();
    assert_eq!(ledger.get_balance(creator("alice")), balance("alice", 0, 0, 0, 0));
    assert_eq!(ledger.get_available_balance(creator("alice")), 0);
}

#[test]
fn record_earning_adds_to_earned_and_available() {
    let mut ledger = RevenueContract::new();
    let event = ledger.record_earning(creator("alice"), 950).unwrap();
    assert_eq!(event, Event::EarningRecorded { creator: creator("alice"), amount: 950 });
    assert_eq!(event.topic(), "earning_recorded");
    assert_eq!(ledger.get_balance(creator("alice")), balance("alice", 950, 950, 0, 0));
    ledger.record_earning(creator("alice"), 50).unwrap();
    assert_eq!(ledger.get_balance(creator("alice")), balance("alice", 1000, 1000, 0, 0));
    assert_eq!(ledger.get_available_balance(creator("alice")), 1000);
    assert_eq!(ledger.get_available_balance(creator("bob")), 0);
}

#[test]
fn scenario_earning_then_withdrawal_below_minimum() {
    let mut ledger = ledger_with_token();
    ledger.record_earning(creator("alice"), 950).unwrap();
    assert_eq!(ledger.get_available_balance(creator("alice")), 950);
    assert_eq!(
        ledger.withdraw(&creator("alice"), 5, creator("alice"), 900),
        Err(Error::BelowMinimum)
    );
    assert_eq!(ledger.get_balance(creator("alice")), balance("alice", 950, 950, 0, 0));
}

#[test]
fn withdrawal_below_minimum_is_refused_whatever_the_balance() {
    let mut ledger = ledger_with_token();
    ledger.record_earning(creator("alice"), 50_000_000).unwrap();
    assert_eq!(
        ledger.withdraw(&creator("alice"), 5, creator("alice"), 999_999),
        Err(Error::BelowMinimum)
    );
    assert_eq!(ledger.withdraw(&creator("alice"), 5, creator("alice"), 0), Err(Error::BelowMinimum));
    assert_eq!(
        ledger.withdraw(&creator("alice"), 5, creator("alice"), -1),
        Err(Error::BelowMinimum)
    );
    assert_eq!(ledger.get_available_balance(creator("alice")), 50_000_000);
}

#[test]
fn withdrawal_above_balance_is_refused() {
    let mut ledger = ledger_with_token();
    ledger.record_earning(creator("alice"), 2_000_000).unwrap();
    assert_eq!(
        ledger.withdraw(&creator("alice"), 5, creator("alice"), 2_000_001),
        Err(Error::InsufficientBalance)
    );
    assert_eq!(ledger.get_balance(creator("alice")), balance("alice", 2_000_000, 2_000_000, 0, 0));
}

#[test]
fn withdrawal_moves_the_amount_and_orders_the_payout() {
    let mut ledger = ledger_with_token();
    ledger.record_earning(creator("alice"), 3_000_000).unwrap();
    let (payout, event) = ledger.withdraw(&creator("alice"), 123, creator("alice"), 1_000_000).unwrap();
    assert_eq!(payout, Payout { token: creator("token"), to: creator("alice"), amount: 1_000_000 });
    assert_eq!(event, Event::WithdrawalProcessed { creator: creator("alice"), amount: 1_000_000 });
    assert_eq!(event.topic(), "withdrawal_processed");
    assert_eq!(
        ledger.get_balance(creator("alice")),
        balance("alice", 2_000_000, 3_000_000, 1_000_000, 123)
    );
    ledger.withdraw(&creator("alice"), 200, creator("alice"), 2_000_000).unwrap();
    assert_eq!(ledger.get_balance(creator("alice")), balance("alice", 0, 3_000_000, 3_000_000, 200));
    assert_eq!(
        ledger.withdraw(&creator("alice"), 201, creator("alice"), 1_000_000),
        Err(Error::InsufficientBalance)
    );
}

#[test]
fn withdrawal_of_exactly_the_threshold_and_the_balance() {
    let mut ledger = ledger_with_token();
    ledger.record_earning(creator("alice"), 1_000_000).unwrap();
    assert!(ledger.withdraw(&creator("alice"), 1, creator("alice"), 1_000_000).is_ok());
    assert_eq!(ledger.get_available_balance(creator("alice")), 0);
}

#[test]
fn withdrawal_by_another_caller_is_unauthorized() {
    let mut ledger = ledger_with_token();
    ledger.record_earning(creator("alice"), 3_000_000).unwrap();
    assert_eq!(
        ledger.withdraw(&creator("bob"), 1, creator("alice"), 1_000_000),
        Err(Error::Unauthorized)
    );
    assert_eq!(ledger.get_available_balance(creator("alice")), 3_000_000);
}

#[test]
fn withdrawal_without_a_balance_is_not_found() {
    let mut ledger = ledger_with_token();
    assert_eq!(
        ledger.withdraw(&creator("alice"), 1, creator("alice"), 1_000_000),
        Err(Error::NotFound)
    );
    assert_eq!(ledger.withdraw(&creator("alice"), 1, creator("alice"), 5), Err(Error::NotFound));
}

#[test]
fn withdrawal_without_a_token_is_not_configured_and_charges_nothing() {
    let mut ledger = RevenueContract::new();
    ledger.record_earning(creator("alice"), 3_000_000).unwrap();
    assert_eq!(
        ledger.withdraw(&creator("alice"), 1, creator("alice"), 1_000_000),
        Err(Error::NotConfigured)
    );
    assert_eq!(ledger.get_balance(creator("alice")), balance("alice", 3_000_000, 3_000_000, 0, 0));
    assert_eq!(
        ledger.withdraw(&creator("alice"), 1, creator("alice"), 10),
        Err(Error::BelowMinimum)
    );
}

#[test]
fn earning_that_overflows_is_refused_and_changes_nothing() {
    let mut ledger = RevenueContract::new();
    ledger.record_earning(creator("alice"), i128::MAX).unwrap();
    assert_eq!(ledger.record_earning(creator("alice"), 1), Err(Error::Overflow));
    assert_eq!(ledger.get_balance(creator("alice")), balance("alice", i128::MAX, i128::MAX, 0, 0));
    assert!(ledger.record_earning(creator("bob"), i128::MIN).is_ok());
    assert_eq!(ledger.record_earning(creator("bob"), -1), Err(Error::Overflow));
}

#[test]
fn negative_earning_is_accepted_and_keeps_the_equation() {
    let mut ledger = RevenueContract::new();
    ledger.record_earning(creator("alice"), -5).unwrap();
    let b = ledger.get_balance(creator("alice"));
    assert_eq!(b, balance("alice", -5, -5, 0, 0));
    assert_eq!(b.available_balance, b.total_earned - b.total_withdrawn);
}

#[test]
fn balances_add_up_after_any_run_of_calls() {
    let mut ledger = ledger_with_token();
    let names = ["alice", "bob", "carol"];
    let mut now = 0u64;
    for round in 0..40i128 {
        let name = names[(round % 3) as usize];
        let _ = ledger.record_earning(creator(name), round * 250_000);
        now += 1;
        let _ = ledger.withdraw(&creator(name), now, creator(name), 1_000_000 + round * 1000);
        for n in names {
            let b = ledger.get_balance(creator(n));
            assert_eq!(b.available_balance, b.total_earned - b.total_withdrawn);
            assert!(b.available_balance >= 0 && b.total_earned >= 0 && b.total_withdrawn >= 0);
        }
    }
}

#[test]
fn balances_of_creators_do_not_mix() {
    let mut ledger = ledger_with_token();
    ledger.record_earning(creator("alice"), 2_000_000).unwrap();
    ledger.record_earning(creator("bob"), 7).unwrap();
    ledger.withdraw(&creator("alice"), 3, creator("alice"), 1_500_000).unwrap();
    assert_eq!(ledger.get_balance(creator("bob")), balance("bob", 7, 7, 0, 0));
    assert_eq!(
        ledger.get_balance(creator("alice")),
        balance("alice", 500_000, 2_000_000, 1_500_000, 3)
    );
}

#[test]
fn revenue_restore_keeps_balances() {
    let kept = vec![balance("alice", 500, 2_000, 1_500, 9), balance("bob", 0, 0, 0, 0)];
    let mut ledger = RevenueContract::restore(Some(creator("token")), 100, kept).unwrap();
    assert_eq!(ledger.get_balance(creator("alice")), balance("alice", 500, 2_000, 1_500, 9));
    assert_eq!(ledger.withdraw(&creator("alice"), 10, creator("alice"), 99), Err(Error::BelowMinimum));
    let (payout, _) = ledger.withdraw(&creator("alice"), 10, creator("alice"), 100).unwrap();
    assert_eq!(payout.amount, 100);
    assert_eq!(ledger.get_balance(creator("alice")), balance("alice", 400, 2_000, 1_600, 10));
}

#[test]
fn revenue_restore_refuses_what_no_ledger_holds() {
    assert!(RevenueContract::restore(None, -1, Vec::new()).is_none());
    assert!(RevenueContract::restore(None, 0, vec![balance("alice", 1, 0, 0, 0)]).is_none());
    assert!(RevenueContract::restore(None, 0, vec![balance("alice", 1, 0, -1, 0)]).is_none());
    assert!(RevenueContract::restore(
        None,
        0,
        vec![balance("alice", 0, 0, 0, 0), balance("alice", 0, 0, 0, 0)]
    )
    .is_none());
    assert!(RevenueContract::restore(None, 0, vec![balance("alice", 0, i128::MIN, 1, 0)]).is_none());
    assert!(RevenueContract::restore(None, 0, vec![balance("alice", -5, -5, 0, 0)]).is_some());
}

#[test]
fn initialize_sets_the_default_threshold() {
    let mut ledger = RevenueContract::restore(None, 5, vec![balance("alice", 500, 500, 0, 0)]).unwrap();
    ledger.initialize(creator("token"));
    assert_eq!(
        ledger.withdraw(&creator("alice"), 1, creator("alice"), 100),
        Err(Error::BelowMinimum)
    );
}
