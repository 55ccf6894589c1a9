use nostr_ink::account::AccountId;
use nostr_ink::billing::earnings;
use nostr_ink::duration::SubscriptionDuration;
use nostr_ink::errors::Error;
use nostr_ink::state::NostrContract;

fn acct(b: u8) -> AccountId {
    AccountId::from_bytes([b; 32])
}

#[test]
fn test_earnings_is_seventy_percent_truncating() {
    assert_eq!(earnings(100), 70);
    assert_eq!(earnings(99), 69);
    assert_eq!(earnings(101), 70);
    assert_eq!(earnings(1), 0);
    assert_eq!(earnings(0), 0);
    assert_eq!(earnings(10), 7);
    // no overflow near the top of the amount range
    assert_eq!(earnings(u128::MAX), u128::MAX / 100 * 70 + (u128::MAX % 100) * 70 / 100);
}

#[test]
fn test_pay_relayer_lists_expired_unsettled() {
    let relayer = acct(2);
    let subscriber = acct(3);
    let mut contract = NostrContract::new(acct(1));

    let (plan_id, _) = contract
        .create_subscription_plan(relayer, SubscriptionDuration::Week(100))
        .unwrap();
    contract.subscribe_to_plan(subscriber, 0, plan_id, vec![]).unwrap();

    // before expiry nothing is owed
    assert!(contract.pay_relayer(604799).is_empty());

    // at expiry the relayer is owed its share once
    let due = contract.pay_relayer(604800);
    assert_eq!(due.len(), 1);
    assert_eq!(due[0].subscription_index, 0);
    assert_eq!(due[0].relayer_id, relayer);
    assert_eq!(due[0].amount, 70);

    // after the host confirms the payout the subscription never pays again
    contract.mark_settled(due[0].subscription_index).unwrap();
    assert!(contract.pay_relayer(604800).is_empty());
    assert!(contract.pay_relayer(9999999).is_empty());
}

#[test]
fn test_pay_relayer_isolates_settlements() {
    let r1 = acct(2);
    let r2 = acct(4);
    let s = acct(3);
    let mut contract = NostrContract::new(acct(1));

    let (p1, _) = contract
        .create_subscription_plan(r1, SubscriptionDuration::Week(100))
        .unwrap();
    let (p2, _) = contract
        .create_subscription_plan(r2, SubscriptionDuration::Week(200))
        .unwrap();
    contract.subscribe_to_plan(s, 0, p1, vec![]).unwrap();
    contract.subscribe_to_plan(s, 0, p2, vec![]).unwrap();

    let due = contract.pay_relayer(604800);
    assert_eq!(due.len(), 2);

    // the first relayer's transfer failed: only the second is confirmed
    contract.mark_settled(due[1].subscription_index).unwrap();

    let remaining = contract.pay_relayer(604800);
    assert_eq!(remaining.len(), 1);
    assert_eq!(remaining[0].relayer_id, r1);
    assert_eq!(remaining[0].amount, 70);
}

#[test]
fn test_mark_settled_out_of_range() {
    let mut contract = NostrContract::new(acct(1));
    assert_eq!(contract.mark_settled(0).unwrap_err(), Error::NotFound);
}

#[test]
fn test_get_total_earnings_counts_active_terms() {
    let relayer = acct(2);
    let s1 = acct(3);
    let s2 = acct(4);
    let mut contract = NostrContract::new(acct(1));

    let (plan_id, _) = contract
        .create_subscription_plan(relayer, SubscriptionDuration::Month(100))
        .unwrap();
    contract.subscribe_to_plan(s1, 0, plan_id, vec![]).unwrap();
    contract.subscribe_to_plan(s2, 0, plan_id, vec![]).unwrap();

    // both subscriptions active: the plan price counts once per each
    assert_eq!(contract.get_total_earnings(relayer, 1000), 200);

    // past expiry nothing counts
    assert_eq!(contract.get_total_earnings(relayer, 2592001), 0);

    // an account without plans earns nothing
    assert_eq!(contract.get_total_earnings(acct(9), 1000), 0);
}
