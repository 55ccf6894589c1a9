use nostr_ink::account::AccountId;
use nostr_ink::duration::SubscriptionDuration;
use nostr_ink::errors::Error;
use nostr_ink::state::NostrContract;

fn acct(b: u8) -> AccountId {
    AccountId::from_bytes([b; 32])
}

#[test]
fn test_create_subscription_plan() {
    let alice = acct(1);
    let mut contract = NostrContract::new(alice);

    let (plan_id, _) = contract
        .create_subscription_plan(alice, SubscriptionDuration::Month(100))
        .unwrap();

    let plans_info = contract.get_subscription_plans();
    assert_eq!(plans_info.len(), 1);
    assert_eq!(plans_info[0].0, plan_id);
    assert_eq!(plans_info[0].1.duration, SubscriptionDuration::Month(100));
}

#[test]
fn test_subscribe_to_plan() {
    let bob = acct(1);
    let mut contract = NostrContract::new(bob);

    let (plan_id, _) = contract
        .create_subscription_plan(bob, SubscriptionDuration::Month(100))
        .unwrap();

    contract
        .subscribe_to_plan(bob, 0, plan_id, vec![1, 2, 3])
        .unwrap();

    let subscribers_info = contract.get_subscribers(bob);
    assert_eq!(subscribers_info.ok.len(), 1);
    assert_eq!(subscribers_info.ok[0].sub_id, bob);
    assert_eq!(
        subscribers_info.ok[0].duration,
        SubscriptionDuration::Month(100)
    );
}

#[test]
fn test_report() {
    let bob = acct(1);
    let mut contract = NostrContract::new(bob);

    contract.report(bob, 0, vec![3; 32], vec![4, 5, 6]);

    let report = contract.get_report(1).unwrap();
    assert_eq!(report.reporter, bob);
    assert_eq!(report.challenged, false);
}

#[test]
fn test_plan_ids_unique_and_increasing() {
    let relayer = acct(2);
    let mut contract = NostrContract::new(acct(1));

    let (a, _) = contract
        .create_subscription_plan(relayer, SubscriptionDuration::Week(10))
        .unwrap();
    let (b, _) = contract
        .create_subscription_plan(relayer, SubscriptionDuration::Month(20))
        .unwrap();
    let (c, _) = contract
        .create_subscription_plan(relayer, SubscriptionDuration::Year(30))
        .unwrap();
    assert_eq!((a, b, c), (1, 2, 3));

    let listed: Vec<u64> = contract
        .get_subscription_plans()
        .iter()
        .map(|p| p.0)
        .collect();
    assert_eq!(listed, vec![1, 2, 3]);
}

#[test]
fn test_create_plan_rejects_unknown_duration() {
    let relayer = acct(2);
    let mut contract = NostrContract::new(acct(1));

    let r = contract.create_subscription_plan(relayer, SubscriptionDuration::Unknown);
    assert_eq!(r.unwrap_err(), Error::InvalidInput);
    assert!(contract.get_subscription_plans().is_empty());
}

#[test]
fn test_create_plan_allows_zero_price() {
    let relayer = acct(2);
    let mut contract = NostrContract::new(acct(1));

    let (plan_id, _) = contract
        .create_subscription_plan(relayer, SubscriptionDuration::Week(0))
        .unwrap();
    assert_eq!(plan_id, 1);
}

#[test]
fn test_subscribe_unknown_plan_fails_and_mutates_nothing() {
    let relayer = acct(2);
    let subscriber = acct(3);
    let mut contract = NostrContract::new(acct(1));

    contract
        .create_subscription_plan(relayer, SubscriptionDuration::Month(100))
        .unwrap();

    let r = contract.subscribe_to_plan(subscriber, 1000, 77, vec![1]);
    assert_eq!(r.unwrap_err(), Error::NotFound);

    // no subscription record and no stake mutation
    assert!(contract.get_subscription(relayer, subscriber).is_none());
    assert_eq!(contract.get_stake(relayer), 0);
    assert!(contract.get_subscribers(relayer).ok.is_empty());
}

#[test]
fn test_subscription_windows_are_exact() {
    let relayer = acct(2);
    let subscriber = acct(3);
    let mut contract = NostrContract::new(acct(1));

    let (week, _) = contract
        .create_subscription_plan(relayer, SubscriptionDuration::Week(5))
        .unwrap();
    let (month, _) = contract
        .create_subscription_plan(relayer, SubscriptionDuration::Month(5))
        .unwrap();
    let (year, _) = contract
        .create_subscription_plan(relayer, SubscriptionDuration::Year(5))
        .unwrap();

    contract.subscribe_to_plan(subscriber, 100, week, vec![]).unwrap();
    let s = contract.get_subscription(relayer, subscriber).unwrap();
    assert_eq!(s.expiry_date - s.start_date, 604800);

    contract.subscribe_to_plan(subscriber, 200, month, vec![]).unwrap();
    let s = contract.get_subscription(relayer, subscriber).unwrap();
    assert_eq!(s.expiry_date - s.start_date, 2592000);

    contract.subscribe_to_plan(subscriber, 300, year, vec![]).unwrap();
    let s = contract.get_subscription(relayer, subscriber).unwrap();
    assert_eq!(s.expiry_date - s.start_date, 31536000);
}

#[test]
fn test_get_subscription_returns_most_recent() {
    let relayer = acct(2);
    let subscriber = acct(3);
    let mut contract = NostrContract::new(acct(1));

    let (plan_id, _) = contract
        .create_subscription_plan(relayer, SubscriptionDuration::Week(5))
        .unwrap();

    contract.subscribe_to_plan(subscriber, 100, plan_id, vec![]).unwrap();
    contract.subscribe_to_plan(subscriber, 900, plan_id, vec![]).unwrap();

    let s = contract.get_subscription(relayer, subscriber).unwrap();
    assert_eq!(s.start_date, 900);
}

#[test]
fn test_set_challenger_requires_owner() {
    let owner = acct(1);
    let outsider = acct(9);
    let mut contract = NostrContract::new(owner);

    assert_eq!(
        contract.set_challenger(outsider, acct(4)).unwrap_err(),
        Error::Unauthorized
    );
    assert!(contract.get_challenger().is_none());

    contract.set_challenger(owner, acct(4)).unwrap();
    assert_eq!(contract.get_challenger(), Some(acct(4)));
}

#[test]
fn test_stake_accumulates_per_relayer() {
    let staker = acct(3);
    let relayer = acct(2);
    let other = acct(5);
    let mut contract = NostrContract::new(acct(1));

    let ev = contract.stake(staker, relayer, 60);
    assert_eq!(ev.staker, staker);
    assert_eq!(ev.relayer_id, relayer);
    assert_eq!(ev.amount, 60);

    contract.stake(staker, relayer, 40);
    contract.stake(staker, other, 7);

    assert_eq!(contract.get_stake(relayer), 100);
    assert_eq!(contract.get_stake(other), 7);
    assert_eq!(contract.get_stake(acct(8)), 0);
}

#[test]
fn test_decode_account_id_round_trip() {
    let contract = NostrContract::new(acct(1));
    let bytes: Vec<u8> = vec![7; 32];
    let decoded = contract.decode_account_id(&bytes);
    assert_eq!(decoded, acct(7));
}

#[test]
fn test_get_subscribers_lists_roster() {
    let relayer = acct(2);
    let s1 = acct(3);
    let s2 = acct(4);
    let mut contract = NostrContract::new(acct(1));

    let (plan_id, _) = contract
        .create_subscription_plan(relayer, SubscriptionDuration::Month(100))
        .unwrap();
    contract.subscribe_to_plan(s1, 10, plan_id, vec![1, 1]).unwrap();
    contract.subscribe_to_plan(s2, 20, plan_id, vec![2, 2]).unwrap();

    let roster = contract.get_subscribers(relayer);
    assert_eq!(roster.ok.len(), 2);
    assert_eq!(roster.ok[0].sub_id, s1);
    assert_eq!(roster.ok[0].nostr_pubkey, vec![1, 1]);
    assert_eq!(roster.ok[0].start_date, 10);
    assert_eq!(roster.ok[1].sub_id, s2);
    assert_eq!(roster.ok[1].nostr_pubkey, vec![2, 2]);
}
