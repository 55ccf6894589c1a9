use nostr_ink::account::AccountId;
use nostr_ink::duration::SubscriptionDuration;
use nostr_ink::errors::Error;
use nostr_ink::state::NostrContract;

fn acct(b: u8) -> AccountId {
    AccountId::from_bytes([b; 32])
}

fn relayer_bytes(b: u8) -> Vec<u8> {
    vec![b; 32]
}

#[test]
fn test_full_flow_valid_evidence() {
    let owner = acct(1);
    let relayer = acct(2);
    let subscriber = acct(3);
    let reporter = acct(5);
    let challenger = acct(6);
    let mut contract = NostrContract::new(owner);
    contract.set_challenger(owner, challenger).unwrap();

    let (plan_id, _) = contract
        .create_subscription_plan(relayer, SubscriptionDuration::Month(100))
        .unwrap();
    contract
        .subscribe_to_plan(subscriber, 1000, plan_id, vec![9])
        .unwrap();

    let sub = contract.get_subscription(relayer, subscriber).unwrap();
    assert_eq!(sub.duration, SubscriptionDuration::Month(100));
    assert_eq!(sub.expiry_date, sub.start_date + 2592000);

    let (report_id, _) = contract.report(reporter, 2000, relayer_bytes(2), vec![4, 5, 6]);
    assert_eq!(report_id, 1);

    let (challenged, penalty) = contract.challenge(challenger, 1).unwrap();
    assert_eq!(challenged.report_id, 1);
    assert_eq!(challenged.reporter, reporter);
    assert!(penalty.is_none());
    assert!(contract.get_report(1).unwrap().challenged);

    assert_eq!(contract.challenge(challenger, 1).unwrap_err(), Error::AlreadyResolved);
}

#[test]
fn test_full_flow_empty_evidence_penalizes() {
    let owner = acct(1);
    let relayer = acct(2);
    let reporter = acct(5);
    let challenger = acct(6);
    let mut contract = NostrContract::new(owner);
    contract.set_challenger(owner, challenger).unwrap();
    contract.stake(acct(3), relayer, 100);

    let (report_id, _) = contract.report(reporter, 2000, relayer_bytes(2), vec![]);
    assert_eq!(report_id, 1);

    let (_, penalty) = contract.challenge(challenger, 1).unwrap();
    let penalty = penalty.unwrap();
    assert_eq!(penalty.relayer_id, relayer);
    assert_eq!(penalty.amount, 50);
    assert_eq!(contract.get_stake(relayer), 50);
}

#[test]
fn test_challenge_is_idempotent_safe() {
    let owner = acct(1);
    let challenger = acct(6);
    let mut contract = NostrContract::new(owner);
    contract.set_challenger(owner, challenger).unwrap();
    contract.stake(acct(3), acct(2), 100);

    contract.report(acct(5), 0, relayer_bytes(2), vec![]);

    let first = contract.challenge(challenger, 1);
    assert!(first.is_ok());
    let stake_after_one = contract.get_stake(acct(2));

    let second = contract.challenge(challenger, 1);
    assert_eq!(second.unwrap_err(), Error::AlreadyResolved);

    // the second call changed nothing: the report stays resolved and the
    // stake is what one call left
    assert!(contract.get_report(1).unwrap().challenged);
    assert_eq!(contract.get_stake(acct(2)), stake_after_one);
}

#[test]
fn test_challenge_unauthorized_leaves_report_open() {
    let owner = acct(1);
    let challenger = acct(6);
    let outsider = acct(7);
    let mut contract = NostrContract::new(owner);

    contract.report(acct(5), 0, relayer_bytes(2), vec![1]);

    // nobody designated yet: even the future challenger is refused
    assert_eq!(contract.challenge(challenger, 1).unwrap_err(), Error::Unauthorized);

    contract.set_challenger(owner, challenger).unwrap();
    assert_eq!(contract.challenge(outsider, 1).unwrap_err(), Error::Unauthorized);
    assert!(!contract.get_report(1).unwrap().challenged);
}

#[test]
fn test_challenge_missing_report() {
    let owner = acct(1);
    let challenger = acct(6);
    let mut contract = NostrContract::new(owner);
    contract.set_challenger(owner, challenger).unwrap();

    assert_eq!(contract.challenge(challenger, 1).unwrap_err(), Error::NotFound);
}

#[test]
fn test_penalty_never_drives_stake_below_zero() {
    let owner = acct(1);
    let challenger = acct(6);
    let mut contract = NostrContract::new(owner);
    contract.set_challenger(owner, challenger).unwrap();

    // no stake at all: the penalty is zero and the stake stays zero
    contract.report(acct(5), 0, relayer_bytes(2), vec![]);
    let (_, penalty) = contract.challenge(challenger, 1).unwrap();
    assert_eq!(penalty.unwrap().amount, 0);
    assert_eq!(contract.get_stake(acct(2)), 0);

    // an odd stake: the draw truncates and what remains is never negative
    contract.stake(acct(3), acct(4), 101);
    contract.report(acct(5), 0, relayer_bytes(4), vec![]);
    let (_, penalty) = contract.challenge(challenger, 2).unwrap();
    assert_eq!(penalty.unwrap().amount, 50);
    assert_eq!(contract.get_stake(acct(4)), 51);
}

#[test]
fn test_get_report_missing_is_none() {
    let mut contract = NostrContract::new(acct(1));
    assert!(contract.get_report(1).is_none());
    contract.report(acct(5), 0, relayer_bytes(2), vec![1]);
    assert!(contract.get_report(1).is_some());
    assert!(contract.get_report(2).is_none());
}

#[test]
fn test_report_ids_increase() {
    let mut contract = NostrContract::new(acct(1));
    let (a, ev_a) = contract.report(acct(5), 0, relayer_bytes(2), vec![1]);
    let (b, ev_b) = contract.report(acct(5), 0, relayer_bytes(2), vec![2]);
    assert_eq!((a, b), (1, 2));
    assert_eq!(ev_a.report_id, 1);
    assert_eq!(ev_b.report_id, 2);
    assert_eq!(ev_a.receipt, vec![1]);
}

#[test]
fn test_expire_sweep_penalizes_once() {
    let mut contract = NostrContract::new(acct(1));
    contract.stake(acct(3), acct(2), 100);

    // filed at time zero; the challenge window is one hour
    contract.report(acct(5), 0, relayer_bytes(2), vec![]);

    // too early: nothing is due
    assert!(contract.handle_challenge_task(3599).is_empty());
    assert!(!contract.get_report(1).unwrap().challenged);

    // the window has passed: the report resolves against the relayer
    let penalties = contract.handle_challenge_task(3600);
    assert_eq!(penalties.len(), 1);
    assert_eq!(penalties[0].relayer_id, acct(2));
    assert_eq!(penalties[0].amount, 50);
    assert_eq!(contract.get_stake(acct(2)), 50);
    assert!(contract.get_report(1).unwrap().challenged);

    // running the sweep again penalizes nobody
    assert!(contract.handle_challenge_task(3600).is_empty());
    assert_eq!(contract.get_stake(acct(2)), 50);
}

#[test]
fn test_sweep_skips_resolved_reports() {
    let owner = acct(1);
    let challenger = acct(6);
    let mut contract = NostrContract::new(owner);
    contract.set_challenger(owner, challenger).unwrap();
    contract.stake(acct(3), acct(2), 100);

    contract.report(acct(5), 0, relayer_bytes(2), vec![7]);
    contract.challenge(challenger, 1).unwrap();

    assert!(contract.handle_challenge_task(100000).is_empty());
    assert_eq!(contract.get_stake(acct(2)), 100);
}
