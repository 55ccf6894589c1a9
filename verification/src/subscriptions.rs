//! The subscription ledger's records: a subscription binds a subscriber
//! to a relayer's plan for a fixed window, and becomes eligible for
//! settlement once that window has passed.

use vstd::prelude::*;
use crate::account::{account_eq, AccountId};
use crate::duration::{duration_secs, spec_duration_secs, SubscriptionDuration, YEAR_SECS};
use crate::errors::Error;
use crate::events::Subscribed;
use crate::plans::{
    find_plan_by_relayer, has_plan, lemma_find_plan_by_relayer_skip, lemma_has_plan_iff, PlanView,
};
use crate::state::{NostrContract, StateView};

verus! {

/// A subscription record. Never mutated after creation except for the
/// `settled` marker, which the billing engine sets after a successful
/// payout so an expired subscription is settled at most once.
#[derive(Clone, Copy, Debug)]
pub struct Subscription {
    pub subscriber: AccountId,
    pub relayer_id: AccountId,
    pub duration: SubscriptionDuration,
    pub start_date: u64,
    pub expiry_date: u64,
    pub settled: bool,
}

/// The subscriber roster a relayer sees for its plan.
#[derive(Debug, Default)]
pub struct SubscriberInfo {
    pub ok: Vec<SubscriberInfoEntry>,
}

/// One roster line: a subscriber, its published key, and its term.
#[derive(Debug)]
pub struct SubscriberInfoEntry {
    pub sub_id: AccountId,
    pub nostr_pubkey: Vec<u8>,
    pub duration: SubscriptionDuration,
    pub start_date: u64,
    pub expiry_date: u64,
}

/// The mathematical model of a roster line.
pub ghost struct SubscriberInfoEntryView {
    pub sub_id: AccountId,
    pub nostr_pubkey: Seq<u8>,
    pub duration: SubscriptionDuration,
    pub start_date: u64,
    pub expiry_date: u64,
}

impl View for SubscriberInfo {
    type V = Seq<SubscriberInfoEntryView>;

    open spec fn view(&self) -> Seq<SubscriberInfoEntryView> {
        Seq::new(self.ok@.len(), |i: int| self.ok@[i]@)
    }
}

impl View for SubscriberInfoEntry {
    type V = SubscriberInfoEntryView;

    open spec fn view(&self) -> SubscriberInfoEntryView {
        SubscriberInfoEntryView {
            sub_id: self.sub_id,
            nostr_pubkey: self.nostr_pubkey@,
            duration: self.duration,
            start_date: self.start_date,
            expiry_date: self.expiry_date,
        }
    }
}

/// The first subscription held by the given subscriber, if any.
pub open spec fn find_subscription(subs: Seq<Subscription>, subscriber: AccountId) -> Option<
    Subscription,
>
    decreases subs.len(),
{
    if subs.len() == 0 {
        None
    } else if subs[0].subscriber == subscriber {
        Some(subs[0])
    } else {
        find_subscription(subs.drop_first(), subscriber)
    }
}

/// A first-match search skips exactly the non-matching prefix.
pub proof fn lemma_find_subscription_skip(subs: Seq<Subscription>, subscriber: AccountId, i: int)
    requires
        0 <= i <= subs.len(),
        forall|j: int| 0 <= j < i ==> (#[trigger] subs[j]).subscriber != subscriber,
    ensures
        find_subscription(subs, subscriber) == find_subscription(subs.skip(i), subscriber),
    decreases i,
{
    if i > 0 {
        lemma_find_subscription_skip(subs.drop_first(), subscriber, i - 1);
        assert(subs.drop_first().skip(i - 1) =~= subs.skip(i));
    } else {
        assert(subs.skip(0) =~= subs);
    }
}

/// The published keys as a sequence of account/bytes pairs.
pub open spec fn pubkeys_view(keys: Seq<(AccountId, Vec<u8>)>) -> Seq<(AccountId, Seq<u8>)> {
    Seq::new(keys.len(), |i: int| (keys[i].0, keys[i].1@))
}

/// The first published key of the given account, if any.
pub open spec fn find_pubkey(keys: Seq<(AccountId, Seq<u8>)>, who: AccountId) -> Option<Seq<u8>>
    decreases keys.len(),
{
    if keys.len() == 0 {
        None
    } else if keys[0].0 == who {
        Some(keys[0].1)
    } else {
        find_pubkey(keys.drop_first(), who)
    }
}

/// A first-match search skips exactly the non-matching prefix.
pub proof fn lemma_find_pubkey_skip(keys: Seq<(AccountId, Seq<u8>)>, who: AccountId, i: int)
    requires
        0 <= i <= keys.len(),
        forall|j: int| 0 <= j < i ==> (#[trigger] keys[j]).0 != who,
    ensures
        find_pubkey(keys, who) == find_pubkey(keys.skip(i), who),
    decreases i,
{
    if i > 0 {
        lemma_find_pubkey_skip(keys.drop_first(), who, i - 1);
        assert(keys.drop_first().skip(i - 1) =~= keys.skip(i));
    } else {
        assert(keys.skip(0) =~= keys);
    }
}

/// The roster a relayer sees: one line per listed subscriber that has
/// both a subscription record (its first one, in commit order) and a
/// published key (likewise the first).
pub open spec fn roster_entries(
    subscribers: Seq<AccountId>,
    duration: SubscriptionDuration,
    subs: Seq<Subscription>,
    keys: Seq<(AccountId, Seq<u8>)>,
) -> Seq<SubscriberInfoEntryView>
    decreases subscribers.len(),
{
    if subscribers.len() == 0 {
        Seq::empty()
    } else {
        let prefix = roster_entries(subscribers.drop_last(), duration, subs, keys);
        let who = subscribers.last();
        match find_subscription(subs, who) {
            Some(sub) => match find_pubkey(keys, who) {
                Some(key) => prefix.push(
                    SubscriberInfoEntryView {
                        sub_id: who,
                        nostr_pubkey: key,
                        duration,
                        start_date: sub.start_date,
                        expiry_date: sub.expiry_date,
                    },
                ),
                None => prefix,
            },
            None => prefix,
        }
    }
}

/// The most recent subscription binding the subscriber to the relayer:
/// the last matching record, since records are appended in commit order.
pub open spec fn last_subscription(
    subs: Seq<Subscription>,
    relayer_id: AccountId,
    subscriber: AccountId,
) -> Option<Subscription>
    decreases subs.len(),
{
    if subs.len() == 0 {
        None
    } else if subs.last().relayer_id == relayer_id && subs.last().subscriber == subscriber {
        Some(subs.last())
    } else {
        last_subscription(subs.drop_last(), relayer_id, subscriber)
    }
}

/// Finds the first subscription record of the given subscriber.
fn find_subscription_exec(subs: &Vec<Subscription>, who: &AccountId) -> (r: Option<Subscription>)
    ensures
        r == find_subscription(subs@, *who),
{
    let mut j: usize = 0;
    while j < subs.len()
        invariant
            0 <= j <= subs@.len(),
            forall|t: int| 0 <= t < j ==> (#[trigger] subs@[t]).subscriber != who,
        decreases subs@.len() - j,
    {
        if account_eq(&subs[j].subscriber, who) {
            proof {
                lemma_find_subscription_skip(subs@, *who, j as int);
                assert(subs@.skip(j as int)[0] == subs@[j as int]);
            }
            return Some(subs[j]);
        }
        j += 1;
    }
    proof {
        lemma_find_subscription_skip(subs@, *who, subs@.len() as int);
        assert(subs@.skip(subs@.len() as int) =~= Seq::<Subscription>::empty());
    }
    None
}

/// Finds the position of the first published key of the given account.
fn find_pubkey_exec(keys: &Vec<(AccountId, Vec<u8>)>, who: &AccountId) -> (r: Option<usize>)
    ensures
        match r {
            Some(j) => {
                &&& j < keys@.len()
                &&& keys@[j as int].0 == who
                &&& find_pubkey(pubkeys_view(keys@), *who) == Some(keys@[j as int].1@)
            },
            None => find_pubkey(pubkeys_view(keys@), *who) is None,
        },
{
    let mut j: usize = 0;
    while j < keys.len()
        invariant
            0 <= j <= keys@.len(),
            forall|t: int| 0 <= t < j ==> (#[trigger] keys@[t]).0 != who,
        decreases keys@.len() - j,
    {
        if account_eq(&keys[j].0, who) {
            proof {
                assert(forall|t: int|
                    0 <= t < j ==> (#[trigger] pubkeys_view(keys@)[t]).0 == keys@[t].0);
                lemma_find_pubkey_skip(pubkeys_view(keys@), *who, j as int);
                assert(pubkeys_view(keys@).skip(j as int)[0] == pubkeys_view(keys@)[j as int]);
            }
            return Some(j);
        }
        j += 1;
    }
    proof {
        assert(forall|t: int|
            0 <= t < keys@.len() ==> (#[trigger] pubkeys_view(keys@)[t]).0 == keys@[t].0);
        lemma_find_pubkey_skip(pubkeys_view(keys@), *who, keys@.len() as int);
        assert(pubkeys_view(keys@).skip(keys@.len() as int) =~= Seq::<(AccountId, Seq<u8>)>::empty());
    }
    None
}

impl NostrContract {
    /// Subscribes the caller to the plan with the given id.
    ///
    /// Fails with `NotFound`, changing nothing, when no plan carries the
    /// id. On success the start date is the current time, the expiry is
    /// the start plus the term's fixed length, the caller is appended to
    /// the plan's subscriber set and its key to the published keys, and
    /// the returned notification carries the plan's relayer and price.
    ///
    /// Repeat calls append further subscription terms for the same pair;
    /// the most recent one is what `get_subscription` reports.
    pub fn subscribe_to_plan(
        &mut self,
        caller: AccountId,
        now: u64,
        plan_id: u64,
        nostr_public_key: Vec<u8>,
    ) -> (r: Result<Subscribed, Error>)
        requires
            old(self)@.wf(),
            now + YEAR_SECS <= u64::MAX,
        ensures
            !has_plan(old(self)@.plans, plan_id) ==> r == Err::<Subscribed, Error>(Error::NotFound)
                && final(self)@ == old(self)@,
            has_plan(old(self)@.plans, plan_id) ==> ({
                let plan = old(self)@.plans[plan_id - 1];
                &&& r == Ok::<Subscribed, Error>(
                    Subscribed {
                        subscriber: caller,
                        relayer: plan.relayer_id,
                        amount: plan.price,
                    },
                )
                &&& final(self)@ == (StateView {
                    plans: old(self)@.plans.update(
                        plan_id - 1,
                        (PlanView { subscribers: plan.subscribers.push(caller), ..plan }),
                    ),
                    subscriptions: old(self)@.subscriptions.push(
                        (Subscription {
                            subscriber: caller,
                            relayer_id: plan.relayer_id,
                            duration: plan.duration,
                            start_date: now,
                            expiry_date: (now + spec_duration_secs(plan.duration)) as u64,
                            settled: false,
                        }),
                    ),
                    nostr_public_keys: old(self)@.nostr_public_keys.push(
                        (caller, nostr_public_key@),
                    ),
                    ..old(self)@
                })
            }),
            final(self)@.wf(),
    {
        let n = self.subscription_plans.len();
        let mut i: usize = 0;
        let mut found = false;
        while !found && i < n
            invariant
                n == self.subscription_plans@.len(),
                0 <= i <= n,
                !found ==> forall|j: int| 0 <= j < i ==> (#[trigger] self@.plans[j]).plan_id != plan_id,
                found ==> i < n && self@.plans[i as int].plan_id == plan_id,
            decreases n - i, (if found { 0int } else { 1int }),
        {
            if self.subscription_plans[i].plan_id == plan_id {
                found = true;
            } else {
                i += 1;
            }
        }
        if !found {
            proof {
                lemma_has_plan_iff(self@.plans, plan_id);
            }
            return Err(Error::NotFound);
        }
        proof {
            lemma_has_plan_iff(self@.plans, plan_id);
            assert(self@.plans[i as int].plan_id == i + 1);
            assert(i as int == plan_id - 1);
        }
        let idx = i;
        let relayer_id = self.subscription_plans[idx].relayer_id;
        let duration = self.subscription_plans[idx].duration;
        let price = self.subscription_plans[idx].price;

        let secs = duration_secs(&duration);
        let start_date = now;
        let expiry_date = now + secs;

        let subscription = Subscription {
            subscriber: caller,
            relayer_id,
            duration,
            start_date,
            expiry_date,
            settled: false,
        };
        self.subscriptions.push(subscription);

        let plan = &mut self.subscription_plans[idx];
        plan.subscribers.push(caller);

        self.nostr_public_keys.push((caller, nostr_public_key));

        proof {
            let ghost old_plan = old(self)@.plans[plan_id - 1];
            assert(self@.plans =~= old(self)@.plans.update(
                plan_id - 1,
                (PlanView { subscribers: old_plan.subscribers.push(caller), ..old_plan }),
            ));
            assert(self@.nostr_public_keys =~= old(self)@.nostr_public_keys.push(
                (caller, nostr_public_key@),
            ));
            assert(self@.reports =~= old(self)@.reports);
        }
        Ok(Subscribed { subscriber: caller, relayer: relayer_id, amount: price })
    }

    /// The most recent subscription binding the subscriber to the
    /// relayer, or `None` when the pair has never subscribed.
    pub fn get_subscription(&self, relayer_id: AccountId, subscriber: AccountId) -> (r: Option<
        Subscription,
    >)
        ensures
            r == last_subscription(self@.subscriptions, relayer_id, subscriber),
    {
        let mut r: Option<Subscription> = None;
        let mut i: usize = 0;
        while i < self.subscriptions.len()
            invariant
                0 <= i <= self@.subscriptions.len(),
                r == last_subscription(self@.subscriptions.take(i as int), relayer_id, subscriber),
            decreases self@.subscriptions.len() - i,
        {
            let s = self.subscriptions[i];
            proof {
                assert(self@.subscriptions.take(i + 1).drop_last() =~= self@.subscriptions.take(
                    i as int,
                ));
                assert(self@.subscriptions.take(i + 1).last() == self@.subscriptions[i as int]);
            }
            if account_eq(&s.relayer_id, &relayer_id) && account_eq(&s.subscriber, &subscriber) {
                r = Some(s);
            }
            i += 1;
        }
        proof {
            assert(self@.subscriptions.take(self@.subscriptions.len() as int)
                =~= self@.subscriptions);
        }
        r
    }

    /// The roster of the calling relayer's first catalog entry: each
    /// listed subscriber that has a subscription record and a published
    /// key, with its term and settlement window. A relayer without a
    /// plan sees an empty roster.
    pub fn get_subscribers(&self, caller: AccountId) -> (r: SubscriberInfo)
        ensures
            r@ == match find_plan_by_relayer(self@.plans, caller) {
                Some(plan) => roster_entries(
                    plan.subscribers,
                    plan.duration,
                    self@.subscriptions,
                    self@.nostr_public_keys,
                ),
                None => Seq::<SubscriberInfoEntryView>::empty(),
            },
    {
        let n = self.subscription_plans.len();
        let mut i: usize = 0;
        let mut found = false;
        while !found && i < n
            invariant
                n == self.subscription_plans@.len(),
                0 <= i <= n,
                forall|j: int| 0 <= j < i ==> (#[trigger] self@.plans[j]).relayer_id != caller,
                found ==> i < n && self@.plans[i as int].relayer_id == caller,
            decreases n - i, (if found { 0int } else { 1int }),
        {
            if account_eq(&self.subscription_plans[i].relayer_id, &caller) {
                found = true;
            } else {
                i += 1;
            }
        }
        if !found {
            proof {
                lemma_find_plan_by_relayer_skip(self@.plans, caller, n as int);
                assert(self@.plans.skip(n as int) =~= Seq::<PlanView>::empty());
            }
            let r = SubscriberInfo { ok: Vec::new() };
            proof {
                assert(r@ =~= Seq::<SubscriberInfoEntryView>::empty());
            }
            return r;
        }
        proof {
            lemma_find_plan_by_relayer_skip(self@.plans, caller, i as int);
            assert(self@.plans.skip(i as int)[0] == self@.plans[i as int]);
        }
        let plan = &self.subscription_plans[i];
        let ghost plan_v = self@.plans[i as int];
        let mut entries: Vec<SubscriberInfoEntry> = Vec::new();
        proof {
            assert(Seq::new(entries@.len(), |t: int| entries@[t]@) =~= Seq::<
                SubscriberInfoEntryView,
            >::empty());
            assert(plan_v.subscribers.take(0) =~= Seq::<AccountId>::empty());
        }
        let mut k: usize = 0;
        while k < plan.subscribers.len()
            invariant
                0 <= k <= plan.subscribers@.len(),
                plan == &self.subscription_plans@[i as int],
                i < self.subscription_plans@.len(),
                plan_v == self@.plans[i as int],
                plan_v.subscribers == plan.subscribers@,
                Seq::new(entries@.len(), |t: int| entries@[t]@) == roster_entries(
                    plan_v.subscribers.take(k as int),
                    plan_v.duration,
                    self@.subscriptions,
                    self@.nostr_public_keys,
                ),
            decreases plan.subscribers@.len() - k,
        {
            let who = plan.subscribers[k];
            proof {
                assert(plan_v.subscribers.take(k + 1).drop_last() =~= plan_v.subscribers.take(
                    k as int,
                ));
                assert(plan_v.subscribers.take(k + 1).last() == plan_v.subscribers[k as int]);
            }
            match find_subscription_exec(&self.subscriptions, &who) {
                Some(sub) => {
                    match find_pubkey_exec(&self.nostr_public_keys, &who) {
                        Some(j) => {
                            let entry = SubscriberInfoEntry {
                                sub_id: who,
                                nostr_pubkey: crate::reports::clone_bytes(
                                    &self.nostr_public_keys[j].1,
                                ),
                                duration: plan.duration,
                                start_date: sub.start_date,
                                expiry_date: sub.expiry_date,
                            };
                            let ghost entries_before = entries@;
                            entries.push(entry);
                            proof {
                                assert(Seq::new(entries@.len(), |t: int| entries@[t]@) =~= Seq::new(
                                    entries_before.len(),
                                    |t: int| entries_before[t]@,
                                ).push(entries@[entries_before.len() as int]@));
                            }
                        },
                        None => {},
                    }
                },
                None => {},
            }
            k += 1;
        }
        proof {
            assert(plan_v.subscribers.take(plan_v.subscribers.len() as int)
                =~= plan_v.subscribers);
        }
        SubscriberInfo { ok: entries }
    }
}

} // verus!
