//! The stake ledger: per-relayer collateral, one entry per relayer.
//! Collateral only grows until the penalty engine draws it down; a draw
//! never takes more than the stake holds, so an amount is never negative.

use vstd::prelude::*;
use crate::account::{account_eq, AccountId};
use crate::events::Staked;
use crate::state::{NostrContract, StateView};

verus! {

/// A relayer's accumulated collateral.
#[derive(Clone, Copy, Debug)]
pub struct StakeEntry {
    pub relayer_id: AccountId,
    pub amount: u128,
}

/// The index of the relayer's entry in the stake ledger, if any.
pub open spec fn stake_index(stakes: Seq<StakeEntry>, relayer_id: AccountId) -> Option<int>
    decreases stakes.len(),
{
    if stakes.len() == 0 {
        None
    } else if stakes[0].relayer_id == relayer_id {
        Some(0int)
    } else {
        match stake_index(stakes.drop_first(), relayer_id) {
            Some(i) => Some(i + 1),
            None => None,
        }
    }
}

/// The relayer's collateral: the amount of its entry, or zero if it has
/// never been staked for.
pub open spec fn stake_of(stakes: Seq<StakeEntry>, relayer_id: AccountId) -> u128 {
    match stake_index(stakes, relayer_id) {
        Some(i) => stakes[i].amount,
        None => 0,
    }
}

/// The ledger after a penalty of half the relayer's stake is drawn down.
/// A relayer without an entry has nothing to draw from; the ledger is
/// unchanged (the penalty amount is zero).
pub open spec fn apply_penalty(stakes: Seq<StakeEntry>, relayer_id: AccountId) -> Seq<StakeEntry> {
    match stake_index(stakes, relayer_id) {
        Some(i) => stakes.update(
            i,
            StakeEntry {
                relayer_id,
                amount: (stakes[i].amount - stakes[i].amount / 2) as u128,
            },
        ),
        None => stakes,
    }
}

/// The ledger after collateral is added for a relayer: its entry grows by
/// the amount, saturating at the top of the amount range, and a relayer
/// staked for the first time gets a fresh entry.
pub open spec fn add_stake(stakes: Seq<StakeEntry>, relayer_id: AccountId, amount: u128) -> Seq<
    StakeEntry,
> {
    match stake_index(stakes, relayer_id) {
        Some(i) => stakes.update(
            i,
            StakeEntry {
                relayer_id,
                amount: if stakes[i].amount + amount > u128::MAX {
                    u128::MAX
                } else {
                    (stakes[i].amount + amount) as u128
                },
            },
        ),
        None => stakes.push(StakeEntry { relayer_id, amount }),
    }
}

impl NostrContract {
    /// Adds collateral to the relayer's stake, creating the entry on
    /// first contact; the returned notification names the staking caller.
    /// There is no withdrawal path: collateral leaves the ledger only
    /// through the penalty engine.
    pub fn stake(&mut self, caller: AccountId, relayer_id: AccountId, amount: u128) -> (r: Staked)
        requires
            old(self)@.wf(),
        ensures
            r == (Staked { staker: caller, relayer_id, amount }),
            final(self)@ == (StateView {
                stakes: add_stake(old(self)@.stakes, relayer_id, amount),
                ..old(self)@
            }),
            final(self)@.wf(),
    {
        let mut i: usize = 0;
        while i < self.stakes.len()
            invariant
                *self == *old(self),
                old(self)@.wf(),
                0 <= i <= self.stakes@.len(),
                forall|j: int|
                    0 <= j < i ==> (#[trigger] self.stakes@[j]).relayer_id != relayer_id,
            decreases self.stakes@.len() - i,
        {
            if account_eq(&self.stakes[i].relayer_id, &relayer_id) {
                proof {
                    lemma_stake_index_of(self.stakes@, relayer_id, i as int);
                }
                let held = self.stakes[i].amount;
                let entry = &mut self.stakes[i];
                entry.amount = held.saturating_add(amount);
                proof {
                    assert(forall|j: int|
                        0 <= j < self.stakes@.len() ==> (#[trigger] self.stakes@[j]).relayer_id
                            == old(self)@.stakes[j].relayer_id);
                    assert(self@.plans =~= old(self)@.plans);
                    assert(self@.reports =~= old(self)@.reports);
                    assert(self@.nostr_public_keys =~= old(self)@.nostr_public_keys);
                }
                return Staked { staker: caller, relayer_id, amount };
            }
            i += 1;
        }
        proof {
            lemma_stake_index_props(self.stakes@, relayer_id);
            assert(stake_index(self.stakes@, relayer_id) is None);
        }
        self.stakes.push(StakeEntry { relayer_id, amount });
        Staked { staker: caller, relayer_id, amount }
    }
}

/// What `stake_index` finds: a valid index of an entry for the relayer,
/// preceded by no other such entry; `None` only when no entry matches.
pub proof fn lemma_stake_index_props(stakes: Seq<StakeEntry>, relayer_id: AccountId)
    ensures
        match stake_index(stakes, relayer_id) {
            Some(i) => {
                &&& 0 <= i < stakes.len()
                &&& stakes[i].relayer_id == relayer_id
                &&& forall|j: int| 0 <= j < i ==> (#[trigger] stakes[j]).relayer_id != relayer_id
            },
            None => forall|j: int|
                0 <= j < stakes.len() ==> (#[trigger] stakes[j]).relayer_id != relayer_id,
        },
    decreases stakes.len(),
{
    if stakes.len() > 0 && stakes[0].relayer_id != relayer_id {
        let tail = stakes.drop_first();
        lemma_stake_index_props(tail, relayer_id);
        match stake_index(tail, relayer_id) {
            Some(i) => {
                assert(stakes[i + 1] == tail[i]);
                assert forall|j: int| 0 <= j < i + 1 implies (#[trigger] stakes[j]).relayer_id
                    != relayer_id by {
                    if j > 0 {
                        assert(stakes[j] == tail[j - 1]);
                    }
                }
            },
            None => {
                assert forall|j: int| 0 <= j < stakes.len() implies (#[trigger] stakes[j]).relayer_id
                    != relayer_id by {
                    if j > 0 {
                        assert(stakes[j] == tail[j - 1]);
                    }
                }
            },
        }
    }
}

/// The converse: an entry for the relayer at `i` with no earlier one
/// pins `stake_index` to exactly `i`.
pub proof fn lemma_stake_index_of(stakes: Seq<StakeEntry>, relayer_id: AccountId, i: int)
    requires
        0 <= i < stakes.len(),
        stakes[i].relayer_id == relayer_id,
        forall|j: int| 0 <= j < i ==> (#[trigger] stakes[j]).relayer_id != relayer_id,
    ensures
        stake_index(stakes, relayer_id) == Some(i),
    decreases i,
{
    if i > 0 {
        lemma_stake_index_of(stakes.drop_first(), relayer_id, i - 1);
    }
}

/// Drawing a penalty takes exactly half the relayer's stake (rounded
/// down), leaves every other relayer's stake untouched, and never takes
/// more than the stake holds.
pub proof fn lemma_apply_penalty(stakes: Seq<StakeEntry>, relayer_id: AccountId)
    ensures
        stake_of(stakes, relayer_id) / 2 <= stake_of(stakes, relayer_id),
        stake_of(apply_penalty(stakes, relayer_id), relayer_id) == stake_of(stakes, relayer_id)
            - stake_of(stakes, relayer_id) / 2,
        forall|other: AccountId|
            other != relayer_id ==> #[trigger] stake_of(apply_penalty(stakes, relayer_id), other)
                == stake_of(stakes, other),
        apply_penalty(stakes, relayer_id).len() == stakes.len(),
{
    lemma_stake_index_props(stakes, relayer_id);
    match stake_index(stakes, relayer_id) {
        Some(i) => {
            let updated = apply_penalty(stakes, relayer_id);
            lemma_stake_index_of(updated, relayer_id, i);
            assert forall|other: AccountId| other != relayer_id implies #[trigger] stake_of(
                updated,
                other,
            ) == stake_of(stakes, other) by {
                lemma_stake_index_props(stakes, other);
                lemma_stake_index_props(updated, other);
                match stake_index(stakes, other) {
                    Some(k) => {
                        lemma_stake_index_of(updated, other, k);
                    },
                    None => {
                        lemma_stake_index_props(updated, other);
                    },
                }
            }
        },
        None => {},
    }
}

} // verus!
