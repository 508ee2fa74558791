//! The persisted state of the contract: the singleton configuration record
//! and the per-denomination pool balances, held together in an explicitly
//! injected [`LedgerStore`].

use vstd::prelude::*;

use crate::error::{ContractError, ContractErrorView};

verus! {

/// Relies on core's `PartialEq` for `str`: two string slices are equal
/// exactly when their character sequences are equal.
pub assume_specification[ <str as PartialEq>::eq ](s: &str, other: &str) -> (r: bool)
    ensures
        r == (s@ == other@),
;

/// The singleton configuration record: the authorized owner and the pair of
/// accepted denominations.  Written once at instantiation, immutable
/// thereafter.
#[derive(Clone, Debug, PartialEq, Eq)]
pub struct Config {
    pub owner: String,
    /// the two custom coins that can be deposited and withdrawn
    pub accepted_denoms: [String; 2],
}

/// Spec-level image of a [`Config`].
#[verifier::ext_equal]
pub struct ConfigView {
    pub owner: Seq<char>,
    pub accepted_denoms: Seq<Seq<char>>,
}

impl View for Config {
    type V = ConfigView;

    open spec fn view(&self) -> ConfigView {
        ConfigView { owner: self.owner@, accepted_denoms: self.accepted_denoms.deep_view() }
    }
}

impl ConfigView {
    /// A well-formed configuration names a non-empty owner identity and
    /// exactly two accepted denominations.
    pub open spec fn wf(self) -> bool {
        &&& self.owner.len() > 0
        &&& self.accepted_denoms.len() == 2
    }

    /// A denomination is whitelisted iff it is one of the accepted pair.
    pub open spec fn accepts(self, denom: Seq<char>) -> bool {
        self.accepted_denoms.contains(denom)
    }
}

impl Config {
    /// returns true if the address is the registered owner
    pub fn is_owner(&self, addr: &str) -> (r: bool)
        ensures
            r == (self@.owner == addr@),
    {
        self.owner.as_str().eq(addr)
    }
}

/// The tracked aggregate balance of one denomination.  An entry exists only
/// for denominations that have received at least one deposit.
#[derive(Clone, Copy, Debug, PartialEq, Eq)]
pub struct PoolBalance {
    pub amount: u128,
}

/// One denomination's record inside the ledger store.
struct PoolEntry {
    denom: String,
    balance: PoolBalance,
}

/// The balance tracked for `denom` by the given entry sequence: the first
/// entry with a matching denomination decides.
spec fn lookup(entries: Seq<PoolEntry>, denom: Seq<char>) -> Option<u128>
    decreases entries.len(),
{
    if entries.len() == 0 {
        None
    } else if entries[0].denom@ == denom {
        Some(entries[0].balance.amount)
    } else {
        lookup(entries.skip(1), denom)
    }
}

/// The key-value persistence abstraction behind every handler: one optional
/// configuration record plus a mapping from denomination to its accumulated
/// pool balance.  The host environment owns one of these per contract
/// instance and injects it into each call.
pub struct LedgerStore {
    config: Option<Config>,
    entries: Vec<PoolEntry>,
}

/// Spec-level image of a [`LedgerStore`]: the configuration, if any, and the
/// tracked balances as a map from denomination to amount.
#[verifier::ext_equal]
pub struct LedgerStoreView {
    pub config: Option<ConfigView>,
    pub balances: Map<Seq<char>, u128>,
}

impl View for LedgerStore {
    type V = LedgerStoreView;

    closed spec fn view(&self) -> LedgerStoreView {
        LedgerStoreView {
            config: match self.config {
                Some(c) => Some(c@),
                None => None,
            },
            balances: Map::new(
                |d: Seq<char>| lookup(self.entries@, d) is Some,
                |d: Seq<char>| lookup(self.entries@, d)->0,
            ),
        }
    }
}

/// After the first `i` entries failed to match, the overall lookup is the
/// lookup in the remaining suffix.
proof fn lemma_lookup_skip(entries: Seq<PoolEntry>, denom: Seq<char>, i: int)
    requires
        0 <= i <= entries.len(),
        forall|j: int| 0 <= j < i ==> entries[j].denom@ != denom,
    ensures
        lookup(entries, denom) == lookup(entries.skip(i), denom),
    decreases i,
{
    if i > 0 {
        lemma_lookup_skip(entries, denom, i - 1);
        assert(entries.skip(i - 1)[0] == entries[i - 1]);
        assert(entries.skip(i - 1).skip(1) =~= entries.skip(i));
    } else {
        assert(entries.skip(0) =~= entries);
    }
}

/// Overwriting the first matching entry changes exactly that denomination's
/// lookup and no other.
proof fn lemma_lookup_update(entries: Seq<PoolEntry>, i: int, e: PoolEntry, d: Seq<char>)
    requires
        0 <= i < entries.len(),
        forall|j: int| 0 <= j < i ==> entries[j].denom@ != e.denom@,
        entries[i].denom@ == e.denom@,
    ensures
        lookup(entries.update(i, e), d) == if d == e.denom@ {
            Some(e.balance.amount)
        } else {
            lookup(entries, d)
        },
    decreases i,
{
    let updated = entries.update(i, e);
    if i == 0 {
        assert(updated[0] == e);
        if d != e.denom@ {
            assert(updated.skip(1) =~= entries.skip(1));
        }
    } else {
        assert(updated[0] == entries[0]);
        assert(entries[0].denom@ != e.denom@);
        assert(updated.skip(1) =~= entries.skip(1).update(i - 1, e));
        lemma_lookup_update(entries.skip(1), i - 1, e, d);
    }
}

/// Appending an entry for a denomination that has no entry yet changes
/// exactly that denomination's lookup and no other.
proof fn lemma_lookup_push(entries: Seq<PoolEntry>, e: PoolEntry, d: Seq<char>)
    requires
        lookup(entries, e.denom@) is None,
    ensures
        lookup(entries.push(e), d) == if d == e.denom@ {
            Some(e.balance.amount)
        } else {
            lookup(entries, d)
        },
    decreases entries.len(),
{
    let pushed = entries.push(e);
    if entries.len() == 0 {
        assert(pushed[0] == e);
        if d != e.denom@ {
            assert(pushed.skip(1) =~= Seq::<PoolEntry>::empty());
            assert(lookup(pushed.skip(1), d) is None);
            assert(lookup(pushed, d) is None);
        }
    } else {
        assert(pushed[0] == entries[0]);
        assert(entries[0].denom@ != e.denom@);
        assert(pushed.skip(1) =~= entries.skip(1).push(e));
        lemma_lookup_push(entries.skip(1), e, d);
        if entries[0].denom@ == d {
            assert(lookup(pushed, d) == Some(entries[0].balance.amount));
            assert(lookup(entries, d) == Some(entries[0].balance.amount));
        } else {
            assert(lookup(pushed, d) == lookup(entries.skip(1).push(e), d));
            assert(lookup(entries, d) == lookup(entries.skip(1), d));
        }
    }
}

impl LedgerStore {
    /// A fresh, uninstantiated store: no configuration, no balances.
    pub fn new() -> (s: LedgerStore)
        ensures
            s@.config is None,
            s@.balances == Map::<Seq<char>, u128>::empty(),
    {
        let s = LedgerStore { config: None, entries: Vec::new() };
        proof {
            assert(s@.balances =~= Map::<Seq<char>, u128>::empty());
        }
        s
    }

    /// Write the configuration record, unconditionally replacing any
    /// previous one.
    pub fn save_config(&mut self, config: Config)
        ensures
            final(self)@.config == Some(config@),
            final(self)@.balances == old(self)@.balances,
    {
        self.config = Some(config);
        proof {
            assert(self@.balances =~= old(self)@.balances);
        }
    }

    /// Read the configuration record; fails with `StateLoadError` when the
    /// store was never instantiated.
    pub fn load_config(&self) -> (r: Result<&Config, ContractError>)
        ensures
            match r {
                Ok(c) => self@.config == Some(c@),
                Err(e) => self@.config is None && e@ == ContractErrorView::StateLoadError,
            },
    {
        match &self.config {
            Some(c) => Ok(c),
            None => Err(ContractError::StateLoadError {}),
        }
    }

    /// Read the tracked balance of one denomination, or `None` when that
    /// denomination has never received a deposit.
    pub fn may_load_balance(&self, denom: &str) -> (r: Option<PoolBalance>)
        ensures
            match r {
                Some(b) => self@.balances.contains_key(denom@) && b.amount == self@.balances[denom@],
                None => !self@.balances.contains_key(denom@),
            },
    {
        let n = self.entries.len();
        let mut i: usize = 0;
        while i < n
            invariant
                0 <= i <= n,
                n == self.entries@.len(),
                forall|j: int| 0 <= j < i ==> self.entries@[j].denom@ != denom@,
            decreases n - i,
        {
            if self.entries[i].denom.as_str().eq(denom) {
                proof {
                    lemma_lookup_skip(self.entries@, denom@, i as int);
                    assert(self.entries@.skip(i as int)[0] == self.entries@[i as int]);
                }
                return Some(self.entries[i].balance);
            }
            i += 1;
        }
        proof {
            lemma_lookup_skip(self.entries@, denom@, n as int);
        }
        None
    }

    /// Write the tracked balance of one denomination, replacing any previous
    /// entry for it.
    pub fn save_balance(&mut self, denom: String, balance: PoolBalance)
        ensures
            final(self)@.config == old(self)@.config,
            final(self)@.balances == old(self)@.balances.insert(denom@, balance.amount),
    {
        let n = self.entries.len();
        let mut i: usize = 0;
        while i < n
            invariant
                0 <= i <= n,
                n == self.entries@.len(),
                self.config == old(self).config,
                self.entries@ == old(self).entries@,
                forall|j: int| 0 <= j < i ==> self.entries@[j].denom@ != denom@,
            decreases n - i,
        {
            if self.entries[i].denom.as_str().eq(denom.as_str()) {
                let ghost pre = self.entries@;
                let entry = PoolEntry { denom, balance };
                proof {
                    lemma_lookup_update_all(pre, i as int, entry);
                }
                self.entries[i] = entry;
                proof {
                    assert(self@.balances =~= old(self)@.balances.insert(
                        entry.denom@,
                        balance.amount,
                    ));
                }
                return ;
            }
            i += 1;
        }
        let ghost pre = self.entries@;
        let entry = PoolEntry { denom, balance };
        proof {
            lemma_lookup_skip(pre, entry.denom@, n as int);
            lemma_lookup_push_all(pre, entry);
        }
        self.entries.push(entry);
        proof {
            assert(self@.balances =~= old(self)@.balances.insert(entry.denom@, balance.amount));
        }
    }
}

/// [`lemma_lookup_update`], stated over every denomination at once.
proof fn lemma_lookup_update_all(entries: Seq<PoolEntry>, i: int, e: PoolEntry)
    requires
        0 <= i < entries.len(),
        forall|j: int| 0 <= j < i ==> entries[j].denom@ != e.denom@,
        entries[i].denom@ == e.denom@,
    ensures
        forall|d: Seq<char>|
            lookup(entries.update(i, e), d) == if d == e.denom@ {
                Some(e.balance.amount)
            } else {
                lookup(entries, d)
            },
{
    assert forall|d: Seq<char>|
        lookup(entries.update(i, e), d) == if d == e.denom@ {
            Some(e.balance.amount)
        } else {
            lookup(entries, d)
        } by {
        lemma_lookup_update(entries, i, e, d);
    }
}

/// [`lemma_lookup_push`], stated over every denomination at once.
proof fn lemma_lookup_push_all(entries: Seq<PoolEntry>, e: PoolEntry)
    requires
        lookup(entries, e.denom@) is None,
    ensures
        forall|d: Seq<char>|
            lookup(entries.push(e), d) == if d == e.denom@ {
                Some(e.balance.amount)
            } else {
                lookup(entries, d)
            },
{
    assert forall|d: Seq<char>|
        lookup(entries.push(e), d) == if d == e.denom@ {
            Some(e.balance.amount)
        } else {
            lookup(entries, d)
        } by {
        lemma_lookup_push(entries, e, d);
    }
}

} // verus!
