//! The persisted state of the pool, modelled as explicit in-memory
//! stores: a single settings record, the Pool Event Log and the Stake
//! Ledger. The host's durable storage round-trips these values at the
//! boundary; the core only ever sees them as the types below.

use vstd::prelude::*;

verus! {

/// The demonstration counter kept beside the pool.
#[derive(Debug)]
pub struct State {
    pub count: i32,
    /// Who instantiated the contract and may reset the counter.
    pub owner: String,
}

/// Settings fixed when the pool is created.
#[derive(Debug)]
pub struct StakingStatus {
    /// The token contract whose coins the pool stakes; deposits paid in
    /// anything else are rejected.
    pub token: String,
    /// The fixed daily reward budget shared pro rata by all depositors.
    pub rewards_per_day: u128,
    /// When the pool was created, in nanoseconds since the epoch.
    pub staking_started: u64,
}

/// One depositor's stake record: created on the first deposit and
/// replaced, never merged, on every later one.
#[derive(Clone, Copy, Debug, PartialEq, Eq, Structural)]
pub struct StakeInfo {
    /// The instant from which reward has not yet been credited: always
    /// the midnight after the deposit that wrote this record.
    pub stake_started: u64,
    /// The staked principal, with all previously credited rewards
    /// compounded in.
    pub amount: u128,
}

/// One bucket of the Pool Event Log: from `timestamp` on, the total
/// amount staked in the pool is `new_amount`.
#[derive(Clone, Copy, Debug, PartialEq, Eq, Structural)]
pub struct StakeChangeEvent {
    /// First instant at which the bucket is in effect, in nanoseconds
    /// since the epoch.
    pub timestamp: u64,
    /// Total pool size in effect from `timestamp` on.
    pub new_amount: u128,
}

/// The Pool Event Log: buckets in the order they were written. Only the
/// operations of a double-ended queue are offered — push, pop, read by
/// index — so a caller can amend the last bucket but never rewrite an
/// earlier one.
pub struct PoolLog {
    events: Vec<StakeChangeEvent>,
}

impl View for PoolLog {
    type V = Seq<StakeChangeEvent>;

    closed spec fn view(&self) -> Seq<StakeChangeEvent> {
        self.events@
    }
}

/// A well-formed log: effective dates strictly increase (at most one
/// bucket per calendar day) and every recorded pool size is positive, so
/// that pro-rata shares can divide by it.
pub open spec fn log_wf(log: Seq<StakeChangeEvent>) -> bool {
    &&& forall|i: int, j: int|
        0 <= i < j < log.len() ==> log[i].timestamp < log[j].timestamp
    &&& forall|i: int| 0 <= i < log.len() ==> log[i].new_amount > 0
}

impl PoolLog {
    /// An empty log.
    pub fn new() -> (r: PoolLog)
        ensures
            r@ == Seq::<StakeChangeEvent>::empty(),
    {
        PoolLog { events: Vec::new() }
    }

    pub fn len(&self) -> (r: usize)
        ensures
            r == self@.len(),
    {
        self.events.len()
    }

    pub fn get(&self, i: usize) -> (r: StakeChangeEvent)
        requires
            i < self@.len(),
        ensures
            r == self@[i as int],
    {
        self.events[i]
    }

    /// The most recent bucket, if any.
    pub fn back(&self) -> (r: Option<StakeChangeEvent>)
        ensures
            self@.len() == 0 ==> r is None,
            self@.len() > 0 ==> r == Some(self@.last()),
    {
        if self.events.len() == 0 {
            None
        } else {
            Some(self.events[self.events.len() - 1])
        }
    }

    pub fn push_back(&mut self, ev: StakeChangeEvent)
        ensures
            final(self)@ == old(self)@.push(ev),
    {
        self.events.push(ev);
    }

    pub fn pop_back(&mut self) -> (r: Option<StakeChangeEvent>)
        ensures
            old(self)@.len() == 0 ==> r is None && final(self)@ == old(self)@,
            old(self)@.len() > 0 ==> r == Some(old(self)@.last()) && final(self)@
                == old(self)@.drop_last(),
    {
        let r = self.events.pop();
        proof {
            if old(self)@.len() > 0 {
                assert(old(self)@.subrange(0, old(self)@.len() - 1) =~= old(self)@.drop_last());
            }
        }
        r
    }
}

/// One depositor's entry in the Stake Ledger.
pub struct LedgerEntry {
    pub owner: String,
    pub info: StakeInfo,
}

/// The mapping a sequence of ledger entries stands for; a later entry for
/// the same depositor supersedes an earlier one.
pub open spec fn ledger_map(s: Seq<LedgerEntry>) -> Map<Seq<char>, StakeInfo>
    decreases s.len(),
{
    if s.len() == 0 {
        Map::empty()
    } else {
        ledger_map(s.drop_last()).insert(s.last().owner@, s.last().info)
    }
}

proof fn lemma_ledger_map_index(s: Seq<LedgerEntry>, i: int)
    requires
        0 <= i < s.len(),
        forall|j: int| i < j < s.len() ==> s[j].owner@ != s[i].owner@,
    ensures
        ledger_map(s).contains_key(s[i].owner@),
        ledger_map(s)[s[i].owner@] == s[i].info,
    decreases s.len(),
{
    if i < s.len() - 1 {
        lemma_ledger_map_index(s.drop_last(), i);
    }
}

proof fn lemma_ledger_map_absent(s: Seq<LedgerEntry>, k: Seq<char>)
    requires
        forall|j: int| 0 <= j < s.len() ==> s[j].owner@ != k,
    ensures
        !ledger_map(s).contains_key(k),
    decreases s.len(),
{
    if s.len() > 0 {
        lemma_ledger_map_absent(s.drop_last(), k);
    }
}

proof fn lemma_ledger_map_update(s: Seq<LedgerEntry>, i: int, e: LedgerEntry)
    requires
        0 <= i < s.len(),
        s[i].owner@ == e.owner@,
        forall|j: int| i < j < s.len() ==> s[j].owner@ != e.owner@,
    ensures
        ledger_map(s.update(i, e)) == ledger_map(s).insert(e.owner@, e.info),
    decreases s.len(),
{
    let t = s.update(i, e);
    if i == s.len() - 1 {
        assert(t.drop_last() =~= s.drop_last());
        assert(ledger_map(t) =~= ledger_map(s).insert(e.owner@, e.info));
    } else {
        assert(t.drop_last() =~= s.drop_last().update(i, e));
        lemma_ledger_map_update(s.drop_last(), i, e);
        assert(t.last() == s.last());
        assert(ledger_map(t) =~= ledger_map(s).insert(e.owner@, e.info));
    }
}

/// The Stake Ledger: at most one record per depositor.
pub struct StakeLedger {
    entries: Vec<LedgerEntry>,
}

impl View for StakeLedger {
    type V = Map<Seq<char>, StakeInfo>;

    closed spec fn view(&self) -> Map<Seq<char>, StakeInfo> {
        ledger_map(self.entries@)
    }
}

impl StakeLedger {
    /// No two entries name the same depositor.
    pub closed spec fn wf(&self) -> bool {
        forall|i: int, j: int|
            0 <= i < j < self.entries@.len() ==> self.entries@[i].owner@ != self.entries@[j].owner@
    }

    /// An empty ledger.
    pub fn new() -> (r: StakeLedger)
        ensures
            r@ == Map::<Seq<char>, StakeInfo>::empty(),
            r.wf(),
    {
        StakeLedger { entries: Vec::new() }
    }

    /// The record kept for `owner`, if any.
    pub fn get(&self, owner: &String) -> (r: Option<StakeInfo>)
        requires
            self.wf(),
        ensures
            r == if self@.contains_key(owner@) {
                Some(self@[owner@])
            } else {
                None::<StakeInfo>
            },
    {
        let n = self.entries.len();
        let mut i: usize = 0;
        while i < n
            invariant
                n == self.entries@.len(),
                i <= n,
                self.wf(),
                forall|j: int| 0 <= j < i ==> self.entries@[j].owner@ != owner@,
            decreases n - i,
        {
            if self.entries[i].owner == *owner {
                proof {
                    lemma_ledger_map_index(self.entries@, i as int);
                }
                return Some(self.entries[i].info);
            }
            i += 1;
        }
        proof {
            lemma_ledger_map_absent(self.entries@, owner@);
        }
        None
    }

    /// Writes `owner`'s record, replacing any earlier one.
    pub fn insert(&mut self, owner: String, info: StakeInfo)
        requires
            old(self).wf(),
        ensures
            final(self).wf(),
            final(self)@ == old(self)@.insert(owner@, info),
    {
        let n = self.entries.len();
        let mut i: usize = 0;
        while i < n
            invariant
                n == self.entries@.len(),
                i <= n,
                self.wf(),
                self.entries@ == old(self).entries@,
                forall|j: int| 0 <= j < i ==> self.entries@[j].owner@ != owner@,
            decreases n - i,
        {
            if self.entries[i].owner == owner {
                proof {
                    lemma_ledger_map_update(
                        self.entries@,
                        i as int,
                        LedgerEntry { owner, info },
                    );
                }
                self.entries[i] = LedgerEntry { owner, info };
                return ;
            }
            i += 1;
        }
        self.entries.push(LedgerEntry { owner, info });
        proof {
            assert(self.entries@.drop_last() =~= old(self).entries@);
            assert(self@ =~= old(self)@.insert(owner@, info));
        }
    }
}

/// The whole staking state: settings, event log and ledger.
pub struct Pool {
    pub status: StakingStatus,
    pub log: PoolLog,
    pub stakes: StakeLedger,
}

impl Pool {
    /// The state the mutating operations preserve: a well-formed log and
    /// a ledger with one record per depositor.
    pub open spec fn wf(&self) -> bool {
        log_wf(self.log@) && self.stakes.wf()
    }
}

} // verus!
