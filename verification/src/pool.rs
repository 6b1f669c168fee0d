//! Per-pool aggregate metrics and the pool registry.
//!
//! Each pool accumulates a bounded FIFO window of ping samples and of
//! share accept latencies (at most 100 each), besides running share
//! totals.  Averages are exact integer means over the windows,
//! reported in thousandths of a millisecond.

use vstd::prelude::*;

use crate::assoc::assoc_map;
use crate::assoc::distinct_keys;
use crate::assoc::lemma_assoc_index;
use crate::assoc::lemma_assoc_push;
use crate::assoc::lemma_assoc_update;
use crate::sat_u64;
use crate::store::sat_add;
use crate::str_eq;

verus! {

/// Sample windows never exceed this many entries.
pub const WINDOW_CAP: usize = 100;

/// The sum of a sample window.
pub open spec fn seq_sum(s: Seq<u64>) -> int
    decreases s.len(),
{
    if s.len() == 0 {
        0
    } else {
        seq_sum(s.drop_last()) + s.last()
    }
}

/// Appends to a FIFO window, dropping the oldest entry past `cap`.
pub open spec fn fifo_push(s: Seq<u64>, x: u64, cap: int) -> Seq<u64> {
    let t = s.push(x);
    if t.len() > cap {
        t.subrange(1, t.len() as int)
    } else {
        t
    }
}

/// One pool's aggregate metrics, as mathematical values.
pub struct PoolModel {
    pub name: Seq<char>,
    pub current_ping_ms: u64,
    pub ping_samples: Seq<u64>,
    pub accept_times_ms: Seq<u64>,
    pub shares_accepted: u64,
    pub shares_rejected: u64,
    pub last_ping_time: u64,
}

/// One pool's aggregate metrics.
pub struct PoolMetrics {
    pub name: String,
    /// The most recent ping, in milliseconds.
    pub current_ping_ms: u64,
    /// The last hundred pings, oldest first, in milliseconds.
    pub ping_samples: Vec<u64>,
    /// The last hundred accept latencies, oldest first, in milliseconds.
    pub accept_times_ms: Vec<u64>,
    pub shares_accepted: u64,
    pub shares_rejected: u64,
    /// Milliseconds since the epoch.
    pub last_ping_time: u64,
}

impl View for PoolMetrics {
    type V = PoolModel;

    open spec fn view(&self) -> PoolModel {
        PoolModel {
            name: self.name@,
            current_ping_ms: self.current_ping_ms,
            ping_samples: self.ping_samples@,
            accept_times_ms: self.accept_times_ms@,
            shares_accepted: self.shares_accepted,
            shares_rejected: self.shares_rejected,
            last_ping_time: self.last_ping_time,
        }
    }
}

impl Clone for PoolMetrics {
    fn clone(&self) -> (r: Self)
        ensures
            r@ == self@,
    {
        let r = PoolMetrics {
            name: self.name.clone(),
            current_ping_ms: self.current_ping_ms,
            ping_samples: self.ping_samples.clone(),
            accept_times_ms: self.accept_times_ms.clone(),
            shares_accepted: self.shares_accepted,
            shares_rejected: self.shares_rejected,
            last_ping_time: self.last_ping_time,
        };
        proof {
            assert(r@ == self@);
        }
        r
    }
}

/// A pool that has just been created.
pub open spec fn fresh_pool(name: Seq<char>, now: u64) -> PoolModel {
    PoolModel {
        name: name,
        current_ping_ms: 0,
        ping_samples: Seq::empty(),
        accept_times_ms: Seq::empty(),
        shares_accepted: 0,
        shares_rejected: 0,
        last_ping_time: now,
    }
}

/// The windows are within their bound.
pub open spec fn pool_wf(p: PoolModel) -> bool {
    &&& p.ping_samples.len() <= WINDOW_CAP
    &&& p.accept_times_ms.len() <= WINDOW_CAP
}

/// A pool after one ping sample.
pub open spec fn ping_step(p: PoolModel, ping: u64, now: u64) -> PoolModel {
    PoolModel {
        current_ping_ms: ping,
        ping_samples: fifo_push(p.ping_samples, ping, WINDOW_CAP as int),
        last_ping_time: now,
        ..p
    }
}

/// A pool after one share outcome; an accepted share also contributes
/// its latency to the accept window.
pub open spec fn share_step(p: PoolModel, accepted: bool, submit_ms: u64) -> PoolModel {
    if accepted {
        PoolModel {
            shares_accepted: sat_add(p.shares_accepted, 1),
            accept_times_ms: fifo_push(p.accept_times_ms, submit_ms, WINDOW_CAP as int),
            ..p
        }
    } else {
        PoolModel { shares_rejected: sat_add(p.shares_rejected, 1), ..p }
    }
}

impl PoolMetrics {
    /// A fresh pool.
    pub fn new(name: String, now: u64) -> (p: Self)
        ensures
            p@ == fresh_pool(name@, now),
            pool_wf(p@),
    {
        let p = PoolMetrics {
            name,
            current_ping_ms: 0,
            ping_samples: Vec::new(),
            accept_times_ms: Vec::new(),
            shares_accepted: 0,
            shares_rejected: 0,
            last_ping_time: now,
        };
        proof {
            assert(p@.ping_samples =~= Seq::<u64>::empty());
            assert(p@.accept_times_ms =~= Seq::<u64>::empty());
        }
        p
    }

    /// Records one ping probe result.
    pub fn add_ping_sample(&mut self, ping: u64, now: u64)
        requires
            pool_wf(old(self)@),
        ensures
            final(self)@ == ping_step(old(self)@, ping, now),
            pool_wf(final(self)@),
    {
        self.current_ping_ms = ping;
        self.ping_samples.push(ping);
        if self.ping_samples.len() > WINDOW_CAP {
            self.ping_samples.remove(0);
            proof {
                assert(self.ping_samples@ =~= fifo_push(
                    old(self)@.ping_samples,
                    ping,
                    WINDOW_CAP as int,
                ));
            }
        }
        self.last_ping_time = now;
    }

    /// Records the latency of one accepted share.
    pub fn add_accept_time(&mut self, ms: u64)
        requires
            pool_wf(old(self)@),
        ensures
            final(self)@ == (PoolModel {
                accept_times_ms: fifo_push(old(self)@.accept_times_ms, ms, WINDOW_CAP as int),
                ..old(self)@
            }),
            pool_wf(final(self)@),
    {
        self.accept_times_ms.push(ms);
        if self.accept_times_ms.len() > WINDOW_CAP {
            self.accept_times_ms.remove(0);
            proof {
                assert(self.accept_times_ms@ =~= fifo_push(
                    old(self)@.accept_times_ms,
                    ms,
                    WINDOW_CAP as int,
                ));
            }
        }
    }

    /// The mean of the ping window, in thousandths of a millisecond;
    /// zero when the window is empty.
    pub fn average_ping_milli(&self) -> (r: u64)
        requires
            pool_wf(self@),
        ensures
            self@.ping_samples.len() == 0 ==> r == 0,
            self@.ping_samples.len() > 0 ==> r == sat_u64(
                seq_sum(self@.ping_samples) * 1000 / self@.ping_samples.len() as int,
            ),
    {
        window_mean_milli(&self.ping_samples)
    }

    /// The mean of the accept-latency window, in thousandths of a
    /// millisecond; zero when the window is empty.
    pub fn avg_accept_time_milli(&self) -> (r: u64)
        requires
            pool_wf(self@),
        ensures
            self@.accept_times_ms.len() == 0 ==> r == 0,
            self@.accept_times_ms.len() > 0 ==> r == sat_u64(
                seq_sum(self@.accept_times_ms) * 1000 / self@.accept_times_ms.len() as int,
            ),
    {
        window_mean_milli(&self.accept_times_ms)
    }
}

/// The mean of a bounded window, in thousandths of a unit.
fn window_mean_milli(w: &Vec<u64>) -> (r: u64)
    requires
        w@.len() <= WINDOW_CAP,
    ensures
        w@.len() == 0 ==> r == 0,
        w@.len() > 0 ==> r == sat_u64(seq_sum(w@) * 1000 / w@.len() as int),
{
    let n = w.len();
    if n == 0 {
        return 0;
    }
    let mut sum: u128 = 0;
    let mut i: usize = 0;
    while i < n
        invariant
            0 <= i <= n,
            n == w@.len(),
            n <= WINDOW_CAP,
            sum == seq_sum(w@.subrange(0, i as int)),
            sum <= i * (u64::MAX as int),
        decreases n - i,
    {
        let ghost prefix = w@.subrange(0, i as int);
        sum = sum + w[i] as u128;
        i = i + 1;
        proof {
            assert(w@.subrange(0, i as int).drop_last() =~= prefix);
        }
    }
    proof {
        assert(w@.subrange(0, n as int) =~= w@);
        lemma_seq_sum_nonneg(w@);
    }
    let scaled: u128 = sum * 1000;
    let mean: u128 = scaled / (n as u128);
    if mean > u64::MAX as u128 {
        u64::MAX
    } else {
        mean as u64
    }
}

proof fn lemma_seq_sum_nonneg(s: Seq<u64>)
    ensures
        seq_sum(s) >= 0,
    decreases s.len(),
{
    if s.len() > 0 {
        lemma_seq_sum_nonneg(s.drop_last());
    }
}

/// The pool registry: one metrics record per pool name.
pub struct PoolManager {
    pools: Vec<(String, PoolMetrics)>,
}

impl PoolManager {
    /// The registry's entries in creation order.
    pub closed spec fn model(&self) -> Seq<(Seq<char>, PoolModel)> {
        self.pools@.map_values(|e: (String, PoolMetrics)| (e.0@, e.1@))
    }

    /// The map the registry denotes.
    pub open spec fn as_map(&self) -> Map<Seq<char>, PoolModel> {
        assoc_map(self.model())
    }

    /// Keys are distinct, each entry is named after its key, and each
    /// pool is well formed.
    pub open spec fn wf(&self) -> bool {
        &&& distinct_keys(self.model())
        &&& forall|i: int|
            0 <= i < self.model().len() ==> (#[trigger] self.model()[i]).1.name
                == self.model()[i].0
        &&& forall|i: int| 0 <= i < self.model().len() ==> pool_wf((#[trigger] self.model()[i]).1)
    }

    /// An empty registry.
    pub fn new() -> (m: Self)
        ensures
            m.wf(),
            m.as_map() == Map::<Seq<char>, PoolModel>::empty(),
            m.model().len() == 0,
    {
        let m = PoolManager { pools: Vec::new() };
        proof {
            assert(m.model() =~= Seq::<(Seq<char>, PoolModel)>::empty());
        }
        m
    }

    /// The index of the entry for `name`, if one exists.
    fn index_of(&self, name: &str) -> (r: Option<usize>)
        ensures
            match r {
                Some(i) => i < self.model().len() && self.model()[i as int].0 == name@,
                None => forall|i: int|
                    0 <= i < self.model().len() ==> (#[trigger] self.model()[i]).0 != name@,
            },
    {
        let n = self.pools.len();
        let mut i: usize = 0;
        while i < n
            invariant
                0 <= i <= n,
                n == self.model().len(),
                forall|t: int| 0 <= t < i ==> (#[trigger] self.model()[t]).0 != name@,
            decreases n - i,
        {
            if str_eq(self.pools[i].0.as_str(), name) {
                return Some(i);
            }
            i = i + 1;
        }
        None
    }

    /// Finds the entry for `name`, creating a fresh one if absent;
    /// returns its index.
    pub fn get_or_create(&mut self, name: &str, now: u64) -> (i: usize)
        requires
            old(self).wf(),
        ensures
            final(self).wf(),
            i < final(self).model().len(),
            final(self).model()[i as int].0 == name@,
            final(self).as_map() == if old(self).as_map().contains_key(name@) {
                old(self).as_map()
            } else {
                old(self).as_map().insert(name@, fresh_pool(name@, now))
            },
            final(self).as_map().contains_key(name@),
            final(self).model()[i as int].1 == final(self).as_map()[name@],
    {
        match self.index_of(name) {
            Some(i) => {
                proof {
                    lemma_assoc_index(self.model(), i as int);
                    crate::assoc::lemma_assoc_contains(self.model(), name@);
                }
                i
            },
            None => {
                let i = self.pools.len();
                let fresh = PoolMetrics::new(name.to_owned(), now);
                proof {
                    crate::assoc::lemma_assoc_contains(self.model(), name@);
                    lemma_assoc_push(self.model(), name@, fresh@);
                }
                let ghost before = self.model();
                self.pools.push((name.to_owned(), fresh));
                proof {
                    assert(self.model() =~= before.push((name@, fresh_pool(name@, now))));
                    lemma_assoc_index(self.model(), i as int);
                }
                i
            },
        }
    }

    /// Records one ping probe result for `name`, creating the pool if
    /// it is new.
    pub fn add_ping(&mut self, name: &str, ping: u64, now: u64)
        requires
            old(self).wf(),
        ensures
            final(self).wf(),
            final(self).as_map() == ({
                let base = if old(self).as_map().contains_key(name@) {
                    old(self).as_map()[name@]
                } else {
                    fresh_pool(name@, now)
                };
                old(self).as_map().insert(name@, ping_step(base, ping, now))
            }),
    {
        let i = self.get_or_create(name, now);
        let ghost mid = self.model();
        let entry = &mut self.pools[i];
        entry.1.add_ping_sample(ping, now);
        proof {
            assert(self.model() =~= mid.update(
                i as int,
                (mid[i as int].0, ping_step(mid[i as int].1, ping, now)),
            ));
            lemma_assoc_update(mid, i as int, ping_step(mid[i as int].1, ping, now));
            assert(self.wf());
        }
    }

    /// Records one share outcome for `name`, creating the pool if it
    /// is new; an accepted share carries its submit-to-accept latency.
    pub fn record_share_outcome(&mut self, name: &str, accepted: bool, submit_ms: u64, now: u64)
        requires
            old(self).wf(),
        ensures
            final(self).wf(),
            final(self).as_map() == ({
                let base = if old(self).as_map().contains_key(name@) {
                    old(self).as_map()[name@]
                } else {
                    fresh_pool(name@, now)
                };
                old(self).as_map().insert(name@, share_step(base, accepted, submit_ms))
            }),
    {
        let i = self.get_or_create(name, now);
        let ghost mid = self.model();
        let entry = &mut self.pools[i];
        if accepted {
            if entry.1.shares_accepted < u64::MAX {
                entry.1.shares_accepted = entry.1.shares_accepted + 1;
            }
            entry.1.add_accept_time(submit_ms);
        } else {
            if entry.1.shares_rejected < u64::MAX {
                entry.1.shares_rejected = entry.1.shares_rejected + 1;
            }
        }
        proof {
            assert(self.model() =~= mid.update(
                i as int,
                (mid[i as int].0, share_step(mid[i as int].1, accepted, submit_ms)),
            ));
            lemma_assoc_update(mid, i as int, share_step(mid[i as int].1, accepted, submit_ms));
            assert(self.wf());
        }
    }

    /// Clones of all pools, in creation order.
    pub fn get_all_pools(&self) -> (r: Vec<PoolMetrics>)
        ensures
            r@.len() == self.model().len(),
            forall|i: int| 0 <= i < r@.len() ==> r@[i]@ == self.model()[i].1,
    {
        let n = self.pools.len();
        let mut out: Vec<PoolMetrics> = Vec::new();
        let mut i: usize = 0;
        while i < n
            invariant
                0 <= i <= n,
                n == self.model().len(),
                n == self.pools@.len(),
                out@.len() == i,
                forall|t: int| 0 <= t < i ==> out@[t]@ == self.model()[t].1,
            decreases n - i,
        {
            out.push(self.pools[i].1.clone());
            i = i + 1;
        }
        out
    }
}

impl Default for PoolManager {
    /// An empty registry.
    fn default() -> (m: Self)
        ensures
            m.wf(),
            m.as_map() == Map::<Seq<char>, PoolModel>::empty(),
            m.model().len() == 0,
    {
        PoolManager::new()
    }
}

} // verus!
