//! The persistence model: an append-only share log and a miner table
//! with additive upsert semantics.
//!
//! The dataplane hands the store one `ShareRecord` per classified
//! share outcome and one `MinerRecord` snapshot per session teardown.
//! Snapshots accrete into one row per `(wallet, ip, miner_name)`:
//! counters add, rates, pool and `last_seen` take the latest value,
//! `connected_at` keeps the earliest.  Reads serve the wallet-prefix
//! lookup of the HTTP surface.

use vstd::prelude::*;

use crate::is_prefix_of;
use crate::sat_u64;
use crate::str_starts_with;

verus! {

/// Shares older than a year are purged, in milliseconds.
pub const SHARE_RETENTION_MS: u64 = 31536000000;

/// One share outcome, as mathematical values.
pub struct ShareModel {
    pub wallet: Seq<char>,
    pub miner_name: Seq<char>,
    pub ip: Seq<char>,
    pub pool_name: Seq<char>,
    pub job_id: Seq<char>,
    pub accepted: bool,
    pub difficulty_milli: u64,
    pub submitted_at: u64,
}

/// One share outcome.
pub struct ShareRecord {
    pub wallet: String,
    pub miner_name: String,
    pub ip: String,
    pub pool_name: String,
    pub job_id: String,
    pub accepted: bool,
    /// The session difficulty when the share was resolved, in thousandths.
    pub difficulty_milli: u64,
    /// Milliseconds since the epoch.
    pub submitted_at: u64,
}

impl View for ShareRecord {
    type V = ShareModel;

    open spec fn view(&self) -> ShareModel {
        ShareModel {
            wallet: self.wallet@,
            miner_name: self.miner_name@,
            ip: self.ip@,
            pool_name: self.pool_name@,
            job_id: self.job_id@,
            accepted: self.accepted,
            difficulty_milli: self.difficulty_milli,
            submitted_at: self.submitted_at,
        }
    }
}

impl Clone for ShareRecord {
    fn clone(&self) -> (r: Self)
        ensures
            r@ == self@,
    {
        ShareRecord {
            wallet: self.wallet.clone(),
            miner_name: self.miner_name.clone(),
            ip: self.ip.clone(),
            pool_name: self.pool_name.clone(),
            job_id: self.job_id.clone(),
            accepted: self.accepted,
            difficulty_milli: self.difficulty_milli,
            submitted_at: self.submitted_at,
        }
    }
}

/// One row of the miner table, as mathematical values.
pub struct RecordModel {
    pub wallet: Seq<char>,
    pub miner_name: Seq<char>,
    pub ip: Seq<char>,
    pub pool_name: Seq<char>,
    pub shares_accepted: u64,
    pub shares_rejected: u64,
    pub bytes_download: u64,
    pub bytes_upload: u64,
    pub packets_sent: u64,
    pub packets_received: u64,
    pub current_hashrate_milli: u64,
    pub average_hashrate_milli: u64,
    pub connected_at: u64,
    pub last_seen: u64,
}

/// One row of the miner table; also the shape of a session snapshot.
pub struct MinerRecord {
    pub wallet: String,
    pub miner_name: String,
    pub ip: String,
    pub pool_name: String,
    pub shares_accepted: u64,
    pub shares_rejected: u64,
    pub bytes_download: u64,
    pub bytes_upload: u64,
    pub packets_sent: u64,
    pub packets_received: u64,
    pub current_hashrate_milli: u64,
    pub average_hashrate_milli: u64,
    pub connected_at: u64,
    pub last_seen: u64,
}

impl View for MinerRecord {
    type V = RecordModel;

    open spec fn view(&self) -> RecordModel {
        RecordModel {
            wallet: self.wallet@,
            miner_name: self.miner_name@,
            ip: self.ip@,
            pool_name: self.pool_name@,
            shares_accepted: self.shares_accepted,
            shares_rejected: self.shares_rejected,
            bytes_download: self.bytes_download,
            bytes_upload: self.bytes_upload,
            packets_sent: self.packets_sent,
            packets_received: self.packets_received,
            current_hashrate_milli: self.current_hashrate_milli,
            average_hashrate_milli: self.average_hashrate_milli,
            connected_at: self.connected_at,
            last_seen: self.last_seen,
        }
    }
}

impl Clone for MinerRecord {
    fn clone(&self) -> (r: Self)
        ensures
            r@ == self@,
    {
        MinerRecord {
            wallet: self.wallet.clone(),
            miner_name: self.miner_name.clone(),
            ip: self.ip.clone(),
            pool_name: self.pool_name.clone(),
            shares_accepted: self.shares_accepted,
            shares_rejected: self.shares_rejected,
            bytes_download: self.bytes_download,
            bytes_upload: self.bytes_upload,
            packets_sent: self.packets_sent,
            packets_received: self.packets_received,
            current_hashrate_milli: self.current_hashrate_milli,
            average_hashrate_milli: self.average_hashrate_milli,
            connected_at: self.connected_at,
            last_seen: self.last_seen,
        }
    }
}

/// Saturating addition of counters.
pub open spec fn sat_add(a: u64, b: u64) -> u64 {
    sat_u64(a + b)
}

/// Whether two rows describe the same miner.
pub open spec fn same_key(a: RecordModel, b: RecordModel) -> bool {
    a.wallet == b.wallet && a.ip == b.ip && a.miner_name == b.miner_name
}

/// The accretion of a snapshot `n` onto an existing row `e`: counters
/// add, rates, pool and `last_seen` take the snapshot's values,
/// identity and `connected_at` keep the row's.
pub open spec fn combine(e: RecordModel, n: RecordModel) -> RecordModel {
    RecordModel {
        wallet: e.wallet,
        miner_name: e.miner_name,
        ip: e.ip,
        pool_name: n.pool_name,
        shares_accepted: sat_add(e.shares_accepted, n.shares_accepted),
        shares_rejected: sat_add(e.shares_rejected, n.shares_rejected),
        bytes_download: sat_add(e.bytes_download, n.bytes_download),
        bytes_upload: sat_add(e.bytes_upload, n.bytes_upload),
        packets_sent: sat_add(e.packets_sent, n.packets_sent),
        packets_received: sat_add(e.packets_received, n.packets_received),
        current_hashrate_milli: n.current_hashrate_milli,
        average_hashrate_milli: n.average_hashrate_milli,
        connected_at: e.connected_at,
        last_seen: n.last_seen,
    }
}

/// The first row at or after `i` sharing `n`'s key, or the length.
pub open spec fn find_key_from(rows: Seq<RecordModel>, n: RecordModel, i: int) -> int
    decreases rows.len() - i,
{
    if i < 0 || i >= rows.len() {
        rows.len() as int
    } else if same_key(rows[i], n) {
        i
    } else {
        find_key_from(rows, n, i + 1)
    }
}

/// The miner table after upserting snapshot `n`.
pub open spec fn spec_save_miner(rows: Seq<RecordModel>, n: RecordModel) -> Seq<RecordModel> {
    let i = find_key_from(rows, n, 0);
    if i < rows.len() {
        rows.update(i, combine(rows[i], n))
    } else {
        rows.push(n)
    }
}

/// The rows whose wallet starts with `p`, in table order.
pub open spec fn filter_wallet(rows: Seq<RecordModel>, p: Seq<char>) -> Seq<RecordModel>
    decreases rows.len(),
{
    if rows.len() == 0 {
        Seq::empty()
    } else {
        let rest = filter_wallet(rows.drop_last(), p);
        if is_prefix_of(p, rows.last().wallet) {
            rest.push(rows.last())
        } else {
            rest
        }
    }
}

/// The shares still within the retention window at `now`.
pub open spec fn filter_fresh(shares: Seq<ShareModel>, now: u64) -> Seq<ShareModel>
    decreases shares.len(),
{
    if shares.len() == 0 {
        Seq::empty()
    } else {
        let rest = filter_fresh(shares.drop_last(), now);
        if shares.last().submitted_at as int >= now as int - SHARE_RETENTION_MS {
            rest.push(shares.last())
        } else {
            rest
        }
    }
}

proof fn lemma_find_key_skip(rows: Seq<RecordModel>, n: RecordModel, i: int)
    requires
        0 <= i <= rows.len(),
        forall|t: int| 0 <= t < i ==> !same_key(rows[t], n),
    ensures
        find_key_from(rows, n, 0) == find_key_from(rows, n, i),
    decreases i,
{
    if i > 0 {
        lemma_find_key_skip(rows, n, i - 1);
    }
}

/// The store: the miner table and the share log.
pub struct Database {
    miners: Vec<MinerRecord>,
    shares: Vec<ShareRecord>,
}

impl Database {
    /// The miner table, one row per `(wallet, ip, miner_name)`.
    pub closed spec fn miners_model(&self) -> Seq<RecordModel> {
        self.miners@.map_values(|r: MinerRecord| r@)
    }

    /// The share log, in arrival order.
    pub closed spec fn shares_model(&self) -> Seq<ShareModel> {
        self.shares@.map_values(|r: ShareRecord| r@)
    }

    /// An empty store.
    pub fn new() -> (db: Self)
        ensures
            db.miners_model() == Seq::<RecordModel>::empty(),
            db.shares_model() == Seq::<ShareModel>::empty(),
    {
        let db = Database { miners: Vec::new(), shares: Vec::new() };
        proof {
            assert(db.miners_model() =~= Seq::<RecordModel>::empty());
            assert(db.shares_model() =~= Seq::<ShareModel>::empty());
        }
        db
    }

    /// Appends one share outcome to the log.
    pub fn save_share(&mut self, share: ShareRecord)
        ensures
            final(self).shares_model() == old(self).shares_model().push(share@),
            final(self).miners_model() == old(self).miners_model(),
    {
        let ghost before = self.shares_model();
        self.shares.push(share);
        proof {
            assert(self.shares_model() =~= before.push(self.shares@.last()@));
        }
    }

    /// Upserts one session snapshot into the miner table.
    pub fn save_miner(&mut self, snap: &MinerRecord)
        ensures
            final(self).miners_model() == spec_save_miner(old(self).miners_model(), snap@),
            final(self).shares_model() == old(self).shares_model(),
    {
        let ghost rows = old(self).miners_model();
        let n = self.miners.len();
        let mut i: usize = 0;
        while i < n
            invariant
                0 <= i <= n,
                n == self.miners.len(),
                rows == self.miners_model(),
                rows == old(self).miners_model(),
                self.shares_model() == old(self).shares_model(),
                forall|t: int| 0 <= t < i ==> !same_key(rows[t], snap@),
            decreases n - i,
        {
            let row = &self.miners[i];
            if row.wallet == snap.wallet && row.ip == snap.ip && row.miner_name
                == snap.miner_name {
                proof {
                    lemma_find_key_skip(rows, snap@, i as int);
                    assert(find_key_from(rows, snap@, i as int) == i);
                }
                let merged = combine_records(&self.miners[i], snap);
                self.miners[i] = merged;
                proof {
                    assert(self.miners_model() =~= rows.update(
                        i as int,
                        combine(rows[i as int], snap@),
                    ));
                }
                return ;
            }
            i = i + 1;
        }
        proof {
            lemma_find_key_skip(rows, snap@, n as int);
        }
        self.miners.push(snap.clone());
        proof {
            assert(self.miners_model() =~= rows.push(snap@));
        }
    }

    /// The rows whose wallet starts with `prefix`, cloned in table order.
    pub fn get_miner_by_wallet(&self, prefix: &str) -> (r: Vec<MinerRecord>)
        ensures
            r@.map_values(|x: MinerRecord| x@) == filter_wallet(self.miners_model(), prefix@),
    {
        let ghost rows = self.miners_model();
        let mut out: Vec<MinerRecord> = Vec::new();
        let n = self.miners.len();
        let mut i: usize = 0;
        while i < n
            invariant
                0 <= i <= n,
                n == self.miners.len(),
                rows == self.miners_model(),
                out@.map_values(|x: MinerRecord| x@) == filter_wallet(
                    rows.subrange(0, i as int),
                    prefix@,
                ),
            decreases n - i,
        {
            let ghost prefix_rows = rows.subrange(0, i as int);
            if str_starts_with(self.miners[i].wallet.as_str(), prefix) {
                out.push(self.miners[i].clone());
            }
            i = i + 1;
            proof {
                assert(rows.subrange(0, i as int).drop_last() =~= prefix_rows);
                assert(rows.subrange(0, i as int).last() == rows[i - 1]);
                assert(out@.map_values(|x: MinerRecord| x@) =~= filter_wallet(
                    rows.subrange(0, i as int),
                    prefix@,
                ));
            }
        }
        proof {
            assert(rows.subrange(0, n as int) =~= rows);
        }
        out
    }

    /// Drops shares older than the retention window.
    pub fn cleanup_old_data(&mut self, now: u64)
        ensures
            final(self).shares_model() == filter_fresh(old(self).shares_model(), now),
            final(self).miners_model() == old(self).miners_model(),
    {
        let ghost olds = self.shares_model();
        let mut kept: Vec<ShareRecord> = Vec::new();
        let n = self.shares.len();
        let mut i: usize = 0;
        while i < n
            invariant
                0 <= i <= n,
                n == self.shares.len(),
                olds == self.shares_model(),
                kept@.map_values(|x: ShareRecord| x@) == filter_fresh(
                    olds.subrange(0, i as int),
                    now,
                ),
            decreases n - i,
        {
            let ghost prefix_shares = olds.subrange(0, i as int);
            let keep = if now >= SHARE_RETENTION_MS {
                self.shares[i].submitted_at >= now - SHARE_RETENTION_MS
            } else {
                true
            };
            if keep {
                kept.push(self.shares[i].clone());
            }
            i = i + 1;
            proof {
                assert(olds.subrange(0, i as int).drop_last() =~= prefix_shares);
                assert(olds.subrange(0, i as int).last() == olds[i - 1]);
                assert(kept@.map_values(|x: ShareRecord| x@) =~= filter_fresh(
                    olds.subrange(0, i as int),
                    now,
                ));
            }
        }
        proof {
            assert(olds.subrange(0, n as int) =~= olds);
        }
        self.shares = kept;
    }

    /// How many share outcomes the log holds.
    pub fn share_count(&self) -> (r: usize)
        ensures
            r == self.shares_model().len(),
    {
        self.shares.len()
    }

    /// The share log itself, in arrival order.
    pub fn share_log(&self) -> (r: &Vec<ShareRecord>)
        ensures
            r@.map_values(|x: ShareRecord| x@) == self.shares_model(),
    {
        &self.shares
    }
}

/// The executable accretion of a snapshot onto a row.
fn combine_records(e: &MinerRecord, n: &MinerRecord) -> (r: MinerRecord)
    ensures
        r@ == combine(e@, n@),
{
    MinerRecord {
        wallet: e.wallet.clone(),
        miner_name: e.miner_name.clone(),
        ip: e.ip.clone(),
        pool_name: n.pool_name.clone(),
        shares_accepted: sat_add_exec(e.shares_accepted, n.shares_accepted),
        shares_rejected: sat_add_exec(e.shares_rejected, n.shares_rejected),
        bytes_download: sat_add_exec(e.bytes_download, n.bytes_download),
        bytes_upload: sat_add_exec(e.bytes_upload, n.bytes_upload),
        packets_sent: sat_add_exec(e.packets_sent, n.packets_sent),
        packets_received: sat_add_exec(e.packets_received, n.packets_received),
        current_hashrate_milli: n.current_hashrate_milli,
        average_hashrate_milli: n.average_hashrate_milli,
        connected_at: e.connected_at,
        last_seen: n.last_seen,
    }
}

/// Saturating counter addition.
fn sat_add_exec(a: u64, b: u64) -> (r: u64)
    ensures
        r == sat_add(a, b),
{
    if a <= u64::MAX - b {
        a + b
    } else {
        u64::MAX
    }
}

/// Upsert additivity: a second snapshot with the same key accretes
/// onto the row the first one made, so the counters of the resulting
/// row are the sums of the two snapshots' counters (when they fit).
pub proof fn lemma_upsert_additive(first: RecordModel, second: RecordModel)
    requires
        same_key(first, second),
        first.shares_accepted + second.shares_accepted <= u64::MAX,
        first.shares_rejected + second.shares_rejected <= u64::MAX,
        first.bytes_download + second.bytes_download <= u64::MAX,
        first.bytes_upload + second.bytes_upload <= u64::MAX,
        first.packets_sent + second.packets_sent <= u64::MAX,
        first.packets_received + second.packets_received <= u64::MAX,
    ensures
        ({
            let after = spec_save_miner(spec_save_miner(Seq::empty(), first), second);
            &&& after.len() == 1
            &&& after[0].shares_accepted == first.shares_accepted + second.shares_accepted
            &&& after[0].shares_rejected == first.shares_rejected + second.shares_rejected
            &&& after[0].bytes_download == first.bytes_download + second.bytes_download
            &&& after[0].bytes_upload == first.bytes_upload + second.bytes_upload
            &&& after[0].packets_sent == first.packets_sent + second.packets_sent
            &&& after[0].packets_received == first.packets_received + second.packets_received
            &&& after[0].current_hashrate_milli == second.current_hashrate_milli
            &&& after[0].average_hashrate_milli == second.average_hashrate_milli
            &&& after[0].last_seen == second.last_seen
            &&& after[0].connected_at == first.connected_at
        }),
{
    let once = spec_save_miner(Seq::empty(), first);
    assert(once =~= Seq::empty().push(first));
    assert(find_key_from(once, second, 0) == 0);
}

} // verus!
