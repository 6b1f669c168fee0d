//! Per-session miner state, its transitions, and the miner registry.
//!
//! A session is created when a client connects, keyed by the client's
//! `ip:port`.  Every relayed line updates the session: byte and
//! packet accounting and `last_seen` on both directions, protocol
//! effects per the classified event.  A pool reply correlates to the
//! most recent submission on the same session, provided one exists
//! and is at most ten minutes old; an accepted share recomputes the
//! hashrate estimate over the submissions of the last ten minutes.

use vstd::prelude::*;
use vstd::string::StrSliceExecFns;
use vstd::string::StringExecFns;

use crate::assoc::assoc_map;
use crate::assoc::distinct_keys;
use crate::assoc::lemma_assoc_contains;
use crate::assoc::lemma_assoc_index;
use crate::assoc::lemma_assoc_push;
use crate::assoc::lemma_assoc_remove;
use crate::assoc::lemma_assoc_update;
use crate::sat_u64;
use crate::store::MinerRecord;
use crate::store::RecordModel;
use crate::store::ShareModel;
use crate::store::ShareRecord;
use crate::store::sat_add;
use crate::str_eq;
use crate::wire::Event;
use crate::wire::EventModel;
use crate::wire::dot_pos_from;
use crate::wire::find_dot;

verus! {

/// Submissions and replies correlate within this window, and the
/// hashrate estimate looks this far back, in milliseconds.
pub const CORRELATION_WINDOW_MS: u64 = 600000;

/// One live session, as mathematical values.
pub struct SessionModel {
    pub wallet: Seq<char>,
    pub name: Seq<char>,
    pub ip: Seq<char>,
    pub port: Seq<char>,
    pub pool_name: Seq<char>,
    pub job_id: Seq<char>,
    pub shares_accepted: u64,
    pub shares_rejected: u64,
    pub bytes_download: u64,
    pub bytes_upload: u64,
    pub packets_sent: u64,
    pub packets_received: u64,
    pub connected_at: u64,
    pub last_seen: u64,
    pub last_share_time: u64,
    pub has_submitted: bool,
    pub share_times: Seq<u64>,
    pub current_hashrate_milli: u64,
    pub average_hashrate_milli: u64,
    pub difficulty_milli: u64,
}

/// One live session.
pub struct MinerInfo {
    /// The part of the username before the first `.`; empty until
    /// the client authorizes.
    pub wallet: String,
    /// The full username; `Unknown` until the client authorizes.
    pub name: String,
    pub ip: String,
    pub port: String,
    pub pool_name: String,
    pub job_id: String,
    pub shares_accepted: u64,
    pub shares_rejected: u64,
    pub bytes_download: u64,
    pub bytes_upload: u64,
    pub packets_sent: u64,
    pub packets_received: u64,
    /// Milliseconds since the epoch, as are all times below.
    pub connected_at: u64,
    pub last_seen: u64,
    pub last_share_time: u64,
    /// Whether any submission has been observed.
    pub has_submitted: bool,
    /// Submission times, oldest first, trimmed to the last ten
    /// minutes whenever the hashrate is recomputed.
    pub share_times: Vec<u64>,
    /// Estimated hashrates, in milli-H/s.
    pub current_hashrate_milli: u64,
    pub average_hashrate_milli: u64,
    /// The pool-assigned difficulty, in thousandths; 1.000 until set.
    pub difficulty_milli: u64,
}

impl View for MinerInfo {
    type V = SessionModel;

    open spec fn view(&self) -> SessionModel {
        SessionModel {
            wallet: self.wallet@,
            name: self.name@,
            ip: self.ip@,
            port: self.port@,
            pool_name: self.pool_name@,
            job_id: self.job_id@,
            shares_accepted: self.shares_accepted,
            shares_rejected: self.shares_rejected,
            bytes_download: self.bytes_download,
            bytes_upload: self.bytes_upload,
            packets_sent: self.packets_sent,
            packets_received: self.packets_received,
            connected_at: self.connected_at,
            last_seen: self.last_seen,
            last_share_time: self.last_share_time,
            has_submitted: self.has_submitted,
            share_times: self.share_times@,
            current_hashrate_milli: self.current_hashrate_milli,
            average_hashrate_milli: self.average_hashrate_milli,
            difficulty_milli: self.difficulty_milli,
        }
    }
}

impl Clone for MinerInfo {
    fn clone(&self) -> (r: Self)
        ensures
            r@ == self@,
    {
        let r = MinerInfo {
            wallet: self.wallet.clone(),
            name: self.name.clone(),
            ip: self.ip.clone(),
            port: self.port.clone(),
            pool_name: self.pool_name.clone(),
            job_id: self.job_id.clone(),
            shares_accepted: self.shares_accepted,
            shares_rejected: self.shares_rejected,
            bytes_download: self.bytes_download,
            bytes_upload: self.bytes_upload,
            packets_sent: self.packets_sent,
            packets_received: self.packets_received,
            connected_at: self.connected_at,
            last_seen: self.last_seen,
            last_share_time: self.last_share_time,
            has_submitted: self.has_submitted,
            share_times: self.share_times.clone(),
            current_hashrate_milli: self.current_hashrate_milli,
            average_hashrate_milli: self.average_hashrate_milli,
            difficulty_milli: self.difficulty_milli,
        };
        proof {
            assert(r@ == self@);
        }
        r
    }
}

/// A session as it is first registered, before any line is observed.
pub open spec fn fresh_session(ip: Seq<char>, port: Seq<char>, pool_name: Seq<char>, now: u64)
    -> SessionModel {
    SessionModel {
        wallet: Seq::empty(),
        name: "Unknown"@,
        ip: ip,
        port: port,
        pool_name: pool_name,
        job_id: Seq::empty(),
        shares_accepted: 0,
        shares_rejected: 0,
        bytes_download: 0,
        bytes_upload: 0,
        packets_sent: 0,
        packets_received: 0,
        connected_at: now,
        last_seen: now,
        last_share_time: now,
        has_submitted: false,
        share_times: Seq::empty(),
        current_hashrate_milli: 0,
        average_hashrate_milli: 0,
        difficulty_milli: 1000,
    }
}

/// The wallet is the username up to the first `.`.
pub open spec fn wallet_of(username: Seq<char>) -> Seq<char> {
    username.subrange(0, dot_pos_from(username, 0))
}

/// The submission times newer than `cutoff`, in order.
pub open spec fn filter_recent(times: Seq<u64>, cutoff: int) -> Seq<u64>
    decreases times.len(),
{
    if times.len() == 0 {
        Seq::empty()
    } else {
        let rest = filter_recent(times.drop_last(), cutoff);
        if times.last() > cutoff {
            rest.push(times.last())
        } else {
            rest
        }
    }
}

/// The hashrate recomputation at `now`: evict submissions older than
/// ten minutes; the current rate is zero with fewer than two left,
/// else submissions per second times difficulty (unchanged when the
/// span is zero); the average then folds the current rate in by
/// exponential smoothing, so an idle session's average decays.
pub open spec fn spec_hashrate(s: SessionModel, now: u64) -> SessionModel {
    let kept = filter_recent(s.share_times, now as int - CORRELATION_WINDOW_MS);
    if kept.len() < 2 {
        let avg = if s.average_hashrate_milli == 0 {
            0u64
        } else {
            ((9 * s.average_hashrate_milli) / 10) as u64
        };
        SessionModel {
            share_times: kept,
            current_hashrate_milli: 0,
            average_hashrate_milli: avg,
            ..s
        }
    } else {
        let span = kept.last() as int / 1000 - kept.first() as int / 1000;
        let cur = if span > 0 {
            sat_u64((kept.len() * s.difficulty_milli) as int / span)
        } else {
            s.current_hashrate_milli
        };
        let avg = if s.average_hashrate_milli == 0 {
            cur
        } else {
            ((9 * s.average_hashrate_milli + cur) / 10) as u64
        };
        SessionModel {
            share_times: kept,
            current_hashrate_milli: cur,
            average_hashrate_milli: avg,
            ..s
        }
    }
}

/// A session after one client-to-pool line of `n` bytes classified
/// as `ev`, observed at `now`.
pub open spec fn client_step(s: SessionModel, n: u64, ev: EventModel, now: u64) -> SessionModel {
    let base = SessionModel {
        bytes_upload: sat_add(s.bytes_upload, n),
        packets_sent: sat_add(s.packets_sent, 1),
        last_seen: now,
        ..s
    };
    match ev {
        EventModel::ClientAuthorize { username } => SessionModel {
            name: username,
            wallet: wallet_of(username),
            ..base
        },
        EventModel::ClientSubmit { job_id } => SessionModel {
            job_id: match job_id {
                Some(j) => j,
                None => s.job_id,
            },
            last_share_time: now,
            has_submitted: true,
            share_times: s.share_times.push(now),
            ..base
        },
        _ => base,
    }
}

/// Whether a pool reply at `now` correlates to a submission: one must
/// have been observed, at most ten minutes ago.
pub open spec fn reply_fires(s: SessionModel, now: u64) -> bool {
    s.has_submitted && now as int - s.last_share_time as int <= CORRELATION_WINDOW_MS
}

/// The submit-to-reply latency used for accept-time accounting.
pub open spec fn submit_latency(s: SessionModel, now: u64) -> u64 {
    if now >= s.last_share_time {
        (now - s.last_share_time) as u64
    } else {
        0
    }
}

/// The share record enqueued for a resolved share.
pub open spec fn share_of(s: SessionModel, accepted: bool, now: u64) -> ShareModel {
    ShareModel {
        wallet: s.wallet,
        miner_name: s.name,
        ip: s.ip,
        pool_name: s.pool_name,
        job_id: s.job_id,
        accepted: accepted,
        difficulty_milli: s.difficulty_milli,
        submitted_at: now,
    }
}

/// A session after one pool-to-client line of `n` bytes classified
/// as `ev`, observed at `now`, together with the share record the
/// line resolves, if any.
pub open spec fn pool_line_step(s: SessionModel, n: u64, ev: EventModel, now: u64) -> (
    SessionModel,
    Option<ShareModel>,
) {
    let base = SessionModel {
        bytes_download: sat_add(s.bytes_download, n),
        packets_received: sat_add(s.packets_received, 1),
        last_seen: now,
        ..s
    };
    match ev {
        EventModel::PoolNotify { job_id } => (SessionModel { job_id: job_id, ..base }, None),
        EventModel::PoolSetDifficulty { milli } => (
            SessionModel { difficulty_milli: milli, ..base },
            None,
        ),
        EventModel::PoolReply { ok, error_nonnull } => match ok {
            Some(accepted) => {
                if reply_fires(s, now) {
                    if accepted {
                        let s2 = spec_hashrate(
                            SessionModel {
                                shares_accepted: sat_add(base.shares_accepted, 1),
                                ..base
                            },
                            now,
                        );
                        (s2, Some(share_of(s2, true, now)))
                    } else {
                        let s2 = SessionModel {
                            shares_rejected: sat_add(base.shares_rejected, 1),
                            ..base
                        };
                        (s2, Some(share_of(s2, false, now)))
                    }
                } else {
                    (base, None)
                }
            },
            None => (base, None),
        },
        _ => (base, None),
    }
}

/// The snapshot handed to the store when a session is torn down.
pub open spec fn snapshot_model(s: SessionModel) -> RecordModel {
    RecordModel {
        wallet: s.wallet,
        miner_name: s.name,
        ip: s.ip,
        pool_name: s.pool_name,
        shares_accepted: s.shares_accepted,
        shares_rejected: s.shares_rejected,
        bytes_download: s.bytes_download,
        bytes_upload: s.bytes_upload,
        packets_sent: s.packets_sent,
        packets_received: s.packets_received,
        current_hashrate_milli: s.current_hashrate_milli,
        average_hashrate_milli: s.average_hashrate_milli,
        connected_at: s.connected_at,
        last_seen: s.last_seen,
    }
}

/// Saturating add of one.
fn bump(c: &mut u64)
    ensures
        *final(c) == sat_add(*old(c), 1),
{
    if *c < u64::MAX {
        *c = *c + 1;
    }
}

/// Saturating add.
fn accrue(c: &mut u64, n: u64)
    ensures
        *final(c) == sat_add(*old(c), n),
{
    if *c <= u64::MAX - n {
        *c = *c + n;
    } else {
        *c = u64::MAX;
    }
}

impl MinerInfo {
    /// A fresh session for a client at `ip:port`, proxied to
    /// `pool_name`, registered at `now`.
    pub fn new(ip: String, port: String, pool_name: String, now: u64) -> (m: Self)
        ensures
            m@ == fresh_session(ip@, port@, pool_name@, now),
    {
        let m = MinerInfo {
            wallet: String::new(),
            name: String::from_str("Unknown"),
            ip,
            port,
            pool_name,
            job_id: String::new(),
            shares_accepted: 0,
            shares_rejected: 0,
            bytes_download: 0,
            bytes_upload: 0,
            packets_sent: 0,
            packets_received: 0,
            connected_at: now,
            last_seen: now,
            last_share_time: now,
            has_submitted: false,
            share_times: Vec::new(),
            current_hashrate_milli: 0,
            average_hashrate_milli: 0,
            difficulty_milli: 1000,
        };
        proof {
            assert(m@.share_times =~= Seq::<u64>::empty());
            assert(m@.wallet =~= Seq::<char>::empty());
            assert(m@.job_id =~= Seq::<char>::empty());
        }
        m
    }

    /// Recomputes the hashrate estimate at `now`.
    pub fn calculate_hashrate(&mut self, now: u64)
        ensures
            final(self)@ == spec_hashrate(old(self)@, now),
    {
        let ghost cutoff = now as int - CORRELATION_WINDOW_MS;
        let ghost times = self.share_times@;
        let n = self.share_times.len();
        let mut kept: Vec<u64> = Vec::new();
        let mut i: usize = 0;
        while i < n
            invariant
                0 <= i <= n,
                n == times.len(),
                times == self.share_times@,
                cutoff == now as int - CORRELATION_WINDOW_MS,
                kept@ == filter_recent(times.subrange(0, i as int), cutoff),
            decreases n - i,
        {
            let ghost prefix = times.subrange(0, i as int);
            let t = self.share_times[i];
            let keep = if now >= CORRELATION_WINDOW_MS {
                t > now - CORRELATION_WINDOW_MS
            } else {
                true
            };
            if keep {
                kept.push(t);
            }
            i = i + 1;
            proof {
                assert(times.subrange(0, i as int).drop_last() =~= prefix);
                assert(times.subrange(0, i as int).last() == times[i - 1]);
                assert(keep == (times[i - 1] > cutoff));
                assert(kept@ =~= filter_recent(times.subrange(0, i as int), cutoff));
            }
        }
        proof {
            assert(times.subrange(0, n as int) =~= times);
        }
        if kept.len() < 2 {
            self.share_times = kept;
            self.current_hashrate_milli = 0;
            if self.average_hashrate_milli != 0 {
                let decayed: u128 = 9 * (self.average_hashrate_milli as u128) / 10;
                self.average_hashrate_milli = decayed as u64;
            }
            return ;
        }
        let newest = kept[kept.len() - 1] / 1000;
        let oldest = kept[0] / 1000;
        if newest > oldest {
            let span = newest - oldest;
            let la: u128 = kept.len() as u128;
            let db: u128 = self.difficulty_milli as u128;
            proof {
                assert(la * db <= 0xffff_ffff_ffff_ffff_u128 * 0xffff_ffff_ffff_ffff_u128)
                    by (nonlinear_arith)
                    requires
                        la <= 0xffff_ffff_ffff_ffff_u128,
                        db <= 0xffff_ffff_ffff_ffff_u128,
                ;
            }
            let wide: u128 = la * db / (span as u128);
            let cur: u64 = if wide > u64::MAX as u128 {
                u64::MAX
            } else {
                wide as u64
            };
            self.current_hashrate_milli = cur;
        }
        if self.average_hashrate_milli == 0 {
            self.average_hashrate_milli = self.current_hashrate_milli;
        } else {
            let smoothed: u128 = (9 * (self.average_hashrate_milli as u128)
                + self.current_hashrate_milli as u128) / 10;
            self.average_hashrate_milli = smoothed as u64;
        }
        self.share_times = kept;
    }

    /// Applies one client-to-pool line: accounting, then the
    /// protocol effect of its classified event.
    pub fn apply_client_line(&mut self, n: u64, ev: &Event, now: u64)
        ensures
            final(self)@ == client_step(old(self)@, n, ev@, now),
    {
        accrue(&mut self.bytes_upload, n);
        bump(&mut self.packets_sent);
        self.last_seen = now;
        match ev {
            Event::ClientAuthorize { username } => {
                let d = find_dot(username.as_str());
                let prefix = username.as_str().substring_char(0, d);
                self.wallet = String::from_str(prefix);
                self.name = username.clone();
            },
            Event::ClientSubmit { job_id } => {
                match job_id {
                    Some(j) => {
                        self.job_id = j.clone();
                    },
                    None => {},
                }
                self.last_share_time = now;
                self.has_submitted = true;
                self.share_times.push(now);
            },
            _ => {},
        }
    }

    /// Whether a reply arriving at `now` would correlate to a
    /// submission, and with what latency.
    pub fn reply_gate(&self, now: u64) -> (r: (bool, u64))
        ensures
            r.0 == reply_fires(self@, now),
            r.1 == submit_latency(self@, now),
    {
        let fires = self.has_submitted && (now <= self.last_share_time || now - self.last_share_time
            <= CORRELATION_WINDOW_MS);
        let latency = if now >= self.last_share_time {
            now - self.last_share_time
        } else {
            0
        };
        (fires, latency)
    }

    /// Applies one pool-to-client line: accounting, then the protocol
    /// effect of its classified event; returns the share record the
    /// line resolves, if any.
    pub fn apply_pool_line(&mut self, n: u64, ev: &Event, now: u64) -> (rec: Option<ShareRecord>)
        ensures
            final(self)@ == pool_line_step(old(self)@, n, ev@, now).0,
            match rec {
                Some(x) => pool_line_step(old(self)@, n, ev@, now).1 == Some(x@),
                None => pool_line_step(old(self)@, n, ev@, now).1 is None,
            },
    {
        let (fires, _) = self.reply_gate(now);
        accrue(&mut self.bytes_download, n);
        bump(&mut self.packets_received);
        self.last_seen = now;
        match ev {
            Event::PoolNotify { job_id } => {
                self.job_id = job_id.clone();
                None
            },
            Event::PoolSetDifficulty { milli } => {
                self.difficulty_milli = *milli;
                None
            },
            Event::PoolReply { ok, error_nonnull: _ } => match ok {
                Some(accepted) => {
                    if fires {
                        if *accepted {
                            bump(&mut self.shares_accepted);
                            self.calculate_hashrate(now);
                        } else {
                            bump(&mut self.shares_rejected);
                        }
                        Some(self.share_record(*accepted, now))
                    } else {
                        None
                    }
                },
                None => None,
            },
            _ => None,
        }
    }

    /// The share record for a just-resolved share.
    fn share_record(&self, accepted: bool, now: u64) -> (r: ShareRecord)
        ensures
            r@ == share_of(self@, accepted, now),
    {
        ShareRecord {
            wallet: self.wallet.clone(),
            miner_name: self.name.clone(),
            ip: self.ip.clone(),
            pool_name: self.pool_name.clone(),
            job_id: self.job_id.clone(),
            accepted,
            difficulty_milli: self.difficulty_milli,
            submitted_at: now,
        }
    }

    /// The snapshot handed to the store on teardown.
    pub fn snapshot(&self) -> (r: MinerRecord)
        ensures
            r@ == snapshot_model(self@),
    {
        MinerRecord {
            wallet: self.wallet.clone(),
            miner_name: self.name.clone(),
            ip: self.ip.clone(),
            pool_name: self.pool_name.clone(),
            shares_accepted: self.shares_accepted,
            shares_rejected: self.shares_rejected,
            bytes_download: self.bytes_download,
            bytes_upload: self.bytes_upload,
            packets_sent: self.packets_sent,
            packets_received: self.packets_received,
            current_hashrate_milli: self.current_hashrate_milli,
            average_hashrate_milli: self.average_hashrate_milli,
            connected_at: self.connected_at,
            last_seen: self.last_seen,
        }
    }

    /// Renders a whole number of hashes per second for display.
    pub fn format_hashrate(h: u64) -> (s: String)
        ensures
            s@ == crate::hashfmt::spec_format_hashrate_milli(h as nat * 1000),
    {
        crate::hashfmt::format_hashrate(h)
    }
}

/// The miner registry: one session per live `ip:port` key.
pub struct MinerManager {
    miners: Vec<(String, MinerInfo)>,
}

impl MinerManager {
    /// The registry's entries in insertion order.
    pub closed spec fn model(&self) -> Seq<(Seq<char>, SessionModel)> {
        self.miners@.map_values(|e: (String, MinerInfo)| (e.0@, e.1@))
    }

    /// The map the registry denotes.
    pub open spec fn as_map(&self) -> Map<Seq<char>, SessionModel> {
        assoc_map(self.model())
    }

    /// Keys are pairwise distinct.
    pub open spec fn wf(&self) -> bool {
        distinct_keys(self.model())
    }

    /// An empty registry.
    pub fn new() -> (m: Self)
        ensures
            m.wf(),
            m.as_map() == Map::<Seq<char>, SessionModel>::empty(),
            m.model().len() == 0,
    {
        let m = MinerManager { miners: Vec::new() };
        proof {
            assert(m.model() =~= Seq::<(Seq<char>, SessionModel)>::empty());
        }
        m
    }

    /// The index of the entry under `key`, if one exists.
    fn index_of(&self, key: &str) -> (r: Option<usize>)
        ensures
            match r {
                Some(i) => i < self.model().len() && self.model()[i as int].0 == key@,
                None => forall|i: int|
                    0 <= i < self.model().len() ==> (#[trigger] self.model()[i]).0 != key@,
            },
    {
        let n = self.miners.len();
        let mut i: usize = 0;
        while i < n
            invariant
                0 <= i <= n,
                n == self.model().len(),
                forall|t: int| 0 <= t < i ==> (#[trigger] self.model()[t]).0 != key@,
            decreases n - i,
        {
            if str_eq(self.miners[i].0.as_str(), key) {
                return Some(i);
            }
            i = i + 1;
        }
        None
    }

    /// Registers a session under `key`, replacing any session already
    /// there.
    pub fn add_miner(&mut self, key: String, miner: MinerInfo)
        requires
            old(self).wf(),
        ensures
            final(self).wf(),
            final(self).as_map() == old(self).as_map().insert(key@, miner@),
    {
        let ghost before = self.model();
        match self.index_of(key.as_str()) {
            Some(i) => {
                proof {
                    lemma_assoc_update(before, i as int, miner@);
                }
                self.miners[i] = (key, miner);
                proof {
                    assert(self.model() =~= before.update(
                        i as int,
                        (before[i as int].0, self.miners@[i as int].1@),
                    ));
                }
            },
            None => {
                proof {
                    lemma_assoc_push(before, key@, miner@);
                }
                self.miners.push((key, miner));
                proof {
                    assert(self.model() =~= before.push(
                        (self.miners@.last().0@, self.miners@.last().1@),
                    ));
                }
            },
        }
    }

    /// The live session under `key`, if any.
    pub fn get_miner(&self, key: &str) -> (r: Option<&MinerInfo>)
        requires
            self.wf(),
        ensures
            match r {
                Some(m) => self.as_map().contains_key(key@) && m@ == self.as_map()[key@],
                None => !self.as_map().contains_key(key@),
            },
    {
        proof {
            lemma_assoc_contains(self.model(), key@);
        }
        match self.index_of(key) {
            Some(i) => {
                proof {
                    lemma_assoc_index(self.model(), i as int);
                }
                Some(&self.miners[i].1)
            },
            None => None,
        }
    }

    /// Removes and returns the session under `key`, if any.
    pub fn remove_miner(&mut self, key: &str) -> (r: Option<MinerInfo>)
        requires
            old(self).wf(),
        ensures
            final(self).wf(),
            match r {
                Some(m) => {
                    &&& old(self).as_map().contains_key(key@)
                    &&& m@ == old(self).as_map()[key@]
                    &&& final(self).as_map() == old(self).as_map().remove(key@)
                },
                None => {
                    &&& !old(self).as_map().contains_key(key@)
                    &&& final(self).as_map() == old(self).as_map()
                },
            },
    {
        let ghost before = self.model();
        proof {
            lemma_assoc_contains(before, key@);
        }
        match self.index_of(key) {
            Some(i) => {
                proof {
                    lemma_assoc_index(before, i as int);
                    lemma_assoc_remove(before, i as int);
                }
                let (_, m) = self.miners.remove(i);
                proof {
                    assert(self.model() =~= before.remove(i as int));
                }
                Some(m)
            },
            None => None,
        }
    }

    /// How many sessions are live.
    pub fn active_count(&self) -> (r: usize)
        requires
            self.wf(),
        ensures
            r == self.model().len(),
            r == self.as_map().dom().len(),
    {
        proof {
            crate::assoc::lemma_assoc_len(self.model());
        }
        self.miners.len()
    }

    /// Clones of all sessions, in insertion order.
    pub fn get_all_miners(&self) -> (r: Vec<MinerInfo>)
        ensures
            r@.len() == self.model().len(),
            forall|i: int| 0 <= i < r@.len() ==> r@[i]@ == self.model()[i].1,
    {
        let n = self.miners.len();
        let mut out: Vec<MinerInfo> = Vec::new();
        let mut i: usize = 0;
        while i < n
            invariant
                0 <= i <= n,
                n == self.model().len(),
                n == self.miners@.len(),
                out@.len() == i,
                forall|t: int| 0 <= t < i ==> out@[t]@ == self.model()[t].1,
            decreases n - i,
        {
            out.push(self.miners[i].1.clone());
            i = i + 1;
        }
        out
    }

    /// Applies one client-to-pool line to the session under `key`;
    /// reports whether such a session exists.
    pub fn apply_client(&mut self, key: &str, n: u64, ev: &Event, now: u64) -> (found: bool)
        requires
            old(self).wf(),
        ensures
            final(self).wf(),
            found == old(self).as_map().contains_key(key@),
            found ==> final(self).as_map() == old(self).as_map().insert(
                key@,
                client_step(old(self).as_map()[key@], n, ev@, now),
            ),
            !found ==> final(self).as_map() == old(self).as_map(),
    {
        let ghost before = self.model();
        proof {
            lemma_assoc_contains(before, key@);
        }
        match self.index_of(key) {
            Some(i) => {
                proof {
                    lemma_assoc_index(before, i as int);
                }
                let entry = &mut self.miners[i];
                entry.1.apply_client_line(n, ev, now);
                proof {
                    assert(self.model() =~= before.update(
                        i as int,
                        (before[i as int].0, client_step(before[i as int].1, n, ev@, now)),
                    ));
                    lemma_assoc_update(
                        before,
                        i as int,
                        client_step(before[i as int].1, n, ev@, now),
                    );
                }
                true
            },
            None => false,
        }
    }

    /// Applies one pool-to-client line to the session under `key`;
    /// returns whether such a session exists, the share record the
    /// line resolves (if any), and the submit-to-reply latency of the
    /// session before the line.
    pub fn apply_pool(&mut self, key: &str, n: u64, ev: &Event, now: u64) -> (r: (
        bool,
        Option<ShareRecord>,
        u64,
    ))
        requires
            old(self).wf(),
        ensures
            final(self).wf(),
            r.0 == old(self).as_map().contains_key(key@),
            r.0 ==> ({
                let (s2, rec2) = pool_line_step(old(self).as_map()[key@], n, ev@, now);
                &&& final(self).as_map() == old(self).as_map().insert(key@, s2)
                &&& (match r.1 {
                    Some(x) => rec2 == Some(x@),
                    None => rec2 is None,
                })
                &&& r.2 == submit_latency(old(self).as_map()[key@], now)
            }),
            !r.0 ==> final(self).as_map() == old(self).as_map() && r.1 is None,
    {
        let ghost before = self.model();
        proof {
            lemma_assoc_contains(before, key@);
        }
        match self.index_of(key) {
            Some(i) => {
                proof {
                    lemma_assoc_index(before, i as int);
                }
                let entry = &mut self.miners[i];
                let (_, latency) = entry.1.reply_gate(now);
                let rec = entry.1.apply_pool_line(n, ev, now);
                proof {
                    assert(self.model() =~= before.update(
                        i as int,
                        (
                            before[i as int].0,
                            pool_line_step(before[i as int].1, n, ev@, now).0,
                        ),
                    ));
                    lemma_assoc_update(
                        before,
                        i as int,
                        pool_line_step(before[i as int].1, n, ev@, now).0,
                    );
                }
                (true, rec, latency)
            },
            None => (false, None, 0),
        }
    }
}

} // verus!
