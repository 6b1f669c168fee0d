//! The per-line dataplane: classification applied to the registries,
//! session teardown, and the laws the dataplane obeys.
//!
//! The I/O pumps around these functions read one newline-terminated
//! line at a time, relay it unchanged to the opposite peer, and then
//! hand the line here with its byte count and the current time.

use vstd::prelude::*;
use vstd::string::StrSliceExecFns;
use vstd::string::StringExecFns;

use crate::api::lemma_sum_shares_update;
use crate::api::sum_accepted;
use crate::api::sum_rejected;
use crate::miner::CORRELATION_WINDOW_MS;
use crate::miner::MinerManager;
use crate::miner::SessionModel;
use crate::miner::client_step;
use crate::miner::filter_recent;
use crate::miner::pool_line_step;
use crate::miner::snapshot_model;
use crate::miner::spec_hashrate;
use crate::miner::submit_latency;
use crate::pool::PoolManager;
use crate::pool::PoolModel;
use crate::pool::fresh_pool;
use crate::pool::share_step;
use crate::store::Database;
use crate::store::ShareRecord;
use crate::store::sat_add;
use crate::store::spec_save_miner;
use crate::wire::EventModel;
use crate::wire::classify_line;
use crate::wire::line_shape;
use crate::wire::spec_classify;

verus! {

/// The first index at or after `i` holding `':'`, or the length.
pub open spec fn colon_pos_from(s: Seq<char>, i: int) -> int
    decreases s.len() - i,
{
    if i < 0 || i >= s.len() {
        s.len() as int
    } else if s[i] == ':' {
        i
    } else {
        colon_pos_from(s, i + 1)
    }
}

proof fn lemma_colon_pos_skip(s: Seq<char>, i: int)
    requires
        0 <= i <= s.len(),
        forall|t: int| 0 <= t < i ==> s[t] != ':',
    ensures
        colon_pos_from(s, 0) == colon_pos_from(s, i),
    decreases i,
{
    if i > 0 {
        lemma_colon_pos_skip(s, i - 1);
    }
}

/// Splits a remote address `ip:port` at its first colon; an address
/// without a colon yields `unknown` and port `0`, and the session
/// continues under that key.
pub fn split_addr(addr: &str) -> (r: (String, String))
    ensures
        ({
            let c = colon_pos_from(addr@, 0);
            if c < addr@.len() {
                r.0@ == addr@.subrange(0, c) && r.1@ == addr@.subrange(c + 1, addr@.len() as int)
            } else {
                r.0@ == "unknown"@ && r.1@ == "0"@
            }
        }),
{
    let n = addr.unicode_len();
    let mut i: usize = 0;
    while i < n
        invariant
            0 <= i <= n,
            n == addr@.len(),
            forall|t: int| 0 <= t < i ==> addr@[t] != ':',
        decreases n - i,
    {
        if addr.get_char(i) == ':' {
            proof {
                lemma_colon_pos_skip(addr@, i as int);
            }
            let ip = addr.substring_char(0, i);
            let port = addr.substring_char(i + 1, n);
            return (String::from_str(ip), String::from_str(port));
        }
        i = i + 1;
    }
    proof {
        lemma_colon_pos_skip(addr@, n as int);
    }
    (String::from_str("unknown"), String::from_str("0"))
}

/// Applies one client-to-pool line to the session under `key`:
/// accounting, then the protocol effect of the classified event.
/// Reports whether the session exists; a missing session leaves the
/// registry unchanged, and the line is still relayed by the caller.
pub fn parse_client_message(
    miners: &mut MinerManager,
    key: &str,
    line: &str,
    n: u64,
    now: u64,
) -> (found: bool)
    requires
        old(miners).wf(),
    ensures
        final(miners).wf(),
        found == old(miners).as_map().contains_key(key@),
        found ==> final(miners).as_map() == old(miners).as_map().insert(
            key@,
            client_step(
                old(miners).as_map()[key@],
                n,
                spec_classify(line_shape(line@)),
                now,
            ),
        ),
        !found ==> final(miners).as_map() == old(miners).as_map(),
{
    let ev = classify_line(line);
    miners.apply_client(key, n, &ev, now)
}

/// Applies one pool-to-client line to the session under `key`: the
/// session transition, then, when the line resolves a share, the
/// pool's counters and accept window under `pool_name` and (when
/// `persist` is set) one record appended to the share log.  Returns
/// whether the session exists and the share record the line
/// resolved, if any, so the caller can report the outcome.
pub fn parse_pool_message(
    miners: &mut MinerManager,
    pools: &mut PoolManager,
    db: &mut Database,
    persist: bool,
    key: &str,
    pool_name: &str,
    line: &str,
    n: u64,
    now: u64,
) -> (r: (bool, Option<ShareRecord>))
    requires
        old(miners).wf(),
        old(pools).wf(),
    ensures
        final(miners).wf(),
        final(pools).wf(),
        final(db).miners_model() == old(db).miners_model(),
        r.0 == old(miners).as_map().contains_key(key@),
        ({
            let ev = spec_classify(line_shape(line@));
            let stepped = pool_line_step(old(miners).as_map()[key@], n, ev, now);
            let lat = submit_latency(old(miners).as_map()[key@], now);
            let pool_base = if old(pools).as_map().contains_key(pool_name@) {
                old(pools).as_map()[pool_name@]
            } else {
                fresh_pool(pool_name@, now)
            };
            &&& (r.0 ==> final(miners).as_map() == old(miners).as_map().insert(
                key@,
                stepped.0,
            ))
            &&& (r.0 ==> match stepped.1 {
                Some(rm) => {
                    &&& final(pools).as_map() == old(pools).as_map().insert(
                        pool_name@,
                        share_step(pool_base, rm.accepted, lat),
                    )
                    &&& (persist ==> final(db).shares_model() == old(db).shares_model().push(
                        rm,
                    ))
                    &&& (!persist ==> final(db).shares_model() == old(db).shares_model())
                    &&& (match r.1 {
                        Some(x) => x@ == rm,
                        None => false,
                    })
                },
                None => final(pools).as_map() == old(pools).as_map() && final(db).shares_model()
                    == old(db).shares_model() && r.1 is None,
            })
            &&& (!r.0 ==> final(miners).as_map() == old(miners).as_map()
                && final(pools).as_map() == old(pools).as_map()
                && final(db).shares_model() == old(db).shares_model()
                && r.1 is None)
        }),
{
    let ev = classify_line(line);
    let (found, rec, latency) = miners.apply_pool(key, n, &ev, now);
    match rec {
        Some(record) => {
            pools.record_share_outcome(pool_name, record.accepted, latency, now);
            let resolved = record.clone();
            if persist {
                db.save_share(record);
            }
            (found, Some(resolved))
        },
        None => (found, None),
    }
}

/// Tears a session down: removes it from the registry and, when
/// `persist` is set, upserts its snapshot into the miner table.
/// Teardown of an absent key changes nothing, so it is idempotent.
pub fn teardown_session(
    miners: &mut MinerManager,
    db: &mut Database,
    persist: bool,
    key: &str,
) -> (found: bool)
    requires
        old(miners).wf(),
    ensures
        final(miners).wf(),
        final(db).shares_model() == old(db).shares_model(),
        found == old(miners).as_map().contains_key(key@),
        found ==> final(miners).as_map() == old(miners).as_map().remove(key@),
        !found ==> final(miners).as_map() == old(miners).as_map(),
        found && persist ==> final(db).miners_model() == spec_save_miner(
            old(db).miners_model(),
            snapshot_model(old(miners).as_map()[key@]),
        ),
        !(found && persist) ==> final(db).miners_model() == old(db).miners_model(),
{
    match miners.remove_miner(key) {
        Some(m) => {
            if persist {
                let snap = m.snapshot();
                db.save_miner(&snap);
            }
            true
        },
        None => false,
    }
}

/// The hashrate recomputation leaves every counter, identity field
/// and timing field alone; only the submission window and the two
/// rate estimates change.
pub proof fn lemma_hashrate_preserves(s: SessionModel, now: u64)
    ensures
        spec_hashrate(s, now).shares_accepted == s.shares_accepted,
        spec_hashrate(s, now).shares_rejected == s.shares_rejected,
        spec_hashrate(s, now).bytes_upload == s.bytes_upload,
        spec_hashrate(s, now).bytes_download == s.bytes_download,
        spec_hashrate(s, now).packets_sent == s.packets_sent,
        spec_hashrate(s, now).packets_received == s.packets_received,
        spec_hashrate(s, now).wallet == s.wallet,
        spec_hashrate(s, now).name == s.name,
        spec_hashrate(s, now).ip == s.ip,
        spec_hashrate(s, now).pool_name == s.pool_name,
        spec_hashrate(s, now).job_id == s.job_id,
        spec_hashrate(s, now).difficulty_milli == s.difficulty_milli,
        spec_hashrate(s, now).last_seen == s.last_seen,
        spec_hashrate(s, now).last_share_time == s.last_share_time,
        spec_hashrate(s, now).has_submitted == s.has_submitted,
{
}

/// Share counters are monotone: no line, whatever its event — a
/// parser error classifies as `Ignore` — decreases a session's
/// `shares_accepted` or `shares_rejected`, in either direction.
pub proof fn lemma_counters_monotone(s: SessionModel, n: u64, ev: EventModel, now: u64)
    ensures
        client_step(s, n, ev, now).shares_accepted >= s.shares_accepted,
        client_step(s, n, ev, now).shares_rejected >= s.shares_rejected,
        pool_line_step(s, n, ev, now).0.shares_accepted >= s.shares_accepted,
        pool_line_step(s, n, ev, now).0.shares_rejected >= s.shares_rejected,
{
    match ev {
        EventModel::PoolReply { ok, error_nonnull } => match ok {
            Some(accepted) => {
                if crate::miner::reply_fires(s, now) && accepted {
                    let base = pool_base_of(s, n, now);
                    lemma_hashrate_preserves(
                        SessionModel {
                            shares_accepted: sat_add(base.shares_accepted, 1),
                            ..base
                        },
                        now,
                    );
                }
            },
            None => {},
        },
        _ => {},
    }
}

/// The accounting base every pool-direction event builds on.
pub open spec fn pool_base_of(s: SessionModel, n: u64, now: u64) -> SessionModel {
    SessionModel {
        bytes_download: sat_add(s.bytes_download, n),
        packets_received: sat_add(s.packets_received, 1),
        last_seen: now,
        ..s
    }
}

/// Pool totals track session totals: one pool-direction line moves a
/// pool's share counters by exactly as much as it moves the
/// session's, and a line that resolves no share moves neither.  (The
/// increments meet at the same share, so summed over the sessions
/// ever routed through a pool, the pool's totals equal the session
/// sums up to the replies still in flight.)
pub proof fn lemma_share_delta(
    s: SessionModel,
    p: PoolModel,
    n: u64,
    ev: EventModel,
    now: u64,
    lat: u64,
)
    requires
        s.shares_accepted < u64::MAX,
        s.shares_rejected < u64::MAX,
        p.shares_accepted < u64::MAX,
        p.shares_rejected < u64::MAX,
    ensures
        ({
            let (s2, rec) = pool_line_step(s, n, ev, now);
            match rec {
                Some(r) => {
                    let p2 = share_step(p, r.accepted, lat);
                    &&& s2.shares_accepted - s.shares_accepted == p2.shares_accepted
                        - p.shares_accepted
                    &&& s2.shares_rejected - s.shares_rejected == p2.shares_rejected
                        - p.shares_rejected
                },
                None => {
                    &&& pool_line_step(s, n, ev, now).0.shares_accepted == s.shares_accepted
                    &&& pool_line_step(s, n, ev, now).0.shares_rejected == s.shares_rejected
                },
            }
        }),
{
    match ev {
        EventModel::PoolReply { ok, error_nonnull } => match ok {
            Some(accepted) => {
                if crate::miner::reply_fires(s, now) && accepted {
                    let base = pool_base_of(s, n, now);
                    lemma_hashrate_preserves(
                        SessionModel {
                            shares_accepted: sat_add(base.shares_accepted, 1),
                            ..base
                        },
                        now,
                    );
                }
            },
            None => {},
        },
        _ => {},
    }
}

/// After a hashrate recomputation at `now`, the submission window
/// holds only times from the last ten minutes, and no more of them
/// than there were submissions recorded.
pub proof fn lemma_submit_window(s: SessionModel, now: u64)
    ensures
        ({
            let kept = spec_hashrate(s, now).share_times;
            &&& forall|i: int|
                0 <= i < kept.len() ==> (#[trigger] kept[i]) > now as int
                    - CORRELATION_WINDOW_MS
            &&& kept.len() <= s.share_times.len()
        }),
{
    lemma_filter_recent_window(s.share_times, now as int - CORRELATION_WINDOW_MS);
}

proof fn lemma_filter_recent_window(times: Seq<u64>, cutoff: int)
    ensures
        forall|i: int|
            0 <= i < filter_recent(times, cutoff).len() ==> (#[trigger] filter_recent(
                times,
                cutoff,
            )[i]) > cutoff,
        filter_recent(times, cutoff).len() <= times.len(),
    decreases times.len(),
{
    if times.len() > 0 {
        lemma_filter_recent_window(times.drop_last(), cutoff);
    }
}

/// One observed line in one direction: its byte count, its event,
/// and the time it was seen.
pub struct LineObs {
    pub bytes: u64,
    pub ev: EventModel,
    pub at: u64,
}

/// A session after a whole run of client-direction lines.
pub open spec fn run_client(s: SessionModel, obs: Seq<LineObs>) -> SessionModel
    decreases obs.len(),
{
    if obs.len() == 0 {
        s
    } else {
        client_step(run_client(s, obs.drop_last()), obs.last().bytes, obs.last().ev, obs.last().at)
    }
}

/// A session after a whole run of pool-direction lines.
pub open spec fn run_pool(s: SessionModel, obs: Seq<LineObs>) -> SessionModel
    decreases obs.len(),
{
    if obs.len() == 0 {
        s
    } else {
        pool_line_step(
            run_pool(s, obs.drop_last()),
            obs.last().bytes,
            obs.last().ev,
            obs.last().at,
        ).0
    }
}

/// The bytes of a run of lines.
pub open spec fn total_bytes(obs: Seq<LineObs>) -> int
    decreases obs.len(),
{
    if obs.len() == 0 {
        0
    } else {
        total_bytes(obs.drop_last()) + obs.last().bytes
    }
}

/// Byte and packet accounting, client direction: over any run of
/// lines, `bytes_upload` grows by exactly the bytes relayed upstream
/// and `packets_sent` by the number of lines, as long as the counters
/// do not saturate.
pub proof fn lemma_byte_accounting_client(s: SessionModel, obs: Seq<LineObs>)
    requires
        s.bytes_upload + total_bytes(obs) <= u64::MAX,
        s.packets_sent + obs.len() <= u64::MAX,
    ensures
        run_client(s, obs).bytes_upload == s.bytes_upload + total_bytes(obs),
        run_client(s, obs).packets_sent == s.packets_sent + obs.len(),
    decreases obs.len(),
{
    if obs.len() > 0 {
        lemma_total_bytes_nonneg(obs.drop_last());
        lemma_byte_accounting_client(s, obs.drop_last());
    }
}

/// Byte and packet accounting, pool direction: over any run of
/// lines, `bytes_download` grows by exactly the bytes relayed to the
/// client and `packets_received` by the number of lines, as long as
/// the counters do not saturate.
pub proof fn lemma_byte_accounting_pool(s: SessionModel, obs: Seq<LineObs>)
    requires
        s.bytes_download + total_bytes(obs) <= u64::MAX,
        s.packets_received + obs.len() <= u64::MAX,
    ensures
        run_pool(s, obs).bytes_download == s.bytes_download + total_bytes(obs),
        run_pool(s, obs).packets_received == s.packets_received + obs.len(),
    decreases obs.len(),
{
    if obs.len() > 0 {
        lemma_total_bytes_nonneg(obs.drop_last());
        lemma_byte_accounting_pool(s, obs.drop_last());
        let prev = run_pool(s, obs.drop_last());
        let o = obs.last();
        lemma_pool_step_accounting(prev, o.bytes, o.ev, o.at);
    }
}

/// One pool-direction line adds its bytes and one packet, whatever
/// its event.
proof fn lemma_pool_step_accounting(s: SessionModel, n: u64, ev: EventModel, now: u64)
    ensures
        pool_line_step(s, n, ev, now).0.bytes_download == sat_add(s.bytes_download, n),
        pool_line_step(s, n, ev, now).0.packets_received == sat_add(s.packets_received, 1),
{
    match ev {
        EventModel::PoolReply { ok, error_nonnull } => match ok {
            Some(accepted) => {
                if crate::miner::reply_fires(s, now) && accepted {
                    let base = pool_base_of(s, n, now);
                    lemma_hashrate_preserves(
                        SessionModel {
                            shares_accepted: sat_add(base.shares_accepted, 1),
                            ..base
                        },
                        now,
                    );
                }
            },
            None => {},
        },
        _ => {},
    }
}

proof fn lemma_total_bytes_nonneg(obs: Seq<LineObs>)
    ensures
        total_bytes(obs) >= 0,
    decreases obs.len(),
{
    if obs.len() > 0 {
        lemma_total_bytes_nonneg(obs.drop_last());
    }
}

/// Pool totals track the session sum: over all live sessions, one
/// pool-direction line moves the pool's totals and the summed session
/// counters by the same amount, so the difference between a pool's
/// totals and the sum of `shares_accepted` (or `shares_rejected`)
/// over the sessions routed through it is invariant under the
/// dataplane, line by line.
pub proof fn lemma_pool_totals_track_sessions(
    sessions: Seq<SessionModel>,
    i: int,
    p: PoolModel,
    n: u64,
    ev: EventModel,
    now: u64,
    lat: u64,
)
    requires
        0 <= i < sessions.len(),
        sessions[i].shares_accepted < u64::MAX,
        sessions[i].shares_rejected < u64::MAX,
        p.shares_accepted < u64::MAX,
        p.shares_rejected < u64::MAX,
    ensures
        ({
            let (s2, rec) = pool_line_step(sessions[i], n, ev, now);
            let stepped = sessions.update(i, s2);
            let p2 = match rec {
                Some(r) => share_step(p, r.accepted, lat),
                None => p,
            };
            &&& p2.shares_accepted - sum_accepted(stepped) == p.shares_accepted - sum_accepted(
                sessions,
            )
            &&& p2.shares_rejected - sum_rejected(stepped) == p.shares_rejected - sum_rejected(
                sessions,
            )
        }),
{
    let (s2, rec) = pool_line_step(sessions[i], n, ev, now);
    lemma_share_delta(sessions[i], p, n, ev, now, lat);
    lemma_sum_shares_update(sessions, i, s2);
}

/// Share counters are monotone over whole runs, in both directions.
pub proof fn lemma_run_counters_monotone(s: SessionModel, obs: Seq<LineObs>)
    ensures
        run_client(s, obs).shares_accepted >= s.shares_accepted,
        run_client(s, obs).shares_rejected >= s.shares_rejected,
        run_pool(s, obs).shares_accepted >= s.shares_accepted,
        run_pool(s, obs).shares_rejected >= s.shares_rejected,
    decreases obs.len(),
{
    if obs.len() > 0 {
        lemma_run_counters_monotone(s, obs.drop_last());
        let o = obs.last();
        lemma_counters_monotone(run_client(s, obs.drop_last()), o.bytes, o.ev, o.at);
        lemma_counters_monotone(run_pool(s, obs.drop_last()), o.bytes, o.ev, o.at);
    }
}

} // verus!
