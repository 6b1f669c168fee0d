//! Read-side computations for the HTTP surface.
//!
//! The HTTP handlers themselves do I/O and serialization outside the
//! library; the sums and lookups they report are computed here, over
//! snapshots of the registries.

use vstd::prelude::*;

use crate::is_prefix_of;
use crate::miner::MinerInfo;
use crate::miner::SessionModel;
use crate::sat_u64;
use crate::str_starts_with;

verus! {

/// The summed download bytes of a list of sessions.
pub open spec fn sum_download(s: Seq<SessionModel>) -> int
    decreases s.len(),
{
    if s.len() == 0 {
        0
    } else {
        sum_download(s.drop_last()) + s.last().bytes_download
    }
}

/// The summed upload bytes of a list of sessions.
pub open spec fn sum_upload(s: Seq<SessionModel>) -> int
    decreases s.len(),
{
    if s.len() == 0 {
        0
    } else {
        sum_upload(s.drop_last()) + s.last().bytes_upload
    }
}

/// The summed sent packets of a list of sessions.
pub open spec fn sum_sent(s: Seq<SessionModel>) -> int
    decreases s.len(),
{
    if s.len() == 0 {
        0
    } else {
        sum_sent(s.drop_last()) + s.last().packets_sent
    }
}

/// The summed received packets of a list of sessions.
pub open spec fn sum_received(s: Seq<SessionModel>) -> int
    decreases s.len(),
{
    if s.len() == 0 {
        0
    } else {
        sum_received(s.drop_last()) + s.last().packets_received
    }
}

/// The summed accepted shares of a list of sessions.
pub open spec fn sum_accepted(s: Seq<SessionModel>) -> int
    decreases s.len(),
{
    if s.len() == 0 {
        0
    } else {
        sum_accepted(s.drop_last()) + s.last().shares_accepted
    }
}

/// The summed rejected shares of a list of sessions.
pub open spec fn sum_rejected(s: Seq<SessionModel>) -> int
    decreases s.len(),
{
    if s.len() == 0 {
        0
    } else {
        sum_rejected(s.drop_last()) + s.last().shares_rejected
    }
}

/// Replacing one session moves the sums by exactly that session's
/// change.
pub proof fn lemma_sum_shares_update(s: Seq<SessionModel>, i: int, v: SessionModel)
    requires
        0 <= i < s.len(),
    ensures
        sum_accepted(s.update(i, v)) == sum_accepted(s) - s[i].shares_accepted
            + v.shares_accepted,
        sum_rejected(s.update(i, v)) == sum_rejected(s) - s[i].shares_rejected
            + v.shares_rejected,
    decreases s.len(),
{
    let t = s.update(i, v);
    if i == s.len() - 1 {
        assert(t.drop_last() =~= s.drop_last());
    } else {
        assert(t.drop_last() =~= s.drop_last().update(i, v));
        lemma_sum_shares_update(s.drop_last(), i, v);
        assert(t.last() == s.last());
    }
}

/// Aggregate network counters over all live sessions: download and
/// upload bytes, sent and received packets, each saturating.
pub fn network_totals(miners: &Vec<MinerInfo>) -> (r: (u64, u64, u64, u64))
    ensures
        ({
            let models = miners@.map_values(|m: MinerInfo| m@);
            &&& r.0 == sat_u64(sum_download(models))
            &&& r.1 == sat_u64(sum_upload(models))
            &&& r.2 == sat_u64(sum_sent(models))
            &&& r.3 == sat_u64(sum_received(models))
        }),
{
    let ghost models = miners@.map_values(|m: MinerInfo| m@);
    let n = miners.len();
    let mut down: u128 = 0;
    let mut up: u128 = 0;
    let mut sent: u128 = 0;
    let mut received: u128 = 0;
    let mut i: usize = 0;
    while i < n
        invariant
            0 <= i <= n,
            n == models.len(),
            models == miners@.map_values(|m: MinerInfo| m@),
            down == sum_download(models.subrange(0, i as int)),
            up == sum_upload(models.subrange(0, i as int)),
            sent == sum_sent(models.subrange(0, i as int)),
            received == sum_received(models.subrange(0, i as int)),
            down <= i * (u64::MAX as int),
            up <= i * (u64::MAX as int),
            sent <= i * (u64::MAX as int),
            received <= i * (u64::MAX as int),
        decreases n - i,
    {
        let ghost prefix = models.subrange(0, i as int);
        let m = &miners[i];
        down = down + m.bytes_download as u128;
        up = up + m.bytes_upload as u128;
        sent = sent + m.packets_sent as u128;
        received = received + m.packets_received as u128;
        i = i + 1;
        proof {
            assert(models.subrange(0, i as int).drop_last() =~= prefix);
            assert(models.subrange(0, i as int).last() == models[i - 1]);
        }
    }
    proof {
        assert(models.subrange(0, n as int) =~= models);
    }
    (clamp(down), clamp(up), clamp(sent), clamp(received))
}

/// Clamps a wide sum into 64 bits.
fn clamp(x: u128) -> (r: u64)
    ensures
        r == sat_u64(x as int),
{
    if x > u64::MAX as u128 {
        u64::MAX
    } else {
        x as u64
    }
}

/// The first session whose wallet starts with `prefix`, if any.
pub fn find_by_wallet_prefix(miners: &Vec<MinerInfo>, prefix: &str) -> (r: Option<usize>)
    ensures
        match r {
            Some(i) => {
                &&& i < miners@.len()
                &&& is_prefix_of(prefix@, miners@[i as int]@.wallet)
                &&& forall|t: int|
                    0 <= t < i ==> !is_prefix_of(prefix@, (#[trigger] miners@[t])@.wallet)
            },
            None => forall|t: int|
                0 <= t < miners@.len() ==> !is_prefix_of(prefix@, (#[trigger] miners@[t])@.wallet),
        },
{
    let n = miners.len();
    let mut i: usize = 0;
    while i < n
        invariant
            0 <= i <= n,
            n == miners@.len(),
            forall|t: int| 0 <= t < i ==> !is_prefix_of(prefix@, (#[trigger] miners@[t])@.wallet),
        decreases n - i,
    {
        if str_starts_with(miners[i].wallet.as_str(), prefix) {
            return Some(i);
        }
        i = i + 1;
    }
    None
}

} // verus!
