use stratum_tunnel::miner::MinerInfo;
use stratum_tunnel::miner::MinerManager;
use stratum_tunnel::pool::PoolManager;
use stratum_tunnel::proxy::parse_client_message;
use stratum_tunnel::proxy::parse_pool_message;
use stratum_tunnel::proxy::split_addr;
use stratum_tunnel::proxy::teardown_session;
use stratum_tunnel::store::Database;
use stratum_tunnel::store::ShareRecord;

const KEY: &str = "10.0.0.1:5000";
const POOL: &str = "Example Pool";

fn fresh(t0: u64) -> (MinerManager, PoolManager, Database) {
    let mut miners = MinerManager::new();
    let pools = PoolManager::new();
    let db = Database::new();
    let session = MinerInfo::new(
        "10.0.0.1".to_string(),
        "5000".to_string(),
        POOL.to_string(),
        t0,
    );
    miners.add_miner(KEY.to_string(), session);
    (miners, pools, db)
}

fn client(miners: &mut MinerManager, line: &str, now: u64) -> bool {
    let n = line.len() as u64 + 1;
    parse_client_message(miners, KEY, line, n, now)
}

fn pool(
    miners: &mut MinerManager,
    pools: &mut PoolManager,
    db: &mut Database,
    line: &str,
    now: u64,
) -> (bool, Option<ShareRecord>) {
    let n = line.len() as u64 + 1;
    parse_pool_message(miners, pools, db, true, KEY, POOL, line, n, now)
}

#[test]
fn authorize_and_one_accepted_share() {
    let t0: u64 = 10_000_000;
    let (mut miners, mut pools, mut db) = fresh(t0);

    let found = client(
        &mut miners,
        "{\"id\":1,\"method\":\"mining.authorize\",\"params\":[\"w1.rig\",\"x\"]}",
        t0,
    );
    assert!(found);
    {
        let m = miners.get_miner(KEY).unwrap();
        assert_eq!(m.wallet, "w1");
        assert_eq!(m.name, "w1.rig");
    }

    client(
        &mut miners,
        "{\"id\":2,\"method\":\"mining.submit\",\"params\":[\"w1.rig\",\"job42\",\"00\",\"0\",\"0\"]}",
        t0 + 1000,
    );
    let (found, resolved) = pool(
        &mut miners,
        &mut pools,
        &mut db,
        "{\"id\":2,\"result\":true,\"error\":null}",
        t0 + 1040,
    );
    assert!(found);
    let resolved = resolved.expect("the reply resolves the submission");
    assert!(resolved.accepted);
    assert_eq!(resolved.job_id, "job42");

    let m = miners.get_miner(KEY).unwrap();
    assert_eq!(m.shares_accepted, 1);
    assert_eq!(m.shares_rejected, 0);
    assert_eq!(m.job_id, "job42");

    let all = pools.get_all_pools();
    assert_eq!(all.len(), 1);
    assert_eq!(all[0].name, POOL);
    assert_eq!(all[0].shares_accepted, 1);
    assert_eq!(all[0].shares_rejected, 0);
    assert_eq!(all[0].accept_times_ms.last(), Some(&40));

    let log = db.share_log();
    assert_eq!(log.len(), 1);
    assert!(log[0].accepted);
    assert_eq!(log[0].job_id, "job42");
    assert_eq!(log[0].wallet, "w1");
}

#[test]
fn rejected_share_appends_no_accept_sample() {
    let t0: u64 = 10_000_000;
    let (mut miners, mut pools, mut db) = fresh(t0);

    client(
        &mut miners,
        "{\"id\":2,\"method\":\"mining.submit\",\"params\":[\"w1.rig\",\"job42\",\"00\",\"0\",\"0\"]}",
        t0,
    );
    pool(
        &mut miners,
        &mut pools,
        &mut db,
        "{\"id\":2,\"result\":false,\"error\":[-1,\"low diff\",null]}",
        t0 + 40,
    );

    let m = miners.get_miner(KEY).unwrap();
    assert_eq!(m.shares_accepted, 0);
    assert_eq!(m.shares_rejected, 1);

    let all = pools.get_all_pools();
    assert_eq!(all[0].shares_rejected, 1);
    assert_eq!(all[0].accept_times_ms.len(), 0);

    let log = db.share_log();
    assert_eq!(log.len(), 1);
    assert!(!log[0].accepted);
}

#[test]
fn difficulty_update_scales_hashrate() {
    let t0: u64 = 10_000_000;
    let (mut miners, mut pools, mut db) = fresh(t0);

    pool(
        &mut miners,
        &mut pools,
        &mut db,
        "{\"id\":null,\"method\":\"mining.set_difficulty\",\"params\":[1024]}",
        t0,
    );
    assert_eq!(miners.get_miner(KEY).unwrap().difficulty_milli, 1_024_000);

    let submit = "{\"id\":4,\"method\":\"mining.submit\",\"params\":[\"w\",\"j\",\"0\",\"0\",\"0\"]}";
    let accept = "{\"id\":4,\"result\":true,\"error\":null}";
    for k in 0..3u64 {
        let at = t0 + k * 30_000;
        client(&mut miners, submit, at);
        pool(&mut miners, &mut pools, &mut db, accept, at);
    }

    let m = miners.get_miner(KEY).unwrap();
    // 3 submissions over 60 seconds at difficulty 1024:
    // 3 / 60 * 1024 = 51.2 H/s
    assert_eq!(m.current_hashrate_milli, 51_200);
    // smoothing: second accept estimated 2/30*1024 = 68.266 H/s
    assert_eq!(m.average_hashrate_milli, (9 * 68_266 + 51_200) / 10);
    assert_eq!(pools.get_all_pools()[0].shares_accepted, 3);
}

#[test]
fn hashrate_window_evicts_old_submissions() {
    let t0: u64 = 10_000_000;
    let (mut miners, mut pools, mut db) = fresh(t0);

    let submit = "{\"id\":4,\"method\":\"mining.submit\",\"params\":[\"w\",\"j\",\"0\",\"0\",\"0\"]}";
    for k in 0..20u64 {
        client(&mut miners, submit, t0 + k * 45_000);
    }
    // the reply arrives exactly at the time of the twentieth submit
    let now = t0 + 19 * 45_000;
    pool(
        &mut miners,
        &mut pools,
        &mut db,
        "{\"id\":4,\"result\":true,\"error\":null}",
        now,
    );

    let m = miners.get_miner(KEY).unwrap();
    // only submissions strictly within the last ten minutes remain:
    // those at t0 + k*45s for k = 6..=19
    assert_eq!(m.share_times.len(), 14);
    assert!(m.share_times.iter().all(|&t| t > now - 600_000));
    // 14 submissions over 585 seconds at difficulty 1: 14/585 H/s
    assert_eq!(m.current_hashrate_milli, 14 * 1000 / 585);
}

#[test]
fn disconnect_persists_snapshot_and_frees_key() {
    let t0: u64 = 10_000_000;
    let (mut miners, mut pools, mut db) = fresh(t0);

    client(
        &mut miners,
        "{\"id\":1,\"method\":\"mining.authorize\",\"params\":[\"w1.rig\",\"x\"]}",
        t0,
    );
    let submit = "{\"id\":4,\"method\":\"mining.submit\",\"params\":[\"w1.rig\",\"j\",\"0\",\"0\",\"0\"]}";
    let accept = "{\"id\":4,\"result\":true,\"error\":null}";
    for k in 0..2u64 {
        client(&mut miners, submit, t0 + k * 1000);
        pool(&mut miners, &mut pools, &mut db, accept, t0 + k * 1000 + 40);
    }

    let found = teardown_session(&mut miners, &mut db, true, KEY);
    assert!(found);
    assert!(miners.get_miner(KEY).is_none());
    assert_eq!(miners.active_count(), 0);

    let rows = db.get_miner_by_wallet("w1");
    assert_eq!(rows.len(), 1);
    assert_eq!(rows[0].shares_accepted, 2);
    assert_eq!(rows[0].miner_name, "w1.rig");

    // teardown is idempotent
    assert!(!teardown_session(&mut miners, &mut db, true, KEY));
    assert_eq!(db.get_miner_by_wallet("w1").len(), 1);

    // the same key can host a new session afterwards
    let session = MinerInfo::new(
        "10.0.0.1".to_string(),
        "5000".to_string(),
        POOL.to_string(),
        t0 + 10_000,
    );
    miners.add_miner(KEY.to_string(), session);
    assert!(miners.get_miner(KEY).is_some());
}

#[test]
fn replies_before_any_submission_do_not_count() {
    let t0: u64 = 10_000_000;
    let (mut miners, mut pools, mut db) = fresh(t0);

    // an authorize acknowledgment also carries a boolean result
    pool(
        &mut miners,
        &mut pools,
        &mut db,
        "{\"id\":1,\"result\":true,\"error\":null}",
        t0 + 5,
    );
    let m = miners.get_miner(KEY).unwrap();
    assert_eq!(m.shares_accepted, 0);
    assert_eq!(m.shares_rejected, 0);
    assert_eq!(db.share_count(), 0);
    assert_eq!(pools.get_all_pools().len(), 0);
}

#[test]
fn stale_replies_past_the_window_do_not_count() {
    let t0: u64 = 10_000_000;
    let (mut miners, mut pools, mut db) = fresh(t0);

    let submit = "{\"id\":4,\"method\":\"mining.submit\",\"params\":[\"w\",\"j\",\"0\",\"0\",\"0\"]}";
    client(&mut miners, submit, t0);
    pool(
        &mut miners,
        &mut pools,
        &mut db,
        "{\"id\":4,\"result\":true,\"error\":null}",
        t0 + 600_001,
    );
    let m = miners.get_miner(KEY).unwrap();
    assert_eq!(m.shares_accepted, 0);
    assert_eq!(db.share_count(), 0);
}

#[test]
fn byte_and_packet_accounting() {
    let t0: u64 = 10_000_000;
    let (mut miners, mut pools, mut db) = fresh(t0);

    let a = "{\"id\":1,\"method\":\"mining.authorize\",\"params\":[\"w.r\",\"x\"]}";
    let b = "garbage line";
    let c = "{\"x\":1}";
    client(&mut miners, a, t0);
    client(&mut miners, b, t0 + 1);
    pool(&mut miners, &mut pools, &mut db, c, t0 + 2);

    let m = miners.get_miner(KEY).unwrap();
    assert_eq!(m.bytes_upload, (a.len() + 1 + b.len() + 1) as u64);
    assert_eq!(m.packets_sent, 2);
    assert_eq!(m.bytes_download, (c.len() + 1) as u64);
    assert_eq!(m.packets_received, 1);
    assert_eq!(m.last_seen, t0 + 2);
}

#[test]
fn lines_for_unknown_sessions_change_nothing() {
    let t0: u64 = 10_000_000;
    let mut miners = MinerManager::new();
    let mut pools = PoolManager::new();
    let mut db = Database::new();
    let found = parse_client_message(&mut miners, "1.2.3.4:9", "{\"x\":1}", 8, t0);
    assert!(!found);
    let (found, resolved) = parse_pool_message(
        &mut miners, &mut pools, &mut db, true, "1.2.3.4:9", POOL, "{\"x\":1}", 8, t0,
    );
    assert!(!found);
    assert!(resolved.is_none());
    assert_eq!(db.share_count(), 0);
}

#[test]
fn address_splitting() {
    let (ip, port) = split_addr("10.0.0.1:5000");
    assert_eq!(ip, "10.0.0.1");
    assert_eq!(port, "5000");
    let (ip, port) = split_addr("nocolon");
    assert_eq!(ip, "unknown");
    assert_eq!(port, "0");
}

#[test]
fn pool_totals_equal_session_totals() {
    let t0: u64 = 10_000_000;
    let (mut miners, mut pools, mut db) = fresh(t0);

    let submit = "{\"id\":4,\"method\":\"mining.submit\",\"params\":[\"w\",\"j\",\"0\",\"0\",\"0\"]}";
    for k in 0..5u64 {
        client(&mut miners, submit, t0 + k * 1000);
        let reply = if k % 2 == 0 {
            "{\"id\":4,\"result\":true,\"error\":null}"
        } else {
            "{\"id\":4,\"result\":false,\"error\":null}"
        };
        pool(&mut miners, &mut pools, &mut db, reply, t0 + k * 1000 + 30);
    }

    let m = miners.get_miner(KEY).unwrap();
    let p = &pools.get_all_pools()[0];
    assert_eq!(m.shares_accepted, 3);
    assert_eq!(m.shares_rejected, 2);
    assert_eq!(p.shares_accepted, m.shares_accepted);
    assert_eq!(p.shares_rejected, m.shares_rejected);
    assert_eq!(db.share_count(), 5);
}

#[test]
fn registration_overwrites_and_removal_returns_the_session() {
    let t0: u64 = 10_000_000;
    let (mut miners, _, _) = fresh(t0);

    // a new connection under the same key replaces the session
    let replacement = MinerInfo::new(
        "10.0.0.1".to_string(),
        "5000".to_string(),
        "Other Pool".to_string(),
        t0 + 7,
    );
    miners.add_miner(KEY.to_string(), replacement);
    assert_eq!(miners.active_count(), 1);
    assert_eq!(miners.get_miner(KEY).unwrap().pool_name, "Other Pool");
    assert_eq!(miners.get_miner(KEY).unwrap().connected_at, t0 + 7);

    let removed = miners.remove_miner(KEY).unwrap();
    assert_eq!(removed.pool_name, "Other Pool");
    assert!(miners.remove_miner(KEY).is_none());
}

#[test]
fn wallet_prefix_handles_multibyte_usernames() {
    let t0: u64 = 10_000_000;
    let (mut miners, _, _) = fresh(t0);
    client(
        &mut miners,
        "{\"id\":1,\"method\":\"mining.authorize\",\"params\":[\"w\u{e9}llet.rig\",\"x\"]}",
        t0,
    );
    let m = miners.get_miner(KEY).unwrap();
    assert_eq!(m.wallet, "w\u{e9}llet");
    assert_eq!(m.name, "w\u{e9}llet.rig");
}

#[test]
fn authorize_without_dot_uses_whole_name_as_wallet() {
    let t0: u64 = 10_000_000;
    let (mut miners, _, _) = fresh(t0);
    client(
        &mut miners,
        "{\"id\":1,\"method\":\"mining.authorize\",\"params\":[\"solo\",\"x\"]}",
        t0,
    );
    let m = miners.get_miner(KEY).unwrap();
    assert_eq!(m.wallet, "solo");
    assert_eq!(m.name, "solo");
}

#[test]
fn idle_average_decays_toward_zero() {
    let t0: u64 = 10_000_000;
    let mut m = MinerInfo::new(
        "10.0.0.1".to_string(),
        "5000".to_string(),
        POOL.to_string(),
        t0,
    );
    m.average_hashrate_milli = 1000;
    // no submissions remain in the window: the current rate is zero
    // and the smoothing folds that zero into the average
    m.calculate_hashrate(t0);
    assert_eq!(m.current_hashrate_milli, 0);
    assert_eq!(m.average_hashrate_milli, 900);
    m.calculate_hashrate(t0);
    assert_eq!(m.average_hashrate_milli, 810);

    let mut z = MinerInfo::new(
        "10.0.0.1".to_string(),
        "5000".to_string(),
        POOL.to_string(),
        t0,
    );
    z.calculate_hashrate(t0);
    assert_eq!(z.average_hashrate_milli, 0);
}
