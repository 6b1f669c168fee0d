use stratum_tunnel::store::Database;
use stratum_tunnel::store::MinerRecord;
use stratum_tunnel::store::ShareRecord;

fn snapshot(wallet: &str, name: &str, accepted: u64, upload: u64, last_seen: u64) -> MinerRecord {
    MinerRecord {
        wallet: wallet.to_string(),
        miner_name: name.to_string(),
        ip: "10.0.0.1".to_string(),
        pool_name: "Example Pool".to_string(),
        shares_accepted: accepted,
        shares_rejected: 1,
        bytes_download: 100,
        bytes_upload: upload,
        packets_sent: 5,
        packets_received: 6,
        current_hashrate_milli: 51_200,
        average_hashrate_milli: 48_000,
        connected_at: 1000,
        last_seen,
    }
}

fn share(wallet: &str, at: u64) -> ShareRecord {
    ShareRecord {
        wallet: wallet.to_string(),
        miner_name: "w.rig".to_string(),
        ip: "10.0.0.1".to_string(),
        pool_name: "Example Pool".to_string(),
        job_id: "j1".to_string(),
        accepted: true,
        difficulty_milli: 1000,
        submitted_at: at,
    }
}

#[test]
fn upsert_adds_counters_and_replaces_rates() {
    let mut db = Database::new();
    db.save_miner(&snapshot("w1", "w1.rig", 3, 500, 2000));
    db.save_miner(&snapshot("w1", "w1.rig", 3, 500, 9000));

    let rows = db.get_miner_by_wallet("w1");
    assert_eq!(rows.len(), 1);
    // additive counters: two identical snapshots sum
    assert_eq!(rows[0].shares_accepted, 6);
    assert_eq!(rows[0].shares_rejected, 2);
    assert_eq!(rows[0].bytes_upload, 1000);
    assert_eq!(rows[0].bytes_download, 200);
    // latest wins for rates and last_seen, the first connection stays
    assert_eq!(rows[0].current_hashrate_milli, 51_200);
    assert_eq!(rows[0].last_seen, 9000);
    assert_eq!(rows[0].connected_at, 1000);
}

#[test]
fn distinct_keys_get_distinct_rows() {
    let mut db = Database::new();
    db.save_miner(&snapshot("w1", "rigA", 1, 10, 100));
    db.save_miner(&snapshot("w1", "rigB", 2, 20, 200));
    db.save_miner(&snapshot("w2", "rigA", 4, 40, 400));

    assert_eq!(db.get_miner_by_wallet("w1").len(), 2);
    assert_eq!(db.get_miner_by_wallet("w2").len(), 1);
    // prefix lookup sees every wallet starting with "w"
    assert_eq!(db.get_miner_by_wallet("w").len(), 3);
    assert_eq!(db.get_miner_by_wallet("").len(), 3);
    assert_eq!(db.get_miner_by_wallet("w3").len(), 0);
}

#[test]
fn share_log_appends_in_order() {
    let mut db = Database::new();
    db.save_share(share("w1", 10));
    db.save_share(share("w2", 20));
    assert_eq!(db.share_count(), 2);
    let log = db.share_log();
    assert_eq!(log[0].wallet, "w1");
    assert_eq!(log[1].wallet, "w2");
}

#[test]
fn cleanup_drops_only_stale_shares() {
    let year_ms: u64 = 31_536_000_000;
    let now: u64 = 2 * year_ms;
    let mut db = Database::new();
    db.save_share(share("old", now - year_ms - 1));
    db.save_share(share("edge", now - year_ms));
    db.save_share(share("new", now - 5));
    db.cleanup_old_data(now);
    let log = db.share_log();
    assert_eq!(log.len(), 2);
    assert_eq!(log[0].wallet, "edge");
    assert_eq!(log[1].wallet, "new");
}
