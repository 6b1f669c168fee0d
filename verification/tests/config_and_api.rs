use stratum_tunnel::api::find_by_wallet_prefix;
use stratum_tunnel::api::network_totals;
use stratum_tunnel::config::Config;
use stratum_tunnel::metrics::SystemMetrics;
use stratum_tunnel::miner::MinerInfo;

#[test]
fn default_config_template() {
    let c = Config::default();
    assert_eq!(c.pools.len(), 1);
    assert_eq!(c.pools[0].0, "pool1");
    assert_eq!(c.pools[0].1.host, "pool.example.com");
    assert_eq!(c.pools[0].1.port, 4444);
    assert_eq!(c.pools[0].1.name, "Example Pool");
    assert_eq!(c.tunnels.len(), 1);
    assert_eq!(c.tunnels[0].0, "tunnel1");
    assert_eq!(c.tunnels[0].1.ip, "0.0.0.0");
    assert_eq!(c.tunnels[0].1.port, 3333);
    assert_eq!(c.tunnels[0].1.pool, "pool1");
    assert_eq!(c.api_port, 8080);
    assert_eq!(c.database.dbname, "mining_tunnel");
}

#[test]
fn pool_lookup_by_id() {
    let c = Config::default();
    let p = c.find_pool("pool1").expect("pool1 is configured");
    assert_eq!(p.name, "Example Pool");
    assert!(c.find_pool("absent").is_none());
}

fn session_with(wallet: &str, down: u64, up: u64, sent: u64, received: u64) -> MinerInfo {
    let mut m = MinerInfo::new("1.2.3.4".to_string(), "1".to_string(), "p".to_string(), 0);
    m.wallet = wallet.to_string();
    m.bytes_download = down;
    m.bytes_upload = up;
    m.packets_sent = sent;
    m.packets_received = received;
    m
}

#[test]
fn network_totals_sum_over_sessions() {
    let miners = vec![
        session_with("a", 10, 20, 1, 2),
        session_with("b", 100, 200, 10, 20),
        session_with("c", 1000, 2000, 100, 200),
    ];
    let (down, up, sent, received) = network_totals(&miners);
    assert_eq!(down, 1110);
    assert_eq!(up, 2220);
    assert_eq!(sent, 111);
    assert_eq!(received, 222);
}

#[test]
fn network_totals_saturate() {
    let miners = vec![
        session_with("a", u64::MAX, 1, 0, 0),
        session_with("b", u64::MAX, 1, 0, 0),
    ];
    let (down, up, _, _) = network_totals(&miners);
    assert_eq!(down, u64::MAX);
    assert_eq!(up, 2);
}

#[test]
fn wallet_prefix_finds_the_first_match() {
    let miners = vec![
        session_with("alpha", 0, 0, 0, 0),
        session_with("walletone", 0, 0, 0, 0),
        session_with("wallettwo", 0, 0, 0, 0),
    ];
    assert_eq!(find_by_wallet_prefix(&miners, "wallet"), Some(1));
    assert_eq!(find_by_wallet_prefix(&miners, "al"), Some(0));
    assert_eq!(find_by_wallet_prefix(&miners, ""), Some(0));
    assert_eq!(find_by_wallet_prefix(&miners, "zzz"), None);
}

#[test]
fn system_metrics_update_refreshes_volatile_fields() {
    let mut m = SystemMetrics::new(
        "test-cpu".to_string(),
        8,
        16_000,
        4_000,
        1_000_000,
        250_000,
        "test-os".to_string(),
        "198.51.100.7".to_string(),
    );
    assert_eq!(m.cpu_usage_centi, 0);
    m.update(1234, 5_000, 260_000, 3, 77);
    assert_eq!(m.cpu_usage_centi, 1234);
    assert_eq!(m.ram_used, 5_000);
    assert_eq!(m.disk_used, 260_000);
    assert_eq!(m.active_miners, 3);
    assert_eq!(m.uptime_seconds, 77);
    assert_eq!(m.cpu_model, "test-cpu");
    assert_eq!(m.ram_total, 16_000);
}
