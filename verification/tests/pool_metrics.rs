use stratum_tunnel::pool::PoolManager;
use stratum_tunnel::pool::PoolMetrics;

#[test]
fn ping_window_keeps_the_last_hundred() {
    let now: u64 = 5_000_000;
    let mut p = PoolMetrics::new("p".to_string(), now);
    for ms in 1..=150u64 {
        p.add_ping_sample(ms, now + ms);
    }
    assert_eq!(p.ping_samples.len(), 100);
    let expected: Vec<u64> = (51..=150).collect();
    assert_eq!(p.ping_samples, expected);
    assert_eq!(p.current_ping_ms, 150);
    assert_eq!(p.last_ping_time, now + 150);
    // mean of 51..=150 is 100.5 ms
    assert_eq!(p.average_ping_milli(), 100_500);
}

#[test]
fn accept_window_keeps_the_last_hundred() {
    let mut p = PoolMetrics::new("p".to_string(), 0);
    for ms in 0..120u64 {
        p.add_accept_time(ms);
    }
    assert_eq!(p.accept_times_ms.len(), 100);
    assert_eq!(p.accept_times_ms[0], 20);
    assert_eq!(p.accept_times_ms[99], 119);
    // mean of 20..=119 is 69.5 ms
    assert_eq!(p.avg_accept_time_milli(), 69_500);
}

#[test]
fn empty_windows_average_to_zero() {
    let p = PoolMetrics::new("p".to_string(), 0);
    assert_eq!(p.average_ping_milli(), 0);
    assert_eq!(p.avg_accept_time_milli(), 0);
}

#[test]
fn manager_creates_pools_on_first_ping() {
    let mut pools = PoolManager::new();
    pools.add_ping("alpha", 12, 1000);
    pools.add_ping("beta", 30, 1001);
    pools.add_ping("alpha", 14, 1002);
    let all = pools.get_all_pools();
    assert_eq!(all.len(), 2);
    assert_eq!(all[0].name, "alpha");
    assert_eq!(all[0].ping_samples, vec![12, 14]);
    assert_eq!(all[0].current_ping_ms, 14);
    assert_eq!(all[1].name, "beta");
    assert_eq!(all[1].ping_samples, vec![30]);
}

#[test]
fn manager_records_share_outcomes() {
    let mut pools = PoolManager::new();
    pools.record_share_outcome("alpha", true, 40, 1000);
    pools.record_share_outcome("alpha", false, 0, 1001);
    pools.record_share_outcome("alpha", true, 60, 1002);
    let all = pools.get_all_pools();
    assert_eq!(all.len(), 1);
    assert_eq!(all[0].shares_accepted, 2);
    assert_eq!(all[0].shares_rejected, 1);
    assert_eq!(all[0].accept_times_ms, vec![40, 60]);
}
