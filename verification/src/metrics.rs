//! Host-level system metrics, carried as plain values.
//!
//! Sampling the host (CPU, RAM, disks, public address) is I/O and
//! happens outside the library; this module holds the snapshot the
//! HTTP surface reads and the refresh applied on each sampling tick.

use vstd::prelude::*;

verus! {

/// A snapshot of host metrics.  Percentages are carried in
/// hundredths of a percent, so `1234` means `12.34%`.
pub struct SystemMetrics {
    pub cpu_model: String,
    pub cpu_cores: u64,
    /// CPU usage, in hundredths of a percent.
    pub cpu_usage_centi: u64,
    pub ram_total: u64,
    pub ram_used: u64,
    pub disk_total: u64,
    pub disk_used: u64,
    pub os: String,
    pub public_ip: String,
    pub uptime_seconds: u64,
    pub active_miners: u64,
}

impl SystemMetrics {
    /// A snapshot from one host sampling, with the mutable readings
    /// still zero.
    pub fn new(
        cpu_model: String,
        cpu_cores: u64,
        ram_total: u64,
        ram_used: u64,
        disk_total: u64,
        disk_used: u64,
        os: String,
        public_ip: String,
    ) -> (m: Self)
        ensures
            m.cpu_model@ == cpu_model@,
            m.cpu_cores == cpu_cores,
            m.cpu_usage_centi == 0,
            m.ram_total == ram_total,
            m.ram_used == ram_used,
            m.disk_total == disk_total,
            m.disk_used == disk_used,
            m.os@ == os@,
            m.public_ip@ == public_ip@,
            m.uptime_seconds == 0,
            m.active_miners == 0,
    {
        SystemMetrics {
            cpu_model,
            cpu_cores,
            cpu_usage_centi: 0,
            ram_total,
            ram_used,
            disk_total,
            disk_used,
            os,
            public_ip,
            uptime_seconds: 0,
            active_miners: 0,
        }
    }

    /// One sampling tick: refreshes the volatile readings and leaves
    /// the static ones alone.
    pub fn update(
        &mut self,
        cpu_usage_centi: u64,
        ram_used: u64,
        disk_used: u64,
        active_miners: u64,
        uptime_seconds: u64,
    )
        ensures
            final(self).cpu_usage_centi == cpu_usage_centi,
            final(self).ram_used == ram_used,
            final(self).disk_used == disk_used,
            final(self).active_miners == active_miners,
            final(self).uptime_seconds == uptime_seconds,
            final(self).cpu_model@ == old(self).cpu_model@,
            final(self).cpu_cores == old(self).cpu_cores,
            final(self).ram_total == old(self).ram_total,
            final(self).disk_total == old(self).disk_total,
            final(self).os@ == old(self).os@,
            final(self).public_ip@ == old(self).public_ip@,
    {
        self.cpu_usage_centi = cpu_usage_centi;
        self.ram_used = ram_used;
        self.disk_used = disk_used;
        self.active_miners = active_miners;
        self.uptime_seconds = uptime_seconds;
    }
}

} // verus!
