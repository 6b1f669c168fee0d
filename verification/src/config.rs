//! Static configuration: pools, tunnels, the API port, and reserved
//! database settings.
//!
//! Pools and tunnels are kept as ordered lists of `(id, settings)`
//! pairs; a tunnel refers to its pool by id, and resolving an unknown
//! id is a startup error.  Reading and writing the configuration
//! file is I/O and lives outside the library; this module holds the
//! data and the lookup the orchestrator needs.

use vstd::prelude::*;
use vstd::string::StringExecFns;

use crate::str_eq;

verus! {

/// One upstream pool, as mathematical values.
pub struct PoolConfigModel {
    pub host: Seq<char>,
    pub port: u16,
    pub name: Seq<char>,
}

/// One upstream pool.
pub struct PoolConfig {
    pub host: String,
    pub port: u16,
    pub name: String,
}

impl View for PoolConfig {
    type V = PoolConfigModel;

    open spec fn view(&self) -> PoolConfigModel {
        PoolConfigModel { host: self.host@, port: self.port, name: self.name@ }
    }
}

impl Clone for PoolConfig {
    fn clone(&self) -> (r: Self)
        ensures
            r@ == self@,
    {
        PoolConfig { host: self.host.clone(), port: self.port, name: self.name.clone() }
    }
}

/// One listener, as mathematical values.
pub struct TunnelConfigModel {
    pub ip: Seq<char>,
    pub port: u16,
    pub pool: Seq<char>,
}

/// One listener: where to bind, and which pool to relay to.
pub struct TunnelConfig {
    pub ip: String,
    pub port: u16,
    /// The id of a configured pool.
    pub pool: String,
}

impl View for TunnelConfig {
    type V = TunnelConfigModel;

    open spec fn view(&self) -> TunnelConfigModel {
        TunnelConfigModel { ip: self.ip@, port: self.port, pool: self.pool@ }
    }
}

impl Clone for TunnelConfig {
    fn clone(&self) -> (r: Self)
        ensures
            r@ == self@,
    {
        TunnelConfig { ip: self.ip.clone(), port: self.port, pool: self.pool.clone() }
    }
}

/// Reserved database settings, as mathematical values.
pub struct DatabaseConfigModel {
    pub host: Seq<char>,
    pub port: u16,
    pub user: Seq<char>,
    pub password: Seq<char>,
    pub dbname: Seq<char>,
}

/// Reserved database settings; the shipped store keeps local state,
/// so these are carried but unused.
pub struct DatabaseConfig {
    pub host: String,
    pub port: u16,
    pub user: String,
    pub password: String,
    pub dbname: String,
}

impl View for DatabaseConfig {
    type V = DatabaseConfigModel;

    open spec fn view(&self) -> DatabaseConfigModel {
        DatabaseConfigModel {
            host: self.host@,
            port: self.port,
            user: self.user@,
            password: self.password@,
            dbname: self.dbname@,
        }
    }
}

impl Clone for DatabaseConfig {
    fn clone(&self) -> (r: Self)
        ensures
            r@ == self@,
    {
        DatabaseConfig {
            host: self.host.clone(),
            port: self.port,
            user: self.user.clone(),
            password: self.password.clone(),
            dbname: self.dbname.clone(),
        }
    }
}

/// The whole configuration.
pub struct Config {
    /// Pools by id, in file order.
    pub pools: Vec<(String, PoolConfig)>,
    /// Tunnels by id, in file order.
    pub tunnels: Vec<(String, TunnelConfig)>,
    pub api_port: u16,
    pub database: DatabaseConfig,
}

impl Config {
    /// The pools as id/settings pairs.
    pub open spec fn pools_model(&self) -> Seq<(Seq<char>, PoolConfigModel)> {
        self.pools@.map_values(|e: (String, PoolConfig)| (e.0@, e.1@))
    }

    /// The tunnels as id/settings pairs.
    pub open spec fn tunnels_model(&self) -> Seq<(Seq<char>, TunnelConfigModel)> {
        self.tunnels@.map_values(|e: (String, TunnelConfig)| (e.0@, e.1@))
    }

    /// The settings of the first pool with id `id`, if any.
    pub fn find_pool(&self, id: &str) -> (r: Option<&PoolConfig>)
        ensures
            match r {
                Some(p) => exists|i: int|
                    0 <= i < self.pools_model().len() && (#[trigger] self.pools_model()[i]).0
                        == id@ && p@ == self.pools_model()[i].1,
                None => forall|i: int|
                    0 <= i < self.pools_model().len() ==> (#[trigger] self.pools_model()[i]).0
                        != id@,
            },
    {
        let n = self.pools.len();
        let mut i: usize = 0;
        while i < n
            invariant
                0 <= i <= n,
                n == self.pools_model().len(),
                forall|t: int| 0 <= t < i ==> (#[trigger] self.pools_model()[t]).0 != id@,
            decreases n - i,
        {
            if str_eq(self.pools[i].0.as_str(), id) {
                proof {
                    assert(self.pools_model()[i as int].0 == id@);
                    assert(self.pools@[i as int].1@ == self.pools_model()[i as int].1);
                }
                return Some(&self.pools[i].1);
            }
            i = i + 1;
        }
        None
    }
}

/// The default template written when no configuration file exists:
/// one example pool and one tunnel relaying to it.
pub open spec fn spec_default_config(c: Config) -> bool {
    &&& c.pools_model().len() == 1
    &&& c.pools_model()[0].0 == "pool1"@
    &&& c.pools_model()[0].1.host == "pool.example.com"@
    &&& c.pools_model()[0].1.port == 4444
    &&& c.pools_model()[0].1.name == "Example Pool"@
    &&& c.tunnels_model().len() == 1
    &&& c.tunnels_model()[0].0 == "tunnel1"@
    &&& c.tunnels_model()[0].1.ip == "0.0.0.0"@
    &&& c.tunnels_model()[0].1.port == 3333
    &&& c.tunnels_model()[0].1.pool == "pool1"@
    &&& c.api_port == 8080
    &&& c.database@.host == "localhost"@
    &&& c.database@.port == 3306
    &&& c.database@.user == "root"@
    &&& c.database@.password == "password"@
    &&& c.database@.dbname == "mining_tunnel"@
}

impl Default for Config {
    /// The default template.
    fn default() -> (c: Self)
        ensures
            spec_default_config(c),
    {
        let mut pools: Vec<(String, PoolConfig)> = Vec::new();
        pools.push(
            (
                String::from_str("pool1"),
                PoolConfig {
                    host: String::from_str("pool.example.com"),
                    port: 4444,
                    name: String::from_str("Example Pool"),
                },
            ),
        );
        let mut tunnels: Vec<(String, TunnelConfig)> = Vec::new();
        tunnels.push(
            (
                String::from_str("tunnel1"),
                TunnelConfig {
                    ip: String::from_str("0.0.0.0"),
                    port: 3333,
                    pool: String::from_str("pool1"),
                },
            ),
        );
        Config {
            pools,
            tunnels,
            api_port: 8080,
            database: DatabaseConfig {
                host: String::from_str("localhost"),
                port: 3306,
                user: String::from_str("root"),
                password: String::from_str("password"),
                dbname: String::from_str("mining_tunnel"),
            },
        }
    }
}

} // verus!
