//! Service settings. Loading them from YAML is the application's job; here
//! they are plain values, with the few rules they carry.
pub mod app;
pub mod cache;
pub mod coalescer;
pub mod db;
pub mod deduper;
pub mod limiters;
pub mod redis;
pub mod server;
pub mod slindow;

pub use app::AppConfig;
pub use cache::{CacheConfig, InvalidationConfig, MokaCacheConfig, RedisCacheConfig};
pub use coalescer::CoalescerConfig;
pub use db::{PostgresConfig, RedisConfig};
pub use deduper::{BloomDeduperConfig, DeduperConfig, RedisDeduperConfig};
pub use limiters::{SlindowConfig, TrustedNet, parse_trusted_proxies, proxy_is_trusted};
pub use server::ServerConfig;
