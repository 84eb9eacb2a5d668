use vstd::prelude::*;

verus! {

/// Settings of the two-level record cache.
pub struct CacheConfig {
    pub enabled: bool,
    pub moka: MokaCacheConfig,
    pub redis: RedisCacheConfig,
    pub invalidation: InvalidationConfig,
}

/// Settings of cross-instance invalidation over Redis pub-sub.
pub struct InvalidationConfig {
    pub enabled: bool,
    pub channel: String,
}

/// Settings of the in-process first level.
pub struct MokaCacheConfig {
    pub enabled: bool,
    pub max_capacity: u64,
    pub time_to_live_secs: u64,
    pub time_to_idle_secs: u64,
}

/// Settings of the shared Redis second level.
pub struct RedisCacheConfig {
    pub enabled: bool,
    pub ttl_secs: u64,
    pub key_prefix: String,
}

} // verus!
