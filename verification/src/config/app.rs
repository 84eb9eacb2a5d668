use vstd::prelude::*;

use super::{
    CacheConfig, CoalescerConfig, DeduperConfig, PostgresConfig, RedisConfig, ServerConfig,
    SlindowConfig,
};

verus! {

/// All settings of the service.
pub struct AppConfig {
    pub server: ServerConfig,
    pub postgres: PostgresConfig,
    pub redis: RedisConfig,
    pub slindow: SlindowConfig,
    pub deduper: DeduperConfig,
    pub coalescer: CoalescerConfig,
    pub cache: CacheConfig,
}

} // verus!
