use vstd::prelude::*;

use crate::config::cache::RedisCacheConfig;
use crate::text::concat_str;

verus! {

/// The shared second level: where records live in Redis, and for how long.
pub struct RedisCache {
    key_prefix: String,
    ttl_secs: u64,
}

impl RedisCache {
    pub closed spec fn spec_key_prefix(&self) -> Seq<char> {
        self.key_prefix@
    }

    pub closed spec fn spec_ttl_secs(&self) -> u64 {
        self.ttl_secs
    }

    /// The second level for `cfg`, or `None` when it is disabled.
    pub fn new(cfg: &RedisCacheConfig) -> (r: Option<Self>)
        ensures
            r is Some <==> cfg.enabled,
            r matches Some(c) ==> c.spec_key_prefix() == cfg.key_prefix@ && c.spec_ttl_secs()
                == cfg.ttl_secs,
    {
        if !cfg.enabled {
            return None;
        }
        Some(RedisCache { key_prefix: cfg.key_prefix.clone(), ttl_secs: cfg.ttl_secs })
    }

    /// The Redis key of a record: the prefix, then the record id.
    pub fn key(&self, id: &str) -> (r: String)
        ensures
            r@ == self.spec_key_prefix() + id@,
    {
        concat_str(self.key_prefix.as_str(), id)
    }

    /// How long a cached record lives, in seconds.
    pub fn ttl_secs(&self) -> (r: u64)
        ensures
            r == self.spec_ttl_secs(),
    {
        self.ttl_secs
    }
}

} // verus!
