use vstd::prelude::*;

verus! {

/// Settings of the Postgres pool.
pub struct PostgresConfig {
    pub url: String,
    pub max_connections: u32,
    pub acquire_timeout_secs: u64,
}

/// Settings of the Redis connections.
pub struct RedisConfig {
    /// Durable instance: idempotency claims, rate-limit windows, pub/sub.
    pub url: String,
    /// Evictable instance for the cache's second level; when absent the
    /// cache shares `url`.
    pub cache_url: Option<String>,
}

impl RedisConfig {
    /// The URL of the cache's Redis instance: `cache_url` when set, else `url`.
    pub fn cache_connection_url(&self) -> (r: &str)
        ensures
            r@ == match self.cache_url {
                Some(u) => u@,
                None => self.url@,
            },
    {
        match &self.cache_url {
            Some(u) => u.as_str(),
            None => self.url.as_str(),
        }
    }
}

} // verus!
