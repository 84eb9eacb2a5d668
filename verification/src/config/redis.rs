//! The Redis connection settings; `cache_url` is optional, so older
//! configurations that only name `url` still apply.
pub use super::db::RedisConfig;
