//! The two-level record cache: an in-process first level and a shared Redis
//! second level. The levels' own calls are made by the caller; this module
//! decides which level is read and written, and in what order.
pub mod composite;
pub mod redis;

pub use composite::CompositeCache;
pub use redis::RedisCache;
