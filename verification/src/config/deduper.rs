use vstd::prelude::*;

verus! {

/// Settings of idempotency-key deduplication.
pub struct DeduperConfig {
    pub enabled: bool,
    pub header: String,
    pub require_key: bool,
    pub bloom: BloomDeduperConfig,
    pub redis: RedisDeduperConfig,
}

/// Settings of the authoritative Redis layer.
pub struct RedisDeduperConfig {
    pub enabled: bool,
    pub key_prefix: String,
    pub ttl_secs: u64,
    pub inflight_ttl_secs: u64,
}

/// Settings of the in-memory Bloom filter layer. The target false-positive
/// rate is a floating-point setting and is applied where the filters are built.
pub struct BloomDeduperConfig {
    pub enabled: bool,
    pub capacity: u64,
    pub buckets: usize,
    pub bucket_ttl_secs: u64,
}

impl BloomDeduperConfig {
    /// How many keys each bucket is sized for: the configured capacity, at
    /// least one, and at most what a `usize` holds.
    pub open spec fn bucket_capacity_spec(&self) -> int {
        if self.capacity < 1 {
            1
        } else if self.capacity > usize::MAX {
            usize::MAX as int
        } else {
            self.capacity as int
        }
    }

    /// How many keys each bucket is sized for (see `bucket_capacity_spec`).
    pub fn bucket_capacity(&self) -> (r: usize)
        ensures
            r == self.bucket_capacity_spec(),
    {
        let c: u64 = if self.capacity < 1 {
            1
        } else {
            self.capacity
        };
        if c as u128 > usize::MAX as u128 {
            usize::MAX
        } else {
            c as usize
        }
    }
}

} // verus!
