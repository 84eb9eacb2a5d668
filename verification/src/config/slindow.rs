use vstd::prelude::*;

verus! {

/// Sliding-window limiter settings without a trusted-proxy list (the
/// limiter reads `limiters::SlindowConfig`).
pub struct SlindowConfig {
    pub enabled: bool,
    pub requests_per_window: u32,
    pub window_secs: u64,
    pub key_prefix: String,
    pub script_path: String,
}

} // verus!
