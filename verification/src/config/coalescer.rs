use vstd::prelude::*;

verus! {

/// Settings of request coalescing.
pub struct CoalescerConfig {
    pub enabled: bool,
}

} // verus!
