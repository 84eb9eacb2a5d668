pub mod slindow;

pub use slindow::{SlindowDecision, SlindowLimiter};
