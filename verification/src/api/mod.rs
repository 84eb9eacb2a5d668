//! The HTTP surface's decisions: error mapping, request validation, and the
//! plans that the rate-limit and idempotency middlewares follow. The HTTP
//! framework and the database calls belong to the application.
pub mod deduper;
pub mod errors;
pub mod health;
pub mod records;
pub mod slindow;
