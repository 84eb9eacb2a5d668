use vstd::prelude::*;

verus! {

/// The readiness status: 200 when Postgres and both Redis connections
/// answered, 503 otherwise.
pub fn ready_status(postgres_ok: bool, redis_ok: bool, cache_ok: bool) -> (s: u16)
    ensures
        s == (if postgres_ok && redis_ok && cache_ok {
            200u16
        } else {
            503u16
        }),
{
    if postgres_ok && redis_ok && cache_ok {
        200
    } else {
        503
    }
}

} // verus!
