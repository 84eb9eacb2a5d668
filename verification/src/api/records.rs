//! What the record handlers decide around their database calls.
use vstd::prelude::*;
use vstd::string::*;

use super::errors::ApiError;
use crate::text::{concat_str, dec_int, i64_to_decimal, str_eq, trim, trim_spec};

verus! {

/// The Postgres error code of a unique-key violation.
pub const UNIQUE_VIOLATION: &'static str = "23505";

/// Checks a record id: not blank once trimmed, at most 255 bytes.
pub fn validate_id(id: &str) -> (r: Result<(), ApiError>)
    ensures
        match r {
            Ok(()) => trim_spec(id@).len() > 0 && id.spec_bytes().len() <= 255,
            Err(e) => e is BadRequest && if trim_spec(id@).len() == 0 {
                e.message_spec() == "id must not be empty"@
            } else {
                id.spec_bytes().len() > 255 && e.message_spec() == "id must be <= 255 chars"@
            },
        },
{
    let t = trim(id);
    let ts = t.as_str();
    assert(ts@ == trim_spec(id@));
    if ts.is_empty() {
        return Err(ApiError::BadRequest(String::from_str("id must not be empty")));
    }
    if id.as_bytes().len() > 255 {
        return Err(ApiError::BadRequest(String::from_str("id must be <= 255 chars")));
    }
    Ok(())
}

fn quoted(before: &str, id: &str, after: &str) -> (r: String)
    ensures
        r@ == before@ + id@ + after@,
{
    let a = concat_str(before, id);
    concat_str(a.as_str(), after)
}

/// The text `Record '<id>' does not exist`.
pub open spec fn not_found_message(id: Seq<char>) -> Seq<char> {
    "Record '"@ + id + "' does not exist"@
}

/// The error for a record that does not exist.
pub fn not_found(id: &str) -> (e: ApiError)
    ensures
        e is NotFound,
        e.message_spec() == not_found_message(id@),
{
    ApiError::NotFound(quoted("Record '", id, "' does not exist"))
}

/// What a failed insert answers: a unique-key violation means the record
/// exists already; any other database error is internal, with its text.
pub fn create_failure(id: &str, db_code: Option<&str>, error_text: String) -> (e: ApiError)
    ensures
        (db_code matches Some(c) && c@ == UNIQUE_VIOLATION@) ==> e is Conflict && e.message_spec()
            == "Record with ID '"@ + id@ + "' already exists"@,
        !(db_code matches Some(c) && c@ == UNIQUE_VIOLATION@) ==> e is Internal && e.message_spec()
            == error_text@,
{
    let unique = match db_code {
        Some(c) => str_eq(c, UNIQUE_VIOLATION),
        None => false,
    };
    if unique {
        ApiError::Conflict(quoted("Record with ID '", id, "' already exists"))
    } else {
        ApiError::Internal(error_text)
    }
}

/// The text of a version mismatch.
pub open spec fn version_mismatch_message(current: i32, expected: i32) -> Seq<char> {
    "Current version is "@ + dec_int(current as int) + ", but expected version was "@ + dec_int(
        expected as int,
    )
}

/// What a conditional update that matched no row answers, given the
/// record's current version (`None` when the record does not exist).
pub fn patch_failure(id: &str, current: Option<i32>, expected_version: i32) -> (e: ApiError)
    ensures
        current is None ==> e is NotFound && e.message_spec() == not_found_message(id@),
        current matches Some(v) ==> e is VersionMismatch && e.message_spec()
            == version_mismatch_message(v, expected_version),
{
    match current {
        None => not_found(id),
        Some(v) => {
            let cur = i64_to_decimal(v as i64);
            let exp = i64_to_decimal(expected_version as i64);
            let a = concat_str("Current version is ", cur.as_str());
            let b = concat_str(a.as_str(), ", but expected version was ");
            ApiError::VersionMismatch(concat_str(b.as_str(), exp.as_str()))
        },
    }
}

/// The status of an upsert: 201 when it created the record (version 1),
/// 200 when it replaced one.
pub fn put_status(version: i32) -> (s: u16)
    ensures
        s == (if version == 1 {
            201u16
        } else {
            200u16
        }),
{
    if version == 1 {
        201
    } else {
        200
    }
}

/// What a delete answers: 204 when a row went away, otherwise not found.
pub fn delete_outcome(id: &str, rows_affected: u64) -> (r: Result<u16, ApiError>)
    ensures
        rows_affected == 0 ==> (r matches Err(e) && e is NotFound && e.message_spec()
            == not_found_message(id@)),
        rows_affected != 0 ==> r == Ok::<u16, ApiError>(204),
{
    if rows_affected == 0 {
        Err(not_found(id))
    } else {
        Ok(204)
    }
}

/// Where a read of a record is answered from.
pub enum GetPlan {
    /// The cache had it.
    FromCache,
    /// Through the coalescer, which shares one database read per id.
    Coalesced,
    /// Directly from the database.
    FromDatabase,
}

/// A cached record answers at once; otherwise the read is coalesced when a
/// coalescer is configured, and goes straight to the database when not.
pub fn get_plan(cache_hit: bool, has_coalescer: bool) -> (p: GetPlan)
    ensures
        cache_hit ==> p == GetPlan::FromCache,
        !cache_hit && has_coalescer ==> p == GetPlan::Coalesced,
        !cache_hit && !has_coalescer ==> p == GetPlan::FromDatabase,
{
    if cache_hit {
        GetPlan::FromCache
    } else if has_coalescer {
        GetPlan::Coalesced
    } else {
        GetPlan::FromDatabase
    }
}

} // verus!
