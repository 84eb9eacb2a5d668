//! The plan that the idempotency middleware follows for a request.
use vstd::prelude::*;
use vstd::string::*;
use vstd::utf8::*;

use crate::deduper::{Claim, Deduper, valid_key_spec};
use crate::text::{concat_str, str_eq, string_from_chars, trim, trim_spec};

verus! {

/// Responses above this size run normally but are not recorded for replay.
pub const REPLAY_BODY_LIMIT: usize = 1048576;

/// Upper bound for buffering a response in memory.
pub const BUFFER_BODY_LIMIT: usize = 16777216;

/// What `HeaderValue::to_str` accepts and gives: the value as text when
/// every byte is visible ASCII or a tab.
pub open spec fn header_text_spec(b: Seq<u8>) -> Option<Seq<char>> {
    if forall|i: int| 0 <= i < b.len() ==> (32 <= #[trigger] b[i] && b[i] < 127) || b[i] == 9 {
        Some(b.map_values(|x: u8| x as char))
    } else {
        None
    }
}

pub open spec fn opt_text(o: Option<String>) -> Option<Seq<char>> {
    match o {
        Some(s) => Some(s@),
        None => None,
    }
}

/// `HeaderValue::to_str`: the header value as text, or `None` when it holds a
/// byte other than visible ASCII or tab.
pub fn header_text(b: &[u8]) -> (r: Option<String>)
    ensures
        opt_text(r) == header_text_spec(b@),
{
    let mut v: Vec<char> = Vec::new();
    let mut i: usize = 0;
    while i < b.len()
        invariant
            i <= b@.len(),
            v@ == b@.take(i as int).map_values(|x: u8| x as char),
            forall|j: int| 0 <= j < i ==> (32 <= #[trigger] b@[j] && b@[j] < 127) || b@[j] == 9,
        decreases b@.len() - i,
    {
        let x = b[i];
        if !((32 <= x && x < 127) || x == 9) {
            return None;
        }
        v.push(x as char);
        assert(b@.take(i + 1).map_values(|x: u8| x as char) =~= b@.take(i as int).map_values(
            |x: u8| x as char,
        ).push(x as char));
        i = i + 1;
    }
    assert(b@.take(b@.len() as int) =~= b@);
    Some(string_from_chars(v.as_slice()))
}

/// The idempotency key a header value carries: its text, trimmed, if that
/// is a valid key.
pub open spec fn extract_key_spec(raw: Option<Seq<u8>>) -> Option<Seq<char>> {
    match raw {
        None => None,
        Some(b) => match header_text_spec(b) {
            None => None,
            Some(t) => if valid_key_spec(encode_utf8(trim_spec(t))) {
                Some(trim_spec(t))
            } else {
                None
            },
        },
    }
}

/// The idempotency key of a request, from the raw value of its key header.
pub fn extract_key(raw: Option<&[u8]>) -> (r: Option<String>)
    ensures
        opt_text(r) == extract_key_spec(
            match raw {
                Some(b) => Some(b@),
                None => None,
            },
        ),
{
    let b = match raw {
        Some(b) => b,
        None => {
            return None;
        },
    };
    let t = match header_text(b) {
        Some(t) => t,
        None => {
            return None;
        },
    };
    let k = trim(t.as_str());
    if Deduper::validate_key(k.as_str()) {
        Some(k)
    } else {
        None
    }
}

/// Requests that change state: `POST`, `PUT` and `PATCH`.
pub fn is_mutating(method: &str) -> (r: bool)
    ensures
        r == (method@ == "POST"@ || method@ == "PUT"@ || method@ == "PATCH"@),
{
    str_eq(method, "POST") || str_eq(method, "PUT") || str_eq(method, "PATCH")
}

/// The health endpoints, which are never deduplicated.
pub fn is_health(path: &str) -> (r: bool)
    ensures
        r == (path@ == "/health"@ || path@ == "/ready"@),
{
    str_eq(path, "/health") || str_eq(path, "/ready")
}

/// What the middleware does with an incoming request.
pub enum RequestPlan {
    /// Run it without deduplication.
    Pass,
    /// Refuse it with 400: a key is required and none valid was sent.
    RejectMissingKey,
    /// Claim the key before running it.
    Claim { client_key: String },
}

/// Only mutating requests outside the health endpoints are deduplicated,
/// and only when a deduper is configured; a request without a valid key
/// runs as it is, unless keys are required.
pub fn plan_request(deduper: Option<&Deduper>, method: &str, path: &str, key_header: Option<&[u8]>) -> (p: RequestPlan)
    ensures
        ({
            let key = extract_key_spec(
                match key_header {
                    Some(b) => Some(b@),
                    None => None,
                },
            );
            if deduper is None || !(method@ == "POST"@ || method@ == "PUT"@ || method@ == "PATCH"@)
                || (path@ == "/health"@ || path@ == "/ready"@) {
                p is Pass
            } else {
                match key {
                    Some(k) => p matches RequestPlan::Claim { client_key } && client_key@ == k,
                    None => if deduper->0.require_key {
                        p is RejectMissingKey
                    } else {
                        p is Pass
                    },
                }
            }
        }),
{
    let d = match deduper {
        Some(d) => d,
        None => {
            return RequestPlan::Pass;
        },
    };
    if !is_mutating(method) || is_health(path) {
        return RequestPlan::Pass;
    }
    match extract_key(key_header) {
        Some(k) => RequestPlan::Claim { client_key: k },
        None => if d.require_key {
            RequestPlan::RejectMissingKey
        } else {
            RequestPlan::Pass
        },
    }
}

/// The body of the 400 answer: ``missing or invalid `<header>` header``.
pub fn missing_key_message(header_name: &str) -> (r: String)
    ensures
        r@ == "missing or invalid `"@ + header_name@ + "` header"@,
{
    let a = concat_str("missing or invalid `", header_name);
    concat_str(a.as_str(), "` header")
}

/// What the middleware does once the claim is known.
pub enum ClaimPlan {
    /// The deduper failed; run the request unguarded (fail open).
    RunUnguarded,
    /// Answer with the recorded response, marked as replayed.
    Replay { status: u16, body: Vec<u8>, content_type: String },
    /// Answer 409 with `retry-after`.
    InFlight { retry_after_secs: u64 },
    /// Run the request, then record or release the claim.
    RunFresh { redis_key: Option<String>, bloom_key: Option<String> },
}

/// The status a replay answers with: the recorded one when it is a valid
/// status code (100 to 999, as `StatusCode::from_u16` accepts), else 200.
pub open spec fn replay_status_spec(status: u16) -> u16 {
    if 100 <= status && status <= 999 {
        status
    } else {
        200
    }
}

/// `StatusCode::from_u16(status).unwrap_or(StatusCode::OK)`.
pub fn replay_status(status: u16) -> (r: u16)
    ensures
        r == replay_status_spec(status),
{
    if 100 <= status && status <= 999 {
        status
    } else {
        200
    }
}

/// Turns a claim (`None` when the deduper failed) into the middleware's plan.
/// A replay carries the recorded status (or 200), body (empty when none was
/// recorded) and content type.
pub fn plan_claim(claim: Option<Claim>) -> (p: ClaimPlan)
    ensures
        match claim {
            None => p is RunUnguarded,
            Some(Claim::Replay { status, body, content_type, .. }) => p matches ClaimPlan::Replay { status: s, body: b, content_type: c } && s
                == replay_status_spec(status) && b@ == (match body {
                Some(v) => v@,
                None => Seq::<u8>::empty(),
            }) && c@ == content_type@,
            Some(Claim::InFlight { retry_after_secs }) => p == (ClaimPlan::InFlight { retry_after_secs }),
            Some(Claim::Fresh { redis_key, bloom_key }) => p matches ClaimPlan::RunFresh { redis_key: r, bloom_key: k } && r == redis_key && k == bloom_key,
        },
{
    match claim {
        None => ClaimPlan::RunUnguarded,
        Some(Claim::Replay { status, body, content_type, .. }) => {
            let b = match body {
                Some(v) => v,
                None => Vec::new(),
            };
            ClaimPlan::Replay { status: replay_status(status), body: b, content_type }
        },
        Some(Claim::InFlight { retry_after_secs }) => ClaimPlan::InFlight { retry_after_secs },
        Some(Claim::Fresh { redis_key, bloom_key }) => ClaimPlan::RunFresh { redis_key, bloom_key },
    }
}

/// A server error releases the claim, so that the client may retry.
pub fn release_after_run(status: u16) -> (r: bool)
    ensures
        r == (500 <= status && status <= 599),
{
    500 <= status && status <= 599
}

/// What to do with a response that ran under a fresh claim.
pub enum StorePlan {
    /// It could not be buffered: release the claim, answer 500.
    BufferFailed,
    /// It is larger than the replay limit: release the claim, answer it
    /// unrecorded (`idempotency-stored: none`).
    Oversized,
    /// Record it for replay, then answer it.
    Store,
}

/// Decides from the buffered length (`None` when buffering failed).
pub fn store_plan(buffered_len: Option<usize>) -> (p: StorePlan)
    ensures
        buffered_len is None ==> p is BufferFailed,
        buffered_len matches Some(n) ==> (if n > REPLAY_BODY_LIMIT {
            p is Oversized
        } else {
            p is Store
        }),
{
    match buffered_len {
        None => StorePlan::BufferFailed,
        Some(n) => if n > REPLAY_BODY_LIMIT {
            StorePlan::Oversized
        } else {
            StorePlan::Store
        },
    }
}

/// The content type recorded with a response: its header as text, or
/// `application/octet-stream` when absent or not text.
pub fn stored_content_type(header: Option<&[u8]>) -> (r: String)
    ensures
        r@ == match header {
            Some(b) => match header_text_spec(b@) {
                Some(t) => t,
                None => "application/octet-stream"@,
            },
            None => "application/octet-stream"@,
        },
{
    match header {
        Some(b) => match header_text(b) {
            Some(t) => t,
            None => String::from_str("application/octet-stream"),
        },
        None => String::from_str("application/octet-stream"),
    }
}

} // verus!
