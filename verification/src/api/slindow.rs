//! The plan that the rate-limit middleware follows for a request.
use vstd::prelude::*;

use super::deduper::{header_text, header_text_spec, opt_text};
use crate::limiters::SlindowDecision;
use crate::text::{before_first, before_first_spec, starts_with, starts_with_spec, trim, trim_spec};

verus! {

/// The client address of a request: the first entry of `x-forwarded-for`,
/// trimmed, when the header is text and that entry is not blank; otherwise
/// the peer address of the connection.
pub open spec fn client_ip_spec(xff: Option<Seq<u8>>, peer: Option<Seq<char>>) -> Option<Seq<char>> {
    match xff {
        Some(b) => match header_text_spec(b) {
            Some(t) => if trim_spec(before_first_spec(t, ',')).len() > 0 {
                Some(trim_spec(before_first_spec(t, ',')))
            } else {
                peer
            },
            None => peer,
        },
        None => peer,
    }
}

/// The client address, from the raw `x-forwarded-for` value and the peer
/// address as text.
pub fn client_ip(xff: Option<&[u8]>, peer: Option<String>) -> (r: Option<String>)
    ensures
        opt_text(r) == client_ip_spec(
            match xff {
                Some(b) => Some(b@),
                None => None,
            },
            opt_text(peer),
        ),
        xff is None ==> opt_text(r) == opt_text(peer),
{
    match xff {
        Some(b) => match header_text(b) {
            Some(t) => {
                let first = before_first(t.as_str(), ',');
                let ip = trim(first.as_str());
                if ip.as_str().unicode_len() > 0 {
                    Some(ip)
                } else {
                    peer
                }
            },
            None => peer,
        },
        None => peer,
    }
}

/// Where the client address comes from: a request without
/// `x-forwarded-for`, or with one that is not text, is limited under its peer
/// address (none when the connection has none); otherwise a non-blank first
/// entry of the header names the client whatever the peer is, and a blank one
/// falls back to the peer.
pub proof fn lemma_client_ip_source(xff: Option<Seq<u8>>, peer: Option<Seq<char>>)
    ensures
        match xff {
            None => client_ip_spec(xff, peer) == peer,
            Some(b) => match header_text_spec(b) {
                None => client_ip_spec(xff, peer) == peer,
                Some(t) => if trim_spec(before_first_spec(t, ',')).len() > 0 {
                    client_ip_spec(xff, peer) == Some(trim_spec(before_first_spec(t, ',')))
                } else {
                    client_ip_spec(xff, peer) == peer
                },
            },
        },
        client_ip_spec(xff, peer) is None ==> peer is None,
{
}

/// Only the record API under `/v1/` is rate limited.
pub fn is_limited_path(path: &str) -> (r: bool)
    ensures
        r == starts_with_spec(path@, "/v1/"@),
{
    starts_with(path, "/v1/")
}

/// What the rate-limit middleware does with a request.
pub enum LimitPlan {
    /// Run it unchecked.
    Pass,
    /// Check the window of this client address first.
    Check { ip: String },
}

/// Requests outside `/v1/`, with no limiter configured, or from an unknown
/// address run unchecked.
pub fn plan_limit(path: &str, has_limiter: bool, ip: Option<String>) -> (p: LimitPlan)
    ensures
        (!starts_with_spec(path@, "/v1/"@) || !has_limiter || ip is None) ==> p is Pass,
        (starts_with_spec(path@, "/v1/"@) && has_limiter && ip is Some) ==> (p matches LimitPlan::Check { ip: i } && i@ == ip->0@),
{
    if !is_limited_path(path) || !has_limiter {
        return LimitPlan::Pass;
    }
    match ip {
        Some(i) => LimitPlan::Check { ip: i },
        None => LimitPlan::Pass,
    }
}

/// How the middleware answers after the check.
pub enum LimitAnswer {
    /// Run the request and add `x-ratelimit-limit` and `x-ratelimit-remaining`.
    Forward { limit: u64, remaining: u64 },
    /// Answer 429 with `retry-after`, the limit, and nothing remaining.
    Reject { retry_after_secs: u64, limit: u64 },
}

/// An allowed request reports how many requests remain in its window (never
/// below zero); a refused one reports when to retry.
pub fn answer(d: SlindowDecision) -> (a: LimitAnswer)
    ensures
        d.allowed ==> a == (LimitAnswer::Forward {
            limit: d.limit,
            remaining: if d.count < d.limit {
                (d.limit - d.count) as u64
            } else {
                0
            },
        }),
        !d.allowed ==> a == (LimitAnswer::Reject { retry_after_secs: d.retry_after_secs, limit: d.limit }),
{
    if d.allowed {
        let remaining = if d.count < d.limit {
            d.limit - d.count
        } else {
            0
        };
        LimitAnswer::Forward { limit: d.limit, remaining }
    } else {
        LimitAnswer::Reject { retry_after_secs: d.retry_after_secs, limit: d.limit }
    }
}

} // verus!
