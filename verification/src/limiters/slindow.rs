//! The sliding-window rate limiter. Each check is one atomic script call in
//! Redis, made by the caller; this module names the window, the member that
//! the call adds, and what the script's answer decides.
use vstd::prelude::*;

use crate::config::limiters::{
    IpAddr, ProxyErrorKind, SlindowConfig, TrustedNet, entry_spec, parse_trusted_proxies,
};
use crate::deduper::redis::div_ceil;
use crate::text::{concat_str, dec, u64_to_decimal};

verus! {

/// A lowercase hexadecimal digit.
pub open spec fn is_lower_hex(c: char) -> bool {
    (48 <= c as u32 && c as u32 <= 57) || (97 <= c as u32 && c as u32 <= 102)
}

/// `uuid::Uuid::new_v4().as_simple().to_string()`: a random version-4 UUID as
/// 32 lowercase hexadecimal digits, the version digit `4` at position 12.
/// Which digits the random bits give is not stated.
#[verifier::external_body]
fn new_node_id() -> (s: String)
    ensures
        s@.len() == 32,
        forall|i: int| 0 <= i < 32 ==> is_lower_hex(#[trigger] s@[i]),
        s@[12] == '4',
{
    uuid::Uuid::new_v4().as_simple().to_string()
}

/// The trusted networks that a limiter keeps: one per entry when every entry
/// parses, none when some entry is refused.
pub open spec fn trusted_from(nets: Seq<TrustedNet>, entries: Seq<String>, addrs: Seq<Option<IpAddr>>) -> bool {
    if forall|i: int| 0 <= i < entries.len() ==> #[trigger] entry_spec(entries[i]@, addrs[i]) is Ok {
        &&& nets.len() == entries.len()
        &&& forall|i: int| 0 <= i < entries.len() ==> entry_spec(#[trigger] entries[i]@, addrs[i]) == Ok::<(IpAddr, u8), ProxyErrorKind>((nets[i].spec_addr(), nets[i].spec_prefix_len()))
    } else {
        nets.len() == 0
    }
}

/// What a rate-limit check decided.
#[derive(Clone, Copy)]
pub struct SlindowDecision {
    pub allowed: bool,
    pub count: u64,
    pub limit: u64,
    pub retry_after_secs: u64,
}

/// The limiter's settings for the window check.
pub struct SlindowLimiter {
    key_prefix: String,
    limit: u64,
    window_ms: u64,
    node_id: String,
    trusted_proxies: Vec<TrustedNet>,
}

impl SlindowLimiter {
    pub closed spec fn spec_key_prefix(&self) -> Seq<char> {
        self.key_prefix@
    }

    pub closed spec fn spec_limit(&self) -> u64 {
        self.limit
    }

    pub closed spec fn spec_window_ms(&self) -> u64 {
        self.window_ms
    }

    pub closed spec fn spec_node_id(&self) -> Seq<char> {
        self.node_id@
    }

    pub closed spec fn spec_trusted_proxies(&self) -> Seq<TrustedNet> {
        self.trusted_proxies@
    }

    /// The limiter for `cfg`, or `None` when it is disabled. The window is
    /// `window_secs` in milliseconds; the node id is a fresh random UUID in
    /// simple form. `proxy_addrs[i]` is the parsed address text of
    /// `cfg.trusted_proxies[i]`; when the list does not parse it is ignored
    /// and no proxy is trusted.
    pub fn new(cfg: &SlindowConfig, proxy_addrs: &[Option<IpAddr>]) -> (r: Option<Self>)
        requires
            cfg.trusted_proxies.len() == proxy_addrs.len(),
            cfg.window_secs * 1000 <= u64::MAX,
        ensures
            r is Some <==> cfg.enabled,
            r matches Some(l) ==> {
                &&& l.spec_key_prefix() == cfg.key_prefix@
                &&& l.spec_limit() == cfg.requests_per_window
                &&& l.spec_window_ms() == cfg.window_secs * 1000
                &&& l.spec_node_id().len() == 32
                &&& forall|i: int| 0 <= i < 32 ==> is_lower_hex(#[trigger] l.spec_node_id()[i])
                &&& trusted_from(l.spec_trusted_proxies(), cfg.trusted_proxies@, proxy_addrs@)
            },
    {
        if !cfg.enabled {
            return None;
        }
        let trusted_proxies = match parse_trusted_proxies(cfg.trusted_proxies.as_slice(), proxy_addrs) {
            Ok(nets) => nets,
            Err(_) => Vec::new(),
        };
        Some(
            SlindowLimiter {
                key_prefix: cfg.key_prefix.clone(),
                limit: cfg.requests_per_window,
                window_ms: cfg.window_secs * 1000,
                node_id: new_node_id(),
                trusted_proxies,
            },
        )
    }

    /// The trusted proxy networks.
    pub fn trusted_proxies(&self) -> (r: &[TrustedNet])
        ensures
            r@ == self.spec_trusted_proxies(),
    {
        self.trusted_proxies.as_slice()
    }

    /// Requests allowed per window.
    pub fn limit(&self) -> (r: u64)
        ensures
            r == self.spec_limit(),
    {
        self.limit
    }

    /// The window length in milliseconds.
    pub fn window_ms(&self) -> (r: u64)
        ensures
            r == self.spec_window_ms(),
    {
        self.window_ms
    }

    /// The Redis key of a client's window: the prefix, then the client address.
    pub fn key(&self, ip: &str) -> (r: String)
        ensures
            r@ == self.spec_key_prefix() + ip@,
    {
        concat_str(self.key_prefix.as_str(), ip)
    }

    /// The window member a check adds: the node id, `:`, then the check's
    /// sequence number, so members from different nodes and checks never collide.
    pub fn member(&self, seq: u64) -> (r: String)
        ensures
            r@ == self.spec_node_id() + seq![':'] + dec(seq as nat),
    {
        let with_colon = concat_str(self.node_id.as_str(), ":");
        let n = u64_to_decimal(seq);
        proof {
            reveal_strlit(":");
        }
        concat_str(with_colon.as_str(), n.as_str())
    }

    /// The decision when the window cannot be checked: allow.
    pub fn fail_open(&self) -> (d: SlindowDecision)
        ensures
            d.allowed,
            d.count == 0,
            d.limit == self.spec_limit(),
            d.retry_after_secs == 0,
    {
        SlindowDecision { allowed: true, count: 0, limit: self.limit, retry_after_secs: 0 }
    }

    /// The decision for the script's answer `(allowed, count, ttl_ms)`, or for
    /// a failed script call (`None`), which fails open. The request is
    /// allowed when the script answered 1; the count is taken bit for bit as
    /// unsigned; the retry delay is the remaining lifetime rounded up to
    /// whole seconds, negative lifetimes counting as none.
    pub fn check(&self, reply: Option<(i64, i64, i64)>) -> (d: SlindowDecision)
        ensures
            match reply {
                Some((allowed, count, ttl_ms)) => {
                    &&& d.allowed == (allowed == 1)
                    &&& d.count == count as u64
                    &&& d.limit == self.spec_limit()
                    &&& d.retry_after_secs == div_ceil(if ttl_ms > 0 { ttl_ms as nat } else { 0 }, 1000)
                },
                None => {
                    &&& d.allowed
                    &&& d.count == 0
                    &&& d.limit == self.spec_limit()
                    &&& d.retry_after_secs == 0
                },
            },
    {
        match reply {
            Some((allowed, count, ttl_ms)) => {
                let t: u64 = if ttl_ms > 0 {
                    ttl_ms as u64
                } else {
                    0
                };
                let retry: u64 = if t % 1000 == 0 {
                    t / 1000
                } else {
                    t / 1000 + 1
                };
                SlindowDecision {
                    allowed: allowed == 1,
                    count: count as u64,
                    limit: self.limit,
                    retry_after_secs: retry,
                }
            },
            None => self.fail_open(),
        }
    }
}

} // verus!
