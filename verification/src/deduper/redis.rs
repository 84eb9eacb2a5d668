//! The authoritative deduplication layer: an atomic claim in Redis that
//! either takes a fresh lock, finds a request still in flight, or finds a
//! completed response recorded for replay. The Redis round trips themselves
//! are made by the caller; this module decides what they mean.
use vstd::prelude::*;
use base64::{Engine as _, engine::general_purpose::STANDARD as BASE64};

use crate::config::deduper::RedisDeduperConfig;
use crate::text::{concat_str, str_eq};

verus! {

/// A response larger than this is executed but not recorded for replay.
pub const MAX_STORED_BODY_BYTES: usize = 65536;

/// The standard base64 alphabet.
pub open spec fn b64_char(i: nat) -> char {
    if i < 26 {
        (65 + i) as char
    } else if i < 52 {
        (97 + (i - 26)) as char
    } else if i < 62 {
        (48 + (i - 52)) as char
    } else if i == 62 {
        '+'
    } else {
        '/'
    }
}

/// Standard base64 with `=` padding: every 3 bytes become 4 characters.
pub open spec fn b64_encode(s: Seq<u8>) -> Seq<char>
    decreases s.len(),
{
    if s.len() == 0 {
        Seq::empty()
    } else if s.len() == 1 {
        seq![b64_char((s[0] / 4) as nat), b64_char(((s[0] % 4) * 16) as nat), '=', '=']
    } else if s.len() == 2 {
        seq![
            b64_char((s[0] / 4) as nat),
            b64_char(((s[0] % 4) * 16 + s[1] / 16) as nat),
            b64_char(((s[1] % 16) * 4) as nat),
            '=',
        ]
    } else {
        seq![
            b64_char((s[0] / 4) as nat),
            b64_char(((s[0] % 4) * 16 + s[1] / 16) as nat),
            b64_char(((s[1] % 16) * 4 + s[2] / 64) as nat),
            b64_char((s[2] % 64) as nat),
        ] + b64_encode(s.subrange(3, s.len() as int))
    }
}

/// What decoding a text gives: the byte string whose encoding it is, if any.
pub open spec fn b64_decode_spec(t: Seq<char>) -> Option<Seq<u8>> {
    if exists|v: Seq<u8>| b64_encode(v) == t {
        Some(choose|v: Seq<u8>| b64_encode(v) == t)
    } else {
        None
    }
}

/// `STANDARD.encode`: standard-alphabet base64 with padding.
#[verifier::external_body]
fn base64_encode(bytes: &[u8]) -> (s: String)
    ensures
        s@ == b64_encode(bytes@),
{
    BASE64.encode(bytes)
}

/// `STANDARD.decode`: this engine requires canonical padding and rejects
/// non-zero trailing bits, so it accepts exactly the texts that `encode`
/// produces, and gives back the bytes they encode.
#[verifier::external_body]
fn base64_decode(text: &str) -> (r: Option<Vec<u8>>)
    ensures
        r matches Some(v) ==> b64_encode(v@) == text@,
        r is None ==> forall|v: Seq<u8>| b64_encode(v) != text@,
{
    BASE64.decode(text).ok()
}

proof fn lemma_b64_char_injective(i: nat, j: nat)
    requires
        i < 64,
        j < 64,
        b64_char(i) == b64_char(j),
    ensures
        i == j,
{
}

proof fn lemma_b64_char_not_pad(i: nat)
    requires
        i < 64,
    ensures
        b64_char(i) != '=',
{
}

proof fn lemma_b64_len(s: Seq<u8>)
    ensures
        b64_encode(s).len() == (if s.len() % 3 == 0 {
            s.len() / 3 * 4
        } else {
            s.len() / 3 * 4 + 4
        }),
    decreases s.len(),
{
    if s.len() >= 3 {
        lemma_b64_len(s.subrange(3, s.len() as int));
    }
}

proof fn lemma_bytes3(a0: u8, a1: u8, a2: u8, b0: u8, b1: u8, b2: u8)
    requires
        a0 / 4 == b0 / 4,
        (a0 % 4) * 16 + a1 / 16 == (b0 % 4) * 16 + b1 / 16,
        (a1 % 16) * 4 + a2 / 64 == (b1 % 16) * 4 + b2 / 64,
        a2 % 64 == b2 % 64,
    ensures
        a0 == b0,
        a1 == b1,
        a2 == b2,
{
    assert(a0 == b0 && a1 == b1 && a2 == b2) by (bit_vector)
        requires
            a0 / 4 == b0 / 4,
            (a0 % 4) * 16 + a1 / 16 == (b0 % 4) * 16 + b1 / 16,
            (a1 % 16) * 4 + a2 / 64 == (b1 % 16) * 4 + b2 / 64,
            a2 % 64 == b2 % 64,
    ;
}

/// Different byte strings have different base64 texts.
pub proof fn lemma_b64_injective(a: Seq<u8>, b: Seq<u8>)
    requires
        b64_encode(a) == b64_encode(b),
    ensures
        a == b,
    decreases a.len(),
{
    let ea = b64_encode(a);
    let eb = b64_encode(b);
    lemma_b64_len(a);
    lemma_b64_len(b);
    if a.len() == 0 || b.len() == 0 {
        assert(a.len() == 0 && b.len() == 0);
        assert(a =~= b);
    } else {
        assert(ea[0] == eb[0]);
        assert(ea[1] == eb[1]);
        assert(ea[2] == eb[2]);
        assert(ea[3] == eb[3]);
        let a0 = a[0];
        let b0 = b[0];
        lemma_b64_char_injective((a0 / 4) as nat, (b0 / 4) as nat);
        if a.len() == 1 || b.len() == 1 || a.len() == 2 || b.len() == 2 {
            // the padding characters tell the lengths apart
            if a.len() >= 3 {
                lemma_b64_char_not_pad((a[2] % 64) as nat);
            }
            if b.len() >= 3 {
                lemma_b64_char_not_pad((b[2] % 64) as nat);
            }
            if a.len() == 2 {
                lemma_b64_char_not_pad(((a[1] % 16) * 4) as nat);
            }
            if b.len() == 2 {
                lemma_b64_char_not_pad(((b[1] % 16) * 4) as nat);
            }
            assert(a.len() == b.len());
            if a.len() == 1 {
                lemma_b64_char_injective(((a0 % 4) * 16) as nat, ((b0 % 4) * 16) as nat);
                lemma_bytes3(a0, 0, 0, b0, 0, 0);
                assert(a =~= b);
            } else {
                lemma_b64_char_injective(
                    ((a0 % 4) * 16 + a[1] / 16) as nat,
                    ((b0 % 4) * 16 + b[1] / 16) as nat,
                );
                lemma_b64_char_injective(((a[1] % 16) * 4) as nat, ((b[1] % 16) * 4) as nat);
                lemma_bytes3(a0, a[1], 0, b0, b[1], 0);
                assert(a =~= b);
            }
        } else {
            lemma_b64_char_injective(
                ((a0 % 4) * 16 + a[1] / 16) as nat,
                ((b0 % 4) * 16 + b[1] / 16) as nat,
            );
            lemma_b64_char_injective(
                ((a[1] % 16) * 4 + a[2] / 64) as nat,
                ((b[1] % 16) * 4 + b[2] / 64) as nat,
            );
            lemma_b64_char_injective((a[2] % 64) as nat, (b[2] % 64) as nat);
            lemma_bytes3(a0, a[1], a[2], b0, b[1], b[2]);
            let ra = a.subrange(3, a.len() as int);
            let rb = b.subrange(3, b.len() as int);
            assert(ea.subrange(4, ea.len() as int) =~= b64_encode(ra));
            assert(eb.subrange(4, eb.len() as int) =~= b64_encode(rb));
            lemma_b64_injective(ra, rb);
            assert(a =~= seq![a[0], a[1], a[2]] + ra);
            assert(b =~= seq![b[0], b[1], b[2]] + rb);
        }
    }
}

/// Decoding the encoding of a byte string gives the byte string back.
pub proof fn lemma_b64_roundtrip(v: Seq<u8>)
    ensures
        b64_decode_spec(b64_encode(v)) == Some(v),
{
    let t = b64_encode(v);
    assert(exists|w: Seq<u8>| b64_encode(w) == t);
    let w = choose|w: Seq<u8>| b64_encode(w) == t;
    lemma_b64_injective(w, v);
}

fn decode_body(text: &str) -> (r: Option<Vec<u8>>)
    ensures
        r matches Some(v) ==> b64_decode_spec(text@) == Some(v@),
        r is None ==> b64_decode_spec(text@) is None,
{
    let r = base64_decode(text);
    proof {
        if r is Some {
            lemma_b64_roundtrip(r->0@);
        }
    }
    r
}


/// A record kept in Redis under a claimed key.
pub enum Stored {
    Inflight,
    Complete { status: u16, content_type: String, req_hash: String, body_b64: Option<String> },
}

pub enum StoredView {
    Inflight,
    Complete {
        status: u16,
        content_type: Seq<char>,
        req_hash: Seq<char>,
        body_b64: Option<Seq<char>>,
    },
}

impl View for Stored {
    type V = StoredView;

    open spec fn view(&self) -> StoredView {
        match self {
            Stored::Inflight => StoredView::Inflight,
            Stored::Complete { status, content_type, req_hash, body_b64 } => StoredView::Complete {
                status: *status,
                content_type: content_type@,
                req_hash: req_hash@,
                body_b64: match body_b64 {
                    Some(b) => Some(b@),
                    None => None,
                },
            },
        }
    }
}

/// The outcome of a claim against Redis.
pub enum RedisClaim {
    /// The lock was free and is now held under `redis_key`.
    Fresh { redis_key: String },
    /// A completed response was recorded under the key.
    Replay { status: u16, body: Option<Vec<u8>>, content_type: String, req_hash: String },
    /// Another request holds the key and has not completed.
    InFlight { retry_after_secs: u64 },
}

pub enum RedisClaimView {
    Fresh { redis_key: Seq<char> },
    Replay { status: u16, body: Option<Seq<u8>>, content_type: Seq<char>, req_hash: Seq<char> },
    InFlight { retry_after_secs: u64 },
}

impl View for RedisClaim {
    type V = RedisClaimView;

    open spec fn view(&self) -> RedisClaimView {
        match self {
            RedisClaim::Fresh { redis_key } => RedisClaimView::Fresh { redis_key: redis_key@ },
            RedisClaim::Replay { status, body, content_type, req_hash } => RedisClaimView::Replay {
                status: *status,
                body: match body {
                    Some(b) => Some(b@),
                    None => None,
                },
                content_type: content_type@,
                req_hash: req_hash@,
            },
            RedisClaim::InFlight { retry_after_secs } => RedisClaimView::InFlight {
                retry_after_secs: *retry_after_secs,
            },
        }
    }
}

pub open spec fn redis_claim_opt_view(c: Option<RedisClaim>) -> Option<RedisClaimView> {
    match c {
        Some(c) => Some(c@),
        None => None,
    }
}

/// What the atomic claim script answered: its tag (`FRESH` when the lock was
/// taken), the record it found under the key, parsed (absent when there was
/// none or it did not parse), and the key's remaining lifetime in milliseconds.
pub struct ClaimReply {
    pub tag: String,
    pub stored: Option<Stored>,
    pub pttl_ms: Option<i64>,
}

pub struct ClaimReplyView {
    pub tag: Seq<char>,
    pub stored: Option<StoredView>,
    pub pttl_ms: Option<i64>,
}

impl View for ClaimReply {
    type V = ClaimReplyView;

    open spec fn view(&self) -> ClaimReplyView {
        ClaimReplyView {
            tag: self.tag@,
            stored: match self.stored {
                Some(s) => Some(s@),
                None => None,
            },
            pttl_ms: self.pttl_ms,
        }
    }
}

/// `x.div_ceil(d)`.
pub open spec fn div_ceil(x: nat, d: nat) -> nat {
    if x % d == 0 {
        x / d
    } else {
        x / d + 1
    }
}

/// Seconds to wait before retrying a key still in flight: its remaining
/// lifetime rounded up to whole seconds, or the in-flight lifetime when Redis
/// reported none; never less than one.
pub open spec fn retry_after_spec(pttl_ms: Option<i64>, inflight_ttl_secs: u64) -> u64 {
    let p: int = match pttl_ms {
        Some(p) => p as int,
        None => -1,
    };
    if p > 0 {
        let c = div_ceil(p as nat, 1000);
        if c >= 1 {
            c as u64
        } else {
            1
        }
    } else if inflight_ttl_secs >= 1 {
        inflight_ttl_secs
    } else {
        1
    }
}

/// What a claim answers, given the script's reply (`None` when the script
/// could not be run; the layer then fails open).
pub open spec fn claim_outcome_spec(
    redis_key: Seq<char>,
    reply: Option<ClaimReplyView>,
    inflight_ttl_secs: u64,
) -> Option<RedisClaimView> {
    match reply {
        None => None,
        Some(rep) => if rep.tag == "FRESH"@ {
            Some(RedisClaimView::Fresh { redis_key })
        } else {
            match rep.stored {
                Some(StoredView::Complete { status, content_type, req_hash, body_b64 }) => Some(
                    RedisClaimView::Replay {
                        status,
                        body: match body_b64 {
                            Some(t) => b64_decode_spec(t),
                            None => None,
                        },
                        content_type,
                        req_hash,
                    },
                ),
                Some(StoredView::Inflight) => Some(
                    RedisClaimView::InFlight {
                        retry_after_secs: retry_after_spec(rep.pttl_ms, inflight_ttl_secs),
                    },
                ),
                None => None,
            }
        },
    }
}

/// The record that completing a request stores: its status, content type and
/// request hash, and its body in base64 unless the body is absent or larger
/// than `MAX_STORED_BODY_BYTES`.
pub open spec fn stored_entry_spec(
    status: u16,
    body: Option<Seq<u8>>,
    content_type: Seq<char>,
    req_hash: Seq<char>,
) -> StoredView {
    StoredView::Complete {
        status,
        content_type,
        req_hash,
        body_b64: match body {
            Some(b) => if b.len() <= MAX_STORED_BODY_BYTES {
                Some(b64_encode(b))
            } else {
                None
            },
            None => None,
        },
    }
}

/// The Redis layer of the deduper: where claims live and for how long.
pub struct RedisDeduper {
    key_prefix: String,
    ttl_secs: u64,
    inflight_ttl_secs: u64,
}

impl RedisDeduper {
    pub closed spec fn spec_key_prefix(&self) -> Seq<char> {
        self.key_prefix@
    }

    pub closed spec fn spec_ttl_secs(&self) -> u64 {
        self.ttl_secs
    }

    pub closed spec fn spec_inflight_ttl_secs(&self) -> u64 {
        self.inflight_ttl_secs
    }

    /// The layer has the settings of `cfg`: its key prefix and record
    /// lifetime, and an in-flight lifetime clamped between one second and the
    /// record lifetime (itself taken as at least one second).
    pub open spec fn configured_by(&self, cfg: &RedisDeduperConfig) -> bool {
        let upper: u64 = if cfg.ttl_secs >= 1 {
            cfg.ttl_secs
        } else {
            1
        };
        &&& self.spec_key_prefix() == cfg.key_prefix@
        &&& self.spec_ttl_secs() == cfg.ttl_secs
        &&& self.spec_inflight_ttl_secs() == (if cfg.inflight_ttl_secs < 1 {
            1
        } else if cfg.inflight_ttl_secs > upper {
            upper
        } else {
            cfg.inflight_ttl_secs
        })
    }

    /// The layer for `cfg`, or `None` when it is disabled. An in-flight lock
    /// lives between one second and the record lifetime (itself at least one second).
    pub fn new(cfg: &RedisDeduperConfig) -> (r: Option<Self>)
        ensures
            r is Some <==> cfg.enabled,
            r matches Some(d) ==> d.configured_by(cfg),
    {
        if !cfg.enabled {
            return None;
        }
        let upper: u64 = if cfg.ttl_secs >= 1 {
            cfg.ttl_secs
        } else {
            1
        };
        let inflight: u64 = if cfg.inflight_ttl_secs < 1 {
            1
        } else if cfg.inflight_ttl_secs > upper {
            upper
        } else {
            cfg.inflight_ttl_secs
        };
        Some(
            RedisDeduper {
                key_prefix: cfg.key_prefix.clone(),
                ttl_secs: cfg.ttl_secs,
                inflight_ttl_secs: inflight,
            },
        )
    }

    /// Lifetime of a completed record, in seconds.
    pub fn ttl_secs(&self) -> (r: u64)
        ensures
            r == self.spec_ttl_secs(),
    {
        self.ttl_secs
    }

    /// Lifetime of an in-flight lock, in seconds.
    pub fn inflight_ttl_secs(&self) -> (r: u64)
        ensures
            r == self.spec_inflight_ttl_secs(),
    {
        self.inflight_ttl_secs
    }

    /// The Redis key under which a scoped key is claimed: the prefix, then the key.
    pub fn redis_key(&self, scoped_key: &str) -> (r: String)
        ensures
            r@ == self.spec_key_prefix() + scoped_key@,
    {
        concat_str(self.key_prefix.as_str(), scoped_key)
    }

    fn retry_after(&self, pttl_ms: Option<i64>) -> (r: u64)
        ensures
            r == retry_after_spec(pttl_ms, self.spec_inflight_ttl_secs()),
    {
        let p: i64 = match pttl_ms {
            Some(p) => p,
            None => -1,
        };
        if p > 0 {
            let x = p as u64;
            let c: u64 = if x % 1000 == 0 {
                x / 1000
            } else {
                x / 1000 + 1
            };
            if c >= 1 {
                c
            } else {
                1
            }
        } else if self.inflight_ttl_secs >= 1 {
            self.inflight_ttl_secs
        } else {
            1
        }
    }

    /// Interprets the claim script's reply for `redis_key`: a `FRESH` tag
    /// means the lock is now held; otherwise a completed record is replayed
    /// (its body decoded from base64), an in-flight record asks the caller to
    /// retry later, and a missing or unparsable record, like a failed script
    /// call, gives `None` so the caller fails open.
    pub fn claim(&self, redis_key: String, reply: Option<ClaimReply>) -> (r: Option<
        RedisClaim,
    >)
        ensures
            redis_claim_opt_view(r) == claim_outcome_spec(
                redis_key@,
                match reply {
                    Some(rep) => Some(rep@),
                    None => None,
                },
                self.spec_inflight_ttl_secs(),
            ),
    {
        let rep = match reply {
            Some(rep) => rep,
            None => {
                return None;
            },
        };
        if str_eq(rep.tag.as_str(), "FRESH") {
            return Some(RedisClaim::Fresh { redis_key });
        }
        match rep.stored {
            Some(Stored::Complete { status, content_type, req_hash, body_b64 }) => {
                let body = match body_b64 {
                    Some(t) => decode_body(t.as_str()),
                    None => None,
                };
                Some(RedisClaim::Replay { status, body, content_type, req_hash })
            },
            Some(Stored::Inflight) => {
                let retry_after_secs = self.retry_after(rep.pttl_ms);
                Some(RedisClaim::InFlight { retry_after_secs })
            },
            None => None,
        }
    }

    /// The record to store when a request completes.
    pub fn complete(&self, status: u16, body: Option<&[u8]>, content_type: &str, req_hash: &str) -> (r:
        Stored)
        ensures
            r@ == stored_entry_spec(
                status,
                match body {
                    Some(b) => Some(b@),
                    None => None,
                },
                content_type@,
                req_hash@,
            ),
    {
        let body_b64 = match body {
            Some(b) => if b.len() <= MAX_STORED_BODY_BYTES {
                Some(base64_encode(b))
            } else {
                None
            },
            None => None,
        };
        Stored::Complete {
            status,
            content_type: String::from_str(content_type),
            req_hash: String::from_str(req_hash),
            body_b64,
        }
    }
}

/// A completed response is replayed as it was recorded: status, content type
/// and request hash unchanged, and the body byte for byte, unless the body
/// was larger than `MAX_STORED_BODY_BYTES` (then no body is replayed).
pub proof fn lemma_replay_returns_stored(
    redis_key: Seq<char>,
    tag: Seq<char>,
    pttl_ms: Option<i64>,
    inflight_ttl_secs: u64,
    status: u16,
    body: Option<Seq<u8>>,
    content_type: Seq<char>,
    req_hash: Seq<char>,
)
    requires
        tag != "FRESH"@,
    ensures
        claim_outcome_spec(
            redis_key,
            Some(
                ClaimReplyView {
                    tag,
                    stored: Some(stored_entry_spec(status, body, content_type, req_hash)),
                    pttl_ms,
                },
            ),
            inflight_ttl_secs,
        ) == Some(
            RedisClaimView::Replay {
                status,
                body: match body {
                    Some(b) => if b.len() <= MAX_STORED_BODY_BYTES {
                        Some(b)
                    } else {
                        None
                    },
                    None => None,
                },
                content_type,
                req_hash,
            },
        ),
{
    if let Some(b) = body {
        lemma_b64_roundtrip(b);
    }
}

/// A key found in flight is always retried after at least one second.
pub proof fn lemma_retry_after_positive(pttl_ms: Option<i64>, inflight_ttl_secs: u64)
    ensures
        retry_after_spec(pttl_ms, inflight_ttl_secs) >= 1,
{
}

} // verus!
