//! Idempotency-key deduplication: a key scoped to a request is claimed before
//! the request runs, and the response is recorded for replay afterwards.
pub mod bloom;
pub mod redis;

use vstd::prelude::*;
use vstd::string::*;
use vstd::utf8::*;
use sha2::{Digest, Sha256};

pub use bloom::BloomDeduper;
pub use redis::{RedisClaim, RedisDeduper};

use crate::config::deduper::DeduperConfig;
use crate::text::{string_from_chars, chars_of};
use self::bloom::rotate_view;
use self::redis::{RedisClaimView, redis_claim_opt_view};

verus! {

/// The SHA-256 digest of a byte string.
pub uninterp spec fn sha256(data: Seq<u8>) -> Seq<u8>;

/// `Sha256::digest`: the SHA-256 digest of `data`, 32 bytes long.
#[verifier::external_body]
fn sha256_digest(data: &[u8]) -> (r: Vec<u8>)
    ensures
        r@ == sha256(data@),
        r@.len() == 32,
{
    Sha256::digest(data).to_vec()
}

/// The `k` low-order bytes of `n`, least significant first.
pub open spec fn le_bytes(n: nat, k: nat) -> Seq<u8>
    decreases k,
{
    if k == 0 {
        Seq::empty()
    } else {
        seq![(n % 256) as u8] + le_bytes(n / 256, (k - 1) as nat)
    }
}

/// One field of a key tuple as it enters the hash: its byte length as a
/// little-endian `u64`, then its bytes.
pub open spec fn frame(p: Seq<u8>) -> Seq<u8> {
    le_bytes(p.len(), 8) + p
}

/// The length-prefixed encoding of a tuple of fields.
pub open spec fn framed(parts: Seq<Seq<u8>>) -> Seq<u8> {
    parts.map_values(|p: Seq<u8>| frame(p)).flatten()
}

/// The lowercase hexadecimal digit of `d` (below 16).
pub open spec fn hex_digit(d: nat) -> char {
    if d < 10 {
        (48 + d) as char
    } else {
        (87 + d) as char
    }
}

/// Lowercase hexadecimal text of a byte string, two digits per byte.
pub open spec fn hex_lower(s: Seq<u8>) -> Seq<char>
    decreases s.len(),
{
    if s.len() == 0 {
        Seq::empty()
    } else {
        hex_lower(s.drop_last()) + seq![
            hex_digit((s.last() / 16) as nat),
            hex_digit((s.last() % 16) as nat),
        ]
    }
}

/// A lowercase hexadecimal digit: `0`-`9` or `a`-`f`.
pub open spec fn is_lower_hex_char(c: char) -> bool {
    ('0' <= c && c <= '9') || ('a' <= c && c <= 'f')
}

/// Text made of lowercase hexadecimal digits only.
pub open spec fn is_lower_hex(s: Seq<char>) -> bool {
    forall|i: int| 0 <= i < s.len() ==> is_lower_hex_char(#[trigger] s[i])
}

/// Hex text has two lowercase digits per byte.
pub proof fn lemma_hex_lower_shape(s: Seq<u8>)
    ensures
        hex_lower(s).len() == 2 * s.len(),
        is_lower_hex(hex_lower(s)),
    decreases s.len(),
{
    if s.len() > 0 {
        lemma_hex_lower_shape(s.drop_last());
        let hi = (s.last() / 16) as nat;
        let lo = (s.last() % 16) as nat;
        assert(is_lower_hex_char(hex_digit(hi)));
        assert(is_lower_hex_char(hex_digit(lo)));
        let h = hex_lower(s);
        let p = hex_lower(s.drop_last());
        assert forall|i: int| 0 <= i < h.len() implies is_lower_hex_char(#[trigger] h[i]) by {
            if i < p.len() {
                assert(h[i] == p[i]);
            }
        }
    }
}

/// The bytes of each field of a key tuple.
pub open spec fn parts_bytes(parts: Seq<&str>) -> Seq<Seq<u8>> {
    parts.map_values(|p: &str| p.spec_bytes())
}

/// The key that `hash_key` derives from a tuple of fields.
pub open spec fn hash_key_spec(parts: Seq<Seq<u8>>) -> Seq<char> {
    hex_lower(sha256(framed(parts)))
}

fn push_le_u64(v: &mut Vec<u8>, n: u64)
    ensures
        final(v)@ == old(v)@ + le_bytes(n as nat, 8),
{
    let mut m: u64 = n;
    let mut i: usize = 0;
    while i < 8
        invariant
            i <= 8,
            old(v)@ + le_bytes(n as nat, 8) == v@ + le_bytes(m as nat, (8 - i) as nat),
        decreases 8 - i,
    {
        let ghost before = v@;
        v.push((m % 256) as u8);
        assert(le_bytes(m as nat, (8 - i) as nat) == seq![(m % 256) as u8] + le_bytes(
            (m / 256) as nat,
            (8 - i - 1) as nat,
        ));
        assert(before + le_bytes(m as nat, (8 - i) as nat) =~= v@ + le_bytes(
            (m / 256) as nat,
            (8 - i - 1) as nat,
        ));
        m = m / 256;
        i = i + 1;
    }
    assert(v@ + le_bytes(m as nat, 0) =~= v@);
}

fn push_hex(v: &mut Vec<char>, b: u8)
    ensures
        final(v)@ == old(v)@ + seq![hex_digit((b / 16) as nat), hex_digit((b % 16) as nat)],
{
    let hi = b / 16;
    let lo = b % 16;
    v.push(if hi < 10 {
        (48 + hi) as char
    } else {
        (87 + hi) as char
    });
    v.push(if lo < 10 {
        (48 + lo) as char
    } else {
        (87 + lo) as char
    });
}

/// Lowercase hexadecimal text of `bytes`, as `{:x}` prints a digest.
pub fn to_hex_lower(bytes: &[u8]) -> (s: String)
    ensures
        s@ == hex_lower(bytes@),
{
    let mut v: Vec<char> = Vec::new();
    let mut i: usize = 0;
    while i < bytes.len()
        invariant
            i <= bytes@.len(),
            v@ == hex_lower(bytes@.take(i as int)),
        decreases bytes@.len() - i,
    {
        push_hex(&mut v, bytes[i]);
        assert(bytes@.take(i + 1).drop_last() =~= bytes@.take(i as int));
        i = i + 1;
    }
    assert(bytes@.take(bytes@.len() as int) =~= bytes@);
    string_from_chars(v.as_slice())
}

/// Computes a deterministic SHA-256 hash of a tuple of string fields, as
/// lowercase hex. Each field enters the hash prefixed by its byte length
/// (little-endian `u64`), so no two different tuples hash the same text.
pub fn hash_key(parts: &[&str]) -> (r: String)
    ensures
        r@ == hash_key_spec(parts_bytes(parts@)),
        r@.len() == 64,
        is_lower_hex(r@),
{
    let mut msg: Vec<u8> = Vec::new();
    let mut i: usize = 0;
    while i < parts.len()
        invariant
            i <= parts@.len(),
            msg@ == framed(parts_bytes(parts@.take(i as int))),
        decreases parts@.len() - i,
    {
        let p: &str = parts[i];
        let bytes = p.as_bytes();
        push_le_u64(&mut msg, p.len() as u64);
        let mut j: usize = 0;
        let ghost base = msg@;
        while j < bytes.len()
            invariant
                j <= bytes@.len(),
                msg@ == base + bytes@.take(j as int),
            decreases bytes@.len() - j,
        {
            msg.push(bytes[j]);
            assert(bytes@.take(j + 1) =~= bytes@.take(j as int).push(bytes@[j as int]));
            j = j + 1;
        }
        proof {
            assert(bytes@.take(bytes@.len() as int) =~= bytes@);
            let prev = parts_bytes(parts@.take(i as int));
            let next = parts_bytes(parts@.take(i + 1));
            assert(next =~= prev.push(p.spec_bytes()));
            let fm = |q: Seq<u8>| frame(q);
            assert(next.map_values(fm) =~= prev.map_values(fm).push(frame(p.spec_bytes())));
            prev.map_values(fm).lemma_flatten_push(frame(p.spec_bytes()));
            assert(msg@ =~= framed(next));
        }
        i = i + 1;
    }
    assert(parts@.take(parts@.len() as int) =~= parts@);
    let digest = sha256_digest(msg.as_slice());
    proof {
        lemma_hex_lower_shape(digest@);
    }
    to_hex_lower(digest.as_slice())
}

/// SHA-256 of `bytes` as lowercase hex.
pub fn sha256_hex(bytes: &[u8]) -> (r: String)
    ensures
        r@ == hex_lower(sha256(bytes@)),
        r@.len() == 64,
        is_lower_hex(r@),
{
    let digest = sha256_digest(bytes);
    proof {
        lemma_hex_lower_shape(digest@);
    }
    to_hex_lower(digest.as_slice())
}


/// `256^k`: one more than the largest number that `k` bytes hold.
pub open spec fn byte_bound(k: nat) -> nat
    decreases k,
{
    if k == 0 {
        1
    } else {
        256 * byte_bound((k - 1) as nat)
    }
}

proof fn lemma_le_bytes_len(n: nat, k: nat)
    ensures
        le_bytes(n, k).len() == k,
    decreases k,
{
    if k > 0 {
        lemma_le_bytes_len(n / 256, (k - 1) as nat);
    }
}

proof fn lemma_le_bytes_injective(n: nat, m: nat, k: nat)
    requires
        n < byte_bound(k),
        m < byte_bound(k),
        le_bytes(n, k) == le_bytes(m, k),
    ensures
        n == m,
    decreases k,
{
    if k > 0 {
        let ln = le_bytes(n, k);
        let lm = le_bytes(m, k);
        assert(ln[0] == lm[0]);
        assert(n % 256 == m % 256);
        assert(ln.subrange(1, ln.len() as int) =~= le_bytes(n / 256, (k - 1) as nat));
        assert(lm.subrange(1, lm.len() as int) =~= le_bytes(m / 256, (k - 1) as nat));
        assert(n / 256 < byte_bound((k - 1) as nat)) by (nonlinear_arith)
            requires
                n < 256 * byte_bound((k - 1) as nat),
        ;
        assert(m / 256 < byte_bound((k - 1) as nat)) by (nonlinear_arith)
            requires
                m < 256 * byte_bound((k - 1) as nat),
        ;
        lemma_le_bytes_injective(n / 256, m / 256, (k - 1) as nat);
        assert(n == 256 * (n / 256) + n % 256) by (nonlinear_arith);
        assert(m == 256 * (m / 256) + m % 256) by (nonlinear_arith);
    } else {
    }
}

proof fn lemma_framed_unfold(a: Seq<Seq<u8>>)
    requires
        a.len() > 0,
    ensures
        framed(a) == frame(a[0]) + framed(a.drop_first()),
{
    let fm = |p: Seq<u8>| frame(p);
    assert(a.map_values(fm).drop_first() =~= a.drop_first().map_values(fm));
}

/// The length-prefixed encoding never merges two different tuples: equal
/// encodings come from equal tuples (of fields shorter than 2^64 bytes, which
/// every in-memory string is).
pub proof fn lemma_framed_injective(a: Seq<Seq<u8>>, b: Seq<Seq<u8>>)
    requires
        forall|i: int| 0 <= i < a.len() ==> (#[trigger] a[i]).len() < byte_bound(8),
        forall|i: int| 0 <= i < b.len() ==> (#[trigger] b[i]).len() < byte_bound(8),
        framed(a) == framed(b),
    ensures
        a == b,
    decreases a.len(),
{
    if a.len() == 0 {
        if b.len() > 0 {
            lemma_framed_unfold(b);
            lemma_le_bytes_len(b[0].len(), 8);
        }
        assert(a =~= b);
    } else if b.len() == 0 {
        lemma_framed_unfold(a);
        lemma_le_bytes_len(a[0].len(), 8);
    } else {
        lemma_framed_unfold(a);
        lemma_framed_unfold(b);
        lemma_le_bytes_len(a[0].len(), 8);
        lemma_le_bytes_len(b[0].len(), 8);
        let fa = framed(a);
        let fb = framed(b);
        assert(fa.subrange(0, 8) =~= le_bytes(a[0].len(), 8));
        assert(fb.subrange(0, 8) =~= le_bytes(b[0].len(), 8));
        lemma_le_bytes_injective(a[0].len(), b[0].len(), 8);
        let l = a[0].len() as int;
        assert(fa.subrange(8, 8 + l) =~= a[0]);
        assert(fb.subrange(8, 8 + l) =~= b[0]);
        assert(fa.subrange(8 + l, fa.len() as int) =~= framed(a.drop_first()));
        assert(fb.subrange(8 + l, fb.len() as int) =~= framed(b.drop_first()));
        assert forall|i: int| 0 <= i < a.drop_first().len() implies (#[trigger] a.drop_first()[i]).len() < byte_bound(8) by {
            assert(a.drop_first()[i] == a[i + 1]);
        }
        assert forall|i: int| 0 <= i < b.drop_first().len() implies (#[trigger] b.drop_first()[i]).len() < byte_bound(8) by {
            assert(b.drop_first()[i] == b[i + 1]);
        }
        lemma_framed_injective(a.drop_first(), b.drop_first());
        assert(a =~= seq![a[0]] + a.drop_first());
        assert(b =~= seq![b[0]] + b.drop_first());
    }
}


/// Whether an idempotency key is acceptable: 1 to 255 bytes, each a visible
/// ASCII character (`!` through `~`).
pub open spec fn valid_key_spec(b: Seq<u8>) -> bool {
    &&& b.len() > 0
    &&& b.len() <= 255
    &&& forall|i: int| 0 <= i < b.len() ==> 0x21 <= #[trigger] b[i] && b[i] <= 0x7e
}

/// What `HeaderName::from_str` maps a byte to: a header-name token character,
/// upper-case letters lowered, or nothing for a byte no header name may hold.
pub open spec fn header_char(b: u8) -> Option<char> {
    if b == 33 || (35 <= b && b <= 39) || b == 42 || b == 43 || b == 45 || b == 46 || (48 <= b
        && b <= 57) || (94 <= b && b <= 96) || (97 <= b && b <= 122) || b == 124 || b == 126 {
        Some(b as char)
    } else if 65 <= b && b <= 90 {
        Some((b + 32) as char)
    } else {
        None
    }
}

/// What `HeaderName::from_str` accepts and gives: 1 to 65535 token bytes,
/// lowered.
pub open spec fn header_name_spec(b: Seq<u8>) -> Option<Seq<char>> {
    if 1 <= b.len() && b.len() <= 65535 && forall|i: int| 0 <= i < b.len() ==> #[trigger] header_char(b[i]) is Some {
        Some(Seq::new(b.len(), |i: int| header_char(b[i])->0))
    } else {
        None
    }
}

/// `HeaderName::from_str`, as its byte table defines it: the lowered header
/// name, or `None` when the text is not a valid header name.
pub fn parse_header_name(s: &str) -> (r: Option<String>)
    ensures
        match r {
            Some(n) => header_name_spec(s.spec_bytes()) == Some(n@),
            None => header_name_spec(s.spec_bytes()) is None,
        },
{
    let b = s.as_bytes();
    if b.len() < 1 || b.len() > 65535 {
        return None;
    }
    let mut v: Vec<char> = Vec::new();
    let mut i: usize = 0;
    while i < b.len()
        invariant
            b@ == s.spec_bytes(),
            i <= b@.len(),
            v@.len() == i,
            forall|j: int| 0 <= j < i ==> #[trigger] header_char(b@[j]) is Some && v@[j] == header_char(b@[j])->0,
        decreases b@.len() - i,
    {
        let c = b[i];
        if c == 33 || (35 <= c && c <= 39) || c == 42 || c == 43 || c == 45 || c == 46 || (48 <= c
            && c <= 57) || (94 <= c && c <= 96) || (97 <= c && c <= 122) || c == 124 || c == 126 {
            v.push(c as char);
        } else if 65 <= c && c <= 90 {
            v.push((c + 32) as char);
        } else {
            assert(header_char(b@[i as int]) is None);
            return None;
        }
        i = i + 1;
    }
    let n = string_from_chars(v.as_slice());
    assert(n@ =~= Seq::new(b@.len(), |i: int| header_char(b@[i])->0));
    Some(n)
}

/// The outcome of claiming an idempotency key.
pub enum Claim {
    /// Nobody holds the key: run the request, then complete or release it.
    Fresh { redis_key: Option<String>, bloom_key: Option<String> },
    /// The request already completed: send its recorded response again.
    Replay { status: u16, body: Option<Vec<u8>>, content_type: String, req_hash: String },
    /// The request is still running elsewhere: retry after this many seconds.
    InFlight { retry_after_secs: u64 },
}

pub enum ClaimView {
    Fresh { redis_key: Option<Seq<char>>, bloom_key: Option<Seq<char>> },
    Replay { status: u16, body: Option<Seq<u8>>, content_type: Seq<char>, req_hash: Seq<char> },
    InFlight { retry_after_secs: u64 },
}

pub open spec fn opt_str_view(o: Option<String>) -> Option<Seq<char>> {
    match o {
        Some(s) => Some(s@),
        None => None,
    }
}

impl View for Claim {
    type V = ClaimView;

    open spec fn view(&self) -> ClaimView {
        match self {
            Claim::Fresh { redis_key, bloom_key } => ClaimView::Fresh {
                redis_key: opt_str_view(*redis_key),
                bloom_key: opt_str_view(*bloom_key),
            },
            Claim::Replay { status, body, content_type, req_hash } => ClaimView::Replay {
                status: *status,
                body: match body {
                    Some(b) => Some(b@),
                    None => None,
                },
                content_type: content_type@,
                req_hash: req_hash@,
            },
            Claim::InFlight { retry_after_secs } => ClaimView::InFlight {
                retry_after_secs: *retry_after_secs,
            },
        }
    }
}

pub open spec fn claim_opt_view(c: Option<Claim>) -> Option<ClaimView> {
    match c {
        Some(c) => Some(c@),
        None => None,
    }
}

/// A Redis claim as a deduper claim: a fresh Redis lock also carries the
/// Bloom filter key, the other outcomes pass through unchanged.
pub open spec fn from_redis_spec(c: RedisClaimView, bloom_key: Option<Seq<char>>) -> ClaimView {
    match c {
        RedisClaimView::Fresh { redis_key } => ClaimView::Fresh { redis_key: Some(redis_key), bloom_key },
        RedisClaimView::Replay { status, body, content_type, req_hash } => ClaimView::Replay {
            status,
            body,
            content_type,
            req_hash,
        },
        RedisClaimView::InFlight { retry_after_secs } => ClaimView::InFlight { retry_after_secs },
    }
}

impl Claim {
    pub fn from_redis(claim: RedisClaim, bloom_key: Option<String>) -> (r: Self)
        ensures
            r@ == from_redis_spec(claim@, opt_str_view(bloom_key)),
            claim@ matches RedisClaimView::Replay { status, body, content_type, req_hash } ==> r@
                == (ClaimView::Replay { status, body, content_type, req_hash }),
            claim@ matches RedisClaimView::InFlight { retry_after_secs } ==> r@
                == (ClaimView::InFlight { retry_after_secs }),
            claim@ matches RedisClaimView::Fresh { redis_key } ==> r@ == (ClaimView::Fresh {
                redis_key: Some(redis_key),
                bloom_key: opt_str_view(bloom_key),
            }),
    {
        match claim {
            RedisClaim::Fresh { redis_key } => Claim::Fresh { redis_key: Some(redis_key), bloom_key },
            RedisClaim::Replay { status, body, content_type, req_hash } => Claim::Replay {
                status,
                body,
                content_type,
                req_hash,
            },
            RedisClaim::InFlight { retry_after_secs } => Claim::InFlight { retry_after_secs },
        }
    }
}

/// The next step of a claim: either it is decided, or the Redis layer must
/// be asked to claim `scoped_key`.
pub enum ClaimStep {
    Done(Claim),
    AskRedis { scoped_key: String, bloom_key: Option<String> },
}

/// The scoped key of a request: the hash of (method, path and query, client key).
pub open spec fn scoped_key_spec(method: Seq<u8>, path_and_query: Seq<u8>, client_key: Seq<u8>) -> Seq<char> {
    hash_key_spec(seq![method, path_and_query, client_key])
}

/// Idempotency deduplication with an optional in-memory Bloom filter layer
/// and an optional authoritative Redis layer.
pub struct Deduper {
    pub bloom: Option<BloomDeduper>,
    pub redis: Option<RedisDeduper>,
    pub header_name: String,
    pub require_key: bool,
}

impl Deduper {
    /// Whatever Bloom filter layer there is is well formed.
    pub open spec fn wf(&self) -> bool {
        self.bloom matches Some(b) ==> b.wf()
    }

    /// The deduper for `cfg`, or `None` when it is disabled or both of its
    /// layers are. An invalid header name falls back to `idempotency-key`.
    /// `num_bits` sizes each Bloom filter bucket and `now` is the current
    /// monotonic clock reading in nanoseconds.
    pub fn new(cfg: &DeduperConfig, num_bits: usize, now: u128) -> (r: Option<Self>)
        requires
            cfg.bloom.enabled ==> num_bits > 0,
        ensures
            r is Some <==> cfg.enabled && (cfg.bloom.enabled || cfg.redis.enabled),
            r matches Some(d) ==> {
                &&& d.wf()
                &&& d.bloom is Some <==> cfg.bloom.enabled
                &&& d.bloom matches Some(b) ==> self::bloom::fresh_ring(b@, &cfg.bloom, now as int)
                &&& d.redis is Some <==> cfg.redis.enabled
                &&& d.redis matches Some(r) ==> r.configured_by(&cfg.redis)
                &&& d.header_name@ == match header_name_spec(encode_utf8(cfg.header@)) {
                    Some(n) => n,
                    None => "idempotency-key"@,
                }
                &&& d.require_key == cfg.require_key
            },
    {
        if !cfg.enabled {
            return None;
        }
        let header_name = match parse_header_name(cfg.header.as_str()) {
            Some(n) => n,
            None => String::from_str("idempotency-key"),
        };
        let bloom = if cfg.bloom.enabled {
            BloomDeduper::new(&cfg.bloom, num_bits, now)
        } else {
            None
        };
        let redis = RedisDeduper::new(&cfg.redis);
        if bloom.is_none() && redis.is_none() {
            return None;
        }
        Some(Deduper { bloom, redis, header_name, require_key: cfg.require_key })
    }

    /// Whether an idempotency key is acceptable: non-empty, at most 255 bytes,
    /// visible ASCII only.
    pub fn validate_key(key: &str) -> (r: bool)
        ensures
            r == valid_key_spec(key.spec_bytes()),
    {
        let b = key.as_bytes();
        if b.len() == 0 || b.len() > 255 {
            return false;
        }
        let mut i: usize = 0;
        while i < b.len()
            invariant
                b@ == key.spec_bytes(),
                1 <= b@.len() <= 255,
                i <= b@.len(),
                forall|j: int| 0 <= j < i ==> 0x21 <= #[trigger] b@[j] && b@[j] <= 0x7e,
            decreases b@.len() - i,
        {
            if b[i] < 0x21 || b[i] > 0x7e {
                return false;
            }
            i = i + 1;
        }
        true
    }

    /// Starts claiming the idempotency lock of a request. The key is scoped
    /// to `(method, path_and_query, client_key)` and checked against the
    /// Bloom filter layer (which rotates if due at clock reading `now`). With
    /// a Redis layer the claim goes on there, carrying the scoped key for the
    /// Bloom layer when there is one; without one it is fresh.
    pub fn claim(&mut self, method: &str, path_and_query: &str, client_key: &str, now: u128) -> (r: ClaimStep)
        requires
            old(self).wf(),
        ensures
            final(self).wf(),
            final(self).redis == old(self).redis,
            final(self).header_name == old(self).header_name,
            final(self).require_key == old(self).require_key,
            final(self).bloom is Some <==> old(self).bloom is Some,
            final(self).bloom matches Some(b) ==> b@ == rotate_view(old(self).bloom->0@, now as int),
            ({
                let sk = scoped_key_spec(method.spec_bytes(), path_and_query.spec_bytes(), client_key.spec_bytes());
                match r {
                    ClaimStep::AskRedis { scoped_key, bloom_key } => {
                        &&& old(self).redis is Some
                        &&& scoped_key@ == sk
                        &&& opt_str_view(bloom_key) == (if old(self).bloom is Some {
                            Some(sk)
                        } else {
                            None
                        })
                    },
                    ClaimStep::Done(c) => {
                        &&& old(self).redis is None
                        &&& c@ == (ClaimView::Fresh { redis_key: None, bloom_key: Some(sk) })
                    },
                }
            }),
    {
        let parts: [&str; 3] = [method, path_and_query, client_key];
        let scoped_key = hash_key(&parts);
        proof {
            assert(parts_bytes(parts@) =~= seq![method.spec_bytes(), path_and_query.spec_bytes(), client_key.spec_bytes()]);
        }
        let has_bloom = self.bloom.is_some();
        let bloom = self.bloom.take();
        match bloom {
            Some(mut b) => {
                // the answer only decides a log line: a Bloom hit or miss
                // goes on to the authoritative layer alike, but the check
                // rotates the ring when a bucket lifetime has run out
                let _maybe_seen = b.maybe_contains(scoped_key.as_str(), now);
                self.bloom = Some(b);
            },
            None => {},
        }
        if self.redis.is_some() {
            let bloom_key = if has_bloom {
                Some(scoped_key.clone())
            } else {
                None
            };
            ClaimStep::AskRedis { scoped_key, bloom_key }
        } else {
            ClaimStep::Done(Claim::Fresh { redis_key: None, bloom_key: Some(scoped_key) })
        }
    }

    /// Finishes a claim with the Redis layer's answer (`None` when that
    /// layer failed, and the caller fails open).
    pub fn finish_claim(redis_claim: Option<RedisClaim>, bloom_key: Option<String>) -> (r: Option<Claim>)
        ensures
            claim_opt_view(r) == match redis_claim_opt_view(redis_claim) {
                Some(c) => Some(from_redis_spec(c, opt_str_view(bloom_key))),
                None => None,
            },
            redis_claim is None ==> r is None,
            redis_claim_opt_view(redis_claim) matches Some(
                RedisClaimView::Replay { status, body, content_type, req_hash },
            ) ==> claim_opt_view(r) == Some(ClaimView::Replay { status, body, content_type, req_hash }),
    {
        match redis_claim {
            Some(c) => Some(Claim::from_redis(c, bloom_key)),
            None => None,
        }
    }

    /// Records a completed request in the Bloom filter layer (rotating it
    /// first if due at clock reading `now`), and tells whether the Redis
    /// layer must store the response under `redis_key` as well.
    pub fn complete(&mut self, redis_key: Option<&str>, bloom_key: Option<&str>, now: u128) -> (store_in_redis: bool)
        requires
            old(self).wf(),
        ensures
            final(self).wf(),
            final(self).redis == old(self).redis,
            final(self).header_name == old(self).header_name,
            final(self).require_key == old(self).require_key,
            final(self).bloom is Some <==> old(self).bloom is Some,
            final(self).bloom matches Some(b) ==> b@ == match bloom_key {
                Some(k) => self::bloom::insert_view(old(self).bloom->0@, k@, now as int),
                None => old(self).bloom->0@,
            },
            store_in_redis == (old(self).redis is Some && redis_key is Some),
    {
        let bloom = self.bloom.take();
        match bloom {
            Some(mut b) => {
                match bloom_key {
                    Some(k) => b.insert(k, now),
                    None => {},
                }
                self.bloom = Some(b);
            },
            None => {},
        }
        self.redis.is_some() && redis_key.is_some()
    }

    /// Whether releasing a claim has a Redis lock to delete.
    pub fn release(&self, redis_key: Option<&str>) -> (r: bool)
        ensures
            r == (self.redis is Some && redis_key is Some),
    {
        self.redis.is_some() && redis_key.is_some()
    }
}

/// A Redis replay reaches the caller as it came: the deduper claim made from
/// it has the same status, body, content type and request hash, whatever
/// Bloom key comes along.
pub proof fn lemma_replay_passes_through(
    status: u16,
    body: Option<Seq<u8>>,
    content_type: Seq<char>,
    req_hash: Seq<char>,
    bloom_key: Option<Seq<char>>,
)
    ensures
        from_redis_spec(RedisClaimView::Replay { status, body, content_type, req_hash }, bloom_key)
            == (ClaimView::Replay { status, body, content_type, req_hash }),
{
}

/// End to end: a completed response recorded by `complete` and found again
/// by a later claim (a reply that is not `FRESH`) becomes a deduper replay
/// with the recorded status, content type and request hash, and the body
/// byte for byte (none when it was larger than `MAX_STORED_BODY_BYTES`).
pub proof fn lemma_recorded_response_replayed(
    redis_key: Seq<char>,
    tag: Seq<char>,
    pttl_ms: Option<i64>,
    inflight_ttl_secs: u64,
    status: u16,
    body: Seq<u8>,
    content_type: Seq<char>,
    req_hash: Seq<char>,
    bloom_key: Option<Seq<char>>,
)
    requires
        tag != "FRESH"@,
    ensures
        ({
            let reply = self::redis::ClaimReplyView {
                tag,
                stored: Some(self::redis::stored_entry_spec(status, Some(body), content_type, req_hash)),
                pttl_ms,
            };
            let rc = self::redis::claim_outcome_spec(redis_key, Some(reply), inflight_ttl_secs);
            &&& rc is Some
            &&& from_redis_spec(rc->0, bloom_key) == (ClaimView::Replay {
                status,
                body: if body.len() <= self::redis::MAX_STORED_BODY_BYTES {
                    Some(body)
                } else {
                    None
                },
                content_type,
                req_hash,
            })
        }),
{
    self::redis::lemma_replay_returns_stored(
        redis_key,
        tag,
        pttl_ms,
        inflight_ttl_secs,
        status,
        Some(body),
        content_type,
        req_hash,
    );
}

/// Requests whose (method, path and query, client key) tuples differ are
/// hashed from different encodings, so they claim different keys unless
/// SHA-256 itself collides.
pub proof fn lemma_scoped_keys_separate(a: Seq<Seq<u8>>, b: Seq<Seq<u8>>)
    requires
        a.len() == 3,
        b.len() == 3,
        forall|i: int| 0 <= i < 3 ==> (#[trigger] a[i]).len() < byte_bound(8),
        forall|i: int| 0 <= i < 3 ==> (#[trigger] b[i]).len() < byte_bound(8),
        a != b,
    ensures
        framed(a) != framed(b),
{
    if framed(a) == framed(b) {
        lemma_framed_injective(a, b);
    }
}

} // verus!
