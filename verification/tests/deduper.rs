use aegis::config::{BloomDeduperConfig, DeduperConfig, RedisDeduperConfig};
use aegis::deduper::redis::{ClaimReply, MAX_STORED_BODY_BYTES, Stored};
use aegis::deduper::{
    Claim, ClaimStep, Deduper, RedisClaim, RedisDeduper, hash_key, parse_header_name, sha256_hex,
    to_hex_lower,
};

fn redis_cfg() -> RedisDeduperConfig {
    RedisDeduperConfig {
        enabled: true,
        key_prefix: "idem:".to_string(),
        ttl_secs: 86400,
        inflight_ttl_secs: 30,
    }
}

fn deduper_cfg(bloom: bool, redis: bool) -> DeduperConfig {
    DeduperConfig {
        enabled: true,
        header: "Idempotency-Key".to_string(),
        require_key: false,
        bloom: BloomDeduperConfig { enabled: bloom, capacity: 1000, buckets: 4, bucket_ttl_secs: 60 },
        redis: RedisDeduperConfig { enabled: redis, ..redis_cfg() },
    }
}

#[test]
fn hash_key_hashes_length_prefixed_fields() {
    assert_eq!(
        hash_key(&["POST", "/v1/records", "key-1"]),
        "3acc45207bf3827b6db256326a23caa0f2c3d1dd3eddd1f3903e828418ecaf07"
    );
    // moving bytes between fields changes the key
    assert_eq!(
        hash_key(&["PO", "ST/v1/records", "key-1"]),
        "83aa1d45200a5eb65b7e10617fa1ab935afef72917bee10916114ea79f7940cb"
    );
    assert_eq!(hash_key(&[]), sha256_hex(b""));
}

#[test]
fn sha256_hex_is_lowercase_digest() {
    assert_eq!(sha256_hex(b"abc"), "ba7816bf8f01cfea414140de5dae2223b00361a396177a9cb410ff61f20015ad");
    assert_eq!(to_hex_lower(&[0x00, 0x0f, 0xa0, 0xff]), "000fa0ff");
}

#[test]
fn keys_must_be_short_visible_ascii() {
    assert!(Deduper::validate_key("abc-123_XYZ~!"));
    assert!(!Deduper::validate_key(""));
    assert!(!Deduper::validate_key("has space"));
    assert!(!Deduper::validate_key("tab\t"));
    assert!(!Deduper::validate_key("caf\u{e9}"));
    assert!(Deduper::validate_key(&"k".repeat(255)));
    assert!(!Deduper::validate_key(&"k".repeat(256)));
}

#[test]
fn header_names_are_lowered_tokens() {
    assert_eq!(parse_header_name("Idempotency-Key"), Some("idempotency-key".to_string()));
    assert_eq!(parse_header_name("x_req#1"), Some("x_req#1".to_string()));
    assert_eq!(parse_header_name(""), None);
    assert_eq!(parse_header_name("bad header"), None);
    assert_eq!(parse_header_name("bad:header"), None);
}

#[test]
fn deduper_needs_a_layer() {
    assert!(Deduper::new(&deduper_cfg(false, false), 64, 0).is_none());
    let mut off = deduper_cfg(true, true);
    off.enabled = false;
    assert!(Deduper::new(&off, 64, 0).is_none());
    let d = Deduper::new(&deduper_cfg(true, false), 64, 0).unwrap();
    assert!(d.bloom.is_some() && d.redis.is_none());
    assert_eq!(d.header_name, "idempotency-key");
    let mut bad = deduper_cfg(false, true);
    bad.header = "not a header".to_string();
    let d = Deduper::new(&bad, 64, 0).unwrap();
    assert_eq!(d.header_name, "idempotency-key");
}

#[test]
fn claim_without_redis_is_fresh_with_bloom_key() {
    let mut d = Deduper::new(&deduper_cfg(true, false), 1024, 0).unwrap();
    let expected = hash_key(&["POST", "/v1/records", "k1"]);
    match d.claim("POST", "/v1/records", "k1", 10) {
        ClaimStep::Done(Claim::Fresh { redis_key, bloom_key }) => {
            assert_eq!(redis_key, None);
            assert_eq!(bloom_key, Some(expected));
        }
        _ => panic!("a claim without redis is fresh"),
    }
}

#[test]
fn claim_with_redis_asks_redis() {
    let mut d = Deduper::new(&deduper_cfg(true, true), 1024, 0).unwrap();
    let expected = hash_key(&["PUT", "/v1/records/a", "k2"]);
    match d.claim("PUT", "/v1/records/a", "k2", 10) {
        ClaimStep::AskRedis { scoped_key, bloom_key } => {
            assert_eq!(scoped_key, expected);
            assert_eq!(bloom_key, Some(expected.clone()));
            let redis = d.redis.as_ref().unwrap();
            assert_eq!(redis.redis_key(&scoped_key), format!("idem:{expected}"));
        }
        _ => panic!("a claim with redis asks redis"),
    }
    let mut d = Deduper::new(&deduper_cfg(false, true), 64, 0).unwrap();
    match d.claim("PUT", "/v1/records/a", "k2", 10) {
        ClaimStep::AskRedis { bloom_key, .. } => assert_eq!(bloom_key, None),
        _ => panic!("a claim with redis asks redis"),
    }
}

#[test]
fn complete_records_in_bloom_and_asks_for_redis_write() {
    let mut d = Deduper::new(&deduper_cfg(true, true), 1024, 0).unwrap();
    assert!(d.complete(Some("idem:k"), Some("k"), 5));
    assert!(d.bloom.as_ref().unwrap().contains_any("k"));
    assert!(!d.complete(None, Some("k"), 5));
    assert!(d.release(Some("idem:k")));
    assert!(!d.release(None));
    let d = Deduper::new(&deduper_cfg(true, false), 1024, 0).unwrap();
    assert!(!d.release(Some("idem:k")));
}

#[test]
fn redis_layer_clamps_inflight_lifetime() {
    let r = RedisDeduper::new(&redis_cfg()).unwrap();
    assert_eq!(r.inflight_ttl_secs(), 30);
    assert_eq!(r.ttl_secs(), 86400);
    let r = RedisDeduper::new(&RedisDeduperConfig { inflight_ttl_secs: 0, ..redis_cfg() }).unwrap();
    assert_eq!(r.inflight_ttl_secs(), 1);
    let r = RedisDeduper::new(&RedisDeduperConfig { ttl_secs: 10, inflight_ttl_secs: 99, ..redis_cfg() }).unwrap();
    assert_eq!(r.inflight_ttl_secs(), 10);
    let r = RedisDeduper::new(&RedisDeduperConfig { ttl_secs: 0, inflight_ttl_secs: 99, ..redis_cfg() }).unwrap();
    assert_eq!(r.inflight_ttl_secs(), 1);
    assert!(RedisDeduper::new(&RedisDeduperConfig { enabled: false, ..redis_cfg() }).is_none());
}

fn reply(tag: &str, stored: Option<Stored>, pttl_ms: Option<i64>) -> Option<ClaimReply> {
    Some(ClaimReply { tag: tag.to_string(), stored, pttl_ms })
}

#[test]
fn fresh_tag_takes_the_lock() {
    let r = RedisDeduper::new(&redis_cfg()).unwrap();
    match r.claim("idem:x".to_string(), reply("FRESH", None, None)) {
        Some(RedisClaim::Fresh { redis_key }) => assert_eq!(redis_key, "idem:x"),
        _ => panic!("fresh"),
    }
    assert!(r.claim("idem:x".to_string(), None).is_none());
    assert!(r.claim("idem:x".to_string(), reply("EXISTS", None, Some(100))).is_none());
}

#[test]
fn completed_response_replays_byte_for_byte() {
    let r = RedisDeduper::new(&redis_cfg()).unwrap();
    let body = b"{\"id\":\"a\"}".to_vec();
    let entry = r.complete(201, Some(&body), "application/json", "h1");
    match &entry {
        Stored::Complete { body_b64, .. } => assert_eq!(body_b64.as_deref(), Some("eyJpZCI6ImEifQ==")),
        Stored::Inflight => panic!("complete"),
    }
    match r.claim("idem:x".to_string(), reply("EXISTS", Some(entry), Some(5000))) {
        Some(RedisClaim::Replay { status, body: b, content_type, req_hash }) => {
            assert_eq!(status, 201);
            assert_eq!(b, Some(body));
            assert_eq!(content_type, "application/json");
            assert_eq!(req_hash, "h1");
        }
        _ => panic!("replay"),
    }
}

#[test]
fn oversized_or_missing_body_is_not_replayed() {
    let r = RedisDeduper::new(&redis_cfg()).unwrap();
    let big = vec![7u8; MAX_STORED_BODY_BYTES + 1];
    let entry = r.complete(200, Some(&big), "text/plain", "");
    match r.claim("k".to_string(), reply("EXISTS", Some(entry), None)) {
        Some(RedisClaim::Replay { body, .. }) => assert_eq!(body, None),
        _ => panic!("replay"),
    }
    let edge = vec![1u8; MAX_STORED_BODY_BYTES];
    let entry = r.complete(200, Some(&edge), "text/plain", "");
    match r.claim("k".to_string(), reply("EXISTS", Some(entry), None)) {
        Some(RedisClaim::Replay { body, .. }) => assert_eq!(body, Some(edge)),
        _ => panic!("replay"),
    }
    let entry = r.complete(204, None, "text/plain", "");
    match r.claim("k".to_string(), reply("EXISTS", Some(entry), None)) {
        Some(RedisClaim::Replay { body, status, .. }) => {
            assert_eq!(body, None);
            assert_eq!(status, 204);
        }
        _ => panic!("replay"),
    }
}

#[test]
fn corrupt_base64_replays_without_body() {
    let r = RedisDeduper::new(&redis_cfg()).unwrap();
    let entry = Stored::Complete {
        status: 200,
        content_type: "text/plain".to_string(),
        req_hash: String::new(),
        body_b64: Some("aGVsbG8=x".to_string()),
    };
    match r.claim("k".to_string(), reply("EXISTS", Some(entry), None)) {
        Some(RedisClaim::Replay { body, .. }) => assert_eq!(body, None),
        _ => panic!("replay"),
    }
    let entry = Stored::Complete {
        status: 200,
        content_type: "text/plain".to_string(),
        req_hash: String::new(),
        body_b64: Some("aGVsbG8gd29ybGQ=".to_string()),
    };
    match r.claim("k".to_string(), reply("EXISTS", Some(entry), None)) {
        Some(RedisClaim::Replay { body, .. }) => assert_eq!(body, Some(b"hello world".to_vec())),
        _ => panic!("replay"),
    }
}

#[test]
fn inflight_record_asks_to_retry() {
    let r = RedisDeduper::new(&redis_cfg()).unwrap();
    let cases = [(Some(1500i64), 2u64), (Some(1000), 1), (Some(1), 1), (Some(0), 30), (Some(-2), 30), (None, 30)];
    for (pttl, want) in cases {
        match r.claim("k".to_string(), reply("EXISTS", Some(Stored::Inflight), pttl)) {
            Some(RedisClaim::InFlight { retry_after_secs }) => assert_eq!(retry_after_secs, want),
            _ => panic!("in flight"),
        }
    }
}

#[test]
fn claims_convert_from_redis() {
    match Claim::from_redis(RedisClaim::Fresh { redis_key: "r".to_string() }, Some("b".to_string())) {
        Claim::Fresh { redis_key, bloom_key } => {
            assert_eq!(redis_key.as_deref(), Some("r"));
            assert_eq!(bloom_key.as_deref(), Some("b"));
        }
        _ => panic!("fresh"),
    }
    match Deduper::finish_claim(Some(RedisClaim::InFlight { retry_after_secs: 3 }), None) {
        Some(Claim::InFlight { retry_after_secs }) => assert_eq!(retry_after_secs, 3),
        _ => panic!("in flight"),
    }
    assert!(Deduper::finish_claim(None, Some("b".to_string())).is_none());
}

#[test]
fn hashed_keys_are_64_lowercase_hex_digits() {
    for parts in [&["POST", "/v1/records?x=1", "key"][..], &[][..], &["é", ""][..]] {
        let h = hash_key(parts);
        assert_eq!(h.len(), 64);
        assert!(h.chars().all(|c| c.is_ascii_digit() || ('a'..='f').contains(&c)));
    }
    let h = sha256_hex(b"\x00\xff");
    assert_eq!(h.len(), 64);
    assert!(h.chars().all(|c| c.is_ascii_digit() || ('a'..='f').contains(&c)));
}
