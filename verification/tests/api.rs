use aegis::api::deduper::{
    ClaimPlan, RequestPlan, StorePlan, extract_key, header_text, is_health, is_mutating,
    missing_key_message, plan_claim, plan_request, release_after_run, replay_status, store_plan,
    stored_content_type, REPLAY_BODY_LIMIT,
};
use aegis::api::errors::ApiError;
use aegis::api::health::ready_status;
use aegis::api::records::{
    GetPlan, create_failure, delete_outcome, get_plan, not_found, patch_failure, put_status,
    validate_id,
};
use aegis::api::slindow::{LimitAnswer, LimitPlan, answer, client_ip, is_limited_path, plan_limit};
use aegis::config::{BloomDeduperConfig, DeduperConfig, RedisDeduperConfig};
use aegis::deduper::{Claim, Deduper};
use aegis::limiters::SlindowDecision;

#[test]
fn ids_must_be_present_and_short() {
    assert!(validate_id("abc").is_ok());
    match validate_id("   ") {
        Err(ApiError::BadRequest(m)) => assert_eq!(m, "id must not be empty"),
        _ => panic!("blank id"),
    }
    match validate_id(&"x".repeat(256)) {
        Err(ApiError::BadRequest(m)) => assert_eq!(m, "id must be <= 255 chars"),
        _ => panic!("long id"),
    }
    assert!(validate_id(&"x".repeat(255)).is_ok());
    // 128 two-byte characters are 256 bytes
    assert!(validate_id(&"\u{e9}".repeat(128)).is_err());
}

#[test]
fn errors_map_to_status_and_code() {
    let cases = [
        (ApiError::NotFound("a".into()), 404, "NOT_FOUND"),
        (ApiError::Conflict("b".into()), 409, "CONFLICT"),
        (ApiError::VersionMismatch("c".into()), 412, "VERSION_MISMATCH"),
        (ApiError::BadRequest("d".into()), 400, "BAD_REQUEST"),
        (ApiError::Internal("e".into()), 500, "INTERNAL"),
    ];
    for (e, status, code) in cases {
        assert_eq!(e.status(), status);
        assert_eq!(e.code(), code);
        let d = e.clone();
        assert_eq!(d.status(), status);
        assert_eq!(d.message(), e.message());
    }
}

#[test]
fn record_handler_outcomes() {
    assert_eq!(not_found("r1").message(), "Record 'r1' does not exist");
    match create_failure("r1", Some("23505"), "dup".into()) {
        ApiError::Conflict(m) => assert_eq!(m, "Record with ID 'r1' already exists"),
        _ => panic!("conflict"),
    }
    match create_failure("r1", Some("42P01"), "no table".into()) {
        ApiError::Internal(m) => assert_eq!(m, "no table"),
        _ => panic!("internal"),
    }
    match create_failure("r1", None, "io".into()) {
        ApiError::Internal(m) => assert_eq!(m, "io"),
        _ => panic!("internal"),
    }
    match patch_failure("r1", Some(3), -1) {
        ApiError::VersionMismatch(m) => {
            assert_eq!(m, "Current version is 3, but expected version was -1")
        }
        _ => panic!("mismatch"),
    }
    match patch_failure("r1", None, 2) {
        ApiError::NotFound(m) => assert_eq!(m, "Record 'r1' does not exist"),
        _ => panic!("not found"),
    }
    assert_eq!(put_status(1), 201);
    assert_eq!(put_status(2), 200);
    assert_eq!(delete_outcome("r1", 1).ok(), Some(204));
    assert!(matches!(delete_outcome("r1", 0), Err(ApiError::NotFound(_))));
    assert!(matches!(get_plan(true, true), GetPlan::FromCache));
    assert!(matches!(get_plan(false, true), GetPlan::Coalesced));
    assert!(matches!(get_plan(false, false), GetPlan::FromDatabase));
}

#[test]
fn readiness_needs_every_backend() {
    assert_eq!(ready_status(true, true, true), 200);
    assert_eq!(ready_status(true, false, true), 503);
    assert_eq!(ready_status(false, true, true), 503);
    assert_eq!(ready_status(true, true, false), 503);
}

fn deduper(require_key: bool) -> Deduper {
    let cfg = DeduperConfig {
        enabled: true,
        header: "idempotency-key".to_string(),
        require_key,
        bloom: BloomDeduperConfig { enabled: false, capacity: 1, buckets: 1, bucket_ttl_secs: 1 },
        redis: RedisDeduperConfig {
            enabled: true,
            key_prefix: "i:".to_string(),
            ttl_secs: 60,
            inflight_ttl_secs: 5,
        },
    };
    Deduper::new(&cfg, 64, 0).unwrap()
}

#[test]
fn header_values_as_text() {
    assert_eq!(header_text(b"abc def\t!"), Some("abc def\t!".to_string()));
    assert_eq!(header_text(b"caf\xc3\xa9"), None);
    assert_eq!(header_text(b"a\nb"), None);
    assert_eq!(extract_key(Some(b"  key-1\t")), Some("key-1".to_string()));
    assert_eq!(extract_key(Some(b"two words")), None);
    assert_eq!(extract_key(Some(b"   ")), None);
    assert_eq!(extract_key(None), None);
}

#[test]
fn only_mutating_requests_are_deduplicated() {
    assert!(is_mutating("POST") && is_mutating("PUT") && is_mutating("PATCH"));
    assert!(!is_mutating("GET") && !is_mutating("DELETE") && !is_mutating("post"));
    assert!(is_health("/health") && is_health("/ready") && !is_health("/v1/records"));
    let d = deduper(false);
    assert!(matches!(plan_request(None, "POST", "/v1/records", Some(b"k")), RequestPlan::Pass));
    assert!(matches!(plan_request(Some(&d), "GET", "/v1/records/a", Some(b"k")), RequestPlan::Pass));
    assert!(matches!(plan_request(Some(&d), "POST", "/health", Some(b"k")), RequestPlan::Pass));
    match plan_request(Some(&d), "POST", "/v1/records", Some(b" k1 ")) {
        RequestPlan::Claim { client_key } => assert_eq!(client_key, "k1"),
        _ => panic!("claim"),
    }
    assert!(matches!(plan_request(Some(&d), "PUT", "/v1/records/a", None), RequestPlan::Pass));
    let strict = deduper(true);
    assert!(matches!(plan_request(Some(&strict), "PUT", "/v1/records/a", None), RequestPlan::RejectMissingKey));
    assert!(matches!(
        plan_request(Some(&strict), "PATCH", "/v1/records/a", Some(b"bad key")),
        RequestPlan::RejectMissingKey
    ));
    assert_eq!(missing_key_message("idempotency-key"), "missing or invalid `idempotency-key` header");
}

#[test]
fn claims_become_plans() {
    assert!(matches!(plan_claim(None), ClaimPlan::RunUnguarded));
    let replay = Claim::Replay { status: 201, body: None, content_type: "text/plain".into(), req_hash: String::new() };
    match plan_claim(Some(replay)) {
        ClaimPlan::Replay { status, body, content_type } => {
            assert_eq!(status, 201);
            assert!(body.is_empty());
            assert_eq!(content_type, "text/plain");
        }
        _ => panic!("replay"),
    }
    let odd = Claim::Replay { status: 1000, body: Some(vec![1, 2]), content_type: String::new(), req_hash: String::new() };
    match plan_claim(Some(odd)) {
        ClaimPlan::Replay { status, body, .. } => {
            assert_eq!(status, 200);
            assert_eq!(body, vec![1, 2]);
        }
        _ => panic!("replay"),
    }
    assert!(matches!(plan_claim(Some(Claim::InFlight { retry_after_secs: 4 })), ClaimPlan::InFlight { retry_after_secs: 4 }));
    match plan_claim(Some(Claim::Fresh { redis_key: Some("r".into()), bloom_key: None })) {
        ClaimPlan::RunFresh { redis_key, bloom_key } => {
            assert_eq!(redis_key.as_deref(), Some("r"));
            assert_eq!(bloom_key, None);
        }
        _ => panic!("fresh"),
    }
    assert_eq!(replay_status(99), 200);
    assert_eq!(replay_status(100), 100);
    assert_eq!(replay_status(999), 999);
}

#[test]
fn responses_are_stored_or_released() {
    assert!(release_after_run(500) && release_after_run(599));
    assert!(!release_after_run(499) && !release_after_run(600) && !release_after_run(200));
    assert!(matches!(store_plan(None), StorePlan::BufferFailed));
    assert!(matches!(store_plan(Some(REPLAY_BODY_LIMIT)), StorePlan::Store));
    assert!(matches!(store_plan(Some(REPLAY_BODY_LIMIT + 1)), StorePlan::Oversized));
    assert_eq!(stored_content_type(Some(b"application/json")), "application/json");
    assert_eq!(stored_content_type(Some(b"\xff")), "application/octet-stream");
    assert_eq!(stored_content_type(None), "application/octet-stream");
}

#[test]
fn client_ip_prefers_forwarded_for() {
    assert_eq!(client_ip(Some(b" 1.2.3.4 , 5.6.7.8"), Some("9.9.9.9".into())), Some("1.2.3.4".into()));
    assert_eq!(client_ip(Some(b" , 5.6.7.8"), Some("9.9.9.9".into())), Some("9.9.9.9".into()));
    assert_eq!(client_ip(Some(b"\xff"), Some("9.9.9.9".into())), Some("9.9.9.9".into()));
    assert_eq!(client_ip(None, None), None);
    assert_eq!(client_ip(Some(b"::1"), None), Some("::1".into()));
}

#[test]
fn limits_apply_to_the_record_api() {
    assert!(is_limited_path("/v1/records"));
    assert!(!is_limited_path("/health"));
    assert!(matches!(plan_limit("/health", true, Some("1.1.1.1".into())), LimitPlan::Pass));
    assert!(matches!(plan_limit("/v1/records", false, Some("1.1.1.1".into())), LimitPlan::Pass));
    assert!(matches!(plan_limit("/v1/records", true, None), LimitPlan::Pass));
    match plan_limit("/v1/records", true, Some("1.1.1.1".into())) {
        LimitPlan::Check { ip } => assert_eq!(ip, "1.1.1.1"),
        _ => panic!("check"),
    }
    let ok = SlindowDecision { allowed: true, count: 3, limit: 10, retry_after_secs: 0 };
    assert!(matches!(answer(ok), LimitAnswer::Forward { limit: 10, remaining: 7 }));
    let over = SlindowDecision { allowed: true, count: 12, limit: 10, retry_after_secs: 0 };
    assert!(matches!(answer(over), LimitAnswer::Forward { limit: 10, remaining: 0 }));
    let no = SlindowDecision { allowed: false, count: 10, limit: 10, retry_after_secs: 5 };
    assert!(matches!(answer(no), LimitAnswer::Reject { retry_after_secs: 5, limit: 10 }));
}
