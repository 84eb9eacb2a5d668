use aegis::config::BloomDeduperConfig;
use aegis::deduper::BloomDeduper;

const SEC: u128 = 1_000_000_000;

fn ring(buckets: usize, ttl_secs: u64) -> BloomDeduper {
    let cfg = BloomDeduperConfig { enabled: true, capacity: 1000, buckets, bucket_ttl_secs: ttl_secs };
    BloomDeduper::new(&cfg, 4096, 0).unwrap()
}

#[test]
fn disabled_bloom_layer_is_none() {
    let cfg = BloomDeduperConfig { enabled: false, capacity: 1000, buckets: 3, bucket_ttl_secs: 60 };
    assert!(BloomDeduper::new(&cfg, 4096, 0).is_none());
}

#[test]
fn inserted_key_is_found() {
    let mut r = ring(3, 60);
    r.insert("alpha", SEC);
    assert!(r.contains_any("alpha"));
    assert!(r.maybe_contains("alpha", 2 * SEC));
}

#[test]
fn key_survives_until_the_ring_goes_round() {
    let mut r = ring(3, 10);
    r.insert("alpha", 0);
    // two lifetimes later two other buckets were cleared
    assert!(r.maybe_contains("alpha", 25 * SEC));
    // one more lifetime reaches the bucket that holds it
    let mut r2 = ring(3, 10);
    r2.insert("beta", 0);
    assert!(r2.rotation_due(10 * SEC));
    assert!(!r2.rotation_due(10 * SEC - 1));
    assert!(r2.maybe_contains("beta", 10 * SEC));
    assert!(r2.maybe_contains("beta", 20 * SEC));
}

#[test]
fn full_lap_forgets_everything() {
    let mut r = ring(2, 1);
    for k in ["a", "b", "c", "d"] {
        r.insert(k, 0);
    }
    // after more lifetimes than buckets every bucket is new; a fresh filter
    // of 4096 bits holds no bits at all, so nothing matches
    for k in ["a", "b", "c", "d"] {
        assert!(!r.maybe_contains(k, 5 * SEC));
    }
}

#[test]
fn zero_buckets_means_one() {
    let cfg = BloomDeduperConfig { enabled: true, capacity: 10, buckets: 0, bucket_ttl_secs: 1 };
    let mut r = BloomDeduper::new(&cfg, 64, 0).unwrap();
    r.insert("x", 0);
    assert!(r.maybe_contains("x", 0));
}

#[test]
fn fresh_ring_answers_no_for_every_key() {
    let r = ring(3, 60);
    for k in ["alpha", "beta", "", "a much longer key than the others"] {
        assert!(!r.contains_any(k));
    }
}

#[test]
fn ring_keeps_its_bucket_sizing() {
    let cfg = BloomDeduperConfig { enabled: true, capacity: 0, buckets: 2, bucket_ttl_secs: 1 };
    let mut r = BloomDeduper::new(&cfg, 1024, 0).unwrap();
    assert_eq!(r.num_bits(), 1024);
    assert_eq!(r.capacity(), 1);
    r.insert("a", 0);
    r.maybe_contains("a", 7 * SEC);
    assert_eq!(r.num_bits(), 1024);
    assert_eq!(r.capacity(), 1);
    assert_eq!(ring(3, 10).capacity(), 1000);
}

#[test]
fn key_found_within_n_minus_one_lifetimes_of_its_insert() {
    // insert late in a lifetime: rotation happened at 0, insert at 9.9 s
    let mut r = ring(3, 10);
    r.insert("late", 9 * SEC + 900_000_000);
    // (3 - 1) * 10 s after the insert, less a nanosecond, it is still there
    assert!(r.maybe_contains("late", 29 * SEC + 900_000_000 - 1));
}

#[test]
fn key_found_after_a_long_idle_ring() {
    // the ring sat idle for far longer than 2^32 seconds before the insert
    let mut r = ring(3, 10);
    let t0: u128 = (1u128 << 40) * SEC + 3 * SEC;
    r.insert("idle", t0);
    assert!(r.maybe_contains("idle", t0 + 19 * SEC));
    assert!(r.maybe_contains("idle", t0 + 20 * SEC - 1));
}
