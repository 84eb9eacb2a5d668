use aegis::coalescer::{AfterWait, Coalescer, Join, backoff_delay_ms, next_failures};
use aegis::config::CoalescerConfig;

#[test]
fn first_request_leads_others_follow() {
    assert!(Coalescer::new(&CoalescerConfig { enabled: false }).is_none());
    let mut c = Coalescer::new(&CoalescerConfig { enabled: true }).unwrap();
    let lead = match c.join("a") {
        Join::Lead { id } => id,
        Join::Follow { .. } => panic!("first request leads"),
    };
    assert_eq!(lead, 1);
    match c.join("a") {
        Join::Follow { id } => assert_eq!(id, lead),
        Join::Lead { .. } => panic!("second request follows"),
    }
    match c.join("b") {
        Join::Lead { id } => assert_eq!(id, 2),
        Join::Follow { .. } => panic!("other key leads"),
    }
}

#[test]
fn stale_generation_never_removes_a_new_leader() {
    let mut c = Coalescer::new(&CoalescerConfig { enabled: true }).unwrap();
    let first = match c.join("k") {
        Join::Lead { id } => id,
        _ => panic!(),
    };
    assert!(c.finish("k", first));
    let second = match c.join("k") {
        Join::Lead { id } => id,
        _ => panic!(),
    };
    assert_ne!(first, second);
    // a follower of the first leader cleans up late: the new leader stays
    assert!(!c.finish("k", first));
    match c.join("k") {
        Join::Follow { id } => assert_eq!(id, second),
        _ => panic!(),
    }
    assert!(!c.finish("missing", second));
}

#[test]
fn failures_count_up_or_reset() {
    assert_eq!(next_failures(true, 0), 1);
    assert_eq!(next_failures(true, u32::MAX), u32::MAX);
    assert_eq!(next_failures(false, 7), 0);
}

#[test]
fn backoff_doubles_up_to_a_cap() {
    assert_eq!(backoff_delay_ms(0, 123), None);
    // base 50: half is 25, jitter below 26
    assert_eq!(backoff_delay_ms(1, 0), Some(25));
    assert_eq!(backoff_delay_ms(1, 25), Some(50));
    assert_eq!(backoff_delay_ms(1, 26), Some(25));
    // base 100
    assert_eq!(backoff_delay_ms(2, 10), Some(60));
    // base 1600 from six failures on
    assert_eq!(backoff_delay_ms(6, 0), Some(800));
    assert_eq!(backoff_delay_ms(u32::MAX, 800), Some(1600));
    assert_eq!(backoff_delay_ms(9, 999_999_999), Some(800 + 999_999_999 % 801));
}

fn lead_id(j: Join) -> u64 {
    match j {
        Join::Lead { id } => id,
        Join::Follow { .. } => panic!("expected to lead"),
    }
}

#[test]
fn many_requests_share_one_leader() {
    let mut c = Coalescer::new(&CoalescerConfig { enabled: true }).unwrap();
    let mut leaders = 0;
    let mut ids = Vec::new();
    for key in ["k", "x", "k", "k", "y", "k", "x", "k"] {
        match c.join(key) {
            Join::Lead { id } => {
                leaders += 1;
                if key == "k" {
                    ids.push(id);
                }
            }
            Join::Follow { id } => {
                if key == "k" {
                    ids.push(id);
                }
            }
        }
    }
    assert_eq!(leaders, 3);
    assert_eq!(ids, vec![1, 1, 1, 1, 1]);
    // once the leader finishes, nothing is cached: the next request leads
    assert!(c.finish("k", 1));
    assert_eq!(lead_id(c.join("k")), 4);
}

#[test]
fn follower_with_a_result_returns_it() {
    let mut c = Coalescer::new(&CoalescerConfig { enabled: true }).unwrap();
    let id = lead_id(c.join("k"));
    assert!(matches!(c.after_wait("k", id, true, 3, 0), AfterWait::Return));
    // the table is untouched: the leader is still in flight
    assert!(matches!(c.join("k"), Join::Follow { id: f } if f == id));
}

#[test]
fn vanished_leader_is_replaced_once() {
    let mut c = Coalescer::new(&CoalescerConfig { enabled: true }).unwrap();
    let id = lead_id(c.join("k"));
    // the first follower to notice clears the entry and backs off
    match c.after_wait("k", id, false, 0, 30) {
        AfterWait::Retry { removed, failures, delay_ms } => {
            assert!(removed);
            assert_eq!(failures, 1);
            assert_eq!(delay_ms, Some(25 + 30 % 26));
        }
        AfterWait::Return => panic!("no result was published"),
    }
    // a second follower of the same leader finds nothing left to clear
    match c.after_wait("k", id, false, 2, 30) {
        AfterWait::Retry { removed, failures, delay_ms } => {
            assert!(!removed);
            assert_eq!(failures, 0);
            assert_eq!(delay_ms, None);
        }
        AfterWait::Return => panic!("no result was published"),
    }
    // a new election: one new leader under a new generation
    let second = lead_id(c.join("k"));
    assert_ne!(second, id);
    assert!(matches!(c.join("k"), Join::Follow { id: f } if f == second));
}
