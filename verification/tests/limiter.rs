use aegis::config::SlindowConfig;
use aegis::config::limiters::IpAddr;
use aegis::limiters::SlindowLimiter;

fn cfg() -> SlindowConfig {
    SlindowConfig {
        enabled: true,
        requests_per_window: 100,
        window_secs: 60,
        key_prefix: "rl:".to_string(),
        script_path: "scripts/slindow.lua".to_string(),
        trusted_proxies: vec!["10.0.0.0/8".to_string()],
    }
}

#[test]
fn limiter_window_and_keys() {
    let l = SlindowLimiter::new(&cfg(), &[Some(IpAddr::V4(0x0A00_0000))]).unwrap();
    assert_eq!(l.limit(), 100);
    assert_eq!(l.window_ms(), 60_000);
    assert_eq!(l.key("1.2.3.4"), "rl:1.2.3.4");
    assert_eq!(l.trusted_proxies().len(), 1);
    let m = l.member(42);
    let (node, seq) = m.split_once(':').unwrap();
    assert_eq!(seq, "42");
    assert_eq!(node.len(), 32);
    assert!(node.chars().all(|c| c.is_ascii_hexdigit() && !c.is_ascii_uppercase()));
    assert_eq!(node.as_bytes()[12], b'4');
}

#[test]
fn disabled_limiter_is_none() {
    let c = SlindowConfig { enabled: false, ..cfg() };
    assert!(SlindowLimiter::new(&c, &[None]).is_none());
}

#[test]
fn invalid_proxy_list_is_ignored() {
    let l = SlindowLimiter::new(&cfg(), &[None]).unwrap();
    assert!(l.trusted_proxies().is_empty());
}

#[test]
fn nodes_get_distinct_ids() {
    let a = SlindowLimiter::new(&cfg(), &[None]).unwrap();
    let b = SlindowLimiter::new(&cfg(), &[None]).unwrap();
    assert_ne!(a.member(0), b.member(0));
}

#[test]
fn check_reads_the_script_answer() {
    let l = SlindowLimiter::new(&cfg(), &[None]).unwrap();
    let d = l.check(Some((1, 7, 0)));
    assert!(d.allowed);
    assert_eq!((d.count, d.limit, d.retry_after_secs), (7, 100, 0));
    let d = l.check(Some((0, 100, 1001)));
    assert!(!d.allowed);
    assert_eq!(d.retry_after_secs, 2);
    let d = l.check(Some((0, 100, 1000)));
    assert_eq!(d.retry_after_secs, 1);
    let d = l.check(Some((2, -1, -5)));
    assert!(!d.allowed);
    assert_eq!(d.count, u64::MAX);
    assert_eq!(d.retry_after_secs, 0);
}

#[test]
fn failed_check_fails_open() {
    let l = SlindowLimiter::new(&cfg(), &[None]).unwrap();
    let d = l.check(None);
    assert!(d.allowed);
    assert_eq!((d.count, d.limit, d.retry_after_secs), (0, 100, 0));
    let f = l.fail_open();
    assert!(f.allowed && f.count == 0);
}
