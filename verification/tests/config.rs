use aegis::config::limiters::{IpAddr, ProxyError, entry_ip_text};
use aegis::config::{
    BloomDeduperConfig, RedisConfig, ServerConfig, parse_trusted_proxies, proxy_is_trusted,
};

#[test]
fn server_addr_joins_host_and_port() {
    let cfg = ServerConfig {
        host: "0.0.0.0".to_string(),
        port: 8080,
        request_timeout_secs: 30,
        shutdown_timeout_secs: 10,
    };
    assert_eq!(cfg.addr(), "0.0.0.0:8080");
    let cfg = ServerConfig { host: "localhost".to_string(), port: 0, request_timeout_secs: 1, shutdown_timeout_secs: 1 };
    assert_eq!(cfg.addr(), "localhost:0");
    let cfg = ServerConfig { host: "::1".to_string(), port: 65535, request_timeout_secs: 1, shutdown_timeout_secs: 1 };
    assert_eq!(cfg.addr(), "::1:65535");
}

#[test]
fn config_without_cache_url_uses_shared_url() {
    let cfg = RedisConfig { url: "redis://localhost:6379".to_string(), cache_url: None };
    assert_eq!(cfg.url, "redis://localhost:6379");
    assert_eq!(cfg.cache_url, None);
    assert_eq!(cfg.cache_connection_url(), "redis://localhost:6379");
}

#[test]
fn cache_url_is_used_when_set() {
    let cfg = RedisConfig {
        url: "redis://durable:6379".to_string(),
        cache_url: Some("redis://cache:6380".to_string()),
    };
    assert_eq!(cfg.cache_connection_url(), "redis://cache:6380");
}

#[test]
fn bloom_capacity_is_at_least_one() {
    let mut cfg = BloomDeduperConfig { enabled: true, capacity: 0, buckets: 3, bucket_ttl_secs: 60 };
    assert_eq!(cfg.bucket_capacity(), 1);
    cfg.capacity = 5000;
    assert_eq!(cfg.bucket_capacity(), 5000);
}

#[test]
fn proxy_entry_address_text_is_trimmed() {
    assert_eq!(entry_ip_text(" 10.0.0.0 / 8 "), "10.0.0.0");
    assert_eq!(entry_ip_text("  192.168.1.1  "), "192.168.1.1");
    assert_eq!(entry_ip_text("a/b/c"), "a");
    assert_eq!(entry_ip_text("\u{3000}fe80::1\t"), "fe80::1");
}

const TEN_NET: u32 = 0x0A00_0000;

#[test]
fn trusted_proxies_parse_in_order() {
    let entries = vec!["10.0.0.0/8".to_string(), " 192.168.1.1 ".to_string(), "::1/+64".to_string()];
    let addrs = vec![Some(IpAddr::V4(TEN_NET)), Some(IpAddr::V4(0xC0A8_0101)), Some(IpAddr::V6(1))];
    let nets = match parse_trusted_proxies(&entries, &addrs) {
        Ok(n) => n,
        Err(_) => panic!("entries are valid"),
    };
    assert_eq!(nets.len(), 3);
    // 10.0.0.0/8 holds 10.1.2.3 but not 11.0.0.1
    assert!(nets[0].contains(IpAddr::V4(0x0A01_0203)));
    assert!(!nets[0].contains(IpAddr::V4(0x0B00_0001)));
    // a bare address is a full-length prefix
    assert!(nets[1].contains(IpAddr::V4(0xC0A8_0101)));
    assert!(!nets[1].contains(IpAddr::V4(0xC0A8_0102)));
    // families never match
    assert!(!nets[0].contains(IpAddr::V6(0x0A01_0203)));
    // ::1/64 holds ::2
    assert!(nets[2].contains(IpAddr::V6(2)));
    assert!(!nets[2].contains(IpAddr::V6(1u128 << 64)));
    assert!(proxy_is_trusted(&nets, IpAddr::V4(0x0AFF_FFFF)));
    assert!(!proxy_is_trusted(&nets, IpAddr::V4(0x0800_0808)));
}

#[test]
fn trusted_proxies_report_the_first_bad_entry() {
    let entries = vec!["10.0.0.0/8".to_string(), "10.0.0.0/33".to_string(), "nonsense".to_string()];
    let addrs = vec![Some(IpAddr::V4(TEN_NET)), Some(IpAddr::V4(TEN_NET)), None];
    match parse_trusted_proxies(&entries, &addrs) {
        Err(ProxyError::PrefixTooLong { entry, max }) => {
            assert_eq!(entry, "10.0.0.0/33");
            assert_eq!(max, 32);
        }
        _ => panic!("the prefix is too long"),
    }
    let entries = vec!["nonsense".to_string()];
    match parse_trusted_proxies(&entries, &[None]) {
        Err(ProxyError::BadAddress { entry }) => assert_eq!(entry, "nonsense"),
        _ => panic!("the address is bad"),
    }
    for bad in ["10.0.0.0/", "10.0.0.0/-1", "10.0.0.0/x", "10.0.0.0/+", "10.0.0.0/256"] {
        let entries = vec![bad.to_string()];
        match parse_trusted_proxies(&entries, &[Some(IpAddr::V4(TEN_NET))]) {
            Err(ProxyError::BadPrefix { entry }) => assert_eq!(entry, bad),
            _ => panic!("the prefix is bad"),
        }
    }
    let entries = vec!["::/129".to_string()];
    match parse_trusted_proxies(&entries, &[Some(IpAddr::V6(0))]) {
        Err(ProxyError::PrefixTooLong { max, .. }) => assert_eq!(max, 128),
        _ => panic!("the prefix is too long"),
    }
}

#[test]
fn empty_proxy_list_trusts_nobody() {
    let nets = match parse_trusted_proxies(&[], &[]) {
        Ok(n) => n,
        Err(_) => panic!("an empty list is valid"),
    };
    assert!(nets.is_empty());
    assert!(!proxy_is_trusted(&nets, IpAddr::V4(1)));
}
