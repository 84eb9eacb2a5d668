use aegis::cache::composite::ReadStep;
use aegis::cache::{CompositeCache, RedisCache};
use aegis::config::{CacheConfig, InvalidationConfig, MokaCacheConfig, RedisCacheConfig};

fn cfg(moka: bool, redis: bool) -> CacheConfig {
    CacheConfig {
        enabled: true,
        moka: MokaCacheConfig { enabled: moka, max_capacity: 1000, time_to_live_secs: 60, time_to_idle_secs: 30 },
        redis: RedisCacheConfig { enabled: redis, ttl_secs: 300, key_prefix: "rec:".to_string() },
        invalidation: InvalidationConfig { enabled: true, channel: "inval".to_string() },
    }
}

#[test]
fn redis_cache_keys_are_prefixed() {
    let c = RedisCache::new(&cfg(true, true).redis).unwrap();
    assert_eq!(c.key("abc"), "rec:abc");
    assert_eq!(c.ttl_secs(), 300);
    assert!(RedisCache::new(&cfg(true, false).redis).is_none());
}

#[test]
fn composite_needs_a_level() {
    assert!(CompositeCache::new(&cfg(false, false)).is_none());
    let mut off = cfg(true, true);
    off.enabled = false;
    assert!(CompositeCache::new(&off).is_none());
    let c = CompositeCache::new(&cfg(true, false)).unwrap();
    assert!(c.first_level() && c.second_level().is_none());
}

#[test]
fn reads_go_first_level_then_second() {
    let both = CompositeCache::new(&cfg(true, true)).unwrap();
    assert!(matches!(both.get(Some(5)), ReadStep::Hit(5)));
    assert!(matches!(both.get::<i32>(None), ReadStep::AskSecondLevel));
    let r = both.after_second_level(Some(9));
    assert_eq!(r.answer, Some(9));
    assert!(r.backfill);
    let r = both.after_second_level::<i32>(None);
    assert_eq!(r.answer, None);
    assert!(!r.backfill);
    let second_only = CompositeCache::new(&cfg(false, true)).unwrap();
    assert!(!second_only.after_second_level(Some(1)).backfill);
    let first_only = CompositeCache::new(&cfg(true, false)).unwrap();
    assert!(matches!(first_only.get::<i32>(None), ReadStep::Miss));
}

#[test]
fn writes_reach_every_level() {
    let both = CompositeCache::new(&cfg(true, true)).unwrap();
    let w = both.insert();
    assert!(w.first && w.second);
    let i = CompositeCache::new(&cfg(false, true)).unwrap().invalidate();
    assert!(!i.first && i.second);
}
