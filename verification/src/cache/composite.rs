use vstd::prelude::*;

use crate::config::cache::CacheConfig;
use super::redis::RedisCache;

verus! {

/// The next step of a read through the cache.
pub enum ReadStep<T> {
    /// Found: answer with this record.
    Hit(T),
    /// Not found yet: ask the second level.
    AskSecondLevel,
    /// Not cached.
    Miss,
}

/// The result of asking the second level: the answer, and whether the
/// first level must be filled with it.
pub struct SecondLevelRead<T> {
    pub answer: Option<T>,
    pub backfill: bool,
}

/// The levels an operation touches.
pub struct Levels {
    pub first: bool,
    pub second: bool,
}

/// Which levels a record is cached in.
pub struct CompositeCache {
    first_level: bool,
    second_level: Option<RedisCache>,
}

impl CompositeCache {
    pub closed spec fn has_first_level(&self) -> bool {
        self.first_level
    }

    pub closed spec fn has_second_level(&self) -> bool {
        self.second_level is Some
    }

    /// The Redis second level, if any.
    pub closed spec fn spec_second_level(&self) -> Option<RedisCache> {
        self.second_level
    }

    /// The levels are those `cfg` asks for, and the second level, if any,
    /// keeps records under the configured key prefix for the configured time.
    pub open spec fn levels_configured_by(&self, cfg: &CacheConfig) -> bool {
        &&& self.has_first_level() == cfg.moka.enabled
        &&& self.has_second_level() == cfg.redis.enabled
        &&& self.spec_second_level() is Some == self.has_second_level()
        &&& self.spec_second_level() matches Some(l) ==> l.spec_key_prefix() == cfg.redis.key_prefix@
            && l.spec_ttl_secs() == cfg.redis.ttl_secs
    }

    /// The cache for `cfg`, or `None` when it is disabled or both of its
    /// levels are.
    pub fn new(cfg: &CacheConfig) -> (r: Option<Self>)
        ensures
            r is Some <==> cfg.enabled && (cfg.moka.enabled || cfg.redis.enabled),
            r matches Some(c) ==> c.has_first_level() == cfg.moka.enabled
                && c.has_second_level() == cfg.redis.enabled,
            r matches Some(c) ==> c.levels_configured_by(cfg),
    {
        if !cfg.enabled {
            return None;
        }
        let second_level = RedisCache::new(&cfg.redis);
        if !cfg.moka.enabled && second_level.is_none() {
            return None;
        }
        Some(CompositeCache { first_level: cfg.moka.enabled, second_level })
    }

    /// Whether the cache has an in-process first level.
    pub fn first_level(&self) -> (r: bool)
        ensures
            r == self.has_first_level(),
    {
        self.first_level
    }

    /// The Redis second level, if any.
    pub fn second_level(&self) -> (r: Option<&RedisCache>)
        ensures
            r is Some == self.has_second_level(),
            r matches Some(l) ==> self.spec_second_level() == Some(*l),
    {
        match &self.second_level {
            Some(c) => Some(c),
            None => None,
        }
    }

    /// The step after the first level answered `l1` (`None` also when there
    /// is no first level): a found record is the answer; otherwise the second
    /// level is asked if there is one.
    pub fn get<T>(&self, l1: Option<T>) -> (r: ReadStep<T>)
        ensures
            r == read_step(*self, l1),
            match l1 {
                Some(v) => r == ReadStep::Hit(v),
                None => if self.has_second_level() {
                    r == ReadStep::<T>::AskSecondLevel
                } else {
                    r == ReadStep::<T>::Miss
                },
            },
    {
        match l1 {
            Some(v) => ReadStep::Hit(v),
            None => if self.second_level.is_some() {
                ReadStep::AskSecondLevel
            } else {
                ReadStep::Miss
            },
        }
    }

    /// A written record goes to every level there is.
    pub fn insert(&self) -> (r: Levels)
        ensures
            r == levels_of(*self),
            r.first == self.has_first_level(),
            r.second == self.has_second_level(),
    {
        Levels { first: self.first_level, second: self.second_level.is_some() }
    }

    /// A changed or deleted record leaves every level there is.
    pub fn invalidate(&self) -> (r: Levels)
        ensures
            r == levels_of(*self),
            r.first == self.has_first_level(),
            r.second == self.has_second_level(),
    {
        Levels { first: self.first_level, second: self.second_level.is_some() }
    }

    /// The answer after the second level answered `l2`: its record, which
    /// also fills the first level when there is one.
    pub fn after_second_level<T>(&self, l2: Option<T>) -> (r: SecondLevelRead<T>)
        ensures
            r == second_level_read(*self, l2),
            r.answer == l2,
            r.backfill == (l2 is Some && self.has_first_level()),
    {
        let backfill = l2.is_some() && self.first_level;
        SecondLevelRead { answer: l2, backfill }
    }
}

/// A cache built from `cfg` with its Redis level enabled caches record `id`
/// under the configured prefix followed by the id, for the configured time.
pub proof fn lemma_second_level_follows_config(c: CompositeCache, cfg: &CacheConfig, id: Seq<char>)
    requires
        c.levels_configured_by(cfg),
        cfg.redis.enabled,
    ensures
        c.spec_second_level() is Some,
        c.spec_second_level()->0.spec_key_prefix() + id == cfg.redis.key_prefix@ + id,
        c.spec_second_level()->0.spec_ttl_secs() == cfg.redis.ttl_secs,
{
}

/// What the two levels hold, by record id (entries that neither expired nor
/// were evicted).
pub struct LevelContents<T> {
    pub first: Map<Seq<char>, T>,
    pub second: Map<Seq<char>, T>,
}

/// The step `get` takes after the first level answered `l1`.
pub open spec fn read_step<T>(c: CompositeCache, l1: Option<T>) -> ReadStep<T> {
    match l1 {
        Some(v) => ReadStep::Hit(v),
        None => if c.has_second_level() {
            ReadStep::AskSecondLevel
        } else {
            ReadStep::Miss
        },
    }
}

/// What `after_second_level` makes of the second level's answer `l2`.
pub open spec fn second_level_read<T>(c: CompositeCache, l2: Option<T>) -> SecondLevelRead<T> {
    SecondLevelRead { answer: l2, backfill: l2 is Some && c.has_first_level() }
}

/// The levels that `insert` writes to and `invalidate` removes from.
pub open spec fn levels_of(c: CompositeCache) -> Levels {
    Levels { first: c.has_first_level(), second: c.has_second_level() }
}

/// What the first level answers for `id`; `None` when there is no first level.
pub open spec fn first_lookup<T>(c: CompositeCache, s: LevelContents<T>, id: Seq<char>) -> Option<T> {
    if c.has_first_level() && s.first.contains_key(id) {
        Some(s.first[id])
    } else {
        None
    }
}

/// What the second level answers for `id`; `None` when there is no second level.
pub open spec fn second_lookup<T>(c: CompositeCache, s: LevelContents<T>, id: Seq<char>) -> Option<T> {
    if c.has_second_level() && s.second.contains_key(id) {
        Some(s.second[id])
    } else {
        None
    }
}

/// A read of `id` as the caller carries it out on the levels' contents: ask
/// the first level, take the step `get` returns, ask the second level if
/// told to, and fill the first level if `after_second_level` says so.
pub open spec fn read_through<T>(c: CompositeCache, s: LevelContents<T>, id: Seq<char>) -> (Option<T>, LevelContents<T>) {
    match read_step(c, first_lookup(c, s, id)) {
        ReadStep::Hit(v) => (Some(v), s),
        ReadStep::Miss => (None, s),
        ReadStep::AskSecondLevel => {
            let r = second_level_read(c, second_lookup(c, s, id));
            (
                r.answer,
                if r.backfill {
                    LevelContents { first: s.first.insert(id, r.answer.unwrap()), second: s.second }
                } else {
                    s
                },
            )
        },
    }
}

/// A write of `v` under `id` to the levels that `insert` returns.
pub open spec fn write_through<T>(c: CompositeCache, s: LevelContents<T>, id: Seq<char>, v: T) -> LevelContents<T> {
    let l = levels_of(c);
    LevelContents {
        first: if l.first {
            s.first.insert(id, v)
        } else {
            s.first
        },
        second: if l.second {
            s.second.insert(id, v)
        } else {
            s.second
        },
    }
}

/// Removal of `id` from the levels that `invalidate` returns.
pub open spec fn invalidate_through<T>(c: CompositeCache, s: LevelContents<T>, id: Seq<char>) -> LevelContents<T> {
    let l = levels_of(c);
    LevelContents {
        first: if l.first {
            s.first.remove(id)
        } else {
            s.first
        },
        second: if l.second {
            s.second.remove(id)
        } else {
            s.second
        },
    }
}

/// A read after a write gives back what was written, as long as neither
/// level dropped the entry in between; after an invalidation it finds
/// nothing. The read is the one `get` and `after_second_level` plan, on the
/// contents that `insert` and `invalidate` leave.
pub proof fn lemma_read_after_write<T>(c: CompositeCache, s: LevelContents<T>, id: Seq<char>, v: T)
    requires
        c.has_first_level() || c.has_second_level(),
    ensures
        read_through(c, write_through(c, s, id, v), id).0 == Some(v),
        read_through(c, invalidate_through(c, s, id), id).0 is None,
{
}

/// A second-level hit fills the first level, so the next read of the same
/// id is answered by the first level with the same record.
pub proof fn lemma_backfill_serves_next_read<T>(c: CompositeCache, s: LevelContents<T>, id: Seq<char>)
    requires
        c.has_first_level(),
    ensures
        ({
            let (r1, s1) = read_through(c, s, id);
            let (r2, s2) = read_through(c, s1, id);
            r2 == r1 && (r1 is Some ==> s1.first.contains_key(id))
        }),
{
}

} // verus!
