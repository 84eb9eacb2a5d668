//! Request coalescing: concurrent requests for one key share a single
//! leader's work. The leader runs the work and publishes its result; the
//! others wait for it. Awaiting and publishing are the caller's; this module
//! keeps the table of leaders and decides who leads, who cleans up, and how
//! long to back off after a leader vanished.
use vstd::prelude::*;
use dashmap::DashMap;

use crate::config::coalescer::CoalescerConfig;

verus! {

#[verifier::external_type_specification]
#[verifier::external_body]
#[verifier::reject_recursive_types(K)]
#[verifier::reject_recursive_types(V)]
#[verifier::reject_recursive_types(S)]
pub struct ExDashMap<K, V, S>(DashMap<K, V, S>);

/// The leaders in flight: each key's leader generation.
pub uninterp spec fn inflight_entries(m: DashMap<String, u64>) -> Map<Seq<char>, u64>;

/// `DashMap::new`: an empty map.
#[verifier::external_body]
fn table_new() -> (table: DashMap<String, u64>)
    ensures
        inflight_entries(table) =~= Map::empty(),
{
    DashMap::new()
}

/// `DashMap::get`: the value under `key`, copied out of the read guard.
#[verifier::external_body]
fn table_get(m: &DashMap<String, u64>, key: &str) -> (r: Option<u64>)
    ensures
        r == (if inflight_entries(*m).contains_key(key@) {
            Some(inflight_entries(*m)[key@])
        } else {
            None
        }),
{
    match m.get(key) {
        Some(guard) => Some(*guard),
        None => None,
    }
}

/// `DashMap::insert`: puts `value` under `key`, replacing any earlier value.
#[verifier::external_body]
fn table_insert(m: &mut DashMap<String, u64>, key: String, value: u64)
    ensures
        inflight_entries(*final(m)) == inflight_entries(*old(m)).insert(key@, value),
{
    m.insert(key, value);
}

/// `DashMap::remove`: takes `key` out of the map.
#[verifier::external_body]
fn table_remove(m: &mut DashMap<String, u64>, key: &str)
    ensures
        inflight_entries(*final(m)) == inflight_entries(*old(m)).remove(key@),
{
    m.remove(key);
}

/// How a request takes part in coalescing for its key.
pub enum Join {
    /// No leader was in flight: this request leads, under generation `id`.
    Lead { id: u64 },
    /// Leader `id` is in flight: wait for its result.
    Follow { id: u64 },
}

/// What a follower does once its wait for the leader has ended.
pub enum AfterWait {
    /// The leader published its result: return a copy of it.
    Return,
    /// The leader vanished without a result. `removed` tells whether this
    /// follower cleared the leader's entry; the request joins again after
    /// waiting `delay_ms` (none after no failure), with `failures`
    /// consecutive vanished leaders counted.
    Retry { removed: bool, failures: u32, delay_ms: Option<u64> },
}

/// The table after a request for `key` joins: a key with a leader in
/// flight is followed and nothing changes; otherwise the request leads
/// under generation `next` and the counter moves on (wrapping).
pub open spec fn join_spec(entries: Map<Seq<char>, u64>, next: u64, key: Seq<char>) -> (Join, Map<Seq<char>, u64>, u64) {
    if entries.contains_key(key) {
        (Join::Follow { id: entries[key] }, entries, next)
    } else {
        (
            Join::Lead { id: next },
            entries.insert(key, next),
            if next == u64::MAX {
                0
            } else {
                (next + 1) as u64
            },
        )
    }
}

/// The coalescing table: the leader in flight for each key, and the next
/// leader generation to hand out. Every change goes through `&mut self`, so
/// a caller that shares the table between tasks holds it under a lock.
pub struct Coalescer {
    inflight: DashMap<String, u64>,
    next_id: u64,
}

impl Coalescer {
    /// The leaders in flight, by key.
    pub closed spec fn entries(&self) -> Map<Seq<char>, u64> {
        inflight_entries(self.inflight)
    }

    pub closed spec fn spec_next_id(&self) -> u64 {
        self.next_id
    }

    /// Every generation in the table was handed out before the next one.
    pub open spec fn wf(&self) -> bool {
        forall|k: Seq<char>| #[trigger] self.entries().contains_key(k) ==> self.entries()[k] < self.spec_next_id()
    }

    /// The coalescer for `cfg`, or `None` when it is disabled; generations
    /// start at 1.
    pub fn new(cfg: &CoalescerConfig) -> (r: Option<Self>)
        ensures
            r is Some <==> cfg.enabled,
            r matches Some(c) ==> c.wf() && c.entries() == Map::<Seq<char>, u64>::empty()
                && c.spec_next_id() == 1,
    {
        if !cfg.enabled {
            return None;
        }
        Some(Coalescer { inflight: table_new(), next_id: 1 })
    }

    /// Joins the work for `key`: follows the leader in flight if there is
    /// one, otherwise becomes the leader under a fresh generation (the
    /// counter wraps around, as an atomic `fetch_add` does).
    pub fn join(&mut self, key: &str) -> (r: Join)
        ensures
            (r, final(self).entries(), final(self).spec_next_id()) == join_spec(
                old(self).entries(),
                old(self).spec_next_id(),
                key@,
            ),
            old(self).entries().contains_key(key@) ==> {
                &&& r == (Join::Follow { id: old(self).entries()[key@] })
                &&& final(self).entries() == old(self).entries()
                &&& final(self).spec_next_id() == old(self).spec_next_id()
            },
            !old(self).entries().contains_key(key@) ==> {
                &&& r == (Join::Lead { id: old(self).spec_next_id() })
                &&& final(self).entries() == old(self).entries().insert(key@, old(self).spec_next_id())
                &&& final(self).spec_next_id() == (if old(self).spec_next_id() == u64::MAX {
                    0
                } else {
                    old(self).spec_next_id() + 1
                })
            },
            old(self).wf() && old(self).spec_next_id() < u64::MAX ==> final(self).wf(),
    {
        match table_get(&self.inflight, key) {
            Some(id) => Join::Follow { id },
            None => {
                let id = self.next_id;
                self.next_id = self.next_id.wrapping_add(1);
                table_insert(&mut self.inflight, String::from_str(key), id);
                Join::Lead { id }
            },
        }
    }

    /// Removes the entry of `key` if it still belongs to generation `id`,
    /// and tells whether it did. A leader calls this when its work ends; a
    /// follower whose leader vanished calls it to clear the way for a new one.
    /// An entry of another generation is left alone.
    pub fn finish(&mut self, key: &str, id: u64) -> (removed: bool)
        ensures
            removed == (old(self).entries().contains_key(key@) && old(self).entries()[key@] == id),
            final(self).entries() == (if removed {
                old(self).entries().remove(key@)
            } else {
                old(self).entries()
            }),
            final(self).spec_next_id() == old(self).spec_next_id(),
            old(self).wf() ==> final(self).wf(),
    {
        match table_get(&self.inflight, key) {
            Some(cur) => if cur == id {
                table_remove(&mut self.inflight, key);
                true
            } else {
                false
            },
            None => false,
        }
    }
}

/// The generation a join leads or follows.
pub open spec fn join_id(j: Join) -> u64 {
    match j {
        Join::Lead { id } => id,
        Join::Follow { id } => id,
    }
}

/// The answers of a run of joins for `keys` (in order, with no leader
/// finishing in between), with the table and counter they leave behind.
pub open spec fn run_joins(entries: Map<Seq<char>, u64>, next: u64, keys: Seq<Seq<char>>) -> (
    Seq<Join>,
    Map<Seq<char>, u64>,
    u64,
)
    decreases keys.len(),
{
    if keys.len() == 0 {
        (Seq::empty(), entries, next)
    } else {
        let (rs, e, n) = run_joins(entries, next, keys.drop_last());
        let (j, e2, n2) = join_spec(e, n, keys.last());
        (rs.push(j), e2, n2)
    }
}

/// Whether `key` occurs among the first `i` keys.
pub open spec fn occurs_before(keys: Seq<Seq<char>>, key: Seq<char>, i: int) -> bool {
    exists|h: int| 0 <= h < i && #[trigger] keys[h] == key
}

/// What a run of joins does to one key that had no leader: once the key
/// occurs the table holds it, every join of the key answers with the one
/// generation the table holds for it, and a join of the key leads exactly
/// when it is the key's first.
proof fn lemma_run_joins_key(entries: Map<Seq<char>, u64>, next: u64, keys: Seq<Seq<char>>, key: Seq<char>)
    requires
        !entries.contains_key(key),
    ensures
        ({
            let (rs, e, n) = run_joins(entries, next, keys);
            &&& rs.len() == keys.len()
            &&& e.contains_key(key) == occurs_before(keys, key, keys.len() as int)
            &&& forall|i: int|
                0 <= i < keys.len() && #[trigger] keys[i] == key ==> {
                    &&& join_id(rs[i]) == e[key]
                    &&& (rs[i] is Lead <==> !occurs_before(keys, key, i))
                }
        }),
    decreases keys.len(),
{
    if keys.len() > 0 {
        let pre = keys.drop_last();
        lemma_run_joins_key(entries, next, pre, key);
        let (rs, e, n) = run_joins(entries, next, pre);
        let (rs2, e2, n2) = run_joins(entries, next, keys);
        let last = keys.len() - 1;
        assert forall|i: int| 0 <= i < last implies #[trigger] keys[i] == pre[i] by {}
        assert(occurs_before(keys, key, keys.len() as int) == (occurs_before(pre, key, pre.len() as int)
            || keys[last] == key)) by {
            if occurs_before(pre, key, pre.len() as int) {
                let h = choose|h: int| 0 <= h < pre.len() && #[trigger] pre[h] == key;
                assert(keys[h] == key);
            }
            if occurs_before(keys, key, keys.len() as int) && keys[last] != key {
                let h = choose|h: int| 0 <= h < keys.len() && #[trigger] keys[h] == key;
                assert(pre[h] == key);
            }
        }
        assert forall|i: int| 0 <= i < keys.len() && #[trigger] keys[i] == key implies {
            &&& join_id(rs2[i]) == e2[key]
            &&& (rs2[i] is Lead <==> !occurs_before(keys, key, i))
        } by {
            if i < last {
                assert(pre[i] == key);
                assert(occurs_before(keys, key, i) == occurs_before(pre, key, i)) by {
                    if occurs_before(pre, key, i) {
                        let h = choose|h: int| 0 <= h < i && #[trigger] pre[h] == key;
                        assert(keys[h] == key);
                    }
                    if occurs_before(keys, key, i) {
                        let h = choose|h: int| 0 <= h < i && #[trigger] keys[h] == key;
                        assert(pre[h] == key);
                    }
                }
                assert(occurs_before(pre, key, pre.len() as int)) by {
                    assert(pre[i] == key);
                }
                assert(rs2[i] == rs[i]);
            } else {
                assert(i == last);
                if occurs_before(pre, key, pre.len() as int) {
                    let h = choose|h: int| 0 <= h < pre.len() && #[trigger] pre[h] == key;
                    assert(keys[h] == key);
                    assert(occurs_before(keys, key, i));
                } else {
                    assert forall|h: int| 0 <= h < i implies #[trigger] keys[h] != key by {
                        if keys[h] == key {
                            assert(pre[h] == key);
                        }
                    }
                }
            }
        }
    }
}

/// The generations a run of joins hands out: every leader gets one from
/// `next` on, one more per leader, and the table keeps the generations it
/// held; with no wrap-around of the counter, no generation is handed out twice.
proof fn lemma_run_joins_ids(entries: Map<Seq<char>, u64>, next: u64, keys: Seq<Seq<char>>)
    requires
        next + keys.len() <= u64::MAX,
    ensures
        ({
            let (rs, e, n) = run_joins(entries, next, keys);
            &&& next <= n <= next + keys.len()
            &&& forall|i: int| 0 <= i < rs.len() && #[trigger] rs[i] is Lead ==> next <= join_id(rs[i]) < n
            &&& forall|k: Seq<char>| #[trigger] e.contains_key(k) ==> (entries.contains_key(k) && e[k]
                == entries[k]) || (next <= e[k] < n)
        }),
    decreases keys.len(),
{
    if keys.len() > 0 {
        lemma_run_joins_ids(entries, next, keys.drop_last());
    }
}

/// Single flight for any number of requests: in a run of joins, with other
/// keys' joins interleaved and no leader finishing, the first join of a key
/// that had no leader is the one leader, every later join of that key follows
/// it under its generation, and the table holds that generation until the
/// leader finishes.
pub proof fn lemma_single_flight(entries: Map<Seq<char>, u64>, next: u64, keys: Seq<Seq<char>>, key: Seq<char>)
    requires
        !entries.contains_key(key),
    ensures
        ({
            let (rs, e, n) = run_joins(entries, next, keys);
            &&& forall|i: int|
                0 <= i < keys.len() && #[trigger] keys[i] == key ==> (rs[i] is Lead <==> !occurs_before(
                    keys,
                    key,
                    i,
                ))
            &&& forall|i: int, h: int|
                0 <= i < keys.len() && 0 <= h < keys.len() && #[trigger] keys[i] == key
                    && #[trigger] keys[h] == key ==> join_id(rs[i]) == join_id(rs[h])
            &&& occurs_before(keys, key, keys.len() as int) ==> e.contains_key(key)
        }),
{
    lemma_run_joins_key(entries, next, keys, key);
}

/// Nothing is kept once a leader finishes: its `finish` leaves no entry for
/// the key, so the next request for it leads and runs the work afresh.
pub proof fn lemma_finished_leader_leaves_nothing(entries: Map<Seq<char>, u64>, next: u64, key: Seq<char>, id: u64)
    requires
        entries.contains_key(key),
        entries[key] == id,
    ensures
        ({
            let after = entries.remove(key);
            &&& !after.contains_key(key)
            &&& join_spec(after, next, key).0 == (Join::Lead { id: next })
        }),
{
}

/// A new election after a leader vanished: once the entry of generation `id`
/// is cleared (by the leader's own cleanup or by a follower's `finish`), the
/// next join of the key leads, later joins follow it, and the generation they
/// share is a new one, never `id` again (while the counter does not wrap).
pub proof fn lemma_reelection(entries: Map<Seq<char>, u64>, next: u64, key: Seq<char>, id: u64, keys: Seq<Seq<char>>)
    requires
        forall|k: Seq<char>| #[trigger] entries.contains_key(k) ==> entries[k] < next,
        entries.contains_key(key),
        entries[key] == id,
        next + keys.len() <= u64::MAX,
    ensures
        ({
            let e0 = entries.remove(key);
            let (rs, e, n) = run_joins(e0, next, keys);
            &&& forall|i: int|
                0 <= i < keys.len() && #[trigger] keys[i] == key ==> {
                    &&& (rs[i] is Lead <==> !occurs_before(keys, key, i))
                    &&& join_id(rs[i]) != id
                    &&& join_id(rs[i]) == e[key]
                }
        }),
{
    let e0 = entries.remove(key);
    lemma_run_joins_key(e0, next, keys, key);
    lemma_run_joins_ids(e0, next, keys);
    let (rs, e, n) = run_joins(e0, next, keys);
    assert forall|i: int| 0 <= i < keys.len() && #[trigger] keys[i] == key implies join_id(rs[i]) != id by {
        assert(occurs_before(keys, key, keys.len() as int));
        assert(e.contains_key(key));
        assert(!e0.contains_key(key));
    }
}

impl Coalescer {
    /// The follower's step once its wait for leader `id` of `key` has ended:
    /// with a result, return it and leave the table alone; without one, clear
    /// the entry if it still belongs to generation `id`, count the vanished
    /// leader (or reset the count if another follower cleared it first), and
    /// retry after the backoff, whose jitter comes from `subsec_nanos`.
    pub fn after_wait(&mut self, key: &str, id: u64, got_result: bool, failures: u32, subsec_nanos: u32) -> (r:
        AfterWait)
        ensures
            final(self).spec_next_id() == old(self).spec_next_id(),
            old(self).wf() ==> final(self).wf(),
            got_result ==> r == AfterWait::Return && final(self).entries() == old(self).entries(),
            !got_result ==> ({
                let removed = old(self).entries().contains_key(key@) && old(self).entries()[key@] == id;
                let f = next_failures_spec(removed, failures);
                &&& final(self).entries() == (if removed {
                    old(self).entries().remove(key@)
                } else {
                    old(self).entries()
                })
                &&& r == (AfterWait::Retry {
                    removed,
                    failures: f,
                    delay_ms: if f == 0 {
                        None
                    } else {
                        Some(backoff_delay_spec(f, subsec_nanos) as u64)
                    },
                })
            }),
    {
        if got_result {
            return AfterWait::Return;
        }
        let removed = self.finish(key, id);
        let f = next_failures(removed, failures);
        let delay_ms = backoff_delay_ms(f, subsec_nanos);
        AfterWait::Retry { removed, failures: f, delay_ms }
    }
}

/// Single flight: while a key's leader is in flight, every other request
/// for that key follows that same leader; two joins in a row never give two
/// leaders.
pub proof fn lemma_single_leader(entries: Map<Seq<char>, u64>, next: u64, key: Seq<char>)
    ensures
        ({
            let (first, e1, n1) = join_spec(entries, next, key);
            let (second, e2, n2) = join_spec(e1, n1, key);
            &&& second is Follow
            &&& match first {
                Join::Lead { id } => second == (Join::Follow { id }),
                Join::Follow { id } => second == (Join::Follow { id }),
            }
            &&& e2 == e1
        }),
{
}

/// The follower's count of consecutive vanished leaders after a cleanup:
/// one more (saturating) if it removed the stale entry itself, else reset.
pub open spec fn next_failures_spec(removed: bool, failures: u32) -> u32 {
    if removed {
        if failures == u32::MAX {
            u32::MAX
        } else {
            (failures + 1) as u32
        }
    } else {
        0
    }
}

/// The follower's count of consecutive vanished leaders after a cleanup
/// (see `next_failures_spec`).
pub fn next_failures(removed: bool, failures: u32) -> (r: u32)
    ensures
        r == next_failures_spec(removed, failures),
{
    if removed {
        failures.saturating_add(1)
    } else {
        0
    }
}

/// The base delay after `failures` consecutive vanished leaders:
/// 50 ms doubled per failure beyond the first, at most five doublings and
/// at most 2 s.
pub open spec fn backoff_base_ms(failures: u32) -> u64 {
    let shift: nat = if failures - 1 < 5 {
        (failures - 1) as nat
    } else {
        5
    };
    let b = 50 * vstd::arithmetic::power2::pow2(shift);
    if b < 2000 {
        b as u64
    } else {
        2000
    }
}

/// The delay that `backoff_delay_ms` picks after `failures > 0` failures.
pub open spec fn backoff_delay_spec(failures: u32, subsec_nanos: u32) -> int {
    let base = backoff_base_ms(failures) as int;
    base / 2 + (subsec_nanos as int) % (base / 2 + 1)
}

/// How long to wait before retrying: nothing after no failure; otherwise half
/// the base delay plus a jitter below half the base plus one, taken from the
/// clock's sub-second nanoseconds.
pub fn backoff_delay_ms(failures: u32, subsec_nanos: u32) -> (r: Option<u64>)
    ensures
        failures == 0 ==> r is None,
        failures > 0 ==> (r matches Some(d) && d == backoff_delay_spec(failures, subsec_nanos)),
{
    if failures == 0 {
        return None;
    }
    let s: u32 = failures.saturating_sub(1);
    let shift: u32 = if s < 5 {
        s
    } else {
        5
    };
    proof {
        vstd::arithmetic::power2::lemma2_to64();
    }
    let pow: u64 = 1u64 << shift;
    assert(pow == vstd::arithmetic::power2::pow2(shift as nat)) by {
        vstd::arithmetic::power2::lemma2_to64();
        vstd::bits::lemma_u64_shl_is_mul(1, shift as u64);
    }
    assert(pow <= 32) by {
        vstd::arithmetic::power2::lemma2_to64();
    }
    // 50 * 32 is far from overflow, so saturation never applies
    let m: u64 = 50 * pow;
    let base: u64 = if m < 2000 {
        m
    } else {
        2000
    };
    let jitter: u64 = (subsec_nanos as u64) % (base / 2 + 1);
    Some(base / 2 + jitter)
}

/// The backoff never exceeds the base delay, which never exceeds 1.6 s.
pub proof fn lemma_backoff_bounded(failures: u32, subsec_nanos: u32)
    requires
        failures > 0,
    ensures
        backoff_base_ms(failures) <= 1600,
        backoff_base_ms(failures) >= 50,
        25 <= backoff_delay_spec(failures, subsec_nanos) <= backoff_base_ms(failures),
{
    vstd::arithmetic::power2::lemma2_to64();
    let shift: nat = if failures - 1 < 5 {
        (failures - 1) as nat
    } else {
        5
    };
    assert(vstd::arithmetic::power2::pow2(shift) <= 32 && vstd::arithmetic::power2::pow2(shift) >= 1);
}

} // verus!
