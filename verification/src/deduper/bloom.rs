//! A ring of Bloom filters that forgets keys bucket by bucket as time passes.
use vstd::prelude::*;
use fastbloom::BloomFilter;

use crate::config::deduper::BloomDeduperConfig;

verus! {

/// One bucket of the ring: a `fastbloom::BloomFilter` over string keys. The
/// filter's hasher types are private to `fastbloom`, so the filter is held
/// inside this opaque struct and reached only through the functions below.
#[verifier::external_body]
pub struct BloomBucket {
    filter: BloomFilter,
}

/// The keys recorded in a bucket since it was built.
pub uninterp spec fn bucket_items(b: BloomBucket) -> Set<Seq<char>>;

/// What `contains(key)` answers on bucket `b`: a function of the filter's bit
/// array, its number of hashes and the hasher seed it drew when it was built,
/// all of which the bucket holds.
pub uninterp spec fn bucket_answers(b: BloomBucket, key: Seq<char>) -> bool;

/// The sizing a bucket was built with: the number of bits asked of
/// `with_num_bits` and the item count handed to `expected_items`.
pub uninterp spec fn bucket_sizing(b: BloomBucket) -> (nat, nat);

impl BloomBucket {
    /// `BloomFilter::with_num_bits(num_bits).expected_items(expected_items)`:
    /// an empty filter of `num_bits` bits (rounded up to whole 64-bit words)
    /// with the number of hashes suited to `expected_items`. `with_num_bits`
    /// panics on 0 bits.
    #[verifier::external_body]
    fn build(num_bits: usize, expected_items: usize) -> (b: BloomBucket)
        requires
            num_bits > 0,
        ensures
            bucket_items(b) == Set::<Seq<char>>::empty(),
            bucket_sizing(b) == (num_bits as nat, expected_items as nat),
    {
        BloomBucket { filter: BloomFilter::with_num_bits(num_bits).expected_items(expected_items) }
    }

    /// `BloomFilter::insert`: records `key`, so that every later `contains(key)`
    /// answers `true`; the filter keeps the sizing it was built with.
    #[verifier::external_body]
    fn insert(&mut self, key: &str)
        ensures
            bucket_items(*final(self)) == bucket_items(*old(self)).insert(key@),
            bucket_sizing(*final(self)) == bucket_sizing(*old(self)),
    {
        self.filter.insert(key);
    }

    /// `BloomFilter::contains`: the answer is `bucket_answers` of this bucket
    /// and the key. It is never `false` for a recorded key, and always `false`
    /// while nothing has been recorded (every bit is still clear, and the first
    /// bit it checks decides). For a key that was never recorded in a bucket
    /// that holds others it may be `true` (the false positives a Bloom filter
    /// trades for its size); which such keys give `true` is left unsaid.
    #[verifier::external_body]
    fn contains(&self, key: &str) -> (r: bool)
        ensures
            r == bucket_answers(*self, key@),
            bucket_items(*self).contains(key@) ==> r,
            bucket_items(*self).is_empty() ==> !r,
    {
        self.filter.contains(key)
    }
}

pub const NANOS_PER_SEC: u128 = 1_000_000_000;

pub const NANOS_PER_MILLI: u128 = 1_000_000;

/// The abstract state of the ring: the keys of each bucket, the active bucket,
/// the clock reading (in nanoseconds) of the last rotation, the bucket
/// lifetime, and the bit count and item capacity every bucket is built with.
pub struct RingView {
    pub slots: Seq<Set<Seq<char>>>,
    pub current: int,
    pub last: int,
    pub ttl_secs: nat,
    pub num_bits: nat,
    pub capacity: nat,
}

/// Nanoseconds since the last rotation; the clock never runs backwards here,
/// an earlier reading counts as no time passed.
pub open spec fn elapsed_since(last: int, now: int) -> int {
    if now >= last {
        now - last
    } else {
        0
    }
}

/// The bucket lifetime in whole milliseconds, at least one.
pub open spec fn ttl_millis(ttl_secs: nat) -> nat {
    if ttl_secs * 1000 >= 1 {
        ttl_secs * 1000
    } else {
        1
    }
}

/// Whether the bucket lifetime has run out since the last rotation.
pub open spec fn rotation_due_spec(v: RingView, now: int) -> bool {
    elapsed_since(v.last, now) >= v.ttl_secs * NANOS_PER_SEC
}

/// How many whole bucket lifetimes have run out since the last rotation, as
/// the word-sized count that the rotation works with.
pub open spec fn due_steps(v: RingView, now: int) -> int {
    (((elapsed_since(v.last, now) / NANOS_PER_MILLI as int) / ttl_millis(v.ttl_secs) as int)
        as usize) as int
}

/// How far bucket `j` lies ahead of the active bucket `c`, minus one: the
/// bucket right after the active one has offset 0, the active one n - 1.
pub open spec fn offset(c: int, j: int, n: int) -> int {
    (j - c - 1) % n
}

/// The ring after the rotation that a call at clock reading `now` performs.
pub open spec fn rotate_view(v: RingView, now: int) -> RingView {
    let n = v.slots.len() as int;
    if !rotation_due_spec(v, now) {
        v
    } else if due_steps(v, now) >= n {
        RingView {
            slots: Seq::new(n as nat, |i: int| Set::<Seq<char>>::empty()),
            current: 0,
            last: now,
            ..v
        }
    } else {
        let steps = due_steps(v, now);
        RingView {
            slots: Seq::new(
                n as nat,
                |j: int|
                    if offset(v.current, j, n) < steps {
                        Set::<Seq<char>>::empty()
                    } else {
                        v.slots[j]
                    },
            ),
            current: (v.current + steps) % n,
            last: v.last + v.ttl_secs * NANOS_PER_SEC * ((steps as u32) as int),
            ..v
        }
    }
}

/// The keys that some bucket of the ring records.
pub open spec fn ring_keys(v: RingView) -> Set<Seq<char>> {
    Set::new(|k: Seq<char>| exists|i: int| 0 <= i < v.slots.len() && #[trigger] v.slots[i].contains(k))
}

/// The ring after `insert(key)` at clock reading `now`: rotated first, then
/// the key recorded in the active bucket.
pub open spec fn insert_view(v: RingView, key: Seq<char>, now: int) -> RingView {
    let r = rotate_view(v, now);
    RingView { slots: r.slots.update(r.current, r.slots[r.current].insert(key)), ..r }
}

/// The shape every ring has: at least one bucket, the active one among them.
pub open spec fn ring_shape(v: RingView) -> bool {
    v.slots.len() >= 1 && 0 <= v.current < v.slots.len()
}

/// A newly built ring for `cfg` at clock reading `now`: as many empty
/// buckets as configured (at least one), the first one active.
pub open spec fn fresh_ring(v: RingView, cfg: &BloomDeduperConfig, now: int) -> bool {
    &&& v.capacity == cfg.bucket_capacity_spec()
    &&& v.slots.len() == (if cfg.buckets >= 1 {
        cfg.buckets as int
    } else {
        1
    })
    &&& forall|i: int| 0 <= i < v.slots.len() ==> (#[trigger] v.slots[i]).is_empty()
    &&& v.current == 0
    &&& v.last == now
    &&& v.ttl_secs == cfg.bucket_ttl_secs
}

/// A ring of Bloom filter buckets. Keys go into the active bucket; every
/// bucket lifetime the ring advances by one bucket and clears the bucket it
/// advances to, so a key is forgotten once the ring has gone all the way round.
pub struct BloomDeduper {
    buckets: Vec<BloomBucket>,
    current: usize,
    last_rotation: u128,
    bucket_ttl_secs: u64,
    num_bits: usize,
    capacity: usize,
}

impl View for BloomDeduper {
    type V = RingView;

    closed spec fn view(&self) -> RingView {
        RingView {
            slots: self.buckets@.map_values(|b: BloomBucket| bucket_items(b)),
            current: self.current as int,
            last: self.last_rotation as int,
            ttl_secs: self.bucket_ttl_secs as nat,
            num_bits: self.num_bits as nat,
            capacity: self.capacity as nat,
        }
    }
}

proof fn lemma_offset_next(c: int, k: int, n: int)
    requires
        0 <= c < n,
        0 <= k < n,
    ensures
        forall|j: int| 0 <= j < n ==> (offset(c, j, n) == k <==> j == (c + k + 1) % n),
        0 <= (c + k + 1) % n < n,
{
    let nx = (c + k + 1) % n;
    vstd::arithmetic::div_mod::lemma_mod_bound(c + k + 1, n);
    vstd::arithmetic::div_mod::lemma_add_mod_noop_right(-(c + 1), c + k + 1, n);
    vstd::arithmetic::div_mod::lemma_small_mod(k as nat, n as nat);
    assert(-(c + 1) + (c + k + 1) == k);
    assert(offset(c, nx, n) == k);
    assert forall|j: int| 0 <= j < n implies (offset(c, j, n) == k <==> j == nx) by {
        if j != nx && offset(c, j, n) == k {
            if j > nx {
                vstd::arithmetic::div_mod::lemma_mod_equivalence(j - c - 1, nx - c - 1, n);
                assert((j - c - 1) - (nx - c - 1) == j - nx);
                vstd::arithmetic::div_mod::lemma_small_mod((j - nx) as nat, n as nat);
            } else {
                vstd::arithmetic::div_mod::lemma_mod_equivalence(nx - c - 1, j - c - 1, n);
                assert((nx - c - 1) - (j - c - 1) == nx - j);
                vstd::arithmetic::div_mod::lemma_small_mod((nx - j) as nat, n as nat);
            }
        }
    }
}

impl BloomDeduper {
    /// The ring is well formed: at least one bucket, the active one among them.
    pub closed spec fn wf(&self) -> bool {
        &&& self.buckets.len() >= 1
        &&& self.current < self.buckets.len()
        &&& self.num_bits > 0
        &&& self.buckets_sized()
    }

    /// Every bucket was built with the ring's bit count and item capacity.
    pub closed spec fn buckets_sized(&self) -> bool {
        forall|i: int|
            0 <= i < self.buckets@.len() ==> bucket_sizing(#[trigger] self.buckets@[i]) == (
                self.num_bits as nat,
                self.capacity as nat,
            )
    }

    /// The number of bits each bucket is built with.
    pub fn num_bits(&self) -> (r: usize)
        ensures
            r == self@.num_bits,
    {
        self.num_bits
    }

    /// The item capacity each bucket is built with.
    pub fn capacity(&self) -> (r: usize)
        ensures
            r == self@.capacity,
    {
        self.capacity
    }

    /// Whether a call at clock reading `now` (nanoseconds) has to rotate the ring first.
    pub fn rotation_due(&self, now: u128) -> (r: bool)
        ensures
            r == rotation_due_spec(self@, now as int),
    {
        let elapsed = if now >= self.last_rotation {
            now - self.last_rotation
        } else {
            0
        };
        elapsed >= (self.bucket_ttl_secs as u128) * NANOS_PER_SEC
    }

    fn rotate_if_due(&mut self, now: u128)
        requires
            old(self).wf(),
        ensures
            final(self).wf(),
            final(self)@ == rotate_view(old(self)@, now as int),
    {
        let elapsed = if now >= self.last_rotation {
            now - self.last_rotation
        } else {
            0
        };
        let ttl_ns: u128 = (self.bucket_ttl_secs as u128) * NANOS_PER_SEC;
        if elapsed < ttl_ns {
            return;
        }
        let ttl_ms_raw: u128 = (self.bucket_ttl_secs as u128) * 1000;
        let ttl_ms: u128 = if ttl_ms_raw >= 1 {
            ttl_ms_raw
        } else {
            1
        };
        let steps: usize = #[verifier::truncate] (((elapsed / NANOS_PER_MILLI) / ttl_ms) as usize);
        let n = self.buckets.len();
        let ghost old_view = self@;
        assert(steps as int == due_steps(old_view, now as int));
        if steps >= n {
            let mut i: usize = 0;
            while i < n
                invariant
                    self.buckets.len() == n,
                    self.num_bits > 0,
                    self.bucket_ttl_secs as nat == old_view.ttl_secs,
                    self.last_rotation as int == old_view.last,
                    self.num_bits as nat == old_view.num_bits,
                    self.capacity as nat == old_view.capacity,
                    self.buckets_sized(),
                    n >= 1,
                    i <= n,
                    self.current == old_view.current,
                    forall|j: int|
                        0 <= j < i ==> bucket_items(#[trigger] self.buckets@[j])
                            == Set::<Seq<char>>::empty(),
                decreases n - i,
            {
                self.buckets.set(i, BloomBucket::build(self.num_bits, self.capacity));
                i = i + 1;
            }
            self.current = 0;
            self.last_rotation = now;
            assert(self@.slots =~= rotate_view(old_view, now as int).slots);
            assert(self@.current == rotate_view(old_view, now as int).current);
            assert(self@.last == rotate_view(old_view, now as int).last);
            assert(self@.ttl_secs == rotate_view(old_view, now as int).ttl_secs);
        } else {
            let c = self.current;
            let mut k: usize = 0;
            proof {
                vstd::arithmetic::div_mod::lemma_small_mod(c as nat, n as nat);
            }
            while k < steps
                invariant
                    self.buckets.len() == n,
                    self.num_bits > 0,
                    self.bucket_ttl_secs as nat == old_view.ttl_secs,
                    self.last_rotation as int == old_view.last,
                    self.num_bits as nat == old_view.num_bits,
                    self.capacity as nat == old_view.capacity,
                    self.buckets_sized(),
                    n >= 1,
                    c < n,
                    c == old_view.current,
                    steps < n,
                    k <= steps,
                    old_view.slots.len() == n,
                    self.current == (c + k) % (n as int),
                    forall|j: int|
                        0 <= j < n ==> #[trigger] bucket_items(self.buckets@[j]) == if offset(
                            c as int,
                            j,
                            n as int,
                        ) < k {
                            Set::<Seq<char>>::empty()
                        } else {
                            old_view.slots[j]
                        },
                decreases steps - k,
            {
                proof {
                    lemma_offset_next(c as int, k as int, n as int);
                    vstd::arithmetic::div_mod::lemma_add_mod_noop(c + k, 1, n as int);
                    vstd::arithmetic::div_mod::lemma_small_mod(1, n as nat);
                }
                let next = (self.current + 1) % n;
                assert(next == (c + k + 1) % (n as int));
                self.buckets.set(next, BloomBucket::build(self.num_bits, self.capacity));
                self.current = next;
                k = k + 1;
            }
            let t32: u32 = #[verifier::truncate] (steps as u32);
            proof {
                assert((steps as u32) <= steps) by (bit_vector);
                let e = elapsed as int;
                let em = e / 1_000_000;
                let tm = ttl_ms as int;
                let secs = self.bucket_ttl_secs as int;
                assert(ttl_ms_raw as int == secs * 1000);
                assert(tm == (if secs * 1000 >= 1 {
                    secs * 1000
                } else {
                    1
                }));
                assert(em / tm * tm <= em) by (nonlinear_arith)
                    requires
                        tm >= 1,
                        em >= 0,
                ;
                assert(1_000_000 * em <= e) by (nonlinear_arith)
                    requires
                        em == e / 1_000_000,
                        e >= 0,
                ;
                assert(secs * 1_000_000_000 * (t32 as int) <= e) by (nonlinear_arith)
                    requires
                        secs >= 0,
                        0 <= t32 <= steps,
                        steps <= em / tm,
                        em / tm * tm <= em,
                        1_000_000 * em <= e,
                        tm == (if secs * 1000 >= 1 {
                            secs * 1000
                        } else {
                            1
                        }),
                ;
            }
            self.last_rotation = self.last_rotation + ttl_ns * (t32 as u128);
            assert(self@.slots =~= rotate_view(old_view, now as int).slots);
            assert(self@.current == rotate_view(old_view, now as int).current);
            assert(self@.last == rotate_view(old_view, now as int).last);
            assert(self@.ttl_secs == rotate_view(old_view, now as int).ttl_secs);
        }
    }

    /// Builds the ring for `cfg`, or `None` when the layer is disabled. Every
    /// bucket is a fresh filter of `num_bits` bits sized for the configured
    /// capacity; `now` is the current monotonic clock reading in nanoseconds.
    pub fn new(cfg: &BloomDeduperConfig, num_bits: usize, now: u128) -> (r: Option<Self>)
        requires
            num_bits > 0,
        ensures
            r is Some <==> cfg.enabled,
            r matches Some(d) ==> d.wf() && d.buckets_sized() && d@.num_bits == num_bits
                && fresh_ring(d@, cfg, now as int),
    {
        if !cfg.enabled {
            return None;
        }
        let num_buckets: usize = if cfg.buckets >= 1 {
            cfg.buckets
        } else {
            1
        };
        let capacity = cfg.bucket_capacity();
        let mut buckets: Vec<BloomBucket> = Vec::new();
        let mut i: usize = 0;
        while i < num_buckets
            invariant
                i <= num_buckets,
                num_bits > 0,
                buckets.len() == i,
                forall|j: int| 0 <= j < i ==> bucket_items(#[trigger] buckets@[j]) == Set::<Seq<char>>::empty(),
                forall|j: int| 0 <= j < i ==> bucket_sizing(#[trigger] buckets@[j]) == (num_bits as nat, capacity as nat),
            decreases num_buckets - i,
        {
            buckets.push(BloomBucket::build(num_bits, capacity));
            i = i + 1;
        }
        let d = BloomDeduper {
            buckets,
            current: 0,
            last_rotation: now,
            bucket_ttl_secs: cfg.bucket_ttl_secs,
            num_bits,
            capacity,
        };
        assert forall|i: int| 0 <= i < d@.slots.len() implies (#[trigger] d@.slots[i]).is_empty() by {
            assert(d@.slots[i] == bucket_items(d.buckets@[i]));
        }
        Some(d)
    }

    /// The view of a well-formed ring has the ring's shape.
    pub proof fn lemma_wf_shape(&self)
        requires
            self.wf(),
        ensures
            ring_shape(self@),
    {
    }

    /// Records `key` in the active bucket, rotating the ring first if its
    /// bucket lifetime has run out by clock reading `now`.
    pub fn insert(&mut self, key: &str, now: u128)
        requires
            old(self).wf(),
        ensures
            final(self).wf(),
            final(self).buckets_sized(),
            final(self)@ == insert_view(old(self)@, key@, now as int),
    {
        self.rotate_if_due(now);
        let c = self.current;
        let mut b = self.buckets.remove(c);
        b.insert(key);
        self.buckets.insert(c, b);
        assert(self@.slots =~= insert_view(old(self)@, key@, now as int).slots);
    }

    /// Whether the filter of some bucket answers `true` for `key`.
    pub closed spec fn answers(&self, key: Seq<char>) -> bool {
        exists|i: int| 0 <= i < self.buckets@.len() && bucket_answers(#[trigger] self.buckets@[i], key)
    }

    /// Whether some bucket may hold `key`, read without rotating: `true`
    /// exactly when the filter of some bucket answers `true`. Used while no
    /// rotation is due; a recorded key always gives `true`, and a ring that
    /// has recorded nothing always gives `false`.
    pub fn contains_any(&self, key: &str) -> (r: bool)
        requires
            self.wf(),
        ensures
            r == self.answers(key@),
            ring_keys(self@).contains(key@) ==> r,
            ring_keys(self@).is_empty() ==> !r,
    {
        let n = self.buckets.len();
        let mut i: usize = 0;
        while i < n
            invariant
                n == self.buckets.len(),
                i <= n,
                forall|j: int| 0 <= j < i ==> !(#[trigger] self@.slots[j]).contains(key@),
                forall|j: int| 0 <= j < i ==> !bucket_answers(#[trigger] self.buckets@[j], key@),
            decreases n - i,
        {
            assert(self@.slots[i as int] == bucket_items(self.buckets@[i as int]));
            if self.buckets[i].contains(key) {
                proof {
                    let b = self.buckets@[i as int];
                    assert(bucket_answers(b, key@));
                    assert(!bucket_items(b).is_empty());
                    let k = bucket_items(b).choose();
                    assert(bucket_items(b).contains(k));
                    assert(self@.slots[i as int].contains(k));
                    assert(ring_keys(self@).contains(k));
                }
                return true;
            }
            i = i + 1;
        }
        proof {
            assert forall|j: int| 0 <= j < self.buckets@.len() implies !bucket_answers(
                #[trigger] self.buckets@[j],
                key@,
            ) by {}
        }
        false
    }

    /// Whether some bucket may hold `key`, rotating the ring first if its
    /// bucket lifetime has run out by clock reading `now`. A key recorded in
    /// a bucket that survived the rotation always gives `true`; a key never
    /// recorded may still give `true` (a Bloom filter false positive).
    pub fn maybe_contains(&mut self, key: &str, now: u128) -> (r: bool)
        requires
            old(self).wf(),
        ensures
            final(self).wf(),
            final(self).buckets_sized(),
            final(self)@ == rotate_view(old(self)@, now as int),
            r == final(self).answers(key@),
            ring_keys(final(self)@).contains(key@) ==> r,
            ring_keys(final(self)@).is_empty() ==> !r,
    {
        self.rotate_if_due(now);
        self.contains_any(key)
    }
}

/// Rotation keeps the ring's shape and its bucket lifetime.
pub proof fn lemma_rotate_shape(v: RingView, now: int)
    requires
        ring_shape(v),
    ensures
        ring_shape(rotate_view(v, now)),
        rotate_view(v, now).slots.len() == v.slots.len(),
        rotate_view(v, now).ttl_secs == v.ttl_secs,
{
    let n = v.slots.len() as int;
    vstd::arithmetic::div_mod::lemma_mod_bound(v.current + due_steps(v, now), n);
}

/// A key stays known until the ring has gone all the way round: after
/// `insert(key)` at `t1`, a check at `t2` finds the key whenever fewer than
/// as many bucket lifetimes as there are buckets have run out since the
/// rotation that `insert` left behind.
pub proof fn lemma_inserted_key_retained(v: RingView, key: Seq<char>, t1: int, t2: int)
    requires
        ring_shape(v),
    ensures
        ({
            let v1 = insert_view(v, key, t1);
            !rotation_due_spec(v1, t2) || due_steps(v1, t2) < v1.slots.len() ==> ring_keys(
                rotate_view(v1, t2),
            ).contains(key)
        }),
{
    let v1 = insert_view(v, key, t1);
    lemma_rotate_shape(v, t1);
    let n = v1.slots.len() as int;
    let c = v1.current;
    assert(v1.slots[c].contains(key));
    let v2 = rotate_view(v1, t2);
    if !rotation_due_spec(v1, t2) {
        assert(v2.slots[c].contains(key));
    } else if due_steps(v1, t2) < n {
        vstd::arithmetic::div_mod::lemma_mod_add_multiples_vanish(-1, n);
        vstd::arithmetic::div_mod::lemma_small_mod((n - 1) as nat, n as nat);
        assert(offset(c, c, n) == n - 1);
        assert(v2.slots[c].contains(key));
    }
}

/// Narrowing a clock-sized count to a machine word keeps it modulo the word.
proof fn lemma_word_count(x: int)
    requires
        0 <= x <= u128::MAX,
    ensures
        (x as usize) as int == x % (usize::MAX as int + 1),
{
    let y = x as u128;
    assert(y as int == x);
    if usize::BITS == 64 {
        assert((y as usize) as u128 == y % 0x1_0000_0000_0000_0000u128) by (bit_vector)
            requires
                usize::BITS == 64,
        ;
        assert(usize::MAX == 0xffff_ffff_ffff_ffff);
    } else {
        assert(usize::BITS == 32);
        assert((y as usize) as u128 == y % 0x1_0000_0000u128) by (bit_vector)
            requires
                usize::BITS == 32,
        ;
        assert(usize::MAX == 0xffff_ffff);
    }
}

/// The count of due rotations, which the rotation derives from the elapsed
/// milliseconds, is the number of whole bucket lifetimes since the last
/// rotation, narrowed to a machine word.
proof fn lemma_due_steps_word(v: RingView, now: int)
    requires
        v.ttl_secs >= 1,
        0 <= v.last,
        0 <= now <= u128::MAX,
    ensures
        due_steps(v, now) == (elapsed_since(v.last, now) / (v.ttl_secs * NANOS_PER_SEC)) % (
        usize::MAX as int + 1),
{
    let e = elapsed_since(v.last, now);
    let t = v.ttl_secs * NANOS_PER_SEC;
    let tm = ttl_millis(v.ttl_secs) as int;
    assert(tm == v.ttl_secs * 1000);
    vstd::arithmetic::div_mod::lemma_div_denominator(e, 1_000_000, tm);
    assert(1_000_000 * tm == t) by (nonlinear_arith)
        requires
            tm == v.ttl_secs * 1000,
            t == v.ttl_secs * 1_000_000_000,
    ;
    let raw = e / t;
    assert(0 <= raw <= e) by (nonlinear_arith)
        requires
            raw == e / t,
            e >= 0,
            t >= 1,
    ;
    lemma_word_count(raw);
}

/// A key checked within `n - 1` bucket lifetimes of its `insert` is found,
/// `n` being the number of buckets: no false negative while the bucket it went
/// into is still in the ring. The clock readings are those of the `u128`
/// clock, the check comes no earlier than the `insert`, and a rotation that
/// the `insert` sets off part of the way round moves the rotation clock, as
/// the rotation does, by a step count that a `u32` holds.
pub proof fn lemma_retained_since_insert(v: RingView, key: Seq<char>, t0: int, t1: int)
    requires
        ring_shape(v),
        v.slots.len() <= usize::MAX,
        0 <= v.last,
        0 <= t0 <= t1 <= u128::MAX,
        t1 - t0 < (v.slots.len() - 1) * (v.ttl_secs * NANOS_PER_SEC),
        rotation_due_spec(v, t0) && due_steps(v, t0) < v.slots.len() ==> due_steps(v, t0)
            <= u32::MAX,
    ensures
        ring_keys(rotate_view(insert_view(v, key, t0), t1)).contains(key),
{
    let n = v.slots.len() as int;
    let t = v.ttl_secs * NANOS_PER_SEC;
    let w = usize::MAX as int + 1;
    let d = t1 - t0;
    assert(t >= 1) by (nonlinear_arith)
        requires
            0 <= d < (n - 1) * t,
            n >= 1,
            t == v.ttl_secs * 1_000_000_000,
    ;
    assert(v.ttl_secs >= 1);
    let r = rotate_view(v, t0);
    lemma_rotate_shape(v, t0);
    let v1 = insert_view(v, key, t0);
    assert(v1.last == r.last && v1.ttl_secs == v.ttl_secs && v1.slots.len() == n);
    // after the insert, the time to the check is some whole number of word
    // spans of lifetimes plus less than n lifetimes
    let (q, sp) = if !rotation_due_spec(v, t0) {
        (0int, elapsed_since(r.last, t1))
    } else if due_steps(v, t0) >= n {
        (0int, d)
    } else {
        let e0 = t0 - v.last;
        lemma_due_steps_word(v, t0);
        ((e0 / t) / w, d + e0 % t)
    };
    assert(0 <= r.last && 0 <= q && 0 <= sp < n * t && elapsed_since(r.last, t1) == t * w * q + sp)
        by {
        if !rotation_due_spec(v, t0) {
            assert(sp < n * t) by (nonlinear_arith)
                requires
                    sp == elapsed_since(v.last, t1),
                    elapsed_since(v.last, t0) < t,
                    0 <= t0 <= t1,
                    0 <= d < (n - 1) * t,
                    d == t1 - t0,
            ;
        } else if due_steps(v, t0) >= n {
            assert(sp < n * t) by (nonlinear_arith)
                requires
                    sp == d,
                    0 <= d < (n - 1) * t,
                    t >= 1,
            ;
        } else {
            let e0 = t0 - v.last;
            let raw0 = e0 / t;
            let steps0 = due_steps(v, t0);
            assert(e0 >= t);
            assert(steps0 == raw0 % w);
            assert((steps0 as u32) as int == steps0);
            assert(r.last == v.last + t * steps0);
            vstd::arithmetic::div_mod::lemma_fundamental_div_mod(e0, t);
            vstd::arithmetic::div_mod::lemma_fundamental_div_mod(raw0, w);
            vstd::arithmetic::div_mod::lemma_mod_bound(e0, t);
            vstd::arithmetic::div_mod::lemma_mod_bound(raw0, w);
            assert(0 <= raw0) by (nonlinear_arith)
                requires
                    raw0 == e0 / t,
                    e0 >= 0,
                    t >= 1,
            ;
            assert(0 <= q) by (nonlinear_arith)
                requires
                    q == raw0 / w,
                    raw0 >= 0,
                    w >= 1,
            ;
            assert(t * raw0 <= e0);
            assert(t * steps0 <= t * raw0) by (nonlinear_arith)
                requires
                    steps0 <= raw0,
                    t >= 1,
            ;
            assert(t * w * q + sp == d + e0 - t * steps0) by (nonlinear_arith)
                requires
                    e0 == t * raw0 + e0 % t,
                    raw0 == w * q + steps0,
                    sp == d + e0 % t,
            ;
            assert(sp < n * t) by (nonlinear_arith)
                requires
                    sp == d + e0 % t,
                    e0 % t < t,
                    0 <= d < (n - 1) * t,
            ;
        }
    }
    if rotation_due_spec(v1, t1) {
        lemma_due_steps_word(v1, t1);
        let e1 = elapsed_since(v1.last, t1);
        assert(0 <= sp);
        vstd::arithmetic::div_mod::lemma_mod_bound(sp, t);
        assert(e1 == t * (w * q) + sp) by (nonlinear_arith)
            requires
                e1 == t * w * q + sp,
        ;
        vstd::arithmetic::div_mod::lemma_fundamental_div_mod(sp, t);
        let small = sp / t;
        assert(e1 == t * (w * q + small) + sp % t) by (nonlinear_arith)
            requires
                e1 == t * (w * q) + sp,
                sp == t * small + sp % t,
        ;
        vstd::arithmetic::div_mod::lemma_div_multiples_vanish_fancy(w * q + small, sp % t, t);
        vstd::arithmetic::div_mod::lemma_multiply_divide_lt(sp, t, n);
        assert(0 <= small) by (nonlinear_arith)
            requires
                small == sp / t,
                sp >= 0,
                t >= 1,
        ;
        vstd::arithmetic::div_mod::lemma_mod_multiples_vanish(q, small, w);
        vstd::arithmetic::div_mod::lemma_small_mod(small as nat, w as nat);
        assert(due_steps(v1, t1) == small);
        assert(due_steps(v1, t1) < n);
    }
    lemma_inserted_key_retained(v, key, t0, t1);
}

/// Whether bucket `j` is one of the `steps` buckets that follow the active
/// bucket `c` round a ring of `n`: `c + 1`, ..., `c + steps`, modulo `n`.
pub open spec fn in_cleared_range(c: int, steps: int, j: int, n: int) -> bool {
    exists|k: int| 1 <= k <= steps && j == #[trigger] ((c + k) % n)
}

/// The rotation, bucket by bucket: with no lifetime run out nothing changes;
/// with as many lifetimes run out as there are buckets every bucket is
/// emptied and the first becomes active; otherwise, with `steps` lifetimes run
/// out, exactly the buckets `current + 1 ..= current + steps` (round the ring)
/// are emptied, the last of them becomes active, and the rotation clock moves
/// on by `steps` whole lifetimes.
pub proof fn lemma_rotation_by_index_range(v: RingView, now: int)
    requires
        ring_shape(v),
    ensures
        ({
            let n = v.slots.len() as int;
            let steps = due_steps(v, now);
            let r = rotate_view(v, now);
            &&& r.slots.len() == n
            &&& 0 <= r.current < n
            &&& !rotation_due_spec(v, now) ==> r == v
            &&& rotation_due_spec(v, now) && steps >= n ==> {
                &&& r.current == 0
                &&& r.last == now
                &&& forall|j: int| 0 <= j < n ==> (#[trigger] r.slots[j]).is_empty()
            }
            &&& rotation_due_spec(v, now) && steps < n ==> {
                &&& r.current == (v.current + steps) % n
                &&& r.last == v.last + v.ttl_secs * NANOS_PER_SEC * ((steps as u32) as int)
                &&& forall|j: int|
                    0 <= j < n ==> #[trigger] r.slots[j] == if in_cleared_range(
                        v.current,
                        steps,
                        j,
                        n,
                    ) {
                        Set::<Seq<char>>::empty()
                    } else {
                        v.slots[j]
                    }
            }
        }),
{
    let n = v.slots.len() as int;
    let c = v.current;
    let steps = due_steps(v, now);
    lemma_rotate_shape(v, now);
    let r = rotate_view(v, now);
    if rotation_due_spec(v, now) && steps >= n {
        assert forall|j: int| 0 <= j < n implies (#[trigger] r.slots[j]).is_empty() by {}
    }
    if rotation_due_spec(v, now) && steps < n {
        assert(steps >= 0);
        assert forall|j: int| 0 <= j < n implies #[trigger] r.slots[j] == if in_cleared_range(
            c,
            steps,
            j,
            n,
        ) {
            Set::<Seq<char>>::empty()
        } else {
            v.slots[j]
        } by {
            let m = offset(c, j, n);
            vstd::arithmetic::div_mod::lemma_mod_bound(j - c - 1, n);
            lemma_offset_next(c, m, n);
            assert(j == (c + m + 1) % n);
            if m < steps {
                assert(in_cleared_range(c, steps, j, n)) by {
                    assert(1 <= m + 1 <= steps && j == (c + (m + 1)) % n);
                }
            } else if in_cleared_range(c, steps, j, n) {
                let k = choose|k: int| 1 <= k <= steps && j == #[trigger] ((c + k) % n);
                lemma_offset_next(c, k - 1, n);
                assert(offset(c, j, n) == k - 1);
                assert(false);
            }
        }
    }
}

/// While no rotation is due the ring stays as it is, so the read-only fast
/// path (`contains_any` under a read lock) answers as `maybe_contains` would.
pub proof fn lemma_fast_path_agrees(v: RingView, now: int)
    requires
        !rotation_due_spec(v, now),
    ensures
        rotate_view(v, now) == v,
{
}

/// The rotation clock never runs ahead of the clock it reads: a partial
/// rotation advances it by whole bucket lifetimes only, and never past `now`.
pub proof fn lemma_rotation_keeps_clock_behind(v: RingView, now: int)
    requires
        ring_shape(v),
        now >= v.last,
        rotation_due_spec(v, now),
    ensures
        rotate_view(v, now).last <= now,
        due_steps(v, now) < v.slots.len() ==> rotate_view(v, now).last - v.last == v.ttl_secs
            * NANOS_PER_SEC * ((due_steps(v, now) as u32) as int),
{
    let steps = due_steps(v, now);
    if steps < v.slots.len() {
        let e = now - v.last;
        let em = e / 1_000_000;
        let secs = v.ttl_secs as int;
        let tm = ttl_millis(v.ttl_secs) as int;
        let raw = em / tm;
        let t32 = (steps as u32) as int;
        assert(0 <= steps);
        assert(t32 <= steps) by {
            let su = steps as usize;
            assert((su as u32) <= su) by (bit_vector);
        }
        assert(steps <= raw) by {
            let r = raw;
            assert(r >= 0) by (nonlinear_arith)
                requires
                    em >= 0,
                    tm >= 1,
                    r == em / tm,
            ;
            if r <= usize::MAX {
                assert((r as usize) as int == r);
            } else {
                let su = steps as usize;
                assert(su <= usize::MAX);
            }
        }
        assert(raw * tm <= em) by (nonlinear_arith)
            requires
                tm >= 1,
                em >= 0,
                raw == em / tm,
        ;
        assert(1_000_000 * em <= e) by (nonlinear_arith)
            requires
                em == e / 1_000_000,
                e >= 0,
        ;
        assert(secs * 1_000_000_000 * t32 <= e) by (nonlinear_arith)
            requires
                secs >= 0,
                0 <= t32 <= steps,
                steps <= raw,
                raw * tm <= em,
                1_000_000 * em <= e,
                tm == (if secs * 1000 >= 1 {
                    secs * 1000
                } else {
                    1
                }),
        ;
    }
}

/// Once as many bucket lifetimes as there are buckets have run out, the
/// ring forgets every key.
pub proof fn lemma_full_lap_forgets(v: RingView, now: int)
    requires
        ring_shape(v),
        rotation_due_spec(v, now),
        due_steps(v, now) >= v.slots.len(),
    ensures
        ring_keys(rotate_view(v, now)) == Set::<Seq<char>>::empty(),
{
    assert(ring_keys(rotate_view(v, now)) =~= Set::<Seq<char>>::empty());
}

} // verus!
