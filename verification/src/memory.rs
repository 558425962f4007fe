//! Size-bucketed buffer pool: which bucket a request falls in, reuse of
//! returned buffers, idle-time and LRU eviction, and pool statistics.

use vstd::prelude::*;

verus! {

/// Number of size buckets.
pub const NUM_BUCKETS: usize = 21;

/// Byte size of bucket `i` (1KB, 4KB, ... 64GB, 80GB).
pub open spec fn spec_bucket_size(i: int) -> u64 {
    if i == 0 { 1024 }
    else if i == 1 { 4096 }
    else if i == 2 { 16384 }
    else if i == 3 { 65536 }
    else if i == 4 { 262144 }
    else if i == 5 { 1048576 }
    else if i == 6 { 1572864 }
    else if i == 7 { 2097152 }
    else if i == 8 { 3145728 }
    else if i == 9 { 4194304 }
    else if i == 10 { 16777216 }
    else if i == 11 { 67108864 }
    else if i == 12 { 268435456 }
    else if i == 13 { 1073741824 }
    else if i == 14 { 2147483648 }
    else if i == 15 { 4294967296 }
    else if i == 16 { 8589934592 }
    else if i == 17 { 17179869184 }
    else if i == 18 { 34359738368 }
    else if i == 19 { 68719476736 }
    else { 85899345920 }
}

/// The bucket a request of `size` bytes is served from: the first bucket
/// large enough, or the last bucket when none is.
pub open spec fn spec_bucket_for(size: u64) -> int {
    if exists|i: int| 0 <= i < NUM_BUCKETS && size <= #[trigger] spec_bucket_size(i) {
        choose|i: int|
            0 <= i < NUM_BUCKETS && size <= #[trigger] spec_bucket_size(i) && forall|j: int|
                0 <= j < i ==> size > spec_bucket_size(j)
    } else {
        NUM_BUCKETS - 1
    }
}

/// Bucket sizes grow strictly.
pub proof fn lemma_bucket_sizes_increase(i: int, j: int)
    requires
        0 <= i < j < NUM_BUCKETS,
    ensures
        spec_bucket_size(i) < spec_bucket_size(j),
    decreases j - i,
{
    if j > i + 1 {
        lemma_bucket_sizes_increase(i, j - 1);
    }
}

/// Byte size of a bucket.
pub fn bucket_size(idx: usize) -> (r: u64)
    requires
        idx < NUM_BUCKETS,
    ensures
        r == spec_bucket_size(idx as int),
{
    match idx {
        0 => 1024,
        1 => 4096,
        2 => 16384,
        3 => 65536,
        4 => 262144,
        5 => 1048576,
        6 => 1572864,
        7 => 2097152,
        8 => 3145728,
        9 => 4194304,
        10 => 16777216,
        11 => 67108864,
        12 => 268435456,
        13 => 1073741824,
        14 => 2147483648,
        15 => 4294967296,
        16 => 8589934592,
        17 => 17179869184,
        18 => 34359738368,
        19 => 68719476736,
        _ => 85899345920,
    }
}

/// Index of the smallest bucket that holds `size` bytes; requests larger than
/// the last bucket map to the last bucket.
pub fn bucket_for(size: u64) -> (r: usize)
    ensures
        r < NUM_BUCKETS,
        r == spec_bucket_for(size),
        size <= spec_bucket_size(NUM_BUCKETS - 1) ==> size <= spec_bucket_size(r as int),
        forall|j: int| 0 <= j < r ==> size > spec_bucket_size(j),
{
    let mut i: usize = 0;
    while i < NUM_BUCKETS
        invariant
            i <= NUM_BUCKETS,
            forall|j: int| 0 <= j < i ==> size > spec_bucket_size(j),
        decreases NUM_BUCKETS - i,
    {
        if size <= bucket_size(i) {
            proof {
                let c = choose|c: int|
                    0 <= c < NUM_BUCKETS && size <= #[trigger] spec_bucket_size(c) && forall|j: int|
                        0 <= j < c ==> size > spec_bucket_size(j);
                assert(0 <= i < NUM_BUCKETS && size <= spec_bucket_size(i as int) && forall|j: int|
                    0 <= j < i ==> size > spec_bucket_size(j));
                if c < i {
                    assert(size > spec_bucket_size(c));
                } else if c > i {
                    assert(size > spec_bucket_size(i as int));
                }
            }
            return i;
        }
        i = i + 1;
    }
    proof {
        assert(!exists|k: int| 0 <= k < NUM_BUCKETS && size <= #[trigger] spec_bucket_size(k));
    }
    NUM_BUCKETS - 1
}


/// `MAP_READ` buffer-usage bit.
pub const MAP_READ: u32 = 1;
/// `MAP_WRITE` buffer-usage bit.
pub const MAP_WRITE: u32 = 2;
/// `COPY_SRC` buffer-usage bit.
pub const COPY_SRC: u32 = 4;
/// `COPY_DST` buffer-usage bit.
pub const COPY_DST: u32 = 8;

/// Default per-bucket capacity of a pool.
pub const MAX_POOL_CAPACITY: usize = 512;
/// Above this many idle buffers in total, the least recently returned one is evicted.
pub const LRU_EVICT_THRESHOLD: usize = 384;
/// Idle buffers older than this (in nanoseconds) are discarded.
pub const EVICTION_TTL_NANOS: u64 = 30_000_000_000;

/// A buffer handed out by the pool, with the bucket size and usage it was
/// requested under.
pub struct PooledBuffer<B> {
    pub buffer: B,
    pub size: u64,
    pub usage: u32,
    pub pool_key: Option<(usize, u32)>,
}

impl<B> PooledBuffer<B> {
    /// A buffer that is not tied to any free list: returning it drops it.
    pub fn unpooled(buffer: B, size: u64, usage: u32) -> (r: Self)
        ensures
            r.buffer == buffer,
            r.size == size,
            r.usage == usage,
            r.pool_key == None::<(usize, u32)>,
    {
        PooledBuffer { buffer, size, usage, pool_key: None }
    }
}

/// A buffer the pool could not serve from its free lists: the caller creates
/// a device buffer of `size` bytes with `create_usage`, then wraps it.
pub struct CreateRequest {
    pub size: u64,
    pub usage: u32,
    pub create_usage: u32,
    pub bucket: usize,
}

impl CreateRequest {
    /// Wrap the freshly created device buffer.
    pub fn into_pooled<B>(self, buffer: B) -> (r: PooledBuffer<B>)
        ensures
            r.buffer == buffer,
            r.size == self.size,
            r.usage == self.usage,
            r.pool_key == Some((self.bucket, self.usage)),
    {
        PooledBuffer { buffer, size: self.size, usage: self.usage, pool_key: Some((self.bucket, self.usage)) }
    }
}

/// Outcome of a pool allocation.
pub enum AllocAction<B> {
    /// A returned buffer of the right bucket and usage is handed out again.
    Reuse(PooledBuffer<B>),
    /// No such buffer was idle; a new one must be created.
    Create(CreateRequest),
}

/// The usage a new buffer is created with: mappable buffers get nothing extra,
/// all others may also be copied from and to.
pub open spec fn spec_create_usage(usage: u32) -> u32 {
    if usage & MAP_READ != 0 || usage & MAP_WRITE != 0 {
        usage
    } else {
        usage | COPY_DST | COPY_SRC
    }
}

/// Counters of a pool.
#[derive(Debug, Clone, Copy)]
pub struct PoolStats {
    pub allocs: u64,
    pub deallocs: u64,
    pub cache_hits: u64,
    pub cache_misses: u64,
    pub bytes_allocated: u64,
    pub bytes_reused: u64,
    pub dealloc_dropped: u64,
}

impl PoolStats {
    /// All counters at zero.
    pub open spec fn zeroed(self) -> bool {
        &&& self.allocs == 0
        &&& self.deallocs == 0
        &&& self.cache_hits == 0
        &&& self.cache_misses == 0
        &&& self.bytes_allocated == 0
        &&& self.bytes_reused == 0
        &&& self.dealloc_dropped == 0
    }
}

impl Default for PoolStats {
    fn default() -> (r: Self)
        ensures
            r.zeroed(),
    {
        PoolStats {
            allocs: 0,
            deallocs: 0,
            cache_hits: 0,
            cache_misses: 0,
            bytes_allocated: 0,
            bytes_reused: 0,
            dealloc_dropped: 0,
        }
    }
}

/// An idle-buffer list for one `(bucket, usage)` key, oldest first.
struct FreeList<B> {
    key: (usize, u32),
    items: Vec<(B, u64)>,
}

/// Whether an idle buffer returned at `stamp` has outlived the TTL at `now`.
pub open spec fn is_expired(stamp: u64, now: u64) -> bool {
    stamp + EVICTION_TTL_NANOS < now
}

/// Number of leading expired entries of a list.
pub open spec fn expired_prefix_len<B>(items: Seq<(B, u64)>, now: u64) -> nat
    decreases items.len(),
{
    if items.len() > 0 && is_expired(items[0].1, now) {
        1 + expired_prefix_len(items.drop_first(), now)
    } else {
        0
    }
}

/// A list with its leading expired entries removed.
pub open spec fn prune_expired<B>(items: Seq<(B, u64)>, now: u64) -> Seq<(B, u64)> {
    items.skip(expired_prefix_len(items, now) as int)
}

/// `after` is `before` with one entry evicted: the front of a non-empty list
/// whose front is at least as old as every other list's front.
pub open spec fn evicts_oldest_front<B>(
    before: Map<(usize, u32), Seq<(B, u64)>>,
    after: Map<(usize, u32), Seq<(B, u64)>>,
) -> bool {
    exists|kv: (usize, u32)|
        {
            &&& before[kv].len() > 0
            &&& forall|k2: (usize, u32)|
                #![trigger before[k2]]
                before[k2].len() > 0 ==> before[kv][0].1 <= before[k2][0].1
            &&& after == before.insert(kv, before[kv].drop_first())
        }
}

spec fn lookup<B>(s: Seq<FreeList<B>>, k: (usize, u32)) -> Seq<(B, u64)> {
    if exists|i: int| 0 <= i < s.len() && s[i].key == k {
        s[choose|i: int| 0 <= i < s.len() && s[i].key == k].items@
    } else {
        Seq::empty()
    }
}

spec fn keys_unique<B>(s: Seq<FreeList<B>>) -> bool {
    forall|i: int, j: int| 0 <= i < s.len() && 0 <= j < s.len() && i != j ==> s[i].key != s[j].key
}

spec fn sum_lens<B>(s: Seq<FreeList<B>>) -> nat
    decreases s.len(),
{
    if s.len() == 0 {
        0
    } else {
        sum_lens(s.drop_last()) + s.last().items@.len()
    }
}

proof fn lemma_lookup_at<B>(s: Seq<FreeList<B>>, i: int)
    requires
        keys_unique(s),
        0 <= i < s.len(),
    ensures
        lookup(s, s[i].key) == s[i].items@,
{
    let k = s[i].key;
    assert(exists|j: int| 0 <= j < s.len() && s[j].key == k);
    let c = choose|j: int| 0 <= j < s.len() && s[j].key == k;
    assert(c == i);
}

proof fn lemma_lookup_update<B>(s: Seq<FreeList<B>>, i: int, x: FreeList<B>)
    requires
        keys_unique(s),
        0 <= i < s.len(),
        x.key == s[i].key,
    ensures
        keys_unique(s.update(i, x)),
        forall|k: (usize, u32)|
            #[trigger] lookup(s.update(i, x), k) == if k == x.key {
                x.items@
            } else {
                lookup(s, k)
            },
{
    let t = s.update(i, x);
    assert forall|k: (usize, u32)|
        #[trigger] lookup(t, k) == if k == x.key {
            x.items@
        } else {
            lookup(s, k)
        } by {
        if k == x.key {
            lemma_lookup_at(t, i);
        } else {
            if exists|j: int| 0 <= j < s.len() && s[j].key == k {
                let j = choose|j: int| 0 <= j < s.len() && s[j].key == k;
                lemma_lookup_at(s, j);
                lemma_lookup_at(t, j);
            } else {
                assert(!exists|j: int| 0 <= j < t.len() && t[j].key == k) by {
                    if exists|j: int| 0 <= j < t.len() && t[j].key == k {
                        let j = choose|j: int| 0 <= j < t.len() && t[j].key == k;
                        assert(s[j].key == k);
                    }
                }
            }
        }
    }
}

proof fn lemma_lookup_remove<B>(s: Seq<FreeList<B>>, i: int)
    requires
        keys_unique(s),
        0 <= i < s.len(),
    ensures
        keys_unique(s.remove(i)),
        forall|k: (usize, u32)|
            #[trigger] lookup(s.remove(i), k) == if k == s[i].key {
                Seq::empty()
            } else {
                lookup(s, k)
            },
{
    let t = s.remove(i);
    assert forall|a: int, b: int| 0 <= a < t.len() && 0 <= b < t.len() && a != b implies t[a].key != t[b].key by {
        let a2 = if a < i { a } else { a + 1 };
        let b2 = if b < i { b } else { b + 1 };
        assert(t[a] == s[a2]);
        assert(t[b] == s[b2]);
    }
    assert forall|k: (usize, u32)|
        #[trigger] lookup(t, k) == if k == s[i].key {
            Seq::empty()
        } else {
            lookup(s, k)
        } by {
        if k == s[i].key {
            assert(!exists|j: int| 0 <= j < t.len() && t[j].key == k) by {
                if exists|j: int| 0 <= j < t.len() && t[j].key == k {
                    let j = choose|j: int| 0 <= j < t.len() && t[j].key == k;
                    let j2 = if j < i { j } else { j + 1 };
                    assert(t[j] == s[j2]);
                }
            }
        } else {
            if exists|j: int| 0 <= j < s.len() && s[j].key == k {
                let j = choose|j: int| 0 <= j < s.len() && s[j].key == k;
                lemma_lookup_at(s, j);
                let j3 = if j < i { j } else { j - 1 };
                assert(t[j3] == s[j]);
                lemma_lookup_at(t, j3);
            } else {
                assert(!exists|j: int| 0 <= j < t.len() && t[j].key == k) by {
                    if exists|j: int| 0 <= j < t.len() && t[j].key == k {
                        let j = choose|j: int| 0 <= j < t.len() && t[j].key == k;
                        let j2 = if j < i { j } else { j + 1 };
                        assert(t[j] == s[j2]);
                    }
                }
            }
        }
    }
}

proof fn lemma_lookup_push<B>(s: Seq<FreeList<B>>, x: FreeList<B>)
    requires
        keys_unique(s),
        forall|j: int| 0 <= j < s.len() ==> s[j].key != x.key,
    ensures
        keys_unique(s.push(x)),
        forall|k: (usize, u32)|
            #[trigger] lookup(s.push(x), k) == if k == x.key {
                x.items@
            } else {
                lookup(s, k)
            },
{
    let t = s.push(x);
    assert forall|a: int, b: int| 0 <= a < t.len() && 0 <= b < t.len() && a != b implies t[a].key != t[b].key by {
        if a < s.len() {
            assert(t[a] == s[a]);
        }
        if b < s.len() {
            assert(t[b] == s[b]);
        }
    }
    assert forall|k: (usize, u32)|
        #[trigger] lookup(t, k) == if k == x.key {
            x.items@
        } else {
            lookup(s, k)
        } by {
        if k == x.key {
            lemma_lookup_at(t, s.len() as int);
        } else {
            if exists|j: int| 0 <= j < s.len() && s[j].key == k {
                let j = choose|j: int| 0 <= j < s.len() && s[j].key == k;
                lemma_lookup_at(s, j);
                assert(t[j] == s[j]);
                lemma_lookup_at(t, j);
            } else {
                assert(!exists|j: int| 0 <= j < t.len() && t[j].key == k) by {
                    if exists|j: int| 0 <= j < t.len() && t[j].key == k {
                        let j = choose|j: int| 0 <= j < t.len() && t[j].key == k;
                        assert(t[j] == s[j]);
                    }
                }
            }
        }
    }
}

proof fn lemma_sum_update<B>(s: Seq<FreeList<B>>, i: int, x: FreeList<B>)
    requires
        0 <= i < s.len(),
    ensures
        sum_lens(s.update(i, x)) == sum_lens(s) - s[i].items@.len() + x.items@.len(),
    decreases s.len(),
{
    let t = s.update(i, x);
    if i == s.len() - 1 {
        assert(t.drop_last() =~= s.drop_last());
    } else {
        assert(t.drop_last() =~= s.drop_last().update(i, x));
        lemma_sum_update(s.drop_last(), i, x);
    }
}

proof fn lemma_sum_remove<B>(s: Seq<FreeList<B>>, i: int)
    requires
        0 <= i < s.len(),
    ensures
        sum_lens(s.remove(i)) == sum_lens(s) - s[i].items@.len(),
    decreases s.len(),
{
    let t = s.remove(i);
    if i == s.len() - 1 {
        assert(t =~= s.drop_last());
    } else {
        assert(t.drop_last() =~= s.drop_last().remove(i));
        assert(t.last() == s.last());
        lemma_sum_remove(s.drop_last(), i);
    }
}

proof fn lemma_sum_push<B>(s: Seq<FreeList<B>>, x: FreeList<B>)
    ensures
        sum_lens(s.push(x)) == sum_lens(s) + x.items@.len(),
{
    assert(s.push(x).drop_last() =~= s);
}

proof fn lemma_sum_nonempty<B>(s: Seq<FreeList<B>>)
    requires
        sum_lens(s) > 0,
    ensures
        exists|i: int| 0 <= i < s.len() && s[i].items@.len() > 0,
    decreases s.len(),
{
    if s.last().items@.len() > 0 {
        assert(s[s.len() - 1].items@.len() > 0);
    } else {
        lemma_sum_nonempty(s.drop_last());
        let i = choose|i: int| 0 <= i < s.drop_last().len() && s.drop_last()[i].items@.len() > 0;
        assert(s[i] == s.drop_last()[i]);
    }
}

proof fn lemma_expired_prefix_bound<B>(items: Seq<(B, u64)>, now: u64)
    ensures
        expired_prefix_len(items, now) <= items.len(),
    decreases items.len(),
{
    if items.len() > 0 && is_expired(items[0].1, now) {
        lemma_expired_prefix_bound(items.drop_first(), now);
    }
}

/// Drop the expired entries at the front of a list.
fn evict_expired_in_bucket<B>(items: &mut Vec<(B, u64)>, now: u64) -> (removed: usize)
    ensures
        final(items)@ == prune_expired(old(items)@, now),
        removed == old(items)@.len() - final(items)@.len(),
{
    let ghost orig = items@;
    let mut removed: usize = 0;
    let n0 = items.len();
    proof {
        lemma_expired_prefix_bound(orig, now);
    }
    while items.len() > 0 && now > items[0].1 && now - items[0].1 > EVICTION_TTL_NANOS
        invariant
            removed <= orig.len(),
            orig.len() == n0,
            removed + items@.len() == orig.len(),
            items@ == orig.skip(removed as int),
            expired_prefix_len(orig, now) == removed + expired_prefix_len(items@, now),
        decreases items.len(),
    {
        let ghost cur = items@;
        assert(is_expired(cur[0].1, now));
        items.remove(0);
        assert(items@ =~= orig.skip(removed + 1));
        assert(cur.drop_first() =~= items@);
        removed = removed + 1;
    }
    proof {
        assert(expired_prefix_len(items@, now) == 0);
    }
    removed
}

/// A size-bucketed pool of idle buffers, keyed by `(bucket, usage)`.
///
/// The idle lists form an association list: a `Vec` of `(key, list)` pairs
/// with each key at most once, whose lookups, updates and removals are
/// specified exactly for the tuple key; each list keeps its buffers oldest
/// first.
pub struct GpuMemoryPool<B> {
    free_buffers: Vec<FreeList<B>>,
    total_free: usize,
    stats: PoolStats,
    max_capacity: usize,
}

impl<B> GpuMemoryPool<B> {
    /// Idle buffers of the list for key `k`, oldest first (empty if none).
    pub closed spec fn free_list(&self, k: (usize, u32)) -> Seq<(B, u64)> {
        lookup(self.free_buffers@, k)
    }

    /// All idle-buffer lists by key.
    pub open spec fn free_map(&self) -> Map<(usize, u32), Seq<(B, u64)>> {
        Map::total(|k: (usize, u32)| self.free_list(k))
    }

    /// Number of idle buffers across all lists.
    pub closed spec fn spec_total_free(&self) -> nat {
        sum_lens(self.free_buffers@)
    }

    /// Pool counters.
    pub closed spec fn spec_stats(&self) -> PoolStats {
        self.stats
    }

    /// Per-list capacity.
    pub closed spec fn spec_max_capacity(&self) -> usize {
        self.max_capacity
    }

    spec fn inv(&self) -> bool {
        &&& keys_unique(self.free_buffers@)
        &&& self.total_free == sum_lens(self.free_buffers@)
    }

    /// Internal consistency; also bounds the idle count by the LRU threshold.
    pub closed spec fn wf(&self) -> bool {
        &&& self.inv()
        &&& self.total_free <= LRU_EVICT_THRESHOLD
    }

    /// An empty pool with default capacity.
    pub fn new() -> (r: Self)
        ensures
            r.wf(),
            forall|k: (usize, u32)| #[trigger] r.free_list(k) == Seq::<(B, u64)>::empty(),
            r.spec_total_free() == 0,
            r.spec_stats().zeroed(),
            r.spec_max_capacity() == MAX_POOL_CAPACITY,
    {
        GpuMemoryPool {
            free_buffers: Vec::new(),
            total_free: 0,
            stats: PoolStats::default(),
            max_capacity: MAX_POOL_CAPACITY,
        }
    }

    /// The pool with a different per-list capacity.
    pub fn with_max_capacity(self, max: usize) -> (r: Self)
        requires
            self.wf(),
        ensures
            r.wf(),
            r.free_map() == self.free_map(),
            r.spec_total_free() == self.spec_total_free(),
            r.spec_stats() == self.spec_stats(),
            r.spec_max_capacity() == max,
    {
        let mut s = self;
        s.max_capacity = max;
        s
    }

    /// Pool counters.
    pub fn stats(&self) -> (r: &PoolStats)
        ensures
            *r == self.spec_stats(),
    {
        &self.stats
    }

    /// Per-list capacity.
    pub fn max_capacity(&self) -> (r: usize)
        ensures
            r == self.spec_max_capacity(),
    {
        self.max_capacity
    }

    /// Number of idle buffers across all lists.
    pub fn total_free_count(&self) -> (r: usize)
        requires
            self.wf(),
        ensures
            r == self.spec_total_free(),
    {
        self.total_free
    }

    fn find_list(&self, key: (usize, u32)) -> (r: Option<usize>)
        ensures
            match r {
                Some(i) => i < self.free_buffers@.len() && self.free_buffers@[i as int].key == key,
                None => forall|j: int|
                    0 <= j < self.free_buffers@.len() ==> self.free_buffers@[j].key != key,
            },
    {
        let mut i: usize = 0;
        while i < self.free_buffers.len()
            invariant
                i <= self.free_buffers@.len(),
                forall|j: int| 0 <= j < i ==> self.free_buffers@[j].key != key,
            decreases self.free_buffers@.len() - i,
        {
            if self.free_buffers[i].key.0 == key.0 && self.free_buffers[i].key.1 == key.1 {
                return Some(i);
            }
            i = i + 1;
        }
        None
    }

    /// What `allocate(size, usage)` does: `after` is the pool afterwards and `r`
    /// the result.
    pub open spec fn alloc_effect(self, after: Self, size: u64, usage: u32, r: AllocAction<B>) -> bool {
        let k = (spec_bucket_for(size) as usize, usage);
        let l = self.free_list(k);
        let bsz = spec_bucket_size(spec_bucket_for(size));
        let st = self.spec_stats();
        let st2 = after.spec_stats();
        &&& after.spec_max_capacity() == self.spec_max_capacity()
        &&& if l.len() > 0 {
            &&& r matches AllocAction::Reuse(pb) && pb.buffer == l.last().0 && pb.size == bsz
                && pb.usage == usage && pb.pool_key == Some(k)
            &&& after.free_map() == self.free_map().insert(k, l.drop_last())
            &&& after.spec_total_free() == self.spec_total_free() - 1
            &&& st2 == (PoolStats {
                cache_hits: (st.cache_hits + 1) as u64,
                bytes_reused: (st.bytes_reused + bsz) as u64,
                ..st
            })
        } else {
            &&& r matches AllocAction::Create(c) && c.size == bsz && c.usage == usage
                && c.create_usage == spec_create_usage(usage) && c.bucket == k.0
            &&& after.free_map() == self.free_map()
            &&& after.spec_total_free() == self.spec_total_free()
            &&& st2 == (PoolStats {
                cache_misses: (st.cache_misses + 1) as u64,
                allocs: (st.allocs + 1) as u64,
                bytes_allocated: (st.bytes_allocated + bsz) as u64,
                ..st
            })
        }
    }

    /// The list for `k` after a buffer was returned to it at `now`: expired
    /// entries pruned, then the buffer appended unless the list is full.
    pub open spec fn list_after_return(self, k: (usize, u32), buffer: B, now: u64) -> Seq<(B, u64)> {
        let p = prune_expired(self.free_list(k), now);
        if p.len() >= self.spec_max_capacity() {
            p
        } else {
            p.push((buffer, now))
        }
    }

    /// What `dealloc(buf, now)` does: `after` is the pool afterwards.
    pub open spec fn dealloc_effect(self, after: Self, buf: PooledBuffer<B>, now: u64) -> bool {
        let st = self.spec_stats();
        let st2 = after.spec_stats();
        &&& after.spec_max_capacity() == self.spec_max_capacity()
        &&& st2.deallocs == st.deallocs + 1
        &&& st2.allocs == st.allocs
        &&& st2.cache_hits == st.cache_hits
        &&& st2.cache_misses == st.cache_misses
        &&& st2.bytes_allocated == st.bytes_allocated
        &&& st2.bytes_reused == st.bytes_reused
        &&& match buf.pool_key {
            None => {
                &&& after.free_map() == self.free_map()
                &&& after.spec_total_free() == self.spec_total_free()
                &&& st2.dealloc_dropped == st.dealloc_dropped
            },
            Some(k) => {
                let p = prune_expired(self.free_list(k), now);
                let dropped = p.len() >= self.spec_max_capacity();
                let q = self.list_after_return(k, buf.buffer, now);
                let mid = self.free_map().insert(k, q);
                let mid_total = self.spec_total_free() - self.free_list(k).len() + q.len();
                &&& st2.dealloc_dropped == st.dealloc_dropped + if dropped {
                    1int
                } else {
                    0int
                }
                &&& mid_total <= LRU_EVICT_THRESHOLD ==> after.free_map() == mid
                    && after.spec_total_free() == mid_total
                &&& mid_total > LRU_EVICT_THRESHOLD ==> evicts_oldest_front(mid, after.free_map())
                    && after.spec_total_free() == LRU_EVICT_THRESHOLD
            },
        }
    }

    /// Whether the counters an allocation of `size` bytes with `usage` bumps
    /// have room left.
    pub open spec fn alloc_fits(&self, size: u64, usage: u32) -> bool {
        let k = (spec_bucket_for(size) as usize, usage);
        let bsz = spec_bucket_size(spec_bucket_for(size));
        let st = self.spec_stats();
        if self.free_list(k).len() > 0 {
            st.cache_hits < u64::MAX && st.bytes_reused + bsz <= u64::MAX
        } else {
            st.cache_misses < u64::MAX && st.allocs < u64::MAX && st.bytes_allocated + bsz
                <= u64::MAX
        }
    }

    /// Serve a request of `size` bytes with `usage`: hand out the most recently
    /// returned idle buffer of its `(bucket, usage)` list, or ask for a new one
    /// of the bucket's size.
    pub fn allocate(&mut self, size: u64, usage: u32) -> (r: AllocAction<B>)
        requires
            old(self).wf(),
            old(self).alloc_fits(size, usage),
        ensures
            final(self).wf(),
            old(self).alloc_effect(*final(self), size, usage, r),
    {
        let bucket = bucket_for(size);
        let b_size = bucket_size(bucket);
        let key = (bucket, usage);
        let ghost s0 = self.free_buffers@;
        let ghost old_map = self.free_map();
        let found = self.find_list(key);
        if let Some(i) = found {
            proof {
                lemma_lookup_at(s0, i as int);
            }
            if self.free_buffers[i].items.len() > 0 {
                let popped = self.free_buffers[i].items.pop();
                let entry = popped.unwrap();
                let ghost s1 = self.free_buffers@;
                proof {
                    assert(s1 == s0.update(i as int, s1[i as int]));
                    lemma_lookup_update(s0, i as int, s1[i as int]);
                    lemma_sum_update(s0, i as int, s1[i as int]);
                }
                if self.free_buffers[i].items.len() == 0 {
                    self.free_buffers.remove(i);
                    proof {
                        lemma_lookup_remove(s1, i as int);
                        lemma_sum_remove(s1, i as int);
                    }
                }
                self.total_free = self.total_free - 1;
                self.stats.cache_hits = self.stats.cache_hits + 1;
                self.stats.bytes_reused = self.stats.bytes_reused + b_size;
                proof {
                    let l = s0[i as int].items@;
                    assert forall|k: (usize, u32)|
                        #[trigger] self.free_list(k) == old_map.insert(key, l.drop_last())[k] by {
                        if k == key {
                            assert(s1[i as int].items@ =~= l.drop_last());
                        }
                    }
                    assert(self.free_map() =~= old_map.insert(key, l.drop_last()));
                }
                return AllocAction::Reuse(
                    PooledBuffer { buffer: entry.0, size: b_size, usage, pool_key: Some(key) },
                );
            } else {
                let ghost s1 = self.free_buffers@;
                self.free_buffers.remove(i);
                proof {
                    lemma_lookup_remove(s1, i as int);
                    lemma_sum_remove(s1, i as int);
                    assert forall|k: (usize, u32)| #[trigger] self.free_list(k) == old_map[k] by {
                        if k == key {
                            assert(s1[i as int].items@ =~= Seq::<(B, u64)>::empty());
                        }
                    }
                    assert(self.free_map() =~= old_map);
                }
            }
        } else {
            proof {
                assert(!exists|j: int| 0 <= j < s0.len() && s0[j].key == key);
            }
        }
        self.stats.cache_misses = self.stats.cache_misses + 1;
        self.stats.allocs = self.stats.allocs + 1;
        self.stats.bytes_allocated = self.stats.bytes_allocated + b_size;
        let create_usage = if usage & MAP_READ != 0 || usage & MAP_WRITE != 0 {
            usage
        } else {
            usage | COPY_DST | COPY_SRC
        };
        proof {
            assert(self.free_map() =~= old_map);
        }
        AllocAction::Create(CreateRequest { size: b_size, usage, create_usage, bucket })
    }

    /// Evict the front of a list whose front is the oldest of all fronts.
    fn evict_one_lru(&mut self)
        requires
            old(self).inv(),
            old(self).spec_total_free() > 0,
        ensures
            final(self).inv(),
            final(self).spec_total_free() == old(self).spec_total_free() - 1,
            evicts_oldest_front(old(self).free_map(), final(self).free_map()),
            final(self).spec_stats() == old(self).spec_stats(),
            final(self).spec_max_capacity() == old(self).spec_max_capacity(),
    {
        let ghost s0 = self.free_buffers@;
        let ghost old_map = self.free_map();
        let mut best: usize = 0;
        let mut best_time: u64 = 0;
        let mut found = false;
        let mut i: usize = 0;
        while i < self.free_buffers.len()
            invariant
                self.free_buffers@ == s0,
                i <= s0.len(),
                found ==> best < i && s0[best as int].items@.len() > 0 && best_time
                    == s0[best as int].items@[0].1,
                found ==> forall|j: int|
                    0 <= j < i && s0[j].items@.len() > 0 ==> best_time <= s0[j].items@[0].1,
                !found ==> forall|j: int| 0 <= j < i ==> s0[j].items@.len() == 0,
            decreases s0.len() - i,
        {
            if self.free_buffers[i].items.len() > 0 {
                let t = self.free_buffers[i].items[0].1;
                if !found || t < best_time {
                    best = i;
                    best_time = t;
                    found = true;
                }
            }
            i = i + 1;
        }
        proof {
            lemma_sum_nonempty(s0);
        }
        if found {
            let ghost kv = s0[best as int].key;
            let ghost l = s0[best as int].items@;
            self.free_buffers[best].items.remove(0);
            let ghost s1 = self.free_buffers@;
            proof {
                assert(s1 == s0.update(best as int, s1[best as int]));
                lemma_lookup_update(s0, best as int, s1[best as int]);
                lemma_sum_update(s0, best as int, s1[best as int]);
                lemma_lookup_at(s0, best as int);
            }
            if self.free_buffers[best].items.len() == 0 {
                self.free_buffers.remove(best);
                proof {
                    lemma_lookup_remove(s1, best as int);
                    lemma_sum_remove(s1, best as int);
                }
            }
            self.total_free = self.total_free - 1;
            proof {
                assert(s1[best as int].items@ =~= l.drop_first());
                assert forall|k: (usize, u32)|
                    #[trigger] self.free_list(k) == old_map.insert(kv, l.drop_first())[k] by {
                    if k == kv {
                        assert(s1[best as int].items@ =~= l.drop_first());
                    }
                }
                assert(self.free_map() =~= old_map.insert(kv, old_map[kv].drop_first()));
                assert forall|k2: (usize, u32)|
                    #![trigger old_map[k2]]
                    old_map[k2].len() > 0 implies old_map[kv][0].1 <= old_map[k2][0].1 by {
                    if exists|j: int| 0 <= j < s0.len() && s0[j].key == k2 {
                        let j = choose|j: int| 0 <= j < s0.len() && s0[j].key == k2;
                        lemma_lookup_at(s0, j);
                    }
                }
            }
        }
    }

    /// Return a buffer to its list at time `now`: expired entries of that list
    /// are dropped first, the buffer is dropped if the list is full, and if the
    /// pool then holds more than the LRU threshold, the oldest idle buffer goes.
    pub fn dealloc(&mut self, buf: PooledBuffer<B>, now: u64)
        requires
            old(self).wf(),
            old(self).spec_stats().deallocs < u64::MAX,
            old(self).spec_stats().dealloc_dropped < u64::MAX,
        ensures
            final(self).wf(),
            old(self).dealloc_effect(*final(self), buf, now),
    {
        let ghost pre = self.free_map();
        self.stats.deallocs = self.stats.deallocs + 1;
        match buf.pool_key {
            None => {
                proof {
                    assert(self.free_map() =~= old(self).free_map());
                }
            },
            Some(key) => {
                let ghost old_map = self.free_map();
                let ghost old_total = self.spec_total_free();
                let ghost s00 = self.free_buffers@;
                let found = self.find_list(key);
                let i = match found {
                    Some(i) => i,
                    None => {
                        let fresh = FreeList { key, items: Vec::new() };
                        let ghost fresh_g = fresh;
                        self.free_buffers.push(fresh);
                        proof {
                            lemma_lookup_push(s00, fresh_g);
                            lemma_sum_push(s00, fresh_g);
                            assert forall|k: (usize, u32)| #[trigger] self.free_list(k) == old_map[k] by {
                                if k == key {
                                    assert(!exists|j: int| 0 <= j < s00.len() && s00[j].key == key);
                                }
                            }
                        }
                        self.free_buffers.len() - 1
                    },
                };
                let ghost s0 = self.free_buffers@;
                proof {
                    lemma_lookup_at(s0, i as int);
                }
                let removed = evict_expired_in_bucket(&mut self.free_buffers[i].items, now);
                let ghost s1 = self.free_buffers@;
                proof {
                    assert(s1 == s0.update(i as int, s1[i as int]));
                    lemma_lookup_update(s0, i as int, s1[i as int]);
                    lemma_sum_update(s0, i as int, s1[i as int]);
                }
                self.total_free = self.total_free - removed;
                if self.free_buffers[i].items.len() >= self.max_capacity {
                    self.stats.dealloc_dropped = self.stats.dealloc_dropped + 1;
                } else {
                    self.free_buffers[i].items.push((buf.buffer, now));
                    let ghost s2 = self.free_buffers@;
                    proof {
                        assert(s2 == s1.update(i as int, s2[i as int]));
                        lemma_lookup_update(s1, i as int, s2[i as int]);
                        lemma_sum_update(s1, i as int, s2[i as int]);
                    }
                    self.total_free = self.total_free + 1;
                }
                let ghost mid = self.free_map();
                proof {
                    let p = prune_expired(old_map[key], now);
                    let q = if p.len() >= self.max_capacity {
                        p
                    } else {
                        p.push((buf.buffer, now))
                    };
                    assert forall|k: (usize, u32)| #[trigger] self.free_list(k) == old_map.insert(key, q)[k] by {
                    }
                    assert(mid =~= old_map.insert(key, q));
                    assert(pre =~= old_map);
                    assert(mid == pre.insert(key, q));
                    assert(old(self).free_list(key) == old_map[key]);
                    assert(old(self).list_after_return(key, buf.buffer, now) == q);
                    assert(old(self).free_map() =~= pre);
                    assert(mid == old(self).free_map().insert(key, old(self).list_after_return(key, buf.buffer, now)));
                    assert(s0[i as int].items@ == old_map[key]);
                    assert(self.total_free == old_total - old_map[key].len() + q.len());
                }
                if self.total_free > LRU_EVICT_THRESHOLD {
                    self.evict_one_lru();
                }
            },
        }
    }

    /// Return a raw buffer under `key`, sized as its bucket.
    pub fn return_buffer_raw(&mut self, buffer: B, key: (usize, u32), now: u64)
        requires
            old(self).wf(),
            key.0 < NUM_BUCKETS,
            old(self).spec_stats().deallocs < u64::MAX,
            old(self).spec_stats().dealloc_dropped < u64::MAX,
        ensures
            final(self).wf(),
            old(self).dealloc_effect(
                *final(self),
                PooledBuffer {
                    buffer,
                    size: spec_bucket_size(key.0 as int),
                    usage: key.1,
                    pool_key: Some(key),
                },
                now,
            ),
    {
        let size = bucket_size(key.0);
        self.dealloc(PooledBuffer { buffer, size, usage: key.1, pool_key: Some(key) }, now);
    }

    /// Drop every idle buffer that has outlived the TTL at `now`.
    pub fn gc(&mut self, now: u64)
        requires
            old(self).wf(),
        ensures
            final(self).wf(),
            forall|k: (usize, u32)|
                #[trigger] final(self).free_list(k) == prune_expired(old(self).free_list(k), now),
            final(self).spec_total_free() <= old(self).spec_total_free(),
            final(self).spec_stats() == old(self).spec_stats(),
            final(self).spec_max_capacity() == old(self).spec_max_capacity(),
    {
        let ghost s0 = self.free_buffers@;
        let mut i: usize = 0;
        while i < self.free_buffers.len()
            invariant
                self.free_buffers@.len() == s0.len(),
                i <= s0.len(),
                forall|j: int| 0 <= j < s0.len() ==> #[trigger] self.free_buffers@[j].key == s0[j].key,
                forall|j: int|
                    0 <= j < i ==> #[trigger] self.free_buffers@[j].items@ == prune_expired(
                        s0[j].items@,
                        now,
                    ),
                forall|j: int| i <= j < s0.len() ==> #[trigger] self.free_buffers@[j] == s0[j],
                keys_unique(self.free_buffers@),
                self.total_free == sum_lens(self.free_buffers@),
                self.total_free <= old(self).total_free,
                self.stats == old(self).stats,
                self.max_capacity == old(self).max_capacity,
            decreases s0.len() - i,
        {
            let ghost c0 = self.free_buffers@;
            let removed = evict_expired_in_bucket(&mut self.free_buffers[i].items, now);
            proof {
                let c1 = self.free_buffers@;
                assert(c1 == c0.update(i as int, c1[i as int]));
                lemma_lookup_update(c0, i as int, c1[i as int]);
                lemma_sum_update(c0, i as int, c1[i as int]);
            }
            self.total_free = self.total_free - removed;
            i = i + 1;
        }
        proof {
            let s1 = self.free_buffers@;
            assert forall|k: (usize, u32)|
                #[trigger] self.free_list(k) == prune_expired(old(self).free_list(k), now) by {
                if exists|j: int| 0 <= j < s0.len() && s0[j].key == k {
                    let j = choose|j: int| 0 <= j < s0.len() && s0[j].key == k;
                    lemma_lookup_at(s0, j);
                    lemma_lookup_at(s1, j);
                } else {
                    assert(!exists|j: int| 0 <= j < s1.len() && s1[j].key == k) by {
                        if exists|j: int| 0 <= j < s1.len() && s1[j].key == k {
                            let j = choose|j: int| 0 <= j < s1.len() && s1[j].key == k;
                            assert(s1[j].key == s0[j].key);
                        }
                    }
                    assert(prune_expired(Seq::<(B, u64)>::empty(), now) =~= Seq::<(B, u64)>::empty());
                }
            }
        }
    }

    /// Change the per-list capacity and drop the oldest entries of every list
    /// that now holds too many.
    pub fn set_max_capacity(&mut self, max: usize)
        requires
            old(self).wf(),
        ensures
            final(self).wf(),
            final(self).spec_max_capacity() == max,
            forall|k: (usize, u32)|
                #[trigger] final(self).free_list(k) == trim_to(old(self).free_list(k), max),
            final(self).spec_total_free() <= old(self).spec_total_free(),
            final(self).spec_stats() == old(self).spec_stats(),
    {
        self.max_capacity = max;
        let ghost s0 = self.free_buffers@;
        let mut i: usize = 0;
        while i < self.free_buffers.len()
            invariant
                self.free_buffers@.len() == s0.len(),
                i <= s0.len(),
                forall|j: int| 0 <= j < s0.len() ==> #[trigger] self.free_buffers@[j].key == s0[j].key,
                forall|j: int|
                    0 <= j < i ==> #[trigger] self.free_buffers@[j].items@ == trim_to(s0[j].items@, max),
                forall|j: int| i <= j < s0.len() ==> #[trigger] self.free_buffers@[j] == s0[j],
                keys_unique(self.free_buffers@),
                self.total_free == sum_lens(self.free_buffers@),
                self.total_free <= old(self).total_free,
                self.stats == old(self).stats,
                self.max_capacity == max,
            decreases s0.len() - i,
        {
            let ghost c0 = self.free_buffers@;
            let removed = trim_front(&mut self.free_buffers[i].items, max);
            proof {
                let c1 = self.free_buffers@;
                assert(c1 == c0.update(i as int, c1[i as int]));
                lemma_lookup_update(c0, i as int, c1[i as int]);
                lemma_sum_update(c0, i as int, c1[i as int]);
            }
            self.total_free = self.total_free - removed;
            i = i + 1;
        }
        proof {
            let s1 = self.free_buffers@;
            assert forall|k: (usize, u32)|
                #[trigger] self.free_list(k) == trim_to(old(self).free_list(k), max) by {
                if exists|j: int| 0 <= j < s0.len() && s0[j].key == k {
                    let j = choose|j: int| 0 <= j < s0.len() && s0[j].key == k;
                    lemma_lookup_at(s0, j);
                    lemma_lookup_at(s1, j);
                } else {
                    assert(!exists|j: int| 0 <= j < s1.len() && s1[j].key == k) by {
                        if exists|j: int| 0 <= j < s1.len() && s1[j].key == k {
                            let j = choose|j: int| 0 <= j < s1.len() && s1[j].key == k;
                            assert(s1[j].key == s0[j].key);
                        }
                    }
                }
            }
        }
    }

    /// Drop all idle buffers and reset the counters.
    pub fn clear(&mut self)
        requires
            old(self).wf(),
        ensures
            final(self).wf(),
            forall|k: (usize, u32)| #[trigger] final(self).free_list(k) == Seq::<(B, u64)>::empty(),
            final(self).spec_total_free() == 0,
            final(self).spec_stats().zeroed(),
            final(self).spec_max_capacity() == old(self).spec_max_capacity(),
    {
        self.free_buffers = Vec::new();
        self.total_free = 0;
        self.stats = PoolStats::default();
    }
}

/// A list cut down to its newest `max` entries.
pub open spec fn trim_to<B>(items: Seq<(B, u64)>, max: usize) -> Seq<(B, u64)> {
    if items.len() > max {
        items.skip(items.len() - max)
    } else {
        items
    }
}

/// Drop the oldest entries of a list until at most `max` remain.
fn trim_front<B>(items: &mut Vec<(B, u64)>, max: usize) -> (removed: usize)
    ensures
        final(items)@ == trim_to(old(items)@, max),
        removed == old(items)@.len() - final(items)@.len(),
{
    let ghost orig = items@;
    let n0 = items.len();
    let mut removed: usize = 0;
    while items.len() > max
        invariant
            orig.len() == n0,
            removed + items@.len() == n0,
            items@ == orig.skip(removed as int),
            n0 > max ==> items@.len() >= max,
            n0 <= max ==> removed == 0,
        decreases items.len(),
    {
        items.remove(0);
        assert(items@ =~= orig.skip(removed + 1));
        removed = removed + 1;
    }
    proof {
        if n0 <= max {
            assert(items@ =~= orig);
        }
    }
    removed
}


/// Which bucket a size falls in: every earlier bucket is too small, and the
/// bucket itself is large enough unless it is the last.
pub proof fn lemma_bucket_for_characterized(size: u64)
    ensures
        0 <= spec_bucket_for(size) < NUM_BUCKETS,
        forall|j: int| 0 <= j < spec_bucket_for(size) ==> size > spec_bucket_size(j),
        spec_bucket_for(size) < NUM_BUCKETS - 1 ==> size <= spec_bucket_size(spec_bucket_for(size)),
        size <= spec_bucket_size(NUM_BUCKETS - 1) ==> size <= spec_bucket_size(spec_bucket_for(size)),
{
    if exists|i: int| 0 <= i < NUM_BUCKETS && size <= #[trigger] spec_bucket_size(i) {
        let i = choose|i: int| 0 <= i < NUM_BUCKETS && size <= #[trigger] spec_bucket_size(i);
        lemma_least_bucket_exists(size, i);
    } else {
        assert(size > spec_bucket_size(NUM_BUCKETS - 1));
    }
}

proof fn lemma_least_bucket_exists(size: u64, c: int)
    requires
        0 <= c < NUM_BUCKETS,
        size <= spec_bucket_size(c),
    ensures
        exists|b: int|
            0 <= b < NUM_BUCKETS && size <= #[trigger] spec_bucket_size(b) && forall|j: int|
                0 <= j < b ==> size > spec_bucket_size(j),
    decreases c,
{
    if forall|j: int| 0 <= j < c ==> size > spec_bucket_size(j) {
        assert(0 <= c < NUM_BUCKETS && size <= spec_bucket_size(c));
    } else {
        let j = choose|j: int| 0 <= j < c && !(size > spec_bucket_size(j));
        lemma_least_bucket_exists(size, j);
    }
}

/// Larger requests never map to smaller buckets.
pub proof fn lemma_bucket_for_monotonic(s1: u64, s2: u64)
    requires
        s1 <= s2,
    ensures
        spec_bucket_for(s1) <= spec_bucket_for(s2),
{
    lemma_bucket_for_characterized(s1);
    lemma_bucket_for_characterized(s2);
    let b1 = spec_bucket_for(s1);
    let b2 = spec_bucket_for(s2);
    if b2 < b1 {
        assert(s1 > spec_bucket_size(b2));
        assert(b2 < NUM_BUCKETS - 1);
        assert(s2 <= spec_bucket_size(b2));
    }
}

/// The pool never holds more idle buffers than the LRU threshold.
pub proof fn lemma_idle_count_bounded<B>(p: GpuMemoryPool<B>)
    requires
        p.wf(),
    ensures
        p.spec_total_free() <= LRU_EVICT_THRESHOLD,
{
}

/// Every allocation is counted either as a cache hit or as a cache miss.
pub proof fn lemma_alloc_counts_hit_or_miss<B>(
    p0: GpuMemoryPool<B>,
    p1: GpuMemoryPool<B>,
    size: u64,
    usage: u32,
    r: AllocAction<B>,
)
    requires
        p0.alloc_fits(size, usage),
        p0.alloc_effect(p1, size, usage, r),
    ensures
        p1.spec_stats().cache_hits + p1.spec_stats().cache_misses == p0.spec_stats().cache_hits
            + p0.spec_stats().cache_misses + 1,
        (r is Reuse) <==> p1.spec_stats().cache_hits == p0.spec_stats().cache_hits + 1,
{
}

/// A buffer returned to the pool is the one handed out by the next request of
/// its bucket and usage, when the return neither overflowed the list nor
/// triggered an LRU eviction; the pool's idle lists are then as before the
/// return, less any expired entries of that list.
pub proof fn lemma_returned_buffer_is_reused<B>(
    p0: GpuMemoryPool<B>,
    p1: GpuMemoryPool<B>,
    p2: GpuMemoryPool<B>,
    buf: PooledBuffer<B>,
    now: u64,
    size: u64,
    usage: u32,
    r: AllocAction<B>,
)
    requires
        buf.pool_key == Some((spec_bucket_for(size) as usize, usage)),
        prune_expired(p0.free_list((spec_bucket_for(size) as usize, usage)), now).len()
            < p0.spec_max_capacity(),
        p0.spec_total_free() - p0.free_list((spec_bucket_for(size) as usize, usage)).len()
            + prune_expired(p0.free_list((spec_bucket_for(size) as usize, usage)), now).len() + 1
            <= LRU_EVICT_THRESHOLD,
        p0.dealloc_effect(p1, buf, now),
        p1.alloc_effect(p2, size, usage, r),
    ensures
        r matches AllocAction::Reuse(pb) && pb.buffer == buf.buffer,
        p2.free_map() == p0.free_map().insert(
            (spec_bucket_for(size) as usize, usage),
            prune_expired(p0.free_list((spec_bucket_for(size) as usize, usage)), now),
        ),
{
    let k = (spec_bucket_for(size) as usize, usage);
    let p = prune_expired(p0.free_list(k), now);
    let q = p.push((buf.buffer, now));
    assert(p0.list_after_return(k, buf.buffer, now) == q);
    assert(p1.free_map()[k] == q);
    assert(p1.free_list(k) == q);
    assert(q.drop_last() =~= p);
    assert(p2.free_map() =~= p0.free_map().insert(k, p));
}

} // verus!
