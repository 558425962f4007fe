//! CPU-side bookkeeping of the paged KV cache: the free-page stack, page
//! allocation and release, the padded free list uploaded to the device, and
//! the launch configuration of the page gather/scatter kernels.

use vstd::prelude::*;
use vstd::set_lib::*;
use crate::context::GpuContext;
use crate::pipelines::{is_handle, lemma_registered_then, registered};

verus! {

/// Page indices of a paged KV cache and its free-page stack.
///
/// Pages are handed out from the end of `cpu_free`; a fresh table hands out
/// page 0 first.
pub struct GpuPageTable {
    pub page_size: usize,
    pub num_heads: usize,
    pub head_dim: usize,
    pub max_pages: usize,
    pub cpu_free: Vec<u32>,
}

/// A sequence of distinct page indices below `max` holds at most `max` pages.
pub proof fn lemma_distinct_pages_bounded(s: Seq<u32>, max: nat)
    requires
        s.no_duplicates(),
        forall|i: int| 0 <= i < s.len() ==> (s[i] as nat) < max,
    ensures
        s.len() <= max,
{
    let t = s.map_values(|x: u32| x as int);
    assert forall|i: int, j: int| 0 <= i < t.len() && 0 <= j < t.len() && i != j implies t[i]
        != t[j] by {
        assert(s[i] != s[j]);
    }
    t.unique_seq_to_set();
    assert(t.to_set().subset_of(set_int_range(0, max as int))) by {
        assert forall|x: int| t.to_set().contains(x) implies set_int_range(0, max as int).contains(x) by {
            let i = choose|i: int| 0 <= i < t.len() && t[i] == x;
            assert(t[i] == s[i] as int);
        }
    }
    lemma_int_range(0, max as int);
    lemma_len_subset(t.to_set(), set_int_range(0, max as int));
}

impl GpuPageTable {
    /// Free pages are distinct, valid page indices.
    pub open spec fn wf(&self) -> bool {
        &&& self.cpu_free@.no_duplicates()
        &&& forall|i: int| 0 <= i < self.cpu_free@.len() ==> (self.cpu_free@[i] as int) < self.max_pages
    }

    /// Whether page `p` is free.
    pub open spec fn is_free(&self, p: u32) -> bool {
        self.cpu_free@.contains(p)
    }

    /// What `allocate` does: `after` is the table afterwards, `r` the result.
    pub open spec fn allocate_effect(self, after: Self, r: Option<u32>) -> bool {
        &&& after.max_pages == self.max_pages
        &&& after.page_size == self.page_size
        &&& after.num_heads == self.num_heads
        &&& after.head_dim == self.head_dim
        &&& self.cpu_free@.len() == 0 ==> r == None::<u32> && after.cpu_free@ == self.cpu_free@
        &&& self.cpu_free@.len() > 0 ==> r == Some(self.cpu_free@.last()) && after.cpu_free@
            == self.cpu_free@.drop_last()
    }

    /// What `free(page_idx)` does: `after` is the table afterwards.
    pub open spec fn free_effect(self, after: Self, page_idx: u32) -> bool {
        &&& after.max_pages == self.max_pages
        &&& after.page_size == self.page_size
        &&& after.num_heads == self.num_heads
        &&& after.head_dim == self.head_dim
        &&& after.cpu_free@ == if (page_idx as int) < self.max_pages && !self.is_free(page_idx) {
            self.cpu_free@.push(page_idx)
        } else {
            self.cpu_free@
        }
    }

    /// A table with every page free, popped in increasing order.
    pub fn new(max_pages: usize, page_size: usize, num_heads: usize, head_dim: usize) -> (r: Self)
        requires
            max_pages <= 0x1_0000_0000,
        ensures
            r.wf(),
            r.max_pages == max_pages,
            r.page_size == page_size,
            r.num_heads == num_heads,
            r.head_dim == head_dim,
            r.cpu_free@.len() == max_pages,
            forall|i: int| 0 <= i < max_pages ==> #[trigger] r.cpu_free@[i] == (max_pages - 1 - i) as u32,
    {
        let mut cpu_free: Vec<u32> = Vec::new();
        let mut k: usize = max_pages;
        while k > 0
            invariant
                k <= max_pages,
                max_pages <= 0x1_0000_0000,
                cpu_free@.len() == max_pages - k,
                forall|i: int| 0 <= i < cpu_free@.len() ==> #[trigger] cpu_free@[i] == (max_pages - 1 - i) as u32,
            decreases k,
        {
            k = k - 1;
            cpu_free.push(k as u32);
        }
        let r = GpuPageTable {
            page_size,
            num_heads,
            head_dim,
            max_pages,
            cpu_free,
        };
        proof {
            assert forall|i: int, j: int|
                0 <= i < r.cpu_free@.len() && 0 <= j < r.cpu_free@.len() && i != j implies r.cpu_free@[i]
                    != r.cpu_free@[j] by {
                assert(r.cpu_free@[i] == (max_pages - 1 - i) as u32);
                assert(r.cpu_free@[j] == (max_pages - 1 - j) as u32);
            }
        }
        r
    }

    /// Number of free pages remaining.
    pub fn available_pages(&self) -> (r: usize)
        ensures
            r == self.cpu_free@.len(),
    {
        self.cpu_free.len()
    }

    /// Take a free page, the one most recently freed; `None` when all pages
    /// are in use.
    pub fn allocate(&mut self) -> (r: Option<u32>)
        requires
            old(self).wf(),
        ensures
            final(self).wf(),
            old(self).allocate_effect(*final(self), r),
    {
        self.cpu_free.pop()
    }

    /// Return page `page_idx` to the free stack, unless it is out of range or
    /// already free.
    pub fn free(&mut self, page_idx: u32)
        requires
            old(self).wf(),
        ensures
            final(self).wf(),
            old(self).free_effect(*final(self), page_idx),
    {
        if (page_idx as usize) < self.max_pages && !self.contains_free(page_idx) {
            let ghost c0 = self.cpu_free@;
            self.cpu_free.push(page_idx);
            proof {
                let c1 = self.cpu_free@;
                assert forall|i: int, j: int| 0 <= i < c1.len() && 0 <= j < c1.len() && i != j implies c1[i]
                    != c1[j] by {
                    if i < c0.len() && j < c0.len() {
                        assert(c1[i] == c0[i] && c1[j] == c0[j]);
                    } else if i < c0.len() {
                        assert(c1[i] == c0[i]);
                    } else if j < c0.len() {
                        assert(c1[j] == c0[j]);
                    }
                }
            }
        }
    }

    fn contains_free(&self, p: u32) -> (r: bool)
        ensures
            r == self.is_free(p),
    {
        let mut i: usize = 0;
        while i < self.cpu_free.len()
            invariant
                i <= self.cpu_free@.len(),
                forall|j: int| 0 <= j < i ==> self.cpu_free@[j] != p,
            decreases self.cpu_free@.len() - i,
        {
            if self.cpu_free[i] == p {
                return true;
            }
            i = i + 1;
        }
        false
    }

    /// The free list as uploaded to the device: the free stack, then zeros up
    /// to `max_pages` entries.
    pub fn free_list_snapshot(&self) -> (r: Vec<u32>)
        requires
            self.wf(),
        ensures
            r@.len() == self.max_pages,
            forall|i: int| 0 <= i < self.cpu_free@.len() ==> #[trigger] r@[i] == self.cpu_free@[i],
            forall|i: int| self.cpu_free@.len() <= i < self.max_pages ==> #[trigger] r@[i] == 0,
    {
        proof {
            lemma_distinct_pages_bounded(self.cpu_free@, self.max_pages as nat);
        }
        let mut data: Vec<u32> = Vec::new();
        let mut i: usize = 0;
        while i < self.max_pages
            invariant
                i <= self.max_pages,
                self.cpu_free@.len() <= self.max_pages,
                data@.len() == i,
                forall|j: int| 0 <= j < i && j < self.cpu_free@.len() ==> #[trigger] data@[j] == self.cpu_free@[j],
                forall|j: int| 0 <= j < i && j >= self.cpu_free@.len() ==> #[trigger] data@[j] == 0,
            decreases self.max_pages - i,
        {
            if i < self.cpu_free.len() {
                data.push(self.cpu_free[i]);
            } else {
                data.push(0);
            }
            i = i + 1;
        }
        data
    }

    /// Launch configuration of the page gather/scatter kernels for
    /// `num_pages` pages: the uniform block `[num_pages, page_size, num_heads,
    /// head_dim]` and the number of 256-wide workgroups covering every K/V
    /// entry of those pages.
    pub fn page_dispatch_config(&self, num_pages: u32) -> (r: ([u32; 4], u32))
        requires
            num_pages * (self.page_size as u32) <= u32::MAX,
            num_pages * (self.page_size as u32) * 2 <= u32::MAX,
            num_pages * (self.page_size as u32) * 2 * (self.head_dim as u32) <= u32::MAX,
            num_pages * (self.page_size as u32) * 2 * (self.head_dim as u32) + 255 <= u32::MAX,
        ensures
            r.0@ == seq![num_pages, self.page_size as u32, self.num_heads as u32, self.head_dim as u32],
            r.1 == (num_pages * (self.page_size as u32) * 2 * (self.head_dim as u32) + 255) / 256,
    {
        let ps = self.page_size as u32;
        let hd = self.head_dim as u32;
        let cfg: [u32; 4] = [num_pages, ps, self.num_heads as u32, hd];
        let a = num_pages * ps;
        let b = a * 2;
        let total = b * hd;
        let groups = (total + 255) / 256;
        proof {
            assert(cfg@ =~= seq![num_pages, ps, self.num_heads as u32, hd]);
        }
        (cfg, groups)
    }
}

/// A page that is released and then requested again is handed back, and the
/// free stack is as before the release.
pub proof fn lemma_freed_page_is_reallocated(
    t0: GpuPageTable,
    t1: GpuPageTable,
    t2: GpuPageTable,
    page: u32,
    r: Option<u32>,
)
    requires
        (page as int) < t0.max_pages,
        !t0.is_free(page),
        t0.free_effect(t1, page),
        t1.allocate_effect(t2, r),
    ensures
        r == Some(page),
        t2.cpu_free@ == t0.cpu_free@,
{
    assert(t0.cpu_free@.push(page).drop_last() =~= t0.cpu_free@);
}

/// A page handed out is a valid page index and is no longer free, so no page
/// is handed out twice before it is released.
pub proof fn lemma_allocated_page_not_free(t0: GpuPageTable, t1: GpuPageTable, r: Option<u32>)
    requires
        t0.wf(),
        t0.allocate_effect(t1, r),
    ensures
        r matches Some(p) ==> (p as int) < t0.max_pages && !t1.is_free(p),
{
    if let Some(p) = r {
        let s = t0.cpu_free@;
        let n = s.len() - 1;
        assert(s[n] == p);
        if t1.is_free(p) {
            let j = choose|j: int| 0 <= j < t1.cpu_free@.len() && t1.cpu_free@[j] == p;
            assert(s[j] == p);
        }
    }
}

/// The free stack never holds more pages than the table has.
pub proof fn lemma_available_bounded(t: GpuPageTable)
    requires
        t.wf(),
    ensures
        t.cpu_free@.len() <= t.max_pages,
{
    lemma_distinct_pages_bounded(t.cpu_free@, t.max_pages as nat);
}

/// The free pages of a table, as page numbers.
pub open spec fn free_pages(t: GpuPageTable) -> Set<int> {
    t.cpu_free@.map_values(|x: u32| x as int).to_set()
}

/// `held` is the set of pages handed out: it and the free pages share no
/// page and together are exactly the pages `0..max_pages`.
pub open spec fn pages_partitioned(t: GpuPageTable, held: Set<int>) -> bool {
    &&& t.wf()
    &&& held.disjoint(free_pages(t))
    &&& held + free_pages(t) == set_int_range(0, t.max_pages as int)
}

/// Page `p` is free exactly when it is among the free pages.
proof fn lemma_free_pages_contains(t: GpuPageTable, p: u32)
    ensures
        free_pages(t).contains(p as int) == t.is_free(p),
{
    let m = t.cpu_free@.map_values(|x: u32| x as int);
    if t.is_free(p) {
        let i = choose|i: int| 0 <= i < t.cpu_free@.len() && t.cpu_free@[i] == p;
        assert(m[i] == p as int);
    }
    if free_pages(t).contains(p as int) {
        let i = choose|i: int| 0 <= i < m.len() && m[i] == p as int;
        assert(t.cpu_free@[i] == p);
    }
}

/// A well-formed table has as many free pages as its free stack holds.
proof fn lemma_free_pages_len(t: GpuPageTable)
    requires
        t.wf(),
    ensures
        free_pages(t).finite(),
        free_pages(t).len() == t.cpu_free@.len(),
        free_pages(t).subset_of(set_int_range(0, t.max_pages as int)),
{
    let m = t.cpu_free@.map_values(|x: u32| x as int);
    assert forall|i: int, j: int| 0 <= i < m.len() && 0 <= j < m.len() && i != j implies m[i] != m[j] by {
        assert(t.cpu_free@[i] != t.cpu_free@[j]);
    }
    m.unique_seq_to_set();
    assert forall|x: int| free_pages(t).contains(x) implies set_int_range(0, t.max_pages as int).contains(x) by {
        let i = choose|i: int| 0 <= i < m.len() && m[i] == x;
        assert(m[i] == t.cpu_free@[i] as int);
    }
    lemma_int_range(0, t.max_pages as int);
    lemma_len_subset(free_pages(t), set_int_range(0, t.max_pages as int));
}

/// A fresh table has every page free and none handed out.
pub proof fn lemma_new_table_partitioned(t: GpuPageTable)
    requires
        t.wf(),
        t.max_pages <= 0x1_0000_0000,
        t.cpu_free@.len() == t.max_pages,
        forall|i: int| 0 <= i < t.max_pages ==> #[trigger] t.cpu_free@[i] == (t.max_pages - 1 - i) as u32,
    ensures
        pages_partitioned(t, Set::empty()),
{
    let m = t.cpu_free@.map_values(|x: u32| x as int);
    assert forall|x: int| set_int_range(0, t.max_pages as int).contains(x) implies free_pages(t).contains(x) by {
        let i = t.max_pages - 1 - x;
        assert(t.cpu_free@[i] == (t.max_pages - 1 - i) as u32);
        assert(m[i] == x);
    }
    lemma_free_pages_len(t);
    assert(Set::<int>::empty() + free_pages(t) =~= set_int_range(0, t.max_pages as int));
}

/// While the pages are partitioned, the free pages and the pages handed out
/// add up to all pages, so the count of free pages is `max_pages` less the
/// pages handed out.
pub proof fn lemma_partition_counts(t: GpuPageTable, held: Set<int>)
    requires
        pages_partitioned(t, held),
    ensures
        held.finite(),
        t.cpu_free@.len() + held.len() == t.max_pages,
{
    lemma_free_pages_len(t);
    lemma_int_range(0, t.max_pages as int);
    lemma_len_subset(held, set_int_range(0, t.max_pages as int));
    lemma_set_disjoint_lens(held, free_pages(t));
}

/// Taking a page keeps the partition, with the page now handed out; a page
/// handed out is never one that is already handed out.
pub proof fn lemma_allocate_keeps_partition(t0: GpuPageTable, t1: GpuPageTable, held: Set<int>, r: Option<u32>)
    requires
        pages_partitioned(t0, held),
        t1.wf(),
        t0.allocate_effect(t1, r),
    ensures
        r matches Some(p) ==> !held.contains(p as int) && pages_partitioned(t1, held.insert(p as int)),
        r is None ==> pages_partitioned(t1, held),
{
    if let Some(p) = r {
        let s0 = t0.cpu_free@;
        let n = s0.len() - 1;
        lemma_free_pages_contains(t0, p);
        assert(s0[n] == p);
        assert(t0.is_free(p));
        assert forall|q: u32| #[trigger] t1.is_free(q) == (t0.is_free(q) && q != p) by {
            if t1.is_free(q) {
                let j = choose|j: int| 0 <= j < t1.cpu_free@.len() && t1.cpu_free@[j] == q;
                assert(s0[j] == q);
                assert(j != n);
            }
            if t0.is_free(q) && q != p {
                let j = choose|j: int| 0 <= j < s0.len() && s0[j] == q;
                assert(j != n);
                assert(t1.cpu_free@[j] == q);
            }
        }
        assert forall|x: int| #[trigger] free_pages(t1).contains(x) == (free_pages(t0).contains(x) && x != p as int) by {
            let m1 = t1.cpu_free@.map_values(|y: u32| y as int);
            let m0 = s0.map_values(|y: u32| y as int);
            if free_pages(t1).contains(x) {
                let i = choose|i: int| 0 <= i < m1.len() && #[trigger] m1[i] == x;
                let q = t1.cpu_free@[i];
                assert(t1.is_free(q));
                lemma_free_pages_contains(t0, q);
                assert(x == q as int);
            }
            if free_pages(t0).contains(x) && x != p as int {
                let i = choose|i: int| 0 <= i < m0.len() && #[trigger] m0[i] == x;
                let q = s0[i];
                assert(t0.is_free(q));
                assert(t1.is_free(q));
                lemma_free_pages_contains(t1, q);
                assert(x == q as int);
            }
        }
        assert(held.insert(p as int) + free_pages(t1) =~= held + free_pages(t0));
    } else {
        assert(free_pages(t1) =~= free_pages(t0));
    }
}

/// Releasing page `p` keeps the partition, with `p` no longer handed out.
pub proof fn lemma_free_keeps_partition(t0: GpuPageTable, t1: GpuPageTable, held: Set<int>, p: u32)
    requires
        pages_partitioned(t0, held),
        t1.wf(),
        t0.free_effect(t1, p),
    ensures
        pages_partitioned(t1, held.remove(p as int)),
{
    let s0 = t0.cpu_free@;
    lemma_free_pages_contains(t0, p);
    if (p as int) < t0.max_pages && !t0.is_free(p) {
        assert(set_int_range(0, t0.max_pages as int).contains(p as int));
        assert(held.contains(p as int));
        assert forall|x: int| #[trigger] free_pages(t1).contains(x) == (free_pages(t0).contains(x) || x == p as int) by {
            let m1 = t1.cpu_free@.map_values(|y: u32| y as int);
            let m0 = s0.map_values(|y: u32| y as int);
            if free_pages(t1).contains(x) {
                let i = choose|i: int| 0 <= i < m1.len() && m1[i] == x;
                if i < s0.len() {
                    assert(m0[i] == x);
                } else {
                    assert(t1.cpu_free@[i] == p);
                }
            }
            if free_pages(t0).contains(x) {
                let i = choose|i: int| 0 <= i < m0.len() && m0[i] == x;
                assert(m1[i] == x);
            }
            if x == p as int {
                assert(m1[s0.len() as int] == x);
            }
        }
        assert(held.remove(p as int) + free_pages(t1) =~= held + free_pages(t0));
    } else {
        assert((held + free_pages(t0)).contains(p as int) == set_int_range(0, t0.max_pages as int).contains(
            p as int,
        ));
        assert(!held.contains(p as int));
        assert(free_pages(t1) =~= free_pages(t0));
        assert(held.remove(p as int) =~= held);
    }
}

/// Compiles the page gather pipeline and returns its handle.
pub fn compile_gather_pages_pipeline(ctx: &mut GpuContext) -> (r: usize)
    requires
        old(ctx).wf(),
    ensures
        registered(*old(ctx), *final(ctx), seq!["gather_pages"@]),
        is_handle(*final(ctx), r, "gather_pages"@),
{
    let ghost p0 = ctx.pipeline_names();
    ctx.compile_step("gather_pages", Ghost(p0), Ghost(Seq::empty()))
}

/// Compiles the page scatter pipeline and returns its handle.
pub fn compile_scatter_pages_pipeline(ctx: &mut GpuContext) -> (r: usize)
    requires
        old(ctx).wf(),
    ensures
        registered(*old(ctx), *final(ctx), seq!["scatter_pages"@]),
        is_handle(*final(ctx), r, "scatter_pages"@),
{
    let ghost p0 = ctx.pipeline_names();
    ctx.compile_step("scatter_pages", Ghost(p0), Ghost(Seq::empty()))
}

/// Handles of the paged KV cache pipelines.
#[derive(Debug, Clone, Copy)]
pub struct GpuKvCachePipelines {
    /// Gathering pages into contiguous storage.
    pub gather: usize,
    /// Scattering contiguous storage into pages.
    pub scatter: usize,
}

/// Names of the paged KV cache pipelines, in compile order.
pub open spec fn kv_cache_pipeline_names() -> Seq<Seq<char>> {
    seq!["gather_pages"@, "scatter_pages"@]
}

/// Compiles the gather and scatter pipelines, in order, and returns their handles.
pub fn compile_kv_cache_pipelines(ctx: &mut GpuContext) -> (r: GpuKvCachePipelines)
    requires
        old(ctx).wf(),
    ensures
        registered(*old(ctx), *final(ctx), kv_cache_pipeline_names()),
        is_handle(*final(ctx), r.gather, "gather_pages"@),
        is_handle(*final(ctx), r.scatter, "scatter_pages"@),
{
    let ghost c0 = *ctx;
    let gather = compile_gather_pages_pipeline(ctx);
    let ghost mut done: Seq<Seq<char>> = seq!["gather_pages"@];
    let ghost mid = *ctx;
    let scatter = compile_scatter_pages_pipeline(ctx);
    proof {
        lemma_registered_then(c0, mid, *ctx, done, "scatter_pages"@);
        done = done.push("scatter_pages"@);
    }
    proof {
        assert(done =~= kv_cache_pipeline_names());
    }
    GpuKvCachePipelines { gather, scatter }
}

} // verus!
