//! Host-side state of the GPU context and the decisions its dispatch paths
//! make: timestamp-query slots, workgroup limits and chunking of large 1-D
//! dispatches, tensor slicing, batched zero-fills, batched sums, matmul+GELU
//! routing and random-projection shapes.

use vstd::prelude::*;
use crate::caps::GpuCapabilities;

verus! {

/// Largest workgroup count per dispatch dimension.
pub const MAX_WORKGROUPS_PER_DIM: u32 = 65535;
/// Workgroup size of most kernels.
pub const DEFAULT_WORKGROUP_SIZE: u32 = 256;

/// Errors of GPU operations.
#[derive(Debug)]
pub enum GpuError {
    Buffer(String),
    Pipeline(String),
    Unsupported(String),
    ShapeMismatch(String),
    Conversion(String),
    Device(String),
    MatMulShape(Vec<usize>, Vec<usize>),
}

/// Element type of a device tensor.
#[derive(Debug, Clone, Copy, PartialEq, Eq, Structural)]
pub enum TensorDtype {
    F32,
    F16,
    Bf16,
    I8,
}

impl TensorDtype {
    /// Bytes per element.
    pub open spec fn spec_size(self) -> usize {
        match self {
            TensorDtype::F32 => 4,
            TensorDtype::F16 | TensorDtype::Bf16 => 2,
            TensorDtype::I8 => 1,
        }
    }

    /// Bytes per element.
    pub fn element_size(&self) -> (r: usize)
        ensures
            r == self.spec_size(),
    {
        match self {
            TensorDtype::F32 => 4,
            TensorDtype::F16 | TensorDtype::Bf16 => 2,
            TensorDtype::I8 => 1,
        }
    }
}

/// Product of the dimensions of a shape.
pub open spec fn shape_numel(s: Seq<usize>) -> int
    decreases s.len(),
{
    if s.len() == 0 {
        1
    } else {
        shape_numel(s.drop_last()) * s.last()
    }
}

/// Every running product of the dimensions, left to right, fits in a `usize`.
pub open spec fn products_fit(s: Seq<usize>) -> bool {
    forall|i: int| 0 <= i <= s.len() ==> #[trigger] shape_numel(s.take(i)) <= usize::MAX
}

/// Product of the dimensions of `s` from index `from` on.
pub fn numel_from(s: &[usize], from: usize) -> (r: usize)
    requires
        from <= s@.len(),
        products_fit(s@.skip(from as int)),
    ensures
        r == shape_numel(s@.skip(from as int)),
{
    let ghost t = s@.skip(from as int);
    let mut acc: usize = 1;
    let mut i: usize = from;
    proof {
        assert(t.take(0) =~= Seq::<usize>::empty());
    }
    while i < s.len()
        invariant
            from <= i <= s@.len(),
            t == s@.skip(from as int),
            products_fit(t),
            acc == shape_numel(t.take(i - from)),
        decreases s@.len() - i,
    {
        proof {
            assert(t.take(i - from + 1).drop_last() =~= t.take(i - from));
            assert(t.take(i - from + 1).last() == s@[i as int]);
            assert(shape_numel(t.take(i - from + 1)) <= usize::MAX);
        }
        acc = acc * s[i];
        i = i + 1;
    }
    proof {
        assert(t.take(t.len() as int) =~= t);
    }
    acc
}

/// Product of the first `upto` dimensions of `s`.
pub fn numel_prefix(s: &[usize], upto: usize) -> (r: usize)
    requires
        upto <= s@.len(),
        products_fit(s@.take(upto as int)),
    ensures
        r == shape_numel(s@.take(upto as int)),
{
    let ghost t = s@.take(upto as int);
    let mut acc: usize = 1;
    let mut i: usize = 0;
    proof {
        assert(t.take(0) =~= Seq::<usize>::empty());
    }
    while i < upto
        invariant
            upto <= s@.len(),
            i <= upto,
            t == s@.take(upto as int),
            products_fit(t),
            acc == shape_numel(t.take(i as int)),
        decreases upto - i,
    {
        proof {
            assert(t.take(i + 1).drop_last() =~= t.take(i as int));
            assert(t.take(i + 1).last() == s@[i as int]);
            assert(shape_numel(t.take(i + 1)) <= usize::MAX);
        }
        acc = acc * s[i];
        i = i + 1;
    }
    proof {
        assert(t.take(upto as int) =~= t);
    }
    acc
}

/// Ceiling of `a / b`.
pub open spec fn ceil_div(a: int, b: int) -> int {
    a / b + if a % b != 0 {
        1int
    } else {
        0int
    }
}

pub(crate) fn ceil_div_u32(a: u32, b: u32) -> (r: u32)
    requires
        b > 0,
    ensures
        r == ceil_div(a as int, b as int),
{
    let q = a / b;
    if a % b != 0 {
        proof {
            assert(q * b <= a) by (nonlinear_arith)
                requires
                    q == a / b,
                    b > 0,
            ;
            if b == 1 {
                assert(a % b == 0);
            }
            assert(q < u32::MAX) by (nonlinear_arith)
                requires
                    q * b <= a,
                    b >= 2,
                    a <= u32::MAX,
            ;
        }
        q + 1
    } else {
        q
    }
}

pub(crate) fn ceil_div_usize(a: usize, b: usize) -> (r: usize)
    requires
        b > 0,
    ensures
        r == ceil_div(a as int, b as int),
{
    let q = a / b;
    if a % b != 0 {
        proof {
            assert(q * b <= a) by (nonlinear_arith)
                requires
                    q == a / b,
                    b > 0,
            ;
            if b == 1 {
                assert(a % b == 0);
            }
            assert(q < usize::MAX) by (nonlinear_arith)
                requires
                    q * b <= a,
                    b >= 2,
                    a <= usize::MAX,
            ;
        }
        q + 1
    } else {
        q
    }
}

/// One piece of a chunked 1-D dispatch.
#[derive(Debug, Clone, Copy)]
pub struct ChunkSpec {
    pub elems: u32,
    pub groups: u32,
    pub byte_offset: u64,
    pub byte_size: u64,
}

/// Number of elements in chunk `c` of a dispatch over `numel` elements cut
/// into pieces of `per`.
pub open spec fn chunk_elems(c: int, per: int, numel: int) -> int {
    if per <= numel - c * per {
        per
    } else {
        numel - c * per
    }
}

/// `ch` is chunk `c` of a dispatch over `numel` elements of `element_size`
/// bytes, cut into pieces of `per` elements, with workgroups of `wg`.
pub open spec fn chunk_matches(ch: ChunkSpec, c: int, per: int, numel: int, wg: int, element_size: int) -> bool {
    &&& 0 <= c
    &&& c * per < numel
    &&& ch.elems == chunk_elems(c, per, numel)
    &&& ch.groups == ceil_div(ch.elems as int, wg)
    &&& ch.byte_offset == c * per * element_size
    &&& ch.byte_size == ch.elems * element_size
}

/// How a 1-D element-wise dispatch is issued.
#[derive(Debug)]
pub enum DispatchPlan {
    /// One dispatch over whole buffers.
    Single { groups: u32 },
    /// Several dispatches, each bound to a slice of the buffers.
    Chunked(Vec<ChunkSpec>),
}

/// Host-side state of a GPU context: device capabilities, the names of
/// compiled pipelines and the timestamp-query ring.
pub struct GpuContext {
    caps: GpuCapabilities,
    pipelines: Vec<String>,
    query_index: usize,
    query_pool_size: usize,
}

/// Route taken by matmul + bias + GELU.
#[derive(Debug, Clone, Copy, PartialEq, Eq, Structural)]
pub enum GeluRoute {
    /// One fused dispatch computing `GELU(A @ B + bias)`.
    Fused,
    /// Fused `A @ B + bias`, then GELU in place.
    MatmulThenGelu,
}

/// Whether the matmul + GELU for an `m x k` by `k x n` product runs fused:
/// always when forced, else only when the largest dimension is in 512..=1024.
pub open spec fn spec_gelu_route(m: u32, k: u32, n: u32, force_fused: bool) -> GeluRoute {
    let max_dim = if m >= k && m >= n {
        m
    } else if k >= n {
        k
    } else {
        n
    };
    if !force_fused && (max_dim < 512 || max_dim > 1024) {
        GeluRoute::MatmulThenGelu
    } else {
        GeluRoute::Fused
    }
}

/// Activation code: none.
pub const ACT_IDENTITY: u32 = 0;
/// Activation code: GELU.
pub const ACT_GELU: u32 = 1;
/// Activation code: SiLU.
pub const ACT_SILU: u32 = 2;
/// Activation code: ReLU.
pub const ACT_RELU: u32 = 3;

/// Sizes of one fused `act(A @ B + bias)` dispatch, `A` being `m x k` and
/// `B` being `k x n`.
#[derive(Debug)]
pub struct FusedPlan {
    pub m: u32,
    pub k: u32,
    pub n: u32,
    pub act: u32,
    pub out_shape: Vec<usize>,
    pub out_bytes: u64,
}

/// Both operands are matrices with matching inner dimension.
pub open spec fn matmul_shapes_ok(a: Seq<usize>, b: Seq<usize>) -> bool {
    a.len() == 2 && b.len() == 2 && a[1] == b[0]
}

/// The output buffer of a fused dispatch has a byte size that fits a `u64`.
pub open spec fn fused_sizes_fit(a: Seq<usize>, b: Seq<usize>) -> bool {
    matmul_shapes_ok(a, b) ==> (a[0] as u32) * (b[1] as u32) * 4 <= u64::MAX
}

/// Outcome of a fused dispatch with activation `act`.
pub open spec fn fused_result(
    pipelines: Seq<Seq<char>>,
    a: Seq<usize>,
    b: Seq<usize>,
    act: u32,
    r: Result<FusedPlan, GpuError>,
) -> bool {
    if !matmul_shapes_ok(a, b) {
        r matches Err(GpuError::MatMulShape(x, y)) && x@ == a && y@ == b
    } else if !pipelines.contains("fused_matmul_bias"@) {
        r matches Err(GpuError::Pipeline(msg)) && msg@ == "fused_matmul_bias not compiled"@
    } else {
        r matches Ok(p) && {
            &&& p.m == a[0] as u32
            &&& p.k == a[1] as u32
            &&& p.n == b[1] as u32
            &&& p.act == act
            &&& p.out_shape@ == seq![a[0], b[1]]
            &&& p.out_bytes == (a[0] as u32) * (b[1] as u32) * 4
        }
    }
}

/// Outcome of the matmul + bias + GELU: the route, and the fused dispatch
/// with GELU applied in it or left for a separate pass.
pub open spec fn gelu_result(
    pipelines: Seq<Seq<char>>,
    a: Seq<usize>,
    b: Seq<usize>,
    force_fused: bool,
    r: Result<(GeluRoute, FusedPlan), GpuError>,
) -> bool {
    let route = spec_gelu_route(a[0] as u32, a[1] as u32, b[1] as u32, force_fused);
    let act = if route == GeluRoute::Fused {
        ACT_GELU
    } else {
        ACT_IDENTITY
    };
    match r {
        Ok((rt, p)) => rt == route && fused_result(pipelines, a, b, act, Ok(p)),
        Err(e) => fused_result(pipelines, a, b, act, Err(e)),
    }
}

/// Forcing the fused GELU route changes only the route: the routed and the
/// forced matmul + bias + GELU succeed and fail on the same inputs, with the
/// same described error, and plan the same output; where the routed one fuses too,
/// both plans are the same dispatch. (The values the two routes compute are
/// the device's.)
pub proof fn lemma_gelu_forced_agrees_with_routed(
    pipelines: Seq<Seq<char>>,
    a: Seq<usize>,
    b: Seq<usize>,
    routed: Result<(GeluRoute, FusedPlan), GpuError>,
    forced: Result<(GeluRoute, FusedPlan), GpuError>,
)
    requires
        gelu_result(pipelines, a, b, false, routed),
        gelu_result(pipelines, a, b, true, forced),
    ensures
        routed is Ok <==> forced is Ok,
        routed matches Err(e1) ==> forced matches Err(e2) && fused_result(pipelines, a, b, ACT_GELU, Err(e1))
            && fused_result(pipelines, a, b, ACT_GELU, Err(e2)),
        routed matches Ok((rt, p)) ==> forced matches Ok((ft, q)) && {
            &&& ft == GeluRoute::Fused
            &&& p.m == q.m && p.k == q.k && p.n == q.n
            &&& p.out_shape@ == q.out_shape@
            &&& p.out_bytes == q.out_bytes
            &&& rt == GeluRoute::Fused ==> p.act == q.act
        },
{
}

/// Workgroups of a fused dispatch over an `m x n` output, 256 per group.
pub fn fused_workgroups(m: u32, n: u32) -> (r: u32)
    requires
        m * n + 255 <= u32::MAX,
    ensures
        r == (m * n + 255) / 256,
{
    let total_elements = m * n;
    (total_elements + 255) / 256
}

/// Sizes of the online softmax over the last dimension.
#[derive(Debug, Clone, Copy)]
pub struct SoftmaxPlan {
    /// Uniform `[rows, cols, 0, 0]`; also one workgroup per row.
    pub cfg: [u32; 4],
    /// Bytes of the output, shaped as the input.
    pub out_bytes: u64,
}

/// Byte range and shape of a slice along dimension 0.
#[derive(Debug)]
pub struct SlicePlan {
    pub byte_offset: u64,
    pub byte_size: u64,
    pub shape: Vec<usize>,
}

/// Total elements of a list of chunks.
pub open spec fn sum_elems(cs: Seq<ChunkSpec>) -> int
    decreases cs.len(),
{
    if cs.len() == 0 {
        0
    } else {
        sum_elems(cs.drop_last()) + cs.last().elems
    }
}

proof fn lemma_ceil_div_at_most(x: int, wg: int, m: int)
    requires
        0 <= x <= m * wg,
        wg > 0,
        m >= 0,
    ensures
        ceil_div(x, wg) <= m,
{
    let q = x / wg;
    let r = x % wg;
    assert(x == q * wg + r && 0 <= r < wg) by (nonlinear_arith)
        requires
            wg > 0,
            q == x / wg,
            r == x % wg,
    ;
    assert(q <= m) by (nonlinear_arith)
        requires
            x == q * wg + r,
            0 <= r,
            x <= m * wg,
            wg > 0,
    ;
    if q == m && r != 0 {
        assert(false) by (nonlinear_arith)
            requires
                x == q * wg + r,
                r > 0,
                x <= m * wg,
                q == m,
        ;
    }
}

/// The chunks of a chunked dispatch cover the elements exactly, in order,
/// and each stays within the per-dimension workgroup limit.
proof fn lemma_chunks_cover(cs: Seq<ChunkSpec>, per: int, numel: int, wg: int, element_size: int, k: int)
    requires
        wg > 0,
        numel >= 0,
        per == MAX_WORKGROUPS_PER_DIM * wg,
        0 <= k <= cs.len(),
        forall|c: int|
            0 <= c < cs.len() ==> #[trigger] chunk_matches(cs[c], c, per, numel, wg, element_size),
    ensures
        sum_elems(cs.take(k)) == if k * per <= numel {
            k * per
        } else {
            numel
        },
        forall|c: int| 0 <= c < cs.len() ==> #[trigger] cs[c].groups <= MAX_WORKGROUPS_PER_DIM,
    decreases k,
{
    assert forall|c: int| 0 <= c < cs.len() implies #[trigger] cs[c].groups <= MAX_WORKGROUPS_PER_DIM by {
        assert(chunk_matches(cs[c], c, per, numel, wg, element_size));
        lemma_ceil_div_at_most(cs[c].elems as int, wg, MAX_WORKGROUPS_PER_DIM as int);
    }
    if k > 0 {
        lemma_chunks_cover(cs, per, numel, wg, element_size, k - 1);
        assert(cs.take(k).drop_last() =~= cs.take(k - 1));
        assert(chunk_matches(cs[k - 1], k - 1, per, numel, wg, element_size));
        assert(k * per == (k - 1) * per + per) by (nonlinear_arith);
        assert(cs.take(k).last() == cs[k - 1]);
        assert((k - 1) * per < numel);
        assert(sum_elems(cs.take(k)) == sum_elems(cs.take(k - 1)) + cs[k - 1].elems);
        assert(sum_elems(cs.take(k - 1)) == (k - 1) * per);
        assert(cs[k - 1].elems == chunk_elems(k - 1, per, numel));
    } else {
        assert(cs.take(0) =~= Seq::<ChunkSpec>::empty());
    }
}

/// The registry after compiling pipeline `n`: a known name keeps its place,
/// a new one is appended.
pub open spec fn with_pipeline(names: Seq<Seq<char>>, n: Seq<char>) -> Seq<Seq<char>> {
    if names.contains(n) {
        names
    } else {
        names.push(n)
    }
}

impl GpuContext {
    /// Internal consistency of the query ring and of the pipeline registry
    /// (each name once).
    pub closed spec fn wf(&self) -> bool {
        &&& 0 < self.query_pool_size
        &&& self.query_pool_size <= usize::MAX / 2
        &&& self.pipeline_names().no_duplicates()
    }

    /// Capabilities of the device.
    pub closed spec fn spec_caps(&self) -> GpuCapabilities {
        self.caps
    }

    /// Capabilities of the device.
    pub fn caps(&self) -> (r: &GpuCapabilities)
        ensures
            *r == self.spec_caps(),
    {
        &self.caps
    }

    /// Number of timestamp query pairs.
    pub closed spec fn spec_query_pool_size(&self) -> usize {
        self.query_pool_size
    }

    /// Next raw query counter value.
    pub closed spec fn spec_query_index(&self) -> usize {
        self.query_index
    }

    /// Names of compiled pipelines.
    pub closed spec fn pipeline_names(&self) -> Seq<Seq<char>> {
        Seq::new(self.pipelines@.len(), |i: int| self.pipelines@[i]@)
    }

    /// A context with no compiled pipelines and `query_pool_size` query pairs.
    pub fn new(caps: GpuCapabilities, query_pool_size: usize) -> (r: Self)
        requires
            0 < query_pool_size <= usize::MAX / 2,
        ensures
            r.wf(),
            r.spec_caps() == caps,
            r.spec_query_pool_size() == query_pool_size,
            r.spec_query_index() == 0,
            r.pipeline_names() == Seq::<Seq<char>>::empty(),
    {
        let r = GpuContext { caps, pipelines: Vec::new(), query_index: 0, query_pool_size };
        proof {
            assert(r.pipeline_names() =~= Seq::<Seq<char>>::empty());
        }
        r
    }

    /// Position of pipeline `name` in the registry, if it is compiled.
    fn find_pipeline(&self, name: &str) -> (r: Option<usize>)
        ensures
            match r {
                Some(i) => i < self.pipeline_names().len() && self.pipeline_names()[i as int] == name@,
                None => !self.pipeline_names().contains(name@),
            },
    {
        let key = name.to_owned();
        let mut i: usize = 0;
        while i < self.pipelines.len()
            invariant
                i <= self.pipelines@.len(),
                key@ == name@,
                forall|j: int| 0 <= j < i ==> self.pipelines@[j]@ != name@,
            decreases self.pipelines@.len() - i,
        {
            if self.pipelines[i] == key {
                return Some(i);
            }
            i = i + 1;
        }
        proof {
            if self.pipeline_names().contains(name@) {
                let j = choose|j: int|
                    0 <= j < self.pipeline_names().len() && self.pipeline_names()[j] == name@;
                assert(self.pipelines@[j]@ == name@);
            }
        }
        None
    }

    /// Compiles pipeline `name` unless it is already in the registry, and
    /// returns its handle (its position in the registry). A name that is
    /// already compiled leaves the registry as it is.
    pub fn compile_pipeline_cached(&mut self, name: &str) -> (r: usize)
        requires
            old(self).wf(),
        ensures
            final(self).wf(),
            final(self).spec_caps() == old(self).spec_caps(),
            final(self).spec_query_pool_size() == old(self).spec_query_pool_size(),
            final(self).spec_query_index() == old(self).spec_query_index(),
            final(self).pipeline_names() == with_pipeline(old(self).pipeline_names(), name@),
            r < final(self).pipeline_names().len(),
            final(self).pipeline_names()[r as int] == name@,
    {
        match self.find_pipeline(name) {
            Some(i) => i,
            None => {
                let ghost p0 = self.pipeline_names();
                self.pipelines.push(name.to_owned());
                proof {
                    assert(self.pipeline_names() =~= p0.push(name@));
                    assert forall|a: int, b: int|
                        0 <= a < self.pipeline_names().len() && 0 <= b < self.pipeline_names().len()
                            && a != b implies self.pipeline_names()[a] != self.pipeline_names()[b] by {
                        if a == p0.len() {
                            assert(p0[b] == self.pipeline_names()[b]);
                        } else if b == p0.len() {
                            assert(p0[a] == self.pipeline_names()[a]);
                        }
                    }
                }
                self.pipelines.len() - 1
            },
        }
    }

    /// Whether pipeline `name` is compiled.
    pub fn has_pipeline(&self, name: &str) -> (r: bool)
        ensures
            r == self.pipeline_names().contains(name@),
    {
        self.find_pipeline(name).is_some()
    }

    /// The start/end slots of the next timestamp query pair: the query counter
    /// (wrapping) modulo the pool size, doubled.
    pub fn next_query_index(&mut self) -> (r: (u32, u32))
        requires
            old(self).wf(),
        ensures
            final(self).wf(),
            final(self).spec_caps() == old(self).spec_caps(),
            final(self).pipeline_names() == old(self).pipeline_names(),
            final(self).spec_query_pool_size() == old(self).spec_query_pool_size(),
            final(self).spec_query_index() == if old(self).spec_query_index() == usize::MAX {
                0
            } else {
                old(self).spec_query_index() + 1
            },
            ({
                let idx = old(self).spec_query_index() % old(self).spec_query_pool_size();
                r == ((idx * 2) as u32, (idx * 2 + 1) as u32)
            }),
    {
        let cur = self.query_index;
        self.query_index = if cur == usize::MAX {
            0
        } else {
            cur + 1
        };
        let idx = cur % self.query_pool_size;
        let start_idx = (idx * 2) as u32;
        let end_idx = (idx * 2 + 1) as u32;
        (start_idx, end_idx)
    }

    /// Workgroup counts of a dispatch, each raised to at least 1; `None` when a
    /// dimension exceeds the per-dimension limit.
    pub fn checked_workgroups(&self, workgroups: (u32, u32, u32)) -> (r: Option<(u32, u32, u32)>)
        ensures
            ({
                let gx = if workgroups.0 == 0 {
                    1
                } else {
                    workgroups.0
                };
                let gy = if workgroups.1 == 0 {
                    1
                } else {
                    workgroups.1
                };
                let gz = if workgroups.2 == 0 {
                    1
                } else {
                    workgroups.2
                };
                if gx <= MAX_WORKGROUPS_PER_DIM && gy <= MAX_WORKGROUPS_PER_DIM && gz
                    <= MAX_WORKGROUPS_PER_DIM {
                    r == Some((gx, gy, gz))
                } else {
                    r == None::<(u32, u32, u32)>
                }
            }),
    {
        let gx = if workgroups.0 == 0 {
            1
        } else {
            workgroups.0
        };
        let gy = if workgroups.1 == 0 {
            1
        } else {
            workgroups.1
        };
        let gz = if workgroups.2 == 0 {
            1
        } else {
            workgroups.2
        };
        if gx <= MAX_WORKGROUPS_PER_DIM && gy <= MAX_WORKGROUPS_PER_DIM && gz <= MAX_WORKGROUPS_PER_DIM {
            Some((gx, gy, gz))
        } else {
            None
        }
    }

    /// How a 1-D element-wise dispatch over `numel` elements with the given
    /// workgroup size (0 counts as 1) is issued: one dispatch when its
    /// workgroup count is within the limit, else consecutive chunks of at most
    /// `MAX_WORKGROUPS_PER_DIM` workgroups, each bound at its byte offset.
    pub fn dispatch_1d_chunked(&self, numel: u32, workgroup_size: u32, element_size: u64) -> (r: DispatchPlan)
        requires
            ceil_div(numel as int, if workgroup_size == 0 { 1int } else { workgroup_size as int })
                > MAX_WORKGROUPS_PER_DIM ==> numel * element_size <= u64::MAX,
        ensures
            ({
                let wg: int = if workgroup_size == 0 {
                    1
                } else {
                    workgroup_size as int
                };
                let total = ceil_div(numel as int, wg);
                let per = MAX_WORKGROUPS_PER_DIM * wg;
                if total <= MAX_WORKGROUPS_PER_DIM {
                    r matches DispatchPlan::Single { groups } && groups == total
                } else {
                    r matches DispatchPlan::Chunked(cs) && {
                        &&& sum_elems(cs@) == numel
                        &&& forall|c: int| 0 <= c < cs@.len() ==> #[trigger] cs@[c].groups <= MAX_WORKGROUPS_PER_DIM
                        &&& cs@.len() * per >= numel
                        &&& forall|c: int|
                            0 <= c < cs@.len() ==> #[trigger] chunk_matches(
                                cs@[c],
                                c,
                                per,
                                numel as int,
                                wg,
                                element_size as int,
                            )
                    }
                }
            }),
    {
        let wg = if workgroup_size == 0 {
            1
        } else {
            workgroup_size
        };
        let total_groups = ceil_div_u32(numel, wg);
        if total_groups <= MAX_WORKGROUPS_PER_DIM {
            return DispatchPlan::Single { groups: total_groups };
        }
        proof {
            assert(65535 * wg < numel) by (nonlinear_arith)
                requires
                    numel / wg + (if numel % wg != 0 { 1int } else { 0int }) > 65535,
                    wg > 0,
            ;
        }
        let per: u32 = MAX_WORKGROUPS_PER_DIM * wg;
        let mut chunks: Vec<ChunkSpec> = Vec::new();
        let mut remaining: u32 = numel;
        let mut processed: u32 = 0;
        let mut byte_offset: u64 = 0;
        proof {
            assert(chunks@.len() * per == 0);
        }
        while remaining > 0
            invariant
                wg > 0,
                per == 65535 * wg,
                per < numel,
                numel * element_size <= u64::MAX,
                processed + remaining == numel,
                remaining > 0 ==> processed == chunks@.len() * per,
                remaining == 0 ==> chunks@.len() * per >= numel,
                byte_offset == processed * element_size,
                forall|c: int|
                    0 <= c < chunks@.len() ==> #[trigger] chunk_matches(
                        chunks@[c],
                        c,
                        per as int,
                        numel as int,
                        wg as int,
                        element_size as int,
                    ),
            decreases remaining,
        {
            let chunk = if remaining < per {
                remaining
            } else {
                per
            };
            let groups = ceil_div_u32(chunk, wg);
            proof {
                assert((processed + chunk) * element_size <= numel * element_size) by (nonlinear_arith)
                    requires
                        processed + chunk <= numel,
                ;
                assert((processed + chunk) * element_size == processed * element_size + chunk
                    * element_size) by (nonlinear_arith);
            }
            let bytes = (chunk as u64) * element_size;
            let ghost c = chunks@.len() as int;
            let ghost old_chunks = chunks@;
            let spec_chunk = ChunkSpec { elems: chunk, groups, byte_offset, byte_size: bytes };
            proof {
                assert(c * per == processed);
                assert(byte_offset == c * per * element_size) by (nonlinear_arith)
                    requires
                        byte_offset == processed * element_size,
                        processed == c * per,
                ;
                assert((c + 1) * per == c * per + per) by (nonlinear_arith);
                assert(chunk_matches(spec_chunk, c, per as int, numel as int, wg as int, element_size as int));
            }
            chunks.push(spec_chunk);
            proof {
                assert forall|c2: int| 0 <= c2 < chunks@.len() implies #[trigger] chunk_matches(
                    chunks@[c2],
                    c2,
                    per as int,
                    numel as int,
                    wg as int,
                    element_size as int,
                ) by {
                    if c2 < c {
                        assert(chunks@[c2] == old_chunks[c2]);
                        assert(chunk_matches(old_chunks[c2], c2, per as int, numel as int, wg as int, element_size as int));
                    } else {
                        assert(chunks@[c2] == spec_chunk);
                    }
                }
            }
            remaining = remaining - chunk;
            processed = processed + chunk;
            byte_offset = byte_offset + bytes;
        }
        proof {
            lemma_chunks_cover(chunks@, per as int, numel as int, wg as int, element_size as int, chunks@.len() as int);
            assert(chunks@.take(chunks@.len() as int) =~= chunks@);
        }
        DispatchPlan::Chunked(chunks)
    }

    /// Zero-fill dispatches for tensors of the given element counts, one
    /// 256-wide dispatch each; nothing to do for no tensors, and an error when
    /// the fill pipeline is not compiled.
    pub fn fill_zeros_batched(&self, numels: &Vec<usize>) -> (r: Result<Vec<u32>, GpuError>)
        ensures
            numels@.len() == 0 ==> (r matches Ok(v) && v@.len() == 0),
            numels@.len() > 0 && !self.pipeline_names().contains("fill_zero"@) ==> (r matches Err(
                GpuError::Pipeline(msg),
            ) && msg@ == "fill_zero not compiled"@),
            numels@.len() > 0 && self.pipeline_names().contains("fill_zero"@) ==> (r matches Ok(v)
                && v@.len() == numels@.len() && forall|i: int|
                0 <= i < v@.len() ==> #[trigger] v@[i] == ceil_div((numels@[i] as u32) as int, 256)),
    {
        let mut out: Vec<u32> = Vec::new();
        if numels.len() == 0 {
            return Ok(out);
        }
        if !self.has_pipeline("fill_zero") {
            return Err(GpuError::Pipeline(String::from_str("fill_zero not compiled")));
        }
        let mut i: usize = 0;
        while i < numels.len()
            invariant
                i <= numels@.len(),
                out@.len() == i,
                forall|j: int| 0 <= j < i ==> #[trigger] out@[j] == ceil_div((numels@[j] as u32) as int, 256),
            decreases numels@.len() - i,
        {
            let n = numels[i] as u32;
            out.push(ceil_div_u32(n, 256));
            i = i + 1;
        }
        Ok(out)
    }

    /// Number of pairwise additions that sum `count` equally shaped tensors:
    /// a single tensor is returned as it is; an empty batch is an error.
    pub fn reduce_sum_batch(&self, count: usize) -> (r: Result<usize, GpuError>)
        ensures
            count == 0 ==> (r matches Err(GpuError::Unsupported(msg)) && msg@
                == "reduce_sum_batch: empty batch"@),
            count > 0 ==> r == Ok::<usize, GpuError>((count - 1) as usize),
    {
        if count == 0 {
            return Err(GpuError::Unsupported(String::from_str("reduce_sum_batch: empty batch")));
        }
        Ok(count - 1)
    }

    /// Checks and sizes of `act(A @ B + bias)` for `a_shape` by `b_shape`:
    /// both 2-D with matching inner dimension, then the fused pipeline
    /// compiled.
    fn fused_matmul_bias_dispatch(&self, a_shape: &[usize], b_shape: &[usize], act: u32) -> (r: Result<
        FusedPlan,
        GpuError,
    >)
        requires
            fused_sizes_fit(a_shape@, b_shape@),
        ensures
            fused_result(self.pipeline_names(), a_shape@, b_shape@, act, r),
    {
        if a_shape.len() != 2 || b_shape.len() != 2 || a_shape[1] != b_shape[0] {
            return Err(
                GpuError::MatMulShape(vstd::slice::slice_to_vec(a_shape), vstd::slice::slice_to_vec(b_shape)),
            );
        }
        let m = a_shape[0] as u32;
        let k = a_shape[1] as u32;
        let n = b_shape[1] as u32;
        proof {
            assert((m as u64) * (n as u64) <= u64::MAX) by (nonlinear_arith)
                requires
                    m <= u32::MAX,
                    n <= u32::MAX,
            ;
        }
        let out_bytes = (m as u64) * (n as u64) * 4;
        if !self.has_pipeline("fused_matmul_bias") {
            return Err(GpuError::Pipeline(String::from_str("fused_matmul_bias not compiled")));
        }
        let out_shape = vec![a_shape[0], b_shape[1]];
        proof {
            assert(out_shape@ =~= seq![a_shape@[0], b_shape@[1]]);
        }
        Ok(FusedPlan { m, k, n, act, out_shape, out_bytes })
    }

    /// `C = A @ B + bias`.
    pub fn fused_matmul_bias(&self, a_shape: &[usize], b_shape: &[usize]) -> (r: Result<FusedPlan, GpuError>)
        requires
            fused_sizes_fit(a_shape@, b_shape@),
        ensures
            fused_result(self.pipeline_names(), a_shape@, b_shape@, ACT_IDENTITY, r),
    {
        self.fused_matmul_bias_dispatch(a_shape, b_shape, ACT_IDENTITY)
    }

    /// `C = GELU(A @ B + bias)`, fused or split by [`gelu_route`].
    fn fused_matmul_bias_gelu_routed(&self, a_shape: &[usize], b_shape: &[usize], force_fused: bool) -> (r:
        Result<(GeluRoute, FusedPlan), GpuError>)
        requires
            a_shape@.len() >= 2,
            b_shape@.len() >= 2,
            fused_sizes_fit(a_shape@, b_shape@),
        ensures
            gelu_result(self.pipeline_names(), a_shape@, b_shape@, force_fused, r),
    {
        let route = gelu_route(a_shape[0] as u32, a_shape[1] as u32, b_shape[1] as u32, force_fused);
        let act = match route {
            GeluRoute::MatmulThenGelu => ACT_IDENTITY,
            GeluRoute::Fused => ACT_GELU,
        };
        match self.fused_matmul_bias_dispatch(a_shape, b_shape, act) {
            Ok(plan) => Ok((route, plan)),
            Err(e) => Err(e),
        }
    }

    /// `C = GELU(A @ B + bias)`: a single fused dispatch when the largest
    /// dimension is in 512..=1024, else `A @ B + bias` then GELU in place.
    pub fn fused_matmul_bias_gelu(&self, a_shape: &[usize], b_shape: &[usize]) -> (r: Result<
        (GeluRoute, FusedPlan),
        GpuError,
    >)
        requires
            a_shape@.len() >= 2,
            b_shape@.len() >= 2,
            fused_sizes_fit(a_shape@, b_shape@),
        ensures
            gelu_result(self.pipeline_names(), a_shape@, b_shape@, false, r),
    {
        self.fused_matmul_bias_gelu_routed(a_shape, b_shape, false)
    }

    /// Profiled `C = GELU(A @ B + bias)`: routed as the unprofiled one.
    pub fn fused_matmul_bias_gelu_profiled(&self, a_shape: &[usize], b_shape: &[usize]) -> (r: Result<
        (GeluRoute, FusedPlan),
        GpuError,
    >)
        requires
            a_shape@.len() >= 2,
            b_shape@.len() >= 2,
            fused_sizes_fit(a_shape@, b_shape@),
        ensures
            gelu_result(self.pipeline_names(), a_shape@, b_shape@, false, r),
    {
        self.fused_matmul_bias_gelu_routed(a_shape, b_shape, false)
    }

    /// `C = GELU(A @ B + bias)` in one fused dispatch whatever the size.
    pub fn fused_matmul_bias_gelu_forced(&self, a_shape: &[usize], b_shape: &[usize]) -> (r: Result<
        (GeluRoute, FusedPlan),
        GpuError,
    >)
        requires
            a_shape@.len() >= 2,
            b_shape@.len() >= 2,
            fused_sizes_fit(a_shape@, b_shape@),
        ensures
            gelu_result(self.pipeline_names(), a_shape@, b_shape@, true, r),
            r is Ok ==> r->Ok_0.0 == GeluRoute::Fused,
    {
        self.fused_matmul_bias_gelu_routed(a_shape, b_shape, true)
    }

    /// Profiled `C = GELU(A @ B + bias)` in one fused dispatch.
    pub fn fused_matmul_bias_gelu_profiled_forced(&self, a_shape: &[usize], b_shape: &[usize]) -> (r:
        Result<FusedPlan, GpuError>)
        requires
            fused_sizes_fit(a_shape@, b_shape@),
        ensures
            fused_result(self.pipeline_names(), a_shape@, b_shape@, ACT_GELU, r),
    {
        self.fused_matmul_bias_dispatch(a_shape, b_shape, ACT_GELU)
    }

    /// `C = SiLU(A @ B + bias)`.
    pub fn fused_matmul_bias_silu(&self, a_shape: &[usize], b_shape: &[usize]) -> (r: Result<FusedPlan, GpuError>)
        requires
            fused_sizes_fit(a_shape@, b_shape@),
        ensures
            fused_result(self.pipeline_names(), a_shape@, b_shape@, ACT_SILU, r),
    {
        self.fused_matmul_bias_dispatch(a_shape, b_shape, ACT_SILU)
    }

    /// `C = ReLU(A @ B + bias)`.
    pub fn fused_matmul_bias_relu(&self, a_shape: &[usize], b_shape: &[usize]) -> (r: Result<FusedPlan, GpuError>)
        requires
            fused_sizes_fit(a_shape@, b_shape@),
        ensures
            fused_result(self.pipeline_names(), a_shape@, b_shape@, ACT_RELU, r),
    {
        self.fused_matmul_bias_dispatch(a_shape, b_shape, ACT_RELU)
    }

    /// Online softmax over the last dimension of a tensor of `shape`: every
    /// leading index is a row of `cols = shape.last()` values, one workgroup
    /// each; the tensor needs two dimensions at least and the softmax
    /// pipeline must be compiled.
    pub fn fused_softmax_online(&self, shape: &[usize]) -> (r: Result<SoftmaxPlan, GpuError>)
        requires
            shape@.len() >= 2 ==> products_fit(shape@) && shape_numel(shape@) * 4 <= usize::MAX,
        ensures
            shape@.len() < 2 ==> (r matches Err(GpuError::ShapeMismatch(msg)) && msg@
                == "softmax needs \u{2265}2D tensor"@),
            shape@.len() >= 2 && !self.pipeline_names().contains("fused_online_softmax"@) ==> (r matches Err(
                GpuError::Pipeline(msg),
            ) && msg@ == "fused_online_softmax not compiled"@),
            shape@.len() >= 2 && self.pipeline_names().contains("fused_online_softmax"@) ==> (r matches Ok(p)
                && p.cfg@ == seq![
                    shape_numel(shape@.drop_last()) as u32,
                    shape@.last() as u32,
                    0u32,
                    0u32,
                ] && p.out_bytes == shape_numel(shape@) * 4),
    {
        if shape.len() < 2 {
            return Err(GpuError::ShapeMismatch(String::from_str("softmax needs \u{2265}2D tensor")));
        }
        let last = shape.len() - 1;
        proof {
            assert(shape@.take(last as int) =~= shape@.drop_last());
            assert forall|i: int| 0 <= i <= shape@.take(last as int).len() implies #[trigger] shape_numel(
                shape@.take(last as int).take(i),
            ) <= usize::MAX by {
                assert(shape@.take(last as int).take(i) =~= shape@.take(i));
            }
            assert(shape@.skip(0) =~= shape@);
        }
        let rows = numel_prefix(shape, last);
        let cols = shape[last];
        let numel = numel_from(shape, 0);
        let out_bytes = (numel * 4) as u64;
        if !self.has_pipeline("fused_online_softmax") {
            return Err(GpuError::Pipeline(String::from_str("fused_online_softmax not compiled")));
        }
        let cfg: [u32; 4] = [rows as u32, cols as u32, 0, 0];
        proof {
            assert(cfg@ =~= seq![
                shape_numel(shape@.drop_last()) as u32,
                shape@.last() as u32,
                0u32,
                0u32,
            ]);
        }
        Ok(SoftmaxPlan { cfg, out_bytes })
    }

    /// Shape of the Gaussian test matrix `Ω` in `Y = W · Ω`: `[n, rank]` for
    /// `W` of shape `[m, n, ..]`.
    pub fn random_projection(&self, w_shape: &[usize], rank: usize) -> (r: Vec<usize>)
        requires
            w_shape@.len() >= 2,
        ensures
            r@ == seq![w_shape@[1], rank],
    {
        let n = w_shape[1];
        let r = vec![n, rank];
        proof {
            assert(r@ =~= seq![w_shape@[1], rank]);
        }
        r
    }

    /// Byte range and shape of rows `pos..pos + len` of a tensor of `shape`
    /// and `dtype`.
    pub fn slice_tensor(&self, shape: &[usize], dtype: TensorDtype, pos: u32, len: u32) -> (r: SlicePlan)
        requires
            shape@.len() >= 1,
            products_fit(shape@.skip(1)),
            shape_numel(shape@.skip(1)) * dtype.spec_size() <= usize::MAX,
            pos * (shape_numel(shape@.skip(1)) * dtype.spec_size()) <= u64::MAX,
            len * (shape_numel(shape@.skip(1)) * dtype.spec_size()) <= u64::MAX,
        ensures
            ({
                let row_bytes = shape_numel(shape@.skip(1)) * dtype.spec_size();
                &&& r.byte_offset == pos * row_bytes
                &&& r.byte_size == len * row_bytes
                &&& r.shape@ == shape@.update(0, len as usize)
            }),
    {
        let rest = numel_from(shape, 1);
        let element_size = dtype.element_size();
        let row_bytes = (rest * element_size) as u64;
        let byte_offset = (pos as u64) * row_bytes;
        let byte_size = (len as u64) * row_bytes;
        let mut new_shape: Vec<usize> = Vec::new();
        let mut i: usize = 0;
        while i < shape.len()
            invariant
                i <= shape@.len(),
                shape@.len() >= 1,
                new_shape@.len() == i,
                forall|j: int| 0 <= j < i ==> #[trigger] new_shape@[j] == shape@.update(0, len as usize)[j],
            decreases shape@.len() - i,
        {
            if i == 0 {
                new_shape.push(len as usize);
            } else {
                new_shape.push(shape[i]);
            }
            i = i + 1;
        }
        proof {
            assert(new_shape@ =~= shape@.update(0, len as usize));
        }
        SlicePlan { byte_offset, byte_size, shape: new_shape }
    }
}

/// Route of `GELU(A @ B + bias)` for an `m x k` by `k x n` product.
pub fn gelu_route(m: u32, k: u32, n: u32, force_fused: bool) -> (r: GeluRoute)
    ensures
        r == spec_gelu_route(m, k, n, force_fused),
{
    let max_dim = if m >= k && m >= n {
        m
    } else if k >= n {
        k
    } else {
        n
    };
    if !force_fused && (max_dim < 512 || max_dim > 1024) {
        GeluRoute::MatmulThenGelu
    } else {
        GeluRoute::Fused
    }
}

} // verus!
