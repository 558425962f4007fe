//! On-device concatenation and stacking of f32 tensors: the output shape and
//! the buffer-to-buffer copies that assemble it, computed from the first
//! tensor's shape and the extents along the joined axis.

use vstd::prelude::*;
use crate::context::{numel_from, numel_prefix, products_fit, shape_numel};

verus! {

/// One buffer-to-buffer copy: `size` bytes of tensor `tensor` from
/// `src_offset` to `dst_offset` of the output.
#[derive(Debug, Clone, Copy, PartialEq, Eq, Structural)]
pub struct CopyOp {
    pub tensor: usize,
    pub src_offset: u64,
    pub dst_offset: u64,
    pub size: u64,
}

/// Output shape, byte size and copies of a concatenation or a stack.
#[derive(Debug)]
pub struct JoinPlan {
    pub out_shape: Vec<usize>,
    pub out_bytes: u64,
    pub copies: Vec<CopyOp>,
}

/// Sum of the extents.
pub open spec fn sum_dims(d: Seq<usize>) -> int
    decreases d.len(),
{
    if d.len() == 0 {
        0
    } else {
        sum_dims(d.drop_last()) + d.last()
    }
}

/// Position along the axis where tensor `i` lands: the extents of the
/// earlier tensors that live on the device (tensors without a device buffer
/// are skipped and take no room).
pub open spec fn landing(d: Seq<usize>, on_gpu: Seq<bool>, i: int) -> int
    decreases i,
{
    if i <= 0 {
        0
    } else {
        landing(d, on_gpu, i - 1) + if on_gpu[i - 1] {
            d[i - 1] as int
        } else {
            0int
        }
    }
}

/// Copies of tensor `i`, of extent `dim` along the axis, landing at `off`:
/// along axis 0 one contiguous block; along a later axis, for each outer
/// index, the tensor's whole row of `dim * stride` elements, placed at
/// position `off` of that output row.
pub open spec fn cat_tensor_copies(
    i: int,
    dim: int,
    off: int,
    axis: int,
    outer: int,
    out_axis: int,
    stride: int,
) -> Seq<CopyOp> {
    if axis == 0 {
        seq![CopyOp { tensor: i as usize, src_offset: 0, dst_offset: (off * stride * 4) as u64, size: (dim * stride * 4) as u64 }]
    } else {
        Seq::new(
            outer as nat,
            |b: int|
                CopyOp {
                    tensor: i as usize,
                    src_offset: (b * (dim * stride * 4)) as u64,
                    dst_offset: (b * (out_axis * stride * 4) + off * (stride * 4)) as u64,
                    size: (dim * stride * 4) as u64,
                },
        )
    }
}

/// Copies of the first `k` tensors of a concatenation.
pub open spec fn cat_copies(
    d: Seq<usize>,
    on_gpu: Seq<bool>,
    k: int,
    axis: int,
    outer: int,
    out_axis: int,
    stride: int,
) -> Seq<CopyOp>
    decreases k,
{
    if k <= 0 {
        Seq::empty()
    } else {
        cat_copies(d, on_gpu, k - 1, axis, outer, out_axis, stride) + if on_gpu[k - 1] {
            cat_tensor_copies(k - 1, d[k - 1] as int, landing(d, on_gpu, k - 1), axis, outer, out_axis, stride)
        } else {
            Seq::empty()
        }
    }
}

/// What a concatenation along `axis` needs: shapes that have the axis, and
/// sizes that fit in a `usize`.
pub open spec fn cat_fits(base: Seq<usize>, d: Seq<usize>, axis: int) -> bool {
    let outer = shape_numel(base.take(axis));
    let stride = shape_numel(base.skip(axis + 1));
    let out_axis = sum_dims(d);
    &&& 0 <= axis < base.len()
    &&& stride * 4 <= usize::MAX
    &&& products_fit(base.take(axis))
    &&& products_fit(base.skip(axis + 1))
    &&& out_axis <= usize::MAX
    &&& outer * out_axis <= usize::MAX
    &&& out_axis * stride * 4 <= usize::MAX
    &&& outer * (out_axis * stride * 4) <= usize::MAX
}

proof fn lemma_sum_dims_prefix(d: Seq<usize>, i: int)
    requires
        0 <= i <= d.len(),
    ensures
        sum_dims(d.take(i)) <= sum_dims(d),
        0 <= sum_dims(d.take(i)),
    decreases d.len() - i,
{
    if i == d.len() {
        assert(d.take(i) =~= d);
        lemma_sum_dims_nonneg(d);
    } else {
        lemma_sum_dims_prefix(d, i + 1);
        assert(d.take(i + 1).drop_last() =~= d.take(i));
        lemma_sum_dims_nonneg(d.take(i));
    }
}

proof fn lemma_sum_dims_nonneg(d: Seq<usize>)
    ensures
        0 <= sum_dims(d),
    decreases d.len(),
{
    if d.len() > 0 {
        lemma_sum_dims_nonneg(d.drop_last());
    }
}

proof fn lemma_landing_bound(d: Seq<usize>, on_gpu: Seq<bool>, i: int)
    requires
        0 <= i <= d.len(),
        on_gpu.len() == d.len(),
    ensures
        0 <= landing(d, on_gpu, i) <= sum_dims(d.take(i)),
    decreases i,
{
    if i > 0 {
        lemma_landing_bound(d, on_gpu, i - 1);
        assert(d.take(i).drop_last() =~= d.take(i - 1));
    }
}

proof fn lemma_mul_mono(a: int, b: int, c: int, e: int)
    requires
        0 <= a <= c,
        0 <= b <= e,
    ensures
        a * b <= c * e,
        0 <= a * b,
{
    assert(a * b <= c * e) by (nonlinear_arith)
        requires
            0 <= a <= c,
            0 <= b <= e,
    ;
    assert(0 <= a * b) by (nonlinear_arith)
        requires
            0 <= a,
            0 <= b,
    ;
}

/// Copies of a concatenation stay inside the output buffer.
proof fn lemma_cat_copies_within(
    d: Seq<usize>,
    on_gpu: Seq<bool>,
    k: int,
    axis: int,
    outer: int,
    out_axis: int,
    stride: int,
)
    requires
        0 <= k <= d.len(),
        on_gpu.len() == d.len(),
        out_axis == sum_dims(d),
        outer >= 0,
        stride >= 0,
        axis >= 0,
        axis == 0 ==> outer == 1,
        outer * (out_axis * stride * 4) <= u64::MAX,
    ensures
        forall|c: int|
            0 <= c < cat_copies(d, on_gpu, k, axis, outer, out_axis, stride).len() ==> #[trigger] cat_copies(
                d,
                on_gpu,
                k,
                axis,
                outer,
                out_axis,
                stride,
            )[c].dst_offset + cat_copies(d, on_gpu, k, axis, outer, out_axis, stride)[c].size <= outer * (
            out_axis * stride * 4),
    decreases k,
{
    if k > 0 {
        lemma_cat_copies_within(d, on_gpu, k - 1, axis, outer, out_axis, stride);
        let pre = cat_copies(d, on_gpu, k - 1, axis, outer, out_axis, stride);
        let all = cat_copies(d, on_gpu, k, axis, outer, out_axis, stride);
        let total = outer * (out_axis * stride * 4);
        if on_gpu[k - 1] {
            let off = landing(d, on_gpu, k - 1);
            let dim = d[k - 1] as int;
            let t = cat_tensor_copies(k - 1, dim, off, axis, outer, out_axis, stride);
            assert(all == pre + t);
            lemma_landing_bound(d, on_gpu, k - 1);
            lemma_sum_dims_prefix(d, k);
            assert(d.take(k).drop_last() =~= d.take(k - 1));
            assert(off + dim <= out_axis);
            let e = stride * 4;
            let row = out_axis * e;
            assert(out_axis * stride * 4 == row) by (nonlinear_arith)
                requires
                    row == out_axis * e,
                    e == stride * 4,
            ;
            lemma_mul_mono(off + dim, e, out_axis, e);
            assert((off + dim) * e == off * e + dim * e) by (nonlinear_arith);
            lemma_mul_mono(dim, e, dim, e);
            lemma_mul_mono(off, e, off, e);
            lemma_mul_mono(outer, row, outer, row);
            if axis == 0 {
                assert(off * stride * 4 == off * e) by (nonlinear_arith)
                    requires
                        e == stride * 4,
                ;
                assert(dim * stride * 4 == dim * e) by (nonlinear_arith)
                    requires
                        e == stride * 4,
                ;
                assert(total == row);
            } else {
                assert forall|b: int| 0 <= b < outer implies #[trigger] t[b].dst_offset + t[b].size <= total by {
                    lemma_mul_mono(b, row, outer - 1, row);
                    assert((outer - 1) * row + row == outer * row) by (nonlinear_arith);
                    lemma_mul_mono(b, dim * e, b, dim * e);
                    assert(dim * stride * 4 == dim * e) by (nonlinear_arith)
                        requires
                            e == stride * 4,
                    ;
                }
            }
            assert forall|c: int| 0 <= c < all.len() implies #[trigger] all[c].dst_offset + all[c].size
                <= total by {
                if c >= pre.len() {
                    assert(all[c] == t[c - pre.len()]);
                }
            }
        } else {
            assert(all =~= pre);
        }
    }
}

/// The copies of the first `k` tensors hold every copy of each tensor
/// `i < k` that has a device buffer.
proof fn lemma_cat_copies_hold(
    d: Seq<usize>,
    on_gpu: Seq<bool>,
    k: int,
    axis: int,
    outer: int,
    out_axis: int,
    stride: int,
    i: int,
    j: int,
)
    requires
        0 <= i < k <= d.len(),
        on_gpu.len() == d.len(),
        on_gpu[i],
        0 <= j < cat_tensor_copies(i, d[i] as int, landing(d, on_gpu, i), axis, outer, out_axis, stride).len(),
    ensures
        exists|c: int|
            0 <= c < cat_copies(d, on_gpu, k, axis, outer, out_axis, stride).len() && #[trigger] cat_copies(
                d,
                on_gpu,
                k,
                axis,
                outer,
                out_axis,
                stride,
            )[c] == cat_tensor_copies(i, d[i] as int, landing(d, on_gpu, i), axis, outer, out_axis, stride)[j],
    decreases k,
{
    let pre = cat_copies(d, on_gpu, k - 1, axis, outer, out_axis, stride);
    let all = cat_copies(d, on_gpu, k, axis, outer, out_axis, stride);
    let t = cat_tensor_copies(i, d[i] as int, landing(d, on_gpu, i), axis, outer, out_axis, stride);
    if i == k - 1 {
        assert(all == pre + t);
        assert(all[pre.len() + j] == t[j]);
    } else {
        lemma_cat_copies_hold(d, on_gpu, k - 1, axis, outer, out_axis, stride, i, j);
        let c = choose|c: int| 0 <= c < pre.len() && #[trigger] pre[c] == t[j];
        assert(all[c] == pre[c]);
    }
}

/// Every element of a tensor that has a device buffer lands in its place in
/// the concatenation: element `(b, a, s)` of tensor `i` (outer index `b`,
/// position `a` along the axis, inner position `s`, in bytes at `src`) is
/// carried by one of the copies to element `(b, landing + a, s)` of the
/// output, where `landing` is the extent of the earlier tensors.
pub proof fn lemma_cat_element_lands(
    d: Seq<usize>,
    on_gpu: Seq<bool>,
    axis: int,
    outer: int,
    stride: int,
    i: int,
    b: int,
    a: int,
    s: int,
)
    requires
        on_gpu.len() == d.len(),
        0 <= i < d.len() <= usize::MAX,
        on_gpu[i],
        axis >= 0,
        axis == 0 ==> outer == 1,
        0 <= b < outer,
        0 <= a < d[i],
        0 <= s < stride,
        outer * (sum_dims(d) * stride * 4) <= u64::MAX,
    ensures
        ({
            let out_axis = sum_dims(d);
            let copies = cat_copies(d, on_gpu, d.len() as int, axis, outer, out_axis, stride);
            let src = ((b * d[i] + a) * stride + s) * 4;
            let dst = ((b * out_axis + landing(d, on_gpu, i) + a) * stride + s) * 4;
            exists|c: int|
                0 <= c < copies.len() && #[trigger] copies[c].tensor == i && copies[c].src_offset <= src && src
                    + 4 <= copies[c].src_offset + copies[c].size && copies[c].dst_offset + (src
                    - copies[c].src_offset) == dst
        }),
{
    let out_axis = sum_dims(d);
    let off = landing(d, on_gpu, i);
    let dim = d[i] as int;
    let copies = cat_copies(d, on_gpu, d.len() as int, axis, outer, out_axis, stride);
    let t = cat_tensor_copies(i, dim, off, axis, outer, out_axis, stride);
    let src = ((b * dim + a) * stride + s) * 4;
    let dst = ((b * out_axis + off + a) * stride + s) * 4;
    lemma_landing_bound(d, on_gpu, i);
    lemma_sum_dims_prefix(d, i + 1);
    assert(d.take(i + 1).drop_last() =~= d.take(i));
    assert(off + dim <= out_axis);
    let e = stride * 4;
    let row = out_axis * e;
    let total = outer * row;
    assert(out_axis * stride * 4 == row) by (nonlinear_arith)
        requires
            row == out_axis * e,
            e == stride * 4,
    ;
    let inner = (a * stride + s) * 4;
    assert(inner + 4 <= dim * e) by (nonlinear_arith)
        requires
            inner == (a * stride + s) * 4,
            e == stride * 4,
            0 <= a < dim,
            0 <= s < stride,
    ;
    assert((off + dim) * e <= row) by (nonlinear_arith)
        requires
            off + dim <= out_axis,
            row == out_axis * e,
            e >= 0,
            off >= 0,
    ;
    assert(b * row + row <= total) by (nonlinear_arith)
        requires
            total == outer * row,
            0 <= b < outer,
            row >= 0,
    ;
    assert(off * e + dim * e == (off + dim) * e) by (nonlinear_arith);
    assert(0 <= off * e && 0 <= dim * e && 0 <= b * (dim * e) && 0 <= b * row) by (nonlinear_arith)
        requires
            off >= 0,
            e >= 0,
            dim >= 0,
            b >= 0,
            row >= 0,
    ;
    assert(b * (dim * e) <= b * row) by (nonlinear_arith)
        requires
            b >= 0,
            0 <= dim * e <= row,
            (off + dim) * e <= row,
            off >= 0,
            e >= 0,
            dim >= 0,
    ;
    assert(src == b * (dim * e) + inner) by (nonlinear_arith)
        requires
            src == ((b * dim + a) * stride + s) * 4,
            inner == (a * stride + s) * 4,
            e == stride * 4,
    ;
    assert(dst == b * row + off * e + inner) by (nonlinear_arith)
        requires
            dst == ((b * out_axis + off + a) * stride + s) * 4,
            inner == (a * stride + s) * 4,
            e == stride * 4,
            row == out_axis * e,
    ;
    assert(off * stride * 4 == off * e && dim * stride * 4 == dim * e) by (nonlinear_arith)
        requires
            e == stride * 4,
    ;
    let j = if axis == 0 {
        0
    } else {
        b
    };
    if axis == 0 {
        assert(b == 0);
        assert(t[0].src_offset == 0);
        assert(t[0].dst_offset == off * e);
        assert(t[0].size == dim * e);
    } else {
        assert(t[b].src_offset == b * (dim * e));
        assert(t[b].dst_offset == b * row + off * e);
        assert(t[b].size == dim * e);
    }
    lemma_cat_copies_hold(d, on_gpu, d.len() as int, axis, outer, out_axis, stride, i, j);
    let c = choose|c: int| 0 <= c < copies.len() && #[trigger] copies[c] == t[j];
    assert(t[j].tensor == i);
    assert(copies[c].tensor == i);
}

/// Copies of a stack stay inside the output buffer.
proof fn lemma_stack_copies_within(on_gpu: Seq<bool>, k: int, outer: int, n: int, es: int)
    requires
        0 <= k <= on_gpu.len(),
        n == on_gpu.len(),
        outer >= 0,
        es >= 0,
        outer * (n * es * 4) <= u64::MAX,
    ensures
        forall|c: int|
            0 <= c < stack_copies(on_gpu, k, outer, n, es).len() ==> #[trigger] stack_copies(
                on_gpu,
                k,
                outer,
                n,
                es,
            )[c].dst_offset + stack_copies(on_gpu, k, outer, n, es)[c].size <= outer * (n * es * 4),
    decreases k,
{
    if k > 0 {
        lemma_stack_copies_within(on_gpu, k - 1, outer, n, es);
        let pre = stack_copies(on_gpu, k - 1, outer, n, es);
        let all = stack_copies(on_gpu, k, outer, n, es);
        let total = outer * (n * es * 4);
        if on_gpu[k - 1] {
            let i = k - 1;
            let t = stack_tensor_copies(i, outer, n, es);
            assert(all == pre + t);
            let e = es * 4;
            let row = n * es * 4;
            assert(row == n * e) by (nonlinear_arith)
                requires
                    row == n * es * 4,
                    e == es * 4,
            ;
            assert forall|b: int| 0 <= b < outer implies #[trigger] t[b].dst_offset + t[b].size <= total by {
                lemma_mul_mono(b, row, outer - 1, row);
                assert((outer - 1) * row + row == outer * row) by (nonlinear_arith);
                lemma_mul_mono(i + 1, e, n, e);
                assert((i + 1) * e == i * e + e) by (nonlinear_arith);
                lemma_mul_mono(i, e, i, e);
                lemma_mul_mono(b, e, b, e);
            }
            assert forall|c: int| 0 <= c < all.len() implies #[trigger] all[c].dst_offset + all[c].size
                <= total by {
                if c >= pre.len() {
                    assert(all[c] == t[c - pre.len()]);
                }
            }
        } else {
            assert(all =~= pre);
        }
    }
}

/// Sum of the extents.
fn sum_extents(d: &[usize]) -> (r: usize)
    requires
        sum_dims(d@) <= usize::MAX,
    ensures
        r == sum_dims(d@),
{
    let mut acc: usize = 0;
    let mut i: usize = 0;
    proof {
        assert(d@.take(0) =~= Seq::<usize>::empty());
    }
    while i < d.len()
        invariant
            i <= d@.len(),
            sum_dims(d@) <= usize::MAX,
            acc == sum_dims(d@.take(i as int)),
        decreases d@.len() - i,
    {
        proof {
            assert(d@.take(i + 1).drop_last() =~= d@.take(i as int));
            lemma_sum_dims_prefix(d@, i + 1);
        }
        acc = acc + d[i];
        i = i + 1;
    }
    proof {
        assert(d@.take(d@.len() as int) =~= d@);
    }
    acc
}

/// Where each input's gradient lies along the joined axis of a
/// concatenation's gradient: input `i` takes `[start, end)`, starting where
/// the previous one ended.
pub fn cat_grad_slices(dim_sizes: &[usize]) -> (r: Vec<(usize, usize)>)
    requires
        sum_dims(dim_sizes@) <= usize::MAX,
    ensures
        r@.len() == dim_sizes@.len(),
        forall|i: int|
            0 <= i < r@.len() ==> #[trigger] r@[i].0 == sum_dims(dim_sizes@.take(i)) && r@[i].1 == r@[i].0
                + dim_sizes@[i],
        forall|i: int| 0 < i < r@.len() ==> #[trigger] r@[i].0 == r@[i - 1].1,
        r@.len() > 0 ==> r@[0].0 == 0 && r@.last().1 == sum_dims(dim_sizes@),
{
    let mut out: Vec<(usize, usize)> = Vec::new();
    let mut offset: usize = 0;
    let mut i: usize = 0;
    proof {
        assert(dim_sizes@.take(0) =~= Seq::<usize>::empty());
    }
    while i < dim_sizes.len()
        invariant
            i <= dim_sizes@.len(),
            sum_dims(dim_sizes@) <= usize::MAX,
            offset == sum_dims(dim_sizes@.take(i as int)),
            out@.len() == i,
            forall|j: int|
                0 <= j < i ==> #[trigger] out@[j].0 == sum_dims(dim_sizes@.take(j)) && out@[j].1 == out@[j].0
                    + dim_sizes@[j],
        decreases dim_sizes@.len() - i,
    {
        proof {
            lemma_sum_dims_prefix(dim_sizes@, i + 1);
            assert(dim_sizes@.take(i + 1).drop_last() =~= dim_sizes@.take(i as int));
        }
        let end = offset + dim_sizes[i];
        out.push((offset, end));
        offset = end;
        i = i + 1;
    }
    proof {
        assert(dim_sizes@.take(dim_sizes@.len() as int) =~= dim_sizes@);
        assert forall|i: int| 0 < i < out@.len() implies #[trigger] out@[i].0 == out@[i - 1].1 by {
            assert(dim_sizes@.take(i).drop_last() =~= dim_sizes@.take(i - 1));
            assert(dim_sizes@.take(i).last() == dim_sizes@[i - 1]);
            assert(out@[i].0 == sum_dims(dim_sizes@.take(i)));
            assert(out@[i - 1].0 == sum_dims(dim_sizes@.take(i - 1)));
        }
        if out@.len() > 0 {
            let n = out@.len() - 1;
            assert(dim_sizes@.take(n + 1).drop_last() =~= dim_sizes@.take(n));
            assert(dim_sizes@.take(n + 1).last() == dim_sizes@[n]);
            assert(dim_sizes@.take(n + 1) =~= dim_sizes@);
            assert(out@[n].0 == sum_dims(dim_sizes@.take(n)));
            assert(out@[0].0 == sum_dims(dim_sizes@.take(0)));
            assert(dim_sizes@.take(0) =~= Seq::<usize>::empty());
        }
    }
    out
}

/// Plan of `cat` along `axis` on the device: `base` is the first tensor's
/// shape, `dims[i]` the extent of tensor `i` along the axis, and `on_gpu[i]`
/// whether it has a device buffer (a tensor without one is skipped). The
/// output is the first shape with the axis extent replaced by the sum of all
/// extents.
pub fn cat_gpu(base: &[usize], dims: &[usize], on_gpu: &[bool], axis: usize) -> (r: JoinPlan)
    requires
        dims@.len() >= 1,
        on_gpu@.len() == dims@.len(),
        cat_fits(base@, dims@, axis as int),
    ensures
        ({
            let outer = shape_numel(base@.take(axis as int));
            let stride = shape_numel(base@.skip(axis + 1));
            let out_axis = sum_dims(dims@);
            &&& r.out_shape@ == base@.update(axis as int, out_axis as usize)
            &&& r.out_bytes == outer * (out_axis * stride * 4)
            &&& r.copies@ == cat_copies(
                dims@,
                on_gpu@,
                dims@.len() as int,
                axis as int,
                outer,
                out_axis,
                stride,
            )
        }),
        forall|c: int|
            0 <= c < r.copies@.len() ==> #[trigger] r.copies@[c].dst_offset + r.copies@[c].size
                <= r.out_bytes,
{
    let ghost outer_s = shape_numel(base@.take(axis as int));
    let ghost stride_s = shape_numel(base@.skip(axis + 1));
    let out_axis = sum_extents(dims);
    let blen = base.len();
    let stride = numel_from(base, axis + 1);
    let outer = numel_prefix(base, axis);
    proof {
        assert(stride >= 0);
        lemma_mul_mono(outer as int, out_axis as int, outer as int, out_axis as int);
    }
    let elem = stride * 4;
    let out_row = out_axis * stride * 4;
    proof {
        assert(out_axis * stride * 4 == out_axis * (stride * 4)) by (nonlinear_arith);
        if out_axis > 0 {
            lemma_mul_mono(1, stride * 4, out_axis as int, stride * 4);
        } else {
            assert(stride * 4 <= out_axis * stride * 4 || out_axis == 0);
        }
    }
    let out_bytes = outer * out_row;
    let mut out_shape: Vec<usize> = Vec::new();
    let mut s: usize = 0;
    while s < base.len()
        invariant
            s <= base@.len(),
            axis < base@.len(),
            out_shape@ == base@.update(axis as int, out_axis).take(s as int),
        decreases base@.len() - s,
    {
        if s == axis {
            out_shape.push(out_axis);
        } else {
            out_shape.push(base[s]);
        }
        s = s + 1;
        proof {
            assert(out_shape@ =~= base@.update(axis as int, out_axis).take(s as int));
        }
    }
    proof {
        assert(base@.update(axis as int, out_axis).take(base@.len() as int) =~= base@.update(
            axis as int,
            out_axis,
        ));
    }
    let mut copies: Vec<CopyOp> = Vec::new();
    let mut off: usize = 0;
    let mut i: usize = 0;
    while i < dims.len()
        invariant
            dims@.len() == on_gpu@.len(),
            i <= dims@.len(),
            out_axis == sum_dims(dims@),
            out_row == out_axis * stride * 4,
            elem == stride * 4,
            out_row == out_axis * elem,
            outer * out_axis <= usize::MAX,
            outer * out_row <= usize::MAX,
            out_row <= usize::MAX,
            off == landing(dims@, on_gpu@, i as int),
            off <= sum_dims(dims@.take(i as int)),
            copies@ == cat_copies(dims@, on_gpu@, i as int, axis as int, outer as int, out_axis as int, stride as int),
        decreases dims@.len() - i,
    {
        let dim = dims[i];
        proof {
            lemma_sum_dims_prefix(dims@, i + 1);
            assert(dims@.take(i + 1).drop_last() =~= dims@.take(i as int));
            assert(off + dim <= out_axis);
            lemma_mul_mono((off + dim) as int, elem as int, out_axis as int, elem as int);
            lemma_mul_mono(dim as int, elem as int, (off + dim) as int, elem as int);
            lemma_mul_mono(off as int, elem as int, (off + dim) as int, elem as int);
            assert(dim * stride * 4 == dim * elem) by (nonlinear_arith)
                requires
                    elem == stride * 4,
            ;
            assert((off + dim) * elem == off * elem + dim * elem) by (nonlinear_arith);
        }
        let row = dim * elem;
        let ghost before = copies@;
        if on_gpu[i] {
            if axis == 0 {
                let op = CopyOp { tensor: i, src_offset: 0, dst_offset: (off * elem) as u64, size: row as u64 };
                copies.push(op);
                proof {
                    assert(off * stride * 4 == off * elem) by (nonlinear_arith)
                        requires
                            elem == stride * 4,
                    ;
                    assert(copies@ =~= before + cat_tensor_copies(
                        i as int,
                        dim as int,
                        off as int,
                        axis as int,
                        outer as int,
                        out_axis as int,
                        stride as int,
                    ));
                }
            } else {
                let mut b: usize = 0;
                while b < outer
                    invariant
                        b <= outer,
                        axis != 0,
                        outer * out_row <= usize::MAX,
                        out_row == out_axis * elem,
                        row == dim * elem,
                        row == dim * stride * 4,
                        out_row == out_axis * stride * 4,
                        row <= out_row,
                        off * elem + row <= out_row,
                        elem == stride * 4,
                        copies@ == before + cat_tensor_copies(
                            i as int,
                            dim as int,
                            off as int,
                            axis as int,
                            outer as int,
                            out_axis as int,
                            stride as int,
                        ).take(b as int),
                    decreases outer - b,
                {
                    proof {
                        lemma_mul_mono(b as int, out_row as int, (outer - 1) as int, out_row as int);
                        lemma_mul_mono(b as int, row as int, b as int, out_row as int);
                        assert((outer - 1) * out_row + out_row == outer * out_row) by (nonlinear_arith);
                    }
                    let src = b * row;
                    let dst = b * out_row + off * elem;
                    copies.push(CopyOp { tensor: i, src_offset: src as u64, dst_offset: dst as u64, size: row as u64 });
                    proof {
                        let t = cat_tensor_copies(
                            i as int,
                            dim as int,
                            off as int,
                            axis as int,
                            outer as int,
                            out_axis as int,
                            stride as int,
                        );
                        assert(row == dim * stride * 4);
                        assert(out_row == out_axis * stride * 4);
                        assert(t[b as int] == CopyOp { tensor: i, src_offset: src as u64, dst_offset: dst as u64, size: row as u64 });
                        assert(t.take(b + 1) =~= t.take(b as int).push(t[b as int]));
                        assert(copies@ =~= before + t.take(b + 1));
                    }
                    b = b + 1;
                }
                proof {
                    let t = cat_tensor_copies(
                        i as int,
                        dim as int,
                        off as int,
                        axis as int,
                        outer as int,
                        out_axis as int,
                        stride as int,
                    );
                    assert(t.take(outer as int) =~= t);
                }
            }
            off = off + dim;
        } else {
            proof {
                assert(copies@ =~= before + Seq::<CopyOp>::empty());
            }
        }
        proof {
            lemma_landing_bound(dims@, on_gpu@, i + 1);
        }
        i = i + 1;
    }
    proof {
        assert(outer * (out_axis * stride * 4) == outer * out_row);
        assert(base@.take(0) =~= Seq::<usize>::empty());
        lemma_cat_copies_within(
            dims@,
            on_gpu@,
            dims@.len() as int,
            axis as int,
            outer as int,
            out_axis as int,
            stride as int,
        );
    }
    JoinPlan { out_shape, out_bytes: out_bytes as u64, copies }
}


/// Copies of tensor `i` of `n` stacked tensors of `es` elements per outer
/// index: one block per outer index, placed at slot `i` of its output row.
pub open spec fn stack_tensor_copies(i: int, outer: int, n: int, es: int) -> Seq<CopyOp> {
    Seq::new(
        outer as nat,
        |b: int|
            CopyOp {
                tensor: i as usize,
                src_offset: (b * (es * 4)) as u64,
                dst_offset: (b * (n * es * 4) + i * (es * 4)) as u64,
                size: (es * 4) as u64,
            },
    )
}

/// Copies of the first `k` tensors of a stack of `n`.
pub open spec fn stack_copies(on_gpu: Seq<bool>, k: int, outer: int, n: int, es: int) -> Seq<CopyOp>
    decreases k,
{
    if k <= 0 {
        Seq::empty()
    } else {
        stack_copies(on_gpu, k - 1, outer, n, es) + if on_gpu[k - 1] {
            stack_tensor_copies(k - 1, outer, n, es)
        } else {
            Seq::empty()
        }
    }
}

/// Where the new axis goes: `axis`, or the end when `axis` is past it.
pub open spec fn insert_at(base: Seq<usize>, axis: int) -> int {
    if axis < base.len() {
        axis
    } else {
        base.len() as int
    }
}

/// What stacking `n` tensors along `axis` needs: sizes that fit a `usize`.
pub open spec fn stack_fits(base: Seq<usize>, n: int, axis: int) -> bool {
    let ia = insert_at(base, axis);
    let outer = shape_numel(base.take(ia));
    let es = shape_numel(base.skip(ia));
    &&& products_fit(base.take(ia))
    &&& products_fit(base.skip(ia))
    &&& es * 4 <= usize::MAX
    &&& n * es * 4 <= usize::MAX
    &&& outer * (n * es * 4) <= usize::MAX
}

/// Plan of `stack` along `axis` on the device: `base` is the first tensor's
/// shape and `on_gpu[i]` whether tensor `i` has a device buffer (a tensor
/// without one is skipped, its slot left as it is). The output is the first
/// shape with the number of tensors inserted at the axis (at the end when the
/// axis is past it).
pub fn stack_gpu(base: &[usize], on_gpu: &[bool], axis: usize) -> (r: JoinPlan)
    requires
        on_gpu@.len() >= 1,
        stack_fits(base@, on_gpu@.len() as int, axis as int),
    ensures
        ({
            let n = on_gpu@.len() as int;
            let ia = insert_at(base@, axis as int);
            let outer = shape_numel(base@.take(ia));
            let es = shape_numel(base@.skip(ia));
            &&& r.out_shape@ == base@.insert(ia, n as usize)
            &&& r.out_bytes == outer * (n * es * 4)
            &&& r.copies@ == stack_copies(on_gpu@, n, outer, n, es)
        }),
        forall|c: int|
            0 <= c < r.copies@.len() ==> #[trigger] r.copies@[c].dst_offset + r.copies@[c].size
                <= r.out_bytes,
{
    let n = on_gpu.len();
    let blen = base.len();
    let ia = if axis < blen {
        axis
    } else {
        blen
    };
    let es = numel_from(base, ia);
    let outer = numel_prefix(base, ia);
    let elem = es * 4;
    proof {
        assert(n * es * 4 == n * (es * 4)) by (nonlinear_arith);
        lemma_mul_mono(1, es as int, n as int, es as int);
    }
    let total_stride = n * es;
    let out_row = total_stride * 4;
    let out_bytes = outer * out_row;
    let mut out_shape: Vec<usize> = Vec::new();
    let mut s: usize = 0;
    while s < blen
        invariant
            blen == base@.len(),
            s <= blen,
            ia <= blen,
            s <= ia ==> out_shape@ == base@.take(s as int),
            s > ia ==> out_shape@ == base@.insert(ia as int, n).take(s + 1),
        decreases blen - s,
    {
        if s == ia {
            out_shape.push(n);
        }
        out_shape.push(base[s]);
        s = s + 1;
        proof {
            if s <= ia {
                assert(out_shape@ =~= base@.take(s as int));
            } else {
                assert(out_shape@ =~= base@.insert(ia as int, n).take(s + 1));
            }
        }
    }
    if ia == blen {
        out_shape.push(n);
    }
    proof {
        assert(out_shape@ =~= base@.insert(ia as int, n));
    }
    let mut copies: Vec<CopyOp> = Vec::new();
    let mut i: usize = 0;
    while i < n
        invariant
            n == on_gpu@.len(),
            i <= n,
            elem == es * 4,
            out_row == n * es * 4,
            out_row == n * elem,
            outer * out_row <= usize::MAX,
            copies@ == stack_copies(on_gpu@, i as int, outer as int, n as int, es as int),
        decreases n - i,
    {
        let ghost before = copies@;
        proof {
            lemma_mul_mono((i + 1) as int, elem as int, n as int, elem as int);
            assert((i + 1) * elem == i * elem + elem) by (nonlinear_arith);
        }
        let slot = i * elem;
        if on_gpu[i] {
            let mut b: usize = 0;
            while b < outer
                invariant
                    b <= outer,
                    outer * out_row <= usize::MAX,
                    slot + elem <= out_row,
                    slot == i * elem,
                    elem == es * 4,
                    out_row == n * es * 4,
                    out_row == n * elem,
                    i < n,
                    copies@ == before + stack_tensor_copies(i as int, outer as int, n as int, es as int).take(
                        b as int,
                    ),
                decreases outer - b,
            {
                proof {
                    lemma_mul_mono(b as int, out_row as int, (outer - 1) as int, out_row as int);
                    assert((outer - 1) * out_row + out_row == outer * out_row) by (nonlinear_arith);
                    lemma_mul_mono(1, elem as int, n as int, elem as int);
                    lemma_mul_mono(b as int, elem as int, b as int, out_row as int);
                }
                let src = b * elem;
                let dst = b * out_row + slot;
                copies.push(CopyOp { tensor: i, src_offset: src as u64, dst_offset: dst as u64, size: elem as u64 });
                proof {
                    let t = stack_tensor_copies(i as int, outer as int, n as int, es as int);
                    assert(t[b as int] == CopyOp { tensor: i, src_offset: src as u64, dst_offset: dst as u64, size: elem as u64 });
                    assert(t.take(b + 1) =~= t.take(b as int).push(t[b as int]));
                    assert(copies@ =~= before + t.take(b + 1));
                }
                b = b + 1;
            }
            proof {
                let t = stack_tensor_copies(i as int, outer as int, n as int, es as int);
                assert(t.take(outer as int) =~= t);
            }
        } else {
            proof {
                assert(copies@ =~= before + Seq::<CopyOp>::empty());
            }
        }
        i = i + 1;
    }
    proof {
        lemma_stack_copies_within(on_gpu@, n as int, outer as int, n as int, es as int);
    }
    JoinPlan { out_shape, out_bytes: out_bytes as u64, copies }
}

} // verus!
