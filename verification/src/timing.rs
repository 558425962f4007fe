//! Device timing: the timestamp-query buffers, reading the two timestamps
//! back, and the checks and sizes of the timed batched matmul.

use vstd::prelude::*;
use vstd::bytes::{spec_u64_from_le_bytes, u64_from_le_bytes};
use crate::context::{ceil_div, ceil_div_usize, GpuContext, GpuError};
use crate::text::{push_decimal, spec_decimal};

verus! {

/// Bytes of one timestamp query result.
pub const QUERY_SIZE: u64 = 8;

/// Bytes a query-resolve buffer of `query_count` results occupies: their
/// size rounded up to a multiple of 256.
pub fn query_buffer_size(query_count: u64) -> (r: u64)
    requires
        query_count * QUERY_SIZE + 255 <= u64::MAX,
    ensures
        r == ceil_div(query_count * QUERY_SIZE, 256) * 256,
{
    let bytes = query_count * QUERY_SIZE;
    let q = bytes / 256;
    let blocks = if bytes % 256 != 0 {
        q + 1
    } else {
        q
    };
    proof {
        assert(q * 256 <= bytes) by (nonlinear_arith)
            requires
                q == bytes / 256,
        ;
    }
    blocks * 256
}

/// The start and end timestamps at the front of a mapped readback, each a
/// little-endian `u64`; `None` when fewer than 16 bytes were mapped.
pub fn read_timestamps(mapped: &[u8]) -> (r: Option<(u64, u64)>)
    ensures
        mapped@.len() < 16 ==> r is None,
        mapped@.len() >= 16 ==> r == Some(
            (
                spec_u64_from_le_bytes(mapped@.subrange(0, 8)),
                spec_u64_from_le_bytes(mapped@.subrange(8, 16)),
            ),
        ),
{
    if mapped.len() < 16 {
        return None;
    }
    let first = u64_from_le_bytes(vstd::slice::slice_subrange(mapped, 0, 8));
    let second = u64_from_le_bytes(vstd::slice::slice_subrange(mapped, 8, 16));
    Some((first, second))
}

/// Device ticks between a start and an end timestamp; an end before the
/// start (a counter that wrapped or was reset) counts as no time.
pub fn timestamp_ticks(start: u64, end: u64) -> (r: u64)
    ensures
        r == (if end >= start {
            end - start
        } else {
            0
        }),
{
    if end >= start {
        end - start
    } else {
        0
    }
}

/// Sizes and launch of the timed, repeated tiled matmul of `m x k` by `k x n`.
#[derive(Debug)]
pub struct MatmulPlan {
    /// Uniform `[m, k, n, 0]`.
    pub cfg: [u32; 4],
    /// Bytes of the `m x n` output.
    pub out_bytes: u64,
    /// Workgroups: output tiles along `m` and `n`.
    pub groups: (u32, u32, u32),
    /// Shape of the output.
    pub out_shape: Vec<usize>,
}

/// The message of mismatched inner dimensions.
pub open spec fn spec_dim_mismatch(m: usize, k: usize, k2: usize, n: usize) -> Seq<char> {
    "Matmul dimension mismatch: "@ + spec_decimal(m as nat) + "x"@ + spec_decimal(k as nat) + " @ "@
        + spec_decimal(k2 as nat) + "x"@ + spec_decimal(n as nat)
}

impl GpuContext {
    /// Checks and sizes of the timed matmul of `a_shape` by `b_shape` with
    /// output tiles of `tile` (chosen by the caller from the device): both
    /// must be matrices with matching inner dimension, and the tiled matmul
    /// pipeline must be compiled.
    pub fn matmul_batch_with_timestamp(&self, a_shape: &[usize], b_shape: &[usize], tile: usize) -> (r:
        Result<MatmulPlan, GpuError>)
        requires
            tile > 0,
            a_shape@.len() == 2 && b_shape@.len() == 2 ==> a_shape@[0] * b_shape@[1] * 4 <= usize::MAX,
        ensures
            !(a_shape@.len() == 2 && b_shape@.len() == 2) ==> (r matches Err(GpuError::ShapeMismatch(msg))
                && msg@ == "Matmul requires 2D tensors"@),
            a_shape@.len() == 2 && b_shape@.len() == 2 && a_shape@[1] != b_shape@[0] ==> (r matches Err(
                GpuError::ShapeMismatch(msg),
            ) && msg@ == spec_dim_mismatch(a_shape@[0], a_shape@[1], b_shape@[0], b_shape@[1])),
            a_shape@.len() == 2 && b_shape@.len() == 2 && a_shape@[1] == b_shape@[0]
                && !self.pipeline_names().contains("matmul_tiled"@) ==> (r matches Err(
                GpuError::Pipeline(msg),
            ) && msg@ == "matmul_tiled not compiled"@),
            a_shape@.len() == 2 && b_shape@.len() == 2 && a_shape@[1] == b_shape@[0]
                && self.pipeline_names().contains("matmul_tiled"@) ==> (r matches Ok(p) && {
                let m = a_shape@[0];
                let k = a_shape@[1];
                let n = b_shape@[1];
                &&& p.cfg@ == seq![m as u32, k as u32, n as u32, 0u32]
                &&& p.out_bytes == m * n * 4
                &&& p.groups == (ceil_div(m as int, tile as int) as u32, ceil_div(n as int, tile as int) as u32, 1u32)
                &&& p.out_shape@ == seq![m, n]
            }),
    {
        if a_shape.len() != 2 || b_shape.len() != 2 {
            return Err(GpuError::ShapeMismatch(String::from_str("Matmul requires 2D tensors")));
        }
        let m = a_shape[0];
        let k = a_shape[1];
        let n = b_shape[1];
        if k != b_shape[0] {
            let mut msg = String::from_str("Matmul dimension mismatch: ");
            push_decimal(&mut msg, m as u64);
            msg.append("x");
            push_decimal(&mut msg, k as u64);
            msg.append(" @ ");
            push_decimal(&mut msg, b_shape[0] as u64);
            msg.append("x");
            push_decimal(&mut msg, n as u64);
            return Err(GpuError::ShapeMismatch(msg));
        }
        let out_bytes = (m * n * 4) as u64;
        if !self.has_pipeline("matmul_tiled") {
            return Err(GpuError::Pipeline(String::from_str("matmul_tiled not compiled")));
        }
        let cfg: [u32; 4] = [m as u32, k as u32, n as u32, 0];
        let gm = ceil_div_usize(m, tile);
        let gn = ceil_div_usize(n, tile);
        let out_shape = vec![m, n];
        proof {
            assert(cfg@ =~= seq![m as u32, k as u32, n as u32, 0u32]);
            assert(out_shape@ =~= seq![m, n]);
        }
        Ok(MatmulPlan { cfg, out_bytes, groups: (gm as u32, gn as u32, 1), out_shape })
    }
}

} // verus!
