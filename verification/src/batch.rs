//! Accumulating several device commands in one submission: what a batch
//! has recorded, and the zero-fills enqueued into it.

use vstd::prelude::*;
use crate::context::{ceil_div, ceil_div_u32, GpuContext, GpuError};

verus! {

/// A command recorded in a batch.
#[derive(Debug, Clone, Copy, PartialEq, Eq, Structural)]
pub enum BatchOp {
    /// A compute dispatch with these workgroup counts.
    Dispatch { x: u32, y: u32, z: u32 },
    /// A buffer-to-buffer copy of this many bytes.
    Copy { bytes: u64 },
}

/// Commands accumulated for a single queue submission.
#[derive(Debug)]
pub struct GpuCommandBatch {
    ops: Vec<BatchOp>,
}

impl GpuCommandBatch {
    /// The commands recorded so far, in order.
    pub closed spec fn spec_ops(&self) -> Seq<BatchOp> {
        self.ops@
    }

    /// An empty batch.
    pub fn new() -> (r: Self)
        ensures
            r.spec_ops() == Seq::<BatchOp>::empty(),
    {
        GpuCommandBatch { ops: Vec::new() }
    }

    /// Records a compute dispatch.
    pub fn dispatch(&mut self, workgroups: (u32, u32, u32))
        ensures
            final(self).spec_ops() == old(self).spec_ops().push(BatchOp::Dispatch { x: workgroups.0, y: workgroups.1, z: workgroups.2 }),
    {
        self.ops.push(BatchOp::Dispatch { x: workgroups.0, y: workgroups.1, z: workgroups.2 });
    }

    /// Records a copy between two f32 tensors of `src_numel` and `dst_numel`
    /// elements; tensors of different sizes are not copied.
    pub fn copy_buffer(&mut self, src_numel: usize, dst_numel: usize)
        requires
            src_numel * 4 <= usize::MAX,
        ensures
            src_numel == dst_numel ==> final(self).spec_ops() == old(self).spec_ops().push(
                BatchOp::Copy { bytes: (src_numel * 4) as u64 },
            ),
            src_numel != dst_numel ==> final(self).spec_ops() == old(self).spec_ops(),
    {
        if src_numel != dst_numel {
            return;
        }
        let bytes = (src_numel * 4) as u64;
        self.ops.push(BatchOp::Copy { bytes });
    }

    /// Records a copy of `byte_size` bytes between raw buffers.
    pub fn copy_raw_buffer(&mut self, byte_size: u64)
        ensures
            final(self).spec_ops() == old(self).spec_ops().push(BatchOp::Copy { bytes: byte_size }),
    {
        self.ops.push(BatchOp::Copy { bytes: byte_size });
    }

    /// Number of commands recorded so far.
    pub fn op_count(&self) -> (r: usize)
        ensures
            r == self.spec_ops().len(),
    {
        self.ops.len()
    }

    /// Ends the batch, giving the number of commands submitted.
    pub fn submit(self) -> (r: usize)
        ensures
            r == self.spec_ops().len(),
    {
        self.ops.len()
    }
}

impl GpuContext {
    /// Enqueues the zero-fill of a tensor of `numel` elements (taken as a
    /// `u32`), 256 per workgroup; the fill pipeline must be compiled.
    pub fn batch_enqueue_fill_zero(&self, batch: &mut GpuCommandBatch, numel: usize) -> (r: Result<
        (),
        GpuError,
    >)
        ensures
            self.pipeline_names().contains("fill_zero"@) ==> r is Ok && final(batch).spec_ops() == old(
                batch,
            ).spec_ops().push(BatchOp::Dispatch { x: ceil_div((numel as u32) as int, 256) as u32, y: 1, z: 1 }),
            !self.pipeline_names().contains("fill_zero"@) ==> (r matches Err(GpuError::Pipeline(msg))
                && msg@ == "fill_zero not compiled"@) && final(batch).spec_ops() == old(batch).spec_ops(),
    {
        if !self.has_pipeline("fill_zero") {
            return Err(GpuError::Pipeline(String::from_str("fill_zero not compiled")));
        }
        let groups = ceil_div_u32(numel as u32, 256);
        batch.dispatch((groups, 1, 1));
        Ok(())
    }
}

} // verus!
