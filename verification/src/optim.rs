//! Step bookkeeping of the device AdamW optimizer: the step counter and the
//! update dispatches of one step.

use vstd::prelude::*;
use crate::context::{ceil_div, ceil_div_u32, GpuContext, GpuError};

verus! {

/// Step counter of the device AdamW optimizer over a set of parameters; the
/// real-valued hyper-parameters are held by the caller.
#[derive(Debug, Clone, Copy, PartialEq, Eq, Structural)]
pub struct GpuAdam {
    /// Steps begun so far; the bias corrections use it as the exponent.
    pub step: u32,
}

/// The update dispatches of one step over parameters of `numels` elements:
/// for each non-empty parameter, in order, its index and its workgroups (the
/// element count taken as a `u32`, 256 per group).
pub open spec fn spec_adam_dispatches(numels: Seq<usize>, upto: int) -> Seq<(usize, u32)>
    decreases upto,
{
    if upto <= 0 {
        Seq::empty()
    } else {
        spec_adam_dispatches(numels, upto - 1) + if numels[upto - 1] == 0 {
            Seq::<(usize, u32)>::empty()
        } else {
            seq![((upto - 1) as usize, ceil_div((numels[upto - 1] as u32) as int, 256) as u32)]
        }
    }
}

impl GpuAdam {
    /// An optimizer that has taken no step.
    pub fn new() -> (r: Self)
        ensures
            r.step == 0,
    {
        GpuAdam { step: 0 }
    }

    /// Starts a step: the counter goes up by one.
    pub fn begin_step(&mut self)
        requires
            old(self).step < u32::MAX,
        ensures
            final(self).step == old(self).step + 1,
    {
        self.step = self.step + 1;
    }

    /// The update dispatches of the current step; the update pipeline must
    /// be compiled. Empty parameters are skipped.
    pub fn step_dispatches(&self, ctx: &GpuContext, numels: &[usize]) -> (r: Result<Vec<(usize, u32)>, GpuError>)
        ensures
            ctx.pipeline_names().contains("adam_step"@) ==> (r matches Ok(v) && v@ == spec_adam_dispatches(
                numels@,
                numels@.len() as int,
            )),
            !ctx.pipeline_names().contains("adam_step"@) ==> (r matches Err(GpuError::Pipeline(msg))
                && msg@ == "adam_step not compiled"@),
    {
        if !ctx.has_pipeline("adam_step") {
            return Err(GpuError::Pipeline(String::from_str("adam_step not compiled")));
        }
        let mut out: Vec<(usize, u32)> = Vec::new();
        let mut i: usize = 0;
        while i < numels.len()
            invariant
                i <= numels@.len(),
                out@ == spec_adam_dispatches(numels@, i as int),
            decreases numels@.len() - i,
        {
            let numel = numels[i];
            if numel != 0 {
                out.push((i, ceil_div_u32(numel as u32, 256)));
            }
            i = i + 1;
            proof {
                assert(out@ =~= spec_adam_dispatches(numels@, i as int));
            }
        }
        Ok(out)
    }

    /// One step: the counter goes up by one, then the update dispatches of
    /// the step over parameters of `numels` elements (an error, after the
    /// count, when the update pipeline is not compiled).
    pub fn step(&mut self, ctx: &GpuContext, numels: &[usize]) -> (r: Result<Vec<(usize, u32)>, GpuError>)
        requires
            old(self).step < u32::MAX,
        ensures
            final(self).step == old(self).step + 1,
            ctx.pipeline_names().contains("adam_step"@) ==> (r matches Ok(v) && v@ == spec_adam_dispatches(
                numels@,
                numels@.len() as int,
            )),
            !ctx.pipeline_names().contains("adam_step"@) ==> (r matches Err(GpuError::Pipeline(msg))
                && msg@ == "adam_step not compiled"@),
    {
        self.begin_step();
        self.step_dispatches(ctx, numels)
    }
}

} // verus!
