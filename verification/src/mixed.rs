//! Mixed-precision storage types and the step bookkeeping of dynamic loss
//! scaling.

use vstd::prelude::*;
use crate::context::GpuContext;
use crate::pipelines::{is_handle, lemma_registered_then, registered};

verus! {

/// Storage type of a mixed-precision tensor.
#[derive(Debug, Clone, Copy, PartialEq, Eq, Structural)]
pub enum GpuDType {
    F32,
    F16,
    BF16,
}

impl GpuDType {
    /// Bytes per stored element: `F16` packs two bytes, `F32` and `BF16`
    /// occupy four.
    pub open spec fn spec_bytes(self) -> u64 {
        match self {
            GpuDType::F32 | GpuDType::BF16 => 4,
            GpuDType::F16 => 2,
        }
    }

    /// Bytes per stored element.
    pub fn bytes_per_element(&self) -> (r: u64)
        ensures
            r == self.spec_bytes(),
    {
        match self {
            GpuDType::F32 | GpuDType::BF16 => 4,
            GpuDType::F16 => 2,
        }
    }

    /// Bytes of a buffer holding `numel` elements.
    pub fn buffer_size(&self, numel: usize) -> (r: u64)
        requires
            numel * self.spec_bytes() <= u64::MAX,
        ensures
            r == numel * self.spec_bytes(),
    {
        (numel as u64) * self.bytes_per_element()
    }

    /// Whether the type is a 16-bit float format.
    pub fn is_half(&self) -> (r: bool)
        ensures
            r == (*self == GpuDType::F16 || *self == GpuDType::BF16),
    {
        match self {
            GpuDType::F16 | GpuDType::BF16 => true,
            GpuDType::F32 => false,
        }
    }
}

impl Default for GpuDType {
    /// `F32`.
    fn default() -> (r: Self)
        ensures
            r == GpuDType::F32,
    {
        GpuDType::F32
    }
}

/// Workgroups of a 256-wide element-wise conversion or scaling pass over
/// `numel` elements, the count taken as a `u32`.
pub fn elementwise_workgroups(numel: usize) -> (r: u32)
    requires
        (numel as u32) + 255 <= u32::MAX,
    ensures
        r == ((numel as u32) + 255) / 256,
{
    ((numel as u32) + 255) / 256
}

/// Output size and workgroups of a precision conversion pass.
#[derive(Debug, Clone, Copy, PartialEq, Eq, Structural)]
pub struct ConversionPlan {
    pub out_bytes: u64,
    pub groups: u32,
}

/// Conversion of `numel` f32 values to packed f16: two bytes out per value.
pub fn dispatch_f32_to_f16(numel: usize) -> (r: ConversionPlan)
    requires
        numel * 2 <= usize::MAX,
        (numel as u32) + 255 <= u32::MAX,
    ensures
        r.out_bytes == numel * 2,
        r.groups == ((numel as u32) + 255) / 256,
{
    ConversionPlan { out_bytes: (numel * 2) as u64, groups: elementwise_workgroups(numel) }
}

/// Conversion of `numel` packed f16 values back to f32: four bytes out per
/// value.
pub fn dispatch_f16_to_f32(numel: usize) -> (r: ConversionPlan)
    requires
        numel * 4 <= usize::MAX,
        (numel as u32) + 255 <= u32::MAX,
    ensures
        r.out_bytes == numel * 4,
        r.groups == ((numel as u32) + 255) / 256,
{
    ConversionPlan { out_bytes: (numel * 4) as u64, groups: elementwise_workgroups(numel) }
}

/// Workgroups of the in-place multiplication of `numel` values by the scale.
pub fn dispatch_scale_inplace(numel: usize) -> (r: u32)
    requires
        (numel as u32) + 255 <= u32::MAX,
    ensures
        r == ((numel as u32) + 255) / 256,
{
    elementwise_workgroups(numel)
}

/// Workgroups of the in-place division of `numel` values by the scale.
pub fn dispatch_unscale_inplace(numel: usize) -> (r: u32)
    requires
        (numel as u32) + 255 <= u32::MAX,
    ensures
        r == ((numel as u32) + 255) / 256,
{
    elementwise_workgroups(numel)
}

/// What the loss scale does after a step.
#[derive(Debug, Clone, Copy, PartialEq, Eq, Structural)]
pub enum ScaleAction {
    /// Multiply the scale by the backoff factor.
    Backoff,
    /// Multiply the scale by the growth factor, capped at the maximum.
    Grow,
    /// Leave the scale as it is.
    Keep,
}

/// Step counters of a dynamic loss scaler: the scale backs off on every
/// overflow and grows after `growth_interval` clean steps in a row.
#[derive(Debug, Clone, Copy)]
pub struct LossScaleSchedule {
    growth_interval: usize,
    steps_since_growth: usize,
    overflow_count: usize,
    total_steps: usize,
}

/// Clean steps in a row before the scale grows.
pub const DEFAULT_GROWTH_INTERVAL: usize = 2000;

impl LossScaleSchedule {
    /// Counters are consistent: the run of clean steps is shorter than the
    /// growth interval, and overflows are among the steps taken.
    pub closed spec fn wf(&self) -> bool {
        &&& self.growth_interval > 0
        &&& self.steps_since_growth < self.growth_interval
        &&& self.overflow_count <= self.total_steps
    }

    pub closed spec fn spec_growth_interval(&self) -> usize {
        self.growth_interval
    }

    pub closed spec fn spec_steps_since_growth(&self) -> usize {
        self.steps_since_growth
    }

    pub closed spec fn spec_overflow_count(&self) -> usize {
        self.overflow_count
    }

    pub closed spec fn spec_total_steps(&self) -> usize {
        self.total_steps
    }

    /// Fresh counters with the default growth interval.
    pub fn new() -> (r: Self)
        ensures
            r.wf(),
            r.spec_growth_interval() == DEFAULT_GROWTH_INTERVAL,
            r.spec_steps_since_growth() == 0,
            r.spec_overflow_count() == 0,
            r.spec_total_steps() == 0,
    {
        LossScaleSchedule {
            growth_interval: DEFAULT_GROWTH_INTERVAL,
            steps_since_growth: 0,
            overflow_count: 0,
            total_steps: 0,
        }
    }

    /// Records a step whose gradients overflowed: the scale backs off and the
    /// run of clean steps restarts.
    pub fn record_overflow(&mut self) -> (r: ScaleAction)
        requires
            old(self).wf(),
            old(self).spec_total_steps() < usize::MAX,
        ensures
            final(self).wf(),
            r == ScaleAction::Backoff,
            final(self).spec_growth_interval() == old(self).spec_growth_interval(),
            final(self).spec_steps_since_growth() == 0,
            final(self).spec_overflow_count() == old(self).spec_overflow_count() + 1,
            final(self).spec_total_steps() == old(self).spec_total_steps() + 1,
    {
        self.steps_since_growth = 0;
        self.overflow_count = self.overflow_count + 1;
        self.total_steps = self.total_steps + 1;
        ScaleAction::Backoff
    }

    /// Records a clean step: the scale grows when the run of clean steps
    /// reaches the growth interval, and the run restarts.
    pub fn record_success(&mut self) -> (r: ScaleAction)
        requires
            old(self).wf(),
            old(self).spec_total_steps() < usize::MAX,
        ensures
            final(self).wf(),
            final(self).spec_growth_interval() == old(self).spec_growth_interval(),
            final(self).spec_overflow_count() == old(self).spec_overflow_count(),
            final(self).spec_total_steps() == old(self).spec_total_steps() + 1,
            old(self).spec_steps_since_growth() + 1 >= old(self).spec_growth_interval() ==> {
                &&& r == ScaleAction::Grow
                &&& final(self).spec_steps_since_growth() == 0
            },
            old(self).spec_steps_since_growth() + 1 < old(self).spec_growth_interval() ==> {
                &&& r == ScaleAction::Keep
                &&& final(self).spec_steps_since_growth() == old(self).spec_steps_since_growth() + 1
            },
    {
        self.total_steps = self.total_steps + 1;
        self.steps_since_growth = self.steps_since_growth + 1;
        if self.steps_since_growth >= self.growth_interval {
            self.steps_since_growth = 0;
            ScaleAction::Grow
        } else {
            ScaleAction::Keep
        }
    }

    /// Steps that overflowed.
    pub fn overflow_count(&self) -> (r: usize)
        ensures
            r == self.spec_overflow_count(),
    {
        self.overflow_count
    }

    /// Steps recorded.
    pub fn total_steps(&self) -> (r: usize)
        ensures
            r == self.spec_total_steps(),
    {
        self.total_steps
    }
}

/// Compiles the f32 to f16 conversion pipeline and returns its handle.
pub fn compile_f32_to_f16_pipeline(ctx: &mut GpuContext) -> (r: usize)
    requires
        old(ctx).wf(),
    ensures
        registered(*old(ctx), *final(ctx), seq!["f32_to_f16"@]),
        is_handle(*final(ctx), r, "f32_to_f16"@),
{
    let ghost p0 = ctx.pipeline_names();
    ctx.compile_step("f32_to_f16", Ghost(p0), Ghost(Seq::empty()))
}

/// Compiles the f16 to f32 conversion pipeline and returns its handle.
pub fn compile_f16_to_f32_pipeline(ctx: &mut GpuContext) -> (r: usize)
    requires
        old(ctx).wf(),
    ensures
        registered(*old(ctx), *final(ctx), seq!["f16_to_f32"@]),
        is_handle(*final(ctx), r, "f16_to_f32"@),
{
    let ghost p0 = ctx.pipeline_names();
    ctx.compile_step("f16_to_f32", Ghost(p0), Ghost(Seq::empty()))
}

/// Compiles the f32 to bf16 conversion pipeline and returns its handle.
pub fn compile_f32_to_bf16_pipeline(ctx: &mut GpuContext) -> (r: usize)
    requires
        old(ctx).wf(),
    ensures
        registered(*old(ctx), *final(ctx), seq!["f32_to_bf16"@]),
        is_handle(*final(ctx), r, "f32_to_bf16"@),
{
    let ghost p0 = ctx.pipeline_names();
    ctx.compile_step("f32_to_bf16", Ghost(p0), Ghost(Seq::empty()))
}

/// Compiles the bf16 to f32 conversion pipeline and returns its handle.
pub fn compile_bf16_to_f32_pipeline(ctx: &mut GpuContext) -> (r: usize)
    requires
        old(ctx).wf(),
    ensures
        registered(*old(ctx), *final(ctx), seq!["bf16_to_f32"@]),
        is_handle(*final(ctx), r, "bf16_to_f32"@),
{
    let ghost p0 = ctx.pipeline_names();
    ctx.compile_step("bf16_to_f32", Ghost(p0), Ghost(Seq::empty()))
}

/// Compiles the in-place loss-scaling pipeline and returns its handle.
pub fn compile_scale_pipeline(ctx: &mut GpuContext) -> (r: usize)
    requires
        old(ctx).wf(),
    ensures
        registered(*old(ctx), *final(ctx), seq!["scale"@]),
        is_handle(*final(ctx), r, "scale"@),
{
    let ghost p0 = ctx.pipeline_names();
    ctx.compile_step("scale", Ghost(p0), Ghost(Seq::empty()))
}

/// Compiles the in-place unscaling pipeline and returns its handle.
pub fn compile_unscale_pipeline(ctx: &mut GpuContext) -> (r: usize)
    requires
        old(ctx).wf(),
    ensures
        registered(*old(ctx), *final(ctx), seq!["unscale"@]),
        is_handle(*final(ctx), r, "unscale"@),
{
    let ghost p0 = ctx.pipeline_names();
    ctx.compile_step("unscale", Ghost(p0), Ghost(Seq::empty()))
}

/// Handles of the mixed-precision pipelines.
#[derive(Debug, Clone, Copy)]
pub struct MixedPrecisionPipelines {
    /// Conversion from f32 to f16.
    pub f32_to_f16: usize,
    /// Conversion from f16 to f32.
    pub f16_to_f32: usize,
    /// Conversion from f32 to bf16.
    pub f32_to_bf16: usize,
    /// Conversion from bf16 to f32.
    pub bf16_to_f32: usize,
    /// In-place multiplication by the loss scale.
    pub scale: usize,
    /// In-place division by the loss scale.
    pub unscale: usize,
}

/// Names of the mixed-precision pipelines, in compile order.
pub open spec fn mixed_pipeline_names() -> Seq<Seq<char>> {
    seq!["f32_to_f16"@, "f16_to_f32"@, "f32_to_bf16"@, "bf16_to_f32"@, "scale"@, "unscale"@]
}

/// Compiles the mixed-precision pipelines, in order, and returns their handles.
pub fn compile_mixed_pipelines(ctx: &mut GpuContext) -> (r: MixedPrecisionPipelines)
    requires
        old(ctx).wf(),
    ensures
        registered(*old(ctx), *final(ctx), mixed_pipeline_names()),
        is_handle(*final(ctx), r.f32_to_f16, "f32_to_f16"@),
        is_handle(*final(ctx), r.f16_to_f32, "f16_to_f32"@),
        is_handle(*final(ctx), r.f32_to_bf16, "f32_to_bf16"@),
        is_handle(*final(ctx), r.bf16_to_f32, "bf16_to_f32"@),
        is_handle(*final(ctx), r.scale, "scale"@),
        is_handle(*final(ctx), r.unscale, "unscale"@),
{
    let ghost c0 = *ctx;
    let f32_to_f16 = compile_f32_to_f16_pipeline(ctx);
    let ghost mut done: Seq<Seq<char>> = seq!["f32_to_f16"@];
    let ghost mid = *ctx;
    let f16_to_f32 = compile_f16_to_f32_pipeline(ctx);
    proof {
        lemma_registered_then(c0, mid, *ctx, done, "f16_to_f32"@);
        done = done.push("f16_to_f32"@);
    }
    let ghost mid = *ctx;
    let f32_to_bf16 = compile_f32_to_bf16_pipeline(ctx);
    proof {
        lemma_registered_then(c0, mid, *ctx, done, "f32_to_bf16"@);
        done = done.push("f32_to_bf16"@);
    }
    let ghost mid = *ctx;
    let bf16_to_f32 = compile_bf16_to_f32_pipeline(ctx);
    proof {
        lemma_registered_then(c0, mid, *ctx, done, "bf16_to_f32"@);
        done = done.push("bf16_to_f32"@);
    }
    let ghost mid = *ctx;
    let scale = compile_scale_pipeline(ctx);
    proof {
        lemma_registered_then(c0, mid, *ctx, done, "scale"@);
        done = done.push("scale"@);
    }
    let ghost mid = *ctx;
    let unscale = compile_unscale_pipeline(ctx);
    proof {
        lemma_registered_then(c0, mid, *ctx, done, "unscale"@);
        done = done.push("unscale"@);
    }
    proof {
        assert(done =~= mixed_pipeline_names());
    }
    MixedPrecisionPipelines { f32_to_f16, f16_to_f32, f32_to_bf16, bf16_to_f32, scale, unscale }
}

} // verus!
