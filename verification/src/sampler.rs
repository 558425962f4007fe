//! Token sampling on the device: which passes run over a `[batch, vocab]`
//! block of logits, with what sizes and uniform values.

use vstd::prelude::*;
use crate::context::{numel_from, products_fit, shape_numel, GpuContext};
use crate::pipelines::{is_handle, lemma_registered_then, registered};

verus! {

/// Passes and sizes of one sampling step.
#[derive(Debug)]
pub struct SamplePlan {
    /// Bytes of the working copy of the logits (and of the probabilities).
    pub work_bytes: u64,
    /// Workgroups of the temperature pass, when it runs.
    pub temperature_groups: Option<u32>,
    /// Uniform `[vocab, top_k]` of the top-k mask, when it runs.
    pub top_k_cfg: Option<[u32; 2]>,
    /// Workgroups of the top-k and sampling passes: one per row.
    pub row_groups: u32,
    /// Uniform `[vocab, seed low word, seed high word]` of the sampler.
    pub seed_cfg: [u32; 3],
    /// Bytes of the sampled token ids.
    pub out_bytes: u64,
    /// Shape of the sampled token ids.
    pub out_shape: Vec<usize>,
}

/// What sampling needs of the logits' shape: two dimensions at least, and
/// byte sizes that fit.
pub open spec fn sample_fits(shape: Seq<usize>, scale_temperature: bool) -> bool {
    &&& shape.len() >= 2
    &&& products_fit(shape)
    &&& shape_numel(shape) * 4 <= usize::MAX
    &&& shape[0] * 4 <= u64::MAX
    &&& scale_temperature ==> (shape_numel(shape) as u32) + 255 <= u32::MAX
}

/// Plan of sampling one token per row of `[batch, vocab, ...]` logits:
/// optionally scale by the temperature (the caller decides, from the
/// temperature's value, whether it differs from one), take the softmax, mask
/// all but the `top_k` largest when `0 < top_k < vocab`, and draw with `seed`.
pub fn gpu_sample(shape: &[usize], scale_temperature: bool, top_k: u32, seed: u64) -> (r: SamplePlan)
    requires
        sample_fits(shape@, scale_temperature),
    ensures
        ({
            let numel = shape_numel(shape@);
            let batch = shape@[0];
            let vocab = shape@[1] as u32;
            &&& r.work_bytes == numel * 4
            &&& r.temperature_groups == if scale_temperature {
                Some((((numel as u32) + 255) / 256) as u32)
            } else {
                None::<u32>
            }
            &&& r.top_k_cfg matches Some(c) ==> 0 < top_k < vocab && c@ == seq![vocab, top_k]
            &&& r.top_k_cfg is None ==> !(0 < top_k < vocab)
            &&& r.row_groups == batch as u32
            &&& r.seed_cfg@ == seq![vocab, (seed % 0x1_0000_0000) as u32, (seed / 0x1_0000_0000) as u32]
            &&& r.out_bytes == batch * 4
            &&& r.out_shape@ == seq![batch]
        }),
{
    proof {
        assert(shape@.skip(0) =~= shape@);
    }
    let numel = numel_from(shape, 0);
    let batch = shape[0];
    let vocab = shape[1] as u32;
    let work_bytes = (numel * 4) as u64;
    let temperature_groups = if scale_temperature {
        Some(((numel as u32) + 255) / 256)
    } else {
        None
    };
    let top_k_cfg = if top_k > 0 && top_k < vocab {
        let c: [u32; 2] = [vocab, top_k];
        proof {
            assert(c@ =~= seq![vocab, top_k]);
        }
        Some(c)
    } else {
        None
    };
    let lo = (seed & 0xFFFF_FFFF) as u32;
    let hi = ((seed >> 32) & 0xFFFF_FFFF) as u32;
    proof {
        assert(lo == (seed % 0x1_0000_0000) as u32) by (bit_vector)
            requires
                lo == (seed & 0xFFFF_FFFF) as u32,
        ;
        assert(hi == (seed / 0x1_0000_0000) as u32) by (bit_vector)
            requires
                hi == ((seed >> 32) & 0xFFFF_FFFF) as u32,
        ;
    }
    let seed_cfg: [u32; 3] = [vocab, lo, hi];
    let out_shape = vec![batch];
    proof {
        assert(seed_cfg@ =~= seq![vocab, (seed % 0x1_0000_0000) as u32, (seed / 0x1_0000_0000) as u32]);
        assert(out_shape@ =~= seq![batch]);
    }
    SamplePlan {
        work_bytes,
        temperature_groups,
        top_k_cfg,
        row_groups: batch as u32,
        seed_cfg,
        out_bytes: (batch as u64) * 4,
        out_shape,
    }
}

/// Compiles the temperature-scaling pipeline and returns its handle.
pub fn compile_temperature_scale_pipeline(ctx: &mut GpuContext) -> (r: usize)
    requires
        old(ctx).wf(),
    ensures
        registered(*old(ctx), *final(ctx), seq!["temperature_scale_sampler"@]),
        is_handle(*final(ctx), r, "temperature_scale_sampler"@),
{
    let ghost p0 = ctx.pipeline_names();
    ctx.compile_step("temperature_scale_sampler", Ghost(p0), Ghost(Seq::empty()))
}

/// Compiles the top-k masking pipeline and returns its handle.
pub fn compile_top_k_mask_pipeline(ctx: &mut GpuContext) -> (r: usize)
    requires
        old(ctx).wf(),
    ensures
        registered(*old(ctx), *final(ctx), seq!["top_k_mask_sampler"@]),
        is_handle(*final(ctx), r, "top_k_mask_sampler"@),
{
    let ghost p0 = ctx.pipeline_names();
    ctx.compile_step("top_k_mask_sampler", Ghost(p0), Ghost(Seq::empty()))
}

/// Compiles the multinomial sampling pipeline and returns its handle.
pub fn compile_multinomial_sample_pipeline(ctx: &mut GpuContext) -> (r: usize)
    requires
        old(ctx).wf(),
    ensures
        registered(*old(ctx), *final(ctx), seq!["multinomial_sample_sampler"@]),
        is_handle(*final(ctx), r, "multinomial_sample_sampler"@),
{
    let ghost p0 = ctx.pipeline_names();
    ctx.compile_step("multinomial_sample_sampler", Ghost(p0), Ghost(Seq::empty()))
}

/// Handles of the three sampling pipelines.
#[derive(Debug, Clone, Copy)]
pub struct GpuSamplerPipelines {
    /// Temperature scaling of the logits.
    pub temperature_scale: usize,
    /// Masking of all but the top-k logits.
    pub top_k_mask: usize,
    /// Drawing one token per row.
    pub multinomial: usize,
}

/// Names of the sampling pipelines, in compile order.
pub open spec fn sampler_pipeline_names() -> Seq<Seq<char>> {
    seq!["temperature_scale_sampler"@, "top_k_mask_sampler"@, "multinomial_sample_sampler"@]
}

/// Compiles the three sampling pipelines, in order, and returns their handles.
pub fn compile_sampler_pipelines(ctx: &mut GpuContext) -> (r: GpuSamplerPipelines)
    requires
        old(ctx).wf(),
    ensures
        registered(*old(ctx), *final(ctx), sampler_pipeline_names()),
        is_handle(*final(ctx), r.temperature_scale, "temperature_scale_sampler"@),
        is_handle(*final(ctx), r.top_k_mask, "top_k_mask_sampler"@),
        is_handle(*final(ctx), r.multinomial, "multinomial_sample_sampler"@),
{
    let ghost c0 = *ctx;
    let temperature_scale = compile_temperature_scale_pipeline(ctx);
    let ghost mut done: Seq<Seq<char>> = seq!["temperature_scale_sampler"@];
    let ghost mid = *ctx;
    let top_k_mask = compile_top_k_mask_pipeline(ctx);
    proof {
        lemma_registered_then(c0, mid, *ctx, done, "top_k_mask_sampler"@);
        done = done.push("top_k_mask_sampler"@);
    }
    let ghost mid = *ctx;
    let multinomial = compile_multinomial_sample_pipeline(ctx);
    proof {
        lemma_registered_then(c0, mid, *ctx, done, "multinomial_sample_sampler"@);
        done = done.push("multinomial_sample_sampler"@);
    }
    proof {
        assert(done =~= sampler_pipeline_names());
    }
    GpuSamplerPipelines { temperature_scale, top_k_mask, multinomial }
}

} // verus!
