//! Device-side NaN/Inf detection: the tree of reduction passes that folds the
//! per-workgroup flags of a tensor into one, and the detector that decides
//! what a positive check means.

use vstd::prelude::*;
use crate::context::{GpuContext, GpuError};
use crate::pipelines::{is_handle, lemma_registered_then, registered};

verus! {

/// Elements (or flags) folded by one workgroup.
pub const NAN_CHECK_WORKGROUP: u32 = 64;

/// Workgroups that fold `r` values, 64 per group, at least one.
pub open spec fn fold_groups(r: nat) -> nat {
    let g = (r + 63) / 64;
    if g == 0 {
        1
    } else {
        g as nat
    }
}

/// The inputs of the successive reduction passes that start from `r` flags:
/// none when one flag is left, else `r` and then the passes from
/// `fold_groups(r)`.
pub open spec fn spec_rounds(r: nat) -> Seq<nat>
    decreases r,
{
    if r <= 1 {
        Seq::empty()
    } else {
        proof {
            assert((r + 63) / 64 < r) by (nonlinear_arith)
                requires
                    r >= 2,
            ;
        }
        seq![r] + spec_rounds(fold_groups(r))
    }
}

/// One reduction pass: `remaining` flags in, `groups` flags out.
#[derive(Debug, Clone, Copy, PartialEq, Eq, Structural)]
pub struct NanReduceRound {
    pub remaining: u32,
    pub groups: u32,
    pub out_bytes: u64,
}

/// Passes of a NaN/Inf check over a tensor.
#[derive(Debug)]
pub struct NanCheckPlan {
    /// Workgroups of the flagging pass, 64 elements each.
    pub flag_workgroups: u32,
    /// Bytes of the flag buffer: one `u32` flag per workgroup.
    pub flag_bytes: u64,
    /// Reduction passes, in order, until one flag is left.
    pub rounds: Vec<NanReduceRound>,
}

/// `rounds` are the reduction passes that start from `start` flags.
pub open spec fn rounds_match(rounds: Seq<NanReduceRound>, start: nat) -> bool {
    let ins = spec_rounds(start);
    &&& rounds.len() == ins.len()
    &&& forall|i: int|
        0 <= i < rounds.len() ==> {
            &&& #[trigger] rounds[i].remaining == ins[i]
            &&& rounds[i].groups == fold_groups(ins[i])
            &&& rounds[i].out_bytes == 4 * fold_groups(ins[i])
        }
}

proof fn lemma_fold_groups_bounds(r: nat)
    ensures
        1 <= fold_groups(r),
        r >= 1 ==> fold_groups(r) <= r,
        r >= 2 ==> fold_groups(r) < r,
{
    assert((r + 63) / 64 <= r + 63);
    if r >= 2 {
        assert((r + 63) / 64 < r) by (nonlinear_arith)
            requires
                r >= 2,
        ;
    }
    if r == 1 {
        assert((r + 63) / 64 == 1);
    }
}

/// Compiles the per-element NaN/Inf flag pipeline and returns its handle.
pub fn compile_nan_check_pipeline(ctx: &mut GpuContext) -> (r: usize)
    requires
        old(ctx).wf(),
    ensures
        registered(*old(ctx), *final(ctx), seq!["nan_check"@]),
        is_handle(*final(ctx), r, "nan_check"@),
{
    let ghost p0 = ctx.pipeline_names();
    ctx.compile_step("nan_check", Ghost(p0), Ghost(Seq::empty()))
}

/// Compiles the flag-reduction pipeline and returns its handle.
pub fn compile_nan_check_reduce_pipeline(ctx: &mut GpuContext) -> (r: usize)
    requires
        old(ctx).wf(),
    ensures
        registered(*old(ctx), *final(ctx), seq!["nan_check_reduce"@]),
        is_handle(*final(ctx), r, "nan_check_reduce"@),
{
    let ghost p0 = ctx.pipeline_names();
    ctx.compile_step("nan_check_reduce", Ghost(p0), Ghost(Seq::empty()))
}

/// Compiles the final-flag pipeline and returns its handle.
pub fn compile_nan_check_final_pipeline(ctx: &mut GpuContext) -> (r: usize)
    requires
        old(ctx).wf(),
    ensures
        registered(*old(ctx), *final(ctx), seq!["nan_check_final"@]),
        is_handle(*final(ctx), r, "nan_check_final"@),
{
    let ghost p0 = ctx.pipeline_names();
    ctx.compile_step("nan_check_final", Ghost(p0), Ghost(Seq::empty()))
}

/// Names of the three check pipelines, in compile order.
pub open spec fn nan_check_pipeline_names() -> Seq<Seq<char>> {
    seq!["nan_check"@, "nan_check_reduce"@, "nan_check_final"@]
}

/// The passes of a NaN/Inf check over `n` elements; `None` for an empty
/// tensor, which holds no NaN. The flag buffer holds one flag per 64-element
/// workgroup of the flagging pass, and the reduction passes fold those flags
/// into one; every element is covered only when the flagging pass folds its
/// workgroup's 64 elements into the workgroup's flag.
pub fn has_nan_or_inf_gpu(n: u32) -> (r: Option<NanCheckPlan>)
    requires
        n + 63 <= u32::MAX,
    ensures
        n == 0 ==> r is None,
        n > 0 ==> (r matches Some(p) && {
            &&& p.flag_workgroups == fold_groups(n as nat)
            &&& p.flag_bytes == 4 * fold_groups(n as nat)
            &&& rounds_match(p.rounds@, fold_groups(n as nat))
        }),
{
    if n == 0 {
        return None;
    }
    let g = (n + 63) / 64;
    let flag_workgroups = if g == 0 {
        1
    } else {
        g
    };
    proof {
        lemma_fold_groups_bounds(n as nat);
    }
    let flag_bytes = (flag_workgroups as u64) * 4;
    let mut rounds: Vec<NanReduceRound> = Vec::new();
    let mut remaining = flag_workgroups;
    let ghost start = flag_workgroups as nat;
    proof {
        assert(spec_rounds(start) == seq![start] + spec_rounds(fold_groups(start)) || start <= 1);
    }
    while remaining > 1
        invariant
            1 <= remaining <= start,
            start == fold_groups(n as nat),
            n + 63 <= u32::MAX,
            spec_rounds(start) == rounds@.map_values(|x: NanReduceRound| x.remaining as nat)
                + spec_rounds(remaining as nat),
            forall|i: int|
                0 <= i < rounds@.len() ==> {
                    &&& #[trigger] rounds@[i].groups == fold_groups(rounds@[i].remaining as nat)
                    &&& rounds@[i].out_bytes == 4 * fold_groups(rounds@[i].remaining as nat)
                },
        decreases remaining,
    {
        let d = (remaining + 63) / 64;
        let dst = if d == 0 {
            1
        } else {
            d
        };
        proof {
            lemma_fold_groups_bounds(remaining as nat);
        }
        let out_bytes = (dst as u64) * 4;
        let ghost before = rounds@;
        let round = NanReduceRound { remaining, groups: dst, out_bytes };
        rounds.push(round);
        proof {
            assert(spec_rounds(remaining as nat) == seq![remaining as nat] + spec_rounds(dst as nat));
            assert(rounds@.map_values(|x: NanReduceRound| x.remaining as nat) =~= before.map_values(
                |x: NanReduceRound| x.remaining as nat,
            ).push(remaining as nat));
            assert(spec_rounds(start) =~= rounds@.map_values(|x: NanReduceRound| x.remaining as nat)
                + spec_rounds(dst as nat));
        }
        remaining = dst;
    }
    proof {
        assert(spec_rounds(remaining as nat) =~= Seq::<nat>::empty());
        let ins = spec_rounds(start);
        assert(ins =~= rounds@.map_values(|x: NanReduceRound| x.remaining as nat));
        assert forall|i: int| 0 <= i < rounds@.len() implies {
            &&& #[trigger] rounds@[i].remaining == ins[i]
            &&& rounds@[i].groups == fold_groups(ins[i])
            &&& rounds@[i].out_bytes == 4 * fold_groups(ins[i])
        } by {
            assert(ins[i] == rounds@.map_values(|x: NanReduceRound| x.remaining as nat)[i]);
        }
    }
    Some(NanCheckPlan { flag_workgroups, flag_bytes, rounds })
}

/// The reduction passes end with a single flag, each pass folds its input
/// into fewer flags, and every pass takes what the previous one produced.
pub proof fn lemma_rounds_reach_one_flag(start: nat)
    ensures
        forall|i: int|
            0 <= i < spec_rounds(start).len() ==> #[trigger] fold_groups(spec_rounds(start)[i])
                < spec_rounds(start)[i],
        forall|i: int|
            1 <= i < spec_rounds(start).len() ==> #[trigger] spec_rounds(start)[i] == fold_groups(
                spec_rounds(start)[i - 1],
            ),
        spec_rounds(start).len() > 0 ==> fold_groups(spec_rounds(start).last()) == 1,
        spec_rounds(start).len() > 0 ==> spec_rounds(start)[0] == start,
    decreases start,
{
    if start > 1 {
        let g = fold_groups(start);
        lemma_fold_groups_bounds(start);
        lemma_rounds_reach_one_flag(g);
        let rest = spec_rounds(g);
        let all = spec_rounds(start);
        assert(all == seq![start] + rest);
        if rest.len() == 0 {
            assert(g <= 1);
            lemma_fold_groups_bounds(g);
        }
        assert forall|i: int| 0 <= i < all.len() implies #[trigger] fold_groups(all[i]) < all[i] by {
            if i > 0 {
                assert(all[i] == rest[i - 1]);
            }
        }
        assert forall|i: int| 1 <= i < all.len() implies #[trigger] all[i] == fold_groups(all[i - 1]) by {
            assert(all[i] == rest[i - 1]);
            if i > 1 {
                assert(all[i - 1] == rest[i - 2]);
            }
        }
    }
}

/// Whether a final flag read back from the device reports a NaN or Inf.
pub fn flag_reports_nan(first_byte: u8) -> (r: bool)
    ensures
        r == (first_byte != 0),
{
    first_byte != 0
}

/// Checks tensors for NaN/Inf on the device when enabled, remembering
/// whether any check was positive.
#[derive(Debug)]
pub struct GpuNanDetector {
    pub enabled: bool,
    pub abort_on_nan: bool,
    pipelines: Option<(usize, usize, usize)>,
    nan_detected: bool,
}

/// The error of a positive check that aborts.
pub open spec fn spec_nan_message(label: Seq<char>) -> Seq<char> {
    "GPU NaN detected in '"@ + label + "' \u{2014} aborting"@
}

impl GpuNanDetector {
    /// Whether checks run.
    pub closed spec fn spec_enabled(&self) -> bool {
        self.enabled
    }

    /// Whether a positive check is an error.
    pub closed spec fn spec_abort_on_nan(&self) -> bool {
        self.abort_on_nan
    }

    /// Handles of the flag, reduce and final pipelines, once compiled.
    pub closed spec fn spec_pipelines(&self) -> Option<(usize, usize, usize)> {
        self.pipelines
    }

    /// Whether the check pipelines have been compiled.
    pub open spec fn spec_pipelines_ready(&self) -> bool {
        self.spec_pipelines() is Some
    }

    /// Whether a check has been positive since the last reset.
    pub closed spec fn spec_nan_detected(&self) -> bool {
        self.nan_detected
    }

    /// A detector with no pipelines compiled and nothing detected.
    pub fn new(enabled: bool, abort_on_nan: bool) -> (r: Self)
        ensures
            r.spec_enabled() == enabled,
            r.spec_abort_on_nan() == abort_on_nan,
            !r.spec_pipelines_ready(),
            !r.spec_nan_detected(),
    {
        GpuNanDetector { enabled, abort_on_nan, pipelines: None, nan_detected: false }
    }

    /// Whether a check runs at all; a disabled detector reports no NaN.
    pub fn should_check(&self) -> (r: bool)
        ensures
            r == self.spec_enabled(),
    {
        self.enabled
    }

    /// Whether the check pipelines still have to be compiled.
    pub fn needs_pipelines(&self) -> (r: bool)
        ensures
            r == !self.spec_pipelines_ready(),
    {
        self.pipelines.is_none()
    }

    /// Compiles the three check pipelines on first use and keeps their
    /// handles; later calls change nothing.
    pub fn ensure_pipelines(&mut self, ctx: &mut GpuContext)
        requires
            old(ctx).wf(),
        ensures
            final(self).spec_enabled() == old(self).spec_enabled(),
            final(self).spec_abort_on_nan() == old(self).spec_abort_on_nan(),
            final(self).spec_nan_detected() == old(self).spec_nan_detected(),
            old(self).spec_pipelines_ready() ==> final(self).spec_pipelines() == old(self).spec_pipelines()
                && *final(ctx) == *old(ctx),
            !old(self).spec_pipelines_ready() ==> registered(
                *old(ctx),
                *final(ctx),
                nan_check_pipeline_names(),
            ) && (final(self).spec_pipelines() matches Some(h) && is_handle(*final(ctx), h.0, "nan_check"@)
                && is_handle(*final(ctx), h.1, "nan_check_reduce"@) && is_handle(
                *final(ctx),
                h.2,
                "nan_check_final"@,
            )),
    {
        if self.pipelines.is_some() {
            return ;
        }
        let ghost c0 = *ctx;
        let flag = compile_nan_check_pipeline(ctx);
        let ghost c1 = *ctx;
        let reduce = compile_nan_check_reduce_pipeline(ctx);
        proof {
            lemma_registered_then(c0, c1, *ctx, seq!["nan_check"@], "nan_check_reduce"@);
        }
        let ghost c2 = *ctx;
        let fin = compile_nan_check_final_pipeline(ctx);
        proof {
            lemma_registered_then(c0, c2, *ctx, seq!["nan_check"@].push("nan_check_reduce"@), "nan_check_final"@);
            assert(seq!["nan_check"@].push("nan_check_reduce"@).push("nan_check_final"@)
                =~= nan_check_pipeline_names());
        }
        self.pipelines = Some((flag, reduce, fin));
    }

    /// The outcome of a check of the tensor `label` that found `has_nan`:
    /// a disabled detector reports no NaN and changes nothing; otherwise a
    /// positive check is remembered, and is an error when the detector
    /// aborts on NaN.
    pub fn check(&mut self, has_nan: bool, label: &str) -> (r: Result<bool, GpuError>)
        ensures
            final(self).spec_enabled() == old(self).spec_enabled(),
            final(self).spec_abort_on_nan() == old(self).spec_abort_on_nan(),
            final(self).spec_pipelines() == old(self).spec_pipelines(),
            !old(self).spec_enabled() ==> r == Ok::<bool, GpuError>(false) && final(self).spec_nan_detected()
                == old(self).spec_nan_detected(),
            old(self).spec_enabled() ==> final(self).spec_nan_detected() == (old(self).spec_nan_detected()
                || has_nan),
            old(self).spec_enabled() && has_nan && old(self).spec_abort_on_nan() ==> (r matches Err(
                GpuError::Unsupported(msg),
            ) && msg@ == spec_nan_message(label@)),
            old(self).spec_enabled() && !(has_nan && old(self).spec_abort_on_nan()) ==> r == Ok::<
                bool,
                GpuError,
            >(has_nan),
    {
        if !self.enabled {
            return Ok(false);
        }
        if has_nan {
            self.nan_detected = true;
            if self.abort_on_nan {
                let mut msg = String::from_str("GPU NaN detected in '");
                msg.append(label);
                msg.append("' \u{2014} aborting");
                return Err(GpuError::Unsupported(msg));
            }
        }
        Ok(has_nan)
    }

    /// Whether a check has been positive since the last reset.
    pub fn was_nan_detected(&self) -> (r: bool)
        ensures
            r == self.spec_nan_detected(),
    {
        self.nan_detected
    }

    /// Forgets earlier positive checks.
    pub fn reset(&mut self)
        ensures
            !final(self).spec_nan_detected(),
            final(self).spec_enabled() == old(self).spec_enabled(),
            final(self).spec_abort_on_nan() == old(self).spec_abort_on_nan(),
            final(self).spec_pipelines() == old(self).spec_pipelines(),
    {
        self.nan_detected = false;
    }
}

} // verus!
