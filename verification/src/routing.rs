//! Where a tensor math op runs: on the CUDA runtime, on the wgpu device, or
//! on the host, and the count of device attempts that fell back to the host.

use vstd::prelude::*;

verus! {

/// Where all operands of an op are stored.
#[derive(Debug, Clone, Copy, PartialEq, Eq, Structural)]
pub enum Placement {
    /// Every operand is on the CUDA runtime.
    AllCuda,
    /// Every operand is on the wgpu device.
    AllGpu,
    /// On the host, or spread over several places.
    Other,
}

/// Backend an op is tried on.
#[derive(Debug, Clone, Copy, PartialEq, Eq, Structural)]
pub enum Backend {
    Cuda,
    Gpu,
    Cpu,
}

/// Backend an op is tried on first: the CUDA runtime for CUDA operands when
/// it is available; the wgpu device for device operands when a context is
/// available and the failure circuit is closed; the host otherwise.
pub open spec fn spec_route(placement: Placement, cuda_ready: bool, gpu_ready: bool, circuit_open: bool) -> Backend {
    match placement {
        Placement::AllCuda => if cuda_ready {
            Backend::Cuda
        } else {
            Backend::Cpu
        },
        Placement::AllGpu => if gpu_ready && !circuit_open {
            Backend::Gpu
        } else {
            Backend::Cpu
        },
        Placement::Other => Backend::Cpu,
    }
}

/// Backend an op is tried on first.
pub fn route(placement: Placement, cuda_ready: bool, gpu_ready: bool, circuit_open: bool) -> (r: Backend)
    ensures
        r == spec_route(placement, cuda_ready, gpu_ready, circuit_open),
{
    match placement {
        Placement::AllCuda => if cuda_ready {
            Backend::Cuda
        } else {
            Backend::Cpu
        },
        Placement::AllGpu => if gpu_ready && !circuit_open {
            Backend::Gpu
        } else {
            Backend::Cpu
        },
        Placement::Other => Backend::Cpu,
    }
}

/// Whether the result records how to compute gradients: when any operand
/// requires them.
pub fn needs_grad_fn(requires_grad: &[bool]) -> (r: bool)
    ensures
        r == exists|i: int| 0 <= i < requires_grad@.len() && requires_grad@[i],
{
    let mut i: usize = 0;
    while i < requires_grad.len()
        invariant
            i <= requires_grad@.len(),
            forall|j: int| 0 <= j < i ==> !requires_grad@[j],
        decreases requires_grad@.len() - i,
    {
        if requires_grad[i] {
            return true;
        }
        i = i + 1;
    }
    false
}

/// Count of device attempts of math ops that failed and fell back to the
/// host; it wraps around like an atomic counter.
#[derive(Debug)]
pub struct MathFallbacks {
    count: u64,
}

/// Where an op's result comes from once its device attempt has returned.
#[derive(Debug, Clone, Copy, PartialEq, Eq, Structural)]
pub enum Outcome {
    /// The device result is used.
    UseDevice,
    /// The op is computed on the host.
    FallBack,
}

impl MathFallbacks {
    /// Fallbacks counted so far.
    pub closed spec fn spec_count(&self) -> u64 {
        self.count
    }

    /// No fallback yet.
    pub fn new() -> (r: Self)
        ensures
            r.spec_count() == 0,
    {
        MathFallbacks { count: 0 }
    }

    /// What follows a device attempt that succeeded (`ok`) or failed: a
    /// failure is counted and the op falls back to the host.
    pub fn after_attempt(&mut self, ok: bool) -> (r: Outcome)
        ensures
            ok ==> r == Outcome::UseDevice && final(self).spec_count() == old(self).spec_count(),
            !ok ==> r == Outcome::FallBack && final(self).spec_count() == old(self).spec_count().wrapping_add(1),
    {
        if ok {
            Outcome::UseDevice
        } else {
            self.count = self.count.wrapping_add(1);
            Outcome::FallBack
        }
    }

    /// Fallbacks counted so far.
    pub fn gpu_math_fallback_count(&self) -> (r: u64)
        ensures
            r == self.spec_count(),
    {
        self.count
    }
}

} // verus!
