//! Host CPU topology: which logical cores serve data loading and which serve
//! GPU submission, the thread counts that follow, and the debug flags of the
//! GPU context.

use vstd::prelude::*;
use crate::text::{push_decimal, push_list, spec_decimal, spec_list};

verus! {

/// The lowest core of a non-empty list (0 for an empty one).
pub open spec fn lowest_core(cores: Seq<usize>) -> usize
    decreases cores.len(),
{
    if cores.len() == 0 {
        0
    } else if cores.len() == 1 {
        cores[0]
    } else {
        let rest = lowest_core(cores.drop_last());
        if cores.last() < rest {
            cores.last()
        } else {
            rest
        }
    }
}

/// The lowest core of a non-empty list is one of its cores and no core of
/// the list is below it.
pub proof fn lemma_lowest_core(cores: Seq<usize>)
    requires
        cores.len() > 0,
    ensures
        cores.contains(lowest_core(cores)),
        forall|j: int| 0 <= j < cores.len() ==> lowest_core(cores) <= #[trigger] cores[j],
    decreases cores.len(),
{
    if cores.len() == 1 {
        assert(cores[0] == lowest_core(cores));
    } else {
        let rest = cores.drop_last();
        lemma_lowest_core(rest);
        assert forall|j: int| 0 <= j < cores.len() implies lowest_core(cores) <= #[trigger] cores[j] by {
            if j < rest.len() {
                assert(rest[j] == cores[j]);
            }
        }
        if lowest_core(cores) == cores.last() {
            assert(cores[cores.len() - 1] == lowest_core(cores));
        } else {
            let k = choose|k: int| 0 <= k < rest.len() && rest[k] == lowest_core(rest);
            assert(cores[k] == rest[k]);
        }
    }
}

/// Logical core layout of the host: the first one or two cores load data,
/// the rest drive the GPU backend.
#[derive(Debug, Clone)]
pub struct CoreLayout {
    /// Total logical cores.
    pub total_cores: usize,
    /// Cores reserved for data loading and I/O.
    pub data_cores: Vec<usize>,
    /// Cores left for GPU submission and CPU fallback work.
    pub compute_cores: Vec<usize>,
}

/// The cores `from..to` in order.
pub open spec fn core_range(from: int, to: int) -> Seq<usize> {
    Seq::new((to - from) as nat, |i: int| (from + i) as usize)
}

/// The layout for `total` cores (0 counts as 1): with four or more, cores 0
/// and 1 load data; with two or three, core 0 does; a single core does both.
pub open spec fn layout_for(total: usize, data: Seq<usize>, compute: Seq<usize>) -> bool {
    let t = if total == 0 {
        1
    } else {
        total as int
    };
    if t >= 4 {
        data == seq![0usize, 1usize] && compute == core_range(2, t)
    } else if t >= 2 {
        data == seq![0usize] && compute == core_range(1, t)
    } else {
        data == seq![0usize] && compute == Seq::<usize>::empty()
    }
}

/// Threads for a pool sized to the data cores (at least one).
pub open spec fn spec_pool_threads(data_len: nat) -> nat {
    if data_len == 0 {
        1
    } else {
        data_len
    }
}

/// The summary line of a layout.
pub open spec fn spec_layout_display(total: usize, data: Seq<usize>, compute: Seq<usize>) -> Seq<char> {
    "CoreLayout: "@ + spec_decimal(total as nat) + " total | data="@ + spec_list(data) + " ("@
        + spec_decimal(spec_pool_threads(data.len())) + " threads) | compute="@ + spec_list(compute)
}

/// Number of logical CPUs available to this process.
///
/// Calls `num_cpus::get`, whose documentation promises a result of at least
/// one; what else it returns depends on the machine.
#[verifier::external_body]
fn num_cpus_get() -> (r: usize)
    ensures
        r >= 1,
{
    num_cpus::get()
}

/// `from..to` as a vector.
fn cores_between(from: usize, to: usize) -> (r: Vec<usize>)
    requires
        from <= to,
    ensures
        r@ == core_range(from as int, to as int),
{
    let mut v: Vec<usize> = Vec::new();
    let mut c = from;
    while c < to
        invariant
            from <= c <= to,
            v@ == core_range(from as int, c as int),
        decreases to - c,
    {
        v.push(c);
        c = c + 1;
        proof {
            assert(v@ =~= core_range(from as int, c as int));
        }
    }
    v
}

impl CoreLayout {
    /// The layout of a machine with `total` logical cores.
    pub fn from_total_cores(total: usize) -> (r: Self)
        ensures
            r.total_cores == if total == 0 {
                1
            } else {
                total
            },
            layout_for(total, r.data_cores@, r.compute_cores@),
    {
        let total = if total == 0 {
            1
        } else {
            total
        };
        let (data, compute) = if total >= 4 {
            let d = vec![0, 1];
            proof {
                assert(d@ =~= seq![0usize, 1usize]);
            }
            (d, cores_between(2, total))
        } else if total >= 2 {
            let d = vec![0];
            proof {
                assert(d@ =~= seq![0usize]);
            }
            (d, cores_between(1, total))
        } else {
            let d = vec![0];
            let c: Vec<usize> = Vec::new();
            proof {
                assert(d@ =~= seq![0usize]);
            }
            (d, c)
        };
        CoreLayout { total_cores: total, data_cores: data, compute_cores: compute }
    }

    /// The layout of this machine.
    pub fn detect() -> (r: Self)
        ensures
            r.total_cores >= 1,
            layout_for(r.total_cores, r.data_cores@, r.compute_cores@),
    {
        Self::from_total_cores(num_cpus_get())
    }

    /// Threads for the data-loading pool: one per data core, at least one.
    pub fn rayon_threads(&self) -> (r: usize)
        ensures
            r == spec_pool_threads(self.data_cores@.len()),
    {
        if self.data_cores.len() == 0 {
            1
        } else {
            self.data_cores.len()
        }
    }

    /// Threads for the CPU BLAS fallback: one per data core, at least one.
    pub fn openblas_threads(&self) -> (r: usize)
        ensures
            r == spec_pool_threads(self.data_cores@.len()),
    {
        if self.data_cores.len() == 0 {
            1
        } else {
            self.data_cores.len()
        }
    }

    /// Environment variables that size the host thread pools, with their
    /// recommended values; each is meant to be set only where it is unset.
    pub fn recommended_env(&self) -> (r: Vec<(String, String)>)
        ensures
            r@.len() == 3,
            r@[0].0@ == "RAYON_NUM_THREADS"@,
            r@[0].1@ == spec_decimal(spec_pool_threads(self.data_cores@.len())),
            r@[1].0@ == "OPENBLAS_NUM_THREADS"@,
            r@[1].1@ == spec_decimal(spec_pool_threads(self.data_cores@.len())),
            r@[2].0@ == "OMP_NUM_THREADS"@,
            r@[2].1@ == "1"@,
    {
        let rt = self.rayon_threads();
        let ot = self.openblas_threads();
        let mut rts = String::new();
        push_decimal(&mut rts, rt as u64);
        let mut ots = String::new();
        push_decimal(&mut ots, ot as u64);
        proof {
            assert(rts@ =~= spec_decimal(rt as nat));
            assert(ots@ =~= spec_decimal(ot as nat));
        }
        let mut v: Vec<(String, String)> = Vec::new();
        v.push((String::from_str("RAYON_NUM_THREADS"), rts));
        v.push((String::from_str("OPENBLAS_NUM_THREADS"), ots));
        v.push((String::from_str("OMP_NUM_THREADS"), String::from_str("1")));
        v
    }

    /// The core to pin the calling thread to when asked for `core`: `None`
    /// when the index is out of range.
    pub fn pin_to_core(&self, core: usize) -> (r: Option<usize>)
        ensures
            r == if core < self.total_cores {
                Some(core)
            } else {
                None::<usize>
            },
    {
        if core >= self.total_cores {
            None
        } else {
            Some(core)
        }
    }

    /// The core to pin a compute thread to: the first compute core, if any
    /// and in range.
    pub fn pin_to_compute(&self) -> (r: Option<usize>)
        ensures
            self.compute_cores@.len() == 0 ==> r == None::<usize>,
            self.compute_cores@.len() > 0 ==> r == if self.compute_cores@[0] < self.total_cores {
                Some(self.compute_cores@[0])
            } else {
                None::<usize>
            },
    {
        if self.compute_cores.len() == 0 {
            return None;
        }
        self.pin_to_core(self.compute_cores[0])
    }

    /// The core to pin a data thread to: the lowest-numbered data core, if
    /// any and in range.
    pub fn pin_to_data(&self) -> (r: Option<usize>)
        ensures
            self.data_cores@.len() == 0 ==> r == None::<usize>,
            self.data_cores@.len() > 0 ==> r == if lowest_core(self.data_cores@) < self.total_cores {
                Some(lowest_core(self.data_cores@))
            } else {
                None::<usize>
            },
    {
        if self.data_cores.len() == 0 {
            return None;
        }
        let mut low = self.data_cores[0];
        let mut i: usize = 1;
        proof {
            assert(self.data_cores@.take(1).drop_last() =~= Seq::<usize>::empty());
        }
        while i < self.data_cores.len()
            invariant
                1 <= i <= self.data_cores@.len(),
                low == lowest_core(self.data_cores@.take(i as int)),
            decreases self.data_cores@.len() - i,
        {
            proof {
                assert(self.data_cores@.take(i + 1).drop_last() =~= self.data_cores@.take(i as int));
            }
            if self.data_cores[i] < low {
                low = self.data_cores[i];
            }
            i = i + 1;
        }
        proof {
            assert(self.data_cores@.take(i as int) =~= self.data_cores@);
        }
        self.pin_to_core(low)
    }

    /// One-line summary:
    /// `CoreLayout: 8 total | data=[0, 1] (2 threads) | compute=[2, 3, …]`.
    pub fn display(&self) -> (r: String)
        ensures
            r@ == spec_layout_display(self.total_cores, self.data_cores@, self.compute_cores@),
    {
        let mut s = String::from_str("CoreLayout: ");
        push_decimal(&mut s, self.total_cores as u64);
        s.append(" total | data=");
        push_list(&mut s, self.data_cores.as_slice());
        s.append(" (");
        push_decimal(&mut s, self.rayon_threads() as u64);
        s.append(" threads) | compute=");
        push_list(&mut s, self.compute_cores.as_slice());
        s
    }
}

/// Every core of the machine serves exactly one role: data cores come first,
/// compute cores after them, all below the core count (a count of 0 taken as
/// 1), and together they are every core once.
pub proof fn lemma_layout_partitions_cores(total: usize, data: Seq<usize>, compute: Seq<usize>)
    requires
        layout_for(total, data, compute),
    ensures
        data.len() >= 1,
        data.len() + compute.len() == (if total == 0 {
            1
        } else {
            total as int
        }),
        forall|i: int| 0 <= i < data.len() ==> #[trigger] data[i] == i,
        forall|j: int| 0 <= j < compute.len() ==> #[trigger] compute[j] == data.len() + j,
{
}

/// Debug and stabilisation flags of the GPU context.
#[derive(Debug, Clone, Copy, PartialEq, Eq, Structural)]
pub struct GpuDebugConfig {
    /// Wait for the device after every flush.
    pub sync_execution: bool,
    /// Log every dispatch.
    pub verbose_tensor_check: bool,
    /// Fixed seed for all device-side randomness.
    pub deterministic: bool,
    /// Check kernel outputs against a CPU reference.
    pub kernel_validation: bool,
}

/// Whether an environment value switches a flag on: exactly `1` or `true`.
pub open spec fn spec_flag_on(v: Option<Seq<char>>) -> bool {
    match v {
        Some(s) => s == "1"@ || s == "true"@,
        None => false,
    }
}

/// `on` or `off`.
pub open spec fn on_off(b: bool) -> Seq<char> {
    if b {
        "on"@
    } else {
        "off"@
    }
}

/// The text form of a debug configuration.
pub open spec fn spec_debug_display(c: GpuDebugConfig) -> Seq<char> {
    "GpuDebugConfig(sync="@ + on_off(c.sync_execution) + " verbose="@ + on_off(c.verbose_tensor_check)
        + " deterministic="@ + on_off(c.deterministic) + " validate="@ + on_off(c.kernel_validation)
        + ")"@
}

/// The view of an optional string.
pub open spec fn opt_view(v: &Option<String>) -> Option<Seq<char>> {
    match v {
        Some(s) => Some(s@),
        None => None,
    }
}

/// Whether an environment value (absent when unset or not Unicode) switches
/// a flag on.
pub fn flag_on(v: &Option<String>) -> (r: bool)
    ensures
        r == spec_flag_on(opt_view(v)),
{
    match v {
        Some(s) => {
            let one = String::from_str("1");
            let yes = String::from_str("true");
            *s == one || *s == yes
        },
        None => false,
    }
}

fn push_on_off(out: &mut String, b: bool)
    ensures
        final(out)@ == old(out)@ + on_off(b),
{
    if b {
        out.append("on");
    } else {
        out.append("off");
    }
}

impl GpuDebugConfig {
    /// Flags from the values of `NEXORA_GPU_SYNC`, `NEXORA_GPU_VERBOSE`,
    /// `NEXORA_GPU_DETERMINISTIC` and `NEXORA_GPU_VALIDATE`, each on when the
    /// value is `1` or `true`.
    pub fn from_env_values(
        sync: &Option<String>,
        verbose: &Option<String>,
        deterministic: &Option<String>,
        validate: &Option<String>,
    ) -> (r: Self)
        ensures
            r.sync_execution == spec_flag_on(opt_view(sync)),
            r.verbose_tensor_check == spec_flag_on(opt_view(verbose)),
            r.deterministic == spec_flag_on(opt_view(deterministic)),
            r.kernel_validation == spec_flag_on(opt_view(validate)),
    {
        GpuDebugConfig {
            sync_execution: flag_on(sync),
            verbose_tensor_check: flag_on(verbose),
            deterministic: flag_on(deterministic),
            kernel_validation: flag_on(validate),
        }
    }

    /// `GpuDebugConfig(sync=on verbose=off deterministic=off validate=off)`.
    pub fn display(&self) -> (r: String)
        ensures
            r@ == spec_debug_display(*self),
    {
        let mut s = String::from_str("GpuDebugConfig(sync=");
        push_on_off(&mut s, self.sync_execution);
        s.append(" verbose=");
        push_on_off(&mut s, self.verbose_tensor_check);
        s.append(" deterministic=");
        push_on_off(&mut s, self.deterministic);
        s.append(" validate=");
        push_on_off(&mut s, self.kernel_validation);
        s.append(")");
        s
    }
}

impl Default for GpuDebugConfig {
    /// Every flag off.
    fn default() -> (r: Self)
        ensures
            !r.sync_execution,
            !r.verbose_tensor_check,
            !r.deterministic,
            !r.kernel_validation,
    {
        GpuDebugConfig {
            sync_execution: false,
            verbose_tensor_check: false,
            deterministic: false,
            kernel_validation: false,
        }
    }
}

} // verus!
