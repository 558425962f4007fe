//! Kernel and phase profiler: begin/end markers matched by name, per-kernel
//! call counts and timing statistics, a phase log, and a report ordered by
//! total kernel time. Times are nanoseconds on a monotonic clock.

use vstd::prelude::*;

verus! {

/// The largest representable duration, in nanoseconds.
pub const DURATION_MAX_NANOS: u128 = 18_446_744_073_709_551_615_999_999_999;

/// Timing statistics of one kernel (durations in nanoseconds).
#[derive(Debug, Clone, Copy)]
pub struct GpuKernelStats {
    pub calls: u64,
    pub total_time: u128,
    pub min_time: u128,
    pub max_time: u128,
}

impl GpuKernelStats {
    /// No calls yet: the minimum starts at the largest duration.
    pub open spec fn spec_default() -> GpuKernelStats {
        GpuKernelStats { calls: 0, total_time: 0, min_time: DURATION_MAX_NANOS, max_time: 0 }
    }

    /// The statistics after one more call lasting `d` nanoseconds.
    pub open spec fn record(self, d: u64) -> GpuKernelStats {
        GpuKernelStats {
            calls: (self.calls + 1) as u64,
            total_time: (self.total_time + d) as u128,
            min_time: if (d as u128) < self.min_time {
                d as u128
            } else {
                self.min_time
            },
            max_time: if (d as u128) > self.max_time {
                d as u128
            } else {
                self.max_time
            },
        }
    }
}

/// The statistics of a kernel whose calls lasted `ds`, in order.
pub open spec fn stats_after(ds: Seq<u64>) -> GpuKernelStats
    decreases ds.len(),
{
    if ds.len() == 0 {
        GpuKernelStats::spec_default()
    } else {
        stats_after(ds.drop_last()).record(ds.last())
    }
}

/// Sum of the durations.
pub open spec fn sum_durations(ds: Seq<u64>) -> int
    decreases ds.len(),
{
    if ds.len() == 0 {
        0
    } else {
        sum_durations(ds.drop_last()) + ds.last()
    }
}

proof fn lemma_sum_durations_bound(ds: Seq<u64>)
    ensures
        0 <= sum_durations(ds) <= ds.len() * 18_446_744_073_709_551_615,
    decreases ds.len(),
{
    if ds.len() > 0 {
        lemma_sum_durations_bound(ds.drop_last());
    }
}

/// What the statistics of a kernel say about its calls: how many there
/// were, their total time, and the shortest and longest of them (each one of
/// the calls, and bounding all of them).
pub proof fn lemma_kernel_stats_summarize_calls(ds: Seq<u64>)
    requires
        ds.len() <= u64::MAX,
    ensures
        stats_after(ds).calls == ds.len(),
        stats_after(ds).total_time == sum_durations(ds),
        forall|i: int|
            0 <= i < ds.len() ==> stats_after(ds).min_time <= #[trigger] ds[i] && ds[i] <= stats_after(
                ds,
            ).max_time,
        ds.len() > 0 ==> exists|i: int| 0 <= i < ds.len() && stats_after(ds).min_time == #[trigger] ds[i],
        ds.len() > 0 ==> exists|i: int| 0 <= i < ds.len() && stats_after(ds).max_time == #[trigger] ds[i],
    decreases ds.len(),
{
    if ds.len() > 0 {
        let pre = ds.drop_last();
        let d = ds.last();
        lemma_kernel_stats_summarize_calls(pre);
        lemma_sum_durations_bound(pre);
        let p = stats_after(pre);
        assert(pre.len() * 18_446_744_073_709_551_615 + 18_446_744_073_709_551_615 <= u128::MAX) by (
        nonlinear_arith)
            requires
                pre.len() < 18_446_744_073_709_551_615,
        ;
        assert forall|i: int| 0 <= i < ds.len() implies stats_after(ds).min_time <= #[trigger] ds[i] && ds[i]
            <= stats_after(ds).max_time by {
            if i < pre.len() {
                assert(ds[i] == pre[i]);
            }
        }
        if pre.len() == 0 {
            assert(ds[0] == d);
        } else {
            let a = choose|i: int| 0 <= i < pre.len() && p.min_time == #[trigger] pre[i];
            let b = choose|i: int| 0 <= i < pre.len() && p.max_time == #[trigger] pre[i];
            assert(ds[a] == pre[a]);
            assert(ds[b] == pre[b]);
            assert(ds[ds.len() - 1] == d);
        }
    }
}

impl Default for GpuKernelStats {
    fn default() -> (r: Self)
        ensures
            r == GpuKernelStats::spec_default(),
    {
        GpuKernelStats { calls: 0, total_time: 0, min_time: DURATION_MAX_NANOS, max_time: 0 }
    }
}

/// What an open begin marker belongs to.
#[derive(Debug)]
pub enum ProfileScope {
    Kernel(String),
    Phase(String),
}

impl ProfileScope {
    /// Whether it is a kernel marker, and its name.
    pub open spec fn spec_view(&self) -> (bool, Seq<char>) {
        match self {
            ProfileScope::Kernel(n) => (true, n@),
            ProfileScope::Phase(n) => (false, n@),
        }
    }
}

/// Profiler output: per-kernel statistics, largest total time first, and the
/// phase log in order; or nothing when profiling is disabled.
pub enum ProfileReport {
    Disabled,
    Enabled { kernels: Vec<(String, GpuKernelStats)>, phases: Vec<(String, u128)> },
}

/// Index of the last open marker of the given kind and name, or -1.
pub open spec fn rposition(s: Seq<(bool, Seq<char>, u64)>, kernel: bool, name: Seq<char>) -> int
    decreases s.len(),
{
    if s.len() == 0 {
        -1
    } else if s.last().0 == kernel && s.last().1 == name {
        s.len() - 1
    } else {
        rposition(s.drop_last(), kernel, name)
    }
}

proof fn lemma_rposition_range(s: Seq<(bool, Seq<char>, u64)>, kernel: bool, name: Seq<char>)
    ensures
        -1 <= rposition(s, kernel, name) < s.len(),
        rposition(s, kernel, name) >= 0 ==> s[rposition(s, kernel, name)].0 == kernel && s[rposition(
            s,
            kernel,
            name,
        )].1 == name,
    decreases s.len(),
{
    if s.len() > 0 && !(s.last().0 == kernel && s.last().1 == name) {
        lemma_rposition_range(s.drop_last(), kernel, name);
    }
}

spec fn in_either(o: Seq<usize>, r: Seq<usize>, x: usize) -> bool {
    (exists|a: int| 0 <= a < o.len() && o[a] == x) || (exists|b: int| 0 <= b < r.len() && r[b] == x)
}

/// Nanoseconds from `start` to `now`, zero if `now` is earlier.
pub open spec fn elapsed(start: u64, now: u64) -> u64 {
    if now >= start {
        (now - start) as u64
    } else {
        0
    }
}

/// Records kernel timings and phases between begin/end markers.
///
/// Kernel statistics form an association list: a `Vec` of `(name, stats)`
/// pairs with each name at most once, whose lookups and updates by name are
/// specified exactly; the report sorts the entries.
#[derive(Debug)]
pub struct GpuProfiler {
    enabled: bool,
    start_times: Vec<(ProfileScope, u64)>,
    kernel_stats: Vec<(String, GpuKernelStats)>,
    phase_log: Vec<(String, u128)>,
}

spec fn starts_view(s: Seq<(ProfileScope, u64)>) -> Seq<(bool, Seq<char>, u64)> {
    Seq::new(s.len(), |i: int| (s[i].0.spec_view().0, s[i].0.spec_view().1, s[i].1))
}

spec fn names_unique(s: Seq<(String, GpuKernelStats)>) -> bool {
    forall|i: int, j: int| 0 <= i < s.len() && 0 <= j < s.len() && i != j ==> s[i].0@ != s[j].0@
}

spec fn stats_lookup(s: Seq<(String, GpuKernelStats)>, name: Seq<char>) -> Option<GpuKernelStats> {
    if exists|i: int| 0 <= i < s.len() && s[i].0@ == name {
        Some(s[choose|i: int| 0 <= i < s.len() && s[i].0@ == name].1)
    } else {
        None
    }
}

proof fn lemma_stats_lookup_at(s: Seq<(String, GpuKernelStats)>, i: int)
    requires
        names_unique(s),
        0 <= i < s.len(),
    ensures
        stats_lookup(s, s[i].0@) == Some(s[i].1),
{
    let n = s[i].0@;
    assert(exists|j: int| 0 <= j < s.len() && s[j].0@ == n);
    let c = choose|j: int| 0 <= j < s.len() && s[j].0@ == n;
    assert(c == i);
}

impl GpuProfiler {
    /// Whether markers are recorded.
    pub closed spec fn spec_enabled(&self) -> bool {
        self.enabled
    }

    /// Open begin markers, oldest first: (is kernel, name, start time).
    pub closed spec fn starts(&self) -> Seq<(bool, Seq<char>, u64)> {
        starts_view(self.start_times@)
    }

    /// Statistics of the kernel called `name`, if it has completed a call.
    pub closed spec fn kernel(&self, name: Seq<char>) -> Option<GpuKernelStats> {
        stats_lookup(self.kernel_stats@, name)
    }

    /// Number of kernels with statistics.
    pub closed spec fn kernel_count(&self) -> nat {
        self.kernel_stats@.len()
    }

    /// Completed phases in order: (label, duration).
    pub closed spec fn phases(&self) -> Seq<(Seq<char>, u128)> {
        Seq::new(self.phase_log@.len(), |i: int| (self.phase_log@[i].0@, self.phase_log@[i].1))
    }

    /// Internal consistency: one statistics entry per kernel name, and every
    /// stored duration fits in a duration.
    pub closed spec fn wf(&self) -> bool {
        &&& names_unique(self.kernel_stats@)
    }

    /// A profiler with nothing recorded.
    pub fn new(enabled: bool) -> (r: Self)
        ensures
            r.wf(),
            r.spec_enabled() == enabled,
            r.starts() == Seq::<(bool, Seq<char>, u64)>::empty(),
            forall|n: Seq<char>| #[trigger] r.kernel(n) == None::<GpuKernelStats>,
            r.kernel_count() == 0,
            r.phases() == Seq::<(Seq<char>, u128)>::empty(),
    {
        let r = GpuProfiler {
            enabled,
            start_times: Vec::new(),
            kernel_stats: Vec::new(),
            phase_log: Vec::new(),
        };
        proof {
            assert(r.starts() =~= Seq::<(bool, Seq<char>, u64)>::empty());
            assert(r.phases() =~= Seq::<(Seq<char>, u128)>::empty());
        }
        r
    }

    /// Turn recording on or off.
    pub fn set_enabled(&mut self, enabled: bool)
        requires
            old(self).wf(),
        ensures
            final(self).wf(),
            final(self).spec_enabled() == enabled,
            final(self).starts() == old(self).starts(),
            forall|n: Seq<char>| #[trigger] final(self).kernel(n) == old(self).kernel(n),
            final(self).kernel_count() == old(self).kernel_count(),
            final(self).phases() == old(self).phases(),
    {
        self.enabled = enabled;
    }

    /// Forget all markers, statistics and phases.
    pub fn clear(&mut self)
        requires
            old(self).wf(),
        ensures
            final(self).wf(),
            final(self).spec_enabled() == old(self).spec_enabled(),
            final(self).starts() == Seq::<(bool, Seq<char>, u64)>::empty(),
            forall|n: Seq<char>| #[trigger] final(self).kernel(n) == None::<GpuKernelStats>,
            final(self).kernel_count() == 0,
            final(self).phases() == Seq::<(Seq<char>, u128)>::empty(),
    {
        self.start_times.clear();
        self.kernel_stats.clear();
        self.phase_log.clear();
        proof {
            assert(self.starts() =~= Seq::<(bool, Seq<char>, u64)>::empty());
            assert(self.phases() =~= Seq::<(Seq<char>, u128)>::empty());
        }
    }

    fn push_start(&mut self, scope: ProfileScope, now: u64)
        requires
            old(self).wf(),
        ensures
            final(self).wf(),
            final(self).spec_enabled() == old(self).spec_enabled(),
            final(self).starts() == old(self).starts().push((scope.spec_view().0, scope.spec_view().1, now)),
            final(self).kernel_stats@ == old(self).kernel_stats@,
            final(self).phase_log@ == old(self).phase_log@,
    {
        let ghost sv = scope.spec_view();
        self.start_times.push((scope, now));
        proof {
            assert(self.starts() =~= old(self).starts().push((sv.0, sv.1, now)));
        }
    }

    /// What `begin_kernel(name, now)` does.
    pub open spec fn begin_kernel_effect(self, after: Self, name: Seq<char>, now: u64) -> bool {
        &&& after.spec_enabled() == self.spec_enabled()
        &&& after.starts() == if self.spec_enabled() {
            self.starts().push((true, name, now))
        } else {
            self.starts()
        }
        &&& forall|n: Seq<char>| #[trigger] after.kernel(n) == self.kernel(n)
        &&& after.kernel_count() == self.kernel_count()
        &&& after.phases() == self.phases()
    }

    /// What `end_kernel(name, now)` does.
    pub open spec fn end_kernel_effect(self, after: Self, name: Seq<char>, now: u64) -> bool {
        let i = rposition(self.starts(), true, name);
        &&& after.spec_enabled() == self.spec_enabled()
        &&& after.phases() == self.phases()
        &&& if self.spec_enabled() && i >= 0 {
            let d = elapsed(self.starts()[i].2, now);
            let st = match self.kernel(name) {
                Some(st) => st,
                None => GpuKernelStats::spec_default(),
            };
            &&& after.starts() == self.starts().remove(i)
            &&& after.kernel(name) == Some(st.record(d))
            &&& forall|n: Seq<char>| n != name ==> #[trigger] after.kernel(n) == self.kernel(n)
            &&& after.kernel_count() == self.kernel_count() + if self.kernel(name) is Some {
                0int
            } else {
                1int
            }
        } else {
            &&& after.starts() == self.starts()
            &&& forall|n: Seq<char>| #[trigger] after.kernel(n) == self.kernel(n)
            &&& after.kernel_count() == self.kernel_count()
        }
    }

    /// Open a marker for kernel `name` at time `now` (when enabled).
    pub fn begin_kernel(&mut self, name: &str, now: u64)
        requires
            old(self).wf(),
        ensures
            final(self).wf(),
            old(self).begin_kernel_effect(*final(self), name@, now),
    {
        if !self.enabled {
            return;
        }
        self.push_start(ProfileScope::Kernel(name.to_owned()), now);
    }

    /// Open a marker for phase `label` at time `now` (when enabled).
    pub fn begin_phase(&mut self, label: &str, now: u64)
        requires
            old(self).wf(),
        ensures
            final(self).wf(),
            final(self).spec_enabled() == old(self).spec_enabled(),
            final(self).starts() == if old(self).spec_enabled() {
                old(self).starts().push((false, label@, now))
            } else {
                old(self).starts()
            },
            forall|n: Seq<char>| #[trigger] final(self).kernel(n) == old(self).kernel(n),
            final(self).kernel_count() == old(self).kernel_count(),
            final(self).phases() == old(self).phases(),
    {
        if !self.enabled {
            return;
        }
        self.push_start(ProfileScope::Phase(label.to_owned()), now);
    }

    /// Remove the last open marker of the given kind and name, returning the
    /// time elapsed since it was opened.
    fn pop_start(&mut self, kernel: bool, name: &String, now: u64) -> (r: Option<u64>)
        requires
            old(self).wf(),
        ensures
            final(self).wf(),
            final(self).spec_enabled() == old(self).spec_enabled(),
            final(self).kernel_stats@ == old(self).kernel_stats@,
            final(self).phase_log@ == old(self).phase_log@,
            ({
                let i = rposition(old(self).starts(), kernel, name@);
                if i >= 0 {
                    &&& r == Some(elapsed(old(self).starts()[i].2, now))
                    &&& final(self).starts() == old(self).starts().remove(i)
                } else {
                    &&& r == None::<u64>
                    &&& final(self).starts() == old(self).starts()
                }
            }),
    {
        let ghost sv = self.starts();
        let mut i = self.start_times.len();
        proof {
            assert(sv.take(i as int) =~= sv);
        }
        while i > 0
            invariant
                i <= self.start_times@.len(),
                sv.len() == self.start_times@.len(),
                self.start_times@ == old(self).start_times@,
                self.kernel_stats@ == old(self).kernel_stats@,
                self.phase_log@ == old(self).phase_log@,
                self.enabled == old(self).enabled,
                self.wf(),
                sv == starts_view(self.start_times@),
                rposition(sv, kernel, name@) == rposition(sv.take(i as int), kernel, name@),
            decreases i,
        {
            let ghost t = sv.take(i as int);
            proof {
                assert(t.drop_last() =~= sv.take(i - 1));
            }
            let hit = match &self.start_times[i - 1].0 {
                ProfileScope::Kernel(n) => kernel && (*n == *name),
                ProfileScope::Phase(n) => !kernel && (*n == *name),
            };
            if hit {
                proof {
                    assert(t.last() == sv[i - 1]);
                    assert(sv[i - 1].0 == kernel && sv[i - 1].1 == name@);
                    assert(rposition(t, kernel, name@) == i - 1);
                }
                let (_, start) = self.start_times.remove(i - 1);
                proof {
                    assert(self.starts() =~= sv.remove(i - 1));
                }
                let d = if now >= start {
                    now - start
                } else {
                    0
                };
                return Some(d);
            }
            proof {
                assert(t.last() == sv[i - 1]);
                assert(!(t.last().0 == kernel && t.last().1 == name@));
            }
            i = i - 1;
        }
        proof {
            assert(sv.take(0) =~= Seq::<(bool, Seq<char>, u64)>::empty());
        }
        None
    }

    fn find_kernel(&self, key: &String) -> (r: Option<usize>)
        ensures
            match r {
                Some(i) => i < self.kernel_stats@.len() && self.kernel_stats@[i as int].0@ == key@,
                None => forall|j: int|
                    0 <= j < self.kernel_stats@.len() ==> self.kernel_stats@[j].0@ != key@,
            },
    {
        let mut idx: usize = 0;
        while idx < self.kernel_stats.len()
            invariant
                idx <= self.kernel_stats@.len(),
                forall|j: int| 0 <= j < idx ==> self.kernel_stats@[j].0@ != key@,
            decreases self.kernel_stats@.len() - idx,
        {
            if self.kernel_stats[idx].0 == *key {
                return Some(idx);
            }
            idx = idx + 1;
        }
        None
    }

    /// Whether closing a marker of kernel `name` can update its statistics
    /// without overflowing the call counter or the total duration.
    pub open spec fn kernel_has_room(&self, name: Seq<char>) -> bool {
        match self.kernel(name) {
            Some(st) => st.calls < u64::MAX && st.total_time + u64::MAX <= DURATION_MAX_NANOS,
            None => true,
        }
    }

    /// Whether closing a marker of kernel `name` can count one more call and
    /// add any elapsed time to its statistics without overflow.
    pub fn kernel_has_room_for(&self, name: &str) -> (r: bool)
        requires
            self.wf(),
        ensures
            r == self.kernel_has_room(name@),
    {
        let key = name.to_owned();
        match self.find_kernel(&key) {
            Some(idx) => {
                proof {
                    lemma_stats_lookup_at(self.kernel_stats@, idx as int);
                }
                let st = self.kernel_stats[idx].1;
                st.calls < u64::MAX && st.total_time <= DURATION_MAX_NANOS - 18_446_744_073_709_551_615u128
            },
            None => true,
        }
    }

    /// Close the last open marker of kernel `name` at time `now` (when enabled)
    /// and add the elapsed time to its statistics.
    pub fn end_kernel(&mut self, name: &str, now: u64)
        requires
            old(self).wf(),
            old(self).kernel_has_room(name@),
        ensures
            final(self).wf(),
            old(self).end_kernel_effect(*final(self), name@, now),
    {
        if !self.enabled {
            return;
        }
        let key = name.to_owned();
        let elapsed = self.pop_start(true, &key, now);
        if let Some(d) = elapsed {
            let ghost s0 = self.kernel_stats@;
            let pos = self.find_kernel(&key);
            if let Some(idx) = pos {
                proof {
                    lemma_stats_lookup_at(s0, idx as int);
                }
                let st = self.kernel_stats[idx].1;
                let mut nst = st;
                nst.calls = st.calls + 1;
                nst.total_time = st.total_time + d as u128;
                if (d as u128) < st.min_time {
                    nst.min_time = d as u128;
                }
                if (d as u128) > st.max_time {
                    nst.max_time = d as u128;
                }
                self.kernel_stats[idx].1 = nst;
                proof {
                    let s1 = self.kernel_stats@;
                    assert(s1 == s0.update(idx as int, (s0[idx as int].0, nst)));
                    assert forall|a: int, b: int|
                        0 <= a < s1.len() && 0 <= b < s1.len() && a != b implies s1[a].0@ != s1[b].0@ by {
                        assert(s1[a].0 == s0[a].0);
                        assert(s1[b].0 == s0[b].0);
                    }
                    lemma_stats_lookup_at(s1, idx as int);
                    assert forall|n: Seq<char>| n != name@ implies #[trigger] stats_lookup(s1, n)
                        == stats_lookup(s0, n) by {
                        if exists|j: int| 0 <= j < s0.len() && s0[j].0@ == n {
                            let j = choose|j: int| 0 <= j < s0.len() && s0[j].0@ == n;
                            lemma_stats_lookup_at(s0, j);
                            lemma_stats_lookup_at(s1, j);
                        } else {
                            assert(!exists|j: int| 0 <= j < s1.len() && s1[j].0@ == n) by {
                                if exists|j: int| 0 <= j < s1.len() && s1[j].0@ == n {
                                    let j = choose|j: int| 0 <= j < s1.len() && s1[j].0@ == n;
                                    assert(s1[j].0 == s0[j].0);
                                }
                            }
                        }
                    }
                }
            } else {
                let mut nst = GpuKernelStats::default();
                nst.calls = 1;
                nst.total_time = d as u128;
                nst.min_time = d as u128;
                nst.max_time = d as u128;
                self.kernel_stats.push((key, nst));
                proof {
                    let s1 = self.kernel_stats@;
                    assert(stats_lookup(s0, key@) == None::<GpuKernelStats>);
                    assert forall|a: int, b: int|
                        0 <= a < s1.len() && 0 <= b < s1.len() && a != b implies s1[a].0@ != s1[b].0@ by {
                        if a < s0.len() {
                            assert(s1[a] == s0[a]);
                        }
                        if b < s0.len() {
                            assert(s1[b] == s0[b]);
                        }
                    }
                    lemma_stats_lookup_at(s1, s0.len() as int);
                    assert forall|n: Seq<char>| n != name@ implies #[trigger] stats_lookup(s1, n)
                        == stats_lookup(s0, n) by {
                        if exists|j: int| 0 <= j < s0.len() && s0[j].0@ == n {
                            let j = choose|j: int| 0 <= j < s0.len() && s0[j].0@ == n;
                            lemma_stats_lookup_at(s0, j);
                            assert(s1[j] == s0[j]);
                            lemma_stats_lookup_at(s1, j);
                        } else {
                            assert(!exists|j: int| 0 <= j < s1.len() && s1[j].0@ == n) by {
                                if exists|j: int| 0 <= j < s1.len() && s1[j].0@ == n {
                                    let j = choose|j: int| 0 <= j < s1.len() && s1[j].0@ == n;
                                    if j < s0.len() {
                                        assert(s1[j] == s0[j]);
                                    }
                                }
                            }
                        }
                    }
                }
            }
        }
    }

    /// Close the last open marker of phase `label` at time `now` (when
    /// enabled) and append the elapsed time to the phase log.
    pub fn end_phase(&mut self, label: &str, now: u64)
        requires
            old(self).wf(),
        ensures
            final(self).wf(),
            final(self).spec_enabled() == old(self).spec_enabled(),
            forall|n: Seq<char>| #[trigger] final(self).kernel(n) == old(self).kernel(n),
            final(self).kernel_count() == old(self).kernel_count(),
            ({
                let i = rposition(old(self).starts(), false, label@);
                if old(self).spec_enabled() && i >= 0 {
                    &&& final(self).starts() == old(self).starts().remove(i)
                    &&& final(self).phases() == old(self).phases().push(
                        (label@, elapsed(old(self).starts()[i].2, now) as u128),
                    )
                } else {
                    &&& final(self).starts() == old(self).starts()
                    &&& final(self).phases() == old(self).phases()
                }
            }),
    {
        if !self.enabled {
            return;
        }
        let key = label.to_owned();
        let elapsed = self.pop_start(false, &key, now);
        if let Some(d) = elapsed {
            let ghost p0 = self.phases();
            self.phase_log.push((key, d as u128));
            proof {
                assert(self.phases() =~= p0.push((label@, d as u128)));
            }
        }
    }

    /// Kernel statistics ordered by total time, largest first, and the phase
    /// log; `Disabled` when profiling is off.
    pub fn report(&self) -> (r: ProfileReport)
        requires
            self.wf(),
        ensures
            match r {
                ProfileReport::Disabled => !self.spec_enabled(),
                ProfileReport::Enabled { kernels, phases } => {
                    &&& self.spec_enabled()
                    &&& kernels@.len() == self.kernel_count()
                    &&& forall|i: int|
                        0 <= i < kernels@.len() ==> self.kernel(#[trigger] kernels@[i].0@) == Some(
                            kernels@[i].1,
                        )
                    &&& forall|i: int, j: int|
                        0 <= i < j < kernels@.len() ==> kernels@[i].1.total_time
                            >= kernels@[j].1.total_time
                    &&& forall|i: int, j: int|
                        0 <= i < kernels@.len() && 0 <= j < kernels@.len() && i != j
                            ==> kernels@[i].0@ != kernels@[j].0@
                    &&& forall|n: Seq<char>|
                        self.kernel(n) is Some ==> exists|i: int|
                            0 <= i < kernels@.len() && #[trigger] kernels@[i].0@ == n
                    &&& phases@.len() == self.phases().len()
                    &&& forall|i: int|
                        0 <= i < phases@.len() ==> (#[trigger] phases@[i].0@, phases@[i].1)
                            == self.phases()[i]
                },
            },
    {
        if !self.enabled {
            return ProfileReport::Disabled;
        }
        let ghost ks = self.kernel_stats@;
        let n = self.kernel_stats.len();
        let mut remaining: Vec<usize> = Vec::new();
        let mut k: usize = 0;
        while k < n
            invariant
                k <= n,
                n == ks.len(),
                remaining@.len() == k,
                forall|a: int| 0 <= a < k ==> remaining@[a] == a,
            decreases n - k,
        {
            remaining.push(k);
            k = k + 1;
        }
        let mut order: Vec<usize> = Vec::new();
        proof {
            assert forall|x: usize| x < n implies #[trigger] in_either(order@, remaining@, x) by {
                assert(remaining@[x as int] == x);
            }
        }
        while remaining.len() > 0
            invariant
                n == ks.len(),
                self.kernel_stats@ == ks,
                order@.len() + remaining@.len() == n,
                forall|a: int| 0 <= a < order@.len() ==> order@[a] < n,
                forall|a: int| 0 <= a < remaining@.len() ==> remaining@[a] < n,
                forall|a: int, b: int|
                    0 <= a < order@.len() && 0 <= b < order@.len() && a != b ==> order@[a]
                        != order@[b],
                forall|a: int, b: int|
                    0 <= a < remaining@.len() && 0 <= b < remaining@.len() && a != b
                        ==> remaining@[a] != remaining@[b],
                forall|a: int, b: int|
                    0 <= a < order@.len() && 0 <= b < remaining@.len() ==> order@[a]
                        != remaining@[b],
                forall|x: usize| x < n ==> #[trigger] in_either(order@, remaining@, x),
                forall|a: int, b: int|
                    0 <= a < b < order@.len() ==> ks[order@[a] as int].1.total_time
                        >= ks[order@[b] as int].1.total_time,
                forall|a: int, b: int|
                    0 <= a < order@.len() && 0 <= b < remaining@.len()
                        ==> ks[order@[a] as int].1.total_time >= ks[remaining@[b] as int].1.total_time,
            decreases remaining@.len(),
        {
            let mut best: usize = 0;
            let mut p: usize = 1;
            while p < remaining.len()
                invariant
                    1 <= p <= remaining@.len(),
                    best < p,
                    n == ks.len(),
                    self.kernel_stats@ == ks,
                    forall|a: int| 0 <= a < remaining@.len() ==> remaining@[a] < n,
                    forall|b: int|
                        0 <= b < p ==> ks[remaining@[best as int] as int].1.total_time
                            >= ks[remaining@[b] as int].1.total_time,
                decreases remaining@.len() - p,
            {
                if self.kernel_stats[remaining[p]].1.total_time > self.kernel_stats[remaining[best]].1.total_time {
                    best = p;
                }
                p = p + 1;
            }
            let ghost r0 = remaining@;
            let ghost o0 = order@;
            let x = remaining.remove(best);
            order.push(x);
            proof {
                assert forall|y: usize| y < n implies #[trigger] in_either(order@, remaining@, y) by {
                    assert(in_either(o0, r0, y));
                    if exists|a: int| 0 <= a < o0.len() && o0[a] == y {
                        let a = choose|a: int| 0 <= a < o0.len() && o0[a] == y;
                        assert(order@[a] == y);
                    } else {
                        let b = choose|b: int| 0 <= b < r0.len() && r0[b] == y;
                        if b < best {
                            assert(remaining@[b] == y);
                        } else if b == best {
                            assert(order@[o0.len() as int] == y);
                        } else {
                            assert(remaining@[b - 1] == y);
                        }
                    }
                }
                assert forall|a: int, b: int|
                    0 <= a < order@.len() && 0 <= b < remaining@.len() implies order@[a]
                        != remaining@[b] by {
                    let b0 = if b < best { b } else { b + 1 };
                    assert(remaining@[b] == r0[b0]);
                    if a < o0.len() {
                        assert(order@[a] == o0[a]);
                    }
                }
                assert forall|a: int, b: int|
                    0 <= a < remaining@.len() && 0 <= b < remaining@.len() && a != b implies
                        remaining@[a] != remaining@[b] by {
                    let a0 = if a < best { a } else { a + 1 };
                    let b0 = if b < best { b } else { b + 1 };
                    assert(remaining@[a] == r0[a0]);
                    assert(remaining@[b] == r0[b0]);
                }
                assert forall|a: int, b: int|
                    0 <= a < order@.len() && 0 <= b < order@.len() && a != b implies order@[a]
                        != order@[b] by {
                    if a < o0.len() && b < o0.len() {
                        assert(order@[a] == o0[a]);
                        assert(order@[b] == o0[b]);
                    } else if a < o0.len() {
                        assert(order@[a] == o0[a]);
                        assert(r0[best as int] == x);
                    } else if b < o0.len() {
                        assert(order@[b] == o0[b]);
                        assert(r0[best as int] == x);
                    }
                }
                assert forall|a: int, b: int|
                    0 <= a < order@.len() && 0 <= b < remaining@.len()
                        implies ks[order@[a] as int].1.total_time >= ks[remaining@[b] as int].1.total_time by {
                    let b0 = if b < best { b } else { b + 1 };
                    assert(remaining@[b] == r0[b0]);
                    if a < o0.len() {
                        assert(order@[a] == o0[a]);
                    }
                }
                assert forall|a: int, b: int|
                    0 <= a < b < order@.len() implies ks[order@[a] as int].1.total_time
                        >= ks[order@[b] as int].1.total_time by {
                    if b < o0.len() {
                        assert(order@[a] == o0[a]);
                        assert(order@[b] == o0[b]);
                    } else {
                        assert(order@[a] == o0[a]);
                    }
                }
            }
        }
        let mut kernels: Vec<(String, GpuKernelStats)> = Vec::new();
        let mut q: usize = 0;
        while q < order.len()
            invariant
                q <= order@.len(),
                order@.len() == n,
                n == ks.len(),
                self.kernel_stats@ == ks,
                forall|a: int| 0 <= a < order@.len() ==> order@[a] < n,
                kernels@.len() == q,
                forall|a: int| 0 <= a < q ==> #[trigger] kernels@[a] == ks[order@[a] as int],
            decreases order@.len() - q,
        {
            let e = &self.kernel_stats[order[q]];
            kernels.push((e.0.clone(), e.1));
            q = q + 1;
        }
        let mut phases: Vec<(String, u128)> = Vec::new();
        let mut t: usize = 0;
        while t < self.phase_log.len()
            invariant
                t <= self.phase_log@.len(),
                phases@.len() == t,
                forall|a: int| 0 <= a < t ==> #[trigger] phases@[a] == self.phase_log@[a],
            decreases self.phase_log@.len() - t,
        {
            let e = &self.phase_log[t];
            phases.push((e.0.clone(), e.1));
            t = t + 1;
        }
        proof {
            assert forall|i: int| 0 <= i < kernels@.len() implies self.kernel(#[trigger] kernels@[i].0@)
                == Some(kernels@[i].1) by {
                lemma_stats_lookup_at(ks, order@[i] as int);
            }
            assert forall|i: int, j: int|
                0 <= i < kernels@.len() && 0 <= j < kernels@.len() && i != j implies kernels@[i].0@
                    != kernels@[j].0@ by {
                assert(kernels@[i] == ks[order@[i] as int]);
                assert(kernels@[j] == ks[order@[j] as int]);
            }
            assert forall|nm: Seq<char>| self.kernel(nm) is Some implies exists|i: int|
                0 <= i < kernels@.len() && #[trigger] kernels@[i].0@ == nm by {
                let j = choose|j: int| 0 <= j < ks.len() && ks[j].0@ == nm;
                assert(in_either(order@, remaining@, j as usize));
                let a = choose|a: int| 0 <= a < order@.len() && order@[a] == j;
                assert(kernels@[a] == ks[j]);
            }
            assert forall|i: int, j: int|
                0 <= i < j < kernels@.len() implies kernels@[i].1.total_time
                    >= kernels@[j].1.total_time by {
                assert(kernels@[i] == ks[order@[i] as int]);
                assert(kernels@[j] == ks[order@[j] as int]);
            }
        }
        ProfileReport::Enabled { kernels, phases }
    }
}


/// A kernel marker opened at `t0` and closed at `t1` with nothing in between
/// adds one call lasting `t1 - t0` to that kernel's statistics and leaves the
/// open markers as they were.
pub proof fn lemma_begin_end_kernel_records_elapsed(
    p0: GpuProfiler,
    p1: GpuProfiler,
    p2: GpuProfiler,
    name: Seq<char>,
    t0: u64,
    t1: u64,
)
    requires
        p0.spec_enabled(),
        p0.begin_kernel_effect(p1, name, t0),
        p1.end_kernel_effect(p2, name, t1),
    ensures
        p2.starts() == p0.starts(),
        p2.kernel(name) == Some(
            match p0.kernel(name) {
                Some(st) => st,
                None => GpuKernelStats::spec_default(),
            }.record(elapsed(t0, t1)),
        ),
        forall|n: Seq<char>| n != name ==> #[trigger] p2.kernel(n) == p0.kernel(n),
        p2.phases() == p0.phases(),
{
    let s = p0.starts();
    let s1 = s.push((true, name, t0));
    assert(s1.last() == (true, name, t0));
    assert(rposition(s1, true, name) == s.len());
    assert(s1.remove(s.len() as int) =~= s);
}

/// While profiling is disabled, opening and closing kernel markers changes nothing.
pub proof fn lemma_disabled_records_nothing(
    p0: GpuProfiler,
    p1: GpuProfiler,
    p2: GpuProfiler,
    name: Seq<char>,
    t0: u64,
    t1: u64,
)
    requires
        !p0.spec_enabled(),
        p0.begin_kernel_effect(p1, name, t0),
        p1.end_kernel_effect(p2, name, t1),
    ensures
        p2.starts() == p0.starts(),
        forall|n: Seq<char>| #[trigger] p2.kernel(n) == p0.kernel(n),
        p2.kernel_count() == p0.kernel_count(),
        p2.phases() == p0.phases(),
{
}

} // verus!
