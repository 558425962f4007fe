//! Registration of the utility and fused pipelines in the context's
//! registry, once their shaders have been compiled on the device.

use vstd::prelude::*;
use crate::context::{with_pipeline, GpuContext};

verus! {

/// The registry after compiling `names` in order, starting from `ns`.
pub open spec fn with_pipelines(ns: Seq<Seq<char>>, names: Seq<Seq<char>>) -> Seq<Seq<char>>
    decreases names.len(),
{
    if names.len() == 0 {
        ns
    } else {
        with_pipeline(with_pipelines(ns, names.drop_last()), names.last())
    }
}

/// Everything but the registry is unchanged, and the registry is the one
/// before with `names` compiled in order.
pub open spec fn registered(before: GpuContext, after: GpuContext, names: Seq<Seq<char>>) -> bool {
    &&& after.wf()
    &&& after.spec_caps() == before.spec_caps()
    &&& after.spec_query_pool_size() == before.spec_query_pool_size()
    &&& after.spec_query_index() == before.spec_query_index()
    &&& after.pipeline_names() == with_pipelines(before.pipeline_names(), names)
}

/// `h` is the handle of pipeline `name` in context `c`.
pub open spec fn is_handle(c: GpuContext, h: usize, name: Seq<char>) -> bool {
    h < c.pipeline_names().len() && c.pipeline_names()[h as int] == name
}

/// Compiling `names` and then `n` is compiling `names.push(n)`; the
/// handles of the earlier pipelines stay valid.
pub proof fn lemma_registered_then(
    c0: GpuContext,
    c1: GpuContext,
    c2: GpuContext,
    names: Seq<Seq<char>>,
    n: Seq<char>,
)
    requires
        registered(c0, c1, names),
        registered(c1, c2, seq![n]),
    ensures
        registered(c0, c2, names.push(n)),
        forall|h: usize, x: Seq<char>| #[trigger] is_handle(c1, h, x) ==> is_handle(c2, h, x),
{
    let empty = Seq::<Seq<char>>::empty();
    lemma_with_pipelines_push(c1.pipeline_names(), empty, n);
    assert(with_pipelines(c1.pipeline_names(), empty) == c1.pipeline_names());
    assert(c2.pipeline_names() == with_pipeline(c1.pipeline_names(), n));
    lemma_with_pipelines_push(c0.pipeline_names(), names, n);
    assert forall|h: usize, x: Seq<char>| #[trigger] is_handle(c1, h, x) implies is_handle(c2, h, x) by {
        if !c1.pipeline_names().contains(n) {
            assert(c1.pipeline_names().push(n)[h as int] == c1.pipeline_names()[h as int]);
        }
    }
}

/// Compiling one more name extends the fold by one step.
pub proof fn lemma_with_pipelines_push(ns: Seq<Seq<char>>, names: Seq<Seq<char>>, n: Seq<char>)
    ensures
        with_pipelines(ns, names.push(n)) == with_pipeline(with_pipelines(ns, names), n),
{
    assert(names.push(n).drop_last() =~= names);
}

/// What a registry holds after compiling `names`: its earlier entries, in
/// their places, and every name of `names`, nothing else.
pub proof fn lemma_with_pipelines_contents(ns: Seq<Seq<char>>, names: Seq<Seq<char>>)
    ensures
        with_pipelines(ns, names).len() >= ns.len(),
        forall|i: int| 0 <= i < ns.len() ==> #[trigger] with_pipelines(ns, names)[i] == ns[i],
        forall|x: Seq<char>|
            #[trigger] with_pipelines(ns, names).contains(x) <==> (ns.contains(x) || names.contains(x)),
    decreases names.len(),
{
    if names.len() > 0 {
        let prev = names.drop_last();
        let n = names.last();
        lemma_with_pipelines_contents(ns, prev);
        let w = with_pipelines(ns, prev);
        assert forall|x: Seq<char>| #[trigger] with_pipelines(ns, names).contains(x) <==> (ns.contains(x)
            || names.contains(x)) by {
            if names.contains(x) && !prev.contains(x) {
                let j = choose|j: int| 0 <= j < names.len() && names[j] == x;
                if j < names.len() - 1 {
                    assert(prev[j] == x);
                }
                assert(x == n);
            }
            if prev.contains(x) {
                let j = choose|j: int| 0 <= j < prev.len() && prev[j] == x;
                assert(names[j] == x);
            }
            if !w.contains(n) {
                assert(w.push(n)[w.len() as int] == n);
                if w.push(n).contains(x) && !w.contains(x) {
                    let j = choose|j: int| 0 <= j < w.push(n).len() && w.push(n)[j] == x;
                    if j < w.len() {
                        assert(w[j] == x);
                    }
                }
                if w.contains(x) {
                    let j = choose|j: int| 0 <= j < w.len() && w[j] == x;
                    assert(w.push(n)[j] == x);
                }
            }
            if x == n {
                assert(names[names.len() - 1] == x);
            }
        }
    } else {
        assert forall|x: Seq<char>| #[trigger] with_pipelines(ns, names).contains(x) <==> (ns.contains(x)
            || names.contains(x)) by {}
    }
}

/// Compiling names that are all known leaves the registry as it is.
pub proof fn lemma_with_pipelines_known(ns: Seq<Seq<char>>, names: Seq<Seq<char>>)
    requires
        forall|j: int| 0 <= j < names.len() ==> ns.contains(#[trigger] names[j]),
    ensures
        with_pipelines(ns, names) == ns,
    decreases names.len(),
{
    if names.len() > 0 {
        let prev = names.drop_last();
        assert forall|j: int| 0 <= j < prev.len() implies ns.contains(#[trigger] prev[j]) by {
            assert(prev[j] == names[j]);
        }
        lemma_with_pipelines_known(ns, prev);
        assert(ns.contains(names[names.len() - 1]));
    }
}

impl GpuContext {
    /// Compiles `name` as the next of a series started on registry `p0`,
    /// after the names `done`.
    pub(crate) fn compile_step(
        &mut self,
        name: &str,
        Ghost(p0): Ghost<Seq<Seq<char>>>,
        Ghost(done): Ghost<Seq<Seq<char>>>,
    ) -> (r: usize)
        requires
            old(self).wf(),
            old(self).pipeline_names() == with_pipelines(p0, done),
        ensures
            final(self).wf(),
            final(self).spec_caps() == old(self).spec_caps(),
            final(self).spec_query_pool_size() == old(self).spec_query_pool_size(),
            final(self).spec_query_index() == old(self).spec_query_index(),
            final(self).pipeline_names() == with_pipelines(p0, done.push(name@)),
            r < final(self).pipeline_names().len(),
            final(self).pipeline_names()[r as int] == name@,
    {
        proof {
            lemma_with_pipelines_push(p0, done, name@);
        }
        self.compile_pipeline_cached(name)
    }

    /// Compiles the zero-fill pipeline.
    pub fn compile_fill_zero(&mut self)
        requires
            old(self).wf(),
        ensures
            registered(*old(self), *final(self), seq!["fill_zero"@]),
    {
        let ghost p0 = self.pipeline_names();
        self.compile_step("fill_zero", Ghost(p0), Ghost(Seq::empty()));
    }

    /// Compiles the constant-fill pipeline.
    pub fn compile_fill_constant(&mut self)
        requires
            old(self).wf(),
        ensures
            registered(*old(self), *final(self), seq!["fill_constant"@]),
    {
        let ghost p0 = self.pipeline_names();
        self.compile_step("fill_constant", Ghost(p0), Ghost(Seq::empty()));
    }

    /// Compiles the integer zero-fill pipeline.
    pub fn compile_fill_zero_u32(&mut self)
        requires
            old(self).wf(),
        ensures
            registered(*old(self), *final(self), seq!["fill_zero_u32"@]),
    {
        let ghost p0 = self.pipeline_names();
        self.compile_step("fill_zero_u32", Ghost(p0), Ghost(Seq::empty()));
    }

    /// Compiles the mixture-of-experts scatter-add pipeline.
    pub fn compile_moe_scatter_add(&mut self)
        requires
            old(self).wf(),
        ensures
            registered(*old(self), *final(self), seq!["moe_scatter_add"@]),
    {
        let ghost p0 = self.pipeline_names();
        self.compile_step("moe_scatter_add", Ghost(p0), Ghost(Seq::empty()));
    }

    /// Compiles the in-place scaling pipeline.
    pub fn compile_scale_inplace(&mut self)
        requires
            old(self).wf(),
        ensures
            registered(*old(self), *final(self), seq!["scale_inplace"@]),
    {
        let ghost p0 = self.pipeline_names();
        self.compile_step("scale_inplace", Ghost(p0), Ghost(Seq::empty()));
    }

    /// Compiles the gradient all-reduce pipeline.
    pub fn compile_gradient_allreduce(&mut self)
        requires
            old(self).wf(),
        ensures
            registered(*old(self), *final(self), seq!["gradient_allreduce"@]),
    {
        let ghost p0 = self.pipeline_names();
        self.compile_step("gradient_allreduce", Ghost(p0), Ghost(Seq::empty()));
    }

    /// Compiles the fused matmul + bias + activation pipeline.
    pub fn compile_fused_matmul_bias(&mut self)
        requires
            old(self).wf(),
        ensures
            registered(*old(self), *final(self), seq!["fused_matmul_bias"@]),
    {
        let ghost p0 = self.pipeline_names();
        self.compile_step("fused_matmul_bias", Ghost(p0), Ghost(Seq::empty()));
    }

    /// Compiles the fused pipelines: matmul + bias + activation, then the
    /// online softmax.
    pub fn compile_fused_ops(&mut self)
        requires
            old(self).wf(),
        ensures
            registered(*old(self), *final(self), seq!["fused_matmul_bias"@, "fused_online_softmax"@]),
    {
        let ghost p0 = self.pipeline_names();
        let ghost first: Seq<Seq<char>> = seq!["fused_matmul_bias"@];
        self.compile_fused_matmul_bias();
        self.compile_step("fused_online_softmax", Ghost(p0), Ghost(first));
        proof {
            assert(seq!["fused_matmul_bias"@].push("fused_online_softmax"@) =~= seq![
                "fused_matmul_bias"@,
                "fused_online_softmax"@,
            ]);
        }
    }
}

/// A pipeline, once compiled, is found by name, and the pipelines compiled
/// before it keep their handles.
pub proof fn lemma_registered_is_found(before: GpuContext, after: GpuContext, names: Seq<Seq<char>>, i: int)
    requires
        registered(before, after, names),
        0 <= i < names.len(),
    ensures
        after.pipeline_names().contains(names[i]),
        forall|h: int|
            0 <= h < before.pipeline_names().len() ==> #[trigger] after.pipeline_names()[h]
                == before.pipeline_names()[h],
{
    lemma_with_pipelines_contents(before.pipeline_names(), names);
    assert(names.contains(names[i]));
}

/// Compiling the same pipelines a second time changes nothing.
pub proof fn lemma_recompiling_changes_nothing(
    c0: GpuContext,
    c1: GpuContext,
    c2: GpuContext,
    names: Seq<Seq<char>>,
)
    requires
        registered(c0, c1, names),
        registered(c1, c2, names),
    ensures
        c2.pipeline_names() == c1.pipeline_names(),
{
    lemma_with_pipelines_contents(c0.pipeline_names(), names);
    assert forall|j: int| 0 <= j < names.len() implies c1.pipeline_names().contains(#[trigger] names[j]) by {
        assert(names.contains(names[j]));
    }
    lemma_with_pipelines_known(c1.pipeline_names(), names);
}

} // verus!
