//! Spectral-entropy decomposition compression (SEDC): errors, the integer
//! and guard settings of the compressor, which layers it leaves alone, and
//! the pipelines it needs on the device.

use vstd::prelude::*;
use crate::context::{ceil_div, ceil_div_u32, GpuContext, GpuError};
use crate::pipelines::registered;

verus! {

/// Errors of the compressor.
#[derive(Debug)]
pub enum SedcError {
    Gpu(GpuError),
    Svd(String),
    Shape(String),
    NoContext,
    Empty,
    Convergence(String),
}

impl From<GpuError> for SedcError {
    fn from(e: GpuError) -> (r: Self) {
        SedcError::Gpu(e)
    }
}

impl vstd::std_specs::convert::FromSpecImpl<GpuError> for SedcError {
    open spec fn obeys_from_spec() -> bool {
        true
    }

    open spec fn from_spec(e: GpuError) -> Self {
        SedcError::Gpu(e)
    }
}

/// Integer and guard settings of the compressor. The real-valued tuning
/// parameters (thresholds, rates, factors) are held by the caller.
#[derive(Debug, Clone, Copy, PartialEq, Eq, Structural)]
pub struct SedcConfig {
    /// Extra columns of the random projection.
    pub oversamples: usize,
    /// Power iterations of the randomized SVD.
    pub power_iters: usize,
    /// Bits per value of the residual quantizer.
    pub arq_bits: usize,
    /// Leave normalization layers uncompressed.
    pub skip_layernorm: bool,
    /// Leave rotary-embedding layers uncompressed.
    pub skip_rope: bool,
    /// Leave position and embedding layers uncompressed.
    pub skip_pos_embed: bool,
    /// Leave output-logit layers uncompressed.
    pub skip_logits: bool,
}

impl Default for SedcConfig {
    /// Ten oversamples, two power iterations, two-bit quantization, and every
    /// guard on.
    fn default() -> (r: Self)
        ensures
            r.oversamples == 10,
            r.power_iters == 2,
            r.arq_bits == 2,
            r.skip_layernorm,
            r.skip_rope,
            r.skip_pos_embed,
            r.skip_logits,
    {
        SedcConfig {
            oversamples: 10,
            power_iters: 2,
            arq_bits: 2,
            skip_layernorm: true,
            skip_rope: true,
            skip_pos_embed: true,
            skip_logits: true,
        }
    }
}

/// `pat` occurs in `s` as a contiguous run.
pub open spec fn has_substring(s: Seq<char>, pat: Seq<char>) -> bool {
    exists|i: int| 0 <= i && i + pat.len() <= s.len() && #[trigger] s.subrange(i, i + pat.len()) == pat
}

/// Whether the compressor leaves a layer with the lower-cased name `lower`
/// alone.
pub open spec fn spec_skip(config: SedcConfig, lower: Seq<char>) -> bool {
    ||| config.skip_layernorm && (has_substring(lower, "norm"@) || has_substring(lower, "layernorm"@))
    ||| config.skip_rope && has_substring(lower, "rope"@)
    ||| config.skip_pos_embed && (has_substring(lower, "pos"@) || has_substring(lower, "embed"@))
    ||| config.skip_logits && has_substring(lower, "logit"@)
}

/// Each guard governs its own name patterns and nothing else: a name
/// that matches no guarded pattern is never skipped; a name that matches
/// only one guard's patterns is skipped exactly when that guard is on; and
/// switching more guards on never brings a skipped name back.
pub proof fn lemma_skip_guards_are_independent(c: SedcConfig, c2: SedcConfig, lower: Seq<char>)
    ensures
        ({
            let norm = has_substring(lower, "norm"@) || has_substring(lower, "layernorm"@);
            let rope = has_substring(lower, "rope"@);
            let pos = has_substring(lower, "pos"@) || has_substring(lower, "embed"@);
            let logit = has_substring(lower, "logit"@);
            &&& !norm && !rope && !pos && !logit ==> !spec_skip(c, lower)
            &&& norm && !rope && !pos && !logit ==> spec_skip(c, lower) == c.skip_layernorm
            &&& !norm && rope && !pos && !logit ==> spec_skip(c, lower) == c.skip_rope
            &&& !norm && !rope && pos && !logit ==> spec_skip(c, lower) == c.skip_pos_embed
            &&& !norm && !rope && !pos && logit ==> spec_skip(c, lower) == c.skip_logits
            &&& (c.skip_layernorm ==> c2.skip_layernorm) && (c.skip_rope ==> c2.skip_rope) && (c.skip_pos_embed
                ==> c2.skip_pos_embed) && (c.skip_logits ==> c2.skip_logits) && spec_skip(c, lower) ==> spec_skip(
                c2,
                lower,
            )
        }),
{
}

/// What `str::to_lowercase` returns for a string: the Unicode lower-case
/// mapping of each character.
pub uninterp spec fn lowercase(s: Seq<char>) -> Seq<char>;

/// Lower-cases `s` with `str::to_lowercase`. The result depends on `s`
/// alone; the Unicode mapping itself is not restated here.
#[verifier::external_body]
fn to_lowercase(s: &str) -> (r: String)
    ensures
        r@ == lowercase(s@),
{
    s.to_lowercase()
}

/// The characters of `s`.
fn chars_of(s: &str) -> (r: Vec<char>)
    ensures
        r@ == s@,
{
    let n = s.unicode_len();
    let mut v: Vec<char> = Vec::new();
    let mut i: usize = 0;
    while i < n
        invariant
            n == s@.len(),
            i <= n,
            v@ == s@.take(i as int),
        decreases n - i,
    {
        let c = s.get_char(i);
        v.push(c);
        i = i + 1;
        proof {
            assert(v@ =~= s@.take(i as int));
        }
    }
    proof {
        assert(s@.take(n as int) =~= s@);
    }
    v
}

/// Whether `pat` occurs at position `at` of `s`.
fn occurs_at(s: &Vec<char>, pat: &Vec<char>, at: usize) -> (r: bool)
    requires
        at + pat@.len() <= s@.len(),
    ensures
        r == (s@.subrange(at as int, at + pat@.len()) == pat@),
{
    let slen = s.len();
    let mut j: usize = 0;
    while j < pat.len()
        invariant
            slen == s@.len(),
            at + pat@.len() <= s@.len(),
            j <= pat@.len(),
            forall|t: int| 0 <= t < j ==> s@[at + t] == pat@[t],
        decreases pat@.len() - j,
    {
        if s[at + j] != pat[j] {
            proof {
                assert(s@.subrange(at as int, at + pat@.len())[j as int] != pat@[j as int]);
            }
            return false;
        }
        j = j + 1;
    }
    proof {
        assert(s@.subrange(at as int, at + pat@.len()) =~= pat@);
    }
    true
}

/// Whether `pat` occurs in `s`.
fn contains_str(s: &Vec<char>, pat: &str) -> (r: bool)
    ensures
        r == has_substring(s@, pat@),
{
    let p = chars_of(pat);
    if p.len() > s.len() {
        return false;
    }
    let last = s.len() - p.len();
    let mut i: usize = 0;
    loop
        invariant
            p@ == pat@,
            p@.len() <= s@.len(),
            last == s@.len() - p@.len(),
            i <= last,
            forall|k: int| 0 <= k < i ==> #[trigger] s@.subrange(k, k + p@.len()) != p@,
        ensures
            forall|k: int| 0 <= k <= last ==> #[trigger] s@.subrange(k, k + p@.len()) != p@,
        decreases last - i,
    {
        if occurs_at(s, &p, i) {
            return true;
        }
        if i == last {
            break;
        }
        i = i + 1;
    }
    proof {
        assert forall|k: int| 0 <= k && k + pat@.len() <= s@.len() implies #[trigger] s@.subrange(
            k,
            k + pat@.len(),
        ) != pat@ by {
            assert(k <= last);
        }
    }
    false
}

/// The compressor, holding its settings.
#[derive(Debug)]
pub struct SedcCompressor {
    pub config: SedcConfig,
}

impl SedcCompressor {
    /// A compressor with the given settings.
    pub fn new(config: SedcConfig) -> (r: Self)
        ensures
            r.config == config,
    {
        SedcCompressor { config }
    }

    /// Whether a layer whose lower-cased name is `lower` is left
    /// uncompressed: normalization, rotary, position/embedding and logit
    /// layers, each as far as its guard is on.
    pub fn should_skip_lowercase(&self, lower: &str) -> (r: bool)
        ensures
            r == spec_skip(self.config, lower@),
    {
        let s = chars_of(lower);
        (self.config.skip_layernorm && (contains_str(&s, "norm") || contains_str(&s, "layernorm")))
            || (self.config.skip_rope && contains_str(&s, "rope"))
            || (self.config.skip_pos_embed && (contains_str(&s, "pos") || contains_str(&s, "embed")))
            || (self.config.skip_logits && contains_str(&s, "logit"))
    }

    /// Whether the layer `layer_name` is left uncompressed; names are
    /// compared lower-cased.
    pub fn should_skip_layer(&self, layer_name: &str) -> (r: bool)
        ensures
            r == spec_skip(self.config, lowercase(layer_name@)),
    {
        let lower = to_lowercase(layer_name);
        self.should_skip_lowercase(lower.as_str())
    }
}

/// Layer `x` belongs to one of the fused pairs (a pair starting at `i`
/// covers layers `i` and `i + 1`).
pub open spec fn covered(pairs: Seq<(usize, usize)>, x: int) -> bool {
    exists|j: int| 0 <= j < pairs.len() && (pairs[j].0 == x || pairs[j].0 + 1 == x)
}

/// The fusion requests among the first `k` that are taken, in order: a
/// request `(i, rank)` is taken when layer `i + 1` exists and neither layer is
/// already part of a taken pair.
pub open spec fn spec_taken_pairs(requests: Seq<(usize, usize)>, num_layers: int, k: int) -> Seq<(usize, usize)>
    decreases k,
{
    if k <= 0 {
        Seq::empty()
    } else {
        let acc = spec_taken_pairs(requests, num_layers, k - 1);
        let (i, r) = requests[k - 1];
        if i + 1 >= num_layers || covered(acc, i as int) || covered(acc, i + 1) {
            acc
        } else {
            acc.push((i, r))
        }
    }
}

/// What the compressor does with one layer.
#[derive(Debug, Clone, Copy, PartialEq, Eq, Structural)]
pub enum LayerAction {
    /// Part of a fused pair, replaced by the pair's routing.
    Fused,
    /// Kept as it is (a guarded layer).
    Keep,
    /// Compressed on its own.
    Compress,
}

/// The action for layer `i`.
pub open spec fn spec_layer_action(taken: Seq<(usize, usize)>, guarded: Seq<bool>, i: int) -> LayerAction {
    if covered(taken, i) {
        LayerAction::Fused
    } else if guarded[i] {
        LayerAction::Keep
    } else {
        LayerAction::Compress
    }
}

/// Rank of a fused pair of `m x n` layers asked for rank `k`: at most `m`
/// and `n`, at least one.
pub fn fuse_rank(k: usize, m: usize, n: usize) -> (r: usize)
    ensures
        r == ({
            let a = if k < m {
                k
            } else {
                m
            };
            let b = if a < n {
                a
            } else {
                n
            };
            if b < 1 {
                1
            } else {
                b
            }
        }),
{
    let a = if k < m {
        k
    } else {
        m
    };
    let b = if a < n {
        a
    } else {
        n
    };
    if b < 1 {
        1
    } else {
        b
    }
}

/// Which layers of a model of `num_layers` layers are fused, kept or
/// compressed: the fusion requests are taken greedily in order, then every
/// layer outside a taken pair is kept when `guarded` says so (its name is
/// guarded) and compressed otherwise.
pub fn plan_layers(num_layers: usize, requests: &[(usize, usize)], guarded: &[bool]) -> (r: (
    Vec<(usize, usize)>,
    Vec<LayerAction>,
))
    requires
        guarded@.len() == num_layers,
    ensures
        r.0@ == spec_taken_pairs(requests@, num_layers as int, requests@.len() as int),
        r.1@.len() == num_layers,
        forall|i: int| 0 <= i < num_layers ==> #[trigger] r.1@[i] == spec_layer_action(r.0@, guarded@, i),
{
    let mut taken: Vec<(usize, usize)> = Vec::new();
    let mut in_pair: Vec<bool> = Vec::new();
    let mut x: usize = 0;
    while x < num_layers
        invariant
            x <= num_layers,
            in_pair@.len() == x,
            forall|y: int| 0 <= y < x ==> !#[trigger] in_pair@[y],
        decreases num_layers - x,
    {
        in_pair.push(false);
        x = x + 1;
    }
    let mut k: usize = 0;
    while k < requests.len()
        invariant
            k <= requests@.len(),
            in_pair@.len() == num_layers,
            taken@ == spec_taken_pairs(requests@, num_layers as int, k as int),
            forall|y: int| 0 <= y < num_layers ==> #[trigger] in_pair@[y] == covered(taken@, y),
            forall|j: int| 0 <= j < taken@.len() ==> #[trigger] taken@[j].0 + 1 < num_layers,
        decreases requests@.len() - k,
    {
        let (i, rank) = requests[k];
        let ghost before = taken@;
        if i < num_layers && i + 1 < num_layers && !in_pair[i] && !in_pair[i + 1] {
            taken.push((i, rank));
            in_pair.set(i, true);
            in_pair.set(i + 1, true);
            proof {
                assert forall|y: int| 0 <= y < num_layers implies #[trigger] in_pair@[y] == covered(taken@, y) by {
                    if covered(before, y) {
                        let j = choose|j: int| 0 <= j < before.len() && (before[j].0 == y || before[j].0 + 1 == y);
                        assert(taken@[j] == before[j]);
                    }
                    if y == i || y == i + 1 {
                        assert(taken@[before.len() as int] == (i, rank));
                    }
                    if covered(taken@, y) && y != i && y != i + 1 {
                        let j = choose|j: int| 0 <= j < taken@.len() && (taken@[j].0 == y || taken@[j].0 + 1 == y);
                        assert(j < before.len());
                        assert(before[j] == taken@[j]);
                    }
                }
            }
        } else {
            proof {
                if i < num_layers && i + 1 < num_layers {
                    assert(covered(before, i as int) || covered(before, i + 1));
                } else {
                    assert(i + 1 >= num_layers);
                }
            }
        }
        k = k + 1;
    }
    let mut actions: Vec<LayerAction> = Vec::new();
    let mut t: usize = 0;
    while t < num_layers
        invariant
            t <= num_layers,
            in_pair@.len() == num_layers,
            guarded@.len() == num_layers,
            forall|y: int| 0 <= y < num_layers ==> #[trigger] in_pair@[y] == covered(taken@, y),
            actions@.len() == t,
            forall|y: int| 0 <= y < t ==> #[trigger] actions@[y] == spec_layer_action(taken@, guarded@, y),
        decreases num_layers - t,
    {
        let a = if in_pair[t] {
            LayerAction::Fused
        } else if guarded[t] {
            LayerAction::Keep
        } else {
            LayerAction::Compress
        };
        actions.push(a);
        t = t + 1;
    }
    (taken, actions)
}

/// Name of layer `i` among `names`; layers past the names are "unknown".
pub open spec fn spec_layer_name(names: Seq<&str>, i: int) -> Seq<char> {
    if i < names.len() {
        names[i]@
    } else {
        "unknown"@
    }
}

/// Whether each of the first `n` layers is guarded, by its lower-cased name.
pub open spec fn spec_guards(config: SedcConfig, names: Seq<&str>, n: int) -> Seq<bool> {
    Seq::new(n as nat, |i: int| spec_skip(config, lowercase(spec_layer_name(names, i))))
}

impl SedcCompressor {
    /// The layout of a compressed model of `num_layers` layers named by
    /// `names`: the fusion requests `fuse_pairs` taken in order, then for each
    /// layer whether it is fused, kept (guarded name) or compressed.
    pub fn plan_model(&self, num_layers: usize, names: &[&str], fuse_pairs: &[(usize, usize)]) -> (r: (
        Vec<(usize, usize)>,
        Vec<LayerAction>,
    ))
        ensures
            r.0@ == spec_taken_pairs(fuse_pairs@, num_layers as int, fuse_pairs@.len() as int),
            r.1@.len() == num_layers,
            forall|i: int|
                0 <= i < num_layers ==> #[trigger] r.1@[i] == spec_layer_action(
                    r.0@,
                    spec_guards(self.config, names@, num_layers as int),
                    i,
                ),
    {
        let mut guarded: Vec<bool> = Vec::new();
        let mut i: usize = 0;
        while i < num_layers
            invariant
                i <= num_layers,
                guarded@ == spec_guards(self.config, names@, i as int),
            decreases num_layers - i,
        {
            let name: &str = if i < names.len() {
                names[i]
            } else {
                "unknown"
            };
            let g = self.should_skip_layer(name);
            guarded.push(g);
            i = i + 1;
            proof {
                assert(guarded@ =~= spec_guards(self.config, names@, i as int));
            }
        }
        plan_layers(num_layers, fuse_pairs, guarded.as_slice())
    }
}

/// The rank chosen for a weight from the spectrum's optimal rank `k_opt`:
/// at least one, at most `max_rank`.
pub open spec fn spec_k_star(k_opt: usize, max_rank: usize) -> usize {
    let a = if k_opt < 1 {
        1
    } else {
        k_opt
    };
    if a < max_rank {
        a
    } else {
        max_rank
    }
}

/// Whether the first decomposition is too narrow for rank `k_star`: it kept
/// `k_est` components of its `s_len` singular values.
pub open spec fn spec_needs_wider_svd(k_star: usize, k_est: usize, s_len: usize) -> bool {
    k_star > k_est && k_est < s_len
}

/// The rank decisions for an `m x n` weight once the first decomposition is
/// known.
#[derive(Debug, Clone, Copy, PartialEq, Eq, Structural)]
pub struct RankChoice {
    /// The largest possible rank, `min(m, n)`.
    pub max_rank: usize,
    /// The rank aimed for.
    pub k_star: usize,
    /// The target rank of a second, wider decomposition, when one is needed.
    pub wider_svd_rank: Option<usize>,
}

impl SedcCompressor {
    /// Target rank of the first randomized decomposition of an `m x n`
    /// weight: half the largest possible rank.
    pub fn first_svd_rank(&self, m: usize, n: usize) -> (r: usize)
        ensures
            r == (if m < n {
                m
            } else {
                n
            }) / 2,
    {
        let max_rank = if m < n {
            m
        } else {
            n
        };
        max_rank / 2
    }

    /// The rank decisions for an `m x n` weight whose spectrum asks for rank
    /// `k_opt`, after a first decomposition that kept `k_est` of its `s_len`
    /// singular values: a wider decomposition (with the oversamples added)
    /// runs when the first one is too narrow.
    pub fn choose_rank(&self, m: usize, n: usize, k_opt: usize, k_est: usize, s_len: usize) -> (r: RankChoice)
        requires
            spec_needs_wider_svd(
                spec_k_star(
                    k_opt,
                    if m < n {
                        m
                    } else {
                        n
                    },
                ),
                k_est,
                s_len,
            ) ==> spec_k_star(
                k_opt,
                if m < n {
                    m
                } else {
                    n
                },
            ) + self.config.oversamples <= usize::MAX,
        ensures
            r.max_rank == (if m < n {
                m
            } else {
                n
            }),
            r.k_star == spec_k_star(k_opt, r.max_rank),
            r.wider_svd_rank == (if spec_needs_wider_svd(r.k_star, k_est, s_len) {
                Some((r.k_star + self.config.oversamples) as usize)
            } else {
                None::<usize>
            }),
    {
        let max_rank = if m < n {
            m
        } else {
            n
        };
        let a = if k_opt < 1 {
            1
        } else {
            k_opt
        };
        let k_star = if a < max_rank {
            a
        } else {
            max_rank
        };
        let wider_svd_rank = if k_star > k_est && k_est < s_len {
            Some(k_star + self.config.oversamples)
        } else {
            None
        };
        RankChoice { max_rank, k_star, wider_svd_rank }
    }

    /// The rank of a retry when the reconstruction error at rank `k_final`
    /// exceeds the tolerance (`error_exceeds`): one more, up to `max_rank`;
    /// `None` when there is no retry.
    pub fn retry_rank(&self, k_final: usize, max_rank: usize, error_exceeds: bool) -> (r: Option<usize>)
        ensures
            r == (if error_exceeds && k_final < max_rank {
                Some((k_final + 1) as usize)
            } else {
                None::<usize>
            }),
    {
        if error_exceeds && k_final < max_rank {
            Some(k_final + 1)
        } else {
            None
        }
    }
}

/// Whether residual compensation applies to the `i`-th of the compressed
/// layers with the given `(rank, rows, cols)`: every layer after the first
/// whose rank is below both dimensions; the others pass through.
pub open spec fn spec_compensated(layers: Seq<(usize, usize, usize)>, i: int) -> bool {
    let (rank, m, n) = layers[i];
    i > 0 && rank < m && rank < n
}

impl SedcCompressor {
    /// For each compressed layer, given as `(rank, rows, cols)` in order,
    /// whether residual error compensation is applied to it.
    pub fn rec_plan(&self, layers: &[(usize, usize, usize)]) -> (r: Vec<bool>)
        ensures
            r@.len() == layers@.len(),
            forall|i: int| 0 <= i < layers@.len() ==> #[trigger] r@[i] == spec_compensated(layers@, i),
    {
        let mut out: Vec<bool> = Vec::new();
        let mut i: usize = 0;
        while i < layers.len()
            invariant
                i <= layers@.len(),
                out@.len() == i,
                forall|j: int| 0 <= j < i ==> #[trigger] out@[j] == spec_compensated(layers@, j),
            decreases layers@.len() - i,
        {
            let (rank, m, n) = layers[i];
            let full = if m < n {
                m
            } else {
                n
            };
            out.push(i > 0 && rank < full);
            i = i + 1;
        }
        out
    }
}

/// Taken fusion pairs never share a layer, and every one lies inside the
/// model.
pub proof fn lemma_taken_pairs_disjoint(requests: Seq<(usize, usize)>, num_layers: int, k: int)
    requires
        0 <= k <= requests.len(),
    ensures
        forall|j: int|
            0 <= j < spec_taken_pairs(requests, num_layers, k).len() ==> #[trigger] spec_taken_pairs(
                requests,
                num_layers,
                k,
            )[j].0 + 1 < num_layers,
        forall|a: int, b: int|
            #![trigger spec_taken_pairs(requests, num_layers, k)[a], spec_taken_pairs(requests, num_layers, k)[b]]
            0 <= a < b < spec_taken_pairs(requests, num_layers, k).len() ==> {
                let p = spec_taken_pairs(requests, num_layers, k)[a].0 as int;
                let q = spec_taken_pairs(requests, num_layers, k)[b].0 as int;
                p + 1 < q || q + 1 < p
            },
    decreases k,
{
    if k > 0 {
        lemma_taken_pairs_disjoint(requests, num_layers, k - 1);
        let acc = spec_taken_pairs(requests, num_layers, k - 1);
        let (i, r) = requests[k - 1];
        let all = spec_taken_pairs(requests, num_layers, k);
        if !(i + 1 >= num_layers || covered(acc, i as int) || covered(acc, i + 1)) {
            assert(all == acc.push((i, r)));
            assert forall|a: int, b: int|
                #![trigger all[a], all[b]]
                0 <= a < b < all.len() implies {
                    let p = all[a].0 as int;
                    let q = all[b].0 as int;
                    p + 1 < q || q + 1 < p
                } by {
                if b == acc.len() {
                    assert(all[a] == acc[a]);
                    assert(all[b] == (i, r));
                    if !(acc[a].0 + 1 < i || i + 1 < acc[a].0) {
                        if acc[a].0 == i || acc[a].0 + 1 == i {
                            assert(covered(acc, i as int));
                        } else {
                            assert(acc[a].0 == i + 1);
                            assert(covered(acc, i + 1));
                        }
                    }
                } else {
                    assert(all[a] == acc[a]);
                    assert(all[b] == acc[b]);
                }
            }
            assert forall|j: int| 0 <= j < all.len() implies #[trigger] all[j].0 + 1 < num_layers by {
                if j < acc.len() {
                    assert(all[j] == acc[j]);
                }
            }
        }
    }
}

/// Names of the device pipelines of the compressor, in compile order.
pub open spec fn sedc_pipeline_names() -> Seq<Seq<char>> {
    seq![
        "sedc_randn"@,
        "sedc_qr"@,
        "sedc_jacobi_sweep"@,
        "sedc_sparsity_mask"@,
        "sedc_arq_sign"@,
        "sedc_arq_axpy"@,
        "sedc_str"@,
        "sedc_rec"@,
        "sedc_copy"@,
    ]
}

impl GpuContext {
    /// Compiles the compressor's pipelines, in compile order.
    pub fn compile_sedc_pipelines(&mut self)
        requires
            old(self).wf(),
        ensures
            registered(*old(self), *final(self), sedc_pipeline_names()),
    {
        let ghost p0 = self.pipeline_names();
        let ghost mut done: Seq<Seq<char>> = Seq::empty();
        self.compile_step("sedc_randn", Ghost(p0), Ghost(done));
        proof {
            done = done.push("sedc_randn"@);
        }
        self.compile_step("sedc_qr", Ghost(p0), Ghost(done));
        proof {
            done = done.push("sedc_qr"@);
        }
        self.compile_step("sedc_jacobi_sweep", Ghost(p0), Ghost(done));
        proof {
            done = done.push("sedc_jacobi_sweep"@);
        }
        self.compile_step("sedc_sparsity_mask", Ghost(p0), Ghost(done));
        proof {
            done = done.push("sedc_sparsity_mask"@);
        }
        self.compile_step("sedc_arq_sign", Ghost(p0), Ghost(done));
        proof {
            done = done.push("sedc_arq_sign"@);
        }
        self.compile_step("sedc_arq_axpy", Ghost(p0), Ghost(done));
        proof {
            done = done.push("sedc_arq_axpy"@);
        }
        self.compile_step("sedc_str", Ghost(p0), Ghost(done));
        proof {
            done = done.push("sedc_str"@);
        }
        self.compile_step("sedc_rec", Ghost(p0), Ghost(done));
        proof {
            done = done.push("sedc_rec"@);
        }
        self.compile_step("sedc_copy", Ghost(p0), Ghost(done));
        proof {
            done = done.push("sedc_copy"@);
        }
        proof {
            assert(done =~= sedc_pipeline_names());
        }
    }
}


/// Ranks of a randomized SVD of an `m x n` matrix: the kept rank
/// `min(target, m, n)` and the sketch rank `min(kept + oversamples, n, m)`.
pub open spec fn spec_svd_ranks(m: usize, n: usize, target_rank: usize, oversamples: usize) -> (int, int) {
    let mn = if m < n {
        m as int
    } else {
        n as int
    };
    let k = if target_rank < mn {
        target_rank as int
    } else {
        mn
    };
    let kp = k + oversamples;
    let r1 = if kp < n {
        kp
    } else {
        n as int
    };
    let rank = if r1 < m {
        r1
    } else {
        m as int
    };
    (k, rank)
}

/// The ranks of a randomized SVD of an `m x n` matrix: the kept rank is the
/// largest rank at most the target that the matrix has (at most `m` and `n`),
/// and the sketch rank is the largest at most the kept rank plus the
/// oversamples that still fits the matrix (at most `m` and `n`).
pub proof fn lemma_svd_ranks_fit_the_matrix(m: usize, n: usize, target_rank: usize, oversamples: usize)
    ensures
        ({
            let (k, rank) = spec_svd_ranks(m, n, target_rank, oversamples);
            &&& k <= target_rank && k <= m && k <= n
            &&& (k == target_rank || k == m || k == n)
            &&& rank <= k + oversamples && rank <= m && rank <= n
            &&& (rank == k + oversamples || rank == m || rank == n)
            &&& k <= rank || (rank == m || rank == n)
        }),
{
}

/// Workgroups and pair count of one Jacobi sweep over an `n x n` matrix.
#[derive(Debug, Clone, Copy, PartialEq, Eq, Structural)]
pub struct JacobiPlan {
    pub n_pairs: usize,
    pub groups: u32,
}

/// Dispatch sizes of residual quantization of a `d`-element vector.
#[derive(Debug, Clone, Copy, PartialEq, Eq, Structural)]
pub enum ArqPlan {
    /// Nothing to quantize: the vector is copied as its residual.
    CopyOnly { copy_groups: u32 },
    /// `bits` rounds of sign and update passes of `groups` workgroups each.
    Rounds { bits: usize, groups: u32 },
}

/// The pipeline `name` is compiled, else the error naming it.
pub open spec fn pipeline_result(pipelines: Seq<Seq<char>>, name: Seq<char>, r: Result<(), GpuError>) -> bool {
    if pipelines.contains(name) {
        r is Ok
    } else {
        r matches Err(GpuError::Pipeline(msg)) && msg@ == name + " not compiled"@
    }
}

/// `r` is the error reporting that pipeline `name` is not compiled.
pub open spec fn missing_pipeline<T>(name: Seq<char>, r: Result<T, GpuError>) -> bool {
    r matches Err(GpuError::Pipeline(msg)) && msg@ == name + " not compiled"@
}

/// `r` is the compressor error reporting that pipeline `name` is not
/// compiled.
pub open spec fn missing_pipeline_sedc<T>(name: Seq<char>, r: Result<T, SedcError>) -> bool {
    r matches Err(SedcError::Gpu(GpuError::Pipeline(msg))) && msg@ == name + " not compiled"@
}

impl GpuContext {
    /// Succeeds when pipeline `name` is compiled, else reports it missing.
    fn require_pipeline(&self, name: &str) -> (r: Result<(), GpuError>)
        ensures
            pipeline_result(self.pipeline_names(), name@, r),
    {
        if self.has_pipeline(name) {
            Ok(())
        } else {
            let mut msg = name.to_owned();
            msg.append(" not compiled");
            Err(GpuError::Pipeline(msg))
        }
    }

    /// Workgroups of the Gaussian fill of `n` elements, 256 per group; the
    /// fill pipeline must be compiled.
    pub fn randn_gpu(&self, n: u32) -> (r: Result<u32, GpuError>)
        ensures
            self.pipeline_names().contains("sedc_randn"@) ==> r == Ok::<u32, GpuError>(
                ceil_div(n as int, 256) as u32,
            ),
            !self.pipeline_names().contains("sedc_randn"@) ==> missing_pipeline("sedc_randn"@, r),
    {
        match self.require_pipeline("sedc_randn") {
            Ok(()) => Ok(ceil_div_u32(n, 256)),
            Err(e) => Err(e),
        }
    }

    /// Workgroups of the device copy of `numel` elements, 256 per group; the
    /// copy pipeline must be compiled.
    pub fn copy_buffer_gpu(&self, numel: u32) -> (r: Result<u32, GpuError>)
        ensures
            self.pipeline_names().contains("sedc_copy"@) ==> r == Ok::<u32, GpuError>(
                ceil_div(numel as int, 256) as u32,
            ),
            !self.pipeline_names().contains("sedc_copy"@) ==> missing_pipeline("sedc_copy"@, r),
    {
        match self.require_pipeline("sedc_copy") {
            Ok(()) => Ok(ceil_div_u32(numel, 256)),
            Err(e) => Err(e),
        }
    }

    /// Workgroups of the sparsity mask over `numel` elements; the mask
    /// pipeline must be compiled.
    pub fn sparsity_mask_gpu(&self, numel: u32) -> (r: Result<u32, GpuError>)
        ensures
            self.pipeline_names().contains("sedc_sparsity_mask"@) ==> r == Ok::<u32, GpuError>(
                ceil_div(numel as int, 256) as u32,
            ),
            !self.pipeline_names().contains("sedc_sparsity_mask"@) ==> missing_pipeline("sedc_sparsity_mask"@, r),
    {
        match self.require_pipeline("sedc_sparsity_mask") {
            Ok(()) => Ok(ceil_div_u32(numel, 256)),
            Err(e) => Err(e),
        }
    }

    /// Workgroups of the QR of an `m x n` matrix: the QR pipeline, then the
    /// copy of the input, must be compiled.
    pub fn qr_decomposition_gpu(&self, m: u32, n: u32) -> (r: Result<(u32, u32, u32), GpuError>)
        ensures
            !self.pipeline_names().contains("sedc_qr"@) ==> missing_pipeline("sedc_qr"@, r),
            self.pipeline_names().contains("sedc_qr"@) && !self.pipeline_names().contains(
                "sedc_copy"@,
            ) ==> missing_pipeline("sedc_copy"@, r),
            self.pipeline_names().contains("sedc_qr"@) && self.pipeline_names().contains("sedc_copy"@)
                ==> r == Ok::<(u32, u32, u32), GpuError>((ceil_div(m as int, 256) as u32, n, 1)),
    {
        match self.require_pipeline("sedc_qr") {
            Ok(()) => {},
            Err(e) => {
                return Err(e);
            },
        }
        let n_elems = m;
        match self.copy_buffer_gpu(n_elems) {
            Ok(_) => {},
            Err(e) => {
                return Err(e);
            },
        }
        Ok((ceil_div_u32(m, 256), n, 1))
    }

    /// Sweep sizes of the Jacobi eigendecomposition of an `n x n` matrix;
    /// `None` when `n <= 1`, which needs no sweep. The sweep pipeline, then the
    /// copy of the input, must be compiled.
    pub fn jacobi_eigen_gpu(&self, n: usize) -> (r: Result<Option<JacobiPlan>, SedcError>)
        requires
            n >= 1,
            n * (n - 1) <= usize::MAX,
        ensures
            n <= 1 ==> r matches Ok(None),
            n > 1 && !self.pipeline_names().contains("sedc_jacobi_sweep"@) ==> missing_pipeline_sedc(
                "sedc_jacobi_sweep"@,
                r,
            ),
            n > 1 && self.pipeline_names().contains("sedc_jacobi_sweep"@) && !self.pipeline_names().contains(
                "sedc_copy"@,
            ) ==> missing_pipeline_sedc("sedc_copy"@, r),
            n > 1 && self.pipeline_names().contains("sedc_jacobi_sweep"@) && self.pipeline_names().contains(
                "sedc_copy"@,
            ) ==> r == Ok::<Option<JacobiPlan>, SedcError>(
                Some(
                    JacobiPlan {
                        n_pairs: (n * (n - 1) / 2) as usize,
                        groups: ceil_div(((n * (n - 1) / 2) as usize as u32) as int, 64) as u32,
                    },
                ),
            ),
    {
        let n_pairs = n * (n - 1) / 2;
        if n <= 1 {
            return Ok(None);
        }
        match self.require_pipeline("sedc_jacobi_sweep") {
            Ok(()) => {},
            Err(e) => {
                return Err(SedcError::Gpu(e));
            },
        }
        match self.require_pipeline("sedc_copy") {
            Ok(()) => {},
            Err(e) => {
                return Err(SedcError::Gpu(e));
            },
        }
        Ok(Some(JacobiPlan { n_pairs, groups: ceil_div_u32(n_pairs as u32, 64) }))
    }

    /// Ranks of the randomized SVD of an `m x n` matrix: the kept rank and
    /// the sketch rank; an error when the sketch rank is zero.
    pub fn randomized_svd_gpu(&self, m: usize, n: usize, target_rank: usize, oversamples: usize) -> (r:
        Result<(usize, usize), SedcError>)
        requires
            spec_svd_ranks(m, n, target_rank, oversamples).0 + oversamples <= usize::MAX,
        ensures
            ({
                let (k, rank) = spec_svd_ranks(m, n, target_rank, oversamples);
                &&& rank == 0 ==> (r matches Err(SedcError::Svd(msg)) && msg@ == "target rank is 0"@)
                &&& rank != 0 ==> r == Ok::<(usize, usize), SedcError>((k as usize, rank as usize))
            }),
    {
        let mn = if m < n {
            m
        } else {
            n
        };
        let k = if target_rank < mn {
            target_rank
        } else {
            mn
        };
        let kp = k + oversamples;
        let r1 = if kp < n {
            kp
        } else {
            n
        };
        let rank = if r1 < m {
            r1
        } else {
            m
        };
        if rank == 0 {
            return Err(SedcError::Svd(String::from_str("target rank is 0")));
        }
        Ok((k, rank))
    }

    /// Dispatch sizes of residual quantization of a `d`-element vector into
    /// `bits` sign vectors: with nothing to quantize only the copy pipeline is
    /// needed; else the sign and update pipelines, then the copy.
    pub fn arq_quantize_gpu(&self, d: usize, bits: usize) -> (r: Result<ArqPlan, GpuError>)
        ensures
            d == 0 || bits == 0 ==> {
                &&& self.pipeline_names().contains("sedc_copy"@) ==> r == Ok::<ArqPlan, GpuError>(
                    ArqPlan::CopyOnly { copy_groups: ceil_div((d as u32) as int, 256) as u32 },
                )
                &&& !self.pipeline_names().contains("sedc_copy"@) ==> missing_pipeline("sedc_copy"@, r)
            },
            d != 0 && bits != 0 ==> {
                &&& !self.pipeline_names().contains("sedc_arq_sign"@) ==> missing_pipeline("sedc_arq_sign"@, r)
                &&& self.pipeline_names().contains("sedc_arq_sign"@) && !self.pipeline_names().contains(
                    "sedc_arq_axpy"@,
                ) ==> missing_pipeline("sedc_arq_axpy"@, r)
                &&& self.pipeline_names().contains("sedc_arq_sign"@) && self.pipeline_names().contains(
                    "sedc_arq_axpy"@,
                ) && !self.pipeline_names().contains("sedc_copy"@) ==> missing_pipeline("sedc_copy"@, r)
                &&& self.pipeline_names().contains("sedc_arq_sign"@) && self.pipeline_names().contains(
                    "sedc_arq_axpy"@,
                ) && self.pipeline_names().contains("sedc_copy"@) ==> r == Ok::<ArqPlan, GpuError>(
                    ArqPlan::Rounds { bits, groups: ceil_div((d as u32) as int, 256) as u32 },
                )
            },
    {
        if d == 0 || bits == 0 {
            return match self.copy_buffer_gpu(d as u32) {
                Ok(g) => Ok(ArqPlan::CopyOnly { copy_groups: g }),
                Err(e) => Err(e),
            };
        }
        match self.require_pipeline("sedc_arq_sign") {
            Ok(()) => {},
            Err(e) => {
                return Err(e);
            },
        }
        match self.require_pipeline("sedc_arq_axpy") {
            Ok(()) => {},
            Err(e) => {
                return Err(e);
            },
        }
        match self.copy_buffer_gpu(d as u32) {
            Ok(_) => {},
            Err(e) => {
                return Err(e);
            },
        }
        Ok(ArqPlan::Rounds { bits, groups: ceil_div_u32(d as u32, 256) })
    }

    /// Workgroups of error compensation over an `m x n` weight, 8 x 8 per
    /// group; the compensation pipeline must be compiled.
    pub fn rec_compensate_gpu(&self, m: u32, n: u32) -> (r: Result<(u32, u32, u32), SedcError>)
        ensures
            self.pipeline_names().contains("sedc_rec"@) ==> r == Ok::<(u32, u32, u32), SedcError>(
                (ceil_div(m as int, 8) as u32, ceil_div(n as int, 8) as u32, 1),
            ),
            !self.pipeline_names().contains("sedc_rec"@) ==> missing_pipeline_sedc("sedc_rec"@, r),
    {
        match self.require_pipeline("sedc_rec") {
            Ok(()) => Ok((ceil_div_u32(m, 8), ceil_div_u32(n, 8), 1)),
            Err(e) => Err(SedcError::Gpu(e)),
        }
    }

    /// Rank kept by spectral tensor routing of an `m x n` weight:
    /// `min(k, m, n)`.
    pub fn str_route_gpu(&self, m: usize, n: usize, k: usize) -> (r: usize)
        ensures
            r <= k && r <= m && r <= n,
            r == k || r == m || r == n,
    {
        let km = if k < m {
            k
        } else {
            m
        };
        if km < n {
            km
        } else {
            n
        }
    }
}

} // verus!
