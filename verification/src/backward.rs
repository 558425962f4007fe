//! Gradient formulas of the GPU backward pass.
//!
//! Each backward function returns the expression that the device evaluates
//! for each input gradient, in terms of the incoming gradient and the tensors
//! saved by the forward pass. Broadcast gradients are reduced back to the
//! operand's shape by a [`ReducePlan`] chosen from the two shapes.

use vstd::prelude::*;
use crate::context::{numel_prefix, products_fit, shape_numel};

verus! {

/// How a gradient is reduced to the shape of a broadcast operand.
#[derive(Debug, Clone, Copy, PartialEq, Eq, Structural)]
pub enum ReducePlan {
    /// Shapes already match: the gradient is used as it is.
    Identity,
    /// The target is a scalar (`[]` or `[1]`): sum of every element.
    FullSum,
    /// Bias pattern, target `[D]` from `[..., D]`: the gradient is viewed as
    /// `[rest, last]` and multiplied by a `[1, rest]` row of ones.
    AllButLast { rest: usize, last: usize },
    /// Any other broadcast: reduced on the host.
    CpuFallback,
}

/// A tensor saved by the forward pass.
#[derive(Debug, Clone, Copy, PartialEq, Eq, Structural)]
pub enum Saved {
    /// Left operand of a binary op.
    Lhs,
    /// Right operand of a binary op.
    Rhs,
    /// Input of a unary op.
    Input,
    /// Output of the forward op.
    Output,
    /// Logits of a cross-entropy loss.
    Logits,
    /// Class targets of a cross-entropy loss.
    Targets,
    /// Gradients of every replica, concatenated.
    ReplicaGrads,
    /// The exponent of a power op, a scalar.
    Exponent,
    /// The element count of a mean's input, a scalar.
    Count,
}

/// A constant scalar broadcast over the gradient's shape.
#[derive(Debug, Clone, Copy, PartialEq, Eq, Structural)]
pub enum Scalar {
    /// One half.
    Half,
    /// One.
    One,
    /// Two.
    Two,
    /// The cubic coefficient inside the GELU approximation's tanh.
    GeluCubic,
    /// The scale of the tanh argument of the GELU approximation, as the
    /// forward pass uses it.
    GeluTanhScale,
    /// Three times the cubic coefficient: the slope term of the GELU
    /// approximation's derivative.
    GeluCubicSlope,
}

/// A device computation producing a gradient tensor.
#[derive(Debug)]
pub enum GradExpr {
    /// The incoming gradient.
    Grad,
    /// A tensor saved by the forward pass.
    Saved(Saved),
    /// Element-wise negation.
    Neg(Box<GradExpr>),
    /// Element-wise product.
    Mul(Box<GradExpr>, Box<GradExpr>),
    /// Element-wise quotient.
    Div(Box<GradExpr>, Box<GradExpr>),
    /// Matrix product.
    MatMul(Box<GradExpr>, Box<GradExpr>),
    /// Transpose of the last two dimensions.
    Transpose(Box<GradExpr>),
    /// Element-wise `x > 0` as 1 or 0.
    Step(Box<GradExpr>),
    /// Softmax over the last dimension.
    Softmax(Box<GradExpr>),
    /// Fused `grad * (softmax - one_hot(targets))`.
    CrossEntropyGrad { softmax: Box<GradExpr>, grad: Box<GradExpr>, targets: Box<GradExpr> },
    /// Mean over the given number of replica slices.
    ReplicaMean(Box<GradExpr>, u32),
    /// Reduction to a broadcast operand's shape.
    Reduce(ReducePlan, Box<GradExpr>),
    /// A constant.
    Const(Scalar),
    /// Element-wise sum.
    Add(Box<GradExpr>, Box<GradExpr>),
    /// Element-wise difference.
    Sub(Box<GradExpr>, Box<GradExpr>),
    /// Element-wise tanh.
    Tanh(Box<GradExpr>),
    /// Element-wise logistic sigmoid.
    Sigmoid(Box<GradExpr>),
    /// Sum over the last dimension, kept as a dimension of one.
    RowSum(Box<GradExpr>),
    /// A tensor of the given shape filled with the first element of the
    /// expression.
    Fill(Box<GradExpr>, Vec<usize>),
}

/// The target is a scalar shape: `[]` or `[1]`.
pub open spec fn is_scalar_target(target: Seq<usize>) -> bool {
    target.len() == 0 || (target.len() == 1 && target[0] == 1)
}

/// The target is `[D]` and the tensor is `[..., D]` with at least two dims.
pub open spec fn is_bias_target(t: Seq<usize>, target: Seq<usize>) -> bool {
    &&& target.len() == 1
    &&& t.len() > 1
    &&& target[0] == t.last()
}

/// The plan that reduces a tensor of shape `t` to shape `target`.
pub open spec fn spec_reduce_plan(t: Seq<usize>, target: Seq<usize>) -> ReducePlan {
    if t == target {
        ReducePlan::Identity
    } else if is_scalar_target(target) {
        ReducePlan::FullSum
    } else if is_bias_target(t, target) {
        ReducePlan::AllButLast { rest: shape_numel(t.drop_last()) as usize, last: t.last() }
    } else {
        ReducePlan::CpuFallback
    }
}

/// What a reduction needs of the tensor's shape: in the bias pattern, the
/// product of all but the last dimension, which the reduction computes,
/// fits in a `usize`.
pub open spec fn reducible(t: Seq<usize>, target: Seq<usize>) -> bool {
    t != target && !is_scalar_target(target) && is_bias_target(t, target) ==> products_fit(
        t.drop_last(),
    )
}

/// Gradient of an operand of shape `shape` from a gradient of shape `grad`:
/// the gradient itself when the shapes match, else its reduction.
pub open spec fn spec_grad_to(shape: Seq<usize>, grad: Seq<usize>) -> GradExpr {
    if shape == grad {
        GradExpr::Grad
    } else {
        GradExpr::Reduce(spec_reduce_plan(grad, shape), Box::new(GradExpr::Grad))
    }
}

/// Whether two shapes are equal.
pub fn shapes_equal(a: &[usize], b: &[usize]) -> (r: bool)
    ensures
        r == (a@ == b@),
{
    if a.len() != b.len() {
        return false;
    }
    let mut i: usize = 0;
    while i < a.len()
        invariant
            a@.len() == b@.len(),
            i <= a@.len(),
            forall|j: int| 0 <= j < i ==> a@[j] == b@[j],
        decreases a@.len() - i,
    {
        if a[i] != b[i] {
            return false;
        }
        i = i + 1;
    }
    proof {
        assert(a@ =~= b@);
    }
    true
}

/// Plan for reducing a gradient of shape `t_shape` to `target_shape`.
pub fn reduce_to_shape(t_shape: &[usize], target_shape: &[usize]) -> (r: ReducePlan)
    requires
        reducible(t_shape@, target_shape@),
    ensures
        r == spec_reduce_plan(t_shape@, target_shape@),
{
    if shapes_equal(t_shape, target_shape) {
        return ReducePlan::Identity;
    }
    if target_shape.len() == 0 || (target_shape.len() == 1 && target_shape[0] == 1) {
        return ReducePlan::FullSum;
    }
    if target_shape.len() == 1 && t_shape.len() > 1 && target_shape[0] == t_shape[t_shape.len() - 1] {
        let last = t_shape[t_shape.len() - 1];
        proof {
            assert(t_shape@.take(t_shape@.len() - 1) =~= t_shape@.drop_last());
        }
        let rest = numel_prefix(t_shape, t_shape.len() - 1);
        return ReducePlan::AllButLast { rest, last };
    }
    ReducePlan::CpuFallback
}

/// Gradient for an operand of `shape` from a gradient of `grad_shape`.
fn grad_to(shape: &[usize], grad_shape: &[usize]) -> (r: GradExpr)
    requires
        reducible(grad_shape@, shape@),
    ensures
        r == spec_grad_to(shape@, grad_shape@),
{
    if shapes_equal(shape, grad_shape) {
        GradExpr::Grad
    } else {
        GradExpr::Reduce(reduce_to_shape(grad_shape, shape), Box::new(GradExpr::Grad))
    }
}

/// Element-wise negation of a gradient.
fn neg(e: GradExpr) -> (r: GradExpr)
    ensures
        r == GradExpr::Neg(Box::new(e)),
{
    GradExpr::Neg(Box::new(e))
}

/// `C = A @ B`: `dA = grad @ Bᵀ`, `dB = Aᵀ @ grad`.
pub fn matmul_backward() -> (r: (GradExpr, GradExpr))
    ensures
        r.0 == GradExpr::MatMul(
            Box::new(GradExpr::Grad),
            Box::new(GradExpr::Transpose(Box::new(GradExpr::Saved(Saved::Rhs)))),
        ),
        r.1 == GradExpr::MatMul(
            Box::new(GradExpr::Transpose(Box::new(GradExpr::Saved(Saved::Lhs)))),
            Box::new(GradExpr::Grad),
        ),
{
    let da = GradExpr::MatMul(
        Box::new(GradExpr::Grad),
        Box::new(GradExpr::Transpose(Box::new(GradExpr::Saved(Saved::Rhs)))),
    );
    let db = GradExpr::MatMul(
        Box::new(GradExpr::Transpose(Box::new(GradExpr::Saved(Saved::Lhs)))),
        Box::new(GradExpr::Grad),
    );
    (da, db)
}

/// Gradients of `C = A + B` for operands of shapes `a` and `b` and a
/// gradient of shape `g`.
pub open spec fn spec_add_backward(a: Seq<usize>, b: Seq<usize>, g: Seq<usize>) -> (GradExpr, GradExpr) {
    (spec_grad_to(a, g), spec_grad_to(b, g))
}

/// Gradients of `C = A - B` for operands of shapes `a` and `b` and a
/// gradient of shape `g`.
pub open spec fn spec_sub_backward(a: Seq<usize>, b: Seq<usize>, g: Seq<usize>) -> (GradExpr, GradExpr) {
    (spec_grad_to(a, g), GradExpr::Neg(Box::new(spec_grad_to(b, g))))
}

/// `C = A + B` with broadcasting: each operand receives the gradient,
/// reduced to its own shape where that differs from the gradient's. The
/// bias reduction multiplies out all but the last dimension of the
/// gradient's shape, which must fit in a `usize`.
pub fn add_backward(a_shape: &[usize], b_shape: &[usize], grad_shape: &[usize]) -> (r: (
    GradExpr,
    GradExpr,
))
    requires
        reducible(grad_shape@, a_shape@),
        reducible(grad_shape@, b_shape@),
    ensures
        r == spec_add_backward(a_shape@, b_shape@, grad_shape@),
{
    (grad_to(a_shape, grad_shape), grad_to(b_shape, grad_shape))
}

/// `C = A - B` with broadcasting: as for addition, with `dB` negated.
pub fn sub_backward(a_shape: &[usize], b_shape: &[usize], grad_shape: &[usize]) -> (r: (
    GradExpr,
    GradExpr,
))
    requires
        reducible(grad_shape@, a_shape@),
        reducible(grad_shape@, b_shape@),
    ensures
        r == spec_sub_backward(a_shape@, b_shape@, grad_shape@),
{
    let (da, db_pos) = add_backward(a_shape, b_shape, grad_shape);
    (da, neg(db_pos))
}

/// The gradients of a subtraction are those of the addition on the same
/// shapes, with the second one negated; this holds for every pair of
/// shapes.
pub proof fn lemma_sub_backward_is_negated_add(a: Seq<usize>, b: Seq<usize>, g: Seq<usize>)
    ensures
        spec_sub_backward(a, b, g).0 == spec_add_backward(a, b, g).0,
        spec_sub_backward(a, b, g).1 == GradExpr::Neg(Box::new(spec_add_backward(a, b, g).1)),
{
}

/// Gradients of `C = A * B`: `grad * B` and `grad * A`.
pub open spec fn spec_mul_backward() -> (GradExpr, GradExpr) {
    (
        GradExpr::Mul(Box::new(GradExpr::Grad), Box::new(GradExpr::Saved(Saved::Rhs))),
        GradExpr::Mul(Box::new(GradExpr::Grad), Box::new(GradExpr::Saved(Saved::Lhs))),
    )
}

/// Gradient of `y = exp(x)`: `grad * y`.
pub open spec fn spec_exp_backward() -> GradExpr {
    GradExpr::Mul(Box::new(GradExpr::Grad), Box::new(GradExpr::Saved(Saved::Output)))
}

/// Gradient of `y = -x`: `-grad`.
pub open spec fn spec_neg_backward() -> GradExpr {
    GradExpr::Neg(Box::new(GradExpr::Grad))
}

/// Gradient of `y = relu(x)`: `grad * step(x)`.
pub open spec fn spec_relu_backward() -> GradExpr {
    GradExpr::Mul(Box::new(GradExpr::Grad), Box::new(GradExpr::Step(Box::new(GradExpr::Saved(Saved::Input)))))
}

/// `C = A * B`: `dA = grad * B`, `dB = grad * A`.
pub fn mul_backward() -> (r: (GradExpr, GradExpr))
    ensures
        r == spec_mul_backward(),
{
    (
        GradExpr::Mul(Box::new(GradExpr::Grad), Box::new(GradExpr::Saved(Saved::Rhs))),
        GradExpr::Mul(Box::new(GradExpr::Grad), Box::new(GradExpr::Saved(Saved::Lhs))),
    )
}

/// `C = A / B`: `dA = grad / B`, `dB = (-grad * C) / B`.
pub fn div_backward() -> (r: (GradExpr, GradExpr))
    ensures
        r.0 == GradExpr::Div(Box::new(GradExpr::Grad), Box::new(GradExpr::Saved(Saved::Rhs))),
        r.1 == GradExpr::Div(
            Box::new(
                GradExpr::Mul(
                    Box::new(GradExpr::Neg(Box::new(GradExpr::Grad))),
                    Box::new(GradExpr::Saved(Saved::Output)),
                ),
            ),
            Box::new(GradExpr::Saved(Saved::Rhs)),
        ),
{
    let da = GradExpr::Div(Box::new(GradExpr::Grad), Box::new(GradExpr::Saved(Saved::Rhs)));
    let neg_grad = neg(GradExpr::Grad);
    let db_numer = GradExpr::Mul(Box::new(neg_grad), Box::new(GradExpr::Saved(Saved::Output)));
    let db = GradExpr::Div(Box::new(db_numer), Box::new(GradExpr::Saved(Saved::Rhs)));
    (da, db)
}

/// `y = exp(x)`: `dx = grad * y`.
pub fn exp_backward() -> (r: GradExpr)
    ensures
        r == spec_exp_backward(),
{
    GradExpr::Mul(Box::new(GradExpr::Grad), Box::new(GradExpr::Saved(Saved::Output)))
}

/// `y = ln(x)`: `dx = grad / x`.
pub fn ln_backward() -> (r: GradExpr)
    ensures
        r == GradExpr::Div(Box::new(GradExpr::Grad), Box::new(GradExpr::Saved(Saved::Input))),
{
    GradExpr::Div(Box::new(GradExpr::Grad), Box::new(GradExpr::Saved(Saved::Input)))
}

/// `y = -x`: `dx = -grad`.
pub fn neg_backward() -> (r: GradExpr)
    ensures
        r == spec_neg_backward(),
{
    neg(GradExpr::Grad)
}

/// `y = relu(x)`: `dx = grad * step(x)`.
pub fn relu_backward() -> (r: GradExpr)
    ensures
        r == spec_relu_backward(),
{
    let mask = GradExpr::Step(Box::new(GradExpr::Saved(Saved::Input)));
    GradExpr::Mul(Box::new(GradExpr::Grad), Box::new(mask))
}

/// Cross-entropy over logits: `d_logits = grad * (softmax(logits) - one_hot(targets))`.
pub fn cross_entropy_backward_gpu() -> (r: GradExpr)
    ensures
        r == (GradExpr::CrossEntropyGrad {
            softmax: Box::new(GradExpr::Softmax(Box::new(GradExpr::Saved(Saved::Logits)))),
            grad: Box::new(GradExpr::Grad),
            targets: Box::new(GradExpr::Saved(Saved::Targets)),
        }),
{
    let softmax = GradExpr::Softmax(Box::new(GradExpr::Saved(Saved::Logits)));
    GradExpr::CrossEntropyGrad {
        softmax: Box::new(softmax),
        grad: Box::new(GradExpr::Grad),
        targets: Box::new(GradExpr::Saved(Saved::Targets)),
    }
}

/// Average of the gradients of `num_replicas` model replicas, laid out one
/// after the other in one buffer.
pub fn gradient_allreduce_gpu(num_replicas: u32) -> (r: GradExpr)
    ensures
        r == GradExpr::ReplicaMean(Box::new(GradExpr::Saved(Saved::ReplicaGrads)), num_replicas),
{
    GradExpr::ReplicaMean(Box::new(GradExpr::Saved(Saved::ReplicaGrads)), num_replicas)
}

/// `y = sqrt(x)`: `dx = grad / (2 * y)`.
pub fn sqrt_backward() -> (r: GradExpr)
    ensures
        r == GradExpr::Div(
            Box::new(GradExpr::Grad),
            Box::new(GradExpr::Mul(Box::new(GradExpr::Const(Scalar::Two)), Box::new(GradExpr::Saved(Saved::Output)))),
        ),
{
    let denom = GradExpr::Mul(Box::new(GradExpr::Const(Scalar::Two)), Box::new(GradExpr::Saved(Saved::Output)));
    GradExpr::Div(Box::new(GradExpr::Grad), Box::new(denom))
}

/// `y = x^p`: `dx = grad * p * (y / x)`.
pub fn powf_backward() -> (r: GradExpr)
    ensures
        r == GradExpr::Mul(
            Box::new(GradExpr::Mul(Box::new(GradExpr::Grad), Box::new(GradExpr::Saved(Saved::Exponent)))),
            Box::new(GradExpr::Div(Box::new(GradExpr::Saved(Saved::Output)), Box::new(GradExpr::Saved(Saved::Input)))),
        ),
{
    let x_pow = GradExpr::Div(Box::new(GradExpr::Saved(Saved::Output)), Box::new(GradExpr::Saved(Saved::Input)));
    let scaled = GradExpr::Mul(Box::new(GradExpr::Grad), Box::new(GradExpr::Saved(Saved::Exponent)));
    GradExpr::Mul(Box::new(scaled), Box::new(x_pow))
}

/// Gradient of `y = tanh(x)`: `grad * (1 - y * y)`.
pub open spec fn spec_tanh_backward() -> GradExpr {
    GradExpr::Mul(
        Box::new(GradExpr::Grad),
        Box::new(
            GradExpr::Sub(
                Box::new(GradExpr::Const(Scalar::One)),
                Box::new(GradExpr::Mul(Box::new(GradExpr::Saved(Saved::Output)), Box::new(GradExpr::Saved(Saved::Output)))),
            ),
        ),
    )
}

/// `y = tanh(x)`: `dx = grad * (1 - y * y)`.
pub fn tanh_backward() -> (r: GradExpr)
    ensures
        r == spec_tanh_backward(),
{
    let r_sq = GradExpr::Mul(Box::new(GradExpr::Saved(Saved::Output)), Box::new(GradExpr::Saved(Saved::Output)));
    let one_minus = GradExpr::Sub(Box::new(GradExpr::Const(Scalar::One)), Box::new(r_sq));
    GradExpr::Mul(Box::new(GradExpr::Grad), Box::new(one_minus))
}

/// Gradient of `y = sigmoid(x)`: `grad * (y * (1 - y))`.
pub open spec fn spec_sigmoid_backward() -> GradExpr {
    GradExpr::Mul(
        Box::new(GradExpr::Grad),
        Box::new(
            GradExpr::Mul(
                Box::new(GradExpr::Saved(Saved::Output)),
                Box::new(GradExpr::Sub(Box::new(GradExpr::Const(Scalar::One)), Box::new(GradExpr::Saved(Saved::Output)))),
            ),
        ),
    )
}

/// `y = sigmoid(x)`: `dx = grad * (y * (1 - y))`.
pub fn sigmoid_backward() -> (r: GradExpr)
    ensures
        r == spec_sigmoid_backward(),
{
    let one_minus = GradExpr::Sub(Box::new(GradExpr::Const(Scalar::One)), Box::new(GradExpr::Saved(Saved::Output)));
    let local = GradExpr::Mul(Box::new(GradExpr::Saved(Saved::Output)), Box::new(one_minus));
    GradExpr::Mul(Box::new(GradExpr::Grad), Box::new(local))
}

/// `sigmoid(x)` of the saved input.
pub open spec fn spec_sig_input() -> GradExpr {
    GradExpr::Sigmoid(Box::new(GradExpr::Saved(Saved::Input)))
}

fn sig_input() -> (r: GradExpr)
    ensures
        r == spec_sig_input(),
{
    GradExpr::Sigmoid(Box::new(GradExpr::Saved(Saved::Input)))
}

/// Gradient of `y = x * sigmoid(x)`: `dx = grad * (s + (x * s) * (1 - s))`
/// with `s = sigmoid(x)`.
pub open spec fn spec_silu_backward() -> GradExpr {
    GradExpr::Mul(
        Box::new(GradExpr::Grad),
        Box::new(
            GradExpr::Add(
                Box::new(spec_sig_input()),
                Box::new(
                    GradExpr::Mul(
                        Box::new(GradExpr::Mul(Box::new(GradExpr::Saved(Saved::Input)), Box::new(spec_sig_input()))),
                        Box::new(GradExpr::Sub(Box::new(GradExpr::Const(Scalar::One)), Box::new(spec_sig_input()))),
                    ),
                ),
            ),
        ),
    )
}

/// `y = silu(x) = x * sigmoid(x)`: `dx = grad * (s + x * s * (1 - s))`.
pub fn silu_backward() -> (r: GradExpr)
    ensures
        r == spec_silu_backward(),
{
    let one_minus = GradExpr::Sub(Box::new(GradExpr::Const(Scalar::One)), Box::new(sig_input()));
    let x_sig = GradExpr::Mul(Box::new(GradExpr::Saved(Saved::Input)), Box::new(sig_input()));
    let term2 = GradExpr::Mul(Box::new(x_sig), Box::new(one_minus));
    let local = GradExpr::Add(Box::new(sig_input()), Box::new(term2));
    GradExpr::Mul(Box::new(GradExpr::Grad), Box::new(local))
}

/// `t = tanh(c * (x + k * x^3))` of the GELU approximation, with `c` its
/// tanh scale and `k` its cubic coefficient.
pub open spec fn spec_gelu_tanh() -> GradExpr {
    let x = GradExpr::Saved(Saved::Input);
    let x_cu = GradExpr::Mul(Box::new(GradExpr::Mul(Box::new(x), Box::new(x))), Box::new(x));
    let inner = GradExpr::Add(
        Box::new(x),
        Box::new(GradExpr::Mul(Box::new(x_cu), Box::new(GradExpr::Const(Scalar::GeluCubic)))),
    );
    GradExpr::Tanh(Box::new(GradExpr::Mul(Box::new(GradExpr::Const(Scalar::GeluTanhScale)), Box::new(inner))))
}

fn gelu_tanh() -> (r: GradExpr)
    ensures
        r == spec_gelu_tanh(),
{
    let x_sq = GradExpr::Mul(Box::new(GradExpr::Saved(Saved::Input)), Box::new(GradExpr::Saved(Saved::Input)));
    let x_cu = GradExpr::Mul(Box::new(x_sq), Box::new(GradExpr::Saved(Saved::Input)));
    let x3_scaled = GradExpr::Mul(Box::new(x_cu), Box::new(GradExpr::Const(Scalar::GeluCubic)));
    let inner = GradExpr::Add(Box::new(GradExpr::Saved(Saved::Input)), Box::new(x3_scaled));
    let arg = GradExpr::Mul(Box::new(GradExpr::Const(Scalar::GeluTanhScale)), Box::new(inner));
    GradExpr::Tanh(Box::new(arg))
}

/// Gradient of the GELU approximation `y = x/2 * (1 + t)`:
/// `dx = grad * (1/2 * (1 + t) + ((1/2 * x) * (1 - t*t)) * c * (1 + 3k * x*x))`.
pub open spec fn spec_gelu_backward() -> GradExpr {
    let x = GradExpr::Saved(Saved::Input);
    let one = GradExpr::Const(Scalar::One);
    let half = GradExpr::Const(Scalar::Half);
    let t = spec_gelu_tanh();
    let sech2 = GradExpr::Sub(Box::new(one), Box::new(GradExpr::Mul(Box::new(t), Box::new(t))));
    let term1 = GradExpr::Mul(Box::new(half), Box::new(GradExpr::Add(Box::new(one), Box::new(t))));
    let one_px_sq = GradExpr::Add(
        Box::new(one),
        Box::new(
            GradExpr::Mul(
                Box::new(GradExpr::Const(Scalar::GeluCubicSlope)),
                Box::new(GradExpr::Mul(Box::new(x), Box::new(x))),
            ),
        ),
    );
    let term2 = GradExpr::Mul(
        Box::new(
            GradExpr::Mul(
                Box::new(GradExpr::Mul(Box::new(GradExpr::Mul(Box::new(half), Box::new(x))), Box::new(sech2))),
                Box::new(GradExpr::Const(Scalar::GeluTanhScale)),
            ),
        ),
        Box::new(one_px_sq),
    );
    GradExpr::Mul(Box::new(GradExpr::Grad), Box::new(GradExpr::Add(Box::new(term1), Box::new(term2))))
}

/// `y = gelu(x)` in its tanh approximation: `dx = grad * gelu'(x)`, built
/// from element-wise device ops.
pub fn gelu_backward() -> (r: GradExpr)
    ensures
        r == spec_gelu_backward(),
{
    let t_sq = GradExpr::Mul(Box::new(gelu_tanh()), Box::new(gelu_tanh()));
    let sech2 = GradExpr::Sub(Box::new(GradExpr::Const(Scalar::One)), Box::new(t_sq));
    let one_plus_t = GradExpr::Add(Box::new(GradExpr::Const(Scalar::One)), Box::new(gelu_tanh()));
    let term1 = GradExpr::Mul(Box::new(GradExpr::Const(Scalar::Half)), Box::new(one_plus_t));
    let x_sq = GradExpr::Mul(Box::new(GradExpr::Saved(Saved::Input)), Box::new(GradExpr::Saved(Saved::Input)));
    let px_sq = GradExpr::Mul(Box::new(GradExpr::Const(Scalar::GeluCubicSlope)), Box::new(x_sq));
    let one_px_sq = GradExpr::Add(Box::new(GradExpr::Const(Scalar::One)), Box::new(px_sq));
    let term2a = GradExpr::Mul(Box::new(GradExpr::Const(Scalar::Half)), Box::new(GradExpr::Saved(Saved::Input)));
    let term2b = GradExpr::Mul(Box::new(term2a), Box::new(sech2));
    let term2c = GradExpr::Mul(Box::new(term2b), Box::new(GradExpr::Const(Scalar::GeluTanhScale)));
    let term2 = GradExpr::Mul(Box::new(term2c), Box::new(one_px_sq));
    let local = GradExpr::Add(Box::new(term1), Box::new(term2));
    GradExpr::Mul(Box::new(GradExpr::Grad), Box::new(local))
}

/// Softmax over the last dimension, `s` its saved output:
/// `dx = s * (grad - rowsum(s * grad))`.
pub fn softmax_backward_last_dim() -> (r: GradExpr)
    ensures
        r == GradExpr::Mul(
            Box::new(GradExpr::Saved(Saved::Output)),
            Box::new(
                GradExpr::Sub(
                    Box::new(GradExpr::Grad),
                    Box::new(
                        GradExpr::RowSum(
                            Box::new(GradExpr::Mul(Box::new(GradExpr::Saved(Saved::Output)), Box::new(GradExpr::Grad))),
                        ),
                    ),
                ),
            ),
        ),
{
    let sg = GradExpr::Mul(Box::new(GradExpr::Saved(Saved::Output)), Box::new(GradExpr::Grad));
    let sum_sg = GradExpr::RowSum(Box::new(sg));
    let g_minus = GradExpr::Sub(Box::new(GradExpr::Grad), Box::new(sum_sg));
    GradExpr::Mul(Box::new(GradExpr::Saved(Saved::Output)), Box::new(g_minus))
}

/// A copy of a shape.
fn copy_shape(shape: &[usize]) -> (r: Vec<usize>)
    ensures
        r@ == shape@,
{
    let mut out: Vec<usize> = Vec::new();
    let mut i: usize = 0;
    while i < shape.len()
        invariant
            i <= shape@.len(),
            out@ == shape@.take(i as int),
        decreases shape@.len() - i,
    {
        out.push(shape[i]);
        i = i + 1;
        proof {
            assert(out@ =~= shape@.take(i as int));
        }
    }
    proof {
        assert(shape@.take(i as int) =~= shape@);
    }
    out
}

/// A full sum of a tensor of shape `orig_shape`: every input element gets
/// the (scalar) gradient.
pub fn sum_backward(orig_shape: &[usize]) -> (r: GradExpr)
    ensures
        r matches GradExpr::Fill(e, s) && *e == GradExpr::Grad && s@ == orig_shape@,
{
    GradExpr::Fill(Box::new(GradExpr::Grad), copy_shape(orig_shape))
}

/// A mean of a tensor of shape `orig_shape`: every input element gets the
/// (scalar) gradient divided by the element count.
pub fn mean_backward(orig_shape: &[usize]) -> (r: GradExpr)
    ensures
        r matches GradExpr::Fill(e, s) && *e == GradExpr::Div(
            Box::new(GradExpr::Grad),
            Box::new(GradExpr::Saved(Saved::Count)),
        ) && s@ == orig_shape@,
{
    let per = GradExpr::Div(Box::new(GradExpr::Grad), Box::new(GradExpr::Saved(Saved::Count)));
    GradExpr::Fill(Box::new(per), copy_shape(orig_shape))
}

/// The values one element of a gradient computation sees: the incoming
/// gradient, the saved tensors, the non-integer constants, and the
/// element-wise functions `tanh` and `sigmoid`.
pub struct ElementValues {
    pub grad: int,
    pub lhs: int,
    pub rhs: int,
    pub input: int,
    pub output: int,
    pub exponent: int,
    pub count: int,
    pub half: int,
    pub gelu_cubic: int,
    pub gelu_tanh_scale: int,
    pub gelu_cubic_slope: int,
    pub tanh: spec_fn(int) -> int,
    pub sigmoid: spec_fn(int) -> int,
}

/// The value at one element of an element-wise gradient expression. Forms
/// that mix elements (matrix products, row sums, reductions, fills and the
/// cross-entropy and replica forms) are outside this reading and give 0.
pub open spec fn element_value(e: GradExpr, v: ElementValues) -> int
    decreases e,
{
    match e {
        GradExpr::Grad => v.grad,
        GradExpr::Saved(s) => match s {
            Saved::Lhs => v.lhs,
            Saved::Rhs => v.rhs,
            Saved::Input => v.input,
            Saved::Output => v.output,
            Saved::Exponent => v.exponent,
            Saved::Count => v.count,
            _ => 0,
        },
        GradExpr::Const(c) => match c {
            Scalar::Half => v.half,
            Scalar::One => 1,
            Scalar::Two => 2,
            Scalar::GeluCubic => v.gelu_cubic,
            Scalar::GeluTanhScale => v.gelu_tanh_scale,
            Scalar::GeluCubicSlope => v.gelu_cubic_slope,
        },
        GradExpr::Neg(a) => -element_value(*a, v),
        GradExpr::Mul(a, b) => element_value(*a, v) * element_value(*b, v),
        GradExpr::Div(a, b) => element_value(*a, v) / element_value(*b, v),
        GradExpr::Add(a, b) => element_value(*a, v) + element_value(*b, v),
        GradExpr::Sub(a, b) => element_value(*a, v) - element_value(*b, v),
        GradExpr::Tanh(a) => (v.tanh)(element_value(*a, v)),
        GradExpr::Sigmoid(a) => (v.sigmoid)(element_value(*a, v)),
        GradExpr::Step(a) => if element_value(*a, v) > 0 {
            1
        } else {
            0
        },
        _ => 0,
    }
}

/// `y = tanh(x)` has derivative `1 - tanh(x)^2`: with `y` the saved output,
/// the gradient is `grad * (1 - y^2)`.
pub proof fn lemma_tanh_backward_is_derivative(v: ElementValues)
    ensures
        element_value(spec_tanh_backward(), v) == v.grad * (1 - v.output * v.output),
{
    reveal_with_fuel(element_value, 5);
}

/// `y = sigmoid(x)` has derivative `sigmoid(x) * (1 - sigmoid(x))`: with
/// `y` the saved output, the gradient is `grad * y * (1 - y)`.
pub proof fn lemma_sigmoid_backward_is_derivative(v: ElementValues)
    ensures
        element_value(spec_sigmoid_backward(), v) == v.grad * v.output * (1 - v.output),
{
    reveal_with_fuel(element_value, 5);
    assert(v.grad * (v.output * (1 - v.output)) == v.grad * v.output * (1 - v.output)) by (nonlinear_arith);
}

/// `silu(x) = x * sigmoid(x)`: by the product rule and the sigmoid
/// derivative, its gradient is `grad * (s + x * s * (1 - s))` with
/// `s = sigmoid(x)`; the sigmoid-derivative part is the sigmoid gradient at
/// output `s` for a unit incoming gradient.
pub proof fn lemma_silu_backward_is_derivative(v: ElementValues)
    ensures
        ({
            let x = v.input;
            let s = (v.sigmoid)(x);
            &&& element_value(spec_silu_backward(), v) == v.grad * (s + x * s * (1 - s))
            &&& element_value(spec_silu_backward(), v) == v.grad * (s + x * element_value(
                spec_sigmoid_backward(),
                ElementValues { grad: 1, output: s, ..v },
            ))
        }),
{
    reveal_with_fuel(element_value, 6);
    let x = v.input;
    let s = (v.sigmoid)(x);
    assert(element_value(spec_sig_input(), v) == s);
    assert(element_value(spec_silu_backward(), v) == v.grad * (s + (x * s) * (1 - s)));
    assert((x * s) * (1 - s) == x * s * (1 - s)) by (nonlinear_arith);
    lemma_sigmoid_backward_is_derivative(ElementValues { grad: 1, output: s, ..v });
    assert(1 * s * (1 - s) == s * (1 - s)) by (nonlinear_arith);
    assert(x * (s * (1 - s)) == x * s * (1 - s)) by (nonlinear_arith);
}

/// The tanh approximation of GELU is `gelu(x) = h * x * (1 + t)` with
/// `t = tanh(u)`, `u = c * (x + k * x^3)` (`h` one half, `c` the tanh scale,
/// `k` the cubic coefficient). Its derivative, by the product and chain rules
/// with `tanh' = 1 - tanh^2` and `u' = c * (1 + 3k * x^2)`, is
/// `h * (1 + t) + h * x * (1 - t^2) * u'`; when the slope constant is `3k`,
/// the gradient is `grad` times that.
pub proof fn lemma_gelu_backward_is_derivative(v: ElementValues)
    requires
        v.gelu_cubic_slope == 3 * v.gelu_cubic,
    ensures
        ({
            let x = v.input;
            let h = v.half;
            let c = v.gelu_tanh_scale;
            let k = v.gelu_cubic;
            let t = (v.tanh)(c * (x + k * (x * x * x)));
            let du = c * (1 + 3 * k * (x * x));
            element_value(spec_gelu_backward(), v) == v.grad * (h * (1 + t) + h * x * (1 - t * t) * du)
        }),
{
    reveal_with_fuel(element_value, 8);
    let x = v.input;
    let h = v.half;
    let c = v.gelu_tanh_scale;
    let k = v.gelu_cubic;
    let u = c * (x + ((x * x) * x) * k);
    assert(c * (x + k * (x * x * x)) == u) by (nonlinear_arith)
        requires
            u == c * (x + ((x * x) * x) * k),
    ;
    let t = (v.tanh)(u);
    assert(element_value(spec_gelu_tanh(), v) == t);
    let sl = v.gelu_cubic_slope;
    let term1 = h * (1 + t);
    let term2 = (((h * x) * (1 - t * t)) * c) * (1 + sl * (x * x));
    assert(element_value(spec_gelu_backward(), v) == v.grad * (term1 + term2));
    assert(term2 == h * x * (1 - t * t) * (c * (1 + 3 * k * (x * x)))) by (nonlinear_arith)
        requires
            sl == 3 * k,
            term2 == (((h * x) * (1 - t * t)) * c) * (1 + sl * (x * x)),
    ;
}

/// The product rule for `C = A * B`: the change of `C` is `B` per unit of
/// `A` and `A` per unit of `B`, so the gradients are `grad * B` and
/// `grad * A`; together they give `grad * (a' * B + A * b')` for any
/// changes `a'`, `b'` of the operands.
pub proof fn lemma_mul_backward_is_product_rule(v: ElementValues, da: int, db: int)
    ensures
        element_value(spec_mul_backward().0, v) == v.grad * v.rhs,
        element_value(spec_mul_backward().1, v) == v.grad * v.lhs,
        element_value(spec_mul_backward().0, v) * da + element_value(spec_mul_backward().1, v) * db == v.grad
            * (da * v.rhs + v.lhs * db),
{
    reveal_with_fuel(element_value, 3);
    assert((v.grad * v.rhs) * da + (v.grad * v.lhs) * db == v.grad * (da * v.rhs + v.lhs * db))
        by (nonlinear_arith);
}

/// `exp` is its own derivative: with `y` the saved output, the gradient is
/// `grad * y`.
pub proof fn lemma_exp_backward_is_derivative(v: ElementValues)
    ensures
        element_value(spec_exp_backward(), v) == v.grad * v.output,
{
    reveal_with_fuel(element_value, 3);
}

/// Negation flips the gradient's sign.
pub proof fn lemma_neg_backward_is_derivative(v: ElementValues)
    ensures
        element_value(spec_neg_backward(), v) == -v.grad,
{
    reveal_with_fuel(element_value, 3);
}

/// `relu` passes the gradient where its input is positive and blocks it
/// elsewhere.
pub proof fn lemma_relu_backward_is_derivative(v: ElementValues)
    ensures
        v.input > 0 ==> element_value(spec_relu_backward(), v) == v.grad,
        v.input <= 0 ==> element_value(spec_relu_backward(), v) == 0,
{
    reveal_with_fuel(element_value, 4);
}

} // verus!
