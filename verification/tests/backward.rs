use autograd::backward::{
    add_backward, cross_entropy_backward_gpu, div_backward, exp_backward, gradient_allreduce_gpu,
    ln_backward, matmul_backward, mul_backward, neg_backward, reduce_to_shape, relu_backward,
    shapes_equal, sub_backward, GradExpr, ReducePlan, Saved,
    gelu_backward, mean_backward, powf_backward, sigmoid_backward, silu_backward, softmax_backward_last_dim,
    sqrt_backward, sum_backward, tanh_backward, Scalar,
};

fn is_grad(e: &GradExpr) -> bool {
    matches!(e, GradExpr::Grad)
}

#[test]
fn reduce_plans() {
    assert_eq!(reduce_to_shape(&[2, 3], &[2, 3]), ReducePlan::Identity);
    assert_eq!(reduce_to_shape(&[2, 3], &[]), ReducePlan::FullSum);
    assert_eq!(reduce_to_shape(&[2, 3], &[1]), ReducePlan::FullSum);
    assert_eq!(reduce_to_shape(&[4, 5, 3], &[3]), ReducePlan::AllButLast { rest: 20, last: 3 });
    assert_eq!(reduce_to_shape(&[4, 5, 3], &[5]), ReducePlan::CpuFallback);
    assert_eq!(reduce_to_shape(&[4, 5, 3], &[5, 3]), ReducePlan::CpuFallback);
    assert_eq!(reduce_to_shape(&[3], &[3, 1]), ReducePlan::CpuFallback);
    assert_eq!(reduce_to_shape(&[1], &[1]), ReducePlan::Identity);
}

#[test]
fn shape_equality() {
    assert!(shapes_equal(&[1, 2], &[1, 2]));
    assert!(!shapes_equal(&[1, 2], &[1, 2, 1]));
    assert!(!shapes_equal(&[1, 2], &[2, 1]));
    assert!(shapes_equal(&[], &[]));
}

#[test]
fn add_backward_reduces_broadcast_operand() {
    let (da, db) = add_backward(&[8, 4], &[4], &[8, 4]);
    assert!(is_grad(&da));
    match db {
        GradExpr::Reduce(plan, inner) => {
            assert_eq!(plan, ReducePlan::AllButLast { rest: 8, last: 4 });
            assert!(is_grad(&inner));
        }
        _ => panic!(),
    }
    let (da, db) = add_backward(&[8, 4], &[8, 4], &[8, 4]);
    assert!(is_grad(&da) && is_grad(&db));
}

#[test]
fn sub_backward_negates_second() {
    let (da, db) = sub_backward(&[2, 2], &[1], &[2, 2]);
    assert!(is_grad(&da));
    match db {
        GradExpr::Neg(inner) => match *inner {
            GradExpr::Reduce(ReducePlan::FullSum, g) => assert!(is_grad(&g)),
            _ => panic!(),
        },
        _ => panic!(),
    }
}

#[test]
fn formulas() {
    let (da, db) = matmul_backward();
    assert!(matches!(da, GradExpr::MatMul(ref g, ref t)
        if is_grad(g) && matches!(**t, GradExpr::Transpose(ref b) if matches!(**b, GradExpr::Saved(Saved::Rhs)))));
    assert!(matches!(db, GradExpr::MatMul(ref t, ref g)
        if is_grad(g) && matches!(**t, GradExpr::Transpose(ref a) if matches!(**a, GradExpr::Saved(Saved::Lhs)))));
    let (da, db) = mul_backward();
    assert!(matches!(da, GradExpr::Mul(ref g, ref b) if is_grad(g) && matches!(**b, GradExpr::Saved(Saved::Rhs))));
    assert!(matches!(db, GradExpr::Mul(ref g, ref a) if is_grad(g) && matches!(**a, GradExpr::Saved(Saved::Lhs))));
    let (da, db) = div_backward();
    assert!(matches!(da, GradExpr::Div(ref g, ref b) if is_grad(g) && matches!(**b, GradExpr::Saved(Saved::Rhs))));
    assert!(matches!(db, GradExpr::Div(ref n, ref b)
        if matches!(**b, GradExpr::Saved(Saved::Rhs))
        && matches!(**n, GradExpr::Mul(ref ng, ref out)
            if matches!(**ng, GradExpr::Neg(ref g) if is_grad(g))
            && matches!(**out, GradExpr::Saved(Saved::Output)))));
    assert!(matches!(exp_backward(), GradExpr::Mul(ref g, ref y) if is_grad(g) && matches!(**y, GradExpr::Saved(Saved::Output))));
    assert!(matches!(ln_backward(), GradExpr::Div(ref g, ref x) if is_grad(g) && matches!(**x, GradExpr::Saved(Saved::Input))));
    assert!(matches!(neg_backward(), GradExpr::Neg(ref g) if is_grad(g)));
    assert!(matches!(relu_backward(), GradExpr::Mul(ref g, ref m)
        if is_grad(g) && matches!(**m, GradExpr::Step(ref x) if matches!(**x, GradExpr::Saved(Saved::Input)))));
    assert!(matches!(cross_entropy_backward_gpu(), GradExpr::CrossEntropyGrad { ref softmax, ref grad, ref targets }
        if is_grad(grad)
        && matches!(**targets, GradExpr::Saved(Saved::Targets))
        && matches!(**softmax, GradExpr::Softmax(ref l) if matches!(**l, GradExpr::Saved(Saved::Logits)))));
    assert!(matches!(gradient_allreduce_gpu(4), GradExpr::ReplicaMean(ref g, 4)
        if matches!(**g, GradExpr::Saved(Saved::ReplicaGrads))));
}

fn is_out(e: &GradExpr) -> bool {
    matches!(e, GradExpr::Saved(Saved::Output))
}

fn is_in(e: &GradExpr) -> bool {
    matches!(e, GradExpr::Saved(Saved::Input))
}

fn is_const(e: &GradExpr, c: Scalar) -> bool {
    matches!(e, GradExpr::Const(k) if *k == c)
}

#[test]
fn elementwise_backward_formulas() {
    // tanh: grad * (1 - y*y)
    assert!(matches!(tanh_backward(), GradExpr::Mul(ref g, ref l) if is_grad(g)
        && matches!(**l, GradExpr::Sub(ref one, ref sq) if is_const(one, Scalar::One)
            && matches!(**sq, GradExpr::Mul(ref a, ref b) if is_out(a) && is_out(b)))));
    // sigmoid: grad * (y * (1 - y))
    assert!(matches!(sigmoid_backward(), GradExpr::Mul(ref g, ref l) if is_grad(g)
        && matches!(**l, GradExpr::Mul(ref y, ref om) if is_out(y)
            && matches!(**om, GradExpr::Sub(ref one, ref y2) if is_const(one, Scalar::One) && is_out(y2)))));
    // sqrt: grad / (2 * y)
    assert!(matches!(sqrt_backward(), GradExpr::Div(ref g, ref d) if is_grad(g)
        && matches!(**d, GradExpr::Mul(ref two, ref y) if is_const(two, Scalar::Two) && is_out(y))));
    // powf: (grad * p) * (y / x)
    assert!(matches!(powf_backward(), GradExpr::Mul(ref gp, ref q)
        if matches!(**gp, GradExpr::Mul(ref g, ref p) if is_grad(g) && matches!(**p, GradExpr::Saved(Saved::Exponent)))
        && matches!(**q, GradExpr::Div(ref y, ref x) if is_out(y) && is_in(x))));
    // silu: grad * (s + ...)
    assert!(matches!(silu_backward(), GradExpr::Mul(ref g, ref l) if is_grad(g)
        && matches!(**l, GradExpr::Add(ref s, _) if matches!(**s, GradExpr::Sigmoid(ref x) if is_in(x)))));
    // gelu: grad * (term1 + term2), term1 = 1/2 * (1 + tanh(..))
    assert!(matches!(gelu_backward(), GradExpr::Mul(ref g, ref l) if is_grad(g)
        && matches!(**l, GradExpr::Add(ref t1, _) if matches!(**t1, GradExpr::Mul(ref h, ref op)
            if is_const(h, Scalar::Half) && matches!(**op, GradExpr::Add(ref one, ref t)
                if is_const(one, Scalar::One) && matches!(**t, GradExpr::Tanh(_)))))));
}

#[test]
fn reduction_backward_formulas() {
    assert!(matches!(softmax_backward_last_dim(), GradExpr::Mul(ref s, ref d) if is_out(s)
        && matches!(**d, GradExpr::Sub(ref g, ref rs) if is_grad(g)
            && matches!(**rs, GradExpr::RowSum(ref sg) if matches!(**sg, GradExpr::Mul(ref s2, ref g2) if is_out(s2) && is_grad(g2))))));
    match sum_backward(&[2, 3]) {
        GradExpr::Fill(e, shape) => {
            assert!(is_grad(&e));
            assert_eq!(shape, vec![2, 3]);
        }
        _ => panic!(),
    }
    match mean_backward(&[4]) {
        GradExpr::Fill(e, shape) => {
            assert!(matches!(*e, GradExpr::Div(ref g, ref n) if is_grad(g) && matches!(**n, GradExpr::Saved(Saved::Count))));
            assert_eq!(shape, vec![4]);
        }
        _ => panic!(),
    }
}
