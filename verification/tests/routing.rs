use autograd::routing::{needs_grad_fn, route, Backend, MathFallbacks, Outcome, Placement};

#[test]
fn routes() {
    assert_eq!(route(Placement::AllCuda, true, true, false), Backend::Cuda);
    assert_eq!(route(Placement::AllCuda, false, true, false), Backend::Cpu);
    assert_eq!(route(Placement::AllGpu, true, true, false), Backend::Gpu);
    assert_eq!(route(Placement::AllGpu, true, true, true), Backend::Cpu);
    assert_eq!(route(Placement::AllGpu, true, false, false), Backend::Cpu);
    assert_eq!(route(Placement::Other, true, true, false), Backend::Cpu);
}

#[test]
fn grad_fn_when_any_requires_grad() {
    assert!(!needs_grad_fn(&[]));
    assert!(!needs_grad_fn(&[false, false]));
    assert!(needs_grad_fn(&[false, true]));
}

#[test]
fn fallbacks_are_counted() {
    let mut f = MathFallbacks::new();
    assert_eq!(f.after_attempt(true), Outcome::UseDevice);
    assert_eq!(f.gpu_math_fallback_count(), 0);
    assert_eq!(f.after_attempt(false), Outcome::FallBack);
    assert_eq!(f.after_attempt(false), Outcome::FallBack);
    assert_eq!(f.gpu_math_fallback_count(), 2);
}
