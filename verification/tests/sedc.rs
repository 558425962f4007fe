use autograd::context::{GpuContext, GpuError};
use autograd::sedc::{fuse_rank, plan_layers, ArqPlan, JacobiPlan, LayerAction, RankChoice, SedcCompressor, SedcConfig, SedcError};
use autograd::caps::{AdapterReport, BackendKind, DeviceKind, GpuCapabilities};

#[test]
fn test_should_skip_layer() {
    let config = SedcConfig::default();
    let compressor = SedcCompressor::new(config);
    assert!(compressor.should_skip_layer("LayerNorm"));
    assert!(compressor.should_skip_layer("rope"));
    assert!(compressor.should_skip_layer("pos_embed"));
    assert!(compressor.should_skip_layer("lm_head.logits"));
    assert!(!compressor.should_skip_layer("attention.wq"));
    assert!(!compressor.should_skip_layer("ffn.w1"));
}

#[test]
fn skip_guards_can_be_switched_off() {
    let config = SedcConfig {
        skip_layernorm: false,
        skip_rope: false,
        skip_pos_embed: true,
        skip_logits: false,
        ..SedcConfig::default()
    };
    let c = SedcCompressor::new(config);
    assert!(!c.should_skip_layer("LayerNorm"));
    assert!(!c.should_skip_layer("ROPE"));
    assert!(c.should_skip_layer("Token_Embedding"));
    assert!(!c.should_skip_layer("lm_head.logits"));
    assert!(c.should_skip_lowercase("pos"));
    assert!(!c.should_skip_lowercase("Pos"));
}

#[test]
fn skip_lowercase_matches_substrings() {
    let c = SedcCompressor::new(SedcConfig::default());
    assert!(c.should_skip_lowercase("final_norm"));
    assert!(c.should_skip_lowercase("blocks.3.logit_scale"));
    assert!(!c.should_skip_lowercase("mlp.up"));
    assert!(!c.should_skip_lowercase(""));
    assert!(!c.should_skip_lowercase("nor"));
}

#[test]
fn sedc_config_defaults() {
    let c = SedcConfig::default();
    assert_eq!(c.oversamples, 10);
    assert_eq!(c.power_iters, 2);
    assert_eq!(c.arq_bits, 2);
}

#[test]
fn sedc_error_from_gpu_error() {
    let e: SedcError = GpuError::Device("lost".to_string()).into();
    assert!(matches!(e, SedcError::Gpu(GpuError::Device(ref m)) if m == "lost"));
}

fn report() -> AdapterReport {
    AdapterReport {
        vendor_id: 0x10DE,
        backend: BackendKind::Vulkan,
        device_name: "test".to_string(),
        device_type: DeviceKind::DiscreteGpu,
        subgroup: true,
        subgroup_barrier: true,
        shader_f16: true,
        shader_f64: false,
        timestamp_query: true,
        timestamp_query_inside_passes: false,
        timestamp_query_inside_encoders: false,
        max_compute_workgroup_size_x: 256,
        max_compute_workgroup_size_y: 256,
        max_compute_workgroup_size_z: 64,
        max_compute_invocations_per_workgroup: 256,
        max_compute_workgroup_storage_size: 16384,
        max_storage_buffer_binding_size: 1 << 31,
        max_bind_groups: 4,
    }
}

#[test]
fn compile_sedc_pipelines_registers_all() {
    let mut ctx = GpuContext::new(GpuCapabilities::from_report(report()), 64);
    assert!(!ctx.has_pipeline("sedc_qr"));
    ctx.compile_sedc_pipelines();
    for name in [
        "sedc_randn",
        "sedc_qr",
        "sedc_jacobi_sweep",
        "sedc_sparsity_mask",
        "sedc_arq_sign",
        "sedc_arq_axpy",
        "sedc_str",
        "sedc_rec",
        "sedc_copy",
    ] {
        assert!(ctx.has_pipeline(name), "{name}");
    }
    assert!(!ctx.has_pipeline("fill_zero"));
}

#[test]
fn sedc_dispatch_plans() {
    let mut ctx = GpuContext::new(GpuCapabilities::from_report(report()), 8);
    match ctx.qr_decomposition_gpu(300, 5) {
        Err(GpuError::Pipeline(m)) => assert_eq!(m, "sedc_qr not compiled"),
        _ => panic!(),
    }
    ctx.compile_pipeline_cached("sedc_qr");
    match ctx.qr_decomposition_gpu(300, 5) {
        Err(GpuError::Pipeline(m)) => assert_eq!(m, "sedc_copy not compiled"),
        _ => panic!(),
    }
    match ctx.jacobi_eigen_gpu(4) {
        Err(SedcError::Gpu(GpuError::Pipeline(m))) => assert_eq!(m, "sedc_jacobi_sweep not compiled"),
        _ => panic!(),
    }
    assert!(matches!(ctx.jacobi_eigen_gpu(1), Ok(None)));
    assert!(matches!(ctx.rec_compensate_gpu(9, 9), Err(SedcError::Gpu(GpuError::Pipeline(_)))));
    assert!(matches!(ctx.arq_quantize_gpu(0, 2), Err(GpuError::Pipeline(_))));
    ctx.compile_sedc_pipelines();
    assert_eq!(ctx.qr_decomposition_gpu(300, 5).unwrap(), (2, 5, 1));
    assert_eq!(ctx.randn_gpu(1000).unwrap(), 4);
    assert_eq!(ctx.copy_buffer_gpu(256).unwrap(), 1);
    assert_eq!(ctx.sparsity_mask_gpu(257).unwrap(), 2);
    assert_eq!(ctx.jacobi_eigen_gpu(100).unwrap(), Some(JacobiPlan { n_pairs: 4950, groups: 78 }));
    assert_eq!(ctx.rec_compensate_gpu(9, 16).unwrap(), (2, 2, 1));
    assert_eq!(ctx.arq_quantize_gpu(0, 2).unwrap(), ArqPlan::CopyOnly { copy_groups: 0 });
    assert_eq!(ctx.arq_quantize_gpu(1000, 0).unwrap(), ArqPlan::CopyOnly { copy_groups: 4 });
    assert_eq!(ctx.arq_quantize_gpu(1000, 3).unwrap(), ArqPlan::Rounds { bits: 3, groups: 4 });
    assert_eq!(ctx.randomized_svd_gpu(100, 50, 10, 5).unwrap(), (10, 15));
    assert_eq!(ctx.randomized_svd_gpu(100, 8, 10, 5).unwrap(), (8, 8));
    match ctx.randomized_svd_gpu(100, 50, 0, 0) {
        Err(SedcError::Svd(m)) => assert_eq!(m, "target rank is 0"),
        _ => panic!(),
    }
    assert_eq!(ctx.str_route_gpu(64, 32, 100), 32);
    assert_eq!(ctx.str_route_gpu(64, 32, 8), 8);
}

#[test]
fn utility_pipelines_are_registered() {
    let mut ctx = GpuContext::new(GpuCapabilities::from_report(report()), 8);
    ctx.compile_fill_zero();
    ctx.compile_fill_constant();
    ctx.compile_fill_zero_u32();
    ctx.compile_moe_scatter_add();
    ctx.compile_scale_inplace();
    ctx.compile_gradient_allreduce();
    ctx.compile_fused_ops();
    for name in [
        "fill_zero",
        "fill_constant",
        "fill_zero_u32",
        "moe_scatter_add",
        "scale_inplace",
        "gradient_allreduce",
        "fused_matmul_bias",
        "fused_online_softmax",
    ] {
        assert!(ctx.has_pipeline(name), "{name}");
    }
    assert!(!ctx.has_pipeline("adam_step"));
}

#[test]
fn fuse_rank_is_clamped_to_shape() {
    assert_eq!(fuse_rank(3, 8, 8), 3);
    assert_eq!(fuse_rank(10, 4, 6), 4);
    assert_eq!(fuse_rank(10, 6, 4), 4);
    assert_eq!(fuse_rank(0, 4, 4), 1);
}

#[test]
fn plan_layers_takes_disjoint_pairs() {
    let (taken, actions) = plan_layers(4, &[(0, 8), (1, 8), (2, 4), (3, 1)], &[false, true, false, false]);
    assert_eq!(taken, vec![(0, 8), (2, 4)]);
    assert_eq!(actions, vec![LayerAction::Fused; 4]);
}

#[test]
fn plan_layers_keeps_guarded_and_compresses_rest() {
    let (taken, actions) = plan_layers(5, &[(0, 3), (2, 3)], &[false, false, false, false, true]);
    assert_eq!(taken, vec![(0, 3), (2, 3)]);
    assert_eq!(
        actions,
        vec![LayerAction::Fused, LayerAction::Fused, LayerAction::Fused, LayerAction::Fused, LayerAction::Keep]
    );
    let (taken, actions) = plan_layers(3, &[(2, 5), (1, 2)], &[true, false, false]);
    assert_eq!(taken, vec![(1, 2)]);
    assert_eq!(actions, vec![LayerAction::Keep, LayerAction::Fused, LayerAction::Fused]);
    let (taken, actions) = plan_layers(2, &[], &[false, true]);
    assert!(taken.is_empty());
    assert_eq!(actions, vec![LayerAction::Compress, LayerAction::Keep]);
}

#[test]
fn test_compressor_full_model() {
    let config = SedcConfig { oversamples: 5, power_iters: 1, ..Default::default() };
    let compressor = SedcCompressor::new(config);
    let names = &["attention.wq", "ffn.w1", "attention.wk", "ffn.w2"];
    let fuse_pairs = vec![(0, 3), (2, 3)];
    let (taken, actions) = compressor.plan_model(4, names, &fuse_pairs);
    assert_eq!(taken, vec![(0, 3), (2, 3)]);
    assert_eq!(actions, vec![LayerAction::Fused; 4]);
}

#[test]
fn plan_model_guards_by_name_and_names_missing_layers_unknown() {
    let compressor = SedcCompressor::new(SedcConfig::default());
    let names = &["tok_embed", "attention.wq", "ffn.w1", "final_LayerNorm"];
    let (taken, actions) = compressor.plan_model(6, names, &[(1, 4), (3, 2), (4, 2)]);
    assert_eq!(taken, vec![(1, 4), (3, 2)]);
    assert_eq!(
        actions,
        vec![
            LayerAction::Keep,
            LayerAction::Fused,
            LayerAction::Fused,
            LayerAction::Fused,
            LayerAction::Fused,
            LayerAction::Compress
        ]
    );
    let (taken, actions) = compressor.plan_model(5, names, &[(0, 2), (2, 2)]);
    assert_eq!(taken, vec![(0, 2), (2, 2)]);
    assert_eq!(actions[4], LayerAction::Compress);
    let (taken, actions) = compressor.plan_model(4, names, &[(1, 2)]);
    assert_eq!(taken, vec![(1, 2)]);
    assert_eq!(actions, vec![LayerAction::Keep, LayerAction::Fused, LayerAction::Fused, LayerAction::Keep]);
    let (_, actions) = compressor.plan_model(3, &["ffn.w1"], &[]);
    assert_eq!(actions, vec![LayerAction::Compress; 3]);
}

#[test]
fn rec_plan_compensates_truncated_layers_after_the_first() {
    let compressor = SedcCompressor::new(SedcConfig::default());
    let plan = compressor.rec_plan(&[(2, 8, 8), (8, 8, 16), (3, 8, 16), (4, 4, 16), (0, 1, 1)]);
    assert_eq!(plan, vec![false, false, true, false, true]);
    assert!(compressor.rec_plan(&[]).is_empty());
}

#[test]
fn rank_choice_follows_the_spectrum() {
    let c = SedcCompressor::new(SedcConfig::default());
    assert_eq!(c.first_svd_rank(16, 12), 6);
    assert_eq!(c.first_svd_rank(1, 9), 0);
    assert_eq!(
        c.choose_rank(16, 12, 0, 6, 12),
        RankChoice { max_rank: 12, k_star: 1, wider_svd_rank: None }
    );
    assert_eq!(
        c.choose_rank(16, 12, 9, 6, 12),
        RankChoice { max_rank: 12, k_star: 9, wider_svd_rank: Some(19) }
    );
    assert_eq!(
        c.choose_rank(16, 12, 40, 6, 6),
        RankChoice { max_rank: 12, k_star: 12, wider_svd_rank: None }
    );
    assert_eq!(c.retry_rank(4, 12, true), Some(5));
    assert_eq!(c.retry_rank(4, 12, false), None);
    assert_eq!(c.retry_rank(12, 12, true), None);
}
