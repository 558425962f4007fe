use autograd::concat::{cat_gpu, cat_grad_slices, stack_gpu, CopyOp};

fn op(tensor: usize, src_offset: u64, dst_offset: u64, size: u64) -> CopyOp {
    CopyOp { tensor, src_offset, dst_offset, size }
}

#[test]
fn cat_along_first_axis() {
    let plan = cat_gpu(&[2, 3], &[2, 4], &[true, true], 0);
    assert_eq!(plan.out_shape, vec![6, 3]);
    assert_eq!(plan.out_bytes, 6 * 3 * 4);
    assert_eq!(plan.copies, vec![op(0, 0, 0, 24), op(1, 0, 24, 48)]);
}

#[test]
fn cat_along_inner_axis() {
    // [2, 1, 3] ++ [2, 2, 3] along axis 1 -> [2, 3, 3]
    let plan = cat_gpu(&[2, 1, 3], &[1, 2], &[true, true], 1);
    assert_eq!(plan.out_shape, vec![2, 3, 3]);
    assert_eq!(plan.out_bytes, 2 * 3 * 3 * 4);
    assert_eq!(
        plan.copies,
        vec![op(0, 0, 0, 12), op(0, 12, 36, 12), op(1, 0, 12, 24), op(1, 24, 48, 24)]
    );
}

#[test]
fn cat_along_last_axis_fills_the_output() {
    // [1, 2] ++ [1, 2] along axis 1 -> [1, 4]: each copy moves a whole row.
    let plan = cat_gpu(&[1, 2], &[2, 2], &[true, true], 1);
    assert_eq!(plan.out_shape, vec![1, 4]);
    assert_eq!(plan.out_bytes, 16);
    assert_eq!(plan.copies, vec![op(0, 0, 0, 8), op(1, 0, 8, 8)]);
    let total: u64 = plan.copies.iter().map(|c| c.size).sum();
    assert_eq!(total, plan.out_bytes);
}

#[test]
fn cat_skips_tensors_without_device_buffer() {
    let plan = cat_gpu(&[1, 2], &[1, 1, 1], &[true, false, true], 0);
    assert_eq!(plan.out_shape, vec![3, 2]);
    assert_eq!(plan.copies, vec![op(0, 0, 0, 8), op(2, 0, 8, 8)]);
}

#[test]
fn stack_along_first_axis() {
    let plan = stack_gpu(&[2, 3], &[true, true], 0);
    assert_eq!(plan.out_shape, vec![2, 2, 3]);
    assert_eq!(plan.out_bytes, 48);
    assert_eq!(plan.copies, vec![op(0, 0, 0, 24), op(1, 0, 24, 24)]);
}

#[test]
fn stack_along_inner_and_past_end() {
    let plan = stack_gpu(&[2, 3], &[true, true], 1);
    assert_eq!(plan.out_shape, vec![2, 2, 3]);
    assert_eq!(plan.copies, vec![op(0, 0, 0, 12), op(0, 12, 24, 12), op(1, 0, 12, 12), op(1, 12, 36, 12)]);
    let plan = stack_gpu(&[2], &[true, false, true], 5);
    assert_eq!(plan.out_shape, vec![2, 3]);
    assert_eq!(plan.out_bytes, 24);
    assert_eq!(plan.copies, vec![op(0, 0, 0, 4), op(0, 4, 12, 4), op(2, 0, 8, 4), op(2, 4, 20, 4)]);
}

#[test]
fn gradient_slices_of_cat() {
    assert_eq!(cat_grad_slices(&[2, 0, 3]), vec![(0, 2), (2, 2), (2, 5)]);
    assert!(cat_grad_slices(&[]).is_empty());
}
