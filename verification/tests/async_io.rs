use autograd::async_io::{AsyncDataPipeline, AsyncReadback, GpuBatchBuffer, GpuStagingPool};
use std::sync::atomic::{AtomicBool, Ordering};
use std::sync::mpsc;
use std::sync::Arc;

#[test]
fn readback_delivers_once_sent() {
    let (tx, rx) = mpsc::channel();
    let ready = Arc::new(AtomicBool::new(false));
    let rb = AsyncReadback::from_parts(rx, ready.clone());
    assert!(!rb.is_ready());
    assert_eq!(rb.try_recv(), None::<Vec<u8>>);
    tx.send(vec![1u8, 2]).unwrap();
    ready.store(true, Ordering::Release);
    assert!(rb.is_ready());
    assert_eq!(rb.try_recv(), Some(vec![1, 2]));
    assert_eq!(rb.try_recv(), None);
    tx.send(vec![3]).unwrap();
    assert_eq!(rb.try_recv(), Some(vec![3]));
    drop(tx);
    assert_eq!(rb.try_recv(), None);
}

#[test]
fn staging_pool_reuses_last_released() {
    let mut pool = GpuStagingPool::new(10u32, 20u32, 1024);
    assert_eq!(pool.max_size(), 1024);
    assert_eq!(pool.acquire_write(100), Some(10));
    assert_eq!(pool.acquire_write(100), None);
    pool.release_write(11);
    pool.release_write(12);
    assert_eq!(pool.acquire_write(1024), Some(12));
    assert_eq!(pool.acquire_read(0), Some(20));
    assert_eq!(pool.acquire_read(0), None);
    pool.release_read(21);
    assert_eq!(pool.acquire_read(5), Some(21));
}

#[test]
fn batch_buffer_ready_after_upload() {
    let mut b = GpuBatchBuffer::new(1u8, 2u8);
    assert!(!b.is_ready());
    b.mark_uploaded();
    assert!(b.is_ready());
    assert_eq!((b.input, b.target), (1, 2));
}

#[test]
fn double_buffering_alternates() {
    let pool = GpuStagingPool::new(0u32, 0u32, 64);
    let mut p = AsyncDataPipeline::new(GpuBatchBuffer::new(1u8, 1u8), GpuBatchBuffer::new(2u8, 2u8), pool);
    assert_eq!(p.current_buffer(), 0);
    assert_eq!(p.upload_target(), 1);
    p.mark_uploaded(1);
    assert!(p.buffer(1).is_ready());
    assert!(!p.buffer(0).is_ready());
    assert_eq!(p.next_buffer(), 0);
    assert_eq!(p.current_buffer(), 1);
    assert_eq!(p.upload_target(), 0);
    assert_eq!(p.next_buffer(), 1);
    assert_eq!(p.next_buffer(), 0);
    assert_eq!(p.buffer(1).input, 2);
    assert_eq!(p.staging_pool().acquire_write(8), Some(0));
}
