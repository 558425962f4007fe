use autograd::memory::{
    bucket_for, bucket_size, AllocAction, GpuMemoryPool, PoolStats, PooledBuffer, COPY_DST, COPY_SRC,
    EVICTION_TTL_NANOS, LRU_EVICT_THRESHOLD, MAP_READ, MAP_WRITE, MAX_POOL_CAPACITY, NUM_BUCKETS,
};

const STORAGE: u32 = 128;

#[test]
fn usage_bits_match_wgpu() {
    assert_eq!(MAP_READ, wgpu::BufferUsages::MAP_READ.bits());
    assert_eq!(MAP_WRITE, wgpu::BufferUsages::MAP_WRITE.bits());
    assert_eq!(COPY_SRC, wgpu::BufferUsages::COPY_SRC.bits());
    assert_eq!(COPY_DST, wgpu::BufferUsages::COPY_DST.bits());
    assert_eq!(STORAGE, wgpu::BufferUsages::STORAGE.bits());
}

#[test]
fn buckets() {
    assert_eq!(NUM_BUCKETS, 21);
    assert_eq!(bucket_for(0), 0);
    assert_eq!(bucket_for(1024), 0);
    assert_eq!(bucket_for(1025), 1);
    assert_eq!(bucket_for(1_500_000), 6);
    assert_eq!(bucket_for(u64::MAX), 20);
    assert_eq!(bucket_size(0), 1024);
    assert_eq!(bucket_size(6), 1572864);
    assert_eq!(bucket_size(20), 85899345920);
    for i in 1..NUM_BUCKETS {
        assert!(bucket_size(i - 1) < bucket_size(i));
    }
}

#[test]
fn pool_defaults() {
    let pool: GpuMemoryPool<u32> = GpuMemoryPool::new();
    assert_eq!(pool.max_capacity(), MAX_POOL_CAPACITY);
    assert_eq!(pool.total_free_count(), 0);
    let s: &PoolStats = pool.stats();
    assert_eq!(s.allocs, 0);
    assert_eq!(s.cache_hits, 0);
    let z = PoolStats::default();
    assert_eq!(z.bytes_allocated, 0);
    assert_eq!(LRU_EVICT_THRESHOLD, 384);
    assert_eq!(EVICTION_TTL_NANOS, 30_000_000_000);
    let p2: GpuMemoryPool<u32> = GpuMemoryPool::new().with_max_capacity(7);
    assert_eq!(p2.max_capacity(), 7);
}

#[test]
fn miss_then_hit() {
    let mut pool: GpuMemoryPool<u32> = GpuMemoryPool::new();
    let req = match pool.allocate(3000, STORAGE) {
        AllocAction::Create(req) => req,
        AllocAction::Reuse(_) => panic!("empty pool reused a buffer"),
    };
    assert_eq!(req.size, 4096);
    assert_eq!(req.bucket, 1);
    assert_eq!(req.create_usage, STORAGE | COPY_DST | COPY_SRC);
    assert_eq!(pool.stats().cache_misses, 1);
    assert_eq!(pool.stats().bytes_allocated, 4096);
    let buf: PooledBuffer<u32> = req.into_pooled(77);
    assert_eq!(buf.pool_key, Some((1, STORAGE)));
    pool.dealloc(buf, 10);
    assert_eq!(pool.total_free_count(), 1);
    assert_eq!(pool.stats().deallocs, 1);
    match pool.allocate(4000, STORAGE) {
        AllocAction::Reuse(b) => {
            assert_eq!(b.buffer, 77);
            assert_eq!(b.size, 4096);
        }
        AllocAction::Create(_) => panic!("returned buffer was not reused"),
    }
    assert_eq!(pool.stats().cache_hits, 1);
    assert_eq!(pool.stats().bytes_reused, 4096);
    assert_eq!(pool.total_free_count(), 0);
}

#[test]
fn mappable_usage_is_kept() {
    let mut pool: GpuMemoryPool<u32> = GpuMemoryPool::new();
    match pool.allocate(10, MAP_READ | COPY_DST) {
        AllocAction::Create(req) => assert_eq!(req.create_usage, MAP_READ | COPY_DST),
        AllocAction::Reuse(_) => panic!(),
    }
}

#[test]
fn other_usage_is_not_reused() {
    let mut pool: GpuMemoryPool<u32> = GpuMemoryPool::new();
    let req = match pool.allocate(100, STORAGE) {
        AllocAction::Create(r) => r,
        _ => panic!(),
    };
    pool.dealloc(req.into_pooled(1), 0);
    assert!(matches!(pool.allocate(100, MAP_READ), AllocAction::Create(_)));
    assert!(matches!(pool.allocate(5000, STORAGE), AllocAction::Create(_)));
    assert!(matches!(pool.allocate(100, STORAGE), AllocAction::Reuse(_)));
}

#[test]
fn unpooled_buffers_are_dropped() {
    let mut pool: GpuMemoryPool<u32> = GpuMemoryPool::new();
    pool.dealloc(PooledBuffer::unpooled(5, 1024, STORAGE), 0);
    assert_eq!(pool.total_free_count(), 0);
}

#[test]
fn gc_drops_expired() {
    let mut pool: GpuMemoryPool<u32> = GpuMemoryPool::new();
    pool.return_buffer_raw(1, (0, STORAGE), 0);
    pool.return_buffer_raw(2, (0, STORAGE), EVICTION_TTL_NANOS);
    assert_eq!(pool.total_free_count(), 2);
    pool.gc(EVICTION_TTL_NANOS + 1);
    assert_eq!(pool.total_free_count(), 1);
    match pool.allocate(10, STORAGE) {
        AllocAction::Reuse(b) => assert_eq!(b.buffer, 2),
        _ => panic!(),
    }
}

#[test]
fn capacity_caps_a_list() {
    let mut pool: GpuMemoryPool<u32> = GpuMemoryPool::new();
    pool.set_max_capacity(2);
    for i in 0..5u32 {
        pool.return_buffer_raw(i, (0, STORAGE), 0);
    }
    assert_eq!(pool.total_free_count(), 2);
    assert_eq!(pool.stats().dealloc_dropped, 3);
    pool.clear();
    assert_eq!(pool.total_free_count(), 0);
}

#[test]
fn lru_threshold_bounds_idle_buffers() {
    let mut pool: GpuMemoryPool<u32> = GpuMemoryPool::new();
    for i in 0..500u32 {
        pool.return_buffer_raw(i, ((i % 20) as usize, STORAGE), i as u64);
    }
    assert!(pool.total_free_count() <= LRU_EVICT_THRESHOLD);
}
