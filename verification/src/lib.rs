//! Verified core of the autograd GPU runtime: buffer pooling, paged KV-cache
//! bookkeeping, kernel profiling, dispatch planning and host configuration.

pub mod async_io;
pub mod backward;
pub mod batch;
pub mod bind_cache;
pub mod caps;
pub mod concat;
pub mod context;
pub mod core_layout;
pub mod disk_cache;
pub mod kv_cache;
pub mod memory;
pub mod mixed;
pub mod nan_check;
pub mod optim;
pub mod pipelines;
pub mod profiler;
pub mod routing;
pub mod sampler;
pub mod sedc;
pub mod text;
pub mod timing;
