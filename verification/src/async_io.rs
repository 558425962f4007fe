//! Host side of asynchronous transfers: readback results arriving over a
//! channel, reusable staging buffers, and double-buffered training batches.

use vstd::prelude::*;
use std::sync::Arc;
use std::sync::atomic::AtomicBool;
use std::sync::atomic::Ordering;
use std::sync::mpsc::Receiver;

verus! {

#[verifier::external_type_specification]
#[verifier::external_body]
#[verifier::reject_recursive_types(T)]
pub struct ExReceiver<T>(Receiver<T>);

/// Takes a value from the channel if one is waiting, with
/// `Receiver::try_recv`. Whether one is waiting depends on when the device
/// finished, so nothing is promised of the result.
#[verifier::external_body]
fn channel_try_recv<T>(rx: &Receiver<T>) -> (r: Option<T>) {
    rx.try_recv().ok()
}

/// A readback whose result is delivered over a channel once the device has
/// finished; a shared flag is raised at delivery. The library only polls the
/// channel; a blocking wait on `receiver` belongs to the host, since it
/// returns only once the device has been driven to deliver.
#[verifier::reject_recursive_types(T)]
pub struct AsyncReadback<T: Send + 'static> {
    pub receiver: Receiver<T>,
    ready: Arc<AtomicBool>,
}

impl<T: Send + 'static> AsyncReadback<T> {
    /// The channel the result arrives on.
    pub closed spec fn spec_receiver(&self) -> Receiver<T> {
        self.receiver
    }

    /// A readback listening on `receiver`, with the flag its sender raises.
    pub fn from_parts(receiver: Receiver<T>, ready: Arc<AtomicBool>) -> (r: Self)
        ensures
            r.spec_receiver() == receiver,
    {
        AsyncReadback { receiver, ready }
    }

    /// The result, if it has arrived; never waits.
    pub fn try_recv(&self) -> Option<T> {
        channel_try_recv(&self.receiver)
    }

    /// Whether the sending side has raised the ready flag; never waits.
    pub fn is_ready(&self) -> bool {
        self.ready.load(Ordering::Acquire)
    }
}

/// Reusable staging buffers of one size, for uploads and for readbacks.
pub struct GpuStagingPool<B> {
    write_buffers: Vec<B>,
    read_buffers: Vec<B>,
    max_size: u64,
}

impl<B> GpuStagingPool<B> {
    /// Idle upload buffers, most recently released last.
    pub closed spec fn spec_write(&self) -> Seq<B> {
        self.write_buffers@
    }

    /// Idle readback buffers, most recently released last.
    pub closed spec fn spec_read(&self) -> Seq<B> {
        self.read_buffers@
    }

    /// Size of every buffer of the pool.
    pub closed spec fn spec_max_size(&self) -> u64 {
        self.max_size
    }

    /// A pool holding one upload and one readback buffer of `max_size` bytes.
    pub fn new(write_buf: B, read_buf: B, max_size: u64) -> (r: Self)
        ensures
            r.spec_write() == seq![write_buf],
            r.spec_read() == seq![read_buf],
            r.spec_max_size() == max_size,
    {
        let mut w: Vec<B> = Vec::new();
        w.push(write_buf);
        let mut rd: Vec<B> = Vec::new();
        rd.push(read_buf);
        GpuStagingPool { write_buffers: w, read_buffers: rd, max_size }
    }

    /// Size of every buffer of the pool.
    pub fn max_size(&self) -> (r: u64)
        ensures
            r == self.spec_max_size(),
    {
        self.max_size
    }

    /// An idle upload buffer for `size` bytes: the most recently released
    /// one, or `None` when none is idle and a new one of the pool's size must
    /// be created.
    pub fn acquire_write(&mut self, size: u64) -> (r: Option<B>)
        requires
            size <= old(self).spec_max_size(),
        ensures
            final(self).spec_max_size() == old(self).spec_max_size(),
            final(self).spec_read() == old(self).spec_read(),
            old(self).spec_write().len() == 0 ==> r is None && final(self).spec_write() == old(
                self,
            ).spec_write(),
            old(self).spec_write().len() > 0 ==> r == Some(old(self).spec_write().last())
                && final(self).spec_write() == old(self).spec_write().drop_last(),
    {
        self.write_buffers.pop()
    }

    /// Returns an upload buffer to the pool.
    pub fn release_write(&mut self, buf: B)
        ensures
            final(self).spec_max_size() == old(self).spec_max_size(),
            final(self).spec_read() == old(self).spec_read(),
            final(self).spec_write() == old(self).spec_write().push(buf),
    {
        self.write_buffers.push(buf);
    }

    /// An idle readback buffer for `size` bytes: the most recently released
    /// one, or `None` when none is idle and a new one must be created.
    pub fn acquire_read(&mut self, size: u64) -> (r: Option<B>)
        requires
            size <= old(self).spec_max_size(),
        ensures
            final(self).spec_max_size() == old(self).spec_max_size(),
            final(self).spec_write() == old(self).spec_write(),
            old(self).spec_read().len() == 0 ==> r is None && final(self).spec_read() == old(
                self,
            ).spec_read(),
            old(self).spec_read().len() > 0 ==> r == Some(old(self).spec_read().last())
                && final(self).spec_read() == old(self).spec_read().drop_last(),
    {
        self.read_buffers.pop()
    }

    /// Returns a readback buffer to the pool.
    pub fn release_read(&mut self, buf: B)
        ensures
            final(self).spec_max_size() == old(self).spec_max_size(),
            final(self).spec_write() == old(self).spec_write(),
            final(self).spec_read() == old(self).spec_read().push(buf),
    {
        self.read_buffers.push(buf);
    }
}

/// Device tensors of one training batch, and whether data has been uploaded
/// into them.
pub struct GpuBatchBuffer<T> {
    pub input: T,
    pub target: T,
    ready: bool,
}

impl<T> GpuBatchBuffer<T> {
    /// The input tensor.
    pub closed spec fn spec_input(&self) -> T {
        self.input
    }

    /// The target tensor.
    pub closed spec fn spec_target(&self) -> T {
        self.target
    }

    /// Whether data has been uploaded.
    pub closed spec fn spec_ready(&self) -> bool {
        self.ready
    }

    /// A batch buffer over freshly allocated tensors, not yet filled.
    pub fn new(input: T, target: T) -> (r: Self)
        ensures
            r.spec_input() == input,
            r.spec_target() == target,
            !r.spec_ready(),
    {
        GpuBatchBuffer { input, target, ready: false }
    }

    /// Records that an upload into the buffer has been submitted.
    pub fn mark_uploaded(&mut self)
        ensures
            final(self).spec_input() == old(self).spec_input(),
            final(self).spec_target() == old(self).spec_target(),
            final(self).spec_ready(),
    {
        self.ready = true;
    }

    /// Whether data has been uploaded.
    pub fn is_ready(&self) -> (r: bool)
        ensures
            r == self.spec_ready(),
    {
        self.ready
    }
}

/// Double-buffered batches: the device computes on one buffer while the
/// host uploads into the other, then the roles swap.
pub struct AsyncDataPipeline<T, B> {
    first: GpuBatchBuffer<T>,
    second: GpuBatchBuffer<T>,
    current: usize,
    staging_pool: GpuStagingPool<B>,
}

impl<T, B> AsyncDataPipeline<T, B> {
    /// The current index is 0 or 1.
    pub closed spec fn wf(&self) -> bool {
        self.current < 2
    }

    /// Index of the buffer handed out next for compute.
    pub closed spec fn spec_current(&self) -> usize {
        self.current
    }

    /// Buffer `i` (0 or 1).
    pub closed spec fn spec_buffer(&self, i: int) -> GpuBatchBuffer<T> {
        if i == 0 {
            self.first
        } else {
            self.second
        }
    }

    /// A pipeline over two batch buffers, starting with the first.
    pub fn new(first: GpuBatchBuffer<T>, second: GpuBatchBuffer<T>, staging_pool: GpuStagingPool<B>) -> (r:
        Self)
        ensures
            r.wf(),
            r.spec_current() == 0,
            r.spec_buffer(0) == first,
            r.spec_buffer(1) == second,
    {
        AsyncDataPipeline { first, second, current: 0, staging_pool }
    }

    /// Index of the buffer the device computes on now; the next call hands
    /// out the other one.
    pub fn next_buffer(&mut self) -> (r: usize)
        requires
            old(self).wf(),
        ensures
            final(self).wf(),
            r == old(self).spec_current(),
            final(self).spec_current() == 1 - old(self).spec_current(),
            final(self).spec_buffer(0) == old(self).spec_buffer(0),
            final(self).spec_buffer(1) == old(self).spec_buffer(1),
    {
        let r = self.current;
        self.current = self.current ^ 1;
        proof {
            assert(r == 0 || r == 1);
            assert(0usize ^ 1usize == 1usize) by (bit_vector);
            assert(1usize ^ 1usize == 0usize) by (bit_vector);
        }
        r
    }

    /// Index of the buffer uploads go to: the one not being computed on.
    pub fn upload_target(&self) -> (r: usize)
        requires
            self.wf(),
        ensures
            r == 1 - self.spec_current(),
    {
        1 - self.current
    }

    /// Buffer `i`.
    pub fn buffer(&self, i: usize) -> (r: &GpuBatchBuffer<T>)
        requires
            i < 2,
        ensures
            *r == self.spec_buffer(i as int),
    {
        if i == 0 {
            &self.first
        } else {
            &self.second
        }
    }

    /// Records that an upload into buffer `i` has been submitted.
    pub fn mark_uploaded(&mut self, i: usize)
        requires
            old(self).wf(),
            i < 2,
        ensures
            final(self).wf(),
            final(self).spec_current() == old(self).spec_current(),
            final(self).spec_buffer(i as int).spec_ready(),
            final(self).spec_buffer(i as int).spec_input() == old(self).spec_buffer(i as int).spec_input(),
            final(self).spec_buffer(i as int).spec_target() == old(self).spec_buffer(
                i as int,
            ).spec_target(),
            final(self).spec_buffer(1 - i) == old(self).spec_buffer(1 - i),
    {
        if i == 0 {
            self.first.mark_uploaded();
        } else {
            self.second.mark_uploaded();
        }
    }

    /// Index of the buffer handed out next for compute.
    pub fn current_buffer(&self) -> (r: usize)
        ensures
            r == self.spec_current(),
    {
        self.current
    }

    /// The staging pool of the uploads.
    pub closed spec fn spec_staging_pool(&self) -> GpuStagingPool<B> {
        self.staging_pool
    }

    /// The staging pool of the uploads, to take buffers from and return them.
    pub fn staging_pool(&mut self) -> (r: &mut GpuStagingPool<B>)
        ensures
            *r == old(self).spec_staging_pool(),
            final(self).spec_staging_pool() == *final(r),
            final(self).spec_current() == old(self).spec_current(),
            final(self).spec_buffer(0) == old(self).spec_buffer(0),
            final(self).spec_buffer(1) == old(self).spec_buffer(1),
    {
        &mut self.staging_pool
    }
}

} // verus!
