# autograd

Host-side core of a GPU autograd runtime, written in Verus: every decision
the runtime takes before it touches the device is a verified function with a
contract.

- `src/` — the verified library.
  - `memory`: size-bucketed buffer pool with expiry, per-list capacity and
    global LRU eviction.
  - `kv_cache`: free-page stack of the paged KV cache.
  - `profiler`: kernel statistics and phase log between begin/end markers.
  - `context`: pipeline registry, timestamp-query ring, workgroup limits,
    chunked 1-D dispatch, slicing, fused matmul routing and sizes.
  - `backward`: gradient formulas and broadcast reductions.
  - `concat`: copy plans of on-device `cat` and `stack`.
  - `nan_check`, `sampler`, `batch`, `optim`, `mixed`, `timing`, `sedc`,
    `pipelines`, `bind_cache`, `routing`: sizes, checks and bookkeeping of
    the corresponding device passes.
  - `core_layout`, `disk_cache`, `async_io`, `caps`, `text`: host topology,
    pipeline-cache file layout, readback channels and staging, adapter
    capabilities, number rendering.
- `app/` — the unverified glue: wgpu calls, environment and file access,
  thread pinning, clocks, and the floating-point routines of the
  compressor, the loss scaler and the benchmarks. The float tensor
  operations themselves belong to the runtime's tensor crates and are not
  part of this crate.
- `tests/` — tests of the library run with the real outside crates linked.
