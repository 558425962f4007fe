//! Device capabilities: vendor identification, memory estimates, and the
//! tile and workgroup sizes chosen for matmul kernels.

use vstd::prelude::*;

verus! {

/// GPU vendor, from the adapter's PCI vendor id.
#[derive(Debug, Clone, Copy, PartialEq, Eq, Structural)]
pub enum GpuVendor {
    Nvidia,
    Amd,
    Intel,
    Apple,
    Unknown,
}

/// The vendor a PCI vendor id denotes.
pub open spec fn spec_vendor(id: u32) -> GpuVendor {
    if id == 0x10DE {
        GpuVendor::Nvidia
    } else if id == 0x1002 || id == 0x1022 {
        GpuVendor::Amd
    } else if id == 0x8086 {
        GpuVendor::Intel
    } else if id == 0x106B {
        GpuVendor::Apple
    } else {
        GpuVendor::Unknown
    }
}

impl GpuVendor {
    /// The vendor a PCI vendor id denotes.
    pub fn from_pci_vendor(id: u32) -> (r: Self)
        ensures
            r == spec_vendor(id),
    {
        if id == 0x10DE {
            GpuVendor::Nvidia
        } else if id == 0x1002 || id == 0x1022 {
            GpuVendor::Amd
        } else if id == 0x8086 {
            GpuVendor::Intel
        } else if id == 0x106B {
            GpuVendor::Apple
        } else {
            GpuVendor::Unknown
        }
    }

    /// Display name of the vendor.
    pub fn name(&self) -> (r: &'static str)
        ensures
            r@ == match *self {
                GpuVendor::Nvidia => "NVIDIA"@,
                GpuVendor::Amd => "AMD"@,
                GpuVendor::Intel => "Intel"@,
                GpuVendor::Apple => "Apple"@,
                GpuVendor::Unknown => "Unknown"@,
            },
    {
        match self {
            GpuVendor::Nvidia => "NVIDIA",
            GpuVendor::Amd => "AMD",
            GpuVendor::Intel => "Intel",
            GpuVendor::Apple => "Apple",
            GpuVendor::Unknown => "Unknown",
        }
    }
}

/// Kind of adapter.
#[derive(Debug, Clone, Copy, PartialEq, Eq, Structural)]
pub enum DeviceKind {
    Other,
    IntegratedGpu,
    DiscreteGpu,
    VirtualGpu,
    Cpu,
}

/// Graphics API the adapter runs on.
#[derive(Debug, Clone, Copy, PartialEq, Eq, Structural)]
pub enum BackendKind {
    Noop,
    Vulkan,
    Metal,
    Dx12,
    Gl,
    BrowserWebGpu,
}

/// What the adapter reports about itself: identity, limits and features.
#[derive(Debug)]
pub struct AdapterReport {
    pub vendor_id: u32,
    pub backend: BackendKind,
    pub device_name: String,
    pub device_type: DeviceKind,
    pub subgroup: bool,
    pub subgroup_barrier: bool,
    pub shader_f16: bool,
    pub shader_f64: bool,
    pub timestamp_query: bool,
    pub timestamp_query_inside_passes: bool,
    pub timestamp_query_inside_encoders: bool,
    pub max_compute_workgroup_size_x: u32,
    pub max_compute_workgroup_size_y: u32,
    pub max_compute_workgroup_size_z: u32,
    pub max_compute_invocations_per_workgroup: u32,
    pub max_compute_workgroup_storage_size: u32,
    pub max_storage_buffer_binding_size: u64,
    pub max_bind_groups: u32,
}

/// Capabilities of the device the kernels run on.
#[derive(Debug, Clone)]
pub struct GpuCapabilities {
    pub vendor: GpuVendor,
    pub backend: BackendKind,
    pub device_name: String,
    pub device_type: DeviceKind,
    pub supports_subgroups: bool,
    pub supports_subgroup_barrier: bool,
    pub supports_f16: bool,
    pub supports_f64: bool,
    pub max_workgroup_size: u32,
    pub max_compute_workgroup_size_x: u32,
    pub max_compute_workgroup_size_y: u32,
    pub max_compute_workgroup_size_z: u32,
    pub max_compute_invocations_per_workgroup: u32,
    pub max_compute_shared_memory: u32,
    pub max_storage_buffer_binding_size: u64,
    pub max_bind_groups: u32,
    pub dedicated_video_memory: u64,
    pub shared_system_memory: u64,
    pub supports_timestamp_query: bool,
    pub supports_timestamp_query_inside_passes: bool,
    pub supports_timestamp_query_inside_encoders: bool,
}

/// Video memory assumed for a device: discrete GPUs report their largest
/// storage binding when it exceeds 1 GiB, else 8 GiB; other devices none.
pub open spec fn spec_dedicated_video_memory(kind: DeviceKind, max_binding: u64) -> u64 {
    match kind {
        DeviceKind::DiscreteGpu => if max_binding > 0x4000_0000 {
            max_binding
        } else {
            0x2_0000_0000
        },
        _ => 0,
    }
}

/// Shared memory assumed for a device: integrated and CPU devices report their
/// largest storage binding; others none.
pub open spec fn spec_shared_system_memory(kind: DeviceKind, max_binding: u64) -> u64 {
    match kind {
        DeviceKind::IntegratedGpu | DeviceKind::Cpu => max_binding,
        _ => 0,
    }
}

/// Largest `r` with `r * r <= n`.
pub fn isqrt(n: u32) -> (r: u32)
    ensures
        r * r <= n,
        n < (r + 1) * (r + 1),
{
    let mut r: u32 = 0;
    loop
        invariant_except_break
            r * r <= n,
            r <= 65535,
        ensures
            r * r <= n,
            n < (r + 1) * (r + 1),
        decreases 65536 - r,
    {
        let next: u64 = r as u64 + 1;
        proof {
            assert(next * next <= 0x1_0000_0000) by (nonlinear_arith)
                requires
                    next <= 65536,
            ;
        }
        if next * next > n as u64 {
            break;
        }
        proof {
            assert(r + 1 <= 65535) by (nonlinear_arith)
                requires
                    (r + 1) * (r + 1) <= n,
                    n <= u32::MAX,
                    r >= 0,
            ;
        }
        r = r + 1;
    }
    r
}

impl GpuCapabilities {
    /// Capabilities derived from an adapter's report.
    pub fn from_report(rep: AdapterReport) -> (r: Self)
        requires
            rep.max_compute_workgroup_size_x * rep.max_compute_workgroup_size_y <= u32::MAX,
            rep.max_compute_workgroup_size_x * rep.max_compute_workgroup_size_y
                * rep.max_compute_workgroup_size_z <= u32::MAX,
        ensures
            r.vendor == spec_vendor(rep.vendor_id),
            r.backend == rep.backend,
            r.device_name@ == rep.device_name@,
            r.device_type == rep.device_type,
            r.supports_subgroups == rep.subgroup,
            r.supports_subgroup_barrier == rep.subgroup_barrier,
            r.supports_f16 == rep.shader_f16,
            r.supports_f64 == rep.shader_f64,
            r.max_workgroup_size == rep.max_compute_workgroup_size_x
                * rep.max_compute_workgroup_size_y * rep.max_compute_workgroup_size_z,
            r.max_compute_workgroup_size_x == rep.max_compute_workgroup_size_x,
            r.max_compute_workgroup_size_y == rep.max_compute_workgroup_size_y,
            r.max_compute_workgroup_size_z == rep.max_compute_workgroup_size_z,
            r.max_compute_invocations_per_workgroup == rep.max_compute_invocations_per_workgroup,
            r.max_compute_shared_memory == rep.max_compute_workgroup_storage_size,
            r.max_storage_buffer_binding_size == rep.max_storage_buffer_binding_size,
            r.max_bind_groups == rep.max_bind_groups,
            r.dedicated_video_memory == spec_dedicated_video_memory(
                rep.device_type,
                rep.max_storage_buffer_binding_size,
            ),
            r.shared_system_memory == spec_shared_system_memory(
                rep.device_type,
                rep.max_storage_buffer_binding_size,
            ),
            r.supports_timestamp_query == rep.timestamp_query,
            r.supports_timestamp_query_inside_passes == rep.timestamp_query_inside_passes,
            r.supports_timestamp_query_inside_encoders == rep.timestamp_query_inside_encoders,
    {
        let vendor = GpuVendor::from_pci_vendor(rep.vendor_id);
        let size = rep.max_storage_buffer_binding_size;
        let dedicated_video_memory = match rep.device_type {
            DeviceKind::DiscreteGpu => if size > 0x4000_0000 {
                size
            } else {
                0x2_0000_0000
            },
            _ => 0,
        };
        let shared_system_memory = match rep.device_type {
            DeviceKind::IntegratedGpu | DeviceKind::Cpu => size,
            _ => 0,
        };
        GpuCapabilities {
            vendor,
            backend: rep.backend,
            device_name: rep.device_name,
            device_type: rep.device_type,
            supports_subgroups: rep.subgroup,
            supports_subgroup_barrier: rep.subgroup_barrier,
            supports_f16: rep.shader_f16,
            supports_f64: rep.shader_f64,
            max_workgroup_size: rep.max_compute_workgroup_size_x * rep.max_compute_workgroup_size_y
                * rep.max_compute_workgroup_size_z,
            max_compute_workgroup_size_x: rep.max_compute_workgroup_size_x,
            max_compute_workgroup_size_y: rep.max_compute_workgroup_size_y,
            max_compute_workgroup_size_z: rep.max_compute_workgroup_size_z,
            max_compute_invocations_per_workgroup: rep.max_compute_invocations_per_workgroup,
            max_compute_shared_memory: rep.max_compute_workgroup_storage_size,
            max_storage_buffer_binding_size: size,
            max_bind_groups: rep.max_bind_groups,
            dedicated_video_memory,
            shared_system_memory,
            supports_timestamp_query: rep.timestamp_query,
            supports_timestamp_query_inside_passes: rep.timestamp_query_inside_passes,
            supports_timestamp_query_inside_encoders: rep.timestamp_query_inside_encoders,
        }
    }

    /// Matmul tile edge: 16 on NVIDIA, 8 elsewhere, shrunk to the integer
    /// square root of the invocation limit when a square tile would exceed it.
    pub fn optimal_tile_size(&self) -> (r: u32)
        ensures
            ({
                let preferred: u32 = if self.vendor == GpuVendor::Nvidia {
                    16
                } else {
                    8
                };
                let m = self.max_compute_invocations_per_workgroup;
                if preferred * preferred > m {
                    r * r <= m && m < (r + 1) * (r + 1)
                } else {
                    r == preferred
                }
            }),
    {
        let preferred: u32 = if self.vendor == GpuVendor::Nvidia {
            16
        } else {
            8
        };
        let max_threads = self.max_compute_invocations_per_workgroup;
        let tile = if preferred < 32 {
            preferred
        } else {
            32
        };
        if tile * tile > max_threads {
            isqrt(max_threads)
        } else {
            tile
        }
    }

    /// Tile edge of the fused matmul kernel: the largest of 32, 16, 8 whose
    /// square tile fits the invocation limit and whose two f32 tiles fit shared
    /// memory; 8 when none does.
    pub fn optimal_fused_tile_size(&self) -> (r: u32)
        ensures
            r == if 32 * 32 <= self.max_compute_invocations_per_workgroup && 2 * 32 * 32 * 4
                <= self.max_compute_shared_memory {
                32u32
            } else if 16 * 16 <= self.max_compute_invocations_per_workgroup && 2 * 16 * 16 * 4
                <= self.max_compute_shared_memory {
                16u32
            } else {
                8u32
            },
    {
        let candidates: [u32; 3] = [32, 16, 8];
        let mut i: usize = 0;
        while i < 3
            invariant
                i <= 3,
                candidates@ == seq![32u32, 16u32, 8u32],
                i >= 1 ==> !(32 * 32 <= self.max_compute_invocations_per_workgroup && 2 * 32 * 32
                    * 4 <= self.max_compute_shared_memory),
                i >= 2 ==> !(16 * 16 <= self.max_compute_invocations_per_workgroup && 2 * 16 * 16
                    * 4 <= self.max_compute_shared_memory),
            decreases 3 - i,
        {
            let tile = candidates[i];
            assert(tile <= 32);
            let wg_threads = tile * tile;
            let shared_bytes = 2 * tile * tile * 4;
            if wg_threads <= self.max_compute_invocations_per_workgroup && shared_bytes
                <= self.max_compute_shared_memory {
                return tile;
            }
            i = i + 1;
        }
        8
    }

    /// Workgroup size for a square tile: the tile's area, capped at the
    /// invocation limit.
    pub fn optimal_workgroup_size(&self, tile: u32) -> (r: u32)
        requires
            tile * tile <= u32::MAX,
        ensures
            r == if tile * tile < self.max_compute_invocations_per_workgroup {
                tile * tile
            } else {
                self.max_compute_invocations_per_workgroup as int
            },
    {
        let preferred = tile * tile;
        if preferred < self.max_compute_invocations_per_workgroup {
            preferred
        } else {
            self.max_compute_invocations_per_workgroup
        }
    }
}

} // verus!
