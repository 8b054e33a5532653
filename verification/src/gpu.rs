use vstd::prelude::*;

use crate::strutil::{contains_seq_lower, str_contains_lower};

verus! {

/// The vendor a device name implies.
#[derive(Clone, Copy, Debug, PartialEq, Eq, Structural)]
pub enum GpuVendor {
    Nvidia,
    Amd,
    Intel,
    Apple,
    Unknown,
}

/// The vendor a device name implies, matched case-insensitively.
pub open spec fn spec_vendor_from_name(name: Seq<char>) -> GpuVendor {
    if contains_seq_lower(name, "nvidia"@) {
        GpuVendor::Nvidia
    } else if contains_seq_lower(name, "amd"@) || contains_seq_lower(name, "radeon"@) {
        GpuVendor::Amd
    } else if contains_seq_lower(name, "intel"@) {
        GpuVendor::Intel
    } else if contains_seq_lower(name, "apple"@) || contains_seq_lower(name, "m1"@)
        || contains_seq_lower(name, "m2"@) || contains_seq_lower(name, "m3"@) {
        GpuVendor::Apple
    } else {
        GpuVendor::Unknown
    }
}

impl GpuVendor {
    /// Classifies a device name by its vendor substrings.
    pub fn from_name(name: &str) -> (r: GpuVendor)
        ensures
            r == spec_vendor_from_name(name@),
    {
        if str_contains_lower(name, "nvidia") {
            GpuVendor::Nvidia
        } else if str_contains_lower(name, "amd") || str_contains_lower(name, "radeon") {
            GpuVendor::Amd
        } else if str_contains_lower(name, "intel") {
            GpuVendor::Intel
        } else if str_contains_lower(name, "apple") || str_contains_lower(name, "m1")
            || str_contains_lower(name, "m2") || str_contains_lower(name, "m3") {
            GpuVendor::Apple
        } else {
            GpuVendor::Unknown
        }
    }
}

/// What the shell detected about the accelerator: its name, its memory
/// in MiB (total and used), its vendor, how it was detected, and
/// whether it is an NPU sharing system memory.
#[derive(Clone, Debug)]
pub struct GpuInfo {
    pub name: String,
    pub vram_used_mb: u64,
    pub vram_total_mb: u64,
    pub vendor: GpuVendor,
    pub detection_method: String,
    pub is_npu: bool,
}

/// Device memory not currently in use, in MiB.
pub open spec fn spec_available_mb(total: u64, used: u64) -> int {
    if used > total {
        0int
    } else {
        total - used
    }
}

/// The tile size recommended for a device-memory tier: small tiles
/// when memory is critically low, otherwise by the card's total
/// memory.
pub open spec fn spec_recommended_tile_size(total: u64, used: u64) -> int {
    if spec_available_mb(total, used) < 512 {
        256int
    } else if total <= 2048 {
        192int
    } else if total <= 4096 {
        256int
    } else if total <= 6144 {
        512int
    } else if total <= 8192 {
        768int
    } else if total <= 16384 {
        1024int
    } else {
        1536int
    }
}

/// The batch size recommended for the memory actually free, with half
/// the total assumed used when usage is unknown for a known vendor.
pub open spec fn spec_recommended_batch_size(total: u64, used: u64, vendor: GpuVendor) -> int {
    let assumed_used = if used == 0 && vendor != GpuVendor::Unknown {
        (total / 2) as int
    } else {
        used as int
    };
    let available = if assumed_used > total {
        0int
    } else {
        total - assumed_used
    };
    if available <= 6144 {
        1int
    } else if available <= 12288 {
        2int
    } else {
        4int
    }
}

impl GpuInfo {
    /// Whether the memory not currently in use covers a requirement.
    pub fn has_sufficient_vram(&self, required_mb: u64) -> (r: bool)
        ensures
            r == (spec_available_mb(self.vram_total_mb, self.vram_used_mb) >= required_mb),
    {
        let available_mb = if self.vram_used_mb > self.vram_total_mb {
            0
        } else {
            self.vram_total_mb - self.vram_used_mb
        };
        available_mb >= required_mb
    }

    /// The tile size recommended for this device: 256 when available
    /// memory is critically low (under 512 MiB), else by the tier of
    /// the card's total memory, from 192 for 2 GiB cards up to 1536
    /// beyond 16 GiB.
    pub fn recommended_tile_size(&self) -> (r: u32)
        ensures
            r == spec_recommended_tile_size(self.vram_total_mb, self.vram_used_mb),
            r >= 1,
    {
        let total_mb = self.vram_total_mb;
        let available_mb = if self.vram_used_mb > total_mb {
            0
        } else {
            total_mb - self.vram_used_mb
        };
        if available_mb < 512 {
            return 256;
        }
        if total_mb <= 2048 {
            192
        } else if total_mb <= 4096 {
            256
        } else if total_mb <= 6144 {
            512
        } else if total_mb <= 8192 {
            768
        } else if total_mb <= 16384 {
            1024
        } else {
            1536
        }
    }

    /// The batch size recommended for this device, by the memory that
    /// is actually free: 1 below 6 GiB free, 2 up to 12 GiB, 4 beyond.
    /// When usage reads as zero on a known vendor, half the total is
    /// assumed used.
    pub fn recommended_batch_size(&self) -> (r: usize)
        ensures
            r == spec_recommended_batch_size(self.vram_total_mb, self.vram_used_mb, self.vendor),
            1 <= r <= 8,
    {
        let used_mb = if self.vram_used_mb == 0 && !matches!(self.vendor, GpuVendor::Unknown) {
            self.vram_total_mb / 2
        } else {
            self.vram_used_mb
        };
        let available_mb = if used_mb > self.vram_total_mb {
            0
        } else {
            self.vram_total_mb - used_mb
        };
        if available_mb <= 6144 {
            1
        } else if available_mb <= 12288 {
            2
        } else {
            4
        }
    }
}

} // verus!
