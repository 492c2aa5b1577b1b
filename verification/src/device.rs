//! Compute devices and the choice of a CPU hashing routine.

use vstd::prelude::*;
use vstd::string::*;
use crate::job::CPU_TASK_SIZE;

verus! {

/// The five CPU hashing routines, slowest first.
#[derive(Clone, Copy, Debug, PartialEq, Eq, Structural)]
pub enum SimdLevel {
    Scalar,
    Sse2,
    Avx,
    Avx2,
    Avx512,
}

/// The routine that a capability label selects. Every label other than the
/// four that name an instruction set selects the scalar routine.
pub open spec fn simd_level_of(label: Seq<char>) -> SimdLevel {
    if label == "AVX512F"@ {
        SimdLevel::Avx512
    } else if label == "AVX2"@ {
        SimdLevel::Avx2
    } else if label == "AVX"@ {
        SimdLevel::Avx
    } else if label == "SSE2"@ {
        SimdLevel::Sse2
    } else {
        SimdLevel::Scalar
    }
}

impl SimdLevel {
    /// Chooses the routine for a capability label.
    pub fn from_label(label: &String) -> (level: SimdLevel)
        ensures
            level == simd_level_of(label@),
            label@ != "AVX512F"@ && label@ != "AVX2"@ && label@ != "AVX"@ && label@ != "SSE2"@
                ==> level == SimdLevel::Scalar,
    {
        if *label == String::from_str("AVX512F") {
            SimdLevel::Avx512
        } else if *label == String::from_str("AVX2") {
            SimdLevel::Avx2
        } else if *label == String::from_str("AVX") {
            SimdLevel::Avx
        } else if *label == String::from_str("SSE2") {
            SimdLevel::Sse2
        } else {
            SimdLevel::Scalar
        }
    }
}

/// Status of a completion that a CPU routine reports.
pub const STATUS_OK: u8 = 0;

/// Status of a completion that a GPU worker reports.
pub const STATUS_ALT_PATH: u8 = 1;

/// Where a work item runs: on the CPU with one of the hashing routines, or on
/// the GPU with the given index, whose preferred batch is `worksize` nonces.
#[derive(Clone, Copy, Debug, PartialEq, Eq, Structural)]
pub enum Device {
    Cpu { simd_level: SimdLevel },
    Gpu { index: u8, worksize: u64 },
}

impl Device {
    /// A GPU's identity must fit the completion protocol, which numbers the
    /// GPUs from 1, and its batch must hold at least one nonce.
    pub open spec fn wf(&self) -> bool {
        match *self {
            Device::Cpu { .. } => true,
            Device::Gpu { index, worksize } => index < u8::MAX && worksize > 0,
        }
    }

    /// Nonces per work item on this device.
    pub open spec fn spec_batch_size(&self) -> nat {
        match *self {
            Device::Cpu { .. } => CPU_TASK_SIZE as nat,
            Device::Gpu { worksize, .. } => worksize as nat,
        }
    }

    /// Identity in the completion protocol: 0 for the CPU, index + 1 for a GPU.
    pub open spec fn spec_device_id(&self) -> nat {
        match *self {
            Device::Cpu { .. } => 0,
            Device::Gpu { index, .. } => (index + 1) as nat,
        }
    }

    /// Status that the device's completions carry.
    pub open spec fn spec_status(&self) -> u8 {
        match *self {
            Device::Cpu { .. } => STATUS_OK,
            Device::Gpu { .. } => STATUS_ALT_PATH,
        }
    }

    /// Nonces per work item on this device.
    pub fn batch_size(&self) -> (batch: u64)
        ensures
            batch == self.spec_batch_size(),
            self.wf() ==> batch > 0,
    {
        match *self {
            Device::Cpu { .. } => CPU_TASK_SIZE,
            Device::Gpu { worksize, .. } => worksize,
        }
    }

    /// Identity in the completion protocol.
    pub fn device_id(&self) -> (id: u8)
        requires
            self.wf(),
        ensures
            id == self.spec_device_id(),
    {
        match *self {
            Device::Cpu { .. } => 0,
            Device::Gpu { index, .. } => index + 1,
        }
    }

    /// Status that the device's completions carry.
    pub fn status(&self) -> (status: u8)
        ensures
            status == self.spec_status(),
    {
        match *self {
            Device::Cpu { .. } => STATUS_OK,
            Device::Gpu { .. } => STATUS_ALT_PATH,
        }
    }
}

} // verus!
