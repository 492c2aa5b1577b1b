//! Work items: what one call of a hashing routine is asked to do.

use vstd::prelude::*;
use crate::device::Device;
use crate::device::SimdLevel;
use crate::job::NONCE_SIZE;

verus! {

/// The bytes `[offset, offset + len)` of a buffer, as handed to a native CPU
/// routine. A work item holds the claim on the bytes that it alone writes.
#[derive(Clone, Copy, Debug, PartialEq, Eq, Structural)]
pub struct SafeCVoid {
    pub offset: u64,
    pub len: u64,
}

/// The bytes `[offset, offset + len)` of a buffer, as handed to a GPU kernel.
#[derive(Clone, Copy, Debug, PartialEq, Eq, Structural)]
pub struct SafePointer {
    pub offset: u64,
    pub len: u64,
}

impl SafeCVoid {
    /// One past the last byte of the claim.
    pub open spec fn spec_end(&self) -> nat {
        (self.offset + self.len) as nat
    }

    /// The claim lies inside a buffer of `buffer_size` bytes.
    pub open spec fn within(&self, buffer_size: nat) -> bool {
        self.offset + self.len <= buffer_size
    }

    /// Claims `len` bytes from `offset` on in a buffer of `buffer_size`
    /// bytes, or `None` when they do not all lie in the buffer.
    pub fn new(buffer_size: u64, offset: u64, len: u64) -> (claim: Option<SafeCVoid>)
        ensures
            claim is Some <==> offset + len <= buffer_size,
            claim matches Some(c) ==> c == (SafeCVoid { offset, len }),
    {
        if offset <= buffer_size && len <= buffer_size - offset {
            Some(SafeCVoid { offset, len })
        } else {
            None
        }
    }

    /// Tests whether the claim lies inside a buffer of `buffer_size` bytes.
    pub fn fits(&self, buffer_size: u64) -> (inside: bool)
        ensures
            inside == self.within(buffer_size as nat),
    {
        self.offset <= buffer_size && self.len <= buffer_size - self.offset
    }
}

impl SafePointer {
    /// One past the last byte of the claim.
    pub open spec fn spec_end(&self) -> nat {
        (self.offset + self.len) as nat
    }

    /// The claim lies inside a buffer of `buffer_size` bytes.
    pub open spec fn within(&self, buffer_size: nat) -> bool {
        self.offset + self.len <= buffer_size
    }

    /// Claims `len` bytes from `offset` on in a buffer of `buffer_size`
    /// bytes, or `None` when they do not all lie in the buffer.
    pub fn new(buffer_size: u64, offset: u64, len: u64) -> (claim: Option<SafePointer>)
        ensures
            claim is Some <==> offset + len <= buffer_size,
            claim matches Some(c) ==> c == (SafePointer { offset, len }),
    {
        if offset <= buffer_size && len <= buffer_size - offset {
            Some(SafePointer { offset, len })
        } else {
            None
        }
    }

    /// Tests whether the claim lies inside a buffer of `buffer_size` bytes.
    pub fn fits(&self, buffer_size: u64) -> (inside: bool)
        ensures
            inside == self.within(buffer_size as nat),
    {
        self.offset <= buffer_size && self.len <= buffer_size - self.offset
    }
}

/// One call of a CPU hashing routine: fill the nonce slots
/// `[chunk_offset, chunk_offset + local_nonces)` of a buffer that holds
/// `cache_size` nonces with the nonces of account `numeric_id` from the
/// absolute position `local_startnonce` on.
#[derive(Clone, Copy, Debug, PartialEq, Eq, Structural)]
pub struct HasherTaskInfo {
    pub cache: SafeCVoid,
    pub cache_size: u64,
    pub chunk_offset: u64,
    pub numeric_id: u64,
    pub local_startnonce: u64,
    pub local_nonces: u64,
}

/// One call of a GPU kernel, with the fields of [`HasherTaskInfo`].
#[derive(Clone, Copy, Debug, PartialEq, Eq, Structural)]
pub struct GPUHasherTaskInfo {
    pub cache: SafePointer,
    pub cache_size: u64,
    pub chunk_offset: u64,
    pub numeric_id: u64,
    pub local_startnonce: u64,
    pub local_nonces: u64,
}

impl HasherTaskInfo {
    /// The item's slots lie in the buffer, its claim is the bytes of exactly
    /// those slots, and its nonces have positions that fit in 64 bits.
    pub open spec fn wf(&self) -> bool {
        &&& self.chunk_offset + self.local_nonces <= self.cache_size
        &&& self.cache_size * NONCE_SIZE <= u64::MAX
        &&& self.cache.offset == self.chunk_offset * NONCE_SIZE
        &&& self.cache.len == self.local_nonces * NONCE_SIZE
        &&& self.local_startnonce + self.local_nonces <= u64::MAX + 1
    }
}

impl GPUHasherTaskInfo {
    /// The item's slots lie in the buffer, its claim is the bytes of exactly
    /// those slots, and its nonces have positions that fit in 64 bits.
    pub open spec fn wf(&self) -> bool {
        &&& self.chunk_offset + self.local_nonces <= self.cache_size
        &&& self.cache_size * NONCE_SIZE <= u64::MAX
        &&& self.cache.offset == self.chunk_offset * NONCE_SIZE
        &&& self.cache.len == self.local_nonces * NONCE_SIZE
        &&& self.local_startnonce + self.local_nonces <= u64::MAX + 1
    }
}

/// A unit of work together with the device that it is meant for.
#[derive(Clone, Copy, Debug, PartialEq, Eq, Structural)]
#[allow(inconsistent_fields)]
pub enum WorkItem {
    Cpu { task: HasherTaskInfo, simd_level: SimdLevel },
    Gpu { task: GPUHasherTaskInfo, device_index: u8 },
}

impl WorkItem {
    pub open spec fn wf(&self) -> bool {
        match *self {
            WorkItem::Cpu { task, .. } => task.wf(),
            WorkItem::Gpu { task, device_index } => task.wf() && device_index < u8::MAX,
        }
    }

    /// First nonce slot of the buffer that the item fills.
    pub open spec fn spec_chunk_offset(&self) -> nat {
        match *self {
            WorkItem::Cpu { task, .. } => task.chunk_offset as nat,
            WorkItem::Gpu { task, .. } => task.chunk_offset as nat,
        }
    }

    /// Number of nonces that the item produces.
    pub open spec fn spec_local_nonces(&self) -> nat {
        match *self {
            WorkItem::Cpu { task, .. } => task.local_nonces as nat,
            WorkItem::Gpu { task, .. } => task.local_nonces as nat,
        }
    }

    /// One past the last nonce slot that the item fills.
    pub open spec fn spec_chunk_end(&self) -> nat {
        self.spec_chunk_offset() + self.spec_local_nonces()
    }

    /// Absolute position of the item's first nonce.
    pub open spec fn spec_local_startnonce(&self) -> nat {
        match *self {
            WorkItem::Cpu { task, .. } => task.local_startnonce as nat,
            WorkItem::Gpu { task, .. } => task.local_startnonce as nat,
        }
    }

    /// First byte of the buffer that the item may write.
    pub open spec fn spec_byte_offset(&self) -> nat {
        match *self {
            WorkItem::Cpu { task, .. } => task.cache.offset as nat,
            WorkItem::Gpu { task, .. } => task.cache.offset as nat,
        }
    }

    /// One past the last byte of the buffer that the item may write.
    pub open spec fn spec_byte_end(&self) -> nat {
        match *self {
            WorkItem::Cpu { task, .. } => task.cache.spec_end(),
            WorkItem::Gpu { task, .. } => task.cache.spec_end(),
        }
    }

    /// The device that the item is meant for, but for a GPU's worksize,
    /// which an item does not carry.
    pub open spec fn spec_device_id(&self) -> nat {
        match *self {
            WorkItem::Cpu { .. } => 0,
            WorkItem::Gpu { device_index, .. } => (device_index + 1) as nat,
        }
    }

    pub fn chunk_offset(&self) -> (offset: u64)
        ensures
            offset == self.spec_chunk_offset(),
    {
        match *self {
            WorkItem::Cpu { task, .. } => task.chunk_offset,
            WorkItem::Gpu { task, .. } => task.chunk_offset,
        }
    }

    pub fn local_nonces(&self) -> (count: u64)
        ensures
            count == self.spec_local_nonces(),
    {
        match *self {
            WorkItem::Cpu { task, .. } => task.local_nonces,
            WorkItem::Gpu { task, .. } => task.local_nonces,
        }
    }

    pub fn local_startnonce(&self) -> (start: u64)
        ensures
            start == self.spec_local_startnonce(),
    {
        match *self {
            WorkItem::Cpu { task, .. } => task.local_startnonce,
            WorkItem::Gpu { task, .. } => task.local_startnonce,
        }
    }
}

/// The work item for the slots `[chunk_offset, chunk_offset + local_nonces)`
/// of a buffer of `cache_size` nonces, in a round that starts
/// `nonces_hashed` nonces into the job.
pub open spec fn item_for(
    numeric_id: u64,
    start_nonce: u64,
    nonces_hashed: u64,
    cache_size: u64,
    device: Device,
    chunk_offset: nat,
    local_nonces: nat,
) -> WorkItem {
    let local_startnonce = (start_nonce + nonces_hashed + chunk_offset) as u64;
    let byte_offset = (chunk_offset * NONCE_SIZE) as u64;
    let byte_len = (local_nonces * NONCE_SIZE) as u64;
    match device {
        Device::Cpu { simd_level } => WorkItem::Cpu {
            task: HasherTaskInfo {
                cache: SafeCVoid { offset: byte_offset, len: byte_len },
                cache_size,
                chunk_offset: chunk_offset as u64,
                numeric_id,
                local_startnonce,
                local_nonces: local_nonces as u64,
            },
            simd_level,
        },
        Device::Gpu { index, .. } => WorkItem::Gpu {
            task: GPUHasherTaskInfo {
                cache: SafePointer { offset: byte_offset, len: byte_len },
                cache_size,
                chunk_offset: chunk_offset as u64,
                numeric_id,
                local_startnonce,
                local_nonces: local_nonces as u64,
            },
            device_index: index,
        },
    }
}

} // verus!
