//! Handles and commands at the boundary to the GPU backend.
//!
//! The pipeline never talks to a device. It names GPU-side objects (buffers,
//! bind groups, specialized pipelines) by `u64` handles drawn from a
//! [`HandleAllocator`], and emits [`GpuCommand`]s saying what the backend
//! must do under those handles. Command recording is synchronous; execution
//! is the backend's concern.

use vstd::prelude::*;

verus! {

/// Issues distinct `u64` handles, counting up from zero.
pub struct HandleAllocator {
    pub next: u64,
}

impl HandleAllocator {
    pub fn new() -> (r: HandleAllocator)
        ensures
            r.next == 0,
    {
        HandleAllocator { next: 0 }
    }

    /// A handle never issued before; all handles issued earlier are below
    /// `next`.
    pub fn fresh(&mut self) -> (r: u64)
        requires
            old(self).next < u64::MAX,
        ensures
            r == old(self).next,
            final(self).next == old(self).next + 1,
    {
        let r = self.next;
        self.next = self.next + 1;
        r
    }
}

/// One instruction to the GPU backend.
#[derive(Clone, PartialEq, Eq, Debug)]
pub enum GpuCommand {
    /// Allocate an uninitialized vertex buffer of `size` bytes under handle
    /// `buffer`.
    CreateBuffer { buffer: u64, size: u64 },
    /// Allocate a buffer initialized with `bytes` under handle `buffer`.
    CreateBufferWithData { buffer: u64, bytes: Vec<u8> },
    /// Overwrite `buffer` from byte `offset` on with `bytes`.
    WriteBuffer { buffer: u64, offset: u64, bytes: Vec<u8> },
    /// Build bind group `bind_group`: texture view and sampler of `image`
    /// plus the tile-grid-size uniform buffer `size_buffer`.
    CreateBindGroup { bind_group: u64, image: u64, size_buffer: u64 },
    /// Specialize the render pipeline for `msaa_samples` and `hdr` under
    /// handle `pipeline`.
    SpecializePipeline { pipeline: u64, msaa_samples: u32, hdr: bool },
}

} // verus!
