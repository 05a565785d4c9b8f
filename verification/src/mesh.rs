//! The shared unit-quad mesh every sprite instance is drawn with.
//!
//! Six vertices (two triangles) cover the unit square centered on the
//! origin; each vertex carries a 3-float position and a 2-float texture
//! coordinate, as IEEE 754 bit patterns. The mesh is created once at
//! render-stage startup, not re-checked every frame.

use vstd::prelude::*;

use crate::gpu::{GpuCommand, HandleAllocator};
use crate::wire::{encode_words, words_bytes};

verus! {

/// Bit pattern of the float one half.
pub const F32_HALF_BITS: u32 = 0x3F00_0000;

/// Bit pattern of the float minus one half.
pub const F32_NEG_HALF_BITS: u32 = 0xBF00_0000;

/// Bit pattern of the float zero.
pub const F32_ZERO_BITS: u32 = 0;

/// Bit pattern of the float one.
pub const F32_ONE_BITS: u32 = 0x3F80_0000;

/// Byte stride of one quad vertex: 3 position words and 2 texture words.
pub const QUAD_VERTEX_STRIDE: usize = 20;

/// Byte offset of a quad vertex's position.
pub const QUAD_POSITION_OFFSET: usize = 0;

/// Byte offset of a quad vertex's texture coordinates.
pub const QUAD_TEX_COORDS_OFFSET: usize = 12;

/// Number of vertices of the quad mesh.
pub const QUAD_VERTEX_COUNT: u32 = 6;

/// The quad's vertex words in buffer order: per vertex x, y, z, u, v.
/// Corners in triangle-list order: bottom right, top right, top left, then
/// top left, bottom left, bottom right.
pub open spec fn quad_vertex_words() -> Seq<u32> {
    seq![
        F32_HALF_BITS, F32_NEG_HALF_BITS, F32_ZERO_BITS, F32_ONE_BITS, F32_ONE_BITS,
        F32_HALF_BITS, F32_HALF_BITS, F32_ZERO_BITS, F32_ONE_BITS, F32_ZERO_BITS,
        F32_NEG_HALF_BITS, F32_HALF_BITS, F32_ZERO_BITS, F32_ZERO_BITS, F32_ZERO_BITS,
        F32_NEG_HALF_BITS, F32_HALF_BITS, F32_ZERO_BITS, F32_ZERO_BITS, F32_ZERO_BITS,
        F32_NEG_HALF_BITS, F32_NEG_HALF_BITS, F32_ZERO_BITS, F32_ZERO_BITS, F32_ONE_BITS,
        F32_HALF_BITS, F32_NEG_HALF_BITS, F32_ZERO_BITS, F32_ONE_BITS, F32_ONE_BITS,
    ]
}

/// The GPU-resident unit-quad mesh: its vertex buffer handle and vertex
/// count.
#[derive(Clone, Copy, PartialEq, Eq, Structural, Debug)]
pub struct InstancedSpriteMesh {
    pub quad_vertex_buffer: u64,
    pub vertex_count: u32,
}

/// One-time render-stage startup step: builds the unit-quad vertex buffer
/// and returns the mesh that every instanced draw binds at slot 0.
pub fn setup_entity_instancing_mesh(
    alloc: &mut HandleAllocator,
    commands: &mut Vec<GpuCommand>,
) -> (mesh: InstancedSpriteMesh)
    requires
        old(alloc).next < u64::MAX,
    ensures
        mesh.vertex_count == QUAD_VERTEX_COUNT,
        mesh.quad_vertex_buffer == old(alloc).next,
        final(alloc).next == old(alloc).next + 1,
        final(commands)@.len() == old(commands)@.len() + 1,
        final(commands)@.take(old(commands)@.len() as int) == old(commands)@,
        (match final(commands)@.last() {
            GpuCommand::CreateBufferWithData { buffer, bytes } => {
                &&& buffer == mesh.quad_vertex_buffer
                &&& bytes@ == words_bytes(quad_vertex_words())
            },
            _ => false,
        }),
{
    let mut words: Vec<u32> = Vec::new();
    words.push(F32_HALF_BITS);
    words.push(F32_NEG_HALF_BITS);
    words.push(F32_ZERO_BITS);
    words.push(F32_ONE_BITS);
    words.push(F32_ONE_BITS);
    words.push(F32_HALF_BITS);
    words.push(F32_HALF_BITS);
    words.push(F32_ZERO_BITS);
    words.push(F32_ONE_BITS);
    words.push(F32_ZERO_BITS);
    words.push(F32_NEG_HALF_BITS);
    words.push(F32_HALF_BITS);
    words.push(F32_ZERO_BITS);
    words.push(F32_ZERO_BITS);
    words.push(F32_ZERO_BITS);
    words.push(F32_NEG_HALF_BITS);
    words.push(F32_HALF_BITS);
    words.push(F32_ZERO_BITS);
    words.push(F32_ZERO_BITS);
    words.push(F32_ZERO_BITS);
    words.push(F32_NEG_HALF_BITS);
    words.push(F32_NEG_HALF_BITS);
    words.push(F32_ZERO_BITS);
    words.push(F32_ZERO_BITS);
    words.push(F32_ONE_BITS);
    words.push(F32_HALF_BITS);
    words.push(F32_NEG_HALF_BITS);
    words.push(F32_ZERO_BITS);
    words.push(F32_ONE_BITS);
    words.push(F32_ONE_BITS);
    proof {
        assert(words@ =~= quad_vertex_words());
    }
    let bytes = encode_words(&words);
    let quad_vertex_buffer = alloc.fresh();
    commands.push(GpuCommand::CreateBufferWithData { buffer: quad_vertex_buffer, bytes });
    proof {
        assert(commands@.take(old(commands)@.len() as int) =~= old(commands)@);
    }
    InstancedSpriteMesh { quad_vertex_buffer, vertex_count: QUAD_VERTEX_COUNT }
}

} // verus!
