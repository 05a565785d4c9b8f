//! Simulation-side data the render stage reads, and the packed per-instance
//! record derived from it.
//!
//! Float quantities are carried as IEEE 754 bit patterns in `u32`: the
//! pipeline never does float arithmetic on them, it only snapshots, packs and
//! uploads them, and the wire format stores exactly these 32-bit patterns.

use vstd::prelude::*;

use crate::arena::ArenaId;

verus! {

/// Bit patterns of a 3-component float vector.
#[derive(Clone, Copy, PartialEq, Eq, Structural, Debug)]
pub struct Vec3Bits {
    pub x: u32,
    pub y: u32,
    pub z: u32,
}

/// Bit patterns of a 2-component float vector.
#[derive(Clone, Copy, PartialEq, Eq, Structural, Debug)]
pub struct Vec2Bits {
    pub x: u32,
    pub y: u32,
}

/// Externally owned placement of an entity: translation and scale. The
/// instancing pipeline uses the translation and the x/y components of the
/// scale.
#[derive(Clone, Copy, PartialEq, Eq, Structural, Debug)]
pub struct SpriteTransform {
    pub translation: Vec3Bits,
    pub scale: Vec3Bits,
}

/// Per-entity sprite component: which tile of the group's spritesheet the
/// sprite shows, and which instancing group it belongs to.
#[derive(Clone, Copy, PartialEq, Eq, Structural, Debug)]
pub struct InstancedSprite {
    pub texture_index: u32,
    pub group_id: ArenaId,
}

/// A texture atlas subdivided into a uniform tile grid, referring to an image
/// owned by the asset collaborator.
#[derive(Clone, Copy, PartialEq, Eq, Structural, Debug)]
pub struct InstancedSpritesheet {
    /// Width of the spritesheet in tiles.
    pub width_tiles: u32,
    pub height_tiles: u32,
    pub image: u64,
}

impl InstancedSpritesheet {
    /// The tile grid must be at least one tile wide.
    pub open spec fn wf(self) -> bool {
        self.width_tiles > 0
    }
}

/// Membership of one instancing group: the set of entities drawn with one
/// instanced draw call. A group with no members is valid and simply produces
/// no draw output.
#[derive(PartialEq, Eq, Debug)]
pub struct SpriteInstancingGroup {
    pub entities: Vec<ArenaId>,
}

impl SpriteInstancingGroup {
    /// Membership is a set: no entity is listed twice.
    pub open spec fn wf(self) -> bool {
        forall|i: int, j: int|
            0 <= i < j < self.entities@.len() ==> self.entities@[i] != self.entities@[j]
    }
}

/// The packed per-instance record, field for field the wire-exact GPU
/// vertex-buffer element: 3 position floats, 2 scale floats, one tile index.
#[derive(Clone, Copy, PartialEq, Eq, Structural, Debug)]
pub struct SpriteInstanceData {
    pub i_position: Vec3Bits,
    pub i_scale: Vec2Bits,
    pub i_tex_index: u32,
}

/// Everything the simulation owns about one sprite entity.
#[derive(Clone, Copy, PartialEq, Eq, Structural, Debug)]
pub struct SpriteEntity {
    pub transform: SpriteTransform,
    pub sprite: InstancedSprite,
}

/// Everything the simulation owns about one instancing group.
#[derive(PartialEq, Eq, Debug)]
pub struct GroupState {
    pub spritesheet: InstancedSpritesheet,
    pub group: SpriteInstancingGroup,
}

/// The record extracted for one live member: its translation, the x/y part
/// of its scale, and its tile index.
pub open spec fn record_of(e: SpriteEntity) -> SpriteInstanceData {
    SpriteInstanceData {
        i_position: e.transform.translation,
        i_scale: Vec2Bits { x: e.transform.scale.x, y: e.transform.scale.y },
        i_tex_index: e.sprite.texture_index,
    }
}

/// Builds the record for one member entity.
pub fn extract_record(e: &SpriteEntity) -> (r: SpriteInstanceData)
    ensures
        r == record_of(*e),
{
    SpriteInstanceData {
        i_position: e.transform.translation,
        i_scale: Vec2Bits { x: e.transform.scale.x, y: e.transform.scale.y },
        i_tex_index: e.sprite.texture_index,
    }
}

} // verus!
