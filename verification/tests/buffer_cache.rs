//! The instance buffer cache: creation, amortized growth, stable handles.

use sprite_instancing::arena::{Arena, ArenaId, Slot};
use sprite_instancing::components::{
    GroupState, InstancedSprite, InstancedSpritesheet, SpriteEntity, SpriteInstancingGroup,
    SpriteTransform, Vec3Bits,
};
use sprite_instancing::extract::{
    ExtractedComponentCache, WorldSnapshot, CAPACITY_INCREMENT, INITIAL_CAPACITY,
};
use sprite_instancing::gpu::{GpuCommand, HandleAllocator};

fn sprite(x: f32, y: f32, z: f32, sx: f32, sy: f32, tile: u32, group_id: ArenaId) -> SpriteEntity {
    SpriteEntity {
        transform: SpriteTransform {
            translation: Vec3Bits { x: x.to_bits(), y: y.to_bits(), z: z.to_bits() },
            scale: Vec3Bits { x: sx.to_bits(), y: sy.to_bits(), z: 1.0f32.to_bits() },
        },
        sprite: InstancedSprite { texture_index: tile, group_id },
    }
}

fn world_with_group(k: usize) -> (WorldSnapshot, ArenaId) {
    let mut sprites: Arena<SpriteEntity> = Arena::new();
    let mut groups: Arena<GroupState> = Arena::new();
    // group id becomes the first inserted group; members point at it later,
    // so reserve it by inserting a placeholder group first.
    let group_id = groups.insert(GroupState {
        spritesheet: InstancedSpritesheet { width_tiles: 4, height_tiles: 4, image: 7 },
        group: SpriteInstancingGroup { entities: Vec::new() },
    });
    let mut members = Vec::new();
    for i in 0..k {
        members.push(sprites.insert(sprite(i as f32, 0.0, 0.0, 1.0, 1.0, i as u32, group_id)));
    }
    groups.remove(group_id);
    let group_id = groups.insert(GroupState {
        spritesheet: InstancedSpritesheet { width_tiles: 4, height_tiles: 4, image: 7 },
        group: SpriteInstancingGroup { entities: members },
    });
    (WorldSnapshot { sprites, groups }, group_id)
}

fn run_extract(
    world: &WorldSnapshot,
    cache: &mut ExtractedComponentCache,
    alloc: &mut HandleAllocator,
) -> Vec<GpuCommand> {
    let mut commands = Vec::new();
    let (_groups, errors) = sprite_instancing::extract::extract_instancing_groups(
        world, cache, alloc, &mut commands,
    );
    assert!(errors.is_empty());
    commands
}

#[test]
fn first_upload_sets_length_and_initial_capacity() {
    let (world, group_id) = world_with_group(3);
    let mut cache = ExtractedComponentCache::new();
    let mut alloc = HandleAllocator::new();
    run_extract(&world, &mut cache, &mut alloc);
    let entry = *cache.instancing_buffers.get(group_id).expect("entry created");
    assert_eq!(entry.length, 3);
    assert_eq!(entry.capacity, INITIAL_CAPACITY);
    assert!(entry.capacity >= entry.length);
}

#[test]
fn growth_is_amortized_to_2048_for_2000_records() {
    assert_eq!(INITIAL_CAPACITY, 1024);
    assert_eq!(CAPACITY_INCREMENT, 512);
    let (world, group_id) = world_with_group(2000);
    let mut cache = ExtractedComponentCache::new();
    let mut alloc = HandleAllocator::new();
    run_extract(&world, &mut cache, &mut alloc);
    let entry = *cache.instancing_buffers.get(group_id).expect("entry created");
    assert_eq!(entry.length, 2000);
    assert_eq!(entry.capacity, 2048);
}

#[test]
fn reallocation_happens_only_on_overflow() {
    // k = 2000 overflows the fresh 1024-record buffer: the handle changes.
    let (world, group_id) = world_with_group(2000);
    let mut cache = ExtractedComponentCache::new();
    let mut alloc = HandleAllocator::new();
    let mut commands = Vec::new();
    sprite_instancing::extract::extract_instancing_groups(
        &world, &mut cache, &mut alloc, &mut commands,
    );
    let first = *cache.instancing_buffers.get(group_id).unwrap();
    let create_count = commands
        .iter()
        .filter(|c| matches!(c, GpuCommand::CreateBuffer { .. }))
        .count();
    assert_eq!(create_count, 2, "initial allocation plus one reallocation");

    // A second frame with the same records fits: the handle is stable.
    let commands2 = run_extract(&world, &mut cache, &mut alloc);
    let second = *cache.instancing_buffers.get(group_id).unwrap();
    assert_eq!(second.device_buffer, first.device_buffer, "buffer identity unchanged");
    assert_eq!(second.capacity, first.capacity);
    assert!(commands2
        .iter()
        .all(|c| !matches!(c, GpuCommand::CreateBuffer { .. })));
}

#[test]
fn no_reallocation_below_capacity() {
    let (world, group_id) = world_with_group(3);
    let mut cache = ExtractedComponentCache::new();
    let mut alloc = HandleAllocator::new();
    run_extract(&world, &mut cache, &mut alloc);
    let first = *cache.instancing_buffers.get(group_id).unwrap();
    let (world2, group_id2) = world_with_group(5);
    assert_eq!(group_id, group_id2, "same slot, same generation, same group");
    run_extract(&world2, &mut cache, &mut alloc);
    let second = *cache.instancing_buffers.get(group_id).unwrap();
    assert_eq!(second.device_buffer, first.device_buffer);
    assert_eq!(second.length, 5);
    assert_eq!(second.capacity, INITIAL_CAPACITY);
}

#[test]
fn removing_one_member_shrinks_length_not_capacity() {
    let k = 6;
    let (mut world, group_id) = world_with_group(k);
    let mut cache = ExtractedComponentCache::new();
    let mut alloc = HandleAllocator::new();
    run_extract(&world, &mut cache, &mut alloc);
    let before = *cache.instancing_buffers.get(group_id).unwrap();
    assert_eq!(before.length, k);

    // Remove one member from the group and from the world; the group
    // itself keeps its identity.
    let gone = {
        let state = world.groups.get(group_id).unwrap();
        state.group.entities[0]
    };
    world.sprites.remove(gone);
    match &mut world.groups.slots[group_id.index] {
        Slot::Occupied { value, .. } => {
            value.group.entities.remove(0);
        }
        Slot::Free { .. } => unreachable!(),
    }

    run_extract(&world, &mut cache, &mut alloc);
    let after = *cache.instancing_buffers.get(group_id).unwrap();
    assert_eq!(after.length, k - 1);
    assert!(after.capacity >= before.capacity, "capacity never decreases");
}

#[test]
fn release_group_drops_cache_entries() {
    let (world, group_id) = world_with_group(3);
    let mut cache = ExtractedComponentCache::new();
    let mut alloc = HandleAllocator::new();
    run_extract(&world, &mut cache, &mut alloc);
    assert!(cache.instancing_buffers.get(group_id).is_some());
    assert!(cache.spritesheets.get(group_id).is_some());
    cache.release_group(group_id);
    assert!(cache.instancing_buffers.get(group_id).is_none());
    assert!(cache.spritesheets.get(group_id).is_none());
}

#[test]
fn spritesheet_uniform_holds_grid_size_words() {
    let (world, group_id) = world_with_group(1);
    let mut cache = ExtractedComponentCache::new();
    let mut alloc = HandleAllocator::new();
    let commands = run_extract(&world, &mut cache, &mut alloc);
    let sheet = *cache.spritesheets.get(group_id).expect("sheet cached");
    assert_eq!(sheet.image, 7);
    let uniform = commands
        .iter()
        .find_map(|c| match c {
            GpuCommand::CreateBufferWithData { buffer, bytes } if *buffer == sheet.size_buffer => {
                Some(bytes.clone())
            }
            _ => None,
        })
        .expect("uniform buffer created");
    // width 4 and height 4, two little-endian words.
    assert_eq!(uniform, vec![4, 0, 0, 0, 4, 0, 0, 0]);
}
