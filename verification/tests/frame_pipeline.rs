//! Whole-frame behaviour: startup, empty groups, readiness, end to end.

use sprite_instancing::arena::{Arena, ArenaId};
use sprite_instancing::components::{
    GroupState, InstancedSprite, InstancedSpritesheet, SpriteEntity, SpriteInstancingGroup,
    SpriteTransform, Vec3Bits,
};
use sprite_instancing::draw::{DrawSpritesInstanced, RenderPassCommand};
use sprite_instancing::extract::{ExtractError, WorldSnapshot};
use sprite_instancing::frame::InstancedSpriteRenderPlugin;
use sprite_instancing::gpu::GpuCommand;
use sprite_instancing::prepare::ViewInfo;
use sprite_instancing::wire::read_record_at;

fn sprite(x: f32, y: f32, z: f32, sx: f32, sy: f32, tile: u32, group_id: ArenaId) -> SpriteEntity {
    SpriteEntity {
        transform: SpriteTransform {
            translation: Vec3Bits { x: x.to_bits(), y: y.to_bits(), z: z.to_bits() },
            scale: Vec3Bits { x: sx.to_bits(), y: sy.to_bits(), z: 1.0f32.to_bits() },
        },
        sprite: InstancedSprite { texture_index: tile, group_id },
    }
}

fn empty_world() -> WorldSnapshot {
    WorldSnapshot { sprites: Arena::new(), groups: Arena::new() }
}

const IMAGE: u64 = 7;

fn sheet() -> InstancedSpritesheet {
    InstancedSpritesheet { width_tiles: 4, height_tiles: 4, image: IMAGE }
}

#[test]
fn startup_creates_the_quad_mesh_once() {
    let (stage, commands) = InstancedSpriteRenderPlugin.build();
    assert_eq!(stage.mesh.vertex_count, 6);
    assert_eq!(commands.len(), 1);
    match &commands[0] {
        GpuCommand::CreateBufferWithData { buffer, bytes } => {
            assert_eq!(*buffer, stage.mesh.quad_vertex_buffer);
            // 6 vertices of 5 little-endian words: 120 bytes.
            assert_eq!(bytes.len(), 120);
            // first vertex starts with x = 0.5: bits 0x3F00_0000.
            assert_eq!(&bytes[0..4], &[0x00, 0x00, 0x00, 0x3F]);
        }
        other => panic!("unexpected startup command: {:?}", other),
    }
}

#[test]
fn plugin_name_is_stable() {
    assert_eq!(InstancedSpriteRenderPlugin.name(), "Entity instanced render plugin");
}

#[test]
fn empty_group_produces_no_draws_and_no_upload() {
    let mut world = empty_world();
    world.groups.insert(GroupState {
        spritesheet: sheet(),
        group: SpriteInstancingGroup { entities: Vec::new() },
    });
    let (mut stage, _) = InstancedSpriteRenderPlugin.build();
    let out = stage.run_frame(&world, &vec![IMAGE], &vec![ViewInfo { hdr: false }], 1);
    assert!(out.extracted.is_empty());
    assert!(out.errors.is_empty());
    assert_eq!(out.phases.len(), 1);
    assert!(out.phases[0].is_empty(), "zero draw items for the empty group");
    assert!(
        out.commands
            .iter()
            .all(|c| !matches!(c, GpuCommand::WriteBuffer { .. })),
        "no upload happened this frame"
    );
}

#[test]
fn unready_image_skips_the_group_until_resolved() {
    let mut world = empty_world();
    let group_id = world.groups.insert(GroupState {
        spritesheet: sheet(),
        group: SpriteInstancingGroup { entities: Vec::new() },
    });
    let member = world.sprites.insert(sprite(0.0, 0.0, 0.0, 1.0, 1.0, 0, group_id));
    match &mut world.groups.slots[group_id.index] {
        sprite_instancing::arena::Slot::Occupied { value, .. } => {
            value.group.entities.push(member);
        }
        _ => unreachable!(),
    }

    let (mut stage, _) = InstancedSpriteRenderPlugin.build();
    // Image not resolved yet: the buffer is uploaded but nothing is drawn.
    let out = stage.run_frame(&world, &Vec::new(), &vec![ViewInfo { hdr: false }], 1);
    assert_eq!(out.extracted.len(), 1);
    assert!(out.phases[0].is_empty(), "not ready is not an error, just a skip");
    // Next frame the image is resolved: exactly one draw item appears.
    let out = stage.run_frame(&world, &vec![IMAGE], &vec![ViewInfo { hdr: false }], 1);
    assert_eq!(out.phases[0].len(), 1);
}

#[test]
fn dangling_member_is_reported_and_skipped() {
    let mut world = empty_world();
    let group_id = world.groups.insert(GroupState {
        spritesheet: sheet(),
        group: SpriteInstancingGroup { entities: Vec::new() },
    });
    let live = world.sprites.insert(sprite(1.0, 2.0, 3.0, 1.0, 1.0, 4, group_id));
    let dangling = world.sprites.insert(sprite(9.0, 9.0, 9.0, 1.0, 1.0, 9, group_id));
    world.sprites.remove(dangling);
    match &mut world.groups.slots[group_id.index] {
        sprite_instancing::arena::Slot::Occupied { value, .. } => {
            value.group.entities.push(live);
            value.group.entities.push(dangling);
        }
        _ => unreachable!(),
    }

    let (mut stage, _) = InstancedSpriteRenderPlugin.build();
    let out = stage.run_frame(&world, &vec![IMAGE], &vec![ViewInfo { hdr: false }], 1);
    assert_eq!(
        out.errors,
        vec![ExtractError::DanglingMember { group: group_id, entity: dangling }]
    );
    let entry = stage.cache.instancing_buffers.get(group_id).unwrap();
    assert_eq!(entry.length, 1, "the live member was still extracted");
}

#[test]
fn three_member_group_end_to_end() {
    let mut world = empty_world();
    let group_id = world.groups.insert(GroupState {
        spritesheet: sheet(),
        group: SpriteInstancingGroup { entities: Vec::new() },
    });
    let triples = [
        (1.0f32, 2.0f32, 0.5f32, 2.0f32, 3.0f32, 0u32),
        (-4.0, 5.5, 0.25, 1.0, 1.0, 7),
        (0.0, -1.0, 0.75, 0.5, 0.5, 15),
    ];
    let mut members = Vec::new();
    for &(x, y, z, sx, sy, tile) in triples.iter() {
        members.push(world.sprites.insert(sprite(x, y, z, sx, sy, tile, group_id)));
    }
    match &mut world.groups.slots[group_id.index] {
        sprite_instancing::arena::Slot::Occupied { value, .. } => {
            value.group.entities = members;
        }
        _ => unreachable!(),
    }

    let (mut stage, _) = InstancedSpriteRenderPlugin.build();
    let out = stage.run_frame(&world, &vec![IMAGE], &vec![ViewInfo { hdr: false }], 1);

    // Exactly one draw item for the group, with instance count 3.
    assert!(out.errors.is_empty());
    assert_eq!(out.phases.len(), 1);
    assert_eq!(out.phases[0].len(), 1);
    let item = out.phases[0][0];
    assert_eq!(item.group, group_id);
    assert_eq!(item.buffer.length, 3);
    assert_eq!(item.sort_key, 0);

    // The uploaded bytes hold exactly the 3 members' data, as a set.
    let upload = out
        .commands
        .iter()
        .find_map(|c| match c {
            GpuCommand::WriteBuffer { buffer, offset, bytes }
                if *buffer == item.buffer.device_buffer =>
            {
                assert_eq!(*offset, 0);
                Some(bytes.clone())
            }
            _ => None,
        })
        .expect("one upload for the group's buffer");
    assert_eq!(upload.len(), 3 * 24);
    let mut seen: Vec<(f32, f32, f32, f32, f32, u32)> = Vec::new();
    for i in 0..3 {
        let r = read_record_at(&upload, i);
        seen.push((
            f32::from_bits(r.i_position.x),
            f32::from_bits(r.i_position.y),
            f32::from_bits(r.i_position.z),
            f32::from_bits(r.i_scale.x),
            f32::from_bits(r.i_scale.y),
            r.i_tex_index,
        ));
    }
    for t in triples.iter() {
        assert!(seen.contains(t), "uploaded records contain {:?}", t);
    }
    assert_eq!(seen.len(), 3);

    // The drawable command replays as one instanced draw of the quad.
    let pass = DrawSpritesInstanced::render(&item, &stage.mesh);
    assert_eq!(
        pass.last(),
        Some(&RenderPassCommand::Draw { vertex_count: 6, instance_count: 3 })
    );
}

#[test]
fn pipeline_variant_is_specialized_once_per_key() {
    let mut world = empty_world();
    world.groups.insert(GroupState {
        spritesheet: sheet(),
        group: SpriteInstancingGroup { entities: Vec::new() },
    });
    let (mut stage, _) = InstancedSpriteRenderPlugin.build();
    let views = vec![ViewInfo { hdr: false }, ViewInfo { hdr: false }, ViewInfo { hdr: true }];
    let out = stage.run_frame(&world, &Vec::new(), &views, 4);
    let specializations = out
        .commands
        .iter()
        .filter(|c| matches!(c, GpuCommand::SpecializePipeline { .. }))
        .count();
    assert_eq!(specializations, 2, "one variant per distinct key, reused across views");
    // A later frame with the same views specializes nothing new.
    let out = stage.run_frame(&world, &Vec::new(), &views, 4);
    assert!(out
        .commands
        .iter()
        .all(|c| !matches!(c, GpuCommand::SpecializePipeline { .. })));
}

#[test]
fn two_groups_one_view_yields_one_item_each() {
    let mut world = empty_world();
    let g1 = world.groups.insert(GroupState {
        spritesheet: sheet(),
        group: SpriteInstancingGroup { entities: Vec::new() },
    });
    let g2 = world.groups.insert(GroupState {
        spritesheet: InstancedSpritesheet { width_tiles: 2, height_tiles: 2, image: 8 },
        group: SpriteInstancingGroup { entities: Vec::new() },
    });
    let m1 = world.sprites.insert(sprite(0.0, 0.0, 0.0, 1.0, 1.0, 0, g1));
    let m2 = world.sprites.insert(sprite(1.0, 0.0, 0.0, 1.0, 1.0, 1, g2));
    let m3 = world.sprites.insert(sprite(2.0, 0.0, 0.0, 1.0, 1.0, 2, g2));
    match &mut world.groups.slots[g1.index] {
        sprite_instancing::arena::Slot::Occupied { value, .. } => value.group.entities.push(m1),
        _ => unreachable!(),
    }
    match &mut world.groups.slots[g2.index] {
        sprite_instancing::arena::Slot::Occupied { value, .. } => {
            value.group.entities.push(m2);
            value.group.entities.push(m3);
        }
        _ => unreachable!(),
    }

    let (mut stage, _) = InstancedSpriteRenderPlugin.build();
    // only the first group's image is resolved: one draw item.
    let out = stage.run_frame(&world, &vec![IMAGE], &vec![ViewInfo { hdr: false }], 1);
    assert_eq!(out.phases[0].len(), 1);
    assert_eq!(out.phases[0][0].group, g1);
    // both resolved: one item per group, instance counts 1 and 2.
    let out = stage.run_frame(&world, &vec![IMAGE, 8], &vec![ViewInfo { hdr: false }], 1);
    assert_eq!(out.phases[0].len(), 2);
    let counts: Vec<(bool, usize)> = out.phases[0]
        .iter()
        .map(|i| (i.group == g1, i.buffer.length))
        .collect();
    assert!(counts.contains(&(true, 1)));
    assert!(counts.contains(&(false, 2)));
    // every item carries the same specialized pipeline for this view.
    assert_eq!(out.phases[0][0].pipeline, out.phases[0][1].pipeline);
}
