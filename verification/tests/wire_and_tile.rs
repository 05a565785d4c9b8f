//! The packed 24-byte wire layout and the tile UV mapping.

use sprite_instancing::components::{SpriteInstanceData, Vec2Bits, Vec3Bits};
use sprite_instancing::tile::tile_uv_origin;
use sprite_instancing::wire::{
    encode_records, read_record_at, INSTANCE_STRIDE, POSITION_OFFSET, SCALE_OFFSET,
    TEX_INDEX_OFFSET,
};

fn record(x: f32, y: f32, z: f32, sx: f32, sy: f32, tile: u32) -> SpriteInstanceData {
    SpriteInstanceData {
        i_position: Vec3Bits { x: x.to_bits(), y: y.to_bits(), z: z.to_bits() },
        i_scale: Vec2Bits { x: sx.to_bits(), y: sy.to_bits() },
        i_tex_index: tile,
    }
}

#[test]
fn declared_layout_constants() {
    assert_eq!(INSTANCE_STRIDE, 24);
    assert_eq!(POSITION_OFFSET, 0);
    assert_eq!(SCALE_OFFSET, 12);
    assert_eq!(TEX_INDEX_OFFSET, 20);
}

#[test]
fn one_record_packs_to_24_little_endian_bytes() {
    let r = record(1.5, -2.25, 0.0, 3.0, 0.5, 9);
    let bytes = encode_records(&vec![r]);
    assert_eq!(bytes.len(), 24);
    // 1.5f32 has bits 0x3FC0_0000: little-endian 00 00 C0 3F.
    assert_eq!(&bytes[0..4], &[0x00, 0x00, 0xC0, 0x3F]);
    // -2.25f32 has bits 0xC010_0000.
    assert_eq!(&bytes[4..8], &[0x00, 0x00, 0x10, 0xC0]);
    // tile index 9 at offset 20.
    assert_eq!(&bytes[20..24], &[9, 0, 0, 0]);
}

#[test]
fn pack_then_read_back_is_bit_identical() {
    let records = vec![
        record(1.5, -2.25, 0.125, 3.0, 0.5, 0),
        record(-0.0, f32::MIN_POSITIVE, 1e30, -1e-30, 7.75, 42),
        record(0.1, 0.2, 0.3, 0.4, 0.5, u32::MAX),
        record(f32::MAX, f32::MIN, 0.0, 1.0, 1.0, 1),
        record(1234.5678, -8765.4321, 3.25, 0.0625, 16.0, 3),
    ];
    let bytes = encode_records(&records);
    assert_eq!(bytes.len(), 24 * records.len());
    for (i, r) in records.iter().enumerate() {
        let back = read_record_at(&bytes, i);
        assert_eq!(back, *r, "record {} round-trips bit-identically", i);
    }
}

#[test]
fn tile_mapping_matches_row_major_grid() {
    // tile_width = 4, tile_index = 5: u = (5 mod 4)/4 = 0.25, v = (5 div 4)/4 = 0.25.
    let uv = tile_uv_origin(5, 4, 4);
    assert_eq!(uv.u_numerator, 1);
    assert_eq!(uv.u_denominator, 4);
    assert_eq!(uv.v_numerator, 1);
    assert_eq!(uv.v_denominator, 4);
    let u = uv.u_numerator as f32 / uv.u_denominator as f32;
    let v = uv.v_numerator as f32 / uv.v_denominator as f32;
    assert_eq!(u, 0.25);
    assert_eq!(v, 0.25);
}

#[test]
fn tile_mapping_first_and_last_tile() {
    let first = tile_uv_origin(0, 8, 2);
    assert_eq!((first.u_numerator, first.v_numerator), (0, 0));
    let last = tile_uv_origin(15, 8, 2);
    assert_eq!(last.u_numerator, 7);
    assert_eq!(last.v_numerator, 1);
    assert_eq!(last.u_denominator, 8);
    assert_eq!(last.v_denominator, 2);
}
