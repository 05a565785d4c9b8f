//! The binary wire contract of the instance buffer.
//!
//! One record is `{ position: 3 x 32-bit float, scale: 2 x 32-bit float,
//! tile_index: 32-bit unsigned }`, tightly packed, stride 24 bytes, each
//! 32-bit word stored little-endian. Encoding and the read-back at the
//! declared field offsets are verified to be bit-exact inverses.

use vstd::prelude::*;

use crate::components::{SpriteInstanceData, Vec2Bits, Vec3Bits};

verus! {

/// Byte stride of one packed instance record.
pub const INSTANCE_STRIDE: usize = 24;

/// Byte offset of the position field inside a record.
pub const POSITION_OFFSET: usize = 0;

/// Byte offset of the scale field inside a record.
pub const SCALE_OFFSET: usize = 12;

/// Byte offset of the tile-index field inside a record.
pub const TEX_INDEX_OFFSET: usize = 20;

/// The four little-endian bytes of `x`.
pub open spec fn u32_le(x: u32) -> Seq<u8> {
    seq![
        (x & 0xff) as u8,
        ((x >> 8) & 0xff) as u8,
        ((x >> 16) & 0xff) as u8,
        ((x >> 24) & 0xff) as u8,
    ]
}

/// The `u32` with little-endian bytes `b0 b1 b2 b3`.
pub open spec fn u32_of_le(b0: u8, b1: u8, b2: u8, b3: u8) -> u32 {
    (b0 as u32) | ((b1 as u32) << 8) | ((b2 as u32) << 16) | ((b3 as u32) << 24)
}

/// The word whose little-endian bytes sit at `offset` in `bytes`.
pub open spec fn word_at(bytes: Seq<u8>, offset: int) -> u32 {
    u32_of_le(bytes[offset], bytes[offset + 1], bytes[offset + 2], bytes[offset + 3])
}

/// The 24 bytes of one packed record.
pub open spec fn record_bytes(r: SpriteInstanceData) -> Seq<u8> {
    u32_le(r.i_position.x) + u32_le(r.i_position.y) + u32_le(r.i_position.z) + u32_le(r.i_scale.x)
        + u32_le(r.i_scale.y) + u32_le(r.i_tex_index)
}

/// The packed bytes of a whole record array, records in order, stride 24.
pub open spec fn records_bytes(rs: Seq<SpriteInstanceData>) -> Seq<u8>
    decreases rs.len(),
{
    if rs.len() == 0 {
        Seq::empty()
    } else {
        records_bytes(rs.drop_last()) + record_bytes(rs.last())
    }
}

pub proof fn lemma_records_bytes_len(rs: Seq<SpriteInstanceData>)
    ensures
        records_bytes(rs).len() == 24 * rs.len(),
    decreases rs.len(),
{
    if rs.len() > 0 {
        lemma_records_bytes_len(rs.drop_last());
    }
}

/// The bytes of record `i` sit at `[24 * i, 24 * (i + 1))`.
pub proof fn lemma_record_slice(rs: Seq<SpriteInstanceData>, i: int)
    requires
        0 <= i < rs.len(),
    ensures
        records_bytes(rs).subrange(24 * i, 24 * i + 24) == record_bytes(rs[i]),
    decreases rs.len(),
{
    lemma_records_bytes_len(rs.drop_last());
    if i == rs.len() - 1 {
        assert(records_bytes(rs).subrange(24 * i, 24 * i + 24) =~= record_bytes(rs[i]));
    } else {
        lemma_record_slice(rs.drop_last(), i);
        assert(records_bytes(rs).subrange(24 * i, 24 * i + 24) =~= records_bytes(
            rs.drop_last(),
        ).subrange(24 * i, 24 * i + 24));
    }
}

/// Reassembling the four little-endian bytes of a word gives the word back.
pub proof fn lemma_u32_le_round_trip(x: u32)
    ensures
        u32_of_le(u32_le(x)[0], u32_le(x)[1], u32_le(x)[2], u32_le(x)[3]) == x,
{
    assert(((x & 0xff) as u8 as u32) | ((((x >> 8) & 0xff) as u8 as u32) << 8) | ((((x >> 16)
        & 0xff) as u8 as u32) << 16) | ((((x >> 24) & 0xff) as u8 as u32) << 24) == x)
        by (bit_vector);
}

/// Appends the four little-endian bytes of `x`.
pub fn push_u32_le(out: &mut Vec<u8>, x: u32)
    ensures
        final(out)@ == old(out)@ + u32_le(x),
{
    proof {
        assert((x & 0xff) < 256 && ((x >> 8) & 0xff) < 256 && ((x >> 16) & 0xff) < 256 && ((x
            >> 24) & 0xff) < 256) by (bit_vector);
    }
    out.push((x & 0xff) as u8);
    out.push(((x >> 8) & 0xff) as u8);
    out.push(((x >> 16) & 0xff) as u8);
    out.push(((x >> 24) & 0xff) as u8);
    proof {
        assert(out@ =~= old(out)@ + u32_le(x));
    }
}

/// Appends the 24 packed bytes of `r`.
pub fn encode_record(out: &mut Vec<u8>, r: &SpriteInstanceData)
    ensures
        final(out)@ == old(out)@ + record_bytes(*r),
{
    push_u32_le(out, r.i_position.x);
    push_u32_le(out, r.i_position.y);
    push_u32_le(out, r.i_position.z);
    push_u32_le(out, r.i_scale.x);
    push_u32_le(out, r.i_scale.y);
    push_u32_le(out, r.i_tex_index);
    proof {
        assert(out@ =~= old(out)@ + record_bytes(*r));
    }
}

/// Packs a whole record array, records in order, stride 24.
pub fn encode_records(records: &Vec<SpriteInstanceData>) -> (out: Vec<u8>)
    ensures
        out@ == records_bytes(records@),
        out@.len() == 24 * records@.len(),
{
    let mut out: Vec<u8> = Vec::new();
    proof {
        assert(out@ =~= records_bytes(records@.take(0)));
    }
    let n = records.len();
    let mut i: usize = 0;
    while i < n
        invariant
            i <= n,
            n == records@.len(),
            out@ == records_bytes(records@.take(i as int)),
        decreases n - i,
    {
        encode_record(&mut out, &records[i]);
        proof {
            assert(records@.take(i as int + 1).drop_last() =~= records@.take(i as int));
            assert(records@.take(i as int + 1).last() == records@[i as int]);
        }
        i = i + 1;
    }
    proof {
        assert(records@.take(n as int) =~= records@);
        lemma_records_bytes_len(records@);
    }
    out
}

/// Reads the word at byte offset `offset`, little-endian.
pub fn read_u32_le(bytes: &Vec<u8>, offset: usize) -> (r: u32)
    requires
        offset + 4 <= bytes@.len(),
    ensures
        r == word_at(bytes@, offset as int),
{
    let n = bytes.len();
    let b0 = bytes[offset];
    let b1 = bytes[offset + 1];
    let b2 = bytes[offset + 2];
    let b3 = bytes[offset + 3];
    (b0 as u32) | ((b1 as u32) << 8) | ((b2 as u32) << 16) | ((b3 as u32) << 24)
}

/// Reads record `i` back out of a packed array, each field at its declared
/// offset from the record's stride-aligned base. If the bytes are the
/// packing of a record array, the result is bit-equal to its `i`-th record
/// (see [`lemma_wire_round_trip`]).
pub fn read_record_at(bytes: &Vec<u8>, i: usize) -> (r: SpriteInstanceData)
    requires
        24 * (i + 1) <= bytes@.len(),
    ensures
        r.i_position.x == word_at(bytes@, 24 * i + 0),
        r.i_position.y == word_at(bytes@, 24 * i + 4),
        r.i_position.z == word_at(bytes@, 24 * i + 8),
        r.i_scale.x == word_at(bytes@, 24 * i + 12),
        r.i_scale.y == word_at(bytes@, 24 * i + 16),
        r.i_tex_index == word_at(bytes@, 24 * i + 20),
{
    let n = bytes.len();
    let base = i * INSTANCE_STRIDE;
    SpriteInstanceData {
        i_position: Vec3Bits {
            x: read_u32_le(bytes, base + POSITION_OFFSET),
            y: read_u32_le(bytes, base + POSITION_OFFSET + 4),
            z: read_u32_le(bytes, base + POSITION_OFFSET + 8),
        },
        i_scale: Vec2Bits {
            x: read_u32_le(bytes, base + SCALE_OFFSET),
            y: read_u32_le(bytes, base + SCALE_OFFSET + 4),
        },
        i_tex_index: read_u32_le(bytes, base + TEX_INDEX_OFFSET),
    }
}

/// Packing then reading back at the declared offsets and stride recovers
/// every record bit-identically.
pub proof fn lemma_wire_round_trip(rs: Seq<SpriteInstanceData>, i: int)
    requires
        0 <= i < rs.len(),
    ensures
        word_at(records_bytes(rs), 24 * i + 0) == rs[i].i_position.x,
        word_at(records_bytes(rs), 24 * i + 4) == rs[i].i_position.y,
        word_at(records_bytes(rs), 24 * i + 8) == rs[i].i_position.z,
        word_at(records_bytes(rs), 24 * i + 12) == rs[i].i_scale.x,
        word_at(records_bytes(rs), 24 * i + 16) == rs[i].i_scale.y,
        word_at(records_bytes(rs), 24 * i + 20) == rs[i].i_tex_index,
{
    lemma_records_bytes_len(rs);
    lemma_record_slice(rs, i);
    let bytes = records_bytes(rs);
    let slice = record_bytes(rs[i]);
    assert forall|k: int| 0 <= k < 24 implies bytes[24 * i + k] == slice[k] by {
        assert(slice[k] == bytes.subrange(24 * i, 24 * i + 24)[k]);
    }
    lemma_record_bytes_words(rs[i]);
    assert(word_at(bytes, 24 * i + 0) == word_at(slice, 0)) by {
        assert(bytes[24 * i + 0] == slice[0] && bytes[24 * i + 1] == slice[1] && bytes[24 * i + 2]
            == slice[2] && bytes[24 * i + 3] == slice[3]);
    }
    assert(word_at(bytes, 24 * i + 4) == word_at(slice, 4)) by {
        assert(bytes[24 * i + 4] == slice[4] && bytes[24 * i + 5] == slice[5] && bytes[24 * i + 6]
            == slice[6] && bytes[24 * i + 7] == slice[7]);
    }
    assert(word_at(bytes, 24 * i + 8) == word_at(slice, 8)) by {
        assert(bytes[24 * i + 8] == slice[8] && bytes[24 * i + 9] == slice[9] && bytes[24 * i + 10]
            == slice[10] && bytes[24 * i + 11] == slice[11]);
    }
    assert(word_at(bytes, 24 * i + 12) == word_at(slice, 12)) by {
        assert(bytes[24 * i + 12] == slice[12] && bytes[24 * i + 13] == slice[13] && bytes[24 * i
            + 14] == slice[14] && bytes[24 * i + 15] == slice[15]);
    }
    assert(word_at(bytes, 24 * i + 16) == word_at(slice, 16)) by {
        assert(bytes[24 * i + 16] == slice[16] && bytes[24 * i + 17] == slice[17] && bytes[24 * i
            + 18] == slice[18] && bytes[24 * i + 19] == slice[19]);
    }
    assert(word_at(bytes, 24 * i + 20) == word_at(slice, 20)) by {
        assert(bytes[24 * i + 20] == slice[20] && bytes[24 * i + 21] == slice[21] && bytes[24 * i
            + 22] == slice[22] && bytes[24 * i + 23] == slice[23]);
    }
}

/// Each field of a record sits at its declared offset inside the record's
/// own 24 packed bytes.
pub proof fn lemma_record_bytes_words(r: SpriteInstanceData)
    ensures
        word_at(record_bytes(r), 0) == r.i_position.x,
        word_at(record_bytes(r), 4) == r.i_position.y,
        word_at(record_bytes(r), 8) == r.i_position.z,
        word_at(record_bytes(r), 12) == r.i_scale.x,
        word_at(record_bytes(r), 16) == r.i_scale.y,
        word_at(record_bytes(r), 20) == r.i_tex_index,
{
    let s = record_bytes(r);
    lemma_u32_le_round_trip(r.i_position.x);
    assert(s[0] == u32_le(r.i_position.x)[0] && s[1] == u32_le(r.i_position.x)[1] && s[2]
        == u32_le(r.i_position.x)[2] && s[3] == u32_le(r.i_position.x)[3]);
    lemma_u32_le_round_trip(r.i_position.y);
    assert(s[4] == u32_le(r.i_position.y)[0] && s[5] == u32_le(r.i_position.y)[1] && s[6]
        == u32_le(r.i_position.y)[2] && s[7] == u32_le(r.i_position.y)[3]);
    lemma_u32_le_round_trip(r.i_position.z);
    assert(s[8] == u32_le(r.i_position.z)[0] && s[9] == u32_le(r.i_position.z)[1] && s[10]
        == u32_le(r.i_position.z)[2] && s[11] == u32_le(r.i_position.z)[3]);
    lemma_u32_le_round_trip(r.i_scale.x);
    assert(s[12] == u32_le(r.i_scale.x)[0] && s[13] == u32_le(r.i_scale.x)[1] && s[14] == u32_le(
        r.i_scale.x,
    )[2] && s[15] == u32_le(r.i_scale.x)[3]);
    lemma_u32_le_round_trip(r.i_scale.y);
    assert(s[16] == u32_le(r.i_scale.y)[0] && s[17] == u32_le(r.i_scale.y)[1] && s[18] == u32_le(
        r.i_scale.y,
    )[2] && s[19] == u32_le(r.i_scale.y)[3]);
    lemma_u32_le_round_trip(r.i_tex_index);
    assert(s[20] == u32_le(r.i_tex_index)[0] && s[21] == u32_le(r.i_tex_index)[1] && s[22]
        == u32_le(r.i_tex_index)[2] && s[23] == u32_le(r.i_tex_index)[3]);
}

/// The little-endian bytes of a word array, words in order.
pub open spec fn words_bytes(ws: Seq<u32>) -> Seq<u8>
    decreases ws.len(),
{
    if ws.len() == 0 {
        Seq::empty()
    } else {
        words_bytes(ws.drop_last()) + u32_le(ws.last())
    }
}

pub proof fn lemma_words_bytes_len(ws: Seq<u32>)
    ensures
        words_bytes(ws).len() == 4 * ws.len(),
    decreases ws.len(),
{
    if ws.len() > 0 {
        lemma_words_bytes_len(ws.drop_last());
    }
}

/// Encodes a word array little-endian, words in order.
pub fn encode_words(words: &Vec<u32>) -> (out: Vec<u8>)
    ensures
        out@ == words_bytes(words@),
        out@.len() == 4 * words@.len(),
{
    let mut out: Vec<u8> = Vec::new();
    proof {
        assert(out@ =~= words_bytes(words@.take(0)));
    }
    let n = words.len();
    let mut i: usize = 0;
    while i < n
        invariant
            i <= n,
            n == words@.len(),
            out@ == words_bytes(words@.take(i as int)),
        decreases n - i,
    {
        push_u32_le(&mut out, words[i]);
        proof {
            assert(words@.take(i as int + 1).drop_last() =~= words@.take(i as int));
            assert(words@.take(i as int + 1).last() == words@[i as int]);
        }
        i = i + 1;
    }
    proof {
        assert(words@.take(n as int) =~= words@);
        lemma_words_bytes_len(words@);
    }
    out
}

} // verus!
