//! Per-frame extraction: snapshot the simulation state of every instancing
//! group into packed instance records, and upload them into persistent,
//! capacity-growing per-group GPU buffers.

use vstd::prelude::*;

use crate::arena::{Arena, ArenaId, Slot};
use crate::cache::CacheMap;
use crate::components::{
    record_of, GroupState, InstancedSpritesheet, SpriteEntity, SpriteInstanceData,
};
use crate::gpu::{GpuCommand, HandleAllocator};
use crate::wire::{encode_records, push_u32_le, records_bytes, u32_le};

verus! {

/// Records a fresh per-group buffer can hold before its first growth.
pub const INITIAL_CAPACITY: usize = 1024;

/// Records by which a buffer's capacity grows at a time.
pub const CAPACITY_INCREMENT: usize = 512;

/// Most records one group may upload at once; keeps every buffer byte size
/// comfortably inside `u64` and `usize` arithmetic.
pub const MAX_RECORDS: usize = 0x4000_0000;

/// Capacity after growing `capacity` in increments until it holds `needed`
/// records; unchanged if it already does.
pub open spec fn grown_capacity(capacity: int, needed: int) -> int
    decreases (if needed <= capacity { 0int } else { needed - capacity }),
{
    if needed <= capacity {
        capacity
    } else {
        grown_capacity(capacity + CAPACITY_INCREMENT, needed)
    }
}

pub proof fn lemma_grown_capacity(capacity: int, needed: int)
    ensures
        grown_capacity(capacity, needed) >= capacity,
        grown_capacity(capacity, needed) >= needed,
        needed <= capacity ==> grown_capacity(capacity, needed) == capacity,
        needed > capacity ==> grown_capacity(capacity, needed) < needed + CAPACITY_INCREMENT,
    decreases (if needed <= capacity { 0int } else { needed - capacity }),
{
    if needed > capacity {
        lemma_grown_capacity(capacity + CAPACITY_INCREMENT, needed);
    }
}

/// Byte size of a buffer holding `n_elements` packed records.
pub open spec fn size_bytes(n_elements: int) -> u64 {
    (24 * n_elements) as u64
}

/// Computes the byte size of a buffer of `n_elements` records.
pub fn buffer_size(n_elements: usize) -> (r: u64)
    requires
        n_elements <= MAX_RECORDS + CAPACITY_INCREMENT,
    ensures
        r == size_bytes(n_elements as int),
{
    (n_elements as u64) * 24
}

/// The cached per-group GPU buffer: its handle, how many records are
/// currently valid, and how many it can hold without reallocation.
#[derive(Clone, Copy, PartialEq, Eq, Structural, Debug)]
pub struct ExtractedSpriteInstancingBuffer {
    pub device_buffer: u64,
    pub length: usize,
    pub capacity: usize,
}

/// What one upload does to a buffer entry: the length becomes the record
/// count, the capacity grows in increments exactly when the records
/// overflow it, and only then is the buffer reallocated under a fresh
/// handle.
pub open spec fn upload_model(
    b: ExtractedSpriteInstancingBuffer,
    k: int,
    fresh_handle: u64,
) -> ExtractedSpriteInstancingBuffer {
    ExtractedSpriteInstancingBuffer {
        device_buffer: if k <= b.capacity { b.device_buffer } else { fresh_handle },
        length: k as usize,
        capacity: grown_capacity(b.capacity as int, k) as usize,
    }
}

impl ExtractedSpriteInstancingBuffer {
    /// Valid records never exceed capacity; capacity starts at the initial
    /// allocation and stays within the growth bound.
    pub open spec fn wf(self) -> bool {
        &&& self.length <= self.capacity
        &&& INITIAL_CAPACITY <= self.capacity
        &&& self.capacity <= MAX_RECORDS + CAPACITY_INCREMENT
    }

    /// Allocates a fresh buffer of the initial capacity, holding no valid
    /// records yet.
    pub fn new(alloc: &mut HandleAllocator, commands: &mut Vec<GpuCommand>) -> (r: Self)
        requires
            old(alloc).next < u64::MAX,
        ensures
            r.wf(),
            r.length == 0,
            r.capacity == INITIAL_CAPACITY,
            r.device_buffer == old(alloc).next,
            final(alloc).next == old(alloc).next + 1,
            final(commands)@ == old(commands)@.push(
                GpuCommand::CreateBuffer {
                    buffer: old(alloc).next,
                    size: size_bytes(INITIAL_CAPACITY as int),
                },
            ),
    {
        let device_buffer = alloc.fresh();
        let size = buffer_size(INITIAL_CAPACITY);
        commands.push(GpuCommand::CreateBuffer { buffer: device_buffer, size });
        ExtractedSpriteInstancingBuffer { device_buffer, length: 0, capacity: INITIAL_CAPACITY }
    }

    /// Grows the capacity in increments until it holds `needed` records and
    /// reallocates the buffer under a fresh handle. The old contents are
    /// not preserved; the caller rewrites the whole buffer.
    fn resize(
        &mut self,
        alloc: &mut HandleAllocator,
        commands: &mut Vec<GpuCommand>,
        needed: usize,
    )
        requires
            old(self).wf(),
            old(self).capacity < needed <= MAX_RECORDS,
            old(alloc).next < u64::MAX,
        ensures
            final(self).wf(),
            final(self).capacity == grown_capacity(old(self).capacity as int, needed as int),
            final(self).length == old(self).length,
            final(self).device_buffer == old(alloc).next,
            final(alloc).next == old(alloc).next + 1,
            final(commands)@ == old(commands)@.push(
                GpuCommand::CreateBuffer {
                    buffer: old(alloc).next,
                    size: size_bytes(grown_capacity(old(self).capacity as int, needed as int)),
                },
            ),
    {
        let ghost orig = *self;
        while self.capacity < needed
            invariant
                orig.wf(),
                needed <= MAX_RECORDS,
                self.capacity <= MAX_RECORDS + CAPACITY_INCREMENT,
                self.length == orig.length,
                self.device_buffer == orig.device_buffer,
                grown_capacity(self.capacity as int, needed as int) == grown_capacity(
                    orig.capacity as int,
                    needed as int,
                ),
            decreases (if needed <= self.capacity { 0int } else { needed - self.capacity }),
        {
            proof {
                assert(grown_capacity(self.capacity as int, needed as int) == grown_capacity(
                    self.capacity as int + CAPACITY_INCREMENT,
                    needed as int,
                ));
            }
            self.capacity = self.capacity + CAPACITY_INCREMENT;
        }
        let device_buffer = alloc.fresh();
        self.device_buffer = device_buffer;
        let size = buffer_size(self.capacity);
        commands.push(GpuCommand::CreateBuffer { buffer: device_buffer, size });
        proof {
            lemma_grown_capacity(orig.capacity as int, needed as int);
        }
    }

    /// Uploads `data` into the buffer: grows and reallocates exactly when
    /// the records overflow the current capacity (leaving the buffer handle
    /// untouched otherwise), then rewrites the buffer from offset 0 with the
    /// packed records and sets the valid length.
    pub fn upload(
        &mut self,
        alloc: &mut HandleAllocator,
        commands: &mut Vec<GpuCommand>,
        data: &Vec<SpriteInstanceData>,
    )
        requires
            old(self).wf(),
            data@.len() <= MAX_RECORDS,
            old(alloc).next < u64::MAX,
        ensures
            final(self).wf(),
            *final(self) == upload_model(*old(self), data@.len() as int, old(alloc).next),
            // no overflow: buffer identity and allocator untouched
            data@.len() <= old(self).capacity ==> final(self).device_buffer == old(
                self,
            ).device_buffer && *final(alloc) == *old(alloc),
            // overflow: reallocated under the freshly issued handle
            data@.len() > old(self).capacity ==> final(self).device_buffer == old(alloc).next
                && final(alloc).next == old(alloc).next + 1,
            // appended commands: the reallocation if one happened, then the write
            final(commands)@.len() == old(commands)@.len() + (
            if data@.len() > old(self).capacity {
                2int
            } else {
                1int
            }),
            final(commands)@.take(old(commands)@.len() as int) == old(commands)@,
            data@.len() > old(self).capacity ==> final(commands)@[old(commands)@.len() as int]
                == (GpuCommand::CreateBuffer {
                buffer: old(alloc).next,
                size: size_bytes(final(self).capacity as int),
            }),
            (match final(commands)@.last() {
                GpuCommand::WriteBuffer { buffer, offset, bytes } => {
                    &&& buffer == final(self).device_buffer
                    &&& offset == 0
                    &&& bytes@ == records_bytes(data@)
                },
                _ => false,
            }),
    {
        let k = data.len();
        if k > self.capacity {
            self.resize(alloc, commands, k);
        }
        let bytes = encode_records(data);
        commands.push(GpuCommand::WriteBuffer { buffer: self.device_buffer, offset: 0, bytes });
        self.length = k;
        proof {
            lemma_grown_capacity(old(self).capacity as int, k as int);
            assert(commands@.take(old(commands)@.len() as int) =~= old(commands)@);
        }
    }
}

/// Law: one extraction+upload cycle of `k` records leaves the buffer with
/// exactly `k` valid records and capacity at least `k`, and never shrinks
/// the capacity it had before.
pub proof fn lemma_upload_cycle(b: ExtractedSpriteInstancingBuffer, k: int, fresh_handle: u64)
    requires
        b.wf(),
        0 <= k <= MAX_RECORDS,
    ensures
        upload_model(b, k, fresh_handle).wf(),
        upload_model(b, k, fresh_handle).length == k,
        upload_model(b, k, fresh_handle).capacity >= k,
        upload_model(b, k, fresh_handle).capacity >= b.capacity,
{
    lemma_grown_capacity(b.capacity as int, k);
}

/// Law: uploading `k` records one frame and `k - 1` the next (one member
/// removed) leaves exactly `k - 1` valid records, and the capacity never
/// decreases.
pub proof fn lemma_member_removed(
    b: ExtractedSpriteInstancingBuffer,
    k: int,
    fresh_first: u64,
    fresh_second: u64,
)
    requires
        b.wf(),
        1 <= k <= MAX_RECORDS,
    ensures
        upload_model(upload_model(b, k, fresh_first), k - 1, fresh_second).length == k - 1,
        upload_model(upload_model(b, k, fresh_first), k - 1, fresh_second).capacity
            >= upload_model(b, k, fresh_first).capacity,
        upload_model(upload_model(b, k, fresh_first), k - 1, fresh_second).device_buffer
            == upload_model(b, k, fresh_first).device_buffer,
{
    lemma_upload_cycle(b, k, fresh_first);
    lemma_upload_cycle(upload_model(b, k, fresh_first), k - 1, fresh_second);
    lemma_grown_capacity(upload_model(b, k, fresh_first).capacity as int, k - 1);
}

/// The cached uniform buffer describing one spritesheet: its tile-grid-size
/// uniform and the image it binds.
#[derive(Clone, Copy, PartialEq, Eq, Structural, Debug)]
pub struct ExtractedInstancedSpritesheet {
    pub size_buffer: u64,
    pub image: u64,
}

impl ExtractedInstancedSpritesheet {
    /// Allocates the tile-grid-size uniform buffer for `spritesheet`,
    /// holding its width and height in tiles as two 32-bit words.
    pub fn new(
        alloc: &mut HandleAllocator,
        commands: &mut Vec<GpuCommand>,
        spritesheet: &InstancedSpritesheet,
    ) -> (r: Self)
        requires
            old(alloc).next < u64::MAX,
        ensures
            r.size_buffer == old(alloc).next,
            r.image == spritesheet.image,
            final(alloc).next == old(alloc).next + 1,
            final(commands)@.len() == old(commands)@.len() + 1,
            final(commands)@.take(old(commands)@.len() as int) == old(commands)@,
            (match final(commands)@.last() {
                GpuCommand::CreateBufferWithData { buffer, bytes } => {
                    &&& buffer == r.size_buffer
                    &&& bytes@ == u32_le(spritesheet.width_tiles) + u32_le(spritesheet.height_tiles)
                },
                _ => false,
            }),
    {
        let size_buffer = alloc.fresh();
        let mut bytes: Vec<u8> = Vec::new();
        push_u32_le(&mut bytes, spritesheet.width_tiles);
        push_u32_le(&mut bytes, spritesheet.height_tiles);
        proof {
            assert(bytes@ =~= u32_le(spritesheet.width_tiles) + u32_le(spritesheet.height_tiles));
        }
        commands.push(GpuCommand::CreateBufferWithData { buffer: size_buffer, bytes });
        proof {
            assert(commands@.take(old(commands)@.len() as int) =~= old(commands)@);
        }
        ExtractedInstancedSpritesheet { size_buffer, image: spritesheet.image }
    }
}

/// Why a member of a group could not be extracted this frame. All
/// recoverable extraction failures are distinguishable by kind.
#[derive(Clone, Copy, PartialEq, Eq, Structural, Debug)]
pub enum ExtractError {
    /// The group lists an entity that no longer exists in the simulation:
    /// the member is skipped, the rest of the group is extracted.
    DanglingMember { group: ArenaId, entity: ArenaId },
}

/// The read-only per-frame snapshot of simulation state the render stage
/// extracts from: all sprite entities and all instancing groups.
pub struct WorldSnapshot {
    pub sprites: Arena<SpriteEntity>,
    pub groups: Arena<GroupState>,
}

impl WorldSnapshot {
    /// Both arenas are well formed; every group has a well-formed
    /// spritesheet, no duplicate members, and fits the upload bound.
    pub open spec fn wf(self) -> bool {
        &&& self.sprites.wf()
        &&& self.groups.wf()
        &&& forall|id: ArenaId|
            #[trigger] self.groups.spec_get(id) matches Some(g) ==> g.spritesheet.wf()
                && g.group.wf() && g.group.entities@.len() <= MAX_RECORDS
    }
}

/// The records extracted from `members` in order: one per member that is
/// live in `sprites`, dangling members skipped.
pub open spec fn group_records(sprites: Arena<SpriteEntity>, members: Seq<ArenaId>) -> Seq<
    SpriteInstanceData,
>
    decreases members.len(),
{
    if members.len() == 0 {
        Seq::empty()
    } else {
        let rest = group_records(sprites, members.drop_last());
        match sprites.spec_get(members.last()) {
            Some(e) => rest.push(record_of(e)),
            None => rest,
        }
    }
}

/// The dangling-member reports produced while extracting `members`, in
/// order: one per member that is not live in `sprites`.
pub open spec fn group_errors(
    group: ArenaId,
    sprites: Arena<SpriteEntity>,
    members: Seq<ArenaId>,
) -> Seq<ExtractError>
    decreases members.len(),
{
    if members.len() == 0 {
        Seq::empty()
    } else {
        let rest = group_errors(group, sprites, members.drop_last());
        match sprites.spec_get(members.last()) {
            Some(e) => rest,
            None => rest.push(ExtractError::DanglingMember { group, entity: members.last() }),
        }
    }
}

/// Every member is either extracted or reported: records and errors
/// together account for each member exactly once.
pub proof fn lemma_extraction_partition(
    group: ArenaId,
    sprites: Arena<SpriteEntity>,
    members: Seq<ArenaId>,
)
    ensures
        group_records(sprites, members).len() + group_errors(group, sprites, members).len()
            == members.len(),
    decreases members.len(),
{
    if members.len() > 0 {
        lemma_extraction_partition(group, sprites, members.drop_last());
    }
}

/// When every member is live there are no reports, and the records
/// correspond one to one, in order, to the members' data.
pub proof fn lemma_extraction_all_live(
    group: ArenaId,
    sprites: Arena<SpriteEntity>,
    members: Seq<ArenaId>,
)
    requires
        forall|i: int| 0 <= i < members.len() ==> sprites.spec_get(#[trigger] members[i]) is Some,
    ensures
        group_records(sprites, members).len() == members.len(),
        group_errors(group, sprites, members).len() == 0,
        forall|i: int|
            0 <= i < members.len() ==> group_records(sprites, members)[i] == record_of(
                sprites.spec_get(#[trigger] members[i]).unwrap(),
            ),
    decreases members.len(),
{
    if members.len() > 0 {
        assert(forall|i: int|
            0 <= i < members.drop_last().len() ==> members.drop_last()[i] == #[trigger] members[i]);
        lemma_extraction_all_live(group, sprites, members.drop_last());
    }
}

/// Extracts one group: builds the packed record array for its live members
/// in membership order, reporting and skipping dangling members.
pub fn extract_group(
    sprites: &Arena<SpriteEntity>,
    group: ArenaId,
    members: &Vec<ArenaId>,
    errors: &mut Vec<ExtractError>,
) -> (records: Vec<SpriteInstanceData>)
    ensures
        records@ == group_records(*sprites, members@),
        final(errors)@ == old(errors)@ + group_errors(group, *sprites, members@),
{
    let mut records: Vec<SpriteInstanceData> = Vec::new();
    let ghost errors0 = errors@;
    let n = members.len();
    let mut i: usize = 0;
    proof {
        assert(records@ =~= group_records(*sprites, members@.take(0)));
        assert(errors@ =~= errors0 + group_errors(group, *sprites, members@.take(0)));
    }
    while i < n
        invariant
            i <= n,
            n == members@.len(),
            records@ == group_records(*sprites, members@.take(i as int)),
            errors@ == errors0 + group_errors(group, *sprites, members@.take(i as int)),
        decreases n - i,
    {
        let member = members[i];
        match sprites.get(member) {
            Some(e) => {
                records.push(crate::components::extract_record(e));
            },
            None => {
                errors.push(ExtractError::DanglingMember { group, entity: member });
            },
        }
        proof {
            assert(members@.take(i as int + 1).drop_last() =~= members@.take(i as int));
            assert(members@.take(i as int + 1).last() == members@[i as int]);
            assert(errors@ =~= errors0 + group_errors(
                group,
                *sprites,
                members@.take(i as int + 1),
            ));
        }
        i = i + 1;
    }
    proof {
        assert(members@.take(n as int) =~= members@);
    }
    records
}

/// The render stage's persistent per-group caches: instance buffers and
/// extracted spritesheet uniforms, keyed by group identity. Entries are
/// created lazily and reused frame after frame.
pub struct ExtractedComponentCache {
    pub instancing_buffers: CacheMap<ExtractedSpriteInstancingBuffer>,
    pub spritesheets: CacheMap<ExtractedInstancedSpritesheet>,
}

/// Every handle the cache holds was issued before `next`: a handle the
/// allocator issues next is distinct from every cached one.
pub open spec fn handles_below(cache: ExtractedComponentCache, next: u64) -> bool {
    &&& forall|id: ArenaId|
        #[trigger] cache.instancing_buffers.spec_get(id) matches Some(b) ==> b.device_buffer < next
    &&& forall|id: ArenaId|
        #[trigger] cache.spritesheets.spec_get(id) matches Some(s) ==> s.size_buffer < next
}

impl ExtractedComponentCache {
    /// Both maps have distinct keys and every cached buffer is well formed.
    pub open spec fn wf(self) -> bool {
        &&& self.instancing_buffers.wf()
        &&& self.spritesheets.wf()
        &&& forall|id: ArenaId|
            #[trigger] self.instancing_buffers.spec_get(id) matches Some(b) ==> b.wf()
    }

    pub fn new() -> (r: ExtractedComponentCache)
        ensures
            r.wf(),
            handles_below(r, 0),
            forall|id: ArenaId| r.instancing_buffers.spec_get(id) is None,
            forall|id: ArenaId| r.spritesheets.spec_get(id) is None,
    {
        ExtractedComponentCache {
            instancing_buffers: CacheMap::new(),
            spritesheets: CacheMap::new(),
        }
    }

    /// Uploads `data` into the group's cached buffer, creating the buffer
    /// at the initial capacity first if the group has none yet. Growth and
    /// reallocation happen exactly when the records overflow the capacity
    /// the entry had before this call.
    pub fn update_instancing_buffer(
        &mut self,
        entity: ArenaId,
        alloc: &mut HandleAllocator,
        commands: &mut Vec<GpuCommand>,
        data: &Vec<SpriteInstanceData>,
    ) -> (buffer: ExtractedSpriteInstancingBuffer)
        requires
            old(self).wf(),
            handles_below(*old(self), old(alloc).next),
            data@.len() <= MAX_RECORDS,
            old(alloc).next <= u64::MAX - 2,
        ensures
            final(self).wf(),
            handles_below(*final(self), final(alloc).next),
            old(alloc).next <= final(alloc).next <= old(alloc).next + 2,
            final(self).spritesheets == old(self).spritesheets,
            final(self).instancing_buffers.spec_get(entity) == Some(buffer),
            forall|other: ArenaId|
                other != entity ==> final(self).instancing_buffers.spec_get(other) == old(
                    self,
                ).instancing_buffers.spec_get(other),
            buffer.wf(),
            buffer.length == data@.len(),
            (match old(self).instancing_buffers.spec_get(entity) {
                Some(b0) => {
                    &&& buffer.capacity == grown_capacity(b0.capacity as int, data@.len() as int)
                    &&& data@.len() <= b0.capacity ==> buffer.device_buffer == b0.device_buffer
                        && *final(alloc) == *old(alloc)
                    &&& data@.len() > b0.capacity ==> buffer.device_buffer != b0.device_buffer
                },
                None => buffer.capacity == grown_capacity(
                    INITIAL_CAPACITY as int,
                    data@.len() as int,
                ),
            }),
            old(commands)@.len() < final(commands)@.len() <= old(commands)@.len() + 3,
            final(commands)@.take(old(commands)@.len() as int) == old(commands)@,
            (match final(commands)@.last() {
                GpuCommand::WriteBuffer { buffer: handle, offset, bytes } => {
                    &&& handle == buffer.device_buffer
                    &&& offset == 0
                    &&& bytes@ == records_bytes(data@)
                },
                _ => false,
            }),
    {
        let ghost commands0 = commands@;
        let mut b = match self.instancing_buffers.find(entity) {
            Some(i) => self.instancing_buffers.entries[i].1,
            None => ExtractedSpriteInstancingBuffer::new(alloc, commands),
        };
        proof {
            assert(commands@.take(commands0.len() as int) =~= commands0);
        }
        let ghost commands1 = commands@;
        b.upload(alloc, commands, data);
        proof {
            assert(commands@.take(commands0.len() as int) =~= commands1.take(
                commands0.len() as int,
            ));
        }
        proof {
            lemma_grown_capacity(INITIAL_CAPACITY as int, data@.len() as int);
            if old(self).instancing_buffers.spec_get(entity) is Some {
                let b0 = old(self).instancing_buffers.spec_get(entity).unwrap();
                assert(old(self).instancing_buffers.spec_get(entity) matches Some(bb) ==> bb
                    == b0);
                assert(b0.device_buffer < old(alloc).next);
                lemma_grown_capacity(b0.capacity as int, data@.len() as int);
            }
        }
        self.instancing_buffers.upsert(entity, b);
        b
    }

    /// Returns the group's cached spritesheet uniform, building it on first
    /// sight of the group. A cached entry is reused as is: later changes to
    /// the spritesheet are not detected.
    pub fn update_instanced_spritesheet(
        &mut self,
        entity: ArenaId,
        alloc: &mut HandleAllocator,
        commands: &mut Vec<GpuCommand>,
        spritesheet: &InstancedSpritesheet,
    ) -> (sheet: ExtractedInstancedSpritesheet)
        requires
            old(self).wf(),
            handles_below(*old(self), old(alloc).next),
            old(alloc).next < u64::MAX,
        ensures
            final(self).wf(),
            handles_below(*final(self), final(alloc).next),
            old(alloc).next <= final(alloc).next <= old(alloc).next + 1,
            final(self).instancing_buffers == old(self).instancing_buffers,
            final(self).spritesheets.spec_get(entity) == Some(sheet),
            forall|other: ArenaId|
                other != entity ==> final(self).spritesheets.spec_get(other) == old(
                    self,
                ).spritesheets.spec_get(other),
            old(commands)@.len() <= final(commands)@.len() <= old(commands)@.len() + 1,
            final(commands)@.take(old(commands)@.len() as int) == old(commands)@,
            (match old(self).spritesheets.spec_get(entity) {
                Some(s0) => sheet == s0 && *final(alloc) == *old(alloc) && final(commands)@ == old(
                    commands,
                )@,
                None => {
                    &&& sheet.image == spritesheet.image
                    &&& final(alloc).next == old(alloc).next + 1
                    &&& final(commands)@.len() == old(commands)@.len() + 1
                    &&& (match final(commands)@.last() {
                        GpuCommand::CreateBufferWithData { buffer, bytes } => {
                            &&& buffer == sheet.size_buffer
                            &&& bytes@ == u32_le(spritesheet.width_tiles) + u32_le(
                                spritesheet.height_tiles,
                            )
                        },
                        _ => false,
                    })
                },
            }),
    {
        match self.spritesheets.find(entity) {
            Some(i) => {
                let sheet = self.spritesheets.entries[i].1;
                proof {
                    assert(commands@.take(commands@.len() as int) =~= commands@);
                }
                sheet
            },
            None => {
                let sheet = ExtractedInstancedSpritesheet::new(alloc, commands, spritesheet);
                self.spritesheets.upsert(entity, sheet);
                sheet
            },
        }
    }

    /// Releases everything cached for a group that is gone for good: its
    /// instance buffer entry and its spritesheet entry.
    pub fn release_group(&mut self, entity: ArenaId)
        requires
            old(self).wf(),
        ensures
            final(self).wf(),
            final(self).instancing_buffers.spec_get(entity) is None,
            final(self).spritesheets.spec_get(entity) is None,
            forall|other: ArenaId|
                other != entity ==> final(self).instancing_buffers.spec_get(other) == old(
                    self,
                ).instancing_buffers.spec_get(other),
            forall|other: ArenaId|
                other != entity ==> final(self).spritesheets.spec_get(other) == old(
                    self,
                ).spritesheets.spec_get(other),
            forall|next: u64| handles_below(*old(self), next) ==> handles_below(*final(self), next),
    {
        self.instancing_buffers.remove_key(entity);
        self.spritesheets.remove_key(entity);
    }
}

/// One group's extracted render components for this frame: the group id
/// paired with its uploaded instance buffer and its spritesheet uniform.
#[derive(Clone, Copy, PartialEq, Eq, Structural, Debug)]
pub struct ExtractedGroup {
    pub group: ArenaId,
    pub buffer: ExtractedSpriteInstancingBuffer,
    pub spritesheet: ExtractedInstancedSpritesheet,
}

/// True iff `id` names a live group with at least one member this frame.
pub open spec fn live_nonempty(snapshot: WorldSnapshot, id: ArenaId) -> bool {
    match snapshot.groups.spec_get(id) {
        Some(g) => g.group.entities@.len() > 0,
        None => false,
    }
}

/// The dangling-member reports group slot `i` contributes this frame.
pub open spec fn slot_errors(snapshot: WorldSnapshot, i: int) -> Seq<ExtractError> {
    match snapshot.groups.slots@[i] {
        Slot::Occupied { generation, value } => if value.group.entities@.len() > 0 {
            group_errors(
                ArenaId { index: i as usize, generation },
                snapshot.sprites,
                value.group.entities@,
            )
        } else {
            Seq::empty()
        },
        Slot::Free { .. } => Seq::empty(),
    }
}

/// All reports of the first `n` group slots, in slot order.
pub open spec fn frame_errors_up_to(snapshot: WorldSnapshot, n: int) -> Seq<ExtractError>
    decreases n,
{
    if n <= 0 {
        Seq::empty()
    } else {
        frame_errors_up_to(snapshot, n - 1) + slot_errors(snapshot, n - 1)
    }
}

/// True iff `c` writes exactly the packing of `records` into `handle` from
/// offset 0.
pub open spec fn write_for(c: GpuCommand, handle: u64, records: Seq<SpriteInstanceData>) -> bool {
    match c {
        GpuCommand::WriteBuffer { buffer, offset, bytes } => buffer == handle && offset == 0
            && bytes@ == records_bytes(records),
        _ => false,
    }
}

/// Everything extraction guarantees of one output entry `e`, relative to
/// the cache before the frame (`c0`), the cache after it (`c1`) and the
/// commands recorded so far.
pub open spec fn extracted_entry_ok(
    snapshot: WorldSnapshot,
    c0: ExtractedComponentCache,
    c1: ExtractedComponentCache,
    commands: Seq<GpuCommand>,
    e: ExtractedGroup,
) -> bool {
    &&& live_nonempty(snapshot, e.group)
    &&& (snapshot.groups.spec_get(e.group) matches Some(g) && {
        let records = group_records(snapshot.sprites, g.group.entities@);
        let k = records.len() as int;
        &&& c1.instancing_buffers.spec_get(e.group) == Some(e.buffer)
        &&& c1.spritesheets.spec_get(e.group) == Some(e.spritesheet)
        &&& e.buffer.wf()
        &&& e.buffer.length == k
        &&& e.buffer.capacity >= k
        &&& (match c0.instancing_buffers.spec_get(e.group) {
            Some(b0) => {
                &&& e.buffer.capacity == grown_capacity(b0.capacity as int, k)
                &&& (k <= b0.capacity ==> e.buffer.device_buffer == b0.device_buffer)
                &&& (k > b0.capacity ==> e.buffer.device_buffer != b0.device_buffer)
            },
            None => e.buffer.capacity == grown_capacity(INITIAL_CAPACITY as int, k),
        })
        &&& (match c0.spritesheets.spec_get(e.group) {
            Some(s0) => e.spritesheet == s0,
            None => e.spritesheet.image == g.spritesheet.image,
        })
        &&& exists|cj: int|
            0 <= cj < commands.len() && write_for(
                #[trigger] commands[cj],
                e.buffer.device_buffer,
                records,
            )
    })
}

/// What a whole frame's output guarantees: each entry is sound, no group
/// appears twice, and every live non-empty group appears.
pub open spec fn extracted_groups_ok(
    snapshot: WorldSnapshot,
    c0: ExtractedComponentCache,
    c1: ExtractedComponentCache,
    commands: Seq<GpuCommand>,
    outs: Seq<ExtractedGroup>,
) -> bool {
    &&& forall|j: int|
        0 <= j < outs.len() ==> extracted_entry_ok(snapshot, c0, c1, commands, #[trigger] outs[j])
    &&& forall|j1: int, j2: int|
        0 <= j1 < j2 < outs.len() ==> outs[j1].group != outs[j2].group
    &&& forall|id: ArenaId|
        #[trigger] live_nonempty(snapshot, id) ==> exists|j: int|
            0 <= j < outs.len() && outs[j].group == id
}

/// Groups that are not live and non-empty this frame are left alone: their
/// cache entries are untouched and they produce no output entry.
pub open spec fn untouched_groups(
    snapshot: WorldSnapshot,
    c0: ExtractedComponentCache,
    c1: ExtractedComponentCache,
    outs: Seq<ExtractedGroup>,
) -> bool {
    forall|id: ArenaId|
        !live_nonempty(snapshot, id) ==> #[trigger] c1.instancing_buffers.spec_get(id)
            == c0.instancing_buffers.spec_get(id) && c1.spritesheets.spec_get(id)
            == c0.spritesheets.spec_get(id) && (forall|j: int|
            0 <= j < outs.len() ==> (#[trigger] outs[j]).group != id)
}

/// An entry's guarantees survive later cache updates under other keys and
/// later command recording.
pub proof fn lemma_entry_ok_stable(
    snapshot: WorldSnapshot,
    c0: ExtractedComponentCache,
    c1: ExtractedComponentCache,
    c2: ExtractedComponentCache,
    commands1: Seq<GpuCommand>,
    commands2: Seq<GpuCommand>,
    e: ExtractedGroup,
)
    requires
        extracted_entry_ok(snapshot, c0, c1, commands1, e),
        c2.instancing_buffers.spec_get(e.group) == c1.instancing_buffers.spec_get(e.group),
        c2.spritesheets.spec_get(e.group) == c1.spritesheets.spec_get(e.group),
        commands2.len() >= commands1.len(),
        commands2.take(commands1.len() as int) == commands1,
    ensures
        extracted_entry_ok(snapshot, c0, c2, commands2, e),
{
    let g = snapshot.groups.spec_get(e.group).unwrap();
    let records = group_records(snapshot.sprites, g.group.entities@);
    let cj = choose|cj: int|
        0 <= cj < commands1.len() && write_for(#[trigger] commands1[cj], e.buffer.device_buffer, records);
    assert(commands2[cj] == commands2.take(commands1.len() as int)[cj]);
    assert(write_for(commands2[cj], e.buffer.device_buffer, records));
}

/// Extracts every instancing group of the snapshot. For each live group
/// with at least one member, in group-slot order: build its packed record
/// array (skipping and reporting dangling members), upload it into the
/// group's persistent cached buffer — created at the initial capacity on
/// first sight, grown and reallocated exactly on overflow — and pair it
/// with the group's cached spritesheet uniform. Empty groups and their
/// cache entries are left entirely alone and cause no GPU work.
#[verifier::rlimit(50)]
pub fn extract_instancing_groups(
    snapshot: &WorldSnapshot,
    cache: &mut ExtractedComponentCache,
    alloc: &mut HandleAllocator,
    commands: &mut Vec<GpuCommand>,
) -> (out: (Vec<ExtractedGroup>, Vec<ExtractError>))
    requires
        snapshot.wf(),
        old(cache).wf(),
        handles_below(*old(cache), old(alloc).next),
        old(alloc).next as int + 3 * snapshot.groups.slots@.len() <= u64::MAX as int,
    ensures
        final(cache).wf(),
        handles_below(*final(cache), final(alloc).next),
        old(alloc).next <= final(alloc).next,
        final(alloc).next as int <= old(alloc).next as int + 3 * snapshot.groups.slots@.len(),
        final(commands)@.len() >= old(commands)@.len(),
        final(commands)@.take(old(commands)@.len() as int) == old(commands)@,
        out.0@.len() <= snapshot.groups.slots@.len(),
        out.1@ == frame_errors_up_to(*snapshot, snapshot.groups.slots@.len() as int),
        extracted_groups_ok(*snapshot, *old(cache), *final(cache), final(commands)@, out.0@),
        untouched_groups(*snapshot, *old(cache), *final(cache), out.0@),
        (forall|id: ArenaId| !(#[trigger] live_nonempty(*snapshot, id))) ==> (final(commands)@
            == old(commands)@ && out.0@.len() == 0 && *final(alloc) == *old(alloc)),
{
    let ghost cache0 = *cache;
    let ghost alloc0 = *alloc;
    let ghost commands0 = commands@;
    let mut outs: Vec<ExtractedGroup> = Vec::new();
    let mut errors: Vec<ExtractError> = Vec::new();
    let n = snapshot.groups.slots.len();
    let mut i: usize = 0;
    while i < n
        invariant
            snapshot.wf(),
            n == snapshot.groups.slots@.len(),
            i <= n,
            cache.wf(),
            handles_below(*cache, alloc.next),
            alloc0.next <= alloc.next,
            alloc.next as int <= alloc0.next as int + 3 * i,
            alloc.next as int + 3 * (n - i) <= u64::MAX as int,
            commands0.len() <= commands@.len(),
            commands@.take(commands0.len() as int) == commands0,
            errors@ == frame_errors_up_to(*snapshot, i as int),
            outs@.len() <= i,
            forall|id: ArenaId|
                #![trigger cache.instancing_buffers.spec_get(id)]
                #![trigger cache.spritesheets.spec_get(id)]
                (!live_nonempty(*snapshot, id) || id.index >= i)
                    ==> cache.instancing_buffers.spec_get(id) == cache0.instancing_buffers.spec_get(
                    id,
                ) && cache.spritesheets.spec_get(id) == cache0.spritesheets.spec_get(id),
            forall|j: int| 0 <= j < outs@.len() ==> (#[trigger] outs@[j]).group.index < i,
            forall|j: int|
                0 <= j < outs@.len() ==> extracted_entry_ok(
                    *snapshot,
                    cache0,
                    *cache,
                    commands@,
                    #[trigger] outs@[j],
                ),
            forall|j1: int, j2: int|
                0 <= j1 < j2 < outs@.len() ==> outs@[j1].group != outs@[j2].group,
            forall|id: ArenaId|
                #[trigger] live_nonempty(*snapshot, id) && id.index < i ==> exists|j: int|
                    0 <= j < outs@.len() && outs@[j].group == id,
            (forall|id: ArenaId| !(#[trigger] live_nonempty(*snapshot, id))) ==> (commands@
                == commands0 && outs@.len() == 0 && *alloc == alloc0),
        decreases n - i,
    {
        let ghost cache_pre = *cache;
        let ghost commands_pre = commands@;
        let ghost outs_pre = outs@;
        match &snapshot.groups.slots[i] {
            Slot::Occupied { generation, value } => {
                if value.group.entities.len() > 0 {
                    let id = ArenaId { index: i, generation: *generation };
                    proof {
                        assert(snapshot.groups.spec_get(id) == Some(*value));
                        assert(live_nonempty(*snapshot, id));
                    }
                    let records = extract_group(
                        &snapshot.sprites,
                        id,
                        &value.group.entities,
                        &mut errors,
                    );
                    proof {
                        lemma_extraction_partition(id, snapshot.sprites, value.group.entities@);
                        assert(snapshot.groups.spec_get(id) matches Some(g) ==> g.group.entities@.len()
                            <= MAX_RECORDS);
                        assert(records@.len() <= MAX_RECORDS);
                        assert(errors@ =~= frame_errors_up_to(*snapshot, i as int + 1));
                    }
                    let buffer = cache.update_instancing_buffer(id, alloc, commands, &records);
                    let ghost cache_mid = *cache;
                    let ghost commands_mid = commands@;
                    let sheet = cache.update_instanced_spritesheet(
                        id,
                        alloc,
                        commands,
                        &value.spritesheet,
                    );
                    let e = ExtractedGroup { group: id, buffer, spritesheet: sheet };
                    proof {
                        assert(commands@.take(commands_pre.len() as int) =~= commands_mid.take(
                            commands_pre.len() as int,
                        ));
                        assert(commands@.take(commands0.len() as int) =~= commands_pre.take(
                            commands0.len() as int,
                        ));
                        // the freshly written entry is sound
                        let records_s = group_records(snapshot.sprites, value.group.entities@);
                        let cj = commands_mid.len() - 1;
                        assert(commands@[cj as int] == commands@.take(commands_mid.len() as int)[cj as int]);
                        assert(write_for(commands@[cj as int], buffer.device_buffer, records_s));
                        assert(extracted_entry_ok(*snapshot, cache0, *cache, commands@, e));
                        // entries of earlier iterations survive this one
                        assert forall|j: int| 0 <= j < outs_pre.len() implies extracted_entry_ok(
                            *snapshot,
                            cache0,
                            *cache,
                            commands@,
                            #[trigger] outs_pre[j],
                        ) by {
                            assert(outs_pre[j].group != id);
                            lemma_entry_ok_stable(
                                *snapshot,
                                cache0,
                                cache_pre,
                                *cache,
                                commands_pre,
                                commands@,
                                outs_pre[j],
                            );
                        }
                    }
                    outs.push(e);
                    proof {
                        assert forall|id2: ArenaId| #[trigger]
                            live_nonempty(*snapshot, id2) && id2.index < i + 1 implies exists|j: int|
                            0 <= j < outs@.len() && outs@[j].group == id2 by {
                            if id2.index < i {
                                let j = choose|j: int|
                                    0 <= j < outs_pre.len() && outs_pre[j].group == id2;
                                assert(outs@[j].group == id2);
                            } else {
                                assert(id2 == id);
                                assert(outs@[outs@.len() - 1].group == id2);
                            }
                        }
                    }
                } else {
                    proof {
                        assert(errors@ =~= frame_errors_up_to(*snapshot, i as int + 1));
                    }
                }
            },
            Slot::Free { .. } => {
                proof {
                    assert(errors@ =~= frame_errors_up_to(*snapshot, i as int + 1));
                }
            },
        }
        i = i + 1;
    }
    proof {
        assert forall|id: ArenaId| #[trigger]
            live_nonempty(*snapshot, id) implies exists|j: int|
            0 <= j < outs@.len() && outs@[j].group == id by {
            assert(id.index < n);
        }
        assert forall|id: ArenaId| !live_nonempty(*snapshot, id) implies #[trigger]
            cache.instancing_buffers.spec_get(id) == cache0.instancing_buffers.spec_get(id)
            && cache.spritesheets.spec_get(id) == cache0.spritesheets.spec_get(id) && (forall|j: int|
            0 <= j < outs@.len() ==> (#[trigger] outs@[j]).group != id) by {
            assert forall|j: int| 0 <= j < outs@.len() implies (#[trigger] outs@[j]).group != id by {
                assert(extracted_entry_ok(*snapshot, cache0, *cache, commands@, outs@[j]));
                assert(live_nonempty(*snapshot, outs@[j].group));
            }
        }
    }
    (outs, errors)
}

/// Handle freshness is monotone in the allocator bound.
pub proof fn lemma_handles_below_monotone(cache: ExtractedComponentCache, n1: u64, n2: u64)
    requires
        handles_below(cache, n1),
        n1 <= n2,
    ensures
        handles_below(cache, n2),
{
}

} // verus!
