//! The render stage as a whole: its owned state, one-time startup, and the
//! per-frame extract → prepare → queue pass.
//!
//! All state is threaded explicitly: the stage owns the per-group caches,
//! the pipeline cache, the quad mesh and the handle allocator, and a frame
//! is one sequential pass over them producing GPU commands and draw phases.

use vstd::prelude::*;

use crate::arena::ArenaId;
use crate::cache::CacheMap;
use crate::extract::{
    extract_instancing_groups, extracted_groups_ok, frame_errors_up_to, handles_below,
    lemma_entry_ok_stable, lemma_handles_below_monotone, live_nonempty, untouched_groups,
    ExtractError, ExtractedComponentCache, ExtractedGroup, WorldSnapshot,
};
use crate::gpu::{GpuCommand, HandleAllocator};
use crate::mesh::{
    quad_vertex_words, setup_entity_instancing_mesh, InstancedSpriteMesh, QUAD_VERTEX_COUNT,
};
use crate::pipeline::{PipelineKey, SpecializedPipelines};
use crate::prepare::{
    lemma_prepared_stable, lemma_view_items_groups, prepare_instanced_spritesheets, prepared_ok,
    queue_instanced_sprites, view_items, InstancedDrawItem, InstancedSpritesheetBindGroup,
    ViewInfo,
};
use crate::wire::words_bytes;

verus! {

/// Everything the render stage owns across frames.
pub struct RenderStage {
    pub alloc: HandleAllocator,
    pub cache: ExtractedComponentCache,
    pub bind_groups: CacheMap<InstancedSpritesheetBindGroup>,
    pub pipelines: SpecializedPipelines,
    pub mesh: InstancedSpriteMesh,
}

impl RenderStage {
    pub open spec fn wf(self) -> bool {
        &&& self.cache.wf()
        &&& self.bind_groups.wf()
        &&& self.pipelines.wf()
        &&& handles_below(self.cache, self.alloc.next)
    }

    /// Releases everything cached for a group that is permanently gone:
    /// its instance buffer, its extracted spritesheet and its bind group.
    pub fn release_group(&mut self, id: ArenaId)
        requires
            old(self).wf(),
        ensures
            final(self).wf(),
            final(self).cache.instancing_buffers.spec_get(id) is None,
            final(self).cache.spritesheets.spec_get(id) is None,
            final(self).bind_groups.spec_get(id) is None,
            forall|other: ArenaId|
                other != id ==> final(self).cache.instancing_buffers.spec_get(other) == old(
                    self,
                ).cache.instancing_buffers.spec_get(other),
            forall|other: ArenaId|
                other != id ==> final(self).cache.spritesheets.spec_get(other) == old(
                    self,
                ).cache.spritesheets.spec_get(other),
            forall|other: ArenaId|
                other != id ==> final(self).bind_groups.spec_get(other) == old(
                    self,
                ).bind_groups.spec_get(other),
            final(self).pipelines == old(self).pipelines,
            final(self).mesh == old(self).mesh,
            final(self).alloc == old(self).alloc,
    {
        self.cache.release_group(id);
        self.bind_groups.remove_key(id);
    }
}

/// What one frame hands back to the host: the extracted groups, the
/// dangling-member reports, one draw phase per view, and the GPU commands
/// to run before the phases are drawn.
pub struct FrameOutput {
    pub extracted: Vec<ExtractedGroup>,
    pub errors: Vec<ExtractError>,
    pub phases: Vec<Vec<InstancedDrawItem>>,
    pub commands: Vec<GpuCommand>,
}

/// Registers instanced sprite rendering with a host: `build` performs the
/// render-stage startup once and hands back the stage state the host
/// threads through every frame.
pub struct InstancedSpriteRenderPlugin;

impl InstancedSpriteRenderPlugin {
    /// One-time render-stage startup: creates the unit-quad vertex buffer
    /// and the empty caches. The returned commands must run before the
    /// first frame.
    pub fn build(&self) -> (r: (RenderStage, Vec<GpuCommand>))
        ensures
            r.0.wf(),
            r.0.mesh.vertex_count == QUAD_VERTEX_COUNT,
            forall|id: ArenaId| r.0.cache.instancing_buffers.spec_get(id) is None,
            forall|id: ArenaId| r.0.cache.spritesheets.spec_get(id) is None,
            forall|id: ArenaId| r.0.bind_groups.spec_get(id) is None,
            forall|key: PipelineKey| r.0.pipelines.spec_get(key) is None,
            r.1@.len() == 1,
            (match r.1@.last() {
                GpuCommand::CreateBufferWithData { buffer, bytes } => {
                    &&& buffer == r.0.mesh.quad_vertex_buffer
                    &&& bytes@ == words_bytes(quad_vertex_words())
                },
                _ => false,
            }),
    {
        let mut alloc = HandleAllocator::new();
        let mut commands: Vec<GpuCommand> = Vec::new();
        let mesh = setup_entity_instancing_mesh(&mut alloc, &mut commands);
        let stage = RenderStage {
            alloc,
            cache: ExtractedComponentCache::new(),
            bind_groups: CacheMap::new(),
            pipelines: SpecializedPipelines::new(),
            mesh,
        };
        (stage, commands)
    }

    pub fn name(&self) -> (r: &'static str)
        ensures
            r@ == "Entity instanced render plugin"@,
    {
        "Entity instanced render plugin"
    }
}

impl RenderStage {
    /// Runs one frame: extracts every non-empty group into its persistent
    /// buffer, prepares the bind group of every group whose image is
    /// resolved, and queues one instanced draw item per ready group per
    /// view. Empty groups cause no work; unresolved images are retried
    /// next frame.
    #[verifier::rlimit(60)]
    pub fn run_frame(
        &mut self,
        snapshot: &WorldSnapshot,
        ready_images: &Vec<u64>,
        views: &Vec<ViewInfo>,
        msaa_samples: u32,
    ) -> (out: FrameOutput)
        requires
            snapshot.wf(),
            old(self).wf(),
            old(self).alloc.next as int + 4 * snapshot.groups.slots@.len() + views@.len()
                <= u64::MAX as int,
        ensures
            final(self).wf(),
            final(self).mesh == old(self).mesh,
            extracted_groups_ok(
                *snapshot,
                old(self).cache,
                final(self).cache,
                out.commands@,
                out.extracted@,
            ),
            untouched_groups(*snapshot, old(self).cache, final(self).cache, out.extracted@),
            out.extracted@.len() <= snapshot.groups.slots@.len(),
            out.errors@ == frame_errors_up_to(*snapshot, snapshot.groups.slots@.len() as int),
            forall|j: int|
                0 <= j < out.extracted@.len() ==> prepared_ok(
                    #[trigger] out.extracted@[j],
                    old(self).bind_groups,
                    final(self).bind_groups,
                    ready_images@,
                    out.commands@,
                ),
            forall|id: ArenaId|
                (forall|j: int|
                    0 <= j < out.extracted@.len() ==> (#[trigger] out.extracted@[j]).group != id)
                    ==> #[trigger] final(self).bind_groups.spec_get(id) == old(
                    self,
                ).bind_groups.spec_get(id),
            out.phases@.len() == views@.len(),
            forall|v: int|
                0 <= v < views@.len() ==> (#[trigger] final(self).pipelines.spec_get(
                    PipelineKey { msaa_samples, hdr: views@[v].hdr },
                )) is Some && out.phases@[v]@ == view_items(
                    out.extracted@,
                    final(self).bind_groups,
                    final(self).pipelines.spec_get(
                        PipelineKey { msaa_samples, hdr: views@[v].hdr },
                    ).unwrap(),
                ),
    {
        let mut commands: Vec<GpuCommand> = Vec::new();
        let (extracted, errors) = extract_instancing_groups(
            snapshot,
            &mut self.cache,
            &mut self.alloc,
            &mut commands,
        );
        let ghost commands_a = commands@;
        let ghost alloc_a = self.alloc;
        prepare_instanced_spritesheets(
            &extracted,
            ready_images,
            &mut self.bind_groups,
            &mut self.alloc,
            &mut commands,
        );
        let ghost commands_b = commands@;
        let phases = queue_instanced_sprites(
            views,
            msaa_samples,
            &extracted,
            &self.bind_groups,
            &mut self.pipelines,
            &mut self.alloc,
            &mut commands,
        );
        proof {
            lemma_handles_below_monotone(self.cache, alloc_a.next, self.alloc.next);
            assert(commands@.take(commands_a.len() as int) =~= commands_b.take(
                commands_a.len() as int,
            ));
            assert forall|j: int| 0 <= j < extracted@.len() implies crate::extract::extracted_entry_ok(
                *snapshot,
                old(self).cache,
                self.cache,
                commands@,
                #[trigger] extracted@[j],
            ) by {
                lemma_entry_ok_stable(
                    *snapshot,
                    old(self).cache,
                    self.cache,
                    self.cache,
                    commands_a,
                    commands@,
                    extracted@[j],
                );
            }
            assert forall|j: int| 0 <= j < extracted@.len() implies prepared_ok(
                #[trigger] extracted@[j],
                old(self).bind_groups,
                self.bind_groups,
                ready_images@,
                commands@,
            ) by {
                lemma_prepared_stable(
                    extracted@[j],
                    old(self).bind_groups,
                    self.bind_groups,
                    self.bind_groups,
                    ready_images@,
                    commands_b,
                    commands@,
                );
            }
        }
        FrameOutput { extracted, errors, phases, commands }
    }
}

/// Law: a group that is empty (or gone) this frame performs no upload and
/// produces zero draw items: its cache entries are exactly what they were,
/// and no view's phase holds an item for it.
pub proof fn lemma_empty_group_idle(
    snapshot: WorldSnapshot,
    c0: ExtractedComponentCache,
    c1: ExtractedComponentCache,
    outs: Seq<ExtractedGroup>,
    bind_groups: CacheMap<InstancedSpritesheetBindGroup>,
    pipeline: u64,
    id: ArenaId,
)
    requires
        untouched_groups(snapshot, c0, c1, outs),
        !live_nonempty(snapshot, id),
    ensures
        c1.instancing_buffers.spec_get(id) == c0.instancing_buffers.spec_get(id),
        c1.spritesheets.spec_get(id) == c0.spritesheets.spec_get(id),
        forall|j: int|
            0 <= j < view_items(outs, bind_groups, pipeline).len() ==> (#[trigger] view_items(
                outs,
                bind_groups,
                pipeline,
            )[j]).group != id,
{
    lemma_view_items_groups(outs, bind_groups, pipeline);
    let items = view_items(outs, bind_groups, pipeline);
    assert forall|j: int| 0 <= j < items.len() implies (#[trigger] items[j]).group != id by {
        let l = choose|l: int|
            0 <= l < outs.len() && (#[trigger] outs[l]).group == items[j].group && outs[l].buffer
                == items[j].buffer;
        assert(outs[l].group != id);
    }
}

} // verus!
