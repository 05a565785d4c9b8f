//! Per-frame preparation and queueing.
//!
//! Preparation turns each extracted spritesheet whose image the asset
//! collaborator has resolved into a cached, reusable bind group; an
//! unresolved image is not an error, the group is simply skipped this frame
//! and retried the next. Queueing then emits, per view, exactly one
//! instanced draw item for every group whose buffer and bind group are both
//! ready.

use vstd::prelude::*;

use crate::arena::ArenaId;
use crate::cache::CacheMap;
use crate::extract::{ExtractedGroup, ExtractedSpriteInstancingBuffer};
use crate::gpu::{GpuCommand, HandleAllocator};
use crate::pipeline::{PipelineKey, SpecializedPipelines};

verus! {

/// The cached GPU bind group of one group's spritesheet: texture view,
/// sampler and tile-grid-size uniform.
#[derive(Clone, Copy, PartialEq, Eq, Structural, Debug)]
pub struct InstancedSpritesheetBindGroup {
    pub bind_group: u64,
}

/// View-level state a draw phase is built for.
#[derive(Clone, Copy, PartialEq, Eq, Structural, Debug)]
pub struct ViewInfo {
    pub hdr: bool,
}

/// One enqueued instanced draw: the group, the pipeline variant, the
/// group's instance buffer (drawn `buffer.length` times) and its
/// spritesheet bind group. All items share one constant sort key; no
/// inter-group draw order is promised.
#[derive(Clone, Copy, PartialEq, Eq, Structural, Debug)]
pub struct InstancedDrawItem {
    pub sort_key: u32,
    pub group: ArenaId,
    pub pipeline: u64,
    pub buffer: ExtractedSpriteInstancingBuffer,
    pub bind_group: u64,
}

/// True iff the asset collaborator reports `image` as resolved.
pub fn image_ready(ready_images: &Vec<u64>, image: u64) -> (r: bool)
    ensures
        r == ready_images@.contains(image),
{
    let n = ready_images.len();
    let mut i: usize = 0;
    while i < n
        invariant
            i <= n,
            n == ready_images@.len(),
            forall|j: int| 0 <= j < i ==> ready_images@[j] != image,
        decreases n - i,
    {
        if ready_images[i] == image {
            return true;
        }
        i = i + 1;
    }
    false
}

/// What preparation guarantees for one extracted group: a binding cached
/// earlier is reused as is (spritesheet changes are not re-detected); a
/// missing binding is built exactly when the image is resolved, else left
/// absent to be retried next frame.
pub open spec fn prepared_ok(
    e: ExtractedGroup,
    bg0: CacheMap<InstancedSpritesheetBindGroup>,
    bg1: CacheMap<InstancedSpritesheetBindGroup>,
    ready: Seq<u64>,
    commands: Seq<GpuCommand>,
) -> bool {
    match bg0.spec_get(e.group) {
        Some(b) => bg1.spec_get(e.group) == Some(b),
        None => if ready.contains(e.spritesheet.image) {
            bg1.spec_get(e.group) matches Some(b) && exists|cj: int|
                0 <= cj < commands.len() && #[trigger] commands[cj] == (GpuCommand::CreateBindGroup {
                    bind_group: b.bind_group,
                    image: e.spritesheet.image,
                    size_buffer: e.spritesheet.size_buffer,
                })
        } else {
            bg1.spec_get(e.group) is None
        },
    }
}

/// A prepared binding survives later cache updates under other keys and
/// later command recording.
pub proof fn lemma_prepared_stable(
    e: ExtractedGroup,
    bg0: CacheMap<InstancedSpritesheetBindGroup>,
    bg1: CacheMap<InstancedSpritesheetBindGroup>,
    bg2: CacheMap<InstancedSpritesheetBindGroup>,
    ready: Seq<u64>,
    commands1: Seq<GpuCommand>,
    commands2: Seq<GpuCommand>,
)
    requires
        prepared_ok(e, bg0, bg1, ready, commands1),
        bg2.spec_get(e.group) == bg1.spec_get(e.group),
        commands2.len() >= commands1.len(),
        commands2.take(commands1.len() as int) == commands1,
    ensures
        prepared_ok(e, bg0, bg2, ready, commands2),
{
    if bg0.spec_get(e.group) is None && ready.contains(e.spritesheet.image) {
        let b = bg1.spec_get(e.group).unwrap();
        let cj = choose|cj: int|
            0 <= cj < commands1.len() && #[trigger] commands1[cj] == (GpuCommand::CreateBindGroup {
                bind_group: b.bind_group,
                image: e.spritesheet.image,
                size_buffer: e.spritesheet.size_buffer,
            });
        assert(commands2[cj] == commands2.take(commands1.len() as int)[cj]);
    }
}

/// Builds the spritesheet bind group of every extracted group whose image
/// is resolved and not bound yet; bindings built in earlier frames are
/// reused, groups with unresolved images are skipped and retried next
/// frame. Groups outside `extracted` are untouched.
#[verifier::rlimit(30)]
pub fn prepare_instanced_spritesheets(
    extracted: &Vec<ExtractedGroup>,
    ready_images: &Vec<u64>,
    bind_groups: &mut CacheMap<InstancedSpritesheetBindGroup>,
    alloc: &mut HandleAllocator,
    commands: &mut Vec<GpuCommand>,
)
    requires
        old(bind_groups).wf(),
        forall|j1: int, j2: int|
            0 <= j1 < j2 < extracted@.len() ==> extracted@[j1].group != extracted@[j2].group,
        old(alloc).next as int + extracted@.len() <= u64::MAX as int,
    ensures
        final(bind_groups).wf(),
        old(alloc).next <= final(alloc).next,
        final(alloc).next as int <= old(alloc).next as int + extracted@.len(),
        final(commands)@.len() >= old(commands)@.len(),
        final(commands)@.take(old(commands)@.len() as int) == old(commands)@,
        forall|j: int|
            0 <= j < extracted@.len() ==> prepared_ok(
                #[trigger] extracted@[j],
                *old(bind_groups),
                *final(bind_groups),
                ready_images@,
                final(commands)@,
            ),
        forall|id: ArenaId|
            (forall|j: int| 0 <= j < extracted@.len() ==> (#[trigger] extracted@[j]).group != id)
                ==> #[trigger] final(bind_groups).spec_get(id) == old(bind_groups).spec_get(id),
{
    let ghost bg0 = *bind_groups;
    let ghost commands0 = commands@;
    let ghost alloc0 = *alloc;
    let n = extracted.len();
    let mut i: usize = 0;
    while i < n
        invariant
            n == extracted@.len(),
            i <= n,
            bind_groups.wf(),
            forall|j1: int, j2: int|
                0 <= j1 < j2 < extracted@.len() ==> extracted@[j1].group != extracted@[j2].group,
            alloc0.next <= alloc.next,
            alloc.next as int <= alloc0.next as int + i,
            alloc.next as int + (n - i) <= u64::MAX as int,
            commands0.len() <= commands@.len(),
            commands@.take(commands0.len() as int) == commands0,
            forall|j: int|
                0 <= j < i ==> prepared_ok(
                    #[trigger] extracted@[j],
                    bg0,
                    *bind_groups,
                    ready_images@,
                    commands@,
                ),
            forall|id: ArenaId|
                (forall|j: int| 0 <= j < i ==> (#[trigger] extracted@[j]).group != id)
                    ==> #[trigger] bind_groups.spec_get(id) == bg0.spec_get(id),
        decreases n - i,
    {
        let ghost bg_pre = *bind_groups;
        let ghost commands_pre = commands@;
        let e = &extracted[i];
        let had = bind_groups.find(e.group);
        match had {
            Some(_) => {},
            None => {
                if image_ready(ready_images, e.spritesheet.image) {
                    let handle = alloc.fresh();
                    commands.push(
                        GpuCommand::CreateBindGroup {
                            bind_group: handle,
                            image: e.spritesheet.image,
                            size_buffer: e.spritesheet.size_buffer,
                        },
                    );
                    bind_groups.upsert(e.group, InstancedSpritesheetBindGroup { bind_group: handle });
                }
            },
        }
        proof {
            assert(commands@.take(commands0.len() as int) =~= commands_pre.take(
                commands0.len() as int,
            ));
            assert(commands@.take(commands_pre.len() as int) =~= commands_pre);
            assert(prepared_ok(
                extracted@[i as int],
                bg0,
                *bind_groups,
                ready_images@,
                commands@,
            )) by {
                if bg0.spec_get(extracted@[i as int].group) is None && ready_images@.contains(
                    extracted@[i as int].spritesheet.image,
                ) {
                    if had is None {
                        assert(commands@[commands@.len() - 1]
                            == (GpuCommand::CreateBindGroup {
                            bind_group: bind_groups.spec_get(
                                extracted@[i as int].group,
                            ).unwrap().bind_group,
                            image: extracted@[i as int].spritesheet.image,
                            size_buffer: extracted@[i as int].spritesheet.size_buffer,
                        }));
                    }
                }
            }
            assert forall|j: int| 0 <= j < i implies prepared_ok(
                #[trigger] extracted@[j],
                bg0,
                *bind_groups,
                ready_images@,
                commands@,
            ) by {
                assert(extracted@[j].group != extracted@[i as int].group);
                lemma_prepared_stable(
                    extracted@[j],
                    bg0,
                    bg_pre,
                    *bind_groups,
                    ready_images@,
                    commands_pre,
                    commands@,
                );
            }
        }
        i = i + 1;
    }
}

/// The draw items one view receives: for each extracted group whose bind
/// group is ready, in extraction order, one instanced draw of its buffer
/// with the view's pipeline variant and the constant sort key.
pub open spec fn view_items(
    extracted: Seq<ExtractedGroup>,
    bind_groups: CacheMap<InstancedSpritesheetBindGroup>,
    pipeline: u64,
) -> Seq<InstancedDrawItem>
    decreases extracted.len(),
{
    if extracted.len() == 0 {
        Seq::empty()
    } else {
        let rest = view_items(extracted.drop_last(), bind_groups, pipeline);
        let e = extracted.last();
        match bind_groups.spec_get(e.group) {
            Some(b) => rest.push(
                InstancedDrawItem {
                    sort_key: 0,
                    group: e.group,
                    pipeline,
                    buffer: e.buffer,
                    bind_group: b.bind_group,
                },
            ),
            None => rest,
        }
    }
}

/// Every queued draw item belongs to some extracted group.
pub proof fn lemma_view_items_groups(
    extracted: Seq<ExtractedGroup>,
    bind_groups: CacheMap<InstancedSpritesheetBindGroup>,
    pipeline: u64,
)
    ensures
        forall|j: int|
            0 <= j < view_items(extracted, bind_groups, pipeline).len() ==> exists|l: int|
                0 <= l < extracted.len() && (#[trigger] extracted[l]).group == (
                #[trigger] view_items(extracted, bind_groups, pipeline)[j]).group
                    && extracted[l].buffer == view_items(extracted, bind_groups, pipeline)[j].buffer,
    decreases extracted.len(),
{
    if extracted.len() > 0 {
        lemma_view_items_groups(extracted.drop_last(), bind_groups, pipeline);
        let items = view_items(extracted, bind_groups, pipeline);
        let rest = view_items(extracted.drop_last(), bind_groups, pipeline);
        assert forall|j: int| 0 <= j < items.len() implies exists|l: int|
            0 <= l < extracted.len() && (#[trigger] extracted[l]).group == (
            #[trigger] items[j]).group && extracted[l].buffer == items[j].buffer by {
            if j < rest.len() {
                let l = choose|l: int|
                    0 <= l < extracted.drop_last().len() && (#[trigger] extracted.drop_last()[l]).group
                        == rest[j].group && extracted.drop_last()[l].buffer == rest[j].buffer;
                assert(extracted[l].group == items[j].group && extracted[l].buffer
                    == items[j].buffer);
            } else {
                assert(extracted[extracted.len() - 1].group == items[j].group);
            }
        }
    }
}

/// Queues the draw phases: per view, the pipeline variant for the view's
/// flags is specialized once and cached, and one instanced draw item is
/// enqueued for every extracted group whose spritesheet bind group is
/// ready. Variants cached earlier are reused and never rebuilt.
#[verifier::rlimit(30)]
pub fn queue_instanced_sprites(
    views: &Vec<ViewInfo>,
    msaa_samples: u32,
    extracted: &Vec<ExtractedGroup>,
    bind_groups: &CacheMap<InstancedSpritesheetBindGroup>,
    pipelines: &mut SpecializedPipelines,
    alloc: &mut HandleAllocator,
    commands: &mut Vec<GpuCommand>,
) -> (phases: Vec<Vec<InstancedDrawItem>>)
    requires
        bind_groups.wf(),
        old(pipelines).wf(),
        old(alloc).next as int + views@.len() <= u64::MAX as int,
    ensures
        final(pipelines).wf(),
        old(alloc).next <= final(alloc).next,
        final(commands)@.len() >= old(commands)@.len(),
        final(commands)@.take(old(commands)@.len() as int) == old(commands)@,
        phases@.len() == views@.len(),
        forall|v: int|
            0 <= v < views@.len() ==> (#[trigger] final(pipelines).spec_get(
                PipelineKey { msaa_samples, hdr: views@[v].hdr },
            )) is Some && phases@[v]@ == view_items(
                extracted@,
                *bind_groups,
                final(pipelines).spec_get(PipelineKey { msaa_samples, hdr: views@[v].hdr }).unwrap(),
            ),
        forall|key: PipelineKey|
            (#[trigger] old(pipelines).spec_get(key)) matches Some(p)
                ==> final(pipelines).spec_get(key) == Some(p),
{
    let ghost commands0 = commands@;
    let ghost alloc0 = *alloc;
    let mut phases: Vec<Vec<InstancedDrawItem>> = Vec::new();
    let n_views = views.len();
    let mut v: usize = 0;
    while v < n_views
        invariant
            n_views == views@.len(),
            v <= n_views,
            phases@.len() == v,
            bind_groups.wf(),
            pipelines.wf(),
            alloc0.next <= alloc.next,
            alloc.next as int + (n_views - v) <= u64::MAX as int,
            commands0.len() <= commands@.len(),
            commands@.take(commands0.len() as int) == commands0,
            forall|w: int|
                0 <= w < v ==> (#[trigger] pipelines.spec_get(
                    PipelineKey { msaa_samples, hdr: views@[w].hdr },
                )) is Some && phases@[w]@ == view_items(
                    extracted@,
                    *bind_groups,
                    pipelines.spec_get(PipelineKey { msaa_samples, hdr: views@[w].hdr }).unwrap(),
                ),
            forall|key: PipelineKey|
                (#[trigger] old(pipelines).spec_get(key)) matches Some(p) ==> pipelines.spec_get(
                    key,
                ) == Some(p),
        decreases n_views - v,
    {
        let ghost pipelines_pre = *pipelines;
        let key = PipelineKey { msaa_samples, hdr: views[v].hdr };
        let pipeline = pipelines.specialize(key, alloc, commands);
        proof {
            assert(commands@.take(commands0.len() as int) =~= commands0);
        }
        let mut items: Vec<InstancedDrawItem> = Vec::new();
        let n_groups = extracted.len();
        let mut g: usize = 0;
        proof {
            assert(items@ =~= view_items(extracted@.take(0), *bind_groups, pipeline));
        }
        while g < n_groups
            invariant
                n_groups == extracted@.len(),
                g <= n_groups,
                bind_groups.wf(),
                items@ == view_items(extracted@.take(g as int), *bind_groups, pipeline),
            decreases n_groups - g,
        {
            let e = &extracted[g];
            match bind_groups.get(e.group) {
                Some(b) => {
                    items.push(
                        InstancedDrawItem {
                            sort_key: 0,
                            group: e.group,
                            pipeline,
                            buffer: e.buffer,
                            bind_group: b.bind_group,
                        },
                    );
                },
                None => {},
            }
            proof {
                assert(extracted@.take(g as int + 1).drop_last() =~= extracted@.take(g as int));
                assert(extracted@.take(g as int + 1).last() == extracted@[g as int]);
            }
            g = g + 1;
        }
        proof {
            assert(extracted@.take(n_groups as int) =~= extracted@);
        }
        phases.push(items);
        v = v + 1;
    }
    phases
}

} // verus!
