//! The drawable command the host render-phase driver invokes once per
//! enqueued item per view.

use vstd::prelude::*;

use crate::mesh::InstancedSpriteMesh;
use crate::prepare::InstancedDrawItem;

verus! {

/// One recorded render-pass operation of an instanced sprite draw.
#[derive(Clone, Copy, PartialEq, Eq, Structural, Debug)]
pub enum RenderPassCommand {
    /// Switch the pass to the item's specialized pipeline.
    SetPipeline { pipeline: u64 },
    /// Bind a vertex buffer stream.
    SetVertexBuffer { slot: u32, buffer: u64 },
    /// Bind a bind group. The view uniform bind group at index 0 is bound
    /// by the host phase driver before this command runs.
    SetBindGroup { index: u32, bind_group: u64 },
    /// Draw `vertex_count` vertices, instanced `instance_count` times.
    Draw { vertex_count: u32, instance_count: usize },
}

/// The instanced sprite draw command: binds the shared quad at vertex slot
/// 0, the group's instance buffer at slot 1 and the spritesheet bind group
/// at index 1, then draws the quad once per valid buffer record.
pub struct DrawSpritesInstanced;

impl DrawSpritesInstanced {
    pub fn render(item: &InstancedDrawItem, mesh: &InstancedSpriteMesh) -> (pass: Vec<
        RenderPassCommand,
    >)
        ensures
            pass@ == seq![
                RenderPassCommand::SetPipeline { pipeline: item.pipeline },
                RenderPassCommand::SetVertexBuffer { slot: 0, buffer: mesh.quad_vertex_buffer },
                RenderPassCommand::SetVertexBuffer {
                    slot: 1,
                    buffer: item.buffer.device_buffer,
                },
                RenderPassCommand::SetBindGroup { index: 1, bind_group: item.bind_group },
                RenderPassCommand::Draw {
                    vertex_count: mesh.vertex_count,
                    instance_count: item.buffer.length,
                },
            ],
    {
        let mut pass: Vec<RenderPassCommand> = Vec::new();
        pass.push(RenderPassCommand::SetPipeline { pipeline: item.pipeline });
        pass.push(
            RenderPassCommand::SetVertexBuffer { slot: 0, buffer: mesh.quad_vertex_buffer },
        );
        pass.push(
            RenderPassCommand::SetVertexBuffer { slot: 1, buffer: item.buffer.device_buffer },
        );
        pass.push(RenderPassCommand::SetBindGroup { index: 1, bind_group: item.bind_group });
        pass.push(
            RenderPassCommand::Draw {
                vertex_count: mesh.vertex_count,
                instance_count: item.buffer.length,
            },
        );
        proof {
            assert(pass@ =~= seq![
                RenderPassCommand::SetPipeline { pipeline: item.pipeline },
                RenderPassCommand::SetVertexBuffer { slot: 0, buffer: mesh.quad_vertex_buffer },
                RenderPassCommand::SetVertexBuffer {
                    slot: 1,
                    buffer: item.buffer.device_buffer,
                },
                RenderPassCommand::SetBindGroup { index: 1, bind_group: item.bind_group },
                RenderPassCommand::Draw {
                    vertex_count: mesh.vertex_count,
                    instance_count: item.buffer.length,
                },
            ]);
        }
        pass
    }
}

} // verus!
