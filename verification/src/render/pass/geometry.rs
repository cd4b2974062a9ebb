//! The commands the renderer records to draw a scene: those of the geometry pass, and those of
//! the plain scene renderer.
use vstd::prelude::*;

verus! {

/// A primitive to draw, by the handles of what it binds: the descriptor set of its material,
/// its index and vertex buffers, and the number of its indices.
#[derive(Clone, Copy, Debug, PartialEq, Eq, Structural)]
pub struct PrimitiveDraw {
    pub material_set: u64,
    pub index_buffer: u64,
    pub vertex_buffer: u64,
    pub num_indices: u32,
}

/// A command of the geometry pass.
#[derive(Clone, Copy, Debug, PartialEq, Eq, Structural)]
pub enum PassCommand {
    /// A barrier from all commands and memory accesses to all commands.
    FullBarrier,
    /// Begins the render pass on the framebuffer of the swapchain image, clearing it.
    BeginRenderPass { framebuffer: usize },
    BindPipeline,
    SetViewport,
    /// Binds the camera's descriptor set as set 0.
    BindCameraSet,
    /// Binds the scene's and the camera's descriptor sets as sets 0 and 1.
    BindSceneAndCameraSets,
    /// Binds a material's descriptor set as set `slot`.
    BindMaterialSet { slot: u32, set: u64 },
    BindIndexBuffer { buffer: u64 },
    BindVertexBuffer { buffer: u64 },
    /// Pushes the transform of model `model` (and its normal matrix) to the vertex shader.
    PushModelTransform { model: usize },
    DrawIndexed { index_count: u32 },
    EndRenderPass,
}

/// The commands that draw primitive `p` of model `model`, with its material bound as set `slot`.
pub open spec fn primitive_commands(model: usize, slot: u32, p: PrimitiveDraw) -> Seq<PassCommand> {
    seq![
        PassCommand::BindMaterialSet { slot, set: p.material_set },
        PassCommand::BindIndexBuffer { buffer: p.index_buffer },
        PassCommand::BindVertexBuffer { buffer: p.vertex_buffer },
        PassCommand::PushModelTransform { model },
        PassCommand::DrawIndexed { index_count: p.num_indices },
    ]
}

/// The commands that draw the primitives `prims` of model `model`, in order.
pub open spec fn model_commands(model: usize, slot: u32, prims: Seq<PrimitiveDraw>) -> Seq<PassCommand>
    decreases prims.len(),
{
    if prims.len() == 0 {
        Seq::empty()
    } else {
        model_commands(model, slot, prims.drop_last()) + primitive_commands(model, slot, prims.last())
    }
}

/// The commands that draw the models `models`, each a list of primitives, in order.
pub open spec fn models_commands(models: Seq<Vec<PrimitiveDraw>>, slot: u32) -> Seq<PassCommand>
    decreases models.len(),
{
    if models.len() == 0 {
        Seq::empty()
    } else {
        models_commands(models.drop_last(), slot) + model_commands((models.len() - 1) as usize, slot, models.last()@)
    }
}

/// The commands of the geometry pass: a full barrier, the render pass on the framebuffer of
/// the swapchain image with the pipeline, viewport and camera bound, each primitive of each
/// model in order with its material as set 1, and the end of the render pass.
pub open spec fn spec_geometry_pass(models: Seq<Vec<PrimitiveDraw>>, swapchain_index: usize) -> Seq<PassCommand> {
    seq![
        PassCommand::FullBarrier,
        PassCommand::BeginRenderPass { framebuffer: swapchain_index },
        PassCommand::BindPipeline,
        PassCommand::SetViewport,
        PassCommand::BindCameraSet,
    ] + models_commands(models, 1) + seq![PassCommand::EndRenderPass]
}

/// The commands of the plain scene renderer: the render pass on the framebuffer of the
/// swapchain image with the pipeline, viewport, scene and camera bound, each primitive of each
/// model in order with its material as set 2, and the end of the render pass.
pub open spec fn spec_scene_draw(models: Seq<Vec<PrimitiveDraw>>, swapchain_index: usize) -> Seq<PassCommand> {
    seq![
        PassCommand::BeginRenderPass { framebuffer: swapchain_index },
        PassCommand::BindPipeline,
        PassCommand::SetViewport,
        PassCommand::BindSceneAndCameraSets,
    ] + models_commands(models, 2) + seq![PassCommand::EndRenderPass]
}

/// Appends the commands that draw the models `draws`, with each material bound as set `slot`.
fn push_models(out: &mut Vec<PassCommand>, draws: &Vec<Vec<PrimitiveDraw>>, slot: u32)
    ensures
        final(out)@ == old(out)@ + models_commands(draws@, slot),
{
    let ghost head = out@;
    assert(models_commands(draws@.take(0), slot) =~= Seq::<PassCommand>::empty());
    assert(out@ =~= head + models_commands(draws@.take(0), slot));
    let mut m: usize = 0;
    while m < draws.len()
        invariant
            m <= draws@.len(),
            out@ == head + models_commands(draws@.take(m as int), slot),
        decreases draws@.len() - m,
    {
        let prims = &draws[m];
        let ghost before = out@;
        let mut i: usize = 0;
        assert(prims@.take(0) =~= Seq::<PrimitiveDraw>::empty());
        assert(out@ =~= before + model_commands(m, slot, prims@.take(0)));
        while i < prims.len()
            invariant
                i <= prims@.len(),
                out@ == before + model_commands(m, slot, prims@.take(i as int)),
            decreases prims@.len() - i,
        {
            let p = prims[i];
            out.push(PassCommand::BindMaterialSet { slot, set: p.material_set });
            out.push(PassCommand::BindIndexBuffer { buffer: p.index_buffer });
            out.push(PassCommand::BindVertexBuffer { buffer: p.vertex_buffer });
            out.push(PassCommand::PushModelTransform { model: m });
            out.push(PassCommand::DrawIndexed { index_count: p.num_indices });
            proof {
                assert(prims@.take(i + 1).drop_last() =~= prims@.take(i as int));
                assert(prims@.take(i + 1).last() == p);
                assert(out@ =~= before + model_commands(m, slot, prims@.take(i + 1)));
            }
            i = i + 1;
        }
        proof {
            assert(prims@.take(prims@.len() as int) =~= prims@);
            assert(draws@.take(m + 1).drop_last() =~= draws@.take(m as int));
            assert(draws@.take(m + 1).last() == *prims);
            assert(out@ =~= head + models_commands(draws@.take(m + 1), slot));
        }
        m = m + 1;
    }
    proof {
        assert(draws@.take(draws@.len() as int) =~= draws@);
    }
}

/// The commands the geometry pass records for the models `draws` into the framebuffer of
/// swapchain image `swapchain_index`, one of `framebuffer_count`.
pub fn geometry_pass_commands(draws: &Vec<Vec<PrimitiveDraw>>, swapchain_index: usize, framebuffer_count: usize) -> (r:
    Vec<PassCommand>)
    requires
        swapchain_index < framebuffer_count,
    ensures
        r@ == spec_geometry_pass(draws@, swapchain_index),
{
    let mut out: Vec<PassCommand> = Vec::new();
    out.push(PassCommand::FullBarrier);
    out.push(PassCommand::BeginRenderPass { framebuffer: swapchain_index });
    out.push(PassCommand::BindPipeline);
    out.push(PassCommand::SetViewport);
    out.push(PassCommand::BindCameraSet);
    push_models(&mut out, draws, 1);
    out.push(PassCommand::EndRenderPass);
    assert(out@ =~= spec_geometry_pass(draws@, swapchain_index));
    out
}

/// The commands the plain scene renderer records for the models `draws` into the framebuffer
/// of swapchain image `swapchain_index`, one of `framebuffer_count`.
pub fn scene_draw_commands(draws: &Vec<Vec<PrimitiveDraw>>, swapchain_index: usize, framebuffer_count: usize) -> (r:
    Vec<PassCommand>)
    requires
        swapchain_index < framebuffer_count,
    ensures
        r@ == spec_scene_draw(draws@, swapchain_index),
{
    let mut out: Vec<PassCommand> = Vec::new();
    out.push(PassCommand::BeginRenderPass { framebuffer: swapchain_index });
    out.push(PassCommand::BindPipeline);
    out.push(PassCommand::SetViewport);
    out.push(PassCommand::BindSceneAndCameraSets);
    push_models(&mut out, draws, 2);
    out.push(PassCommand::EndRenderPass);
    assert(out@ =~= spec_scene_draw(draws@, swapchain_index));
    out
}


} // verus!
