use round_cat::render::pass::geometry::{geometry_pass_commands, scene_draw_commands, PassCommand, PrimitiveDraw};

fn prim(n: u64, num_indices: u32) -> PrimitiveDraw {
    PrimitiveDraw { material_set: n, index_buffer: 10 + n, vertex_buffer: 20 + n, num_indices }
}

fn draw(model: usize, slot: u32, p: PrimitiveDraw) -> Vec<PassCommand> {
    vec![
        PassCommand::BindMaterialSet { slot, set: p.material_set },
        PassCommand::BindIndexBuffer { buffer: p.index_buffer },
        PassCommand::BindVertexBuffer { buffer: p.vertex_buffer },
        PassCommand::PushModelTransform { model },
        PassCommand::DrawIndexed { index_count: p.num_indices },
    ]
}

#[test]
fn geometry_pass_draws_each_primitive_in_model_order() {
    let models = vec![vec![prim(1, 36)], vec![prim(2, 6), prim(3, 3)]];
    let commands = geometry_pass_commands(&models, 1, 3);
    let mut expected = vec![
        PassCommand::FullBarrier,
        PassCommand::BeginRenderPass { framebuffer: 1 },
        PassCommand::BindPipeline,
        PassCommand::SetViewport,
        PassCommand::BindCameraSet,
    ];
    expected.extend(draw(0, 1, prim(1, 36)));
    expected.extend(draw(1, 1, prim(2, 6)));
    expected.extend(draw(1, 1, prim(3, 3)));
    expected.push(PassCommand::EndRenderPass);
    assert_eq!(commands, expected);
}

#[test]
fn empty_scene_still_clears_the_framebuffer() {
    let commands = geometry_pass_commands(&vec![vec![]], 0, 1);
    assert_eq!(
        commands,
        vec![
            PassCommand::FullBarrier,
            PassCommand::BeginRenderPass { framebuffer: 0 },
            PassCommand::BindPipeline,
            PassCommand::SetViewport,
            PassCommand::BindCameraSet,
            PassCommand::EndRenderPass,
        ]
    );
}

#[test]
fn scene_renderer_binds_materials_as_the_third_set() {
    let models = vec![vec![prim(5, 12)]];
    let mut expected = vec![
        PassCommand::BeginRenderPass { framebuffer: 2 },
        PassCommand::BindPipeline,
        PassCommand::SetViewport,
        PassCommand::BindSceneAndCameraSets,
    ];
    expected.extend(draw(0, 2, prim(5, 12)));
    expected.push(PassCommand::EndRenderPass);
    assert_eq!(scene_draw_commands(&models, 2, 3), expected);
}
