use rat_engine::renderer::RatRenderer;
use rat_engine::renderer::RenderStep;

#[test]
fn an_empty_scene_clears_and_presents() {
    let plan = RatRenderer::frame_plan(&vec![]);
    assert_eq!(plan, vec![RenderStep::Clear, RenderStep::Present]);
}

#[test]
fn the_frame_plan_orders_every_submesh_without_interleaving() {
    let plan = RatRenderer::frame_plan(&vec![2, 1]);
    let expected = vec![
        RenderStep::Clear,
        RenderStep::BindBuffers { object: 0, submesh: 0 },
        RenderStep::ActivateMaterial { object: 0 },
        RenderStep::PushUniforms { object: 0 },
        RenderStep::DrawIndexed { object: 0, submesh: 0 },
        RenderStep::ReleaseBuffers { object: 0, submesh: 0 },
        RenderStep::BindBuffers { object: 0, submesh: 1 },
        RenderStep::ActivateMaterial { object: 0 },
        RenderStep::PushUniforms { object: 0 },
        RenderStep::DrawIndexed { object: 0, submesh: 1 },
        RenderStep::ReleaseBuffers { object: 0, submesh: 1 },
        RenderStep::BindBuffers { object: 1, submesh: 0 },
        RenderStep::ActivateMaterial { object: 1 },
        RenderStep::PushUniforms { object: 1 },
        RenderStep::DrawIndexed { object: 1, submesh: 0 },
        RenderStep::ReleaseBuffers { object: 1, submesh: 0 },
        RenderStep::Present,
    ];
    assert_eq!(plan, expected);
}

#[test]
fn an_object_without_submeshes_adds_no_steps() {
    let plan = RatRenderer::frame_plan(&vec![0, 1]);
    assert_eq!(plan.len(), 7);
    assert_eq!(plan[1], RenderStep::BindBuffers { object: 1, submesh: 0 });
}

#[test]
fn a_fresh_renderer_holds_no_buffers() {
    let r = RatRenderer::new();
    assert_eq!((r.vao, r.vbo, r.ebo), (0, 0, 0));
}

#[test]
fn every_bind_is_released_before_the_next_bind() {
    let plan = RatRenderer::frame_plan(&vec![3, 2, 4]);
    let mut open: Option<(usize, usize)> = None;
    for step in plan {
        match step {
            RenderStep::BindBuffers { object, submesh } => {
                assert!(open.is_none());
                open = Some((object, submesh));
            }
            RenderStep::ReleaseBuffers { object, submesh } => {
                assert_eq!(open, Some((object, submesh)));
                open = None;
            }
            _ => {}
        }
    }
    assert!(open.is_none());
}
