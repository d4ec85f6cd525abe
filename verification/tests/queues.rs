use engine::runner::{on_window_event, LoopAction, LoopState, WindowEventKind};
use engine::{
    EngineConfig, EntityId, MeshAssetId, MeshHandle, RenderCommand, RenderCommandQueue,
    SceneCommand, SceneCommandApi, SceneCommandQueue, SkyboxTextureHandle, VertexLayout,
};

#[test]
fn scene_commands_drain_in_order() {
    let mut queue = SceneCommandQueue::default();
    queue.set_current_scene("first");
    queue.set_current_scene("second");
    let names: Vec<String> = queue
        .drain()
        .into_iter()
        .map(|c| match c {
            SceneCommand::SetCurrentScene { scene_name } => scene_name,
        })
        .collect();
    assert_eq!(names, vec!["first".to_string(), "second".to_string()]);
    assert!(queue.drain().is_empty());
}

#[test]
fn render_commands_drain_in_order() {
    let mut queue: RenderCommandQueue<&str> = RenderCommandQueue::default();
    let mesh = MeshHandle::new(1, VertexLayout::Skybox);
    queue.create_primitive_mesh(EntityId(3));
    queue.update_primitive_mesh(MeshAssetId(2), "sphere");
    queue.set_skybox(mesh, SkyboxTextureHandle(0));
    queue.destroy_mesh(mesh);
    let drained = queue.drain();
    assert_eq!(drained.len(), 4);
    assert!(matches!(drained[0], RenderCommand::CreatePrimitiveMesh { entity } if entity == EntityId(3)));
    assert!(matches!(drained[1], RenderCommand::UpdatePrimitiveMesh { asset_id, shape } if asset_id == MeshAssetId(2) && shape == "sphere"));
    assert!(matches!(drained[2], RenderCommand::SetSkybox { .. }));
    assert!(matches!(drained[3], RenderCommand::DestroyMesh { .. }));
    assert!(queue.drain().is_empty());
}

#[test]
fn engine_config_defaults() {
    let config = EngineConfig::default();
    assert_eq!(config.title, "Turbo Engine");
    assert_eq!(config.width, 1024);
    assert_eq!(config.height, 768);
}

#[test]
fn event_loop_decisions() {
    let running = LoopState { minimized: false };
    assert_eq!(
        on_window_event(running, WindowEventKind::RedrawRequested, false),
        (running, LoopAction::UpdateAndRender)
    );
    assert_eq!(
        on_window_event(running, WindowEventKind::RedrawRequested, true),
        (running, LoopAction::Nothing)
    );
    let (state, action) = on_window_event(running, WindowEventKind::Resized { width: 0, height: 10 }, false);
    assert!(state.minimized);
    assert_eq!(action, LoopAction::Nothing);
    assert_eq!(
        on_window_event(state, WindowEventKind::RedrawRequested, false).1,
        LoopAction::Nothing
    );
    let (state, action) = on_window_event(state, WindowEventKind::Resized { width: 800, height: 600 }, false);
    assert!(!state.minimized);
    assert_eq!(action, LoopAction::MarkResized);
    assert_eq!(
        on_window_event(state, WindowEventKind::CloseRequested, false).1,
        LoopAction::ExitAndDestroy
    );
}

struct SceneRequests {
    queue: SceneCommandQueue,
}

impl SceneCommandApi for SceneRequests {
    fn scene_queue(&self) -> &SceneCommandQueue {
        &self.queue
    }

    fn scene_commands_mut(&mut self) -> &mut SceneCommandQueue {
        &mut self.queue
    }
}

#[test]
fn scene_requests_go_to_the_queue() {
    let mut requests = SceneRequests { queue: SceneCommandQueue::default() };
    requests.set_current_scene("menu");
    let queued = requests.queue.drain();
    assert_eq!(queued.len(), 1);
    assert!(matches!(&queued[0], SceneCommand::SetCurrentScene { scene_name } if scene_name == "menu"));
}
