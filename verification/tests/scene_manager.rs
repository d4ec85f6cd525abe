use engine::{Scene, SceneError, SceneHooks, SceneId, SceneManager, SceneRunError, SceneSwitch};

struct TestScene {
    name: &'static str,
}

impl Scene for TestScene {
    fn scene_name(&self) -> String {
        self.name.to_string()
    }

    fn name(&self) -> String {
        self.name.to_string()
    }
}

#[test]
fn registers_scene_and_assigns_scene_id() {
    let mut scene_manager = SceneManager::default();

    let scene_id = scene_manager
        .add_scene(TestScene { name: "basic_3d" })
        .unwrap();

    assert_eq!(scene_id, SceneId(0));
    assert!(scene_manager.is_registered_scene("basic_3d"));
    assert_eq!(scene_manager.scene_id("basic_3d"), Some(SceneId(0)));
    assert_eq!(
        scene_manager.get_scene("basic_3d").unwrap().name(),
        "basic_3d"
    );
    assert!(scene_manager.get_scene("missing").is_none());
}

#[test]
fn add_scene_rejects_duplicate_scene_name() {
    let mut scene_manager = SceneManager::default();

    assert!(
        scene_manager
            .add_scene(TestScene { name: "basic_3d" })
            .is_ok()
    );
    assert!(
        scene_manager
            .add_scene(TestScene { name: "basic_3d" })
            .is_err()
    );
    assert_eq!(scene_manager.scene_id("basic_3d"), Some(SceneId(0)));
}

#[test]
fn add_scene_increments_scene_id_for_each_registered_scene() {
    let mut scene_manager = SceneManager::default();

    assert_eq!(
        scene_manager
            .add_scene(TestScene { name: "first" })
            .unwrap(),
        SceneId(0)
    );
    assert_eq!(
        scene_manager
            .add_scene(TestScene { name: "second" })
            .unwrap(),
        SceneId(1)
    );
    assert_eq!(
        scene_manager
            .add_scene(TestScene { name: "third" })
            .unwrap(),
        SceneId(2)
    );
}

#[test]
fn current_and_next_scene_accept_only_registered_scenes() {
    let mut scene_manager = SceneManager::default();
    scene_manager
        .add_scene(TestScene { name: "first" })
        .unwrap();
    scene_manager
        .add_scene(TestScene { name: "second" })
        .unwrap();

    assert!(scene_manager.set_current_scene("missing").is_err());
    assert_eq!(scene_manager.current_scene_name(), None);

    assert_eq!(
        scene_manager.set_current_scene("first").unwrap(),
        SceneId(0)
    );
    assert_eq!(scene_manager.current_scene_name(), Some("first"));
    assert_eq!(scene_manager.current_scene_id(), Some(SceneId(0)));

    assert!(scene_manager.change_scene("missing").is_err());
    assert_eq!(scene_manager.next_scene_name(), None);

    assert_eq!(scene_manager.change_scene("second").unwrap(), SceneId(1));
    assert_eq!(scene_manager.next_scene_name(), Some("second"));
    assert_eq!(scene_manager.take_next_scene(), Some("second".to_string()));
    assert_eq!(scene_manager.next_scene_name(), None);
}

#[test]
fn set_current_scene_remembers_previous() {
    let mut scene_manager = SceneManager::default();
    scene_manager.add_scene(TestScene { name: "first" }).unwrap();
    scene_manager.add_scene(TestScene { name: "second" }).unwrap();
    scene_manager.set_current_scene("first").unwrap();
    scene_manager.set_current_scene("second").unwrap();
    assert_eq!(scene_manager.previous_scene_name(), Some("first"));
    assert_eq!(scene_manager.current_scene_name(), Some("second"));
    scene_manager.set_previous_scene(None);
    assert_eq!(scene_manager.previous_scene_name(), None);
}

#[test]
fn current_scene_mut_reports_why_it_fails() {
    let mut scene_manager: SceneManager<TestScene> = SceneManager::default();
    assert_eq!(
        scene_manager.current_scene_mut().err(),
        Some(SceneError::CurrentSceneNotSet)
    );
    scene_manager.add_scene(TestScene { name: "first" }).unwrap();
    scene_manager.set_current_scene("first").unwrap();
    assert_eq!(scene_manager.current_scene_mut().unwrap().name(), "first");
    assert_eq!(
        scene_manager
            .add_named_scene("first", TestScene { name: "other" })
            .err(),
        Some(SceneError::AlreadyRegistered)
    );
}

#[test]
fn a_new_manager_can_register_scenes() {
    let manager: SceneManager<TestScene> = SceneManager::default();
    assert!(manager.can_register());
    assert_eq!(manager.current_scene_name(), None);
}

impl SceneHooks<Vec<String>, u32> for TestScene {
    type Error = String;

    fn on_enter(&mut self, log: &mut Vec<String>) -> Result<(), String> {
        log.push(format!("enter {}", self.name));
        Ok(())
    }

    fn update(&mut self, frames: &mut u32) -> Result<(), String> {
        *frames += 1;
        if self.name == "broken" {
            return Err("broken update".to_string());
        }
        Ok(())
    }

    fn on_exit(&mut self, log: &mut Vec<String>) -> Result<(), String> {
        log.push(format!("exit {}", self.name));
        Ok(())
    }
}

#[test]
fn hooks_run_on_the_current_scene() {
    let mut manager: SceneManager<TestScene> = SceneManager::default();
    let mut log: Vec<String> = Vec::new();
    let mut frames: u32 = 0;
    assert!(matches!(
        manager.enter_current_scene::<Vec<String>, u32>(&mut log),
        Err(SceneRunError::Scene(SceneError::CurrentSceneNotSet))
    ));
    assert!(matches!(manager.update_current_scene::<Vec<String>, u32>(&mut frames), Ok(())));
    assert_eq!(frames, 0);

    manager.add_scene(TestScene { name: "title" }).unwrap();
    manager.add_scene(TestScene { name: "broken" }).unwrap();
    manager.set_current_scene("title").unwrap();
    assert!(manager.enter_current_scene::<Vec<String>, u32>(&mut log).is_ok());
    assert!(manager.update_current_scene::<Vec<String>, u32>(&mut frames).is_ok());
    assert!(manager.exit_current_scene::<Vec<String>, u32>(&mut log).is_ok());
    assert_eq!(log, vec!["enter title".to_string(), "exit title".to_string()]);
    assert_eq!(frames, 1);

    manager.set_current_scene("broken").unwrap();
    assert!(matches!(
        manager.update_current_scene::<Vec<String>, u32>(&mut frames),
        Err(SceneRunError::Hook(message)) if message == "broken update"
    ));
    assert_eq!(manager.current_scene_id(), Some(SceneId(1)));
}

#[test]
fn scene_switch_stays_on_current_and_leaves_it_otherwise() {
    let mut scene_manager = SceneManager::default();
    scene_manager.add_scene(TestScene { name: "first" }).unwrap();
    scene_manager.add_scene(TestScene { name: "second" }).unwrap();

    assert_eq!(
        scene_manager.scene_switch("first"),
        SceneSwitch::Change { leaving: None }
    );
    scene_manager.set_current_scene("first").unwrap();
    assert_eq!(scene_manager.scene_switch("first"), SceneSwitch::Stay(SceneId(0)));
    assert_eq!(
        scene_manager.scene_switch("second"),
        SceneSwitch::Change {
            leaving: Some(SceneId(0))
        }
    );
    assert_eq!(
        scene_manager.scene_switch("missing"),
        SceneSwitch::Change {
            leaving: Some(SceneId(0))
        }
    );
}
