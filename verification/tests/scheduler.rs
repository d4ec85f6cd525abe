use engine::Scheduler;

struct TestUpdateSystem;

#[test]
fn remove_update_system_removes_system_by_name() {
    let mut scheduler: Scheduler<(), TestUpdateSystem, ()> = Scheduler::default();
    scheduler.add_update_system("first", TestUpdateSystem);
    scheduler.add_update_system("second", TestUpdateSystem);

    assert_eq!(scheduler.update_systems().len(), 2);
    assert!(scheduler.remove_update_system("first"));
    assert_eq!(scheduler.update_systems().len(), 1);
    assert_eq!(scheduler.update_systems()[0].name, "second");
}

#[test]
fn remove_update_system_returns_false_when_missing() {
    let mut scheduler: Scheduler<(), TestUpdateSystem, ()> = Scheduler::default();
    scheduler.add_update_system("first", TestUpdateSystem);

    assert!(!scheduler.remove_update_system("missing"));
    assert_eq!(scheduler.update_systems().len(), 1);
    assert_eq!(scheduler.update_systems()[0].name, "first");
}

#[test]
fn add_update_system_ignores_a_taken_name() {
    let mut scheduler: Scheduler<(), u8, ()> = Scheduler::default();
    scheduler.add_update_system("first", 1);
    scheduler.add_update_system("first", 2);
    assert_eq!(scheduler.update_systems().len(), 1);
    assert_eq!(scheduler.update_systems()[0].system, 1);
    assert!(scheduler.update_systems()[0].enabled);
    scheduler.reset_scene_runtime();
    assert!(scheduler.update_systems().is_empty());
}

struct Counter {
    runs: u32,
    fails: bool,
}

impl engine::system::scheduler::UpdateSystem<u32> for Counter {
    fn update(&mut self, context: &mut u32) -> Result<(), engine::CommandError> {
        self.runs += 1;
        if self.fails {
            return Err(engine::CommandError::PrimitiveNotFound);
        }
        *context += 1;
        Ok(())
    }
}

#[test]
fn run_update_stage_runs_enabled_systems_in_order_until_one_fails() {
    let mut scheduler: Scheduler<(), Counter, ()> = Scheduler::default();
    scheduler.add_update_system("first", Counter { runs: 0, fails: false });
    scheduler.add_update_system("second", Counter { runs: 0, fails: true });
    scheduler.add_update_system("third", Counter { runs: 0, fails: false });
    let mut frames: u32 = 0;
    assert_eq!(
        scheduler.run_update_stage(&mut frames),
        Err(engine::CommandError::PrimitiveNotFound)
    );
    assert_eq!(frames, 1);
    let runs: Vec<u32> = scheduler.update_systems().iter().map(|s| s.system.runs).collect();
    assert_eq!(runs, vec![1, 1, 0]);

    assert!(scheduler.remove_update_system("second"));
    assert_eq!(scheduler.run_update_stage(&mut frames), Ok(()));
    assert_eq!(frames, 3);
}
