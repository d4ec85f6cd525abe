use engine::system::camera::{ARROW_UP, KEY_A, MOUSE_RIGHT};
use engine::system::input_system::{InputSystem, InputTrigger};
use engine::Input;

const SPACE: u32 = 62;
const KEY_W: u32 = 41;
const LEFT: u32 = 0;

#[test]
fn key_press_sets_down_and_pressed() {
    let mut input = Input::default();

    input.press_key(SPACE);

    assert!(input.key_down(SPACE));
    assert!(input.key_pressed(SPACE));
    assert!(!input.key_released(SPACE));
}

#[test]
fn repeated_key_press_does_not_repeat_pressed_transition() {
    let mut input = Input::default();

    input.press_key(SPACE);
    input.clear_transitions();
    input.press_key(SPACE);

    assert!(input.key_down(SPACE));
    assert!(!input.key_pressed(SPACE));
}

#[test]
fn key_release_sets_released_and_clears_down() {
    let mut input = Input::default();

    input.press_key(SPACE);
    input.clear_transitions();
    input.release_key(SPACE);

    assert!(!input.key_down(SPACE));
    assert!(!input.key_pressed(SPACE));
    assert!(input.key_released(SPACE));
}

#[test]
fn clear_transitions_keeps_down_state() {
    let mut input = Input::default();

    input.press_key(SPACE);
    input.press_mouse_button(LEFT);
    input.clear_transitions();

    assert!(input.key_down(SPACE));
    assert!(!input.key_pressed(SPACE));
    assert!(input.mouse_button_down(LEFT));
    assert!(!input.mouse_button_pressed(LEFT));
}

#[test]
fn releasing_a_key_that_is_up_changes_nothing() {
    let mut input = Input::default();
    input.release_key(SPACE);
    assert!(!input.key_released(SPACE));
    input.release_mouse_button(LEFT);
    assert!(!input.mouse_button_released(LEFT));
}

#[test]
fn mouse_button_release_sets_released() {
    let mut input = Input::default();
    input.press_mouse_button(LEFT);
    input.release_mouse_button(LEFT);
    assert!(!input.mouse_button_down(LEFT));
    assert!(input.mouse_button_pressed(LEFT));
    assert!(input.mouse_button_released(LEFT));
}

#[test]
fn bindings_fire_by_trigger_in_binding_order() {
    let mut system: InputSystem<&str> = InputSystem::new();
    system.bind(SPACE, InputTrigger::Pressed, "jump", "jump");
    system.bind(KEY_W, InputTrigger::Down, "walk", "walk");
    system.bind(SPACE, InputTrigger::Released, "land", "land");
    system.bind(SPACE, InputTrigger::Pressed, "jump", "jump again");
    assert_eq!(system.key_bindings.len(), 3);

    let mut input = Input::default();
    input.press_key(SPACE);
    input.press_key(KEY_W);
    let fired: Vec<&str> = system.update(&input).into_iter().copied().collect();
    assert_eq!(fired, vec!["jump", "walk"]);

    input.clear_transitions();
    input.release_key(SPACE);
    let fired: Vec<&str> = system.update(&input).into_iter().copied().collect();
    assert_eq!(fired, vec!["walk", "land"]);

    system.reset();
    assert!(system.update(&input).is_empty());
}

#[test]
fn camera_controls_follow_held_keys_and_right_button() {

    let mut input = Input::default();
    let camera = engine::CameraSystem;
    assert_eq!(
        camera.controls(&input),
        engine::CameraControls {
            turn: false,
            forward: false,
            backward: false,
            left: false,
            right: false,
            up: false,
            down: false
        }
    );
    input.press_key(KEY_W);
    input.press_key(KEY_A);
    input.press_key(ARROW_UP);
    input.press_mouse_button(MOUSE_RIGHT);
    input.clear_transitions();
    let controls = camera.controls(&input);
    assert!(controls.turn && controls.forward && controls.left && controls.up);
    assert!(!controls.backward && !controls.right && !controls.down);
    input.release_key(KEY_W);
    assert!(!camera.controls(&input).forward);
}
