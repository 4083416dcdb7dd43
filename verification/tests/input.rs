use scene_core::input::{Action, ActionMap, InputEvent, InputState};

const SPACE: u32 = 32;
const ENTER: u32 = 13;
const ESCAPE: u32 = 27;

fn map() -> ActionMap {
    ActionMap::new(vec![SPACE, ENTER], vec![ESCAPE])
}

#[test]
fn key_repeat_is_ignored() {
    let mut input = InputState::new();
    assert!(input.on_key_pressed(SPACE));
    assert!(!input.on_key_pressed(SPACE));
    assert!(input.is_key_down(SPACE));
    assert!(input.was_key_just_pressed(SPACE));
    assert_eq!(input.events().len(), 1);
}

#[test]
fn release_clears_the_held_key() {
    let mut input = InputState::new();
    input.on_key_pressed(SPACE);
    input.on_key_released(SPACE);
    assert!(!input.is_key_down(SPACE));
    assert!(input.was_key_just_released(SPACE));
    // Released and re-pressed in one frame counts as a fresh press.
    assert!(input.on_key_pressed(SPACE));
}

#[test]
fn end_frame_keeps_held_keys_only() {
    let mut input = InputState::new();
    input.on_key_pressed(SPACE);
    input.on_cursor_moved(10, 20);
    input.end_frame();
    assert!(input.is_key_down(SPACE));
    assert!(!input.was_key_just_pressed(SPACE));
    assert!(input.events().is_empty());
    assert_eq!(input.cursor_position(), Some([10, 20]));
}

#[test]
fn action_map_fires_on_any_bound_key() {
    let map = map();
    let mut input = InputState::new();
    assert!(!map.just_pressed(Action::SkipWait, &input));

    input.on_key_pressed(ENTER);
    assert!(map.just_pressed(Action::SkipWait, &input));
    assert!(!map.just_pressed(Action::Exit, &input));

    input.end_frame();
    assert!(!map.just_pressed(Action::SkipWait, &input));

    input.on_key_pressed(ESCAPE);
    assert!(map.just_pressed(Action::Exit, &input));
}

#[test]
fn mouse_buttons_mirror_key_handling() {
    let mut input = InputState::new();
    assert!(input.on_mouse_pressed(0));
    assert!(!input.on_mouse_pressed(0));
    input.on_mouse_released(0);
    assert!(input.on_mouse_pressed(0));
    input.on_mouse_wheel(123);
    assert_eq!(input.events().len(), 4);
    assert!(matches!(input.events()[3], InputEvent::MouseWheel { delta_y: 123 }));
}

#[test]
fn default_map_is_empty() {
    let map = ActionMap::default();
    let mut input = InputState::new();
    input.on_key_pressed(SPACE);
    assert!(!map.just_pressed(Action::SkipWait, &input));
    assert!(!map.just_pressed(Action::Exit, &input));
}
