use raft_world::geometry::{Vec2, Vec3};
use raft_world::input::{InputKey, InputMapping, InputState, InputSystem};

#[test]
fn default_bindings_are_in_place() {
    let m = InputMapping::new();
    assert_eq!(m.get_key_binding("move_left").unwrap(), "A");
    assert_eq!(m.get_key_binding("use_tool").unwrap(), "MOUSE_LEFT");
    assert_eq!(m.get_key_binding("open_crafting").unwrap(), "C");
    assert!(m.get_key_binding("fly").is_none());
    assert_eq!(m.get_all_key_bindings().len(), 16);
}

#[test]
fn rebinding_and_resetting() {
    let mut m = InputMapping::new();
    m.set_key_binding("move_left", "LEFT");
    m.set_key_binding("fly", "SPACE");
    assert_eq!(m.get_key_binding("move_left").unwrap(), "LEFT");
    assert_eq!(m.get_key_binding("fly").unwrap(), "SPACE");
    assert_eq!(m.get_key_binding("move_right").unwrap(), "D");
    m.reset_key_binding("move_left");
    assert_eq!(m.get_key_binding("move_left").unwrap(), "A");
    m.reset_key_binding("fly");
    assert_eq!(m.get_key_binding("fly").unwrap(), "SPACE");
    m.reset_all_key_bindings();
    assert!(m.get_key_binding("fly").is_none());
    assert_eq!(m.get_all_key_bindings().len(), 16);
}


#[test]
fn movement_keys_report_the_frame_they_go_down() {
    let mut sys = InputSystem::new();
    let mut s = InputState::default();
    s.move_left = true;
    s.use_tool = true;
    sys.update(s);
    assert!(sys.is_key_just_pressed(InputKey::MoveLeft));
    assert!(sys.is_key_pressed(InputKey::MoveLeft));
    assert!(sys.is_key_just_pressed(InputKey::UseTool));
    sys.update(s);
    assert!(!sys.is_key_just_pressed(InputKey::MoveLeft));
    assert!(sys.is_key_pressed(InputKey::MoveLeft));
    assert!(sys.is_key_just_pressed(InputKey::UseTool));
    assert!(!sys.is_key_pressed(InputKey::QuickItem0));
}

#[test]
fn movement_vector_and_sailing_input() {
    let mut sys = InputSystem::new();
    let mut s = InputState::default();
    s.move_right = true;
    s.move_up = true;
    s.sail_north = true;
    s.mouse_pos = Vec2 { x: 500000, y: 100000 };
    s.mouse_left_held = true;
    sys.update(s);
    assert_eq!(sys.get_movement_vector(), Vec3 { x: 1000, y: -1000, z: 0 });
    let sail = sys.get_sailing_input();
    assert!(sail.north && !sail.south && !sail.left);
    assert_eq!(sys.get_screen_mouse_position(), Vec2 { x: 500000, y: 100000 });
    assert_eq!(sys.get_world_mouse_position(&Vec2 { x: 7000, y: 0 }, 800, 600), Vec2 { x: 107000, y: -200000 });
    assert!(sys.is_mouse_left_held());
    assert!(!sys.is_mouse_left_just_pressed());
    assert!(!sys.is_mouse_right_just_pressed());
    assert_eq!(*sys.get_input_state(), s);
}
