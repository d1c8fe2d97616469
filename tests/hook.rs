use raft_world::geometry::{Vec2, Vec3};
use raft_world::hook::{Hook, HookState};

fn v(x: i64, y: i64, z: i64) -> Vec3 {
    Vec3 { x, y, z }
}

#[test]
fn resting_hook_does_not_move() {
    let mut h = Hook::new(7);
    assert_eq!(h.state, HookState::Retracted);
    assert!(!h.is_active());
    assert!(!h.update(100, v(5, 5, 5)));
    assert_eq!(h.state, HookState::Retracted);
    assert_eq!(h.get_hook_tip_position(), v(0, 0, 0));
}

#[test]
fn launch_normalises_the_aim() {
    let mut h = Hook::new(7);
    h.launch(v(1000, 2000, 0), Vec2 { x: 3, y: 4 });
    assert_eq!(h.state, HookState::Extending);
    assert_eq!(h.direction, Vec2 { x: 600, y: 800 });
    assert_eq!(h.velocity, v(48, 64, 0));
    assert_eq!(h.position, v(1000, 2000, 0));
    assert_eq!(h.length, 0);
}

#[test]
fn zero_aim_points_along_x() {
    let mut h = Hook::new(7);
    h.launch(v(0, 0, 0), Vec2 { x: 0, y: 0 });
    assert_eq!(h.direction, Vec2 { x: 1000, y: 0 });
    assert_eq!(h.velocity, v(80, 0, 0));
}

#[test]
fn hook_goes_through_the_whole_cycle_in_order() {
    let mut h = Hook::new(7);
    let owner = v(0, 0, 0);
    h.launch(owner, Vec2 { x: 3, y: 4 });
    let mut seen = vec![h.state];
    let mut done_at = None;
    for frame in 0..200 {
        let done = h.update(100, owner);
        if *seen.last().unwrap() != h.state {
            seen.push(h.state);
        }
        if done {
            done_at = Some(frame);
            break;
        }
    }
    assert_eq!(
        seen,
        vec![HookState::Extending, HookState::Extended, HookState::Retracting, HookState::Retracted]
    );
    assert!(done_at.is_some());
    assert_eq!(h.length, 0);
}

#[test]
fn extension_stops_at_max_length() {
    let mut h = Hook::new(7);
    h.launch(v(0, 0, 0), Vec2 { x: 3, y: 4 });
    for _ in 0..12 {
        h.update(100, v(0, 0, 0));
    }
    assert_eq!(h.state, HookState::Extending);
    assert_eq!(h.length, 96000);
    h.update(100, v(0, 0, 0));
    assert_eq!(h.state, HookState::Extended);
    assert_eq!(h.length, 104000);
    assert_eq!(h.position, v(62400, 83200, 0));
    h.update(100, v(0, 0, 0));
    assert_eq!(h.state, HookState::Retracting);
    assert_eq!(h.position, v(62400, 83200, 0));
    // 104 units from the owner, returning at 120 units per second.
    h.update(100, v(0, 0, 0));
    assert_eq!(h.length, 104000);
    assert_eq!(h.velocity, v(-72, -96, 0));
    assert_eq!(h.position, v(55200, 73600, 0));
}

#[test]
fn active_hook_cannot_be_relaunched() {
    let mut h = Hook::new(7);
    h.launch(v(0, 0, 0), Vec2 { x: 1, y: 0 });
    h.update(100, v(0, 0, 0));
    h.attach_item(42);
    h.launch(v(9000, 9000, 0), Vec2 { x: 0, y: 1 });
    assert_eq!(h.state, HookState::Extending);
    assert_eq!(h.position, v(8000, 0, 0));
    assert_eq!(h.attached_items, vec![42]);
}

#[test]
fn attach_keeps_each_id_once_and_detach_empties() {
    let mut h = Hook::new(1);
    h.attach_item(5);
    h.attach_item(6);
    h.attach_item(5);
    assert_eq!(h.attached_items, vec![5, 6]);
    assert_eq!(h.detach_all_items(), vec![5, 6]);
    assert!(h.attached_items.is_empty());
}
