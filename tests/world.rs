use raft_world::entity::{Entity, FishEntity, FishType, FloatingItemEntity};
use raft_world::geometry::{Vec2, Vec3};
use raft_world::hook::{Hook, HookState};
use raft_world::inventory::InventorySlot;
use raft_world::item::FloatingItemType;
use raft_world::world::{catch_chance_at, catch_roll, GameManager};

fn v(x: i64, y: i64, z: i64) -> Vec3 {
    Vec3 { x, y, z }
}

fn hook_of(gm: &GameManager, id: u32) -> Option<&Hook> {
    match gm.entity_manager.get_entity(&gm.entity_storage, id) {
        Some(Entity::Hook(he)) => Some(&he.hook),
        _ => None,
    }
}

fn add(gm: &mut GameManager, e: Entity) -> u32 {
    gm.entity_manager.create_entity(&mut gm.entity_storage, e)
}

#[test]
fn item_near_the_path_is_hooked_while_extending() {
    let mut gm = GameManager::new(1);
    let item = add(&mut gm, Entity::FloatingItem(FloatingItemEntity::new(0, v(50000, 10000, 0), FloatingItemType::Plastic)));
    let hook = gm.launch_hook(v(0, 0, 0), Vec2 { x: 1, y: 0 }).unwrap();
    let mut caught_while_extending = false;
    for _ in 0..13 {
        gm.update_hooks(v(0, 0, 0), 100, 0);
        let h = hook_of(&gm, hook).unwrap();
        if h.attached_items.contains(&item) {
            caught_while_extending = h.state == HookState::Extending;
            break;
        }
    }
    assert!(caught_while_extending);
}

#[test]
fn hooked_item_travels_pinned_to_the_tip() {
    let mut gm = GameManager::new(1);
    let item = add(&mut gm, Entity::FloatingItem(FloatingItemEntity::new(0, v(50000, 10000, 0), FloatingItemType::Plastic)));
    gm.entity_manager.set_entity_velocity(&mut gm.entity_storage, item, v(5, 5, 0));
    let hook = gm.launch_hook(v(0, 0, 0), Vec2 { x: 1, y: 0 }).unwrap();
    let mut pinned_frames = 0;
    for _ in 0..100 {
        gm.update_hooks(v(0, 0, 0), 100, 0);
        match hook_of(&gm, hook) {
            Some(h) if h.attached_items.contains(&item) => {
                let tip = h.get_hook_tip_position();
                let e = gm.entity_manager.get_entity(&gm.entity_storage, item).unwrap();
                assert_eq!(e.get_world_position(), tip);
                assert_eq!(e.get_velocity(), v(0, 0, 0));
                pinned_frames += 1;
            },
            Some(_) => {},
            None => break,
        }
    }
    assert!(pinned_frames > 5);
}

#[test]
fn second_launch_waits_for_the_first_hook() {
    let mut gm = GameManager::new(1);
    let first = gm.launch_hook(v(0, 0, 0), Vec2 { x: 1, y: 0 });
    assert!(first.is_some());
    assert!(gm.launch_hook(v(0, 0, 0), Vec2 { x: 0, y: 1 }).is_none());
    for _ in 0..200 {
        gm.update_hooks(v(0, 0, 0), 100, 0);
    }
    assert!(hook_of(&gm, first.unwrap()).is_none());
    assert!(gm.launch_hook(v(0, 0, 0), Vec2 { x: 0, y: 1 }).is_some());
}

#[test]
fn full_inventory_leaves_the_second_item_at_the_last_tip() {
    let mut gm = GameManager::new(1);
    for i in 0..gm.inventory.slots.len() {
        gm.inventory.slots[i] = InventorySlot::new_with_item(FloatingItemType::Treasure, 1);
    }
    gm.inventory.slots[0] = InventorySlot::new_with_item(FloatingItemType::Wood, 31);
    let a = add(&mut gm, Entity::FloatingItem(FloatingItemEntity::new(0, v(50000, 5000, 0), FloatingItemType::Wood)));
    let b = add(&mut gm, Entity::FloatingItem(FloatingItemEntity::new(0, v(50000, 5000, 0), FloatingItemType::Wood)));
    let hook = gm.launch_hook(v(0, 0, 0), Vec2 { x: 1, y: 0 }).unwrap();
    let mut last_tip = v(0, 0, 0);
    let mut both_attached = false;
    for _ in 0..200 {
        gm.update_hooks(v(0, 0, 0), 100, 0);
        match hook_of(&gm, hook) {
            Some(h) => {
                last_tip = h.get_hook_tip_position();
                if h.attached_items == vec![a, b] {
                    both_attached = true;
                }
            },
            None => break,
        }
    }
    assert!(both_attached);
    assert!(hook_of(&gm, hook).is_none());
    assert!(gm.entity_manager.get_entity(&gm.entity_storage, a).is_none());
    let rest = gm.entity_manager.get_entity(&gm.entity_storage, b).unwrap();
    assert_eq!(rest.get_world_position(), last_tip);
    assert_eq!(gm.inventory.get_count(FloatingItemType::Wood), 32);
}

#[test]
fn collecting_a_fish_adds_a_caught_fish() {
    let mut gm = GameManager::new(1);
    let f = add(&mut gm, Entity::Fish(FishEntity::new(0, v(0, 0, -30000), FishType::TropicalFish)));
    assert!(gm.collect_one(f));
    assert!(gm.entity_manager.get_entity(&gm.entity_storage, f).is_none());
    assert_eq!(gm.inventory.get_count(FloatingItemType::Fish), 1);
    assert!(!gm.collect_one(f));
}

#[test]
fn manual_pickup_takes_items_within_twenty_units() {
    let mut gm = GameManager::new(1);
    let near = add(&mut gm, Entity::FloatingItem(FloatingItemEntity::new(0, v(12000, 16000, 0), FloatingItemType::Rope)));
    let far = add(&mut gm, Entity::FloatingItem(FloatingItemEntity::new(0, v(12000, 16001, 0), FloatingItemType::Rope)));
    gm.handle_item_collection(v(0, 0, 0), true);
    assert!(gm.entity_manager.get_entity(&gm.entity_storage, near).is_some());
    gm.handle_item_collection(v(0, 0, 0), false);
    assert!(gm.entity_manager.get_entity(&gm.entity_storage, near).is_none());
    assert!(gm.entity_manager.get_entity(&gm.entity_storage, far).is_some());
    assert_eq!(gm.inventory.get_count(FloatingItemType::Rope), 1);
}

#[test]
fn catch_chance_rises_with_depth() {
    assert_eq!(catch_chance_at(0), 30);
    assert_eq!(catch_chance_at(20000), 30);
    assert_eq!(catch_chance_at(20001), 50);
    assert_eq!(catch_chance_at(50000), 50);
    assert_eq!(catch_chance_at(50001), 60);
    assert_eq!(catch_roll(0, 1), 35);
    assert_eq!(catch_roll(1000003, 1), 4);
    assert_eq!(catch_roll(5, 2), 44);
    assert_eq!(catch_roll(2, 1), 10);
    // Neighbouring fish of one frame do not get neighbouring rolls.
    assert_eq!(catch_roll(0, 2), 0);
    assert_eq!(catch_roll(0, 3), 79);
}

#[test]
fn shallow_hook_never_catches_fish() {
    let mut gm = GameManager::new(1);
    let f = add(&mut gm, Entity::Fish(FishEntity::new(0, v(8000, 0, 0), FishType::SmallFish)));
    let hook = gm.launch_hook(v(0, 0, 0), Vec2 { x: 1, y: 0 }).unwrap();
    for seed in 0..5 {
        gm.update_hooks(v(0, 0, 0), 100, seed);
    }
    assert!(!hook_of(&gm, hook).unwrap().attached_items.contains(&f));
}

#[test]
fn deep_hook_catches_fish_on_a_low_roll() {
    let mut gm = GameManager::new(1);
    // Fish id 1; with seed 2 its roll is 10, under the 30 % of shallow water.
    let f = add(&mut gm, Entity::Fish(FishEntity::new(0, v(8000, 0, -10000), FishType::SmallFish)));
    let hook = gm.launch_hook(v(0, 0, -10000), Vec2 { x: 1, y: 0 }).unwrap();
    gm.update_hooks(v(0, 0, -10000), 100, 2);
    assert!(hook_of(&gm, hook).unwrap().attached_items.contains(&f));
}

#[test]
fn deep_hook_misses_fish_on_a_high_roll() {
    let mut gm = GameManager::new(1);
    // Fish id 1; with seed 4 its roll is 78, over the 30 % of shallow water.
    let f = add(&mut gm, Entity::Fish(FishEntity::new(0, v(8000, 0, -10000), FishType::SmallFish)));
    let hook = gm.launch_hook(v(0, 0, -10000), Vec2 { x: 1, y: 0 }).unwrap();
    gm.update_hooks(v(0, 0, -10000), 100, 4);
    assert!(!hook_of(&gm, hook).unwrap().attached_items.contains(&f));
}
