use raft_world::entity::{Entity, EntityType, FishEntity, FishType, FloatingItemEntity};
use raft_world::factory::EntityFactory;
use raft_world::geometry::Vec3;
use raft_world::item::{pick_item_type, FloatingItemType};
use raft_world::projector::GameMode;
use raft_world::spawn::SpawnType;
use raft_world::world::GameManager;

fn v(x: i64, y: i64, z: i64) -> Vec3 {
    Vec3 { x, y, z }
}

#[test]
fn environment_sets_item_and_fish_velocities() {
    let mut gm = GameManager::new(1);
    gm.wind = v(10, -20, 0);
    let item = gm.entity_manager.create_entity(&mut gm.entity_storage, Entity::FloatingItem(FloatingItemEntity::new(0, v(0, 0, 0), FloatingItemType::Wood)));
    let fish = gm.entity_manager.create_entity(&mut gm.entity_storage, Entity::Fish(FishEntity::new(0, v(0, 0, -30000), FishType::SmallFish)));
    let raft = gm.entity_manager.create_entity(&mut gm.entity_storage, EntityFactory::new().create_raft(v(0, 0, 0)));
    gm.apply_environment();
    let g = |id: u32| gm.entity_manager.get_entity(&gm.entity_storage, id).unwrap().get_velocity();
    assert_eq!(g(item), v(9, -6, 0));
    assert_eq!(g(fish), v(2, -4, 0));
    assert_eq!(g(raft), v(0, 0, 0));
}

#[test]
fn negative_wind_rounds_down() {
    let mut gm = GameManager::new(1);
    gm.wind = v(-1, 0, 0);
    let item = gm.entity_manager.create_entity(&mut gm.entity_storage, Entity::FloatingItem(FloatingItemEntity::new(0, v(0, 0, 0), FloatingItemType::Wood)));
    gm.apply_environment();
    assert_eq!(gm.entity_manager.get_entity(&gm.entity_storage, item).unwrap().get_velocity(), v(5, 0, 0));
}

#[test]
fn spawning_creates_requested_entities() {
    let mut gm = GameManager::new(1);
    gm.update_spawning(v(0, 0, 0), 800, 0);
    assert_eq!(gm.entity_manager.get_entity_count(EntityType::FloatingItem), 1);
    assert_eq!(gm.entity_manager.get_entity_count(EntityType::Fish), 1);
    let item = gm.entity_manager.get_entity_ids_by_type(EntityType::FloatingItem)[0];
    match gm.entity_manager.get_entity(&gm.entity_storage, item).unwrap() {
        Entity::FloatingItem(fi) => {
            assert_eq!(fi.item_type, FloatingItemType::Wood);
            assert_eq!(fi.position, v(-440000, -4000, 0));
        },
        _ => panic!("not a floating item"),
    }
}

#[test]
fn diving_stops_item_spawns() {
    let mut gm = GameManager::new(1);
    gm.update_spawning(v(0, 0, 0), 800, 0);
    assert_eq!(gm.entity_manager.get_entity_count(EntityType::FloatingItem), 1);
    gm.set_game_mode(GameMode::Dive);
    assert_eq!(gm.game_mode, GameMode::Dive);
    for _ in 0..700 {
        gm.update_spawning(v(0, 0, 0), 800, 0);
    }
    assert_eq!(gm.entity_manager.get_entity_count(EntityType::FloatingItem), 1);
    gm.set_game_mode(GameMode::Raft);
    gm.update_spawning(v(0, 0, 0), 800, 0);
    assert_eq!(gm.entity_manager.get_entity_count(EntityType::FloatingItem), 2);
}

#[test]
fn frames_move_items_with_the_current() {
    let mut gm = GameManager::new(1);
    gm.spawn_system.set_max_entities(SpawnType::FloatingItem, 0);
    gm.spawn_system.set_max_entities(SpawnType::Fish, 0);
    let item = gm.entity_manager.create_entity(&mut gm.entity_storage, Entity::FloatingItem(FloatingItemEntity::new(0, v(0, 0, 0), FloatingItemType::Rope)));
    gm.advance_frame(v(0, 0, 0), 1000, 800, 0);
    // Wind of one unit per second: 6 + 0 units per second for a second.
    assert_eq!(gm.entity_manager.get_entity(&gm.entity_storage, item).unwrap().get_world_position(), v(6000, 0, 0));
    assert_eq!(gm.entity_manager.get_total_entity_count(&gm.entity_storage), 1);
}

#[test]
fn item_draw_follows_rarity() {
    assert_eq!(pick_item_type(0), FloatingItemType::Wood);
    assert_eq!(pick_item_type(300), FloatingItemType::Wood);
    assert_eq!(pick_item_type(301), FloatingItemType::Plastic);
    assert_eq!(pick_item_type(750), FloatingItemType::Rope);
    assert_eq!(pick_item_type(900), FloatingItemType::Metal);
    assert_eq!(pick_item_type(999), FloatingItemType::Nail);
    assert_eq!(FloatingItemType::Treasure.rarity(), 20);
}
