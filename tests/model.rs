use raft_world::color::Color;
use raft_world::entity::{
    Entity, EntityType, FishEntity, FishType, FloatingItemEntity, HookEntity, MonsterEntity, MonsterType,
    ParticleEntity, RenderLayer,
};
use raft_world::factory::EntityFactory;
use raft_world::geometry::Vec3;
use raft_world::inventory::{Inventory, InventorySlot};
use raft_world::item::FloatingItemType;
use raft_world::raft::Raft;
use raft_world::scene::SceneData;
use raft_world::terrain::{TerrainChunk, TerrainMaterial};

fn v(x: i64, y: i64, z: i64) -> Vec3 {
    Vec3 { x, y, z }
}

#[test]
fn fish_despawns_exactly_after_three_hundred_seconds() {
    let mut f = FishEntity::new(1, v(0, 0, -20000), FishType::SmallFish);
    f.lifetime = 300000;
    let mut e = Entity::Fish(f);
    assert!(!e.should_remove());
    e.update(1);
    assert!(e.should_remove());
}

#[test]
fn item_despawns_exactly_after_six_hundred_seconds() {
    let mut it = FloatingItemEntity::new(1, v(0, 0, 0), FloatingItemType::Wood);
    it.lifetime = 600000;
    let mut e = Entity::FloatingItem(it);
    assert!(!e.should_remove());
    e.update(1);
    assert!(e.should_remove());
}

#[test]
fn drift_limits_are_exact() {
    let mut f = FishEntity::new(1, v(0, 0, 0), FishType::SmallFish);
    f.position = v(1200000, 0, 0);
    assert!(!Entity::Fish(f).should_remove());
    f.position = v(1200001, 0, 0);
    assert!(Entity::Fish(f).should_remove());
    let mut it = FloatingItemEntity::new(1, v(0, 0, 0), FloatingItemType::Wood);
    it.position = v(0, 960000, -1280000);
    assert!(!Entity::FloatingItem(it).should_remove());
    it.position = v(0, 960000, -1280001);
    assert!(Entity::FloatingItem(it).should_remove());
}

#[test]
fn dead_creatures_are_removed() {
    let mut f = FishEntity::new(1, v(0, 0, 0), FishType::Shark);
    f.health.hp = 0;
    assert!(Entity::Fish(f).should_remove());
    let mut m = MonsterEntity::new(2, v(0, 0, 0), MonsterType::Kraken);
    assert!(!Entity::Monster(m).should_remove());
    m.health.hp = -3;
    assert!(Entity::Monster(m).should_remove());
    assert!(Entity::Hook(HookEntity::new(3, 1)).should_remove());
}

#[test]
fn render_data_by_kind() {
    let mut fac = EntityFactory::new();
    let p = fac.create_player(v(1, 2, 3));
    let r = p.get_render_data();
    assert_eq!(r.layer, RenderLayer::Player);
    assert!(r.on_top);
    assert_eq!(r.world_position, v(1, 2, 3));
    let raft = fac.create_raft(v(0, 0, 0));
    assert!(raft.get_render_data().on_top);
    let fish = fac.create_fish(v(0, 0, 0), FishType::Shark);
    assert_eq!(fish.get_render_data().size, 16000);
    assert_eq!(fish.get_render_data().color, 0x696969FF);
    let item = fac.create_floating_item(v(0, 0, 0), FloatingItemType::Barrel);
    assert_eq!(item.get_render_data().size, 16000);
    assert!(!item.get_render_data().on_top);
    assert_eq!(p.get_id(), 1);
    assert_eq!(item.get_id(), 4);
    assert_eq!(fac.create_monster(v(0, 0, 0), MonsterType::Kraken).get_entity_type(), EntityType::Monster);
    assert_eq!(fac.create_hook(9).get_entity_type(), EntityType::Hook);
    let part = fac.create_particle(v(0, 0, 0), v(1, 1, 1));
    assert_eq!(part.get_velocity(), v(1, 1, 1));
    assert_eq!(part.get_id(), 7);
}

#[test]
fn particle_lives_two_seconds() {
    let mut e = Entity::Particle(ParticleEntity::new(1, v(0, 0, 0), v(1, 0, 0)));
    e.update(2000);
    assert!(!e.should_remove());
    assert_eq!(e.get_world_position(), v(2000, 0, 0));
    e.update(1);
    assert!(e.should_remove());
}

#[test]
fn setters_move_and_stop_entities() {
    let mut e = Entity::Fish(FishEntity::new(1, v(0, 0, 0), FishType::SmallFish));
    e.set_world_position(v(5, 6, 7));
    e.set_velocity(v(1, 2, 3));
    e.set_id(9);
    assert_eq!(e.get_world_position(), v(5, 6, 7));
    assert_eq!(e.get_velocity(), v(1, 2, 3));
    assert_eq!(e.get_id(), 9);
    let mut raft = EntityFactory::new().create_raft(v(0, 0, 0));
    raft.set_velocity(v(4, 4, 4));
    assert_eq!(raft.get_velocity(), v(0, 0, 0));
}

#[test]
fn inventory_stacks_then_spills_into_empty_slots() {
    let mut inv = Inventory::new();
    assert_eq!(inv.slots.len(), 40);
    assert!(inv.add_material(FloatingItemType::Wood, 10));
    assert!(inv.add_material(FloatingItemType::Wood, 22));
    assert_eq!(inv.slots[0].quantity, 32);
    assert!(inv.add_material(FloatingItemType::Wood, 40));
    assert_eq!(inv.slots[1].quantity, 32);
    assert_eq!(inv.slots[2].quantity, 8);
    assert_eq!(inv.get_count(FloatingItemType::Wood), 72);
    assert_eq!(inv.get_total_items(), 72);
    assert!(inv.remove_material(FloatingItemType::Wood, 70));
    assert_eq!(inv.get_count(FloatingItemType::Wood), 2);
    assert!(!inv.remove_material(FloatingItemType::Wood, 3));
    assert_eq!(inv.get_count(FloatingItemType::Wood), 0);
    assert!(inv.has_space());
    assert!(inv.add_material(FloatingItemType::Wood, 0));
    assert_eq!(inv.get_count(FloatingItemType::Wood), 0);
}

#[test]
fn full_inventory_refuses() {
    let mut inv = Inventory::new();
    for i in 0..inv.slots.len() {
        inv.slots[i] = InventorySlot::new_with_item(FloatingItemType::Treasure, 1);
    }
    assert!(!inv.has_space());
    assert!(!inv.add_material(FloatingItemType::Nail, 1));
    assert_eq!(inv.get_count(FloatingItemType::Nail), 0);
}

#[test]
fn slots_swap_and_quick_slots_use_one_unit() {
    let mut inv = Inventory::new();
    inv.add_material(FloatingItemType::Coconut, 3);
    assert!(inv.swap_slots(0, 5));
    assert!(!inv.swap_slots(0, 40));
    assert_eq!(inv.get_slot(5).unwrap().quantity, 3);
    assert!(inv.get_slot(40).is_none());
    assert!(inv.move_to_quick_slot(5, 0));
    assert!(!inv.move_to_quick_slot(5, 10));
    assert_eq!(inv.use_quick_slot(0), Some((FloatingItemType::Coconut, 1)));
    assert_eq!(inv.get_count(FloatingItemType::Coconut), 2);
    assert_eq!(inv.use_quick_slot(1), None);
}

#[test]
fn slot_rules() {
    let mut s = InventorySlot::new();
    assert!(s.is_empty());
    assert!(s.can_add(FloatingItemType::Barrel, 4));
    assert!(!s.can_add(FloatingItemType::Barrel, 5));
    assert_eq!(s.add_items(FloatingItemType::Barrel, 6), 2);
    assert_eq!(s.quantity, 4);
    assert!(!s.can_add(FloatingItemType::Wood, 1));
    assert_eq!(s.add_items(FloatingItemType::Wood, 1), 1);
    assert_eq!(s.remove_items(10), 4);
    assert!(s.is_empty());
    assert_eq!(s.item_type, None);
}

#[test]
fn item_tables() {
    assert_eq!(FloatingItemType::Treasure.max_stack_size(), 1);
    assert_eq!(FloatingItemType::Nail.max_stack_size(), 64);
    assert_eq!(FloatingItemType::Seaweed.color(), 0x228B22FF);
    assert!(FloatingItemType::Fish.is_consumable());
    assert!(!FloatingItemType::Rope.is_consumable());
    assert_eq!(FloatingItemType::Cloth.size(), 8000);
}

#[test]
fn raft_covers_its_tiles() {
    let r = Raft::new(v(0, 0, 0));
    assert_eq!(r.size_tiles, (4, 3));
    assert!(r.is_on_raft(&v(32000, 24000, 0)));
    assert!(!r.is_on_raft(&v(32001, 0, 0)));
    assert!(!r.is_on_raft(&v(0, -24001, 0)));
}

#[test]
fn scene_keeps_names_once() {
    let mut sd = SceneData::new("playing");
    assert_eq!(sd.name, "playing");
    sd.initialize();
    assert!(sd.is_initialized);
    sd.add_entity("raft");
    sd.add_entity("raft");
    sd.add_entity("player");
    assert_eq!(sd.entities, vec!["raft".to_string(), "player".to_string()]);
    sd.remove_entity("raft");
    assert_eq!(sd.entities, vec!["player".to_string()]);
    sd.add_ui_element("hud");
    sd.remove_ui_element("menu");
    assert_eq!(sd.ui_elements, vec!["hud".to_string()]);
    sd.remove_ui_element("hud");
    assert!(sd.ui_elements.is_empty());
}

#[test]
fn new_chunk_is_open_water() {
    let c = TerrainChunk::new(2, -3);
    assert_eq!((c.x, c.y), (2, -3));
    assert_eq!(c.cells.len(), 1024);
    assert!(c.cells.iter().all(|cell| cell.material == TerrainMaterial::Water));
    assert_eq!(Color::new(1, 2, 3), Color { r: 1, g: 2, b: 3 });
}
