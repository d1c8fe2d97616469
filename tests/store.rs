use raft_world::entity::{Entity, EntityType, FishEntity, FishType, FloatingItemEntity, ParticleEntity};
use raft_world::factory::EntityFactory;
use raft_world::geometry::Vec3;
use raft_world::item::FloatingItemType;
use raft_world::store::{EntityManager, EntityStorage};

fn v(x: i64, y: i64, z: i64) -> Vec3 {
    Vec3 { x, y, z }
}

fn item_at(p: Vec3) -> Entity {
    Entity::FloatingItem(FloatingItemEntity::new(0, p, FloatingItemType::Wood))
}

#[test]
fn create_assigns_sequential_ids_and_get_finds_them() {
    let mut m = EntityManager::new();
    let mut s = EntityStorage::new();
    let a = m.create_entity(&mut s, item_at(v(0, 0, 0)));
    let b = m.create_entity(&mut s, item_at(v(5000, 0, 0)));
    assert_eq!(a, 1);
    assert_eq!(b, 2);
    let e = m.get_entity(&s, b).unwrap();
    assert_eq!(e.get_id(), 2);
    assert_eq!(e.get_world_position(), v(5000, 0, 0));
    assert!(m.get_entity(&s, 3).is_none());
    assert!(m.get_entity(&s, 0).is_none());
}

#[test]
fn removed_entity_stays_absent_and_id_is_not_reused() {
    let mut m = EntityManager::new();
    let mut s = EntityStorage::new();
    let a = m.create_entity(&mut s, item_at(v(0, 0, 0)));
    assert!(m.remove_entity(&mut s, a));
    assert!(m.get_entity(&s, a).is_none());
    assert!(!m.remove_entity(&mut s, a));
    let b = m.create_entity(&mut s, item_at(v(0, 0, 0)));
    assert_eq!(b, 2);
    assert!(m.get_entity(&s, a).is_none());
    assert_eq!(m.get_total_entity_count(&s), 1);
    assert!(m.get_entities_in_area(&s, &v(0, 0, 0), 1000).contains(&b));
    assert!(!m.get_entities_in_area(&s, &v(0, 0, 0), 1000).contains(&a));
}

#[test]
fn entity_persists_across_frames_until_despawn() {
    let mut m = EntityManager::new();
    let mut s = EntityStorage::new();
    let mut f = FishEntity::new(0, v(0, 0, -30000), FishType::SmallFish);
    f.velocity = v(1, 0, 0);
    let id = m.create_entity(&mut s, Entity::Fish(f));
    for _ in 0..299 {
        m.update_entities(&mut s, 1000);
        assert!(m.get_entity(&s, id).is_some());
    }
    m.update_entities(&mut s, 1000);
    let e = m.get_entity(&s, id).unwrap();
    assert_eq!(e.get_world_position(), v(300000, 0, -30000));
    m.update_entities(&mut s, 1);
    assert!(m.get_entity(&s, id).is_none());
    assert_eq!(m.get_entity_count(EntityType::Fish), 0);
}

#[test]
fn kind_index_tracks_creation_and_removal() {
    let mut m = EntityManager::new();
    let mut s = EntityStorage::new();
    let mut fac = EntityFactory::new();
    let a = m.create_entity(&mut s, fac.create_fish(v(0, 0, -20000), FishType::Shark));
    let b = m.create_entity(&mut s, fac.create_floating_item(v(0, 0, 0), FloatingItemType::Rope));
    let c = m.create_entity(&mut s, fac.create_fish(v(1000, 0, -20000), FishType::SmallFish));
    assert_eq!(m.get_entity_ids_by_type(EntityType::Fish), vec![a, c]);
    assert_eq!(m.get_entity_ids_by_type(EntityType::FloatingItem), vec![b]);
    assert_eq!(m.get_entity_count(EntityType::Fish), 2);
    m.remove_entity(&mut s, a);
    assert_eq!(m.get_entity_ids_by_type(EntityType::Fish), vec![c]);
    assert_eq!(m.get_all_entity_ids(&s), vec![b, c]);
    m.clear_all_entities(&mut s);
    assert_eq!(m.get_total_entity_count(&s), 0);
    assert_eq!(m.get_entity_count(EntityType::Fish), 0);
    let d = m.create_entity(&mut s, fac.create_particle(v(0, 0, 0), v(0, 0, 0)));
    assert_eq!(d, 4);
}

#[test]
fn radius_query_is_exact_across_cell_boundaries() {
    let mut m = EntityManager::new();
    let mut s = EntityStorage::new();
    // The grid cell edge lies at x = 100000; the centre sits just left of it.
    let c = v(99999, 0, 0);
    let inside_next_cell = m.create_entity(&mut s, item_at(v(100000, 0, 0)));
    let on_rim = m.create_entity(&mut s, item_at(v(99999 + 30000, 0, 0)));
    let past_rim = m.create_entity(&mut s, item_at(v(99999 + 30001, 0, 0)));
    let diagonal_in = m.create_entity(&mut s, item_at(v(99999 - 18000, 24000, 0)));
    let diagonal_out = m.create_entity(&mut s, item_at(v(99999 - 18000, 24001, 0)));
    let below_cell = m.create_entity(&mut s, item_at(v(99999, -1, 0)));
    let deep = m.create_entity(&mut s, item_at(v(99999, 0, -30000)));
    let mut r = m.get_entities_in_area(&s, &c, 30000);
    r.sort();
    assert_eq!(r, vec![inside_next_cell, on_rim, diagonal_in, below_cell, deep]);
    assert!(!r.contains(&past_rim));
    assert!(!r.contains(&diagonal_out));
    assert_eq!(m.get_entities_near(&s, &c, 0), Vec::<u32>::new());
    let near = m.get_entities_near(&s, &c, 1);
    assert_eq!(near, vec![inside_next_cell, below_cell]);
}

#[test]
fn radius_query_follows_moved_entities() {
    let mut m = EntityManager::new();
    let mut s = EntityStorage::new();
    let id = m.create_entity(&mut s, item_at(v(0, 0, 0)));
    m.update_entity_position(&mut s, id, v(-250000, 310000, 0));
    assert!(m.get_entities_in_area(&s, &v(0, 0, 0), 1000).is_empty());
    assert_eq!(m.get_entities_in_area(&s, &v(-250000, 310000, 0), 1), vec![id]);
    assert_eq!(m.get_entity(&s, id).unwrap().get_world_position(), v(-250000, 310000, 0));
}

#[test]
fn bulk_update_advances_then_removes() {
    let mut m = EntityManager::new();
    let mut s = EntityStorage::new();
    let p = m.create_entity(&mut s, Entity::Particle(ParticleEntity::new(0, v(0, 0, 0), v(2, -1, 0))));
    let i = m.create_entity(&mut s, item_at(v(0, 0, 0)));
    m.set_entity_velocity(&mut s, i, v(3, 0, 0));
    m.update_entities(&mut s, 2000);
    assert_eq!(m.get_entity(&s, p).unwrap().get_world_position(), v(4000, -2000, 0));
    assert_eq!(m.get_entity(&s, i).unwrap().get_world_position(), v(6000, 0, 0));
    // The particle has now lived exactly its two seconds; one more millisecond ends it.
    m.update_entities(&mut s, 1);
    assert!(m.get_entity(&s, p).is_none());
    assert!(m.get_entity(&s, i).is_some());
    assert_eq!(m.get_entities_in_area(&s, &v(6003, 0, 0), 0), vec![i]);
}

#[test]
fn listings_return_live_records() {
    let mut m = EntityManager::new();
    let mut s = EntityStorage::new();
    let mut fac = EntityFactory::new();
    let a = m.create_entity(&mut s, fac.create_fish(v(0, 0, -20000), FishType::Shark));
    let b = m.create_entity(&mut s, fac.create_floating_item(v(7, 0, 0), FloatingItemType::Rope));
    let c = m.create_entity(&mut s, fac.create_fish(v(9, 0, -20000), FishType::SmallFish));
    m.remove_entity(&mut s, a);
    let fish: Vec<u32> = m.get_entities_by_type(&s, EntityType::Fish).iter().map(|e| e.get_id()).collect();
    assert_eq!(fish, vec![c]);
    let all: Vec<u32> = m.get_all_entities(&s).iter().map(|e| e.get_id()).collect();
    assert_eq!(all, vec![b, c]);
}
