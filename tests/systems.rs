use raft_world::entity::{Entity, EntityType, FishEntity, FishType, FloatingItemEntity};
use raft_world::geometry::{isqrt, Vec2, Vec3};
use raft_world::projector::{view_mode_for, GameMode, RenderViewMode, ViewProjector};
use raft_world::spawn::{SpawnSystem, SpawnType};
use raft_world::store::{EntityManager, EntityStorage};

fn v(x: i64, y: i64, z: i64) -> Vec3 {
    Vec3 { x, y, z }
}

#[test]
fn capped_kind_is_not_requested_until_below_cap() {
    let mut sp = SpawnSystem::new();
    let at_cap = vec![50usize, 0, 0, 0, 0, 0];
    for _ in 0..400 {
        sp.update(&v(0, 0, 0), &at_cap, 800, 0);
        let drained = sp.drain_pending();
        assert!(drained.iter().all(|(t, _)| *t != SpawnType::FloatingItem));
    }
    let below = vec![49usize, 0, 0, 0, 0, 0];
    sp.update(&v(0, 0, 0), &below, 800, 0);
    let drained = sp.drain_pending();
    assert_eq!(drained.iter().filter(|(t, _)| *t == SpawnType::FloatingItem).count(), 1);
}

#[test]
fn first_update_requests_items_and_fish_at_their_edges() {
    let mut sp = SpawnSystem::new();
    sp.update(&v(0, 0, 0), &vec![], 800, 0);
    let d = sp.drain_pending();
    assert_eq!(d, vec![(SpawnType::FloatingItem, v(-440000, -4000, 0)), (SpawnType::Fish, v(-460000, 0, -20000))]);
    assert!(sp.drain_pending().is_empty());
    // Nothing is due again until the rates have gone round.
    sp.update(&v(0, 0, 0), &vec![], 800, 0);
    assert!(sp.drain_pending().is_empty());
}

#[test]
fn spawn_positions_follow_the_draw() {
    let mut sp = SpawnSystem::new();
    sp.update(&v(1000, 2000, 0), &vec![0, 0, 0, 0, 0, 0], 800, 1002501);
    let d = sp.drain_pending();
    assert_eq!(d, vec![(SpawnType::FloatingItem, v(1000 - 440000, 0, 0)), (SpawnType::Fish, v(1000 + 460000, 2000, -80000))]);
}

#[test]
fn spawn_rate_and_cap_can_be_changed() {
    let mut sp = SpawnSystem::new();
    sp.set_max_entities(SpawnType::Fish, 0);
    sp.set_spawn_rate(SpawnType::FloatingItem, 1);
    sp.set_wind(v(1, 0, 0));
    sp.update(&v(0, 0, 0), &vec![], 800, 0);
    assert_eq!(sp.drain_pending().len(), 1);
    sp.update(&v(0, 0, 0), &vec![], 800, 0);
    assert!(sp.drain_pending().is_empty());
    sp.update(&v(0, 0, 0), &vec![], 800, 0);
    assert_eq!(sp.drain_pending().len(), 1);
}

#[test]
fn switching_to_dive_hides_items_and_shows_fish() {
    let mut m = EntityManager::new();
    let mut s = EntityStorage::new();
    let item = m.create_entity(&mut s, Entity::FloatingItem(FloatingItemEntity::new(0, v(1000, 2000, 0), raft_world::item::FloatingItemType::Wood)));
    let fish = m.create_entity(&mut s, Entity::Fish(FishEntity::new(0, v(3000, 4000, -50000), FishType::DeepSeaFish)));
    let mut pr = ViewProjector::new(800000, 600000);
    pr.set_game_mode(GameMode::Raft);
    let ip = m.get_entity(&s, item).unwrap().get_world_position();
    let fp = m.get_entity(&s, fish).unwrap().get_world_position();
    assert!(pr.project(&ip, EntityType::FloatingItem).visible);
    assert!(!pr.project(&fp, EntityType::Fish).visible);
    pr.set_game_mode(GameMode::Dive);
    assert_eq!(pr.mode, RenderViewMode::SideScroll);
    assert!(!pr.project(&ip, EntityType::FloatingItem).visible);
    assert!(pr.project(&fp, EntityType::Fish).visible);
    assert!(pr.project(&fp, EntityType::Player).visible);
    assert_eq!(m.get_entity(&s, item).unwrap().get_world_position(), v(1000, 2000, 0));
    assert_eq!(m.get_entity(&s, fish).unwrap().get_world_position(), v(3000, 4000, -50000));
}

#[test]
fn projection_maps_axes_by_view() {
    let mut pr = ViewProjector::new(800000, 600000);
    let p = v(1000, 2000, -50000);
    assert_eq!(pr.project(&p, EntityType::Raft).screen, Vec2 { x: 401000, y: 302000 });
    pr.set_game_mode(GameMode::Dive);
    assert_eq!(pr.project(&p, EntityType::Raft).screen, Vec2 { x: 401000, y: 350000 });
    pr.set_camera_target(&v(1000, 0, -50000));
    assert_eq!(pr.camera, Vec2 { x: 1000, y: 50000 });
    assert_eq!(pr.project(&p, EntityType::Raft).screen, Vec2 { x: 400000, y: 300000 });
    assert_eq!(view_mode_for(GameMode::Raft), RenderViewMode::TopDown);
}

#[test]
fn integer_square_root_is_floor() {
    assert_eq!(isqrt(0), 0);
    assert_eq!(isqrt(1), 1);
    assert_eq!(isqrt(15), 3);
    assert_eq!(isqrt(16), 4);
    assert_eq!(isqrt(1u128 << 100), 1u64 << 50);
}
