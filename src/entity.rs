use vstd::prelude::*;
use crate::geometry::{Vec3, in_radius};
use crate::hook::Hook;
use crate::item::{FloatingItemType, spec_item_color, spec_item_size};
use crate::raft::Raft;

verus! {

/// A fish is removed once it has lived longer than this (300 s).
pub const FISH_LIFETIME: u64 = 300000;

/// A fish is removed once it drifts further than this from where it spawned (1200 units).
pub const FISH_RANGE: i64 = 1200000;

/// A floating item is removed once it has lived longer than this (600 s).
pub const ITEM_LIFETIME: u64 = 600000;

/// A floating item is removed once it drifts further than this from where it spawned (1600 units).
pub const ITEM_RANGE: i64 = 1600000;

/// How long a particle lives (2 s).
pub const PARTICLE_LIFETIME: u64 = 2000;

pub const PLAYER_ON_RAFT_COLOR: u32 = 0xFFD27AFF;
pub const PLAYER_SWIMMING_COLOR: u32 = 0x87CEFAFF;
pub const RAFT_WOOD_FLOOR_COLOR: u32 = 0xC2A36BFF;
pub const PARTICLE_COLOR: u32 = 0xFFFFFFFF;
pub const HOOK_COLOR: u32 = 0x8B4513FF;

/// Draw order, back to front.
#[derive(Clone, Copy, Debug, PartialEq, Eq, Structural, PartialOrd, Ord, Hash)]
pub enum RenderLayer {
    Background,
    Terrain,
    Underwater,
    Entity,
    Player,
    UI,
    Foreground,
}

/// What the renderer needs to draw one entity.
#[derive(Clone, Copy, Debug, PartialEq, Eq, Structural)]
pub struct RenderData {
    pub world_position: Vec3,
    /// Visual size, in thousandths of a unit.
    pub size: i64,
    /// RGBA colour.
    pub color: u32,
    pub visible: bool,
    pub layer: RenderLayer,
    /// Drawn above everything else of its layer.
    pub on_top: bool,
}

/// The kind of an entity.
#[derive(Clone, Copy, Debug, PartialEq, Eq, Structural, PartialOrd, Ord, Hash)]
pub enum EntityType {
    Player,
    Raft,
    Fish,
    Monster,
    Shark,
    FloatingItem,
    Particle,
    Hook,
}

/// Number of entity kinds.
pub const KIND_COUNT: usize = 8;

/// Position of a kind in per-kind tables.
pub open spec fn kind_index(k: EntityType) -> int {
    match k {
        EntityType::Player => 0,
        EntityType::Raft => 1,
        EntityType::Fish => 2,
        EntityType::Monster => 3,
        EntityType::Shark => 4,
        EntityType::FloatingItem => 5,
        EntityType::Particle => 6,
        EntityType::Hook => 7,
    }
}

/// Position of a kind in per-kind tables.
pub fn kind_slot(k: EntityType) -> (r: usize)
    ensures
        r == kind_index(k),
        r < KIND_COUNT,
{
    match k {
        EntityType::Player => 0,
        EntityType::Raft => 1,
        EntityType::Fish => 2,
        EntityType::Monster => 3,
        EntityType::Shark => 4,
        EntityType::FloatingItem => 5,
        EntityType::Particle => 6,
        EntityType::Hook => 7,
    }
}

/// Hit points.
#[derive(Clone, Copy, Debug, PartialEq, Eq, Structural)]
pub struct HealthComponent {
    pub hp: i64,
    pub max_hp: i64,
}

impl HealthComponent {
    pub fn new(max_hp: i64) -> (r: HealthComponent)
        ensures
            r == (HealthComponent { hp: max_hp, max_hp }),
    {
        HealthComponent { hp: max_hp, max_hp }
    }

    pub fn is_alive(&self) -> (r: bool)
        ensures
            r == (self.hp > 0),
    {
        self.hp > 0
    }
}

/// Marks an entity that carries an inventory of its own; the contents live
/// with the owner's model.
#[derive(Clone, Copy, Debug, PartialEq, Eq, Structural)]
pub struct InventoryComponent {}

/// A creature's abilities; `speed` in thousandths.
#[derive(Clone, Copy, Debug, PartialEq, Eq, Structural)]
pub struct StatsComponent {
    pub speed: i64,
    pub strength: i64,
    pub defense: i64,
    pub stamina: i64,
}

#[derive(Clone, Copy, Debug, PartialEq, Eq, Structural)]
pub enum FishType {
    SmallFish,
    TropicalFish,
    DeepSeaFish,
    Shark,
}

#[derive(Clone, Copy, Debug, PartialEq, Eq, Structural)]
pub enum MonsterType {
    SeaMonster,
    Kraken,
    GiantSquid,
}

/// The world's record of the player; the player's own state lives elsewhere.
#[derive(Clone, Copy, Debug)]
pub struct PlayerEntity {
    pub id: u32,
    pub position: Vec3,
    pub velocity: Vec3,
    pub on_raft: bool,
}

/// The world's record of the raft.
#[derive(Clone, Copy, Debug)]
pub struct RaftEntity {
    pub id: u32,
    pub raft: Raft,
}

#[derive(Clone, Copy, Debug)]
pub struct FishEntity {
    pub id: u32,
    pub position: Vec3,
    pub velocity: Vec3,
    pub spawn_origin: Vec3,
    pub fish_type: FishType,
    pub health: HealthComponent,
    pub stats: StatsComponent,
    /// Milliseconds lived.
    pub lifetime: u64,
}

#[derive(Clone, Copy, Debug)]
pub struct MonsterEntity {
    pub id: u32,
    pub position: Vec3,
    pub velocity: Vec3,
    pub monster_type: MonsterType,
    pub health: HealthComponent,
    pub stats: StatsComponent,
}

#[derive(Clone, Copy, Debug)]
pub struct FloatingItemEntity {
    pub id: u32,
    pub position: Vec3,
    pub velocity: Vec3,
    pub spawn_origin: Vec3,
    pub item_type: FloatingItemType,
    /// Milliseconds lived.
    pub lifetime: u64,
}

#[derive(Clone, Copy, Debug)]
pub struct ParticleEntity {
    pub id: u32,
    pub position: Vec3,
    pub velocity: Vec3,
    /// Milliseconds lived.
    pub lifetime: u64,
    pub max_lifetime: u64,
}

/// A hook in the world, with where its owner stood when it was thrown.
pub struct HookEntity {
    pub id: u32,
    pub hook: Hook,
    pub player_pos: Vec3,
}

/// Every dynamic object of the world.
pub enum Entity {
    Player(PlayerEntity),
    Raft(RaftEntity),
    Fish(FishEntity),
    Monster(MonsterEntity),
    FloatingItem(FloatingItemEntity),
    Particle(ParticleEntity),
    Hook(HookEntity),
}

/// `a + b`, stopping at `u64::MAX`.
pub open spec fn sat_add(a: u64, b: u64) -> u64 {
    if a + b > u64::MAX {
        u64::MAX
    } else {
        (a + b) as u64
    }
}

impl Entity {
    pub open spec fn id_of(&self) -> u32 {
        match self {
            Entity::Player(e) => e.id,
            Entity::Raft(e) => e.id,
            Entity::Fish(e) => e.id,
            Entity::Monster(e) => e.id,
            Entity::FloatingItem(e) => e.id,
            Entity::Particle(e) => e.id,
            Entity::Hook(e) => e.id,
        }
    }

    pub open spec fn kind(&self) -> EntityType {
        match self {
            Entity::Player(_) => EntityType::Player,
            Entity::Raft(_) => EntityType::Raft,
            Entity::Fish(_) => EntityType::Fish,
            Entity::Monster(_) => EntityType::Monster,
            Entity::FloatingItem(_) => EntityType::FloatingItem,
            Entity::Particle(_) => EntityType::Particle,
            Entity::Hook(_) => EntityType::Hook,
        }
    }

    pub open spec fn pos(&self) -> Vec3 {
        match self {
            Entity::Player(e) => e.position,
            Entity::Raft(e) => e.raft.center,
            Entity::Fish(e) => e.position,
            Entity::Monster(e) => e.position,
            Entity::FloatingItem(e) => e.position,
            Entity::Particle(e) => e.position,
            Entity::Hook(e) => e.hook.position,
        }
    }

    pub open spec fn vel(&self) -> Vec3 {
        match self {
            Entity::Player(e) => e.velocity,
            Entity::Raft(_) => Vec3 { x: 0, y: 0, z: 0 },
            Entity::Fish(e) => e.velocity,
            Entity::Monster(e) => e.velocity,
            Entity::FloatingItem(e) => e.velocity,
            Entity::Particle(e) => e.velocity,
            Entity::Hook(e) => e.hook.velocity,
        }
    }

    /// Coordinates inside the world and velocities within bounds.
    pub open spec fn wf(&self) -> bool {
        &&& self.pos().in_world()
        &&& self.vel().within_speed()
        &&& match self {
            Entity::Fish(e) => e.spawn_origin.in_world(),
            Entity::FloatingItem(e) => e.spawn_origin.in_world(),
            Entity::Hook(e) => e.hook.wf() && e.player_pos.in_world(),
            _ => true,
        }
    }

    /// The entity with its identifier replaced by `id`.
    pub open spec fn with_id(self, id: u32) -> Entity {
        match self {
            Entity::Player(e) => Entity::Player(PlayerEntity { id, ..e }),
            Entity::Raft(e) => Entity::Raft(RaftEntity { id, ..e }),
            Entity::Fish(e) => Entity::Fish(FishEntity { id, ..e }),
            Entity::Monster(e) => Entity::Monster(MonsterEntity { id, ..e }),
            Entity::FloatingItem(e) => Entity::FloatingItem(FloatingItemEntity { id, ..e }),
            Entity::Particle(e) => Entity::Particle(ParticleEntity { id, ..e }),
            Entity::Hook(e) => Entity::Hook(HookEntity { id, ..e }),
        }
    }

    pub open spec fn is_hook(self) -> bool {
        self is Hook
    }

    /// The hook carried by a hook entity.
    pub open spec fn hook_of(self) -> Hook {
        match self {
            Entity::Hook(e) => e.hook,
            _ => arbitrary(),
        }
    }

    /// A hook entity carrying `h` in place of its hook; other kinds unchanged.
    pub open spec fn with_hook(self, h: Hook) -> Entity {
        match self {
            Entity::Hook(e) => Entity::Hook(HookEntity { hook: h, ..e }),
            _ => self,
        }
    }

    /// The entity moved to `p`.
    pub open spec fn with_pos(self, p: Vec3) -> Entity {
        match self {
            Entity::Player(e) => Entity::Player(PlayerEntity { position: p, ..e }),
            Entity::Raft(e) => Entity::Raft(RaftEntity { raft: Raft { center: p, ..e.raft }, ..e }),
            Entity::Fish(e) => Entity::Fish(FishEntity { position: p, ..e }),
            Entity::Monster(e) => Entity::Monster(MonsterEntity { position: p, ..e }),
            Entity::FloatingItem(e) => Entity::FloatingItem(FloatingItemEntity { position: p, ..e }),
            Entity::Particle(e) => Entity::Particle(ParticleEntity { position: p, ..e }),
            Entity::Hook(e) => Entity::Hook(HookEntity { hook: Hook { position: p, ..e.hook }, ..e }),
        }
    }

    /// The entity given velocity `v`; a raft does not move by itself and keeps none.
    pub open spec fn with_vel(self, v: Vec3) -> Entity {
        match self {
            Entity::Player(e) => Entity::Player(PlayerEntity { velocity: v, ..e }),
            Entity::Raft(e) => Entity::Raft(e),
            Entity::Fish(e) => Entity::Fish(FishEntity { velocity: v, ..e }),
            Entity::Monster(e) => Entity::Monster(MonsterEntity { velocity: v, ..e }),
            Entity::FloatingItem(e) => Entity::FloatingItem(FloatingItemEntity { velocity: v, ..e }),
            Entity::Particle(e) => Entity::Particle(ParticleEntity { velocity: v, ..e }),
            Entity::Hook(e) => Entity::Hook(HookEntity { hook: Hook { velocity: v, ..e.hook }, ..e }),
        }
    }

    /// The entity after `dt` milliseconds: fish, monsters, floating items and
    /// particles move by their velocity, and those that age grow older. The
    /// player, the raft and hooks are moved by their own systems.
    pub open spec fn advanced(self, dt: u32) -> Entity {
        match self {
            Entity::Fish(e) => Entity::Fish(FishEntity {
                position: e.position.moved(e.velocity, dt as int),
                lifetime: sat_add(e.lifetime, dt as u64),
                ..e
            }),
            Entity::Monster(e) => Entity::Monster(MonsterEntity {
                position: e.position.moved(e.velocity, dt as int),
                ..e
            }),
            Entity::FloatingItem(e) => Entity::FloatingItem(FloatingItemEntity {
                position: e.position.moved(e.velocity, dt as int),
                lifetime: sat_add(e.lifetime, dt as u64),
                ..e
            }),
            Entity::Particle(e) => Entity::Particle(ParticleEntity {
                position: e.position.moved(e.velocity, dt as int),
                lifetime: sat_add(e.lifetime, dt as u64),
                ..e
            }),
            _ => self,
        }
    }

    /// Whether the entity's kind says it is to leave the world.
    pub open spec fn removal_due(&self) -> bool {
        match self {
            Entity::Fish(e) => e.health.hp <= 0 || e.lifetime > FISH_LIFETIME || !in_radius(
                e.position,
                e.spawn_origin,
                FISH_RANGE as int,
            ),
            Entity::Monster(e) => e.health.hp <= 0,
            Entity::FloatingItem(e) => e.lifetime > ITEM_LIFETIME || !in_radius(
                e.position,
                e.spawn_origin,
                ITEM_RANGE as int,
            ),
            Entity::Particle(e) => e.lifetime > e.max_lifetime,
            Entity::Hook(e) => !e.hook.active(),
            _ => false,
        }
    }

    pub open spec fn render_spec(&self) -> RenderData {
        let p = self.pos();
        match self {
            Entity::Player(e) => RenderData {
                world_position: p,
                size: 8000,
                color: if e.on_raft { PLAYER_ON_RAFT_COLOR } else { PLAYER_SWIMMING_COLOR },
                visible: true,
                layer: RenderLayer::Player,
                on_top: true,
            },
            Entity::Raft(_) => RenderData {
                world_position: p,
                size: 32000,
                color: RAFT_WOOD_FLOOR_COLOR,
                visible: true,
                layer: RenderLayer::Entity,
                on_top: true,
            },
            Entity::Fish(e) => RenderData {
                world_position: p,
                size: fish_size(e.fish_type),
                color: fish_color(e.fish_type),
                visible: true,
                layer: RenderLayer::Entity,
                on_top: false,
            },
            Entity::Monster(e) => RenderData {
                world_position: p,
                size: monster_size(e.monster_type),
                color: monster_color(e.monster_type),
                visible: true,
                layer: RenderLayer::Entity,
                on_top: false,
            },
            Entity::FloatingItem(e) => RenderData {
                world_position: p,
                size: spec_item_size(e.item_type),
                color: spec_item_color(e.item_type),
                visible: true,
                layer: RenderLayer::Entity,
                on_top: false,
            },
            Entity::Particle(_) => RenderData {
                world_position: p,
                size: 2000,
                color: PARTICLE_COLOR,
                visible: true,
                layer: RenderLayer::Entity,
                on_top: false,
            },
            Entity::Hook(_) => RenderData {
                world_position: p,
                size: 12000,
                color: HOOK_COLOR,
                visible: true,
                layer: RenderLayer::Entity,
                on_top: false,
            },
        }
    }
}


impl Entity {
    pub fn get_id(&self) -> (r: u32)
        ensures
            r == self.id_of(),
    {
        match self {
            Entity::Player(e) => e.id,
            Entity::Raft(e) => e.id,
            Entity::Fish(e) => e.id,
            Entity::Monster(e) => e.id,
            Entity::FloatingItem(e) => e.id,
            Entity::Particle(e) => e.id,
            Entity::Hook(e) => e.id,
        }
    }

    /// Stamps the identifier `id` on the record.
    pub fn set_id(&mut self, id: u32)
        ensures
            *final(self) == old(self).with_id(id),
    {
        match self {
            Entity::Player(e) => e.id = id,
            Entity::Raft(e) => e.id = id,
            Entity::Fish(e) => e.id = id,
            Entity::Monster(e) => e.id = id,
            Entity::FloatingItem(e) => e.id = id,
            Entity::Particle(e) => e.id = id,
            Entity::Hook(e) => e.id = id,
        }
    }

    pub fn get_entity_type(&self) -> (r: EntityType)
        ensures
            r == self.kind(),
    {
        match self {
            Entity::Player(_) => EntityType::Player,
            Entity::Raft(_) => EntityType::Raft,
            Entity::Fish(_) => EntityType::Fish,
            Entity::Monster(_) => EntityType::Monster,
            Entity::FloatingItem(_) => EntityType::FloatingItem,
            Entity::Particle(_) => EntityType::Particle,
            Entity::Hook(_) => EntityType::Hook,
        }
    }

    pub fn get_world_position(&self) -> (r: Vec3)
        ensures
            r == self.pos(),
    {
        match self {
            Entity::Player(e) => e.position,
            Entity::Raft(e) => e.raft.center,
            Entity::Fish(e) => e.position,
            Entity::Monster(e) => e.position,
            Entity::FloatingItem(e) => e.position,
            Entity::Particle(e) => e.position,
            Entity::Hook(e) => e.hook.position,
        }
    }

    pub fn set_world_position(&mut self, pos: Vec3)
        ensures
            *final(self) == old(self).with_pos(pos),
    {
        match self {
            Entity::Player(e) => e.position = pos,
            Entity::Raft(e) => e.raft.center = pos,
            Entity::Fish(e) => e.position = pos,
            Entity::Monster(e) => e.position = pos,
            Entity::FloatingItem(e) => e.position = pos,
            Entity::Particle(e) => e.position = pos,
            Entity::Hook(e) => e.hook.position = pos,
        }
    }

    pub fn get_velocity(&self) -> (r: Vec3)
        ensures
            r == self.vel(),
    {
        match self {
            Entity::Player(e) => e.velocity,
            Entity::Raft(_) => Vec3::zero(),
            Entity::Fish(e) => e.velocity,
            Entity::Monster(e) => e.velocity,
            Entity::FloatingItem(e) => e.velocity,
            Entity::Particle(e) => e.velocity,
            Entity::Hook(e) => e.hook.velocity,
        }
    }

    /// Sets the velocity; a raft keeps none.
    pub fn set_velocity(&mut self, vel: Vec3)
        ensures
            *final(self) == old(self).with_vel(vel),
    {
        match self {
            Entity::Player(e) => e.velocity = vel,
            Entity::Raft(_) => {},
            Entity::Fish(e) => e.velocity = vel,
            Entity::Monster(e) => e.velocity = vel,
            Entity::FloatingItem(e) => e.velocity = vel,
            Entity::Particle(e) => e.velocity = vel,
            Entity::Hook(e) => e.hook.velocity = vel,
        }
    }

    /// Advances the entity by `delta_time` milliseconds by the rule of its kind.
    pub fn update(&mut self, delta_time: u32)
        requires
            old(self).wf(),
        ensures
            *final(self) == old(self).advanced(delta_time),
            final(self).wf(),
    {
        match self {
            Entity::Fish(e) => {
                e.position = e.position.advanced(&e.velocity, delta_time);
                e.lifetime = e.lifetime.saturating_add(delta_time as u64);
            },
            Entity::Monster(e) => {
                e.position = e.position.advanced(&e.velocity, delta_time);
            },
            Entity::FloatingItem(e) => {
                e.position = e.position.advanced(&e.velocity, delta_time);
                e.lifetime = e.lifetime.saturating_add(delta_time as u64);
            },
            Entity::Particle(e) => {
                e.position = e.position.advanced(&e.velocity, delta_time);
                e.lifetime = e.lifetime.saturating_add(delta_time as u64);
            },
            _ => {},
        }
    }

    /// Whether the entity's kind says it is to leave the world.
    pub fn should_remove(&self) -> (r: bool)
        requires
            self.wf(),
        ensures
            r == self.removal_due(),
    {
        match self {
            Entity::Fish(e) => !e.health.is_alive() || e.lifetime > FISH_LIFETIME
                || !e.spawn_origin.is_within(&e.position, FISH_RANGE),
            Entity::Monster(e) => !e.health.is_alive(),
            Entity::FloatingItem(e) => e.lifetime > ITEM_LIFETIME || !e.spawn_origin.is_within(
                &e.position,
                ITEM_RANGE,
            ),
            Entity::Particle(e) => e.lifetime > e.max_lifetime,
            Entity::Hook(e) => !e.hook.is_active(),
            _ => false,
        }
    }

    /// Position, size, colour and layer to draw the entity with.
    pub fn get_render_data(&self) -> (r: RenderData)
        ensures
            r == self.render_spec(),
    {
        let p = self.get_world_position();
        match self {
            Entity::Player(e) => RenderData {
                world_position: p,
                size: 8000,
                color: if e.on_raft { PLAYER_ON_RAFT_COLOR } else { PLAYER_SWIMMING_COLOR },
                visible: true,
                layer: RenderLayer::Player,
                on_top: true,
            },
            Entity::Raft(_) => RenderData {
                world_position: p,
                size: 32000,
                color: RAFT_WOOD_FLOOR_COLOR,
                visible: true,
                layer: RenderLayer::Entity,
                on_top: true,
            },
            Entity::Fish(e) => {
                let (size, color) = match e.fish_type {
                    FishType::SmallFish => (4000i64, 0xFFB6C1FFu32),
                    FishType::TropicalFish => (6000, 0xFFFF00FF),
                    FishType::DeepSeaFish => (8000, 0x4169E1FF),
                    FishType::Shark => (16000, 0x696969FF),
                };
                RenderData {
                    world_position: p,
                    size,
                    color,
                    visible: true,
                    layer: RenderLayer::Entity,
                    on_top: false,
                }
            },
            Entity::Monster(e) => {
                let (size, color) = match e.monster_type {
                    MonsterType::SeaMonster => (20000i64, 0x8B0000FFu32),
                    MonsterType::Kraken => (30000, 0x4B0082FF),
                    MonsterType::GiantSquid => (25000, 0x800080FF),
                };
                RenderData {
                    world_position: p,
                    size,
                    color,
                    visible: true,
                    layer: RenderLayer::Entity,
                    on_top: false,
                }
            },
            Entity::FloatingItem(e) => RenderData {
                world_position: p,
                size: e.item_type.size(),
                color: e.item_type.color(),
                visible: true,
                layer: RenderLayer::Entity,
                on_top: false,
            },
            Entity::Particle(_) => RenderData {
                world_position: p,
                size: 2000,
                color: PARTICLE_COLOR,
                visible: true,
                layer: RenderLayer::Entity,
                on_top: false,
            },
            Entity::Hook(_) => RenderData {
                world_position: p,
                size: 12000,
                color: HOOK_COLOR,
                visible: true,
                layer: RenderLayer::Entity,
                on_top: false,
            },
        }
    }
}

pub open spec fn fish_speed(t: FishType) -> i64 {
    match t {
        FishType::SmallFish => 1000,
        FishType::TropicalFish => 1500,
        FishType::DeepSeaFish => 800,
        FishType::Shark => 2500,
    }
}

impl FishEntity {
    /// A fish at rest at `position`, which is also its spawn origin.
    pub fn new(id: u32, position: Vec3, fish_type: FishType) -> (r: FishEntity)
        ensures
            r.id == id,
            r.position == position,
            r.velocity == (Vec3 { x: 0, y: 0, z: 0 }),
            r.spawn_origin == position,
            r.fish_type == fish_type,
            r.health == (HealthComponent { hp: 50, max_hp: 50 }),
            r.stats == (StatsComponent { speed: fish_speed(fish_type), strength: 10, defense: 5, stamina: 100 }),
            r.lifetime == 0,
    {
        let speed: i64 = match fish_type {
            FishType::SmallFish => 1000,
            FishType::TropicalFish => 1500,
            FishType::DeepSeaFish => 800,
            FishType::Shark => 2500,
        };
        FishEntity {
            id,
            position,
            velocity: Vec3::zero(),
            spawn_origin: position,
            fish_type,
            health: HealthComponent::new(50),
            stats: StatsComponent { speed, strength: 10, defense: 5, stamina: 100 },
            lifetime: 0,
        }
    }
}

impl MonsterEntity {
    /// A monster at rest at `position`.
    pub fn new(id: u32, position: Vec3, monster_type: MonsterType) -> (r: MonsterEntity)
        ensures
            r.id == id,
            r.position == position,
            r.velocity == (Vec3 { x: 0, y: 0, z: 0 }),
            r.monster_type == monster_type,
            r.health == (HealthComponent { hp: 200, max_hp: 200 }),
            r.stats == (StatsComponent { speed: 1500, strength: 25, defense: 15, stamina: 150 }),
    {
        MonsterEntity {
            id,
            position,
            velocity: Vec3::zero(),
            monster_type,
            health: HealthComponent::new(200),
            stats: StatsComponent { speed: 1500, strength: 25, defense: 15, stamina: 150 },
        }
    }
}

impl FloatingItemEntity {
    /// An item at rest at `position`, which is also its spawn origin.
    pub fn new(id: u32, position: Vec3, item_type: FloatingItemType) -> (r: FloatingItemEntity)
        ensures
            r.id == id,
            r.position == position,
            r.velocity == (Vec3 { x: 0, y: 0, z: 0 }),
            r.spawn_origin == position,
            r.item_type == item_type,
            r.lifetime == 0,
    {
        FloatingItemEntity { id, position, velocity: Vec3::zero(), spawn_origin: position, item_type, lifetime: 0 }
    }
}

impl ParticleEntity {
    /// A new particle that lives two seconds.
    pub fn new(id: u32, position: Vec3, velocity: Vec3) -> (r: ParticleEntity)
        ensures
            r.id == id,
            r.position == position,
            r.velocity == velocity,
            r.lifetime == 0,
            r.max_lifetime == PARTICLE_LIFETIME,
    {
        ParticleEntity { id, position, velocity, lifetime: 0, max_lifetime: PARTICLE_LIFETIME }
    }
}

impl HookEntity {
    /// A resting hook owned by `owner_id`.
    pub fn new(id: u32, owner_id: u32) -> (r: HookEntity)
        ensures
            r.id == id,
            r.hook.wf(),
            r.hook.state == crate::hook::HookState::Retracted,
            r.hook.length == 0,
            r.hook.owner_id == owner_id,
            r.hook.attached_items@ == Seq::<u32>::empty(),
            r.hook.position == (Vec3 { x: 0, y: 0, z: 0 }),
            r.hook.speed == crate::hook::HOOK_SPEED,
            r.hook.max_length == crate::hook::HOOK_MAX_LENGTH,
            r.player_pos == (Vec3 { x: 0, y: 0, z: 0 }),
    {
        HookEntity { id, hook: Hook::new(owner_id), player_pos: Vec3::zero() }
    }
}

impl PlayerEntity {
    /// The world's record of a player standing still at `position`.
    pub fn new(id: u32, position: Vec3, on_raft: bool) -> (r: PlayerEntity)
        ensures
            r.id == id,
            r.position == position,
            r.velocity == (Vec3 { x: 0, y: 0, z: 0 }),
            r.on_raft == on_raft,
    {
        PlayerEntity { id, position, velocity: Vec3::zero(), on_raft }
    }
}

impl RaftEntity {
    pub fn new(id: u32, raft: Raft) -> (r: RaftEntity)
        ensures
            r.id == id,
            r.raft == raft,
    {
        RaftEntity { id, raft }
    }
}

/// Despawn limits are exact: a fish that is alive and in range goes exactly
/// when it has lived more than 300 s, and an item in range exactly after
/// 600 s; a fish or item within its age limit goes exactly when it is more
/// than 1200 (fish) or 1600 (item) units from where it spawned. A fish aged
/// exactly 300 s stays, and goes on the next advance of a millisecond or more.
pub proof fn lemma_despawn_thresholds(f: FishEntity, it: FloatingItemEntity, dt: u32)
    ensures
        f.health.hp > 0 && in_radius(f.position, f.spawn_origin, FISH_RANGE as int) ==> (
            Entity::Fish(f).removal_due() <==> f.lifetime > FISH_LIFETIME),
        f.health.hp > 0 && f.lifetime <= FISH_LIFETIME ==> (Entity::Fish(f).removal_due() <==> !in_radius(
            f.position,
            f.spawn_origin,
            FISH_RANGE as int,
        )),
        in_radius(it.position, it.spawn_origin, ITEM_RANGE as int) ==> (
            Entity::FloatingItem(it).removal_due() <==> it.lifetime > ITEM_LIFETIME),
        it.lifetime <= ITEM_LIFETIME ==> (Entity::FloatingItem(it).removal_due() <==> !in_radius(
            it.position,
            it.spawn_origin,
            ITEM_RANGE as int,
        )),
        f.lifetime == FISH_LIFETIME && dt >= 1 ==> Entity::Fish(f).advanced(dt).removal_due(),
        it.lifetime == ITEM_LIFETIME && dt >= 1 ==> Entity::FloatingItem(it).advanced(dt).removal_due(),
{
}

pub open spec fn fish_size(t: FishType) -> i64 {
    match t {
        FishType::SmallFish => 4000,
        FishType::TropicalFish => 6000,
        FishType::DeepSeaFish => 8000,
        FishType::Shark => 16000,
    }
}

pub open spec fn fish_color(t: FishType) -> u32 {
    match t {
        FishType::SmallFish => 0xFFB6C1FF,
        FishType::TropicalFish => 0xFFFF00FF,
        FishType::DeepSeaFish => 0x4169E1FF,
        FishType::Shark => 0x696969FF,
    }
}

pub open spec fn monster_size(t: MonsterType) -> i64 {
    match t {
        MonsterType::SeaMonster => 20000,
        MonsterType::Kraken => 30000,
        MonsterType::GiantSquid => 25000,
    }
}

pub open spec fn monster_color(t: MonsterType) -> u32 {
    match t {
        MonsterType::SeaMonster => 0x8B0000FF,
        MonsterType::Kraken => 0x4B0082FF,
        MonsterType::GiantSquid => 0x800080FF,
    }
}

} // verus!
