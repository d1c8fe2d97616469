use vstd::prelude::*;
use crate::entity::{
    Entity, FishEntity, FishType, FloatingItemEntity, HealthComponent, HookEntity, MonsterEntity,
    MonsterType, ParticleEntity, PlayerEntity, RaftEntity, StatsComponent, PARTICLE_LIFETIME, fish_speed,
};
use crate::geometry::Vec3;
use crate::hook::{HookState, HOOK_MAX_LENGTH, HOOK_SPEED};
use crate::item::FloatingItemType;
use crate::raft::Raft;

verus! {

/// Builds entity records of each kind, numbering them in order. The store
/// stamps its own identifier on a record when it files it.
pub struct EntityFactory {
    next_entity_id: u32,
}

/// The counter after handing out one number (stopping at `u32::MAX`).
pub open spec fn bumped(n: u32) -> u32 {
    if n == u32::MAX {
        n
    } else {
        (n + 1) as u32
    }
}

impl EntityFactory {
    pub closed spec fn next_id(&self) -> u32 {
        self.next_entity_id
    }

    pub fn new() -> (r: EntityFactory)
        ensures
            r.next_id() == 1,
    {
        EntityFactory { next_entity_id: 1 }
    }

    fn take_id(&mut self) -> (id: u32)
        ensures
            id == old(self).next_id(),
            final(self).next_id() == bumped(old(self).next_id()),
    {
        let id = self.next_entity_id;
        self.next_entity_id = self.next_entity_id.saturating_add(1);
        id
    }

    /// A player standing on the raft at `position`.
    pub fn create_player(&mut self, position: Vec3) -> (r: Entity)
        ensures
            final(self).next_id() == bumped(old(self).next_id()),
            r == Entity::Player(PlayerEntity {
                id: old(self).next_id(),
                position,
                velocity: Vec3 { x: 0, y: 0, z: 0 },
                on_raft: true,
            }),
    {
        let id = self.take_id();
        Entity::Player(PlayerEntity::new(id, position, true))
    }

    /// A raft of four by three tiles centred on `position`.
    pub fn create_raft(&mut self, position: Vec3) -> (r: Entity)
        ensures
            final(self).next_id() == bumped(old(self).next_id()),
            r.id_of() == old(self).next_id(),
            r is Raft,
            r.pos() == position,
    {
        let id = self.take_id();
        Entity::Raft(RaftEntity::new(id, Raft::new(position)))
    }

    pub fn create_fish(&mut self, position: Vec3, fish_type: FishType) -> (r: Entity)
        ensures
            final(self).next_id() == bumped(old(self).next_id()),
            r == Entity::Fish(FishEntity {
                id: old(self).next_id(),
                position,
                velocity: Vec3 { x: 0, y: 0, z: 0 },
                spawn_origin: position,
                fish_type,
                health: HealthComponent { hp: 50, max_hp: 50 },
                stats: StatsComponent { speed: fish_speed(fish_type), strength: 10, defense: 5, stamina: 100 },
                lifetime: 0,
            }),
    {
        let id = self.take_id();
        Entity::Fish(FishEntity::new(id, position, fish_type))
    }

    pub fn create_floating_item(&mut self, position: Vec3, item_type: FloatingItemType) -> (r: Entity)
        ensures
            final(self).next_id() == bumped(old(self).next_id()),
            r == Entity::FloatingItem(FloatingItemEntity {
                id: old(self).next_id(),
                position,
                velocity: Vec3 { x: 0, y: 0, z: 0 },
                spawn_origin: position,
                item_type,
                lifetime: 0,
            }),
    {
        let id = self.take_id();
        Entity::FloatingItem(FloatingItemEntity::new(id, position, item_type))
    }

    pub fn create_particle(&mut self, position: Vec3, velocity: Vec3) -> (r: Entity)
        ensures
            final(self).next_id() == bumped(old(self).next_id()),
            r == Entity::Particle(ParticleEntity {
                id: old(self).next_id(),
                position,
                velocity,
                lifetime: 0,
                max_lifetime: PARTICLE_LIFETIME,
            }),
    {
        let id = self.take_id();
        Entity::Particle(ParticleEntity::new(id, position, velocity))
    }

    pub fn create_monster(&mut self, position: Vec3, monster_type: MonsterType) -> (r: Entity)
        ensures
            final(self).next_id() == bumped(old(self).next_id()),
            r.id_of() == old(self).next_id(),
            r is Monster,
            r.pos() == position,
            r.vel() == (Vec3 { x: 0, y: 0, z: 0 }),
            r->Monster_0.monster_type == monster_type,
            r->Monster_0.health.hp == 200,
    {
        let id = self.take_id();
        Entity::Monster(MonsterEntity::new(id, position, monster_type))
    }

    /// A resting hook owned by `owner_id`.
    pub fn create_hook(&mut self, owner_id: u32) -> (r: Entity)
        ensures
            final(self).next_id() == bumped(old(self).next_id()),
            r.id_of() == old(self).next_id(),
            r.is_hook(),
            r.wf(),
            r.hook_of().state == HookState::Retracted,
            r.hook_of().length == 0,
            r.hook_of().owner_id == owner_id,
            r.hook_of().attached_items@ == Seq::<u32>::empty(),
            r.hook_of().speed == HOOK_SPEED,
            r.hook_of().max_length == HOOK_MAX_LENGTH,
    {
        let id = self.take_id();
        Entity::Hook(HookEntity::new(id, owner_id))
    }
}

} // verus!
