use vstd::prelude::*;
use crate::entity::{
    Entity, EntityType, FishEntity, FishType, FloatingItemEntity, HealthComponent, HookEntity,
    StatsComponent, kind_index,
};
use crate::factory::EntityFactory;
use crate::geometry::{Vec2, Vec3, coord_ok, in_radius};
use crate::item::{pick_item_type, spec_pick};
use crate::projector::GameMode;
use crate::spawn::{SpawnSystem, SpawnType, MAX_SCREEN_WIDTH, SPAWN_KINDS, scheduled, next_timer};
use crate::hook::{Hook, HookState};
use crate::inventory::{Inventory, slots_grow, lemma_refusal_persists, lemma_slots_grow_trans};
use crate::item::FloatingItemType;
use crate::store::{EntityManager, EntityStorage};

verus! {

/// A hook picks up a floating item whose centre is this close to its tip (15 units).
pub const ITEM_CATCH_RADIUS: i64 = 15000;

/// A hook can catch a fish whose centre is this close to its tip (12 units).
pub const FISH_CATCH_RADIUS: i64 = 12000;

/// A hook catches fish only when its tip is deeper than this (5 units under the surface).
pub const MIN_FISHING_DEPTH: i64 = 5000;

/// Without a hook the player picks up floating items this close (20 units).
pub const MANUAL_PICKUP_RADIUS: i64 = 20000;

/// Below this depth (20 units) the catch chance rises from low to medium.
pub const MID_DEPTH: i64 = 20000;

/// Below this depth (50 units) the catch chance rises from medium to high.
pub const DEEP_DEPTH: i64 = 50000;

/// Percent chance of a catch for a fish at tip depth `depth` (positive downwards).
pub open spec fn catch_chance(depth: int) -> u32 {
    if depth > DEEP_DEPTH {
        60
    } else if depth > MID_DEPTH {
        50
    } else {
        30
    }
}

/// The percent roll, in 0..100, that fish `id` gets from the frame's random `seed`.
pub open spec fn roll_of(seed: u64, id: u32) -> u32 {
    (mix64((seed as int + id as int * GOLDEN as int) % TWO_64 as int) % 100) as u32
}

/// 2^64.
pub const TWO_64: u128 = 0x1_0000_0000_0000_0000;

/// The odd constant that spreads successive identifiers over the 64-bit range.
pub const GOLDEN: u128 = 0x9E37_79B9_7F4A_7C15;

pub const MIX_A: u128 = 0xBF58_476D_1CE4_E5B9;

pub const MIX_B: u128 = 0x94D0_49BB_1331_11EB;

/// The finalising mix of splitmix64 on a 64-bit value held in a `u128`.
pub open spec fn mix64(x: int) -> int {
    let a = (x as u128 ^ (x as u128 >> 30u128)) as int;
    let b = ((a * MIX_A as int) % TWO_64 as int) as u128;
    let c = ((b ^ (b >> 27u128)) as int * MIX_B as int) % TWO_64 as int;
    (c as u128 ^ (c as u128 >> 31u128)) as int
}

proof fn lemma_xorshift_bound(x: u128, k: u128)
    requires
        x < 0x1_0000_0000_0000_0000u128,
        k < 128,
    ensures
        (x ^ (x >> k)) < 0x1_0000_0000_0000_0000u128,
{
    assert((x ^ (x >> k)) < 0x1_0000_0000_0000_0000u128) by (bit_vector)
        requires
            x < 0x1_0000_0000_0000_0000u128,
            k < 128,
    ;
}

/// The percent roll, in 0..100, that fish `id` gets from the frame's random
/// `seed`: splitmix64 of the seed offset by the identifier, so fish of one
/// frame get unrelated rolls.
pub fn catch_roll(seed: u64, id: u32) -> (r: u32)
    ensures
        r == roll_of(seed, id),
        r < 100,
{
    let x: u128 = (seed as u128 + id as u128 * GOLDEN) % TWO_64;
    proof {
        lemma_xorshift_bound(x, 30);
    }
    let a: u128 = x ^ (x >> 30u128);
    let b: u128 = (a * MIX_A) % TWO_64;
    proof {
        lemma_xorshift_bound(b, 27);
    }
    let c: u128 = ((b ^ (b >> 27u128)) * MIX_B) % TWO_64;
    proof {
        lemma_xorshift_bound(c, 31);
    }
    let d: u128 = c ^ (c >> 31u128);
    (d % 100) as u32
}

/// Percent chance of a catch for a fish at tip depth `depth`.
pub fn catch_chance_at(depth: i64) -> (r: u32)
    ensures
        r == catch_chance(depth as int),
{
    if depth > DEEP_DEPTH {
        60
    } else if depth > MID_DEPTH {
        50
    } else {
        30
    }
}

/// Whether a hook with its tip at `tip` picks up the floating item at `p`.
pub open spec fn item_caught(tip: Vec3, p: Vec3) -> bool {
    in_radius(p, tip, ITEM_CATCH_RADIUS as int)
}

/// Whether a hook with its tip at `tip` catches fish `id` at `p` this frame.
pub open spec fn fish_caught(tip: Vec3, id: u32, p: Vec3, seed: u64) -> bool {
    &&& in_radius(p, tip, FISH_CATCH_RADIUS as int)
    &&& tip.z < -MIN_FISHING_DEPTH
    &&& roll_of(seed, id) < catch_chance(-tip.z)
}

/// Entries of a position snapshot are inside the world.
pub open spec fn snapshot_ok(s: Seq<(u32, Vec3)>) -> bool {
    forall|i: int| 0 <= i < s.len() ==> (#[trigger] s[i]).1.in_world()
}

/// The ids that a hook with its tip at `tip` holds after its attach pass.
pub open spec fn attached_after(
    before: Seq<u32>,
    tip: Vec3,
    items: Seq<(u32, Vec3)>,
    fish: Seq<(u32, Vec3)>,
    seed: u64,
    x: u32,
) -> bool {
    ||| before.contains(x)
    ||| exists|i: int| 0 <= i < items.len() && #[trigger] items[i].0 == x && item_caught(tip, items[i].1)
    ||| exists|i: int| 0 <= i < fish.len() && #[trigger] fish[i].0 == x && fish_caught(tip, x, fish[i].1, seed)
}

/// The attach pass: tests the hook's tip against each snapshotted item and
/// fish position and records what it picks up.
pub fn attach_nearby(hook: &mut Hook, items: &Vec<(u32, Vec3)>, fish: &Vec<(u32, Vec3)>, seed: u64)
    requires
        old(hook).wf(),
        snapshot_ok(items@),
        snapshot_ok(fish@),
    ensures
        final(hook).wf(),
        final(hook).position == old(hook).position,
        final(hook).velocity == old(hook).velocity,
        final(hook).direction == old(hook).direction,
        final(hook).length == old(hook).length,
        final(hook).max_length == old(hook).max_length,
        final(hook).speed == old(hook).speed,
        final(hook).state == old(hook).state,
        final(hook).owner_id == old(hook).owner_id,
        forall|x: u32| #[trigger] final(hook).attached_items@.contains(x) <==> attached_after(
            old(hook).attached_items@,
            old(hook).position,
            items@,
            fish@,
            seed,
            x,
        ),
{
    let tip = hook.get_hook_tip_position();
    let ghost start = hook.attached_items@;
    let mut i: usize = 0;
    while i < items.len()
        invariant
            i <= items@.len(),
            snapshot_ok(items@),
            hook.wf(),
            tip == hook.position,
            hook.position == old(hook).position,
            hook.velocity == old(hook).velocity,
            hook.direction == old(hook).direction,
            hook.length == old(hook).length,
            hook.max_length == old(hook).max_length,
            hook.speed == old(hook).speed,
            hook.state == old(hook).state,
            hook.owner_id == old(hook).owner_id,
            start == old(hook).attached_items@,
            forall|x: u32| #[trigger] hook.attached_items@.contains(x) <==> (start.contains(x) || exists|j: int|
                0 <= j < i && #[trigger] items@[j].0 == x && item_caught(tip, items@[j].1)),
        decreases items@.len() - i,
    {
        let (id, p) = items[i];
        let ghost before = hook.attached_items@;
        proof {
            assert(items@[i as int].1.in_world());
        }
        if tip.is_within(&p, ITEM_CATCH_RADIUS) {
            hook.attach_item(id);
        }
        proof {
            assert forall|x: u32| #[trigger] hook.attached_items@.contains(x) <==> (start.contains(x) || exists|j: int|
                0 <= j < i + 1 && #[trigger] items@[j].0 == x && item_caught(tip, items@[j].1)) by {
                if hook.attached_items@.contains(x) && !before.contains(x) {
                    assert(x == id);
                    assert(items@[i as int].0 == x);
                }
                if before.contains(x) {
                    let a = choose|a: int| 0 <= a < before.len() && before[a] == x;
                    if hook.attached_items@ != before {
                        assert(hook.attached_items@[a] == x);
                    }
                }
                if exists|j: int| 0 <= j < i + 1 && #[trigger] items@[j].0 == x && item_caught(tip, items@[j].1) {
                    let j = choose|j: int| 0 <= j < i + 1 && #[trigger] items@[j].0 == x && item_caught(tip, items@[j].1);
                    if j == i {
                        if !before.contains(x) {
                            assert(hook.attached_items@[hook.attached_items@.len() - 1] == x);
                        } else {
                            let a = choose|a: int| 0 <= a < before.len() && before[a] == x;
                            assert(hook.attached_items@[a] == x);
                        }
                    }
                }
            }
        }
        i += 1;
    }
    let ghost after_items = hook.attached_items@;
    let mut k: usize = 0;
    while k < fish.len()
        invariant
            k <= fish@.len(),
            snapshot_ok(fish@),
            hook.wf(),
            tip == hook.position,
            hook.position == old(hook).position,
            hook.velocity == old(hook).velocity,
            hook.direction == old(hook).direction,
            hook.length == old(hook).length,
            hook.max_length == old(hook).max_length,
            hook.speed == old(hook).speed,
            hook.state == old(hook).state,
            hook.owner_id == old(hook).owner_id,
            start == old(hook).attached_items@,
            forall|x: u32| #[trigger] after_items.contains(x) <==> (start.contains(x) || exists|j: int|
                0 <= j < items@.len() && #[trigger] items@[j].0 == x && item_caught(tip, items@[j].1)),
            forall|x: u32| #[trigger] hook.attached_items@.contains(x) <==> (after_items.contains(x) || exists|j: int|
                0 <= j < k && #[trigger] fish@[j].0 == x && fish_caught(tip, x, fish@[j].1, seed)),
        decreases fish@.len() - k,
    {
        let (id, p) = fish[k];
        let ghost before = hook.attached_items@;
        proof {
            assert(fish@[k as int].1.in_world());
        }
        if tip.is_within(&p, FISH_CATCH_RADIUS) && tip.z < -MIN_FISHING_DEPTH {
            let chance = catch_chance_at(-tip.z);
            if catch_roll(seed, id) < chance {
                hook.attach_item(id);
            }
        }
        proof {
            assert forall|x: u32| #[trigger] hook.attached_items@.contains(x) <==> (after_items.contains(x) || exists|j: int|
                0 <= j < k + 1 && #[trigger] fish@[j].0 == x && fish_caught(tip, x, fish@[j].1, seed)) by {
                if hook.attached_items@.contains(x) && !before.contains(x) {
                    assert(x == id);
                    assert(fish@[k as int].0 == x);
                }
                if before.contains(x) {
                    let a = choose|a: int| 0 <= a < before.len() && before[a] == x;
                    if hook.attached_items@ != before {
                        assert(hook.attached_items@[a] == x);
                    }
                }
                if exists|j: int| 0 <= j < k + 1 && #[trigger] fish@[j].0 == x && fish_caught(tip, x, fish@[j].1, seed) {
                    let j = choose|j: int| 0 <= j < k + 1 && #[trigger] fish@[j].0 == x && fish_caught(tip, x, fish@[j].1, seed);
                    if j == k {
                        if !before.contains(x) {
                            assert(hook.attached_items@[hook.attached_items@.len() - 1] == x);
                        } else {
                            let a = choose|a: int| 0 <= a < before.len() && before[a] == x;
                            assert(hook.attached_items@[a] == x);
                        }
                    }
                }
            }
        }
        k += 1;
    }
}


/// What the inventory receives for a collected entity: a floating item's own
/// type, or a fish; nothing for other kinds.
pub open spec fn catch_material(e: Entity) -> Option<FloatingItemType> {
    match e {
        Entity::FloatingItem(fi) => Some(fi.item_type),
        Entity::Fish(_) => Some(FloatingItemType::Fish),
        _ => None,
    }
}

/// Number of records of `a` that are gone in `b` and give the inventory a unit of `t`.
pub open spec fn gone_of(a: Seq<Option<Entity>>, b: Seq<Option<Entity>>, t: FloatingItemType) -> int
    decreases a.len(),
{
    if a.len() == 0 || b.len() != a.len() {
        0
    } else {
        gone_of(a.drop_last(), b.drop_last(), t) + if a.last().is_some() && b.last().is_none()
            && catch_material(a.last().unwrap()) == Some(t) {
            1int
        } else {
            0int
        }
    }
}

proof fn lemma_gone_none(a: Seq<Option<Entity>>, t: FloatingItemType)
    ensures
        gone_of(a, a, t) == 0,
    decreases a.len(),
{
    if a.len() > 0 {
        lemma_gone_none(a.drop_last(), t);
    }
}

/// Taking out one more collectible record counts it once.
proof fn lemma_gone_one_more(a: Seq<Option<Entity>>, b: Seq<Option<Entity>>, k: int, t: FloatingItemType)
    requires
        a.len() == b.len(),
        0 <= k < a.len(),
        b[k] == a[k],
        a[k].is_some(),
    ensures
        gone_of(a, b.update(k, None), t) == gone_of(a, b, t) + if catch_material(a[k].unwrap()) == Some(t) {
            1int
        } else {
            0int
        },
    decreases a.len(),
{
    let c = b.update(k, None);
    if k == a.len() - 1 {
        assert(c.drop_last() =~= b.drop_last());
    } else {
        assert(c.drop_last() =~= b.drop_last().update(k, None));
        lemma_gone_one_more(a.drop_last(), b.drop_last(), k, t);
    }
}

/// Counting against the same outcome from two starting points that agree on
/// what each slot would count gives the same number.
proof fn lemma_gone_same(a1: Seq<Option<Entity>>, a2: Seq<Option<Entity>>, b: Seq<Option<Entity>>, t: FloatingItemType)
    requires
        a1.len() == b.len(),
        a2.len() == b.len(),
        forall|j: int| 0 <= j < b.len() ==> ((#[trigger] a1[j]).is_some() && b[j].is_none() && catch_material(a1[j].unwrap()) == Some(t))
            == (a2[j].is_some() && b[j].is_none() && catch_material(a2[j].unwrap()) == Some(t)),
    ensures
        gone_of(a1, b, t) == gone_of(a2, b, t),
    decreases b.len(),
{
    if b.len() > 0 {
        let (c1, c2, d) = (a1.drop_last(), a2.drop_last(), b.drop_last());
        assert forall|j: int| 0 <= j < d.len() implies ((#[trigger] c1[j]).is_some() && d[j].is_none() && catch_material(c1[j].unwrap()) == Some(t))
            == (c2[j].is_some() && d[j].is_none() && catch_material(c2[j].unwrap()) == Some(t)) by {
            assert(c1[j] == a1[j] && c2[j] == a2[j] && d[j] == b[j]);
        }
        lemma_gone_same(c1, c2, d, t);
        assert(a1[b.len() - 1] == a1.last());
    }
}

/// An entity stuck to a hook: at the tip, and still.
pub open spec fn pinned(e: Entity, tip: Vec3) -> Entity {
    e.with_pos(tip).with_vel(Vec3 { x: 0, y: 0, z: 0 })
}

/// Largest magnitude of a wind component.
pub const MAX_WIND: i64 = 536870912;

/// `c * k / 10`, rounded down.
pub open spec fn tenths(c: int, k: int) -> int {
    (c * k) / 10
}

/// Velocity of floating items: a steady 6 units per second towards +x, plus
/// three tenths of the wind.
pub open spec fn item_flow(w: Vec3) -> Vec3 {
    Vec3 { x: (6 + tenths(w.x as int, 3)) as i64, y: tenths(w.y as int, 3) as i64, z: tenths(w.z as int, 3) as i64 }
}

/// Velocity of fish: two tenths of the wind.
pub open spec fn fish_drift(w: Vec3) -> Vec3 {
    Vec3 { x: tenths(w.x as int, 2) as i64, y: tenths(w.y as int, 2) as i64, z: tenths(w.z as int, 2) as i64 }
}

pub open spec fn wind_ok(w: Vec3) -> bool {
    &&& -MAX_WIND <= w.x <= MAX_WIND
    &&& -MAX_WIND <= w.y <= MAX_WIND
    &&& -MAX_WIND <= w.z <= MAX_WIND
}

/// `c * k / 10`, rounded down, for a wind component `c`.
fn scale_tenths(c: i64, k: i64) -> (r: i64)
    requires
        -MAX_WIND <= c <= MAX_WIND,
        0 <= k <= 10,
    ensures
        r == tenths(c as int, k as int),
        -MAX_WIND <= r <= MAX_WIND,
{
    proof {
        assert(-MAX_WIND * 10 <= c * k <= MAX_WIND * 10) by (nonlinear_arith)
            requires
                -MAX_WIND <= c <= MAX_WIND,
                0 <= k <= 10,
        ;
        vstd::arithmetic::div_mod::lemma_div_is_ordered(-MAX_WIND * 10, c * k, 10);
        vstd::arithmetic::div_mod::lemma_div_is_ordered(c * k, MAX_WIND * 10, 10);
    }
    match (c * k).checked_div_euclid(10) {
        Some(q) => q,
        None => 0,
    }
}

/// The entity that the spawn request `r` becomes under identifier `id`: a
/// floating item of the type drawn from `seed`, or a small fish, at rest at
/// the requested position.
pub open spec fn spawned(r: (SpawnType, Vec3), seed: u64, id: u32) -> Entity {
    if r.0 == SpawnType::FloatingItem {
        Entity::FloatingItem(FloatingItemEntity {
            id,
            position: r.1,
            velocity: Vec3 { x: 0, y: 0, z: 0 },
            spawn_origin: r.1,
            item_type: spec_pick((seed % 1000) as u32),
            lifetime: 0,
        })
    } else {
        Entity::Fish(FishEntity {
            id,
            position: r.1,
            velocity: Vec3 { x: 0, y: 0, z: 0 },
            spawn_origin: r.1,
            fish_type: FishType::SmallFish,
            health: HealthComponent { hp: 50, max_hp: 50 },
            stats: StatsComponent { speed: 1000, strength: 10, defense: 5, stamina: 100 },
            lifetime: 0,
        })
    }
}

/// The records that the spawn requests `reqs` add to a store of `n` slots:
/// one per item or fish request inside the world, while identifiers last.
pub open spec fn realize(reqs: Seq<(SpawnType, Vec3)>, seed: u64, n: int) -> Seq<Option<Entity>>
    decreases reqs.len(),
{
    if reqs.len() == 0 {
        Seq::empty()
    } else {
        let prev = realize(reqs.drop_last(), seed, n);
        let m = n + prev.len();
        let r = reqs.last();
        if r.1.in_world() && m < u32::MAX - 3 && (r.0 == SpawnType::FloatingItem || r.0 == SpawnType::Fish) {
            prev.push(Some(spawned(r, seed, (m + 1) as u32)))
        } else {
            prev
        }
    }
}

/// Slot by slot, `new` is `old` after a hook frame: no record appears or
/// changes kind, and a record that leaves is a hook entity, or a floating
/// item or fish that went into the inventory.
pub open spec fn hook_frame_outcome(old: Seq<Option<Entity>>, new: Seq<Option<Entity>>) -> bool {
    &&& new.len() == old.len()
    &&& forall|j: int| 0 <= j < old.len() && (#[trigger] new[j]).is_some() ==> {
        &&& old[j].is_some()
        &&& new[j].unwrap().kind() == old[j].unwrap().kind()
    }
    &&& forall|j: int| 0 <= j < old.len() && (#[trigger] new[j]).is_none() && old[j].is_some() ==> {
        ||| old[j].unwrap().is_hook()
        ||| catch_material(old[j].unwrap()).is_some()
    }
}

/// Whether the hook `h0` gets back to an owner at `owner` this frame.
pub open spec fn completes(h0: Hook, dt: int, owner: Vec3) -> bool {
    h0.state == HookState::Retracting && h0.state_after_update(dt, owner) == HookState::Retracted
}

/// Whether a hook that held `before` and now has its tip at `tip` holds `y`
/// after its attach pass, reading entities as the records `store` hold them:
/// it held it already, or `y` is a floating item within reach of the tip, or
/// a fish that the tip catches.
pub open spec fn caught_in(before: Seq<u32>, tip: Vec3, store: Seq<Option<Entity>>, seed: u64, y: u32) -> bool {
    let o = crate::store::lookup(store, y);
    ||| before.contains(y)
    ||| o.is_some() && o.unwrap().kind() == EntityType::FloatingItem && item_caught(tip, o.unwrap().pos())
    ||| o.is_some() && o.unwrap().kind() == EntityType::Fish && fish_caught(tip, y, o.unwrap().pos(), seed)
}

/// Whether no live hook entity of `store` but `x` holds `y`.
pub open spec fn held_only_by(store: Seq<Option<Entity>>, x: u32, y: u32) -> bool {
    forall|z: u32| z != x && #[trigger] crate::store::lookup(store, z).is_some()
        && crate::store::lookup(store, z).unwrap().is_hook() ==> !crate::store::lookup(store, z).unwrap().hook_of().attached_items@.contains(y)
}

/// Position snapshots of the live entities of `kind` in `store` are `snap`.
pub open spec fn snapshot_of(snap: Seq<(u32, Vec3)>, store: Seq<Option<Entity>>, kind: EntityType) -> bool {
    &&& forall|i: int| 0 <= i < snap.len() ==> {
        &&& crate::store::lookup(store, (#[trigger] snap[i]).0).is_some()
        &&& crate::store::lookup(store, snap[i].0).unwrap().kind() == kind
        &&& crate::store::lookup(store, snap[i].0).unwrap().pos() == snap[i].1
    }
    &&& forall|id: u32| crate::store::lookup(store, id).is_some() && #[trigger] crate::store::lookup(store, id).unwrap().kind() == kind
        ==> exists|i: int| 0 <= i < snap.len() && (#[trigger] snap[i]).0 == id
}

proof fn lemma_snapshot(st: &EntityStorage, r: Seq<(u32, Vec3)>, kind: EntityType)
    requires
        forall|i: int| 0 <= i < r.len() ==> {
            &&& st.entity((#[trigger] r[i]).0).is_some()
            &&& st.entity(r[i].0).unwrap().kind() == kind
            &&& st.entity(r[i].0).unwrap().pos() == r[i].1
        },
        forall|id: u32| st.entity(id).is_some() && #[trigger] st.entity(id).unwrap().kind() == kind
            ==> exists|i: int| 0 <= i < r.len() && (#[trigger] r[i]).0 == id,
    ensures
        snapshot_of(r, st@, kind),
{
    assert forall|id: u32| crate::store::lookup(st@, id).is_some() && #[trigger] crate::store::lookup(st@, id).unwrap().kind() == kind
        implies exists|i: int| 0 <= i < r.len() && (#[trigger] r[i]).0 == id by {
        assert(st.entity(id) == crate::store::lookup(st@, id));
    }
}

proof fn lemma_caught_from_snapshots(
    before: Seq<u32>,
    tip: Vec3,
    items: Seq<(u32, Vec3)>,
    fish: Seq<(u32, Vec3)>,
    store: Seq<Option<Entity>>,
    seed: u64,
    y: u32,
)
    requires
        snapshot_of(items, store, EntityType::FloatingItem),
        snapshot_of(fish, store, EntityType::Fish),
    ensures
        attached_after(before, tip, items, fish, seed, y) == caught_in(before, tip, store, seed, y),
{
    let o = crate::store::lookup(store, y);
    if o.is_some() && o.unwrap().kind() == EntityType::FloatingItem {
        let i = choose|i: int| 0 <= i < items.len() && (#[trigger] items[i]).0 == y;
        assert(items[i].0 == y);
    }
    if o.is_some() && o.unwrap().kind() == EntityType::Fish {
        let i = choose|i: int| 0 <= i < fish.len() && (#[trigger] fish[i]).0 == y;
        assert(fish[i].0 == y);
    }
    if exists|i: int| 0 <= i < items.len() && #[trigger] items[i].0 == y && item_caught(tip, items[i].1) {
        let i = choose|i: int| 0 <= i < items.len() && #[trigger] items[i].0 == y && item_caught(tip, items[i].1);
        assert(items[i].0 == y);
    }
    if exists|i: int| 0 <= i < fish.len() && #[trigger] fish[i].0 == y && fish_caught(tip, y, fish[i].1, seed) {
        let i = choose|i: int| 0 <= i < fish.len() && #[trigger] fish[i].0 == y && fish_caught(tip, y, fish[i].1, seed);
        assert(fish[i].0 == y);
    }
}

/// What a hook frame does to the hook entity that held `h0`: gone if its
/// cycle completed, otherwise still there in the phase `update` moves it to.
pub open spec fn hook_after_frame(h0: Hook, after: Option<Entity>, dt: int, owner: Vec3) -> bool {
    let s1 = h0.state_after_update(dt, owner);
    if h0.state == HookState::Retracting && s1 == HookState::Retracted {
        after.is_none()
    } else {
        &&& after.is_some()
        &&& after.unwrap().is_hook()
        &&& after.unwrap().hook_of().state == s1
    }
}

/// The populations the spawn scheduler is told of: floating items and fish
/// as the kind index counts them, none of the other kinds.
pub open spec fn spawn_counts(m: &EntityManager) -> Seq<usize> {
    seq![m.kinds()[5].len() as usize, m.kinds()[2].len() as usize, 0usize, 0usize, 0usize, 0usize]
}

/// A record after the environment pass: floating items take the current's
/// velocity and fish drift with the wind; other kinds are left as they are.
pub open spec fn environment_slot(o: Option<Entity>, w: Vec3) -> Option<Entity> {
    match o {
        Some(e) => if e.kind() == EntityType::FloatingItem {
            Some(e.with_vel(item_flow(w)))
        } else if e.kind() == EntityType::Fish {
            Some(e.with_vel(fish_drift(w)))
        } else {
            o
        },
        None => None,
    }
}

/// What one hook frame (`update_hooks(player_pos, delta_time, seed)`) makes
/// of the world `before`: no record appears or changes kind; each hook
/// moves as `update` moves it and, if it did not get back, holds what its
/// attach pass caught and pins what only it holds at its tip; a hook that got
/// back leaves, and what it held went into the inventory or was refused.
pub open spec fn hook_pass(before: GameManager, after: GameManager, player_pos: Vec3, delta_time: u32, seed: u64) -> bool {
    &&& hook_frame_outcome(before.entity_storage@, after.entity_storage@)
    &&& forall|x: u32| #[trigger] before.entity_storage.entity(x).is_some()
        && before.entity_storage.entity(x).unwrap().is_hook() ==> hook_after_frame(
        before.entity_storage.entity(x).unwrap().hook_of(),
        after.entity_storage.entity(x),
        delta_time as int,
        player_pos,
    )
    &&& forall|x: u32| #[trigger] before.entity_storage.entity(x).is_some()
        && before.entity_storage.entity(x).unwrap().is_hook()
        && !completes(before.entity_storage.entity(x).unwrap().hook_of(), delta_time as int, player_pos) ==> {
        let h0 = before.entity_storage.entity(x).unwrap().hook_of();
        let h1 = after.entity_storage.entity(x).unwrap().hook_of();
        &&& h0.update_motion(&h1, delta_time as int, player_pos, false)
        &&& forall|y: u32| #[trigger] h1.attached_items@.contains(y) == caught_in(
            h0.attached_items@,
            h1.position,
            before.entity_storage@,
            seed,
            y,
        )
    }
    &&& forall|x: u32, y: u32| {
        &&& before.entity_storage.entity(x).is_some()
        &&& before.entity_storage.entity(x).unwrap().is_hook()
        &&& !completes(before.entity_storage.entity(x).unwrap().hook_of(), delta_time as int, player_pos)
        &&& #[trigger] after.entity_storage.entity(x).unwrap().hook_of().attached_items@.contains(y)
        &&& after.entity_storage.entity(y).is_some()
        &&& !after.entity_storage.entity(y).unwrap().is_hook()
        &&& held_only_by(after.entity_storage@, x, y)
    } ==> {
        &&& after.entity_storage.entity(y).unwrap().pos() == after.entity_storage.entity(x).unwrap().hook_of().position
        &&& after.entity_storage.entity(y).unwrap().vel() == (Vec3 { x: 0, y: 0, z: 0 })
    }
    &&& forall|t: FloatingItemType| #[trigger] after.inventory.count(t) == before.inventory.count(t)
        + gone_of(before.entity_storage@, after.entity_storage@, t)
    &&& forall|x: u32, y: u32| {
        &&& before.entity_storage.entity(x).is_some()
        &&& before.entity_storage.entity(x).unwrap().is_hook()
        &&& completes(before.entity_storage.entity(x).unwrap().hook_of(), delta_time as int, player_pos)
        &&& #[trigger] before.entity_storage.entity(x).unwrap().hook_of().attached_items@.contains(y)
        &&& before.entity_storage.entity(y).is_some()
        &&& catch_material(before.entity_storage.entity(y).unwrap()).is_some()
        &&& after.entity_storage.entity(y).is_some()
    } ==> !after.inventory.accepts(catch_material(before.entity_storage.entity(y).unwrap()).unwrap(), 1)
}

/// The world's entities and their indexes, the player's inventory and
/// identifier, the spawn scheduler, the game mode and the wind.
pub struct GameManager {
    pub entity_manager: EntityManager,
    pub entity_storage: EntityStorage,
    pub entity_factory: EntityFactory,
    pub spawn_system: SpawnSystem,
    pub inventory: Inventory,
    pub player_id: u32,
    pub game_mode: GameMode,
    /// In units per second.
    pub wind: Vec3,
}

impl GameManager {
    pub open spec fn wf(&self) -> bool {
        &&& self.entity_manager.consistent(&self.entity_storage)
        &&& self.spawn_system.wf()
        &&& wind_ok(self.wind)
    }

    /// An empty world for the player `player_id`, with a fresh inventory,
    /// sailing, with a wind of one unit per second towards +x.
    pub fn new(player_id: u32) -> (r: GameManager)
        ensures
            r.wf(),
            r.entity_storage@ == Seq::<Option<Entity>>::empty(),
            r.player_id == player_id,
            r.game_mode == GameMode::Raft,
            r.wind == (Vec3 { x: 1, y: 0, z: 0 }),
    {
        let storage = EntityStorage::new();
        let manager = EntityManager::new();
        GameManager {
            entity_manager: manager,
            entity_storage: storage,
            entity_factory: EntityFactory::new(),
            spawn_system: SpawnSystem::new(),
            inventory: Inventory::new(),
            player_id,
            game_mode: GameMode::Raft,
            wind: Vec3 { x: 1, y: 0, z: 0 },
        }
    }

    /// Switches the game mode; diving stops floating items from spawning,
    /// sailing brings them back at one every 600 frames.
    pub fn set_game_mode(&mut self, mode: GameMode)
        requires
            old(self).wf(),
        ensures
            final(self).wf(),
            final(self).game_mode == mode,
            final(self).entity_storage@ == old(self).entity_storage@,
            final(self).spawn_system.rates()[0] == if mode == GameMode::Raft { 600u32 } else { u32::MAX },
    {
        self.game_mode = mode;
        match mode {
            GameMode::Raft => self.spawn_system.set_spawn_rate(SpawnType::FloatingItem, 600),
            GameMode::Dive => self.spawn_system.set_spawn_rate(SpawnType::FloatingItem, u32::MAX),
        }
    }

    /// Gives every live entity of `ids` the velocity `vel`.
    fn set_velocity_of_all(&mut self, ids: &Vec<u32>, vel: Vec3)
        requires
            old(self).wf(),
            vel.within_speed(),
        ensures
            final(self).inventory == old(self).inventory,
            final(self).wf(),
            final(self).player_id == old(self).player_id,
            final(self).spawn_system == old(self).spawn_system,
            final(self).wind == old(self).wind,
            final(self).game_mode == old(self).game_mode,
            final(self).entity_storage@.len() == old(self).entity_storage@.len(),
            forall|j: int| 0 <= j < old(self).entity_storage@.len() ==> #[trigger] final(self).entity_storage@[j]
                == if ids@.contains((j + 1) as u32) && old(self).entity_storage@[j].is_some() {
                Some(old(self).entity_storage@[j].unwrap().with_vel(vel))
            } else {
                old(self).entity_storage@[j]
            },
    {
        let ghost start = self.entity_storage@;
        proof {
            assert forall|m: FloatingItemType| #[trigger] self.inventory.count(m) == old(self).inventory.count(m)
                + gone_of(start, self.entity_storage@, m) by {
                lemma_gone_none(start, m);
            }
        }
        let mut t: usize = 0;
        while t < ids.len()
            invariant
                self.inventory == old(self).inventory,
                t <= ids@.len(),
                vel.within_speed(),
                self.wf(),
                self.player_id == old(self).player_id,
                self.spawn_system == old(self).spawn_system,
                self.wind == old(self).wind,
                self.game_mode == old(self).game_mode,
                start == old(self).entity_storage@,
                self.entity_storage@.len() == start.len(),
                forall|j: int| 0 <= j < start.len() ==> #[trigger] self.entity_storage@[j]
                    == if ids@.take(t as int).contains((j + 1) as u32) && start[j].is_some() {
                    Some(start[j].unwrap().with_vel(vel))
                } else {
                    start[j]
                },
            decreases ids@.len() - t,
        {
            let id = ids[t];
            self.entity_manager.set_entity_velocity(&mut self.entity_storage, id, vel);
            proof {
                let next = ids@.take(t + 1);
                let prev = ids@.take(t as int);
                assert(next =~= prev.push(id));
                assert forall|j: int| 0 <= j < start.len() implies #[trigger] self.entity_storage@[j]
                    == if next.contains((j + 1) as u32) && start[j].is_some() {
                    Some(start[j].unwrap().with_vel(vel))
                } else {
                    start[j]
                } by {
                    let x = (j + 1) as u32;
                    if next.contains(x) && x != id {
                        let a = choose|a: int| 0 <= a < next.len() && next[a] == x;
                        assert(prev[a] == x);
                    }
                    if prev.contains(x) {
                        let a = choose|a: int| 0 <= a < prev.len() && prev[a] == x;
                        assert(next[a] == x);
                    }
                    if x == id {
                        assert(next[t as int] == x);
                    }
                }
            }
            t += 1;
        }
        proof {
            assert(ids@.take(t as int) =~= ids@);
        }
    }

    /// The environment pass: floating items flow with the current and the
    /// wind, fish drift with the wind.
    pub fn apply_environment(&mut self)
        requires
            old(self).wf(),
        ensures
            final(self).inventory == old(self).inventory,
            final(self).wf(),
            final(self).player_id == old(self).player_id,
            final(self).spawn_system == old(self).spawn_system,
            final(self).game_mode == old(self).game_mode,
            final(self).wind == old(self).wind,
            final(self).entity_storage@ == Seq::new(
                old(self).entity_storage@.len(),
                |j: int| environment_slot(old(self).entity_storage@[j], old(self).wind),
            ),
    {
        let w = self.wind;
        let flow = Vec3 { x: 6 + scale_tenths(w.x, 3), y: scale_tenths(w.y, 3), z: scale_tenths(w.z, 3) };
        let drift = Vec3 { x: scale_tenths(w.x, 2), y: scale_tenths(w.y, 2), z: scale_tenths(w.z, 2) };
        let ghost s0 = self.entity_storage;
        let items = self.entity_manager.get_entity_ids_by_type(EntityType::FloatingItem);
        proof {
            assert forall|j: int| 0 <= j < s0@.len() implies items@.contains((j + 1) as u32) == (s0@[j].is_some()
                && s0@[j].unwrap().kind() == EntityType::FloatingItem) by {
                let x = (j + 1) as u32;
                if s0@[j].is_some() {
                    assert(s0.entity(x).is_some());
                }
                if items@.contains(x) {
                    assert(self.entity_manager.kinds()[kind_index(EntityType::FloatingItem)].contains(x));
                }
            }
        }
        self.set_velocity_of_all(&items, flow);
        let ghost s1 = self.entity_storage;
        let fish = self.entity_manager.get_entity_ids_by_type(EntityType::Fish);
        proof {
            assert forall|j: int| 0 <= j < s1@.len() implies fish@.contains((j + 1) as u32) == (s1@[j].is_some()
                && s1@[j].unwrap().kind() == EntityType::Fish) by {
                let x = (j + 1) as u32;
                if s1@[j].is_some() {
                    assert(s1.entity(x).is_some());
                }
                if fish@.contains(x) {
                    assert(self.entity_manager.kinds()[kind_index(EntityType::Fish)].contains(x));
                }
            }
        }
        self.set_velocity_of_all(&fish, drift);
        proof {
            assert(self.entity_storage@ =~= Seq::new(
                old(self).entity_storage@.len(),
                |j: int| environment_slot(old(self).entity_storage@[j], old(self).wind),
            ));
        }
    }

    /// Runs the spawn scheduler for a player at `player_pos` and turns what
    /// it requests into entities: floating items of a type drawn from the
    /// rarities, and small fish. Records already filed stay as they were.
    pub fn update_spawning(&mut self, player_pos: Vec3, screen_width: u32, seed: u64)
        requires
            old(self).wf(),
            player_pos.in_world(),
            screen_width <= MAX_SCREEN_WIDTH,
        ensures
            final(self).inventory == old(self).inventory,
            final(self).wf(),
            final(self).player_id == old(self).player_id,
            final(self).game_mode == old(self).game_mode,
            final(self).wind == old(self).wind,
            final(self).spawn_system.pending() == Seq::<(SpawnType, Vec3)>::empty(),
            final(self).spawn_system.wf(),
            final(self).spawn_system.rates() == old(self).spawn_system.rates(),
            final(self).spawn_system.caps() == old(self).spawn_system.caps(),
            forall|i: int| 0 <= i < SPAWN_KINDS ==> #[trigger] final(self).spawn_system.timers()[i] == if scheduled(i) {
                Some(next_timer(
                    old(self).spawn_system.timer_now(i),
                    old(self).spawn_system.due_now(i, spawn_counts(&old(self).entity_manager)),
                ))
            } else {
                old(self).spawn_system.timers()[i]
            },
            final(self).entity_storage@ == old(self).entity_storage@ + realize(
                old(self).spawn_system.queue_after_update(
                    player_pos,
                    spawn_counts(&old(self).entity_manager),
                    screen_width,
                    seed,
                ),
                seed,
                old(self).entity_storage@.len() as int,
            ),
    {
        let floats = self.entity_manager.get_entity_count(EntityType::FloatingItem);
        let fish = self.entity_manager.get_entity_count(EntityType::Fish);
        let counts: Vec<usize> = vec![floats, fish, 0, 0, 0, 0];
        self.spawn_system.set_wind(self.wind);
        self.spawn_system.update(&player_pos, &counts, screen_width, seed);
        let ghost counts_seq = counts@;
        proof {
            assert(counts_seq =~= spawn_counts(&old(self).entity_manager));
        }
        let requests = self.spawn_system.drain_pending();
        let ghost drained = self.spawn_system;
        let ghost start = self.entity_storage@;
        let mut i: usize = 0;
        while i < requests.len()
            invariant
                self.inventory == old(self).inventory,
                i <= requests@.len(),
                self.wf(),
                self.player_id == old(self).player_id,
                self.game_mode == old(self).game_mode,
                self.wind == old(self).wind,
                self.spawn_system.pending() == Seq::<(SpawnType, Vec3)>::empty(),
                self.spawn_system == drained,
                start == old(self).entity_storage@,
                self.entity_storage@ == start + realize(requests@.take(i as int), seed, start.len() as int),
            decreases requests@.len() - i,
        {
            let (kind, pos) = requests[i];
            proof {
                assert(requests@.take(i + 1).drop_last() =~= requests@.take(i as int));
                assert(requests@.take(i + 1).last() == requests@[i as int]);
            }
            if pos.is_in_world() && self.entity_storage.slot_count() < (u32::MAX - 3) as usize {
                match kind {
                    SpawnType::FloatingItem => {
                        let item_type = pick_item_type((seed % 1000) as u32);
                        let e = self.entity_factory.create_floating_item(pos, item_type);
                        let id = self.entity_manager.create_entity(&mut self.entity_storage, e);
                        proof {
                            assert(e.with_id(id) == spawned(requests@[i as int], seed, id));
                            assert(self.entity_storage@ =~= start + realize(requests@.take(i + 1), seed, start.len() as int));
                        }
                    },
                    SpawnType::Fish => {
                        let e = self.entity_factory.create_fish(pos, FishType::SmallFish);
                        let id = self.entity_manager.create_entity(&mut self.entity_storage, e);
                        proof {
                            assert(e.with_id(id) == spawned(requests@[i as int], seed, id));
                            assert(self.entity_storage@ =~= start + realize(requests@.take(i + 1), seed, start.len() as int));
                        }
                    },
                    _ => {
                        proof {
                            assert(self.entity_storage@ =~= start + realize(requests@.take(i + 1), seed, start.len() as int));
                        }
                    },
                }
            } else {
                proof {
                    assert(self.entity_storage@ =~= start + realize(requests@.take(i + 1), seed, start.len() as int));
                }
            }
            i += 1;
        }
        proof {
            assert(requests@.take(i as int) =~= requests@);
        }
    }

    /// One frame of the world, in the fixed order of its passes: spawn
    /// requests are made and realised, the environment sets velocities, the
    /// hooks run, and last every entity advances and the expired are removed.
    pub fn advance_frame(&mut self, player_pos: Vec3, delta_time: u32, screen_width: u32, seed: u64)
        requires
            old(self).wf(),
            player_pos.in_world(),
            screen_width <= MAX_SCREEN_WIDTH,
        ensures
            final(self).wf(),
            final(self).player_id == old(self).player_id,
            final(self).game_mode == old(self).game_mode,
            final(self).wind == old(self).wind,
            final(self).spawn_system.wf(),
            final(self).spawn_system.rates() == old(self).spawn_system.rates(),
            final(self).spawn_system.caps() == old(self).spawn_system.caps(),
            forall|i: int| 0 <= i < SPAWN_KINDS ==> #[trigger] final(self).spawn_system.timers()[i] == if scheduled(i) {
                Some(next_timer(
                    old(self).spawn_system.timer_now(i),
                    old(self).spawn_system.due_now(i, spawn_counts(&old(self).entity_manager)),
                ))
            } else {
                old(self).spawn_system.timers()[i]
            },
            ({
                let spawned = old(self).entity_storage@ + realize(
                    old(self).spawn_system.queue_after_update(
                        player_pos,
                        spawn_counts(&old(self).entity_manager),
                        screen_width,
                        seed,
                    ),
                    seed,
                    old(self).entity_storage@.len() as int,
                );
                let pushed = Seq::new(spawned.len(), |j: int| environment_slot(spawned[j], old(self).wind));
                exists|g: GameManager, h: GameManager| {
                    &&& g.entity_storage@ == pushed
                    &&& g.inventory == old(self).inventory
                    &&& hook_pass(g, h, player_pos, delta_time, seed)
                    &&& final(self).entity_storage@ == crate::store::after_frame(h.entity_storage@, delta_time)
                    &&& final(self).inventory == h.inventory
                }
            }),
    {
        self.update_spawning(player_pos, screen_width, seed);
        self.apply_environment();
        let ghost g = *self;
        self.update_hooks(player_pos, delta_time, seed);
        let ghost h = *self;
        self.entity_manager.update_entities(&mut self.entity_storage, delta_time);
        proof {
            assert(self.entity_storage@ == crate::store::after_frame(h.entity_storage@, delta_time));
            assert(hook_pass(g, h, player_pos, delta_time, seed));
        }
    }

    /// One frame of the hook entity `hook_id` for an owner at `player_pos`:
    /// the hook moves; if its cycle completes it hands out what it held;
    /// otherwise the attach pass runs on the position snapshots `items` and
    /// `fish`, then the pin pass moves everything it holds to its tip.
    /// Returns whether the cycle completed, and the ids handed out.
    pub fn step_hook(
        &mut self,
        hook_id: u32,
        player_pos: Vec3,
        delta_time: u32,
        items: &Vec<(u32, Vec3)>,
        fish: &Vec<(u32, Vec3)>,
        seed: u64,
    ) -> (r: (bool, Vec<u32>))
        requires
            old(self).wf(),
            player_pos.in_world(),
            snapshot_ok(items@),
            snapshot_ok(fish@),
        ensures
            final(self).wf(),
            final(self).inventory == old(self).inventory,
            final(self).player_id == old(self).player_id,
            final(self).spawn_system == old(self).spawn_system,
            final(self).wind == old(self).wind,
            final(self).game_mode == old(self).game_mode,
            final(self).entity_storage@.len() == old(self).entity_storage@.len(),
            forall|j: int| 0 <= j < old(self).entity_storage@.len() && j != hook_id - 1
                && old(self).entity_storage@[j].is_some() && old(self).entity_storage@[j].unwrap().is_hook()
                ==> #[trigger] final(self).entity_storage@[j] == old(self).entity_storage@[j],
            ({
                let o = old(self).entity_storage.entity(hook_id);
                let e1 = final(self).entity_storage.entity(hook_id);
                if o.is_some() && o.unwrap().is_hook() {
                    let h0 = o.unwrap().hook_of();
                    let h1 = e1.unwrap().hook_of();
                    &&& e1.is_some()
                    &&& e1.unwrap() == o.unwrap().with_hook(h1)
                    &&& h0.update_motion(&h1, delta_time as int, player_pos, r.0)
                    &&& r.0 ==> r.1@ == h0.attached_items@
                    &&& r.0 ==> h1.attached_items@ == Seq::<u32>::empty()
                    &&& r.0 ==> forall|j: int| 0 <= j < old(self).entity_storage@.len() && j != hook_id - 1
                        ==> #[trigger] final(self).entity_storage@[j] == old(self).entity_storage@[j]
                    &&& !r.0 ==> r.1@ == Seq::<u32>::empty()
                    &&& !r.0 ==> forall|x: u32| #[trigger] h1.attached_items@.contains(x) <==> attached_after(
                        h0.attached_items@,
                        h1.position,
                        items@,
                        fish@,
                        seed,
                        x,
                    )
                    &&& !r.0 ==> forall|j: int| 0 <= j < old(self).entity_storage@.len() && j != hook_id - 1
                        ==> #[trigger] final(self).entity_storage@[j] == if h1.attached_items@.contains((j + 1) as u32)
                        && old(self).entity_storage@[j].is_some() && !old(self).entity_storage@[j].unwrap().is_hook() {
                        Some(pinned(old(self).entity_storage@[j].unwrap(), h1.position))
                    } else {
                        old(self).entity_storage@[j]
                    }
                    &&& !r.0 ==> forall|x: u32| #[trigger] h1.attached_items@.contains(x)
                        && final(self).entity_storage.entity(x).is_some()
                        && !final(self).entity_storage.entity(x).unwrap().is_hook() ==> {
                        &&& final(self).entity_storage.entity(x).unwrap().pos() == h1.position
                        &&& final(self).entity_storage.entity(x).unwrap().vel() == (Vec3 { x: 0, y: 0, z: 0 })
                    }
                } else {
                    &&& final(self).entity_storage@ == old(self).entity_storage@
                    &&& !r.0
                    &&& r.1@ == Seq::<u32>::empty()
                }
            }),
    {
        let mut h = Hook::new(0);
        let is_hook = self.entity_manager.swap_hook(&mut self.entity_storage, hook_id, &mut h);
        if !is_hook {
            return (false, Vec::new());
        }
        let ghost o = old(self).entity_storage.entity(hook_id).unwrap();
        let done = h.update(delta_time, player_pos);
        if done {
            let out = h.detach_all_items();
            let ghost h1 = h;
            self.entity_manager.swap_hook(&mut self.entity_storage, hook_id, &mut h);
            proof {
                assert(self.entity_storage@ =~= old(self).entity_storage@.update(hook_id - 1, Some(o.with_hook(h1))));
                assert(self.entity_storage.entity(hook_id) == Some(o.with_hook(h1)));
                assert(o.with_hook(h1).hook_of() == h1);
            }
            return (true, out);
        }
        attach_nearby(&mut h, items, fish, seed);
        let tip = h.get_hook_tip_position();
        let attached = h.attached_items.clone();
        let ghost h1 = h;
        proof {
            assert(attached@ =~= h1.attached_items@);
        }
        self.entity_manager.swap_hook(&mut self.entity_storage, hook_id, &mut h);
        let ghost mid = self.entity_storage@;
        proof {
            assert(mid =~= old(self).entity_storage@.update(hook_id - 1, Some(o.with_hook(h1))));
        }
        self.pin_to(&attached, tip);
        proof {
            assert(self.entity_storage@[hook_id - 1] == mid[hook_id - 1]);
            assert(self.entity_storage.entity(hook_id) == Some(o.with_hook(h1)));
            assert(o.with_hook(h1).hook_of() == h1);
            assert forall|x: u32| #[trigger] h1.attached_items@.contains(x)
                && self.entity_storage.entity(x).is_some()
                && !self.entity_storage.entity(x).unwrap().is_hook() implies {
                &&& self.entity_storage.entity(x).unwrap().pos() == h1.position
                &&& self.entity_storage.entity(x).unwrap().vel() == (Vec3 { x: 0, y: 0, z: 0 })
            } by {
                assert(self.entity_storage@[x - 1] == if attached@.contains(((x - 1) + 1) as u32) && mid[x - 1].is_some() && !mid[x - 1].unwrap().is_hook() {
                    Some(pinned(mid[x - 1].unwrap(), tip))
                } else {
                    mid[x - 1]
                });
            }
        }
        (false, Vec::new())
    }

    /// Positions of the live entities of kind `kind`, read before any of them changes.
    pub fn snapshot_positions(&self, kind: EntityType) -> (r: Vec<(u32, Vec3)>)
        requires
            self.wf(),
        ensures
            snapshot_ok(r@),
            forall|i: int| 0 <= i < r@.len() ==> {
                &&& self.entity_storage.entity((#[trigger] r@[i]).0).is_some()
                &&& self.entity_storage.entity(r@[i].0).unwrap().kind() == kind
                &&& self.entity_storage.entity(r@[i].0).unwrap().pos() == r@[i].1
            },
            forall|id: u32| self.entity_storage.entity(id).is_some() && #[trigger] self.entity_storage.entity(id).unwrap().kind() == kind
                ==> exists|i: int| 0 <= i < r@.len() && (#[trigger] r@[i]).0 == id,
    {
        let ids = self.entity_manager.get_entity_ids_by_type(kind);
        let mut r: Vec<(u32, Vec3)> = Vec::new();
        let mut i: usize = 0;
        while i < ids.len()
            invariant
                i <= ids@.len(),
                self.wf(),
                ids@ == self.entity_manager.kinds()[kind_index(kind)],
                r@.len() == i,
                forall|a: int| 0 <= a < i ==> (#[trigger] r@[a]).0 == ids@[a],
                snapshot_ok(r@),
                forall|a: int| 0 <= a < r@.len() ==> {
                    &&& self.entity_storage.entity((#[trigger] r@[a]).0).is_some()
                    &&& self.entity_storage.entity(r@[a].0).unwrap().kind() == kind
                    &&& self.entity_storage.entity(r@[a].0).unwrap().pos() == r@[a].1
                },
            decreases ids@.len() - i,
        {
            let id = ids[i];
            proof {
                assert(self.entity_manager.kinds()[kind_index(kind)].contains(id));
            }
            match self.entity_manager.get_entity(&self.entity_storage, id) {
                Some(e) => {
                    let p = e.get_world_position();
                    proof {
                        assert(crate::store::slot_ok(self.entity_storage@[id - 1], self.entity_manager.cache()[id - 1], id - 1));
                    }
                    r.push((id, p));
                },
                None => {},
            }
            i += 1;
        }
        proof {
            assert forall|id: u32| self.entity_storage.entity(id).is_some() && #[trigger] self.entity_storage.entity(id).unwrap().kind() == kind
                implies exists|a: int| 0 <= a < r@.len() && (#[trigger] r@[a]).0 == id by {
                assert(self.entity_manager.kinds()[kind_index(self.entity_storage.entity(id).unwrap().kind())].contains(id));
                let a = choose|a: int| 0 <= a < ids@.len() && ids@[a] == id;
                assert(r@[a].0 == id);
            }
        }
        r
    }

    /// Whether a live hook entity owned by `owner` is out.
    pub open spec fn has_active_hook(&self, owner: u32) -> bool {
        exists|id: u32| {
            &&& #[trigger] self.entity_storage.entity(id).is_some()
            &&& self.entity_storage.entity(id).unwrap().is_hook()
            &&& self.entity_storage.entity(id).unwrap().hook_of().active()
            &&& self.entity_storage.entity(id).unwrap().hook_of().owner_id == owner
        }
    }

    /// Throws a new hook from `player_pos` along `direction`, unless the
    /// player already has one out or no identifier is left. Returns the new
    /// hook entity's identifier.
    pub fn launch_hook(&mut self, player_pos: Vec3, direction: Vec2) -> (r: Option<u32>)
        requires
            old(self).wf(),
            player_pos.in_world(),
            coord_ok(direction.x as int),
            coord_ok(direction.y as int),
        ensures
            final(self).wf(),
            final(self).inventory == old(self).inventory,
            final(self).player_id == old(self).player_id,
            final(self).spawn_system == old(self).spawn_system,
            final(self).wind == old(self).wind,
            final(self).game_mode == old(self).game_mode,
            old(self).has_active_hook(old(self).player_id) ==> r.is_none(),
            r.is_none() ==> final(self).entity_storage@ == old(self).entity_storage@,
            !old(self).has_active_hook(old(self).player_id) && old(self).entity_storage@.len() + 3 < u32::MAX
                ==> r.is_some(),
            r.is_some() ==> ({
                let id = r.unwrap();
                let e = final(self).entity_storage.entity(id).unwrap();
                let h = e.hook_of();
                &&& id == old(self).entity_storage@.len() + 1
                &&& final(self).entity_storage@.len() == id
                &&& final(self).entity_storage@.drop_last() == old(self).entity_storage@
                &&& final(self).entity_storage.entity(id).is_some()
                &&& e.is_hook()
                &&& e.id_of() == id
                &&& h.state == HookState::Extending
                &&& h.position == player_pos
                &&& h.length == 0
                &&& h.owner_id == old(self).player_id
                &&& h.attached_items@ == Seq::<u32>::empty()
                &&& Hook::aimed(direction, crate::hook::HOOK_SPEED as int, h.direction, h.velocity)
            }),
    {
        let hooks = self.entity_manager.get_entity_ids_by_type(EntityType::Hook);
        let mut i: usize = 0;
        while i < hooks.len()
            invariant
                i <= hooks@.len(),
                self.wf(),
                hooks@ == self.entity_manager.kinds()[kind_index(EntityType::Hook)],
                forall|a: int| 0 <= a < i ==> {
                    let e = self.entity_storage.entity(#[trigger] hooks@[a]);
                    !(e.is_some() && e.unwrap().is_hook() && e.unwrap().hook_of().active()
                        && e.unwrap().hook_of().owner_id == self.player_id)
                },
            decreases hooks@.len() - i,
        {
            match self.entity_manager.get_entity(&self.entity_storage, hooks[i]) {
                Some(Entity::Hook(he)) => {
                    if he.hook.is_active() && he.hook.owner_id == self.player_id {
                        return None;
                    }
                },
                _ => {},
            }
            i += 1;
        }
        proof {
            if self.has_active_hook(self.player_id) {
                let id = choose|id: u32| {
                    &&& #[trigger] self.entity_storage.entity(id).is_some()
                    &&& self.entity_storage.entity(id).unwrap().is_hook()
                    &&& self.entity_storage.entity(id).unwrap().hook_of().active()
                    &&& self.entity_storage.entity(id).unwrap().hook_of().owner_id == self.player_id
                };
                assert(self.entity_manager.kinds()[kind_index(self.entity_storage.entity(id).unwrap().kind())].contains(id));
                let a = choose|a: int| 0 <= a < hooks@.len() && hooks@[a] == id;
            }
        }
        if self.entity_storage.slot_count() >= (u32::MAX - 3) as usize {
            return None;
        }
        let mut he = HookEntity::new(0, self.player_id);
        he.hook.launch(player_pos, direction);
        he.player_pos = player_pos;
        let ghost e0 = Entity::Hook(he);
        let id = self.entity_manager.create_entity(&mut self.entity_storage, Entity::Hook(he));
        proof {
            assert(self.entity_storage@.drop_last() =~= old(self).entity_storage@);
            assert(self.entity_storage.entity(id) == Some(e0.with_id(id)));
        }
        Some(id)
    }

    /// Turns the live entity `id` into one unit in the inventory: a floating
    /// item as its own type, a fish as a caught fish. The entity leaves the
    /// world only if the inventory takes the unit. Returns whether it did.
    pub fn collect_one(&mut self, id: u32) -> (r: bool)
        requires
            old(self).wf(),
        ensures
            final(self).wf(),
            final(self).player_id == old(self).player_id,
            final(self).spawn_system == old(self).spawn_system,
            final(self).wind == old(self).wind,
            final(self).game_mode == old(self).game_mode,
            slots_grow(old(self).inventory.slots@, final(self).inventory.slots@),
            ({
                let o = old(self).entity_storage.entity(id);
                if o.is_some() && catch_material(o.unwrap()).is_some() {
                    let m = catch_material(o.unwrap()).unwrap();
                    &&& r == old(self).inventory.accepts(m, 1)
                    &&& r ==> final(self).entity_storage@ == old(self).entity_storage@.update(id - 1, None)
                    &&& r ==> final(self).inventory.count(m) == old(self).inventory.count(m) + 1
                    &&& r ==> forall|t: FloatingItemType| t != m ==> #[trigger] final(self).inventory.count(t)
                        == old(self).inventory.count(t)
                    &&& !r ==> final(self).entity_storage@ == old(self).entity_storage@
                    &&& !r ==> final(self).inventory.slots@ == old(self).inventory.slots@
                } else {
                    &&& !r
                    &&& final(self).entity_storage@ == old(self).entity_storage@
                    &&& final(self).inventory == old(self).inventory
                }
            }),
    {
        let material = match self.entity_manager.get_entity(&self.entity_storage, id) {
            Some(Entity::FloatingItem(fi)) => fi.item_type,
            Some(Entity::Fish(_)) => FloatingItemType::Fish,
            _ => {
                return false;
            },
        };
        if self.inventory.add_material(material, 1) {
            self.entity_manager.remove_entity(&mut self.entity_storage, id);
            proof {
                let w = choose|i: int| 0 <= i < old(self).inventory.slots@.len()
                    && #[trigger] old(self).inventory.slots@[i].accepts_some(material, 1);
                assert(old(self).inventory.slots@[w].takes(material, 1));
            }
            true
        } else {
            false
        }
    }

    /// Collects each of `ids` in turn, as [`GameManager::collect_one`] does.
    /// An entity either stays as it was or, being a floating item or a fish
    /// that went into the inventory, leaves the world.
    pub fn collect_items(&mut self, ids: &Vec<u32>)
        requires
            old(self).wf(),
        ensures
            final(self).wf(),
            final(self).player_id == old(self).player_id,
            final(self).spawn_system == old(self).spawn_system,
            final(self).wind == old(self).wind,
            final(self).game_mode == old(self).game_mode,
            final(self).entity_storage@.len() == old(self).entity_storage@.len(),
            forall|j: int| 0 <= j < old(self).entity_storage@.len() ==> {
                ||| #[trigger] final(self).entity_storage@[j] == old(self).entity_storage@[j]
                ||| final(self).entity_storage@[j].is_none() && ids@.contains((j + 1) as u32)
                    && old(self).entity_storage@[j].is_some() && catch_material(
                    old(self).entity_storage@[j].unwrap(),
                ).is_some()
            },
            slots_grow(old(self).inventory.slots@, final(self).inventory.slots@),
            forall|t: FloatingItemType| #[trigger] final(self).inventory.count(t) == old(self).inventory.count(t)
                + gone_of(old(self).entity_storage@, final(self).entity_storage@, t),
            forall|a: int| 0 <= a < ids@.len() ==> {
                let o = old(self).entity_storage.entity(#[trigger] ids@[a]);
                o.is_some() && catch_material(o.unwrap()).is_some() && final(self).entity_storage.entity(ids@[a]).is_some()
                    ==> !final(self).inventory.accepts(catch_material(o.unwrap()).unwrap(), 1)
            },
    {
        let ghost start = self.entity_storage@;
        proof {
            assert forall|m: FloatingItemType| #[trigger] self.inventory.count(m) == old(self).inventory.count(m)
                + gone_of(start, self.entity_storage@, m) by {
                lemma_gone_none(start, m);
            }
        }
        let mut t: usize = 0;
        while t < ids.len()
            invariant
                t <= ids@.len(),
                self.wf(),
                self.player_id == old(self).player_id,
                self.spawn_system == old(self).spawn_system,
                self.wind == old(self).wind,
                self.game_mode == old(self).game_mode,
                start == old(self).entity_storage@,
                self.entity_storage@.len() == start.len(),
                forall|j: int| 0 <= j < start.len() ==> {
                    ||| #[trigger] self.entity_storage@[j] == start[j]
                    ||| self.entity_storage@[j].is_none() && ids@.contains((j + 1) as u32) && start[j].is_some()
                        && catch_material(start[j].unwrap()).is_some()
                },
                slots_grow(old(self).inventory.slots@, self.inventory.slots@),
                forall|m: FloatingItemType| #[trigger] self.inventory.count(m) == old(self).inventory.count(m)
                    + gone_of(start, self.entity_storage@, m),
                forall|a: int| 0 <= a < t ==> {
                    let o = crate::store::lookup(start, #[trigger] ids@[a]);
                    o.is_some() && catch_material(o.unwrap()).is_some() && self.entity_storage.entity(ids@[a]).is_some()
                        ==> !self.inventory.accepts(catch_material(o.unwrap()).unwrap(), 1)
                },
            decreases ids@.len() - t,
        {
            let id = ids[t];
            let ghost before = self.entity_storage@;
            let ghost inv_before = self.inventory.slots@;
            let ghost before_store = self.entity_storage;
            let ghost inv_counts = self.inventory;
            self.collect_one(id);
            proof {
                assert forall|m: FloatingItemType| #[trigger] self.inventory.count(m) == old(self).inventory.count(m)
                    + gone_of(start, self.entity_storage@, m) by {
                    if self.entity_storage@ != before {
                        assert(before[id - 1] == start[id - 1]);
                        lemma_gone_one_more(start, before, id - 1, m);
                    } else {
                        assert(self.inventory.count(m) == inv_counts.count(m));
                    }
                }
            }
            proof {
                lemma_slots_grow_trans(old(self).inventory.slots@, inv_before, self.inventory.slots@);
                assert forall|a: int| 0 <= a < t + 1 implies {
                    let o = crate::store::lookup(start, #[trigger] ids@[a]);
                    o.is_some() && catch_material(o.unwrap()).is_some() && self.entity_storage.entity(ids@[a]).is_some()
                        ==> !self.inventory.accepts(catch_material(o.unwrap()).unwrap(), 1)
                } by {
                    let x = ids@[a];
                    let o = crate::store::lookup(start, x);
                    if o.is_some() && catch_material(o.unwrap()).is_some() && self.entity_storage.entity(x).is_some() {
                        let m = catch_material(o.unwrap()).unwrap();
                        assert(before_store.entity(x).is_some());
                        assert(before[x - 1] == start[x - 1]);
                        if a < t {
                            assert(!(exists|i: int| 0 <= i < inv_before.len() && #[trigger] inv_before[i].accepts_some(m, 1)));
                            lemma_refusal_persists(inv_before, self.inventory.slots@, m);
                        } else {
                            assert(x == id);
                        }
                    }
                }
            }
            proof {
                assert forall|j: int| 0 <= j < start.len() implies {
                    ||| #[trigger] self.entity_storage@[j] == start[j]
                    ||| self.entity_storage@[j].is_none() && ids@.contains((j + 1) as u32) && start[j].is_some()
                        && catch_material(start[j].unwrap()).is_some()
                } by {
                    if self.entity_storage@[j] != before[j] {
                        assert(j == id - 1);
                        assert(ids@[t as int] == id);
                        if before[j] != start[j] {
                            assert(before[j].is_none());
                        }
                    }
                }
            }
            t += 1;
        }
    }

    /// One frame of every hook: positions of floating items and fish are read
    /// first; then each hook moves, picks up and pins what it holds; hooks
    /// whose cycle completed leave the world; last, what they brought back is
    /// collected into the inventory. `seed` is the frame's random draw for
    /// catching fish.
    #[verifier::rlimit(100)]
    #[verifier::spinoff_prover]
    pub fn update_hooks(&mut self, player_pos: Vec3, delta_time: u32, seed: u64)
        requires
            old(self).wf(),
            player_pos.in_world(),
        ensures
            final(self).wf(),
            final(self).player_id == old(self).player_id,
            final(self).spawn_system == old(self).spawn_system,
            final(self).wind == old(self).wind,
            final(self).game_mode == old(self).game_mode,
            hook_pass(*old(self), *final(self), player_pos, delta_time, seed),
    {
        let items = self.snapshot_positions(EntityType::FloatingItem);
        let fish = self.snapshot_positions(EntityType::Fish);
        proof {
            lemma_snapshot(&self.entity_storage, items@, EntityType::FloatingItem);
            lemma_snapshot(&self.entity_storage, fish@, EntityType::Fish);
        }
        let hook_ids = self.entity_manager.get_entity_ids_by_type(EntityType::Hook);
        let mut finished: Vec<u32> = Vec::new();
        let mut collected: Vec<u32> = Vec::new();
        let n = self.entity_storage.slot_count();
        let mut t: usize = 0;
        while t < hook_ids.len()
            invariant
                t <= hook_ids@.len(),
                self.wf(),
                self.player_id == old(self).player_id,
                self.spawn_system == old(self).spawn_system,
                self.wind == old(self).wind,
                self.game_mode == old(self).game_mode,
                self.entity_storage@.len() == n,
                n == old(self).entity_storage@.len(),
                player_pos.in_world(),
                snapshot_ok(items@),
                snapshot_ok(fish@),
                forall|j: int| 0 <= j < n ==> (#[trigger] self.entity_storage@[j]).is_some() == old(self).entity_storage@[j].is_some(),
                forall|j: int| 0 <= j < n && (#[trigger] self.entity_storage@[j]).is_some() ==> {
                    &&& self.entity_storage@[j].unwrap().kind() == old(self).entity_storage@[j].unwrap().kind()
                    &&& self.entity_storage@[j].unwrap().is_hook() == old(self).entity_storage@[j].unwrap().is_hook()
                },
                forall|a: int| 0 <= a < finished@.len() ==> {
                    let x = #[trigger] finished@[a];
                    &&& 1 <= x <= n
                    &&& old(self).entity_storage@[x - 1].is_some()
                    &&& old(self).entity_storage@[x - 1].unwrap().is_hook()
                },
                old(self).wf(),
                hook_ids@ == old(self).entity_manager.kinds()[kind_index(EntityType::Hook)],
                hook_ids@.no_duplicates(),
                forall|a: int| t <= a < hook_ids@.len() ==> #[trigger] self.entity_storage.entity(hook_ids@[a])
                    == old(self).entity_storage.entity(hook_ids@[a]),
                forall|a: int| 0 <= a < t ==> {
                    let x = #[trigger] hook_ids@[a];
                    let h0 = old(self).entity_storage.entity(x).unwrap().hook_of();
                    let s1 = h0.state_after_update(delta_time as int, player_pos);
                    let done = h0.state == HookState::Retracting && s1 == HookState::Retracted;
                    &&& self.entity_storage.entity(x).is_some()
                    &&& self.entity_storage.entity(x).unwrap().is_hook()
                    &&& self.entity_storage.entity(x).unwrap().hook_of().state == s1
                    &&& finished@.contains(x) == done
                },
                forall|y: u32| #[trigger] finished@.contains(y) ==> exists|a: int| 0 <= a < t && hook_ids@[a] == y,
                snapshot_of(items@, old(self).entity_storage@, EntityType::FloatingItem),
                snapshot_of(fish@, old(self).entity_storage@, EntityType::Fish),
                self.inventory == old(self).inventory,
                forall|j: int| 0 <= j < n && (#[trigger] self.entity_storage@[j]).is_some()
                    ==> catch_material(self.entity_storage@[j].unwrap()) == catch_material(old(self).entity_storage@[j].unwrap()),
                forall|y: u32| #[trigger] collected@.contains(y) <==> exists|a: int| 0 <= a < t && completes(
                    old(self).entity_storage.entity(#[trigger] hook_ids@[a]).unwrap().hook_of(),
                    delta_time as int,
                    player_pos,
                ) && old(self).entity_storage.entity(hook_ids@[a]).unwrap().hook_of().attached_items@.contains(y),
                forall|a: int, y: u32| {
                    let x = hook_ids@[a];
                    &&& 0 <= a < t
                    &&& !completes(old(self).entity_storage.entity(x).unwrap().hook_of(), delta_time as int, player_pos)
                    &&& #[trigger] self.entity_storage.entity(hook_ids@[a]).unwrap().hook_of().attached_items@.contains(y)
                    &&& self.entity_storage.entity(y).is_some()
                    &&& !self.entity_storage.entity(y).unwrap().is_hook()
                    &&& forall|b: int| 0 <= b < t && b != a && !completes(
                        old(self).entity_storage.entity(#[trigger] hook_ids@[b]).unwrap().hook_of(),
                        delta_time as int,
                        player_pos,
                    ) ==> !self.entity_storage.entity(hook_ids@[b]).unwrap().hook_of().attached_items@.contains(y)
                } ==> {
                    &&& self.entity_storage.entity(y).unwrap().pos() == self.entity_storage.entity(hook_ids@[a]).unwrap().hook_of().position
                    &&& self.entity_storage.entity(y).unwrap().vel() == (Vec3 { x: 0, y: 0, z: 0 })
                },
                forall|a: int| 0 <= a < t ==> {
                    let x = #[trigger] hook_ids@[a];
                    let h0 = old(self).entity_storage.entity(x).unwrap().hook_of();
                    let h1 = self.entity_storage.entity(x).unwrap().hook_of();
                    !completes(h0, delta_time as int, player_pos) ==> {
                        &&& h0.update_motion(&h1, delta_time as int, player_pos, false)
                        &&& forall|y: u32| #[trigger] h1.attached_items@.contains(y) == caught_in(
                            h0.attached_items@,
                            h1.position,
                            old(self).entity_storage@,
                            seed,
                            y,
                        )
                    }
                },
            decreases hook_ids@.len() - t,
        {
            let ghost before = self.entity_storage@;
            let ghost before_store = self.entity_storage;
            let ghost before_finished = finished@;
            let x = hook_ids[t];
            proof {
                assert(old(self).entity_manager.kinds()[kind_index(EntityType::Hook)].contains(x));
                assert(before_store.entity(x) == old(self).entity_storage.entity(x));
                assert(before_store.entity(x).unwrap().is_hook());
                if finished@.contains(x) {
                    let a = choose|a: int| 0 <= a < t && hook_ids@[a] == x;
                }
            }
            let (done, out) = self.step_hook(x, player_pos, delta_time, &items, &fish, seed);
            proof {
                assert forall|j: int| 0 <= j < n implies (#[trigger] self.entity_storage@[j]).is_some() == before[j].is_some() && (self.entity_storage@[j].is_some() ==> {
                    &&& self.entity_storage@[j].unwrap().kind() == before[j].unwrap().kind()
                    &&& self.entity_storage@[j].unwrap().is_hook() == before[j].unwrap().is_hook()
                }) by {
                    if j == x - 1 {
                        assert(self.entity_storage.entity(x) == crate::store::lookup(self.entity_storage@, x));
                    }
                }
                assert forall|a: int| t < a < hook_ids@.len() implies #[trigger] self.entity_storage.entity(hook_ids@[a])
                    == old(self).entity_storage.entity(hook_ids@[a]) by {
                    let y = hook_ids@[a];
                    assert(y != x);
                    assert(old(self).entity_manager.kinds()[kind_index(EntityType::Hook)].contains(y));
                    assert(before_store.entity(y) == old(self).entity_storage.entity(y));
                    assert(self.entity_storage@[y - 1] == before[y - 1]);
                }
                assert forall|a: int| 0 <= a < t implies #[trigger] self.entity_storage.entity(hook_ids@[a])
                    == before_store.entity(hook_ids@[a]) by {
                    let y = hook_ids@[a];
                    assert(y != x);
                    assert(before_store.entity(y).unwrap().is_hook());
                    assert(self.entity_storage@[y - 1] == before[y - 1]);
                }
            }
            let ghost c0 = collected@;
            if done {
                finished.push(x);
                let mut k: usize = 0;
                while k < out.len()
                    invariant
                        k <= out@.len(),
                        collected@ == c0 + out@.take(k as int),
                    decreases out@.len() - k,
                {
                    proof {
                        assert(out@.take(k + 1) =~= out@.take(k as int).push(out@[k as int]));
                    }
                    collected.push(out[k]);
                    k += 1;
                }
                proof {
                    assert(out@.take(k as int) =~= out@);
                }
            }
            proof {
                let h0x = old(self).entity_storage.entity(x).unwrap().hook_of();
                assert(done == completes(h0x, delta_time as int, player_pos));
                if done {
                    assert(out@ == h0x.attached_items@);
                }
                assert forall|y: u32| #[trigger] collected@.contains(y) <==> exists|a: int| 0 <= a < t + 1 && completes(
                    old(self).entity_storage.entity(#[trigger] hook_ids@[a]).unwrap().hook_of(),
                    delta_time as int,
                    player_pos,
                ) && old(self).entity_storage.entity(hook_ids@[a]).unwrap().hook_of().attached_items@.contains(y) by {
                    if collected@.contains(y) {
                        let i = choose|i: int| 0 <= i < collected@.len() && collected@[i] == y;
                        if i < c0.len() {
                            assert(c0[i] == y);
                            assert(c0.contains(y));
                        } else {
                            assert(out@[i - c0.len()] == y);
                            assert(hook_ids@[t as int] == x);
                        }
                    }
                    if exists|a: int| 0 <= a < t + 1 && completes(
                        old(self).entity_storage.entity(#[trigger] hook_ids@[a]).unwrap().hook_of(),
                        delta_time as int,
                        player_pos,
                    ) && old(self).entity_storage.entity(hook_ids@[a]).unwrap().hook_of().attached_items@.contains(y) {
                        let a = choose|a: int| 0 <= a < t + 1 && completes(
                            old(self).entity_storage.entity(#[trigger] hook_ids@[a]).unwrap().hook_of(),
                            delta_time as int,
                            player_pos,
                        ) && old(self).entity_storage.entity(hook_ids@[a]).unwrap().hook_of().attached_items@.contains(y);
                        if a < t {
                            assert(c0.contains(y));
                            let i = choose|i: int| 0 <= i < c0.len() && c0[i] == y;
                            assert(collected@[i] == y);
                        } else {
                            assert(hook_ids@[a] == x);
                            let i = choose|i: int| 0 <= i < out@.len() && out@[i] == y;
                            assert(collected@[c0.len() + i] == y);
                        }
                    }
                }
                assert forall|j: int| 0 <= j < n && (#[trigger] self.entity_storage@[j]).is_some() implies
                    catch_material(self.entity_storage@[j].unwrap()) == catch_material(old(self).entity_storage@[j].unwrap()) by {
                    if j == x - 1 {
                        assert(self.entity_storage.entity(x) == crate::store::lookup(self.entity_storage@, x));
                        assert(before[j].unwrap().is_hook());
                    } else {
                        assert(before[j].is_some());
                    }
                }
            }
            proof {
                assert forall|y: u32| #[trigger] finished@.contains(y) implies exists|a: int| 0 <= a < t + 1 && hook_ids@[a] == y by {
                    if y != x {
                        assert(before_finished.contains(y)) by {
                            let b = choose|b: int| 0 <= b < finished@.len() && finished@[b] == y;
                            assert(before_finished[b] == y);
                        }
                    } else {
                        assert(hook_ids@[t as int] == y);
                    }
                }
                assert forall|a: int| 0 <= a < t + 1 implies {
                    let y = #[trigger] hook_ids@[a];
                    let h0 = old(self).entity_storage.entity(y).unwrap().hook_of();
                    let s1 = h0.state_after_update(delta_time as int, player_pos);
                    let dn = h0.state == HookState::Retracting && s1 == HookState::Retracted;
                    &&& self.entity_storage.entity(y).is_some()
                    &&& self.entity_storage.entity(y).unwrap().is_hook()
                    &&& self.entity_storage.entity(y).unwrap().hook_of().state == s1
                    &&& finished@.contains(y) == dn
                } by {
                    let y = hook_ids@[a];
                    if a < t {
                        assert(y != x);
                        if finished@.contains(y) {
                            let b = choose|b: int| 0 <= b < finished@.len() && finished@[b] == y;
                            if b < before_finished.len() {
                                assert(before_finished[b] == y);
                            }
                        }
                        if before_finished.contains(y) {
                            let b = choose|b: int| 0 <= b < before_finished.len() && before_finished[b] == y;
                            assert(finished@[b] == y);
                        }
                    } else {
                        let o = before_store.entity(x).unwrap();
                        assert(o.with_hook(self.entity_storage.entity(x).unwrap().hook_of()).hook_of()
                            == self.entity_storage.entity(x).unwrap().hook_of());
                        let h0 = old(self).entity_storage.entity(x).unwrap().hook_of();
                        let h1 = self.entity_storage.entity(x).unwrap().hook_of();
                        if !completes(h0, delta_time as int, player_pos) {
                            assert(!done);
                            assert forall|z: u32| #[trigger] h1.attached_items@.contains(z) == caught_in(
                                h0.attached_items@,
                                h1.position,
                                old(self).entity_storage@,
                                seed,
                                z,
                            ) by {
                                lemma_caught_from_snapshots(h0.attached_items@, h1.position, items@, fish@, old(self).entity_storage@, seed, z);
                            }
                        }
                        if done {
                            assert(finished@[finished@.len() - 1] == x);
                        } else {
                            assert(finished@ == before_finished);
                        }
                    }
                }
            }
            proof {
                assert forall|a: int, y: u32| {
                    let xa = hook_ids@[a];
                    &&& 0 <= a < t + 1
                    &&& !completes(old(self).entity_storage.entity(xa).unwrap().hook_of(), delta_time as int, player_pos)
                    &&& #[trigger] self.entity_storage.entity(hook_ids@[a]).unwrap().hook_of().attached_items@.contains(y)
                    &&& self.entity_storage.entity(y).is_some()
                    &&& !self.entity_storage.entity(y).unwrap().is_hook()
                    &&& forall|b: int| 0 <= b < t + 1 && b != a && !completes(
                        old(self).entity_storage.entity(#[trigger] hook_ids@[b]).unwrap().hook_of(),
                        delta_time as int,
                        player_pos,
                    ) ==> !self.entity_storage.entity(hook_ids@[b]).unwrap().hook_of().attached_items@.contains(y)
                } implies {
                    &&& self.entity_storage.entity(y).unwrap().pos() == self.entity_storage.entity(hook_ids@[a]).unwrap().hook_of().position
                    &&& self.entity_storage.entity(y).unwrap().vel() == (Vec3 { x: 0, y: 0, z: 0 })
                } by {
                    let j = y - 1;
                    assert(self.entity_storage.entity(y) == crate::store::lookup(self.entity_storage@, y));
                    assert(before[j].is_some() && !before[j].unwrap().is_hook());
                    if a < t {
                        let h0t = old(self).entity_storage.entity(x).unwrap().hook_of();
                        let h1t = self.entity_storage.entity(x).unwrap().hook_of();
                        if !completes(h0t, delta_time as int, player_pos) {
                            assert(hook_ids@[t as int] == x);
                            assert(!h1t.attached_items@.contains(y));
                        }
                        assert(j != x - 1);
                        assert(self.entity_storage@[j] == before[j]);
                        assert forall|b: int| 0 <= b < t && b != a && !completes(
                            old(self).entity_storage.entity(#[trigger] hook_ids@[b]).unwrap().hook_of(),
                            delta_time as int,
                            player_pos,
                        ) implies !before_store.entity(hook_ids@[b]).unwrap().hook_of().attached_items@.contains(y) by {
                            assert(self.entity_storage.entity(hook_ids@[b]) == before_store.entity(hook_ids@[b]));
                        }
                        assert(self.entity_storage.entity(hook_ids@[a]) == before_store.entity(hook_ids@[a]));
                    } else {
                        assert(hook_ids@[a] == x);
                        assert(!done);
                    }
                }
            }
            t += 1;
        }
        let ghost mid0 = self.entity_storage@;
        proof {
            assert forall|j: int| 0 <= j < n && (#[trigger] mid0[j]).is_some()
                implies catch_material(mid0[j].unwrap()) == catch_material(old(self).entity_storage@[j].unwrap()) by {
                assert(self.entity_storage@[j] == mid0[j]);
            }
        }
        let mut f: usize = 0;
        while f < finished.len()
            invariant
                f <= finished@.len(),
                self.wf(),
                self.player_id == old(self).player_id,
                self.spawn_system == old(self).spawn_system,
                self.wind == old(self).wind,
                self.game_mode == old(self).game_mode,
                self.entity_storage@.len() == n,
                n == old(self).entity_storage@.len(),
                forall|a: int| 0 <= a < finished@.len() ==> {
                    let x = #[trigger] finished@[a];
                    &&& 1 <= x <= n
                    &&& old(self).entity_storage@[x - 1].is_some()
                    &&& old(self).entity_storage@[x - 1].unwrap().is_hook()
                },
                hook_frame_outcome(old(self).entity_storage@, self.entity_storage@),
                mid0.len() == n,
                self.inventory == old(self).inventory,
                forall|j: int| 0 <= j < n && (#[trigger] mid0[j]).is_some()
                    ==> catch_material(mid0[j].unwrap()) == catch_material(old(self).entity_storage@[j].unwrap()),
                forall|j: int| 0 <= j < n ==> #[trigger] self.entity_storage@[j] == if finished@.take(f as int).contains((j + 1) as u32) {
                    None::<Entity>
                } else {
                    mid0[j]
                },
            decreases finished@.len() - f,
        {
            let ghost before = self.entity_storage@;
            let x = finished[f];
            self.entity_manager.remove_entity(&mut self.entity_storage, x);
            proof {
                let next = finished@.take(f + 1);
                let prev = finished@.take(f as int);
                assert(next =~= prev.push(x));
                assert forall|j: int| 0 <= j < n implies #[trigger] self.entity_storage@[j] == if next.contains((j + 1) as u32) {
                    None::<Entity>
                } else {
                    mid0[j]
                } by {
                    let y = (j + 1) as u32;
                    if next.contains(y) && y != x {
                        let b = choose|b: int| 0 <= b < next.len() && next[b] == y;
                        assert(prev[b] == y);
                    }
                    if prev.contains(y) {
                        let b = choose|b: int| 0 <= b < prev.len() && prev[b] == y;
                        assert(next[b] == y);
                    }
                    if y == x {
                        assert(next[f as int] == y);
                    } else {
                        assert(self.entity_storage@[j] == before[j]);
                    }
                }
            }
            proof {
                assert forall|j: int| 0 <= j < n && (#[trigger] self.entity_storage@[j]).is_some() implies {
                    &&& old(self).entity_storage@[j].is_some()
                    &&& self.entity_storage@[j].unwrap().kind() == old(self).entity_storage@[j].unwrap().kind()
                } by {
                    assert(self.entity_storage@[j] == before[j]);
                }
                assert forall|j: int| 0 <= j < n && (#[trigger] self.entity_storage@[j]).is_none() && old(self).entity_storage@[j].is_some() implies {
                    ||| old(self).entity_storage@[j].unwrap().is_hook()
                    ||| catch_material(old(self).entity_storage@[j].unwrap()).is_some()
                } by {
                    if j != x - 1 {
                        assert(self.entity_storage@[j] == before[j]);
                    } else {
                        assert(finished@[f as int] == x);
                    }
                }
            }
            f += 1;
        }
        let ghost mid = self.entity_storage@;
        let ghost mid_store = self.entity_storage;
        proof {
            assert(finished@.take(f as int) =~= finished@);
        }
        self.collect_items(&collected);
        proof {
            assert forall|m: FloatingItemType| #[trigger] self.inventory.count(m) == old(self).inventory.count(m)
                + gone_of(old(self).entity_storage@, self.entity_storage@, m) by {
                assert forall|j: int| 0 <= j < n implies ((#[trigger] old(self).entity_storage@[j]).is_some() && self.entity_storage@[j].is_none()
                    && catch_material(old(self).entity_storage@[j].unwrap()) == Some(m))
                    == (mid[j].is_some() && self.entity_storage@[j].is_none() && catch_material(mid[j].unwrap()) == Some(m)) by {
                    if mid[j].is_some() {
                        assert(mid[j] == mid0[j]) by {
                            if finished@.contains((j + 1) as u32) {
                                assert(finished@.take(f as int).contains((j + 1) as u32));
                            }
                        }
                    } else if old(self).entity_storage@[j].is_some() {
                        if mid0[j].is_some() {
                            assert(finished@.take(f as int).contains((j + 1) as u32));
                            let c = choose|c: int| 0 <= c < finished@.take(f as int).len() && finished@.take(f as int)[c] == (j + 1) as u32;
                            assert(finished@[c] == (j + 1) as u32);
                        }
                        assert(old(self).entity_storage@[j].unwrap().is_hook());
                    }
                }
                lemma_gone_same(old(self).entity_storage@, mid, self.entity_storage@, m);
            }
            assert forall|x: u32, y: u32| {
                &&& old(self).entity_storage.entity(x).is_some()
                &&& old(self).entity_storage.entity(x).unwrap().is_hook()
                &&& completes(old(self).entity_storage.entity(x).unwrap().hook_of(), delta_time as int, player_pos)
                &&& #[trigger] old(self).entity_storage.entity(x).unwrap().hook_of().attached_items@.contains(y)
                &&& old(self).entity_storage.entity(y).is_some()
                &&& catch_material(old(self).entity_storage.entity(y).unwrap()).is_some()
                &&& self.entity_storage.entity(y).is_some()
            } implies !self.inventory.accepts(catch_material(old(self).entity_storage.entity(y).unwrap()).unwrap(), 1) by {
                assert(old(self).entity_manager.kinds()[kind_index(old(self).entity_storage.entity(x).unwrap().kind())].contains(x));
                let a = choose|a: int| 0 <= a < hook_ids@.len() && hook_ids@[a] == x;
                assert(hook_ids@[a] == x);
                assert(collected@.contains(y));
                let c = choose|c: int| 0 <= c < collected@.len() && collected@[c] == y;
                assert(self.entity_storage.entity(y) == crate::store::lookup(self.entity_storage@, y));
                assert(mid_store.entity(y) == crate::store::lookup(mid, y));
                assert(self.entity_storage@[y - 1] == mid[y - 1] || self.entity_storage@[y - 1].is_none());
                assert(mid[y - 1] == mid0[y - 1]) by {
                    if finished@.contains(y) {
                        let d = choose|d: int| 0 <= d < finished@.len() && finished@[d] == y;
                        assert(old(self).entity_storage@[y - 1].unwrap().is_hook());
                        assert(finished@.take(f as int).contains(y));
                    }
                }
                assert(mid_store.entity(collected@[c]).is_some());
            }
            assert forall|x: u32| #[trigger] old(self).entity_storage.entity(x).is_some()
                && old(self).entity_storage.entity(x).unwrap().is_hook() implies hook_after_frame(
                old(self).entity_storage.entity(x).unwrap().hook_of(),
                self.entity_storage.entity(x),
                delta_time as int,
                player_pos,
            ) by {
                assert(old(self).entity_manager.kinds()[kind_index(old(self).entity_storage.entity(x).unwrap().kind())].contains(x));
                let a = choose|a: int| 0 <= a < hook_ids@.len() && hook_ids@[a] == x;
                assert(hook_ids@[a] == x);
                assert(crate::store::lookup(mid0, x) == crate::store::lookup(mid0, hook_ids@[a]));
                assert(self.entity_storage@[x - 1] == mid[x - 1] || catch_material(mid[x - 1].unwrap()).is_some());
            }
            assert forall|x: u32| #[trigger] old(self).entity_storage.entity(x).is_some()
                && old(self).entity_storage.entity(x).unwrap().is_hook()
                && !completes(old(self).entity_storage.entity(x).unwrap().hook_of(), delta_time as int, player_pos) implies {
                let h0 = old(self).entity_storage.entity(x).unwrap().hook_of();
                let h1 = self.entity_storage.entity(x).unwrap().hook_of();
                &&& h0.update_motion(&h1, delta_time as int, player_pos, false)
                &&& forall|y: u32| #[trigger] h1.attached_items@.contains(y) == caught_in(
                    h0.attached_items@,
                    h1.position,
                    old(self).entity_storage@,
                    seed,
                    y,
                )
            } by {
                assert(old(self).entity_manager.kinds()[kind_index(old(self).entity_storage.entity(x).unwrap().kind())].contains(x));
                let a = choose|a: int| 0 <= a < hook_ids@.len() && hook_ids@[a] == x;
                assert(hook_ids@[a] == x);
                assert(crate::store::lookup(mid0, x) == crate::store::lookup(mid0, hook_ids@[a]));
                assert(self.entity_storage@[x - 1] == mid[x - 1] || catch_material(mid[x - 1].unwrap()).is_some());
                assert(self.entity_storage@[x - 1] == mid0[x - 1]);
            }
            assert forall|x: u32, y: u32| {
                &&& old(self).entity_storage.entity(x).is_some()
                &&& old(self).entity_storage.entity(x).unwrap().is_hook()
                &&& !completes(old(self).entity_storage.entity(x).unwrap().hook_of(), delta_time as int, player_pos)
                &&& #[trigger] self.entity_storage.entity(x).unwrap().hook_of().attached_items@.contains(y)
                &&& self.entity_storage.entity(y).is_some()
                &&& !self.entity_storage.entity(y).unwrap().is_hook()
                &&& held_only_by(self.entity_storage@, x, y)
            } implies {
                &&& self.entity_storage.entity(y).unwrap().pos() == self.entity_storage.entity(x).unwrap().hook_of().position
                &&& self.entity_storage.entity(y).unwrap().vel() == (Vec3 { x: 0, y: 0, z: 0 })
            } by {
                assert(old(self).entity_manager.kinds()[kind_index(old(self).entity_storage.entity(x).unwrap().kind())].contains(x));
                let a = choose|a: int| 0 <= a < hook_ids@.len() && hook_ids@[a] == x;
                assert(self.entity_storage@[x - 1] == mid[x - 1] || catch_material(mid[x - 1].unwrap()).is_some());
                assert(self.entity_storage@[x - 1] == mid0[x - 1]);
                assert(self.entity_storage.entity(y) == crate::store::lookup(self.entity_storage@, y));
                assert(self.entity_storage@[y - 1] == mid[y - 1] || self.entity_storage@[y - 1].is_none());
                assert(mid[y - 1] == mid0[y - 1]) by {
                    if finished@.contains(y) {
                        let c = choose|c: int| 0 <= c < finished@.len() && finished@[c] == y;
                        assert(old(self).entity_storage@[y - 1].unwrap().is_hook());
                    }
                }
                assert forall|b: int| 0 <= b < hook_ids@.len() && b != a && !completes(
                    old(self).entity_storage.entity(#[trigger] hook_ids@[b]).unwrap().hook_of(),
                    delta_time as int,
                    player_pos,
                ) implies !crate::store::lookup(mid0, hook_ids@[b]).unwrap().hook_of().attached_items@.contains(y) by {
                    let z = hook_ids@[b];
                    assert(z != x);
                    assert(old(self).entity_manager.kinds()[kind_index(EntityType::Hook)].contains(z));
                    assert(self.entity_storage@[z - 1] == mid[z - 1] || catch_material(mid[z - 1].unwrap()).is_some());
                    assert(self.entity_storage@[z - 1] == mid0[z - 1]);
                    assert(crate::store::lookup(self.entity_storage@, z).is_some());
                }
                assert(crate::store::lookup(mid0, hook_ids@[a]).unwrap().hook_of().attached_items@.contains(y));
            }
        }
        proof {
            assert forall|j: int| 0 <= j < n && (#[trigger] self.entity_storage@[j]).is_some() implies {
                &&& old(self).entity_storage@[j].is_some()
                &&& self.entity_storage@[j].unwrap().kind() == old(self).entity_storage@[j].unwrap().kind()
            } by {
                assert(self.entity_storage@[j] == mid[j]);
            }
            assert forall|j: int| 0 <= j < n && (#[trigger] self.entity_storage@[j]).is_none() && old(self).entity_storage@[j].is_some() implies {
                ||| old(self).entity_storage@[j].unwrap().is_hook()
                ||| catch_material(old(self).entity_storage@[j].unwrap()).is_some()
            } by {
                if mid[j].is_some() {
                    assert(self.entity_storage@[j] != mid[j]);
                    assert(catch_material(mid[j].unwrap()).is_some());
                    assert(mid[j].unwrap().kind() == old(self).entity_storage@[j].unwrap().kind());
                }
            }
        }
        proof {
            assert(hook_pass(*old(self), *self, player_pos, delta_time, seed));
        }
    }

    /// Without a hook: collects every floating item within 20 units of the
    /// player, as far as the inventory takes them.
    pub fn handle_item_collection(&mut self, player_pos: Vec3, use_hook: bool)
        requires
            old(self).wf(),
            player_pos.in_world(),
        ensures
            final(self).wf(),
            use_hook ==> final(self).entity_storage@ == old(self).entity_storage@ && final(self).inventory == old(self).inventory,
            final(self).entity_storage@.len() == old(self).entity_storage@.len(),
            forall|j: int| 0 <= j < old(self).entity_storage@.len() ==> {
                ||| #[trigger] final(self).entity_storage@[j] == old(self).entity_storage@[j]
                ||| {
                    &&& final(self).entity_storage@[j].is_none()
                    &&& old(self).entity_storage@[j].is_some()
                    &&& old(self).entity_storage@[j].unwrap().kind() == EntityType::FloatingItem
                    &&& in_radius(old(self).entity_storage@[j].unwrap().pos(), player_pos, MANUAL_PICKUP_RADIUS as int)
                }
            },
            forall|t: FloatingItemType| #[trigger] final(self).inventory.count(t) == old(self).inventory.count(t)
                + gone_of(old(self).entity_storage@, final(self).entity_storage@, t),
            !use_hook ==> forall|x: u32| {
                let o = #[trigger] old(self).entity_storage.entity(x);
                &&& o.is_some()
                &&& o.unwrap().kind() == EntityType::FloatingItem
                &&& in_radius(o.unwrap().pos(), player_pos, MANUAL_PICKUP_RADIUS as int)
                &&& final(self).entity_storage.entity(x).is_some()
            } ==> !final(self).inventory.accepts(catch_material(old(self).entity_storage.entity(x).unwrap()).unwrap(), 1),
    {
        if use_hook {
            proof {
                assert forall|t: FloatingItemType| #[trigger] self.inventory.count(t) == old(self).inventory.count(t)
                    + gone_of(old(self).entity_storage@, self.entity_storage@, t) by {
                    lemma_gone_none(self.entity_storage@, t);
                }
            }
            return;
        }
        let near = self.entity_manager.get_entities_in_area(&self.entity_storage, &player_pos, MANUAL_PICKUP_RADIUS);
        let mut items: Vec<u32> = Vec::new();
        let mut i: usize = 0;
        while i < near.len()
            invariant
                i <= near@.len(),
                self.wf(),
                forall|id: u32| #[trigger] near@.contains(id) <==> {
                    &&& self.entity_storage.entity(id).is_some()
                    &&& in_radius(self.entity_storage.entity(id).unwrap().pos(), player_pos, MANUAL_PICKUP_RADIUS as int)
                },
                forall|a: int| 0 <= a < items@.len() ==> {
                    &&& self.entity_storage.entity(#[trigger] items@[a]).is_some()
                    &&& self.entity_storage.entity(items@[a]).unwrap().kind() == EntityType::FloatingItem
                    &&& in_radius(self.entity_storage.entity(items@[a]).unwrap().pos(), player_pos, MANUAL_PICKUP_RADIUS as int)
                },
                forall|b: int| 0 <= b < i ==> {
                    let e = self.entity_storage.entity(#[trigger] near@[b]);
                    e.is_some() && e.unwrap().kind() == EntityType::FloatingItem ==> items@.contains(near@[b])
                },
            decreases near@.len() - i,
        {
            proof {
                assert(near@.contains(near@[i as int]));
            }
            let ghost before_items = items@;
            match self.entity_manager.get_entity(&self.entity_storage, near[i]) {
                Some(Entity::FloatingItem(_)) => items.push(near[i]),
                _ => {},
            }
            proof {
                assert forall|b: int| 0 <= b < i + 1 implies {
                    let e = self.entity_storage.entity(#[trigger] near@[b]);
                    e.is_some() && e.unwrap().kind() == EntityType::FloatingItem ==> items@.contains(near@[b])
                } by {
                    let e = self.entity_storage.entity(near@[b]);
                    if e.is_some() && e.unwrap().kind() == EntityType::FloatingItem {
                        if b < i {
                            let a = choose|a: int| 0 <= a < before_items.len() && before_items[a] == near@[b];
                            assert(items@[a] == near@[b]);
                        } else {
                            assert(items@[items@.len() - 1] == near@[b]);
                        }
                    }
                }
            }
            i += 1;
        }
        let ghost before = self.entity_storage;
        self.collect_items(&items);
        proof {
            assert forall|x: u32| {
                let o = #[trigger] old(self).entity_storage.entity(x);
                &&& o.is_some()
                &&& o.unwrap().kind() == EntityType::FloatingItem
                &&& in_radius(o.unwrap().pos(), player_pos, MANUAL_PICKUP_RADIUS as int)
                &&& self.entity_storage.entity(x).is_some()
            } implies !self.inventory.accepts(catch_material(old(self).entity_storage.entity(x).unwrap()).unwrap(), 1) by {
                assert(near@.contains(x));
                let b = choose|b: int| 0 <= b < near@.len() && near@[b] == x;
                assert(items@.contains(near@[b]));
                let a = choose|a: int| 0 <= a < items@.len() && items@[a] == x;
                assert(items@[a] == x);
            }
            assert forall|j: int| 0 <= j < before@.len() && !(#[trigger] self.entity_storage@[j] == before@[j]) implies {
                &&& self.entity_storage@[j].is_none()
                &&& before@[j].is_some()
                &&& before@[j].unwrap().kind() == EntityType::FloatingItem
                &&& in_radius(before@[j].unwrap().pos(), player_pos, MANUAL_PICKUP_RADIUS as int)
            } by {
                let x = (j + 1) as u32;
                assert(items@.contains(x));
                let a = choose|a: int| 0 <= a < items@.len() && items@[a] == x;
                assert(before.entity(items@[a]).is_some());
            }
        }
    }

    /// The pin pass: moves every live entity of `ids` to `tip` and stops it;
    /// hook entities are left where their own hooks put them.
    pub fn pin_to(&mut self, ids: &Vec<u32>, tip: Vec3)
        requires
            old(self).wf(),
            tip.in_world(),
        ensures
            final(self).wf(),
            final(self).inventory == old(self).inventory,
            final(self).player_id == old(self).player_id,
            final(self).spawn_system == old(self).spawn_system,
            final(self).game_mode == old(self).game_mode,
            final(self).wind == old(self).wind,
            final(self).entity_storage@.len() == old(self).entity_storage@.len(),
            forall|j: int| 0 <= j < old(self).entity_storage@.len() ==> #[trigger] final(self).entity_storage@[j]
                == if ids@.contains((j + 1) as u32) && old(self).entity_storage@[j].is_some()
                && !old(self).entity_storage@[j].unwrap().is_hook() {
                Some(pinned(old(self).entity_storage@[j].unwrap(), tip))
            } else {
                old(self).entity_storage@[j]
            },
    {
        let ghost start = self.entity_storage@;
        proof {
            assert forall|m: FloatingItemType| #[trigger] self.inventory.count(m) == old(self).inventory.count(m)
                + gone_of(start, self.entity_storage@, m) by {
                lemma_gone_none(start, m);
            }
        }
        let mut t: usize = 0;
        while t < ids.len()
            invariant
                t <= ids@.len(),
                tip.in_world(),
                self.wf(),
                self.inventory == old(self).inventory,
                self.player_id == old(self).player_id,
                self.spawn_system == old(self).spawn_system,
                self.wind == old(self).wind,
                self.game_mode == old(self).game_mode,
                start == old(self).entity_storage@,
                self.entity_storage@.len() == start.len(),
                forall|j: int| 0 <= j < start.len() ==> #[trigger] self.entity_storage@[j]
                    == if ids@.take(t as int).contains((j + 1) as u32) && start[j].is_some() && !start[j].unwrap().is_hook() {
                    Some(pinned(start[j].unwrap(), tip))
                } else {
                    start[j]
                },
            decreases ids@.len() - t,
        {
            let id = ids[t];
            let ghost before = self.entity_storage@;
            let holds_hook = match self.entity_manager.get_entity(&self.entity_storage, id) {
                Some(Entity::Hook(_)) => true,
                _ => false,
            };
            if !holds_hook {
                self.entity_manager.update_entity_position(&mut self.entity_storage, id, tip);
                self.entity_manager.set_entity_velocity(&mut self.entity_storage, id, Vec3::zero());
            }
            proof {
                let next = ids@.take(t + 1);
                let prev = ids@.take(t as int);
                assert(next =~= prev.push(id));
                assert forall|j: int| 0 <= j < start.len() implies #[trigger] self.entity_storage@[j]
                    == if next.contains((j + 1) as u32) && start[j].is_some() && !start[j].unwrap().is_hook() {
                    Some(pinned(start[j].unwrap(), tip))
                } else {
                    start[j]
                } by {
                    let x = (j + 1) as u32;
                    if next.contains(x) && x != id {
                        let a = choose|a: int| 0 <= a < next.len() && next[a] == x;
                        assert(prev[a] == x);
                    }
                    if prev.contains(x) {
                        let a = choose|a: int| 0 <= a < prev.len() && prev[a] == x;
                        assert(next[a] == x);
                    }
                    if x == id {
                        assert(next[t as int] == x);
                    }
                }
            }
            t += 1;
        }
        proof {
            assert(ids@.take(t as int) =~= ids@);
        }
    }
}

} // verus!
