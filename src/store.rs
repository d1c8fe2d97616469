use vstd::prelude::*;
use crate::entity::{Entity, EntityType, KIND_COUNT, kind_index, kind_slot};
use crate::hook::Hook;
use crate::geometry::{Vec3, WORLD_LIMIT, in_radius};
use crate::spatial::{SpatialHash, without_id};

verus! {

/// The records of all live entities. Identifier `id` owns slot `id - 1`; a
/// slot is emptied when its entity leaves and is never filled again, so an
/// identifier never names a second entity.
pub struct EntityStorage {
    entities: Vec<Option<Entity>>,
}

impl EntityStorage {
    pub closed spec fn view(&self) -> Seq<Option<Entity>> {
        self.entities@
    }

    /// The live entity with identifier `id`, if any.
    pub open spec fn entity(&self, id: u32) -> Option<Entity> {
        lookup(self@, id)
    }

    pub fn new() -> (r: EntityStorage)
        ensures
            r@ == Seq::<Option<Entity>>::empty(),
    {
        EntityStorage { entities: Vec::new() }
    }

    /// Number of identifier slots handed out so far, live or not.
    pub fn slot_count(&self) -> (r: usize)
        ensures
            r == self@.len(),
    {
        self.entities.len()
    }
}

/// The indexes over an [`EntityStorage`]: identifiers by kind, and positions
/// by grid cell.
pub struct EntityManager {
    entity_types: Vec<Vec<u32>>,
    next_entity_id: u32,
    spatial_hash: SpatialHash,
}

/// Number of live records in `s`.
pub open spec fn live_count(s: Seq<Option<Entity>>) -> nat
    decreases s.len(),
{
    if s.len() == 0 {
        0
    } else {
        live_count(s.drop_last()) + if s.last().is_some() { 1nat } else { 0nat }
    }
}

/// The record of identifier `id` in slots `s`.
pub open spec fn lookup(s: Seq<Option<Entity>>, id: u32) -> Option<Entity> {
    if 1 <= id <= s.len() {
        s[id - 1]
    } else {
        None
    }
}

/// An entity filed by `create_entity` is found under its identifier; each
/// frame it is found advanced by its kind's rule, until its removal rule
/// holds or `remove_entity` takes it out; from then on it is never found
/// again, whatever is created, removed or advanced later.
pub proof fn lemma_entity_lifecycle(s: Seq<Option<Entity>>, e: Entity, id: u32, other: u32, dt: u32)
    requires
        1 <= id,
    ensures
        s.len() + 1 == id ==> lookup(s.push(Some(e)), id) == Some(e),
        lookup(after_frame(s, dt), id) == frame_slot(lookup(s, id), dt),
        lookup(s, id).is_some() ==> lookup(s.update(id - 1, None), id).is_none(),
        other != id && 1 <= other <= s.len() ==> lookup(s.update(other - 1, None), id) == lookup(s, id),
        id <= s.len() && lookup(s, id).is_none() ==> {
            &&& lookup(s.push(Some(e)), id).is_none()
            &&& lookup(after_frame(s, dt), id).is_none()
            &&& 1 <= other <= s.len() ==> lookup(s.update(other - 1, None), id).is_none()
        },
{
}

/// A record after one frame of `dt` milliseconds: advanced by its kind's
/// rule, then gone if its kind's removal rule now holds.
pub open spec fn frame_slot(o: Option<Entity>, dt: u32) -> Option<Entity> {
    match o {
        Some(e) => if e.advanced(dt).removal_due() {
            None
        } else {
            Some(e.advanced(dt))
        },
        None => None,
    }
}

/// All records after one frame of `dt` milliseconds.
pub open spec fn after_frame(s: Seq<Option<Entity>>, dt: u32) -> Seq<Option<Entity>> {
    Seq::new(s.len(), |i: int| frame_slot(s[i], dt))
}

/// Slot `i` of the records and slot `i` of the position cache agree.
pub open spec fn slot_ok(e: Option<Entity>, p: Option<Vec3>, i: int) -> bool {
    match e {
        Some(x) => x.id_of() == i + 1 && x.wf() && p == Some(x.pos()),
        None => p.is_none(),
    }
}

impl EntityManager {
    /// The identifiers filed under each kind, in the order of `kind_index`.
    pub closed spec fn kinds(&self) -> Seq<Seq<u32>> {
        Seq::new(self.entity_types@.len(), |k: int| self.entity_types@[k]@)
    }

    /// The cached position of each identifier's slot.
    pub closed spec fn cache(&self) -> Seq<Option<Vec3>> {
        self.spatial_hash@
    }

    pub closed spec fn next_id(&self) -> u32 {
        self.next_entity_id
    }

    pub closed spec fn index_ok(&self) -> bool {
        self.spatial_hash.wf()
    }

    /// The indexes describe exactly the live records of `storage`.
    pub open spec fn consistent(&self, storage: &EntityStorage) -> bool {
        &&& self.index_ok()
        &&& self.cache().len() == storage@.len()
        &&& self.next_id() == storage@.len() + 1
        &&& storage@.len() + 1 < u32::MAX
        &&& forall|i: int| 0 <= i < storage@.len() ==> slot_ok(#[trigger] storage@[i], self.cache()[i], i)
        &&& self.kinds().len() == KIND_COUNT
        &&& forall|k: int| 0 <= k < KIND_COUNT ==> (#[trigger] self.kinds()[k]).no_duplicates()
        &&& forall|k: int, id: u32| 0 <= k < KIND_COUNT && #[trigger] self.kinds()[k].contains(id) ==> {
            &&& storage.entity(id).is_some()
            &&& kind_index(storage.entity(id).unwrap().kind()) == k
        }
        &&& forall|id: u32| #[trigger] storage.entity(id).is_some() ==> self.kinds()[kind_index(storage.entity(id).unwrap().kind())].contains(id)
    }

    /// Indexes over no entity.
    pub fn new() -> (r: EntityManager)
        ensures
            forall|s: EntityStorage| s@.len() == 0 ==> r.consistent(&s),
    {
        let mut types: Vec<Vec<u32>> = Vec::new();
        let mut k: usize = 0;
        while k < KIND_COUNT
            invariant
                k <= KIND_COUNT,
                types@.len() == k,
                forall|j: int| 0 <= j < k ==> (#[trigger] types@[j])@ == Seq::<u32>::empty(),
            decreases KIND_COUNT - k,
        {
            types.push(Vec::new());
            k += 1;
        }
        let r = EntityManager { entity_types: types, next_entity_id: 1, spatial_hash: SpatialHash::new() };
        proof {
            assert forall|k: int| 0 <= k < KIND_COUNT implies #[trigger] r.kinds()[k] == Seq::<u32>::empty() by {}
        }
        r
    }

    /// Replacing one live record by one of the same identifier and kind, with
    /// the cache following its position, keeps the indexes consistent.
    proof fn lemma_replace_same_kind(
        old_m: &EntityManager,
        new_m: &EntityManager,
        old_s: &EntityStorage,
        new_s: &EntityStorage,
        i: int,
        e: Entity,
    )
        requires
            old_m.consistent(old_s),
            0 <= i < old_s@.len(),
            old_s@[i].is_some(),
            e.id_of() == i + 1,
            e.wf(),
            e.kind() == old_s@[i].unwrap().kind(),
            new_s@ == old_s@.update(i, Some(e)),
            new_m.index_ok(),
            new_m.cache() == old_m.cache().update(i, Some(e.pos())),
            new_m.kinds() == old_m.kinds(),
            new_m.next_id() == old_m.next_id(),
        ensures
            new_m.consistent(new_s),
    {
        assert forall|j: int| 0 <= j < new_s@.len() implies slot_ok(#[trigger] new_s@[j], new_m.cache()[j], j) by {
            if j != i {
                assert(new_s@[j] == old_s@[j]);
            }
        }
        assert forall|k: int, id: u32| 0 <= k < KIND_COUNT && #[trigger] new_m.kinds()[k].contains(id) implies {
            &&& new_s.entity(id).is_some()
            &&& kind_index(new_s.entity(id).unwrap().kind()) == k
        } by {
            assert(old_m.kinds()[k].contains(id));
        }
        assert forall|id: u32| #[trigger] new_s.entity(id).is_some() implies new_m.kinds()[kind_index(new_s.entity(id).unwrap().kind())].contains(id) by {
            assert(old_s.entity(id).is_some());
        }
    }

    /// The live entity `entity_id`, if any.
    pub fn get_entity<'a>(&self, storage: &'a EntityStorage, entity_id: u32) -> (r: Option<&'a Entity>)
        ensures
            r.is_some() == storage.entity(entity_id).is_some(),
            r.is_some() ==> *r.unwrap() == storage.entity(entity_id).unwrap(),
    {
        if entity_id == 0 || entity_id as usize > storage.entities.len() {
            return None;
        }
        match &storage.entities[(entity_id - 1) as usize] {
            Some(e) => Some(e),
            None => None,
        }
    }

    /// The live entities of kind `entity_type`, in the order of its index.
    pub fn get_entities_by_type<'a>(&self, storage: &'a EntityStorage, entity_type: EntityType) -> (r: Vec<&'a Entity>)
        requires
            self.consistent(storage),
        ensures
            r@.len() == self.kinds()[kind_index(entity_type)].len(),
            forall|i: int| 0 <= i < r@.len() ==> Some(*#[trigger] r@[i]) == storage.entity(self.kinds()[kind_index(entity_type)][i]),
    {
        let ids = self.get_entity_ids_by_type(entity_type);
        let mut r: Vec<&'a Entity> = Vec::new();
        let mut i: usize = 0;
        while i < ids.len()
            invariant
                i <= ids@.len(),
                self.consistent(storage),
                ids@ == self.kinds()[kind_index(entity_type)],
                r@.len() == i,
                forall|j: int| 0 <= j < i ==> Some(*#[trigger] r@[j]) == storage.entity(ids@[j]),
            decreases ids@.len() - i,
        {
            proof {
                assert(self.kinds()[kind_index(entity_type)].contains(ids@[i as int]));
            }
            match self.get_entity(storage, ids[i]) {
                Some(e) => r.push(e),
                None => {
                    return r;
                },
            }
            i += 1;
        }
        r
    }

    /// All live entities, in increasing order of identifier.
    pub fn get_all_entities<'a>(&self, storage: &'a EntityStorage) -> (r: Vec<&'a Entity>)
        ensures
            r@.len() == live_count(storage@),
            forall|i: int| 0 <= i < r@.len() ==> storage@.contains(Some(*#[trigger] r@[i])),
    {
        let mut r: Vec<&'a Entity> = Vec::new();
        let mut i: usize = 0;
        while i < storage.entities.len()
            invariant
                i <= storage@.len(),
                r@.len() == live_count(storage@.take(i as int)),
                forall|j: int| 0 <= j < r@.len() ==> storage@.contains(Some(*#[trigger] r@[j])),
            decreases storage@.len() - i,
        {
            proof {
                assert(storage@.take(i + 1).drop_last() =~= storage@.take(i as int));
            }
            match &storage.entities[i] {
                Some(e) => {
                    proof {
                        assert(storage@[i as int] == Some(*e));
                    }
                    r.push(e);
                },
                None => {},
            }
            i += 1;
        }
        proof {
            assert(storage@.take(i as int) =~= storage@);
        }
        r
    }

    /// A snapshot of the identifiers of kind `entity_type`; the caller may
    /// change entities one by one while walking it.
    pub fn get_entity_ids_by_type(&self, entity_type: EntityType) -> (r: Vec<u32>)
        requires
            self.kinds().len() == KIND_COUNT,
        ensures
            r@ == self.kinds()[kind_index(entity_type)],
    {
        let r = self.entity_types[kind_slot(entity_type)].clone();
        proof {
            assert(r@ =~= self.kinds()[kind_index(entity_type)]);
        }
        r
    }

    /// Number of live entities of kind `entity_type`.
    pub fn get_entity_count(&self, entity_type: EntityType) -> (r: usize)
        requires
            self.kinds().len() == KIND_COUNT,
        ensures
            r == self.kinds()[kind_index(entity_type)].len(),
    {
        self.entity_types[kind_slot(entity_type)].len()
    }

    /// Identifiers of all live entities, in increasing order.
    pub fn get_all_entity_ids(&self, storage: &EntityStorage) -> (r: Vec<u32>)
        requires
            self.consistent(storage),
        ensures
            r@.no_duplicates(),
            forall|id: u32| #[trigger] r@.contains(id) <==> storage.entity(id).is_some(),
    {
        let mut r: Vec<u32> = Vec::new();
        let n = storage.entities.len();
        let mut i: usize = 0;
        while i < n
            invariant
                n == storage@.len(),
                n + 1 < u32::MAX,
                i <= n,
                forall|a: int| 0 <= a < r@.len() ==> 1 <= #[trigger] r@[a] <= i,
                forall|a: int, b: int| 0 <= a < b < r@.len() ==> r@[a] < r@[b],
                forall|id: u32| #[trigger] r@.contains(id) <==> (id <= i && storage.entity(id).is_some()),
            decreases n - i,
        {
            let ghost before = r@;
            if storage.entities[i].is_some() {
                r.push((i + 1) as u32);
            }
            proof {
                assert forall|id: u32| #[trigger] r@.contains(id) <==> (id <= i + 1 && storage.entity(id).is_some()) by {
                    if r@.contains(id) && id != i + 1 {
                        let a = choose|a: int| 0 <= a < r@.len() && r@[a] == id;
                        assert(before[a] == id);
                        assert(before.contains(id));
                    }
                    if id <= i + 1 && storage.entity(id).is_some() {
                        if id == i + 1 {
                            assert(r@[r@.len() - 1] == id);
                        } else {
                            assert(before.contains(id));
                            let a = choose|a: int| 0 <= a < before.len() && before[a] == id;
                            assert(r@[a] == id);
                        }
                    }
                }
            }
            i += 1;
        }
        r
    }

    /// Number of live entities.
    pub fn get_total_entity_count(&self, storage: &EntityStorage) -> (r: usize)
        ensures
            r == live_count(storage@),
    {
        let mut c: usize = 0;
        let mut i: usize = 0;
        while i < storage.entities.len()
            invariant
                i <= storage@.len(),
                c == live_count(storage@.take(i as int)),
                c <= i,
            decreases storage@.len() - i,
        {
            proof {
                assert(storage@.take(i + 1).drop_last() =~= storage@.take(i as int));
            }
            if storage.entities[i].is_some() {
                c += 1;
            }
            i += 1;
        }
        proof {
            assert(storage@.take(i as int) =~= storage@);
        }
        c
    }

    /// The live entities within Euclidean distance `radius` of `center`, each once.
    pub fn get_entities_in_area(&self, storage: &EntityStorage, center: &Vec3, radius: i64) -> (r: Vec<u32>)
        requires
            self.consistent(storage),
            center.in_world(),
            0 <= radius <= WORLD_LIMIT,
        ensures
            r@.no_duplicates(),
            forall|id: u32| #[trigger] r@.contains(id) <==> {
                &&& storage.entity(id).is_some()
                &&& in_radius(storage.entity(id).unwrap().pos(), *center, radius as int)
            },
    {
        let r = self.spatial_hash.query_area(center, radius);
        proof {
            assert forall|id: u32| #[trigger] r@.contains(id) <==> {
                &&& storage.entity(id).is_some()
                &&& in_radius(storage.entity(id).unwrap().pos(), *center, radius as int)
            } by {
                if 1 <= id <= storage@.len() {
                    assert(slot_ok(storage@[id - 1], self.cache()[id - 1], id - 1));
                }
            }
        }
        r
    }

    /// Same as [`EntityManager::get_entities_in_area`].
    pub fn get_entities_near(&self, storage: &EntityStorage, position: &Vec3, max_distance: i64) -> (r: Vec<u32>)
        requires
            self.consistent(storage),
            position.in_world(),
            0 <= max_distance <= WORLD_LIMIT,
        ensures
            r@.no_duplicates(),
            forall|id: u32| #[trigger] r@.contains(id) <==> {
                &&& storage.entity(id).is_some()
                &&& in_radius(storage.entity(id).unwrap().pos(), *position, max_distance as int)
            },
    {
        self.get_entities_in_area(storage, position, max_distance)
    }

    /// Moves the live entity `entity_id` to `new_position`, in its record and
    /// in the grid together. Nothing changes when no such entity is live.
    pub fn update_entity_position(&mut self, storage: &mut EntityStorage, entity_id: u32, new_position: Vec3)
        requires
            old(self).consistent(old(storage)),
            new_position.in_world(),
        ensures
            final(self).consistent(final(storage)),
            old(storage).entity(entity_id).is_some() ==> final(storage)@ == old(storage)@.update(
                entity_id - 1,
                Some(old(storage).entity(entity_id).unwrap().with_pos(new_position)),
            ),
            old(storage).entity(entity_id).is_none() ==> final(storage)@ == old(storage)@,
    {
        if entity_id == 0 || entity_id as usize > storage.entities.len() {
            return;
        }
        let i = (entity_id - 1) as usize;
        let mut slot: Option<Entity> = None;
        std::mem::swap(&mut slot, &mut storage.entities[i]);
        match slot {
            Some(mut e) => {
                e.set_world_position(new_position);
                storage.entities.set(i, Some(e));
                self.spatial_hash.update(entity_id, new_position);
                proof {
                    assert(storage@ =~= old(storage)@.update(i as int, Some(e)));
                    Self::lemma_replace_same_kind(old(self), self, old(storage), storage, i as int, e);
                }
            },
            None => {
                storage.entities.set(i, None);
                proof {
                    assert(storage@ =~= old(storage)@);
                    assert forall|id: u32| #[trigger] storage.entity(id) == old(storage).entity(id) by {}
                }
            },
        }
    }

    /// Sets the velocity of the live entity `entity_id`. Nothing changes when
    /// no such entity is live.
    pub fn set_entity_velocity(&mut self, storage: &mut EntityStorage, entity_id: u32, velocity: Vec3)
        requires
            old(self).consistent(old(storage)),
            velocity.within_speed(),
        ensures
            final(self).consistent(final(storage)),
            old(storage).entity(entity_id).is_some() ==> final(storage)@ == old(storage)@.update(
                entity_id - 1,
                Some(old(storage).entity(entity_id).unwrap().with_vel(velocity)),
            ),
            old(storage).entity(entity_id).is_none() ==> final(storage)@ == old(storage)@,
    {
        if entity_id == 0 || entity_id as usize > storage.entities.len() {
            return;
        }
        let i = (entity_id - 1) as usize;
        let mut slot: Option<Entity> = None;
        std::mem::swap(&mut slot, &mut storage.entities[i]);
        match slot {
            Some(mut e) => {
                e.set_velocity(velocity);
                storage.entities.set(i, Some(e));
                proof {
                    assert(slot_ok(old(storage)@[i as int], old(self).cache()[i as int], i as int));
                    assert(self.cache() =~= old(self).cache().update(i as int, Some(e.pos())));
                    assert(storage@ =~= old(storage)@.update(i as int, Some(e)));
                    Self::lemma_replace_same_kind(old(self), self, old(storage), storage, i as int, e);
                }
            },
            None => {
                storage.entities.set(i, None);
                proof {
                    assert(storage@ =~= old(storage)@);
                    assert forall|id: u32| #[trigger] storage.entity(id) == old(storage).entity(id) by {}
                }
            },
        }
    }

    /// Exchanges the hook inside the live hook entity `entity_id` with
    /// `hook`, and files the entity where its new hook is. Returns false,
    /// changing nothing, when `entity_id` is not a live hook entity.
    pub fn swap_hook(&mut self, storage: &mut EntityStorage, entity_id: u32, hook: &mut Hook) -> (r: bool)
        requires
            old(self).consistent(old(storage)),
            old(hook).wf(),
        ensures
            final(self).consistent(final(storage)),
            r == (old(storage).entity(entity_id).is_some() && old(storage).entity(entity_id).unwrap().is_hook()),
            r ==> final(storage)@ == old(storage)@.update(
                entity_id - 1,
                Some(old(storage).entity(entity_id).unwrap().with_hook(*old(hook))),
            ),
            r ==> *final(hook) == old(storage).entity(entity_id).unwrap().hook_of(),
            !r ==> final(storage)@ == old(storage)@,
            !r ==> *final(hook) == *old(hook),
    {
        if entity_id == 0 || entity_id as usize > storage.entities.len() {
            return false;
        }
        let i = (entity_id - 1) as usize;
        let mut slot: Option<Entity> = None;
        std::mem::swap(&mut slot, &mut storage.entities[i]);
        match slot {
            Some(Entity::Hook(mut he)) => {
                std::mem::swap(&mut he.hook, hook);
                let p = he.hook.position;
                let e = Entity::Hook(he);
                storage.entities.set(i, Some(e));
                self.spatial_hash.update(entity_id, p);
                proof {
                    assert(storage@ =~= old(storage)@.update(i as int, Some(e)));
                    Self::lemma_replace_same_kind(old(self), self, old(storage), storage, i as int, e);
                }
                true
            },
            other => {
                storage.entities.set(i, other);
                proof {
                    assert(storage@ =~= old(storage)@);
                    assert forall|id: u32| #[trigger] storage.entity(id) == old(storage).entity(id) by {}
                }
                false
            },
        }
    }

    /// Advances every live entity by `delta_time` milliseconds, then removes
    /// every entity whose kind's removal rule holds. No entity is removed
    /// before all have been advanced.
    pub fn update_entities(&mut self, storage: &mut EntityStorage, delta_time: u32)
        requires
            old(self).consistent(old(storage)),
        ensures
            final(self).consistent(final(storage)),
            final(storage)@ == after_frame(old(storage)@, delta_time),
    {
        let n = storage.entities.len();
        let ghost start = storage@;
        let mut doomed: Vec<u32> = Vec::new();
        let mut i: usize = 0;
        while i < n
            invariant
                n == storage@.len(),
                n == start.len(),
                i <= n,
                start == old(storage)@,
                self.consistent(storage),
                forall|j: int| 0 <= j < i ==> #[trigger] storage@[j] == match start[j] {
                    Some(e) => Some(e.advanced(delta_time)),
                    None => None::<Entity>,
                },
                forall|j: int| i <= j < n ==> #[trigger] storage@[j] == start[j],
                forall|a: int, b: int| 0 <= a < b < doomed@.len() ==> doomed@[a] < doomed@[b],
                forall|a: int| 0 <= a < doomed@.len() ==> 1 <= #[trigger] doomed@[a] <= i,
                forall|id: u32| #[trigger] doomed@.contains(id) <==> (1 <= id <= i && start[id - 1].is_some()
                    && start[id - 1].unwrap().advanced(delta_time).removal_due()),
            decreases n - i,
        {
            let ghost before = *storage;
            let ghost before_m = *self;
            let ghost before_d = doomed@;
            let mut slot: Option<Entity> = None;
            std::mem::swap(&mut slot, &mut storage.entities[i]);
            match slot {
                Some(mut e) => {
                    proof {
                        assert(slot_ok(before@[i as int], before_m.cache()[i as int], i as int));
                    }
                    e.update(delta_time);
                    let p = e.get_world_position();
                    let gone = e.should_remove();
                    let id = (i + 1) as u32;
                    storage.entities.set(i, Some(e));
                    self.spatial_hash.update(id, p);
                    proof {
                        assert(storage@ =~= before@.update(i as int, Some(e)));
                        Self::lemma_replace_same_kind(&before_m, self, &before, storage, i as int, e);
                    }
                    if gone {
                        doomed.push(id);
                    }
                },
                None => {
                    storage.entities.set(i, None);
                    proof {
                        assert(storage@ =~= before@);
                        assert forall|id: u32| #[trigger] storage.entity(id) == before.entity(id) by {}
                    }
                },
            }
            proof {
                assert forall|id: u32| #[trigger] doomed@.contains(id) <==> (1 <= id <= i + 1 && start[id - 1].is_some()
                    && start[id - 1].unwrap().advanced(delta_time).removal_due()) by {
                    if doomed@.contains(id) && id != i + 1 {
                        let a = choose|a: int| 0 <= a < doomed@.len() && doomed@[a] == id;
                        assert(before_d[a] == id);
                        assert(before_d.contains(id));
                    }
                    if 1 <= id <= i && start[id - 1].is_some() && start[id - 1].unwrap().advanced(delta_time).removal_due() {
                        assert(before_d.contains(id));
                        let a = choose|a: int| 0 <= a < before_d.len() && before_d[a] == id;
                        assert(doomed@[a] == id);
                    }
                    if id == i + 1 && doomed@.contains(id) && doomed@.len() == before_d.len() {
                        let a = choose|a: int| 0 <= a < doomed@.len() && doomed@[a] == id;
                        assert(before_d[a] == id);
                    }
                    if id == i + 1 && start[id - 1].is_some() && start[id - 1].unwrap().advanced(delta_time).removal_due() {
                        assert(doomed@[doomed@.len() - 1] == id);
                    }
                }
            }
            i += 1;
        }
        let ghost mid = storage@;
        let m = doomed.len();
        let mut t: usize = 0;
        while t < m
            invariant
                m == doomed@.len(),
                t <= m,
                n == storage@.len(),
                n == start.len(),
                n == mid.len(),
                start == old(storage)@,
                self.consistent(storage),
                forall|j: int| 0 <= j < n ==> #[trigger] mid[j] == match start[j] {
                    Some(e) => Some(e.advanced(delta_time)),
                    None => None::<Entity>,
                },
                forall|id: u32| #[trigger] doomed@.contains(id) <==> (1 <= id <= n && start[id - 1].is_some()
                    && start[id - 1].unwrap().advanced(delta_time).removal_due()),
                forall|j: int| 0 <= j < n ==> #[trigger] storage@[j] == if doomed@.take(t as int).contains((j + 1) as u32) {
                    None::<Entity>
                } else {
                    mid[j]
                },
            decreases m - t,
        {
            let id = doomed[t];
            let ghost before = storage@;
            proof {
                assert(doomed@.contains(id));
            }
            self.remove_entity(storage, id);
            proof {
                assert(doomed@.take(t + 1) =~= doomed@.take(t as int).push(id));
                assert forall|j: int| 0 <= j < n implies #[trigger] storage@[j] == if doomed@.take(t + 1).contains((j + 1) as u32) {
                    None::<Entity>
                } else {
                    mid[j]
                } by {
                    if j == id - 1 {
                        assert(doomed@.take(t + 1)[t as int] == id);
                    } else {
                        assert(storage@[j] == before[j]);
                        let next = doomed@.take(t + 1);
                        let prev = doomed@.take(t as int);
                        let x = (j + 1) as u32;
                        if next.contains(x) {
                            let a = choose|a: int| 0 <= a < next.len() && next[a] == x;
                            assert(prev[a] == x);
                        }
                        if prev.contains(x) {
                            let a = choose|a: int| 0 <= a < prev.len() && prev[a] == x;
                            assert(next[a] == x);
                        }
                    }
                }
            }
            t += 1;
        }
        proof {
            assert(doomed@.take(m as int) =~= doomed@);
            assert(storage@ =~= after_frame(start, delta_time)) by {
                assert forall|j: int| 0 <= j < n implies #[trigger] storage@[j] == after_frame(start, delta_time)[j] by {
                    if doomed@.contains((j + 1) as u32) {
                    } else {
                        if start[j].is_some() && start[j].unwrap().advanced(delta_time).removal_due() {
                            assert(doomed@.contains((j + 1) as u32));
                        }
                    }
                }
            }
        }
    }

    /// Removes every entity. Identifiers already handed out stay unused.
    pub fn clear_all_entities(&mut self, storage: &mut EntityStorage)
        requires
            old(self).consistent(old(storage)),
        ensures
            final(self).consistent(final(storage)),
            final(storage)@ == Seq::new(old(storage)@.len(), |i: int| None::<Entity>),
    {
        let n = storage.entities.len();
        let mut i: usize = 0;
        while i < n
            invariant
                n == storage@.len(),
                n == old(storage)@.len(),
                i <= n,
                *self == *old(self),
                old(self).consistent(old(storage)),
                forall|j: int| 0 <= j < i ==> (#[trigger] storage@[j]).is_none(),
            decreases n - i,
        {
            storage.entities.set(i, None);
            i += 1;
        }
        let mut k: usize = 0;
        while k < KIND_COUNT
            invariant
                k <= KIND_COUNT,
                self.entity_types@.len() == KIND_COUNT,
                self.spatial_hash == old(self).spatial_hash,
                self.next_entity_id == old(self).next_entity_id,
                old(self).consistent(old(storage)),
                forall|j: int| 0 <= j < k ==> (#[trigger] self.entity_types@[j])@ == Seq::<u32>::empty(),
            decreases KIND_COUNT - k,
        {
            self.entity_types.set(k, Vec::new());
            k += 1;
        }
        self.spatial_hash.clear();
        proof {
            assert(storage@ =~= Seq::new(old(storage)@.len(), |i: int| None::<Entity>));
            assert forall|j: int| 0 <= j < KIND_COUNT implies #[trigger] self.kinds()[j] == Seq::<u32>::empty() by {}
            assert forall|j: int| 0 <= j < storage@.len() implies slot_ok(#[trigger] storage@[j], self.cache()[j], j) by {}
        }
    }

    /// Files `entity` under the next identifier and returns that identifier.
    pub fn create_entity(&mut self, storage: &mut EntityStorage, entity: Entity) -> (id: u32)
        requires
            old(self).consistent(old(storage)),
            entity.wf(),
            old(storage)@.len() + 2 < u32::MAX,
        ensures
            final(self).consistent(final(storage)),
            id == old(storage)@.len() + 1,
            final(storage)@ == old(storage)@.push(Some(entity.with_id(id))),
            forall|k: int| 0 <= k < KIND_COUNT ==> #[trigger] final(self).kinds()[k] == if k == kind_index(entity.kind()) {
                old(self).kinds()[k].push(id)
            } else {
                old(self).kinds()[k]
            },
    {
        let id = self.next_entity_id;
        self.next_entity_id = id + 1;
        let mut e = entity;
        e.set_id(id);
        let k = kind_slot(e.get_entity_type());
        let pos = e.get_world_position();
        let ghost old_kinds = self.kinds();
        proof {
            assert(!old_kinds[k as int].contains(id)) by {
                if old_kinds[k as int].contains(id) {
                    assert(old(storage).entity(id).is_some());
                }
            }
        }
        storage.entities.push(Some(e));
        self.entity_types[k].push(id);
        self.spatial_hash.insert(id, pos);
        proof {
            assert forall|j: int| 0 <= j < KIND_COUNT implies #[trigger] self.kinds()[j] == if j == k {
                old_kinds[j].push(id)
            } else {
                old_kinds[j]
            } by {}
            assert forall|i: int| 0 <= i < storage@.len() implies slot_ok(#[trigger] storage@[i], self.cache()[i], i) by {
                if i < old(storage)@.len() {
                    assert(storage@[i] == old(storage)@[i]);
                }
            }
            assert forall|j: int| 0 <= j < KIND_COUNT implies (#[trigger] self.kinds()[j]).no_duplicates() by {
                if j == k {
                    let l = self.kinds()[j];
                    assert forall|a: int, b: int| 0 <= a < b < l.len() implies l[a] != l[b] by {
                        if b == l.len() - 1 {
                            assert(l[a] == old_kinds[j][a]);
                        }
                    }
                }
            }
            assert forall|j: int, x: u32| 0 <= j < KIND_COUNT && #[trigger] self.kinds()[j].contains(x) implies {
                &&& storage.entity(x).is_some()
                &&& kind_index(storage.entity(x).unwrap().kind()) == j
            } by {
                if x != id {
                    let l = self.kinds()[j];
                    let a = choose|a: int| 0 <= a < l.len() && l[a] == x;
                    if j == k {
                        assert(a < old_kinds[j].len());
                        assert(old_kinds[j][a] == x);
                    }
                    assert(old_kinds[j].contains(x));
                    assert(storage.entity(x) == old(storage).entity(x));
                }
            }
            assert forall|x: u32| #[trigger] storage.entity(x).is_some() implies self.kinds()[kind_index(storage.entity(x).unwrap().kind())].contains(x) by {
                if x == id {
                    assert(self.kinds()[k as int][self.kinds()[k as int].len() - 1] == id);
                } else {
                    assert(storage.entity(x) == old(storage).entity(x));
                    let j = kind_index(storage.entity(x).unwrap().kind());
                    assert(old_kinds[j].contains(x));
                    let a = choose|a: int| 0 <= a < old_kinds[j].len() && old_kinds[j][a] == x;
                    assert(self.kinds()[j][a] == x);
                }
            }
        }
        id
    }

    /// Takes the entity `entity_id` out of the records and of both indexes.
    /// Returns false, changing nothing, when no such entity is live.
    pub fn remove_entity(&mut self, storage: &mut EntityStorage, entity_id: u32) -> (r: bool)
        requires
            old(self).consistent(old(storage)),
        ensures
            final(self).consistent(final(storage)),
            r == old(storage).entity(entity_id).is_some(),
            r ==> final(storage)@ == old(storage)@.update(entity_id - 1, None),
            !r ==> final(storage)@ == old(storage)@,
    {
        if entity_id == 0 || entity_id as usize > storage.entities.len() {
            return false;
        }
        let i = (entity_id - 1) as usize;
        let kind = match &storage.entities[i] {
            Some(e) => e.get_entity_type(),
            None => {
                return false;
            },
        };
        let k = kind_slot(kind);
        let ghost old_kinds = self.kinds();
        storage.entities.set(i, None);
        let kept = without_id(&self.entity_types[k], entity_id);
        self.entity_types.set(k, kept);
        self.spatial_hash.remove(entity_id);
        proof {
            let old_e = old(storage).entity(entity_id).unwrap();
            assert(kind_index(old_e.kind()) == k);
            assert forall|j: int| 0 <= j < KIND_COUNT && j != k implies #[trigger] self.kinds()[j] == old_kinds[j] by {}
            assert(self.kinds()[k as int] == kept@);
            assert forall|j: int| 0 <= j < storage@.len() implies slot_ok(#[trigger] storage@[j], self.cache()[j], j) by {
                if j != i {
                    assert(storage@[j] == old(storage)@[j]);
                }
            }
            assert forall|j: int| 0 <= j < KIND_COUNT implies (#[trigger] self.kinds()[j]).no_duplicates() by {}
            assert forall|j: int, x: u32| 0 <= j < KIND_COUNT && #[trigger] self.kinds()[j].contains(x) implies {
                &&& storage.entity(x).is_some()
                &&& kind_index(storage.entity(x).unwrap().kind()) == j
            } by {
                assert(old_kinds[j].contains(x));
                if x == entity_id {
                    assert(j == k);
                }
                assert(storage.entity(x) == old(storage).entity(x));
            }
            assert forall|x: u32| #[trigger] storage.entity(x).is_some() implies self.kinds()[kind_index(storage.entity(x).unwrap().kind())].contains(x) by {
                assert(x != entity_id);
                assert(storage.entity(x) == old(storage).entity(x));
                assert(old_kinds[kind_index(storage.entity(x).unwrap().kind())].contains(x));
            }
        }
        true
    }
}

} // verus!
