use vstd::prelude::*;
use vstd::arithmetic::div_mod::lemma_div_is_ordered;
use crate::geometry::{Vec3, WORLD_LIMIT, in_radius};

verus! {

/// Side of a grid cell: 100 units.
pub const GRID_SIZE: i64 = 100000;

/// The grid cell of a point: its x and y divided by the cell size, rounded down.
pub open spec fn cell_of(p: Vec3) -> (int, int) {
    (p.x as int / GRID_SIZE as int, p.y as int / GRID_SIZE as int)
}

/// The grid cell that covers a point.
pub fn cell_coords(p: &Vec3) -> (r: (i64, i64))
    ensures
        (r.0 as int, r.1 as int) == cell_of(*p),
{
    let cx = match p.x.checked_div_euclid(GRID_SIZE) {
        Some(v) => v,
        None => 0,
    };
    let cy = match p.y.checked_div_euclid(GRID_SIZE) {
        Some(v) => v,
        None => 0,
    };
    (cx, cy)
}

/// The ids filed under one grid cell.
pub struct GridCell {
    pub cx: i64,
    pub cy: i64,
    pub ids: Vec<u32>,
}

/// A fixed grid of buckets over the sea surface, kept beside a cache of
/// where each entity was last seen. Identifier `id` has cache slot `id - 1`.
pub struct SpatialHash {
    grid_size: i64,
    grid: Vec<GridCell>,
    entity_positions: Vec<Option<Vec3>>,
}

impl SpatialHash {
    /// The cached position of each identifier: entry `id - 1` for `id`, or
    /// `None` where the id is not filed.
    pub closed spec fn view(&self) -> Seq<Option<Vec3>> {
        self.entity_positions@
    }

    spec fn cell_holds(&self, c: int, id: u32) -> bool {
        self.grid@[c].ids@.contains(id)
    }

    /// Every filed id is cached, under the cell of its cached position.
    spec fn cells_ok(&self) -> bool {
        forall|c: int, id: u32|
            0 <= c < self.grid@.len() && #[trigger] self.cell_holds(c, id) ==> {
                &&& 1 <= id <= self.entity_positions@.len()
                &&& self.entity_positions@[id - 1].is_some()
                &&& cell_of(self.entity_positions@[id - 1].unwrap()) == (
                    self.grid@[c].cx as int,
                    self.grid@[c].cy as int,
                )
            }
    }

    spec fn filed(&self, id: u32) -> bool {
        exists|c: int| 0 <= c < self.grid@.len() && #[trigger] self.cell_holds(c, id)
    }

    /// Every cached id but the one in slot `skip` is filed in some cell.
    spec fn all_filed_but(&self, skip: int) -> bool {
        forall|i: int|
            0 <= i < self.entity_positions@.len() && i != skip
                && #[trigger] self.entity_positions@[i].is_some() ==> self.filed((i + 1) as u32)
    }

    pub closed spec fn inv(&self) -> bool {
        &&& self.grid_size == GRID_SIZE
        &&& self.cells_ok()
        &&& self.all_filed_but(-1)
        &&& self.entity_positions@.len() < u32::MAX
    }

    pub open spec fn wf(&self) -> bool {
        &&& self.inv()
        &&& forall|i: int|
            0 <= i < self@.len() && #[trigger] self@[i].is_some() ==> self@[i].unwrap().in_world()
    }

    pub fn new() -> (r: SpatialHash)
        ensures
            r.wf(),
            r@ == Seq::<Option<Vec3>>::empty(),
    {
        SpatialHash { grid_size: GRID_SIZE, grid: Vec::new(), entity_positions: Vec::new() }
    }

    /// Takes `id`, cached at `position`, out of every cell.
    fn unfile(&mut self, id: u32, position: Vec3)
        requires
            old(self).inv(),
            1 <= id <= old(self).entity_positions@.len(),
            old(self).entity_positions@[id - 1] == Some(position),
        ensures
            final(self).grid_size == GRID_SIZE,
            final(self).cells_ok(),
            final(self).all_filed_but(id - 1),
            final(self).entity_positions@ == old(self).entity_positions@,
            forall|c: int| 0 <= c < final(self).grid@.len() ==> !(#[trigger] final(self).cell_holds(c, id)),
    {
        let (cx, cy) = cell_coords(&position);
        let n = self.grid.len();
        let mut k: usize = 0;
        while k < n
            invariant
                n == self.grid@.len(),
                n == old(self).grid@.len(),
                k <= n,
                self.grid_size == old(self).grid_size,
                self.entity_positions@ == old(self).entity_positions@,
                (cx as int, cy as int) == cell_of(position),
                old(self).inv(),
                1 <= id <= old(self).entity_positions@.len(),
                old(self).entity_positions@[id - 1] == Some(position),
                forall|c: int| 0 <= c < n ==> (#[trigger] self.grid@[c]).cx == old(self).grid@[c].cx
                    && self.grid@[c].cy == old(self).grid@[c].cy,
                forall|c: int, x: u32| 0 <= c < n && #[trigger] self.cell_holds(c, x) ==> old(self).cell_holds(c, x),
                forall|c: int, x: u32| 0 <= c < n && x != id && #[trigger] old(self).cell_holds(c, x) ==> self.cell_holds(c, x),
                forall|c: int| 0 <= c < k ==> !(#[trigger] self.cell_holds(c, id)),
            decreases n - k,
        {
            if self.grid[k].cx == cx && self.grid[k].cy == cy {
                let kept = without_id(&self.grid[k].ids, id);
                let ghost before = *self;
                self.grid[k].ids = kept;
                proof {
                    assert forall|c: int, x: u32| 0 <= c < n && #[trigger] self.cell_holds(c, x) implies old(self).cell_holds(c, x) by {
                        if c != k {
                            assert(self.grid@[c] == before.grid@[c]);
                            assert(before.cell_holds(c, x));
                        } else {
                            assert(before.cell_holds(c, x));
                        }
                    }
                    assert forall|c: int, x: u32| 0 <= c < n && x != id && #[trigger] old(self).cell_holds(c, x) implies self.cell_holds(c, x) by {
                        assert(before.cell_holds(c, x));
                        if c != k {
                            assert(self.grid@[c] == before.grid@[c]);
                        }
                    }
                    assert forall|c: int| 0 <= c < k + 1 implies !(#[trigger] self.cell_holds(c, id)) by {
                        if c != k {
                            assert(self.grid@[c] == before.grid@[c]);
                            assert(!before.cell_holds(c, id));
                        }
                    }
                }
            } else {
                proof {
                    if self.cell_holds(k as int, id) {
                        assert(old(self).cell_holds(k as int, id));
                        assert(old(self).cells_ok());
                        assert(cell_of(position) == (old(self).grid@[k as int].cx as int, old(self).grid@[k as int].cy as int));
                    }
                    assert forall|c: int| 0 <= c < k + 1 implies !(#[trigger] self.cell_holds(c, id)) by {
                        if c == k {
                            if self.cell_holds(c, id) {
                                assert(old(self).cell_holds(c, id));
                            }
                        }
                    }
                }
            }
            k += 1;
        }
        proof {
            assert forall|c: int, x: u32|
                0 <= c < self.grid@.len() && #[trigger] self.cell_holds(c, x) implies {
                    &&& 1 <= x <= self.entity_positions@.len()
                    &&& self.entity_positions@[x - 1].is_some()
                    &&& cell_of(self.entity_positions@[x - 1].unwrap()) == (
                        self.grid@[c].cx as int,
                        self.grid@[c].cy as int,
                    )
                } by {
                assert(old(self).cell_holds(c, x));
            }
            assert forall|i: int|
                0 <= i < self.entity_positions@.len() && i != id - 1 && #[trigger] self.entity_positions@[i].is_some()
                implies self.filed((i + 1) as u32) by {
                assert(old(self).filed((i + 1) as u32));
                let c = choose|c: int| 0 <= c < old(self).grid@.len() && #[trigger] old(self).cell_holds(c, (i + 1) as u32);
                assert(self.cell_holds(c, (i + 1) as u32));
            }
        }
    }

    /// Files a new identifier, `id`, at `position`.
    pub fn insert(&mut self, id: u32, position: Vec3)
        requires
            old(self).wf(),
            id == old(self)@.len() + 1,
            id < u32::MAX,
            position.in_world(),
        ensures
            final(self).wf(),
            final(self)@ == old(self)@.push(Some(position)),
    {
        let ghost before = *self;
        self.entity_positions.push(Some(position));
        proof {
            assert(self.entity_positions@[id - 1] == Some(position));
            assert forall|c: int, x: u32| 0 <= c < self.grid@.len() && #[trigger] self.cell_holds(c, x) implies {
                    &&& 1 <= x <= self.entity_positions@.len()
                    &&& self.entity_positions@[x - 1].is_some()
                    &&& cell_of(self.entity_positions@[x - 1].unwrap()) == (
                        self.grid@[c].cx as int,
                        self.grid@[c].cy as int,
                    )
                } by {
                assert(before.cell_holds(c, x));
                assert(self.entity_positions@[x - 1] == before.entity_positions@[x - 1]);
            }
            assert forall|i: int|
                0 <= i < self.entity_positions@.len() && i != id - 1 && #[trigger] self.entity_positions@[i].is_some()
                implies self.filed((i + 1) as u32) by {
                assert(before.entity_positions@[i].is_some());
                assert(before.filed((i + 1) as u32));
                let c = choose|c: int| 0 <= c < before.grid@.len() && #[trigger] before.cell_holds(c, (i + 1) as u32);
                assert(self.cell_holds(c, (i + 1) as u32));
            }
        }
        self.file(id, position);
        proof {
            assert forall|i: int| 0 <= i < self@.len() && #[trigger] self@[i].is_some() implies self@[i].unwrap().in_world() by {
                if i < before@.len() {
                    assert(self@[i] == before@[i]);
                }
            }
        }
    }

    /// Forgets `id`; an id that is not filed is left as it is.
    pub fn remove(&mut self, id: u32)
        requires
            old(self).wf(),
            1 <= id <= old(self)@.len(),
        ensures
            final(self).wf(),
            final(self)@ == old(self)@.update(id - 1, None),
    {
        let i = (id - 1) as usize;
        if let Some(position) = self.entity_positions[i] {
            self.unfile(id, position);
            let ghost before = *self;
            self.entity_positions.set(i, None);
            proof {
                assert forall|c: int, x: u32| 0 <= c < self.grid@.len() && #[trigger] self.cell_holds(c, x) implies {
                        &&& 1 <= x <= self.entity_positions@.len()
                        &&& self.entity_positions@[x - 1].is_some()
                        &&& cell_of(self.entity_positions@[x - 1].unwrap()) == (
                            self.grid@[c].cx as int,
                            self.grid@[c].cy as int,
                        )
                    } by {
                    assert(before.cell_holds(c, x));
                }
                assert forall|j: int|
                    0 <= j < self.entity_positions@.len() && #[trigger] self.entity_positions@[j].is_some()
                    implies self.filed((j + 1) as u32) by {
                    assert(before.entity_positions@[j].is_some());
                    assert(before.filed((j + 1) as u32));
                    let c = choose|c: int| 0 <= c < before.grid@.len() && #[trigger] before.cell_holds(c, (j + 1) as u32);
                    assert(self.cell_holds(c, (j + 1) as u32));
                }
            }
        } else {
            proof {
                assert(self@ =~= old(self)@.update(id - 1, None));
            }
        }
    }

    /// Moves the filed identifier `id` to `new_position`.
    pub fn update(&mut self, id: u32, new_position: Vec3)
        requires
            old(self).wf(),
            1 <= id <= old(self)@.len(),
            old(self)@[id - 1].is_some(),
            new_position.in_world(),
        ensures
            final(self).wf(),
            final(self)@ == old(self)@.update(id - 1, Some(new_position)),
    {
        let i = (id - 1) as usize;
        if let Some(position) = self.entity_positions[i] {
            self.unfile(id, position);
            let ghost before = *self;
            self.entity_positions.set(i, Some(new_position));
            proof {
                assert forall|c: int, x: u32| 0 <= c < self.grid@.len() && #[trigger] self.cell_holds(c, x) implies {
                        &&& 1 <= x <= self.entity_positions@.len()
                        &&& self.entity_positions@[x - 1].is_some()
                        &&& cell_of(self.entity_positions@[x - 1].unwrap()) == (
                            self.grid@[c].cx as int,
                            self.grid@[c].cy as int,
                        )
                    } by {
                    assert(before.cell_holds(c, x));
                }
                assert forall|j: int|
                    0 <= j < self.entity_positions@.len() && j != id - 1 && #[trigger] self.entity_positions@[j].is_some()
                    implies self.filed((j + 1) as u32) by {
                    assert(before.entity_positions@[j].is_some());
                    assert(before.filed((j + 1) as u32));
                    let c = choose|c: int| 0 <= c < before.grid@.len() && #[trigger] before.cell_holds(c, (j + 1) as u32);
                    assert(self.cell_holds(c, (j + 1) as u32));
                }
            }
            self.file(id, new_position);
            proof {
                assert forall|j: int| 0 <= j < self@.len() && #[trigger] self@[j].is_some() implies self@[j].unwrap().in_world() by {
                    if j != i {
                        assert(self@[j] == old(self)@[j]);
                    }
                }
            }
        }
    }

    /// Whether `id` is cached at a position within `radius` of `center`.
    pub open spec fn holds_within(&self, id: u32, center: Vec3, radius: int) -> bool {
        &&& 1 <= id <= self@.len()
        &&& self@[id - 1].is_some()
        &&& in_radius(self@[id - 1].unwrap(), center, radius)
    }

    /// The identifiers cached within Euclidean distance `radius` of
    /// `center`, each once. Only the cells that meet the square around the
    /// circle are searched.
    pub fn query_area(&self, center: &Vec3, radius: i64) -> (r: Vec<u32>)
        requires
            self.wf(),
            center.in_world(),
            0 <= radius <= WORLD_LIMIT,
        ensures
            r@.no_duplicates(),
            forall|id: u32| #[trigger] r@.contains(id) <==> self.holds_within(id, *center, radius as int),
    {
        let lo_x = match (center.x - radius).checked_div_euclid(GRID_SIZE) { Some(v) => v, None => 0 };
        let hi_x = match (center.x + radius).checked_div_euclid(GRID_SIZE) { Some(v) => v, None => 0 };
        let lo_y = match (center.y - radius).checked_div_euclid(GRID_SIZE) { Some(v) => v, None => 0 };
        let hi_y = match (center.y + radius).checked_div_euclid(GRID_SIZE) { Some(v) => v, None => 0 };
        let mut result: Vec<u32> = Vec::new();
        let n = self.grid.len();
        let mut ci: usize = 0;
        while ci < n
            invariant
                n == self.grid@.len(),
                ci <= n,
                self.wf(),
                center.in_world(),
                0 <= radius <= WORLD_LIMIT,
                lo_x == (center.x - radius) / GRID_SIZE as int,
                hi_x == (center.x + radius) / GRID_SIZE as int,
                lo_y == (center.y - radius) / GRID_SIZE as int,
                hi_y == (center.y + radius) / GRID_SIZE as int,
                result@.no_duplicates(),
                forall|id: u32| #[trigger] result@.contains(id) ==> self.holds_within(id, *center, radius as int),
                forall|c: int, id: u32|
                    0 <= c < ci && #[trigger] self.cell_holds(c, id) && self.holds_within(id, *center, radius as int)
                        ==> result@.contains(id),
            decreases n - ci,
        {
            let cell = &self.grid[ci];
            if lo_x <= cell.cx && cell.cx <= hi_x && lo_y <= cell.cy && cell.cy <= hi_y {
                let m = cell.ids.len();
                let mut j: usize = 0;
                while j < m
                    invariant
                        n == self.grid@.len(),
                        ci < n,
                        *cell == self.grid@[ci as int],
                        m == cell.ids@.len(),
                        j <= m,
                        self.wf(),
                        center.in_world(),
                        0 <= radius <= WORLD_LIMIT,
                        result@.no_duplicates(),
                        forall|id: u32| #[trigger] result@.contains(id) ==> self.holds_within(id, *center, radius as int),
                        forall|c: int, id: u32|
                            0 <= c < ci && #[trigger] self.cell_holds(c, id) && self.holds_within(id, *center, radius as int)
                                ==> result@.contains(id),
                        forall|k: int| 0 <= k < j && self.holds_within(#[trigger] cell.ids@[k], *center, radius as int)
                            ==> result@.contains(cell.ids@[k]),
                    decreases m - j,
                {
                    let id = cell.ids[j];
                    proof {
                        assert(self.cell_holds(ci as int, id));
                    }
                    let p = match self.entity_positions[(id - 1) as usize] { Some(p) => p, None => Vec3::zero() };
                    if center.is_within(&p, radius) && !contains_id(&result, id) {
                        let ghost before = result@;
                        result.push(id);
                        proof {
                            assert forall|a: int, b: int| 0 <= a < b < result@.len() implies result@[a] != result@[b] by {
                                if b == result@.len() - 1 {
                                    assert(result@[a] == before[a]);
                                } else {
                                    assert(result@[a] == before[a] && result@[b] == before[b]);
                                }
                            }
                            assert forall|x: u32| #[trigger] result@.contains(x) implies self.holds_within(x, *center, radius as int) by {
                                let k = choose|k: int| 0 <= k < result@.len() && result@[k] == x;
                                if k < before.len() {
                                    assert(before[k] == x);
                                    assert(before.contains(x));
                                }
                            }
                            assert forall|x: u32| #[trigger] before.contains(x) implies result@.contains(x) by {
                                let k = choose|k: int| 0 <= k < before.len() && before[k] == x;
                                assert(result@[k] == x);
                            }
                            assert(result@[result@.len() - 1] == id);
                        }
                    }
                    j += 1;
                }
                proof {
                    assert forall|c: int, id: u32|
                        0 <= c < ci + 1 && #[trigger] self.cell_holds(c, id) && self.holds_within(id, *center, radius as int)
                            implies result@.contains(id) by {
                        if c == ci {
                            let k = choose|k: int| 0 <= k < cell.ids@.len() && cell.ids@[k] == id;
                        }
                    }
                }
            } else {
                proof {
                    assert forall|c: int, id: u32|
                        0 <= c < ci + 1 && #[trigger] self.cell_holds(c, id) && self.holds_within(id, *center, radius as int)
                            implies result@.contains(id) by {
                        if c == ci {
                            let p = self.entity_positions@[id - 1].unwrap();
                            lemma_cell_in_range(p, *center, radius as int);
                        }
                    }
                }
            }
            ci += 1;
        }
        proof {
            assert forall|id: u32| self.holds_within(id, *center, radius as int) implies #[trigger] result@.contains(id) by {
                assert(self.entity_positions@[id - 1].is_some());
                assert(self.filed(((id - 1) + 1) as u32));
                let c = choose|c: int| 0 <= c < self.grid@.len() && #[trigger] self.cell_holds(c, id);
            }
        }
        result
    }

    /// Forgets every identifier; their cache slots stay, empty.
    pub fn clear(&mut self)
        requires
            old(self).wf(),
        ensures
            final(self).wf(),
            final(self)@ == Seq::new(old(self)@.len(), |i: int| None::<Vec3>),
    {
        self.grid = Vec::new();
        let n = self.entity_positions.len();
        let mut i: usize = 0;
        while i < n
            invariant
                n == self.entity_positions@.len(),
                n == old(self)@.len(),
                n < u32::MAX,
                i <= n,
                self.grid_size == GRID_SIZE,
                self.grid@.len() == 0,
                forall|j: int| 0 <= j < i ==> self.entity_positions@[j].is_none(),
            decreases n - i,
        {
            self.entity_positions.set(i, None);
            i += 1;
        }
        proof {
            assert(self@ =~= Seq::new(old(self)@.len(), |i: int| None::<Vec3>));
        }
    }

    /// Adds `id` to the cell of `position`, which its cache slot already holds.
    fn file(&mut self, id: u32, position: Vec3)
        requires
            old(self).grid_size == GRID_SIZE,
            old(self).cells_ok(),
            old(self).all_filed_but(id - 1),
            1 <= id <= old(self).entity_positions@.len(),
            old(self).entity_positions@[id - 1] == Some(position),
            old(self).entity_positions@.len() < u32::MAX,
        ensures
            final(self).inv(),
            final(self).entity_positions@ == old(self).entity_positions@,
    {
        let (cx, cy) = cell_coords(&position);
        let n = self.grid.len();
        let mut k: usize = 0;
        while k < n
            invariant
                n == self.grid@.len(),
                k <= n,
                *self == *old(self),
                forall|c: int| 0 <= c < k ==> !(#[trigger] self.grid@[c].cx == cx && self.grid@[c].cy == cy),
            ensures
                k <= n,
                *self == *old(self),
                k < n ==> self.grid@[k as int].cx == cx && self.grid@[k as int].cy == cy,
            decreases n - k,
        {
            if self.grid[k].cx == cx && self.grid[k].cy == cy {
                break;
            }
            k += 1;
        }
        let ghost before = *self;
        if k < n {
            self.grid[k].ids.push(id);
            proof {
                assert(self.grid@[k as int].ids@[self.grid@[k as int].ids@.len() - 1] == id);
                assert(self.cell_holds(k as int, id));
                assert forall|c: int, x: u32|
                    0 <= c < self.grid@.len() && #[trigger] self.cell_holds(c, x) implies
                        (c == k && x == id) || before.cell_holds(c, x) by {
                    if c == k && x != id {
                        let j = choose|j: int| 0 <= j < self.grid@[c].ids@.len() && self.grid@[c].ids@[j] == x;
                        assert(before.grid@[c].ids@[j] == x);
                    }
                }
                assert forall|c: int, x: u32|
                    0 <= c < before.grid@.len() && #[trigger] before.cell_holds(c, x) implies
                        self.cell_holds(c, x) by {
                    let j = choose|j: int| 0 <= j < before.grid@[c].ids@.len() && before.grid@[c].ids@[j] == x;
                    assert(self.grid@[c].ids@[j] == x);
                }
            }
        } else {
            let mut ids: Vec<u32> = Vec::new();
            ids.push(id);
            self.grid.push(GridCell { cx, cy, ids });
            proof {
                assert(self.grid@[k as int].ids@[0] == id);
                assert(self.cell_holds(k as int, id));
                assert forall|c: int, x: u32|
                    0 <= c < self.grid@.len() && #[trigger] self.cell_holds(c, x) implies
                        (c == k && x == id) || before.cell_holds(c, x) by {
                    if c == k {
                        assert(self.grid@[c].ids@ == seq![id]);
                    }
                }
                assert forall|c: int, x: u32|
                    0 <= c < before.grid@.len() && #[trigger] before.cell_holds(c, x) implies
                        self.cell_holds(c, x) by {
                    assert(self.grid@[c] == before.grid@[c]);
                }
            }
        }
        proof {
            assert(self.grid@[k as int].cx == cx && self.grid@[k as int].cy == cy);
            assert forall|c: int| 0 <= c < self.grid@.len() && c != k implies #[trigger] self.grid@[c] == before.grid@[c] by {}
            assert forall|c: int, x: u32|
                0 <= c < self.grid@.len() && #[trigger] self.cell_holds(c, x) implies {
                    &&& 1 <= x <= self.entity_positions@.len()
                    &&& self.entity_positions@[x - 1].is_some()
                    &&& cell_of(self.entity_positions@[x - 1].unwrap()) == (
                        self.grid@[c].cx as int,
                        self.grid@[c].cy as int,
                    )
                } by {
                if !(c == k && x == id) {
                    assert(before.cell_holds(c, x));
                    if c == k {
                        assert(self.grid@[c].cx == before.grid@[c].cx);
                    }
                }
            }
            assert forall|i: int|
                0 <= i < self.entity_positions@.len() && #[trigger] self.entity_positions@[i].is_some()
                implies self.filed((i + 1) as u32) by {
                if i == id - 1 {
                    assert(self.cell_holds(k as int, id));
                } else {
                    assert(before.filed((i + 1) as u32));
                    let c = choose|c: int| 0 <= c < before.grid@.len() && #[trigger] before.cell_holds(c, (i + 1) as u32);
                    assert(self.cell_holds(c, (i + 1) as u32));
                }
            }
        }
    }
}

/// A point within `r` of `c` lies in a cell of the square of cells around `c`.
proof fn lemma_cell_in_range(p: Vec3, c: Vec3, r: int)
    requires
        r >= 0,
        in_radius(p, c, r),
    ensures
        (c.x - r) / GRID_SIZE as int <= p.x as int / GRID_SIZE as int <= (c.x + r) / GRID_SIZE as int,
        (c.y - r) / GRID_SIZE as int <= p.y as int / GRID_SIZE as int <= (c.y + r) / GRID_SIZE as int,
{
    let dx = p.x - c.x;
    let dy = p.y - c.y;
    let dz = p.z - c.z;
    assert(-r <= dx <= r && -r <= dy <= r) by (nonlinear_arith)
        requires
            dx * dx + dy * dy + dz * dz <= r * r,
            r >= 0,
    ;
    lemma_div_is_ordered(c.x - r, p.x as int, GRID_SIZE as int);
    lemma_div_is_ordered(p.x as int, c.x + r, GRID_SIZE as int);
    lemma_div_is_ordered(c.y - r, p.y as int, GRID_SIZE as int);
    lemma_div_is_ordered(p.y as int, c.y + r, GRID_SIZE as int);
}

/// The ids of `ids` other than `id`, in their order.
pub fn without_id(ids: &Vec<u32>, id: u32) -> (r: Vec<u32>)
    ensures
        forall|x: u32| #[trigger] r@.contains(x) <==> ids@.contains(x) && x != id,
        ids@.no_duplicates() ==> r@.no_duplicates(),
{
    let mut r: Vec<u32> = Vec::new();
    let mut i: usize = 0;
    while i < ids.len()
        invariant
            i <= ids@.len(),
            forall|x: u32| #[trigger] r@.contains(x) <==> ids@.take(i as int).contains(x) && x != id,
            ids@.no_duplicates() ==> r@.no_duplicates(),
        decreases ids@.len() - i,
    {
        let x = ids[i];
        let ghost old_r = r@;
        if x != id {
            proof {
                if ids@.no_duplicates() && old_r.contains(x) {
                    assert(ids@.take(i as int).contains(x));
                    let a = choose|a: int| 0 <= a < i && ids@.take(i as int)[a] == x;
                    assert(ids@[a] == ids@[i as int]);
                }
                assert(ids@.no_duplicates() ==> !old_r.contains(x));
            }
            r.push(x);
            proof {
                if ids@.no_duplicates() {
                    assert forall|a: int, b: int| 0 <= a < b < r@.len() implies r@[a] != r@[b] by {
                        if b == r@.len() - 1 {
                            assert(r@[a] == old_r[a]);
                            if r@[a] == x {
                                assert(old_r.contains(x));
                            }
                        } else {
                            assert(r@[a] == old_r[a] && r@[b] == old_r[b]);
                        }
                    }
                }
            }
        }
        proof {
            assert(ids@.take(i + 1) =~= ids@.take(i as int).push(x));
            let t = ids@.take(i + 1);
            assert(t[i as int] == x);
            assert forall|y: u32| #[trigger] r@.contains(y) implies t.contains(y) && y != id by {
                let j = choose|j: int| 0 <= j < r@.len() && r@[j] == y;
                if j < old_r.len() {
                    assert(old_r[j] == y);
                    assert(old_r.contains(y));
                    assert(ids@.take(i as int).contains(y));
                    let j2 = choose|j2: int| 0 <= j2 < i && ids@.take(i as int)[j2] == y;
                    assert(t[j2] == y);
                } else {
                    assert(y == x);
                }
            }
            assert forall|y: u32| t.contains(y) && y != id implies #[trigger] r@.contains(y) by {
                let j = choose|j: int| 0 <= j < t.len() && t[j] == y;
                if j < i {
                    assert(ids@.take(i as int)[j] == y);
                    assert(ids@.take(i as int).contains(y));
                    assert(old_r.contains(y));
                    let m = choose|m: int| 0 <= m < old_r.len() && old_r[m] == y;
                    assert(r@[m] == y);
                } else {
                    assert(r@[r@.len() - 1] == y);
                }
            }
            if i + 1 == ids@.len() {
                assert(ids@.take(i + 1) =~= ids@);
            }
        }
        i += 1;
    }
    proof {
        assert(ids@.take(i as int) =~= ids@);
    }
    r
}

/// Whether `ids` holds `id`.
pub fn contains_id(ids: &Vec<u32>, id: u32) -> (r: bool)
    ensures
        r == ids@.contains(id),
{
    let mut i: usize = 0;
    while i < ids.len()
        invariant
            i <= ids@.len(),
            forall|j: int| 0 <= j < i ==> ids@[j] != id,
        decreases ids@.len() - i,
    {
        if ids[i] == id {
            return true;
        }
        i += 1;
    }
    false
}

} // verus!
