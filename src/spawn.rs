use vstd::prelude::*;
use crate::geometry::{Vec3, clamp_coord};

verus! {

/// Kinds the scheduler keeps timers for.
#[derive(Clone, Copy, Debug, PartialEq, Eq, Structural, Hash, PartialOrd, Ord)]
pub enum SpawnType {
    FloatingItem,
    Fish,
    Bubble,
    Particle,
    Coral,
    Treasure,
}

/// Number of spawn kinds.
pub const SPAWN_KINDS: usize = 6;

/// Floating items appear this far beyond the visible edge (40 units).
pub const ITEM_MARGIN: i64 = 40000;

/// Fish appear this far beyond the visible edge (60 units).
pub const FISH_MARGIN: i64 = 60000;

/// Largest screen width, in units, that a spawn position is computed for.
pub const MAX_SCREEN_WIDTH: u32 = 1000000;

pub open spec fn spawn_index(t: SpawnType) -> int {
    match t {
        SpawnType::FloatingItem => 0,
        SpawnType::Fish => 1,
        SpawnType::Bubble => 2,
        SpawnType::Particle => 3,
        SpawnType::Coral => 4,
        SpawnType::Treasure => 5,
    }
}

/// Position of a spawn kind in per-kind tables.
pub fn spawn_slot(t: SpawnType) -> (r: usize)
    ensures
        r == spawn_index(t),
        r < SPAWN_KINDS,
{
    match t {
        SpawnType::FloatingItem => 0,
        SpawnType::Fish => 1,
        SpawnType::Bubble => 2,
        SpawnType::Particle => 3,
        SpawnType::Coral => 4,
        SpawnType::Treasure => 5,
    }
}

/// Whether `update` evaluates the timer of the kind at `i` (all but particles).
pub open spec fn scheduled(i: int) -> bool {
    0 <= i < SPAWN_KINDS && i != 3
}

/// The counter a timer starts from: items and fish are due at once.
pub open spec fn timer_start(i: int, rate: u32) -> u32 {
    if i == 0 || i == 1 {
        rate
    } else {
        0
    }
}

/// Whether a kind with counter `timer`, threshold `rate`, population `count`
/// and cap `max` spawns now.
pub open spec fn spawn_due(timer: u32, rate: u32, count: int, max: int) -> bool {
    timer >= rate && count < max
}

/// Population of the kind at `i`; kinds missing from `counts` have none.
pub open spec fn count_at(counts: Seq<usize>, i: int) -> int {
    if i < counts.len() {
        counts[i] as int
    } else {
        0
    }
}

/// Where a new floating item appears: beyond the upstream (left) edge of a
/// screen `screen_w` units wide around `player`, near the surface.
pub open spec fn item_spawn_pos(player: Vec3, screen_w: u32, seed: u64) -> Vec3 {
    Vec3 {
        x: clamp_coord(player.x - screen_w * 500 - ITEM_MARGIN) as i64,
        y: (-4000 + (seed % 1001) * 8) as i64,
        z: 0,
    }
}

/// Where a new fish appears: beyond the left or right edge, 20 to 140 units deep.
pub open spec fn fish_spawn_pos(player: Vec3, screen_w: u32, seed: u64) -> Vec3 {
    let off = screen_w * 500 + FISH_MARGIN;
    Vec3 {
        x: clamp_coord(if (seed / 1001) % 2 == 0 { player.x - off } else { player.x + off }) as i64,
        y: player.y,
        z: (-(20000 + ((seed / 2002) % 1001) * 120)) as i64,
    }
}

/// The counter after a frame: back to zero on a spawn, else one more
/// (stopping at `u32::MAX`).
pub open spec fn next_timer(timer: u32, due: bool) -> u32 {
    if due {
        0
    } else if timer == u32::MAX {
        u32::MAX
    } else {
        (timer + 1) as u32
    }
}

/// Brings `c` back into the world's bounds.
pub fn clamp_world(c: i64) -> (r: i64)
    ensures
        r == clamp_coord(c as int),
{
    if c < -crate::geometry::WORLD_LIMIT {
        -crate::geometry::WORLD_LIMIT
    } else if c > crate::geometry::WORLD_LIMIT {
        crate::geometry::WORLD_LIMIT
    } else {
        c
    }
}

/// Per-kind rate-limited timers that queue spawn requests; creating the
/// entities is left to the caller.
pub struct SpawnSystem {
    spawn_timers: Vec<Option<u32>>,
    spawn_rates: Vec<u32>,
    max_entities: Vec<usize>,
    pending_spawns: Vec<(SpawnType, Vec3)>,
    wind: Vec3,
}

impl SpawnSystem {
    pub closed spec fn timers(&self) -> Seq<Option<u32>> {
        self.spawn_timers@
    }

    pub closed spec fn rates(&self) -> Seq<u32> {
        self.spawn_rates@
    }

    pub closed spec fn caps(&self) -> Seq<usize> {
        self.max_entities@
    }

    pub closed spec fn pending(&self) -> Seq<(SpawnType, Vec3)> {
        self.pending_spawns@
    }

    pub closed spec fn wind_spec(&self) -> Vec3 {
        self.wind
    }

    pub open spec fn wf(&self) -> bool {
        &&& self.timers().len() == SPAWN_KINDS
        &&& self.rates().len() == SPAWN_KINDS
        &&& self.caps().len() == SPAWN_KINDS
    }

    /// The counter of the kind at `i` as `update` finds it.
    pub open spec fn timer_now(&self, i: int) -> u32 {
        match self.timers()[i] {
            Some(t) => t,
            None => timer_start(i, self.rates()[i]),
        }
    }

    /// Whether the kind at `i` spawns on an `update` with populations `counts`.
    pub open spec fn due_now(&self, i: int, counts: Seq<usize>) -> bool {
        scheduled(i) && spawn_due(self.timer_now(i), self.rates()[i], count_at(counts, i), self.caps()[i] as int)
    }

    /// The request queue after `update(player, counts, screen_w, seed)`: what
    /// it held, then a floating item if one is due, then a fish if one is due.
    pub open spec fn queue_after_update(&self, player: Vec3, counts: Seq<usize>, screen_w: u32, seed: u64) -> Seq<(SpawnType, Vec3)> {
        self.pending() + (if self.due_now(0, counts) {
            seq![(SpawnType::FloatingItem, item_spawn_pos(player, screen_w, seed))]
        } else {
            Seq::<(SpawnType, Vec3)>::empty()
        }) + (if self.due_now(1, counts) {
            seq![(SpawnType::Fish, fish_spawn_pos(player, screen_w, seed))]
        } else {
            Seq::<(SpawnType, Vec3)>::empty()
        })
    }

    /// Rates of one spawn every 300, 180, 60, 10, 600 and 1200 frames, and caps
    /// of 50, 30, 100, 200, 20 and 10, for items, fish, bubbles, particles,
    /// coral and treasure.
    pub fn new() -> (r: SpawnSystem)
        ensures
            r.wf(),
            r.rates() == seq![300u32, 180, 60, 10, 600, 1200],
            r.caps() == seq![50usize, 30, 100, 200, 20, 10],
            r.timers() == seq![None::<u32>, None, None, None, None, None],
            r.pending() == Seq::<(SpawnType, Vec3)>::empty(),
            r.wind_spec() == (Vec3 { x: 0, y: 0, z: 0 }),
    {
        let r = SpawnSystem {
            spawn_timers: vec![None, None, None, None, None, None],
            spawn_rates: vec![300, 180, 60, 10, 600, 1200],
            max_entities: vec![50, 30, 100, 200, 20, 10],
            pending_spawns: Vec::new(),
            wind: Vec3::zero(),
        };
        proof {
            assert(r.rates() =~= seq![300u32, 180, 60, 10, 600, 1200]);
            assert(r.caps() =~= seq![50usize, 30, 100, 200, 20, 10]);
            assert(r.timers() =~= seq![None::<u32>, None, None, None, None, None]);
        }
        r
    }

    /// Records the wind vector used for directional spawns.
    pub fn set_wind(&mut self, wind: Vec3)
        ensures
            final(self).wind_spec() == wind,
            final(self).timers() == old(self).timers(),
            final(self).rates() == old(self).rates(),
            final(self).caps() == old(self).caps(),
            final(self).pending() == old(self).pending(),
    {
        self.wind = wind;
    }

    /// Sets how many frames pass between spawns of `spawn_type`.
    pub fn set_spawn_rate(&mut self, spawn_type: SpawnType, rate: u32)
        requires
            old(self).wf(),
        ensures
            final(self).wf(),
            final(self).rates() == old(self).rates().update(spawn_index(spawn_type), rate),
            final(self).timers() == old(self).timers(),
            final(self).caps() == old(self).caps(),
            final(self).pending() == old(self).pending(),
            final(self).wind_spec() == old(self).wind_spec(),
    {
        self.spawn_rates.set(spawn_slot(spawn_type), rate);
    }

    /// Sets the population cap of `spawn_type`.
    pub fn set_max_entities(&mut self, spawn_type: SpawnType, max: usize)
        requires
            old(self).wf(),
        ensures
            final(self).wf(),
            final(self).caps() == old(self).caps().update(spawn_index(spawn_type), max),
            final(self).timers() == old(self).timers(),
            final(self).rates() == old(self).rates(),
            final(self).pending() == old(self).pending(),
            final(self).wind_spec() == old(self).wind_spec(),
    {
        self.max_entities.set(spawn_slot(spawn_type), max);
    }

    /// One frame of the timer at `i`: returns whether the kind is due, and
    /// resets the counter if so; otherwise the counter goes up by one.
    fn tick(&mut self, i: usize, counts: &Vec<usize>) -> (due: bool)
        requires
            old(self).wf(),
            i < SPAWN_KINDS,
        ensures
            final(self).wf(),
            due == spawn_due(old(self).timer_now(i as int), old(self).rates()[i as int], count_at(counts@, i as int), old(self).caps()[i as int] as int),
            final(self).timers() == old(self).timers().update(i as int, Some(next_timer(old(self).timer_now(i as int), due))),
            final(self).rates() == old(self).rates(),
            final(self).caps() == old(self).caps(),
            final(self).pending() == old(self).pending(),
            final(self).wind_spec() == old(self).wind_spec(),
    {
        let rate = self.spawn_rates[i];
        let max = self.max_entities[i];
        let count = if i < counts.len() { counts[i] } else { 0 };
        let timer = match self.spawn_timers[i] {
            Some(t) => t,
            None => if i == 0 || i == 1 { rate } else { 0 },
        };
        let due = timer >= rate && count < max;
        let next = if due { 0 } else { timer.saturating_add(1) };
        self.spawn_timers.set(i, Some(next));
        due
    }

    /// One frame of the scheduler around a player at `player_pos`, with the
    /// live population of each kind in `current_counts` (by `spawn_index`;
    /// a missing entry counts as none). A kind is due when its counter has
    /// reached its rate and its population is below its cap; a due item or
    /// fish queues a spawn request. `screen_width` is the visible width in
    /// units; `seed` is the frame's random draw.
    pub fn update(&mut self, player_pos: &Vec3, current_counts: &Vec<usize>, screen_width: u32, seed: u64)
        requires
            old(self).wf(),
            player_pos.in_world(),
            screen_width <= MAX_SCREEN_WIDTH,
        ensures
            final(self).wf(),
            forall|i: int| 0 <= i < SPAWN_KINDS ==> #[trigger] final(self).timers()[i] == if scheduled(i) {
                Some(next_timer(old(self).timer_now(i), old(self).due_now(i, current_counts@)))
            } else {
                old(self).timers()[i]
            },
            final(self).pending() == old(self).queue_after_update(*player_pos, current_counts@, screen_width, seed),
            final(self).rates() == old(self).rates(),
            final(self).caps() == old(self).caps(),
            final(self).wind_spec() == old(self).wind_spec(),
    {
        if self.tick(0, current_counts) {
            let x = clamp_world(player_pos.x - screen_width as i64 * 500 - ITEM_MARGIN);
            let y = -4000 + (seed % 1001) as i64 * 8;
            self.pending_spawns.push((SpawnType::FloatingItem, Vec3 { x, y, z: 0 }));
        }
        if self.tick(1, current_counts) {
            let off = screen_width as i64 * 500 + FISH_MARGIN;
            let x = if (seed / 1001) % 2 == 0 { clamp_world(player_pos.x - off) } else { clamp_world(player_pos.x + off) };
            let z = -(20000 + ((seed / 2002) % 1001) as i64 * 120);
            self.pending_spawns.push((SpawnType::Fish, Vec3 { x, y: player_pos.y, z }));
        }
        self.tick(2, current_counts);
        self.tick(4, current_counts);
        self.tick(5, current_counts);
        proof {
            assert(self.timers() =~= Seq::new(SPAWN_KINDS as nat, |i: int| if scheduled(i) {
                Some(next_timer(old(self).timer_now(i), old(self).due_now(i, current_counts@)))
            } else {
                old(self).timers()[i]
            }));
            assert(self.pending() =~= old(self).queue_after_update(*player_pos, current_counts@, screen_width, seed));
        }
    }

    /// Empties the request queue and returns what it held, oldest first.
    pub fn drain_pending(&mut self) -> (r: Vec<(SpawnType, Vec3)>)
        ensures
            r@ == old(self).pending(),
            final(self).pending() == Seq::<(SpawnType, Vec3)>::empty(),
            final(self).timers() == old(self).timers(),
            final(self).rates() == old(self).rates(),
            final(self).caps() == old(self).caps(),
            final(self).wind_spec() == old(self).wind_spec(),
    {
        let mut out: Vec<(SpawnType, Vec3)> = Vec::new();
        std::mem::swap(&mut out, &mut self.pending_spawns);
        out
    }
}

} // verus!
