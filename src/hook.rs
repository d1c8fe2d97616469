use vstd::prelude::*;
use crate::geometry::{
    Vec2, Vec3, UNIT, WORLD_LIMIT, coord_ok, dist_sq, int_sqrt, isqrt, rescale, rescale_component,
    lemma_component_within_norm,
};
use crate::spatial::contains_id;

verus! {

/// Travel speed of a new hook: 80 units per second.
pub const HOOK_SPEED: i64 = 80;

/// Length at which a new hook stops extending: 100 units.
pub const HOOK_MAX_LENGTH: i64 = 100000;

/// Distance from the owner at which a returning hook is caught: 10 units.
pub const CAPTURE_RADIUS: i64 = 10000;

/// Largest travel speed a hook may be given.
pub const MAX_HOOK_SPEED: i64 = 1048576;

/// The phases of a hook, visited in this order and then from the start again.
#[derive(Clone, Copy, Debug, PartialEq, Eq, Structural)]
pub enum HookState {
    Retracted,
    Extending,
    Extended,
    Retracting,
}

/// The phase that follows `s` in the cycle.
pub open spec fn cycle_next(s: HookState) -> HookState {
    match s {
        HookState::Retracted => HookState::Extending,
        HookState::Extending => HookState::Extended,
        HookState::Extended => HookState::Retracting,
        HookState::Retracting => HookState::Retracted,
    }
}

/// A phase change that the cycle allows: staying, or moving to the next phase.
pub open spec fn cycle_step(a: HookState, b: HookState) -> bool {
    b == a || b == cycle_next(a)
}

/// A retrievable probe that travels out from its owner, picks up what it
/// touches and brings it back.
pub struct Hook {
    pub position: Vec3,
    pub velocity: Vec3,
    pub direction: Vec2,
    pub length: i64,
    pub max_length: i64,
    pub speed: i64,
    pub state: HookState,
    pub attached_items: Vec<u32>,
    pub owner_id: u32,
}

impl Hook {
    pub open spec fn wf(&self) -> bool {
        &&& self.position.in_world()
        &&& self.velocity.within_speed()
        &&& 0 <= self.speed <= MAX_HOOK_SPEED
        &&& 0 <= self.length <= 4 * WORLD_LIMIT
        &&& 0 <= self.max_length <= WORLD_LIMIT
        &&& self.state == HookState::Extending ==> self.length <= self.max_length
    }

    pub open spec fn active(&self) -> bool {
        self.state != HookState::Retracted
    }

    /// Speed on the way back: one and a half times the outward speed.
    pub open spec fn return_speed(&self) -> int {
        self.speed * 3 / 2
    }

    /// The phase that `launch` leaves the hook in.
    pub open spec fn state_after_launch(&self) -> HookState {
        if self.active() {
            self.state
        } else {
            HookState::Extending
        }
    }

    /// The phase that `update(dt, owner)` leaves the hook in.
    pub open spec fn state_after_update(&self, dt: int, owner: Vec3) -> HookState {
        match self.state {
            HookState::Retracted => HookState::Retracted,
            HookState::Extending => if self.length + self.speed * dt >= self.max_length {
                HookState::Extended
            } else {
                HookState::Extending
            },
            HookState::Extended => HookState::Retracting,
            HookState::Retracting => if dist_sq(owner, self.position) <= CAPTURE_RADIUS * CAPTURE_RADIUS {
                HookState::Retracted
            } else {
                HookState::Retracting
            },
        }
    }

    /// How one `update(dt, owner)` that returned `done` moves the hook from
    /// `self` to `next`, apart from what it holds.
    pub open spec fn update_motion(&self, next: &Hook, dt: int, owner: Vec3, done: bool) -> bool {
        &&& next.state == self.state_after_update(dt, owner)
        &&& done == (self.state == HookState::Retracting && next.state == HookState::Retracted)
        &&& next.speed == self.speed
        &&& next.max_length == self.max_length
        &&& next.owner_id == self.owner_id
        &&& next.direction == self.direction
        &&& self.state == HookState::Retracted ==> {
            &&& next.position == self.position
            &&& next.velocity == self.velocity
            &&& next.length == self.length
        }
        &&& self.state == HookState::Extended ==> next.position == self.position
        &&& self.state == HookState::Extending ==> next.position == self.position.moved(self.velocity, dt)
        &&& self.state == HookState::Extending ==> next.length == self.length + self.speed * dt
        &&& done ==> next.position == self.position && next.length == 0
        &&& self.state == HookState::Retracting && !done ==> ({
            let delta_x = owner.x - self.position.x;
            let delta_y = owner.y - self.position.y;
            let delta_z = owner.z - self.position.z;
            let dist = int_sqrt(dist_sq(owner, self.position));
            &&& next.length == dist
            &&& next.velocity.x == rescale(delta_x, self.return_speed(), dist)
            &&& next.velocity.y == rescale(delta_y, self.return_speed(), dist)
            &&& next.velocity.z == rescale(delta_z, self.return_speed(), dist)
            &&& next.position == self.position.moved(next.velocity, dt)
        })
    }

    pub fn new(owner_id: u32) -> (r: Hook)
        ensures
            r.wf(),
            r.state == HookState::Retracted,
            r.position == (Vec3 { x: 0, y: 0, z: 0 }),
            r.velocity == (Vec3 { x: 0, y: 0, z: 0 }),
            r.direction == (Vec2 { x: UNIT, y: 0 }),
            r.length == 0,
            r.max_length == HOOK_MAX_LENGTH,
            r.speed == HOOK_SPEED,
            r.attached_items@ == Seq::<u32>::empty(),
            r.owner_id == owner_id,
    {
        Hook {
            position: Vec3::zero(),
            velocity: Vec3::zero(),
            direction: Vec2 { x: UNIT, y: 0 },
            length: 0,
            max_length: HOOK_MAX_LENGTH,
            speed: HOOK_SPEED,
            state: HookState::Retracted,
            attached_items: Vec::new(),
            owner_id,
        }
    }

    /// Whether the aim `d` gives the hook heading `dir` (in thousandths) and
    /// velocity `vel` at `speed`: `d` rescaled, or straight along x when `d` is zero.
    pub open spec fn aimed(d: Vec2, speed: int, dir: Vec2, vel: Vec3) -> bool {
        let n = int_sqrt(d.x * d.x + d.y * d.y);
        if n == 0 {
            &&& dir == (Vec2 { x: UNIT, y: 0 })
            &&& vel == (Vec3 { x: speed as i64, y: 0, z: 0 })
        } else {
            &&& dir.x == rescale(d.x as int, UNIT as int, n)
            &&& dir.y == rescale(d.y as int, UNIT as int, n)
            &&& vel.x == rescale(d.x as int, speed, n)
            &&& vel.y == rescale(d.y as int, speed, n)
            &&& vel.z == 0
        }
    }

    /// Sends a resting hook out from `start_pos` along `direction`. A hook
    /// that is already out is left as it is.
    pub fn launch(&mut self, start_pos: Vec3, direction: Vec2)
        requires
            old(self).wf(),
            start_pos.in_world(),
            coord_ok(direction.x as int),
            coord_ok(direction.y as int),
        ensures
            final(self).wf(),
            final(self).state == old(self).state_after_launch(),
            old(self).active() ==> *final(self) == *old(self),
            !old(self).active() ==> final(self).state == HookState::Extending,
            !old(self).active() ==> final(self).position == start_pos,
            !old(self).active() ==> final(self).length == 0,
            !old(self).active() ==> final(self).attached_items@ == Seq::<u32>::empty(),
            !old(self).active() ==> Hook::aimed(
                direction,
                old(self).speed as int,
                final(self).direction,
                final(self).velocity,
            ),
            final(self).speed == old(self).speed,
            final(self).max_length == old(self).max_length,
            final(self).owner_id == old(self).owner_id,
    {
        if self.state != HookState::Retracted {
            return;
        }
        let dx = direction.x as i128;
        let dy = direction.y as i128;
        proof {
            assert(0 <= dx * dx <= WORLD_LIMIT * WORLD_LIMIT) by (nonlinear_arith)
                requires
                    coord_ok(dx as int),
            ;
            assert(0 <= dy * dy <= WORLD_LIMIT * WORLD_LIMIT) by (nonlinear_arith)
                requires
                    coord_ok(dy as int),
            ;
        }
        let n = isqrt((dx * dx + dy * dy) as u128);
        self.position = start_pos;
        if n == 0 {
            self.direction = Vec2 { x: UNIT, y: 0 };
            self.velocity = Vec3 { x: self.speed, y: 0, z: 0 };
        } else {
            proof {
                lemma_component_within_norm(dx as int, dy * dy, n as int);
                assert(dy * dy + dx * dx == dx * dx + dy * dy);
                lemma_component_within_norm(dy as int, dx * dx, n as int);
            }
            self.direction = Vec2 {
                x: rescale_component(direction.x, UNIT, n),
                y: rescale_component(direction.y, UNIT, n),
            };
            self.velocity = Vec3 {
                x: rescale_component(direction.x, self.speed, n),
                y: rescale_component(direction.y, self.speed, n),
                z: 0,
            };
        }
        self.length = 0;
        self.state = HookState::Extending;
        self.attached_items.clear();
    }

    /// Advances the hook by `delta_time` milliseconds; `player_pos` is where
    /// its owner stands. Returns true on the frame the hook gets back to its owner.
    pub fn update(&mut self, delta_time: u32, player_pos: Vec3) -> (done: bool)
        requires
            old(self).wf(),
            player_pos.in_world(),
        ensures
            final(self).wf(),
            old(self).update_motion(final(self), delta_time as int, player_pos, done),
            final(self).attached_items@ == old(self).attached_items@,
    {
        match self.state {
            HookState::Retracted => false,
            HookState::Extending => {
                proof {
                    assert(0 <= self.speed * delta_time <= MAX_HOOK_SPEED * 4294967295) by (nonlinear_arith)
                        requires
                            0 <= self.speed <= MAX_HOOK_SPEED,
                            0 <= delta_time <= 4294967295,
                    ;
                }
                let travelled = self.speed * (delta_time as i64);
                self.position = self.position.advanced(&self.velocity, delta_time);
                self.length = self.length + travelled;
                if self.length >= self.max_length {
                    self.state = HookState::Extended;
                }
                false
            },
            HookState::Extended => {
                self.state = HookState::Retracting;
                false
            },
            HookState::Retracting => {
                let d2 = player_pos.distance_sq(&self.position);
                if d2 <= (CAPTURE_RADIUS as i128) * (CAPTURE_RADIUS as i128) {
                    self.state = HookState::Retracted;
                    self.length = 0;
                    return true;
                }
                let dist = isqrt(d2 as u128);
                let dx = player_pos.x - self.position.x;
                let dy = player_pos.y - self.position.y;
                let dz = player_pos.z - self.position.z;
                proof {
                    assert(dist_sq(player_pos, self.position) == dx * dx + (dy * dy + dz * dz));
                    assert(dy * dy + dz * dz >= 0) by (nonlinear_arith);
                    lemma_component_within_norm(dx as int, dy * dy + dz * dz, dist as int);
                    assert(dist_sq(player_pos, self.position) == dy * dy + (dx * dx + dz * dz));
                    assert(dx * dx + dz * dz >= 0) by (nonlinear_arith);
                    lemma_component_within_norm(dy as int, dx * dx + dz * dz, dist as int);
                    assert(dist_sq(player_pos, self.position) == dz * dz + (dx * dx + dy * dy));
                    assert(dx * dx + dy * dy >= 0) by (nonlinear_arith);
                    lemma_component_within_norm(dz as int, dx * dx + dy * dy, dist as int);
                    assert(dist > 0) by (nonlinear_arith)
                        requires
                            d2 > CAPTURE_RADIUS * CAPTURE_RADIUS,
                            d2 < (dist + 1) * (dist + 1),
                            dist >= 0,
                    ;
                    assert(dist <= 4 * WORLD_LIMIT) by (nonlinear_arith)
                        requires
                            dist * dist <= d2,
                            d2 <= 3 * 5316911983139663491615228241121378304,
                            dist >= 0,
                    ;
                }
                let back = self.speed * 3 / 2;
                self.velocity = Vec3 {
                    x: rescale_component(dx, back, dist),
                    y: rescale_component(dy, back, dist),
                    z: rescale_component(dz, back, dist),
                };
                self.position = self.position.advanced(&self.velocity, delta_time);
                self.length = dist as i64;
                false
            },
        }
    }

    /// Records that the entity `item_id` hangs on the hook; an id already
    /// recorded is not recorded twice.
    pub fn attach_item(&mut self, item_id: u32)
        ensures
            old(self).attached_items@.contains(item_id) ==> final(self).attached_items@
                == old(self).attached_items@,
            !old(self).attached_items@.contains(item_id) ==> final(self).attached_items@
                == old(self).attached_items@.push(item_id),
            final(self).position == old(self).position,
            final(self).velocity == old(self).velocity,
            final(self).direction == old(self).direction,
            final(self).length == old(self).length,
            final(self).max_length == old(self).max_length,
            final(self).speed == old(self).speed,
            final(self).state == old(self).state,
            final(self).owner_id == old(self).owner_id,
    {
        if !contains_id(&self.attached_items, item_id) {
            self.attached_items.push(item_id);
        }
    }

    /// Hands out the attached ids and forgets them.
    pub fn detach_all_items(&mut self) -> (items: Vec<u32>)
        ensures
            items@ == old(self).attached_items@,
            final(self).attached_items@ == Seq::<u32>::empty(),
            final(self).position == old(self).position,
            final(self).velocity == old(self).velocity,
            final(self).direction == old(self).direction,
            final(self).length == old(self).length,
            final(self).max_length == old(self).max_length,
            final(self).speed == old(self).speed,
            final(self).state == old(self).state,
            final(self).owner_id == old(self).owner_id,
    {
        let items = self.attached_items.clone();
        self.attached_items.clear();
        proof { assert(items@ =~= old(self).attached_items@); }
        items
    }

    pub fn is_active(&self) -> (r: bool)
        ensures
            r == self.active(),
    {
        self.state != HookState::Retracted
    }

    /// Where the travelling end of the hook is.
    pub fn get_hook_tip_position(&self) -> (r: Vec3)
        ensures
            r == self.position,
    {
        self.position
    }
}

/// A hook's phase moves only along the cycle Retracted, Extending, Extended,
/// Retracting and back to Retracted: launching and updating either keep the
/// phase or advance it by one step, and launching changes nothing unless the
/// hook rests in Retracted.
pub proof fn lemma_hook_cycle(h: Hook, delta_time: u32, owner: Vec3)
    ensures
        cycle_step(h.state, h.state_after_update(delta_time as int, owner)),
        cycle_step(h.state, h.state_after_launch()),
        h.state != HookState::Retracted ==> h.state_after_launch() == h.state,
        h.state_after_launch() != h.state ==> h.state_after_launch() == HookState::Extending,
{
}

} // verus!
