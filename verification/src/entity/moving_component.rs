//! Forces with a lifetime, and the body that they move.

use vstd::prelude::*;
use crate::fixed::{lemma_ceil_sqrt_bounds, lemma_ceil_sqrt_exists, UNITS_PER_PIXEL};
use crate::vector::{abs, Vec2};

verus! {

/// A force counts as present only when its squared magnitude exceeds this
/// (a hundredth of a pixel, squared).
pub const MAGNITUDE_THRESHOLD: u64 = 100;

/// A thrust or an acceleration counts only when its squared magnitude
/// exceeds this (a thousandth of a pixel, squared).
pub const MOTION_THRESHOLD: u64 = 1;

/// A push that lasts a number of ticks.
#[derive(Clone, Copy, Debug)]
pub struct Force {
    force: Vec2,
    depleet_time: i32,
    magnitude2: u64,
}

impl Force {
    /// The cached squared magnitude is that of the force.
    #[verifier::type_invariant]
    pub closed spec fn wf(self) -> bool {
        self.magnitude2 == self.force.norm2()
    }

    pub closed spec fn spec_force(self) -> Vec2 {
        self.force
    }

    /// How many ticks are left. A negative count never runs out.
    pub closed spec fn remaining(self) -> int {
        self.depleet_time as int
    }

    pub open spec fn spec_depleeted(self) -> bool {
        self.remaining() == 0
    }

    pub open spec fn spec_has_magnitude(self) -> bool {
        !self.spec_depleeted() && self.spec_force().norm2() > MAGNITUDE_THRESHOLD
    }

    /// The count of ticks left, one tick later.
    pub open spec fn remaining_after_tick(self) -> int {
        if self.remaining() == 0 || self.remaining() == i32::MIN {
            self.remaining()
        } else {
            self.remaining() - 1
        }
    }

    /// Whether `later` is this force one tick later.
    pub open spec fn ticks_to(self, later: Force) -> bool {
        &&& later.wf()
        &&& later.spec_force() == self.spec_force()
        &&& later.remaining() == self.remaining_after_tick()
    }

    /// The force `force`, with `depleet_time` ticks left.
    pub closed spec fn spec_new(force: Vec2, depleet_time: i32) -> Force {
        Force { force, depleet_time, magnitude2: force.norm2() as u64 }
    }

    pub fn new(force: Vec2, depleet_time: i32) -> (made: Force)
        ensures
            made == Force::spec_new(force, depleet_time),
            made.wf(),
            made.spec_force() == force,
            made.remaining() == depleet_time,
    {
        Force { force, depleet_time, magnitude2: force.magnitude2() }
    }

    pub fn force(&self) -> (force: Vec2)
        ensures
            force == self.spec_force(),
    {
        self.force
    }

    /// Lets one tick pass. Answers whether the force had run out before; if
    /// so, nothing changes.
    pub fn update(&mut self) -> (depleted: bool)
        ensures
            depleted == old(self).spec_depleeted(),
            old(self).ticks_to(*final(self)),
    {
        proof {
            use_type_invariant(&*self);
        }
        if self.depleeted() {
            return true;
        }
        if self.depleet_time > i32::MIN {
            self.depleet_time = self.depleet_time - 1;
        }
        false
    }

    pub fn has_magnitude(&self) -> (has: bool)
        ensures
            has == self.spec_has_magnitude(),
    {
        proof {
            use_type_invariant(self);
        }
        !self.depleeted() && self.magnitude2 > MAGNITUDE_THRESHOLD
    }

    pub fn depleeted(&self) -> (depleted: bool)
        ensures
            depleted == self.spec_depleeted(),
    {
        self.depleet_time == 0
    }

    fn is_pushing(&self) -> (pushing: bool)
        ensures
            pushing == (!self.spec_depleeted() && self.spec_force().norm2() > MOTION_THRESHOLD),
    {
        proof {
            use_type_invariant(self);
        }
        !self.depleeted() && self.magnitude2 > MOTION_THRESHOLD
    }
}

/// The forces that are still active one tick later, in their order: those
/// that had run out are gone, the others are one tick older.
pub open spec fn aged(forces: Seq<Force>, later: Seq<Force>) -> bool
    decreases forces.len(),
{
    if forces.len() == 0 {
        later.len() == 0
    } else if forces.last().spec_depleeted() {
        aged(forces.drop_last(), later)
    } else {
        &&& later.len() > 0
        &&& forces.last().ticks_to(later.last())
        &&& aged(forces.drop_last(), later.drop_last())
    }
}

/// Every force of the row is sound.
pub open spec fn all_sound(forces: Seq<Force>) -> bool {
    forall|i: int| 0 <= i < forces.len() ==> (#[trigger] forces[i]).wf()
}

/// The steering force after one more force has been taken in. What is left
/// of the budget is `max_force` less the length so far; with nothing left
/// the force is skipped. A force shorter than the total so far is added as
/// it is if it fits into what is left; any other is first rescaled to what
/// is left of the budget. So the total never leaves the budget.
pub open spec fn accumulated(total: Vec2, force: Vec2, max_force: int) -> Vec2 {
    let left = max_force - total.length();
    if left <= 0 {
        total
    } else if force.norm2() < total.norm2() && force.norm2() <= left * left {
        total.spec_plus(force)
    } else {
        total.spec_plus(force.spec_normalize_to(left))
    }
}

/// The steering force after a row of forces has been taken in, one after
/// the other.
pub open spec fn accumulated_all(total: Vec2, forces: Seq<Force>, max_force: int) -> Vec2
    decreases forces.len(),
{
    if forces.len() == 0 {
        total
    } else {
        accumulated(
            accumulated_all(total, forces.drop_last(), max_force),
            forces.last().spec_force(),
            max_force,
        )
    }
}

/// The steering force of a thrust and a row of forces: the thrust comes
/// first, if it has not run out and is strong enough to count.
#[verifier::opaque]
pub open spec fn steering_force(thrust: Force, forces: Seq<Force>, max_force: int) -> Vec2 {
    let start = if !thrust.spec_depleeted() && thrust.spec_force().norm2() > MOTION_THRESHOLD {
        accumulated(Vec2 { x: 0, y: 0 }, thrust.spec_force(), max_force)
    } else {
        Vec2 { x: 0, y: 0 }
    };
    accumulated_all(start, forces, max_force)
}

/// The velocity after an acceleration, held to `max_speed`.
#[verifier::opaque]
pub open spec fn limited_velocity(velocity: Vec2, acceleration: Vec2, max_speed: int) -> Vec2 {
    let sum = velocity.spec_plus(acceleration);
    if sum.norm2() > max_speed * max_speed {
        sum.spec_normalize_to(max_speed)
    } else {
        sum
    }
}

/// A body with a position and a velocity, moved by forces.
pub struct MovingComponent {
    position: Vec2,
    old_pos: Vec2,
    velocity: Vec2,
    thrust: Force,
    forces: Vec<Force>,
    mass: i32,
    max_speed: i32,
    max_force: i32,
}

impl MovingComponent {
    pub closed spec fn position(self) -> Vec2 {
        self.position
    }

    /// The position before the last move.
    pub closed spec fn checkpoint(self) -> Vec2 {
        self.old_pos
    }

    pub closed spec fn velocity(self) -> Vec2 {
        self.velocity
    }

    pub closed spec fn spec_thrust(self) -> Force {
        self.thrust
    }

    /// The forces that act besides the thrust.
    pub closed spec fn active_forces(self) -> Seq<Force> {
        self.forces@
    }

    pub closed spec fn mass(self) -> int {
        self.mass as int
    }

    pub closed spec fn max_speed(self) -> int {
        self.max_speed as int
    }

    pub closed spec fn max_force(self) -> int {
        self.max_force as int
    }

    /// The mass is positive, the limits are not negative, every force is
    /// sound, the body is no faster than its limit, and its steering force
    /// is no stronger than its limit.
    pub closed spec fn wf(self) -> bool {
        &&& self.mass() > 0
        &&& self.max_speed() >= 0
        &&& self.max_force() >= 0
        &&& self.spec_thrust().wf()
        &&& all_sound(self.active_forces())
        &&& self.velocity().norm2() <= self.max_speed() * self.max_speed()
        &&& self.steering().norm2() <= self.max_force() * self.max_force()
    }

    /// Mass and limits are those of `other`.
    pub open spec fn same_build(self, other: MovingComponent) -> bool {
        &&& self.mass() == other.mass()
        &&& self.max_speed() == other.max_speed()
        &&& self.max_force() == other.max_force()
    }

    /// The same body under another thrust.
    pub closed spec fn with_thrust(self, thrust: Force) -> MovingComponent {
        MovingComponent { thrust, ..self }
    }

    /// The same body at another position.
    pub closed spec fn with_position(self, position: Vec2) -> MovingComponent {
        MovingComponent { position, ..self }
    }

    /// A sound body has a positive mass and limits that are not negative,
    /// is never faster than its limit, and is never steered by more than
    /// its limit.
    pub proof fn lemma_within_limits(self)
        requires
            self.wf(),
        ensures
            self.mass() > 0,
            self.max_speed() >= 0,
            self.max_force() >= 0,
            self.velocity().norm2() <= self.max_speed() * self.max_speed(),
            self.steering().norm2() <= self.max_force() * self.max_force(),
    {
    }

    /// Another thrust changes nothing else.
    pub proof fn lemma_with_thrust(self, thrust: Force)
        ensures
            self.wf() && thrust.wf() ==> self.with_thrust(thrust).wf(),
            self.with_thrust(thrust).spec_thrust() == thrust,
            self.with_thrust(thrust).position() == self.position(),
            self.with_thrust(thrust).checkpoint() == self.checkpoint(),
            self.with_thrust(thrust).velocity() == self.velocity(),
            self.with_thrust(thrust).active_forces() == self.active_forces(),
            self.with_thrust(thrust).same_build(self),
    {
        if self.wf() {
            lemma_steering_within_budget(thrust, self.active_forces(), self.max_force());
        }
    }

    /// Another position changes nothing else, and of two positions given
    /// one after the other the second stays.
    pub proof fn lemma_with_position(self, position: Vec2)
        ensures
            self.with_position(self.position()) == self,
            self.wf() ==> self.with_position(position).wf(),
            self.with_position(position).position() == position,
            self.with_position(position).spec_thrust() == self.spec_thrust(),
            self.with_position(position).checkpoint() == self.checkpoint(),
            self.with_position(position).velocity() == self.velocity(),
            self.with_position(position).active_forces() == self.active_forces(),
            self.with_position(position).same_build(self),
    {
    }

    /// Of two positions given one after the other the second stays.
    pub proof fn lemma_with_position_twice(self, first: Vec2, second: Vec2)
        ensures
            self.with_position(first).with_position(second) == self.with_position(second),
    {
    }

    pub fn thrust(&self) -> (thrust: &Force)
        ensures
            *thrust == self.spec_thrust(),
    {
        &self.thrust
    }

    pub fn set_thrust(&mut self, thrust: Force)
        ensures
            *final(self) == old(self).with_thrust(thrust),
            old(self).wf() ==> final(self).wf(),
    {
        proof {
            use_type_invariant(&thrust);
            self.lemma_with_thrust(thrust);
        }
        self.thrust = thrust;
    }

    pub fn pos(&self) -> (pos: Vec2)
        ensures
            pos == self.position(),
    {
        self.position
    }

    pub fn set_pos(&mut self, pos: Vec2)
        ensures
            *final(self) == old(self).with_position(pos),
            old(self).wf() ==> final(self).wf(),
    {
        self.position = pos;
    }

    /// Goes back to where the body was before its last move.
    pub fn reset_pos(&mut self)
        ensures
            *final(self) == old(self).with_position(old(self).checkpoint()),
            old(self).wf() ==> final(self).wf(),
    {
        self.position = self.old_pos;
    }

    /// A body at rest at the origin, with no force acting on it.
    pub fn new(mass: i32, max_speed: i32, max_force: i32) -> (body: MovingComponent)
        requires
            mass > 0,
            max_speed >= 0,
            max_force >= 0,
        ensures
            body.wf(),
            body.position() == (Vec2 { x: 0, y: 0 }),
            body.checkpoint() == (Vec2 { x: 0, y: 0 }),
            body.velocity() == (Vec2 { x: 0, y: 0 }),
            body.spec_thrust().spec_force() == (Vec2 { x: 0, y: 0 }),
            body.spec_thrust().remaining() == 0,
            body.active_forces().len() == 0,
            body.mass() == mass,
            body.max_speed() == max_speed,
            body.max_force() == max_force,
    {
        let body = MovingComponent {
            old_pos: Vec2::zero(),
            position: Vec2::zero(),
            velocity: Vec2::zero(),
            thrust: Force::new(Vec2::zero(), 0),
            forces: Vec::new(),
            mass,
            max_speed,
            max_force,
        };
        assert(max_speed * max_speed >= 0) by (nonlinear_arith);
        proof {
            lemma_steering_within_budget(body.thrust, body.forces@, max_force as int);
        }
        body
    }

    /// Lets one tick pass: takes in `forces`, ages every force and drops
    /// those that have run out, turns what is left into an acceleration,
    /// and moves. With `reset` the body starts the tick at rest. Answers
    /// whether it was accelerated enough to count.
    pub fn update(&mut self, forces: &[Force], reset: bool) -> (accelerated: bool)
        requires
            old(self).wf(),
        ensures
            final(self).wf(),
            final(self).same_build(*old(self)),
            old(self).spec_thrust().ticks_to(final(self).spec_thrust()),
            aged(old(self).active_forces() + forces@, final(self).active_forces()),
            final(self).velocity() == limited_velocity(
                if reset {
                    Vec2 { x: 0, y: 0 }
                } else {
                    old(self).velocity()
                },
                final(self).acceleration(),
                final(self).max_speed(),
            ),
            final(self).velocity().norm2() <= final(self).max_speed() * final(self).max_speed(),
            final(self).steering().norm2() <= final(self).max_force() * final(self).max_force(),
            final(self).checkpoint() == old(self).position(),
            final(self).position() == old(self).position().spec_plus(final(self).velocity()),
            accelerated == (final(self).acceleration().norm2() > MOTION_THRESHOLD),
    {
        reveal(limited_velocity);
        let ghost before = *self;
        let ghost all = self.forces@ + forces@;
        let mut kept: Vec<Force> = Vec::new();
        let count = self.forces.len();
        let mut i: usize = 0;
        while i < count
            invariant
                *self == before,
                count == self.forces@.len(),
                i <= count,
                all == self.forces@ + forces@,
                aged(all.subrange(0, i as int), kept@),
                all_sound(kept@),
            decreases count - i,
        {
            let mut force = self.forces[i];
            let depleted = force.update();
            proof {
                lemma_aged_step(all, i as int, kept@, force);
            }
            if !depleted {
                kept.push(force);
            }
            i += 1;
        }
        let added = forces.len();
        let mut j: usize = 0;
        while j < added
            invariant
                *self == before,
                count == self.forces@.len(),
                added == forces@.len(),
                j <= added,
                all == self.forces@ + forces@,
                aged(all.subrange(0, count + j), kept@),
                all_sound(kept@),
            decreases added - j,
        {
            let mut force = forces[j];
            let depleted = force.update();
            proof {
                lemma_aged_step(all, count + j, kept@, force);
            }
            if !depleted {
                kept.push(force);
            }
            j += 1;
        }
        assert(all.subrange(0, count + added) == all);
        self.forces = kept;
        self.thrust.update();

        let steering_force = self.calculate();
        let acceleration = steering_force.scaled(UNITS_PER_PIXEL, self.mass);
        if reset {
            self.velocity = Vec2::zero();
        }
        let mut velocity = self.velocity.plus(acceleration);
        let limit = self.max_speed as u64;
        assert(limit * limit <= 0x7fff_ffff * 0x7fff_ffff) by (nonlinear_arith)
            requires
                0 <= limit <= 0x7fff_ffff,
        ;
        if velocity.magnitude2() > limit * limit {
            proof {
                velocity.lemma_normalize_to_within(self.max_speed as int);
            }
            velocity = velocity.normalize_to(self.max_speed);
        }
        self.velocity = velocity;
        self.old_pos = self.position;
        self.position = self.position.plus(self.velocity);
        acceleration.magnitude2() > MOTION_THRESHOLD
    }

    /// The steering force of this tick.
    pub open spec fn steering(self) -> Vec2 {
        steering_force(self.spec_thrust(), self.active_forces(), self.max_force())
    }

    /// The acceleration of this tick: the steering force divided by the
    /// mass.
    pub open spec fn acceleration(self) -> Vec2 {
        self.steering().spec_scaled(UNITS_PER_PIXEL as int, self.mass())
    }

    /// Adds up the thrust and the other forces within the budget of
    /// `max_force`.
    pub fn calculate(&self) -> (steering: Vec2)
        ensures
            steering == self.steering(),
            steering.norm2() <= self.max_force() * self.max_force(),
    {
        reveal(steering_force);
        proof {
            lemma_steering_within_budget(self.spec_thrust(), self.active_forces(), self.max_force());
        }
        let mut steering_force = Vec2::zero();
        if self.thrust.is_pushing() {
            self.accumulate_force(&mut steering_force, self.thrust.force());
        }
        let ghost start = steering_force;
        let count = self.forces.len();
        let mut i: usize = 0;
        while i < count
            invariant
                count == self.forces@.len(),
                i <= count,
                steering_force == accumulated_all(
                    start,
                    self.forces@.subrange(0, i as int),
                    self.max_force(),
                ),
            decreases count - i,
        {
            let ghost done = self.forces@.subrange(0, i as int);
            let ghost next = self.forces@.subrange(0, i + 1);
            assert(next.drop_last() == done);
            self.accumulate_force(&mut steering_force, self.forces[i].force());
            i += 1;
        }
        assert(self.forces@.subrange(0, count as int) == self.forces@);
        steering_force
    }

    /// Takes one more force into the running total, within the budget.
    /// Answers whether any of the budget was left.
    pub fn accumulate_force(&self, running_total: &mut Vec2, force_to_add: Vec2) -> (added: bool)
        ensures
            *final(running_total) == accumulated(
                *old(running_total),
                force_to_add,
                self.max_force(),
            ),
            added == (self.max_force() - old(running_total).length() > 0),
            old(running_total).norm2() <= self.max_force() * self.max_force()
                ==> final(running_total).norm2() <= self.max_force() * self.max_force(),
    {
        proof {
            if running_total.norm2() <= self.max_force() * self.max_force() {
                lemma_accumulated_within(*running_total, force_to_add, self.max_force());
            }
        }
        let magnitude_so_far = running_total.magnitude() as i64;
        let magnitude_remaining = self.max_force as i64 - magnitude_so_far;
        if magnitude_remaining <= 0 {
            return false;
        }
        let left = magnitude_remaining as u64;
        assert(left * left <= 0x7fff_ffff * 0x7fff_ffff) by (nonlinear_arith)
            requires
                0 <= left <= 0x7fff_ffff,
        ;
        let to_add = force_to_add.magnitude2();
        if to_add < running_total.magnitude2() && to_add <= left * left {
            *running_total = running_total.plus(force_to_add);
        } else {
            *running_total = running_total.plus(
                force_to_add.normalize_to(magnitude_remaining as i32),
            );
        }
        true
    }
}

/// Ageing one more force extends what has been aged so far.
proof fn lemma_aged_step(all: Seq<Force>, i: int, kept: Seq<Force>, later: Force)
    requires
        0 <= i < all.len(),
        aged(all.subrange(0, i), kept),
        all[i].ticks_to(later),
    ensures
        all[i].spec_depleeted() ==> aged(all.subrange(0, i + 1), kept),
        !all[i].spec_depleeted() ==> aged(all.subrange(0, i + 1), kept.push(later)),
{
    let next = all.subrange(0, i + 1);
    assert(next.drop_last() == all.subrange(0, i));
    assert(kept.push(later).drop_last() == kept);
}

/// The triangle inequality, on squares: two vectors no longer than `s` and
/// `l` add up to one no longer than `s + l`.
pub proof fn lemma_triangle(a: int, b: int, c: int, d: int, s: int, l: int)
    requires
        0 <= s,
        0 <= l,
        a * a + b * b <= s * s,
        c * c + d * d <= l * l,
    ensures
        (a + c) * (a + c) + (b + d) * (b + d) <= (s + l) * (s + l),
{
    let p = a * c + b * d;
    let q = a * d - b * c;
    let n1 = a * a + b * b;
    let n2 = c * c + d * d;
    let ac = a * c;
    let bd = b * d;
    let ad = a * d;
    let bc = b * c;
    assert(p * p == ac * ac + 2 * (ac * bd) + bd * bd) by (nonlinear_arith)
        requires
            p == ac + bd,
    ;
    assert(q * q == ad * ad - 2 * (ad * bc) + bc * bc) by (nonlinear_arith)
        requires
            q == ad - bc,
    ;
    assert(ac * bd == ad * bc) by (nonlinear_arith)
        requires
            ac == a * c,
            bd == b * d,
            ad == a * d,
            bc == b * c,
    ;
    let aa = a * a;
    let bb = b * b;
    let cc = c * c;
    let dd = d * d;
    assert(n1 * n2 == aa * cc + aa * dd + bb * cc + bb * dd) by (nonlinear_arith)
        requires
            n1 == aa + bb,
            n2 == cc + dd,
    ;
    assert(aa * cc == ac * ac) by (nonlinear_arith)
        requires
            aa == a * a,
            cc == c * c,
            ac == a * c,
    ;
    assert(aa * dd == ad * ad) by (nonlinear_arith)
        requires
            aa == a * a,
            dd == d * d,
            ad == a * d,
    ;
    assert(bb * cc == bc * bc) by (nonlinear_arith)
        requires
            bb == b * b,
            cc == c * c,
            bc == b * c,
    ;
    assert(bb * dd == bd * bd) by (nonlinear_arith)
        requires
            bb == b * b,
            dd == d * d,
            bd == b * d,
    ;
    assert(q * q >= 0) by (nonlinear_arith);
    assert(n1 >= 0 && n2 >= 0) by (nonlinear_arith)
        requires
            n1 == a * a + b * b,
            n2 == c * c + d * d,
    ;
    assert(n1 * n2 <= (s * s) * (l * l)) by (nonlinear_arith)
        requires
            0 <= n1 <= s * s,
            0 <= n2 <= l * l,
    ;
    assert((s * s) * (l * l) == (s * l) * (s * l)) by (nonlinear_arith);
    assert(p <= s * l) by (nonlinear_arith)
        requires
            p * p <= (s * l) * (s * l),
            0 <= s,
            0 <= l,
    ;
    assert((a + c) * (a + c) + (b + d) * (b + d) == n1 + n2 + 2 * p) by (nonlinear_arith)
        requires
            p == a * c + b * d,
            n1 == a * a + b * b,
            n2 == c * c + d * d,
    ;
    assert((s + l) * (s + l) == s * s + l * l + 2 * (s * l)) by (nonlinear_arith);
}

/// A component of a vector is no longer than the vector.
pub proof fn lemma_component_bound(v: Vec2, bound: int)
    requires
        0 <= bound,
        v.norm2() <= bound * bound,
    ensures
        -bound <= v.x <= bound,
        -bound <= v.y <= bound,
        v.length() <= bound,
{
    let x = v.x as int;
    let y = v.y as int;
    assert(x * x >= 0 && y * y >= 0) by (nonlinear_arith);
    assert(-bound <= x <= bound) by (nonlinear_arith)
        requires
            x * x <= bound * bound,
            0 <= bound,
    ;
    assert(-bound <= y <= bound) by (nonlinear_arith)
        requires
            y * y <= bound * bound,
            0 <= bound,
    ;
    lemma_ceil_sqrt_exists(v.norm2());
    let s = v.length() as int;
    if s > bound {
        assert((s - 1) * (s - 1) >= bound * bound) by (nonlinear_arith)
            requires
                s - 1 >= bound,
                bound >= 0,
        ;
    }
}

/// A total within the budget stays within the budget, whatever force it
/// takes in.
pub proof fn lemma_accumulated_within(total: Vec2, force: Vec2, max_force: int)
    requires
        max_force <= i32::MAX,
        total.norm2() <= max_force * max_force,
    ensures
        accumulated(total, force, max_force).norm2() <= max_force * max_force,
{
    let s = total.length() as int;
    let left = max_force - s;
    if left > 0 {
        lemma_component_bound(total, max_force);
        lemma_ceil_sqrt_exists(total.norm2());
        let g = if force.norm2() < total.norm2() && force.norm2() <= left * left {
            force
        } else {
            force.spec_normalize_to(left)
        };
        force.lemma_normalize_to_within(left);
        lemma_component_bound(g, left);
        lemma_component_bound(total, s);
        let sum = total.spec_plus(g);
        lemma_triangle(total.x as int, total.y as int, g.x as int, g.y as int, s, left);
        let sx = sum.x as int;
        let sy = sum.y as int;
        assert(sx * sx >= 0 && sy * sy >= 0) by (nonlinear_arith);
        assert((s + left) * (s + left) == max_force * max_force) by (nonlinear_arith)
            requires
                s + left == max_force,
        ;
    }
}

/// Whatever the thrust and the forces, the steering force stays within the
/// budget: however many forces are summed, they do not add up beyond it.
pub proof fn lemma_steering_within_budget(thrust: Force, forces: Seq<Force>, max_force: int)
    requires
        max_force <= i32::MAX,
    ensures
        steering_force(thrust, forces, max_force).norm2() <= max_force * max_force,
{
    reveal(steering_force);
    let zero = Vec2 { x: 0, y: 0 };
    assert(max_force * max_force >= 0) by (nonlinear_arith);
    let start = if !thrust.spec_depleeted() && thrust.spec_force().norm2() > MOTION_THRESHOLD {
        accumulated(zero, thrust.spec_force(), max_force)
    } else {
        zero
    };
    lemma_accumulated_within(zero, thrust.spec_force(), max_force);
    lemma_accumulated_all_within(start, forces, max_force);
}

/// The same, from any total within the budget.
pub proof fn lemma_accumulated_all_within(total: Vec2, forces: Seq<Force>, max_force: int)
    requires
        max_force <= i32::MAX,
        total.norm2() <= max_force * max_force,
    ensures
        accumulated_all(total, forces, max_force).norm2() <= max_force * max_force,
    decreases forces.len(),
{
    if forces.len() > 0 {
        lemma_accumulated_all_within(total, forces.drop_last(), max_force);
        lemma_accumulated_within(
            accumulated_all(total, forces.drop_last(), max_force),
            forces.last().spec_force(),
            max_force,
        );
    }
}

} // verus!
