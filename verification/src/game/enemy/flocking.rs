//! Flocking: the steering vector that keeps hunting enemies in formation.
//!
//! Directions are kept in millionths. A push away from a neighbor keeps
//! eighteen decimals, so that the weakest push still points somewhere. The
//! steering vector is cut to whole steps once, when the three pulls have been
//! added up.
//!
//! The force on an enemy is computed from a snapshot of all enemies, taken
//! once per tick and not changed while the forces are computed. Three pulls
//! are added up: toward the middle of the neighbors (cohesion), along their
//! common heading (alignment), and away from those that are too close
//! (separation).

use vstd::prelude::*;
use crate::fixed::{divide, quotient, saturate};
use crate::game::enemy::components::FlockingBehavior;
use crate::game::enemy::targeting::distance_squared;
use crate::vector::{
    closer_than, held_wide, is_closer_than, lemma_length_up, lemma_normalized_length,
    lemma_over_shortens, lemma_stored_shortens, lemma_sum_length, lemma_times_lengthens, times,
    Vec3, Vector, Wide3, UNIT,
};

verus! {

/// What flocking reads of one enemy: where it is and how it was steered in
/// the last tick.
#[derive(Clone, Copy, Debug, PartialEq, Eq, Structural)]
pub struct FlockMember {
    pub position: Vec3,
    pub velocity: Vec3,
}

/// `other` is a neighbor of `me`: it stands closer than the neighbor range.
pub open spec fn is_neighbor(
    me: FlockMember,
    other: FlockMember,
    params: FlockingBehavior,
) -> bool {
    is_closer_than(distance_squared(me.position, other.position), params.neighbor_range as int)
}

/// `other` is too close to `me`: it stands closer than the separation
/// distance.
pub open spec fn is_too_close(
    me: FlockMember,
    other: FlockMember,
    params: FlockingBehavior,
) -> bool {
    is_closer_than(
        distance_squared(me.position, other.position),
        params.separation_distance as int,
    )
}

/// Number of steps of strength in a whole one.
pub const FULL_STRENGTH: i64 = 1000000000;

/// The longest that a push can be: the square of a full strength.
pub const FULL_PUSH: i64 = 1000000000000000000;

/// The share of the separation distance by which a neighbor at `offset`
/// intrudes, with nine decimals. The distance to the neighbor is taken in
/// millionths of a step, rounded up.
pub open spec fn intrusion(offset: Vector, separation_distance: int) -> int {
    let reach = offset.times(UNIT as int).length_up();
    let room = separation_distance * UNIT;
    quotient((room - reach) * FULL_STRENGTH, room)
}

/// The push away from a neighbor at `offset` that is too close: a vector
/// against `offset` whose length is the square of the share of the separation
/// distance that the neighbor intrudes by. A push of length one is
/// [`FULL_PUSH`].
pub open spec fn repulsion(offset: Vector, separation_distance: int) -> Vector {
    let strength = intrusion(offset, separation_distance);
    offset.unit()@.times(-(strength * strength)).over(UNIT as int)
}

/// What has been added up over the neighbors of an enemy.
pub struct FlockSums {
    /// Number of neighbors.
    pub count: int,
    /// Sum of their positions.
    pub cohesion: Vector,
    /// Sum of their steering vectors.
    pub alignment: Vector,
    /// Sum of the pushes away from those that are too close.
    pub separation: Vector,
}

impl FlockSums {
    pub open spec fn none() -> FlockSums {
        FlockSums {
            count: 0,
            cohesion: Vector::zero(),
            alignment: Vector::zero(),
            separation: Vector::zero(),
        }
    }

    /// The sums with `other` counted in, where it is a neighbor of `me`.
    pub open spec fn with(
        self,
        me: FlockMember,
        other: FlockMember,
        params: FlockingBehavior,
    ) -> FlockSums {
        if is_neighbor(me, other, params) {
            FlockSums {
                count: self.count + 1,
                cohesion: self.cohesion.plus(other.position@),
                alignment: self.alignment.plus(other.velocity@),
                separation: if is_too_close(me, other, params) {
                    self.separation.plus(
                        repulsion(
                            other.position@.minus(me.position@),
                            params.separation_distance as int,
                        ),
                    )
                } else {
                    self.separation
                },
            }
        } else {
            self
        }
    }
}

/// The sums over the neighbors of enemy `me` among the first `upto` enemies of
/// the snapshot. An enemy is no neighbor of itself.
pub open spec fn flock_sums(
    snapshot: Seq<FlockMember>,
    me: int,
    params: FlockingBehavior,
    upto: int,
) -> FlockSums
    decreases upto,
{
    if upto <= 0 {
        FlockSums::none()
    } else {
        let before = flock_sums(snapshot, me, params, upto - 1);
        if upto - 1 == me {
            before
        } else {
            before.with(snapshot[me], snapshot[upto - 1], params)
        }
    }
}

/// The direction from `position` to the middle of the neighbors. The mean of
/// their positions less `position` points the same way as the sum of their
/// positions less `position` as many times as there are neighbors, which is
/// exact.
pub open spec fn cohesion_direction(sums: FlockSums, position: Vec3) -> Vec3 {
    sums.cohesion.minus(position@.times(sums.count)).held_wide().unit()
}

/// The direction of the mean steering vector of the neighbors, which is that
/// of the sum of their steering vectors.
pub open spec fn alignment_direction(sums: FlockSums) -> Vec3 {
    sums.alignment.held_wide().unit()
}

/// The direction of the pushes away from the neighbors that are too close,
/// which is that of their sum shared out among the neighbors.
pub open spec fn separation_direction(sums: FlockSums) -> Vec3 {
    sums.separation.over(sums.count).held_wide().unit()
}

/// The three pulls, each a direction times its weight, added up, in
/// millionths of a step.
pub open spec fn pull(sums: FlockSums, position: Vec3, params: FlockingBehavior) -> Vector {
    cohesion_direction(sums, position)@.times(params.cohesion_weight as int).plus(
        alignment_direction(sums)@.times(params.alignment_weight as int),
    ).plus(separation_direction(sums)@.times(params.separation_weight as int))
}

/// The steering vector for sums over at least one neighbor: the three pulls
/// added up and cut to whole steps.
pub open spec fn combined(sums: FlockSums, position: Vec3, params: FlockingBehavior) -> Vec3 {
    pull(sums, position, params).over(UNIT as int).stored()
}

/// The steering vector of enemy `me`: zero for an enemy without neighbors.
pub open spec fn steering(snapshot: Seq<FlockMember>, me: int, params: FlockingBehavior) -> Vec3 {
    let sums = flock_sums(snapshot, me, params, snapshot.len() as int);
    if sums.count > 0 {
        combined(sums, snapshot[me].position, params)
    } else {
        Vector::zero().stored()
    }
}

/// A weight without its sign.
pub open spec fn magnitude(weight: int) -> int {
    if weight >= 0 {
        weight
    } else {
        -weight
    }
}

/// The three weights together, each without its sign: the longest that a
/// steering vector can be.
pub open spec fn weights_together(params: FlockingBehavior) -> int {
    magnitude(params.cohesion_weight as int) + magnitude(params.alignment_weight as int)
        + magnitude(params.separation_weight as int)
}

/// A direction times a weight is no longer than the weight, in millionths.
proof fn lemma_pull_length(direction: Vector, weight: int)
    requires
        direction.is_direction(),
    ensures
        direction.times(weight).length_squared() <= (magnitude(weight) * UNIT) * (magnitude(weight)
            * UNIT),
        0 <= magnitude(weight) * UNIT,
{
    lemma_times_lengthens(direction, weight);
    let q = direction.length_squared();
    let m = magnitude(weight);
    assert(weight * weight * q <= (m * 1000000) * (m * 1000000)) by (nonlinear_arith)
        requires
            q <= 1000000 * 1000000,
            m == weight || m == -weight,
    ;
    assert(0 <= m * 1000000) by (nonlinear_arith)
        requires
            0 <= m,
    ;
}

/// A steering vector is no longer than the three weights together.
pub proof fn lemma_steering_length(snapshot: Seq<FlockMember>, me: int, params: FlockingBehavior)
    ensures
        steering(snapshot, me, params)@.length_squared() <= weights_together(params)
            * weights_together(params),
{
    let sums = flock_sums(snapshot, me, params, snapshot.len() as int);
    let w = weights_together(params);
    assert(0 <= w * w) by (nonlinear_arith);
    if sums.count > 0 {
        let position = snapshot[me].position;
        let c = cohesion_direction(sums, position)@;
        let a = alignment_direction(sums)@;
        let s = separation_direction(sums)@;
        lemma_normalized_length(sums.cohesion.minus(position@.times(sums.count)).held_wide());
        lemma_normalized_length(sums.alignment.held_wide());
        lemma_normalized_length(sums.separation.over(sums.count).held_wide());
        let wc = params.cohesion_weight as int;
        let wa = params.alignment_weight as int;
        let ws = params.separation_weight as int;
        lemma_pull_length(c, wc);
        lemma_pull_length(a, wa);
        lemma_pull_length(s, ws);
        let p = magnitude(wc) * UNIT;
        let q = magnitude(wa) * UNIT;
        let r = magnitude(ws) * UNIT;
        lemma_sum_length(c.times(wc), a.times(wa), p, q);
        lemma_sum_length(c.times(wc).plus(a.times(wa)), s.times(ws), p + q, r);
        let pulled = pull(sums, position, params);
        assert(p + q + r == w * 1000000) by (nonlinear_arith)
            requires
                p == magnitude(wc) * 1000000,
                q == magnitude(wa) * 1000000,
                r == magnitude(ws) * 1000000,
                w == magnitude(wc) + magnitude(wa) + magnitude(ws),
        ;
        lemma_over_shortens(pulled, 1000000);
        let t = pulled.over(1000000).length_squared();
        assert(t <= w * w) by (nonlinear_arith)
            requires
                t * (1000000 * 1000000) <= pulled.length_squared(),
                pulled.length_squared() <= (w * 1000000) * (w * 1000000),
                0 <= t,
        ;
        lemma_stored_shortens(pulled.over(1000000));
        assert(steering(snapshot, me, params) == pulled.over(1000000).stored());
    } else {
        let still = steering(snapshot, me, params)@;
        assert(still == Vector::zero());
        assert(still.length_squared() == 0) by (nonlinear_arith)
            requires
                still.x == 0 && still.y == 0 && still.z == 0,
                still.length_squared() == still.x * still.x + still.y * still.y + still.z * still.z,
        ;
    }
}

/// An enemy of which no other enemy is a neighbor has no neighbors counted.
pub proof fn lemma_isolated_has_no_neighbors(
    snapshot: Seq<FlockMember>,
    me: int,
    params: FlockingBehavior,
    upto: int,
)
    requires
        0 <= me < snapshot.len(),
        upto <= snapshot.len(),
        forall|j: int|
            0 <= j < snapshot.len() && j != me ==> !is_neighbor(
                snapshot[me],
                #[trigger] snapshot[j],
                params,
            ),
    ensures
        flock_sums(snapshot, me, params, upto) == FlockSums::none(),
    decreases upto,
{
    if upto > 0 {
        lemma_isolated_has_no_neighbors(snapshot, me, params, upto - 1);
    }
}

/// An isolated enemy, one of which no other enemy is a neighbor, is steered by
/// the zero vector.
pub proof fn lemma_isolated_is_not_steered(
    snapshot: Seq<FlockMember>,
    me: int,
    params: FlockingBehavior,
)
    requires
        0 <= me < snapshot.len(),
        forall|j: int|
            0 <= j < snapshot.len() && j != me ==> !is_neighbor(
                snapshot[me],
                #[trigger] snapshot[j],
                params,
            ),
    ensures
        steering(snapshot, me, params) == (Vec3 { x: 0, y: 0, z: 0 }),
{
    lemma_isolated_has_no_neighbors(snapshot, me, params, snapshot.len() as int);
}

/// The sums kept while the neighbors are walked through.
struct Accumulator {
    count: usize,
    cohesion: (i128, i128, i128),
    alignment: (i128, i128, i128),
    separation: (i128, i128, i128),
}

impl Accumulator {
    spec fn sums(self) -> FlockSums {
        FlockSums {
            count: self.count as int,
            cohesion: Vector {
                x: self.cohesion.0 as int,
                y: self.cohesion.1 as int,
                z: self.cohesion.2 as int,
            },
            alignment: Vector {
                x: self.alignment.0 as int,
                y: self.alignment.1 as int,
                z: self.alignment.2 as int,
            },
            separation: Vector {
                x: self.separation.0 as int,
                y: self.separation.1 as int,
                z: self.separation.2 as int,
            },
        }
    }

    /// No sum is larger than `n` of its largest terms.
    spec fn bounded(self, n: int) -> bool {
        &&& self.count <= n
        &&& self.sums().cohesion.within(n * 0x8000_0000)
        &&& self.sums().alignment.within(n * 0x8000_0000)
        &&& self.sums().separation.within(n * FULL_PUSH)
    }
}

/// The neighbor at `offset` is closer than `separation_distance`, so its
/// distance in millionths of a step, rounded up, is no more than the
/// separation distance in millionths.
proof fn lemma_reach(offset: Vector, separation_distance: int)
    requires
        is_closer_than(offset.length_squared(), separation_distance),
    ensures
        0 <= offset.times(UNIT as int).length_up() <= separation_distance * UNIT,
        0 < separation_distance * UNIT,
{
    let m = offset.times(UNIT as int);
    lemma_length_up(m);
    lemma_times_lengthens(offset, UNIT as int);
    let l = m.length_up();
    let room = separation_distance * UNIT;
    let s = offset.length_squared();
    if l > room {
        assert(false) by (nonlinear_arith)
            requires
                (l - 1) * (l - 1) < 1000000 * 1000000 * s,
                s < separation_distance * separation_distance,
                room == separation_distance * 1000000,
                l > room,
                0 < separation_distance,
        ;
    }
}

proof fn lemma_strength(reach: int, room: int)
    requires
        0 <= reach <= room,
        0 < room,
    ensures
        0 <= (room - reach) * 1000000000,
        0 <= quotient((room - reach) * 1000000000, room) <= 1000000000,
{
    let gap = room - reach;
    assert(0 <= (gap * 1000000000) / room <= 1000000000) by (nonlinear_arith)
        requires
            0 <= gap <= room,
            0 < room,
    ;
}

proof fn lemma_falloff(strength: int)
    requires
        0 <= strength <= 1000000000,
    ensures
        0 <= strength * strength <= 1000000000000000000,
{
    assert(0 <= strength * strength <= 1000000000 * 1000000000) by (nonlinear_arith)
        requires
            0 <= strength <= 1000000000,
    ;
}

proof fn lemma_push(c: int, falloff: int)
    requires
        -1000000 <= c <= 1000000,
        0 <= falloff <= 1000000000000000000,
    ensures
        -1000000 * 1000000000000000000 <= c * (-falloff) <= 1000000 * 1000000000000000000,
        -1000000000000000000 <= quotient(c * (-falloff), 1000000) <= 1000000000000000000,
{
    assert(-1000000 * 1000000000000000000 <= c * (-falloff) <= 1000000 * 1000000000000000000)
        by (nonlinear_arith)
        requires
            -1000000 <= c <= 1000000,
            0 <= falloff <= 1000000000000000000,
    ;
}

/// The push away from a neighbor that is too close.
fn push_away(offset: &Wide3, separation_distance: i32) -> (push: Wide3)
    requires
        is_closer_than(offset@.length_squared(), separation_distance as int),
        offset@.within(0x1_0000_0000),
    ensures
        push@ == repulsion(offset@, separation_distance as int),
        push@.within(FULL_PUSH as int),
{
    let room: i128 = separation_distance as i128 * 1000000;
    let magnified: Wide3 = offset.magnify();
    let reach: i128 = magnified.length_up() as i128;
    proof {
        lemma_reach(offset@, separation_distance as int);
        lemma_strength(reach as int, room as int);
    }
    let strength: i128 = divide((room - reach) * 1000000000, room);
    proof {
        lemma_falloff(strength as int);
    }
    let falloff: i128 = strength * strength;
    let unit: Vec3 = offset.normalize_or_zero();
    proof {
        lemma_push(unit.x as int, falloff as int);
        lemma_push(unit.y as int, falloff as int);
        lemma_push(unit.z as int, falloff as int);
    }
    Wide3 {
        x: divide(unit.x as i128 * (-falloff), 1000000) as i64,
        y: divide(unit.y as i128 * (-falloff), 1000000) as i64,
        z: divide(unit.z as i128 * (-falloff), 1000000) as i64,
    }
}

/// Counts `other` in, where it is a neighbor of `me`.
fn count_in(
    acc: Accumulator,
    me: &FlockMember,
    other: &FlockMember,
    params: &FlockingBehavior,
    Ghost(n): Ghost<int>,
) -> (next: Accumulator)
    requires
        0 <= n < usize::MAX,
        acc.bounded(n),
    ensures
        next.sums() == acc.sums().with(*me, *other, *params),
        next.bounded(n + 1),
{
    let offset: Wide3 = me.position.offset_to(&other.position);
    let squared: u128 = offset.length_squared();
    if closer_than(squared, params.neighbor_range) {
        let separation = if closer_than(squared, params.separation_distance) {
            let push = push_away(&offset, params.separation_distance);
            (
                acc.separation.0 + push.x as i128,
                acc.separation.1 + push.y as i128,
                acc.separation.2 + push.z as i128,
            )
        } else {
            acc.separation
        };
        Accumulator {
            count: acc.count + 1,
            cohesion: (
                acc.cohesion.0 + other.position.x as i128,
                acc.cohesion.1 + other.position.y as i128,
                acc.cohesion.2 + other.position.z as i128,
            ),
            alignment: (
                acc.alignment.0 + other.velocity.x as i128,
                acc.alignment.1 + other.velocity.y as i128,
                acc.alignment.2 + other.velocity.z as i128,
            ),
            separation,
        }
    } else {
        acc
    }
}

fn hold_wide(v: i128) -> (r: i64)
    ensures
        r == held_wide(v as int),
{
    if v < -0x8000_0000_0000_0000 {
        -0x8000_0000_0000_0000
    } else if v > 0x7fff_ffff_ffff_ffff {
        0x7fff_ffff_ffff_ffff
    } else {
        v as i64
    }
}

/// The steering vector of enemy `me` of the snapshot.
pub fn flocking_force(snapshot: &Vec<FlockMember>, me: usize, params: &FlockingBehavior) -> (force:
    Vec3)
    requires
        me < snapshot.len(),
    ensures
        force == steering(snapshot@, me as int, *params),
        force@.length_squared() <= weights_together(*params) * weights_together(*params),
{
    proof {
        lemma_steering_length(snapshot@, me as int, *params);
    }
    let mine: FlockMember = snapshot[me];
    let mut acc = Accumulator {
        count: 0,
        cohesion: (0, 0, 0),
        alignment: (0, 0, 0),
        separation: (0, 0, 0),
    };
    let mut j: usize = 0;
    while j < snapshot.len()
        invariant
            j <= snapshot.len(),
            me < snapshot.len(),
            mine == snapshot[me as int],
            acc.sums() == flock_sums(snapshot@, me as int, *params, j as int),
            acc.bounded(j as int),
        decreases snapshot.len() - j,
    {
        if j != me {
            acc = count_in(acc, &mine, &snapshot[j], params, Ghost(j as int));
        }
        j += 1;
    }
    if acc.count == 0 {
        return Vec3::zero();
    }
    let count: i128 = acc.count as i128;
    proof {
        lemma_times_count(count as int, mine.position.x as int);
        lemma_times_count(count as int, mine.position.y as int);
        lemma_times_count(count as int, mine.position.z as int);
        lemma_times_count(snapshot.len() as int, 0x8000_0000);
    }
    let toward_center = Wide3 {
        x: hold_wide(acc.cohesion.0 - mine.position.x as i128 * count),
        y: hold_wide(acc.cohesion.1 - mine.position.y as i128 * count),
        z: hold_wide(acc.cohesion.2 - mine.position.z as i128 * count),
    };
    let cohesion: Vec3 = toward_center.normalize_or_zero();
    let heading = Wide3 {
        x: hold_wide(acc.alignment.0),
        y: hold_wide(acc.alignment.1),
        z: hold_wide(acc.alignment.2),
    };
    let alignment: Vec3 = heading.normalize_or_zero();
    let apart = Wide3 {
        x: hold_wide(divide(acc.separation.0, count)),
        y: hold_wide(divide(acc.separation.1, count)),
        z: hold_wide(divide(acc.separation.2, count)),
    };
    let separation: Vec3 = apart.normalize_or_zero();
    let wc: i32 = params.cohesion_weight;
    let wa: i32 = params.alignment_weight;
    let ws: i32 = params.separation_weight;
    Vec3 {
        x: saturate(
            divide(
                times(cohesion.x, wc) + times(alignment.x, wa) + times(separation.x, ws),
                1000000,
            ),
        ),
        y: saturate(
            divide(
                times(cohesion.y, wc) + times(alignment.y, wa) + times(separation.y, ws),
                1000000,
            ),
        ),
        z: saturate(
            divide(
                times(cohesion.z, wc) + times(alignment.z, wa) + times(separation.z, ws),
                1000000,
            ),
        ),
    }
}

proof fn lemma_times_count(count: int, c: int)
    requires
        0 <= count <= 0x1_0000_0000_0000_0000,
        -0x8000_0000 <= c <= 0x8000_0000,
    ensures
        -0x8000_0000_0000_0000_0000_0000 <= c * count <= 0x8000_0000_0000_0000_0000_0000,
{
    assert(-0x8000_0000_0000_0000_0000_0000 <= c * count <= 0x8000_0000_0000_0000_0000_0000)
        by (nonlinear_arith)
        requires
            0 <= count <= 0x1_0000_0000_0000_0000,
            -0x8000_0000 <= c <= 0x8000_0000,
    ;
}

} // verus!
