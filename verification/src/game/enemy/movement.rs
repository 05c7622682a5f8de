//! How an enemy moves in one tick.
//!
//! On patrol it walks toward its current waypoint. While it chases it runs
//! toward the nearest player, nudged by the steering vector of the flock.
//! While it attacks it stands and faces the player. After every move it is
//! put back on the ground.

use vstd::prelude::*;
use crate::fixed::{divide, quotient, saturate, saturated};
use crate::game::enemy::components::{
    advance_waypoint, get_current_waypoint, EnemyActor, EnemyState, EnemyView,
};
use crate::game::enemy::targeting::{distance_squared, nearest_index, nearest_target};
use crate::game::transform::Transform;
use crate::vector::{
    closer_than, is_closer_than, lemma_normalized_length, lemma_over_shortens,
    lemma_times_lengthens, Vec3, Vector, Wide3,
};

verus! {

/// An enemy nearer than this to its waypoint has reached it.
pub const ARRIVAL_DISTANCE: i32 = 500;

/// The height at which enemies stand.
pub const GROUND_HEIGHT: i32 = 1000;

/// A steering vector counts where the square of its length is above this:
/// where it is longer than a tenth of a unit.
pub const STEERING_THRESHOLD: u128 = 10000;

/// Share of the direction to the player in the blended direction, in
/// thousandths.
pub const SEEK_SHARE: i32 = 700;

/// Share of the steering vector in the blended direction, in thousandths.
pub const FLOCK_SHARE: i32 = 300;

/// How far an actor gets in `dt` thousandths of a second at `speed` along
/// `direction`, a direction in millionths: the product of the three, cut to
/// whole steps once.
pub open spec fn displacement(direction: Vec3, speed: int, dt: int) -> Vector {
    direction@.times(speed * dt).over(1000000000)
}

/// Where an actor at `position` is after such a move.
pub open spec fn moved(position: Vec3, direction: Vec3, speed: int, dt: int) -> Vec3 {
    position@.plus(displacement(direction, speed, dt)).stored()
}

/// The point put on the ground.
pub open spec fn grounded(position: Vec3) -> Vec3 {
    Vec3 { x: position.x, y: GROUND_HEIGHT, z: position.z }
}

/// The direction in which a hunting enemy moves: the direction to the player,
/// unless the steering vector counts. Then the direction of seven parts of
/// the direction to the player and three parts of the direction of the
/// steering vector. Only the direction of the steering vector enters, not its
/// length.
pub open spec fn blended(direction: Vec3, steering: Vec3) -> Vec3 {
    if steering@.length_squared() > STEERING_THRESHOLD {
        direction@.times(SEEK_SHARE as int).plus(steering@.unit()@.times(FLOCK_SHARE as int)).unit()
    } else {
        direction
    }
}

/// The direction, level with the ground, from `from` to `target`.
pub open spec fn level_direction(from: Vec3, target: Vec3) -> Vec3 {
    (Vector { x: target.x - from.x, y: 0, z: target.z - from.z }).unit()
}

/// An enemy on patrol after a tick of `dt`: it has walked toward its waypoint,
/// and heads for the next one if it had reached this one before it walked.
pub open spec fn patrol_moved(e: EnemyView, dt: int) -> EnemyView {
    let at = e.transform.translation;
    let waypoint = e.patrol.current_waypoint();
    let direction = waypoint@.minus(at@).unit();
    EnemyView {
        patrol: if is_closer_than(distance_squared(at, waypoint), ARRIVAL_DISTANCE as int) {
            e.patrol.advanced()
        } else {
            e.patrol
        },
        transform: Transform {
            translation: grounded(moved(at, direction, e.movement.patrol_speed as int, dt)),
            forward: e.transform.forward,
        },
        ..e
    }
}

/// A hunting enemy after a tick of `dt`: it has moved toward the nearest of
/// `targets`, at chase speed if it chases and not at all if it attacks, and
/// faces that target. With no target it stays where it is.
pub open spec fn pursuit_moved(e: EnemyView, targets: Seq<Vec3>, dt: int) -> EnemyView {
    let at = e.transform.translation;
    if targets.len() == 0 {
        EnemyView {
            transform: Transform { translation: grounded(at), forward: e.transform.forward },
            ..e
        }
    } else {
        let target = targets[nearest_index(at, targets)];
        let direction = target@.minus(at@).unit();
        let speed = if e.state == EnemyState::Chase {
            e.movement.chase_speed as int
        } else {
            0
        };
        let arrived = moved(at, blended(direction, e.velocity.velocity), speed, dt);
        let look = level_direction(arrived, target);
        EnemyView {
            transform: Transform {
                translation: grounded(arrived),
                forward: if direction@ != Vector::zero() && look@ != Vector::zero() {
                    look
                } else {
                    e.transform.forward
                },
            },
            ..e
        }
    }
}

/// An enemy after a tick of `dt`, with the players at `targets`.
pub open spec fn enemy_moved(e: EnemyView, targets: Seq<Vec3>, dt: int) -> EnemyView {
    match e.state {
        EnemyState::Patrol => patrol_moved(e, dt),
        _ => pursuit_moved(e, targets, dt),
    }
}

/// The speed at which an enemy moves: its patrol speed on patrol, its chase
/// speed while it chases, none while it attacks.
pub open spec fn pace(e: EnemyView) -> int {
    match e.state {
        EnemyState::Patrol => e.movement.patrol_speed as int,
        EnemyState::Chase => e.movement.chase_speed as int,
        EnemyState::Attack => 0,
    }
}

/// A move along a direction is no longer than speed and time allow: the
/// length of the displacement, in steps, is at most a thousandth of `speed`
/// times `dt`.
pub proof fn lemma_step_length(direction: Vec3, speed: int, dt: int)
    requires
        direction@.is_direction(),
    ensures
        displacement(direction, speed, dt).length_squared() * 1000000 <= (speed * dt) * (speed
            * dt),
{
    let k = speed * dt;
    lemma_times_lengthens(direction@, k);
    lemma_over_shortens(direction@.times(k), 1000000000);
    let t = displacement(direction, speed, dt).length_squared();
    let q = direction@.length_squared();
    assert(t * 1000000 <= k * k) by (nonlinear_arith)
        requires
            t * (1000000000 * 1000000000) <= k * k * q,
            q <= 1000000 * 1000000,
            0 <= t,
    ;
}

/// The blended direction is a direction: it is no longer than one.
pub proof fn lemma_blended_is_direction(direction: Vec3, steering: Vec3)
    requires
        direction@.is_direction(),
    ensures
        blended(direction, steering)@.is_direction(),
{
    lemma_normalized_length(
        direction@.times(SEEK_SHARE as int).plus(steering@.unit()@.times(FLOCK_SHARE as int)),
    );
}

proof fn lemma_held_step(at: int, by: int)
    requires
        -0x8000_0000 <= at < 0x8000_0000,
    ensures
        (saturated(at + by) - at) * (saturated(at + by) - at) <= by * by,
{
    let d = saturated(at + by) - at;
    assert(d * d <= by * by) by (nonlinear_arith)
        requires
            (0 <= d <= by) || (by <= d <= 0),
    ;
}

/// An enemy gets no further in a tick, level with the ground, than its speed
/// allows: the distance between where it was and where it is, in steps, is at
/// most a thousandth of its speed times `dt`.
pub proof fn lemma_enemy_step_length(e: EnemyView, targets: Seq<Vec3>, dt: int)
    ensures
        ({
            let from = e.transform.translation;
            let to = enemy_moved(e, targets, dt).transform.translation;
            ((to.x - from.x) * (to.x - from.x) + (to.z - from.z) * (to.z - from.z)) * 1000000 <= (
            pace(e) * dt) * (pace(e) * dt)
        }),
{
    let from = e.transform.translation;
    let to = enemy_moved(e, targets, dt).transform.translation;
    let speed = pace(e);
    assert(0 <= (speed * dt) * (speed * dt)) by (nonlinear_arith);
    if e.state != EnemyState::Patrol && targets.len() == 0 {
        assert((to.x - from.x) * (to.x - from.x) + (to.z - from.z) * (to.z - from.z) == 0)
            by (nonlinear_arith)
            requires
                to.x == from.x,
                to.z == from.z,
        ;
    } else {
        let heading = if e.state == EnemyState::Patrol {
            e.patrol.current_waypoint()@.minus(from@).unit()
        } else {
            let target = targets[nearest_index(from, targets)];
            blended(target@.minus(from@).unit(), e.velocity.velocity)
        };
        if e.state == EnemyState::Patrol {
            lemma_normalized_length(e.patrol.current_waypoint()@.minus(from@));
        } else {
            let target = targets[nearest_index(from, targets)];
            lemma_normalized_length(target@.minus(from@));
            lemma_blended_is_direction(target@.minus(from@).unit(), e.velocity.velocity);
        }
        lemma_step_length(heading, speed, dt);
        let by = displacement(heading, speed, dt);
        assert(to.x == saturated(from.x + by.x) && to.z == saturated(from.z + by.z));
        lemma_held_step(from.x as int, by.x);
        lemma_held_step(from.z as int, by.z);
        let level = (to.x - from.x) * (to.x - from.x) + (to.z - from.z) * (to.z - from.z);
        assert(level <= by.length_squared()) by (nonlinear_arith)
            requires
                level == (to.x - from.x) * (to.x - from.x) + (to.z - from.z) * (to.z - from.z),
                (to.x - from.x) * (to.x - from.x) <= by.x * by.x,
                (to.z - from.z) * (to.z - from.z) <= by.z * by.z,
                by.length_squared() == by.x * by.x + by.y * by.y + by.z * by.z,
        ;
    }
}

/// Whatever an enemy does, it stands on the ground after it has moved.
pub proof fn lemma_enemy_stays_on_ground(e: EnemyView, targets: Seq<Vec3>, dt: int)
    ensures
        enemy_moved(e, targets, dt).transform.translation.y == GROUND_HEIGHT,
{
}

/// An enemy that attacks holds still: it stays where it is, put on the
/// ground.
pub proof fn lemma_attacking_enemy_holds_still(e: EnemyView, targets: Seq<Vec3>, dt: int)
    requires
        e.state == EnemyState::Attack,
    ensures
        enemy_moved(e, targets, dt).transform.translation == grounded(e.transform.translation),
{
    if targets.len() > 0 {
        let at = e.transform.translation;
        let target = targets[nearest_index(at, targets)];
        let heading = blended(target@.minus(at@).unit(), e.velocity.velocity);
        assert(0 * dt == 0) by (nonlinear_arith);
        assert(heading@.times(0) == Vector::zero()) by (nonlinear_arith)
            requires
                heading@.times(0) == (Vector {
                    x: heading.x * 0,
                    y: heading.y * 0,
                    z: heading.z * 0,
                }),
        ;
        assert(moved(at, heading, 0, dt) == at);
    }
}

/// A move changes where an enemy is, which way it faces and which waypoint
/// it heads for, and nothing else of it: not its state, not its steering
/// vector, not its mirrored position, not the waypoints of its path.
pub proof fn lemma_move_changes_place_only(e: EnemyView, targets: Seq<Vec3>, dt: int)
    ensures
        enemy_moved(e, targets, dt) == (EnemyView {
            transform: enemy_moved(e, targets, dt).transform,
            patrol: enemy_moved(e, targets, dt).patrol,
            ..e
        }),
        enemy_moved(e, targets, dt).patrol.waypoints == e.patrol.waypoints,
        e.state != EnemyState::Patrol ==> enemy_moved(e, targets, dt).patrol == e.patrol,
        e.state == EnemyState::Patrol ==> enemy_moved(e, targets, dt).transform.forward
            == e.transform.forward,
{
}

proof fn lemma_product_bound(c: int, speed: int, dt: int)
    requires
        -0x8000_0000 <= c <= 0x8000_0000,
        -0x8000_0000 <= speed <= 0x8000_0000,
        0 <= dt <= 0x1_0000_0000,
    ensures
        -0x4000_0000_0000_0000_0000_0000 <= c * (speed * dt) <= 0x4000_0000_0000_0000_0000_0000,
        -0x8000_0000_0000_0000 <= speed * dt <= 0x8000_0000_0000_0000,
        -0x4000_0000_0000_0000_0000_0000 <= quotient(c * (speed * dt), 1000000000)
            <= 0x4000_0000_0000_0000_0000_0000,
{
    assert(-0x8000_0000_0000_0000 <= speed * dt <= 0x8000_0000_0000_0000) by (nonlinear_arith)
        requires
            -0x8000_0000 <= speed <= 0x8000_0000,
            0 <= dt <= 0x1_0000_0000,
    ;
    let k = speed * dt;
    assert(-0x4000_0000_0000_0000_0000_0000 <= c * k <= 0x4000_0000_0000_0000_0000_0000)
        by (nonlinear_arith)
        requires
            -0x8000_0000 <= c <= 0x8000_0000,
            -0x8000_0000_0000_0000 <= k <= 0x8000_0000_0000_0000,
    ;
}

/// Moves a point along a direction.
pub fn step(position: &Vec3, direction: &Vec3, speed: i32, dt: u32) -> (arrived: Vec3)
    ensures
        arrived == moved(*position, *direction, speed as int, dt as int),
        direction@.is_direction() ==> displacement(
            *direction,
            speed as int,
            dt as int,
        ).length_squared() * 1000000 <= (speed * dt) * (speed * dt),
{
    proof {
        if direction@.is_direction() {
            lemma_step_length(*direction, speed as int, dt as int);
        }
    }
    proof {
        lemma_product_bound(direction.x as int, speed as int, dt as int);
        lemma_product_bound(direction.y as int, speed as int, dt as int);
        lemma_product_bound(direction.z as int, speed as int, dt as int);
    }
    let k: i128 = speed as i128 * dt as i128;
    Vec3 {
        x: saturate(position.x as i128 + divide(direction.x as i128 * k, 1000000000)),
        y: saturate(position.y as i128 + divide(direction.y as i128 * k, 1000000000)),
        z: saturate(position.z as i128 + divide(direction.z as i128 * k, 1000000000)),
    }
}

proof fn lemma_share(c: int, share: int)
    requires
        -0x8000_0000 <= c <= 0x8000_0000,
        0 <= share <= 1000,
    ensures
        -0x8000_0000 * 1000 <= c * share <= 0x8000_0000 * 1000,
{
    assert(-0x8000_0000 * 1000 <= c * share <= 0x8000_0000 * 1000) by (nonlinear_arith)
        requires
            -0x8000_0000 <= c <= 0x8000_0000,
            0 <= share <= 1000,
    ;
}

/// Blends the direction to the player with the steering vector of the flock.
pub fn blend(direction: &Vec3, steering: &Vec3) -> (heading: Vec3)
    ensures
        heading == blended(*direction, *steering),
        direction@.is_direction() ==> heading@.is_direction(),
{
    proof {
        if direction@.is_direction() {
            lemma_blended_is_direction(*direction, *steering);
        }
    }
    if steering.length_squared() > STEERING_THRESHOLD {
        let nudge: Vec3 = steering.normalize_or_zero();
        proof {
            lemma_share(direction.x as int, SEEK_SHARE as int);
            lemma_share(direction.y as int, SEEK_SHARE as int);
            lemma_share(direction.z as int, SEEK_SHARE as int);
            lemma_share(nudge.x as int, FLOCK_SHARE as int);
            lemma_share(nudge.y as int, FLOCK_SHARE as int);
            lemma_share(nudge.z as int, FLOCK_SHARE as int);
        }
        let seek: i64 = SEEK_SHARE as i64;
        let flock: i64 = FLOCK_SHARE as i64;
        let mixed = Wide3 {
            x: direction.x as i64 * seek + nudge.x as i64 * flock,
            y: direction.y as i64 * seek + nudge.y as i64 * flock,
            z: direction.z as i64 * seek + nudge.z as i64 * flock,
        };
        mixed.normalize_or_zero()
    } else {
        *direction
    }
}

/// Moves an enemy on patrol.
fn patrol(enemy: &mut EnemyActor, dt: u32)
    ensures
        final(enemy)@ == patrol_moved(old(enemy)@, dt as int),
{
    let at: Vec3 = enemy.transform.translation;
    let waypoint: Vec3 = get_current_waypoint(&enemy.patrol);
    let direction: Vec3 = at.offset_to(&waypoint).normalize_or_zero();
    if closer_than(at.distance_squared(&waypoint), ARRIVAL_DISTANCE) {
        advance_waypoint(&mut enemy.patrol);
    }
    let arrived: Vec3 = step(&at, &direction, enemy.movement.patrol_speed, dt);
    enemy.transform.translation = Vec3 { x: arrived.x, y: GROUND_HEIGHT, z: arrived.z };
}

/// Moves a hunting enemy.
fn pursue(enemy: &mut EnemyActor, targets: &Vec<Vec3>, dt: u32)
    ensures
        final(enemy)@ == pursuit_moved(old(enemy)@, targets@, dt as int),
{
    let at: Vec3 = enemy.transform.translation;
    match nearest_target(&at, targets) {
        None => {
            enemy.transform.translation = Vec3 { x: at.x, y: GROUND_HEIGHT, z: at.z };
        },
        Some((nearest, _)) => {
            let target: Vec3 = targets[nearest];
            let direction: Vec3 = at.offset_to(&target).normalize_or_zero();
            let speed: i32 = if enemy.state == EnemyState::Chase {
                enemy.movement.chase_speed
            } else {
                0
            };
            let heading: Vec3 = blend(&direction, &enemy.velocity.velocity);
            let arrived: Vec3 = step(&at, &heading, speed, dt);
            enemy.transform.translation = Vec3 { x: arrived.x, y: GROUND_HEIGHT, z: arrived.z };
            let level = Wide3 {
                x: target.x as i64 - arrived.x as i64,
                y: 0,
                z: target.z as i64 - arrived.z as i64,
            };
            let look: Vec3 = level.normalize_or_zero();
            if !is_zero(&direction) && !is_zero(&look) {
                enemy.transform.forward = look;
            }
        },
    }
}

fn is_zero(v: &Vec3) -> (zero: bool)
    ensures
        zero <==> v@ == Vector::zero(),
{
    v.x == 0 && v.y == 0 && v.z == 0
}

/// Moves an enemy for one tick of `dt` thousandths of a second, with the
/// players at `targets`.
pub fn move_enemy(enemy: &mut EnemyActor, targets: &Vec<Vec3>, dt: u32)
    ensures
        final(enemy)@ == enemy_moved(old(enemy)@, targets@, dt as int),
{
    match enemy.state {
        EnemyState::Patrol => patrol(enemy, dt),
        _ => pursue(enemy, targets, dt),
    }
}

} // verus!
