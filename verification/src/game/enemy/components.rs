//! The parts of an enemy.

use vstd::prelude::*;
use crate::fixed::{saturate, saturated};
use crate::game::transform::Transform;
use crate::network::protocol::{Enemy, EnemyPosition};
use crate::vector::Vec3;

verus! {

/// What an enemy is doing. Known to the server only.
#[derive(Clone, Copy, Debug, PartialEq, Eq, Structural)]
pub enum EnemyState {
    Patrol,
    Chase,
    Attack,
}

/// The model of a patrol path: the waypoints in order and the index of the
/// one that is headed for.
pub struct PatrolView {
    pub waypoints: Seq<Vec3>,
    pub current: int,
}

impl PatrolView {
    /// The current index is an index into the waypoints, so there is at least
    /// one waypoint.
    pub open spec fn wf(self) -> bool {
        0 <= self.current < self.waypoints.len()
    }

    pub open spec fn current_waypoint(self) -> Vec3 {
        self.waypoints[self.current]
    }

    /// The path with the next waypoint headed for; after the last comes the
    /// first.
    pub open spec fn advanced(self) -> PatrolView {
        PatrolView {
            waypoints: self.waypoints,
            current: (self.current + 1) % (self.waypoints.len() as int),
        }
    }

    /// The path after `steps` advances.
    pub open spec fn advanced_by(self, steps: nat) -> PatrolView
        decreases steps,
    {
        if steps == 0 {
            self
        } else {
            self.advanced_by((steps - 1) as nat).advanced()
        }
    }
}

proof fn lemma_step_mod(a: int, n: int)
    by (nonlinear_arith)
    requires
        0 <= a,
        0 < n,
    ensures
        ((a % n) + 1) % n == (a + 1) % n,
        0 <= a % n < n,
{
}

proof fn lemma_full_cycle_mod(c: int, n: int)
    by (nonlinear_arith)
    requires
        0 <= c < n,
    ensures
        (c + n) % n == c,
{
}

/// A path that heads for one of its waypoints still does so when it is
/// advanced.
pub proof fn lemma_advanced(path: PatrolView)
    requires
        path.wf(),
    ensures
        path.advanced().wf(),
        path.advanced().waypoints == path.waypoints,
{
    lemma_step_mod(path.current, path.waypoints.len() as int);
}

/// After `steps` advances a path has the same waypoints, and heads for the
/// waypoint `steps` places on, counted round the loop.
pub proof fn lemma_advanced_by(path: PatrolView, steps: nat)
    requires
        path.wf(),
    ensures
        path.advanced_by(steps).waypoints == path.waypoints,
        path.advanced_by(steps).current == (path.current + steps) % (path.waypoints.len() as int),
        path.advanced_by(steps).wf(),
    decreases steps,
{
    let n = path.waypoints.len() as int;
    if steps == 0 {
        assert(path.current % n == path.current) by (nonlinear_arith)
            requires
                0 <= path.current < n,
        ;
    } else {
        lemma_advanced_by(path, (steps - 1) as nat);
        lemma_step_mod(path.current + steps - 1, n);
    }
}

/// A path that is advanced as many times as it has waypoints heads for the
/// waypoint again that it headed for at first.
pub proof fn lemma_full_cycle_returns(path: PatrolView)
    requires
        path.wf(),
    ensures
        path.advanced_by(path.waypoints.len()) == path,
{
    lemma_advanced_by(path, path.waypoints.len());
    lemma_full_cycle_mod(path.current, path.waypoints.len() as int);
}

/// The point `dx` beside and `dz` behind `center`, at its height.
pub open spec fn corner(center: Vec3, dx: int, dz: int) -> Vec3 {
    Vec3 { x: saturated(center.x + dx) as i32, y: center.y, z: saturated(center.z + dz) as i32 }
}

/// The four corners of the square of half-width `radius` around `center`,
/// in the order in which they are patrolled.
pub open spec fn square_loop(center: Vec3, radius: int) -> Seq<Vec3> {
    seq![
        corner(center, radius, radius),
        corner(center, radius, -radius),
        corner(center, -radius, -radius),
        corner(center, -radius, radius),
    ]
}

/// A patrol path. It always has a waypoint, and its current index always
/// points at one.
#[derive(Debug, PartialEq, Eq)]
pub struct PatrolData {
    waypoints: Vec<Vec3>,
    current_waypoint: usize,
}

impl View for PatrolData {
    type V = PatrolView;

    closed spec fn view(&self) -> PatrolView {
        PatrolView { waypoints: self.waypoints@, current: self.current_waypoint as int }
    }
}

impl PatrolData {
    #[verifier::type_invariant]
    spec fn inv(self) -> bool {
        self.current_waypoint < self.waypoints.len()
    }

    /// The square loop of half-width `radius` around `center`, headed for its
    /// first corner.
    pub fn new(center: Vec3, radius: i32) -> (patrol: PatrolData)
        ensures
            patrol@.waypoints == square_loop(center, radius as int),
            patrol@.current == 0,
            patrol@.wf(),
    {
        let r: i128 = radius as i128;
        let x: i128 = center.x as i128;
        let z: i128 = center.z as i128;
        let mut waypoints: Vec<Vec3> = Vec::new();
        waypoints.push(Vec3 { x: saturate(x + r), y: center.y, z: saturate(z + r) });
        waypoints.push(Vec3 { x: saturate(x + r), y: center.y, z: saturate(z - r) });
        waypoints.push(Vec3 { x: saturate(x - r), y: center.y, z: saturate(z - r) });
        waypoints.push(Vec3 { x: saturate(x - r), y: center.y, z: saturate(z + r) });
        assert(waypoints@ =~= square_loop(center, radius as int));
        PatrolData { waypoints, current_waypoint: 0 }
    }

    /// The waypoints in the order in which they are patrolled.
    pub fn waypoints(&self) -> (w: &Vec<Vec3>)
        ensures
            w@ == self@.waypoints,
            self@.wf(),
    {
        proof {
            use_type_invariant(self);
        }
        &self.waypoints
    }

    /// The index of the waypoint that is headed for.
    pub fn current_index(&self) -> (i: usize)
        ensures
            i == self@.current,
            self@.wf(),
    {
        proof {
            use_type_invariant(self);
        }
        self.current_waypoint
    }
}

impl Clone for PatrolData {
    fn clone(&self) -> (copy: PatrolData)
        ensures
            copy@ == self@,
    {
        proof {
            use_type_invariant(self);
        }
        let mut waypoints: Vec<Vec3> = Vec::new();
        let mut i: usize = 0;
        while i < self.waypoints.len()
            invariant
                i <= self.waypoints.len(),
                waypoints.len() == i,
                forall|k: int| 0 <= k < i ==> waypoints[k] == self.waypoints[k],
            decreases self.waypoints.len() - i,
        {
            waypoints.push(self.waypoints[i]);
            i += 1;
        }
        assert(waypoints@ =~= self.waypoints@);
        PatrolData { waypoints, current_waypoint: self.current_waypoint }
    }
}

/// The waypoint that the patrol is headed for.
pub fn get_current_waypoint(patrol: &PatrolData) -> (waypoint: Vec3)
    ensures
        patrol@.wf(),
        waypoint == patrol@.current_waypoint(),
{
    let i: usize = patrol.current_index();
    patrol.waypoints()[i]
}

/// Heads for the next waypoint; after the last comes the first.
pub fn advance_waypoint(patrol: &mut PatrolData)
    ensures
        old(patrol)@.wf(),
        final(patrol)@ == old(patrol)@.advanced(),
        final(patrol)@.wf(),
{
    proof {
        use_type_invariant(&*patrol);
    }
    patrol.current_waypoint = (patrol.current_waypoint + 1) % patrol.waypoints.len();
}

/// How far an enemy sees and how fast it moves, in thousandths of a unit and
/// of a unit per second.
#[derive(Clone, Copy, Debug, PartialEq, Eq, Structural)]
pub struct EnemyMovement {
    pub chase_range: i32,
    pub attack_range: i32,
    pub patrol_speed: i32,
    pub chase_speed: i32,
}

impl EnemyMovement {
    /// An enemy attacks from nearer than it starts to chase.
    pub open spec fn wf(self) -> bool {
        self.attack_range < self.chase_range
    }

    pub open spec fn standard() -> EnemyMovement {
        EnemyMovement {
            chase_range: 4000,
            attack_range: 2500,
            patrol_speed: 2000,
            chase_speed: 4000,
        }
    }
}

impl Default for EnemyMovement {
    fn default() -> (movement: EnemyMovement)
        ensures
            movement == EnemyMovement::standard(),
            movement.wf(),
    {
        EnemyMovement {
            chase_range: 4000,
            attack_range: 2500,
            patrol_speed: 2000,
            chase_speed: 4000,
        }
    }
}

/// How an enemy keeps formation with the enemies around it.
#[derive(Clone, Copy, Debug, PartialEq, Eq, Structural)]
pub struct FlockingBehavior {
    /// Range within which enemies are considered neighbors.
    pub neighbor_range: i32,
    /// Weight of the pull toward the centre of the flock.
    pub cohesion_weight: i32,
    /// Weight of the pull toward the heading of the neighbors.
    pub alignment_weight: i32,
    /// Weight of the push away from neighbors that are too close.
    pub separation_weight: i32,
    /// Distance below which a neighbor is too close.
    pub separation_distance: i32,
}

impl FlockingBehavior {
    pub open spec fn standard() -> FlockingBehavior {
        FlockingBehavior {
            neighbor_range: 10000,
            cohesion_weight: 800,
            alignment_weight: 800,
            separation_weight: 3000,
            separation_distance: 2500,
        }
    }
}

impl Default for FlockingBehavior {
    fn default() -> (flocking: FlockingBehavior)
        ensures
            flocking == FlockingBehavior::standard(),
    {
        FlockingBehavior {
            neighbor_range: 10000,
            cohesion_weight: 800,
            alignment_weight: 800,
            separation_weight: 3000,
            separation_distance: 2500,
        }
    }
}

/// The steering vector that flocking computed for an enemy in the last tick.
/// It is a nudge for the next move, not the speed of the enemy.
#[derive(Clone, Copy, Debug, PartialEq, Eq, Structural)]
pub struct EnemyVelocity {
    pub velocity: Vec3,
}

impl EnemyVelocity {
    pub open spec fn still() -> EnemyVelocity {
        EnemyVelocity { velocity: Vec3 { x: 0, y: 0, z: 0 } }
    }
}

impl Default for EnemyVelocity {
    fn default() -> (velocity: EnemyVelocity)
        ensures
            velocity == EnemyVelocity::still(),
    {
        EnemyVelocity { velocity: Vec3 { x: 0, y: 0, z: 0 } }
    }
}

/// An enemy with all its parts.
#[derive(Debug, PartialEq, Eq)]
pub struct EnemyActor {
    pub enemy: Enemy,
    pub position: EnemyPosition,
    pub transform: Transform,
    pub state: EnemyState,
    pub patrol: PatrolData,
    pub movement: EnemyMovement,
    pub flocking: FlockingBehavior,
    pub velocity: EnemyVelocity,
}

/// The model of an enemy.
pub struct EnemyView {
    pub enemy: Enemy,
    pub position: EnemyPosition,
    pub transform: Transform,
    pub state: EnemyState,
    pub patrol: PatrolView,
    pub movement: EnemyMovement,
    pub flocking: FlockingBehavior,
    pub velocity: EnemyVelocity,
}

impl View for EnemyActor {
    type V = EnemyView;

    open spec fn view(&self) -> EnemyView {
        EnemyView {
            enemy: self.enemy,
            position: self.position,
            transform: self.transform,
            state: self.state,
            patrol: self.patrol@,
            movement: self.movement,
            flocking: self.flocking,
            velocity: self.velocity,
        }
    }
}

impl Clone for EnemyActor {
    fn clone(&self) -> (copy: EnemyActor)
        ensures
            copy@ == self@,
    {
        EnemyActor {
            enemy: self.enemy,
            position: self.position,
            transform: self.transform,
            state: self.state,
            patrol: self.patrol.clone(),
            movement: self.movement,
            flocking: self.flocking,
            velocity: self.velocity,
        }
    }
}

} // verus!
