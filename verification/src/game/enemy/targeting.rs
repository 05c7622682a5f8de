//! Which player an enemy reacts to: the nearest one.
//!
//! Which target is nearest is decided on the squares of the distances, which
//! are exact.

use vstd::prelude::*;
use crate::vector::Vec3;

verus! {

/// The square of the distance from `a` to `b`.
pub open spec fn distance_squared(a: Vec3, b: Vec3) -> int {
    b@.minus(a@).length_squared()
}

/// `i` is the place of the nearest target: no target is nearer, and those
/// before it are further away.
pub open spec fn is_nearest(from: Vec3, targets: Seq<Vec3>, i: int) -> bool {
    &&& 0 <= i < targets.len()
    &&& forall|j: int|
        0 <= j < targets.len() ==> distance_squared(from, targets[i]) <= distance_squared(
            from,
            #[trigger] targets[j],
        )
    &&& forall|j: int|
        0 <= j < i ==> distance_squared(from, targets[i]) < distance_squared(
            from,
            #[trigger] targets[j],
        )
}

/// The place of the nearest target; of several equally near ones, the first.
pub open spec fn nearest_index(from: Vec3, targets: Seq<Vec3>) -> int {
    choose|i: int| is_nearest(from, targets, i)
}

/// The square of the distance to the nearest target, if there is any target.
pub open spec fn nearest_distance_squared(from: Vec3, targets: Seq<Vec3>) -> Option<int> {
    if targets.len() == 0 {
        None
    } else {
        Some(distance_squared(from, targets[nearest_index(from, targets)]))
    }
}

/// Only one place is that of the nearest target.
pub proof fn lemma_nearest_unique(from: Vec3, targets: Seq<Vec3>, i: int, k: int)
    requires
        is_nearest(from, targets, i),
        is_nearest(from, targets, k),
    ensures
        i == k,
{
    if i < k {
        assert(distance_squared(from, targets[k]) < distance_squared(from, targets[i]));
        assert(distance_squared(from, targets[i]) <= distance_squared(from, targets[k]));
    } else if k < i {
        assert(distance_squared(from, targets[i]) < distance_squared(from, targets[k]));
        assert(distance_squared(from, targets[k]) <= distance_squared(from, targets[i]));
    }
}

/// Where there is a target, there is a nearest one, and `nearest_index` is
/// its place.
pub proof fn lemma_nearest_index(from: Vec3, targets: Seq<Vec3>)
    requires
        targets.len() > 0,
    ensures
        is_nearest(from, targets, nearest_index(from, targets)),
{
    let i = lemma_nearest_among(from, targets, targets.len() as int);
    assert(is_nearest(from, targets, i));
}

proof fn lemma_nearest_among(from: Vec3, targets: Seq<Vec3>, n: int) -> (best: int)
    requires
        0 < n <= targets.len(),
    ensures
        0 <= best < n,
        forall|j: int|
            0 <= j < n ==> distance_squared(from, targets[best]) <= distance_squared(
                from,
                #[trigger] targets[j],
            ),
        forall|j: int|
            0 <= j < best ==> distance_squared(from, targets[best]) < distance_squared(
                from,
                #[trigger] targets[j],
            ),
    decreases n,
{
    if n == 1 {
        0
    } else {
        let before = lemma_nearest_among(from, targets, n - 1);
        if distance_squared(from, targets[n - 1]) < distance_squared(from, targets[before]) {
            n - 1
        } else {
            before
        }
    }
}

/// The place that is that of the nearest target is `nearest_index`.
pub proof fn lemma_nearest_index_is(from: Vec3, targets: Seq<Vec3>, i: int)
    requires
        is_nearest(from, targets, i),
    ensures
        nearest_index(from, targets) == i,
{
    lemma_nearest_unique(from, targets, i, nearest_index(from, targets));
}

/// Finds the nearest target and the square of the distance to it.
pub fn nearest_target(from: &Vec3, targets: &Vec<Vec3>) -> (found: Option<(usize, u128)>)
    ensures
        targets.len() == 0 <==> found is None,
        found matches Some((i, d)) ==> {
            &&& i == nearest_index(*from, targets@)
            &&& i < targets.len()
            &&& d == distance_squared(*from, targets[i as int])
            &&& Some(d as int) == nearest_distance_squared(*from, targets@)
        },
{
    if targets.len() == 0 {
        return None;
    }
    let mut best: usize = 0;
    let mut best_distance: u128 = from.distance_squared(&targets[0]);
    let mut i: usize = 1;
    while i < targets.len()
        invariant
            1 <= i <= targets.len(),
            best < i,
            best_distance == distance_squared(*from, targets[best as int]),
            forall|j: int|
                0 <= j < i ==> best_distance <= distance_squared(*from, #[trigger] targets[j]),
            forall|j: int|
                0 <= j < best ==> best_distance < distance_squared(*from, #[trigger] targets[j]),
        decreases targets.len() - i,
    {
        let d: u128 = from.distance_squared(&targets[i]);
        if d < best_distance {
            best = i;
            best_distance = d;
        }
        i += 1;
    }
    proof {
        assert(is_nearest(*from, targets@, best as int));
        lemma_nearest_index_is(*from, targets@, best as int);
    }
    Some((best, best_distance))
}

} // verus!
