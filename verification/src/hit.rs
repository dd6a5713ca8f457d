//! Which sphere a ray reaches: the crossing with one sphere, the nearest
//! among many, and whether anything stands between a point and the light.
//!
//! A ray is probed against every sphere of the scene in turn. The outcome
//! for one sphere is an `Option<u64>`: `None` for a miss, otherwise the
//! distance along the ray as a binary64 pattern. A scene's outcomes are kept
//! in scene order, so an index into them names a sphere.

use vstd::prelude::*;
use crate::scalar::{
    is_positive, lemma_magnitude_order, less_than, lt, positive, value, ZERO,
};

verus! {

/// Whether the outcome of probing one sphere counts as a hit: a distance was
/// found and it lies strictly ahead of the ray's origin. A distance of zero,
/// a negative one and a NaN do not count.
pub open spec fn registers(probe: Option<u64>) -> bool {
    probe matches Some(t) && positive(t)
}

/// Where a ray first crosses a sphere, given the discriminant of the
/// quadratic `|O + tD - C|^2 = r^2` and its two roots, in either order.
///
/// A negative discriminant means the ray passes the sphere by. Otherwise
/// only roots ahead of the origin count, and of two such roots the smaller.
pub open spec fn crossing(discriminant: u64, t1: u64, t2: u64) -> Option<u64> {
    if lt(discriminant, ZERO) {
        None
    } else if positive(t1) && positive(t2) {
        if lt(t2, t1) {
            Some(t2)
        } else {
            Some(t1)
        }
    } else if positive(t1) {
        Some(t1)
    } else if positive(t2) {
        Some(t2)
    } else {
        None
    }
}

/// Picks the distance at which a ray first crosses a sphere.
pub fn first_crossing(discriminant: u64, t1: u64, t2: u64) -> (r: Option<u64>)
    ensures
        r == crossing(discriminant, t1, t2),
        r is Some ==> registers(r),
{
    if less_than(discriminant, ZERO) {
        return None;
    }
    let ahead1 = is_positive(t1);
    let ahead2 = is_positive(t2);
    if ahead1 && ahead2 {
        if less_than(t2, t1) {
            Some(t2)
        } else {
            Some(t1)
        }
    } else if ahead1 {
        Some(t1)
    } else if ahead2 {
        Some(t2)
    } else {
        None
    }
}

/// Whether sphere `k` is the nearest hit among the first `n` spheres: it is
/// hit, no hit among them is nearer, and every hit before it is farther.
pub open spec fn is_nearest_among(probes: Seq<Option<u64>>, n: int, k: int) -> bool {
    &&& 0 <= k < n <= probes.len()
    &&& registers(probes[k])
    &&& forall|i: int|
        0 <= i < n && registers(#[trigger] probes[i]) ==> value(probes[k]->0) <= value(
            probes[i]->0,
        )
    &&& forall|i: int|
        0 <= i < k && registers(#[trigger] probes[i]) ==> value(probes[k]->0) < value(
            probes[i]->0,
        )
}

/// Whether sphere `k` is the nearest hit of the scene. Of several spheres at
/// the same least distance, the first in scene order is the nearest.
pub open spec fn is_nearest(probes: Seq<Option<u64>>, k: int) -> bool {
    is_nearest_among(probes, probes.len() as int, k)
}

/// The nearest hit of the scene, if any sphere is hit.
pub open spec fn nearest(probes: Seq<Option<u64>>) -> Option<int> {
    if exists|k: int| is_nearest(probes, k) {
        Some(choose|k: int| is_nearest(probes, k))
    } else {
        None
    }
}

/// The distance of the nearest hit.
pub open spec fn nearest_distance(probes: Seq<Option<u64>>) -> Option<u64> {
    match nearest(probes) {
        Some(k) => probes[k],
        None => None,
    }
}

/// A scene has at most one nearest hit.
pub proof fn lemma_nearest_unique(probes: Seq<Option<u64>>, j: int, k: int)
    requires
        is_nearest(probes, j),
        is_nearest(probes, k),
    ensures
        j == k,
{
}

/// Where any of the first `n` spheres is hit, one of them is the nearest.
proof fn lemma_nearest_among_exists(probes: Seq<Option<u64>>, n: int, hit: int)
    requires
        0 <= hit < n <= probes.len(),
        registers(probes[hit]),
    ensures
        exists|k: int| is_nearest_among(probes, n, k),
    decreases n,
{
    let last = n - 1;
    if exists|j: int| 0 <= j < last && registers(#[trigger] probes[j]) {
        let j = choose|j: int| 0 <= j < last && registers(#[trigger] probes[j]);
        lemma_nearest_among_exists(probes, last, j);
        let k = choose|k: int| is_nearest_among(probes, last, k);
        if registers(probes[last]) && value(probes[last]->0) < value(probes[k]->0) {
            assert(is_nearest_among(probes, n, last));
        } else {
            assert(is_nearest_among(probes, n, k));
        }
    } else {
        assert(is_nearest_among(probes, n, last));
    }
}

/// The scene has a nearest hit exactly when some sphere is hit, and
/// `nearest` names it.
pub proof fn lemma_nearest(probes: Seq<Option<u64>>)
    ensures
        nearest(probes) is None <==> forall|i: int|
            0 <= i < probes.len() ==> !registers(#[trigger] probes[i]),
        nearest(probes) matches Some(k) ==> is_nearest(probes, k),
        forall|k: int| is_nearest(probes, k) ==> nearest(probes) == Some(k),
{
    if exists|i: int| 0 <= i < probes.len() && registers(#[trigger] probes[i]) {
        let i = choose|i: int| 0 <= i < probes.len() && registers(#[trigger] probes[i]);
        lemma_nearest_among_exists(probes, probes.len() as int, i);
        let k = choose|k: int| is_nearest_among(probes, probes.len() as int, k);
        assert(is_nearest(probes, k));
    }
    assert forall|k: int| is_nearest(probes, k) implies nearest(probes) == Some(k) by {
        lemma_nearest_unique(probes, k, choose|k: int| is_nearest(probes, k));
    }
}

/// Finds the sphere that the ray reaches first.
pub fn nearest_hit(probes: &[Option<u64>]) -> (r: Option<usize>)
    ensures
        match r {
            Some(k) => nearest(probes@) == Some(k as int),
            None => nearest(probes@) is None,
        },
        r matches Some(k) ==> is_nearest(probes@, k as int),
        r is None <==> forall|i: int| 0 <= i < probes@.len() ==> !registers(#[trigger] probes@[i]),
{
    let mut best: Option<usize> = None;
    let mut least: u64 = ZERO;
    let mut i: usize = 0;
    while i < probes.len()
        invariant
            i <= probes@.len(),
            match best {
                Some(k) => is_nearest_among(probes@, i as int, k as int) && probes@[k as int]
                    == Some(least),
                None => forall|j: int| 0 <= j < i ==> !registers(#[trigger] probes@[j]),
            },
        decreases probes@.len() - i,
    {
        if let Some(t) = probes[i] {
            if is_positive(t) {
                let nearer = match best {
                    Some(_) => less_than(t, least),
                    None => true,
                };
                if nearer {
                    best = Some(i);
                    least = t;
                }
            }
        }
        i += 1;
    }
    proof {
        lemma_nearest(probes@);
    }
    best
}

/// The nearest distance depends on which distances were found, not on the
/// order of the spheres: two scenes whose outcomes are rearrangements of one
/// another have the same nearest distance.
pub proof fn lemma_nearest_ignores_order(a: Seq<Option<u64>>, b: Seq<Option<u64>>)
    requires
        a.to_multiset() == b.to_multiset(),
    ensures
        nearest_distance(a) == nearest_distance(b),
{
    a.to_multiset_ensures();
    b.to_multiset_ensures();
    lemma_nearest(a);
    lemma_nearest(b);
    assert forall|i: int| 0 <= i < a.len() implies b.contains(#[trigger] a[i]) by {
        assert(a.contains(a[i]));
        assert(b.to_multiset().count(a[i]) > 0);
    }
    assert forall|i: int| 0 <= i < b.len() implies a.contains(#[trigger] b[i]) by {
        assert(b.contains(b[i]));
        assert(a.to_multiset().count(b[i]) > 0);
    }
    match nearest(a) {
        Some(ka) => {
            let ja = choose|j: int| 0 <= j < b.len() && b[j] == a[ka];
            assert(registers(b[ja]));
            let kb = nearest(b)->0;
            let jb = choose|j: int| 0 <= j < a.len() && a[j] == b[kb];
            assert(registers(a[jb]));
            assert(value(a[ka]->0) == value(b[kb]->0));
            lemma_magnitude_order(a[ka]->0, b[kb]->0);
        },
        None => {
            assert forall|j: int| 0 <= j < b.len() implies !registers(#[trigger] b[j]) by {
                let i = choose|i: int| 0 <= i < a.len() && a[i] == b[j];
                assert(!registers(a[i]));
            }
        },
    }
}

/// Whether anything stands between a point and the light: some sphere other
/// than the first is hit by the shadow ray. The first sphere of a scene is
/// the light itself, which casts no shadow on its own light.
pub open spec fn occluded(shadow: Seq<Option<u64>>) -> bool {
    exists|i: int| 1 <= i < shadow.len() && registers(#[trigger] shadow[i])
}

/// Tells whether the light reaches the point a shadow ray was cast from.
pub fn light_visible(shadow: &[Option<u64>]) -> (r: bool)
    ensures
        r == !occluded(shadow@),
{
    let mut i: usize = 1;
    while i < shadow.len()
        invariant
            1 <= i,
            forall|j: int| 1 <= j < i && j < shadow@.len() ==> !registers(#[trigger] shadow@[j]),
        decreases shadow@.len() - i,
    {
        if let Some(t) = shadow[i] {
            if is_positive(t) {
                return false;
            }
        }
        i += 1;
    }
    true
}

} // verus!
