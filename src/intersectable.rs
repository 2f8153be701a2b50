use vstd::prelude::*;
use crate::order::{is_nan, key_of, nan_bits, order_key};

verus! {

/// The root that a ray meets a sphere at, given the two roots `t0` and `t1`
/// of its quadratic as order keys: the smaller non-negative one, the first
/// on a tie; none when both are negative, the sphere lying behind the ray.
pub open spec fn nearest_root(t0: int, t1: int) -> Option<usize> {
    if t0 >= 0 && (t1 < 0 || t0 <= t1) {
        Some(0)
    } else if t1 >= 0 {
        Some(1)
    } else {
        None
    }
}

/// Chooses which root of a sphere's quadratic the ray hits: `Some(0)` for
/// `t0`, `Some(1)` for `t1`, `None` where both lie behind the ray origin.
pub fn select_root(t0: i64, t1: i64) -> (r: Option<usize>)
    ensures
        r == nearest_root(t0 as int, t1 as int),
{
    let (lo, hi, lo_index, hi_index) = if t0 > t1 {
        (t1, t0, 1usize, 0usize)
    } else {
        (t0, t1, 0usize, 1usize)
    };
    if lo >= 0 {
        Some(lo_index)
    } else if hi >= 0 {
        Some(hi_index)
    } else {
        None
    }
}

/// A ray whose origin is past the sphere, both roots negative, does not hit it.
pub proof fn lemma_sphere_behind_origin(t0: int, t1: int)
    requires
        t0 < 0,
        t1 < 0,
    ensures
        nearest_root(t0, t1) is None,
{
}

/// No object is hit: every entry of `dists` is `None`.
pub open spec fn misses_all(dists: Seq<Option<i64>>) -> bool {
    forall|j: int| 0 <= j < dists.len() ==> dists[j] is None
}

/// Entry `i` of `dists` holds a hit whose distance is the least of all hits,
/// and no hit before it is as close.
pub open spec fn is_closest(dists: Seq<Option<i64>>, i: int) -> bool {
    &&& 0 <= i < dists.len()
    &&& dists[i] is Some
    &&& forall|j: int|
        0 <= j < dists.len() && dists[j] is Some ==> dists[i]->Some_0 <= dists[j]->Some_0
    &&& forall|j: int| 0 <= j < i && dists[j] is Some ==> dists[i]->Some_0 < dists[j]->Some_0
}

/// Closest-hit resolution over the objects of a scene, in order. Entry `j` of
/// `dists` is the order key of the distance at which the ray hits object `j`,
/// or `None` where it misses it. The result is the index of the nearest hit,
/// the first of equally near ones, or `None` where the ray misses every object.
pub fn closest_hit(dists: &Vec<Option<i64>>) -> (r: Option<usize>)
    ensures
        r is None <==> misses_all(dists@),
        r matches Some(i) ==> is_closest(dists@, i as int),
{
    let mut best: Option<usize> = None;
    let mut i: usize = 0;
    while i < dists.len()
        invariant
            0 <= i <= dists.len(),
            best is None <==> misses_all(dists@.subrange(0, i as int)),
            best matches Some(b) ==> is_closest(dists@.subrange(0, i as int), b as int),
        decreases dists.len() - i,
    {
        let ghost prev = dists@.subrange(0, i as int);
        let ghost next = dists@.subrange(0, i as int + 1);
        assert(next.drop_last() =~= prev);
        if let Some(d) = dists[i] {
            let better = match best {
                None => true,
                Some(b) => match dists[b] {
                    Some(e) => d < e,
                    None => true,
                },
            };
            if better {
                best = Some(i);
            }
        }
        i = i + 1;
    }
    assert(dists@.subrange(0, dists.len() as int) =~= dists@);
    best
}

/// A hit distance was NaN: the geometry it came from is corrupt.
#[derive(Clone, Copy, Debug, PartialEq, Eq, Structural)]
pub struct NanDistance {
    /// The index of the first object whose distance is NaN.
    pub object: usize,
}

/// The order keys of the distances given by their bit patterns.
pub open spec fn keys_of(dists: Seq<Option<u32>>) -> Seq<Option<i64>> {
    dists.map_values(|d: Option<u32>| match d {
        Some(b) => Some(key_of(b) as i64),
        None => None,
    })
}

/// Entry `j` of `dists` is a hit at a NaN distance.
pub open spec fn nan_at(dists: Seq<Option<u32>>, j: int) -> bool {
    &&& 0 <= j < dists.len()
    &&& dists[j] is Some
    &&& nan_bits(dists[j]->Some_0)
}

/// Closest-hit resolution over hit distances given as the bit patterns of
/// single-precision numbers, `None` where the ray misses an object. A NaN
/// distance is an error that names the first object it came from; otherwise
/// the result is the index of the nearest hit, the first of equally near ones,
/// or `None` where the ray misses every object.
pub fn nearest_hit(dists: &Vec<Option<u32>>) -> (r: Result<Option<usize>, NanDistance>)
    ensures
        r matches Err(e) ==> nan_at(dists@, e.object as int),
        r matches Err(e) ==> forall|j: int| 0 <= j < e.object ==> !nan_at(dists@, j),
        r is Ok <==> forall|j: int| 0 <= j < dists@.len() ==> !nan_at(dists@, j),
        r matches Ok(None) ==> misses_all(keys_of(dists@)),
        r matches Ok(Some(i)) ==> is_closest(keys_of(dists@), i as int),
        r is Ok && misses_all(keys_of(dists@)) ==> r == Ok::<Option<usize>, NanDistance>(None),
{
    let mut keys: Vec<Option<i64>> = Vec::new();
    let mut i: usize = 0;
    while i < dists.len()
        invariant
            0 <= i <= dists.len(),
            keys@ == keys_of(dists@.subrange(0, i as int)),
            forall|j: int| 0 <= j < i ==> !nan_at(dists@, j),
        decreases dists.len() - i,
    {
        match dists[i] {
            Some(b) => {
                if is_nan(b) {
                    assert(nan_at(dists@, i as int));
                    return Err(NanDistance { object: i });
                }
                keys.push(Some(order_key(b)));
            },
            None => {
                keys.push(None);
            },
        }
        i = i + 1;
        assert(keys@ =~= keys_of(dists@.subrange(0, i as int)));
    }
    assert(dists@.subrange(0, dists.len() as int) =~= dists@);
    Ok(closest_hit(&keys))
}

/// A ray that misses every object has no nearest hit.
pub proof fn lemma_missed_ray_has_no_hit(dists: Seq<Option<u32>>, i: int)
    requires
        forall|j: int| 0 <= j < dists.len() ==> dists[j] is None,
    ensures
        misses_all(keys_of(dists)),
        !is_closest(keys_of(dists), i),
{
}

} // verus!
