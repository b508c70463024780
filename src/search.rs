//! Nearest-hit search over the primitives of a scene, and the shadow rule.
//!
//! Hit distances enter as order keys: a key is a `u32` whose order is that of
//! the non-negative, finite distances it stands for (the IEEE-754 bit pattern
//! of such an `f32` has that property). A primitive with no usable hit (a miss,
//! or a negative, non-finite or far-away distance) has no key.
use vstd::prelude::*;

verus! {

/// `keys[i]` is the hit that the search picks: it is a hit, no hit is nearer,
/// and every hit before it in the list is strictly farther.
pub open spec fn is_nearest(keys: Seq<Option<u32>>, i: int) -> bool {
    &&& 0 <= i < keys.len()
    &&& keys[i] is Some
    &&& forall|j: int|
        0 <= j < keys.len() && #[trigger] keys[j] is Some ==> keys[i].unwrap() <= keys[j].unwrap()
    &&& forall|j: int| 0 <= j < i && #[trigger] keys[j] is Some ==> keys[i].unwrap() < keys[j].unwrap()
}

/// The index of the nearest hit among the primitives' keys, taken in scene
/// order; of equally near hits the first one wins. `None` when no primitive
/// has a hit.
pub fn nearest_hit(keys: &Vec<Option<u32>>) -> (r: Option<usize>)
    ensures
        r is None <==> forall|j: int| 0 <= j < keys.len() ==> #[trigger] keys[j] is None,
        r matches Some(i) ==> is_nearest(keys@, i as int),
{
    let mut closest: Option<usize> = None;
    let mut closest_key: u32 = 0;
    let mut i: usize = 0;
    while i < keys.len()
        invariant
            i <= keys.len(),
            closest is None <==> forall|j: int| 0 <= j < i ==> #[trigger] keys[j] is None,
            closest matches Some(c) ==> is_nearest(keys@.take(i as int), c as int)
                && keys[c as int] == Some(closest_key),
        decreases keys.len() - i,
    {
        if let Some(key) = keys[i] {
            let nearer = match closest {
                None => true,
                Some(_) => key < closest_key,
            };
            if nearer {
                closest = Some(i);
                closest_key = key;
            }
        }
        i += 1;
    }
    proof {
        assert(keys@.take(keys.len() as int) =~= keys@);
    }
    closest
}

/// A surface point is in shadow from a light when the ray towards the light
/// hits something no farther away than the light itself.
pub fn in_shadow(nearest: Option<u32>, light_distance: u32) -> (r: bool)
    ensures
        r == (nearest matches Some(d) && d <= light_distance),
{
    match nearest {
        Some(d) => d <= light_distance,
        None => false,
    }
}

} // verus!
