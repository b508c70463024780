//! The depth limit of the recursive shader: a reflected ray is traced one level
//! deeper until the depth reaches the limit, where a flat colour stands in.
use vstd::prelude::*;

verus! {

/// What the shader does for the reflection term of a hit.
#[derive(Clone, Copy, Debug, PartialEq, Eq, Structural)]
pub enum Reflection {
    /// The depth limit is reached: use the flat fallback colour.
    Fallback,
    /// Trace the reflected ray at this depth.
    Trace(i32),
}

/// The depth at which a reflected ray from a hit at `depth` is traced, or
/// `None` at or past the limit.
pub open spec fn next_depth(depth: int, max_depth: int) -> Option<int> {
    if depth >= max_depth {
        None
    } else {
        Some(depth + 1)
    }
}

/// The reflection step for a hit found at `depth`, under the limit `max_depth`.
pub fn next_reflection(depth: i32, max_depth: i32) -> (r: Reflection)
    ensures
        r == (match next_depth(depth as int, max_depth as int) {
            None => Reflection::Fallback,
            Some(d) => Reflection::Trace(d as i32),
        }),
{
    if depth >= max_depth {
        Reflection::Fallback
    } else {
        Reflection::Trace(depth + 1)
    }
}

/// How many reflected rays are traced one inside the other, starting from a
/// hit at `depth`, when every one of them hits something.
pub open spec fn reflection_chain(depth: int, max_depth: int) -> nat
    decreases max_depth - depth,
{
    if depth >= max_depth {
        0
    } else {
        1 + reflection_chain(depth + 1, max_depth)
    }
}

/// Each traced reflection goes one level deeper, so from `depth` the chain of
/// reflected rays stops after `max_depth - depth` of them (none past the
/// limit), whatever the scene: with a limit of 5, a primary ray leads to at
/// most 5 reflected rays.
pub proof fn lemma_reflection_chain_bounded(depth: int, max_depth: int)
    ensures
        next_depth(depth, max_depth) matches Some(d) ==> d == depth + 1 && d <= max_depth
            && reflection_chain(depth, max_depth) == 1 + reflection_chain(d, max_depth),
        next_depth(depth, max_depth) is None ==> reflection_chain(depth, max_depth) == 0,
        reflection_chain(depth, max_depth) == if depth < max_depth {
            max_depth - depth
        } else {
            0
        },
    decreases max_depth - depth,
{
    if depth < max_depth {
        lemma_reflection_chain_bounded(depth + 1, max_depth);
    }
}

} // verus!
