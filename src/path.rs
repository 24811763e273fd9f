use vstd::prelude::*;

verus! {

/// How deep the integrator follows a path: a ray traced at this depth that
/// hits something is not scattered again, and counts as absorbed.
pub const MAX_DEPTH: u32 = 50;

/// What the integrator does next with a ray that it is resolving.
#[derive(Clone, Copy, Debug, PartialEq, Eq, Structural)]
pub enum PathAction {
    /// The ray left the scene: its colour is the sky gradient's.
    Background,
    /// The ray was absorbed, or the path reached the depth limit: black.
    Black,
    /// Ask the material at the hit to scatter the ray.
    Scatter,
    /// Resolve the scattered ray at `depth` and attenuate what it brings back.
    Trace { depth: u32 },
}

/// The step after the hit test of a ray traced at `depth`.
pub open spec fn hit_action(depth: nat, hit: bool) -> PathAction {
    if !hit {
        PathAction::Background
    } else if depth < MAX_DEPTH {
        PathAction::Scatter
    } else {
        PathAction::Black
    }
}

/// The step after the material at a hit was asked to scatter a ray traced at `depth`.
pub open spec fn scatter_action(depth: nat, scattered: bool) -> PathAction {
    if scattered {
        PathAction::Trace { depth: (depth + 1) as u32 }
    } else {
        PathAction::Black
    }
}

/// Decides what follows the hit test of a ray traced at `depth`: the sky on a
/// miss, a scatter below the depth limit, black at it.
pub fn after_hit_test(depth: u32, hit: bool) -> (a: PathAction)
    ensures
        a == hit_action(depth as nat, hit),
{
    if !hit {
        PathAction::Background
    } else if depth < MAX_DEPTH {
        PathAction::Scatter
    } else {
        PathAction::Black
    }
}

/// Decides what follows a scatter at `depth`: the scattered ray is traced one
/// level deeper, an absorbed one is black.
pub fn after_scatter(depth: u32, scattered: bool) -> (a: PathAction)
    requires
        depth < MAX_DEPTH,
    ensures
        a == scatter_action(depth as nat, scattered),
{
    if scattered {
        PathAction::Trace { depth: depth + 1 }
    } else {
        PathAction::Black
    }
}

/// How a path whose ray is traced at `depth` ends, and how many scatters lead
/// there, when the hit test at depth `k` reports `hits(k)` and the material hit
/// at depth `k` scatters exactly when `scatters(k)`.
pub open spec fn path_end(depth: nat, hits: spec_fn(nat) -> bool, scatters: spec_fn(nat) -> bool) -> (PathAction, nat)
    decreases MAX_DEPTH - depth,
{
    match hit_action(depth, hits(depth)) {
        PathAction::Scatter => match scatter_action(depth, scatters(depth)) {
            PathAction::Trace { depth: next } => if depth < next <= MAX_DEPTH {
                let (end, n) = path_end(next as nat, hits, scatters);
                (end, n + 1)
            } else {
                // not taken: a ray is only scattered below the depth limit
                (PathAction::Black, 0)
            },
            other => (other, 0),
        },
        other => (other, 0),
    }
}

/// Every path ends, in the sky or in black, after at most as many scatters as
/// the depth limit leaves it.
pub proof fn lemma_path_ends(depth: nat, hits: spec_fn(nat) -> bool, scatters: spec_fn(nat) -> bool)
    requires
        depth <= MAX_DEPTH,
    ensures
        path_end(depth, hits, scatters).0 == PathAction::Background
            || path_end(depth, hits, scatters).0 == PathAction::Black,
        path_end(depth, hits, scatters).1 <= MAX_DEPTH - depth,
    decreases MAX_DEPTH - depth,
{
    if hits(depth) && depth < MAX_DEPTH && scatters(depth) {
        lemma_path_ends(depth + 1, hits, scatters);
    }
}

/// A path that hits something and scatters at every depth, as inside a
/// mirrored sphere, ends in black after exactly the scatters that the depth
/// limit allows; from the camera's ray, `MAX_DEPTH` of them.
pub proof fn lemma_depth_limit(depth: nat, hits: spec_fn(nat) -> bool, scatters: spec_fn(nat) -> bool)
    requires
        depth <= MAX_DEPTH,
        forall|k: nat| #[trigger] hits(k),
        forall|k: nat| #[trigger] scatters(k),
    ensures
        path_end(depth, hits, scatters) == (PathAction::Black, (MAX_DEPTH - depth) as nat),
    decreases MAX_DEPTH - depth,
{
    assert(hits(depth));
    assert(scatters(depth));
    if depth < MAX_DEPTH {
        lemma_depth_limit(depth + 1, hits, scatters);
    }
}

/// The path hits something and scatters at every depth from `depth` up to, not
/// including, `k`.
pub open spec fn clear_until(depth: nat, k: nat, hits: spec_fn(nat) -> bool, scatters: spec_fn(nat) -> bool) -> bool {
    forall|j: nat| depth <= j < k ==> (#[trigger] hits(j)) && scatters(j)
}

/// A path ends in the sky exactly when its ray misses at some depth within the
/// limit, after hitting and scattering at every depth before it; every other
/// path ends in black.
pub proof fn lemma_sky_exactly(depth: nat, hits: spec_fn(nat) -> bool, scatters: spec_fn(nat) -> bool)
    requires
        depth <= MAX_DEPTH,
    ensures
        path_end(depth, hits, scatters).0 == PathAction::Background <==> exists|k: nat|
            depth <= k <= MAX_DEPTH && !hits(k) && #[trigger] clear_until(depth, k, hits, scatters),
        path_end(depth, hits, scatters).0 != PathAction::Background ==> path_end(depth, hits, scatters).0
            == PathAction::Black,
    decreases MAX_DEPTH - depth,
{
    lemma_path_ends(depth, hits, scatters);
    if !hits(depth) {
        assert(clear_until(depth, depth, hits, scatters));
    } else if depth == MAX_DEPTH || !scatters(depth) {
        assert forall|k: nat| depth <= k <= MAX_DEPTH && !hits(k) implies !#[trigger] clear_until(depth, k, hits, scatters) by {
            if k > depth {
                assert(!(hits(depth) && scatters(depth)));
            }
        }
    } else {
        lemma_sky_exactly(depth + 1, hits, scatters);
        assert(path_end(depth, hits, scatters).0 == path_end(depth + 1, hits, scatters).0);
        if path_end(depth, hits, scatters).0 == PathAction::Background {
            let k = choose|k: nat|
                depth + 1 <= k <= MAX_DEPTH && !hits(k) && #[trigger] clear_until(depth + 1, k, hits, scatters);
            assert forall|j: nat| depth <= j < k implies (#[trigger] hits(j)) && scatters(j) by {
                if j > depth {
                    assert(depth + 1 <= j < k);
                }
            }
            assert(clear_until(depth, k, hits, scatters));
        } else {
            assert forall|k: nat| depth <= k <= MAX_DEPTH && !hits(k) implies !#[trigger] clear_until(
                depth,
                k,
                hits,
                scatters,
            ) by {
                if clear_until(depth, k, hits, scatters) {
                    let next: nat = depth + 1;
                    assert(!clear_until(next, k, hits, scatters));
                    let j = choose|j: nat| next <= j < k && !((#[trigger] hits(j)) && scatters(j));
                    assert(depth <= j < k);
                    assert(hits(j) && scatters(j));
                }
            }
        }
    }
}

} // verus!
