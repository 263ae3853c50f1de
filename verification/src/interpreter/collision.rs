//! Collisions: droplets that would move onto the same position.
use vstd::prelude::*;
use crate::interpreter::droplet::{Droplet, can_step, next_position_of};
use crate::types::coordinate::Coordinate;

verus! {

/// Whether two different active droplets of `ds` will move onto `p`.
pub open spec fn collision_at(ds: Seq<Droplet>, p: Coordinate) -> bool {
    exists|i: int, j: int|
        0 <= i < j < ds.len() && ds[i].active && ds[j].active && #[trigger] next_position_of(ds[i]) == p
            && #[trigger] next_position_of(ds[j]) == p
}

/// Whether every active droplet of `ds` can take its next step.
pub open spec fn all_can_step(ds: Seq<Droplet>) -> bool {
    forall|i: int| 0 <= i < ds.len() && ds[i].active ==> can_step(#[trigger] ds[i].position, ds[i].direction)
}

/// Finds the droplets that would run into each other.
pub struct CollisionDetector;

impl CollisionDetector {
    pub fn new() -> (r: Self) {
        CollisionDetector
    }

    /// The positions that two or more active droplets will move onto, each once.
    pub fn detect_collisions(&self, droplets: &[Droplet]) -> (r: Vec<Coordinate>)
        requires
            all_can_step(droplets@),
        ensures
            r@.no_duplicates(),
            forall|p: Coordinate| r@.contains(p) <==> collision_at(droplets@, p),
    {
        let n = droplets.len();
        let mut out: Vec<Coordinate> = Vec::new();
        let mut i: usize = 0;
        while i < n
            invariant
                n == droplets@.len(),
                i <= n,
                all_can_step(droplets@),
                out@.no_duplicates(),
                forall|p: Coordinate| out@.contains(p) ==> collision_at(droplets@, p),
                forall|a: int, b: int|
                    0 <= a < i && a < b < n && droplets@[a].active && droplets@[b].active && next_position_of(
                        #[trigger] droplets@[a],
                    ) == next_position_of(#[trigger] droplets@[b]) ==> out@.contains(next_position_of(droplets@[a])),
            decreases n - i,
        {
            if droplets[i].active {
                let p = droplets[i].next_position();
                let mut j: usize = i + 1;
                while j < n
                    invariant
                        n == droplets@.len(),
                        i < n,
                        i < j <= n,
                        droplets@[i as int].active,
                        p == next_position_of(droplets@[i as int]),
                        all_can_step(droplets@),
                        out@.no_duplicates(),
                        forall|q: Coordinate| out@.contains(q) ==> collision_at(droplets@, q),
                        forall|a: int, b: int|
                            0 <= a < i && a < b < n && droplets@[a].active && droplets@[b].active && next_position_of(
                                #[trigger] droplets@[a],
                            ) == next_position_of(#[trigger] droplets@[b]) ==> out@.contains(next_position_of(droplets@[a])),
                        forall|b: int|
                            i < b < j && droplets@[b].active && next_position_of(#[trigger] droplets@[b]) == p
                                ==> out@.contains(p),
                    decreases n - j,
                {
                    if droplets[j].active {
                        proof {
                            let _ = droplets@[j as int];
                        }
                        let q = droplets[j].next_position();
                        if q == p && !contains_coordinate(&out, p) {
                            proof {
                                assert(collision_at(droplets@, p)) by {
                                    assert(next_position_of(droplets@[i as int]) == p);
                                    assert(next_position_of(droplets@[j as int]) == p);
                                }
                            }
                            let ghost old_out = out@;
                            out.push(p);
                            proof {
                                assert forall|q: Coordinate| old_out.contains(q) implies out@.contains(q) by {
                                    let k = choose|k: int| 0 <= k < old_out.len() && old_out[k] == q;
                                    assert(out@[k] == q);
                                }
                                assert(out@[out@.len() - 1] == p);
                                assert forall|q: Coordinate| out@.contains(q) implies collision_at(droplets@, q) by {
                                    let k = choose|k: int| 0 <= k < out@.len() && out@[k] == q;
                                    if k < old_out.len() {
                                        assert(old_out[k] == q);
                                    }
                                }
                            }
                        }
                    }
                    j = j + 1;
                }
            }
            i = i + 1;
        }
        proof {
            assert forall|p: Coordinate| collision_at(droplets@, p) implies out@.contains(p) by {
                let (a, b) = choose|a: int, b: int|
                    0 <= a < b < droplets@.len() && droplets@[a].active && droplets@[b].active
                        && #[trigger] next_position_of(droplets@[a]) == p && #[trigger] next_position_of(droplets@[b]) == p;
            }
        }
        out
    }

    /// The indices, in order, of the active droplets that will move onto one of `collision_positions`.
    pub fn get_colliding_droplets(&self, droplets: &[Droplet], collision_positions: &[Coordinate]) -> (r: Vec<usize>)
        requires
            all_can_step(droplets@),
        ensures
            forall|k: int| 0 <= k < r@.len() ==> r@[k] < droplets@.len(),
            forall|k: int, l: int| 0 <= k < l < r@.len() ==> r@[k] < r@[l],
            forall|i: int|
                0 <= i < droplets@.len() ==> (r@.contains(i as usize) <==> (droplets@[i].active
                    && collision_positions@.contains(next_position_of(droplets@[i])))),
    {
        let mut out: Vec<usize> = Vec::new();
        let mut i: usize = 0;
        while i < droplets.len()
            invariant
                i <= droplets@.len(),
                all_can_step(droplets@),
                forall|k: int| 0 <= k < out@.len() ==> out@[k] < i,
                forall|k: int, l: int| 0 <= k < l < out@.len() ==> out@[k] < out@[l],
                forall|m: int|
                    0 <= m < i ==> (out@.contains(m as usize) <==> (droplets@[m].active
                        && collision_positions@.contains(next_position_of(droplets@[m])))),
            decreases droplets@.len() - i,
        {
            proof {
                assert(!out@.contains(i)) by {
                    if out@.contains(i) {
                        let k = choose|k: int| 0 <= k < out@.len() && out@[k] == i;
                    }
                }
            }
            if droplets[i].active {
                proof {
                    let _ = droplets@[i as int];
                }
                let p = droplets[i].next_position();
                if contains_coordinate_slice(collision_positions, p) {
                    let ghost old_out = out@;
                    out.push(i);
                    proof {
                        assert forall|q: usize| old_out.contains(q) implies out@.contains(q) by {
                            let k = choose|k: int| 0 <= k < old_out.len() && old_out[k] == q;
                            assert(out@[k] == q);
                        }
                        assert forall|q: usize| out@.contains(q) && q != i implies old_out.contains(q) by {
                            let k = choose|k: int| 0 <= k < out@.len() && out@[k] == q;
                            assert(old_out[k] == q);
                        }
                        assert(out@[out@.len() - 1] == i);
                    }
                }
            }
            i = i + 1;
        }
        out
    }

    /// Whether `droplet` is active and some other active droplet (another id) will
    /// move onto the same position.
    pub fn will_collide(&self, droplet: &Droplet, other_droplets: &[Droplet]) -> (r: bool)
        requires
            droplet.active ==> can_step(droplet.position, droplet.direction),
            all_can_step(other_droplets@),
        ensures
            r == (droplet.active && exists|k: int|
                0 <= k < other_droplets@.len() && (#[trigger] other_droplets@[k]).active && other_droplets@[k].id
                    != droplet.id && next_position_of(other_droplets@[k]) == next_position_of(*droplet)),
    {
        if !droplet.active {
            return false;
        }
        let p = droplet.next_position();
        let mut k: usize = 0;
        while k < other_droplets.len()
            invariant
                k <= other_droplets@.len(),
                droplet.active,
                p == next_position_of(*droplet),
                all_can_step(other_droplets@),
                forall|m: int|
                    0 <= m < k ==> !((#[trigger] other_droplets@[m]).active && other_droplets@[m].id != droplet.id
                        && next_position_of(other_droplets@[m]) == p),
            decreases other_droplets@.len() - k,
        {
            let other = &other_droplets[k];
            if other.active && other.id != droplet.id {
                proof {
                    let _ = other_droplets@[k as int];
                }
                if other.next_position() == p {
                    return true;
                }
            }
            k = k + 1;
        }
        false
    }
}

impl Default for CollisionDetector {
    fn default() -> (r: Self) {
        CollisionDetector::new()
    }
}

/// Whether `p` is in `v`.
fn contains_coordinate(v: &Vec<Coordinate>, p: Coordinate) -> (r: bool)
    ensures
        r == v@.contains(p),
{
    contains_coordinate_slice(v.as_slice(), p)
}

/// Whether `p` is in `v`.
fn contains_coordinate_slice(v: &[Coordinate], p: Coordinate) -> (r: bool)
    ensures
        r == v@.contains(p),
{
    let mut i: usize = 0;
    while i < v.len()
        invariant
            i <= v@.len(),
            forall|k: int| 0 <= k < i ==> v@[k] != p,
        decreases v@.len() - i,
    {
        if v[i] == p {
            return true;
        }
        i = i + 1;
    }
    false
}

} // verus!
