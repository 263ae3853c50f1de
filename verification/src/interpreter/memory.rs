//! The reservoir: an unbounded two-dimensional memory of integers.
use vstd::prelude::*;
use crate::assoc::{assoc_has, assoc_index, assoc_map, keys_unique, lemma_assoc_at, lemma_assoc_empty, lemma_assoc_len, lemma_assoc_push, lemma_assoc_remove, lemma_assoc_update};
use crate::types::bigint::TubularBigInt;
use crate::types::coordinate::Coordinate;
use crate::text::{dec_int, push_int, push_str};

verus! {

/// A memory address: any pair of integers, negative ones included.
#[derive(Debug, Clone, Copy, PartialEq, Eq, Hash, Structural)]
pub struct ReservoirCoordinate {
    pub x: isize,
    pub y: isize,
}

impl ReservoirCoordinate {
    pub fn new(x: isize, y: isize) -> (r: Self)
        ensures
            r.x == x,
            r.y == y,
    {
        ReservoirCoordinate { x, y }
    }

    pub fn from_program_coordinate(coord: Coordinate) -> (r: Self)
        ensures
            r.x == coord.x,
            r.y == coord.y,
    {
        ReservoirCoordinate::new(coord.x, coord.y)
    }

    pub fn to_program_coordinate(&self) -> (r: Coordinate)
        ensures
            r.x == self.x,
            r.y == self.y,
    {
        Coordinate::new(self.x, self.y)
    }
}

/// The values stored in a list of cells, by address.
pub open spec fn stored_values(s: Seq<(ReservoirCoordinate, TubularBigInt)>) -> Map<ReservoirCoordinate, int> {
    assoc_map(s).map_values(|v: TubularBigInt| v@)
}

/// Sparse memory: cells that were never written read as zero.
#[derive(Debug)]
pub struct Reservoir {
    data: Vec<(ReservoirCoordinate, TubularBigInt)>,
}

impl View for Reservoir {
    type V = Map<ReservoirCoordinate, int>;

    closed spec fn view(&self) -> Map<ReservoirCoordinate, int> {
        stored_values(self.data@)
    }
}

/// The value a reservoir holds at an address: zero where nothing was stored.
pub open spec fn read_cell(m: Map<ReservoirCoordinate, int>, c: ReservoirCoordinate) -> int {
    if m.contains_key(c) { m[c] } else { 0 }
}

/// The stored values of a list have the keys of the list.
pub proof fn lemma_stored_dom(s: Seq<(ReservoirCoordinate, TubularBigInt)>)
    requires
        keys_unique(s),
    ensures
        stored_values(s).dom() == assoc_map(s).dom(),
        stored_values(s).dom().finite(),
        stored_values(s).dom().len() == s.len(),
{
    lemma_assoc_len(s);
    assert(stored_values(s).dom() =~= assoc_map(s).dom());
}

impl Reservoir {
    /// The internal invariant: every address is stored at most once.
    pub closed spec fn wf(&self) -> bool {
        keys_unique(self.data@)
    }

    pub fn new() -> (r: Self)
        ensures
            r.wf(),
            r@ == Map::<ReservoirCoordinate, int>::empty(),
    {
        let r = Reservoir { data: Vec::new() };
        proof {
            lemma_assoc_empty(r.data@);
            assert(r@ =~= Map::<ReservoirCoordinate, int>::empty());
        }
        r
    }

    pub fn with_capacity(capacity: usize) -> (r: Self)
        ensures
            r.wf(),
            r@ == Map::<ReservoirCoordinate, int>::empty(),
    {
        let r = Reservoir { data: Vec::with_capacity(capacity) };
        proof {
            lemma_assoc_empty(r.data@);
            assert(r@ =~= Map::<ReservoirCoordinate, int>::empty());
        }
        r
    }

    fn find(&self, coord: ReservoirCoordinate) -> (r: Option<usize>)
        ensures
            match r {
                Some(i) => i < self.data@.len() && self.data@[i as int].0 == coord,
                None => !assoc_has(self.data@, coord),
            },
    {
        let mut i: usize = 0;
        while i < self.data.len()
            invariant
                i <= self.data@.len(),
                forall|j: int| 0 <= j < i ==> self.data@[j].0 != coord,
            decreases self.data@.len() - i,
        {
            if self.data[i].0 == coord {
                return Some(i);
            }
            i = i + 1;
        }
        None
    }

    /// The value at `coord`; zero where nothing was stored.
    pub fn get(&self, coord: ReservoirCoordinate) -> (r: TubularBigInt)
        requires
            self.wf(),
        ensures
            r@ == read_cell(self@, coord),
    {
        match self.find(coord) {
            Some(i) => {
                proof {
                    lemma_assoc_at(self.data@, i as int);
                }
                self.data[i].1.clone()
            },
            None => TubularBigInt::zero(),
        }
    }

    /// Stores `value` at `coord` (replacing what was there) and returns it.
    pub fn put(&mut self, coord: ReservoirCoordinate, value: TubularBigInt) -> (r: TubularBigInt)
        requires
            old(self).wf(),
        ensures
            final(self).wf(),
            final(self)@ == old(self)@.insert(coord, value@),
            r@ == value@,
    {
        let ghost old_data = self.data@;
        let stored = value.clone();
        match self.find(coord) {
            Some(i) => {
                proof {
                    lemma_assoc_update(old_data, i as int, stored);
                }
                self.data.set(i, (coord, stored));
                assert(self.data@ == old_data.update(i as int, (old_data[i as int].0, stored)));
            },
            None => {
                proof {
                    lemma_assoc_push(old_data, coord, stored);
                }
                self.data.push((coord, stored));
            },
        }
        assert(self@ =~= old(self)@.insert(coord, value@));
        value
    }

    /// The same as `get`.
    pub fn get_or_zero(&self, coord: ReservoirCoordinate) -> (r: TubularBigInt)
        requires
            self.wf(),
        ensures
            r@ == read_cell(self@, coord),
    {
        self.get(coord)
    }

    /// Whether a value was stored at `coord`.
    pub fn contains(&self, coord: &ReservoirCoordinate) -> (r: bool)
        requires
            self.wf(),
        ensures
            r == self@.contains_key(*coord),
    {
        self.find(*coord).is_some()
    }

    /// Forgets the value at `coord`, returning it if there was one.
    pub fn remove(&mut self, coord: &ReservoirCoordinate) -> (r: Option<TubularBigInt>)
        requires
            old(self).wf(),
        ensures
            final(self).wf(),
            final(self)@ == old(self)@.remove(*coord),
            match r {
                Some(v) => old(self)@.contains_key(*coord) && v@ == old(self)@[*coord],
                None => !old(self)@.contains_key(*coord),
            },
    {
        let ghost old_data = self.data@;
        match self.find(*coord) {
            Some(i) => {
                proof {
                    lemma_assoc_at(old_data, i as int);
                    lemma_assoc_remove(old_data, i as int);
                }
                let (_, v) = self.data.remove(i);
                assert(self@ =~= old(self)@.remove(*coord));
                Some(v)
            },
            None => {
                assert(old(self)@.remove(*coord) =~= old(self)@);
                None
            },
        }
    }

    pub fn clear(&mut self)
        ensures
            final(self).wf(),
            final(self)@ == Map::<ReservoirCoordinate, int>::empty(),
    {
        self.data.clear();
        proof {
            lemma_assoc_empty(self.data@);
            assert(self@ =~= Map::<ReservoirCoordinate, int>::empty());
        }
    }

    pub fn is_empty(&self) -> (r: bool)
        requires
            self.wf(),
        ensures
            r == (self@.dom().len() == 0),
    {
        proof {
            lemma_stored_dom(self.data@);
        }
        self.data.len() == 0
    }

    /// Number of stored cells.
    pub fn len(&self) -> (r: usize)
        requires
            self.wf(),
        ensures
            r == self@.dom().len(),
    {
        proof {
            lemma_stored_dom(self.data@);
        }
        self.data.len()
    }

    /// The same as `len`.
    pub fn size(&self) -> (r: usize)
        requires
            self.wf(),
        ensures
            r == self@.dom().len(),
    {
        self.len()
    }

    /// The stored cells as address/value pairs, each address once.
    pub fn iter(&self) -> (r: &[(ReservoirCoordinate, TubularBigInt)])
        requires
            self.wf(),
        ensures
            keys_unique(r@),
            stored_values(r@) == self@,
    {
        self.data.as_slice()
    }

    /// The addresses that hold a stored value, each once.
    pub fn keys(&self) -> (r: Vec<ReservoirCoordinate>)
        requires
            self.wf(),
        ensures
            r@.no_duplicates(),
            r@.to_set() == self@.dom(),
    {
        let mut out: Vec<ReservoirCoordinate> = Vec::new();
        let mut i: usize = 0;
        while i < self.data.len()
            invariant
                self.wf(),
                i <= self.data@.len(),
                out@.len() == i,
                forall|j: int| 0 <= j < i ==> out@[j] == #[trigger] self.data@[j].0,
            decreases self.data@.len() - i,
        {
            out.push(self.data[i].0);
            i = i + 1;
        }
        proof {
            assert forall|a: int, b: int| 0 <= a < out@.len() && 0 <= b < out@.len() && a != b implies out@[a] != out@[b] by {
                let _ = self.data@[a];
                let _ = self.data@[b];
            }
            assert forall|c: ReservoirCoordinate| out@.to_set().contains(c) == self@.dom().contains(c) by {
                if out@.to_set().contains(c) {
                    let j = choose|j: int| 0 <= j < out@.len() && out@[j] == c;
                    let _ = self.data@[j];
                }
                if self@.dom().contains(c) {
                    let j = assoc_index(self.data@, c);
                    assert(out@[j] == self.data@[j].0);
                }
            }
            assert(out@.to_set() =~= self@.dom());
        }
        out
    }

    /// Copies of the stored values, listed along the stored addresses: there is a
    /// listing of the addresses, each once, whose `k`-th address holds the `k`-th value.
    pub fn values(&self) -> (r: Vec<TubularBigInt>)
        requires
            self.wf(),
        ensures
            exists|ks: Seq<ReservoirCoordinate>|
                #![trigger ks.to_set()]
                ks.no_duplicates() && ks.to_set() == self@.dom() && ks.len() == r@.len() && forall|k: int|
                    0 <= k < ks.len() ==> (#[trigger] r@[k])@ == self@[ks[k]],
    {
        let mut out: Vec<TubularBigInt> = Vec::new();
        let mut i: usize = 0;
        while i < self.data.len()
            invariant
                self.wf(),
                i <= self.data@.len(),
                out@.len() == i,
                forall|j: int| 0 <= j < i ==> (#[trigger] out@[j])@ == self.data@[j].1@,
            decreases self.data@.len() - i,
        {
            out.push(self.data[i].1.clone());
            i = i + 1;
        }
        let ghost ks = self.data@.map_values(|p: (ReservoirCoordinate, TubularBigInt)| p.0);
        proof {
            assert forall|a: int, b: int| 0 <= a < ks.len() && 0 <= b < ks.len() && a != b implies ks[a] != ks[b] by {
                let _ = self.data@[a];
                let _ = self.data@[b];
            }
            assert forall|c: ReservoirCoordinate| ks.to_set().contains(c) == self@.dom().contains(c) by {
                if ks.to_set().contains(c) {
                    let j = choose|j: int| 0 <= j < ks.len() && ks[j] == c;
                    lemma_assoc_at(self.data@, j);
                }
                if self@.dom().contains(c) {
                    let j = assoc_index(self.data@, c);
                    assert(ks[j] == self.data@[j].0);
                }
            }
            assert(ks.to_set() =~= self@.dom());
            assert forall|k: int| 0 <= k < ks.len() implies (#[trigger] out@[k])@ == self@[ks[k]] by {
                lemma_assoc_at(self.data@, k);
            }
        }
        out
    }

    /// The stored values, listed as `values` lists them, giving up the reservoir.
    pub fn into_values(self) -> (r: Vec<TubularBigInt>)
        requires
            self.wf(),
        ensures
            exists|ks: Seq<ReservoirCoordinate>|
                #![trigger ks.to_set()]
                ks.no_duplicates() && ks.to_set() == self@.dom() && ks.len() == r@.len() && forall|k: int|
                    0 <= k < ks.len() ==> (#[trigger] r@[k])@ == self@[ks[k]],
    {
        self.values()
    }

    /// The values of the eight neighbours of `coord`, row by row from the top left,
    /// each with its address.
    pub fn get_adjacent(&self, coord: ReservoirCoordinate) -> (r: [(TubularBigInt, ReservoirCoordinate); 8])
        requires
            self.wf(),
            isize::MIN < coord.x < isize::MAX,
            isize::MIN < coord.y < isize::MAX,
        ensures
            forall|k: int|
                0 <= k < 8 ==> {
                    let n = ReservoirCoordinate {
                        x: (coord.x + neighbour_dx(k)) as isize,
                        y: (coord.y + neighbour_dy(k)) as isize,
                    };
                    &&& (#[trigger] r@[k]).1 == n
                    &&& r@[k].0@ == read_cell(self@, n)
                },
    {
        let c0 = ReservoirCoordinate::new(coord.x - 1, coord.y - 1);
        let c1 = ReservoirCoordinate::new(coord.x, coord.y - 1);
        let c2 = ReservoirCoordinate::new(coord.x + 1, coord.y - 1);
        let c3 = ReservoirCoordinate::new(coord.x - 1, coord.y);
        let c4 = ReservoirCoordinate::new(coord.x + 1, coord.y);
        let c5 = ReservoirCoordinate::new(coord.x - 1, coord.y + 1);
        let c6 = ReservoirCoordinate::new(coord.x, coord.y + 1);
        let c7 = ReservoirCoordinate::new(coord.x + 1, coord.y + 1);
        let r = [
            (self.get(c0), c0),
            (self.get(c1), c1),
            (self.get(c2), c2),
            (self.get(c3), c3),
            (self.get(c4), c4),
            (self.get(c5), c5),
            (self.get(c6), c6),
            (self.get(c7), c7),
        ];
        assert forall|k: int| 0 <= k < 8 implies {
            let n = ReservoirCoordinate {
                x: (coord.x + neighbour_dx(k)) as isize,
                y: (coord.y + neighbour_dy(k)) as isize,
            };
            &&& (#[trigger] r@[k]).1 == n
            &&& r@[k].0@ == read_cell(self@, n)
        } by {
            if k == 0 {} else if k == 1 {} else if k == 2 {} else if k == 3 {} else if k == 4 {} else if k == 5 {} else if k == 6 {} else {}
        }
        r
    }

    /// The smallest and largest x and y over the stored addresses, or `None` when nothing is stored.
    pub fn bounding_box(&self) -> (r: Option<(ReservoirCoordinate, ReservoirCoordinate)>)
        requires
            self.wf(),
        ensures
            match r {
                None => self@.dom().len() == 0,
                Some((lo, hi)) => {
                    &&& self@.dom().len() > 0
                    &&& forall|c: ReservoirCoordinate| #[trigger] self@.contains_key(c) ==> lo.x <= c.x <= hi.x && lo.y <= c.y <= hi.y
                    &&& exists|c: ReservoirCoordinate| #[trigger] self@.contains_key(c) && c.x == lo.x
                    &&& exists|c: ReservoirCoordinate| #[trigger] self@.contains_key(c) && c.x == hi.x
                    &&& exists|c: ReservoirCoordinate| #[trigger] self@.contains_key(c) && c.y == lo.y
                    &&& exists|c: ReservoirCoordinate| #[trigger] self@.contains_key(c) && c.y == hi.y
                },
            },
    {
        proof {
            lemma_stored_dom(self.data@);
        }
        if self.data.len() == 0 {
            return None;
        }
        let mut min_x = isize::MAX;
        let mut min_y = isize::MAX;
        let mut max_x = isize::MIN;
        let mut max_y = isize::MIN;
        let ghost mut ix: int = 0;
        let ghost mut iy: int = 0;
        let ghost mut ax: int = 0;
        let ghost mut ay: int = 0;
        let mut i: usize = 0;
        while i < self.data.len()
            invariant
                self.wf(),
                0 < self.data@.len(),
                i <= self.data@.len(),
                forall|j: int| 0 <= j < i ==> min_x <= #[trigger] self.data@[j].0.x <= max_x && min_y <= self.data@[j].0.y <= max_y,
                i > 0 ==> 0 <= ix < i && self.data@[ix].0.x == min_x,
                i > 0 ==> 0 <= iy < i && self.data@[iy].0.y == min_y,
                i > 0 ==> 0 <= ax < i && self.data@[ax].0.x == max_x,
                i > 0 ==> 0 <= ay < i && self.data@[ay].0.y == max_y,
            decreases self.data@.len() - i,
        {
            let c = self.data[i].0;
            if i == 0 || c.x < min_x {
                min_x = c.x;
                proof { ix = i as int; }
            }
            if i == 0 || c.y < min_y {
                min_y = c.y;
                proof { iy = i as int; }
            }
            if i == 0 || c.x > max_x {
                max_x = c.x;
                proof { ax = i as int; }
            }
            if i == 0 || c.y > max_y {
                max_y = c.y;
                proof { ay = i as int; }
            }
            i = i + 1;
        }
        proof {
            assert forall|c: ReservoirCoordinate| #[trigger] self@.contains_key(c) implies min_x <= c.x <= max_x && min_y <= c.y <= max_y by {
                let j = assoc_index(self.data@, c);
                let _ = self.data@[j];
            }
            lemma_assoc_at(self.data@, ix);
            lemma_assoc_at(self.data@, iy);
            lemma_assoc_at(self.data@, ax);
            lemma_assoc_at(self.data@, ay);
            assert(self@.contains_key(self.data@[ix].0));
            assert(self@.contains_key(self.data@[iy].0));
            assert(self@.contains_key(self.data@[ax].0));
            assert(self@.contains_key(self.data@[ay].0));
        }
        Some((ReservoirCoordinate::new(min_x, min_y), ReservoirCoordinate::new(max_x, max_y)))
    }

    /// Number of stored cells whose value is not zero.
    pub fn count_non_zero(&self) -> (r: usize)
        requires
            self.wf(),
        ensures
            r == self@.dom().filter(|c: ReservoirCoordinate| self@[c] != 0).len(),
    {
        let ghost mut kept: Seq<(ReservoirCoordinate, TubularBigInt)> = Seq::empty();
        let mut count: usize = 0;
        let mut i: usize = 0;
        proof {
            lemma_assoc_empty(kept);
        }
        while i < self.data.len()
            invariant
                self.wf(),
                i <= self.data@.len(),
                count == kept.len(),
                kept.len() <= i,
                keys_unique(kept),
                forall|c: ReservoirCoordinate| #[trigger] assoc_map(kept).contains_key(c) <==> (exists|j: int| 0 <= j < i && self.data@[j].0 == c && self.data@[j].1@ != 0),
                forall|c: ReservoirCoordinate| #[trigger] assoc_map(kept).contains_key(c) ==> assoc_map(kept)[c]@ == self@[c],
            decreases self.data@.len() - i,
        {
            if !self.data[i].1.is_zero() {
                proof {
                    let e = self.data@[i as int];
                    assert(!assoc_has(kept, e.0)) by {
                        if assoc_has(kept, e.0) {
                            let k = assoc_index(kept, e.0);
                            assert(assoc_map(kept).contains_key(e.0));
                            let j = choose|j: int| 0 <= j < i && self.data@[j].0 == e.0 && self.data@[j].1@ != 0;
                        }
                    }
                    lemma_assoc_push(kept, e.0, e.1);
                    lemma_assoc_at(self.data@, i as int);
                    kept = kept.push(e);
                }
                count = count + 1;
            }
            i = i + 1;
        }
        proof {
            lemma_assoc_len(kept);
            let f = self@.dom().filter(|c: ReservoirCoordinate| self@[c] != 0);
            assert forall|c: ReservoirCoordinate| f.contains(c) == assoc_map(kept).dom().contains(c) by {
                if f.contains(c) {
                    let j = assoc_index(self.data@, c);
                    lemma_assoc_at(self.data@, j);
                }
                if assoc_map(kept).contains_key(c) {
                    let j = choose|j: int| 0 <= j < i && self.data@[j].0 == c && self.data@[j].1@ != 0;
                    lemma_assoc_at(self.data@, j);
                }
            }
            assert(f =~= assoc_map(kept).dom());
        }
        count
    }

    /// Forgets every cell whose value is zero.
    pub fn filter_zero_values(&mut self)
        requires
            old(self).wf(),
        ensures
            final(self).wf(),
            final(self)@ == old(self)@.restrict(old(self)@.dom().filter(|c: ReservoirCoordinate| old(self)@[c] != 0)),
    {
        let mut kept: Vec<(ReservoirCoordinate, TubularBigInt)> = Vec::new();
        let mut i: usize = 0;
        proof {
            lemma_assoc_empty(kept@);
        }
        while i < self.data.len()
            invariant
                self.wf(),
                *self == *old(self),
                i <= self.data@.len(),
                keys_unique(kept@),
                forall|c: ReservoirCoordinate| #[trigger] assoc_map(kept@).contains_key(c) <==> (exists|j: int| 0 <= j < i && self.data@[j].0 == c && self.data@[j].1@ != 0),
                forall|c: ReservoirCoordinate| #[trigger] assoc_map(kept@).contains_key(c) ==> assoc_map(kept@)[c]@ == self@[c],
            decreases self.data@.len() - i,
        {
            if !self.data[i].1.is_zero() {
                let (c, v) = (self.data[i].0, self.data[i].1.clone());
                proof {
                    let e = self.data@[i as int];
                    assert(!assoc_has(kept@, e.0)) by {
                        if assoc_has(kept@, e.0) {
                            assert(assoc_map(kept@).contains_key(e.0));
                            let j = choose|j: int| 0 <= j < i && self.data@[j].0 == e.0 && self.data@[j].1@ != 0;
                        }
                    }
                    lemma_assoc_push(kept@, c, v);
                    lemma_assoc_at(self.data@, i as int);
                }
                kept.push((c, v));
            }
            i = i + 1;
        }
        let ghost before = self@;
        self.data = kept;
        proof {
            let f = before.dom().filter(|c: ReservoirCoordinate| before[c] != 0);
            assert forall|c: ReservoirCoordinate| self@.contains_key(c) == before.restrict(f).contains_key(c) by {
                if before.restrict(f).contains_key(c) {
                    let j = assoc_index(old(self).data@, c);
                    lemma_assoc_at(old(self).data@, j);
                }
                if self@.contains_key(c) {
                    let j = choose|j: int| 0 <= j < old(self).data@.len() && old(self).data@[j].0 == c && old(self).data@[j].1@ != 0;
                    lemma_assoc_at(old(self).data@, j);
                }
            }
            assert(self@ =~= before.restrict(f));
        }
    }
}

/// Horizontal offset of the `k`-th neighbour (row by row from the top left).
pub open spec fn neighbour_dx(k: int) -> int {
    if k == 0 || k == 3 || k == 5 { -1 } else if k == 1 || k == 6 { 0 } else { 1 }
}

/// Vertical offset of the `k`-th neighbour (row by row from the top left).
pub open spec fn neighbour_dy(k: int) -> int {
    if k <= 2 { -1 } else if k <= 4 { 0 } else { 1 }
}

/// Whether `lo` and `hi` are the smallest and largest x and y over the
/// stored addresses of `m`.
pub open spec fn tight_box(m: Map<ReservoirCoordinate, int>, lo: ReservoirCoordinate, hi: ReservoirCoordinate) -> bool {
    &&& forall|c: ReservoirCoordinate| #[trigger] m.contains_key(c) ==> lo.x <= c.x <= hi.x && lo.y <= c.y <= hi.y
    &&& exists|c: ReservoirCoordinate| #[trigger] m.contains_key(c) && c.x == lo.x
    &&& exists|c: ReservoirCoordinate| #[trigger] m.contains_key(c) && c.x == hi.x
    &&& exists|c: ReservoirCoordinate| #[trigger] m.contains_key(c) && c.y == lo.y
    &&& exists|c: ReservoirCoordinate| #[trigger] m.contains_key(c) && c.y == hi.y
}

/// The corners of the box spanned by the stored addresses of `m`.
pub open spec fn reservoir_box(m: Map<ReservoirCoordinate, int>) -> (ReservoirCoordinate, ReservoirCoordinate) {
    choose|b: (ReservoirCoordinate, ReservoirCoordinate)| tight_box(m, b.0, b.1)
}

/// A map has at most one tight box.
pub proof fn lemma_tight_box_unique(
    m: Map<ReservoirCoordinate, int>,
    a: ReservoirCoordinate,
    b: ReservoirCoordinate,
    c: ReservoirCoordinate,
    d: ReservoirCoordinate,
)
    requires
        tight_box(m, a, b),
        tight_box(m, c, d),
    ensures
        a == c,
        b == d,
{
    let k1 = choose|k: ReservoirCoordinate| #[trigger] m.contains_key(k) && k.x == a.x;
    let k2 = choose|k: ReservoirCoordinate| #[trigger] m.contains_key(k) && k.x == c.x;
    let k3 = choose|k: ReservoirCoordinate| #[trigger] m.contains_key(k) && k.y == a.y;
    let k4 = choose|k: ReservoirCoordinate| #[trigger] m.contains_key(k) && k.y == c.y;
    let k5 = choose|k: ReservoirCoordinate| #[trigger] m.contains_key(k) && k.x == b.x;
    let k6 = choose|k: ReservoirCoordinate| #[trigger] m.contains_key(k) && k.x == d.x;
    let k7 = choose|k: ReservoirCoordinate| #[trigger] m.contains_key(k) && k.y == b.y;
    let k8 = choose|k: ReservoirCoordinate| #[trigger] m.contains_key(k) && k.y == d.y;
}

/// One cell of a row of the reservoir's text: its value and a space.
pub open spec fn cell_text(m: Map<ReservoirCoordinate, int>, x: int, y: int) -> Seq<char> {
    dec_int(read_cell(m, ReservoirCoordinate { x: x as isize, y: y as isize })) + " "@
}

/// The first `n` cells of row `y`, starting at column `x0`.
pub open spec fn row_text(m: Map<ReservoirCoordinate, int>, x0: int, y: int, n: nat) -> Seq<char>
    decreases n,
{
    if n == 0 {
        Seq::empty()
    } else {
        row_text(m, x0, y, (n - 1) as nat) + cell_text(m, x0 + n - 1, y)
    }
}

/// The first `n` rows, starting at row `y0`, each `w` cells wide from column `x0`
/// and ended by a line break.
pub open spec fn rows_text(m: Map<ReservoirCoordinate, int>, x0: int, w: nat, y0: int, n: nat) -> Seq<char>
    decreases n,
{
    if n == 0 {
        Seq::empty()
    } else {
        rows_text(m, x0, w, y0, (n - 1) as nat) + row_text(m, x0, y0 + n - 1, w) + "\n"@
    }
}

/// The reservoir as text: a heading with the number of stored cells, then
/// every address of the box spanned by the stored ones, row by row.
pub open spec fn reservoir_text(m: Map<ReservoirCoordinate, int>) -> Seq<char> {
    let head = "Reservoir ("@ + dec_int(m.dom().len() as int) + " cells):\n"@;
    if m.dom().len() == 0 {
        head
    } else {
        let (lo, hi) = reservoir_box(m);
        head + rows_text(m, lo.x as int, (hi.x - lo.x + 1) as nat, lo.y as int, (hi.y - lo.y + 1) as nat)
    }
}

impl Reservoir {
    /// Appends the `w` cells of row `y` from column `x0`.
    fn push_row(&self, out: &mut String, x0: isize, y: isize, w: i128)
        requires
            self.wf(),
            0 <= w,
            x0 + w - 1 <= isize::MAX,
        ensures
            final(out)@ == old(out)@ + row_text(self@, x0 as int, y as int, w as nat),
    {
        let mut j: i128 = 0;
        while j < w
            invariant
                self.wf(),
                0 <= j <= w,
                x0 + w - 1 <= isize::MAX,
                out@ == old(out)@ + row_text(self@, x0 as int, y as int, j as nat),
            decreases w - j,
        {
            let x = (x0 as i128 + j) as isize;
            let v = self.get(ReservoirCoordinate::new(x, y));
            let d = v.to_decimal_string();
            push_str(out, d.as_str());
            push_str(out, " ");
            proof {
                assert(out@ =~= old(out)@ + row_text(self@, x0 as int, y as int, (j + 1) as nat));
            }
            j = j + 1;
        }
    }

    /// The reservoir as text: how many cells are stored, then the values of
    /// the box they span, row by row, with zero where nothing is stored.
    pub fn to_text(&self) -> (r: String)
        requires
            self.wf(),
        ensures
            r@ == reservoir_text(self@),
    {
        let mut out = String::new();
        push_str(&mut out, "Reservoir (");
        let n = self.len();
        push_int(&mut out, n as i128);
        push_str(&mut out, " cells):\n");
        let ghost head = out@;
        assert(head =~= "Reservoir ("@ + dec_int(self@.dom().len() as int) + " cells):\n"@);
        match self.bounding_box() {
            None => out,
            Some((lo, hi)) => {
                proof {
                    let b = reservoir_box(self@);
                    assert(tight_box(self@, lo, hi));
                    lemma_tight_box_unique(self@, b.0, b.1, lo, hi);
                }
                let w: i128 = hi.x as i128 - lo.x as i128 + 1;
                let h: i128 = hi.y as i128 - lo.y as i128 + 1;
                let mut k: i128 = 0;
                while k < h
                    invariant
                        self.wf(),
                        lo.x <= hi.x,
                        lo.y <= hi.y,
                        w == hi.x - lo.x + 1,
                        h == hi.y - lo.y + 1,
                        0 <= k <= h,
                        out@ == head + rows_text(self@, lo.x as int, w as nat, lo.y as int, k as nat),
                    decreases h - k,
                {
                    let y = (lo.y as i128 + k) as isize;
                    self.push_row(&mut out, lo.x, y, w);
                    push_str(&mut out, "\n");
                    proof {
                        assert(out@ =~= head + rows_text(self@, lo.x as int, w as nat, lo.y as int, (k + 1) as nat));
                    }
                    k = k + 1;
                }
                out
            },
        }
    }
}

impl Default for Reservoir {
    fn default() -> (r: Self)
        ensures
            r.wf(),
            r@ == Map::<ReservoirCoordinate, int>::empty(),
    {
        Self::new()
    }
}


/// Reading an address right after writing a value there gives that value.
pub proof fn law_read_after_write(m: Map<ReservoirCoordinate, int>, c: ReservoirCoordinate, v: int)
    ensures
        read_cell(m.insert(c, v), c) == v,
{
}

/// Writing one address leaves what every other address reads unchanged.
pub proof fn law_write_keeps_other_addresses(
    m: Map<ReservoirCoordinate, int>,
    c: ReservoirCoordinate,
    v: int,
    other: ReservoirCoordinate,
)
    requires
        other != c,
    ensures
        read_cell(m.insert(c, v), other) == read_cell(m, other),
{
}

/// An address never written reads zero.
pub proof fn law_unwritten_reads_zero(m: Map<ReservoirCoordinate, int>, c: ReservoirCoordinate)
    requires
        !m.contains_key(c),
    ensures
        read_cell(m, c) == 0,
{
}

} // verus!
