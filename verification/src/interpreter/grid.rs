//! The program grid: the cells of a program, keyed by their coordinates.
use vstd::prelude::*;
use crate::assoc::{assoc_has, assoc_index, assoc_map, keys_unique, lemma_assoc_at, lemma_assoc_empty, lemma_assoc_len, lemma_assoc_push, lemma_assoc_update};
use crate::types::coordinate::{Coordinate, in_grid_range};
use crate::types::error::{InterpreterError, InitError};
use crate::text::{is_whitespace_spec, is_whitespace, push_char, push_str};
use crate::interpreter::paths::{reached_cells, reached_cell_count};

verus! {

/// Pipe symbols that steer droplets.
pub open spec fn flow_control_symbol(c: char) -> bool {
    c == '|' || c == '-' || c == '/' || c == '\\' || c == '^' || c == 'v' || c == '<' || c == '>'
}

/// Symbols that perform an operation on a droplet.
pub open spec fn operator_symbol(c: char) -> bool {
    ||| c == '+' || c == '~' || c == ':' || c == ';' || c == 'd' || c == 'A' || c == 'S'
    ||| c == 'M' || c == 'D' || c == '=' || c == '<' || c == '>' || c == '%' || c == 'G'
    ||| c == 'P' || c == 'C' || c == 'R' || c == '!' || c == ',' || c == 'n' || c == '?'
    ||| '0' <= c <= '9'
}

/// Symbols a program may be written with: pipes, operators and the start symbol.
pub open spec fn valid_symbol(c: char) -> bool {
    flow_control_symbol(c) || operator_symbol(c) || c == '@'
}

/// Symbols that produce a value for a droplet.
pub open spec fn data_source_symbol(c: char) -> bool {
    ('0' <= c <= '9') || c == '>' || c == '?'
}

/// Symbols that consume a droplet's value.
pub open spec fn data_sink_symbol(c: char) -> bool {
    c == '!' || c == ',' || c == 'n'
}

/// The cell that holds `symbol`, with its classification.
pub open spec fn cell_of(symbol: char) -> ProgramCell {
    ProgramCell {
        symbol,
        is_flow_control: flow_control_symbol(symbol),
        is_operator: operator_symbol(symbol),
    }
}

/// One cell of a program.
#[derive(Debug, Clone, Copy, PartialEq, Eq, Structural)]
pub struct ProgramCell {
    /// Character at this position.
    pub symbol: char,
    /// Whether this cell affects droplet movement.
    pub is_flow_control: bool,
    /// Whether this cell performs an operation.
    pub is_operator: bool,
}

impl ProgramCell {
    pub fn new(symbol: char) -> (r: Self)
        ensures
            r == cell_of(symbol),
    {
        let is_flow_control = Self::is_flow_control_symbol(symbol);
        let is_operator = Self::is_operator_symbol(symbol);
        ProgramCell { symbol, is_flow_control, is_operator }
    }

    pub fn is_flow_control_symbol(symbol: char) -> (r: bool)
        ensures
            r == flow_control_symbol(symbol),
    {
        symbol == '|' || symbol == '-' || symbol == '/' || symbol == '\\' || symbol == '^'
            || symbol == 'v' || symbol == '<' || symbol == '>'
    }

    pub fn is_operator_symbol(symbol: char) -> (r: bool)
        ensures
            r == operator_symbol(symbol),
    {
        symbol == '+' || symbol == '~' || symbol == ':' || symbol == ';' || symbol == 'd'
            || symbol == 'A' || symbol == 'S' || symbol == 'M' || symbol == 'D' || symbol == '='
            || symbol == '<' || symbol == '>' || symbol == '%' || symbol == 'G' || symbol == 'P'
            || symbol == 'C' || symbol == 'R' || symbol == '!' || symbol == ',' || symbol == 'n'
            || symbol == '?' || ('0' <= symbol && symbol <= '9')
    }

    pub fn is_start_symbol(symbol: char) -> (r: bool)
        ensures
            r == (symbol == '@'),
    {
        symbol == '@'
    }

    pub fn is_sink_symbol(symbol: char) -> (r: bool)
        ensures
            r == (symbol == '!'),
    {
        symbol == '!'
    }

    pub fn is_data_source(symbol: char) -> (r: bool)
        ensures
            r == data_source_symbol(symbol),
    {
        ('0' <= symbol && symbol <= '9') || symbol == '>' || symbol == '?'
    }

    pub fn is_data_sink(symbol: char) -> (r: bool)
        ensures
            r == data_sink_symbol(symbol),
    {
        symbol == '!' || symbol == ',' || symbol == 'n'
    }

    /// Whether `symbol` may appear in a program.
    pub fn is_valid_symbol(symbol: char) -> (r: bool)
        ensures
            r == valid_symbol(symbol),
    {
        Self::is_flow_control_symbol(symbol) || Self::is_operator_symbol(symbol)
            || Self::is_start_symbol(symbol)
    }
}

/// Smallest box holding a set of coordinates; empty when `min > max`.
#[derive(Debug, Clone, Copy, PartialEq, Eq, Structural)]
pub struct BoundingBox {
    pub min_x: isize,
    pub min_y: isize,
    pub max_x: isize,
    pub max_y: isize,
}

/// The box that holds nothing.
pub open spec fn empty_box() -> BoundingBox {
    BoundingBox { min_x: isize::MAX, min_y: isize::MAX, max_x: isize::MIN, max_y: isize::MIN }
}

pub open spec fn min_isize(a: isize, b: isize) -> isize {
    if a <= b { a } else { b }
}

pub open spec fn max_isize(a: isize, b: isize) -> isize {
    if a >= b { a } else { b }
}

/// `b` grown to hold `c`.
pub open spec fn box_grow(b: BoundingBox, c: Coordinate) -> BoundingBox {
    BoundingBox {
        min_x: min_isize(b.min_x, c.x),
        min_y: min_isize(b.min_y, c.y),
        max_x: max_isize(b.max_x, c.x),
        max_y: max_isize(b.max_y, c.y),
    }
}

/// Number of columns of a box.
pub open spec fn box_width(b: BoundingBox) -> int {
    if b.min_x > b.max_x { 0 } else { b.max_x - b.min_x + 1 }
}

/// Number of rows of a box.
pub open spec fn box_height(b: BoundingBox) -> int {
    if b.min_y > b.max_y { 0 } else { b.max_y - b.min_y + 1 }
}

/// Whether `c` lies in the box.
pub open spec fn box_contains(b: BoundingBox, c: Coordinate) -> bool {
    b.min_x <= c.x <= b.max_x && b.min_y <= c.y <= b.max_y
}

impl BoundingBox {
    pub fn new() -> (r: Self)
        ensures
            r == empty_box(),
    {
        BoundingBox { min_x: isize::MAX, min_y: isize::MAX, max_x: isize::MIN, max_y: isize::MIN }
    }

    pub fn include_coordinate(&mut self, coord: Coordinate)
        ensures
            *final(self) == box_grow(*old(self), coord),
    {
        if coord.x < self.min_x {
            self.min_x = coord.x;
        }
        if coord.y < self.min_y {
            self.min_y = coord.y;
        }
        if coord.x > self.max_x {
            self.max_x = coord.x;
        }
        if coord.y > self.max_y {
            self.max_y = coord.y;
        }
    }

    pub fn width(&self) -> (r: usize)
        requires
            box_width(*self) <= isize::MAX,
        ensures
            r == box_width(*self),
    {
        if self.min_x > self.max_x {
            0
        } else {
            (self.max_x - self.min_x + 1) as usize
        }
    }

    pub fn height(&self) -> (r: usize)
        requires
            box_height(*self) <= isize::MAX,
        ensures
            r == box_height(*self),
    {
        if self.min_y > self.max_y {
            0
        } else {
            (self.max_y - self.min_y + 1) as usize
        }
    }

    pub fn contains(&self, coord: Coordinate) -> (r: bool)
        ensures
            r == box_contains(*self, coord),
    {
        coord.x >= self.min_x && coord.x <= self.max_x && coord.y >= self.min_y && coord.y
            <= self.max_y
    }
}

/// `n` as a `usize`, or `usize::MAX` when it is larger.
pub open spec fn capped(n: int) -> usize {
    if n > usize::MAX { usize::MAX } else { n as usize }
}

/// Whether `c` is within `COORD_LIMIT` of the origin along both axes.
fn in_range(c: Coordinate) -> (r: bool)
    ensures
        r == in_grid_range(c),
{
    -crate::types::coordinate::COORD_LIMIT <= c.x && c.x <= crate::types::coordinate::COORD_LIMIT
        && -crate::types::coordinate::COORD_LIMIT <= c.y && c.y <= crate::types::coordinate::COORD_LIMIT
}

/// A box side from `lo` to `hi` (none when `lo > hi`), capped at `usize::MAX`.
fn capped_side(lo: isize, hi: isize) -> (r: usize)
    ensures
        r == capped(if lo > hi { 0 } else { hi - lo + 1 }),
{
    if lo > hi {
        0
    } else {
        let n: i128 = hi as i128 - lo as i128 + 1;
        if n > usize::MAX as i128 {
            usize::MAX
        } else {
            n as usize
        }
    }
}

/// The box that holds `b`, the origin and `c`: the extent of a grid, counted
/// from the origin, that would hold a cell at `c`.
pub open spec fn extent_with(b: BoundingBox, c: Coordinate) -> BoundingBox {
    box_grow(box_grow(b, Coordinate { x: 0, y: 0 }), c)
}

/// The width and height of `extent_with(b, c)`, each capped at `usize::MAX`.
fn grown_size(b: BoundingBox, c: Coordinate) -> (r: (usize, usize))
    ensures
        r == (capped(box_width(extent_with(b, c))), capped(box_height(extent_with(b, c)))),
{
    let bx0 = if b.min_x < 0 { b.min_x } else { 0 };
    let bx1 = if b.max_x > 0 { b.max_x } else { 0 };
    let by0 = if b.min_y < 0 { b.min_y } else { 0 };
    let by1 = if b.max_y > 0 { b.max_y } else { 0 };
    let min_x = if c.x < bx0 { c.x } else { bx0 };
    let max_x = if c.x > bx1 { c.x } else { bx1 };
    let min_y = if c.y < by0 { c.y } else { by0 };
    let max_y = if c.y > by1 { c.y } else { by1 };
    (capped_side(min_x, max_x), capped_side(min_y, max_y))
}

impl Default for BoundingBox {
    fn default() -> (r: Self)
        ensures
            r == empty_box(),
    {
        Self::new()
    }
}

/// Whether the grid validation accepts a symbol.
pub open spec fn grid_symbol_ok(c: char) -> bool {
    flow_control_symbol(c) || operator_symbol(c) || c == '@' || is_whitespace_spec(c)
}

/// The sparse grid of a program.
#[derive(Debug, Clone)]
pub struct ProgramGrid {
    cells: Vec<(Coordinate, ProgramCell)>,
    bounds: BoundingBox,
    start: Option<Coordinate>,
}

impl ProgramGrid {
    /// The cells of the grid, by coordinate.
    pub closed spec fn view(&self) -> Map<Coordinate, ProgramCell> {
        assoc_map(self.cells@)
    }

    /// The cells in the order `iter` gives them.
    pub closed spec fn spec_cells(&self) -> Seq<(Coordinate, ProgramCell)> {
        self.cells@
    }

    /// The cells in iteration order hold each coordinate once and make up the grid.
    pub proof fn lemma_cells(&self)
        requires
            self.wf(),
        ensures
            keys_unique(self.spec_cells()),
            assoc_map(self.spec_cells()) == self@,
    {
    }

    /// The box spanned by all cells ever added.
    pub closed spec fn spec_bounds(&self) -> BoundingBox {
        self.bounds
    }

    /// Where the start symbol was placed.
    pub closed spec fn spec_start(&self) -> Option<Coordinate> {
        self.start
    }

    /// The internal invariant of a grid.
    pub closed spec fn wf(&self) -> bool {
        &&& keys_unique(self.cells@)
        &&& forall|i: int|
            0 <= i < self.cells@.len() ==> {
                let (c, cell) = #[trigger] self.cells@[i];
                &&& cell == cell_of(cell.symbol)
                &&& (cell.symbol as u32) < 128
                &&& in_grid_range(c)
                &&& box_contains(self.bounds, c)
                &&& (cell.symbol == '@' ==> self.start == Some(c))
            }
        &&& self.cells@.len() == 0 ==> self.bounds == empty_box()
        &&& self.cells@.len() > 0 ==> {
            &&& exists|i: int| 0 <= i < self.cells@.len() && #[trigger] self.cells@[i].0.x == self.bounds.min_x
            &&& exists|i: int| 0 <= i < self.cells@.len() && #[trigger] self.cells@[i].0.x == self.bounds.max_x
            &&& exists|i: int| 0 <= i < self.cells@.len() && #[trigger] self.cells@[i].0.y == self.bounds.min_y
            &&& exists|i: int| 0 <= i < self.cells@.len() && #[trigger] self.cells@[i].0.y == self.bounds.max_y
        }
        &&& self.start matches Some(s) ==> assoc_has(self.cells@, s)
    }

    /// What every well-formed grid satisfies.
    pub proof fn lemma_wf_facts(&self)
        requires
            self.wf(),
        ensures
            forall|c: Coordinate| #[trigger] self@.contains_key(c) ==> {
                &&& in_grid_range(c)
                &&& self@[c] == cell_of(self@[c].symbol)
                &&& (self@[c].symbol as u32) < 128
                &&& box_contains(self.spec_bounds(), c)
                &&& (self@[c].symbol == '@' ==> self.spec_start() == Some(c))
            },
            self.spec_start() matches Some(s) ==> self@.contains_key(s),
            self@.dom().finite(),
            self@.dom().len() == 0 ==> self.spec_bounds() == empty_box(),
            self@.dom().len() > 0 ==> {
                &&& -crate::types::coordinate::COORD_LIMIT <= self.spec_bounds().min_x <= self.spec_bounds().max_x <= crate::types::coordinate::COORD_LIMIT
                &&& -crate::types::coordinate::COORD_LIMIT <= self.spec_bounds().min_y <= self.spec_bounds().max_y <= crate::types::coordinate::COORD_LIMIT
            },
    {
        lemma_assoc_len(self.cells@);
        assert forall|c: Coordinate| #[trigger] self@.contains_key(c) implies {
            &&& in_grid_range(c)
            &&& self@[c] == cell_of(self@[c].symbol)
            &&& (self@[c].symbol as u32) < 128
            &&& box_contains(self.spec_bounds(), c)
            &&& (self@[c].symbol == '@' ==> self.spec_start() == Some(c))
        } by {
            let i = assoc_index(self.cells@, c);
            lemma_assoc_at(self.cells@, i);
            let _ = self.cells@[i];
        }
        if self.cells@.len() > 0 {
            let i = choose|i: int| 0 <= i < self.cells@.len() && #[trigger] self.cells@[i].0.x == self.bounds.min_x;
            let j = choose|i: int| 0 <= i < self.cells@.len() && #[trigger] self.cells@[i].0.x == self.bounds.max_x;
            let k = choose|i: int| 0 <= i < self.cells@.len() && #[trigger] self.cells@[i].0.y == self.bounds.min_y;
            let l = choose|i: int| 0 <= i < self.cells@.len() && #[trigger] self.cells@[i].0.y == self.bounds.max_y;
            let _ = self.cells@[i];
            let _ = self.cells@[j];
            let _ = self.cells@[k];
            let _ = self.cells@[l];
        }
        if let Some(s) = self.start {
            let i = assoc_index(self.cells@, s);
            lemma_assoc_at(self.cells@, i);
        }
    }

    pub fn new() -> (r: Self)
        ensures
            r.wf(),
            r@ == Map::<Coordinate, ProgramCell>::empty(),
            r.spec_bounds() == empty_box(),
            r.spec_start() is None,
    {
        let r = ProgramGrid { cells: Vec::new(), bounds: BoundingBox::new(), start: None };
        proof {
            lemma_assoc_empty(r.cells@);
        }
        r
    }

    /// Index of the entry for `coord`, if any.
    fn find(&self, coord: Coordinate) -> (r: Option<usize>)
        ensures
            match r {
                Some(i) => i < self.cells@.len() && self.cells@[i as int].0 == coord,
                None => !assoc_has(self.cells@, coord),
            },
    {
        let mut i: usize = 0;
        while i < self.cells.len()
            invariant
                i <= self.cells@.len(),
                forall|j: int| 0 <= j < i ==> self.cells@[j].0 != coord,
            decreases self.cells@.len() - i,
        {
            if self.cells[i].0 == coord {
                return Some(i);
            }
            i = i + 1;
        }
        None
    }

    /// Places `symbol` at `coord`.
    ///
    /// A non-ASCII symbol is refused, and so is a second start symbol `@`, and
    /// so is a position more than `COORD_LIMIT` from the origin along either
    /// axis (the grid would be too large: the error gives the extent, counted
    /// from the origin, that it would have); otherwise the cell is written (replacing any cell there) and the
    /// bounds grow to hold it.
    pub fn add_cell(&mut self, coord: Coordinate, symbol: char) -> (r: Result<(), InterpreterError>)
        requires
            old(self).wf(),
        ensures
            final(self).wf(),
            (symbol as u32) >= 128 ==> r == Err::<(), InterpreterError>(
                InterpreterError::Initialization(InitError::InvalidCharacter(symbol, coord)),
            ) && *final(self) == *old(self),
            (symbol as u32) < 128 && symbol == '@' && old(self).spec_start() is Some ==> r == Err::<
                (),
                InterpreterError,
            >(InterpreterError::Initialization(InitError::MultipleStartSymbols)) && *final(self)
                == *old(self),
            (symbol as u32) < 128 && !(symbol == '@' && old(self).spec_start() is Some) && !in_grid_range(coord) ==> r
                == Err::<(), InterpreterError>(
                InterpreterError::Initialization(
                    InitError::GridSizeExceeded(
                        capped(box_width(extent_with(old(self).spec_bounds(), coord))),
                        capped(box_height(extent_with(old(self).spec_bounds(), coord))),
                    ),
                ),
            ) && *final(self) == *old(self),
            (symbol as u32) < 128 && !(symbol == '@' && old(self).spec_start() is Some) && in_grid_range(coord) ==> {
                &&& r == Ok::<(), InterpreterError>(())
                &&& final(self)@ == old(self)@.insert(coord, cell_of(symbol))
                &&& final(self).spec_bounds() == box_grow(old(self).spec_bounds(), coord)
                &&& final(self).spec_start() == (if symbol == '@' {
                    Some(coord)
                } else {
                    old(self).spec_start()
                })
            },
    {
        if !((symbol as u32) < 128) {
            return Err(InterpreterError::Initialization(InitError::InvalidCharacter(symbol, coord)));
        }
        let cell = ProgramCell::new(symbol);
        if ProgramCell::is_start_symbol(symbol) {
            if self.start.is_some() {
                return Err(InterpreterError::Initialization(InitError::MultipleStartSymbols));
            }
        }
        if !in_range(coord) {
            let (w, h) = grown_size(self.bounds, coord);
            return Err(InterpreterError::Initialization(InitError::GridSizeExceeded(w, h)));
        }
        let ghost old_cells = self.cells@;
        let ghost old_bounds = self.bounds;
        let ghost old_start = self.start;
        let ghost ci: int;
        match self.find(coord) {
            Some(i) => {
                proof {
                    lemma_assoc_update(old_cells, i as int, cell);
                    ci = i as int;
                }
                self.cells.set(i, (coord, cell));
                assert(self.cells@ == old_cells.update(i as int, (old_cells[i as int].0, cell)));
            },
            None => {
                proof {
                    lemma_assoc_push(old_cells, coord, cell);
                    ci = old_cells.len() as int;
                }
                self.cells.push((coord, cell));
            },
        }
        if ProgramCell::is_start_symbol(symbol) {
            self.start = Some(coord);
        }
        self.bounds.include_coordinate(coord);
        proof {
            let n = self.cells@;
            assert(n[ci] == (coord, cell));
            assert(forall|i: int| 0 <= i < n.len() && i != ci ==> #[trigger] n[i] == old_cells[i]);
            assert forall|i: int| 0 <= i < n.len() implies {
                let (c, cl) = #[trigger] n[i];
                &&& cl == cell_of(cl.symbol)
                &&& (cl.symbol as u32) < 128
                &&& in_grid_range(c)
                &&& box_contains(self.bounds, c)
                &&& (cl.symbol == '@' ==> self.start == Some(c))
            } by {
                if i != ci {
                    let _ = old_cells[i];
                    if n[i].1.symbol == '@' {
                        assert(old_start == Some(n[i].0));
                        assert(symbol != '@');
                    }
                }
            }
            if old_cells.len() == 0 {
                assert(n[ci].0.x == self.bounds.min_x);
                assert(n[ci].0.x == self.bounds.max_x);
                assert(n[ci].0.y == self.bounds.min_y);
                assert(n[ci].0.y == self.bounds.max_y);
            } else {
                let a = choose|i: int| 0 <= i < old_cells.len() && #[trigger] old_cells[i].0.x == old_bounds.min_x;
                let b = choose|i: int| 0 <= i < old_cells.len() && #[trigger] old_cells[i].0.x == old_bounds.max_x;
                let c = choose|i: int| 0 <= i < old_cells.len() && #[trigger] old_cells[i].0.y == old_bounds.min_y;
                let d = choose|i: int| 0 <= i < old_cells.len() && #[trigger] old_cells[i].0.y == old_bounds.max_y;
                assert(n[a].0 == old_cells[a].0);
                assert(n[b].0 == old_cells[b].0);
                assert(n[c].0 == old_cells[c].0);
                assert(n[d].0 == old_cells[d].0);
                if coord.x < old_bounds.min_x { assert(n[ci].0.x == self.bounds.min_x); } else { assert(n[a].0.x == self.bounds.min_x); }
                if coord.x > old_bounds.max_x { assert(n[ci].0.x == self.bounds.max_x); } else { assert(n[b].0.x == self.bounds.max_x); }
                if coord.y < old_bounds.min_y { assert(n[ci].0.y == self.bounds.min_y); } else { assert(n[c].0.y == self.bounds.min_y); }
                if coord.y > old_bounds.max_y { assert(n[ci].0.y == self.bounds.max_y); } else { assert(n[d].0.y == self.bounds.max_y); }
            }
            if let Some(s) = self.start {
                if s != coord {
                    let j = choose|j: int| 0 <= j < old_cells.len() && old_cells[j].0 == s;
                    assert(n[j].0 == s);
                }
            }
        }
        Ok(())
    }

    /// The cell at `coord`, if there is one.
    pub fn get(&self, coord: Coordinate) -> (r: Option<&ProgramCell>)
        requires
            self.wf(),
        ensures
            match r {
                Some(cell) => self@.contains_key(coord) && *cell == self@[coord],
                None => !self@.contains_key(coord),
            },
    {
        match self.find(coord) {
            Some(i) => {
                proof {
                    lemma_assoc_at(self.cells@, i as int);
                }
                Some(&self.cells[i].1)
            },
            None => None,
        }
    }

    /// The symbol at `coord`, if there is a cell there.
    pub fn get_symbol(&self, coord: Coordinate) -> (r: Option<char>)
        requires
            self.wf(),
        ensures
            r == (if self@.contains_key(coord) { Some(self@[coord].symbol) } else { None::<char> }),
    {
        match self.get(coord) {
            Some(cell) => Some(cell.symbol),
            None => None,
        }
    }

    pub fn is_empty(&self) -> (r: bool)
        requires
            self.wf(),
        ensures
            r == (self@.dom().len() == 0),
    {
        proof {
            lemma_assoc_len(self.cells@);
        }
        self.cells.len() == 0
    }

    /// Number of cells placed, reached or not.
    pub fn cell_count(&self) -> (r: usize)
        requires
            self.wf(),
        ensures
            r == self@.dom().len(),
    {
        proof {
            lemma_assoc_len(self.cells@);
        }
        self.cells.len()
    }

    /// The size of the program: the number of cells a droplet from the start can
    /// be on (see `paths`); with no start, the number of cells.
    pub open spec fn spec_size(&self) -> nat {
        match self.spec_start() {
            Some(s) => reached_cells(self@, s).len(),
            None => self@.dom().len(),
        }
    }

    /// The size of the program: the number of cells a droplet setting out from
    /// the start can be on; with no start, the number of cells.
    pub fn size(&self) -> (r: usize)
        requires
            self.wf(),
        ensures
            r == self.spec_size(),
    {
        match self.start {
            Some(s) => reached_cell_count(self, s),
            None => self.cell_count(),
        }
    }

    /// Where the start symbol was placed, if it was.
    pub fn start(&self) -> (r: Option<Coordinate>)
        ensures
            r == self.spec_start(),
    {
        self.start
    }

    /// The box spanned by the cells.
    pub fn bounds(&self) -> (r: BoundingBox)
        ensures
            r == self.spec_bounds(),
    {
        self.bounds
    }

    /// `(width, height)` of the bounding box.
    pub fn dimensions(&self) -> (r: (usize, usize))
        requires
            self.wf(),
        ensures
            r.0 == box_width(self.spec_bounds()),
            r.1 == box_height(self.spec_bounds()),
    {
        proof {
            self.lemma_wf_facts();
        }
        (self.bounds.width(), self.bounds.height())
    }

    /// The cells as coordinate/cell pairs, each coordinate once.
    pub fn iter(&self) -> (r: &[(Coordinate, ProgramCell)])
        requires
            self.wf(),
        ensures
            keys_unique(r@),
            assoc_map(r@) == self@,
            r@ == self.spec_cells(),
    {
        self.cells.as_slice()
    }

    /// Whether the grid can run: it has a start symbol, fits in 1000x1000 cells,
    /// and every symbol is a pipe, an operator, `@` or whitespace.
    pub open spec fn runnable(&self) -> bool {
        &&& self.spec_start() is Some
        &&& box_width(self.spec_bounds()) <= 1000
        &&& box_height(self.spec_bounds()) <= 1000
        &&& forall|c: Coordinate| #[trigger] self@.contains_key(c) ==> grid_symbol_ok(self@[c].symbol)
    }

    /// The errors `validate` reports for a grid that cannot run: no start symbol
    /// first, then the size, then a cell with a symbol that is not accepted.
    pub open spec fn validation_failure(&self, e: InterpreterError) -> bool {
        if self.spec_start() is None {
            e == InterpreterError::Initialization(InitError::NoStartSymbol)
        } else if box_width(self.spec_bounds()) > 1000 || box_height(self.spec_bounds()) > 1000 {
            e == InterpreterError::Initialization(
                InitError::GridSizeExceeded(
                    box_width(self.spec_bounds()) as usize,
                    box_height(self.spec_bounds()) as usize,
                ),
            )
        } else {
            exists|c: Coordinate|
                #[trigger] self@.contains_key(c) && !grid_symbol_ok(self@[c].symbol)
                    && e == InterpreterError::Initialization(InitError::InvalidCharacter(self@[c].symbol, c))
        }
    }

    /// Checks that the grid can run: it has a start symbol, it fits in
    /// 1000x1000 cells, and every symbol is a pipe, an operator, `@` or whitespace.
    pub fn validate(&self) -> (r: Result<(), InterpreterError>)
        requires
            self.wf(),
        ensures
            r is Ok <==> self.runnable(),
            r matches Err(e) ==> self.validation_failure(e),
    {
        if self.start.is_none() {
            return Err(InterpreterError::Initialization(InitError::NoStartSymbol));
        }
        let (width, height) = self.dimensions();
        if width > 1000 || height > 1000 {
            return Err(InterpreterError::Initialization(InitError::GridSizeExceeded(width, height)));
        }
        let mut i: usize = 0;
        while i < self.cells.len()
            invariant
                self.wf(),
                self.start is Some,
                box_width(self.bounds) <= 1000,
                box_height(self.bounds) <= 1000,
                i <= self.cells@.len(),
                forall|j: int| 0 <= j < i ==> grid_symbol_ok(#[trigger] self.cells@[j].1.symbol),
            decreases self.cells@.len() - i,
        {
            let (coord, cell) = self.cells[i];
            if !ProgramCell::is_flow_control_symbol(cell.symbol) && !ProgramCell::is_operator_symbol(
                cell.symbol,
            ) && !ProgramCell::is_start_symbol(cell.symbol) && !is_whitespace(cell.symbol) {
                proof {
                    lemma_assoc_at(self.cells@, i as int);
                    assert(self@.contains_key(coord) && self@[coord].symbol == cell.symbol);
                    assert(!grid_symbol_ok(cell.symbol));
                }
                return Err(InterpreterError::Initialization(InitError::InvalidCharacter(cell.symbol, coord)));
            }
            i = i + 1;
        }
        proof {
            assert forall|c: Coordinate| #[trigger] self@.contains_key(c) implies grid_symbol_ok(self@[c].symbol) by {
                let j = assoc_index(self.cells@, c);
                lemma_assoc_at(self.cells@, j);
                let _ = self.cells@[j];
            }
        }
        Ok(())
    }

    /// The grid as text: one line per row of the bounding box, with a space
    /// for every position that holds no cell.
    pub fn symbols_in_bounds(&self) -> (r: Vec<String>)
        requires
            self.wf(),
        ensures
            r@.len() == box_height(self.spec_bounds()),
            forall|y: int|
                0 <= y < r@.len() ==> (#[trigger] r@[y])@ == Seq::new(
                    box_width(self.spec_bounds()) as nat,
                    |x: int| row_char(self@, self.spec_bounds(), x, y),
                ),
    {
        proof {
            self.lemma_wf_facts();
        }
        let width = self.bounds.width();
        let height = self.bounds.height();
        let mut lines: Vec<String> = Vec::new();
        let mut y: usize = 0;
        while y < height
            invariant
                self.wf(),
                width == box_width(self.spec_bounds()),
                height == box_height(self.spec_bounds()),
                height > 0 ==> -crate::types::coordinate::COORD_LIMIT <= self.bounds.min_y <= self.bounds.max_y <= crate::types::coordinate::COORD_LIMIT,
                width > 0 ==> -crate::types::coordinate::COORD_LIMIT <= self.bounds.min_x <= self.bounds.max_x <= crate::types::coordinate::COORD_LIMIT,
                y <= height,
                lines@.len() == y,
                forall|k: int|
                    0 <= k < y ==> (#[trigger] lines@[k])@ == Seq::new(
                        width as nat,
                        |x: int| row_char(self@, self.spec_bounds(), x, k),
                    ),
            decreases height - y,
        {
            let mut line = String::new();
            let mut x: usize = 0;
            while x < width
                invariant
                    self.wf(),
                    width == box_width(self.spec_bounds()),
                    height == box_height(self.spec_bounds()),
                    height > 0 ==> -crate::types::coordinate::COORD_LIMIT <= self.bounds.min_y <= self.bounds.max_y <= crate::types::coordinate::COORD_LIMIT,
                    width > 0 ==> -crate::types::coordinate::COORD_LIMIT <= self.bounds.min_x <= self.bounds.max_x <= crate::types::coordinate::COORD_LIMIT,
                    y < height,
                    x <= width,
                    line@ == Seq::new(x as nat, |i: int| row_char(self@, self.spec_bounds(), i, y as int)),
                decreases width - x,
            {
                let coord = Coordinate::new(self.bounds.min_x + x as isize, self.bounds.min_y + y as isize);
                let c = match self.get(coord) {
                    Some(cell) => cell.symbol,
                    None => ' ',
                };
                push_char(&mut line, c);
                assert(line@ =~= Seq::new((x + 1) as nat, |i: int| row_char(self@, self.spec_bounds(), i, y as int)));
                x = x + 1;
            }
            lines.push(line);
            y = y + 1;
        }
        lines
    }
}

/// The character shown at column `x` of row `y` of the box: the cell's
/// symbol, or a space where there is no cell.
pub open spec fn row_char(cells: Map<Coordinate, ProgramCell>, b: BoundingBox, x: int, y: int) -> char {
    let c = Coordinate { x: (b.min_x + x) as isize, y: (b.min_y + y) as isize };
    if cells.contains_key(c) { cells[c].symbol } else { ' ' }
}

/// Lines joined into one text, each followed by a line break.
pub open spec fn lines_block(lines: Seq<Seq<char>>) -> Seq<char>
    decreases lines.len(),
{
    if lines.len() == 0 {
        Seq::empty()
    } else {
        lines_block(lines.drop_last()) + lines.last() + "\n"@
    }
}

/// The rows of the grid's bounding box, as `symbols_in_bounds` gives them.
pub open spec fn grid_rows(cells: Map<Coordinate, ProgramCell>, b: BoundingBox) -> Seq<Seq<char>> {
    Seq::new(
        box_height(b) as nat,
        |y: int| Seq::new(box_width(b) as nat, |x: int| row_char(cells, b, x, y)),
    )
}

impl ProgramGrid {
    /// The grid as text: each row of the bounding box on a line of its own.
    pub fn to_text(&self) -> (r: String)
        requires
            self.wf(),
        ensures
            r@ == lines_block(grid_rows(self@, self.spec_bounds())),
    {
        let lines = self.symbols_in_bounds();
        let ghost rows = grid_rows(self@, self.spec_bounds());
        let mut out = String::new();
        let mut i: usize = 0;
        while i < lines.len()
            invariant
                i <= lines@.len(),
                lines@.len() == rows.len(),
                forall|y: int| 0 <= y < lines@.len() ==> (#[trigger] lines@[y])@ == rows[y],
                out@ == lines_block(rows.take(i as int)),
            decreases lines@.len() - i,
        {
            push_str(&mut out, lines[i].as_str());
            push_str(&mut out, "\n");
            proof {
                let s = rows.take(i + 1);
                assert(s.drop_last() =~= rows.take(i as int));
                assert(s.last() == lines@[i as int]@);
            }
            i = i + 1;
        }
        assert(rows.take(lines@.len() as int) =~= rows);
        out
    }
}

impl Default for ProgramGrid {
    fn default() -> (r: Self)
        ensures
            r.wf(),
            r@ == Map::<Coordinate, ProgramCell>::empty(),
            r.spec_bounds() == empty_box(),
            r.spec_start() is None,
    {
        Self::new()
    }
}

/// The size of a program never exceeds the number of its cells: every cell a
/// droplet can be on is one of them.
pub proof fn law_size_within_cells(grid: &ProgramGrid)
    requires
        grid.wf(),
    ensures
        grid.spec_size() <= grid@.dom().len(),
{
    grid.lemma_wf_facts();
    if let Some(s) = grid.spec_start() {
        assert(reached_cells(grid@, s).subset_of(grid@.dom()));
        vstd::set_lib::lemma_len_subset(reached_cells(grid@, s), grid@.dom());
    }
}

/// The symbols a program may use: the pipes `| - / \\ ^ v < >`, the operators
/// `+ ~ : ; d A S M D = < > % G P C R ! , n ?`, the digits and the start `@`;
/// letters other than `d`, `v`, `n` and the operator capitals are not symbols.
pub proof fn law_valid_symbols(c: char)
    ensures
        valid_symbol(c) <==> (c == '|' || c == '-' || c == '/' || c == '\\' || c == '^' || c == 'v' || c == '<' || c
            == '>' || c == '+' || c == '~' || c == ':' || c == ';' || c == 'd' || c == 'A' || c == 'S' || c == 'M' || c
            == 'D' || c == '=' || c == '%' || c == 'G' || c == 'P' || c == 'C' || c == 'R' || c == '!' || c == ',' || c
            == 'n' || c == '?' || ('0' <= c <= '9') || c == '@'),
        flow_control_symbol(c) <==> (c == '|' || c == '-' || c == '/' || c == '\\' || c == '^' || c == 'v' || c == '<'
            || c == '>'),
        !valid_symbol('#') && !valid_symbol('x') && !valid_symbol(' '),
{
}

} // verus!