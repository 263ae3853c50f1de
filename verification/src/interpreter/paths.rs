//! The paths a droplet can take through a grid: the (position, heading) states
//! it can be in, with both outcomes of a branch allowed.
use vstd::prelude::*;
use crate::assoc::{assoc_index, lemma_assoc_at};
use crate::interpreter::droplet::step_from;
use crate::interpreter::grid::{ProgramCell, ProgramGrid};
use crate::operations::arithmetic::arithmetic_symbol;
use crate::operations::flow_control::{branch_turn, slash_turn};
use crate::types::coordinate::Coordinate;
use crate::types::direction::Direction;

verus! {

/// The headings a droplet heading `d` can leave a cell with symbol `s` in: pipes,
/// the start, inputs, outputs, digits and operators keep it, `/` turns it, `\`
/// turns it either way (the branch goes by the droplet's value), `^` sends it up;
/// on `!` or any other symbol the droplet is destroyed and leaves no way.
pub open spec fn step_exits(s: char, d: Direction) -> Seq<Direction> {
    if s == '/' {
        seq![slash_turn(d)]
    } else if s == '\\' {
        seq![branch_turn(0, d), branch_turn(1, d)]
    } else if s == '^' {
        seq![Direction::Up]
    } else if s == '?' || s == '|' || s == '-' || s == '@' || s == ',' || s == 'n' || ('0' <= s <= '9')
        || arithmetic_symbol(s) {
        seq![d]
    } else {
        Seq::empty()
    }
}

/// The states that follow state `st`: one step along each way out of its cell;
/// none when its position holds no cell.
pub open spec fn state_successors(g: Map<Coordinate, ProgramCell>, st: (Coordinate, Direction)) -> Seq<(Coordinate, Direction)> {
    if g.contains_key(st.0) {
        step_exits(g[st.0].symbol, st.1).map_values(|e: Direction| (step_from(st.0, e), e))
    } else {
        Seq::empty()
    }
}

/// Whether `path` starts at `start` and each state follows from the one before.
pub open spec fn is_state_path(g: Map<Coordinate, ProgramCell>, start: (Coordinate, Direction), path: Seq<(Coordinate, Direction)>) -> bool {
    &&& path.len() > 0
    &&& path[0] == start
    &&& forall|i: int| 0 <= i < path.len() - 1 ==> #[trigger] state_successors(g, path[i]).contains(path[i + 1])
}

/// Whether state `st` can be reached from `start`.
pub open spec fn state_reachable(g: Map<Coordinate, ProgramCell>, start: (Coordinate, Direction), st: (Coordinate, Direction)) -> bool {
    exists|path: Seq<(Coordinate, Direction)>| #[trigger] is_state_path(g, start, path) && path.last() == st
}

/// The states reachable from `start`.
pub open spec fn reachable_states(g: Map<Coordinate, ProgramCell>, start: (Coordinate, Direction)) -> Set<(Coordinate, Direction)> {
    Set::new(|st: (Coordinate, Direction)| state_reachable(g, start, st))
}

/// The cells a droplet starting at `start` and heading down can be on.
pub open spec fn reached_cells(g: Map<Coordinate, ProgramCell>, start: Coordinate) -> Set<Coordinate> {
    Set::new(|p: Coordinate| g.contains_key(p) && exists|d: Direction| #[trigger] state_reachable(g, (start, Direction::Down), (p, d)))
}

/// Every state that can follow a state on one of `cells`, in order.
pub open spec fn state_candidates(g: Map<Coordinate, ProgramCell>, cells: Seq<(Coordinate, ProgramCell)>) -> Seq<(Coordinate, Direction)>
    decreases cells.len(),
{
    if cells.len() == 0 {
        Seq::empty()
    } else {
        let c = cells.last().0;
        state_candidates(g, cells.drop_last()) + state_successors(g, (c, Direction::Up)) + state_successors(g, (c, Direction::Down))
            + state_successors(g, (c, Direction::Left)) + state_successors(g, (c, Direction::Right))
    }
}

/// The successors of a state on one of `cells` are among the candidates.
proof fn lemma_state_candidates(g: Map<Coordinate, ProgramCell>, cells: Seq<(Coordinate, ProgramCell)>, i: int, d: Direction, q: (Coordinate, Direction))
    requires
        0 <= i < cells.len(),
        state_successors(g, (cells[i].0, d)).contains(q),
    ensures
        state_candidates(g, cells).contains(q),
    decreases cells.len(),
{
    let c = cells.last().0;
    let prev = state_candidates(g, cells.drop_last());
    let a = state_successors(g, (c, Direction::Up));
    let b = state_successors(g, (c, Direction::Down));
    let l = state_successors(g, (c, Direction::Left));
    let r = state_successors(g, (c, Direction::Right));
    let all = prev + a + b + l + r;
    assert(state_candidates(g, cells) == all);
    if i == cells.len() - 1 {
        let s = state_successors(g, (cells[i].0, d));
        let k = choose|k: int| 0 <= k < s.len() && s[k] == q;
        match d {
            Direction::Up => assert(all[prev.len() + k] == q),
            Direction::Down => assert(all[prev.len() + a.len() + k] == q),
            Direction::Left => assert(all[prev.len() + a.len() + b.len() + k] == q),
            Direction::Right => assert(all[prev.len() + a.len() + b.len() + l.len() + k] == q),
        }
    } else {
        assert(cells.drop_last()[i] == cells[i]);
        lemma_state_candidates(g, cells.drop_last(), i, d, q);
        let k = choose|k: int| 0 <= k < prev.len() && prev[k] == q;
        assert(all[k] == q);
    }
}

/// Every reachable state is the start or a candidate.
proof fn lemma_reachable_state_candidate(grid: &ProgramGrid, start: (Coordinate, Direction), st: (Coordinate, Direction))
    requires
        grid.wf(),
        state_reachable(grid@, start, st),
    ensures
        st == start || state_candidates(grid@, grid.spec_cells()).contains(st),
{
    let path = choose|path: Seq<(Coordinate, Direction)>| #[trigger] is_state_path(grid@, start, path) && path.last() == st;
    if path.len() > 1 {
        let n = path.len() - 2;
        let q = path[n];
        assert(state_successors(grid@, path[n]).contains(path[n + 1]));
        assert(grid@.contains_key(q.0));
        grid.lemma_cells();
        let i = assoc_index(grid.spec_cells(), q.0);
        lemma_assoc_at(grid.spec_cells(), i);
        lemma_state_candidates(grid@, grid.spec_cells(), i, q.1, st);
    }
}

/// A set of states that holds the start and the successors of its members
/// holds every state of a path from the start.
proof fn lemma_closed_holds_state_path(g: Map<Coordinate, ProgramCell>, start: (Coordinate, Direction), s: Set<(Coordinate, Direction)>, path: Seq<(Coordinate, Direction)>, i: int)
    requires
        s.contains(start),
        forall|v: (Coordinate, Direction), q: (Coordinate, Direction)| #[trigger] s.contains(v) && state_successors(g, v).contains(q) ==> #[trigger] s.contains(q),
        is_state_path(g, start, path),
        0 <= i < path.len(),
    ensures
        s.contains(path[i]),
    decreases i,
{
    if i > 0 {
        lemma_closed_holds_state_path(g, start, s, path, i - 1);
        assert(state_successors(g, path[i - 1]).contains(path[i - 1 + 1]));
    }
}

/// The start state is reachable.
proof fn lemma_start_state_reachable(g: Map<Coordinate, ProgramCell>, start: (Coordinate, Direction))
    ensures
        state_reachable(g, start, start),
{
    assert(is_state_path(g, start, seq![start]));
}

/// A successor of a reachable state is reachable.
proof fn lemma_state_step(g: Map<Coordinate, ProgramCell>, start: (Coordinate, Direction), v: (Coordinate, Direction), q: (Coordinate, Direction))
    requires
        state_reachable(g, start, v),
        state_successors(g, v).contains(q),
    ensures
        state_reachable(g, start, q),
{
    let path = choose|path: Seq<(Coordinate, Direction)>| #[trigger] is_state_path(g, start, path) && path.last() == v;
    let longer = path.push(q);
    assert forall|i: int| 0 <= i < longer.len() - 1 implies #[trigger] state_successors(g, longer[i]).contains(longer[i + 1]) by {
        if i < path.len() - 1 {
            assert(state_successors(g, path[i]).contains(path[i + 1]));
        }
    }
    assert(is_state_path(g, start, longer));
}

/// Whether `st` is in `v`.
fn contains_state(v: &Vec<(Coordinate, Direction)>, st: (Coordinate, Direction)) -> (r: bool)
    ensures
        r == v@.contains(st),
{
    let mut i: usize = 0;
    while i < v.len()
        invariant
            i <= v@.len(),
            forall|k: int| 0 <= k < i ==> v@[k] != st,
        decreases v@.len() - i,
    {
        if v[i].0 == st.0 && v[i].1 == st.1 {
            return true;
        }
        i = i + 1;
    }
    false
}

/// The headings out of a cell with symbol `s` for a droplet heading `d`.
fn exits(s: char, d: Direction) -> (r: Vec<Direction>)
    ensures
        r@ == step_exits(s, d),
{
    let r = if s == '/' {
        let t = match d {
            Direction::Right => Direction::Up,
            Direction::Down => Direction::Left,
            Direction::Left => Direction::Down,
            Direction::Up => Direction::Right,
        };
        vec![t]
    } else if s == '\\' {
        match d {
            Direction::Down => vec![Direction::Right, Direction::Left],
            Direction::Up => vec![Direction::Left, Direction::Right],
            Direction::Right => vec![Direction::Down, Direction::Down],
            Direction::Left => vec![Direction::Up, Direction::Up],
        }
    } else if s == '^' {
        vec![Direction::Up]
    } else if s == '?' || s == '|' || s == '-' || s == '@' || s == ',' || s == 'n' || ('0' <= s && s <= '9')
        || crate::operations::arithmetic::ArithmeticOperations::is_arithmetic_operation(s) {
        vec![d]
    } else {
        Vec::new()
    };
    assert(r@ =~= step_exits(s, d));
    r
}

/// The states that follow `st` in `grid`.
fn successors_of(grid: &ProgramGrid, st: (Coordinate, Direction)) -> (r: Vec<(Coordinate, Direction)>)
    requires
        grid.wf(),
    ensures
        r@ == state_successors(grid@, st),
{
    let mut out: Vec<(Coordinate, Direction)> = Vec::new();
    match grid.get(st.0) {
        None => {
            assert(out@ =~= state_successors(grid@, st));
        },
        Some(cell) => {
            proof {
                grid.lemma_wf_facts();
            }
            let ds = exits(cell.symbol, st.1);
            let mut i: usize = 0;
            while i < ds.len()
                invariant
                    grid.wf(),
                    grid@.contains_key(st.0),
                    crate::types::coordinate::in_grid_range(st.0),
                    ds@ == step_exits(grid@[st.0].symbol, st.1),
                    i <= ds@.len(),
                    out@ == ds@.take(i as int).map_values(|e: Direction| (step_from(st.0, e), e)),
                decreases ds@.len() - i,
            {
                let e = ds[i];
                let p = st.0.step(e);
                out.push((p, e));
                assert(ds@.take(i + 1) =~= ds@.take(i as int).push(e));
                assert(out@ =~= ds@.take(i + 1).map_values(|e: Direction| (step_from(st.0, e), e)));
                i = i + 1;
            }
            assert(ds@.take(ds@.len() as int) =~= ds@);
        },
    }
    out
}

/// The states reachable from `start`, each once (a depth-first search).
fn reachable_state_list(grid: &ProgramGrid, start: (Coordinate, Direction)) -> (r: Vec<(Coordinate, Direction)>)
    requires
        grid.wf(),
    ensures
        r@.no_duplicates(),
        r@.to_set() == reachable_states(grid@, start),
{
    let ghost cands = seq![start] + state_candidates(grid@, grid.spec_cells());
    let ghost cset = cands.to_set();
    proof {
        cands.lemma_cardinality_of_set();
        assert(cands[0] == start);
        lemma_start_state_reachable(grid@, start);
    }
    let mut visited: Vec<(Coordinate, Direction)> = Vec::new();
    let mut to_visit: Vec<(Coordinate, Direction)> = Vec::new();
    to_visit.push(start);
    while to_visit.len() > 0
        invariant
            grid.wf(),
            cands == seq![start] + state_candidates(grid@, grid.spec_cells()),
            cset == cands.to_set(),
            cset.finite(),
            visited@.no_duplicates(),
            forall|v: (Coordinate, Direction)| #[trigger] visited@.contains(v) ==> state_reachable(grid@, start, v) && cset.contains(v),
            forall|t: (Coordinate, Direction)| #[trigger] to_visit@.contains(t) ==> state_reachable(grid@, start, t) && cset.contains(t),
            forall|v: (Coordinate, Direction), q: (Coordinate, Direction)|
                #[trigger] visited@.contains(v) && #[trigger] state_successors(grid@, v).contains(q) ==> visited@.contains(q)
                    || to_visit@.contains(q),
            visited@.contains(start) || to_visit@.contains(start),
            visited@.len() <= cset.len(),
        decreases cset.len() - visited@.len(), to_visit@.len(),
    {
        let ghost before_visit = to_visit@;
        let current = to_visit.pop().unwrap();
        proof {
            assert(before_visit =~= to_visit@.push(current));
            assert forall|t: (Coordinate, Direction)| #[trigger] before_visit.contains(t) implies to_visit@.contains(t) || t == current by {
                let k = choose|k: int| 0 <= k < before_visit.len() && before_visit[k] == t;
                if k < to_visit@.len() {
                    assert(to_visit@[k] == t);
                }
            }
            assert(before_visit.contains(current)) by {
                assert(before_visit[before_visit.len() - 1] == current);
            }
            assert forall|t: (Coordinate, Direction)| #[trigger] to_visit@.contains(t) implies state_reachable(grid@, start, t) && cset.contains(t) by {
                let k = choose|k: int| 0 <= k < to_visit@.len() && to_visit@[k] == t;
                assert(before_visit[k] == t);
                assert(before_visit.contains(t));
            }
        }
        if !contains_state(&visited, current) {
            let ghost old_visited = visited@;
            visited.push(current);
            proof {
                assert forall|v: (Coordinate, Direction)| #[trigger] visited@.contains(v) <==> (old_visited.contains(v) || v == current) by {
                    if old_visited.contains(v) {
                        let k = choose|k: int| 0 <= k < old_visited.len() && old_visited[k] == v;
                        assert(visited@[k] == v);
                    }
                    if visited@.contains(v) {
                        let k = choose|k: int| 0 <= k < visited@.len() && visited@[k] == v;
                        if k < old_visited.len() {
                            assert(old_visited[k] == v);
                        }
                    }
                    assert(visited@[visited@.len() - 1] == current);
                }
                old_visited.unique_seq_to_set();
                visited@.unique_seq_to_set();
                assert(visited@.to_set() =~= old_visited.to_set().insert(current));
                assert(visited@.to_set().subset_of(cset));
                vstd::set_lib::lemma_len_subset(visited@.to_set(), cset);
            }
            let nexts = successors_of(grid, current);
            let mut j: usize = 0;
            while j < nexts.len()
                invariant
                    grid.wf(),
                    nexts@ == state_successors(grid@, current),
                    state_reachable(grid@, start, current),
                    cset == cands.to_set(),
                    cands == seq![start] + state_candidates(grid@, grid.spec_cells()),
                    j <= nexts@.len(),
                    forall|t: (Coordinate, Direction)| #[trigger] to_visit@.contains(t) ==> state_reachable(grid@, start, t) && cset.contains(t),
                    forall|k: int| 0 <= k < j ==> visited@.contains(#[trigger] nexts@[k]) || to_visit@.contains(nexts@[k]),
                    forall|t: (Coordinate, Direction)| #[trigger] before_visit.contains(t) ==> to_visit@.contains(t) || t == current,
                decreases nexts@.len() - j,
            {
                let next = nexts[j];
                proof {
                    assert(state_successors(grid@, current).contains(next)) by {
                        assert(state_successors(grid@, current)[j as int] == next);
                    }
                    lemma_state_step(grid@, start, current, next);
                    lemma_reachable_state_candidate(grid, start, next);
                    if next == start {
                        assert(cands[0] == next);
                    } else {
                        let m = choose|m: int| 0 <= m < state_candidates(grid@, grid.spec_cells()).len()
                            && state_candidates(grid@, grid.spec_cells())[m] == next;
                        assert(cands[m + 1] == next);
                    }
                    assert(cset.contains(next));
                }
                if !contains_state(&visited, next) {
                    let ghost old_to_visit = to_visit@;
                    to_visit.push(next);
                    proof {
                        assert forall|t: (Coordinate, Direction)| #[trigger] old_to_visit.contains(t) implies to_visit@.contains(t) by {
                            let k = choose|k: int| 0 <= k < old_to_visit.len() && old_to_visit[k] == t;
                            assert(to_visit@[k] == t);
                        }
                        assert forall|t: (Coordinate, Direction)| #[trigger] to_visit@.contains(t) implies state_reachable(grid@, start, t) && cset.contains(t) by {
                            let k = choose|k: int| 0 <= k < to_visit@.len() && to_visit@[k] == t;
                            if k < old_to_visit.len() {
                                assert(old_to_visit[k] == t);
                                assert(old_to_visit.contains(t));
                            } else {
                                assert(t == next);
                            }
                        }
                        assert(to_visit@[to_visit@.len() - 1] == next);
                    }
                }
                j = j + 1;
            }
            proof {
                assert forall|q: (Coordinate, Direction)| #[trigger] state_successors(grid@, current).contains(q) implies visited@.contains(q) || to_visit@.contains(q) by {
                    let k = choose|k: int| 0 <= k < state_successors(grid@, current).len() && state_successors(grid@, current)[k] == q;
                    assert(nexts@[k] == q);
                }
            }
        }
    }
    proof {
        let s = visited@.to_set();
        assert forall|v: (Coordinate, Direction), q: (Coordinate, Direction)| #[trigger] s.contains(v) && state_successors(grid@, v).contains(q) implies #[trigger] s.contains(q) by {
            assert(visited@.contains(v));
        }
        assert forall|st: (Coordinate, Direction)| reachable_states(grid@, start).contains(st) <==> s.contains(st) by {
            if state_reachable(grid@, start, st) {
                let path = choose|path: Seq<(Coordinate, Direction)>| #[trigger] is_state_path(grid@, start, path) && path.last() == st;
                lemma_closed_holds_state_path(grid@, start, s, path, path.len() - 1);
            }
        }
        assert(visited@.to_set() =~= reachable_states(grid@, start));
    }
    visited
}

/// Whether `p` is in `v`.
fn contains_position(v: &Vec<Coordinate>, p: Coordinate) -> (r: bool)
    ensures
        r == v@.contains(p),
{
    let mut i: usize = 0;
    while i < v.len()
        invariant
            i <= v@.len(),
            forall|k: int| 0 <= k < i ==> v@[k] != p,
        decreases v@.len() - i,
    {
        if v[i] == p {
            return true;
        }
        i = i + 1;
    }
    false
}

/// The number of cells a droplet starting at `start` and heading down can be on.
pub fn reached_cell_count(grid: &ProgramGrid, start: Coordinate) -> (r: usize)
    requires
        grid.wf(),
    ensures
        r == reached_cells(grid@, start).len(),
{
    let states = reachable_state_list(grid, (start, Direction::Down));
    let ghost rs = reachable_states(grid@, (start, Direction::Down));
    let mut cells: Vec<Coordinate> = Vec::new();
    let mut i: usize = 0;
    while i < states.len()
        invariant
            grid.wf(),
            i <= states@.len(),
            states@.to_set() == rs,
            rs == reachable_states(grid@, (start, Direction::Down)),
            cells@.no_duplicates(),
            forall|p: Coordinate| #[trigger] cells@.contains(p) <==> (grid@.contains_key(p) && exists|k: int| 0 <= k < i && (#[trigger] states@[k]).0 == p),
        decreases states@.len() - i,
    {
        let p = states[i].0;
        let ghost old_cells = cells@;
        if grid.get(p).is_some() && !contains_position(&cells, p) {
            cells.push(p);
            proof {
                assert forall|q: Coordinate| #[trigger] cells@.contains(q) <==> (old_cells.contains(q) || q == p) by {
                    if old_cells.contains(q) {
                        let k = choose|k: int| 0 <= k < old_cells.len() && old_cells[k] == q;
                        assert(cells@[k] == q);
                    }
                    if cells@.contains(q) {
                        let k = choose|k: int| 0 <= k < cells@.len() && cells@[k] == q;
                        if k < old_cells.len() {
                            assert(old_cells[k] == q);
                        }
                    }
                    assert(cells@[cells@.len() - 1] == p);
                }
            }
        }
        proof {
            assert forall|q: Coordinate| #[trigger] cells@.contains(q) <==> (grid@.contains_key(q) && exists|k: int| 0 <= k < i + 1 && (#[trigger] states@[k]).0 == q) by {
                if grid@.contains_key(q) && exists|k: int| 0 <= k < i + 1 && (#[trigger] states@[k]).0 == q {
                    let k = choose|k: int| 0 <= k < i + 1 && (#[trigger] states@[k]).0 == q;
                    if k < i {
                        assert(old_cells.contains(q));
                    }
                }
                if cells@.contains(q) && !old_cells.contains(q) {
                    assert(states@[i as int].0 == q);
                }
            }
        }
        i = i + 1;
    }
    proof {
        assert forall|p: Coordinate| cells@.to_set().contains(p) <==> reached_cells(grid@, start).contains(p) by {
            if cells@.contains(p) {
                let k = choose|k: int| 0 <= k < states@.len() && (#[trigger] states@[k]).0 == p;
                assert(states@.to_set().contains(states@[k]));
                assert(state_reachable(grid@, (start, Direction::Down), (p, states@[k].1)));
            }
            if reached_cells(grid@, start).contains(p) {
                let d = choose|d: Direction| #[trigger] state_reachable(grid@, (start, Direction::Down), (p, d));
                assert(rs.contains((p, d)));
                assert(states@.to_set().contains((p, d)));
                let k = choose|k: int| 0 <= k < states@.len() && states@[k] == (p, d);
                assert(states@[k].0 == p);
            }
        }
        assert(cells@.to_set() =~= reached_cells(grid@, start));
        cells@.unique_seq_to_set();
    }
    cells.len()
}

} // verus!
