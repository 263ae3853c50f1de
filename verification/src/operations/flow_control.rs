//! Pipes: how droplets are steered.
use vstd::prelude::*;
use crate::interpreter::droplet::Droplet;
use crate::interpreter::grid::flow_control_symbol;
use crate::types::direction::Direction;

verus! {

/// The direction a forward slash `/` turns a droplet to.
pub open spec fn slash_turn(d: Direction) -> Direction {
    match d {
        Direction::Right => Direction::Up,
        Direction::Down => Direction::Left,
        Direction::Left => Direction::Down,
        Direction::Up => Direction::Right,
    }
}

/// The direction an unconditional backslash `\` turns a droplet to.
pub open spec fn backslash_turn(d: Direction) -> Direction {
    match d {
        Direction::Right => Direction::Down,
        Direction::Up => Direction::Left,
        Direction::Left => Direction::Up,
        Direction::Down => Direction::Right,
    }
}

/// The direction a running backslash `\` sends a droplet of value `v` travelling in `d`:
/// entering from the top, zero goes right and anything else left; entering from the
/// bottom, zero goes left and anything else right; from the left it goes down and
/// from the right it goes up.
pub open spec fn branch_turn(v: int, d: Direction) -> Direction {
    match d {
        Direction::Down => if v == 0 { Direction::Right } else { Direction::Left },
        Direction::Up => if v == 0 { Direction::Left } else { Direction::Right },
        Direction::Right => Direction::Down,
        Direction::Left => Direction::Up,
    }
}

/// The direction a pipe symbol gives a droplet travelling in `d`: the straight
/// pipes `|` and `-` keep it, corners turn it, and arrows set it.
pub open spec fn pipe_direction(symbol: char, d: Direction) -> Direction {
    if symbol == '/' {
        slash_turn(d)
    } else if symbol == '\\' {
        backslash_turn(d)
    } else if symbol == '^' {
        Direction::Up
    } else if symbol == 'v' {
        Direction::Down
    } else if symbol == '<' {
        Direction::Left
    } else if symbol == '>' {
        Direction::Right
    } else {
        d
    }
}

/// The directions a droplet can leave a pipe symbol in, in the order listed.
pub open spec fn exit_directions(symbol: char) -> Seq<Direction> {
    if symbol == '|' {
        seq![Direction::Up, Direction::Down]
    } else if symbol == '-' {
        seq![Direction::Left, Direction::Right]
    } else if symbol == '/' || symbol == '\\' {
        seq![Direction::Up, Direction::Down, Direction::Left, Direction::Right]
    } else if symbol == '^' {
        seq![Direction::Up]
    } else if symbol == 'v' {
        seq![Direction::Down]
    } else if symbol == '<' {
        seq![Direction::Left]
    } else if symbol == '>' {
        seq![Direction::Right]
    } else {
        Seq::empty()
    }
}

/// Whether a droplet travelling in `d` may enter a pipe symbol.
pub open spec fn may_enter(symbol: char, d: Direction) -> bool {
    if symbol == '|' {
        d == Direction::Up || d == Direction::Down
    } else if symbol == '-' {
        d == Direction::Left || d == Direction::Right
    } else {
        symbol == '/' || symbol == '\\' || symbol == '^' || symbol == 'v' || symbol == '<' || symbol == '>'
    }
}

/// Pipe handling.
pub struct FlowControlOperations;

impl FlowControlOperations {
    /// The direction `symbol` gives a droplet travelling in `current_direction`;
    /// symbols that are not pipes keep it.
    pub fn process_pipe(symbol: char, current_direction: Direction) -> (r: Direction)
        ensures
            r == pipe_direction(symbol, current_direction),
    {
        match symbol {
            '|' => current_direction,
            '-' => current_direction,
            '/' => Self::process_forward_slash(current_direction),
            '\\' => Self::process_backslash(current_direction),
            '^' => Direction::Up,
            'v' => Direction::Down,
            '<' => Direction::Left,
            '>' => Direction::Right,
            _ => current_direction,
        }
    }

    fn process_forward_slash(current_direction: Direction) -> (r: Direction)
        ensures
            r == slash_turn(current_direction),
    {
        match current_direction {
            Direction::Right => Direction::Up,
            Direction::Down => Direction::Left,
            Direction::Left => Direction::Down,
            Direction::Up => Direction::Right,
        }
    }

    fn process_backslash(current_direction: Direction) -> (r: Direction)
        ensures
            r == backslash_turn(current_direction),
    {
        match current_direction {
            Direction::Right => Direction::Down,
            Direction::Up => Direction::Left,
            Direction::Left => Direction::Up,
            Direction::Down => Direction::Right,
        }
    }

    /// The direction a backslash sends `droplet` when it arrives travelling in `direction`;
    /// vertical arrivals branch on whether the droplet's value is zero.
    pub fn process_conditional_branch(droplet: &Droplet, direction: Direction) -> (r: Direction)
        ensures
            r == branch_turn(droplet.value@, direction),
            direction == Direction::Down ==> r == (if droplet.value@ == 0 { Direction::Right } else { Direction::Left }),
            direction == Direction::Up ==> r == (if droplet.value@ == 0 { Direction::Left } else { Direction::Right }),
            direction == Direction::Right ==> r == Direction::Down,
            direction == Direction::Left ==> r == Direction::Up,
    {
        let zero = droplet.value.is_zero();
        match direction {
            Direction::Down => if zero { Direction::Right } else { Direction::Left },
            Direction::Up => if zero { Direction::Left } else { Direction::Right },
            Direction::Right => Direction::Down,
            Direction::Left => Direction::Up,
        }
    }

    /// Whether `symbol` is a pipe.
    pub fn is_flow_control(symbol: char) -> (r: bool)
        ensures
            r == flow_control_symbol(symbol),
    {
        symbol == '|' || symbol == '-' || symbol == '/' || symbol == '\\' || symbol == '^' || symbol == 'v'
            || symbol == '<' || symbol == '>'
    }

    /// The directions a droplet can leave `symbol` in (none for a non-pipe).
    pub fn get_exit_directions(symbol: char) -> (r: Vec<Direction>)
        ensures
            r@ == exit_directions(symbol),
    {
        let r = match symbol {
            '|' => vec![Direction::Up, Direction::Down],
            '-' => vec![Direction::Left, Direction::Right],
            '/' => vec![Direction::Up, Direction::Down, Direction::Left, Direction::Right],
            '\\' => vec![Direction::Up, Direction::Down, Direction::Left, Direction::Right],
            '^' => vec![Direction::Up],
            'v' => vec![Direction::Down],
            '<' => vec![Direction::Left],
            '>' => vec![Direction::Right],
            _ => Vec::new(),
        };
        assert(r@ =~= exit_directions(symbol));
        r
    }

    /// Whether a droplet travelling in `from_direction` may enter `symbol`.
    pub fn can_enter_from(symbol: char, from_direction: Direction) -> (r: bool)
        ensures
            r == may_enter(symbol, from_direction),
    {
        match symbol {
            '|' => from_direction == Direction::Up || from_direction == Direction::Down,
            '-' => from_direction == Direction::Left || from_direction == Direction::Right,
            '/' | '\\' => true,
            '^' | 'v' | '<' | '>' => true,
            _ => false,
        }
    }
}

/// The opposite horizontal direction (vertical ones are kept).
pub open spec fn mirrored(d: Direction) -> Direction {
    match d {
        Direction::Left => Direction::Right,
        Direction::Right => Direction::Left,
        other => other,
    }
}

/// A backslash branches on zero: a droplet entering from the top (travelling
/// down) goes right exactly when its value is zero, and left otherwise; one
/// entering from the bottom goes the mirrored way (left for zero, right
/// otherwise); horizontal arrivals turn without looking at the value (from the
/// left down, from the right up).
pub proof fn law_backslash_branches_on_zero(v: int, w: int)
    ensures
        (branch_turn(v, Direction::Down) == Direction::Right) <==> v == 0,
        (branch_turn(v, Direction::Down) == Direction::Left) <==> v != 0,
        branch_turn(v, Direction::Up) == mirrored(branch_turn(v, Direction::Down)),
        branch_turn(v, Direction::Right) == Direction::Down,
        branch_turn(v, Direction::Left) == Direction::Up,
        (v == 0) == (w == 0) ==> branch_turn(v, Direction::Down) == branch_turn(w, Direction::Down),
{
}

/// How pipes steer: `|` and `-` keep the heading; `^`, `v`, `<`, `>` set it to
/// up, down, left, right; `/` turns right into up, down into left, left into
/// down and up into right; `\` turns right into down, up into left, left into
/// up and down into right; any other symbol keeps the heading.
pub proof fn law_pipe_directions(d: Direction, s: char)
    ensures
        pipe_direction('|', d) == d,
        pipe_direction('-', d) == d,
        pipe_direction('^', d) == Direction::Up,
        pipe_direction('v', d) == Direction::Down,
        pipe_direction('<', d) == Direction::Left,
        pipe_direction('>', d) == Direction::Right,
        pipe_direction('/', Direction::Right) == Direction::Up,
        pipe_direction('/', Direction::Down) == Direction::Left,
        pipe_direction('/', Direction::Left) == Direction::Down,
        pipe_direction('/', Direction::Up) == Direction::Right,
        pipe_direction('\\', Direction::Right) == Direction::Down,
        pipe_direction('\\', Direction::Up) == Direction::Left,
        pipe_direction('\\', Direction::Left) == Direction::Up,
        pipe_direction('\\', Direction::Down) == Direction::Right,
        !(s == '/' || s == '\\' || s == '^' || s == 'v' || s == '<' || s == '>') ==> pipe_direction(s, d) == d,
{
}

} // verus!
