//! Subroutine operators: calls and returns.
use vstd::prelude::*;
use crate::assoc::{assoc_index, keys_unique, lemma_assoc_at};
use crate::interpreter::droplet::Droplet;
use crate::interpreter::grid::ProgramGrid;
use crate::interpreter::stack::DataStack;
use crate::interpreter::subroutines::{CallStack, StackFrame};
use crate::operations::arithmetic::{after_pop, depth_after_push, top_or_zero};
use crate::operations::memory::coordinate_value;
use crate::types::bigint::TubularBigInt;
use crate::types::coordinate::Coordinate;
use crate::types::direction::Direction;
use crate::types::error::InterpreterError;

verus! {

/// The direction a value names: a value strictly between −999 and 999 counts
/// quarter turns clockwise from up (0 up, 1 right, 2 down, 3 left, wrapping
/// around, negative values too); a value from 999 outward names right; a value
/// beyond the range of `i64` names down.
pub open spec fn direction_of_value(v: int) -> Direction {
    if v < i64::MIN || v > i64::MAX {
        Direction::Down
    } else if -999 < v < 999 {
        let m = v % 4;
        if m == 0 {
            Direction::Up
        } else if m == 1 {
            Direction::Right
        } else if m == 2 {
            Direction::Down
        } else {
            Direction::Left
        }
    } else {
        Direction::Right
    }
}

/// The value that names a direction.
pub open spec fn value_of_direction(d: Direction) -> int {
    match d {
        Direction::Up => 0,
        Direction::Right => 1,
        Direction::Down => 2,
        Direction::Left => 3,
    }
}

/// The target of a call: x from the droplet's value, y from the top of the stack.
pub open spec fn call_target(x: int, s: Seq<int>) -> Coordinate {
    Coordinate { x: coordinate_value(x), y: coordinate_value(top_or_zero(s)) }
}

/// The direction after a call: named by the value below the top of the stack,
/// or down when the stack holds fewer than two values.
pub open spec fn call_direction(s: Seq<int>) -> Direction {
    if s.len() >= 2 { direction_of_value(top_or_zero(after_pop(s))) } else { Direction::Down }
}

/// Whether a call pushes a return frame: always when the stack could not supply
/// both arguments, and otherwise when the target is a cell of the program.
pub open spec fn call_pushes_frame(s: Seq<int>, target_exists: bool) -> bool {
    s.len() < 2 || target_exists
}

/// The position, direction and call stack after a return from `frames`.
pub open spec fn return_effect(position: Coordinate, direction: Direction, frames: Seq<StackFrame>) -> (Coordinate, Direction, Seq<StackFrame>) {
    if frames.len() == 0 {
        (position, direction, frames)
    } else {
        (frames.last().return_position, frames.last().return_direction, frames.drop_last())
    }
}

/// The kinds of subroutine operator.
#[derive(Debug, Clone, Copy, PartialEq, Eq, Structural)]
pub enum SubroutineOperationType {
    /// Jump to a subroutine.
    Call,
    /// Return from a subroutine.
    Return,
}

/// Subroutine operators.
pub struct SubroutineOperations;

impl SubroutineOperations {
    /// Call (`C`): pops y and then a direction value, takes x from the droplet, and
    /// jumps to `(x, y)` in that direction, leaving a frame to return to.
    ///
    /// With two values on the stack the call happens only when `(x, y)` is a cell
    /// of the program. With fewer, y defaults to 0 and the direction to down; the
    /// return frame is pushed anyway, and the droplet jumps if the target is a cell.
    pub fn process_call_operation(
        droplet: &mut Droplet,
        stack: &mut DataStack,
        call_stack: &mut CallStack,
        grid: &ProgramGrid,
    ) -> (r: Result<(), InterpreterError>)
        requires
            grid.wf(),
        ensures
            r is Ok,
            final(droplet).id == old(droplet).id,
            final(droplet).value@ == old(droplet).value@,
            final(droplet).active == old(droplet).active,
            final(stack)@ == after_pop(after_pop(old(stack)@)),
            final(stack).max_depth == old(stack).max_depth,
            ({
                let t = call_target(old(droplet).value@, old(stack)@);
                let exists = grid@.contains_key(t);
                &&& call_pushes_frame(old(stack)@, exists) ==> {
                    &&& final(call_stack)@ == old(call_stack)@.push(
                        StackFrame { return_position: old(droplet).position, return_direction: old(droplet).direction },
                    )
                    &&& final(call_stack).max_depth == depth_after_push(old(call_stack).max_depth as int, old(call_stack)@.len() as int)
                }
                &&& !call_pushes_frame(old(stack)@, exists) ==> *final(call_stack) == *old(call_stack)
                &&& exists ==> final(droplet).position == t && final(droplet).direction == call_direction(old(stack)@)
                &&& !exists ==> final(droplet).position == old(droplet).position && final(droplet).direction == old(droplet).direction
            }),
    {
        let return_position = droplet.position;
        let return_direction = droplet.direction;
        let full = stack.len() >= 2;
        let target_y_value = stack.pop();
        let direction_value = stack.pop();
        let target_x = coordinate_of_value(&droplet.value);
        let target_y = coordinate_of_value(&target_y_value);
        let target_position = Coordinate::new(target_x, target_y);
        let new_direction = if full { Self::value_to_direction(&direction_value) } else { Direction::Down };
        let exists = grid.get(target_position).is_some();
        if !exists && full {
            return Ok(());
        }
        call_stack.push(StackFrame::new(return_position, return_direction));
        if exists {
            droplet.move_to(target_position);
            droplet.set_direction(new_direction);
        }
        Ok(())
    }

    /// Return (`R`): pops the top frame and puts the droplet back at its position
    /// and direction; with no frame it changes nothing.
    pub fn process_return_operation(droplet: &mut Droplet, call_stack: &mut CallStack) -> (r: Result<(), InterpreterError>)
        ensures
            r is Ok,
            final(droplet).id == old(droplet).id,
            final(droplet).value@ == old(droplet).value@,
            final(droplet).active == old(droplet).active,
            (final(droplet).position, final(droplet).direction, final(call_stack)@) == return_effect(
                old(droplet).position,
                old(droplet).direction,
                old(call_stack)@,
            ),
            final(call_stack).max_depth == old(call_stack).max_depth,
    {
        if let Some(frame) = call_stack.pop() {
            droplet.move_to(frame.return_position);
            droplet.set_direction(frame.return_direction);
        }
        Ok(())
    }

    /// The direction a value names (see `direction_of_value`).
    pub fn value_to_direction(value: &TubularBigInt) -> (r: Direction)
        ensures
            r == direction_of_value(value@),
    {
        match value.to_i64() {
            Some(n) => {
                if -999 < n && n < 999 {
                    let m = (n + 1000) % 4;
                    assert(m == n % 4);
                    if m == 0 {
                        Direction::Up
                    } else if m == 1 {
                        Direction::Right
                    } else if m == 2 {
                        Direction::Down
                    } else {
                        Direction::Left
                    }
                } else {
                    Direction::Right
                }
            },
            None => Direction::Down,
        }
    }

    /// The value that names `direction`: up 0, right 1, down 2, left 3.
    pub fn direction_to_value(direction: Direction) -> (r: TubularBigInt)
        ensures
            r@ == value_of_direction(direction),
    {
        match direction {
            Direction::Up => TubularBigInt::new(0),
            Direction::Right => TubularBigInt::new(1),
            Direction::Down => TubularBigInt::new(2),
            Direction::Left => TubularBigInt::new(3),
        }
    }

    /// Whether `symbol` is a subroutine operator.
    pub fn is_subroutine_operation(symbol: char) -> (r: bool)
        ensures
            r == (symbol == 'C' || symbol == 'R'),
    {
        symbol == 'C' || symbol == 'R'
    }

    /// The kind of subroutine operator `symbol` is, if it is one.
    pub fn get_subroutine_operation_type(symbol: char) -> (r: Option<SubroutineOperationType>)
        ensures
            r == (if symbol == 'C' {
                Some(SubroutineOperationType::Call)
            } else if symbol == 'R' {
                Some(SubroutineOperationType::Return)
            } else {
                None::<SubroutineOperationType>
            }),
    {
        match symbol {
            'C' => Some(SubroutineOperationType::Call),
            'R' => Some(SubroutineOperationType::Return),
            _ => None,
        }
    }

    /// Whether a call could jump to `target`: whether it is a cell of the program.
    pub fn validate_call_target(target: Coordinate, grid: &ProgramGrid) -> (r: bool)
        requires
            grid.wf(),
        ensures
            r == grid@.contains_key(target),
    {
        grid.get(target).is_some()
    }

    /// Every coordinate of the program, each once.
    pub fn get_valid_call_targets(grid: &ProgramGrid) -> (r: Vec<Coordinate>)
        requires
            grid.wf(),
        ensures
            r@.no_duplicates(),
            r@.to_set() == grid@.dom(),
    {
        let cells = grid.iter();
        let mut out: Vec<Coordinate> = Vec::new();
        let mut i: usize = 0;
        while i < cells.len()
            invariant
                keys_unique(cells@),
                crate::assoc::assoc_map(cells@) == grid@,
                i <= cells@.len(),
                out@.len() == i,
                forall|j: int| 0 <= j < i ==> out@[j] == #[trigger] cells@[j].0,
            decreases cells@.len() - i,
        {
            out.push(cells[i].0);
            i = i + 1;
        }
        proof {
            assert forall|a: int, b: int| 0 <= a < out@.len() && 0 <= b < out@.len() && a != b implies out@[a] != out@[b] by {
                let _ = cells@[a];
                let _ = cells@[b];
            }
            assert forall|c: Coordinate| out@.to_set().contains(c) == grid@.dom().contains(c) by {
                if out@.to_set().contains(c) {
                    let j = choose|j: int| 0 <= j < out@.len() && out@[j] == c;
                    lemma_assoc_at(cells@, j);
                }
                if grid@.dom().contains(c) {
                    let j = assoc_index(cells@, c);
                    assert(out@[j] == cells@[j].0);
                }
            }
            assert(out@.to_set() =~= grid@.dom());
        }
        out
    }
}

/// The coordinate component for a value.
fn coordinate_of_value(v: &TubularBigInt) -> (r: isize)
    ensures
        r == coordinate_value(v@),
{
    match v.to_i64() {
        Some(n) => n as isize,
        None => 0,
    }
}

/// A direction survives being written as a value and read back.
pub proof fn law_direction_value_roundtrip(d: Direction)
    ensures
        direction_of_value(value_of_direction(d)) == d,
{
}

/// A return right after a call that pushed a frame puts the droplet back where
/// and how it was, and leaves the call stack as it was before the call.
pub proof fn law_return_undoes_call(
    position: Coordinate,
    direction: Direction,
    frames: Seq<StackFrame>,
    target: Coordinate,
    new_direction: Direction,
)
    ensures
        return_effect(
            target,
            new_direction,
            frames.push(StackFrame { return_position: position, return_direction: direction }),
        ) == (position, direction, frames),
{
    assert(frames.push(StackFrame { return_position: position, return_direction: direction }).drop_last() =~= frames);
}

/// A call reads its arguments in this order: the target's x is the droplet's
/// value, y is popped first from the top of the stack, and the heading value is
/// popped next (values 0, 1, 2, 3 name up, right, down, left, and turning a
/// value by four names the same heading).
pub proof fn law_call_arguments(x: int, s: Seq<int>, v: int)
    ensures
        s.len() >= 1 ==> call_target(x, s) == (Coordinate { x: coordinate_value(x), y: coordinate_value(s[s.len() - 1]) }),
        s.len() >= 2 ==> call_direction(s) == direction_of_value(s[s.len() - 2]),
        s.len() < 2 ==> call_direction(s) == Direction::Down,
        direction_of_value(0) == Direction::Up,
        direction_of_value(1) == Direction::Right,
        direction_of_value(2) == Direction::Down,
        direction_of_value(3) == Direction::Left,
        -999 < v < 995 && -999 < v + 4 < 999 ==> direction_of_value(v + 4) == direction_of_value(v),
{
}

} // verus!
