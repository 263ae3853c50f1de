//! Reservoir operators: reading and writing memory.
use vstd::prelude::*;
use crate::interpreter::droplet::Droplet;
use crate::interpreter::memory::{Reservoir, ReservoirCoordinate, read_cell};
use crate::interpreter::stack::DataStack;
use crate::operations::arithmetic::{after_pop, same_but_value, top_or_zero};
use crate::types::bigint::TubularBigInt;
use crate::types::error::InterpreterError;

verus! {

/// The coordinate component a value stands for: the value when it fits in an
/// `i64` (as an `isize`), zero otherwise.
pub open spec fn coordinate_value(v: int) -> isize {
    if i64::MIN <= v <= i64::MAX { (v as i64) as isize } else { 0 }
}

/// The reservoir address given by a droplet value (x) and a stack (whose top is y).
pub open spec fn address_of(x: int, s: Seq<int>) -> ReservoirCoordinate {
    ReservoirCoordinate { x: coordinate_value(x), y: coordinate_value(top_or_zero(s)) }
}

/// The kinds of reservoir operator.
#[derive(Debug, Clone, Copy, PartialEq, Eq, Structural)]
pub enum MemoryOperationType {
    /// Read from the reservoir.
    Get,
    /// Write to the reservoir.
    Put,
}

/// Reservoir operators.
pub struct MemoryOperations;

/// The coordinate component for a value.
pub(crate) fn coordinate_of(v: &TubularBigInt) -> (r: isize)
    ensures
        r == coordinate_value(v@),
{
    match v.to_i64() {
        Some(n) => n as isize,
        None => 0,
    }
}

impl MemoryOperations {
    /// Get (`G`): pops y, takes x from the droplet, and gives the droplet the value
    /// stored at `(x, y)` (zero where nothing was stored).
    pub fn process_get_operation(droplet: &mut Droplet, stack: &mut DataStack, reservoir: &Reservoir) -> (r: Result<(), InterpreterError>)
        requires
            reservoir.wf(),
        ensures
            r is Ok,
            same_but_value(*final(droplet), *old(droplet)),
            final(droplet).value@ == read_cell(reservoir@, address_of(old(droplet).value@, old(stack)@)),
            final(stack)@ == after_pop(old(stack)@),
            final(stack).max_depth == old(stack).max_depth,
    {
        let y_value = stack.pop();
        let x = coordinate_of(&droplet.value);
        let y = coordinate_of(&y_value);
        let coord = ReservoirCoordinate::new(x, y);
        let value = reservoir.get(coord);
        droplet.set_value(value);
        Ok(())
    }

    /// Put (`P`): pops y, takes x from the droplet, and stores the droplet's value at `(x, y)`.
    pub fn process_put_operation(droplet: &Droplet, stack: &mut DataStack, reservoir: &mut Reservoir) -> (r: Result<(), InterpreterError>)
        requires
            old(reservoir).wf(),
        ensures
            r is Ok,
            final(reservoir).wf(),
            final(reservoir)@ == old(reservoir)@.insert(address_of(droplet.value@, old(stack)@), droplet.value@),
            final(stack)@ == after_pop(old(stack)@),
            final(stack).max_depth == old(stack).max_depth,
    {
        let y_value = stack.pop();
        let x = coordinate_of(&droplet.value);
        let y = coordinate_of(&y_value);
        let coord = ReservoirCoordinate::new(x, y);
        reservoir.put(coord, droplet.value.clone());
        Ok(())
    }

    /// The address `(droplet_value, popped y)`; the stack loses its top.
    pub fn calculate_coordinate(droplet_value: &TubularBigInt, stack: &mut DataStack) -> (r: Result<ReservoirCoordinate, InterpreterError>)
        ensures
            r == Ok::<ReservoirCoordinate, InterpreterError>(address_of(droplet_value@, old(stack)@)),
            final(stack)@ == after_pop(old(stack)@),
            final(stack).max_depth == old(stack).max_depth,
    {
        let y_value = stack.pop();
        let x = coordinate_of(droplet_value);
        let y = coordinate_of(&y_value);
        Ok(ReservoirCoordinate::new(x, y))
    }

    /// Whether `symbol` is a reservoir operator.
    pub fn is_memory_operation(symbol: char) -> (r: bool)
        ensures
            r == (symbol == 'G' || symbol == 'P'),
    {
        symbol == 'G' || symbol == 'P'
    }

    /// The kind of reservoir operator `symbol` is, if it is one.
    pub fn get_memory_operation_type(symbol: char) -> (r: Option<MemoryOperationType>)
        ensures
            r == (if symbol == 'G' {
                Some(MemoryOperationType::Get)
            } else if symbol == 'P' {
                Some(MemoryOperationType::Put)
            } else {
                None::<MemoryOperationType>
            }),
    {
        match symbol {
            'G' => Some(MemoryOperationType::Get),
            'P' => Some(MemoryOperationType::Put),
            _ => None,
        }
    }
}

} // verus!
