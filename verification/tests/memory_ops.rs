use tubular::interpreter::droplet::Droplet;
use tubular::interpreter::memory::{Reservoir, ReservoirCoordinate};
use tubular::interpreter::stack::DataStack;
use tubular::operations::memory::{MemoryOperationType, MemoryOperations};
use tubular::types::bigint::TubularBigInt;
use tubular::types::coordinate::Coordinate;
use tubular::types::direction::Direction;

fn create_test_droplet(value: i64, x: isize, y: isize) -> Droplet {
    let mut droplet = Droplet::new(0, Coordinate::new(x, y), Direction::Down);
    droplet.set_value(TubularBigInt::new(value));
    droplet
}

#[test]
fn test_get_operation_reads_from_reservoir() {
    let mut droplet = create_test_droplet(5, 0, 0);
    let mut stack = DataStack::new();
    let mut reservoir = Reservoir::new();

    reservoir.put(ReservoirCoordinate::new(5, 10), TubularBigInt::new(42));
    stack.push(TubularBigInt::new(10));

    MemoryOperations::process_get_operation(&mut droplet, &mut stack, &reservoir).unwrap();

    assert_eq!(droplet.value, TubularBigInt::new(42));
    assert_eq!(stack.depth(), 0);
}

#[test]
fn test_get_operation_uninitialized_returns_zero() {
    let mut droplet = create_test_droplet(5, 0, 0);
    let mut stack = DataStack::new();
    let reservoir = Reservoir::new();

    stack.push(TubularBigInt::new(10));

    MemoryOperations::process_get_operation(&mut droplet, &mut stack, &reservoir).unwrap();

    assert_eq!(droplet.value, TubularBigInt::zero());
    assert_eq!(stack.depth(), 0);
}

#[test]
fn test_put_operation_writes_to_reservoir() {
    let droplet = create_test_droplet(5, 0, 0);
    let mut stack = DataStack::new();
    let mut reservoir = Reservoir::new();

    stack.push(TubularBigInt::new(10));

    MemoryOperations::process_put_operation(&droplet, &mut stack, &mut reservoir).unwrap();

    let retrieved = reservoir.get(ReservoirCoordinate::new(5, 10));
    assert_eq!(retrieved, TubularBigInt::new(5));
    assert_eq!(stack.depth(), 0);
    assert_eq!(droplet.value, TubularBigInt::new(5));
}

#[test]
fn test_put_operation_overwrites_existing() {
    let droplet = create_test_droplet(5, 0, 0);
    let mut stack = DataStack::new();
    let mut reservoir = Reservoir::new();

    reservoir.put(ReservoirCoordinate::new(5, 10), TubularBigInt::new(99));
    stack.push(TubularBigInt::new(10));

    MemoryOperations::process_put_operation(&droplet, &mut stack, &mut reservoir).unwrap();

    let retrieved = reservoir.get(ReservoirCoordinate::new(5, 10));
    assert_eq!(retrieved, TubularBigInt::new(5));
}

#[test]
fn test_negative_coordinates() {
    let mut droplet = create_test_droplet(-5, 0, 0);
    let mut stack = DataStack::new();
    let mut reservoir = Reservoir::new();

    reservoir.put(ReservoirCoordinate::new(-5, -10), TubularBigInt::new(42));
    stack.push(TubularBigInt::new(-10));

    MemoryOperations::process_get_operation(&mut droplet, &mut stack, &reservoir).unwrap();

    assert_eq!(droplet.value, TubularBigInt::new(42));
}

#[test]
fn test_coordinate_calculation() {
    let droplet_value = TubularBigInt::new(5);
    let mut stack = DataStack::new();
    stack.push(TubularBigInt::new(10));

    let coord = MemoryOperations::calculate_coordinate(&droplet_value, &mut stack).unwrap();

    assert_eq!(coord.x, 5);
    assert_eq!(coord.y, 10);
    assert_eq!(stack.depth(), 0);
}

#[test]
fn test_memory_operation_detection() {
    assert!(MemoryOperations::is_memory_operation('G'));
    assert!(MemoryOperations::is_memory_operation('P'));
    assert!(!MemoryOperations::is_memory_operation('A'));
    assert!(!MemoryOperations::is_memory_operation(':'));
    assert!(!MemoryOperations::is_memory_operation('!'));
}

#[test]
fn test_memory_operation_type() {
    assert_eq!(MemoryOperations::get_memory_operation_type('G'), Some(MemoryOperationType::Get));
    assert_eq!(MemoryOperations::get_memory_operation_type('P'), Some(MemoryOperationType::Put));
    assert_eq!(MemoryOperations::get_memory_operation_type('A'), None);
    assert_eq!(MemoryOperations::get_memory_operation_type(':'), None);
}

#[test]
fn test_large_coordinates() {
    let mut droplet = create_test_droplet(1000000, 0, 0);
    let mut stack = DataStack::new();
    let mut reservoir = Reservoir::new();

    reservoir.put(ReservoirCoordinate::new(1000000, 2000000), TubularBigInt::new(999));
    stack.push(TubularBigInt::new(2000000));

    MemoryOperations::process_get_operation(&mut droplet, &mut stack, &reservoir).unwrap();

    assert_eq!(droplet.value, TubularBigInt::new(999));
}

#[test]
fn memory_test_stack_underflow_handling() {
    let mut droplet = create_test_droplet(5, 0, 0);
    let mut stack = DataStack::new();
    let mut reservoir = Reservoir::new();

    MemoryOperations::process_put_operation(&droplet, &mut stack, &mut reservoir).unwrap();

    let retrieved = reservoir.get(ReservoirCoordinate::new(5, 0));
    assert_eq!(retrieved, TubularBigInt::new(5));

    MemoryOperations::process_get_operation(&mut droplet, &mut stack, &reservoir).unwrap();
    assert_eq!(droplet.value, TubularBigInt::new(5));
}

#[test]
fn stack_text_lists_values_bottom_first() {
    let stack = DataStack::from_i64_values(vec![1, -2, 30]);
    assert_eq!(stack.to_text(), "[1, -2, 30]");
    assert_eq!(DataStack::new().to_text(), "[]");
}

#[test]
fn reservoir_text_shows_the_spanned_box() {
    let mut reservoir = Reservoir::new();
    assert_eq!(reservoir.to_text(), "Reservoir (0 cells):\n");
    reservoir.put(ReservoirCoordinate::new(0, 0), TubularBigInt::new(5));
    reservoir.put(ReservoirCoordinate::new(1, 1), TubularBigInt::new(-2));
    assert_eq!(reservoir.to_text(), "Reservoir (2 cells):\n5 0 \n0 -2 \n");
}

#[test]
fn reservoir_values_list_every_stored_value() {
    let mut reservoir = Reservoir::new();
    reservoir.put(ReservoirCoordinate::new(0, 0), TubularBigInt::new(5));
    reservoir.put(ReservoirCoordinate::new(-1, 2), TubularBigInt::new(-2));
    let mut values: Vec<TubularBigInt> = reservoir.values();
    values.sort_by_key(|v| v.to_i64());
    assert_eq!(values, vec![TubularBigInt::new(-2), TubularBigInt::new(5)]);
    assert_eq!(reservoir.into_values().len(), 2);
}
