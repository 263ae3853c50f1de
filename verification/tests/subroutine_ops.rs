use tubular::interpreter::droplet::Droplet;
use tubular::interpreter::grid::ProgramGrid;
use tubular::interpreter::stack::DataStack;
use tubular::interpreter::subroutines::{CallStack, StackFrame};
use tubular::operations::subroutines::{SubroutineOperationType, SubroutineOperations};
use tubular::types::bigint::TubularBigInt;
use tubular::types::coordinate::Coordinate;
use tubular::types::direction::Direction;

fn create_test_droplet(value: i64, x: isize, y: isize, direction: Direction) -> Droplet {
    let mut droplet = Droplet::new(0, Coordinate::new(x, y), direction);
    droplet.set_value(TubularBigInt::new(value));
    droplet
}

fn create_test_grid() -> ProgramGrid {
    let mut grid = ProgramGrid::new();
    grid.add_cell(Coordinate::new(0, 0), '@').unwrap();
    grid.add_cell(Coordinate::new(5, 10), 'A').unwrap();
    grid.add_cell(Coordinate::new(-3, 7), 'P').unwrap();
    grid
}

#[test]
fn test_call_operation_pushes_return_frame() {
    let mut droplet = create_test_droplet(5, 0, 0, Direction::Down);
    let mut stack = DataStack::new();
    let mut call_stack = CallStack::new();
    let grid = create_test_grid();

    stack.push(TubularBigInt::new(1));
    stack.push(TubularBigInt::new(10));

    SubroutineOperations::process_call_operation(&mut droplet, &mut stack, &mut call_stack, &grid).unwrap();

    assert_eq!(call_stack.depth(), 1);
    let frame = call_stack.peek().unwrap();
    assert_eq!(frame.return_position, Coordinate::new(0, 0));
    assert_eq!(frame.return_direction, Direction::Down);

    assert_eq!(droplet.position, Coordinate::new(5, 10));
    assert_eq!(droplet.direction, Direction::Right);

    assert_eq!(stack.depth(), 0);
}

#[test]
fn test_call_operation_invalid_target_no_jump() {
    let mut droplet = create_test_droplet(99, 0, 0, Direction::Down);
    let mut stack = DataStack::new();
    let mut call_stack = CallStack::new();
    let grid = create_test_grid();

    stack.push(TubularBigInt::new(1));
    stack.push(TubularBigInt::new(10));

    let original_position = droplet.position;
    let original_direction = droplet.direction;

    SubroutineOperations::process_call_operation(&mut droplet, &mut stack, &mut call_stack, &grid).unwrap();

    assert_eq!(droplet.position, original_position);
    assert_eq!(droplet.direction, original_direction);
    assert_eq!(call_stack.depth(), 0);
}

#[test]
fn test_return_operation_pops_call_stack() {
    let mut droplet = create_test_droplet(0, 5, 5, Direction::Up);
    let mut call_stack = CallStack::new();

    let return_frame = StackFrame::new(Coordinate::new(1, 1), Direction::Right);
    call_stack.push(return_frame);

    SubroutineOperations::process_return_operation(&mut droplet, &mut call_stack).unwrap();

    assert_eq!(droplet.position, Coordinate::new(1, 1));
    assert_eq!(droplet.direction, Direction::Right);
    assert_eq!(call_stack.depth(), 0);
}

#[test]
fn test_return_operation_empty_stack_no_op() {
    let mut droplet = create_test_droplet(0, 5, 5, Direction::Up);
    let mut call_stack = CallStack::new();

    let original_position = droplet.position;
    let original_direction = droplet.direction;

    SubroutineOperations::process_return_operation(&mut droplet, &mut call_stack).unwrap();

    assert_eq!(droplet.position, original_position);
    assert_eq!(droplet.direction, original_direction);
    assert_eq!(call_stack.depth(), 0);
}

#[test]
fn test_nested_calls() {
    let mut droplet = create_test_droplet(5, 0, 0, Direction::Down);
    let mut stack = DataStack::new();
    let mut call_stack = CallStack::new();
    let grid = create_test_grid();

    stack.push(TubularBigInt::new(1));
    stack.push(TubularBigInt::new(10));

    SubroutineOperations::process_call_operation(&mut droplet, &mut stack, &mut call_stack, &grid).unwrap();

    droplet.set_value(TubularBigInt::new(-3));
    stack.push(TubularBigInt::new(0));
    stack.push(TubularBigInt::new(7));

    SubroutineOperations::process_call_operation(&mut droplet, &mut stack, &mut call_stack, &grid).unwrap();

    assert_eq!(call_stack.depth(), 2);

    SubroutineOperations::process_return_operation(&mut droplet, &mut call_stack).unwrap();
    assert_eq!(droplet.position, Coordinate::new(5, 10));
    assert_eq!(droplet.direction, Direction::Right);
    assert_eq!(call_stack.depth(), 1);

    SubroutineOperations::process_return_operation(&mut droplet, &mut call_stack).unwrap();
    assert_eq!(droplet.position, Coordinate::new(0, 0));
    assert_eq!(droplet.direction, Direction::Down);
    assert_eq!(call_stack.depth(), 0);
}

#[test]
fn test_value_to_direction() {
    assert_eq!(SubroutineOperations::value_to_direction(&TubularBigInt::new(0)), Direction::Up);
    assert_eq!(SubroutineOperations::value_to_direction(&TubularBigInt::new(1)), Direction::Right);
    assert_eq!(SubroutineOperations::value_to_direction(&TubularBigInt::new(2)), Direction::Down);
    assert_eq!(SubroutineOperations::value_to_direction(&TubularBigInt::new(3)), Direction::Left);

    assert_eq!(SubroutineOperations::value_to_direction(&TubularBigInt::new(4)), Direction::Up);
    assert_eq!(SubroutineOperations::value_to_direction(&TubularBigInt::new(-1)), Direction::Left);

    assert_eq!(SubroutineOperations::value_to_direction(&TubularBigInt::new(999)), Direction::Right);
}

#[test]
fn test_direction_to_value() {
    assert_eq!(SubroutineOperations::direction_to_value(Direction::Up), TubularBigInt::new(0));
    assert_eq!(SubroutineOperations::direction_to_value(Direction::Right), TubularBigInt::new(1));
    assert_eq!(SubroutineOperations::direction_to_value(Direction::Down), TubularBigInt::new(2));
    assert_eq!(SubroutineOperations::direction_to_value(Direction::Left), TubularBigInt::new(3));
}

#[test]
fn test_direction_conversion_roundtrip() {
    for direction in [Direction::Up, Direction::Right, Direction::Down, Direction::Left] {
        let value = SubroutineOperations::direction_to_value(direction);
        let converted_back = SubroutineOperations::value_to_direction(&value);
        assert_eq!(direction, converted_back);
    }
}

#[test]
fn test_subroutine_operation_detection() {
    assert!(SubroutineOperations::is_subroutine_operation('C'));
    assert!(SubroutineOperations::is_subroutine_operation('R'));
    assert!(!SubroutineOperations::is_subroutine_operation('A'));
    assert!(!SubroutineOperations::is_subroutine_operation(':'));
    assert!(!SubroutineOperations::is_subroutine_operation('!'));
}

#[test]
fn test_subroutine_operation_type() {
    assert_eq!(SubroutineOperations::get_subroutine_operation_type('C'), Some(SubroutineOperationType::Call));
    assert_eq!(SubroutineOperations::get_subroutine_operation_type('R'), Some(SubroutineOperationType::Return));
    assert_eq!(SubroutineOperations::get_subroutine_operation_type('A'), None);
    assert_eq!(SubroutineOperations::get_subroutine_operation_type(':'), None);
}

#[test]
fn test_call_target_validation() {
    let grid = create_test_grid();

    assert!(SubroutineOperations::validate_call_target(Coordinate::new(0, 0), &grid));
    assert!(SubroutineOperations::validate_call_target(Coordinate::new(5, 10), &grid));
    assert!(SubroutineOperations::validate_call_target(Coordinate::new(-3, 7), &grid));

    assert!(!SubroutineOperations::validate_call_target(Coordinate::new(99, 99), &grid));
    assert!(!SubroutineOperations::validate_call_target(Coordinate::new(1, 1), &grid));
}

#[test]
fn test_get_valid_call_targets() {
    let grid = create_test_grid();
    let targets = SubroutineOperations::get_valid_call_targets(&grid);

    assert_eq!(targets.len(), 3);
    assert!(targets.contains(&Coordinate::new(0, 0)));
    assert!(targets.contains(&Coordinate::new(5, 10)));
    assert!(targets.contains(&Coordinate::new(-3, 7)));
}

#[test]
fn subroutines_test_stack_underflow_handling() {
    let mut droplet = create_test_droplet(5, 0, 0, Direction::Down);
    let mut stack = DataStack::new();
    let mut call_stack = CallStack::new();
    let grid = create_test_grid();

    SubroutineOperations::process_call_operation(&mut droplet, &mut stack, &mut call_stack, &grid).unwrap();

    assert_eq!(call_stack.depth(), 1);
}

#[test]
fn test_negative_coordinates_in_calls() {
    let mut droplet = create_test_droplet(-3, 0, 0, Direction::Down);
    let mut stack = DataStack::new();
    let mut call_stack = CallStack::new();
    let grid = create_test_grid();

    stack.push(TubularBigInt::new(0));
    stack.push(TubularBigInt::new(7));

    SubroutineOperations::process_call_operation(&mut droplet, &mut stack, &mut call_stack, &grid).unwrap();

    assert_eq!(droplet.position, Coordinate::new(-3, 7));
    assert_eq!(droplet.direction, Direction::Up);
}

#[test]
fn values_beyond_the_tested_ones_follow_quarter_turns() {
    assert_eq!(SubroutineOperations::value_to_direction(&TubularBigInt::new(10)), Direction::Down);
    assert_eq!(SubroutineOperations::value_to_direction(&TubularBigInt::new(-6)), Direction::Down);
    assert_eq!(SubroutineOperations::value_to_direction(&TubularBigInt::new(1000)), Direction::Right);
    assert_eq!(SubroutineOperations::value_to_direction(&TubularBigInt::new(-999)), Direction::Right);
}

#[test]
fn frames_can_be_changed_in_place() {
    let mut cs = CallStack::new();
    cs.push(StackFrame::new(Coordinate::new(1, 1), Direction::Down));
    cs.push(StackFrame::new(Coordinate::new(2, 2), Direction::Left));
    for frame in cs.iter_mut().iter_mut() {
        frame.return_direction = Direction::Up;
    }
    assert!(cs.iter().iter().all(|f| f.return_direction == Direction::Up));
    assert_eq!(cs.max_depth_reached(), 2);
}
