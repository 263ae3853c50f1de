use tubular::interpreter::droplet::Droplet;
use tubular::interpreter::stack::DataStack;
use tubular::operations::arithmetic::ArithmeticOperations;
use tubular::types::bigint::TubularBigInt;
use tubular::types::coordinate::Coordinate;
use tubular::types::direction::Direction;

fn create_test_droplet(id: u64, value: i64) -> Droplet {
    Droplet::with_value(id, TubularBigInt::new(value), Coordinate::new(0, 0), Direction::Down)
}

#[test]
fn test_numeric_literals() {
    let mut droplet = create_test_droplet(0, 0);

    ArithmeticOperations::process_numeric_literal(&mut droplet, '5').unwrap();
    assert_eq!(droplet.value, TubularBigInt::new(5));

    ArithmeticOperations::process_numeric_literal(&mut droplet, '9').unwrap();
    assert_eq!(droplet.value, TubularBigInt::new(9));
}

#[test]
fn test_stack_push_pop() {
    let mut droplet = create_test_droplet(0, 42);
    let mut stack = DataStack::new();

    ArithmeticOperations::push(&droplet, &mut stack).unwrap();
    assert_eq!(stack.depth(), 1);
    assert_eq!(stack.peek(), TubularBigInt::new(42));

    droplet.set_value(TubularBigInt::zero());
    ArithmeticOperations::pop(&mut droplet, &mut stack).unwrap();
    assert_eq!(droplet.value, TubularBigInt::new(42));
    assert_eq!(stack.depth(), 0);
}

#[test]
fn test_stack_underflow() {
    let mut droplet = create_test_droplet(0, 0);
    let mut stack = DataStack::new();

    ArithmeticOperations::pop(&mut droplet, &mut stack).unwrap();
    assert_eq!(droplet.value, TubularBigInt::zero());

    ArithmeticOperations::duplicate(&mut stack).unwrap();
    assert_eq!(stack.depth(), 1);
    assert_eq!(stack.peek(), TubularBigInt::zero());
}

#[test]
fn test_arithmetic_operations() {
    let mut droplet = create_test_droplet(0, 0);
    let mut stack = DataStack::new();

    stack.push(TubularBigInt::new(5));
    stack.push(TubularBigInt::new(3));
    ArithmeticOperations::add(&mut droplet, &mut stack).unwrap();
    assert_eq!(droplet.value, TubularBigInt::new(8));

    stack.push(TubularBigInt::new(10));
    stack.push(TubularBigInt::new(4));
    ArithmeticOperations::subtract(&mut droplet, &mut stack).unwrap();
    assert_eq!(droplet.value, TubularBigInt::new(6));

    stack.push(TubularBigInt::new(3));
    stack.push(TubularBigInt::new(7));
    ArithmeticOperations::multiply(&mut droplet, &mut stack).unwrap();
    assert_eq!(droplet.value, TubularBigInt::new(21));
}

#[test]
fn test_division_by_zero() {
    let mut droplet = create_test_droplet(0, 0);
    let mut stack = DataStack::new();

    stack.push(TubularBigInt::new(5));
    stack.push(TubularBigInt::zero());
    ArithmeticOperations::divide(&mut droplet, &mut stack).unwrap();
    assert_eq!(droplet.value, TubularBigInt::zero());
}

#[test]
fn test_comparison_operations() {
    let mut droplet = create_test_droplet(0, 0);
    let mut stack = DataStack::new();

    stack.push(TubularBigInt::new(5));
    stack.push(TubularBigInt::new(10));
    ArithmeticOperations::less_than(&mut droplet, &mut stack).unwrap();
    assert_eq!(droplet.value, TubularBigInt::one());

    stack.push(TubularBigInt::new(10));
    stack.push(TubularBigInt::new(5));
    ArithmeticOperations::greater_than(&mut droplet, &mut stack).unwrap();
    assert_eq!(droplet.value, TubularBigInt::one());

    stack.push(TubularBigInt::new(7));
    stack.push(TubularBigInt::new(7));
    ArithmeticOperations::equals(&mut droplet, &mut stack).unwrap();
    assert_eq!(droplet.value, TubularBigInt::one());
}

#[test]
fn test_increment_decrement() {
    let mut droplet = create_test_droplet(0, 5);

    ArithmeticOperations::increment(&mut droplet).unwrap();
    assert_eq!(droplet.value, TubularBigInt::new(6));

    ArithmeticOperations::decrement(&mut droplet).unwrap();
    assert_eq!(droplet.value, TubularBigInt::new(5));
}
