use tubular::interpreter::execution::{ExecutionLimits, ExecutionStatus, InputKind, TubularInterpreter};
use tubular::interpreter::memory::{Reservoir, ReservoirCoordinate};
use tubular::interpreter::stack::DataStack;
use tubular::parser::grid_parser::GridParser;
use tubular::types::bigint::TubularBigInt;

fn interpreter_for(program: &str, max_ticks: Option<u64>) -> TubularInterpreter {
    let grid = GridParser::new().parse_string(program).unwrap();
    TubularInterpreter::new(grid).unwrap().with_options(false, false, max_ticks)
}

fn run_to_end(interpreter: &mut TubularInterpreter, inputs: &[&str]) -> String {
    let mut output = String::new();
    let mut next = 0;
    for _ in 0..200 {
        if !matches!(interpreter.state().status, ExecutionStatus::Running) {
            break;
        }
        let mut lines = Vec::new();
        for _ in interpreter.input_requests() {
            lines.push(Ok(inputs[next].to_string()));
            next += 1;
        }
        let tick = interpreter.execute_tick(0, lines).unwrap();
        if let Some(o) = tick.output {
            output.push_str(&o);
        }
    }
    output
}

#[test]
fn numeric_output_of_a_literal() {
    let mut interpreter = interpreter_for("@\n7\nn\n!", Some(100));
    let output = run_to_end(&mut interpreter, &[]);
    assert_eq!(output, "7");
    assert_eq!(interpreter.state().output, "7");
}

#[test]
fn later_literal_overwrites_earlier() {
    let mut interpreter = interpreter_for("@\n7\n2\nn\n!", Some(100));
    assert_eq!(run_to_end(&mut interpreter, &[]), "2");
}

#[test]
fn increments_raise_the_value() {
    let mut interpreter = interpreter_for("@\n7\n+\n+\nn\n!", Some(100));
    assert_eq!(run_to_end(&mut interpreter, &[]), "9");
}

#[test]
fn character_output_writes_ascii() {
    let mut interpreter = interpreter_for("@\n6\n+\n+\n+\n,\n!", Some(100));
    assert_eq!(run_to_end(&mut interpreter, &[]), "\u{9}");
}

#[test]
fn stopped_run_stays_idle() {
    let mut interpreter = interpreter_for("@\n!", Some(100));
    run_to_end(&mut interpreter, &[]);
    let status_before = format!("{:?}", interpreter.state().status);
    let tick_before = interpreter.state().tick;
    assert!(!matches!(interpreter.state().status, ExecutionStatus::Running));
    let tick = interpreter.execute_tick(0, Vec::new()).unwrap();
    assert_eq!(tick.tick, tick_before);
    assert_eq!(tick.droplets_active, 0);
    assert!(tick.output.is_none());
    assert_eq!(interpreter.state().tick, tick_before);
    assert_eq!(format!("{:?}", interpreter.state().status), status_before);
}

#[test]
fn tick_limit_stops_the_run() {
    let mut interpreter = interpreter_for("@\n|\n|\n|\n|\n|\n!", Some(2));
    interpreter.execute_tick(0, Vec::new()).unwrap();
    interpreter.execute_tick(0, Vec::new()).unwrap();
    assert_eq!(interpreter.state().tick, 2);
    assert!(matches!(interpreter.state().status, ExecutionStatus::Running));
    interpreter.execute_tick(0, Vec::new()).unwrap();
    assert!(matches!(interpreter.state().status, ExecutionStatus::TickTimeout(2)));
    assert_eq!(interpreter.state().tick, 2);
    assert_eq!(interpreter.state().droplets.len(), 0);
}

#[test]
fn running_tick_advances_by_one() {
    let mut interpreter = interpreter_for("@\n|\n|\n!", Some(100));
    for expected in 0..3u64 {
        assert_eq!(interpreter.state().tick, expected);
        let tick = interpreter.execute_tick(0, Vec::new()).unwrap();
        assert_eq!(tick.tick, expected);
        assert!(interpreter.state().droplets.len() <= 1);
    }
    assert_eq!(interpreter.state().tick, 3);
}

#[test]
fn time_limit_stops_the_run() {
    let grid = GridParser::new().parse_string("@\n|\n|\n!").unwrap();
    let limits = ExecutionLimits::unlimited().with_max_time_ms(Some(10));
    let mut interpreter = TubularInterpreter::new(grid).unwrap().with_limits(limits);
    interpreter.execute_tick(20, Vec::new()).unwrap();
    assert!(matches!(interpreter.state().status, ExecutionStatus::WallClockTimeout(10)));
}

#[test]
fn numeric_input_is_requested_and_read() {
    let mut interpreter = interpreter_for("@\n?\nn\n!", Some(100));
    interpreter.execute_tick(0, Vec::new()).unwrap();
    assert_eq!(interpreter.input_requests(), vec![InputKind::Character]);
    assert_eq!(run_to_end(&mut interpreter, &["A"]), "65");

    let mut interpreter = interpreter_for("@\n?\n?\nn\n!", Some(100));
    interpreter.execute_tick(0, Vec::new()).unwrap();
    assert_eq!(interpreter.input_requests(), vec![InputKind::Numeric]);
    interpreter.execute_tick(0, vec![Ok(" 42 ".to_string())]).unwrap();
    assert_eq!(interpreter.state().droplets[0].value, TubularBigInt::new(42));
    assert_eq!(interpreter.input_requests(), vec![InputKind::Character]);
    assert_eq!(run_to_end(&mut interpreter, &[""]), "10");
}

#[test]
fn failed_input_read_is_an_error() {
    let mut interpreter = interpreter_for("@\n?\n?\nn\n!", Some(100));
    interpreter.execute_tick(0, Vec::new()).unwrap();
    let r = interpreter.execute_tick(0, vec![Err("closed".to_string())]);
    assert!(r.is_err());
}

#[test]
fn run_result_reports_the_run() {
    let mut interpreter = interpreter_for("@\n5\nn\n!", Some(100));
    run_to_end(&mut interpreter, &[]);
    let result = interpreter.run_result(4, 1, 3);
    assert_eq!(result.total_ticks, 4);
    assert_eq!(result.final_output, "5");
    assert_eq!(result.max_droplets, 1);
    assert_eq!(result.execution_time_ms, 3);
}

#[test]
fn reservoir_read_after_write_and_others_unchanged() {
    let mut reservoir = Reservoir::new();
    let a = ReservoirCoordinate::new(3, -4);
    let b = ReservoirCoordinate::new(-4, 3);
    assert_eq!(reservoir.get(a), TubularBigInt::zero());
    reservoir.put(b, TubularBigInt::new(11));
    reservoir.put(a, TubularBigInt::new(-77));
    assert_eq!(reservoir.get(a), TubularBigInt::new(-77));
    assert_eq!(reservoir.get(b), TubularBigInt::new(11));
    assert_eq!(reservoir.get(ReservoirCoordinate::new(0, 0)), TubularBigInt::zero());
}

#[test]
fn stack_pop_undoes_push() {
    let mut stack = DataStack::new();
    stack.push(TubularBigInt::new(1));
    stack.push(TubularBigInt::new(-9));
    assert_eq!(stack.pop(), TubularBigInt::new(-9));
    assert_eq!(stack.depth(), 1);
    assert_eq!(stack.peek(), TubularBigInt::new(1));
    assert_eq!(stack.pop(), TubularBigInt::new(1));
    assert_eq!(stack.pop(), TubularBigInt::zero());
    assert_eq!(stack.depth(), 0);
}

#[test]
fn big_integers_compute_exactly() {
    let big = TubularBigInt::new(i64::MAX);
    let sum = big.plus(&big);
    assert_eq!(sum.to_i64(), None);
    assert_eq!(sum.to_decimal_string(), "18446744073709551614");
    let back = sum.minus(&big);
    assert_eq!(back, big);
    assert_eq!(TubularBigInt::new(-7).safe_div(&TubularBigInt::new(2)), TubularBigInt::new(-3));
    assert_eq!(TubularBigInt::new(-7).safe_mod(&TubularBigInt::new(2)), TubularBigInt::new(-1));
    assert_eq!(TubularBigInt::new(7).safe_div(&TubularBigInt::zero()), TubularBigInt::zero());
    assert_eq!(TubularBigInt::new(6).times(&TubularBigInt::new(-7)), TubularBigInt::new(-42));
    assert!(TubularBigInt::new(-1).less_than(&TubularBigInt::zero()));
    assert_eq!(TubularBigInt::new(-12).abs(), TubularBigInt::new(12));
    assert_eq!(TubularBigInt::new(65).to_char(), Some('A'));
    assert_eq!(TubularBigInt::new(300).to_usize(), Some(300));
    assert_eq!(TubularBigInt::new(-3).to_usize(), None);
    assert!(TubularBigInt::zero().is_zero());
}

#[test]
fn sink_consumes_the_droplet_and_completes_the_run() {
    let mut interpreter = interpreter_for("@\n!", Some(100));
    let r0 = interpreter.execute_tick(0, Vec::new()).unwrap();
    assert_eq!(r0.tick, 0);
    let r1 = interpreter.execute_tick(0, Vec::new()).unwrap();
    assert_eq!(r1.tick, 1);
    assert_eq!(r1.droplets_active, 0);
    assert_eq!(r1.collisions, 0);
    assert!(interpreter.state().droplets.is_empty());
    assert!(matches!(interpreter.state().status, ExecutionStatus::Completed));
    assert_eq!(interpreter.state().tick, 2);
}

#[test]
fn get_reads_an_unwritten_address_as_zero() {
    let mut interpreter = interpreter_for("@\n5\n:\n7\nG\nn\n!", Some(100));
    assert_eq!(run_to_end(&mut interpreter, &[]), "0");
    assert!(matches!(interpreter.state().status, ExecutionStatus::Completed));
}

#[test]
fn put_then_get_reads_back_the_value() {
    let mut interpreter = interpreter_for("@\n5\n:\n7\nP\n5\n:\n7\nG\nn\n!", Some(100));
    assert_eq!(run_to_end(&mut interpreter, &[]), "7");
    assert_eq!(interpreter.state().reservoir.get(ReservoirCoordinate::new(7, 5)), TubularBigInt::new(7));
}

#[test]
fn call_jumps_and_return_comes_back() {
    let program = "@ |\n2 n\n: R\n0\n:\n2\nC\nn\n!";
    let mut interpreter = interpreter_for(program, Some(100));
    assert_eq!(run_to_end(&mut interpreter, &[]), "22");
    assert!(matches!(interpreter.state().status, ExecutionStatus::Completed));
    assert!(interpreter.state().call_stack.is_empty());
}
