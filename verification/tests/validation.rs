use tubular::parser::grid_parser::GridParser;
use tubular::interpreter::grid::ProgramGrid;
use tubular::parser::validator::ProgramValidator;
use tubular::types::coordinate::Coordinate;
use tubular::types::error::{ErrorType, InitError, InterpreterError};

fn grid_of(cells: &[(isize, isize, char)]) -> ProgramGrid {
    let mut grid = ProgramGrid::new();
    for &(x, y, c) in cells {
        grid.add_cell(Coordinate::new(x, y), c).unwrap();
    }
    grid
}

fn message_of(e: &InterpreterError) -> String {
    match e {
        InterpreterError::Enhanced { info, .. } => info.message.clone(),
        other => other.to_message(),
    }
}

#[test]
fn lenient_validation_accepts_a_simple_program() {
    let grid = grid_of(&[(0, 0, '@'), (0, 1, '|'), (0, 2, '!')]);
    let validator = ProgramValidator::new();
    assert!(validator.can_validate(&grid));
    assert!(validator.validate(&grid).is_ok());
}

#[test]
fn strict_validation_rejects_a_start_on_the_edge() {
    let grid = grid_of(&[(0, 0, '@'), (0, 1, '|'), (0, 2, '!')]);
    let validator = ProgramValidator::strict();
    assert!(validator.can_validate(&grid));
    let e = validator.validate(&grid).unwrap_err();
    assert_eq!(message_of(&e), "Start symbol '@' cannot be placed at the edge in strict mode");
    assert_eq!(e.error_type(), ErrorType::Validation);
}

#[test]
fn missing_start_symbol_is_reported_first() {
    let grid = grid_of(&[(1, 1, '|')]);
    let validator = ProgramValidator::new();
    assert!(validator.can_validate(&grid));
    let e = validator.validate(&grid).unwrap_err();
    assert_eq!(e, InterpreterError::Initialization(InitError::NoStartSymbol));
}

#[test]
fn error_collection_counts_the_failing_steps() {
    let grid = grid_of(&[(1, 1, '|')]);
    let validator = ProgramValidator::new().with_error_collection();
    let e = validator.validate(&grid).unwrap_err();
    assert_eq!(message_of(&e), "Found 3 validation errors");
    assert!(validator.get_errors().is_empty());
}

#[test]
fn both_modes_accept_the_same_grid() {
    let grid = grid_of(&[(1, 1, '@'), (1, 2, '|'), (1, 3, '!')]);
    assert!(ProgramValidator::new().validate(&grid).is_ok());
    assert!(ProgramValidator::new().with_error_collection().validate(&grid).is_ok());
}

#[test]
fn strict_acceptance_implies_lenient_acceptance() {
    let grid = grid_of(&[(1, 1, '@')]);
    let strict = ProgramValidator::strict();
    assert!(strict.can_validate(&grid));
    assert!(strict.validate(&grid).is_ok());
    assert!(ProgramValidator::new().validate(&grid).is_ok());
}

#[test]
fn strict_validation_reports_unreachable_cells() {
    let grid = grid_of(&[(1, 1, '@'), (1, 2, '|'), (1, 3, '!'), (5, 5, '!')]);
    let strict = ProgramValidator::strict();
    assert!(strict.can_validate(&grid));
    let e = strict.validate(&grid).unwrap_err();
    assert_eq!(message_of(&e), "Found 1 unreachable code cells");
    assert!(ProgramValidator::new().validate(&grid).is_ok());
}

#[test]
fn unknown_symbol_fails_the_grid_check() {
    let grid = grid_of(&[(1, 1, '@'), (1, 2, 'Q')]);
    let e = ProgramValidator::new().validate(&grid).unwrap_err();
    assert_eq!(e, InterpreterError::Initialization(InitError::InvalidCharacter('Q', Coordinate::new(1, 2))));
}

#[test]
fn strict_validation_follows_the_start_downward() {
    let grid = GridParser::new().parse_string(" \n @\n |").unwrap();
    let r = ProgramValidator::strict().validate(&grid);
    assert!(r.is_ok(), "{:?}", r);
}
