use tubular::interpreter::grid::ProgramGrid;
use tubular::types::coordinate::Coordinate;
use tubular::types::error::{InitError, InterpreterError};
use tubular::parser::grid_parser::GridParser;

#[test]
fn test_parse_simple_grid() {
    let parser = GridParser::new();
    let content = "@-\n!";
    let grid = parser.parse_string(content).unwrap();

    assert!(grid.start().is_some());
    assert_eq!(grid.size(), 2);
}

#[test]
fn cells_off_the_droplet_path_are_kept_but_not_counted() {
    let grid = GridParser::new().parse_string("@-\n!").unwrap();
    assert_eq!(grid.cell_count(), 3);
    assert_eq!(grid.dimensions(), (2, 2));
    assert_eq!(grid.get_symbol(tubular::types::coordinate::Coordinate::new(1, 0)), Some('-'));
    let branching = GridParser::new().parse_string("@\n\\!\n!").unwrap();
    assert_eq!(branching.size(), 3);
}

#[test]
fn test_parse_with_whitespace() {
    let parser = GridParser::new();
    let content = "  @  \n  -  \n  !  ";
    let grid = parser.parse_string(content).unwrap();

    assert!(grid.start().is_some());
    assert_eq!(grid.size(), 3);
}

#[test]
fn parse_reports_an_invalid_character() {
    let r = GridParser::new().parse_string("@\n#");
    let e = r.unwrap_err();
    match e {
        tubular::types::error::InterpreterError::Enhanced { info, .. } => {
            assert_eq!(info.message, "Invalid character '#' found in program");
            let context = info.context.unwrap();
            assert_eq!(context.position.line, 1);
            assert_eq!(context.position.column, 0);
            assert_eq!(context.source_line, "#");
        }
        other => panic!("unexpected error {:?}", other),
    }
}

#[test]
fn parse_rejects_two_start_symbols() {
    let r = GridParser::new().parse_string("@@");
    assert_eq!(
        r.unwrap_err(),
        tubular::types::error::InterpreterError::Initialization(tubular::types::error::InitError::MultipleStartSymbols)
    );
}

#[test]
fn symbols_positions_and_dimensions_of_text() {
    let parser = GridParser::new();
    let content = " @\n|  |\n!";
    let symbols = parser.extract_symbols(content);
    assert_eq!(symbols.len(), 4);
    assert_eq!(symbols[0], (tubular::types::coordinate::Coordinate::new(1, 0), '@'));
    let pipes = parser.find_symbol(content, '|');
    assert_eq!(
        pipes,
        vec![tubular::types::coordinate::Coordinate::new(0, 1), tubular::types::coordinate::Coordinate::new(3, 1)]
    );
    assert_eq!(parser.get_dimensions(content), (4, 3));
    let counts = parser.count_symbols(content);
    assert!(counts.contains(&('|', 2)));
    assert!(counts.contains(&('@', 1)));
    assert_eq!(counts.len(), 3);
}

#[test]
fn parse_lines_and_origin() {
    let parser = GridParser::new();
    let grid = parser.parse_lines(&["@", "!"]).unwrap();
    assert_eq!(grid.size(), 2);
    let shifted = parser.parse_with_origin("@\n!", 5, -2).unwrap();
    assert_eq!(shifted.start(), Some(tubular::types::coordinate::Coordinate::new(5, -2)));
    assert!(parser.validate_content("@\n!").is_ok());
    assert!(parser.validate_content("@\nQ").is_err());
}

#[test]
fn grid_text_fills_gaps_with_spaces() {
    let grid = GridParser::new().parse_string("@-\n !").unwrap();
    assert_eq!(grid.to_text(), "@-\n !\n");
}

#[test]
fn far_cells_are_refused_as_too_large() {
    let mut g = ProgramGrid::new();
    assert_eq!(
        g.add_cell(Coordinate::new(isize::MAX, 0), '|'),
        Err(InterpreterError::Initialization(InitError::GridSizeExceeded(isize::MAX as usize + 1, 1)))
    );
    assert_eq!(g.cell_count(), 0);
    assert_eq!(
        g.add_cell(Coordinate::new(-5_000_000_000, 3), '|'),
        Err(InterpreterError::Initialization(InitError::GridSizeExceeded(5_000_000_001, 4)))
    );
    assert_eq!(
        g.add_cell(Coordinate::new(isize::MAX, 0), 'é'),
        Err(InterpreterError::Initialization(InitError::InvalidCharacter('é', Coordinate::new(isize::MAX, 0))))
    );
    assert!(g.add_cell(Coordinate::new(-3, 7), '@').is_ok());
    assert_eq!(g.get_symbol(Coordinate::new(-3, 7)), Some('@'));
    assert_eq!(
        GridParser::new().parse_with_origin("@", isize::MAX - 1, 0).err(),
        Some(InterpreterError::Initialization(InitError::GridSizeExceeded(isize::MAX as usize, 1)))
    );
}

#[test]
fn find_and_count_agree_with_extract() {
    let parser = GridParser::new();
    let content = " @\r\n|  |\n!|\n";
    let symbols = parser.extract_symbols(content);
    let pipes: Vec<Coordinate> = symbols.iter().filter(|(_, ch)| *ch == '|').map(|(c, _)| *c).collect();
    assert_eq!(parser.find_symbol(content, '|'), pipes);
    let counts = parser.count_symbols(content);
    for (ch, n) in &counts {
        assert_eq!(*n, symbols.iter().filter(|(_, c)| c == ch).count());
    }
    assert_eq!(counts.iter().map(|(_, n)| n).sum::<usize>(), symbols.len());
}
