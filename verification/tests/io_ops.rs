use tubular::interpreter::droplet::Droplet;
use tubular::operations::io::{InputBuffer, IoOperations, ValidationMode};
use tubular::types::bigint::TubularBigInt;
use tubular::types::coordinate::Coordinate;
use tubular::types::direction::Direction;

fn create_test_droplet(id: u64, value: i64) -> Droplet {
    let mut droplet = Droplet::new(id, Coordinate::new(0, 0), Direction::Down);
    droplet.set_value(TubularBigInt::new(value));
    droplet
}

#[test]
fn test_character_output() {
    let droplet = create_test_droplet(0, 65);
    let output = IoOperations::process_character_output(&droplet).unwrap();
    assert_eq!(output, "A");

    let droplet = create_test_droplet(0, 72);
    let output = IoOperations::process_character_output(&droplet).unwrap();
    assert_eq!(output, "H");

    let droplet = create_test_droplet(0, 33);
    let output = IoOperations::process_character_output(&droplet).unwrap();
    assert_eq!(output, "!");

    let droplet = create_test_droplet(0, 128);
    let output = IoOperations::process_character_output(&droplet).unwrap();
    assert_eq!(output, "");
}

#[test]
fn test_numeric_output() {
    let droplet = create_test_droplet(0, 42);
    let output = IoOperations::process_numeric_output(&droplet).unwrap();
    assert_eq!(output, "42");

    let droplet = create_test_droplet(0, -123);
    let output = IoOperations::process_numeric_output(&droplet).unwrap();
    assert_eq!(output, "-123");

    let droplet = create_test_droplet(0, 0);
    let output = IoOperations::process_numeric_output(&droplet).unwrap();
    assert_eq!(output, "0");
}

#[test]
fn test_sink_output() {
    let output = IoOperations::process_sink_output().unwrap();
    assert_eq!(output, "");
}

#[test]
fn test_io_operation_detection() {
    assert!(IoOperations::is_io_operation(','));
    assert!(IoOperations::is_io_operation('n'));
    assert!(IoOperations::is_io_operation('!'));
    assert!(!IoOperations::is_io_operation('5'));
    assert!(!IoOperations::is_io_operation('A'));
    assert!(!IoOperations::is_io_operation('|'));
}

#[test]
fn test_data_sink_detection() {
    assert!(IoOperations::is_data_sink(','));
    assert!(IoOperations::is_data_sink('n'));
    assert!(IoOperations::is_data_sink('!'));
    assert!(!IoOperations::is_data_sink('5'));
    assert!(!IoOperations::is_data_sink('A'));
    assert!(!IoOperations::is_data_sink('|'));
}

#[test]
fn test_data_source_detection() {
    assert!(IoOperations::is_data_source('?'));
    assert!(!IoOperations::is_data_source(','));
    assert!(!IoOperations::is_data_source('5'));
    assert!(!IoOperations::is_data_source('|'));
}

#[test]
fn test_character_input_operations() {
    assert!(IoOperations::is_io_operation('?'));
}

#[test]
fn test_extended_io_operation_detection() {
    assert!(IoOperations::is_io_operation(','));
    assert!(IoOperations::is_io_operation('n'));
    assert!(IoOperations::is_io_operation('!'));
    assert!(IoOperations::is_io_operation('?'));

    assert!(!IoOperations::is_io_operation('5'));
    assert!(!IoOperations::is_io_operation('A'));
    assert!(!IoOperations::is_io_operation('|'));
    assert!(!IoOperations::is_io_operation(':'));
    assert!(!IoOperations::is_io_operation('+'));
}

#[test]
fn test_input_buffer_creation() {
    let buffer = InputBuffer::new();
    assert_eq!(buffer.validation_mode(), ValidationMode::Lenient);

    let buffer_with_input = InputBuffer::with_input("hello\nworld".to_string());
    assert_eq!(buffer_with_input.validation_mode(), ValidationMode::Lenient);
}

#[test]
fn test_validation_modes() {
    assert_eq!(ValidationMode::Lenient, ValidationMode::Lenient);
    assert_ne!(ValidationMode::Strict, ValidationMode::Lenient);
    assert_ne!(ValidationMode::Permissive, ValidationMode::Strict);
}

#[test]
fn test_numeric_validation() {
    assert!(IoOperations::is_valid_integer("123"));
    assert!(IoOperations::is_valid_integer("-456"));
    assert!(IoOperations::is_valid_integer("0"));
    assert!(!IoOperations::is_valid_integer(""));
    assert!(!IoOperations::is_valid_integer("-"));
    assert!(!IoOperations::is_valid_integer("12a3"));
    assert!(!IoOperations::is_valid_integer("12.3"));
    assert!(!IoOperations::is_valid_integer("abc"));
}

#[test]
fn test_number_extraction() {
    assert_eq!(IoOperations::extract_number("123"), Some(123));
    assert_eq!(IoOperations::extract_number("-456"), Some(-456));
    assert_eq!(IoOperations::extract_number("abc123def"), Some(123));
    assert_eq!(IoOperations::extract_number("abc-123def"), Some(-123));
    assert_eq!(IoOperations::extract_number("abc"), None);
    assert_eq!(IoOperations::extract_number(""), None);
    assert_eq!(IoOperations::extract_number("-"), None);
    assert_eq!(IoOperations::extract_number("123abc456"), Some(123));
}

#[test]
fn test_intelligent_parsing() {
    assert_eq!(IoOperations::parse_intelligently("123"), Some(123));
    assert_eq!(IoOperations::parse_intelligently("-456"), Some(-456));

    assert_eq!(IoOperations::parse_intelligently("abc123def"), Some(123));

    assert_eq!(IoOperations::parse_intelligently("zero"), Some(0));
    assert_eq!(IoOperations::parse_intelligently("one"), Some(1));
    assert_eq!(IoOperations::parse_intelligently("five"), Some(5));
    assert_eq!(IoOperations::parse_intelligently("ten"), Some(10));
    assert_eq!(IoOperations::parse_intelligently("ZERO"), Some(0));

    assert_eq!(IoOperations::parse_intelligently("abc"), None);
    assert_eq!(IoOperations::parse_intelligently(""), None);
}

#[test]
fn test_numeric_validation_modes() {
    let result = IoOperations::validate_and_parse_numeric("123", ValidationMode::Lenient).unwrap();
    assert_eq!(result, "123");

    let result = IoOperations::validate_and_parse_numeric("abc", ValidationMode::Lenient).unwrap();
    assert_eq!(result, "0");

    let result = IoOperations::validate_and_parse_numeric("", ValidationMode::Lenient).unwrap();
    assert_eq!(result, "0");

    let result = IoOperations::validate_and_parse_numeric("123", ValidationMode::Strict).unwrap();
    assert_eq!(result, "123");

    let result = IoOperations::validate_and_parse_numeric("abc", ValidationMode::Strict);
    assert!(result.is_err());

    let result = IoOperations::validate_and_parse_numeric("five", ValidationMode::Permissive).unwrap();
    assert_eq!(result, "5");

    let result = IoOperations::validate_and_parse_numeric("abc123def", ValidationMode::Permissive).unwrap();
    assert_eq!(result, "123");

    let result = IoOperations::validate_and_parse_numeric("xyz", ValidationMode::Permissive).unwrap();
    assert_eq!(result, "0");
}

#[test]
fn buffered_characters_come_in_order() {
    let mut b = InputBuffer::with_input("hello\nworld".to_string());
    let got: Vec<Option<char>> = (0..6).map(|_| b.read_char()).collect();
    assert_eq!(got, vec![Some('h'), Some('e'), Some('l'), Some('l'), Some('o'), Some('w')]);
    assert_eq!(b.read_line(), None);
}

#[test]
fn lines_and_characters_are_read_separately() {
    let mut b = InputBuffer::with_input("12\n34\n".to_string());
    assert_eq!(b.read_line(), Some("12".to_string()));
    assert_eq!(b.read_char(), Some('3'));
    assert_eq!(b.read_char(), Some('4'));
    assert_eq!(b.read_char(), None);
}
