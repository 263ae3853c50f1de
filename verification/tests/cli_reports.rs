use tubular::types::error::{ErrorContext, Position};
use tubular::types::error_debug::error_debug_text;
use std::collections::HashSet;
use tubular::cli::commands::{
    Cli, EnvConfig, SettingError, can_report, parse_bool_setting, parse_tick_limit_setting, validation_error_report,
    validation_success_report,
};
use tubular::parser::grid_parser::GridParser;
use tubular::cli::output::{Color, OutputFormatter, TraceConfig, TraceFormat, TraceLevel, TraceOperation};
use tubular::interpreter::execution::{ExecutionResult, ExecutionStatus, ExecutionWarning, ProgressReport};
use tubular::types::bigint::TubularBigInt;
use tubular::types::coordinate::Coordinate;
use tubular::types::direction::Direction;
use tubular::types::error::{ErrorInfo, ErrorType, ExecError, InitError, InterpreterError};

fn bare_cli() -> Cli {
    Cli {
        file: None,
        verbose: false,
        ticks: None,
        trace: false,
        benchmark: false,
        trace_level: None,
        trace_format: None,
        trace_droplets: None,
        trace_operations: None,
        trace_ticks: None,
        trace_max_events: None,
        trace_performance: false,
        trace_memory: false,
        trace_stack: false,
        trace_subroutines: false,
        trace_output: None,
        command: None,
    }
}

fn movement(tick: u64, id: u64) -> tubular::cli::output::TraceEvent {
    OutputFormatter::create_movement_trace_event(
        tick,
        id,
        Coordinate::new(0, 0),
        Coordinate::new(0, 1),
        Direction::Down,
        &TubularBigInt::new(7),
        Some('|'),
    )
}

#[test]
fn movement_event_describes_the_move() {
    let e = movement(3, 1);
    assert_eq!(e.description, "Droplet 1 moves from (0, 0) to (0, 1) heading Down with value 7");
    assert_eq!(e.operation, TraceOperation::Movement);
    assert_eq!(e.position, Some(Coordinate::new(0, 1)));
    assert_eq!(e.timestamp_ms, 3);
}

#[test]
fn compact_and_detailed_event_text() {
    let f = OutputFormatter;
    let e = movement(3, 1);
    let basic = TraceConfig::new();
    assert_eq!(f.format_trace_event(&e, &basic), "[00003] Movement D1 @(0, 1) '|'\n");
    let detailed = TraceConfig::new().with_level(TraceLevel::Detailed);
    assert_eq!(
        f.format_trace_event(&e, &detailed),
        "[00003] Movement D1 @(0, 1) '|': Droplet 1 moves from (0, 0) to (0, 1) heading Down with value 7\n"
    );
    let boxed = TraceConfig::new().with_format(TraceFormat::Detailed);
    let text = f.format_trace_event(&e, &boxed);
    assert!(text.starts_with("╔══ Tick 00003 - Movement\n║ Droplet: 1\n║ Position: (0, 1)\n"));
    assert!(text.ends_with("╚══\n"));
}

#[test]
fn json_event_escapes_quotes() {
    let f = OutputFormatter;
    let e = OutputFormatter::create_io_trace_event(2, 4, ',', Coordinate::new(1, 1), "\"", &TubularBigInt::new(34));
    let json = f.format_trace_event(&e, &TraceConfig::new().with_format(TraceFormat::Json));
    assert!(json.starts_with("{\n  \"tick\": 2,\n  \"operation\": \"IoOp\",\n  \"timestamp_us\": 2000,"));
    assert!(json.contains("\"description\": \"Droplet 4 performs char_output at (1, 1) with value '\\\"'\""));
    assert!(json.ends_with("\n}"));
}

#[test]
fn trace_filters_and_limits_events() {
    let f = OutputFormatter;
    let events = vec![movement(1, 1), movement(2, 2), movement(3, 1), movement(4, 1)];
    let mut ids = HashSet::new();
    ids.insert(1u64);
    let config = TraceConfig::new().with_droplet_filter(ids).with_max_events(2);
    assert!(config.should_include_event(&events[0]));
    assert!(!config.should_include_event(&events[1]));
    let text = f.format_trace_events(&events, &config);
    assert_eq!(
        text,
        "Trace Output - 2 events (level: Basic)\n[00001] Movement D1 @(0, 1) '|'\n[00003] Movement D1 @(0, 1) '|'\nEnd of trace - 2 events displayed\n"
    );
    let ranged = TraceConfig::new().with_tick_range(2, 3);
    assert!(!ranged.should_include_event(&events[0]));
    assert!(ranged.should_include_event(&events[1]));
    let ops = TraceConfig::new().with_operation_filter(vec![TraceOperation::Collision]);
    assert!(!ops.should_include_event(&events[0]));
}

#[test]
fn stack_and_collision_events() {
    let before = vec![TubularBigInt::new(1), TubularBigInt::new(2)];
    let after = vec![TubularBigInt::new(3)];
    let e = OutputFormatter::create_stack_trace_event(9, 1, 'A', Coordinate::new(2, 2), &before, &after, &TubularBigInt::new(3));
    assert_eq!(e.operation, TraceOperation::ArithmeticOp);
    assert_eq!(e.description, "Droplet 1 performs add operation at (2, 2) with value 3");
    assert_eq!(e.metadata.extra[0], ("stack_depth_before".to_string(), "2".to_string()));
    let c = OutputFormatter::create_collision_trace_event(5, Coordinate::new(4, 4), &[2, 3], 0);
    assert_eq!(c.description, "Collision at (4, 4) involving 2 droplets: [2, 3]");
    assert_eq!(c.metadata.collision_count, 2);
    let m = OutputFormatter::create_memory_trace_event(1, 1, 'G', Coordinate::new(0, 0), Coordinate::new(-2, 5), &TubularBigInt::new(8), &TubularBigInt::new(1));
    assert_eq!(m.description, "Droplet 1 performs memory get at coordinate (-2, 5) with value 8");
    let l = OutputFormatter::create_lifecycle_trace_event(0, 7, "created", Coordinate::new(1, 0), &TubularBigInt::zero(), Direction::Left);
    assert_eq!(l.description, "Droplet 7 created at (1, 0) with value 0 heading Left");
}

#[test]
fn execution_summary_text() {
    let result = ExecutionResult {
        total_ticks: 12,
        final_output: "hi".to_string(),
        status: ExecutionStatus::TickTimeout(12),
        max_droplets: 1,
        max_stack_depth: 2,
        execution_time_ms: 5,
        warnings_issued: vec![ExecutionWarning::SoftTickLimit(10)],
        progress_reports: vec![ProgressReport { tick: 10, elapsed_time_ms: 4, active_droplets: 1, total_collisions: 0, stack_depth: 2 }],
    };
    let text = OutputFormatter::format_execution_summary(&result);
    assert_eq!(
        text,
        "Execution Summary:\n==================\nTotal Ticks: 12\nExecution Time: 5ms\nPeak Droplets: 1\nPeak Stack Depth: 2\nFinal Status: TickTimeout(12)\n⏹️  Stopped: Tick limit of 12 reached\nWarnings issued:\n  ⚠️  Approaching tick limit of 10\nProgress Reports:\n  Final: 10 ticks, 4ms elapsed, 1 droplets active\nProgram Output: hi\n"
    );
}

#[test]
fn validation_and_error_reports() {
    let ok = OutputFormatter::format_validation_result("a.tb", true, (3, 4), 5, &[]);
    assert_eq!(ok, " Validation passed: a.tb\n  Grid size: 3x4\n  Program cells: 5\n");
    let bad = OutputFormatter::format_validation_result("a.tb", false, (1, 1), 1, &["oops".to_string()]);
    assert_eq!(bad, " Validation failed: a.tb\n  Grid size: 1x1\n  Program cells: 1\n  Errors:\n    oops\n");
    let e = InterpreterError::Execution(ExecError::DivisionByZero);
    let text = OutputFormatter::format_execution_error(&e, "p.tb", Some(2), Some(3), Some("ab"));
    assert_eq!(text, "Error: [E005] - Execution error: Division by zero\nFile: p.tb, Line: 2, Column: 3\nContext: ab\n  ^\n");
    let short = OutputFormatter::format_execution_error(&e, "p.tb", None, None, None);
    assert_eq!(short, "Error: [E005] - Execution error: Division by zero\nFile: p.tb\n");
    assert_eq!(Color::Red.color_code(), "\x1b[31m");
    assert_eq!(Color::Reset.color_code(), "\x1b[0m");
}

#[test]
fn boolean_and_tick_settings() {
    assert_eq!(parse_bool_setting(" Yes "), Some(true));
    assert_eq!(parse_bool_setting("OFF"), Some(false));
    assert_eq!(parse_bool_setting("maybe"), None);
    assert_eq!(parse_tick_limit_setting("+500"), Some(500));
    assert_eq!(parse_tick_limit_setting(" 5"), None);
    let config = EnvConfig::from_settings(Some("0"), Some("1"), None, None, Some("n")).unwrap();
    assert_eq!(config.tick_limit, Some(1000));
    assert!(config.verbose);
    assert!(!config.strict);
    let config = EnvConfig::from_settings(Some("250"), None, None, None, None).unwrap();
    assert_eq!(config.tick_limit, Some(250));
    assert!(matches!(EnvConfig::from_settings(Some("x"), None, None, None, None), Err(SettingError::TickLimit)));
    assert!(matches!(EnvConfig::from_settings(None, None, Some("sure"), None, None), Err(SettingError::Trace)));
}

#[test]
fn command_line_overrides_configuration() {
    let mut cli = bare_cli();
    cli.verbose = true;
    cli.trace_droplets = Some("1, 2,x,2".to_string());
    cli.trace_operations = Some("Movement, stack_op,bogus".to_string());
    cli.trace_ticks = Some("10 - 20".to_string());
    cli.trace_format = Some("json".to_string());
    cli.trace_stack = true;
    let config = EnvConfig::default().apply_cli_overrides(&cli);
    assert!(config.verbose);
    assert!(!config.trace);
    assert_eq!(config.trace_config.level, TraceLevel::Detailed);
    assert_eq!(config.trace_config.format, TraceFormat::Json);
    let ids = config.trace_config.droplet_filter.clone().unwrap();
    assert_eq!(ids.len(), 2);
    assert!(ids.contains(&1) && ids.contains(&2));
    let ops = config.trace_config.operation_filter.clone().unwrap();
    assert_eq!(ops, vec![TraceOperation::Movement, TraceOperation::StackOp]);
    assert_eq!(config.trace_config.tick_range, Some((10, 20)));
    assert!(config.trace_config.include_stack);
    assert!(!config.trace_config.include_memory);

    let plain = EnvConfig::default().apply_cli_overrides(&bare_cli());
    assert_eq!(plain.trace_config.level, TraceLevel::Basic);
    assert!(plain.trace_config.droplet_filter.is_none());
}

#[test]
fn error_status_summary_uses_the_debug_form() {
    let result = ExecutionResult {
        total_ticks: 1,
        final_output: String::new(),
        status: ExecutionStatus::Error(InterpreterError::Execution(ExecError::DivisionByZero)),
        max_droplets: 1,
        max_stack_depth: 0,
        execution_time_ms: 0,
        warnings_issued: Vec::new(),
        progress_reports: Vec::new(),
    };
    let text = OutputFormatter::format_execution_summary(&result);
    assert!(text.ends_with("Final Status: Error(Execution(DivisionByZero))\n"));
}

#[test]
fn validation_reports_for_the_command_line() {
    let content = "@\n#x";
    let e = InterpreterError::Initialization(InitError::InvalidCharacter('x', Coordinate::new(1, 1)));
    assert!(can_report(&e, content));
    assert_eq!(
        validation_error_report(&e, content, "p.tb"),
        "[ERROR] Validation failed: p.tb\n  Invalid character 'x' at line 2, column 2\n  Line 2: #x\n          ^\n  Source: p.tb\n"
    );
    let far = InterpreterError::Initialization(InitError::InvalidCharacter('x', Coordinate::new(-1, 1)));
    assert!(!can_report(&far, content));

    let grid = GridParser::new().parse_string("@\n|\n!").unwrap();
    assert_eq!(
        validation_success_report(&grid, "p.tb"),
        "[OK] Program validation passed: p.tb\n  Grid size: 1x3\n  Program cells: 3\n  Start position: (0, 0)\n"
    );
    assert!(GridParser::can_parse("@\n!"));
}

#[test]
fn error_info_text_names_type_then_message() {
    let info = ErrorInfo::new("bad symbol".to_string(), ErrorType::Syntax);
    assert_eq!(info.to_text(), "Syntax Error: bad symbol");
}

#[test]
fn error_rendering_matches_derived_debug() {
    let plain = vec![
        InterpreterError::Execution(ExecError::StackUnderflow),
        InterpreterError::Execution(ExecError::InternalError("quote \" and 'tick'\n".to_string())),
        InterpreterError::Execution(ExecError::InvalidOperation('\'')),
        InterpreterError::Initialization(InitError::InvalidCharacter('é', Coordinate::new(-3, 4))),
        InterpreterError::System(tubular::types::error::SystemError::IoError("closed".to_string())),
    ];
    for e in &plain {
        assert_eq!(error_debug_text(e), format!("{:?}", e));
    }
    let context = ErrorContext::new(Position::new(2, 5, Coordinate::new(5, 2)), "ab\tc".to_string())
        .with_surrounding_lines(vec![(1, "x".to_string()), (3, "y\"".to_string())]);
    let enhanced = InterpreterError::enhanced("bad".to_string(), ErrorType::Syntax)
        .with_context(context)
        .with_suggestions(vec!["one".to_string(), "two".to_string()])
        .with_help("help".to_string());
    let nested = InterpreterError::Enhanced {
        info: ErrorInfo::new("outer".to_string(), ErrorType::Runtime),
        source: Some(Box::new(enhanced.clone())),
    };
    assert_eq!(error_debug_text(&enhanced), format!("{:?}", enhanced));
    assert_eq!(error_debug_text(&nested), format!("{:?}", nested));
}

#[test]
fn errors_convert_into_interpreter_errors() {
    let e: InterpreterError = ExecError::DivisionByZero.into();
    assert!(matches!(e, InterpreterError::Execution(ExecError::DivisionByZero)));
    let s: InterpreterError = tubular::types::error::SystemError::OutOfMemory.into();
    assert!(matches!(s, InterpreterError::System(tubular::types::error::SystemError::OutOfMemory)));
}
