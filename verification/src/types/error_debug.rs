//! The `Debug` rendering of the interpreter's errors, as `derive` writes it.
use vstd::prelude::*;
use crate::text::{dec_int, push_int, push_str};
use crate::types::coordinate::Coordinate;
use crate::types::error::{
    ErrorContext, ErrorInfo, ErrorSeverity, ErrorType, ExecError, InitError, InterpreterError, Position, SystemError,
};

verus! {

/// What `Debug` writes for a string: the quoted and escaped text.
pub uninterp spec fn str_debug_of(s: Seq<char>) -> Seq<char>;

/// What `Debug` writes for a character: the quoted and escaped character.
pub uninterp spec fn char_debug_of(c: char) -> Seq<char>;

/// `<str as Debug>::fmt`, through `format!("{:?}")`: the string quoted, with
/// the characters escaped that `Debug` escapes. The escaping is left to the
/// name `str_debug_of`; nothing is said of it here.
#[verifier::external_body]
fn str_debug(s: &str) -> (r: String)
    ensures
        r@ == str_debug_of(s@),
{
    format!("{:?}", s)
}

/// `<char as Debug>::fmt`, through `format!("{:?}")`: the character in single
/// quotes, escaped as `Debug` escapes it; the escaping is left to the name
/// `char_debug_of`.
#[verifier::external_body]
fn char_debug(c: char) -> (r: String)
    ensures
        r@ == char_debug_of(c),
{
    format!("{:?}", c)
}

/// Appends what `Debug` writes for `s`.
fn push_str_debug(out: &mut String, s: &str)
    ensures
        final(out)@ == old(out)@ + str_debug_of(s@),
{
    let d = str_debug(s);
    push_str(out, d.as_str());
}

/// Appends what `Debug` writes for `c`.
fn push_char_debug(out: &mut String, c: char)
    ensures
        final(out)@ == old(out)@ + char_debug_of(c),
{
    let d = char_debug(c);
    push_str(out, d.as_str());
}

/// Items written as a `Debug` list body: separated by `, `.
pub open spec fn joined(items: Seq<Seq<char>>) -> Seq<char>
    decreases items.len(),
{
    if items.len() == 0 {
        Seq::empty()
    } else if items.len() == 1 {
        items[0]
    } else {
        joined(items.drop_last()) + ", "@ + items.last()
    }
}

pub open spec fn coordinate_debug(c: Coordinate) -> Seq<char> {
    "Coordinate { x: "@ + dec_int(c.x as int) + ", y: "@ + dec_int(c.y as int) + " }"@
}

pub open spec fn position_debug(p: Position) -> Seq<char> {
    "Position { line: "@ + dec_int(p.line as int) + ", column: "@ + dec_int(p.column as int) + ", coordinate: "@
        + coordinate_debug(p.coordinate) + " }"@
}

/// A numbered line, as `Debug` writes a `(usize, String)` pair.
pub open spec fn line_debug(l: (usize, String)) -> Seq<char> {
    "("@ + dec_int(l.0 as int) + ", "@ + str_debug_of(l.1@) + ")"@
}

pub open spec fn context_debug(c: ErrorContext) -> Seq<char> {
    "ErrorContext { position: "@ + position_debug(c.position) + ", source_line: "@ + str_debug_of(c.source_line@)
        + ", surrounding_lines: ["@ + joined(c.surrounding_lines@.map_values(|l: (usize, String)| line_debug(l)))
        + "], error_span: ("@ + dec_int(c.error_span.0 as int) + ", "@ + dec_int(c.error_span.1 as int) + ") }"@
}

pub open spec fn error_type_debug(t: ErrorType) -> Seq<char> {
    match t {
        ErrorType::Syntax => "Syntax"@,
        ErrorType::Validation => "Validation"@,
        ErrorType::Initialization => "Initialization"@,
        ErrorType::Execution => "Execution"@,
        ErrorType::Runtime => "Runtime"@,
        ErrorType::System => "System"@,
        ErrorType::Semantic => "Semantic"@,
    }
}

pub open spec fn severity_debug(s: ErrorSeverity) -> Seq<char> {
    match s {
        ErrorSeverity::Error => "Error"@,
        ErrorSeverity::Warning => "Warning"@,
        ErrorSeverity::Info => "Info"@,
        ErrorSeverity::Hint => "Hint"@,
    }
}

/// The first fields of an error info as `Debug` writes them: message, type and context.
pub open spec fn info_head_debug(i: ErrorInfo) -> Seq<char> {
    "ErrorInfo { message: "@ + str_debug_of(i.message@) + ", error_type: "@ + error_type_debug(i.error_type)
        + ", context: "@ + opt_context_debug(i.context)
}

/// The last fields of an error info as `Debug` writes them: suggestions, help and severity.
pub open spec fn info_tail_debug(i: ErrorInfo) -> Seq<char> {
    ", suggestions: ["@ + joined(i.suggestions@.map_values(|s: String| str_debug_of(s@))) + "], help_text: "@
        + opt_str_debug(i.help_text) + ", severity: "@ + severity_debug(i.severity) + " }"@
}

pub open spec fn info_debug(i: ErrorInfo) -> Seq<char> {
    info_head_debug(i) + info_tail_debug(i)
}

pub open spec fn init_error_debug(e: InitError) -> Seq<char> {
    match e {
        InitError::NoStartSymbol => "NoStartSymbol"@,
        InitError::MultipleStartSymbols => "MultipleStartSymbols"@,
        InitError::InvalidCharacter(c, p) => "InvalidCharacter("@ + char_debug_of(c) + ", "@ + coordinate_debug(p) + ")"@,
        InitError::GridSizeExceeded(w, h) => "GridSizeExceeded("@ + dec_int(w as int) + ", "@ + dec_int(h as int)
            + ")"@,
    }
}

pub open spec fn exec_error_debug(e: ExecError) -> Seq<char> {
    match e {
        ExecError::StackUnderflow => "StackUnderflow"@,
        ExecError::DivisionByZero => "DivisionByZero"@,
        ExecError::ModuloByZero => "ModuloByZero"@,
        ExecError::InvalidMemoryAccess(p) => "InvalidMemoryAccess("@ + coordinate_debug(p) + ")"@,
        ExecError::SubroutineUnderflow => "SubroutineUnderflow"@,
        ExecError::DropletCollision(p) => "DropletCollision("@ + coordinate_debug(p) + ")"@,
        ExecError::ExecutionTimeout(n) => "ExecutionTimeout("@ + dec_int(n as int) + ")"@,
        ExecError::WallClockTimeout(n) => "WallClockTimeout("@ + dec_int(n as int) + ")"@,
        ExecError::SoftTickLimitWarning(n) => "SoftTickLimitWarning("@ + dec_int(n as int) + ")"@,
        ExecError::SoftTimeLimitWarning(n) => "SoftTimeLimitWarning("@ + dec_int(n as int) + ")"@,
        ExecError::InternalError(m) => "InternalError("@ + str_debug_of(m@) + ")"@,
        ExecError::InvalidOperation(c) => "InvalidOperation("@ + char_debug_of(c) + ")"@,
    }
}

pub open spec fn system_error_debug(e: SystemError) -> Seq<char> {
    match e {
        SystemError::OutOfMemory => "OutOfMemory"@,
        SystemError::IoError(m) => "IoError("@ + str_debug_of(m@) + ")"@,
        SystemError::InternalError(m) => "InternalError("@ + str_debug_of(m@) + ")"@,
    }
}

/// What `Debug` writes for an interpreter error.
pub open spec fn error_debug(e: InterpreterError) -> Seq<char>
    decreases e,
{
    match e {
        InterpreterError::Initialization(i) => "Initialization("@ + init_error_debug(i) + ")"@,
        InterpreterError::Execution(x) => "Execution("@ + exec_error_debug(x) + ")"@,
        InterpreterError::System(s) => "System("@ + system_error_debug(s) + ")"@,
        InterpreterError::Enhanced { info, source } => "Enhanced { info: "@ + info_debug(info) + ", source: "@
            + match source {
            Some(b) => "Some("@ + error_debug(*b) + ")"@,
            None => "None"@,
        } + " }"@,
    }
}

fn push_coordinate(out: &mut String, c: Coordinate)
    ensures
        final(out)@ == old(out)@ + coordinate_debug(c),
{
    push_str(out, "Coordinate { x: ");
    push_int(out, c.x as i128);
    push_str(out, ", y: ");
    push_int(out, c.y as i128);
    push_str(out, " }");
    assert(final(out)@ =~= old(out)@ + coordinate_debug(c));
}

fn push_usize(out: &mut String, n: usize)
    ensures
        final(out)@ == old(out)@ + dec_int(n as int),
{
    push_int(out, n as i128);
}

fn push_position(out: &mut String, p: &Position)
    ensures
        final(out)@ == old(out)@ + position_debug(*p),
{
    push_str(out, "Position { line: ");
    push_usize(out, p.line);
    push_str(out, ", column: ");
    push_usize(out, p.column);
    push_str(out, ", coordinate: ");
    push_coordinate(out, p.coordinate);
    push_str(out, " }");
    assert(final(out)@ =~= old(out)@ + position_debug(*p));
}

fn push_lines(out: &mut String, lines: &Vec<(usize, String)>)
    ensures
        final(out)@ == old(out)@ + joined(lines@.map_values(|l: (usize, String)| line_debug(l))),
{
    let ghost items = lines@.map_values(|l: (usize, String)| line_debug(l));
    let mut i: usize = 0;
    while i < lines.len()
        invariant
            i <= lines@.len(),
            items == lines@.map_values(|l: (usize, String)| line_debug(l)),
            out@ == old(out)@ + joined(items.take(i as int)),
        decreases lines@.len() - i,
    {
        if i > 0 {
            push_str(out, ", ");
        }
        push_str(out, "(");
        push_usize(out, lines[i].0);
        push_str(out, ", ");
        push_str_debug(out, lines[i].1.as_str());
        push_str(out, ")");
        proof {
            let s = items.take(i + 1);
            assert(s.drop_last() =~= items.take(i as int));
            assert(s.last() == line_debug(lines@[i as int]));
            assert(out@ =~= old(out)@ + joined(s));
        }
        i = i + 1;
    }
    assert(items.take(lines@.len() as int) =~= items);
}

fn push_strings(out: &mut String, v: &Vec<String>)
    ensures
        final(out)@ == old(out)@ + joined(v@.map_values(|s: String| str_debug_of(s@))),
{
    let ghost items = v@.map_values(|s: String| str_debug_of(s@));
    let mut i: usize = 0;
    while i < v.len()
        invariant
            i <= v@.len(),
            items == v@.map_values(|s: String| str_debug_of(s@)),
            out@ == old(out)@ + joined(items.take(i as int)),
        decreases v@.len() - i,
    {
        if i > 0 {
            push_str(out, ", ");
        }
        push_str_debug(out, v[i].as_str());
        proof {
            let s = items.take(i + 1);
            assert(s.drop_last() =~= items.take(i as int));
            assert(out@ =~= old(out)@ + joined(s));
        }
        i = i + 1;
    }
    assert(items.take(v@.len() as int) =~= items);
}

fn push_context(out: &mut String, c: &ErrorContext)
    ensures
        final(out)@ == old(out)@ + context_debug(*c),
{
    push_str(out, "ErrorContext { position: ");
    push_position(out, &c.position);
    push_str(out, ", source_line: ");
    push_str_debug(out, c.source_line.as_str());
    push_str(out, ", surrounding_lines: [");
    push_lines(out, &c.surrounding_lines);
    push_str(out, "], error_span: (");
    push_usize(out, c.error_span.0);
    push_str(out, ", ");
    push_usize(out, c.error_span.1);
    push_str(out, ") }");
    assert(final(out)@ =~= old(out)@ + context_debug(*c));
}

fn push_error_type(out: &mut String, t: ErrorType)
    ensures
        final(out)@ == old(out)@ + error_type_debug(t),
{
    match t {
        ErrorType::Syntax => push_str(out, "Syntax"),
        ErrorType::Validation => push_str(out, "Validation"),
        ErrorType::Initialization => push_str(out, "Initialization"),
        ErrorType::Execution => push_str(out, "Execution"),
        ErrorType::Runtime => push_str(out, "Runtime"),
        ErrorType::System => push_str(out, "System"),
        ErrorType::Semantic => push_str(out, "Semantic"),
    }
}

fn push_severity(out: &mut String, s: ErrorSeverity)
    ensures
        final(out)@ == old(out)@ + severity_debug(s),
{
    match s {
        ErrorSeverity::Error => push_str(out, "Error"),
        ErrorSeverity::Warning => push_str(out, "Warning"),
        ErrorSeverity::Info => push_str(out, "Info"),
        ErrorSeverity::Hint => push_str(out, "Hint"),
    }
}

/// What `Debug` writes for an optional context.
pub open spec fn opt_context_debug(c: Option<ErrorContext>) -> Seq<char> {
    match c {
        Some(c) => "Some("@ + context_debug(c) + ")"@,
        None => "None"@,
    }
}

/// What `Debug` writes for an optional string.
pub open spec fn opt_str_debug(h: Option<String>) -> Seq<char> {
    match h {
        Some(h) => "Some("@ + str_debug_of(h@) + ")"@,
        None => "None"@,
    }
}

fn push_opt_context(out: &mut String, c: &Option<ErrorContext>)
    ensures
        final(out)@ == old(out)@ + opt_context_debug(*c),
{
    match c {
        Some(c) => {
            push_str(out, "Some(");
            push_context(out, c);
            push_str(out, ")");
        },
        None => push_str(out, "None"),
    }
    assert(final(out)@ =~= old(out)@ + opt_context_debug(*c));
}

fn push_opt_str(out: &mut String, h: &Option<String>)
    ensures
        final(out)@ == old(out)@ + opt_str_debug(*h),
{
    match h {
        Some(h) => {
            push_str(out, "Some(");
            push_str_debug(out, h.as_str());
            push_str(out, ")");
        },
        None => push_str(out, "None"),
    }
    assert(final(out)@ =~= old(out)@ + opt_str_debug(*h));
}

fn push_info_head(out: &mut String, i: &ErrorInfo)
    ensures
        final(out)@ == old(out)@ + info_head_debug(*i),
{
    push_str(out, "ErrorInfo { message: ");
    push_str_debug(out, i.message.as_str());
    push_str(out, ", error_type: ");
    push_error_type(out, i.error_type);
    push_str(out, ", context: ");
    push_opt_context(out, &i.context);
    assert(final(out)@ =~= old(out)@ + info_head_debug(*i));
}

fn push_info_tail(out: &mut String, i: &ErrorInfo)
    ensures
        final(out)@ == old(out)@ + info_tail_debug(*i),
{
    push_str(out, ", suggestions: [");
    push_strings(out, &i.suggestions);
    push_str(out, "], help_text: ");
    push_opt_str(out, &i.help_text);
    push_str(out, ", severity: ");
    push_severity(out, i.severity);
    push_str(out, " }");
    assert(final(out)@ =~= old(out)@ + info_tail_debug(*i));
}

fn push_info(out: &mut String, i: &ErrorInfo)
    ensures
        final(out)@ == old(out)@ + info_debug(*i),
{
    push_info_head(out, i);
    push_info_tail(out, i);
    assert(final(out)@ =~= old(out)@ + info_debug(*i));
}

fn push_init_error(out: &mut String, e: InitError)
    ensures
        final(out)@ == old(out)@ + init_error_debug(e),
{
    match e {
        InitError::NoStartSymbol => push_str(out, "NoStartSymbol"),
        InitError::MultipleStartSymbols => push_str(out, "MultipleStartSymbols"),
        InitError::InvalidCharacter(c, p) => {
            push_str(out, "InvalidCharacter(");
            push_char_debug(out, c);
            push_str(out, ", ");
            push_coordinate(out, p);
            push_str(out, ")");
        },
        InitError::GridSizeExceeded(w, h) => {
            push_str(out, "GridSizeExceeded(");
            push_usize(out, w);
            push_str(out, ", ");
            push_usize(out, h);
            push_str(out, ")");
        },
    }
    assert(final(out)@ =~= old(out)@ + init_error_debug(e));
}

fn push_exec_error(out: &mut String, e: &ExecError)
    ensures
        final(out)@ == old(out)@ + exec_error_debug(*e),
{
    match e {
        ExecError::StackUnderflow => push_str(out, "StackUnderflow"),
        ExecError::DivisionByZero => push_str(out, "DivisionByZero"),
        ExecError::ModuloByZero => push_str(out, "ModuloByZero"),
        ExecError::InvalidMemoryAccess(p) => {
            push_str(out, "InvalidMemoryAccess(");
            push_coordinate(out, *p);
            push_str(out, ")");
        },
        ExecError::SubroutineUnderflow => push_str(out, "SubroutineUnderflow"),
        ExecError::DropletCollision(p) => {
            push_str(out, "DropletCollision(");
            push_coordinate(out, *p);
            push_str(out, ")");
        },
        ExecError::ExecutionTimeout(n) => {
            push_str(out, "ExecutionTimeout(");
            push_int(out, *n as i128);
            push_str(out, ")");
        },
        ExecError::WallClockTimeout(n) => {
            push_str(out, "WallClockTimeout(");
            push_int(out, *n as i128);
            push_str(out, ")");
        },
        ExecError::SoftTickLimitWarning(n) => {
            push_str(out, "SoftTickLimitWarning(");
            push_int(out, *n as i128);
            push_str(out, ")");
        },
        ExecError::SoftTimeLimitWarning(n) => {
            push_str(out, "SoftTimeLimitWarning(");
            push_int(out, *n as i128);
            push_str(out, ")");
        },
        ExecError::InternalError(m) => {
            push_str(out, "InternalError(");
            push_str_debug(out, m.as_str());
            push_str(out, ")");
        },
        ExecError::InvalidOperation(c) => {
            push_str(out, "InvalidOperation(");
            push_char_debug(out, *c);
            push_str(out, ")");
        },
    }
    assert(final(out)@ =~= old(out)@ + exec_error_debug(*e));
}

fn push_system_error(out: &mut String, e: &SystemError)
    ensures
        final(out)@ == old(out)@ + system_error_debug(*e),
{
    match e {
        SystemError::OutOfMemory => push_str(out, "OutOfMemory"),
        SystemError::IoError(m) => {
            push_str(out, "IoError(");
            push_str_debug(out, m.as_str());
            push_str(out, ")");
        },
        SystemError::InternalError(m) => {
            push_str(out, "InternalError(");
            push_str_debug(out, m.as_str());
            push_str(out, ")");
        },
    }
    assert(final(out)@ =~= old(out)@ + system_error_debug(*e));
}

/// Appends what `Debug` writes for `e`.
pub fn push_error_debug(out: &mut String, e: &InterpreterError)
    ensures
        final(out)@ == old(out)@ + error_debug(*e),
    decreases e,
{
    match e {
        InterpreterError::Initialization(i) => {
            push_str(out, "Initialization(");
            push_init_error(out, *i);
            push_str(out, ")");
        },
        InterpreterError::Execution(x) => {
            push_str(out, "Execution(");
            push_exec_error(out, x);
            push_str(out, ")");
        },
        InterpreterError::System(s) => {
            push_str(out, "System(");
            push_system_error(out, s);
            push_str(out, ")");
        },
        InterpreterError::Enhanced { info, source } => {
            push_str(out, "Enhanced { info: ");
            push_info(out, info);
            push_str(out, ", source: ");
            match source {
                Some(b) => {
                    push_str(out, "Some(");
                    push_error_debug(out, &**b);
                    push_str(out, ")");
                },
                None => push_str(out, "None"),
            }
            push_str(out, " }");
        },
    }
    assert(final(out)@ =~= old(out)@ + error_debug(*e));
}

/// What `Debug` writes for `e`, as a new string.
pub fn error_debug_text(e: &InterpreterError) -> (r: String)
    ensures
        r@ == error_debug(*e),
{
    let mut s = String::new();
    push_error_debug(&mut s, e);
    assert(s@ =~= error_debug(*e));
    s
}

} // verus!
