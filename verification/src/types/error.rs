//! Error values of the interpreter, with their messages.
use vstd::prelude::*;
use crate::types::coordinate::{Coordinate, coordinate_text};
use crate::text::{dec_nat, push_str, push_char, push_nat};

verus! {

/// Position information for error context.
#[derive(Debug, Clone, Copy, PartialEq)]
pub struct Position {
    pub line: usize,
    pub column: usize,
    pub coordinate: Coordinate,
}

impl Position {
    pub fn new(line: usize, column: usize, coordinate: Coordinate) -> (r: Self)
        ensures
            r.line == line,
            r.column == column,
            r.coordinate == coordinate,
    {
        Position { line, column, coordinate }
    }
}

/// Context information for errors: the source line, its neighbours and the marked span.
#[derive(Debug, PartialEq)]
pub struct ErrorContext {
    pub position: Position,
    pub source_line: String,
    pub surrounding_lines: Vec<(usize, String)>,
    /// Start and end column of the marked span.
    pub error_span: (usize, usize),
}

/// Whether two contexts hold the same position, lines and span.
pub open spec fn same_context(a: ErrorContext, b: ErrorContext) -> bool {
    &&& a.position == b.position
    &&& a.source_line == b.source_line
    &&& a.surrounding_lines@ == b.surrounding_lines@
    &&& a.error_span == b.error_span
}

/// Whether two error infos hold the same message, type, context, suggestions, help and severity.
pub open spec fn same_info(a: ErrorInfo, b: ErrorInfo) -> bool {
    &&& a.message == b.message
    &&& a.error_type == b.error_type
    &&& match (a.context, b.context) {
        (Some(x), Some(y)) => same_context(x, y),
        (None, None) => true,
        _ => false,
    }
    &&& a.suggestions@ == b.suggestions@
    &&& a.help_text == b.help_text
    &&& a.severity == b.severity
}

impl Clone for ErrorContext {
    fn clone(&self) -> (r: Self)
        ensures
            same_context(r, *self),
    {
        let mut lines: Vec<(usize, String)> = Vec::new();
        let mut i: usize = 0;
        while i < self.surrounding_lines.len()
            invariant
                i <= self.surrounding_lines@.len(),
                lines@ =~= self.surrounding_lines@.take(i as int),
            decreases self.surrounding_lines@.len() - i,
        {
            let line = &self.surrounding_lines[i];
            lines.push((line.0, line.1.clone()));
            i = i + 1;
        }
        assert(lines@ =~= self.surrounding_lines@);
        ErrorContext {
            position: self.position.clone(),
            source_line: self.source_line.clone(),
            surrounding_lines: lines,
            error_span: self.error_span,
        }
    }
}

impl ErrorContext {
    /// A context whose span is the single column of `position`, with no surrounding lines.
    pub fn new(position: Position, source_line: String) -> (r: Self)
        requires
            position.column < usize::MAX,
        ensures
            r.position == position,
            r.source_line@ == source_line@,
            r.surrounding_lines@.len() == 0,
            r.error_span == (position.column, (position.column + 1) as usize),
    {
        let column = position.column;
        ErrorContext {
            position,
            source_line,
            surrounding_lines: Vec::new(),
            error_span: (column, column + 1),
        }
    }

    pub fn with_surrounding_lines(self, lines: Vec<(usize, String)>) -> (r: Self)
        ensures
            r.position == self.position,
            r.source_line == self.source_line,
            r.surrounding_lines == lines,
            r.error_span == self.error_span,
    {
        ErrorContext { surrounding_lines: lines, ..self }
    }

    pub fn with_span(self, start: usize, end: usize) -> (r: Self)
        ensures
            r.position == self.position,
            r.source_line == self.source_line,
            r.surrounding_lines == self.surrounding_lines,
            r.error_span == (start, end),
    {
        ErrorContext { error_span: (start, end), ..self }
    }
}

/// Categories of errors.
#[derive(Debug, Clone, Copy, PartialEq, Eq, Structural)]
pub enum ErrorType {
    Syntax,
    Validation,
    Initialization,
    Execution,
    Runtime,
    System,
    Semantic,
}

/// How an error type is named in messages.
pub open spec fn error_type_text(t: ErrorType) -> Seq<char> {
    match t {
        ErrorType::Syntax => "Syntax Error"@,
        ErrorType::Validation => "Validation Error"@,
        ErrorType::Initialization => "Initialization Error"@,
        ErrorType::Execution => "Execution Error"@,
        ErrorType::Runtime => "Runtime Error"@,
        ErrorType::System => "System Error"@,
        ErrorType::Semantic => "Semantic Error"@,
    }
}

impl ErrorType {
    /// Appends the name of the error type to `s`.
    pub fn write_to(&self, s: &mut String)
        ensures
            final(s)@ == old(s)@ + error_type_text(*self),
    {
        match self {
            ErrorType::Syntax => push_str(s, "Syntax Error"),
            ErrorType::Validation => push_str(s, "Validation Error"),
            ErrorType::Initialization => push_str(s, "Initialization Error"),
            ErrorType::Execution => push_str(s, "Execution Error"),
            ErrorType::Runtime => push_str(s, "Runtime Error"),
            ErrorType::System => push_str(s, "System Error"),
            ErrorType::Semantic => push_str(s, "Semantic Error"),
        }
    }
}

/// Error severity levels.
#[derive(Debug, Clone, Copy, PartialEq, Eq, Structural)]
pub enum ErrorSeverity {
    Error,
    Warning,
    Info,
    Hint,
}

/// An error message with its type, context, suggestions, help and severity.
#[derive(Debug, PartialEq)]
pub struct ErrorInfo {
    pub message: String,
    pub error_type: ErrorType,
    pub context: Option<ErrorContext>,
    pub suggestions: Vec<String>,
    pub help_text: Option<String>,
    pub severity: ErrorSeverity,
}

/// A copy of a list of strings.
pub fn clone_strings(v: &Vec<String>) -> (r: Vec<String>)
    ensures
        r@ == v@,
{
    let mut out: Vec<String> = Vec::new();
    let mut i: usize = 0;
    while i < v.len()
        invariant
            i <= v@.len(),
            out@ =~= v@.take(i as int),
        decreases v@.len() - i,
    {
        out.push(v[i].clone());
        i = i + 1;
    }
    assert(out@ =~= v@);
    out
}

impl Clone for ErrorInfo {
    fn clone(&self) -> (r: Self)
        ensures
            same_info(r, *self),
    {
        let context = match &self.context {
            Some(c) => Some(c.clone()),
            None => None,
        };
        let help_text = match &self.help_text {
            Some(h) => Some(h.clone()),
            None => None,
        };
        let suggestions = clone_strings(&self.suggestions);
        ErrorInfo {
            message: self.message.clone(),
            error_type: self.error_type,
            context,
            suggestions,
            help_text,
            severity: self.severity,
        }
    }
}

impl ErrorInfo {
    /// An error-severity message with no context, suggestions or help.
    pub fn new(message: String, error_type: ErrorType) -> (r: Self)
        ensures
            r.message == message,
            r.error_type == error_type,
            r.context is None,
            r.suggestions@.len() == 0,
            r.help_text is None,
            r.severity == ErrorSeverity::Error,
    {
        ErrorInfo {
            message,
            error_type,
            context: None,
            suggestions: Vec::new(),
            help_text: None,
            severity: ErrorSeverity::Error,
        }
    }

    pub fn with_context(self, context: ErrorContext) -> (r: Self)
        ensures
            r == (ErrorInfo { context: Some(context), ..self }),
    {
        ErrorInfo { context: Some(context), ..self }
    }

    pub fn with_suggestions(self, suggestions: Vec<String>) -> (r: Self)
        ensures
            r == (ErrorInfo { suggestions, ..self }),
    {
        ErrorInfo { suggestions, ..self }
    }

    pub fn with_help(self, help: String) -> (r: Self)
        ensures
            r == (ErrorInfo { help_text: Some(help), ..self }),
    {
        ErrorInfo { help_text: Some(help), ..self }
    }

    pub fn with_severity(self, severity: ErrorSeverity) -> (r: Self)
        ensures
            r == (ErrorInfo { severity, ..self }),
    {
        ErrorInfo { severity, ..self }
    }

    /// `<error type>: <message>`.
    pub fn to_text(&self) -> (r: String)
        ensures
            r@ == error_type_text(self.error_type) + ": "@ + self.message@,
    {
        let mut s = String::new();
        self.error_type.write_to(&mut s);
        push_str(&mut s, ": ");
        push_str(&mut s, self.message.as_str());
        s
    }
}

/// Errors found while building a program grid.
#[derive(Debug, Clone, Copy, PartialEq)]
pub enum InitError {
    NoStartSymbol,
    MultipleStartSymbols,
    InvalidCharacter(char, Coordinate),
    GridSizeExceeded(usize, usize),
}

/// Errors raised while running a program.
#[derive(Debug, PartialEq)]
pub enum ExecError {
    StackUnderflow,
    DivisionByZero,
    ModuloByZero,
    InvalidMemoryAccess(Coordinate),
    SubroutineUnderflow,
    DropletCollision(Coordinate),
    ExecutionTimeout(u64),
    WallClockTimeout(u64),
    SoftTickLimitWarning(u64),
    SoftTimeLimitWarning(u64),
    InternalError(String),
    InvalidOperation(char),
}

/// Errors of the surrounding system.
#[derive(Debug, PartialEq)]
pub enum SystemError {
    OutOfMemory,
    IoError(String),
    InternalError(String),
}

/// Any error of the interpreter.
#[derive(Debug, PartialEq)]
pub enum InterpreterError {
    Initialization(InitError),
    Execution(ExecError),
    System(SystemError),
    /// An error with context and suggestions.
    Enhanced { info: ErrorInfo, source: Option<Box<InterpreterError>> },
}

/// The message of an initialization error.
pub open spec fn init_error_text(e: InitError) -> Seq<char> {
    match e {
        InitError::NoStartSymbol => "No start symbol (@) found in program"@,
        InitError::MultipleStartSymbols => "Multiple start symbols (@) found in program"@,
        InitError::InvalidCharacter(c, p) => "Invalid character '"@ + seq![c] + "' at position "@
            + coordinate_text(p),
        InitError::GridSizeExceeded(w, h) => "Grid size "@ + dec_nat(w as nat) + "x"@ + dec_nat(
            h as nat,
        ) + " exceeds maximum supported size of 1000x1000"@,
    }
}

/// The message of an execution error.
pub open spec fn exec_error_text(e: ExecError) -> Seq<char> {
    match e {
        ExecError::StackUnderflow => "Stack underflow: attempted to pop from empty stack"@,
        ExecError::DivisionByZero => "Division by zero"@,
        ExecError::ModuloByZero => "Modulo by zero"@,
        ExecError::InvalidMemoryAccess(p) => "Invalid memory access at "@ + coordinate_text(p),
        ExecError::SubroutineUnderflow => "Subroutine underflow: attempted to return with empty call stack"@,
        ExecError::DropletCollision(p) => "Droplet collision at "@ + coordinate_text(p),
        ExecError::ExecutionTimeout(n) => "Execution timeout: exceeded maximum tick limit of "@
            + dec_nat(n as nat),
        ExecError::WallClockTimeout(n) => "Wall-clock timeout: exceeded maximum execution time of "@
            + dec_nat(n as nat) + "ms"@,
        ExecError::SoftTickLimitWarning(n) => "Soft tick limit warning: approaching maximum tick limit of "@
            + dec_nat(n as nat),
        ExecError::SoftTimeLimitWarning(n) => "Soft time limit warning: approaching maximum execution time of "@
            + dec_nat(n as nat) + "ms"@,
        ExecError::InternalError(m) => "Internal error: "@ + m@,
        ExecError::InvalidOperation(c) => "Invalid operation '"@ + seq![c] + "'"@,
    }
}

/// The message of a system error.
pub open spec fn system_error_text(e: SystemError) -> Seq<char> {
    match e {
        SystemError::OutOfMemory => "Out of memory"@,
        SystemError::IoError(m) => "I/O error: "@ + m@,
        SystemError::InternalError(m) => "Internal error: "@ + m@,
    }
}

/// The message of an interpreter error.
pub open spec fn interpreter_error_text(e: InterpreterError) -> Seq<char> {
    match e {
        InterpreterError::Initialization(i) => "Initialization error: "@ + init_error_text(i),
        InterpreterError::Execution(x) => "Execution error: "@ + exec_error_text(x),
        InterpreterError::System(s) => "System error: "@ + system_error_text(s),
        InterpreterError::Enhanced { info, .. } => error_type_text(info.error_type) + ": "@
            + info.message@,
    }
}

impl Clone for ExecError {
    fn clone(&self) -> (r: Self)
        ensures
            r == *self,
    {
        match self {
            ExecError::StackUnderflow => ExecError::StackUnderflow,
            ExecError::DivisionByZero => ExecError::DivisionByZero,
            ExecError::ModuloByZero => ExecError::ModuloByZero,
            ExecError::InvalidMemoryAccess(p) => ExecError::InvalidMemoryAccess(*p),
            ExecError::SubroutineUnderflow => ExecError::SubroutineUnderflow,
            ExecError::DropletCollision(p) => ExecError::DropletCollision(*p),
            ExecError::ExecutionTimeout(n) => ExecError::ExecutionTimeout(*n),
            ExecError::WallClockTimeout(n) => ExecError::WallClockTimeout(*n),
            ExecError::SoftTickLimitWarning(n) => ExecError::SoftTickLimitWarning(*n),
            ExecError::SoftTimeLimitWarning(n) => ExecError::SoftTimeLimitWarning(*n),
            ExecError::InternalError(m) => ExecError::InternalError(m.clone()),
            ExecError::InvalidOperation(c) => ExecError::InvalidOperation(*c),
        }
    }
}

impl Clone for SystemError {
    fn clone(&self) -> (r: Self)
        ensures
            r == *self,
    {
        match self {
            SystemError::OutOfMemory => SystemError::OutOfMemory,
            SystemError::IoError(m) => SystemError::IoError(m.clone()),
            SystemError::InternalError(m) => SystemError::InternalError(m.clone()),
        }
    }
}

/// Whether two errors are the same, with enhanced errors compared by `same_info`.
pub open spec fn same_error(a: InterpreterError, b: InterpreterError) -> bool
    decreases a,
{
    match a {
        InterpreterError::Initialization(x) => b == InterpreterError::Initialization(x),
        InterpreterError::Execution(x) => b == InterpreterError::Execution(x),
        InterpreterError::System(x) => b == InterpreterError::System(x),
        InterpreterError::Enhanced { info, source } => match b {
            InterpreterError::Enhanced { info: info2, source: source2 } => {
                &&& same_info(info, info2)
                &&& match (source, source2) {
                    (None, None) => true,
                    (Some(x), Some(y)) => same_error(*x, *y),
                    _ => false,
                }
            },
            _ => false,
        },
    }
}

/// A copy of an error.
pub fn clone_error(e: &InterpreterError) -> (r: InterpreterError)
    ensures
        same_error(*e, r),
    decreases e,
{
    match e {
        InterpreterError::Initialization(x) => InterpreterError::Initialization(*x),
        InterpreterError::Execution(x) => InterpreterError::Execution(x.clone()),
        InterpreterError::System(x) => InterpreterError::System(x.clone()),
        InterpreterError::Enhanced { info, source } => {
            let source2 = match source {
                Some(b) => Some(Box::new(clone_error(&**b))),
                None => None,
            };
            InterpreterError::Enhanced { info: info.clone(), source: source2 }
        },
    }
}

impl Clone for InterpreterError {
    fn clone(&self) -> (r: Self)
        ensures
            same_error(*self, r),
    {
        clone_error(self)
    }
}

impl InitError {
    /// Appends the message of this error to `s`.
    pub fn write_to(&self, s: &mut String)
        ensures
            final(s)@ == old(s)@ + init_error_text(*self),
    {
        match self {
            InitError::NoStartSymbol => push_str(s, "No start symbol (@) found in program"),
            InitError::MultipleStartSymbols => push_str(s, "Multiple start symbols (@) found in program"),
            InitError::InvalidCharacter(c, p) => {
                push_str(s, "Invalid character '");
                push_char(s, *c);
                push_str(s, "' at position ");
                p.write_to(s);
                assert(final(s)@ =~= old(s)@ + init_error_text(*self));
            },
            InitError::GridSizeExceeded(w, h) => {
                push_str(s, "Grid size ");
                push_nat(s, *w as u128);
                push_str(s, "x");
                push_nat(s, *h as u128);
                push_str(s, " exceeds maximum supported size of 1000x1000");
                assert(final(s)@ =~= old(s)@ + init_error_text(*self));
            },
        }
    }
}

impl ExecError {
    /// Appends the message of this error to `s`.
    pub fn write_to(&self, s: &mut String)
        ensures
            final(s)@ == old(s)@ + exec_error_text(*self),
    {
        match self {
            ExecError::StackUnderflow => push_str(s, "Stack underflow: attempted to pop from empty stack"),
            ExecError::DivisionByZero => push_str(s, "Division by zero"),
            ExecError::ModuloByZero => push_str(s, "Modulo by zero"),
            ExecError::InvalidMemoryAccess(p) => {
                push_str(s, "Invalid memory access at ");
                p.write_to(s);
                assert(final(s)@ =~= old(s)@ + exec_error_text(*self));
            },
            ExecError::SubroutineUnderflow => push_str(
                s,
                "Subroutine underflow: attempted to return with empty call stack",
            ),
            ExecError::DropletCollision(p) => {
                push_str(s, "Droplet collision at ");
                p.write_to(s);
                assert(final(s)@ =~= old(s)@ + exec_error_text(*self));
            },
            ExecError::ExecutionTimeout(n) => {
                push_str(s, "Execution timeout: exceeded maximum tick limit of ");
                push_nat(s, *n as u128);
                assert(final(s)@ =~= old(s)@ + exec_error_text(*self));
            },
            ExecError::WallClockTimeout(n) => {
                push_str(s, "Wall-clock timeout: exceeded maximum execution time of ");
                push_nat(s, *n as u128);
                push_str(s, "ms");
                assert(final(s)@ =~= old(s)@ + exec_error_text(*self));
            },
            ExecError::SoftTickLimitWarning(n) => {
                push_str(s, "Soft tick limit warning: approaching maximum tick limit of ");
                push_nat(s, *n as u128);
                assert(final(s)@ =~= old(s)@ + exec_error_text(*self));
            },
            ExecError::SoftTimeLimitWarning(n) => {
                push_str(s, "Soft time limit warning: approaching maximum execution time of ");
                push_nat(s, *n as u128);
                push_str(s, "ms");
                assert(final(s)@ =~= old(s)@ + exec_error_text(*self));
            },
            ExecError::InternalError(m) => {
                push_str(s, "Internal error: ");
                push_str(s, m.as_str());
                assert(final(s)@ =~= old(s)@ + exec_error_text(*self));
            },
            ExecError::InvalidOperation(c) => {
                push_str(s, "Invalid operation '");
                push_char(s, *c);
                push_str(s, "'");
                assert(final(s)@ =~= old(s)@ + exec_error_text(*self));
            },
        }
    }
}

impl SystemError {
    /// Appends the message of this error to `s`.
    pub fn write_to(&self, s: &mut String)
        ensures
            final(s)@ == old(s)@ + system_error_text(*self),
    {
        match self {
            SystemError::OutOfMemory => push_str(s, "Out of memory"),
            SystemError::IoError(m) => {
                push_str(s, "I/O error: ");
                push_str(s, m.as_str());
                assert(final(s)@ =~= old(s)@ + system_error_text(*self));
            },
            SystemError::InternalError(m) => {
                push_str(s, "Internal error: ");
                push_str(s, m.as_str());
                assert(final(s)@ =~= old(s)@ + system_error_text(*self));
            },
        }
    }
}

impl InterpreterError {
    /// Appends the message of this error to `s`.
    pub fn write_to(&self, s: &mut String)
        ensures
            final(s)@ == old(s)@ + interpreter_error_text(*self),
    {
        match self {
            InterpreterError::Initialization(i) => {
                push_str(s, "Initialization error: ");
                i.write_to(s);
            },
            InterpreterError::Execution(x) => {
                push_str(s, "Execution error: ");
                x.write_to(s);
            },
            InterpreterError::System(e) => {
                push_str(s, "System error: ");
                e.write_to(s);
            },
            InterpreterError::Enhanced { info, .. } => {
                info.error_type.write_to(s);
                push_str(s, ": ");
                push_str(s, info.message.as_str());
            },
        }
        assert(final(s)@ =~= old(s)@ + interpreter_error_text(*self));
    }

    /// The message of this error as a new string.
    pub fn to_message(&self) -> (r: String)
        ensures
            r@ == interpreter_error_text(*self),
    {
        let mut s = String::new();
        self.write_to(&mut s);
        assert(s@ =~= interpreter_error_text(*self));
        s
    }

    /// An enhanced error carrying only a message and a type.
    pub fn enhanced(message: String, error_type: ErrorType) -> (r: Self)
        ensures
            r matches InterpreterError::Enhanced { info, source } && source is None
                && info.message == message && info.error_type == error_type && info.context is None
                && info.suggestions@.len() == 0 && info.help_text is None && info.severity
                == ErrorSeverity::Error,
    {
        InterpreterError::Enhanced { info: ErrorInfo::new(message, error_type), source: None }
    }

    /// Attaches a context to an enhanced error; other errors are returned unchanged.
    pub fn with_context(self, context: ErrorContext) -> (r: Self)
        ensures
            r == (match self {
                InterpreterError::Enhanced { info, source } => InterpreterError::Enhanced {
                    info: ErrorInfo { context: Some(context), ..info },
                    source,
                },
                other => other,
            }),
    {
        match self {
            InterpreterError::Enhanced { info, source } => InterpreterError::Enhanced {
                info: ErrorInfo { context: Some(context), ..info },
                source,
            },
            other => other,
        }
    }

    /// Replaces the suggestions of an enhanced error; other errors are returned unchanged.
    pub fn with_suggestions(self, suggestions: Vec<String>) -> (r: Self)
        ensures
            r == (match self {
                InterpreterError::Enhanced { info, source } => InterpreterError::Enhanced {
                    info: ErrorInfo { suggestions, ..info },
                    source,
                },
                other => other,
            }),
    {
        match self {
            InterpreterError::Enhanced { info, source } => InterpreterError::Enhanced {
                info: ErrorInfo { suggestions, ..info },
                source,
            },
            other => other,
        }
    }

    /// Sets the help text of an enhanced error; other errors are returned unchanged.
    pub fn with_help(self, help: String) -> (r: Self)
        ensures
            r == (match self {
                InterpreterError::Enhanced { info, source } => InterpreterError::Enhanced {
                    info: ErrorInfo { help_text: Some(help), ..info },
                    source,
                },
                other => other,
            }),
    {
        match self {
            InterpreterError::Enhanced { info, source } => InterpreterError::Enhanced {
                info: ErrorInfo { help_text: Some(help), ..info },
                source,
            },
            other => other,
        }
    }

    /// Sets the severity of an enhanced error; other errors are returned unchanged.
    pub fn with_severity(self, severity: ErrorSeverity) -> (r: Self)
        ensures
            r == (match self {
                InterpreterError::Enhanced { info, source } => InterpreterError::Enhanced {
                    info: ErrorInfo { severity, ..info },
                    source,
                },
                other => other,
            }),
    {
        match self {
            InterpreterError::Enhanced { info, source } => InterpreterError::Enhanced {
                info: ErrorInfo { severity, ..info },
                source,
            },
            other => other,
        }
    }

    /// The category of the error.
    pub fn error_type(&self) -> (r: ErrorType)
        ensures
            r == (match *self {
                InterpreterError::Initialization(_) => ErrorType::Initialization,
                InterpreterError::Execution(_) => ErrorType::Execution,
                InterpreterError::System(_) => ErrorType::System,
                InterpreterError::Enhanced { info, .. } => info.error_type,
            }),
    {
        match self {
            InterpreterError::Initialization(_) => ErrorType::Initialization,
            InterpreterError::Execution(_) => ErrorType::Execution,
            InterpreterError::System(_) => ErrorType::System,
            InterpreterError::Enhanced { info, .. } => info.error_type,
        }
    }

    /// The severity: that of an enhanced error, otherwise `Error`.
    pub fn severity(&self) -> (r: ErrorSeverity)
        ensures
            r == (match *self {
                InterpreterError::Enhanced { info, .. } => info.severity,
                _ => ErrorSeverity::Error,
            }),
    {
        match self {
            InterpreterError::Enhanced { info, .. } => info.severity,
            _ => ErrorSeverity::Error,
        }
    }

    /// The context of an enhanced error.
    pub fn context(&self) -> (r: Option<&ErrorContext>)
        ensures
            r == (match *self {
                InterpreterError::Enhanced { info, .. } => match info.context {
                    Some(c) => Some(&c),
                    None => None,
                },
                _ => None,
            }),
    {
        match self {
            InterpreterError::Enhanced { info, .. } => match &info.context {
                Some(c) => Some(c),
                None => None,
            },
            _ => None,
        }
    }

    /// The suggestions of an enhanced error; none for other errors.
    pub fn suggestions(&self) -> (r: &[String])
        ensures
            r@ == (match *self {
                InterpreterError::Enhanced { info, .. } => info.suggestions@,
                _ => Seq::<String>::empty(),
            }),
    {
        match self {
            InterpreterError::Enhanced { info, .. } => info.suggestions.as_slice(),
            _ => &[],
        }
    }

    /// The help text of an enhanced error.
    pub fn help_text(&self) -> (r: Option<&String>)
        ensures
            r == (match *self {
                InterpreterError::Enhanced { info, .. } => match info.help_text {
                    Some(h) => Some(&h),
                    None => None,
                },
                _ => None,
            }),
    {
        match self {
            InterpreterError::Enhanced { info, .. } => match &info.help_text {
                Some(h) => Some(h),
                None => None,
            },
            _ => None,
        }
    }
}

impl From<InitError> for InterpreterError {
    fn from(e: InitError) -> (r: Self) {
        InterpreterError::Initialization(e)
    }
}

impl vstd::std_specs::convert::FromSpecImpl<InitError> for InterpreterError {
    open spec fn obeys_from_spec() -> bool {
        true
    }

    open spec fn from_spec(e: InitError) -> Self {
        InterpreterError::Initialization(e)
    }
}

impl From<ExecError> for InterpreterError {
    fn from(e: ExecError) -> (r: Self) {
        InterpreterError::Execution(e)
    }
}

impl vstd::std_specs::convert::FromSpecImpl<ExecError> for InterpreterError {
    open spec fn obeys_from_spec() -> bool {
        true
    }

    open spec fn from_spec(e: ExecError) -> Self {
        InterpreterError::Execution(e)
    }
}

impl From<SystemError> for InterpreterError {
    fn from(e: SystemError) -> (r: Self) {
        InterpreterError::System(e)
    }
}

impl vstd::std_specs::convert::FromSpecImpl<SystemError> for InterpreterError {
    open spec fn obeys_from_spec() -> bool {
        true
    }

    open spec fn from_spec(e: SystemError) -> Self {
        InterpreterError::System(e)
    }
}

} // verus!
