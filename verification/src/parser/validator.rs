//! Checking a program grid beyond what it takes to run it.
use vstd::prelude::*;
use crate::assoc::{assoc_index, assoc_map, keys_unique, lemma_assoc_at};
use crate::interpreter::grid::{
    ProgramCell, ProgramGrid, data_source_symbol, flow_control_symbol, operator_symbol,
};
use crate::parser::grid_parser::{numbered_views, window_end, window_start, window_lines, position_of};
use crate::text::{dec_nat, lines_of, push_char, push_nat, push_str, split_lines, string_views};
use crate::types::coordinate::{COORD_LIMIT, Coordinate, in_grid_range};
use crate::types::direction::Direction;
use crate::types::error::{ErrorContext, ErrorSeverity, ErrorType, InitError, InterpreterError, Position};

verus! {

/// The coordinate `(c.x + dx, c.y + dy)`.
pub open spec fn neighbour(c: Coordinate, dx: int, dy: int) -> Coordinate {
    Coordinate { x: (c.x + dx) as isize, y: (c.y + dy) as isize }
}

/// The coordinate one step from `c` against direction `d`.
pub open spec fn step_back_from(c: Coordinate, d: Direction) -> Coordinate {
    Coordinate {
        x: (c.x - crate::types::direction::spec_dx(d)) as isize,
        y: (c.y - crate::types::direction::spec_dy(d)) as isize,
    }
}

/// The four neighbours of `c` in the order the checks visit them: left, right, above, below.
pub open spec fn side_neighbours(c: Coordinate) -> Seq<Coordinate> {
    seq![neighbour(c, -1, 0), neighbour(c, 1, 0), neighbour(c, 0, -1), neighbour(c, 0, 1)]
}

/// Whether some neighbour of `c` (left, right, above, below) is a cell whose symbol satisfies `p`.
pub open spec fn neighbour_with(g: Map<Coordinate, ProgramCell>, c: Coordinate, p: spec_fn(char) -> bool) -> bool {
    exists|k: int| 0 <= k < 4 && #[trigger] g.contains_key(side_neighbours(c)[k]) && p(g[side_neighbours(c)[k]].symbol)
}

/// Symbols that give a stack operation data: data sources and `:`.
pub open spec fn data_access_symbol(s: char) -> bool {
    data_source_symbol(s) || s == ':' || s == '0'
}

/// Symbols that give an arithmetic operation operands: digits, data sources, `:` and `;`.
pub open spec fn operand_symbol(s: char) -> bool {
    ('0' <= s <= '9') || data_source_symbol(s) || s == ':' || s == ';'
}

/// Symbols that give a memory operation coordinates: `:`, `;`, `d` and digits.
pub open spec fn coordinate_source_symbol(s: char) -> bool {
    s == ':' || s == ';' || s == 'd' || ('0' <= s <= '9')
}

/// Symbols a pipe connects to: pipes, operators and the start symbol.
pub open spec fn connectable_symbol(s: char) -> bool {
    flow_control_symbol(s) || operator_symbol(s) || s == '@'
}

/// How many of the four neighbours of `c` are cells (above, below, left, right).
pub open spec fn exit_count(g: Map<Coordinate, ProgramCell>, c: Coordinate) -> nat {
    (if g.contains_key(neighbour(c, 0, -1)) { 1nat } else { 0nat })
        + (if g.contains_key(neighbour(c, 0, 1)) { 1nat } else { 0nat })
        + (if g.contains_key(neighbour(c, -1, 0)) { 1nat } else { 0nat })
        + (if g.contains_key(neighbour(c, 1, 0)) { 1nat } else { 0nat })
}

/// How many neighbours of `c` are cells a pipe connects to.
pub open spec fn connection_count(g: Map<Coordinate, ProgramCell>, c: Coordinate) -> nat {
    (if g.contains_key(neighbour(c, 0, -1)) && connectable_symbol(g[neighbour(c, 0, -1)].symbol) { 1nat } else { 0nat })
        + (if g.contains_key(neighbour(c, 0, 1)) && connectable_symbol(g[neighbour(c, 0, 1)].symbol) { 1nat } else { 0nat })
        + (if g.contains_key(neighbour(c, -1, 0)) && connectable_symbol(g[neighbour(c, -1, 0)].symbol) { 1nat } else { 0nat })
        + (if g.contains_key(neighbour(c, 1, 0)) && connectable_symbol(g[neighbour(c, 1, 0)].symbol) { 1nat } else { 0nat })
}

/// Whether a pipe at `c` is badly placed. Only strict mode judges placement:
/// `^` and `v` need a cell above or below, `<` and `>` one to the left or
/// right, `/` one to the left or above, `\` one to the left or below;
/// straight pipes are always fine.
pub open spec fn invalid_pipe(g: Map<Coordinate, ProgramCell>, c: Coordinate, s: char, strict: bool) -> bool {
    if !strict {
        false
    } else if s == '^' || s == 'v' {
        !g.contains_key(neighbour(c, 0, -1)) && !g.contains_key(neighbour(c, 0, 1))
    } else if s == '<' || s == '>' {
        !g.contains_key(neighbour(c, -1, 0)) && !g.contains_key(neighbour(c, 1, 0))
    } else if s == '/' {
        !(g.contains_key(neighbour(c, -1, 0)) || g.contains_key(neighbour(c, 0, -1)) || g.contains_key(neighbour(c, 0, -1))
            || g.contains_key(neighbour(c, -1, 0)))
    } else if s == '\\' {
        !(g.contains_key(neighbour(c, -1, 0)) || g.contains_key(neighbour(c, 0, 1)) || g.contains_key(neighbour(c, 0, 1))
            || g.contains_key(neighbour(c, -1, 0)))
    } else {
        false
    }
}

/// The suggestions for a badly placed pipe.
pub open spec fn pipe_suggestions(g: Map<Coordinate, ProgramCell>, c: Coordinate, s: char) -> Seq<Seq<char>> {
    if s == '^' || s == 'v' {
        let above = g.contains_key(neighbour(c, 0, -1));
        let below = g.contains_key(neighbour(c, 0, 1));
        if !above && !below {
            seq!["Add a cell above or below this vertical pipe"@, "Use '|' for bidirectional vertical flow"@]
        } else if !above {
            seq!["Add a cell above to complete the vertical connection"@]
        } else if !below {
            seq!["Add a cell below to complete the vertical connection"@]
        } else {
            Seq::empty()
        }
    } else if s == '<' || s == '>' {
        let left = g.contains_key(neighbour(c, -1, 0));
        let right = g.contains_key(neighbour(c, 1, 0));
        if !left && !right {
            seq!["Add a cell to the left or right of this horizontal pipe"@, "Use '-' for bidirectional horizontal flow"@]
        } else if !left {
            seq!["Add a cell to the left to complete the horizontal connection"@]
        } else if !right {
            seq!["Add a cell to the right to complete the horizontal connection"@]
        } else {
            Seq::empty()
        }
    } else if s == '/' || s == '\\' {
        seq![
            "Ensure corner pipes have proper connections on their valid sides"@,
            "Check that adjacent cells align with the corner's direction"@,
        ]
    } else {
        seq!["Ensure the pipe symbol has appropriate connections"@]
    }
}

/// The help text for a pipe symbol.
pub open spec fn pipe_help(s: char) -> Seq<char> {
    if s == '^' {
        "This pipe directs flow upward. In strict mode, it should have at least one connection (above or below)."@
    } else if s == 'v' {
        "This pipe directs flow downward. In strict mode, it should have at least one connection (above or below)."@
    } else if s == '<' {
        "This pipe directs flow leftward. In strict mode, it should have at least one connection (left or right)."@
    } else if s == '>' {
        "This pipe directs flow rightward. In strict mode, it should have at least one connection (left or right)."@
    } else if s == '|' {
        "This pipe allows bidirectional vertical flow and connects cells above and below."@
    } else if s == '-' {
        "This pipe allows bidirectional horizontal flow and connects cells left and right."@
    } else if s == '/' {
        "This corner pipe redirects flow from right to up or from down to left."@
    } else if s == '\\' {
        "This corner pipe redirects flow from left to down or from up to right."@
    } else {
        "This is a flow control symbol that directs droplet movement."@
    }
}

/// The directions reachability follows out of a pipe.
pub open spec fn flow_directions(s: char) -> Seq<Direction> {
    if s == '|' {
        seq![Direction::Up, Direction::Down]
    } else if s == '-' {
        seq![Direction::Left, Direction::Right]
    } else if s == '^' {
        seq![Direction::Up]
    } else if s == 'v' {
        seq![Direction::Down]
    } else if s == '<' {
        seq![Direction::Left]
    } else if s == '>' {
        seq![Direction::Right]
    } else if s == '/' {
        seq![Direction::Up, Direction::Left]
    } else if s == '\\' {
        seq![Direction::Down, Direction::Left]
    } else {
        Seq::empty()
    }
}

/// The positions reachability follows out of a cell with symbol `s` at `p`:
/// along a pipe's directions, or one step down from an operator or from the
/// start symbol, whose droplet sets out downward.
pub open spec fn next_positions(p: Coordinate, s: char) -> Seq<Coordinate> {
    if flow_control_symbol(s) {
        flow_directions(s).map_values(|d: Direction| crate::interpreter::droplet::step_from(p, d))
    } else if operator_symbol(s) || s == '@' {
        seq![neighbour(p, 0, 1)]
    } else {
        Seq::empty()
    }
}

/// Whether `e` is an enhanced error with the given message, type, context
/// position (if any), suggestions and help, and error severity.
pub open spec fn enhanced_error_is(
    e: InterpreterError,
    message: Seq<char>,
    error_type: ErrorType,
    at: Option<Coordinate>,
    suggestions: Seq<Seq<char>>,
    help: Seq<char>,
) -> bool {
    &&& e matches InterpreterError::Enhanced { info, source }
    &&& e->source is None
    &&& e->info.message@ == message
    &&& e->info.error_type == error_type
    &&& e->info.severity == ErrorSeverity::Error
    &&& match at {
        Some(c) => e->info.context is Some && e->info.context->0.position == position_of(c),
        None => e->info.context is None,
    }
    &&& string_views(e->info.suggestions@) == suggestions
    &&& e->info.help_text is Some
    &&& e->info.help_text->0@ == help
}

/// Checks a program grid: that it can run, then (as errors come, the first one
/// is reported, or with error collection all are counted) its start symbol,
/// pipes, symbols, reachable code and, in strict mode, stricter placement rules.
pub struct ProgramValidator {
    strict_mode: bool,
    collect_errors: bool,
    errors: Vec<InterpreterError>,
    source_content: Option<String>,
}

/// A string holding `t`.
fn text(t: &str) -> (r: String)
    ensures
        r@ == t@,
{
    String::from_str(t)
}

/// A list of strings holding the given texts.
fn texts(t: &[&str]) -> (r: Vec<String>)
    ensures
        r@.len() == t@.len(),
        forall|i: int| 0 <= i < t@.len() ==> (#[trigger] r@[i])@ == t@[i]@,
{
    let mut out: Vec<String> = Vec::new();
    let mut i: usize = 0;
    while i < t.len()
        invariant
            i <= t@.len(),
            out@.len() == i,
            forall|k: int| 0 <= k < i ==> (#[trigger] out@[k])@ == t@[k]@,
        decreases t@.len() - i,
    {
        out.push(text(t[i]));
        i = i + 1;
    }
    out
}

impl ProgramValidator {
    /// Whether strict rules apply.
    pub closed spec fn spec_strict(&self) -> bool {
        self.strict_mode
    }

    /// Whether errors are collected.
    pub closed spec fn spec_collect(&self) -> bool {
        self.collect_errors
    }

    /// The errors collected.
    pub closed spec fn spec_errors(&self) -> Seq<InterpreterError> {
        self.errors@
    }

    /// The lines of the source text, when one was given.
    pub closed spec fn spec_source_lines(&self) -> Option<Seq<Seq<char>>> {
        match self.source_content {
            Some(c) => Some(lines_of(c@)),
            None => None,
        }
    }

    /// A lenient validator.
    pub fn new() -> (r: Self)
        ensures
            !r.spec_strict(),
            !r.spec_collect(),
            r.spec_errors().len() == 0,
            r.spec_source_lines() is None,
    {
        ProgramValidator { strict_mode: false, collect_errors: false, errors: Vec::new(), source_content: None }
    }

    /// A strict validator.
    pub fn strict() -> (r: Self)
        ensures
            r.spec_strict(),
            !r.spec_collect(),
            r.spec_errors().len() == 0,
            r.spec_source_lines() is None,
    {
        ProgramValidator { strict_mode: true, collect_errors: false, errors: Vec::new(), source_content: None }
    }

    /// The same validator, collecting errors.
    pub fn with_error_collection(self) -> (r: Self)
        ensures
            r.spec_strict() == self.spec_strict(),
            r.spec_collect(),
            r.spec_errors() == self.spec_errors(),
            r.spec_source_lines() == self.spec_source_lines(),
    {
        ProgramValidator { collect_errors: true, ..self }
    }

    /// The same validator, with the source text for error contexts.
    pub fn with_source_content(self, content: String) -> (r: Self)
        ensures
            r.spec_strict() == self.spec_strict(),
            r.spec_collect() == self.spec_collect(),
            r.spec_errors() == self.spec_errors(),
            r.spec_source_lines() == Some(lines_of(content@)),
    {
        ProgramValidator { source_content: Some(content), ..self }
    }

    /// The errors collected.
    pub fn get_errors(&self) -> (r: &[InterpreterError])
        ensures
            r@ == self.spec_errors(),
    {
        self.errors.as_slice()
    }

    /// Forgets the errors collected.
    pub fn clear_errors(&mut self)
        ensures
            final(self).spec_errors().len() == 0,
            final(self).spec_strict() == old(self).spec_strict(),
            final(self).spec_collect() == old(self).spec_collect(),
            final(self).spec_source_lines() == old(self).spec_source_lines(),
    {
        self.errors.clear();
    }

    /// Whether an error context can be made for `c`: its column is below
    /// `usize::MAX`, and with a source its line number leaves room for the window
    /// of lines around it.
    pub open spec fn context_ok(&self, c: Coordinate) -> bool {
        &&& (c.x as usize) < usize::MAX
        &&& self.spec_source_lines() matches Some(ls) ==> {
            &&& (c.y as usize) + 3 <= usize::MAX
            &&& window_start(c.y as usize as int, 2) <= window_end(c.y as usize as int, 2, ls.len() as int)
        }
    }

    /// The context for an error at `coord`: from the source text when there is one.
    fn create_error_context_for_coord(&self, coord: Coordinate) -> (r: ErrorContext)
        requires
            self.context_ok(coord),
        ensures
            r.position == position_of(coord),
            self.spec_source_lines() matches Some(ls) ==> {
                &&& r.source_line@ == (if (coord.y as usize as int) < ls.len() { ls[coord.y as usize as int] } else { Seq::empty() })
                &&& numbered_views(r.surrounding_lines@) == window_lines(ls, coord.y as usize as int, 2)
            },
    {
        let position = Position::new(coord.y as usize, coord.x as usize, coord);
        match &self.source_content {
            Some(content) => {
                let lines = split_lines(content.as_str());
                let source_line = if position.line < lines.len() { lines[position.line].clone() } else { String::new() };
                let start: usize = if position.line >= 2 { position.line - 2 } else { 0 };
                let end: usize = if position.line + 3 <= lines.len() { position.line + 3 } else { lines.len() };
                let mut surrounding: Vec<(usize, String)> = Vec::new();
                let mut k: usize = start;
                while k < end
                    invariant
                        start <= k <= end <= lines@.len(),
                        start == window_start(position.line as int, 2),
                        end == window_end(position.line as int, 2, lines@.len() as int),
                        surrounding@.len() == k - start,
                        forall|i: int| 0 <= i < surrounding@.len() ==> (#[trigger] surrounding@[i]).0 == start + i
                            && surrounding@[i].1@ == lines@[start + i]@,
                    decreases end - k,
                {
                    surrounding.push((k, lines[k].clone()));
                    k = k + 1;
                }
                assert(numbered_views(surrounding@) =~= window_lines(string_views(lines@), position.line as int, 2));
                ErrorContext::new(position, source_line).with_surrounding_lines(surrounding)
            },
            None => ErrorContext::new(position, String::new()),
        }
    }
}


/// The per-cell checks of validation.
#[derive(Clone, Copy)]
pub enum CellCheck {
    /// Badly placed pipes.
    Pipe,
    /// Operators without data next to them (strict mode).
    Combination,
    /// Pipes without connections (strict mode).
    Orphan,
    /// Badly placed inputs and outputs (strict mode).
    Io,
    /// Memory operations without coordinates (strict mode).
    Memory,
}

/// Whether a check flags a cell.
pub open spec fn flagged(check: CellCheck, g: Map<Coordinate, ProgramCell>, strict: bool, cell: (Coordinate, ProgramCell)) -> bool {
    match check {
        CellCheck::Pipe => flow_control_symbol(cell.1.symbol) && invalid_pipe(g, cell.0, cell.1.symbol, strict),
        CellCheck::Combination => bad_combination(g, cell),
        CellCheck::Orphan => orphaned(g, cell),
        CellCheck::Io => bad_io(g, cell),
        CellCheck::Memory => bad_memory(g, cell),
    }
}

/// Whether `e` is the error a check reports for a cell.
pub open spec fn check_error(check: CellCheck, g: Map<Coordinate, ProgramCell>, e: InterpreterError, cell: (Coordinate, ProgramCell)) -> bool {
    match check {
        CellCheck::Pipe => pipe_error(g, e, cell.0, cell.1.symbol),
        CellCheck::Combination => combination_error(e, cell),
        CellCheck::Orphan => orphan_error(e, cell),
        CellCheck::Io => io_error(e, cell),
        CellCheck::Memory => memory_error(e, cell),
    }
}

/// Whether no cell before index `i` is flagged.
pub open spec fn none_before(cells: Seq<(Coordinate, ProgramCell)>, check: CellCheck, g: Map<Coordinate, ProgramCell>, strict: bool, i: int) -> bool {
    forall|k: int| 0 <= k < i ==> !flagged(check, g, strict, #[trigger] cells[k])
}

/// Whether `i` is the first index of a flagged cell.
pub open spec fn first_at(cells: Seq<(Coordinate, ProgramCell)>, check: CellCheck, g: Map<Coordinate, ProgramCell>, strict: bool, i: int) -> bool {
    0 <= i < cells.len() && flagged(check, g, strict, cells[i]) && none_before(cells, check, g, strict, i)
}

/// Whether some cell is flagged.
pub open spec fn any_flagged(cells: Seq<(Coordinate, ProgramCell)>, check: CellCheck, g: Map<Coordinate, ProgramCell>, strict: bool) -> bool {
    exists|i: int| 0 <= i < cells.len() && flagged(check, g, strict, #[trigger] cells[i])
}

/// Whether a check over the cells reports the first flagged cell with its
/// error, and is `Ok` when no cell is flagged.
pub open spec fn scan_result(
    r: Result<InterpreterError, InterpreterError>,
    cells: Seq<(Coordinate, ProgramCell)>,
    check: CellCheck,
    g: Map<Coordinate, ProgramCell>,
    strict: bool,
) -> bool {
    if any_flagged(cells, check, g, strict) {
        exists|i: int| #[trigger] first_at(cells, check, g, strict, i) && (r matches Err(e) && check_error(check, g, e, cells[i]))
    } else {
        r is Ok
    }
}

/// The outcome of the strict rules: the first orphaned pipe, else the first
/// badly placed input or output, else the first memory operation without coordinates.
pub open spec fn strict_rules_result(
    r: Result<InterpreterError, InterpreterError>,
    cells: Seq<(Coordinate, ProgramCell)>,
    g: Map<Coordinate, ProgramCell>,
    strict: bool,
) -> bool {
    if any_flagged(cells, CellCheck::Orphan, g, strict) {
        scan_result(r, cells, CellCheck::Orphan, g, strict)
    } else if any_flagged(cells, CellCheck::Io, g, strict) {
        scan_result(r, cells, CellCheck::Io, g, strict)
    } else {
        scan_result(r, cells, CellCheck::Memory, g, strict)
    }
}

/// The error for a program without a start symbol.
pub open spec fn no_start_error(e: InterpreterError) -> bool {
    enhanced_error_is(
        e,
        "No start symbol (@) found in program"@,
        ErrorType::Initialization,
        None,
        seq!["Add a start symbol '@' to your program"@, "The start symbol should be placed where you want execution to begin"@],
        "Every Tubular program needs exactly one start symbol '@' to indicate where execution should begin."@,
    )
}

/// The error for a start symbol on the edge, in strict mode.
pub open spec fn edge_start_error(e: InterpreterError, c: Coordinate) -> bool {
    enhanced_error_is(
        e,
        "Start symbol '@' cannot be placed at the edge in strict mode"@,
        ErrorType::Validation,
        Some(c),
        seq!["Move the start symbol away from the edge"@, "Add at least one space margin around the start symbol"@],
        "In strict mode, the start symbol should have at least one cell of space around it to ensure proper flow."@,
    )
}

/// The error for a badly placed pipe.
pub open spec fn pipe_error(g: Map<Coordinate, ProgramCell>, e: InterpreterError, c: Coordinate, s: char) -> bool {
    enhanced_error_is(
        e,
        "Invalid flow control pipe '"@ + seq![s] + "' at this position"@,
        ErrorType::Validation,
        Some(c),
        pipe_suggestions(g, c, s),
        pipe_help(s),
    )
}

/// The error for a start symbol count other than one.
pub open spec fn start_count_error(e: InterpreterError, n: nat) -> bool {
    if n == 0 {
        no_start_error(e)
    } else {
        enhanced_error_is(
            e,
            "Multiple start symbols (@) found: "@ + dec_nat(n) + " start symbols"@,
            ErrorType::Initialization,
            None,
            seq!["Remove all but one start symbol '@'"@, "Choose the location where you want execution to begin"@],
            "A Tubular program can only have one start symbol '@'. Multiple start symbols create ambiguity about where execution should begin."@,
        )
    }
}

/// The name of an arithmetic operation in messages.
pub open spec fn operation_name(s: char) -> Seq<char> {
    if s == 'A' {
        "Addition"@
    } else if s == 'S' {
        "Subtraction"@
    } else if s == 'M' {
        "Multiplication"@
    } else if s == 'D' {
        "Division"@
    } else {
        "Arithmetic"@
    }
}

/// Whether a cell breaks the strict rules on symbol combinations: a stack
/// operation without data next to it, or an arithmetic operation without operands.
pub open spec fn bad_combination(g: Map<Coordinate, ProgramCell>, cell: (Coordinate, ProgramCell)) -> bool {
    let s = cell.1.symbol;
    ||| (s == ':' || s == ';' || s == 'd') && !neighbour_with(g, cell.0, |t: char| data_access_symbol(t))
    ||| (s == 'A' || s == 'S' || s == 'M' || s == 'D') && !neighbour_with(g, cell.0, |t: char| operand_symbol(t))
}

/// The error for a cell breaking the rules on symbol combinations.
pub open spec fn combination_error(e: InterpreterError, cell: (Coordinate, ProgramCell)) -> bool {
    let s = cell.1.symbol;
    if s == ':' || s == ';' || s == 'd' {
        enhanced_error_is(
            e,
            "Stack operation '"@ + seq![s] + "' has no access to data"@,
            ErrorType::Semantic,
            Some(cell.0),
            seq![
                "Add a data source nearby (numbers, input symbol '?', or other stack operations)"@,
                "Move the operation closer to data flow"@,
            ],
            "Stack operations need access to data to function properly. Place them near data sources or in the flow of operations."@,
        )
    } else {
        enhanced_error_is(
            e,
            operation_name(s) + " operation '"@ + seq![s] + "' has no operands available"@,
            ErrorType::Semantic,
            Some(cell.0),
            seq![
                "Add numeric literals (0-9) nearby"@,
                "Ensure data flow reaches this operation"@,
                "Add input operations or other data sources upstream"@,
            ],
            "Arithmetic operations need at least one operand to work with. Make sure there's data flowing into this operation."@,
        )
    }
}

/// Whether a cell is a pipe with no connections.
pub open spec fn orphaned(g: Map<Coordinate, ProgramCell>, cell: (Coordinate, ProgramCell)) -> bool {
    flow_control_symbol(cell.1.symbol) && connection_count(g, cell.0) == 0
}

/// The error for an orphaned pipe.
pub open spec fn orphan_error(e: InterpreterError, cell: (Coordinate, ProgramCell)) -> bool {
    enhanced_error_is(
        e,
        "Orphaned flow control pipe '"@ + seq![cell.1.symbol] + "' has no connections"@,
        ErrorType::Validation,
        Some(cell.0),
        seq![
            "Add adjacent cells to connect this pipe"@,
            "Remove the orphaned pipe if not needed"@,
            "Check for gaps in your flow control network"@,
        ],
        "Flow control pipes need to be connected to other cells to be useful. An orphaned pipe cannot guide droplets anywhere."@,
    )
}

/// Whether a cell breaks the rules on input and output placement: an output
/// with no cell above it, or an input with no neighbour at all.
pub open spec fn bad_io(g: Map<Coordinate, ProgramCell>, cell: (Coordinate, ProgramCell)) -> bool {
    let s = cell.1.symbol;
    ||| (s == ',' || s == 'n') && !g.contains_key(neighbour(cell.0, 0, -1))
    ||| s == '?' && exit_count(g, cell.0) == 0
}

/// The error for a badly placed input or output.
pub open spec fn io_error(e: InterpreterError, cell: (Coordinate, ProgramCell)) -> bool {
    let s = cell.1.symbol;
    if s == ',' || s == 'n' {
        enhanced_error_is(
            e,
            "Output operation '"@ + seq![s] + "' has no upstream connection"@,
            ErrorType::Validation,
            Some(cell.0),
            seq![
                "Add flow control leading to this output operation"@,
                "Place the output operation in the main flow path"@,
                "Connect this operation to upstream cells"@,
            ],
            "Output operations need to be reachable by droplets to function. Ensure there's a path for droplets to reach this cell."@,
        )
    } else {
        enhanced_error_is(
            e,
            "Input operation '?' is at a dead end"@,
            ErrorType::Validation,
            Some(cell.0),
            seq![
                "Add flow control after the input operation"@,
                "Connect the input operation to downstream cells"@,
                "Ensure input can flow to the rest of the program"@,
            ],
            "Input operations should provide data to the rest of the program. If it's at a dead end, the input data won't be used."@,
        )
    }
}

/// Whether a cell is a memory operation without a coordinate source next to it.
pub open spec fn bad_memory(g: Map<Coordinate, ProgramCell>, cell: (Coordinate, ProgramCell)) -> bool {
    (cell.1.symbol == 'G' || cell.1.symbol == 'P') && !neighbour_with(g, cell.0, |t: char| coordinate_source_symbol(t))
}

/// The error for a memory operation without coordinates.
pub open spec fn memory_error(e: InterpreterError, cell: (Coordinate, ProgramCell)) -> bool {
    let s = cell.1.symbol;
    enhanced_error_is(
        e,
        (if s == 'G' { "Get (read)"@ } else { "Put (write)"@ }) + " memory operation '"@ + seq![s]
            + "' cannot access stack coordinates"@,
        ErrorType::Validation,
        Some(cell.0),
        seq![
            "Add stack operations nearby to provide coordinates"@,
            "Place numeric literals for direct addressing"@,
            "Move the operation closer to coordinate sources"@,
        ],
        "Memory operations need coordinates from the stack or direct addressing. Ensure there's a way to provide coordinates to this operation."@,
    )
}

/// Whether every cell of the grid can get an error context, and lies within range.
pub open spec fn cells_ok(v: &ProgramValidator, grid: &ProgramGrid) -> bool {
    &&& grid.wf()
    &&& forall|c: Coordinate| #[trigger] grid@.contains_key(c) ==> v.context_ok(c)
}

impl ProgramValidator {
    /// Whether some neighbour of `coord` (left, right, above, below) is a cell
    /// whose symbol is chosen by `kind`: 0 data access, 1 operands, 2 coordinates.
    fn neighbour_symbol(grid: &ProgramGrid, coord: Coordinate, kind: u8) -> (r: bool)
        requires
            grid.wf(),
            in_grid_range(coord),
            kind <= 2,
        ensures
            kind == 0 ==> r == neighbour_with(grid@, coord, |t: char| data_access_symbol(t)),
            kind == 1 ==> r == neighbour_with(grid@, coord, |t: char| operand_symbol(t)),
            kind == 2 ==> r == neighbour_with(grid@, coord, |t: char| coordinate_source_symbol(t)),
    {
        let around = [
            Coordinate::new(coord.x - 1, coord.y),
            Coordinate::new(coord.x + 1, coord.y),
            Coordinate::new(coord.x, coord.y - 1),
            Coordinate::new(coord.x, coord.y + 1),
        ];
        let mut k: usize = 0;
        while k < 4
            invariant
                grid.wf(),
                kind <= 2,
                k <= 4,
                around@ == side_neighbours(coord),
                forall|j: int| 0 <= j < k ==> !(grid@.contains_key(side_neighbours(coord)[j]) && ({
                    let t = grid@[side_neighbours(coord)[j]].symbol;
                    if kind == 0 { data_access_symbol(t) } else if kind == 1 { operand_symbol(t) } else { coordinate_source_symbol(t) }
                })),
            decreases 4 - k,
        {
            if let Some(t) = grid.get_symbol(around[k]) {
                let hit = if kind == 0 {
                    (t == '?' || t == '>' || ('0' <= t && t <= '9')) || t == ':' || t == '0'
                } else if kind == 1 {
                    ('0' <= t && t <= '9') || (t == '?' || t == '>' || ('0' <= t && t <= '9')) || t == ':' || t == ';'
                } else {
                    t == ':' || t == ';' || t == 'd' || ('0' <= t && t <= '9')
                };
                if hit {
                    return true;
                }
            }
            k = k + 1;
        }
        false
    }

    /// Whether a stack operation at `coord` has data next to it.
    fn has_data_access(&self, grid: &ProgramGrid, coord: Coordinate) -> (r: bool)
        requires
            grid.wf(),
            in_grid_range(coord),
        ensures
            r == neighbour_with(grid@, coord, |t: char| data_access_symbol(t)),
    {
        Self::neighbour_symbol(grid, coord, 0)
    }

    /// Whether an arithmetic operation at `coord` has operands next to it.
    fn has_data_source_nearby(&self, grid: &ProgramGrid, coord: Coordinate) -> (r: bool)
        requires
            grid.wf(),
            in_grid_range(coord),
        ensures
            r == neighbour_with(grid@, coord, |t: char| operand_symbol(t)),
    {
        Self::neighbour_symbol(grid, coord, 1)
    }

    /// Whether a memory operation at `coord` has a coordinate source next to it.
    fn can_access_stack_coordinates(&self, grid: &ProgramGrid, coord: Coordinate) -> (r: bool)
        requires
            grid.wf(),
            in_grid_range(coord),
        ensures
            r == neighbour_with(grid@, coord, |t: char| coordinate_source_symbol(t)),
    {
        Self::neighbour_symbol(grid, coord, 2)
    }

    /// Whether there is a cell above `coord`.
    fn has_upstream_connection(&self, grid: &ProgramGrid, coord: Coordinate) -> (r: bool)
        requires
            grid.wf(),
            in_grid_range(coord),
        ensures
            r == grid@.contains_key(neighbour(coord, 0, -1)),
    {
        grid.get(Coordinate::new(coord.x, coord.y - 1)).is_some()
    }

    /// How many neighbours of `coord` are cells.
    fn count_exits(&self, grid: &ProgramGrid, coord: Coordinate) -> (r: usize)
        requires
            grid.wf(),
            in_grid_range(coord),
        ensures
            r == exit_count(grid@, coord),
    {
        let mut exits: usize = 0;
        if grid.get(Coordinate::new(coord.x, coord.y - 1)).is_some() {
            exits = exits + 1;
        }
        if grid.get(Coordinate::new(coord.x, coord.y + 1)).is_some() {
            exits = exits + 1;
        }
        if grid.get(Coordinate::new(coord.x - 1, coord.y)).is_some() {
            exits = exits + 1;
        }
        if grid.get(Coordinate::new(coord.x + 1, coord.y)).is_some() {
            exits = exits + 1;
        }
        exits
    }

    /// Whether an input at `coord` has no neighbour.
    fn is_dead_end(&self, grid: &ProgramGrid, coord: Coordinate) -> (r: bool)
        requires
            grid.wf(),
            in_grid_range(coord),
        ensures
            r == (exit_count(grid@, coord) == 0),
    {
        self.count_exits(grid, coord) == 0
    }

    /// Whether a pipe may connect to a cell with symbol `to_symbol`.
    fn can_connect(&self, from_symbol: char, to_symbol: char, expected_dir: Direction) -> (r: bool)
        ensures
            r == connectable_symbol(to_symbol),
    {
        ProgramCell::is_flow_control_symbol(to_symbol) || ProgramCell::is_operator_symbol(to_symbol)
            || ProgramCell::is_start_symbol(to_symbol)
    }

    /// How many neighbours of a pipe at `coord` it connects to.
    fn count_connections(&self, grid: &ProgramGrid, coord: Coordinate, symbol: char) -> (r: usize)
        requires
            grid.wf(),
            in_grid_range(coord),
        ensures
            r == connection_count(grid@, coord),
    {
        let mut connections: usize = 0;
        let around = [
            (Coordinate::new(coord.x, coord.y - 1), Direction::Down),
            (Coordinate::new(coord.x, coord.y + 1), Direction::Up),
            (Coordinate::new(coord.x - 1, coord.y), Direction::Right),
            (Coordinate::new(coord.x + 1, coord.y), Direction::Left),
        ];
        let ghost targets = seq![neighbour(coord, 0, -1), neighbour(coord, 0, 1), neighbour(coord, -1, 0), neighbour(coord, 1, 0)];
        let mut k: usize = 0;
        while k < 4
            invariant
                grid.wf(),
                k <= 4,
                forall|j: int| 0 <= j < 4 ==> (#[trigger] around@[j]).0 == targets[j],
                targets == seq![neighbour(coord, 0, -1), neighbour(coord, 0, 1), neighbour(coord, -1, 0), neighbour(coord, 1, 0)],
                connections == (if k >= 1 && grid@.contains_key(targets[0]) && connectable_symbol(grid@[targets[0]].symbol) { 1nat } else { 0nat })
                    + (if k >= 2 && grid@.contains_key(targets[1]) && connectable_symbol(grid@[targets[1]].symbol) { 1nat } else { 0nat })
                    + (if k >= 3 && grid@.contains_key(targets[2]) && connectable_symbol(grid@[targets[2]].symbol) { 1nat } else { 0nat })
                    + (if k >= 4 && grid@.contains_key(targets[3]) && connectable_symbol(grid@[targets[3]].symbol) { 1nat } else { 0nat }),
            decreases 4 - k,
        {
            let (adj, dir) = around[k];
            if let Some(t) = grid.get_symbol(adj) {
                if self.can_connect(symbol, t, dir) {
                    connections = connections + 1;
                }
            }
            k = k + 1;
        }
        connections
    }

    /// Whether a pipe at `coord` has no connections.
    fn is_orphaned_pipe(&self, grid: &ProgramGrid, coord: Coordinate, symbol: char) -> (r: bool)
        requires
            grid.wf(),
            in_grid_range(coord),
        ensures
            r == (connection_count(grid@, coord) == 0),
    {
        self.count_connections(grid, coord, symbol) == 0
    }

    /// Whether `^` or `v` at `coord` lacks cells above and below (strict mode only).
    fn has_invalid_vertical_connection(&self, grid: &ProgramGrid, coord: Coordinate) -> (r: bool)
        requires
            grid.wf(),
            in_grid_range(coord),
        ensures
            r == invalid_pipe(grid@, coord, '^', self.spec_strict()),
    {
        let above = Coordinate::new(coord.x, coord.y - 1);
        let below = Coordinate::new(coord.x, coord.y + 1);
        if self.strict_mode {
            let has_above = grid.get(above).is_some();
            let has_below = grid.get(below).is_some();
            !has_above && !has_below
        } else {
            false
        }
    }

    /// Whether `<` or `>` at `coord` lacks cells left and right (strict mode only).
    fn has_invalid_horizontal_connection(&self, grid: &ProgramGrid, coord: Coordinate) -> (r: bool)
        requires
            grid.wf(),
            in_grid_range(coord),
        ensures
            r == invalid_pipe(grid@, coord, '<', self.spec_strict()),
    {
        let left = Coordinate::new(coord.x - 1, coord.y);
        let right = Coordinate::new(coord.x + 1, coord.y);
        if self.strict_mode {
            let has_left = grid.get(left).is_some();
            let has_right = grid.get(right).is_some();
            !has_left && !has_right
        } else {
            false
        }
    }

    /// Whether a corner pipe at `coord` has no connection on either of its
    /// corner pairs (strict mode only).
    fn has_invalid_corner_placement(&self, grid: &ProgramGrid, coord: Coordinate, symbol: char) -> (r: bool)
        requires
            grid.wf(),
            in_grid_range(coord),
        ensures
            (symbol == '/' || symbol == '\\') ==> r == invalid_pipe(grid@, coord, symbol, self.spec_strict()),
            !(symbol == '/' || symbol == '\\') ==> !r,
    {
        if !self.strict_mode {
            return false;
        }
        let valid_pairs: [(Direction, Direction); 2] = if symbol == '/' {
            [(Direction::Right, Direction::Up), (Direction::Down, Direction::Left)]
        } else if symbol == '\\' {
            [(Direction::Right, Direction::Down), (Direction::Up, Direction::Left)]
        } else {
            return false;
        };
        let mut has_valid_connection = false;
        let mut k: usize = 0;
        while k < 2 && !has_valid_connection
            invariant
                grid.wf(),
                in_grid_range(coord),
                k <= 2,
                symbol == '/' || symbol == '\\',
                symbol == '/' ==> valid_pairs@ == seq![(Direction::Right, Direction::Up), (Direction::Down, Direction::Left)],
                symbol == '\\' ==> valid_pairs@ == seq![(Direction::Right, Direction::Down), (Direction::Up, Direction::Left)],
                has_valid_connection == exists|j: int| 0 <= j < k && (grid@.contains_key(
                    step_back_from(coord, valid_pairs@[j].0),
                ) || grid@.contains_key(crate::interpreter::droplet::step_from(coord, valid_pairs@[j].1))),
            decreases 2 - k,
        {
            let (from_dir, to_dir) = valid_pairs[k];
            let from_coord = coord.step_back(from_dir);
            let to_coord = coord.step(to_dir);
            if grid.get(from_coord).is_some() || grid.get(to_coord).is_some() {
                has_valid_connection = true;
            }
            k = k + 1;
        }
        !has_valid_connection
    }

    /// Whether a pipe symbol at `coord` is badly placed.
    fn is_invalid_pipe_placement(&self, grid: &ProgramGrid, coord: Coordinate, symbol: char) -> (r: bool)
        requires
            grid.wf(),
            in_grid_range(coord),
        ensures
            r == invalid_pipe(grid@, coord, symbol, self.spec_strict()),
    {
        match symbol {
            '|' | '-' => false,
            '^' => self.has_invalid_vertical_connection(grid, coord),
            'v' => self.has_invalid_vertical_connection(grid, coord),
            '<' => self.has_invalid_horizontal_connection(grid, coord),
            '>' => self.has_invalid_horizontal_connection(grid, coord),
            '/' | '\\' => self.has_invalid_corner_placement(grid, coord, symbol),
            _ => false,
        }
    }

    /// The suggestions for a badly placed pipe.
    fn get_pipe_placement_suggestions(&self, symbol: char, coord: Coordinate, grid: &ProgramGrid) -> (r: Vec<String>)
        requires
            grid.wf(),
            in_grid_range(coord),
        ensures
            string_views(r@) == pipe_suggestions(grid@, coord, symbol),
    {
        let r: Vec<String> = if symbol == '^' || symbol == 'v' {
            let has_above = grid.get(Coordinate::new(coord.x, coord.y - 1)).is_some();
            let has_below = grid.get(Coordinate::new(coord.x, coord.y + 1)).is_some();
            if !has_above && !has_below {
                texts(&["Add a cell above or below this vertical pipe", "Use '|' for bidirectional vertical flow"])
            } else if !has_above {
                texts(&["Add a cell above to complete the vertical connection"])
            } else if !has_below {
                texts(&["Add a cell below to complete the vertical connection"])
            } else {
                Vec::new()
            }
        } else if symbol == '<' || symbol == '>' {
            let has_left = grid.get(Coordinate::new(coord.x - 1, coord.y)).is_some();
            let has_right = grid.get(Coordinate::new(coord.x + 1, coord.y)).is_some();
            if !has_left && !has_right {
                texts(&["Add a cell to the left or right of this horizontal pipe", "Use '-' for bidirectional horizontal flow"])
            } else if !has_left {
                texts(&["Add a cell to the left to complete the horizontal connection"])
            } else if !has_right {
                texts(&["Add a cell to the right to complete the horizontal connection"])
            } else {
                Vec::new()
            }
        } else if symbol == '/' || symbol == '\\' {
            texts(&["Ensure corner pipes have proper connections on their valid sides", "Check that adjacent cells align with the corner's direction"])
        } else {
            texts(&["Ensure the pipe symbol has appropriate connections"])
        };
        assert(string_views(r@) =~= pipe_suggestions(grid@, coord, symbol));
        r
    }

    /// The help text for a pipe symbol.
    fn get_pipe_help_text(&self, symbol: char) -> (r: String)
        ensures
            r@ == pipe_help(symbol),
    {
        match symbol {
            '^' => text("This pipe directs flow upward. In strict mode, it should have at least one connection (above or below)."),
            'v' => text("This pipe directs flow downward. In strict mode, it should have at least one connection (above or below)."),
            '<' => text("This pipe directs flow leftward. In strict mode, it should have at least one connection (left or right)."),
            '>' => text("This pipe directs flow rightward. In strict mode, it should have at least one connection (left or right)."),
            '|' => text("This pipe allows bidirectional vertical flow and connects cells above and below."),
            '-' => text("This pipe allows bidirectional horizontal flow and connects cells left and right."),
            '/' => text("This corner pipe redirects flow from right to up or from down to left."),
            '\\' => text("This corner pipe redirects flow from left to down or from up to right."),
            _ => text("This is a flow control symbol that directs droplet movement."),
        }
    }
}


/// How many cells hold the start symbol.
pub open spec fn start_count(cells: Seq<(Coordinate, ProgramCell)>) -> nat
    decreases cells.len(),
{
    if cells.len() == 0 {
        0
    } else {
        start_count(cells.drop_last()) + if cells.last().1.symbol == '@' { 1nat } else { 0nat }
    }
}

/// Every cell of a well-formed grid lies within range and is a key of it.
proof fn lemma_cell_facts(grid: &ProgramGrid, i: int)
    requires
        grid.wf(),
        0 <= i < grid.spec_cells().len(),
    ensures
        grid@.contains_key(grid.spec_cells()[i].0),
        grid@[grid.spec_cells()[i].0] == grid.spec_cells()[i].1,
        in_grid_range(grid.spec_cells()[i].0),
{
    grid.lemma_cells();
    lemma_assoc_at(grid.spec_cells(), i);
    grid.lemma_wf_facts();
}

impl ProgramValidator {
    /// The start symbol check: there must be one, and in strict mode it may not
    /// lie on the top row or the left column.
    fn validate_start_symbol_with_context(&self, grid: &ProgramGrid) -> (r: Result<InterpreterError, InterpreterError>)
        requires
            cells_ok(self, grid),
        ensures
            grid.spec_start() is None ==> (r matches Err(e) && no_start_error(e)),
            grid.spec_start() is Some && self.spec_strict() && (grid.spec_start()->0.x == 0 || grid.spec_start()->0.y == 0)
                ==> (r matches Err(e) && edge_start_error(e, grid.spec_start()->0)),
            grid.spec_start() is Some && !(self.spec_strict() && (grid.spec_start()->0.x == 0 || grid.spec_start()->0.y == 0))
                ==> r is Ok,
    {
        match grid.start() {
            None => {
                let error = InterpreterError::enhanced(text("No start symbol (@) found in program"), ErrorType::Initialization)
                    .with_suggestions(texts(&["Add a start symbol '@' to your program", "The start symbol should be placed where you want execution to begin"]))
                    .with_help(text("Every Tubular program needs exactly one start symbol '@' to indicate where execution should begin."));
                proof {
                    assert(string_views(error->info.suggestions@) =~= seq!["Add a start symbol '@' to your program"@, "The start symbol should be placed where you want execution to begin"@]);
                }
                Err(error)
            },
            Some(start_pos) => {
                if self.strict_mode && (start_pos.x == 0 || start_pos.y == 0) {
                    proof {
                        grid.lemma_wf_facts();
                    }
                    let context = self.create_error_context_for_coord(start_pos);
                    let error = InterpreterError::enhanced(text("Start symbol '@' cannot be placed at the edge in strict mode"), ErrorType::Validation)
                        .with_context(context)
                        .with_suggestions(texts(&["Move the start symbol away from the edge", "Add at least one space margin around the start symbol"]))
                        .with_help(text("In strict mode, the start symbol should have at least one cell of space around it to ensure proper flow."));
                    proof {
                        assert(string_views(error->info.suggestions@) =~= seq!["Move the start symbol away from the edge"@, "Add at least one space margin around the start symbol"@]);
                    }
                    return Err(error);
                }
                Ok(InterpreterError::enhanced(text("Validation passed"), ErrorType::Validation))
            },
        }
    }

    /// The pipe placement check: the first badly placed pipe is reported.
    fn validate_flow_control_with_context(&self, grid: &ProgramGrid) -> (r: Result<InterpreterError, InterpreterError>)
        requires
            cells_ok(self, grid),
        ensures
            scan_result(r, grid.spec_cells(), CellCheck::Pipe, grid@, self.spec_strict()),
    {
        let cells = grid.iter();
        let mut i: usize = 0;
        while i < cells.len()
            invariant
                cells_ok(self, grid),
                cells@ == grid.spec_cells(),
                i <= cells@.len(),
                none_before(cells@, CellCheck::Pipe, grid@, self.spec_strict(), i as int),
            decreases cells@.len() - i,
        {
            let (coord, cell) = cells[i];
            proof {
                lemma_cell_facts(grid, i as int);
            }
            if ProgramCell::is_flow_control_symbol(cell.symbol) && self.is_invalid_pipe_placement(grid, coord, cell.symbol) {
                let context = self.create_error_context_for_coord(coord);
                let suggestions = self.get_pipe_placement_suggestions(cell.symbol, coord, grid);
                let mut message = text("Invalid flow control pipe '");
                push_char(&mut message, cell.symbol);
                push_str(&mut message, "' at this position");
                let error = InterpreterError::enhanced(message, ErrorType::Validation).with_context(context)
                    .with_suggestions(suggestions).with_help(self.get_pipe_help_text(cell.symbol));
                proof {
                    assert(error->info.message@ =~= "Invalid flow control pipe '"@ + seq![cell.symbol] + "' at this position"@);
                    assert(first_at(cells@, CellCheck::Pipe, grid@, self.spec_strict(), i as int));
                }
                return Err(error);
            }
            i = i + 1;
        }
        Ok(InterpreterError::enhanced(text("Flow control validation passed"), ErrorType::Validation))
    }

    /// The symbol checks: exactly one start symbol, and in strict mode the rules
    /// on symbol combinations.
    fn validate_symbols_with_context(&self, grid: &ProgramGrid) -> (r: Result<InterpreterError, InterpreterError>)
        requires
            cells_ok(self, grid),
        ensures
            start_count(grid.spec_cells()) != 1 ==> (r matches Err(e) && start_count_error(e, start_count(grid.spec_cells()))),
            start_count(grid.spec_cells()) == 1 && self.spec_strict() ==> scan_result(r, grid.spec_cells(), CellCheck::Combination, grid@, true),
            start_count(grid.spec_cells()) == 1 && !self.spec_strict() ==> r is Ok,
    {
        let cells = grid.iter();
        let mut start_count_: usize = 0;
        let mut i: usize = 0;
        proof {
            assert(cells@.take(0) =~= Seq::<(Coordinate, ProgramCell)>::empty());
        }
        while i < cells.len()
            invariant
                cells@ == grid.spec_cells(),
                i <= cells@.len(),
                start_count_ == start_count(cells@.take(i as int)),
                start_count_ <= i,
            decreases cells@.len() - i,
        {
            proof {
                assert(cells@.take(i + 1).drop_last() =~= cells@.take(i as int));
            }
            if cells[i].1.symbol == '@' {
                start_count_ = start_count_ + 1;
            }
            i = i + 1;
        }
        assert(cells@.take(cells@.len() as int) =~= cells@);
        if start_count_ != 1 {
            let error = if start_count_ == 0 {
                let e = InterpreterError::enhanced(text("No start symbol (@) found in program"), ErrorType::Initialization)
                    .with_suggestions(texts(&["Add a start symbol '@' to your program", "The start symbol should be placed where you want execution to begin"]))
                    .with_help(text("Every Tubular program needs exactly one start symbol '@' to indicate where execution should begin."));
                proof {
                    assert(string_views(e->info.suggestions@) =~= seq!["Add a start symbol '@' to your program"@, "The start symbol should be placed where you want execution to begin"@]);
                }
                e
            } else {
                let mut message = text("Multiple start symbols (@) found: ");
                push_nat(&mut message, start_count_ as u128);
                push_str(&mut message, " start symbols");
                let e = InterpreterError::enhanced(message, ErrorType::Initialization)
                    .with_suggestions(texts(&["Remove all but one start symbol '@'", "Choose the location where you want execution to begin"]))
                    .with_help(text("A Tubular program can only have one start symbol '@'. Multiple start symbols create ambiguity about where execution should begin."));
                proof {
                    assert(string_views(e->info.suggestions@) =~= seq!["Remove all but one start symbol '@'"@, "Choose the location where you want execution to begin"@]);
                }
                e
            };
            return Err(error);
        }
        if self.strict_mode {
            if let Err(e) = self.validate_symbol_combinations_with_context(grid) {
                return Err(e);
            }
        }
        Ok(InterpreterError::enhanced(text("Symbol validation passed"), ErrorType::Validation))
    }

    /// The strict rules on symbol combinations: the first stack operation
    /// without data, or arithmetic operation without operands, is reported.
    fn validate_symbol_combinations_with_context(&self, grid: &ProgramGrid) -> (r: Result<InterpreterError, InterpreterError>)
        requires
            cells_ok(self, grid),
        ensures
            scan_result(r, grid.spec_cells(), CellCheck::Combination, grid@, self.spec_strict()),
    {
        let cells = grid.iter();
        let mut i: usize = 0;
        while i < cells.len()
            invariant
                cells_ok(self, grid),
                cells@ == grid.spec_cells(),
                i <= cells@.len(),
                none_before(cells@, CellCheck::Combination, grid@, self.spec_strict(), i as int),
            decreases cells@.len() - i,
        {
            let (coord, cell) = cells[i];
            let s = cell.symbol;
            proof {
                lemma_cell_facts(grid, i as int);
            }
            if (s == ':' || s == ';' || s == 'd') && !self.has_data_access(grid, coord) {
                let context = self.create_error_context_for_coord(coord);
                let mut message = text("Stack operation '");
                push_char(&mut message, s);
                push_str(&mut message, "' has no access to data");
                let error = InterpreterError::enhanced(message, ErrorType::Semantic).with_context(context)
                    .with_suggestions(texts(&["Add a data source nearby (numbers, input symbol '?', or other stack operations)", "Move the operation closer to data flow"]))
                    .with_help(text("Stack operations need access to data to function properly. Place them near data sources or in the flow of operations."));
                proof {
                    assert(error->info.message@ =~= "Stack operation '"@ + seq![s] + "' has no access to data"@);
                    assert(string_views(error->info.suggestions@) =~= seq![
                        "Add a data source nearby (numbers, input symbol '?', or other stack operations)"@,
                        "Move the operation closer to data flow"@,
                    ]);
                    assert(first_at(cells@, CellCheck::Combination, grid@, self.spec_strict(), i as int));
                }
                return Err(error);
            }
            if (s == 'A' || s == 'S' || s == 'M' || s == 'D') && !self.has_data_source_nearby(grid, coord) {
                let context = self.create_error_context_for_coord(coord);
                let mut message = match s {
                    'A' => text("Addition"),
                    'S' => text("Subtraction"),
                    'M' => text("Multiplication"),
                    'D' => text("Division"),
                    _ => text("Arithmetic"),
                };
                push_str(&mut message, " operation '");
                push_char(&mut message, s);
                push_str(&mut message, "' has no operands available");
                let error = InterpreterError::enhanced(message, ErrorType::Semantic).with_context(context)
                    .with_suggestions(texts(&["Add numeric literals (0-9) nearby", "Ensure data flow reaches this operation", "Add input operations or other data sources upstream"]))
                    .with_help(text("Arithmetic operations need at least one operand to work with. Make sure there's data flowing into this operation."));
                proof {
                    assert(error->info.message@ =~= operation_name(s) + " operation '"@ + seq![s] + "' has no operands available"@);
                    assert(string_views(error->info.suggestions@) =~= seq![
                        "Add numeric literals (0-9) nearby"@,
                        "Ensure data flow reaches this operation"@,
                        "Add input operations or other data sources upstream"@,
                    ]);
                    assert(first_at(cells@, CellCheck::Combination, grid@, self.spec_strict(), i as int));
                }
                return Err(error);
            }
            i = i + 1;
        }
        Ok(InterpreterError::enhanced(text("Symbol combination validation passed"), ErrorType::Validation))
    }

    /// The strict rules: the first orphaned pipe, then the first badly placed
    /// input or output, then the first memory operation without coordinates.
    fn validate_strict_rules_with_context(&self, grid: &ProgramGrid) -> (r: Result<InterpreterError, InterpreterError>)
        requires
            cells_ok(self, grid),
        ensures
            strict_rules_result(r, grid.spec_cells(), grid@, self.spec_strict()),
    {
        if let Err(e) = self.validate_no_orphaned_pipes_with_context(grid) {
            return Err(e);
        }
        if let Err(e) = self.validate_io_placement_with_context(grid) {
            return Err(e);
        }
        if let Err(e) = self.validate_memory_operations_with_context(grid) {
            return Err(e);
        }
        Ok(InterpreterError::enhanced(text("Strict validation passed"), ErrorType::Validation))
    }

    /// The first pipe with no connections is reported.
    fn validate_no_orphaned_pipes_with_context(&self, grid: &ProgramGrid) -> (r: Result<InterpreterError, InterpreterError>)
        requires
            cells_ok(self, grid),
        ensures
            scan_result(r, grid.spec_cells(), CellCheck::Orphan, grid@, self.spec_strict()),
    {
        let cells = grid.iter();
        let mut i: usize = 0;
        while i < cells.len()
            invariant
                cells_ok(self, grid),
                cells@ == grid.spec_cells(),
                i <= cells@.len(),
                none_before(cells@, CellCheck::Orphan, grid@, self.spec_strict(), i as int),
            decreases cells@.len() - i,
        {
            let (coord, cell) = cells[i];
            proof {
                lemma_cell_facts(grid, i as int);
            }
            if ProgramCell::is_flow_control_symbol(cell.symbol) && self.is_orphaned_pipe(grid, coord, cell.symbol) {
                let context = self.create_error_context_for_coord(coord);
                let mut message = text("Orphaned flow control pipe '");
                push_char(&mut message, cell.symbol);
                push_str(&mut message, "' has no connections");
                let error = InterpreterError::enhanced(message, ErrorType::Validation).with_context(context)
                    .with_suggestions(texts(&["Add adjacent cells to connect this pipe", "Remove the orphaned pipe if not needed", "Check for gaps in your flow control network"]))
                    .with_help(text("Flow control pipes need to be connected to other cells to be useful. An orphaned pipe cannot guide droplets anywhere."));
                proof {
                    assert(error->info.message@ =~= "Orphaned flow control pipe '"@ + seq![cell.symbol] + "' has no connections"@);
                    assert(string_views(error->info.suggestions@) =~= seq![
                        "Add adjacent cells to connect this pipe"@,
                        "Remove the orphaned pipe if not needed"@,
                        "Check for gaps in your flow control network"@,
                    ]);
                    assert(first_at(cells@, CellCheck::Orphan, grid@, self.spec_strict(), i as int));
                    assert(orphan_error(error, cells@[i as int]));
                }
                return Err(error);
            }
            i = i + 1;
        }
        Ok(InterpreterError::enhanced(text("Orphaned pipe validation passed"), ErrorType::Validation))
    }

    /// The first output with no cell above it, or input with no neighbour, is reported.
    fn validate_io_placement_with_context(&self, grid: &ProgramGrid) -> (r: Result<InterpreterError, InterpreterError>)
        requires
            cells_ok(self, grid),
        ensures
            scan_result(r, grid.spec_cells(), CellCheck::Io, grid@, self.spec_strict()),
    {
        let cells = grid.iter();
        let mut i: usize = 0;
        while i < cells.len()
            invariant
                cells_ok(self, grid),
                cells@ == grid.spec_cells(),
                i <= cells@.len(),
                none_before(cells@, CellCheck::Io, grid@, self.spec_strict(), i as int),
            decreases cells@.len() - i,
        {
            let (coord, cell) = cells[i];
            let s = cell.symbol;
            proof {
                lemma_cell_facts(grid, i as int);
            }
            if (s == ',' || s == 'n') && !self.has_upstream_connection(grid, coord) {
                let context = self.create_error_context_for_coord(coord);
                let mut message = text("Output operation '");
                push_char(&mut message, s);
                push_str(&mut message, "' has no upstream connection");
                let error = InterpreterError::enhanced(message, ErrorType::Validation).with_context(context)
                    .with_suggestions(texts(&["Add flow control leading to this output operation", "Place the output operation in the main flow path", "Connect this operation to upstream cells"]))
                    .with_help(text("Output operations need to be reachable by droplets to function. Ensure there's a path for droplets to reach this cell."));
                proof {
                    assert(error->info.message@ =~= "Output operation '"@ + seq![s] + "' has no upstream connection"@);
                    assert(string_views(error->info.suggestions@) =~= seq![
                        "Add flow control leading to this output operation"@,
                        "Place the output operation in the main flow path"@,
                        "Connect this operation to upstream cells"@,
                    ]);
                    assert(first_at(cells@, CellCheck::Io, grid@, self.spec_strict(), i as int));
                }
                return Err(error);
            }
            if s == '?' && self.is_dead_end(grid, coord) {
                let context = self.create_error_context_for_coord(coord);
                let error = InterpreterError::enhanced(text("Input operation '?' is at a dead end"), ErrorType::Validation)
                    .with_context(context)
                    .with_suggestions(texts(&["Add flow control after the input operation", "Connect the input operation to downstream cells", "Ensure input can flow to the rest of the program"]))
                    .with_help(text("Input operations should provide data to the rest of the program. If it's at a dead end, the input data won't be used."));
                proof {
                    assert(string_views(error->info.suggestions@) =~= seq![
                        "Add flow control after the input operation"@,
                        "Connect the input operation to downstream cells"@,
                        "Ensure input can flow to the rest of the program"@,
                    ]);
                    assert(first_at(cells@, CellCheck::Io, grid@, self.spec_strict(), i as int));
                }
                return Err(error);
            }
            i = i + 1;
        }
        Ok(InterpreterError::enhanced(text("I/O placement validation passed"), ErrorType::Validation))
    }

    /// The first memory operation without a coordinate source next to it is reported.
    fn validate_memory_operations_with_context(&self, grid: &ProgramGrid) -> (r: Result<InterpreterError, InterpreterError>)
        requires
            cells_ok(self, grid),
        ensures
            scan_result(r, grid.spec_cells(), CellCheck::Memory, grid@, self.spec_strict()),
    {
        let cells = grid.iter();
        let mut i: usize = 0;
        while i < cells.len()
            invariant
                cells_ok(self, grid),
                cells@ == grid.spec_cells(),
                i <= cells@.len(),
                none_before(cells@, CellCheck::Memory, grid@, self.spec_strict(), i as int),
            decreases cells@.len() - i,
        {
            let (coord, cell) = cells[i];
            let s = cell.symbol;
            proof {
                lemma_cell_facts(grid, i as int);
            }
            if (s == 'G' || s == 'P') && !self.can_access_stack_coordinates(grid, coord) {
                let context = self.create_error_context_for_coord(coord);
                let mut message = if s == 'G' { text("Get (read)") } else { text("Put (write)") };
                push_str(&mut message, " memory operation '");
                push_char(&mut message, s);
                push_str(&mut message, "' cannot access stack coordinates");
                let error = InterpreterError::enhanced(message, ErrorType::Validation).with_context(context)
                    .with_suggestions(texts(&["Add stack operations nearby to provide coordinates", "Place numeric literals for direct addressing", "Move the operation closer to coordinate sources"]))
                    .with_help(text("Memory operations need coordinates from the stack or direct addressing. Ensure there's a way to provide coordinates to this operation."));
                proof {
                    assert(error->info.message@ =~= (if s == 'G' { "Get (read)"@ } else { "Put (write)"@ }) + " memory operation '"@
                        + seq![s] + "' cannot access stack coordinates"@);
                    assert(string_views(error->info.suggestions@) =~= seq![
                        "Add stack operations nearby to provide coordinates"@,
                        "Place numeric literals for direct addressing"@,
                        "Move the operation closer to coordinate sources"@,
                    ]);
                    assert(first_at(cells@, CellCheck::Memory, grid@, self.spec_strict(), i as int));
                }
                return Err(error);
            }
            i = i + 1;
        }
        Ok(InterpreterError::enhanced(text("Memory operations validation passed"), ErrorType::Validation))
    }
}


/// The positions reachability follows out of position `p`: none when `p` is not a cell.
pub open spec fn successors(g: Map<Coordinate, ProgramCell>, p: Coordinate) -> Seq<Coordinate> {
    if g.contains_key(p) { next_positions(p, g[p].symbol) } else { Seq::empty() }
}

/// Whether `path` starts at `start` and each of its positions follows from the one before.
pub open spec fn is_path(g: Map<Coordinate, ProgramCell>, start: Coordinate, path: Seq<Coordinate>) -> bool {
    &&& path.len() > 0
    &&& path[0] == start
    &&& forall|i: int| 0 <= i < path.len() - 1 ==> #[trigger] successors(g, path[i]).contains(path[i + 1])
}

/// Whether `p` can be reached from `start`.
pub open spec fn reachable(g: Map<Coordinate, ProgramCell>, start: Coordinate, p: Coordinate) -> bool {
    exists|path: Seq<Coordinate>| #[trigger] is_path(g, start, path) && path.last() == p
}

/// The positions reachable from `start` (cells or not).
pub open spec fn reachable_set(g: Map<Coordinate, ProgramCell>, start: Coordinate) -> Set<Coordinate> {
    Set::new(|p: Coordinate| reachable(g, start, p))
}

/// Every position reachability can follow out of the cells, in order.
pub open spec fn successor_candidates(cells: Seq<(Coordinate, ProgramCell)>) -> Seq<Coordinate>
    decreases cells.len(),
{
    if cells.len() == 0 {
        Seq::empty()
    } else {
        successor_candidates(cells.drop_last()) + next_positions(cells.last().0, cells.last().1.symbol)
    }
}

/// The successors of a cell are among the candidates.
proof fn lemma_candidates(cells: Seq<(Coordinate, ProgramCell)>, i: int, q: Coordinate)
    requires
        0 <= i < cells.len(),
        next_positions(cells[i].0, cells[i].1.symbol).contains(q),
    ensures
        successor_candidates(cells).contains(q),
    decreases cells.len(),
{
    let prev = successor_candidates(cells.drop_last());
    let last = next_positions(cells.last().0, cells.last().1.symbol);
    if i == cells.len() - 1 {
        let k = choose|k: int| 0 <= k < last.len() && last[k] == q;
        assert((prev + last)[prev.len() + k] == q);
    } else {
        assert(cells.drop_last()[i] == cells[i]);
        lemma_candidates(cells.drop_last(), i, q);
        let k = choose|k: int| 0 <= k < prev.len() && prev[k] == q;
        assert((prev + last)[k] == q);
    }
}

/// Every reachable position is the start or a candidate.
proof fn lemma_reachable_candidate(grid: &ProgramGrid, start: Coordinate, p: Coordinate)
    requires
        grid.wf(),
        reachable(grid@, start, p),
    ensures
        p == start || successor_candidates(grid.spec_cells()).contains(p),
{
    let path = choose|path: Seq<Coordinate>| #[trigger] is_path(grid@, start, path) && path.last() == p;
    if path.len() > 1 {
        let n = path.len() - 2;
        let q = path[n];
        assert(successors(grid@, path[n]).contains(path[n + 1]));
        assert(grid@.contains_key(q));
        grid.lemma_cells();
        let i = assoc_index(grid.spec_cells(), q);
        lemma_assoc_at(grid.spec_cells(), i);
        lemma_candidates(grid.spec_cells(), i, p);
    }
}

/// A set of positions that holds the start and the successors of its members
/// holds every position of a path from the start.
proof fn lemma_closed_holds_path(g: Map<Coordinate, ProgramCell>, start: Coordinate, s: Set<Coordinate>, path: Seq<Coordinate>, i: int)
    requires
        s.contains(start),
        forall|v: Coordinate, q: Coordinate| #[trigger] s.contains(v) && successors(g, v).contains(q) ==> #[trigger] s.contains(q),
        is_path(g, start, path),
        0 <= i < path.len(),
    ensures
        s.contains(path[i]),
    decreases i,
{
    if i > 0 {
        lemma_closed_holds_path(g, start, s, path, i - 1);
        assert(successors(g, path[i - 1]).contains(path[i - 1 + 1]));
    }
}

/// A set of positions that holds the start and the successors of its members
/// holds every reachable position.
proof fn lemma_closed_holds_reachable(g: Map<Coordinate, ProgramCell>, start: Coordinate, s: Set<Coordinate>, p: Coordinate)
    requires
        s.contains(start),
        forall|v: Coordinate, q: Coordinate| #[trigger] s.contains(v) && successors(g, v).contains(q) ==> #[trigger] s.contains(q),
        reachable(g, start, p),
    ensures
        s.contains(p),
{
    let path = choose|path: Seq<Coordinate>| #[trigger] is_path(g, start, path) && path.last() == p;
    lemma_closed_holds_path(g, start, s, path, path.len() - 1);
}

/// The start is reachable.
proof fn lemma_start_reachable(g: Map<Coordinate, ProgramCell>, start: Coordinate)
    ensures
        reachable(g, start, start),
{
    assert(is_path(g, start, seq![start]));
}

/// A successor of a reachable position is reachable.
proof fn lemma_reachable_step(g: Map<Coordinate, ProgramCell>, start: Coordinate, v: Coordinate, q: Coordinate)
    requires
        reachable(g, start, v),
        successors(g, v).contains(q),
    ensures
        reachable(g, start, q),
{
    let path = choose|path: Seq<Coordinate>| #[trigger] is_path(g, start, path) && path.last() == v;
    let longer = path.push(q);
    assert forall|i: int| 0 <= i < longer.len() - 1 implies #[trigger] successors(g, longer[i]).contains(longer[i + 1]) by {
        if i < path.len() - 1 {
            assert(successors(g, path[i]).contains(path[i + 1]));
        }
    }
    assert(is_path(g, start, longer));
}

/// The error for unreachable code, in strict mode.
pub open spec fn unreachable_error(e: InterpreterError, n: nat) -> bool {
    enhanced_error_is(
        e,
        "Found "@ + dec_nat(n) + " unreachable code cells"@,
        ErrorType::Validation,
        None,
        seq![
            "Remove unused code cells"@,
            "Connect unreachable code to the main flow"@,
            "Add flow control to reach the isolated cells"@,
        ],
        "Unreachable code cannot be executed and may indicate a bug in your program logic or missing flow connections."@,
    )
}

/// The reachable positions that hold a cell: the code a droplet can reach.
pub open spec fn reached_code_cells(g: Map<Coordinate, ProgramCell>, start: Coordinate) -> Set<Coordinate> {
    reachable_set(g, start).filter(|p: Coordinate| g.contains_key(p))
}

/// Whether `p` is in `v`.
fn contains_coordinate(v: &Vec<Coordinate>, p: Coordinate) -> (r: bool)
    ensures
        r == v@.contains(p),
{
    let mut i: usize = 0;
    while i < v.len()
        invariant
            i <= v@.len(),
            forall|k: int| 0 <= k < i ==> v@[k] != p,
        decreases v@.len() - i,
    {
        if v[i] == p {
            return true;
        }
        i = i + 1;
    }
    false
}

impl ProgramValidator {
    /// The directions reachability follows out of a pipe.
    fn get_flow_directions(&self, symbol: char) -> (r: Vec<Direction>)
        ensures
            r@ == flow_directions(symbol),
    {
        let r = match symbol {
            '|' => vec![Direction::Up, Direction::Down],
            '-' => vec![Direction::Left, Direction::Right],
            '^' => vec![Direction::Up],
            'v' => vec![Direction::Down],
            '<' => vec![Direction::Left],
            '>' => vec![Direction::Right],
            '/' => vec![Direction::Up, Direction::Left],
            '\\' => vec![Direction::Down, Direction::Left],
            _ => Vec::new(),
        };
        assert(r@ =~= flow_directions(symbol));
        r
    }

    /// The positions reachability follows out of a cell at `pos`.
    fn get_next_positions(&self, grid: &ProgramGrid, pos: Coordinate, cell: &ProgramCell) -> (r: Vec<Coordinate>)
        requires
            in_grid_range(pos),
        ensures
            r@ == next_positions(pos, cell.symbol),
            (operator_symbol(cell.symbol) && !flow_control_symbol(cell.symbol)) || cell.symbol == '@' ==> r@ == seq![
                Coordinate { x: pos.x, y: (pos.y + 1) as isize },
            ],
    {
        let mut positions: Vec<Coordinate> = Vec::new();
        if ProgramCell::is_flow_control_symbol(cell.symbol) {
            let directions = self.get_flow_directions(cell.symbol);
            let mut i: usize = 0;
            while i < directions.len()
                invariant
                    in_grid_range(pos),
                    i <= directions@.len(),
                    directions@ == flow_directions(cell.symbol),
                    positions@ == directions@.take(i as int).map_values(|d: Direction| crate::interpreter::droplet::step_from(pos, d)),
                decreases directions@.len() - i,
            {
                let next = pos.step(directions[i]);
                positions.push(next);
                assert(directions@.take(i + 1) =~= directions@.take(i as int).push(directions@[i as int]));
                assert(positions@ =~= directions@.take(i + 1).map_values(|d: Direction| crate::interpreter::droplet::step_from(pos, d)));
                i = i + 1;
            }
            assert(directions@.take(directions@.len() as int) =~= directions@);
        } else if ProgramCell::is_operator_symbol(cell.symbol) || cell.symbol == '@' {
            positions.push(Coordinate::new(pos.x, pos.y + 1));
            assert(positions@ =~= seq![neighbour(pos, 0, 1)]);
        }
        positions
    }

    /// The positions reachable from `start`, each once (a depth-first search).
    fn reachable_positions(&self, grid: &ProgramGrid, start: Coordinate) -> (r: Vec<Coordinate>)
        requires
            grid.wf(),
        ensures
            r@.no_duplicates(),
            r@.to_set() == reachable_set(grid@, start),
    {
        let ghost cands = seq![start] + successor_candidates(grid.spec_cells());
        let ghost cset = cands.to_set();
        proof {
            cands.lemma_cardinality_of_set();
            assert(cands[0] == start);
            lemma_start_reachable(grid@, start);
        }
        let mut visited: Vec<Coordinate> = Vec::new();
        let mut to_visit: Vec<Coordinate> = Vec::new();
        to_visit.push(start);
        while to_visit.len() > 0
            invariant
                grid.wf(),
                cands == seq![start] + successor_candidates(grid.spec_cells()),
                cset == cands.to_set(),
                cset.finite(),
                visited@.no_duplicates(),
                forall|v: Coordinate| #[trigger] visited@.contains(v) ==> reachable(grid@, start, v) && cset.contains(v),
                forall|t: Coordinate| #[trigger] to_visit@.contains(t) ==> reachable(grid@, start, t) && cset.contains(t),
                forall|v: Coordinate, q: Coordinate| #[trigger] visited@.contains(v) && #[trigger] successors(grid@, v).contains(q)
                    ==> visited@.contains(q) || to_visit@.contains(q),
                visited@.contains(start) || to_visit@.contains(start),
                visited@.len() <= cset.len(),
            decreases cset.len() - visited@.len(), to_visit@.len(),
        {
            let ghost before_visit = to_visit@;
            let current = to_visit.pop().unwrap();
            proof {
                assert(before_visit =~= to_visit@.push(current));
                assert forall|t: Coordinate| #[trigger] before_visit.contains(t) implies to_visit@.contains(t) || t == current by {
                    let k = choose|k: int| 0 <= k < before_visit.len() && before_visit[k] == t;
                    if k < to_visit@.len() {
                        assert(to_visit@[k] == t);
                    }
                }
                assert(before_visit.contains(current)) by {
                    assert(before_visit[before_visit.len() - 1] == current);
                }
                assert forall|t: Coordinate| #[trigger] to_visit@.contains(t) implies reachable(grid@, start, t) && cset.contains(t) by {
                    let k = choose|k: int| 0 <= k < to_visit@.len() && to_visit@[k] == t;
                    assert(before_visit[k] == t);
                    assert(before_visit.contains(t));
                }
            }
            if !contains_coordinate(&visited, current) {
                let ghost old_visited = visited@;
                visited.push(current);
                proof {
                    assert forall|v: Coordinate| #[trigger] visited@.contains(v) <==> (old_visited.contains(v) || v == current) by {
                        if old_visited.contains(v) {
                            let k = choose|k: int| 0 <= k < old_visited.len() && old_visited[k] == v;
                            assert(visited@[k] == v);
                        }
                        if visited@.contains(v) {
                            let k = choose|k: int| 0 <= k < visited@.len() && visited@[k] == v;
                            if k < old_visited.len() {
                                assert(old_visited[k] == v);
                            }
                        }
                        assert(visited@[visited@.len() - 1] == current);
                    }
                    old_visited.unique_seq_to_set();
                    visited@.unique_seq_to_set();
                    assert(visited@.to_set() =~= old_visited.to_set().insert(current));
                    assert(visited@.to_set().subset_of(cset));
                    vstd::set_lib::lemma_len_subset(visited@.to_set(), cset);
                }
                if let Some(cell) = grid.get(current) {
                    proof {
                        grid.lemma_wf_facts();
                    }
                    let next_positions_ = self.get_next_positions(grid, current, cell);
                    let mut j: usize = 0;
                    while j < next_positions_.len()
                        invariant
                            grid.wf(),
                            grid@.contains_key(current),
                            next_positions_@ == successors(grid@, current),
                            reachable(grid@, start, current),
                            cset == cands.to_set(),
                            cands == seq![start] + successor_candidates(grid.spec_cells()),
                            j <= next_positions_@.len(),
                            forall|t: Coordinate| #[trigger] to_visit@.contains(t) ==> reachable(grid@, start, t) && cset.contains(t),
                            forall|k: int| 0 <= k < j ==> visited@.contains(#[trigger] next_positions_@[k]) || to_visit@.contains(next_positions_@[k]),
                            forall|t: Coordinate| #[trigger] before_visit.contains(t) ==> to_visit@.contains(t) || t == current,
                        decreases next_positions_@.len() - j,
                    {
                        let next = next_positions_[j];
                        proof {
                            assert(successors(grid@, current).contains(next)) by {
                                assert(successors(grid@, current)[j as int] == next);
                            }
                            lemma_reachable_step(grid@, start, current, next);
                            lemma_reachable_candidate(grid, start, next);
                            if next == start {
                                assert(cands[0] == next);
                            } else {
                                let m = choose|m: int| 0 <= m < successor_candidates(grid.spec_cells()).len()
                                    && successor_candidates(grid.spec_cells())[m] == next;
                                assert(cands[m + 1] == next);
                            }
                            assert(cset.contains(next));
                        }
                        if !contains_coordinate(&visited, next) {
                            let ghost old_to_visit = to_visit@;
                            to_visit.push(next);
                            proof {
                                assert forall|t: Coordinate| #[trigger] old_to_visit.contains(t) implies to_visit@.contains(t) by {
                                    let k = choose|k: int| 0 <= k < old_to_visit.len() && old_to_visit[k] == t;
                                    assert(to_visit@[k] == t);
                                }
                                assert forall|t: Coordinate| #[trigger] to_visit@.contains(t) implies reachable(grid@, start, t) && cset.contains(t) by {
                                    let k = choose|k: int| 0 <= k < to_visit@.len() && to_visit@[k] == t;
                                    if k < old_to_visit.len() {
                                        assert(old_to_visit[k] == t);
                                        assert(old_to_visit.contains(t));
                                    } else {
                                        assert(t == next);
                                    }
                                }
                                assert(to_visit@[to_visit@.len() - 1] == next);
                            }
                        }
                        j = j + 1;
                    }
                    proof {
                        assert forall|q: Coordinate| #[trigger] successors(grid@, current).contains(q) implies visited@.contains(q) || to_visit@.contains(q) by {
                            let k = choose|k: int| 0 <= k < successors(grid@, current).len() && successors(grid@, current)[k] == q;
                            assert(next_positions_@[k] == q);
                        }
                    }
                } else {
                    assert(successors(grid@, current) =~= Seq::<Coordinate>::empty());
                }
            }
        }
        proof {
            let s = visited@.to_set();
            assert forall|v: Coordinate, q: Coordinate| #[trigger] s.contains(v) && successors(grid@, v).contains(q) implies #[trigger] s.contains(q) by {
                assert(visited@.contains(v));
            }
            assert forall|p: Coordinate| reachable_set(grid@, start).contains(p) <==> s.contains(p) by {
                if reachable(grid@, start, p) {
                    lemma_closed_holds_reachable(grid@, start, s, p);
                }
            }
            assert(visited@.to_set() =~= reachable_set(grid@, start));
        }
        visited
    }

    /// The number of cells reachable from `start`.
    fn reachable_cell_count(&self, grid: &ProgramGrid, start: Coordinate) -> (r: usize)
        requires
            grid.wf(),
        ensures
            r == reached_code_cells(grid@, start).len(),
            r <= grid@.dom().len(),
    {
        let visited = self.reachable_positions(grid, start);
        let ghost rs = reachable_set(grid@, start);
        let mut cells: Vec<Coordinate> = Vec::new();
        let mut i: usize = 0;
        while i < visited.len()
            invariant
                grid.wf(),
                i <= visited@.len(),
                visited@.no_duplicates(),
                cells@.no_duplicates(),
                forall|p: Coordinate| #[trigger] cells@.contains(p) <==> (grid@.contains_key(p) && exists|k: int| 0 <= k < i && visited@[k] == p),
            decreases visited@.len() - i,
        {
            let p = visited[i];
            let ghost old_cells = cells@;
            if grid.get(p).is_some() {
                proof {
                    assert(!old_cells.contains(p)) by {
                        if old_cells.contains(p) {
                            let k = choose|k: int| 0 <= k < i && visited@[k] == p;
                            assert(visited@[k] == visited@[i as int]);
                        }
                    }
                }
                cells.push(p);
                proof {
                    assert forall|q: Coordinate| #[trigger] cells@.contains(q) <==> (old_cells.contains(q) || q == p) by {
                        if old_cells.contains(q) {
                            let k = choose|k: int| 0 <= k < old_cells.len() && old_cells[k] == q;
                            assert(cells@[k] == q);
                        }
                        if cells@.contains(q) {
                            let k = choose|k: int| 0 <= k < cells@.len() && cells@[k] == q;
                            if k < old_cells.len() {
                                assert(old_cells[k] == q);
                            }
                        }
                        assert(cells@[cells@.len() - 1] == p);
                    }
                }
            }
            proof {
                assert forall|q: Coordinate| #[trigger] cells@.contains(q) <==> (grid@.contains_key(q) && exists|k: int| 0 <= k < i + 1 && visited@[k] == q) by {
                    if grid@.contains_key(q) && exists|k: int| 0 <= k < i + 1 && visited@[k] == q {
                        let k = choose|k: int| 0 <= k < i + 1 && visited@[k] == q;
                        if k < i {
                            assert(old_cells.contains(q));
                        }
                    }
                }
            }
            i = i + 1;
        }
        proof {
            assert forall|p: Coordinate| cells@.to_set().contains(p) <==> reached_code_cells(grid@, start).contains(p) by {
                if cells@.contains(p) {
                    let k = choose|k: int| 0 <= k < visited@.len() && visited@[k] == p;
                    assert(visited@.to_set().contains(p));
                }
                if reached_code_cells(grid@, start).contains(p) {
                    assert(rs.contains(p));
                    assert(visited@.to_set().contains(p));
                    let k = choose|k: int| 0 <= k < visited@.len() && visited@[k] == p;
                }
            }
            assert(cells@.to_set() =~= reached_code_cells(grid@, start));
            cells@.unique_seq_to_set();
            grid.lemma_wf_facts();
            assert(cells@.to_set().subset_of(grid@.dom()));
            vstd::set_lib::lemma_len_subset(cells@.to_set(), grid@.dom());
        }
        cells.len()
    }

    /// The reachable code check: in strict mode, cells that cannot be reached
    /// from the start are reported.
    fn validate_reachable_code_with_context(&self, grid: &ProgramGrid) -> (r: Result<InterpreterError, InterpreterError>)
        requires
            grid.wf(),
        ensures
            grid.spec_start() is None || !self.spec_strict() ==> r is Ok,
            grid.spec_start() is Some && self.spec_strict() ==> ({
                let n = grid@.dom().len() - reached_code_cells(grid@, grid.spec_start()->0).len();
                if n > 0 {
                    r matches Err(e) && unreachable_error(e, n as nat)
                } else {
                    r is Ok
                }
            }),
    {
        let start_pos = match grid.start() {
            None => {
                return Ok(InterpreterError::enhanced(text("Reachable code validation skipped - no start symbol"), ErrorType::Validation));
            },
            Some(s) => s,
        };
        let reached = self.reachable_cell_count(grid, start_pos);
        if self.strict_mode {
            let unreachable_count = grid.cell_count() - reached;
            if unreachable_count > 0 {
                let mut message = text("Found ");
                push_nat(&mut message, unreachable_count as u128);
                push_str(&mut message, " unreachable code cells");
                let error = InterpreterError::enhanced(message, ErrorType::Validation)
                    .with_suggestions(texts(&["Remove unused code cells", "Connect unreachable code to the main flow", "Add flow control to reach the isolated cells"]))
                    .with_help(text("Unreachable code cannot be executed and may indicate a bug in your program logic or missing flow connections."));
                proof {
                    assert(string_views(error->info.suggestions@) =~= seq![
                        "Remove unused code cells"@,
                        "Connect unreachable code to the main flow"@,
                        "Add flow control to reach the isolated cells"@,
                    ]);
                }
                return Err(error);
            }
        }
        Ok(InterpreterError::enhanced(text("Reachable code validation passed"), ErrorType::Validation))
    }
}


/// Whether validation step `k` finds a fault: 0 the grid cannot run, 1 the start
/// symbol, 2 the pipes, 3 the symbols, 4 unreachable code (strict mode), 5 the
/// strict rules (strict mode).
pub open spec fn step_fails(v: &ProgramValidator, grid: &ProgramGrid, k: int) -> bool {
    let cells = grid.spec_cells();
    let g = grid@;
    let strict = v.spec_strict();
    if k == 0 {
        !grid.runnable()
    } else if k == 1 {
        grid.spec_start() is None || (strict && (grid.spec_start()->0.x == 0 || grid.spec_start()->0.y == 0))
    } else if k == 2 {
        any_flagged(cells, CellCheck::Pipe, g, strict)
    } else if k == 3 {
        start_count(cells) != 1 || (strict && any_flagged(cells, CellCheck::Combination, g, true))
    } else if k == 4 {
        strict && grid.spec_start() is Some && reached_code_cells(g, grid.spec_start()->0).len() < g.dom().len()
    } else if k == 5 {
        strict && (any_flagged(cells, CellCheck::Orphan, g, strict) || any_flagged(cells, CellCheck::Io, g, strict)
            || any_flagged(cells, CellCheck::Memory, g, strict))
    } else {
        false
    }
}

/// Whether `e` is the error validation step `k` reports.
pub open spec fn step_error(v: &ProgramValidator, grid: &ProgramGrid, k: int, e: InterpreterError) -> bool {
    let cells = grid.spec_cells();
    let g = grid@;
    let strict = v.spec_strict();
    if k == 0 {
        grid.validation_failure(e)
    } else if k == 1 {
        match grid.spec_start() {
            None => no_start_error(e),
            Some(s) => edge_start_error(e, s),
        }
    } else if k == 2 {
        scan_result(Err(e), cells, CellCheck::Pipe, g, strict)
    } else if k == 3 {
        if start_count(cells) != 1 {
            start_count_error(e, start_count(cells))
        } else {
            scan_result(Err(e), cells, CellCheck::Combination, g, true)
        }
    } else if k == 4 {
        unreachable_error(e, (g.dom().len() - reached_code_cells(g, grid.spec_start()->0).len()) as nat)
    } else {
        strict_rules_result(Err(e), cells, g, strict)
    }
}

/// The first step that finds a fault, or 6 when none does.
pub open spec fn first_failing_step(v: &ProgramValidator, grid: &ProgramGrid) -> int {
    if step_fails(v, grid, 0) {
        0
    } else if step_fails(v, grid, 1) {
        1
    } else if step_fails(v, grid, 2) {
        2
    } else if step_fails(v, grid, 3) {
        3
    } else if step_fails(v, grid, 4) {
        4
    } else if step_fails(v, grid, 5) {
        5
    } else {
        6
    }
}

/// How many of the steps before `k` find a fault.
pub open spec fn failing_steps(v: &ProgramValidator, grid: &ProgramGrid, k: int) -> nat
    decreases k,
{
    if k <= 0 {
        0
    } else {
        failing_steps(v, grid, k - 1) + if step_fails(v, grid, k - 1) { 1nat } else { 0nat }
    }
}

/// Validators with the same mode count the same faults.
proof fn lemma_failing_steps_same(v1: &ProgramValidator, v2: &ProgramValidator, grid: &ProgramGrid, k: int)
    requires
        v1.spec_strict() == v2.spec_strict(),
    ensures
        failing_steps(v1, grid, k) == failing_steps(v2, grid, k),
    decreases k,
{
    if k > 0 {
        lemma_failing_steps_same(v1, v2, grid, k - 1);
    }
}

/// The error that sums up the faults found with error collection.
pub open spec fn collected_error(e: InterpreterError, n: nat) -> bool {
    &&& e matches InterpreterError::Enhanced { info, source }
    &&& e->source is None
    &&& e->info.message@ == "Found "@ + dec_nat(n) + " validation errors"@
    &&& e->info.error_type == ErrorType::Validation
    &&& e->info.severity == ErrorSeverity::Error
    &&& e->info.context is None
    &&& e->info.suggestions@.len() == 0
    &&& e->info.help_text is None
}

/// Whether validating `grid` stays within what the checks can handle: every cell
/// can get an error context, and in strict mode no more positions are reachable
/// from the start than there are cells.
pub open spec fn validation_ok(v: &ProgramValidator, grid: &ProgramGrid) -> bool {
    cells_ok(v, grid)
}

impl ProgramValidator {
    /// Validates `grid`. Without error collection the first fault found is
    /// returned; with it every step runs, and the faults are counted in one error.
    pub fn validate(&self, grid: &ProgramGrid) -> (r: Result<(), InterpreterError>)
        requires
            validation_ok(self, grid),
        ensures
            !self.spec_collect() ==> {
                let k = first_failing_step(self, grid);
                if k < 6 {
                    r matches Err(e) && step_error(self, grid, k, e)
                } else {
                    r is Ok
                }
            },
            self.spec_collect() ==> {
                let n = failing_steps(self, grid, 6);
                if n > 0 {
                    r matches Err(e) && collected_error(e, n)
                } else {
                    r is Ok
                }
            },
    {
        let mut validator = ProgramValidator {
            strict_mode: self.strict_mode,
            collect_errors: self.collect_errors,
            errors: Vec::new(),
            source_content: match &self.source_content {
                Some(c) => Some(c.clone()),
                None => None,
            },
        };
        assert(validator.spec_source_lines() == self.spec_source_lines());
        assert(forall|c: Coordinate| validator.context_ok(c) == self.context_ok(c));
        proof {
            lemma_failing_steps_same(&validator, self, grid, 6);
        }
        validator.validate_with_collection(grid)
    }

    /// Runs the steps of validation, collecting the errors when asked to.
    fn validate_with_collection(&mut self, grid: &ProgramGrid) -> (r: Result<(), InterpreterError>)
        requires
            validation_ok(old(self), grid),
        ensures
            !old(self).spec_collect() ==> {
                let k = first_failing_step(old(self), grid);
                if k < 6 {
                    r matches Err(e) && step_error(old(self), grid, k, e)
                } else {
                    r is Ok
                }
            },
            old(self).spec_collect() ==> {
                let n = failing_steps(old(self), grid, 6);
                &&& final(self).spec_errors().len() == n
                &&& if n > 0 {
                    r matches Err(e) && collected_error(e, n)
                } else {
                    r is Ok
                }
            },
    {
        self.errors.clear();
        let ghost v0 = *old(self);
        assert(self.spec_strict() == v0.spec_strict() && self.spec_source_lines() == v0.spec_source_lines());
        assert(forall|c: Coordinate| self.context_ok(c) == v0.context_ok(c));
        assert(forall|k: int| step_fails(&*self, grid, k) == step_fails(&v0, grid, k));
        if let Err(e) = grid.validate() {
            if self.collect_errors {
                self.add_enhanced_error(e, None);
            } else {
                return Err(e);
            }
        }
        assert(failing_steps(&v0, grid, 0) == 0);
        assert(self.errors@.len() == failing_steps(&v0, grid, 1));
        if let Err(e) = self.validate_start_symbol_with_context(grid) {
            if self.collect_errors {
                self.errors.push(e);
            } else {
                return Err(e);
            }
        }
        assert(self.errors@.len() == failing_steps(&v0, grid, 2));
        if let Err(e) = self.validate_flow_control_with_context(grid) {
            if self.collect_errors {
                self.errors.push(e);
            } else {
                return Err(e);
            }
        }
        assert(self.errors@.len() == failing_steps(&v0, grid, 3));
        if let Err(e) = self.validate_symbols_with_context(grid) {
            if self.collect_errors {
                self.errors.push(e);
            } else {
                return Err(e);
            }
        }
        assert(self.errors@.len() == failing_steps(&v0, grid, 4));
        if let Err(e) = self.validate_reachable_code_with_context(grid) {
            if self.collect_errors {
                self.errors.push(e);
            } else {
                return Err(e);
            }
        }
        assert(self.errors@.len() == failing_steps(&v0, grid, 5));
        if self.strict_mode {
            if let Err(e) = self.validate_strict_rules_with_context(grid) {
                if self.collect_errors {
                    self.errors.push(e);
                } else {
                    return Err(e);
                }
            }
        }
        assert(self.errors@.len() == failing_steps(&v0, grid, 6));
        if self.collect_errors && self.errors.len() > 0 {
            let mut message = text("Found ");
            push_nat(&mut message, self.errors.len() as u128);
            push_str(&mut message, " validation errors");
            return Err(InterpreterError::enhanced(message, ErrorType::Validation).with_severity(ErrorSeverity::Error));
        }
        Ok(())
    }

    /// Records an error, with the context of `coord` when one is given.
    fn add_enhanced_error(&mut self, error: InterpreterError, coord: Option<Coordinate>)
        requires
            coord matches Some(c) ==> old(self).context_ok(c),
        ensures
            final(self).spec_errors().len() == old(self).spec_errors().len() + 1,
            final(self).spec_errors().drop_last() == old(self).spec_errors(),
            coord is None ==> final(self).spec_errors().last() == error,
            final(self).spec_strict() == old(self).spec_strict(),
            final(self).spec_collect() == old(self).spec_collect(),
            final(self).spec_source_lines() == old(self).spec_source_lines(),
    {
        let enhanced_error = match coord {
            Some(c) => {
                let context = self.create_error_context_for_coord(c);
                error.with_context(context)
            },
            None => error,
        };
        self.errors.push(enhanced_error);
        assert(self.errors@.drop_last() =~= old(self).errors@);
    }
}

impl Default for ProgramValidator {
    fn default() -> (r: Self)
        ensures
            !r.spec_strict(),
            !r.spec_collect(),
            r.spec_errors().len() == 0,
            r.spec_source_lines() is None,
    {
        Self::new()
    }
}


/// Whether `r` is the plain outcome of a check over the cells: the first flagged
/// cell as an invalid character, `Ok` when no cell is flagged.
pub open spec fn plain_scan_result(
    r: Result<(), InterpreterError>,
    cells: Seq<(Coordinate, ProgramCell)>,
    check: CellCheck,
    g: Map<Coordinate, ProgramCell>,
    strict: bool,
) -> bool {
    if any_flagged(cells, check, g, strict) {
        exists|i: int| #[trigger] first_at(cells, check, g, strict, i)
            && r == Err::<(), InterpreterError>(InterpreterError::Initialization(InitError::InvalidCharacter(cells[i].1.symbol, cells[i].0)))
    } else {
        r is Ok
    }
}

impl ProgramValidator {
    /// Whether `check` flags the cell `(coord, cell)`.
    fn is_flagged(&self, grid: &ProgramGrid, check: CellCheck, coord: Coordinate, cell: ProgramCell) -> (r: bool)
        requires
            grid.wf(),
            in_grid_range(coord),
        ensures
            r == flagged(check, grid@, self.spec_strict(), (coord, cell)),
    {
        let s = cell.symbol;
        match check {
            CellCheck::Pipe => ProgramCell::is_flow_control_symbol(s) && self.is_invalid_pipe_placement(grid, coord, s),
            CellCheck::Combination => ((s == ':' || s == ';' || s == 'd') && !self.has_data_access(grid, coord))
                || ((s == 'A' || s == 'S' || s == 'M' || s == 'D') && !self.has_data_source_nearby(grid, coord)),
            CellCheck::Orphan => ProgramCell::is_flow_control_symbol(s) && self.is_orphaned_pipe(grid, coord, s),
            CellCheck::Io => ((s == ',' || s == 'n') && !self.has_upstream_connection(grid, coord))
                || (s == '?' && self.is_dead_end(grid, coord)),
            CellCheck::Memory => (s == 'G' || s == 'P') && !self.can_access_stack_coordinates(grid, coord),
        }
    }

    /// The plain form of a check over the cells: the first flagged cell is
    /// reported as an invalid character.
    fn plain_scan(&self, grid: &ProgramGrid, check: CellCheck) -> (r: Result<(), InterpreterError>)
        requires
            grid.wf(),
        ensures
            plain_scan_result(r, grid.spec_cells(), check, grid@, self.spec_strict()),
    {
        let cells = grid.iter();
        let mut i: usize = 0;
        while i < cells.len()
            invariant
                grid.wf(),
                cells@ == grid.spec_cells(),
                i <= cells@.len(),
                none_before(cells@, check, grid@, self.spec_strict(), i as int),
            decreases cells@.len() - i,
        {
            let (coord, cell) = cells[i];
            proof {
                lemma_cell_facts(grid, i as int);
            }
            if self.is_flagged(grid, check, coord, cell) {
                assert(first_at(cells@, check, grid@, self.spec_strict(), i as int));
                return Err(InterpreterError::Initialization(InitError::InvalidCharacter(cell.symbol, coord)));
            }
            i = i + 1;
        }
        Ok(())
    }

    /// The plain start symbol check.
    fn validate_start_symbol(&self, grid: &ProgramGrid) -> (r: Result<(), InterpreterError>)
        ensures
            r == (match grid.spec_start() {
                None => Err(InterpreterError::Initialization(InitError::NoStartSymbol)),
                Some(s) => if self.spec_strict() && (s.x == 0 || s.y == 0) {
                    Err(InterpreterError::Initialization(InitError::InvalidCharacter('@', s)))
                } else {
                    Ok(())
                },
            }),
    {
        match grid.start() {
            None => Err(InterpreterError::Initialization(InitError::NoStartSymbol)),
            Some(start_pos) => {
                if self.strict_mode && (start_pos.x == 0 || start_pos.y == 0) {
                    return Err(InterpreterError::Initialization(InitError::InvalidCharacter('@', start_pos)));
                }
                Ok(())
            },
        }
    }

    /// The plain pipe placement check.
    fn validate_flow_control(&self, grid: &ProgramGrid) -> (r: Result<(), InterpreterError>)
        requires
            grid.wf(),
        ensures
            plain_scan_result(r, grid.spec_cells(), CellCheck::Pipe, grid@, self.spec_strict()),
    {
        self.plain_scan(grid, CellCheck::Pipe)
    }

    /// The plain symbol checks: exactly one start symbol, and in strict mode the
    /// rules on symbol combinations.
    fn validate_symbols(&self, grid: &ProgramGrid) -> (r: Result<(), InterpreterError>)
        requires
            grid.wf(),
        ensures
            start_count(grid.spec_cells()) != 1 ==> r == Err::<(), InterpreterError>(InterpreterError::Initialization(InitError::NoStartSymbol)),
            start_count(grid.spec_cells()) == 1 && self.spec_strict()
                ==> plain_scan_result(r, grid.spec_cells(), CellCheck::Combination, grid@, true),
            start_count(grid.spec_cells()) == 1 && !self.spec_strict() ==> r is Ok,
    {
        let cells = grid.iter();
        let mut start_count_: usize = 0;
        let mut i: usize = 0;
        proof {
            assert(cells@.take(0) =~= Seq::<(Coordinate, ProgramCell)>::empty());
        }
        while i < cells.len()
            invariant
                cells@ == grid.spec_cells(),
                i <= cells@.len(),
                start_count_ == start_count(cells@.take(i as int)),
                start_count_ <= i,
            decreases cells@.len() - i,
        {
            proof {
                assert(cells@.take(i + 1).drop_last() =~= cells@.take(i as int));
            }
            if cells[i].1.symbol == '@' {
                start_count_ = start_count_ + 1;
            }
            i = i + 1;
        }
        assert(cells@.take(cells@.len() as int) =~= cells@);
        if start_count_ != 1 {
            return Err(InterpreterError::Initialization(InitError::NoStartSymbol));
        }
        if self.strict_mode {
            self.validate_symbol_combinations(grid)?;
        }
        Ok(())
    }

    /// The plain strict rules on symbol combinations.
    fn validate_symbol_combinations(&self, grid: &ProgramGrid) -> (r: Result<(), InterpreterError>)
        requires
            grid.wf(),
        ensures
            plain_scan_result(r, grid.spec_cells(), CellCheck::Combination, grid@, self.spec_strict()),
    {
        self.plain_scan(grid, CellCheck::Combination)
    }

    /// The plain reachable code check: it searches the reachable positions and
    /// reports nothing.
    fn validate_reachable_code(&self, grid: &ProgramGrid) -> (r: Result<(), InterpreterError>)
        requires
            grid.wf(),
        ensures
            r is Ok,
    {
        let start_pos = match grid.start() {
            None => {
                return Ok(());
            },
            Some(s) => s,
        };
        let reached = self.reachable_cell_count(grid, start_pos);
        if self.strict_mode {
            let _unreachable_count = grid.cell_count() - reached;
        }
        Ok(())
    }

    /// The plain strict rules: orphaned pipes, then inputs and outputs, then
    /// memory operations.
    fn validate_strict_rules(&self, grid: &ProgramGrid) -> (r: Result<(), InterpreterError>)
        requires
            grid.wf(),
        ensures
            ({
                let cells = grid.spec_cells();
                let strict = self.spec_strict();
                if any_flagged(cells, CellCheck::Orphan, grid@, strict) {
                    plain_scan_result(r, cells, CellCheck::Orphan, grid@, strict)
                } else if any_flagged(cells, CellCheck::Io, grid@, strict) {
                    plain_scan_result(r, cells, CellCheck::Io, grid@, strict)
                } else {
                    plain_scan_result(r, cells, CellCheck::Memory, grid@, strict)
                }
            }),
    {
        self.validate_no_orphaned_pipes(grid)?;
        self.validate_io_placement(grid)?;
        self.validate_memory_operations(grid)?;
        Ok(())
    }

    /// The plain check for pipes without connections.
    fn validate_no_orphaned_pipes(&self, grid: &ProgramGrid) -> (r: Result<(), InterpreterError>)
        requires
            grid.wf(),
        ensures
            plain_scan_result(r, grid.spec_cells(), CellCheck::Orphan, grid@, self.spec_strict()),
    {
        self.plain_scan(grid, CellCheck::Orphan)
    }

    /// The plain check of input and output placement.
    fn validate_io_placement(&self, grid: &ProgramGrid) -> (r: Result<(), InterpreterError>)
        requires
            grid.wf(),
        ensures
            plain_scan_result(r, grid.spec_cells(), CellCheck::Io, grid@, self.spec_strict()),
    {
        self.plain_scan(grid, CellCheck::Io)
    }

    /// The plain check of memory operations.
    fn validate_memory_operations(&self, grid: &ProgramGrid) -> (r: Result<(), InterpreterError>)
        requires
            grid.wf(),
        ensures
            plain_scan_result(r, grid.spec_cells(), CellCheck::Memory, grid@, self.spec_strict()),
    {
        self.plain_scan(grid, CellCheck::Memory)
    }
}


impl ProgramValidator {
    /// Whether `validate` can check `grid`: every cell can get an error context
    /// (with a source text, its line lies within two lines past the end of the
    /// text), and in strict mode no more positions are reachable from the start
    /// than there are cells.
    pub fn can_validate(&self, grid: &ProgramGrid) -> (r: bool)
        requires
            grid.wf(),
        ensures
            r == validation_ok(self, grid),
    {
        let line_count: Option<usize> = match &self.source_content {
            Some(content) => Some(split_lines(content.as_str()).len()),
            None => None,
        };
        let cells = grid.iter();
        let mut i: usize = 0;
        while i < cells.len()
            invariant
                grid.wf(),
                cells@ == grid.spec_cells(),
                i <= cells@.len(),
                line_count matches Some(n) ==> self.spec_source_lines() matches Some(ls) && n == ls.len(),
                line_count is None ==> self.spec_source_lines() is None,
                forall|k: int| 0 <= k < i ==> self.context_ok(#[trigger] cells@[k].0),
            decreases cells@.len() - i,
        {
            let coord = cells[i].0;
            if !((coord.x as usize) < usize::MAX) {
                proof {
                    lemma_cell_facts(grid, i as int);
                }
                return false;
            }
            if let Some(n) = line_count {
                let line = coord.y as usize;
                if line > usize::MAX - 3 {
                    proof {
                        lemma_cell_facts(grid, i as int);
                    }
                    return false;
                }
                let start: usize = if line >= 2 { line - 2 } else { 0 };
                let end: usize = if line + 3 <= n { line + 3 } else { n };
                if start > end {
                    proof {
                        lemma_cell_facts(grid, i as int);
                    }
                    return false;
                }
            }
            i = i + 1;
        }
        assert forall|c: Coordinate| #[trigger] grid@.contains_key(c) implies self.context_ok(c) by {
            grid.lemma_cells();
            let k = assoc_index(grid.spec_cells(), c);
            lemma_assoc_at(grid.spec_cells(), k);
        }
        true
    }
}


/// Validation with and without error collection accepts the same grids: no
/// step fails exactly when none is counted.
pub proof fn law_collection_accepts_the_same(v1: &ProgramValidator, v2: &ProgramValidator, grid: &ProgramGrid)
    requires
        v1.spec_strict() == v2.spec_strict(),
    ensures
        (first_failing_step(v1, grid) == 6) == (failing_steps(v2, grid, 6) == 0),
{
    lemma_failing_steps_same(v1, v2, grid, 6);
    reveal_with_fuel(failing_steps, 7);
}

/// Strict validation is stricter: every fault the lenient checks find, the
/// strict checks find too, so a grid the strict validator accepts is accepted
/// by the lenient one.
pub proof fn law_strict_is_stricter(lenient: &ProgramValidator, strict: &ProgramValidator, grid: &ProgramGrid, k: int)
    requires
        !lenient.spec_strict(),
        strict.spec_strict(),
    ensures
        step_fails(lenient, grid, k) ==> step_fails(strict, grid, k),
        first_failing_step(strict, grid) == 6 ==> first_failing_step(lenient, grid) == 6,
{
    if step_fails(lenient, grid, 2) {
        let i = choose|i: int| 0 <= i < grid.spec_cells().len() && flagged(CellCheck::Pipe, grid@, false, #[trigger] grid.spec_cells()[i]);
        assert(false);
    }
}

/// Reachability follows droplets downward out of operators and the start: the
/// only position after an operator that is not also a pipe, or after `@`, is
/// the one directly below it, `(x, y + 1)`.
pub proof fn law_operators_lead_down(p: Coordinate, s: char)
    requires
        (operator_symbol(s) && !flow_control_symbol(s)) || s == '@',
    ensures
        next_positions(p, s) == seq![Coordinate { x: p.x, y: (p.y + 1) as isize }],
        next_positions(p, s).len() == 1,
        next_positions(p, s)[0].x == p.x,
        next_positions(p, s)[0].y == p.y + 1 || p.y == isize::MAX,
{
    assert(next_positions(p, s) =~= seq![Coordinate { x: p.x, y: (p.y + 1) as isize }]);
}

} // verus!
