//! Trace settings and events, and the text of the interpreter's reports.
use vstd::prelude::*;
use std::collections::HashSet;
use crate::interpreter::droplet::Droplet;
use crate::interpreter::execution::{ExecutionResult, ExecutionStatus, ExecutionWarning, TickResult};
use crate::interpreter::stack::{DataStack, values_of};
use crate::text::{dec_int, dec_nat, push_char, push_int, push_nat, push_str};
use crate::types::bigint::TubularBigInt;
use crate::types::coordinate::{Coordinate, coordinate_text};
use crate::types::direction::Direction;
use crate::types::error_debug::{error_debug, error_debug_text};
use crate::types::error::{ErrorType, ExecError, InterpreterError, SystemError, interpreter_error_text};

verus! {

broadcast use vstd::std_specs::hash::group_hash_axioms;

/// How much a trace tells.
#[derive(Debug, Clone, Copy, PartialEq, Eq, Structural)]
pub enum TraceLevel {
    /// Tick-level information only.
    Basic,
    /// Operation-level information.
    Detailed,
    /// Every state change.
    Verbose,
}

/// How a trace is laid out.
#[derive(Debug, Clone, Copy, PartialEq, Eq, Structural)]
pub enum TraceFormat {
    /// One line per event.
    Compact,
    /// A box of lines per event.
    Detailed,
    /// JSON.
    Json,
}

/// The kinds of operations a trace records.
#[derive(Debug, Clone, Copy, PartialEq, Eq, Hash, Structural)]
pub enum TraceOperation {
    Movement,
    ValueChange,
    StackOp,
    MemoryOp,
    ArithmeticOp,
    IoOp,
    SubroutineCall,
    SubroutineReturn,
    DirectionChange,
    Collision,
    DropletLifecycle,
}

/// The name of a trace level.
pub open spec fn trace_level_name(l: TraceLevel) -> Seq<char> {
    match l {
        TraceLevel::Basic => "Basic"@,
        TraceLevel::Detailed => "Detailed"@,
        TraceLevel::Verbose => "Verbose"@,
    }
}

/// The name of a trace format.
pub open spec fn trace_format_name(f: TraceFormat) -> Seq<char> {
    match f {
        TraceFormat::Compact => "Compact"@,
        TraceFormat::Detailed => "Detailed"@,
        TraceFormat::Json => "Json"@,
    }
}

/// The name of a kind of operation.
pub open spec fn trace_operation_name(o: TraceOperation) -> Seq<char> {
    match o {
        TraceOperation::Movement => "Movement"@,
        TraceOperation::ValueChange => "ValueChange"@,
        TraceOperation::StackOp => "StackOp"@,
        TraceOperation::MemoryOp => "MemoryOp"@,
        TraceOperation::ArithmeticOp => "ArithmeticOp"@,
        TraceOperation::IoOp => "IoOp"@,
        TraceOperation::SubroutineCall => "SubroutineCall"@,
        TraceOperation::SubroutineReturn => "SubroutineReturn"@,
        TraceOperation::DirectionChange => "DirectionChange"@,
        TraceOperation::Collision => "Collision"@,
        TraceOperation::DropletLifecycle => "DropletLifecycle"@,
    }
}

/// The name of a direction.
pub open spec fn direction_name(d: Direction) -> Seq<char> {
    match d {
        Direction::Up => "Up"@,
        Direction::Down => "Down"@,
        Direction::Left => "Left"@,
        Direction::Right => "Right"@,
    }
}

impl TraceLevel {
    /// Appends the name of the level.
    pub fn write_to(&self, s: &mut String)
        ensures
            final(s)@ == old(s)@ + trace_level_name(*self),
    {
        match self {
            TraceLevel::Basic => push_str(s, "Basic"),
            TraceLevel::Detailed => push_str(s, "Detailed"),
            TraceLevel::Verbose => push_str(s, "Verbose"),
        }
    }
}

impl TraceFormat {
    /// Appends the name of the format.
    pub fn write_to(&self, s: &mut String)
        ensures
            final(s)@ == old(s)@ + trace_format_name(*self),
    {
        match self {
            TraceFormat::Compact => push_str(s, "Compact"),
            TraceFormat::Detailed => push_str(s, "Detailed"),
            TraceFormat::Json => push_str(s, "Json"),
        }
    }
}

impl TraceOperation {
    /// Appends the name of the kind of operation.
    pub fn write_to(&self, s: &mut String)
        ensures
            final(s)@ == old(s)@ + trace_operation_name(*self),
    {
        match self {
            TraceOperation::Movement => push_str(s, "Movement"),
            TraceOperation::ValueChange => push_str(s, "ValueChange"),
            TraceOperation::StackOp => push_str(s, "StackOp"),
            TraceOperation::MemoryOp => push_str(s, "MemoryOp"),
            TraceOperation::ArithmeticOp => push_str(s, "ArithmeticOp"),
            TraceOperation::IoOp => push_str(s, "IoOp"),
            TraceOperation::SubroutineCall => push_str(s, "SubroutineCall"),
            TraceOperation::SubroutineReturn => push_str(s, "SubroutineReturn"),
            TraceOperation::DirectionChange => push_str(s, "DirectionChange"),
            TraceOperation::Collision => push_str(s, "Collision"),
            TraceOperation::DropletLifecycle => push_str(s, "DropletLifecycle"),
        }
    }
}

/// Appends the name of a direction.
pub fn write_direction(d: Direction, s: &mut String)
    ensures
        final(s)@ == old(s)@ + direction_name(d),
{
    match d {
        Direction::Up => push_str(s, "Up"),
        Direction::Down => push_str(s, "Down"),
        Direction::Left => push_str(s, "Left"),
        Direction::Right => push_str(s, "Right"),
    }
}

/// What a trace records, and how.
pub struct TraceConfig {
    pub level: TraceLevel,
    pub format: TraceFormat,
    /// Only events of these droplets (all when `None`).
    pub droplet_filter: Option<HashSet<u64>>,
    /// Only events of these kinds, each listed once (all when `None`).
    pub operation_filter: Option<Vec<TraceOperation>>,
    /// Only events of ticks in this closed range (all when `None`).
    pub tick_range: Option<(u64, u64)>,
    /// At most this many events (unlimited when `None`).
    pub max_events: Option<usize>,
    pub include_performance: bool,
    pub include_memory: bool,
    pub include_stack: bool,
    pub include_subroutines: bool,
}

impl Default for TraceConfig {
    fn default() -> (r: Self)
        ensures
            r.level == TraceLevel::Basic,
            r.format == TraceFormat::Compact,
            r.droplet_filter is None,
            r.operation_filter is None,
            r.tick_range is None,
            r.max_events is None,
            !r.include_performance,
            !r.include_memory,
            !r.include_stack,
            !r.include_subroutines,
    {
        TraceConfig {
            level: TraceLevel::Basic,
            format: TraceFormat::Compact,
            droplet_filter: None,
            operation_filter: None,
            tick_range: None,
            max_events: None,
            include_performance: false,
            include_memory: false,
            include_stack: false,
            include_subroutines: false,
        }
    }
}

impl TraceConfig {
    /// The default settings: basic compact traces of everything.
    pub fn new() -> (r: Self)
        ensures
            r.level == TraceLevel::Basic,
            r.format == TraceFormat::Compact,
            r.droplet_filter is None,
            r.operation_filter is None,
            r.tick_range is None,
            r.max_events is None,
            !r.include_performance,
            !r.include_memory,
            !r.include_stack,
            !r.include_subroutines,
    {
        Self::default()
    }

    /// The same settings at level `level`.
    pub fn with_level(self, level: TraceLevel) -> (r: Self)
        ensures
            r == (TraceConfig { level, ..self }),
    {
        TraceConfig { level, ..self }
    }

    /// The same settings in format `format`.
    pub fn with_format(self, format: TraceFormat) -> (r: Self)
        ensures
            r == (TraceConfig { format, ..self }),
    {
        TraceConfig { format, ..self }
    }

    /// The same settings, tracing only the given droplets.
    pub fn with_droplet_filter(self, droplet_ids: HashSet<u64>) -> (r: Self)
        ensures
            r == (TraceConfig { droplet_filter: Some(droplet_ids), ..self }),
    {
        TraceConfig { droplet_filter: Some(droplet_ids), ..self }
    }

    /// The same settings, tracing only the given kinds of operations.
    pub fn with_operation_filter(self, operations: Vec<TraceOperation>) -> (r: Self)
        ensures
            r == (TraceConfig { operation_filter: Some(operations), ..self }),
    {
        TraceConfig { operation_filter: Some(operations), ..self }
    }

    /// The same settings, tracing only ticks `start..=end`.
    pub fn with_tick_range(self, start: u64, end: u64) -> (r: Self)
        ensures
            r == (TraceConfig { tick_range: Some((start, end)), ..self }),
    {
        TraceConfig { tick_range: Some((start, end)), ..self }
    }

    /// The same settings, keeping at most `max_events` events.
    pub fn with_max_events(self, max_events: usize) -> (r: Self)
        ensures
            r == (TraceConfig { max_events: Some(max_events), ..self }),
    {
        TraceConfig { max_events: Some(max_events), ..self }
    }

    /// The same settings, with or without performance figures.
    pub fn with_performance(self, enabled: bool) -> (r: Self)
        ensures
            r == (TraceConfig { include_performance: enabled, ..self }),
    {
        TraceConfig { include_performance: enabled, ..self }
    }

    /// The same settings, with or without memory changes.
    pub fn with_memory(self, enabled: bool) -> (r: Self)
        ensures
            r == (TraceConfig { include_memory: enabled, ..self }),
    {
        TraceConfig { include_memory: enabled, ..self }
    }

    /// The same settings, with or without stack contents.
    pub fn with_stack(self, enabled: bool) -> (r: Self)
        ensures
            r == (TraceConfig { include_stack: enabled, ..self }),
    {
        TraceConfig { include_stack: enabled, ..self }
    }

    /// The same settings, with or without subroutine calls.
    pub fn with_subroutines(self, enabled: bool) -> (r: Self)
        ensures
            r == (TraceConfig { include_subroutines: enabled, ..self }),
    {
        TraceConfig { include_subroutines: enabled, ..self }
    }

    /// Settings for debugging: verbose, detailed, everything included.
    pub fn comprehensive() -> (r: Self)
        ensures
            r.level == TraceLevel::Verbose,
            r.format == TraceFormat::Detailed,
            r.droplet_filter is None,
            r.operation_filter is None,
            r.tick_range is None,
            r.max_events is None,
            r.include_performance,
            r.include_memory,
            r.include_stack,
            r.include_subroutines,
    {
        TraceConfig {
            level: TraceLevel::Verbose,
            format: TraceFormat::Detailed,
            droplet_filter: None,
            operation_filter: None,
            tick_range: None,
            max_events: None,
            include_performance: true,
            include_memory: true,
            include_stack: true,
            include_subroutines: true,
        }
    }
}


/// The state around an event, as far as it is known.
pub struct TraceState {
    pub droplet_value: Option<TubularBigInt>,
    pub droplet_direction: Option<Direction>,
    pub stack_contents: Option<Vec<TubularBigInt>>,
    pub call_stack_depth: Option<usize>,
    pub memory_coord: Option<Coordinate>,
}

/// Figures that go with an event.
pub struct TraceMetadata {
    pub execution_time_us: Option<u64>,
    pub active_droplets: usize,
    pub memory_usage_bytes: usize,
    pub collision_count: usize,
    /// Further named values, in the order they were added, each name once.
    pub extra: Vec<(String, String)>,
}

/// Figures gathered over one tick.
pub struct PerformanceMetrics {
    pub tick_time_us: u64,
    pub droplet_operations: usize,
    pub stack_operations: usize,
    pub memory_operations: usize,
    pub collision_time_us: u64,
    pub grid_accesses: usize,
}

/// One recorded event of a run.
pub struct TraceEvent {
    pub tick: u64,
    /// When the event happened, in milliseconds.
    pub timestamp_ms: u64,
    pub droplet_id: Option<u64>,
    pub operation: TraceOperation,
    pub position: Option<Coordinate>,
    pub cell_symbol: Option<char>,
    pub description: String,
    pub before_state: Option<TraceState>,
    pub after_state: Option<TraceState>,
    pub metadata: TraceMetadata,
}

/// The texts of a list of named values.
pub open spec fn pairs_view(s: Seq<(String, String)>) -> Seq<(Seq<char>, Seq<char>)> {
    s.map_values(|p: (String, String)| (p.0@, p.1@))
}

/// Whether a configuration lets an event through its droplet, operation and
/// tick filters.
pub open spec fn includes_event(c: TraceConfig, e: TraceEvent) -> bool {
    &&& match c.droplet_filter {
        Some(f) => match e.droplet_id {
            Some(id) => f@.contains(id),
            None => false,
        },
        None => true,
    }
    &&& match c.operation_filter {
        Some(ops) => ops@.contains(e.operation),
        None => true,
    }
    &&& match c.tick_range {
        Some((start, end)) => start <= e.tick <= end,
        None => true,
    }
}

/// Whether `op` is listed in `ops`.
fn contains_operation(ops: &Vec<TraceOperation>, op: TraceOperation) -> (r: bool)
    ensures
        r == ops@.contains(op),
{
    let mut i: usize = 0;
    while i < ops.len()
        invariant
            i <= ops@.len(),
            forall|k: int| 0 <= k < i ==> ops@[k] != op,
        decreases ops@.len() - i,
    {
        if ops[i] == op {
            assert(ops@[i as int] == op);
            return true;
        }
        i = i + 1;
    }
    false
}

impl TraceConfig {
    /// Whether an event passes the droplet, operation and tick filters.
    pub fn should_include_event(&self, event: &TraceEvent) -> (r: bool)
        ensures
            r == includes_event(*self, *event),
    {
        if let Some(droplet_filter) = &self.droplet_filter {
            match event.droplet_id {
                Some(droplet_id) => {
                    if !droplet_filter.contains(&droplet_id) {
                        return false;
                    }
                },
                None => {
                    return false;
                },
            }
        }
        if let Some(operation_filter) = &self.operation_filter {
            if !contains_operation(operation_filter, event.operation) {
                return false;
            }
        }
        if let Some((start, end)) = self.tick_range {
            if event.tick < start || event.tick > end {
                return false;
            }
        }
        true
    }
}

/// A copy of a list of integers.
fn copy_values(v: &[TubularBigInt]) -> (r: Vec<TubularBigInt>)
    ensures
        values_of(r@) == values_of(v@),
{
    let mut out: Vec<TubularBigInt> = Vec::new();
    let mut i: usize = 0;
    while i < v.len()
        invariant
            i <= v@.len(),
            out@.len() == i,
            forall|k: int| 0 <= k < i ==> (#[trigger] out@[k])@ == v@[k]@,
        decreases v@.len() - i,
    {
        out.push(v[i].clone());
        i = i + 1;
    }
    assert(values_of(out@) =~= values_of(v@));
    out
}

/// A string holding `t`.
fn text(t: &str) -> (r: String)
    ensures
        r@ == t@,
{
    String::from_str(t)
}

/// A string holding the decimal digits of `n`.
fn nat_text(n: u128) -> (r: String)
    ensures
        r@ == dec_nat(n as nat),
{
    let mut s = String::new();
    push_nat(&mut s, n);
    assert(s@ =~= dec_nat(n as nat));
    s
}

/// A string holding the decimal rendering of `v`.
fn int_text(v: i128) -> (r: String)
    requires
        v > i128::MIN,
    ensures
        r@ == dec_int(v as int),
{
    let mut s = String::new();
    push_int(&mut s, v);
    assert(s@ =~= dec_int(v as int));
    s
}

/// A string holding one character.
fn char_text(c: char) -> (r: String)
    ensures
        r@ == seq![c],
{
    let mut s = String::new();
    push_char(&mut s, c);
    assert(s@ =~= seq![c]);
    s
}

/// Whether `s` is a state with droplet value `value`, direction `dir`, stack
/// values `stack`, no call stack depth and coordinate `coord`.
pub open spec fn state_is(s: Option<TraceState>, value: int, dir: Option<Direction>, stack: Option<Seq<int>>, coord: Coordinate) -> bool {
    match s {
        Some(t) => {
            &&& (match t.droplet_value {
                Some(v) => v@ == value,
                None => false,
            })
            &&& t.droplet_direction == dir
            &&& (match (t.stack_contents, stack) {
                (Some(sc), Some(values)) => values_of(sc@) == values,
                (None, None) => true,
                _ => false,
            })
            &&& t.call_stack_depth is None
            &&& t.memory_coord == Some(coord)
        },
        None => false,
    }
}

/// The state of a droplet with a value (copied), a direction and a coordinate.
fn droplet_state(value: &TubularBigInt, direction: Option<Direction>, stack: Option<Vec<TubularBigInt>>, coord: Coordinate) -> (r: TraceState)
    ensures
        state_is(Some(r), value@, direction, match stack { Some(v) => Some(values_of(v@)), None => None }, coord),
        r.stack_contents == stack,
{
    TraceState {
        droplet_value: Some(value.clone()),
        droplet_direction: direction,
        stack_contents: stack,
        call_stack_depth: None,
        memory_coord: Some(coord),
    }
}

/// The description of a movement.
pub open spec fn movement_text(id: u64, from: Coordinate, to: Coordinate, d: Direction, value: int) -> Seq<char> {
    "Droplet "@ + dec_nat(id as nat) + " moves from "@ + coordinate_text(from) + " to "@ + coordinate_text(to)
        + " heading "@ + direction_name(d) + " with value "@ + dec_int(value)
}

/// The kind of operation a stack or arithmetic symbol is traced as.
pub open spec fn stack_operation_kind(c: char) -> TraceOperation {
    if c == 'A' || c == 'S' || c == 'M' || c == 'D' || c == '=' || c == '<' || c == '>' || c == '%' {
        TraceOperation::ArithmeticOp
    } else if c == '+' || c == '~' {
        TraceOperation::ValueChange
    } else {
        TraceOperation::StackOp
    }
}

/// The name of a stack or arithmetic operation.
pub open spec fn stack_operation_name(c: char) -> Seq<char> {
    if c == ':' { "push"@ }
    else if c == ';' { "pop"@ }
    else if c == 'd' { "duplicate"@ }
    else if c == 'A' { "add"@ }
    else if c == 'S' { "subtract"@ }
    else if c == 'M' { "multiply"@ }
    else if c == 'D' { "divide"@ }
    else if c == '=' { "equals"@ }
    else if c == '<' { "less_than"@ }
    else if c == '>' { "greater_than"@ }
    else if c == '%' { "modulo"@ }
    else if c == '+' { "increment"@ }
    else if c == '~' { "decrement"@ }
    else { "unknown_stack_op"@ }
}

/// The name of a memory operation.
pub open spec fn memory_operation_name(c: char) -> Seq<char> {
    if c == 'G' { "get"@ } else if c == 'P' { "put"@ } else { "unknown_memory_op"@ }
}

/// The name of an input or output operation.
pub open spec fn io_operation_name(c: char) -> Seq<char> {
    if c == ',' { "char_output"@ } else if c == 'n' { "numeric_output"@ } else if c == '?' { "input"@ } else { "unknown_io_op"@ }
}

/// A list of ids as `[1, 2, 3]`.
pub open spec fn id_list_text(ids: Seq<u64>) -> Seq<char> {
    "["@ + joined_ids(ids) + "]"@
}

/// The ids, separated by `, `.
pub open spec fn joined_ids(ids: Seq<u64>) -> Seq<char>
    decreases ids.len(),
{
    if ids.len() == 0 {
        Seq::empty()
    } else if ids.len() == 1 {
        dec_nat(ids[0] as nat)
    } else {
        joined_ids(ids.drop_last()) + ", "@ + dec_nat(ids.last() as nat)
    }
}

/// Appends the ids, separated by `, `.
fn push_joined_ids(s: &mut String, ids: &[u64])
    ensures
        final(s)@ == old(s)@ + joined_ids(ids@),
{
    let mut i: usize = 0;
    while i < ids.len()
        invariant
            i <= ids@.len(),
            s@ == old(s)@ + joined_ids(ids@.take(i as int)),
        decreases ids@.len() - i,
    {
        if i > 0 {
            push_str(s, ", ");
        }
        push_nat(s, ids[i] as u128);
        proof {
            let t = ids@.take(i + 1);
            assert(t.drop_last() =~= ids@.take(i as int));
            if i == 0 {
                assert(joined_ids(ids@.take(0)) =~= Seq::<char>::empty());
            }
        }
        assert(s@ =~= old(s)@ + joined_ids(ids@.take(i + 1)));
        i = i + 1;
    }
    assert(ids@.take(ids@.len() as int) =~= ids@);
}

impl OutputFormatter {
    /// The event of a droplet moving from `from_pos` to `to_pos`.
    pub fn create_movement_trace_event(
        tick: u64,
        droplet_id: u64,
        from_pos: Coordinate,
        to_pos: Coordinate,
        direction: Direction,
        value: &TubularBigInt,
        cell_symbol: Option<char>,
    ) -> (r: TraceEvent)
        ensures
            r.tick == tick,
            r.timestamp_ms == tick,
            r.droplet_id == Some(droplet_id),
            r.operation == TraceOperation::Movement,
            r.position == Some(to_pos),
            r.cell_symbol == cell_symbol,
            r.description@ == movement_text(droplet_id, from_pos, to_pos, direction, value@),
            state_is(r.before_state, value@, Some(direction), None, from_pos),
            state_is(r.after_state, value@, Some(direction), None, to_pos),
            r.metadata.execution_time_us is None,
            r.metadata.active_droplets == 1,
            r.metadata.memory_usage_bytes == 0,
            r.metadata.collision_count == 0,
            r.metadata.extra@.len() == 0,
    {
        let mut description = text("Droplet ");
        push_nat(&mut description, droplet_id as u128);
        push_str(&mut description, " moves from ");
        from_pos.write_to(&mut description);
        push_str(&mut description, " to ");
        to_pos.write_to(&mut description);
        push_str(&mut description, " heading ");
        write_direction(direction, &mut description);
        push_str(&mut description, " with value ");
        let v = value.to_decimal_string();
        push_str(&mut description, v.as_str());
        assert(description@ =~= movement_text(droplet_id, from_pos, to_pos, direction, value@));
        TraceEvent {
            tick,
            timestamp_ms: tick,
            droplet_id: Some(droplet_id),
            operation: TraceOperation::Movement,
            position: Some(to_pos),
            cell_symbol,
            description,
            before_state: Some(droplet_state(value, Some(direction), None, from_pos)),
            after_state: Some(droplet_state(value, Some(direction), None, to_pos)),
            metadata: TraceMetadata {
                execution_time_us: None,
                active_droplets: 1,
                memory_usage_bytes: 0,
                collision_count: 0,
                extra: Vec::new(),
            },
        }
    }

    /// The event of a stack or arithmetic operation.
    pub fn create_stack_trace_event(
        tick: u64,
        droplet_id: u64,
        operation: char,
        position: Coordinate,
        stack_before: &[TubularBigInt],
        stack_after: &[TubularBigInt],
        droplet_value: &TubularBigInt,
    ) -> (r: TraceEvent)
        requires
            stack_before@.len() * vstd::layout::size_of::<TubularBigInt>() <= usize::MAX,
        ensures
            r.tick == tick,
            r.timestamp_ms == tick,
            r.droplet_id == Some(droplet_id),
            r.operation == stack_operation_kind(operation),
            r.position == Some(position),
            r.cell_symbol == Some(operation),
            r.description@ == "Droplet "@ + dec_nat(droplet_id as nat) + " performs "@ + stack_operation_name(operation)
                + " operation at "@ + coordinate_text(position) + " with value "@ + dec_int(droplet_value@),
            state_is(r.before_state, droplet_value@, None, Some(values_of(stack_before@)), position),
            state_is(r.after_state, droplet_value@, None, Some(values_of(stack_after@)), position),
            r.metadata.execution_time_us is None,
            r.metadata.active_droplets == 1,
            r.metadata.memory_usage_bytes == stack_before@.len() * vstd::layout::size_of::<TubularBigInt>(),
            r.metadata.collision_count == 0,
            pairs_view(r.metadata.extra@) == seq![
                ("stack_depth_before"@, dec_nat(stack_before@.len())),
                ("stack_depth_after"@, dec_nat(stack_after@.len())),
            ],
    {
        let operation_type = match operation {
            'A' | 'S' | 'M' | 'D' | '=' | '<' | '>' | '%' => TraceOperation::ArithmeticOp,
            '+' | '~' => TraceOperation::ValueChange,
            _ => TraceOperation::StackOp,
        };
        let operation_desc = match operation {
            ':' => "push",
            ';' => "pop",
            'd' => "duplicate",
            'A' => "add",
            'S' => "subtract",
            'M' => "multiply",
            'D' => "divide",
            '=' => "equals",
            '<' => "less_than",
            '>' => "greater_than",
            '%' => "modulo",
            '+' => "increment",
            '~' => "decrement",
            _ => "unknown_stack_op",
        };
        assert(operation_desc@ == stack_operation_name(operation));
        let mut description = text("Droplet ");
        push_nat(&mut description, droplet_id as u128);
        push_str(&mut description, " performs ");
        push_str(&mut description, operation_desc);
        push_str(&mut description, " operation at ");
        position.write_to(&mut description);
        push_str(&mut description, " with value ");
        let v = droplet_value.to_decimal_string();
        push_str(&mut description, v.as_str());
        let ghost expected = "Droplet "@ + dec_nat(droplet_id as nat) + " performs "@ + stack_operation_name(operation)
            + " operation at "@ + coordinate_text(position) + " with value "@ + dec_int(droplet_value@);
        assert(description@ =~= expected);
        let mut extra: Vec<(String, String)> = Vec::new();
        extra.push((text("stack_depth_before"), nat_text(stack_before.len() as u128)));
        extra.push((text("stack_depth_after"), nat_text(stack_after.len() as u128)));
        assert(pairs_view(extra@) =~= seq![
            ("stack_depth_before"@, dec_nat(stack_before@.len())),
            ("stack_depth_after"@, dec_nat(stack_after@.len())),
        ]);
        let size = core::mem::size_of::<TubularBigInt>();
        TraceEvent {
            tick,
            timestamp_ms: tick,
            droplet_id: Some(droplet_id),
            operation: operation_type,
            position: Some(position),
            cell_symbol: Some(operation),
            description,
            before_state: Some(droplet_state(droplet_value, None, Some(copy_values(stack_before)), position)),
            after_state: Some(droplet_state(droplet_value, None, Some(copy_values(stack_after)), position)),
            metadata: TraceMetadata {
                execution_time_us: None,
                active_droplets: 1,
                memory_usage_bytes: stack_before.len() * size,
                collision_count: 0,
                extra,
            },
        }
    }
}

impl OutputFormatter {
    /// The event of a memory operation (`G` reads, `P` writes).
    pub fn create_memory_trace_event(
        tick: u64,
        droplet_id: u64,
        operation: char,
        position: Coordinate,
        memory_coord: Coordinate,
        memory_value: &TubularBigInt,
        droplet_value: &TubularBigInt,
    ) -> (r: TraceEvent)
        ensures
            r.tick == tick,
            r.timestamp_ms == tick,
            r.droplet_id == Some(droplet_id),
            r.operation == TraceOperation::MemoryOp,
            r.position == Some(position),
            r.cell_symbol == Some(operation),
            r.description@ == "Droplet "@ + dec_nat(droplet_id as nat) + " performs memory "@ + memory_operation_name(operation)
                + " at coordinate "@ + coordinate_text(memory_coord) + " with value "@ + dec_int(memory_value@),
            state_is(r.before_state, droplet_value@, None, None, memory_coord),
            state_is(r.after_state, if operation == 'G' { memory_value@ } else { droplet_value@ }, None, None, memory_coord),
            r.metadata.execution_time_us is None,
            r.metadata.active_droplets == 1,
            r.metadata.memory_usage_bytes == vstd::layout::size_of::<TubularBigInt>(),
            r.metadata.collision_count == 0,
            pairs_view(r.metadata.extra@) == seq![
                ("memory_operation"@, seq![operation]),
                ("memory_coord_x"@, dec_int(memory_coord.x as int)),
                ("memory_coord_y"@, dec_int(memory_coord.y as int)),
            ],
    {
        let operation_desc = match operation {
            'G' => "get",
            'P' => "put",
            _ => "unknown_memory_op",
        };
        assert(operation_desc@ == memory_operation_name(operation));
        let mut description = text("Droplet ");
        push_nat(&mut description, droplet_id as u128);
        push_str(&mut description, " performs memory ");
        push_str(&mut description, operation_desc);
        push_str(&mut description, " at coordinate ");
        memory_coord.write_to(&mut description);
        push_str(&mut description, " with value ");
        let v = memory_value.to_decimal_string();
        push_str(&mut description, v.as_str());
        let ghost expected = "Droplet "@ + dec_nat(droplet_id as nat) + " performs memory "@ + memory_operation_name(operation)
            + " at coordinate "@ + coordinate_text(memory_coord) + " with value "@ + dec_int(memory_value@);
        assert(description@ =~= expected);
        let after_value = if operation == 'G' { memory_value } else { droplet_value };
        let mut extra: Vec<(String, String)> = Vec::new();
        extra.push((text("memory_operation"), char_text(operation)));
        extra.push((text("memory_coord_x"), int_text(memory_coord.x as i128)));
        extra.push((text("memory_coord_y"), int_text(memory_coord.y as i128)));
        assert(pairs_view(extra@) =~= seq![
            ("memory_operation"@, seq![operation]),
            ("memory_coord_x"@, dec_int(memory_coord.x as int)),
            ("memory_coord_y"@, dec_int(memory_coord.y as int)),
        ]);
        TraceEvent {
            tick,
            timestamp_ms: tick,
            droplet_id: Some(droplet_id),
            operation: TraceOperation::MemoryOp,
            position: Some(position),
            cell_symbol: Some(operation),
            description,
            before_state: Some(droplet_state(droplet_value, None, None, memory_coord)),
            after_state: Some(droplet_state(after_value, None, None, memory_coord)),
            metadata: TraceMetadata {
                execution_time_us: None,
                active_droplets: 1,
                memory_usage_bytes: core::mem::size_of::<TubularBigInt>(),
                collision_count: 0,
                extra,
            },
        }
    }

    /// The event of an input or output operation (`,` `n` output, `?` input).
    pub fn create_io_trace_event(
        tick: u64,
        droplet_id: u64,
        operation: char,
        position: Coordinate,
        io_value: &str,
        droplet_value: &TubularBigInt,
    ) -> (r: TraceEvent)
        ensures
            r.tick == tick,
            r.timestamp_ms == tick,
            r.droplet_id == Some(droplet_id),
            r.operation == TraceOperation::IoOp,
            r.position == Some(position),
            r.cell_symbol == Some(operation),
            r.description@ == "Droplet "@ + dec_nat(droplet_id as nat) + " performs "@ + io_operation_name(operation)
                + " at "@ + coordinate_text(position) + " with value '"@ + io_value@ + "'"@,
            state_is(r.before_state, droplet_value@, None, None, position),
            state_is(r.after_state, droplet_value@, None, None, position),
            r.metadata.execution_time_us is None,
            r.metadata.active_droplets == 1,
            r.metadata.memory_usage_bytes == 0,
            r.metadata.collision_count == 0,
            pairs_view(r.metadata.extra@) == seq![("io_value"@, io_value@), ("io_operation"@, seq![operation])],
    {
        let operation_desc = match operation {
            ',' => "char_output",
            'n' => "numeric_output",
            '?' => "input",
            _ => "unknown_io_op",
        };
        assert(operation_desc@ == io_operation_name(operation));
        let mut description = text("Droplet ");
        push_nat(&mut description, droplet_id as u128);
        push_str(&mut description, " performs ");
        push_str(&mut description, operation_desc);
        push_str(&mut description, " at ");
        position.write_to(&mut description);
        push_str(&mut description, " with value '");
        push_str(&mut description, io_value);
        push_str(&mut description, "'");
        let ghost expected = "Droplet "@ + dec_nat(droplet_id as nat) + " performs "@ + io_operation_name(operation)
            + " at "@ + coordinate_text(position) + " with value '"@ + io_value@ + "'"@;
        assert(description@ =~= expected);
        let mut extra: Vec<(String, String)> = Vec::new();
        extra.push((text("io_value"), text(io_value)));
        extra.push((text("io_operation"), char_text(operation)));
        assert(pairs_view(extra@) =~= seq![("io_value"@, io_value@), ("io_operation"@, seq![operation])]);
        TraceEvent {
            tick,
            timestamp_ms: tick,
            droplet_id: Some(droplet_id),
            operation: TraceOperation::IoOp,
            position: Some(position),
            cell_symbol: Some(operation),
            description,
            before_state: Some(droplet_state(droplet_value, None, None, position)),
            after_state: Some(droplet_state(droplet_value, None, None, position)),
            metadata: TraceMetadata {
                execution_time_us: None,
                active_droplets: 1,
                memory_usage_bytes: 0,
                collision_count: 0,
                extra,
            },
        }
    }

    /// The event of droplets colliding at `collision_position`.
    pub fn create_collision_trace_event(
        tick: u64,
        collision_position: Coordinate,
        colliding_droplet_ids: &[u64],
        active_droplet_count: usize,
    ) -> (r: TraceEvent)
        ensures
            r.tick == tick,
            r.timestamp_ms == tick,
            r.droplet_id is None,
            r.operation == TraceOperation::Collision,
            r.position == Some(collision_position),
            r.cell_symbol is None,
            r.description@ == "Collision at "@ + coordinate_text(collision_position) + " involving "@
                + dec_nat(colliding_droplet_ids@.len()) + " droplets: "@ + id_list_text(colliding_droplet_ids@),
            r.before_state is None,
            r.after_state is None,
            r.metadata.execution_time_us is None,
            r.metadata.active_droplets == active_droplet_count,
            r.metadata.memory_usage_bytes == 0,
            r.metadata.collision_count == colliding_droplet_ids@.len(),
            pairs_view(r.metadata.extra@) == seq![("colliding_droplets"@, id_list_text(colliding_droplet_ids@))],
    {
        let mut description = text("Collision at ");
        collision_position.write_to(&mut description);
        push_str(&mut description, " involving ");
        push_nat(&mut description, colliding_droplet_ids.len() as u128);
        push_str(&mut description, " droplets: ");
        push_str(&mut description, "[");
        push_joined_ids(&mut description, colliding_droplet_ids);
        push_str(&mut description, "]");
        let ghost expected = "Collision at "@ + coordinate_text(collision_position) + " involving "@
            + dec_nat(colliding_droplet_ids@.len()) + " droplets: "@ + id_list_text(colliding_droplet_ids@);
        assert(description@ =~= expected);
        let mut list = text("[");
        push_joined_ids(&mut list, colliding_droplet_ids);
        push_str(&mut list, "]");
        assert(list@ =~= id_list_text(colliding_droplet_ids@));
        let mut extra: Vec<(String, String)> = Vec::new();
        extra.push((text("colliding_droplets"), list));
        assert(pairs_view(extra@) =~= seq![("colliding_droplets"@, id_list_text(colliding_droplet_ids@))]);
        TraceEvent {
            tick,
            timestamp_ms: tick,
            droplet_id: None,
            operation: TraceOperation::Collision,
            position: Some(collision_position),
            cell_symbol: None,
            description,
            before_state: None,
            after_state: None,
            metadata: TraceMetadata {
                execution_time_us: None,
                active_droplets: active_droplet_count,
                memory_usage_bytes: 0,
                collision_count: colliding_droplet_ids.len(),
                extra,
            },
        }
    }

    /// The event of a droplet being created or destroyed (`event_type`).
    pub fn create_lifecycle_trace_event(
        tick: u64,
        droplet_id: u64,
        event_type: &str,
        position: Coordinate,
        value: &TubularBigInt,
        direction: Direction,
    ) -> (r: TraceEvent)
        ensures
            r.tick == tick,
            r.timestamp_ms == tick,
            r.droplet_id == Some(droplet_id),
            r.operation == TraceOperation::DropletLifecycle,
            r.position == Some(position),
            r.cell_symbol is None,
            r.description@ == "Droplet "@ + dec_nat(droplet_id as nat) + " "@ + event_type@ + " at "@
                + coordinate_text(position) + " with value "@ + dec_int(value@) + " heading "@ + direction_name(direction),
            r.before_state is None,
            state_is(r.after_state, value@, Some(direction), None, position),
            r.metadata.execution_time_us is None,
            r.metadata.active_droplets == 1,
            r.metadata.memory_usage_bytes == vstd::layout::size_of::<TubularBigInt>(),
            r.metadata.collision_count == 0,
            pairs_view(r.metadata.extra@) == seq![("lifecycle_event"@, event_type@)],
    {
        let mut description = text("Droplet ");
        push_nat(&mut description, droplet_id as u128);
        push_str(&mut description, " ");
        push_str(&mut description, event_type);
        push_str(&mut description, " at ");
        position.write_to(&mut description);
        push_str(&mut description, " with value ");
        let v = value.to_decimal_string();
        push_str(&mut description, v.as_str());
        push_str(&mut description, " heading ");
        write_direction(direction, &mut description);
        let ghost expected = "Droplet "@ + dec_nat(droplet_id as nat) + " "@ + event_type@ + " at "@
            + coordinate_text(position) + " with value "@ + dec_int(value@) + " heading "@ + direction_name(direction);
        assert(description@ =~= expected);
        let mut extra: Vec<(String, String)> = Vec::new();
        extra.push((text("lifecycle_event"), text(event_type)));
        assert(pairs_view(extra@) =~= seq![("lifecycle_event"@, event_type@)]);
        TraceEvent {
            tick,
            timestamp_ms: tick,
            droplet_id: Some(droplet_id),
            operation: TraceOperation::DropletLifecycle,
            position: Some(position),
            cell_symbol: None,
            description,
            before_state: None,
            after_state: Some(droplet_state(value, Some(direction), None, position)),
            metadata: TraceMetadata {
                execution_time_us: None,
                active_droplets: 1,
                memory_usage_bytes: core::mem::size_of::<TubularBigInt>(),
                collision_count: 0,
                extra,
            },
        }
    }
}

/// The text of the interpreter's reports.
pub struct OutputFormatter;


/// Decimal digits of `n`, zero-padded on the left to five characters.
pub open spec fn pad5(n: nat) -> Seq<char> {
    let d = dec_nat(n);
    if d.len() < 5 {
        Seq::new((5 - d.len()) as nat, |i: int| '0') + d
    } else {
        d
    }
}

/// How many decimal digits `n` has.
pub open spec fn digit_count(n: nat) -> nat
    decreases n,
{
    if n < 10 { 1 } else { 1 + digit_count(n / 10) }
}

/// The decimal digits of `n` number `digit_count(n)`.
proof fn lemma_dec_nat_len(n: nat)
    ensures
        dec_nat(n).len() == digit_count(n),
    decreases n,
{
    if n >= 10 {
        lemma_dec_nat_len(n / 10);
    }
}

/// Appends the digits of `n`, zero-padded to five characters.
fn push_pad5(s: &mut String, n: u64)
    ensures
        final(s)@ == old(s)@ + pad5(n as nat),
{
    proof {
        lemma_dec_nat_len(n as nat);
        reveal_with_fuel(digit_count, 6);
    }
    let zeros: usize = if n < 10 { 4 } else if n < 100 { 3 } else if n < 1000 { 2 } else if n < 10000 { 1 } else { 0 };
    proof {
        if n >= 10000 {
            assert(digit_count(n as nat) >= 5) by {
                assert(digit_count((n / 10000) as nat) >= 1);
                assert((n / 10) / 10 == n / 100);
                assert((n / 100) / 10 == n / 1000);
                assert((n / 1000) / 10 == n / 10000);
            }
        }
    }
    let mut k: usize = 0;
    while k < zeros
        invariant
            k <= zeros,
            s@ == old(s)@ + Seq::new(k as nat, |i: int| '0'),
        decreases zeros - k,
    {
        push_char(s, '0');
        assert(s@ =~= old(s)@ + Seq::new((k + 1) as nat, |i: int| '0'));
        k = k + 1;
    }
    push_nat(s, n as u128);
    assert(s@ =~= old(s)@ + pad5(n as nat));
}

/// The value change between two states, when both have values that differ.
pub open spec fn value_change(before: Option<TraceState>, after: Option<TraceState>) -> Option<(int, int)> {
    match (before, after) {
        (Some(b), Some(a)) => match (b.droplet_value, a.droplet_value) {
            (Some(bv), Some(av)) => if bv@ != av@ { Some((bv@, av@)) } else { None },
            _ => None,
        },
        _ => None,
    }
}

/// The part of a rendering that names the droplet, if there is one: ` D<id>`.
pub open spec fn id_part(e: TraceEvent) -> Seq<char> {
    match e.droplet_id { Some(id) => " D"@ + dec_nat(id as nat), None => Seq::empty() }
}

/// ` @(x, y)` when the event has a position.
pub open spec fn position_part(e: TraceEvent) -> Seq<char> {
    match e.position { Some(p) => " @"@ + coordinate_text(p), None => Seq::empty() }
}

/// ` 'c'` when the event has a cell symbol.
pub open spec fn symbol_part(e: TraceEvent) -> Seq<char> {
    match e.cell_symbol { Some(sym) => " '"@ + seq![sym] + "'"@, None => Seq::empty() }
}

/// What a compact rendering says after the position, by level.
pub open spec fn compact_detail(e: TraceEvent, c: TraceConfig) -> Seq<char> {
    match c.level {
        TraceLevel::Basic => Seq::empty(),
        TraceLevel::Detailed => ": "@ + e.description@,
        TraceLevel::Verbose => ": "@ + e.description@ + (match value_change(e.before_state, e.after_state) {
            Some((b, a)) => " ("@ + dec_int(b) + " -> "@ + dec_int(a) + ")"@,
            None => Seq::empty(),
        }),
    }
}

/// The compact one-line rendering of an event.
pub open spec fn compact_text(e: TraceEvent, c: TraceConfig) -> Seq<char> {
    "["@ + pad5(e.tick as nat) + "] "@ + trace_operation_name(e.operation) + id_part(e) + position_part(e)
        + symbol_part(e) + compact_detail(e, c) + "\n"@
}

/// The values of a stack, separated by `, `.
pub open spec fn joined_values(v: Seq<int>) -> Seq<char>
    decreases v.len(),
{
    if v.len() == 0 {
        Seq::empty()
    } else if v.len() == 1 {
        dec_int(v[0])
    } else {
        joined_values(v.drop_last()) + ", "@ + dec_int(v.last())
    }
}

/// Appends the values, separated by `, `.
fn push_joined_values(s: &mut String, v: &[TubularBigInt])
    ensures
        final(s)@ == old(s)@ + joined_values(values_of(v@)),
{
    let mut i: usize = 0;
    while i < v.len()
        invariant
            i <= v@.len(),
            s@ == old(s)@ + joined_values(values_of(v@.take(i as int))),
        decreases v@.len() - i,
    {
        if i > 0 {
            push_str(s, ", ");
        }
        let t = v[i].to_decimal_string();
        push_str(s, t.as_str());
        proof {
            let w = values_of(v@.take(i + 1));
            assert(w.drop_last() =~= values_of(v@.take(i as int)));
            assert(w.last() == v@[i as int]@);
            if i == 0 {
                assert(joined_values(values_of(v@.take(0))) =~= Seq::<char>::empty());
            }
        }
        assert(s@ =~= old(s)@ + joined_values(values_of(v@.take(i + 1))));
        i = i + 1;
    }
    assert(v@.take(v@.len() as int) =~= v@);
}

/// The named values of an event, one `║   name: value` line each.
pub open spec fn extra_lines(x: Seq<(Seq<char>, Seq<char>)>) -> Seq<char>
    decreases x.len(),
{
    if x.len() == 0 {
        Seq::empty()
    } else {
        extra_lines(x.drop_last()) + "║   "@ + x.last().0 + ": "@ + x.last().1 + "\n"@
    }
}

/// The value line of the state changes, when the values differ.
pub open spec fn value_line(b: TraceState, a: TraceState) -> Seq<char> {
    match value_change(Some(b), Some(a)) {
        Some((bv, av)) => "║   Value: "@ + dec_int(bv) + " -> "@ + dec_int(av) + "\n"@,
        None => Seq::empty(),
    }
}

/// The direction line of the state changes, when both directions are known and differ.
pub open spec fn direction_line(b: TraceState, a: TraceState) -> Seq<char> {
    match (b.droplet_direction, a.droplet_direction) {
        (Some(bd), Some(ad)) => if bd != ad {
            "║   Direction: "@ + direction_name(bd) + " -> "@ + direction_name(ad) + "\n"@
        } else {
            Seq::empty()
        },
        _ => Seq::empty(),
    }
}

/// The stack lines of the state changes, when stacks are asked for.
pub open spec fn stack_lines(b: TraceState, a: TraceState, c: TraceConfig) -> Seq<char> {
    if c.include_stack {
        (match b.stack_contents {
            Some(st) => "║   Stack Before: ["@ + joined_values(values_of(st@)) + "]\n"@,
            None => Seq::empty(),
        }) + (match a.stack_contents {
            Some(st) => "║   Stack After: ["@ + joined_values(values_of(st@)) + "]\n"@,
            None => Seq::empty(),
        })
    } else {
        Seq::empty()
    }
}

/// The lines on state changes of a verbose detailed rendering.
pub open spec fn state_change_lines(b: TraceState, a: TraceState, c: TraceConfig) -> Seq<char> {
    "║ State Changes:\n"@ + value_line(b, a) + direction_line(b, a) + stack_lines(b, a, c)
}

/// The verbose state change lines of a detailed rendering, when both states are there.
pub open spec fn changes_part(e: TraceEvent, c: TraceConfig) -> Seq<char> {
    if c.level == TraceLevel::Verbose {
        match (e.before_state, e.after_state) {
            (Some(b), Some(a)) => state_change_lines(b, a, c),
            _ => Seq::empty(),
        }
    } else {
        Seq::empty()
    }
}

/// The performance lines of a detailed rendering.
pub open spec fn performance_part(e: TraceEvent, c: TraceConfig) -> Seq<char> {
    if c.include_performance {
        "║ Performance:\n"@
            + (match e.metadata.execution_time_us {
                Some(t) => "║   Execution Time: "@ + dec_nat(t as nat) + "μs\n"@,
                None => Seq::empty(),
            })
            + "║   Active Droplets: "@ + dec_nat(e.metadata.active_droplets as nat) + "\n"@
            + "║   Memory Usage: "@ + dec_nat(e.metadata.memory_usage_bytes as nat) + " bytes\n"@
    } else {
        Seq::empty()
    }
}

/// The metadata lines of a detailed rendering.
pub open spec fn metadata_part(e: TraceEvent) -> Seq<char> {
    if e.metadata.extra@.len() > 0 {
        "║ Metadata:\n"@ + extra_lines(pairs_view(e.metadata.extra@))
    } else {
        Seq::empty()
    }
}

/// The lines naming the droplet, position and cell symbol of a detailed rendering.
pub open spec fn where_part(e: TraceEvent) -> Seq<char> {
    (match e.droplet_id { Some(id) => "║ Droplet: "@ + dec_nat(id as nat) + "\n"@, None => Seq::empty() })
        + (match e.position { Some(p) => "║ Position: "@ + coordinate_text(p) + "\n"@, None => Seq::empty() })
        + (match e.cell_symbol { Some(sym) => "║ Cell Symbol: '"@ + seq![sym] + "'\n"@, None => Seq::empty() })
}

/// The detailed boxed rendering of an event.
pub open spec fn detailed_text(e: TraceEvent, c: TraceConfig) -> Seq<char> {
    "╔══ Tick "@ + pad5(e.tick as nat) + " - "@ + trace_operation_name(e.operation) + "\n"@ + where_part(e)
        + "║ Description: "@ + e.description@ + "\n"@ + changes_part(e, c) + performance_part(e, c)
        + metadata_part(e) + "╚══\n"@
}

impl OutputFormatter {
    /// An event in the detailed format.
    fn format_trace_event_detailed(&self, event: &TraceEvent, config: &TraceConfig) -> (r: String)
        ensures
            r@ == detailed_text(*event, *config),
    {
        let mut output = text("╔══ Tick ");
        push_pad5(&mut output, event.tick);
        push_str(&mut output, " - ");
        event.operation.write_to(&mut output);
        push_str(&mut output, "\n");
        self.push_where(&mut output, event);
        push_str(&mut output, "║ Description: ");
        push_str(&mut output, event.description.as_str());
        push_str(&mut output, "\n");
        let ghost s1 = output@;
        if config.level == TraceLevel::Verbose {
            if let (Some(before), Some(after)) = (&event.before_state, &event.after_state) {
                self.push_state_changes(&mut output, before, after, config);
            }
        }
        assert(output@ =~= s1 + changes_part(*event, *config));
        self.push_performance(&mut output, event, config);
        self.push_metadata(&mut output, event);
        push_str(&mut output, "╚══\n");
        assert(output@ =~= detailed_text(*event, *config));
        output
    }

    /// Appends the lines naming the droplet, position and cell symbol.
    fn push_where(&self, output: &mut String, event: &TraceEvent)
        ensures
            final(output)@ == old(output)@ + where_part(*event),
    {
        if let Some(droplet_id) = event.droplet_id {
            push_str(output, "║ Droplet: ");
            push_nat(output, droplet_id as u128);
            push_str(output, "\n");
        }
        if let Some(pos) = event.position {
            push_str(output, "║ Position: ");
            pos.write_to(output);
            push_str(output, "\n");
        }
        if let Some(symbol) = event.cell_symbol {
            push_str(output, "║ Cell Symbol: '");
            push_char(output, symbol);
            push_str(output, "'\n");
        }
        assert(output@ =~= old(output)@ + where_part(*event));
    }

    /// Appends the state change lines.
    fn push_state_changes(&self, output: &mut String, before: &TraceState, after: &TraceState, config: &TraceConfig)
        ensures
            final(output)@ == old(output)@ + state_change_lines(*before, *after, *config),
    {
        push_str(output, "║ State Changes:\n");
        self.push_value_line(output, before, after);
        self.push_direction_line(output, before, after);
        self.push_stack_lines(output, before, after, config);
        assert(output@ =~= old(output)@ + state_change_lines(*before, *after, *config));
    }

    /// Appends the value line of the state changes.
    fn push_value_line(&self, output: &mut String, before: &TraceState, after: &TraceState)
        ensures
            final(output)@ == old(output)@ + value_line(*before, *after),
    {
        if let (Some(before_val), Some(after_val)) = (&before.droplet_value, &after.droplet_value) {
            if !before_val.eq(after_val) {
                push_str(output, "║   Value: ");
                let t = before_val.to_decimal_string();
                push_str(output, t.as_str());
                push_str(output, " -> ");
                let t = after_val.to_decimal_string();
                push_str(output, t.as_str());
                push_str(output, "\n");
            }
        }
        assert(output@ =~= old(output)@ + value_line(*before, *after));
    }

    /// Appends the direction line of the state changes.
    fn push_direction_line(&self, output: &mut String, before: &TraceState, after: &TraceState)
        ensures
            final(output)@ == old(output)@ + direction_line(*before, *after),
    {
        if let (Some(before_dir), Some(after_dir)) = (before.droplet_direction, after.droplet_direction) {
            if before_dir != after_dir {
                push_str(output, "║   Direction: ");
                write_direction(before_dir, output);
                push_str(output, " -> ");
                write_direction(after_dir, output);
                push_str(output, "\n");
            }
        }
        assert(output@ =~= old(output)@ + direction_line(*before, *after));
    }

    /// Appends the stack lines of the state changes.
    fn push_stack_lines(&self, output: &mut String, before: &TraceState, after: &TraceState, config: &TraceConfig)
        ensures
            final(output)@ == old(output)@ + stack_lines(*before, *after, *config),
    {
        if config.include_stack {
            if let Some(stack_before) = &before.stack_contents {
                push_str(output, "║   Stack Before: [");
                push_joined_values(output, stack_before.as_slice());
                push_str(output, "]\n");
            }
            if let Some(stack_after) = &after.stack_contents {
                push_str(output, "║   Stack After: [");
                push_joined_values(output, stack_after.as_slice());
                push_str(output, "]\n");
            }
        }
        assert(output@ =~= old(output)@ + stack_lines(*before, *after, *config));
    }

    /// Appends the performance lines, when asked for.
    fn push_performance(&self, output: &mut String, event: &TraceEvent, config: &TraceConfig)
        ensures
            final(output)@ == old(output)@ + performance_part(*event, *config),
    {
        if config.include_performance {
            push_str(output, "║ Performance:\n");
            if let Some(exec_time) = event.metadata.execution_time_us {
                push_str(output, "║   Execution Time: ");
                push_nat(output, exec_time as u128);
                push_str(output, "μs\n");
            }
            push_str(output, "║   Active Droplets: ");
            push_nat(output, event.metadata.active_droplets as u128);
            push_str(output, "\n");
            push_str(output, "║   Memory Usage: ");
            push_nat(output, event.metadata.memory_usage_bytes as u128);
            push_str(output, " bytes\n");
        }
        assert(output@ =~= old(output)@ + performance_part(*event, *config));
    }

    /// Appends the metadata lines, when there are named values.
    fn push_metadata(&self, output: &mut String, event: &TraceEvent)
        ensures
            final(output)@ == old(output)@ + metadata_part(*event),
    {
        let extra = &event.metadata.extra;
        if extra.len() > 0 {
            push_str(output, "║ Metadata:\n");
            let ghost s0 = output@;
            let mut i: usize = 0;
            while i < extra.len()
                invariant
                    i <= extra@.len(),
                    output@ == s0 + extra_lines(pairs_view(extra@.take(i as int))),
                decreases extra@.len() - i,
            {
                push_str(output, "║   ");
                push_str(output, extra[i].0.as_str());
                push_str(output, ": ");
                push_str(output, extra[i].1.as_str());
                push_str(output, "\n");
                proof {
                    let w = pairs_view(extra@.take(i + 1));
                    assert(w.drop_last() =~= pairs_view(extra@.take(i as int)));
                }
                assert(output@ =~= s0 + extra_lines(pairs_view(extra@.take(i + 1))));
                i = i + 1;
            }
            assert(extra@.take(extra@.len() as int) =~= extra@);
        }
        assert(output@ =~= old(output)@ + metadata_part(*event));
    }
}

impl OutputFormatter {
    /// An event in the compact format.
    fn format_trace_event_compact(&self, event: &TraceEvent, config: &TraceConfig) -> (r: String)
        ensures
            r@ == compact_text(*event, *config),
    {
        let mut output = text("[");
        push_pad5(&mut output, event.tick);
        push_str(&mut output, "] ");
        event.operation.write_to(&mut output);
        let ghost s0 = output@;
        if let Some(droplet_id) = event.droplet_id {
            push_str(&mut output, " D");
            push_nat(&mut output, droplet_id as u128);
        }
        assert(output@ =~= s0 + id_part(*event));
        let ghost s1 = output@;
        if let Some(pos) = event.position {
            push_str(&mut output, " @");
            pos.write_to(&mut output);
        }
        assert(output@ =~= s1 + position_part(*event));
        let ghost s2 = output@;
        if let Some(symbol) = event.cell_symbol {
            push_str(&mut output, " '");
            push_char(&mut output, symbol);
            push_str(&mut output, "'");
        }
        assert(output@ =~= s2 + symbol_part(*event));
        self.push_compact_detail(&mut output, event, config);
        push_str(&mut output, "\n");
        assert(output@ =~= compact_text(*event, *config));
        output
    }

    /// Appends what a compact rendering says after the position.
    fn push_compact_detail(&self, output: &mut String, event: &TraceEvent, config: &TraceConfig)
        ensures
            final(output)@ == old(output)@ + compact_detail(*event, *config),
    {
        match config.level {
            TraceLevel::Basic => {},
            TraceLevel::Detailed => {
                push_str(output, ": ");
                push_str(output, event.description.as_str());
            },
            TraceLevel::Verbose => {
                push_str(output, ": ");
                push_str(output, event.description.as_str());
                self.push_value_change(output, &event.before_state, &event.after_state);
            },
        }
        assert(output@ =~= old(output)@ + compact_detail(*event, *config));
    }

    /// Appends ` (before -> after)` when both states have values that differ.
    fn push_value_change(&self, output: &mut String, before: &Option<TraceState>, after: &Option<TraceState>)
        ensures
            final(output)@ == old(output)@ + (match value_change(*before, *after) {
                Some((b, a)) => " ("@ + dec_int(b) + " -> "@ + dec_int(a) + ")"@,
                None => Seq::empty(),
            }),
    {
        if let (Some(before), Some(after)) = (before, after) {
            if let (Some(before_val), Some(after_val)) = (&before.droplet_value, &after.droplet_value) {
                if !before_val.eq(after_val) {
                    push_str(output, " (");
                    let t = before_val.to_decimal_string();
                    push_str(output, t.as_str());
                    push_str(output, " -> ");
                    let t = after_val.to_decimal_string();
                    push_str(output, t.as_str());
                    push_str(output, ")");
                    assert(output@ =~= old(output)@ + (" ("@ + dec_int(before_val@) + " -> "@ + dec_int(after_val@) + ")"@));
                    return;
                }
            }
        }
        assert(output@ =~= old(output)@);
    }
}


/// The pieces joined with `sep` between them.
pub open spec fn joined(parts: Seq<Seq<char>>, sep: Seq<char>) -> Seq<char>
    decreases parts.len(),
{
    if parts.len() == 0 {
        Seq::empty()
    } else if parts.len() == 1 {
        parts[0]
    } else {
        joined(parts.drop_last(), sep) + sep + parts.last()
    }
}

/// The strings joined with `sep` between them.
fn join_strings(parts: &Vec<String>, sep: &str) -> (r: String)
    ensures
        r@ == joined(crate::text::string_views(parts@), sep@),
{
    let mut out = String::new();
    let mut i: usize = 0;
    while i < parts.len()
        invariant
            i <= parts@.len(),
            out@ == joined(crate::text::string_views(parts@.take(i as int)), sep@),
        decreases parts@.len() - i,
    {
        if i > 0 {
            push_str(&mut out, sep);
        }
        push_str(&mut out, parts[i].as_str());
        proof {
            let w = crate::text::string_views(parts@.take(i + 1));
            assert(w.drop_last() =~= crate::text::string_views(parts@.take(i as int)));
            if i == 0 {
                assert(crate::text::string_views(parts@.take(0)) =~= Seq::<Seq<char>>::empty());
            }
        }
        assert(out@ =~= joined(crate::text::string_views(parts@.take(i + 1)), sep@));
        i = i + 1;
    }
    assert(parts@.take(parts@.len() as int) =~= parts@);
    out
}

/// `s` with each `"` written as `\"`.
pub open spec fn escape_quotes(s: Seq<char>) -> Seq<char>
    decreases s.len(),
{
    if s.len() == 0 {
        Seq::empty()
    } else {
        escape_quotes(s.drop_last()) + if s.last() == '"' { seq!['\\', '"'] } else { seq![s.last()] }
    }
}

/// `s` with each line break followed by four spaces.
pub open spec fn indent_breaks(s: Seq<char>) -> Seq<char>
    decreases s.len(),
{
    if s.len() == 0 {
        Seq::empty()
    } else {
        indent_breaks(s.drop_last()) + if s.last() == '\n' { "\n    "@ } else { seq![s.last()] }
    }
}

/// Appends `s`, each `"` written as `\"`.
fn push_escaped_quotes(out: &mut String, s: &str)
    ensures
        final(out)@ == old(out)@ + escape_quotes(s@),
{
    let cs = crate::text::chars_of(s);
    let mut i: usize = 0;
    while i < cs.len()
        invariant
            cs@ == s@,
            i <= cs@.len(),
            out@ == old(out)@ + escape_quotes(cs@.take(i as int)),
        decreases cs@.len() - i,
    {
        let c = cs[i];
        if c == '"' {
            push_char(out, '\\');
            push_char(out, '"');
        } else {
            push_char(out, c);
        }
        assert(cs@.take(i + 1).drop_last() =~= cs@.take(i as int));
        assert(out@ =~= old(out)@ + escape_quotes(cs@.take(i + 1)));
        i = i + 1;
    }
    assert(cs@.take(cs@.len() as int) =~= cs@);
}

/// Appends `s`, each line break followed by four spaces.
fn push_indented(out: &mut String, s: &str)
    ensures
        final(out)@ == old(out)@ + indent_breaks(s@),
{
    let cs = crate::text::chars_of(s);
    let mut i: usize = 0;
    while i < cs.len()
        invariant
            cs@ == s@,
            i <= cs@.len(),
            out@ == old(out)@ + indent_breaks(cs@.take(i as int)),
        decreases cs@.len() - i,
    {
        let c = cs[i];
        if c == '\n' {
            push_str(out, "\n    ");
        } else {
            push_char(out, c);
        }
        assert(cs@.take(i + 1).drop_last() =~= cs@.take(i as int));
        assert(out@ =~= old(out)@ + indent_breaks(cs@.take(i + 1)));
        i = i + 1;
    }
    assert(cs@.take(cs@.len() as int) =~= cs@);
}

/// A coordinate as a JSON object.
pub open spec fn coordinate_json(c: Coordinate) -> Seq<char> {
    "{\"x\": "@ + dec_int(c.x as int) + ", \"y\": "@ + dec_int(c.y as int) + "}"@
}

/// Appends a coordinate as a JSON object.
fn push_coordinate_json(out: &mut String, c: Coordinate)
    ensures
        final(out)@ == old(out)@ + coordinate_json(c),
{
    push_str(out, "{\"x\": ");
    push_int(out, c.x as i128);
    push_str(out, ", \"y\": ");
    push_int(out, c.y as i128);
    push_str(out, "}");
    assert(out@ =~= old(out)@ + coordinate_json(c));
}

/// The values of a stack as quoted JSON strings.
pub open spec fn quoted_values(v: Seq<int>) -> Seq<Seq<char>> {
    v.map_values(|x: int| "\""@ + dec_int(x) + "\""@)
}

/// The fields of a state as JSON members.
pub open spec fn state_json_parts(st: TraceState) -> Seq<Seq<char>> {
    (match st.droplet_value { Some(v) => seq!["\"droplet_value\": \""@ + dec_int(v@) + "\""@], None => Seq::empty() })
        + (match st.droplet_direction { Some(d) => seq!["\"droplet_direction\": \""@ + direction_name(d) + "\""@], None => Seq::empty() })
        + (match st.stack_contents {
            Some(sc) => seq!["\"stack_contents\": ["@ + joined(quoted_values(values_of(sc@)), ", "@) + "]"@],
            None => Seq::empty(),
        })
        + (match st.call_stack_depth { Some(n) => seq!["\"call_stack_depth\": "@ + dec_nat(n as nat)], None => Seq::empty() })
        + (match st.memory_coord { Some(c) => seq!["\"memory_coord\": "@ + coordinate_json(c)], None => Seq::empty() })
}

/// A state as a JSON object.
pub open spec fn state_json(st: TraceState) -> Seq<char> {
    let parts = state_json_parts(st);
    if parts.len() == 0 {
        "{{}}"@
    } else {
        "{\n    "@ + joined(parts, ",\n    "@) + " }"@
    }
}

/// The named values of an event as JSON members.
pub open spec fn extra_json(x: Seq<(Seq<char>, Seq<char>)>) -> Seq<Seq<char>> {
    x.map_values(|p: (Seq<char>, Seq<char>)| "\""@ + p.0 + "\": \""@ + p.1 + "\""@)
}

/// The fields of an event as JSON members.
pub open spec fn event_json_parts(e: TraceEvent) -> Seq<Seq<char>> {
    seq![
        "\"tick\": "@ + dec_nat(e.tick as nat),
        "\"operation\": \""@ + trace_operation_name(e.operation) + "\""@,
        "\"timestamp_us\": "@ + dec_nat(e.timestamp_ms as nat * 1000),
    ]
        + (match e.droplet_id { Some(id) => seq!["\"droplet_id\": "@ + dec_nat(id as nat)], None => Seq::empty() })
        + (match e.position { Some(p) => seq!["\"position\": "@ + coordinate_json(p)], None => Seq::empty() })
        + (match e.cell_symbol { Some(sym) => seq!["\"cell_symbol\": \""@ + seq![sym] + "\""@], None => Seq::empty() })
        + seq!["\"description\": \""@ + escape_quotes(e.description@) + "\""@]
        + (match (e.before_state, e.after_state) {
            (Some(b), Some(a)) => seq!["\"before_state\": "@ + state_json(b), "\"after_state\": "@ + state_json(a)],
            _ => Seq::empty(),
        })
        + seq![
            "\"active_droplets\": "@ + dec_nat(e.metadata.active_droplets as nat),
            "\"memory_usage_bytes\": "@ + dec_nat(e.metadata.memory_usage_bytes as nat),
            "\"collision_count\": "@ + dec_nat(e.metadata.collision_count as nat),
        ]
        + (match e.metadata.execution_time_us { Some(t) => seq!["\"execution_time_us\": "@ + dec_nat(t as nat)], None => Seq::empty() })
        + (if e.metadata.extra@.len() > 0 {
            seq!["\"extra\": {"@ + joined(extra_json(pairs_view(e.metadata.extra@)), ", "@) + "}"@]
        } else {
            Seq::empty()
        })
}

/// An event as a JSON object.
pub open spec fn json_text(e: TraceEvent) -> Seq<char> {
    "{\n  "@ + joined(event_json_parts(e), ",\n  "@) + "\n}"@
}

/// Pushes `t` onto the parts.
fn add_part(parts: &mut Vec<String>, t: String)
    ensures
        crate::text::string_views(final(parts)@) == crate::text::string_views(old(parts)@).push(t@),
{
    parts.push(t);
    assert(crate::text::string_views(parts@) =~= crate::text::string_views(old(parts)@).push(t@));
}

impl OutputFormatter {
    /// A state as a JSON object.
    fn format_trace_state_json(&self, state: &TraceState) -> (r: String)
        ensures
            r@ == state_json(*state),
    {
        let mut parts: Vec<String> = Vec::new();
        let ghost p0 = crate::text::string_views(parts@);
        if let Some(value) = &state.droplet_value {
            let mut t = text("\"droplet_value\": \"");
            let v = value.to_decimal_string();
            push_str(&mut t, v.as_str());
            push_str(&mut t, "\"");
            add_part(&mut parts, t);
        }
        let ghost p1 = crate::text::string_views(parts@);
        assert(p1 =~= p0 + (match state.droplet_value { Some(v) => seq!["\"droplet_value\": \""@ + dec_int(v@) + "\""@], None => Seq::empty() }));
        if let Some(direction) = state.droplet_direction {
            let mut t = text("\"droplet_direction\": \"");
            write_direction(direction, &mut t);
            push_str(&mut t, "\"");
            add_part(&mut parts, t);
        }
        let ghost p2 = crate::text::string_views(parts@);
        assert(p2 =~= p1 + (match state.droplet_direction { Some(d) => seq!["\"droplet_direction\": \""@ + direction_name(d) + "\""@], None => Seq::empty() }));
        if let Some(stack) = &state.stack_contents {
            let mut quoted: Vec<String> = Vec::new();
            let mut i: usize = 0;
            while i < stack.len()
                invariant
                    i <= stack@.len(),
                    crate::text::string_views(quoted@) == quoted_values(values_of(stack@.take(i as int))),
                decreases stack@.len() - i,
            {
                let mut q = text("\"");
                let v = stack[i].to_decimal_string();
                push_str(&mut q, v.as_str());
                push_str(&mut q, "\"");
                add_part(&mut quoted, q);
                assert(quoted_values(values_of(stack@.take(i + 1))) =~= quoted_values(values_of(stack@.take(i as int))).push(
                    "\""@ + dec_int(stack@[i as int]@) + "\""@));
                i = i + 1;
            }
            assert(stack@.take(stack@.len() as int) =~= stack@);
            let mut t = text("\"stack_contents\": [");
            let j = join_strings(&quoted, ", ");
            push_str(&mut t, j.as_str());
            push_str(&mut t, "]");
            add_part(&mut parts, t);
        }
        let ghost p3 = crate::text::string_views(parts@);
        assert(p3 =~= p2 + (match state.stack_contents {
            Some(sc) => seq!["\"stack_contents\": ["@ + joined(quoted_values(values_of(sc@)), ", "@) + "]"@],
            None => Seq::empty(),
        }));
        if let Some(depth) = state.call_stack_depth {
            let mut t = text("\"call_stack_depth\": ");
            push_nat(&mut t, depth as u128);
            add_part(&mut parts, t);
        }
        let ghost p4 = crate::text::string_views(parts@);
        assert(p4 =~= p3 + (match state.call_stack_depth { Some(n) => seq!["\"call_stack_depth\": "@ + dec_nat(n as nat)], None => Seq::empty() }));
        if let Some(coord) = state.memory_coord {
            let mut t = text("\"memory_coord\": ");
            push_coordinate_json(&mut t, coord);
            add_part(&mut parts, t);
        }
        assert(crate::text::string_views(parts@) =~= state_json_parts(*state));
        if parts.len() == 0 {
            text("{{}}")
        } else {
            let mut out = text("{\n    ");
            let j = join_strings(&parts, ",\n    ");
            push_str(&mut out, j.as_str());
            push_str(&mut out, " }");
            out
        }
    }
}


/// The leading JSON members of an event: tick, operation and time.
pub open spec fn json_head_parts(e: TraceEvent) -> Seq<Seq<char>> {
    seq![
        "\"tick\": "@ + dec_nat(e.tick as nat),
        "\"operation\": \""@ + trace_operation_name(e.operation) + "\""@,
        "\"timestamp_us\": "@ + dec_nat(e.timestamp_ms as nat * 1000),
    ]
}

/// The JSON members naming the droplet, position and cell symbol of an event.
pub open spec fn json_where_parts(e: TraceEvent) -> Seq<Seq<char>> {
    (match e.droplet_id { Some(id) => seq!["\"droplet_id\": "@ + dec_nat(id as nat)], None => Seq::empty() })
        + (match e.position { Some(p) => seq!["\"position\": "@ + coordinate_json(p)], None => Seq::empty() })
        + (match e.cell_symbol { Some(sym) => seq!["\"cell_symbol\": \""@ + seq![sym] + "\""@], None => Seq::empty() })
}

/// The JSON members of the states of an event, when both are there.
pub open spec fn json_state_parts(e: TraceEvent) -> Seq<Seq<char>> {
    match (e.before_state, e.after_state) {
        (Some(b), Some(a)) => seq!["\"before_state\": "@ + state_json(b), "\"after_state\": "@ + state_json(a)],
        _ => Seq::empty(),
    }
}

/// The JSON members of the figures of an event.
pub open spec fn json_metadata_parts(e: TraceEvent) -> Seq<Seq<char>> {
    seq![
        "\"active_droplets\": "@ + dec_nat(e.metadata.active_droplets as nat),
        "\"memory_usage_bytes\": "@ + dec_nat(e.metadata.memory_usage_bytes as nat),
        "\"collision_count\": "@ + dec_nat(e.metadata.collision_count as nat),
    ]
        + (match e.metadata.execution_time_us { Some(t) => seq!["\"execution_time_us\": "@ + dec_nat(t as nat)], None => Seq::empty() })
        + (if e.metadata.extra@.len() > 0 {
            seq!["\"extra\": {"@ + joined(extra_json(pairs_view(e.metadata.extra@)), ", "@) + "}"@]
        } else {
            Seq::empty()
        })
}

/// The event's JSON members in order.
proof fn lemma_event_json_parts(e: TraceEvent)
    ensures
        event_json_parts(e) == json_head_parts(e) + json_where_parts(e)
            + seq!["\"description\": \""@ + escape_quotes(e.description@) + "\""@] + json_state_parts(e)
            + json_metadata_parts(e),
{
    assert(event_json_parts(e) =~= json_head_parts(e) + json_where_parts(e)
        + seq!["\"description\": \""@ + escape_quotes(e.description@) + "\""@] + json_state_parts(e)
        + json_metadata_parts(e));
}

impl OutputFormatter {
    /// Adds the JSON members naming the droplet, position and cell symbol.
    fn add_where_parts(&self, parts: &mut Vec<String>, event: &TraceEvent)
        ensures
            crate::text::string_views(final(parts)@) == crate::text::string_views(old(parts)@) + json_where_parts(*event),
    {
        let ghost p0 = crate::text::string_views(parts@);
        if let Some(droplet_id) = event.droplet_id {
            let mut t = text("\"droplet_id\": ");
            push_nat(&mut t, droplet_id as u128);
            add_part(parts, t);
        }
        let ghost p1 = crate::text::string_views(parts@);
        assert(p1 =~= p0 + (match event.droplet_id { Some(id) => seq!["\"droplet_id\": "@ + dec_nat(id as nat)], None => Seq::empty() }));
        if let Some(pos) = event.position {
            let mut t = text("\"position\": ");
            push_coordinate_json(&mut t, pos);
            add_part(parts, t);
        }
        let ghost p2 = crate::text::string_views(parts@);
        assert(p2 =~= p1 + (match event.position { Some(p) => seq!["\"position\": "@ + coordinate_json(p)], None => Seq::empty() }));
        if let Some(symbol) = event.cell_symbol {
            let mut t = text("\"cell_symbol\": \"");
            push_char(&mut t, symbol);
            push_str(&mut t, "\"");
            assert(t@ =~= "\"cell_symbol\": \""@ + seq![symbol] + "\""@);
            add_part(parts, t);
        }
        assert(crate::text::string_views(parts@) =~= p2 + (match event.cell_symbol { Some(sym) => seq!["\"cell_symbol\": \""@ + seq![sym] + "\""@], None => Seq::empty() }));
        assert(crate::text::string_views(parts@) =~= p0 + json_where_parts(*event));
    }

    /// Adds the JSON members of the figures of an event.
    fn add_metadata_parts(&self, parts: &mut Vec<String>, event: &TraceEvent)
        ensures
            crate::text::string_views(final(parts)@) == crate::text::string_views(old(parts)@) + json_metadata_parts(*event),
    {
        let ghost p0 = crate::text::string_views(parts@);
        let mut t = text("\"active_droplets\": ");
        push_nat(&mut t, event.metadata.active_droplets as u128);
        add_part(parts, t);
        let mut t = text("\"memory_usage_bytes\": ");
        push_nat(&mut t, event.metadata.memory_usage_bytes as u128);
        add_part(parts, t);
        let mut t = text("\"collision_count\": ");
        push_nat(&mut t, event.metadata.collision_count as u128);
        add_part(parts, t);
        if let Some(exec_time) = event.metadata.execution_time_us {
            let mut t = text("\"execution_time_us\": ");
            push_nat(&mut t, exec_time as u128);
            add_part(parts, t);
        }
        let extra = &event.metadata.extra;
        if extra.len() > 0 {
            let mut members: Vec<String> = Vec::new();
            let mut i: usize = 0;
            while i < extra.len()
                invariant
                    i <= extra@.len(),
                    crate::text::string_views(members@) == extra_json(pairs_view(extra@.take(i as int))),
                decreases extra@.len() - i,
            {
                let mut m = text("\"");
                push_str(&mut m, extra[i].0.as_str());
                push_str(&mut m, "\": \"");
                push_str(&mut m, extra[i].1.as_str());
                push_str(&mut m, "\"");
                add_part(&mut members, m);
                assert(extra_json(pairs_view(extra@.take(i + 1))) =~= extra_json(pairs_view(extra@.take(i as int))).push(
                    "\""@ + extra@[i as int].0@ + "\": \""@ + extra@[i as int].1@ + "\""@));
                i = i + 1;
            }
            assert(extra@.take(extra@.len() as int) =~= extra@);
            let mut t = text("\"extra\": {");
            let j = join_strings(&members, ", ");
            push_str(&mut t, j.as_str());
            push_str(&mut t, "}");
            add_part(parts, t);
        }
        assert(crate::text::string_views(parts@) =~= p0 + json_metadata_parts(*event));
    }

    /// An event in the JSON format.
    fn format_trace_event_json(&self, event: &TraceEvent, _config: &TraceConfig) -> (r: String)
        ensures
            r@ == json_text(*event),
    {
        let mut parts: Vec<String> = Vec::new();
        let mut t = text("\"tick\": ");
        push_nat(&mut t, event.tick as u128);
        add_part(&mut parts, t);
        let mut t = text("\"operation\": \"");
        event.operation.write_to(&mut t);
        push_str(&mut t, "\"");
        add_part(&mut parts, t);
        let mut t = text("\"timestamp_us\": ");
        push_nat(&mut t, event.timestamp_ms as u128 * 1000);
        add_part(&mut parts, t);
        assert(crate::text::string_views(parts@) =~= json_head_parts(*event));
        self.add_where_parts(&mut parts, event);
        let mut t = text("\"description\": \"");
        push_escaped_quotes(&mut t, event.description.as_str());
        push_str(&mut t, "\"");
        add_part(&mut parts, t);
        let ghost p3 = crate::text::string_views(parts@);
        if let (Some(before), Some(after)) = (&event.before_state, &event.after_state) {
            let mut t = text("\"before_state\": ");
            let j = self.format_trace_state_json(before);
            push_str(&mut t, j.as_str());
            add_part(&mut parts, t);
            let mut t = text("\"after_state\": ");
            let j = self.format_trace_state_json(after);
            push_str(&mut t, j.as_str());
            add_part(&mut parts, t);
        }
        assert(crate::text::string_views(parts@) =~= p3 + json_state_parts(*event));
        self.add_metadata_parts(&mut parts, event);
        proof {
            lemma_event_json_parts(*event);
        }
        assert(crate::text::string_views(parts@) =~= event_json_parts(*event));
        let mut out = text("{\n  ");
        let j = join_strings(&parts, ",\n  ");
        push_str(&mut out, j.as_str());
        push_str(&mut out, "\n}");
        out
    }

    /// An event in the configured format.
    pub fn format_trace_event(&self, event: &TraceEvent, config: &TraceConfig) -> (r: String)
        ensures
            r@ == event_text(*event, *config),
    {
        match config.format {
            TraceFormat::Compact => self.format_trace_event_compact(event, config),
            TraceFormat::Detailed => self.format_trace_event_detailed(event, config),
            TraceFormat::Json => self.format_trace_event_json(event, config),
        }
    }
}

/// An event rendered in the configured format.
pub open spec fn event_text(e: TraceEvent, c: TraceConfig) -> Seq<char> {
    match c.format {
        TraceFormat::Compact => compact_text(e, c),
        TraceFormat::Detailed => detailed_text(e, c),
        TraceFormat::Json => json_text(e),
    }
}


/// The events that pass the filters of `c`, in order.
pub open spec fn passing(events: Seq<TraceEvent>, c: TraceConfig) -> Seq<TraceEvent>
    decreases events.len(),
{
    if events.len() == 0 {
        Seq::empty()
    } else {
        passing(events.drop_last(), c) + if includes_event(c, events.last()) { seq![events.last()] } else { Seq::empty() }
    }
}

/// At most the first `m` of `s`.
pub open spec fn limited(s: Seq<TraceEvent>, m: int) -> Seq<TraceEvent> {
    if m < s.len() { s.take(m) } else { s }
}

/// The events a trace shows: those that pass the filters, at most `max_events` of them.
pub open spec fn shown_events(events: Seq<TraceEvent>, c: TraceConfig) -> Seq<TraceEvent> {
    limited(passing(events, c), match c.max_events { Some(m) => m as int, None => events.len() as int })
}

/// The header of a trace of `n` events.
pub open spec fn trace_header(n: nat, c: TraceConfig) -> Seq<char> {
    match c.format {
        TraceFormat::Compact => "Trace Output - "@ + dec_nat(n) + " events (level: "@ + trace_level_name(c.level) + ")\n"@,
        TraceFormat::Detailed => "╔════════════════════════════════════════════════════════════╗\n"@ + "║                    EXECUTION TRACE                         ║\n"@
            + "║  Events: "@ + dec_nat(n) + " | Level: "@ + trace_level_name(c.level) + " | Format: "@
            + trace_format_name(c.format) + "               ║\n"@ + "╚════════════════════════════════════════════════════════════╝\n"@,
        TraceFormat::Json => "{\n"@ + "  \"trace_info\": {\n"@ + "    \"total_events\": "@ + dec_nat(n) + ",\n"@
            + "    \"level\": \""@ + trace_level_name(c.level) + "\",\n"@ + "    \"format\": \""@
            + trace_format_name(c.format) + "\"\n"@ + "  },\n"@ + "  \"events\": [\n"@,
    }
}

/// The footer of a trace of `n` events.
pub open spec fn trace_footer(n: nat, c: TraceConfig) -> Seq<char> {
    match c.format {
        TraceFormat::Json => "  ]\n"@ + "}\n"@,
        TraceFormat::Detailed => "╔════════════════════════════════════════════════════════════╗\n"@ + "║                     END OF TRACE                          ║\n"@ + "╚════════════════════════════════════════════════════════════╝\n"@,
        TraceFormat::Compact => "End of trace - "@ + dec_nat(n) + " events displayed\n"@,
    }
}

/// How the event at `i` of `n` shown events is written: in JSON indented, with a
/// comma after all but the last.
pub open spec fn trace_item(e: TraceEvent, c: TraceConfig, i: int, n: int) -> Seq<char> {
    match c.format {
        TraceFormat::Json => "    "@ + indent_breaks(event_text(e, c)) + (if i < n - 1 { ","@ } else { Seq::empty() }) + "\n"@,
        _ => event_text(e, c),
    }
}

/// The first `k` shown events, written.
pub open spec fn trace_body(es: Seq<TraceEvent>, c: TraceConfig, k: int) -> Seq<char>
    decreases k,
{
    if k <= 0 {
        Seq::empty()
    } else {
        trace_body(es, c, k - 1) + trace_item(es[k - 1], c, k - 1, es.len() as int)
    }
}

/// A whole trace of `events` under `c`.
pub open spec fn trace_text(events: Seq<TraceEvent>, c: TraceConfig) -> Seq<char> {
    let es = shown_events(events, c);
    trace_header(es.len(), c) + trace_body(es, c, es.len() as int) + trace_footer(es.len(), c)
}

impl OutputFormatter {
    /// Appends the header of a trace of `n` events.
    fn push_trace_header(output: &mut String, n: usize, config: &TraceConfig)
        ensures
            final(output)@ == old(output)@ + trace_header(n as nat, *config),
    {
        match config.format {
            TraceFormat::Compact => {
                push_str(output, "Trace Output - ");
                push_nat(output, n as u128);
                push_str(output, " events (level: ");
                config.level.write_to(output);
                push_str(output, ")\n");
            },
            TraceFormat::Detailed => {
                push_str(output, "╔════════════════════════════════════════════════════════════╗\n");
                push_str(output, "║                    EXECUTION TRACE                         ║\n");
                push_str(output, "║  Events: ");
                push_nat(output, n as u128);
                push_str(output, " | Level: ");
                config.level.write_to(output);
                push_str(output, " | Format: ");
                config.format.write_to(output);
                push_str(output, "               ║\n");
                push_str(output, "╚════════════════════════════════════════════════════════════╝\n");
            },
            TraceFormat::Json => {
                push_str(output, "{\n");
                push_str(output, "  \"trace_info\": {\n");
                push_str(output, "    \"total_events\": ");
                push_nat(output, n as u128);
                push_str(output, ",\n");
                push_str(output, "    \"level\": \"");
                config.level.write_to(output);
                push_str(output, "\",\n");
                push_str(output, "    \"format\": \"");
                config.format.write_to(output);
                push_str(output, "\"\n");
                push_str(output, "  },\n");
                push_str(output, "  \"events\": [\n");
            },
        }
        assert(output@ =~= old(output)@ + trace_header(n as nat, *config));
    }

    /// Appends the footer of a trace of `n` events.
    fn push_trace_footer(output: &mut String, n: usize, config: &TraceConfig)
        ensures
            final(output)@ == old(output)@ + trace_footer(n as nat, *config),
    {
        match config.format {
            TraceFormat::Json => {
                push_str(output, "  ]\n");
                push_str(output, "}\n");
            },
            TraceFormat::Detailed => {
                push_str(output, "╔════════════════════════════════════════════════════════════╗\n");
                push_str(output, "║                     END OF TRACE                          ║\n");
                push_str(output, "╚════════════════════════════════════════════════════════════╝\n");
            },
            TraceFormat::Compact => {
                push_str(output, "End of trace - ");
                push_nat(output, n as u128);
                push_str(output, " events displayed\n");
            },
        }
        assert(output@ =~= old(output)@ + trace_footer(n as nat, *config));
    }

    /// The indices of the events a trace shows.
    fn shown_indices(events: &[TraceEvent], config: &TraceConfig) -> (r: Vec<usize>)
        ensures
            forall|j: int| 0 <= j < r@.len() ==> r@[j] < events@.len(),
            r@.map_values(|k: usize| events@[k as int]) == shown_events(events@, *config),
    {
        let m: usize = match config.max_events {
            Some(m) => m,
            None => events.len(),
        };
        let mut idx: Vec<usize> = Vec::new();
        let mut i: usize = 0;
        while i < events.len()
            invariant
                i <= events@.len(),
                m as int == (match config.max_events { Some(x) => x as int, None => events@.len() as int }),
                forall|j: int| 0 <= j < idx@.len() ==> idx@[j] < i,
                idx@.map_values(|k: usize| events@[k as int]) == limited(passing(events@.take(i as int), *config), m as int),
            decreases events@.len() - i,
        {
            let ghost before = idx@;
            let ghost p = passing(events@.take(i as int), *config);
            assert(events@.take(i + 1).drop_last() =~= events@.take(i as int));
            assert(events@.take(i + 1).last() == events@[i as int]);
            if config.should_include_event(&events[i]) {
                if idx.len() < m {
                    idx.push(i);
                    proof {
                        assert(p.len() < m) by {
                            assert(limited(p, m as int).len() == before.len());
                        }
                        assert(idx@.map_values(|k: usize| events@[k as int]) =~= before.map_values(|k: usize| events@[k as int]).push(events@[i as int]));
                    }
                } else {
                    proof {
                        assert(limited(p, m as int).len() == before.len());
                        assert(limited(p.push(events@[i as int]), m as int) =~= limited(p, m as int));
                    }
                }
            } else {
                assert(passing(events@.take(i + 1), *config) =~= p);
            }
            i = i + 1;
        }
        assert(events@.take(events@.len() as int) =~= events@);
        idx
    }

    /// A trace of the events that pass the filters, at most `max_events` of them,
    /// between a header and a footer.
    pub fn format_trace_events(&self, events: &[TraceEvent], config: &TraceConfig) -> (r: String)
        ensures
            r@ == trace_text(events@, *config),
    {
        let idx = Self::shown_indices(events, config);
        let ghost es = shown_events(events@, *config);
        let n = idx.len();
        assert(es.len() == n) by {
            assert(idx@.map_values(|k: usize| events@[k as int]).len() == idx@.len());
        }
        let mut output = String::new();
        Self::push_trace_header(&mut output, n, config);
        let ghost h = output@;
        let mut j: usize = 0;
        while j < n
            invariant
                n == idx@.len(),
                j <= n,
                es.len() == n,
                forall|q: int| 0 <= q < idx@.len() ==> idx@[q] < events@.len(),
                idx@.map_values(|k: usize| events@[k as int]) == es,
                output@ == h + trace_body(es, *config, j as int),
            decreases n - j,
        {
            let k = idx[j];
            assert(es[j as int] == events@[k as int]) by {
                assert(idx@.map_values(|k: usize| events@[k as int])[j as int] == events@[idx@[j as int] as int]);
            }
            let formatted = self.format_trace_event(&events[k], config);
            match config.format {
                TraceFormat::Json => {
                    push_str(&mut output, "    ");
                    push_indented(&mut output, formatted.as_str());
                    if j < n - 1 {
                        push_str(&mut output, ",");
                    }
                    push_str(&mut output, "\n");
                },
                _ => {
                    push_str(&mut output, formatted.as_str());
                },
            }
            assert(output@ =~= h + trace_body(es, *config, j + 1));
            j = j + 1;
        }
        Self::push_trace_footer(&mut output, n, config);
        assert(output@ =~= trace_text(events@, *config));
        output
    }
}


/// The line of one active droplet in a verbose tick report.
pub open spec fn droplet_line(d: Droplet) -> Seq<char> {
    "  Droplet("@ + dec_nat(d.id as nat) + ") at ("@ + coordinate_text(d.position) + ") value="@ + dec_int(d.value@)
        + " direction="@ + direction_name(d.direction) + "\n"@
}

/// The lines of the active droplets among the first `k`.
pub open spec fn droplet_lines(ds: Seq<Droplet>, k: int) -> Seq<char>
    decreases k,
{
    if k <= 0 {
        Seq::empty()
    } else {
        droplet_lines(ds, k - 1) + if ds[k - 1].active { droplet_line(ds[k - 1]) } else { Seq::empty() }
    }
}

/// The values of a stack as the original writes them: `TubularBigInt(v)` each.
pub open spec fn wrapped_values(v: Seq<int>) -> Seq<Seq<char>> {
    v.map_values(|x: int| "TubularBigInt("@ + dec_int(x) + ")"@)
}

/// The verbose report of a tick.
pub open spec fn verbose_tick_text(t: TickResult, ds: Seq<Droplet>, stack: Seq<int>) -> Seq<char> {
    "[TICK "@ + pad5(t.tick as nat) + "] Active droplets: "@ + dec_nat(t.droplets_active as nat) + ", Collisions: "@
        + dec_nat(t.collisions as nat) + "\n"@ + droplet_lines(ds, ds.len() as int)
        + (if stack.len() > 0 { "  Stack: ["@ + joined(wrapped_values(stack), ", "@) + "]\n"@ } else { Seq::empty() })
        + (match t.output { Some(o) => "  Output: "@ + o@ + "\n"@, None => Seq::empty() })
}

/// One traced step of a droplet.
pub open spec fn trace_tick_text(
    tick: u64,
    id: u64,
    from: Coordinate,
    to: Coordinate,
    value_from: Seq<char>,
    value_to: Seq<char>,
    direction_from: Seq<char>,
    direction_to: Seq<char>,
    cell_symbol: char,
    operation: Option<Seq<char>>,
) -> Seq<char> {
    "TRACE | TICK "@ + pad5(tick as nat) + " | Droplet "@ + dec_nat(id as nat) + " | ("@ + coordinate_text(from)
        + ") -> ("@ + coordinate_text(to) + ") | value: "@ + value_from + " -> "@ + value_to + " | dir: "@
        + direction_from + " -> "@ + direction_to
        + (match operation { Some(op) => " | Cell ("@ + seq![cell_symbol] + ")  | "@ + op, None => Seq::empty() })
        + "\n"@
}

impl OutputFormatter {
    /// The verbose report of a tick: counts, the active droplets, the stack and
    /// what the tick printed.
    pub fn format_verbose_tick(tick_result: &TickResult, droplets: &[Droplet], stack: &DataStack) -> (r: String)
        ensures
            r@ == verbose_tick_text(*tick_result, droplets@, stack@),
    {
        let mut output = text("[TICK ");
        push_pad5(&mut output, tick_result.tick);
        push_str(&mut output, "] Active droplets: ");
        push_nat(&mut output, tick_result.droplets_active as u128);
        push_str(&mut output, ", Collisions: ");
        push_nat(&mut output, tick_result.collisions as u128);
        push_str(&mut output, "\n");
        let ghost h = output@;
        let mut i: usize = 0;
        while i < droplets.len()
            invariant
                i <= droplets@.len(),
                output@ == h + droplet_lines(droplets@, i as int),
            decreases droplets@.len() - i,
        {
            let droplet = &droplets[i];
            if droplet.is_active() {
                push_str(&mut output, "  Droplet(");
                push_nat(&mut output, droplet.id as u128);
                push_str(&mut output, ") at (");
                droplet.position.write_to(&mut output);
                push_str(&mut output, ") value=");
                let v = droplet.value.to_decimal_string();
                push_str(&mut output, v.as_str());
                push_str(&mut output, " direction=");
                write_direction(droplet.direction, &mut output);
                push_str(&mut output, "\n");
            }
            assert(output@ =~= h + droplet_lines(droplets@, i + 1));
            i = i + 1;
        }
        if !stack.is_empty() {
            let values = stack.as_slice();
            let mut parts: Vec<String> = Vec::new();
            let mut k: usize = 0;
            while k < values.len()
                invariant
                    k <= values@.len(),
                    crate::text::string_views(parts@) == wrapped_values(values_of(values@.take(k as int))),
                decreases values@.len() - k,
            {
                let mut t = text("TubularBigInt(");
                let v = values[k].to_decimal_string();
                push_str(&mut t, v.as_str());
                push_str(&mut t, ")");
                add_part(&mut parts, t);
                assert(wrapped_values(values_of(values@.take(k + 1))) =~= wrapped_values(values_of(values@.take(k as int))).push(
                    "TubularBigInt("@ + dec_int(values@[k as int]@) + ")"@));
                k = k + 1;
            }
            assert(values@.take(values@.len() as int) =~= values@);
            push_str(&mut output, "  Stack: [");
            let j = join_strings(&parts, ", ");
            push_str(&mut output, j.as_str());
            push_str(&mut output, "]\n");
        }
        if let Some(tick_output) = &tick_result.output {
            push_str(&mut output, "  Output: ");
            push_str(&mut output, tick_output.as_str());
            push_str(&mut output, "\n");
        }
        assert(output@ =~= verbose_tick_text(*tick_result, droplets@, stack@));
        output
    }

    /// One traced step of a droplet, with the operation when there is one.
    pub fn format_trace_tick(
        tick: u64,
        droplet: &Droplet,
        from_coord: Coordinate,
        to_coord: Coordinate,
        value_from: &str,
        value_to: &str,
        direction_from: &str,
        direction_to: &str,
        cell_symbol: char,
        operation: Option<&str>,
    ) -> (r: String)
        ensures
            r@ == trace_tick_text(tick, droplet.id, from_coord, to_coord, value_from@, value_to@, direction_from@,
                direction_to@, cell_symbol, match operation { Some(op) => Some(op@), None => None }),
    {
        let mut output = text("TRACE | TICK ");
        push_pad5(&mut output, tick);
        push_str(&mut output, " | Droplet ");
        push_nat(&mut output, droplet.id as u128);
        push_str(&mut output, " | (");
        from_coord.write_to(&mut output);
        push_str(&mut output, ") -> (");
        to_coord.write_to(&mut output);
        push_str(&mut output, ") | value: ");
        push_str(&mut output, value_from);
        push_str(&mut output, " -> ");
        push_str(&mut output, value_to);
        push_str(&mut output, " | dir: ");
        push_str(&mut output, direction_from);
        push_str(&mut output, " -> ");
        push_str(&mut output, direction_to);
        if let Some(op_desc) = operation {
            push_str(&mut output, " | Cell (");
            push_char(&mut output, cell_symbol);
            push_str(&mut output, ")  | ");
            push_str(&mut output, op_desc);
        }
        push_str(&mut output, "\n");
        assert(output@ =~= trace_tick_text(tick, droplet.id, from_coord, to_coord, value_from@, value_to@, direction_from@,
            direction_to@, cell_symbol, match operation { Some(op) => Some(op@), None => None }));
        output
    }
}


/// How a status is written in a summary, as `Debug` writes it.
pub open spec fn status_debug(s: ExecutionStatus) -> Seq<char> {
    match s {
        ExecutionStatus::Running => "Running"@,
        ExecutionStatus::Completed => "Completed"@,
        ExecutionStatus::Error(e) => "Error("@ + error_debug(e) + ")"@,
        ExecutionStatus::TickTimeout(n) => "TickTimeout("@ + dec_nat(n as nat) + ")"@,
        ExecutionStatus::WallClockTimeout(n) => "WallClockTimeout("@ + dec_nat(n as nat) + ")"@,
        ExecutionStatus::Warning(ExecutionWarning::SoftTickLimit(n)) => "Warning(SoftTickLimit("@ + dec_nat(n as nat) + "))"@,
        ExecutionStatus::Warning(ExecutionWarning::SoftTimeLimit(n)) => "Warning(SoftTimeLimit("@ + dec_nat(n as nat) + "))"@,
    }
}

/// The line saying why a run stopped, for timeouts.
pub open spec fn stop_line(s: ExecutionStatus) -> Seq<char> {
    match s {
        ExecutionStatus::TickTimeout(l) => "⏹️  Stopped: Tick limit of "@ + dec_nat(l as nat) + " reached\n"@,
        ExecutionStatus::WallClockTimeout(l) => "⏹️  Stopped: Time limit of "@ + dec_nat(l as nat) + "ms reached\n"@,
        _ => Seq::empty(),
    }
}

/// The line of one warning.
pub open spec fn warning_line(w: ExecutionWarning) -> Seq<char> {
    match w {
        ExecutionWarning::SoftTickLimit(l) => "  ⚠️  Approaching tick limit of "@ + dec_nat(l as nat) + "\n"@,
        ExecutionWarning::SoftTimeLimit(l) => "  ⚠️  Approaching time limit of "@ + dec_nat(l as nat) + "ms\n"@,
    }
}

/// The lines of the first `k` warnings.
pub open spec fn warning_lines(ws: Seq<ExecutionWarning>, k: int) -> Seq<char>
    decreases k,
{
    if k <= 0 { Seq::empty() } else { warning_lines(ws, k - 1) + warning_line(ws[k - 1]) }
}

/// The summary of a run, up to its status line; `debug` is how the status is written.
pub open spec fn summary_head(r: ExecutionResult, debug: Seq<char>) -> Seq<char> {
    "Execution Summary:\n"@ + "==================\n"@ + "Total Ticks: "@ + dec_nat(r.total_ticks as nat) + "\n"@
        + "Execution Time: "@ + dec_nat(r.execution_time_ms as nat) + "ms\n"@ + "Peak Droplets: "@
        + dec_nat(r.max_droplets as nat) + "\n"@ + "Peak Stack Depth: "@ + dec_nat(r.max_stack_depth as nat) + "\n"@
        + "Final Status: "@ + debug + "\n"@
}

/// The warning lines of a summary.
pub open spec fn warnings_part(r: ExecutionResult) -> Seq<char> {
    if r.warnings_issued@.len() > 0 {
        "Warnings issued:\n"@ + warning_lines(r.warnings_issued@, r.warnings_issued@.len() as int)
    } else {
        Seq::empty()
    }
}

/// The progress lines of a summary: the last report.
pub open spec fn progress_part(r: ExecutionResult) -> Seq<char> {
    if r.progress_reports@.len() > 0 {
        let last = r.progress_reports@.last();
        "Progress Reports:\n"@ + "  Final: "@ + dec_nat(last.tick as nat) + " ticks, "@ + dec_nat(last.elapsed_time_ms as nat)
            + "ms elapsed, "@ + dec_nat(last.active_droplets as nat) + " droplets active\n"@
    } else {
        Seq::empty()
    }
}

/// The output line of a summary.
pub open spec fn output_part(r: ExecutionResult) -> Seq<char> {
    if r.final_output@.len() > 0 { "Program Output: "@ + r.final_output@ + "\n"@ } else { Seq::empty() }
}

/// The rest of the summary of a run: why it stopped, warnings, the last progress
/// report and the program's output.
pub open spec fn summary_tail(r: ExecutionResult) -> Seq<char> {
    stop_line(r.status) + warnings_part(r) + progress_part(r) + output_part(r)
}

/// The code of an error in reports.
pub open spec fn error_code(e: InterpreterError) -> Seq<char> {
    match e {
        InterpreterError::Initialization(_) => "E003"@,
        InterpreterError::Execution(x) => match x {
            ExecError::StackUnderflow => "E004"@,
            ExecError::DivisionByZero => "E005"@,
            ExecError::ModuloByZero => "E006"@,
            ExecError::InvalidMemoryAccess(_) => "E007"@,
            ExecError::SubroutineUnderflow => "E008"@,
            ExecError::DropletCollision(_) => "E009"@,
            ExecError::ExecutionTimeout(_) => "E010"@,
            ExecError::WallClockTimeout(_) => "E016"@,
            ExecError::SoftTickLimitWarning(_) => "E017"@,
            ExecError::SoftTimeLimitWarning(_) => "E018"@,
            ExecError::InternalError(_) => "E011"@,
            ExecError::InvalidOperation(_) => "E015"@,
        },
        InterpreterError::System(y) => match y {
            SystemError::OutOfMemory => "E012"@,
            SystemError::IoError(_) => "E013"@,
            SystemError::InternalError(_) => "E014"@,
        },
        InterpreterError::Enhanced { info, .. } => match info.error_type {
            ErrorType::Syntax => "E001"@,
            ErrorType::Validation => "E002"@,
            ErrorType::Initialization => "E003"@,
            ErrorType::Execution => "E004"@,
            ErrorType::Runtime => "E005"@,
            ErrorType::System => "E006"@,
            ErrorType::Semantic => "E007"@,
        },
    }
}

/// The lines of the first `k` error messages, each indented.
pub open spec fn error_lines(es: Seq<Seq<char>>, k: int) -> Seq<char>
    decreases k,
{
    if k <= 0 { Seq::empty() } else { error_lines(es, k - 1) + "    "@ + es[k - 1] + "\n"@ }
}

/// The report on validating a program.
pub open spec fn validation_result_text(
    file_path: Seq<char>,
    is_valid: bool,
    grid_size: (usize, usize),
    cell_count: usize,
    errors: Seq<Seq<char>>,
) -> Seq<char> {
    (if is_valid { " Validation passed: "@ } else { " Validation failed: "@ }) + file_path + "\n"@ + "  Grid size: "@
        + dec_nat(grid_size.0 as nat) + "x"@ + dec_nat(grid_size.1 as nat) + "\n"@ + "  Program cells: "@
        + dec_nat(cell_count as nat) + "\n"@
        + (if !is_valid && errors.len() > 0 { "  Errors:\n"@ + error_lines(errors, errors.len() as int) } else { Seq::empty() })
}

/// `n` spaces.
pub open spec fn spaces(n: nat) -> Seq<char> {
    Seq::new(n, |i: int| ' ')
}

/// The report on an error of a run.
pub open spec fn execution_error_text(
    e: InterpreterError,
    program_file: Seq<char>,
    line: Option<usize>,
    column: Option<usize>,
    context: Option<Seq<char>>,
) -> Seq<char> {
    "Error: ["@ + error_code(e) + "] - "@ + interpreter_error_text(e) + "\n"@ + "File: "@ + program_file
        + match line {
            Some(l) => ", Line: "@ + dec_nat(l as nat)
                + (match column { Some(c) => ", Column: "@ + dec_nat(c as nat), None => Seq::empty() }) + "\n"@
                + (match context {
                    Some(ctx) => "Context: "@ + ctx + "\n"@ + (match column {
                        Some(c) => spaces(if c >= 1 { (c - 1) as nat } else { 0 }) + "^\n"@,
                        None => Seq::empty(),
                    }),
                    None => Seq::empty(),
                }),
            None => "\n"@,
        }
}

impl OutputFormatter {
    /// The summary of a run: ticks, time, peaks, final status, why it stopped,
    /// warnings, the last progress report and the program's output. An error
    /// status is written with the `Debug` rendering of its error.
    pub fn format_execution_summary(result: &ExecutionResult) -> (r: String)
        ensures
            r@ == summary_head(*result, status_debug(result.status)) + summary_tail(*result),
    {
        let mut output = text("Execution Summary:\n");
        push_str(&mut output, "==================\n");
        push_str(&mut output, "Total Ticks: ");
        push_nat(&mut output, result.total_ticks as u128);
        push_str(&mut output, "\n");
        push_str(&mut output, "Execution Time: ");
        push_nat(&mut output, result.execution_time_ms as u128);
        push_str(&mut output, "ms\n");
        push_str(&mut output, "Peak Droplets: ");
        push_nat(&mut output, result.max_droplets as u128);
        push_str(&mut output, "\n");
        push_str(&mut output, "Peak Stack Depth: ");
        push_nat(&mut output, result.max_stack_depth as u128);
        push_str(&mut output, "\n");
        push_str(&mut output, "Final Status: ");
        let ghost before_status = output@;
        match &result.status {
            ExecutionStatus::Running => push_str(&mut output, "Running"),
            ExecutionStatus::Completed => push_str(&mut output, "Completed"),
            ExecutionStatus::Error(e) => {
                push_str(&mut output, "Error(");
                let d = error_debug_text(e);
                push_str(&mut output, d.as_str());
                push_str(&mut output, ")");
                assert(output@ =~= before_status + ("Error("@ + d@ + ")"@));
            },
            ExecutionStatus::TickTimeout(n) => {
                push_str(&mut output, "TickTimeout(");
                push_nat(&mut output, *n as u128);
                push_str(&mut output, ")");
            },
            ExecutionStatus::WallClockTimeout(n) => {
                push_str(&mut output, "WallClockTimeout(");
                push_nat(&mut output, *n as u128);
                push_str(&mut output, ")");
            },
            ExecutionStatus::Warning(ExecutionWarning::SoftTickLimit(n)) => {
                push_str(&mut output, "Warning(SoftTickLimit(");
                push_nat(&mut output, *n as u128);
                push_str(&mut output, "))");
            },
            ExecutionStatus::Warning(ExecutionWarning::SoftTimeLimit(n)) => {
                push_str(&mut output, "Warning(SoftTimeLimit(");
                push_nat(&mut output, *n as u128);
                push_str(&mut output, "))");
            },
        }
        let ghost debug = output@.subrange(before_status.len() as int, output@.len() as int);
        assert(output@ =~= before_status + debug);
        push_str(&mut output, "\n");
        assert(output@ =~= summary_head(*result, debug));
        assert(debug =~= status_debug(result.status));
        Self::push_summary_tail(&mut output, result);
        output
    }

    /// Appends the rest of the summary of a run.
    fn push_summary_tail(output: &mut String, result: &ExecutionResult)
        ensures
            final(output)@ == old(output)@ + summary_tail(*result),
    {
        Self::push_stop_line(output, &result.status);
        Self::push_warnings(output, result);
        Self::push_progress(output, result);
        let ghost s3 = output@;
        if !result.final_output.as_str().is_empty() {
            push_str(output, "Program Output: ");
            push_str(output, result.final_output.as_str());
            push_str(output, "\n");
        }
        assert(output@ =~= s3 + output_part(*result));
        assert(output@ =~= old(output)@ + summary_tail(*result));
    }

    /// Appends why a run stopped, for timeouts.
    fn push_stop_line(output: &mut String, status: &ExecutionStatus)
        ensures
            final(output)@ == old(output)@ + stop_line(*status),
    {
        match status {
            ExecutionStatus::TickTimeout(limit) => {
                push_str(output, "⏹️  Stopped: Tick limit of ");
                push_nat(output, *limit as u128);
                push_str(output, " reached\n");
            },
            ExecutionStatus::WallClockTimeout(limit) => {
                push_str(output, "⏹️  Stopped: Time limit of ");
                push_nat(output, *limit as u128);
                push_str(output, "ms reached\n");
            },
            _ => {},
        }
        assert(output@ =~= old(output)@ + stop_line(*status));
    }

    /// Appends the warning lines.
    fn push_warnings(output: &mut String, result: &ExecutionResult)
        ensures
            final(output)@ == old(output)@ + warnings_part(*result),
    {
        if result.warnings_issued.len() > 0 {
            push_str(output, "Warnings issued:\n");
            let ghost s2 = output@;
            let mut i: usize = 0;
            while i < result.warnings_issued.len()
                invariant
                    i <= result.warnings_issued@.len(),
                    output@ == s2 + warning_lines(result.warnings_issued@, i as int),
                decreases result.warnings_issued@.len() - i,
            {
                match &result.warnings_issued[i] {
                    ExecutionWarning::SoftTickLimit(limit) => {
                        push_str(output, "  ⚠️  Approaching tick limit of ");
                        push_nat(output, *limit as u128);
                        push_str(output, "\n");
                    },
                    ExecutionWarning::SoftTimeLimit(limit) => {
                        push_str(output, "  ⚠️  Approaching time limit of ");
                        push_nat(output, *limit as u128);
                        push_str(output, "ms\n");
                    },
                }
                assert(output@ =~= s2 + warning_lines(result.warnings_issued@, i + 1));
                i = i + 1;
            }
        }
        assert(output@ =~= old(output)@ + warnings_part(*result));
    }

    /// Appends the last progress report.
    fn push_progress(output: &mut String, result: &ExecutionResult)
        ensures
            final(output)@ == old(output)@ + progress_part(*result),
    {
        if result.progress_reports.len() > 0 {
            let last_report = &result.progress_reports[result.progress_reports.len() - 1];
            push_str(output, "Progress Reports:\n");
            push_str(output, "  Final: ");
            push_nat(output, last_report.tick as u128);
            push_str(output, " ticks, ");
            push_nat(output, last_report.elapsed_time_ms as u128);
            push_str(output, "ms elapsed, ");
            push_nat(output, last_report.active_droplets as u128);
            push_str(output, " droplets active\n");
        }
        assert(output@ =~= old(output)@ + progress_part(*result));
    }

    /// The report on validating a program: passed or failed, the grid size, the
    /// number of cells and, when it failed, the errors.
    pub fn format_validation_result(
        file_path: &str,
        is_valid: bool,
        grid_size: (usize, usize),
        cell_count: usize,
        errors: &[String],
    ) -> (r: String)
        ensures
            r@ == validation_result_text(file_path@, is_valid, grid_size, cell_count, crate::text::string_views(errors@)),
    {
        let mut output = if is_valid { text(" Validation passed: ") } else { text(" Validation failed: ") };
        push_str(&mut output, file_path);
        push_str(&mut output, "\n");
        push_str(&mut output, "  Grid size: ");
        push_nat(&mut output, grid_size.0 as u128);
        push_str(&mut output, "x");
        push_nat(&mut output, grid_size.1 as u128);
        push_str(&mut output, "\n");
        push_str(&mut output, "  Program cells: ");
        push_nat(&mut output, cell_count as u128);
        push_str(&mut output, "\n");
        let ghost ev = crate::text::string_views(errors@);
        if !is_valid && errors.len() > 0 {
            push_str(&mut output, "  Errors:\n");
            let ghost h2 = output@;
            let mut i: usize = 0;
            while i < errors.len()
                invariant
                    i <= errors@.len(),
                    ev == crate::text::string_views(errors@),
                    output@ == h2 + error_lines(ev, i as int),
                decreases errors@.len() - i,
            {
                push_str(&mut output, "    ");
                push_str(&mut output, errors[i].as_str());
                push_str(&mut output, "\n");
                assert(output@ =~= h2 + error_lines(ev, i + 1));
                i = i + 1;
            }
        }
        assert(output@ =~= validation_result_text(file_path@, is_valid, grid_size, cell_count, ev));
        output
    }

    /// The report on an error of a run: code, message, file, and where known the
    /// line, column and context with a marker under the column.
    pub fn format_execution_error(
        error: &InterpreterError,
        program_file: &str,
        line: Option<usize>,
        column: Option<usize>,
        context: Option<&str>,
    ) -> (r: String)
        ensures
            r@ == execution_error_text(*error, program_file@, line, column, match context { Some(c) => Some(c@), None => None }),
    {
        let error_code = Self::extract_error_code(error);
        let mut output = text("Error: [");
        push_str(&mut output, error_code);
        push_str(&mut output, "] - ");
        error.write_to(&mut output);
        push_str(&mut output, "\n");
        push_str(&mut output, "File: ");
        push_str(&mut output, program_file);
        match line {
            Some(l) => {
                push_str(&mut output, ", Line: ");
                push_nat(&mut output, l as u128);
                if let Some(c) = column {
                    push_str(&mut output, ", Column: ");
                    push_nat(&mut output, c as u128);
                }
                push_str(&mut output, "\n");
                if let Some(ctx) = context {
                    push_str(&mut output, "Context: ");
                    push_str(&mut output, ctx);
                    push_str(&mut output, "\n");
                    if let Some(col) = column {
                        let n: usize = if col >= 1 { col - 1 } else { 0 };
                        let ghost h3 = output@;
                        let mut k: usize = 0;
                        while k < n
                            invariant
                                k <= n,
                                output@ == h3 + spaces(k as nat),
                            decreases n - k,
                        {
                            push_char(&mut output, ' ');
                            assert(output@ =~= h3 + spaces((k + 1) as nat));
                            k = k + 1;
                        }
                        push_str(&mut output, "^\n");
                    }
                }
            },
            None => {
                push_str(&mut output, "\n");
            },
        }
        assert(output@ =~= execution_error_text(*error, program_file@, line, column, match context { Some(c) => Some(c@), None => None }));
        output
    }

    /// The code of an error in reports.
    fn extract_error_code(error: &InterpreterError) -> (r: &'static str)
        ensures
            r@ == error_code(*error),
    {
        match error {
            InterpreterError::Initialization(_) => "E003",
            InterpreterError::Execution(exec_error) => match exec_error {
                ExecError::StackUnderflow => "E004",
                ExecError::DivisionByZero => "E005",
                ExecError::ModuloByZero => "E006",
                ExecError::InvalidMemoryAccess(_) => "E007",
                ExecError::SubroutineUnderflow => "E008",
                ExecError::DropletCollision(_) => "E009",
                ExecError::ExecutionTimeout(_) => "E010",
                ExecError::WallClockTimeout(_) => "E016",
                ExecError::SoftTickLimitWarning(_) => "E017",
                ExecError::SoftTimeLimitWarning(_) => "E018",
                ExecError::InternalError(_) => "E011",
                ExecError::InvalidOperation(_) => "E015",
            },
            InterpreterError::System(sys_error) => match sys_error {
                SystemError::OutOfMemory => "E012",
                SystemError::IoError(_) => "E013",
                SystemError::InternalError(_) => "E014",
            },
            InterpreterError::Enhanced { info, .. } => match info.error_type {
                ErrorType::Syntax => "E001",
                ErrorType::Validation => "E002",
                ErrorType::Initialization => "E003",
                ErrorType::Execution => "E004",
                ErrorType::Runtime => "E005",
                ErrorType::System => "E006",
                ErrorType::Semantic => "E007",
            },
        }
    }
}

/// Colours of terminal output.
#[derive(Debug, Clone, Copy)]
pub enum Color {
    Green,
    Red,
    Yellow,
    Blue,
    Reset,
}

/// The ANSI escape sequence of a colour.
pub open spec fn color_code_text(c: Color) -> Seq<char> {
    match c {
        Color::Green => "\x1b[32m"@,
        Color::Red => "\x1b[31m"@,
        Color::Yellow => "\x1b[33m"@,
        Color::Blue => "\x1b[34m"@,
        Color::Reset => "\x1b[0m"@,
    }
}

impl Color {
    /// The ANSI escape sequence of this colour.
    pub fn color_code(&self) -> (r: &'static str)
        ensures
            r@ == color_code_text(*self),
    {
        match self {
            Color::Green => "\x1b[32m",
            Color::Red => "\x1b[31m",
            Color::Yellow => "\x1b[33m",
            Color::Blue => "\x1b[34m",
            Color::Reset => "\x1b[0m",
        }
    }
}


/// The events a trace shows all pass its filters, and there are no more of
/// them than `max_events`.
pub proof fn law_trace_respects_filters(events: Seq<TraceEvent>, c: TraceConfig)
    ensures
        forall|i: int| 0 <= i < shown_events(events, c).len() ==> includes_event(c, #[trigger] shown_events(events, c)[i]),
        c.max_events matches Some(m) ==> shown_events(events, c).len() <= m,
{
    lemma_passing_filtered(events, c);
}

/// Every event that passes the filters of `c` does.
proof fn lemma_passing_filtered(events: Seq<TraceEvent>, c: TraceConfig)
    ensures
        forall|i: int| 0 <= i < passing(events, c).len() ==> includes_event(c, #[trigger] passing(events, c)[i]),
    decreases events.len(),
{
    if events.len() > 0 {
        lemma_passing_filtered(events.drop_last(), c);
        let p = passing(events.drop_last(), c);
        assert forall|i: int| 0 <= i < passing(events, c).len() implies includes_event(c, #[trigger] passing(events, c)[i]) by {
            if i < p.len() {
                assert(passing(events, c)[i] == p[i]);
            }
        }
    }
}

} // verus!
