//! Running a program: the interpreter state and the rules of one tick.
use vstd::prelude::*;
use crate::interpreter::droplet::{Droplet, DropletId, DropletModel, droplet_models, step_from};
use crate::interpreter::grid::{ProgramCell, ProgramGrid};
use crate::interpreter::memory::{Reservoir, ReservoirCoordinate};
use crate::interpreter::stack::DataStack;
use crate::interpreter::subroutines::{CallStack, StackFrame};
use crate::operations::arithmetic::{ArithmeticOperations, after_pop, arithmetic_symbol, depth_after_push, op_max_depth, op_stack, op_value};
use crate::operations::memory::{MemoryOperations, address_of, coordinate_of};
use crate::operations::subroutines::{SubroutineOperations, call_direction, call_pushes_frame, call_target, return_effect};
use crate::interpreter::memory::read_cell;
use crate::types::coordinate::in_grid_range;
use crate::operations::flow_control::{FlowControlOperations, branch_turn, slash_turn};
use crate::operations::io::{IoOperations, ValidationMode, char_output_text, numeric_input_text};
use crate::text::{dec_int, parse_i64, parse_i64_spec, push_str, trimmed, chars_of, trim_chars, string_from_chars, int_to_string};
use crate::types::bigint::TubularBigInt;
use crate::types::coordinate::Coordinate;
use crate::types::direction::Direction;
use crate::types::error::{ExecError, InitError, InterpreterError, SystemError, clone_error, same_error};

verus! {

/// Limits on a run: hard limits stop it, soft limits warn once, and progress is
/// recorded every so many ticks.
#[derive(Debug, Clone, Copy, PartialEq, Eq, Structural)]
pub struct ExecutionLimits {
    /// Ticks after which the run stops (`None`: no limit).
    pub max_ticks: Option<u64>,
    /// Milliseconds after which the run stops (`None`: no limit).
    pub max_time_ms: Option<u64>,
    /// Ticks after which a warning is issued.
    pub soft_tick_limit: Option<u64>,
    /// Milliseconds after which a warning is issued.
    pub soft_time_limit_ms: Option<u64>,
    /// Ticks between progress reports.
    pub progress_interval: Option<u64>,
}

/// The default limits: 1000 ticks, 5 s, warnings at 800 ticks and 4 s, a report every 100 ticks.
pub open spec fn default_limits() -> ExecutionLimits {
    ExecutionLimits {
        max_ticks: Some(1000),
        max_time_ms: Some(5000),
        soft_tick_limit: Some(800),
        soft_time_limit_ms: Some(4000),
        progress_interval: Some(100),
    }
}

impl Default for ExecutionLimits {
    fn default() -> (r: Self)
        ensures
            r == default_limits(),
    {
        ExecutionLimits {
            max_ticks: Some(1000),
            max_time_ms: Some(5000),
            soft_tick_limit: Some(800),
            soft_time_limit_ms: Some(4000),
            progress_interval: Some(100),
        }
    }
}

impl ExecutionLimits {
    pub fn new() -> (r: Self)
        ensures
            r == default_limits(),
    {
        Self::default()
    }

    pub fn with_max_ticks(self, max_ticks: Option<u64>) -> (r: Self)
        ensures
            r == (ExecutionLimits { max_ticks, ..self }),
    {
        ExecutionLimits { max_ticks, ..self }
    }

    pub fn with_max_time_ms(self, max_time_ms: Option<u64>) -> (r: Self)
        ensures
            r == (ExecutionLimits { max_time_ms, ..self }),
    {
        ExecutionLimits { max_time_ms, ..self }
    }

    pub fn with_soft_tick_limit(self, soft_limit: Option<u64>) -> (r: Self)
        ensures
            r == (ExecutionLimits { soft_tick_limit: soft_limit, ..self }),
    {
        ExecutionLimits { soft_tick_limit: soft_limit, ..self }
    }

    pub fn with_soft_time_limit_ms(self, soft_limit: Option<u64>) -> (r: Self)
        ensures
            r == (ExecutionLimits { soft_time_limit_ms: soft_limit, ..self }),
    {
        ExecutionLimits { soft_time_limit_ms: soft_limit, ..self }
    }

    pub fn with_progress_interval(self, interval: Option<u64>) -> (r: Self)
        ensures
            r == (ExecutionLimits { progress_interval: interval, ..self }),
    {
        ExecutionLimits { progress_interval: interval, ..self }
    }

    /// No limits, no warnings and no progress reports.
    pub fn unlimited() -> (r: Self)
        ensures
            r == (ExecutionLimits {
                max_ticks: None,
                max_time_ms: None,
                soft_tick_limit: None,
                soft_time_limit_ms: None,
                progress_interval: None,
            }),
    {
        ExecutionLimits {
            max_ticks: None,
            max_time_ms: None,
            soft_tick_limit: None,
            soft_time_limit_ms: None,
            progress_interval: None,
        }
    }
}

/// A soft limit that was passed.
#[derive(Debug, Clone, Copy, PartialEq, Eq, Structural)]
pub enum ExecutionWarning {
    SoftTickLimit(u64),
    SoftTimeLimit(u64),
}

/// Where a run stands.
#[derive(Debug, PartialEq)]
pub enum ExecutionStatus {
    Running,
    Completed,
    Error(InterpreterError),
    /// The tick limit (given) was reached.
    TickTimeout(u64),
    /// The time limit in milliseconds (given) was reached.
    WallClockTimeout(u64),
    Warning(ExecutionWarning),
}

/// Whether two statuses are the same, errors compared by `same_error`.
pub open spec fn same_status(a: ExecutionStatus, b: ExecutionStatus) -> bool {
    match a {
        ExecutionStatus::Error(e) => b matches ExecutionStatus::Error(f) && same_error(e, f),
        _ => a == b,
    }
}

impl Clone for ExecutionStatus {
    fn clone(&self) -> (r: Self)
        ensures
            same_status(*self, r),
    {
        match self {
            ExecutionStatus::Running => ExecutionStatus::Running,
            ExecutionStatus::Completed => ExecutionStatus::Completed,
            ExecutionStatus::Error(e) => ExecutionStatus::Error(clone_error(e)),
            ExecutionStatus::TickTimeout(n) => ExecutionStatus::TickTimeout(*n),
            ExecutionStatus::WallClockTimeout(n) => ExecutionStatus::WallClockTimeout(*n),
            ExecutionStatus::Warning(w) => ExecutionStatus::Warning(*w),
        }
    }
}

/// What one tick did.
#[derive(Debug)]
pub struct TickResult {
    /// The tick's number.
    pub tick: u64,
    /// Droplets left after the tick.
    pub droplets_active: usize,
    /// Droplets destroyed by collisions in the tick.
    pub collisions: usize,
    /// What the tick printed, if anything.
    pub output: Option<String>,
}

impl Clone for TickResult {
    fn clone(&self) -> (r: Self)
        ensures
            r.tick == self.tick,
            r.droplets_active == self.droplets_active,
            r.collisions == self.collisions,
            r.output == self.output,
    {
        TickResult {
            tick: self.tick,
            droplets_active: self.droplets_active,
            collisions: self.collisions,
            output: match &self.output {
                Some(s) => Some(s.clone()),
                None => None,
            },
        }
    }
}

/// The statistics of a progress report.
#[derive(Debug, Clone, Copy, PartialEq, Eq, Structural)]
pub struct ProgressReport {
    pub tick: u64,
    pub elapsed_time_ms: u64,
    pub active_droplets: usize,
    pub total_collisions: usize,
    pub stack_depth: usize,
}

/// The outcome of a whole run.
#[derive(Debug)]
pub struct ExecutionResult {
    pub total_ticks: u64,
    pub final_output: String,
    pub status: ExecutionStatus,
    pub max_droplets: usize,
    pub max_stack_depth: usize,
    pub execution_time_ms: u64,
    pub warnings_issued: Vec<ExecutionWarning>,
    pub progress_reports: Vec<ProgressReport>,
}

/// Everything a run has: tick, droplets, stack, reservoir, call stack, status,
/// output so far and the next droplet id.
#[derive(Debug)]
pub struct ExecutionState {
    pub tick: u64,
    pub droplets: Vec<Droplet>,
    pub stack: DataStack,
    pub reservoir: Reservoir,
    pub call_stack: CallStack,
    pub status: ExecutionStatus,
    pub output: String,
    pub next_droplet_id: DropletId,
}

/// Which input a droplet on a `?` reads: one character, or (on `??`) a number.
#[derive(Debug, Clone, Copy, PartialEq, Eq, Structural)]
pub enum InputKind {
    Character,
    Numeric,
}

/// The observable state of an interpreter.
pub struct InterpreterModel {
    pub tick: int,
    pub droplets: Seq<DropletModel>,
    pub stack: Seq<int>,
    pub stack_max: int,
    pub frames: Seq<StackFrame>,
    pub frames_max: int,
    pub reservoir: Map<ReservoirCoordinate, int>,
    pub status: ExecutionStatus,
    pub output: Seq<char>,
    pub warnings: Seq<ExecutionWarning>,
    pub reports: Seq<ProgressReport>,
    pub collisions: int,
    pub next_droplet_id: int,
}

/// What a tick reports: its number, the droplets left, the droplets lost to
/// collisions, and what it printed.
pub struct TickModel {
    pub tick: int,
    pub droplets_active: int,
    pub collisions: int,
    pub output: Option<Seq<char>>,
}


/// Which input droplet `d` reads this tick: a droplet on `?` reads a number when
/// the cell it heads for is `?` too, and a character otherwise.
pub open spec fn input_kind_of(g: Map<Coordinate, ProgramCell>, d: DropletModel) -> Option<InputKind> {
    if d.active && g.contains_key(d.position) && g[d.position].symbol == '?' {
        let n = step_from(d.position, d.direction);
        if g.contains_key(n) && g[n].symbol == '?' {
            Some(InputKind::Numeric)
        } else {
            Some(InputKind::Character)
        }
    } else {
        None
    }
}

/// The value a character read from `line` gives: the code of its first
/// character (a line feed for an empty line), cut to its low byte.
pub open spec fn character_input_value(line: Seq<char>) -> int {
    ((if line.len() > 0 { line[0] } else { '\n' }) as u32 as int) % 256
}

/// The value a numeric read of `line` gives: its lenient reading, when that is an `i64`, else zero.
pub open spec fn numeric_input_value(line: Seq<char>) -> int {
    match numeric_input_text(trimmed(line), ValidationMode::Lenient) {
        Some(t) => match parse_i64_spec(t) {
            Some(v) => v as int,
            None => 0,
        },
        None => 0,
    }
}

/// The value an input line gives.
pub open spec fn input_value(k: InputKind, line: Seq<char>) -> int {
    match k {
        InputKind::Character => character_input_value(line),
        InputKind::Numeric => numeric_input_value(line),
    }
}

/// The message of the error a failed read of input reports.
pub open spec fn input_error_text(k: InputKind, e: Seq<char>) -> Seq<char> {
    match k {
        InputKind::Character => "Failed to read character input: System error: I/O error: Failed to read character from stdin: "@ + e,
        InputKind::Numeric => "Failed to read numeric input: System error: I/O error: Failed to read line from stdin: "@ + e,
    }
}

/// What the cell under a droplet tells it to do.
pub enum StepModel {
    Move(Direction),
    SetValue(int),
    SetValueAndMove(int, Direction),
    Destroy,
    Stay,
}

/// The step for droplet `d`: pipes, `@`, `?` and outputs move it on (`/` turns it,
/// `\` branches on its value, `^` sends it up), a digit sets its value and moves
/// it on, an arithmetic, reservoir or subroutine operator keeps it for the
/// operator to act, and `!`, any other symbol or leaving the grid destroys it.
pub open spec fn cell_step(g: Map<Coordinate, ProgramCell>, d: DropletModel) -> StepModel {
    if !g.contains_key(d.position) {
        StepModel::Destroy
    } else {
        let s = g[d.position].symbol;
        if s == '?' || s == '|' || s == '-' || s == '@' || s == ',' || s == 'n' {
            StepModel::Move(d.direction)
        } else if s == '/' {
            StepModel::Move(slash_turn(d.direction))
        } else if s == '\\' {
            StepModel::Move(branch_turn(d.value, d.direction))
        } else if s == '^' {
            StepModel::Move(Direction::Up)
        } else if s == '!' {
            StepModel::Destroy
        } else if '0' <= s <= '9' {
            StepModel::SetValueAndMove(s as int - '0' as int, d.direction)
        } else if arithmetic_symbol(s) || memory_call_symbol(s) {
            StepModel::Stay
        } else {
            StepModel::Destroy
        }
    }
}

/// What droplet `d` prints: its character on `,`, its number on `n`.
pub open spec fn cell_output(g: Map<Coordinate, ProgramCell>, d: DropletModel) -> Seq<char> {
    if g.contains_key(d.position) && g[d.position].symbol == ',' {
        char_output_text(d.value)
    } else if g.contains_key(d.position) && g[d.position].symbol == 'n' {
        dec_int(d.value)
    } else {
        Seq::empty()
    }
}

/// The droplet and stack (values and largest depth) after a step: moves turn and
/// advance, destroying deactivates (and `advance` then removes the droplet), and an arithmetic operator acts and then the
/// droplet advances.
pub open spec fn apply_step(
    g: Map<Coordinate, ProgramCell>,
    d: DropletModel,
    step: StepModel,
    stack: Seq<int>,
    stack_max: int,
) -> (DropletModel, Seq<int>, int) {
    match step {
        StepModel::Move(dir) => (DropletModel { direction: dir, position: step_from(d.position, dir), ..d }, stack, stack_max),
        StepModel::SetValue(v) => (DropletModel { value: v, ..d }, stack, stack_max),
        StepModel::SetValueAndMove(v, dir) => (
            DropletModel { value: v, direction: dir, position: step_from(d.position, dir), ..d },
            stack,
            stack_max,
        ),
        StepModel::Destroy => (DropletModel { active: false, ..d }, stack, stack_max),
        StepModel::Stay => if g.contains_key(d.position) && arithmetic_symbol(g[d.position].symbol) {
            let s = g[d.position].symbol;
            (
                DropletModel { value: op_value(s, d.value, stack), position: step_from(d.position, d.direction), ..d },
                op_stack(s, d.value, stack),
                op_max_depth(s, stack_max, stack.len() as int),
            )
        } else {
            (d, stack, stack_max)
        },
    }
}

/// The reservoir operators `G` and `P` and the subroutine operators `C` and `R`.
pub open spec fn memory_call_symbol(s: char) -> bool {
    s == 'G' || s == 'P' || s == 'C' || s == 'R'
}

/// What the reservoir or subroutine operator under droplet `d` does to the
/// droplet, the stack, the reservoir and the return frames (with their largest
/// depth): `G` reads the address (x from the droplet, y popped) into the droplet
/// and `P` stores the droplet's value there, each then moving on; `C` jumps to its
/// target when that is a cell (else moves on), leaving a return frame as
/// `process_call_operation` does; `R` goes back to the last frame's position and
/// heading, and moves on from there.
pub open spec fn op_effect(
    g: Map<Coordinate, ProgramCell>,
    d: DropletModel,
    stack: Seq<int>,
    res: Map<ReservoirCoordinate, int>,
    frames: Seq<StackFrame>,
    frames_max: int,
) -> (DropletModel, Seq<int>, Map<ReservoirCoordinate, int>, Seq<StackFrame>, int) {
    let s = g[d.position].symbol;
    let ahead = step_from(d.position, d.direction);
    if s == 'G' {
        (DropletModel { value: read_cell(res, address_of(d.value, stack)), position: ahead, ..d }, after_pop(stack), res, frames, frames_max)
    } else if s == 'P' {
        (DropletModel { position: ahead, ..d }, after_pop(stack), res.insert(address_of(d.value, stack), d.value), frames, frames_max)
    } else if s == 'C' {
        let t = call_target(d.value, stack);
        let exists = g.contains_key(t);
        let d2 = if exists { DropletModel { position: t, direction: call_direction(stack), ..d } } else { DropletModel { position: ahead, ..d } };
        if call_pushes_frame(stack, exists) {
            (
                d2,
                after_pop(after_pop(stack)),
                res,
                frames.push(StackFrame { return_position: d.position, return_direction: d.direction }),
                depth_after_push(frames_max, frames.len() as int),
            )
        } else {
            (d2, after_pop(after_pop(stack)), res, frames, frames_max)
        }
    } else {
        let (p, dir, fr) = return_effect(d.position, d.direction, frames);
        (DropletModel { position: step_from(p, dir), direction: dir, ..d }, stack, res, fr, frames_max)
    }
}

/// The state after droplet `j` takes `step`.
pub open spec fn stepped_model(g: Map<Coordinate, ProgramCell>, m: InterpreterModel, j: int, step: StepModel) -> InterpreterModel {
    let d = m.droplets[j];
    if step is Stay && g.contains_key(d.position) && memory_call_symbol(g[d.position].symbol) {
        let (d2, st, res, fr, fm) = op_effect(g, d, m.stack, m.reservoir, m.frames, m.frames_max);
        InterpreterModel { droplets: m.droplets.update(j, d2), stack: st, reservoir: res, frames: fr, frames_max: fm, ..m }
    } else {
        let (d2, st, mx) = apply_step(g, d, step, m.stack, m.stack_max);
        InterpreterModel { droplets: m.droplets.update(j, d2), stack: st, stack_max: mx, ..m }
    }
}

/// Whether a soft tick limit warning was issued.
pub open spec fn has_tick_warning(w: Seq<ExecutionWarning>) -> bool {
    exists|i: int| 0 <= i < w.len() && #[trigger] w[i] is SoftTickLimit
}

/// Whether a soft time limit warning was issued.
pub open spec fn has_time_warning(w: Seq<ExecutionWarning>) -> bool {
    exists|i: int| 0 <= i < w.len() && #[trigger] w[i] is SoftTimeLimit
}

/// The warnings after a tick's checks: each soft limit passed warns once.
pub open spec fn soft_warnings(w: Seq<ExecutionWarning>, l: ExecutionLimits, tick: int, elapsed: int) -> Seq<ExecutionWarning> {
    let w1 = match l.soft_tick_limit {
        Some(s) => if tick >= s && !has_tick_warning(w) { w.push(ExecutionWarning::SoftTickLimit(s)) } else { w },
        None => w,
    };
    match l.soft_time_limit_ms {
        Some(s) => if elapsed >= s && !has_time_warning(w1) { w1.push(ExecutionWarning::SoftTimeLimit(s)) } else { w1 },
        None => w1,
    }
}

/// The report of a tick that does not run: its number and nothing else.
pub open spec fn idle_tick(tick: int) -> TickModel {
    TickModel { tick, droplets_active: 0, collisions: 0, output: None }
}

/// The state after a hard limit stops a run: the status records it, and the
/// droplets and return frames are dropped.
pub open spec fn stopped(m: InterpreterModel, status: ExecutionStatus) -> InterpreterModel {
    InterpreterModel { status, droplets: Seq::empty(), frames: Seq::empty(), ..m }
}

/// The end of a tick that ran: the run completes when no droplet is left, a
/// progress report is recorded on every `progress_interval`-th tick, the tick's
/// output is appended, and the tick count advances.
pub open spec fn finish_tick(m: InterpreterModel, l: ExecutionLimits, elapsed: int, out: Seq<char>, collisions: int) -> (Result<TickModel, Seq<char>>, InterpreterModel) {
    let status = if m.droplets.len() == 0 { ExecutionStatus::Completed } else { m.status };
    let reports = match l.progress_interval {
        Some(k) => if m.tick % (k as int) == 0 {
            m.reports.push(
                ProgressReport {
                    tick: m.tick as u64,
                    elapsed_time_ms: elapsed as u64,
                    active_droplets: m.droplets.len() as usize,
                    total_collisions: m.collisions as usize,
                    stack_depth: m.stack.len() as usize,
                },
            )
        } else {
            m.reports
        },
        None => m.reports,
    };
    (
        Ok(TickModel {
            tick: m.tick,
            droplets_active: m.droplets.len() as int,
            collisions,
            output: if out.len() == 0 { None } else { Some(out) },
        }),
        InterpreterModel { status, reports, output: m.output + out, tick: m.tick + 1, ..m },
    )
}

/// A tick for the droplet `d` (whose value already holds any input read).
/// A destroyed droplet (one on `!`, on a symbol with no step, or off the grid)
/// leaves the run; so a run whose droplet is consumed completes.
pub open spec fn advance(m: InterpreterModel, g: Map<Coordinate, ProgramCell>, l: ExecutionLimits, elapsed: int, d: DropletModel) -> (Result<TickModel, Seq<char>>, InterpreterModel) {
    let step = cell_step(g, d);
    let m2 = stepped_model(g, InterpreterModel { droplets: seq![d], ..m }, 0, step);
    let m3 = if step is Destroy { InterpreterModel { droplets: Seq::empty(), ..m2 } } else { m2 };
    finish_tick(m3, l, elapsed, cell_output(g, d), 0)
}

/// Whether a tick gets past the limit checks.
pub open spec fn tick_runs(m: InterpreterModel, l: ExecutionLimits, elapsed: int) -> bool {
    &&& m.status is Running
    &&& !(l.max_ticks is Some && m.tick >= l.max_ticks->0)
    &&& !(l.max_time_ms is Some && elapsed >= l.max_time_ms->0)
}

/// The input the tick reads, if any.
pub open spec fn tick_input(m: InterpreterModel, g: Map<Coordinate, ProgramCell>) -> Option<InputKind> {
    if m.droplets.len() > 0 { input_kind_of(g, m.droplets[0]) } else { None }
}

/// One tick of a run of at most one droplet, given the time elapsed and the
/// lines read for its input requests (or the text of a failed read): what it
/// reports (or the message of its error) and the state after it.
pub open spec fn tick_spec(
    m: InterpreterModel,
    g: Map<Coordinate, ProgramCell>,
    l: ExecutionLimits,
    elapsed: int,
    inputs: Seq<Result<Seq<char>, Seq<char>>>,
) -> (Result<TickModel, Seq<char>>, InterpreterModel) {
    if !(m.status is Running) {
        (Ok(idle_tick(m.tick)), m)
    } else if l.max_ticks is Some && m.tick >= l.max_ticks->0 {
        (Ok(idle_tick(m.tick)), stopped(m, ExecutionStatus::TickTimeout(l.max_ticks->0)))
    } else if l.max_time_ms is Some && elapsed >= l.max_time_ms->0 {
        (Ok(idle_tick(m.tick)), stopped(m, ExecutionStatus::WallClockTimeout(l.max_time_ms->0)))
    } else {
        let m1 = InterpreterModel { warnings: soft_warnings(m.warnings, l, m.tick, elapsed), ..m };
        if m1.droplets.len() == 0 {
            finish_tick(m1, l, elapsed, Seq::empty(), 0)
        } else {
            let d = m1.droplets[0];
            if !d.active {
                finish_tick(m1, l, elapsed, Seq::empty(), 0)
            } else {
                match input_kind_of(g, d) {
                    Some(k) => match inputs[0] {
                        Err(e) => (Err(input_error_text(k, e)), m1),
                        Ok(line) => advance(m1, g, l, elapsed, DropletModel { value: input_value(k, line), ..d }),
                    },
                    None => advance(m1, g, l, elapsed, d),
                }
            }
        }
    }
}

/// The views of the lines read for input.
pub open spec fn input_views(v: Seq<Result<String, String>>) -> Seq<Result<Seq<char>, Seq<char>>> {
    v.map_values(
        |r: Result<String, String>|
            match r {
                Ok(s) => Ok(s@),
                Err(e) => Err(e@),
            },
    )
}

/// The result of a tick, as a model.
pub open spec fn tick_result_model(r: Result<TickResult, InterpreterError>) -> Result<TickModel, Seq<char>> {
    match r {
        Ok(t) => Ok(TickModel {
            tick: t.tick as int,
            droplets_active: t.droplets_active as int,
            collisions: t.collisions as int,
            output: match t.output {
                Some(o) => Some(o@),
                None => None,
            },
        }),
        Err(InterpreterError::System(SystemError::IoError(m))) => Err(m@),
        Err(_) => Err(Seq::empty()),
    }
}


/// What a droplet is told to do in a tick.
enum Action {
    Move(Direction),
    SetValue(TubularBigInt),
    SetValueAndMove(TubularBigInt, Direction),
    Destroy,
    Stay,
}

/// The step an action stands for.
spec fn action_model(a: Action) -> StepModel {
    match a {
        Action::Move(d) => StepModel::Move(d),
        Action::SetValue(v) => StepModel::SetValue(v@),
        Action::SetValueAndMove(v, d) => StepModel::SetValueAndMove(v@, d),
        Action::Destroy => StepModel::Destroy,
        Action::Stay => StepModel::Stay,
    }
}

/// An action for the droplet with a given id.
struct DropletCommand {
    id: DropletId,
    action: Action,
}

impl DropletCommand {
    fn move_action(id: DropletId, direction: Direction) -> (r: Self)
        ensures
            r.id == id,
            action_model(r.action) == StepModel::Move(direction),
    {
        DropletCommand { id, action: Action::Move(direction) }
    }

    fn set_value_action(id: DropletId, value: TubularBigInt, direction: Direction) -> (r: Self)
        ensures
            r.id == id,
            action_model(r.action) == StepModel::SetValueAndMove(value@, direction),
    {
        DropletCommand { id, action: Action::SetValueAndMove(value, direction) }
    }

    fn destroy_action(id: DropletId) -> (r: Self)
        ensures
            r.id == id,
            action_model(r.action) == StepModel::Destroy,
    {
        DropletCommand { id, action: Action::Destroy }
    }
}

/// The value a character read gives (see `character_input_value`).
fn character_input(line: &String) -> (r: i64)
    ensures
        r == character_input_value(line@),
{
    let cs = chars_of(line.as_str());
    let c = if cs.len() > 0 { cs[0] } else { '\n' };
    let code: u32 = (c as u32) % 256;
    code as i64
}

/// The value a numeric read gives (see `numeric_input_value`).
fn numeric_input(line: &String) -> (r: i64)
    ensures
        r == numeric_input_value(line@),
{
    let cs = chars_of(line.as_str());
    let t = trim_chars(cs.as_slice());
    let trimmed_line = string_from_chars(t.as_slice());
    match IoOperations::validate_and_parse_numeric(trimmed_line.as_str(), ValidationMode::Lenient) {
        Ok(text) => {
            let tc = chars_of(text.as_str());
            match parse_i64(tc.as_slice()) {
                Some(v) => v,
                None => 0,
            }
        },
        Err(_) => 0,
    }
}

/// The error of a failed read.
fn input_error(kind: InputKind, e: &String) -> (r: InterpreterError)
    ensures
        r matches InterpreterError::System(SystemError::IoError(m)) && m@ == input_error_text(kind, e@),
{
    let mut m = String::new();
    match kind {
        InputKind::Character => push_str(
            &mut m,
            "Failed to read character input: System error: I/O error: Failed to read character from stdin: ",
        ),
        InputKind::Numeric => push_str(
            &mut m,
            "Failed to read numeric input: System error: I/O error: Failed to read line from stdin: ",
        ),
    }
    push_str(&mut m, e.as_str());
    InterpreterError::System(SystemError::IoError(m))
}

/// Decides what `droplet` does this tick, reading its input and printing its output.
fn plan_droplet(
    grid: &ProgramGrid,
    droplet: &mut Droplet,
    inputs: &Vec<Result<String, String>>,
    next_input: &mut usize,
    output: &mut String,
) -> (r: Result<Option<DropletCommand>, InterpreterError>)
    requires
        grid.wf(),
        input_kind_of(grid@, old(droplet)@) is Some ==> *old(next_input) < inputs@.len(),
    ensures
        !old(droplet).active ==> (r matches Ok(None) && final(droplet)@ == old(droplet)@ && *final(next_input)
            == *old(next_input) && final(output)@ == old(output)@),
        old(droplet).active ==> ({
            let k = input_kind_of(grid@, old(droplet)@);
            if k is Some && inputs@[*old(next_input) as int] is Err {
                &&& r matches Err(InterpreterError::System(SystemError::IoError(m))) && m@ == input_error_text(
                    k->0,
                    inputs@[*old(next_input) as int]->Err_0@,
                )
                &&& final(droplet)@ == old(droplet)@
            } else {
                let d1 = if k is Some {
                    DropletModel { value: input_value(k->0, inputs@[*old(next_input) as int]->Ok_0@), ..old(droplet)@ }
                } else {
                    old(droplet)@
                };
                &&& r matches Ok(Some(c)) && c.id == old(droplet).id && action_model(c.action) == cell_step(grid@, d1)
                &&& final(droplet)@ == d1
                &&& final(output)@ == old(output)@ + cell_output(grid@, d1)
                &&& *final(next_input) == *old(next_input) + (if k is Some { 1int } else { 0int })
            }
        }),
{
    if !droplet.active {
        return Ok(None);
    }
    let id = droplet.id;
    let cell = match grid.get(droplet.position) {
        Some(c) => *c,
        None => {
            assert(cell_output(grid@, droplet@) =~= Seq::<char>::empty());
            return Ok(Some(DropletCommand::destroy_action(id)));
        },
    };
    proof {
        grid.lemma_wf_facts();
    }
    let symbol = cell.symbol;
    if symbol == '?' {
        let next_pos = droplet.position.step(droplet.direction);
        let numeric = match grid.get(next_pos) {
            Some(nc) => nc.symbol == '?',
            None => false,
        };
        let kind = if numeric { InputKind::Numeric } else { InputKind::Character };
        assert(input_kind_of(grid@, old(droplet)@) == Some(kind));
        let idx = *next_input;
        let available = inputs.len();
        assert(idx < available);
        match &inputs[idx] {
            Err(e) => {
                return Err(input_error(kind, e));
            },
            Ok(line) => {
                let v = if numeric { numeric_input(line) } else { character_input(line) };
                droplet.set_value(TubularBigInt::new(v));
            },
        }
        *next_input = idx + 1;
        assert(cell_output(grid@, droplet@) =~= Seq::<char>::empty());
        assert(output@ =~= old(output)@ + Seq::<char>::empty());
        return Ok(Some(DropletCommand::move_action(id, droplet.direction)));
    }
    let direction = droplet.direction;
    let command = if symbol == '|' || symbol == '-' {
        DropletCommand::move_action(id, direction)
    } else if symbol == '/' {
        let new_dir = match direction {
            Direction::Right => Direction::Up,
            Direction::Down => Direction::Left,
            Direction::Left => Direction::Down,
            Direction::Up => Direction::Right,
        };
        DropletCommand::move_action(id, new_dir)
    } else if symbol == '\\' {
        let new_dir = FlowControlOperations::process_conditional_branch(droplet, direction);
        DropletCommand::move_action(id, new_dir)
    } else if symbol == '^' {
        DropletCommand::move_action(id, Direction::Up)
    } else if symbol == '@' {
        DropletCommand::move_action(id, direction)
    } else if symbol == '!' {
        DropletCommand::destroy_action(id)
    } else if '0' <= symbol && symbol <= '9' {
        let digit: u32 = (symbol as u32) - ('0' as u32);
        DropletCommand::set_value_action(id, TubularBigInt::new(digit as i64), direction)
    } else if ArithmeticOperations::is_arithmetic_operation(symbol) || MemoryOperations::is_memory_operation(symbol)
        || SubroutineOperations::is_subroutine_operation(symbol) {
        DropletCommand { id, action: Action::Stay }
    } else if symbol == ',' {
        let text = IoOperations::process_character_output(droplet);
        if let Ok(t) = text {
            push_str(output, t.as_str());
        }
        DropletCommand::move_action(id, direction)
    } else if symbol == 'n' {
        let text = IoOperations::process_numeric_output(droplet);
        if let Ok(t) = text {
            push_str(output, t.as_str());
        }
        DropletCommand::move_action(id, direction)
    } else {
        DropletCommand::destroy_action(id)
    };
    proof {
        if symbol != ',' && symbol != 'n' {
            assert(cell_output(grid@, droplet@) =~= Seq::<char>::empty());
            assert(output@ =~= old(output)@ + Seq::<char>::empty());
        }
    }
    Ok(Some(command))
}


/// The droplet after the input it reads this tick (if it reads one and the read worked).
pub open spec fn planned_droplet(g: Map<Coordinate, ProgramCell>, d: DropletModel, inputs: Seq<Result<Seq<char>, Seq<char>>>) -> DropletModel {
    match input_kind_of(g, d) {
        Some(k) => match inputs[0] {
            Ok(line) => DropletModel { value: input_value(k, line), ..d },
            Err(_) => d,
        },
        None => d,
    }
}

/// Whether the droplet's read of input fails.
pub open spec fn input_fails(g: Map<Coordinate, ProgramCell>, d: DropletModel, inputs: Seq<Result<Seq<char>, Seq<char>>>) -> bool {
    input_kind_of(g, d) is Some && inputs[0] is Err
}

/// Where a step moves a droplet, if it moves it before any operator acts.
pub open spec fn step_target(d: DropletModel, step: StepModel) -> Option<Coordinate> {
    match step {
        StepModel::Move(dir) => Some(step_from(d.position, dir)),
        StepModel::SetValueAndMove(_, dir) => Some(step_from(d.position, dir)),
        _ => None,
    }
}

/// Whether another move heads for the same position as move `i`.
pub open spec fn shared_target(moves: Seq<(Coordinate, DropletId)>, i: int) -> bool {
    exists|j: int| 0 <= j < moves.len() && j != i && #[trigger] moves[j].0 == moves[i].0
}

/// How many of the first `k` moves share their target with another move.
pub open spec fn shared_count(moves: Seq<(Coordinate, DropletId)>, k: int) -> int
    decreases k,
{
    if k <= 0 {
        0
    } else {
        shared_count(moves, k - 1) + if shared_target(moves, k - 1) { 1int } else { 0int }
    }
}

/// Whether one of the first `i` moves is of droplet `id` and shares its target.
pub open spec fn collides_before(moves: Seq<(Coordinate, DropletId)>, i: int, id: DropletId) -> bool {
    exists|k: int| 0 <= k < i && #[trigger] moves[k].1 == id && shared_target(moves, k)
}

/// Droplets entering the same cell in the same tick are all destroyed: of the
/// moves planned in a tick, any two with the same target both mark their
/// droplets as colliding (the ones `collided` returns for removal).
pub proof fn law_same_target_collides(moves: Seq<(Coordinate, DropletId)>, i: int, j: int)
    requires
        0 <= i < moves.len(),
        0 <= j < moves.len(),
        i != j,
        moves[i].0 == moves[j].0,
    ensures
        collides_before(moves, moves.len() as int, moves[i].1),
        collides_before(moves, moves.len() as int, moves[j].1),
{
    assert(shared_target(moves, i));
    assert(shared_target(moves, j));
}

/// Taking one more move into account.
proof fn lemma_collides_step(moves: Seq<(Coordinate, DropletId)>, i: int, id: DropletId)
    requires
        0 <= i < moves.len(),
    ensures
        collides_before(moves, i + 1, id) <==> (collides_before(moves, i, id) || (moves[i].1 == id
            && shared_target(moves, i))),
{
    if collides_before(moves, i + 1, id) {
        let k = choose|k: int| 0 <= k < i + 1 && #[trigger] moves[k].1 == id && shared_target(moves, k);
        if k < i {
            assert(collides_before(moves, i, id));
        }
    }
    if collides_before(moves, i, id) {
        let k = choose|k: int| 0 <= k < i && #[trigger] moves[k].1 == id && shared_target(moves, k);
        assert(collides_before(moves, i + 1, id));
    }
    if moves[i].1 == id && shared_target(moves, i) {
        assert(collides_before(moves, i + 1, id));
    }
}

/// The ids of droplets that collide, each once, and how many moves collided.
fn collided(moves: &Vec<(Coordinate, DropletId)>) -> (r: (Vec<DropletId>, usize))
    ensures
        forall|id: DropletId| r.0@.contains(id) <==> collides_before(moves@, moves@.len() as int, id),
        r.0@.no_duplicates(),
        r.1 == shared_count(moves@, moves@.len() as int),
        moves@.len() <= 1 ==> r.0@.len() == 0 && r.1 == 0,
{
    let n = moves.len();
    let mut ids: Vec<DropletId> = Vec::new();
    let mut count: usize = 0;
    let mut i: usize = 0;
    while i < n
        invariant
            n == moves@.len(),
            i <= n,
            count == shared_count(moves@, i as int),
            count <= i,
            ids@.no_duplicates(),
            forall|id: DropletId| ids@.contains(id) <==> collides_before(moves@, i as int, id),
        decreases n - i,
    {
        let mut shared = false;
        let mut j: usize = 0;
        while j < n
            invariant
                n == moves@.len(),
                i < n,
                j <= n,
                shared <==> exists|k: int| 0 <= k < j && k != i && #[trigger] moves@[k].0 == moves@[i as int].0,
            decreases n - j,
        {
            if j != i && moves[j].0 == moves[i].0 {
                shared = true;
            }
            j = j + 1;
        }
        assert(shared == shared_target(moves@, i as int));
        let ghost before = ids@;
        if shared {
            count = count + 1;
            let id = moves[i].1;
            if !contains_id(&ids, id) {
                let ghost old_ids = ids@;
                ids.push(id);
                proof {
                    assert forall|x: DropletId| ids@.contains(x) <==> (old_ids.contains(x) || x == id) by {
                        if old_ids.contains(x) {
                            let k = choose|k: int| 0 <= k < old_ids.len() && old_ids[k] == x;
                            assert(ids@[k] == x);
                        }
                        if ids@.contains(x) {
                            let k = choose|k: int| 0 <= k < ids@.len() && ids@[k] == x;
                            if k < old_ids.len() {
                                assert(old_ids[k] == x);
                            }
                        }
                        assert(ids@[ids@.len() - 1] == id);
                    }
                }
            }
        }
        proof {
            assert forall|x: DropletId| ids@.contains(x) <==> collides_before(moves@, i + 1, x) by {
                lemma_collides_step(moves@, i as int, x);
                assert(before.contains(x) <==> collides_before(moves@, i as int, x));
                if shared {
                    assert(ids@.contains(x) <==> (before.contains(x) || x == moves@[i as int].1));
                } else {
                    assert(ids@ == before);
                }
            }
        }
        i = i + 1;
    }
    proof {
        if n <= 1 {
            if ids@.len() > 0 {
                let x = ids@[0];
                assert(ids@.contains(x));
                let k = choose|k: int| 0 <= k < n && #[trigger] moves@[k].1 == x && shared_target(moves@, k);
                let j = choose|j: int| 0 <= j < moves@.len() && j != k && #[trigger] moves@[j].0 == moves@[k].0;
            }
            if n == 1 {
                assert(!shared_target(moves@, 0)) by {
                    if shared_target(moves@, 0) {
                        let j = choose|j: int| 0 <= j < moves@.len() && j != 0 && #[trigger] moves@[j].0 == moves@[0].0;
                    }
                }
                assert(shared_count(moves@, 1) == shared_count(moves@, 0));
            }
            assert(count == 0);
        }
    }
    (ids, count)
}

/// Whether `id` is in `v`.
fn contains_id(v: &Vec<DropletId>, id: DropletId) -> (r: bool)
    ensures
        r == v@.contains(id),
{
    let mut i: usize = 0;
    while i < v.len()
        invariant
            i <= v@.len(),
            forall|k: int| 0 <= k < i ==> v@[k] != id,
        decreases v@.len() - i,
    {
        if v[i] == id {
            return true;
        }
        i = i + 1;
    }
    false
}

/// The droplets whose ids are not in `destroyed`, in order.
pub open spec fn survivors(ds: Seq<DropletModel>, destroyed: Seq<DropletId>) -> Seq<DropletModel>
    decreases ds.len(),
{
    if ds.len() == 0 {
        ds
    } else if destroyed.contains(ds.last().id) {
        survivors(ds.drop_last(), destroyed)
    } else {
        survivors(ds.drop_last(), destroyed).push(ds.last())
    }
}

/// Nothing is removed when nothing was destroyed.
proof fn lemma_survivors_none(ds: Seq<DropletModel>, destroyed: Seq<DropletId>)
    requires
        destroyed.len() == 0,
    ensures
        survivors(ds, destroyed) == ds,
    decreases ds.len(),
{
    if ds.len() > 0 {
        lemma_survivors_none(ds.drop_last(), destroyed);
        assert(ds.drop_last().push(ds.last()) =~= ds);
    }
}

/// Keeps the droplets whose ids are not in `destroyed`.
fn remove_destroyed(droplets: &mut Vec<Droplet>, destroyed: &Vec<DropletId>)
    ensures
        droplet_models(final(droplets)@) == survivors(droplet_models(old(droplets)@), destroyed@),
        final(droplets)@.len() <= old(droplets)@.len(),
{
    let mut kept: Vec<Droplet> = Vec::new();
    let mut i: usize = 0;
    while i < droplets.len()
        invariant
            droplets@ == old(droplets)@,
            i <= droplets@.len(),
            kept@.len() <= i,
            droplet_models(kept@) == survivors(droplet_models(droplets@.take(i as int)), destroyed@),
        decreases droplets@.len() - i,
    {
        let ghost before = kept@;
        proof {
            assert(droplet_models(droplets@.take(i + 1)).drop_last() =~= droplet_models(droplets@.take(i as int)));
            assert(droplet_models(droplets@.take(i + 1)).last() == droplets@[i as int]@);
        }
        if !contains_id(destroyed, droplets[i].id) {
            kept.push(droplets[i].clone());
            assert(droplet_models(kept@) =~= droplet_models(before).push(droplets@[i as int]@));
        }
        i = i + 1;
    }
    assert(droplets@.take(droplets@.len() as int) =~= droplets@);
    *droplets = kept;
}

/// Whether `j` is the first index of a droplet with id `id`.
pub open spec fn first_with_id(ds: Seq<Droplet>, id: DropletId, j: int) -> bool {
    &&& 0 <= j < ds.len()
    &&& ds[j].id == id
    &&& forall|k: int| 0 <= k < j ==> ds[k].id != id
}

/// Runs programs.
pub struct TubularInterpreter {
    state: ExecutionState,
    grid: ProgramGrid,
    verbose: bool,
    trace: bool,
    limits: ExecutionLimits,
    warnings_issued: Vec<ExecutionWarning>,
    progress_reports: Vec<ProgressReport>,
    total_collisions: usize,
}

/// The state of a new run from `start`: one active droplet of value 0 heading
/// down, empty stacks and memory, nothing printed.
pub open spec fn initial_model(start: Coordinate) -> InterpreterModel {
    InterpreterModel {
        tick: 0,
        droplets: seq![DropletModel { id: 0, value: 0, position: start, direction: Direction::Down, active: true }],
        stack: Seq::empty(),
        stack_max: 0,
        frames: Seq::empty(),
        frames_max: 0,
        reservoir: Map::empty(),
        status: ExecutionStatus::Running,
        output: Seq::empty(),
        warnings: Seq::empty(),
        reports: Seq::empty(),
        collisions: 0,
        next_droplet_id: 1,
    }
}

impl TubularInterpreter {
    /// The internal invariant: the grid and memory are well formed, and a run
    /// never has more than its one droplet.
    pub closed spec fn wf(&self) -> bool {
        &&& self.grid.wf()
        &&& self.state.reservoir.wf()
        &&& self.state.droplets@.len() <= 1
        &&& forall|i: int| 0 <= i < self.state.call_stack@.len() ==> in_grid_range(#[trigger] self.state.call_stack@[i].return_position)
    }

    /// The observable state.
    pub closed spec fn model(&self) -> InterpreterModel {
        InterpreterModel {
            tick: self.state.tick as int,
            droplets: droplet_models(self.state.droplets@),
            stack: self.state.stack@,
            stack_max: self.state.stack.max_depth as int,
            frames: self.state.call_stack@,
            frames_max: self.state.call_stack.max_depth as int,
            reservoir: self.state.reservoir@,
            status: self.state.status,
            output: self.state.output@,
            warnings: self.warnings_issued@,
            reports: self.progress_reports@,
            collisions: self.total_collisions as int,
            next_droplet_id: self.state.next_droplet_id as int,
        }
    }

    /// The program's cells.
    pub closed spec fn spec_grid(&self) -> Map<Coordinate, ProgramCell> {
        self.grid@
    }

    /// The limits in force.
    pub closed spec fn spec_limits(&self) -> ExecutionLimits {
        self.limits
    }

    /// Whether verbose reporting was asked for.
    pub closed spec fn spec_verbose(&self) -> bool {
        self.verbose
    }

    /// Whether tracing was asked for.
    pub closed spec fn spec_trace(&self) -> bool {
        self.trace
    }

    /// An interpreter for `grid`, which must pass `ProgramGrid::validate`; the run
    /// starts at the start symbol with the default limits.
    pub fn new(grid: ProgramGrid) -> (r: Result<Self, InterpreterError>)
        requires
            grid.wf(),
        ensures
            match r {
                Ok(i) => {
                    &&& grid.runnable()
                    &&& i.wf()
                    &&& i.model() == initial_model(grid.spec_start()->0)
                    &&& i.spec_grid() == grid@
                    &&& i.spec_limits() == default_limits()
                    &&& !i.spec_verbose()
                    &&& !i.spec_trace()
                },
                Err(e) => !grid.runnable() && grid.validation_failure(e),
            },
    {
        match grid.validate() {
            Err(e) => {
                return Err(e);
            },
            Ok(()) => {},
        }
        let start_pos = match grid.start() {
            Some(p) => p,
            None => {
                return Err(InterpreterError::Initialization(InitError::NoStartSymbol));
            },
        };
        let initial_droplet = Droplet::new(0, start_pos, Direction::Down);
        let mut droplets: Vec<Droplet> = Vec::new();
        droplets.push(initial_droplet);
        let state = ExecutionState {
            tick: 0,
            droplets,
            stack: DataStack::new(),
            reservoir: Reservoir::new(),
            call_stack: CallStack::new(),
            status: ExecutionStatus::Running,
            output: String::new(),
            next_droplet_id: 1,
        };
        let r = TubularInterpreter {
            state,
            grid,
            verbose: false,
            trace: false,
            limits: ExecutionLimits::default(),
            warnings_issued: Vec::new(),
            progress_reports: Vec::new(),
            total_collisions: 0,
        };
        assert(r.model().droplets =~= initial_model(start_pos).droplets);
        assert(r.model().warnings =~= Seq::<ExecutionWarning>::empty());
        assert(r.model().reports =~= Seq::<ProgressReport>::empty());
        Ok(r)
    }

    /// Sets the reporting options, and the tick limit when one is given.
    pub fn with_options(self, verbose: bool, trace: bool, max_ticks: Option<u64>) -> (r: Self)
        ensures
            r.model() == self.model(),
            r.wf() == self.wf(),
            r.spec_grid() == self.spec_grid(),
            r.spec_verbose() == verbose,
            r.spec_trace() == trace,
            r.spec_limits() == (match max_ticks {
                Some(t) => ExecutionLimits { max_ticks: Some(t), ..self.spec_limits() },
                None => self.spec_limits(),
            }),
    {
        let mut r = self;
        r.verbose = verbose;
        r.trace = trace;
        if let Some(t) = max_ticks {
            r.limits.max_ticks = Some(t);
        }
        r
    }

    /// Replaces the limits.
    pub fn with_limits(self, limits: ExecutionLimits) -> (r: Self)
        ensures
            r.model() == self.model(),
            r.wf() == self.wf(),
            r.spec_grid() == self.spec_grid(),
            r.spec_verbose() == self.spec_verbose(),
            r.spec_trace() == self.spec_trace(),
            r.spec_limits() == limits,
    {
        let mut r = self;
        r.limits = limits;
        r
    }

    /// The limits in force.
    pub fn limits(&self) -> (r: &ExecutionLimits)
        ensures
            *r == self.spec_limits(),
    {
        &self.limits
    }

    /// The state of the run.
    pub fn state(&self) -> (r: &ExecutionState)
        ensures
            r.tick == self.model().tick,
            droplet_models(r.droplets@) == self.model().droplets,
            r.stack@ == self.model().stack,
            r.output@ == self.model().output,
            r.status == self.model().status,
            r.reservoir@ == self.model().reservoir,
            r.call_stack@ == self.model().frames,
    {
        &self.state
    }

    /// Whether verbose reporting is on.
    pub fn is_verbose(&self) -> (r: bool)
        ensures
            r == self.spec_verbose(),
    {
        self.verbose
    }

    /// Whether tracing is on.
    pub fn is_trace(&self) -> (r: bool)
        ensures
            r == self.spec_trace(),
    {
        self.trace
    }

    /// The reads of input the next tick makes, in order, if it gets past the limit checks.
    pub fn input_requests(&self) -> (r: Vec<InputKind>)
        requires
            self.wf(),
        ensures
            r@ == (match tick_input(self.model(), self.spec_grid()) {
                Some(k) => seq![k],
                None => Seq::empty(),
            }),
    {
        let mut r: Vec<InputKind> = Vec::new();
        if self.state.droplets.len() > 0 {
            let d = &self.state.droplets[0];
            if d.active {
                if let Some(cell) = self.grid.get(d.position) {
                    if cell.symbol == '?' {
                        proof {
                            self.grid.lemma_wf_facts();
                        }
                        let next_pos = d.position.step(d.direction);
                        let numeric = match self.grid.get(next_pos) {
                            Some(nc) => nc.symbol == '?',
                            None => false,
                        };
                        r.push(if numeric { InputKind::Numeric } else { InputKind::Character });
                    }
                }
            }
        }
        proof {
            if self.state.droplets@.len() > 0 {
                assert(droplet_models(self.state.droplets@)[0] == self.state.droplets@[0]@);
            }
        }
        assert(r@ =~= (match tick_input(self.model(), self.spec_grid()) {
            Some(k) => seq![k],
            None => Seq::<InputKind>::empty(),
        }));
        r
    }

    /// Drops the droplets and the return frames once a hard limit has stopped the
    /// run; a status other than a timeout becomes `Completed`.
    fn cleanup(&mut self)
        ensures
            old(self).wf() ==> final(self).wf(),
            final(self).grid == old(self).grid,
            final(self).limits == old(self).limits,
            final(self).verbose == old(self).verbose,
            final(self).trace == old(self).trace,
            final(self).model() == (InterpreterModel {
                droplets: Seq::empty(),
                frames: Seq::empty(),
                status: if old(self).state.status is TickTimeout || old(self).state.status is WallClockTimeout {
                    old(self).state.status
                } else {
                    ExecutionStatus::Completed
                },
                ..old(self).model()
            }),
    {
        self.state.droplets.clear();
        self.state.call_stack.clear();
        let timed_out = match self.state.status {
            ExecutionStatus::TickTimeout(_) => true,
            ExecutionStatus::WallClockTimeout(_) => true,
            _ => false,
        };
        if !timed_out {
            self.state.status = ExecutionStatus::Completed;
        }
        assert(droplet_models(self.state.droplets@) =~= Seq::<DropletModel>::empty());
    }

    /// Issues each soft limit warning once, when its limit is passed.
    fn issue_warnings(&mut self, elapsed_ms: u64)
        ensures
            final(self).wf() == old(self).wf(),
            final(self).grid == old(self).grid,
            final(self).limits == old(self).limits,
            final(self).verbose == old(self).verbose,
            final(self).trace == old(self).trace,
            final(self).model() == (InterpreterModel {
                warnings: soft_warnings(old(self).model().warnings, old(self).limits, old(self).model().tick, elapsed_ms as int),
                ..old(self).model()
            }),
    {
        if let Some(soft_tick_limit) = self.limits.soft_tick_limit {
            if self.state.tick >= soft_tick_limit && !self.has_warning(false) {
                self.warnings_issued.push(ExecutionWarning::SoftTickLimit(soft_tick_limit));
            }
        }
        if let Some(soft_time_limit_ms) = self.limits.soft_time_limit_ms {
            if elapsed_ms >= soft_time_limit_ms && !self.has_warning(true) {
                self.warnings_issued.push(ExecutionWarning::SoftTimeLimit(soft_time_limit_ms));
            }
        }
    }

    /// Whether a soft time (`true`) or tick (`false`) limit warning was issued.
    fn has_warning(&self, time: bool) -> (r: bool)
        ensures
            r == (if time { has_time_warning(self.warnings_issued@) } else { has_tick_warning(self.warnings_issued@) }),
    {
        let mut i: usize = 0;
        while i < self.warnings_issued.len()
            invariant
                i <= self.warnings_issued@.len(),
                forall|k: int| 0 <= k < i ==> !(if time {
                    #[trigger] self.warnings_issued@[k] is SoftTimeLimit
                } else {
                    self.warnings_issued@[k] is SoftTickLimit
                }),
            decreases self.warnings_issued@.len() - i,
        {
            let hit = match self.warnings_issued[i] {
                ExecutionWarning::SoftTickLimit(_) => !time,
                ExecutionWarning::SoftTimeLimit(_) => time,
            };
            if hit {
                return true;
            }
            i = i + 1;
        }
        false
    }
}


/// The index of the first droplet with id `id`, if there is one.
fn find_droplet(droplets: &Vec<Droplet>, id: DropletId) -> (r: Option<usize>)
    ensures
        match r {
            Some(j) => first_with_id(droplets@, id, j as int),
            None => forall|j: int| 0 <= j < droplets@.len() ==> droplets@[j].id != id,
        },
{
    let mut j: usize = 0;
    while j < droplets.len()
        invariant
            j <= droplets@.len(),
            forall|k: int| 0 <= k < j ==> droplets@[k].id != id,
        decreases droplets@.len() - j,
    {
        if droplets[j].id == id {
            return Some(j);
        }
        j = j + 1;
    }
    None
}

impl TubularInterpreter {
    /// Carries out a command on the first droplet with the command's id.
    fn execute_command(&mut self, command: &DropletCommand) -> (r: Result<(), InterpreterError>)
        requires
            old(self).wf(),
            forall|j: int|
                #![trigger first_with_id(old(self).state.droplets@, command.id, j)]
                first_with_id(old(self).state.droplets@, command.id, j) && !(command.action is Destroy)
                    && !(command.action is SetValue) ==> old(self).grid@.contains_key(old(self).state.droplets@[j].position),
        ensures
            final(self).wf(),
            final(self).grid == old(self).grid,
            final(self).limits == old(self).limits,
            final(self).verbose == old(self).verbose,
            final(self).trace == old(self).trace,
            forall|j: int|
                #![trigger first_with_id(old(self).state.droplets@, command.id, j)]
                first_with_id(old(self).state.droplets@, command.id, j) ==> {
                    &&& r is Ok
                    &&& final(self).model() == stepped_model(old(self).grid@, old(self).model(), j, action_model(command.action))
                },
            (forall|j: int| 0 <= j < old(self).state.droplets@.len() ==> old(self).state.droplets@[j].id != command.id)
                ==> r is Err && final(self).model() == old(self).model(),
    {
        let j = match find_droplet(&self.state.droplets, command.id) {
            Some(j) => j,
            None => {
                let mut m = String::from_str("Droplet ");
                let id_text = int_to_string(command.id as i128);
                push_str(&mut m, id_text.as_str());
                push_str(&mut m, " not found");
                return Err(InterpreterError::Execution(ExecError::InternalError(m)));
            },
        };
        proof {
            self.grid.lemma_wf_facts();
        }
        let ghost old_model = self.model();
        let mut droplet = self.state.droplets[j].clone();
        match &command.action {
            Action::Move(direction) => {
                droplet.set_direction(*direction);
                let np = droplet.next_position();
                droplet.move_to(np);
            },
            Action::SetValue(value) => {
                droplet.set_value(value.clone());
            },
            Action::SetValueAndMove(value, direction) => {
                droplet.set_value(value.clone());
                droplet.set_direction(*direction);
                let np = droplet.next_position();
                droplet.move_to(np);
            },
            Action::Destroy => {
                droplet.deactivate();
            },
            Action::Stay => {
                let cell = match self.grid.get(droplet.position) {
                    Some(c) => *c,
                    None => {
                        let mut m = String::from_str("No cell found at position ");
                        let pos_text = droplet.position.to_text();
                        push_str(&mut m, pos_text.as_str());
                        return Err(InterpreterError::Execution(ExecError::InternalError(m)));
                    },
                };
                if ArithmeticOperations::is_arithmetic_operation(cell.symbol) {
                    let res = ArithmeticOperations::process_stack_operation(cell.symbol, &mut droplet, &mut self.state.stack);
                    if let Err(e) = res {
                        return Err(e);
                    }
                    let np = droplet.next_position();
                    droplet.move_to(np);
                } else if MemoryOperations::is_memory_operation(cell.symbol) || SubroutineOperations::is_subroutine_operation(cell.symbol) {
                    self.run_operator(cell.symbol, &mut droplet);
                    self.state.droplets.set(j, droplet);
                    proof {
                        assert(droplet_models(self.state.droplets@) =~= old_model.droplets.update(j as int, droplet@));
                    }
                    return Ok(());
                }
            },
        }
        self.state.droplets.set(j, droplet);
        proof {
            assert(droplet_models(self.state.droplets@) =~= old_model.droplets.update(j as int, droplet@));
        }
        Ok(())
    }

    /// Carries out the reservoir or subroutine operator `symbol` under `droplet`
    /// (see `op_effect`).
    fn run_operator(&mut self, symbol: char, droplet: &mut Droplet)
        requires
            old(self).wf(),
            old(self).grid@.contains_key(old(droplet).position),
            old(self).grid@[old(droplet).position].symbol == symbol,
            memory_call_symbol(symbol),
        ensures
            final(self).wf(),
            final(self).grid == old(self).grid,
            final(self).limits == old(self).limits,
            final(self).verbose == old(self).verbose,
            final(self).trace == old(self).trace,
            final(self).state.droplets == old(self).state.droplets,
            ({
                let (d2, st, res, fr, fm) = op_effect(
                    old(self).grid@,
                    old(droplet)@,
                    old(self).state.stack@,
                    old(self).state.reservoir@,
                    old(self).state.call_stack@,
                    old(self).state.call_stack.max_depth as int,
                );
                &&& final(droplet)@ == d2
                &&& final(self).model() == (InterpreterModel { stack: st, reservoir: res, frames: fr, frames_max: fm, ..old(self).model() })
            }),
    {
        proof {
            self.grid.lemma_wf_facts();
        }
        let ghost m0 = self.model();
        let ghost d0 = droplet@;
        if symbol == 'G' {
            let _ = MemoryOperations::process_get_operation(droplet, &mut self.state.stack, &self.state.reservoir);
            let np = droplet.next_position();
            droplet.move_to(np);
        } else if symbol == 'P' {
            let _ = MemoryOperations::process_put_operation(droplet, &mut self.state.stack, &mut self.state.reservoir);
            let np = droplet.next_position();
            droplet.move_to(np);
        } else if symbol == 'C' {
            let x = coordinate_of(&droplet.value);
            let top = self.state.stack.peek();
            let y = coordinate_of(&top);
            let target = Coordinate::new(x, y);
            let exists = self.grid.get(target).is_some();
            let ghost before_frames = self.state.call_stack@;
            let _ = SubroutineOperations::process_call_operation(droplet, &mut self.state.stack, &mut self.state.call_stack, &self.grid);
            if !exists {
                let np = droplet.next_position();
                droplet.move_to(np);
            }
            proof {
                assert forall|i: int| 0 <= i < self.state.call_stack@.len() implies in_grid_range(#[trigger] self.state.call_stack@[i].return_position) by {
                    if i < before_frames.len() {
                        assert(self.state.call_stack@[i] == before_frames[i] || self.state.call_stack@ == before_frames);
                    }
                }
            }
        } else {
            let _ = SubroutineOperations::process_return_operation(droplet, &mut self.state.call_stack);
            proof {
                if m0.frames.len() > 0 {
                    assert(in_grid_range(m0.frames[m0.frames.len() - 1].return_position));
                    assert forall|i: int| 0 <= i < self.state.call_stack@.len() implies in_grid_range(#[trigger] self.state.call_stack@[i].return_position) by {
                        assert(self.state.call_stack@[i] == m0.frames[i]);
                    }
                }
            }
            let np = droplet.next_position();
            droplet.move_to(np);
        }
    }

    /// Decides what every droplet does this tick (reading input and printing output):
    /// the commands, the moves with their targets, and the text printed.
    fn plan_tick(&mut self, inputs: &Vec<Result<String, String>>) -> (r: Result<(Vec<DropletCommand>, Vec<(Coordinate, DropletId)>, String), InterpreterError>)
        requires
            old(self).wf(),
            tick_input(old(self).model(), old(self).grid@) is Some ==> inputs@.len() >= 1,
        ensures
            final(self).wf(),
            final(self).grid == old(self).grid,
            final(self).limits == old(self).limits,
            final(self).verbose == old(self).verbose,
            final(self).trace == old(self).trace,
            old(self).model().droplets.len() == 0 ==> ({
                &&& r is Ok
                &&& r->Ok_0.0@.len() == 0
                &&& r->Ok_0.1@.len() == 0
                &&& r->Ok_0.2@ == Seq::<char>::empty()
                &&& final(self).model() == old(self).model()
            }),
            old(self).model().droplets.len() > 0 ==> ({
                let g = old(self).grid@;
                let d = old(self).model().droplets[0];
                let iv = input_views(inputs@);
                if !d.active {
                    &&& r is Ok
                    &&& r->Ok_0.0@.len() == 0
                    &&& r->Ok_0.1@.len() == 0
                    &&& r->Ok_0.2@ == Seq::<char>::empty()
                    &&& final(self).model() == old(self).model()
                } else if input_fails(g, d, iv) {
                    &&& r matches Err(InterpreterError::System(SystemError::IoError(m))) && m@ == input_error_text(
                        input_kind_of(g, d)->0,
                        iv[0]->Err_0,
                    )
                    &&& final(self).model() == old(self).model()
                } else {
                    let pd = planned_droplet(g, d, iv);
                    let step = cell_step(g, pd);
                    &&& r is Ok
                    &&& r->Ok_0.0@.len() == 1
                    &&& r->Ok_0.0@[0].id == d.id
                    &&& action_model(r->Ok_0.0@[0].action) == step
                    &&& r->Ok_0.1@ == (match step_target(pd, step) {
                        Some(t) => seq![(t, d.id)],
                        None => Seq::empty(),
                    })
                    &&& r->Ok_0.2@ == cell_output(g, pd)
                    &&& final(self).model() == (InterpreterModel { droplets: seq![pd], ..old(self).model() })
                }
            }),
    {
        let ghost g = self.grid@;
        let ghost iv = input_views(inputs@);
        let mut commands: Vec<DropletCommand> = Vec::new();
        let mut moves: Vec<(Coordinate, DropletId)> = Vec::new();
        let mut output = String::new();
        let mut next_input: usize = 0;
        let n = self.state.droplets.len();
        let mut i: usize = 0;
        while i < n
            invariant
                n == self.state.droplets@.len(),
                n <= 1,
                i <= n,
                self.wf(),
                self.grid == old(self).grid,
                self.limits == old(self).limits,
                self.verbose == old(self).verbose,
                self.trace == old(self).trace,
                g == self.grid@,
                iv == input_views(inputs@),
                tick_input(old(self).model(), g) is Some ==> inputs@.len() >= 1,
                i == 0 ==> self.model() == old(self).model() && commands@.len() == 0 && moves@.len() == 0
                    && output@ == Seq::<char>::empty() && next_input == 0,
                i == 1 ==> ({
                    let d = old(self).model().droplets[0];
                    &&& !input_fails(g, d, iv)
                    &&& if !d.active {
                        &&& commands@.len() == 0
                        &&& moves@.len() == 0
                        &&& output@ == Seq::<char>::empty()
                        &&& self.model() == old(self).model()
                    } else {
                        let pd = planned_droplet(g, d, iv);
                        let step = cell_step(g, pd);
                        &&& commands@.len() == 1
                        &&& commands@[0].id == d.id
                        &&& action_model(commands@[0].action) == step
                        &&& moves@ == (match step_target(pd, step) {
                            Some(t) => seq![(t, d.id)],
                            None => Seq::empty(),
                        })
                        &&& output@ == cell_output(g, pd)
                        &&& self.model() == (InterpreterModel { droplets: seq![pd], ..old(self).model() })
                    }
                }),
            decreases n - i,
        {
            proof {
                assert(droplet_models(self.state.droplets@)[0] == self.state.droplets@[0]@);
                self.grid.lemma_wf_facts();
            }
            let mut droplet = self.state.droplets[i].clone();
            let planned = plan_droplet(&self.grid, &mut droplet, inputs, &mut next_input, &mut output);
            match planned {
                Err(e) => {
                    return Err(e);
                },
                Ok(None) => {},
                Ok(Some(command)) => {
                    match &command.action {
                        Action::Move(direction) => {
                            let t = droplet.position.step(*direction);
                            moves.push((t, command.id));
                        },
                        Action::SetValueAndMove(_, direction) => {
                            let t = droplet.position.step(*direction);
                            moves.push((t, command.id));
                        },
                        _ => {},
                    }
                    commands.push(command);
                },
            }
            let ghost old_ds = self.state.droplets@;
            self.state.droplets.set(i, droplet);
            proof {
                assert(droplet_models(self.state.droplets@) =~= seq![droplet@]);
                if !old_ds[0].active {
                    assert(droplet_models(self.state.droplets@) =~= droplet_models(old_ds));
                }
            }
            i = i + 1;
        }
        Ok((commands, moves, output))
    }

    /// Carries out the commands whose droplets were not destroyed.
    fn apply_commands(&mut self, commands: &Vec<DropletCommand>, destroyed: &Vec<DropletId>) -> (r: Result<(), InterpreterError>)
        requires
            old(self).wf(),
            commands@.len() <= 1,
            destroyed@.len() == 0,
            commands@.len() == 1 ==> old(self).state.droplets@.len() == 1 && old(self).state.droplets@[0].id == commands@[0].id,
            commands@.len() == 1 && !(commands@[0].action is Destroy) && !(commands@[0].action is SetValue)
                ==> old(self).grid@.contains_key(old(self).state.droplets@[0].position),
        ensures
            r is Ok,
            final(self).wf(),
            final(self).grid == old(self).grid,
            final(self).limits == old(self).limits,
            final(self).verbose == old(self).verbose,
            final(self).trace == old(self).trace,
            commands@.len() == 0 ==> final(self).model() == old(self).model(),
            commands@.len() == 1 ==> final(self).model() == stepped_model(
                old(self).grid@,
                old(self).model(),
                0,
                action_model(commands@[0].action),
            ),
    {
        let mut c: usize = 0;
        while c < commands.len()
            invariant
                commands@.len() <= 1,
                destroyed@.len() == 0,
                c <= commands@.len(),
                c == 0 ==> *self == *old(self),
                c == 1 ==> ({
                    &&& self.wf()
                    &&& self.grid == old(self).grid
                    &&& self.limits == old(self).limits
                    &&& self.verbose == old(self).verbose
                    &&& self.trace == old(self).trace
                    &&& self.model() == stepped_model(old(self).grid@, old(self).model(), 0, action_model(commands@[0].action))
                }),
                old(self).wf(),
                commands@.len() == 1 ==> old(self).state.droplets@.len() == 1 && old(self).state.droplets@[0].id == commands@[0].id,
                commands@.len() == 1 && !(commands@[0].action is Destroy) && !(commands@[0].action is SetValue)
                    ==> old(self).grid@.contains_key(old(self).state.droplets@[0].position),
            decreases commands@.len() - c,
        {
            let command = &commands[c];
            if !contains_id(destroyed, command.id) {
                proof {
                    assert(first_with_id(self.state.droplets@, command.id, 0));
                    assert forall|j: int| first_with_id(self.state.droplets@, command.id, j) implies j == 0 by {}
                    assert(droplet_models(self.state.droplets@).update(0, self.state.droplets@[0]@) =~= droplet_models(self.state.droplets@));
                }
                let res = self.execute_command(command);
                if let Err(e) = res {
                    return Err(e);
                }

            }
            c = c + 1;
        }
        Ok(())
    }

    /// Ends a tick that ran: completes the run when no droplet is left, records a
    /// progress report when due, appends the tick's output and advances the tick.
    fn complete_tick(&mut self, elapsed_ms: u64, output: String, collisions: usize) -> (r: TickResult)
        requires
            old(self).wf(),
            old(self).state.tick < u64::MAX,
            old(self).limits.progress_interval != Some(0u64),
        ensures
            final(self).wf(),
            final(self).grid == old(self).grid,
            final(self).limits == old(self).limits,
            final(self).verbose == old(self).verbose,
            final(self).trace == old(self).trace,
            (tick_result_model(Ok(r)), final(self).model()) == finish_tick(
                old(self).model(),
                old(self).limits,
                elapsed_ms as int,
                output@,
                collisions as int,
            ),
    {
        let ghost m = self.model();
        if self.state.droplets.len() == 0 {
            self.state.status = ExecutionStatus::Completed;
        }
        if let Some(progress_interval) = self.limits.progress_interval {
            if self.state.tick % progress_interval == 0 {
                let report = ProgressReport {
                    tick: self.state.tick,
                    elapsed_time_ms: elapsed_ms,
                    active_droplets: self.state.droplets.len(),
                    total_collisions: self.total_collisions,
                    stack_depth: self.state.stack.depth(),
                };
                self.progress_reports.push(report);
            }
        }
        let empty = output.as_str().is_empty();
        if !empty {
            push_str(&mut self.state.output, output.as_str());
        }
        let result = TickResult {
            tick: self.state.tick,
            droplets_active: self.state.droplets.len(),
            collisions,
            output: if empty { None } else { Some(output) },
        };
        self.state.tick = self.state.tick + 1;
        proof {
            if empty {
                assert(self.state.output@ =~= m.output + output@);
            }
        }
        result
    }

    /// Runs one tick, given the milliseconds elapsed since the run started and the
    /// lines read for the tick's input requests (`input_requests`), or the text of
    /// a failed read. See `tick_spec` for what a tick does.
    pub fn execute_tick(&mut self, elapsed_ms: u64, inputs: Vec<Result<String, String>>) -> (r: Result<TickResult, InterpreterError>)
        requires
            old(self).wf(),
            tick_runs(old(self).model(), old(self).spec_limits(), elapsed_ms as int) ==> old(self).model().tick < u64::MAX,
            tick_runs(old(self).model(), old(self).spec_limits(), elapsed_ms as int) && tick_input(
                old(self).model(),
                old(self).spec_grid(),
            ) is Some ==> inputs@.len() >= 1,
            tick_runs(old(self).model(), old(self).spec_limits(), elapsed_ms as int) && !(tick_input(
                old(self).model(),
                old(self).spec_grid(),
            ) is Some && input_views(inputs@)[0] is Err) ==> old(self).spec_limits().progress_interval != Some(0u64),
        ensures
            final(self).wf(),
            final(self).spec_grid() == old(self).spec_grid(),
            final(self).spec_limits() == old(self).spec_limits(),
            final(self).spec_verbose() == old(self).spec_verbose(),
            final(self).spec_trace() == old(self).spec_trace(),
            (tick_result_model(r), final(self).model()) == tick_spec(
                old(self).model(),
                old(self).spec_grid(),
                old(self).spec_limits(),
                elapsed_ms as int,
                input_views(inputs@),
            ),
            r is Err ==> r matches Err(InterpreterError::System(SystemError::IoError(_))),
    {
        let running = matches!(self.state.status, ExecutionStatus::Running);
        if !running {
            return Ok(TickResult { tick: self.state.tick, droplets_active: 0, collisions: 0, output: None });
        }
        if let Some(max_ticks) = self.limits.max_ticks {
            if self.state.tick >= max_ticks {
                self.state.status = ExecutionStatus::TickTimeout(max_ticks);
                self.cleanup();
                return Ok(TickResult { tick: self.state.tick, droplets_active: 0, collisions: 0, output: None });
            }
        }
        if let Some(max_time_ms) = self.limits.max_time_ms {
            if elapsed_ms >= max_time_ms {
                self.state.status = ExecutionStatus::WallClockTimeout(max_time_ms);
                self.cleanup();
                return Ok(TickResult { tick: self.state.tick, droplets_active: 0, collisions: 0, output: None });
            }
        }
        let ghost m0 = self.model();
        self.issue_warnings(elapsed_ms);
        let ghost m1 = self.model();
        let ghost g = self.grid@;
        let ghost iv = input_views(inputs@);
        proof {
            if m1.droplets.len() > 0 {
                assert(m1.droplets[0] == m0.droplets[0]);
            }
        }
        let planned = self.plan_tick(&inputs);
        let (commands, moves, output_this_tick) = match planned {
            Ok(p) => p,
            Err(e) => {
                return Err(e);
            },
        };
        let ghost m2 = self.model();
        let (destroyed, count) = collided(&moves);
        self.total_collisions = self.total_collisions + count;
        assert(self.model() == m2);
        proof {
            if commands@.len() == 1 {
                assert(m1.droplets.len() > 0);
                assert(m1.droplets[0].active);
                assert(droplet_models(self.state.droplets@).len() == self.state.droplets@.len());
                assert(self.state.droplets@.len() == 1);
                assert(droplet_models(self.state.droplets@)[0] == self.state.droplets@[0]@);
                let pd = planned_droplet(g, m1.droplets[0], iv);
                assert(m2.droplets == seq![pd]);
                assert(self.state.droplets@[0]@ == pd);
            }
        }
        let applied = self.apply_commands(&commands, &destroyed);
        if let Err(e) = applied {
            return Err(e);
        }
        let ghost m_applied = self.model();
        if commands.len() == 1 && matches!(commands[0].action, Action::Destroy) {
            self.state.droplets.clear();
            assert(droplet_models(self.state.droplets@) =~= Seq::<DropletModel>::empty());
            assert(self.model() == (InterpreterModel { droplets: Seq::empty(), ..m_applied }));
        }
        let ghost before_removal = self.state.droplets@;
        remove_destroyed(&mut self.state.droplets, &destroyed);
        proof {
            lemma_survivors_none(droplet_models(before_removal), destroyed@);
        }
        let ghost m3 = self.model();
        proof {
            let l = self.limits;
            let e = elapsed_ms as int;
            if m1.droplets.len() > 0 {
                let d = m1.droplets[0];
                if d.active {
                    let pd = planned_droplet(g, d, iv);
                    assert(tick_spec(m0, g, l, e, iv) == advance(m1, g, l, e, pd));
                    let step = cell_step(g, pd);
                    let ms = stepped_model(g, InterpreterModel { droplets: seq![pd], ..m1 }, 0, step);
                    assert(m2 == (InterpreterModel { droplets: seq![pd], ..m1 }));
                    assert(m_applied == ms);
                    assert((commands@[0].action is Destroy) == (step is Destroy));
                    if step is Destroy {
                        assert(m3 == (InterpreterModel { droplets: Seq::empty(), ..ms }));
                    } else {
                        assert(m3 == ms);
                    }
                } else {
                    assert(m3 == m1);
                }
            } else {
                assert(m3 == m1);
            }
        }
        let result = self.complete_tick(elapsed_ms, output_this_tick, destroyed.len());
        Ok(result)
    }
}


/// A copy of a vector of copyable values.
fn copy_vec<T: Copy>(v: &Vec<T>) -> (r: Vec<T>)
    ensures
        r@ == v@,
{
    let mut out: Vec<T> = Vec::new();
    let mut i: usize = 0;
    while i < v.len()
        invariant
            i <= v@.len(),
            out@ == v@.take(i as int),
        decreases v@.len() - i,
    {
        out.push(v[i]);
        assert(v@.take(i + 1) =~= v@.take(i as int).push(v@[i as int]));
        i = i + 1;
    }
    assert(v@.take(v@.len() as int) =~= v@);
    out
}

impl TubularInterpreter {
    /// The outcome of the run so far, given the ticks counted, the most droplets
    /// seen and the time the run took.
    pub fn run_result(&self, total_ticks: u64, max_droplets: usize, execution_time_ms: u64) -> (r: ExecutionResult)
        ensures
            r.total_ticks == total_ticks,
            r.final_output@ == self.model().output,
            same_status(self.model().status, r.status),
            r.max_droplets == max_droplets,
            r.max_stack_depth == self.model().stack_max,
            r.execution_time_ms == execution_time_ms,
            r.warnings_issued@ == self.model().warnings,
            r.progress_reports@ == self.model().reports,
    {
        ExecutionResult {
            total_ticks,
            final_output: self.state.output.clone(),
            status: self.state.status.clone(),
            max_droplets,
            max_stack_depth: self.state.stack.max_depth_reached(),
            execution_time_ms,
            warnings_issued: copy_vec(&self.warnings_issued),
            progress_reports: copy_vec(&self.progress_reports),
        }
    }
}


/// A run that has stopped stays as it is: a tick reports nothing and changes nothing.
pub proof fn law_stopped_run_is_idle(
    m: InterpreterModel,
    g: Map<Coordinate, ProgramCell>,
    l: ExecutionLimits,
    elapsed: int,
    inputs: Seq<Result<Seq<char>, Seq<char>>>,
)
    requires
        !(m.status is Running),
    ensures
        tick_spec(m, g, l, elapsed, inputs) == (Ok::<TickModel, Seq<char>>(idle_tick(m.tick)), m),
{
}

/// A tick that gets past the limits and succeeds advances the tick count by
/// one and appends what it printed to the output.
pub proof fn law_tick_advances(
    m: InterpreterModel,
    g: Map<Coordinate, ProgramCell>,
    l: ExecutionLimits,
    elapsed: int,
    inputs: Seq<Result<Seq<char>, Seq<char>>>,
)
    requires
        tick_runs(m, l, elapsed),
        tick_spec(m, g, l, elapsed, inputs).0 is Ok,
    ensures
        ({
            let (r, m2) = tick_spec(m, g, l, elapsed, inputs);
            &&& m2.tick == m.tick + 1
            &&& r->Ok_0.tick == m.tick
            &&& m2.output == m.output + match r->Ok_0.output {
                Some(o) => o,
                None => Seq::empty(),
            }
        }),
{
    let (r, m2) = tick_spec(m, g, l, elapsed, inputs);
    if r->Ok_0.output is None {
        assert(m2.output =~= m.output);
    }
}

/// Once the tick count reaches the tick limit, the next tick stops the run
/// with a tick timeout, drops its droplets, and does not count.
pub proof fn law_tick_limit_stops_run(
    m: InterpreterModel,
    g: Map<Coordinate, ProgramCell>,
    l: ExecutionLimits,
    elapsed: int,
    inputs: Seq<Result<Seq<char>, Seq<char>>>,
)
    requires
        m.status is Running,
        l.max_ticks is Some,
        m.tick >= l.max_ticks->0,
    ensures
        ({
            let (r, m2) = tick_spec(m, g, l, elapsed, inputs);
            &&& r == Ok::<TickModel, Seq<char>>(idle_tick(m.tick))
            &&& m2.status == ExecutionStatus::TickTimeout(l.max_ticks->0)
            &&& m2.droplets.len() == 0
            &&& m2.tick == m.tick
            &&& m2.output == m.output
        }),
{
}

/// A run never holds more than one droplet: a tick keeps it at one at most.
pub proof fn law_at_most_one_droplet(
    m: InterpreterModel,
    g: Map<Coordinate, ProgramCell>,
    l: ExecutionLimits,
    elapsed: int,
    inputs: Seq<Result<Seq<char>, Seq<char>>>,
)
    requires
        m.droplets.len() <= 1,
    ensures
        tick_spec(m, g, l, elapsed, inputs).1.droplets.len() <= 1,
{
}

/// The sink consumes a droplet: a tick that runs with the run's one droplet on
/// `!` removes it, reports no droplet left, and completes the run.
pub proof fn law_sink_completes_run(
    m: InterpreterModel,
    g: Map<Coordinate, ProgramCell>,
    l: ExecutionLimits,
    elapsed: int,
    inputs: Seq<Result<Seq<char>, Seq<char>>>,
)
    requires
        tick_runs(m, l, elapsed),
        m.droplets.len() == 1,
        m.droplets[0].active,
        g.contains_key(m.droplets[0].position),
        g[m.droplets[0].position].symbol == '!',
    ensures
        ({
            let (r, m2) = tick_spec(m, g, l, elapsed, inputs);
            &&& r is Ok
            &&& r->Ok_0.droplets_active == 0
            &&& m2.droplets.len() == 0
            &&& m2.status == ExecutionStatus::Completed
        }),
{
}

/// What the cell under a droplet makes it do: off the grid, on `!` or on a
/// symbol with no step it is destroyed; a digit sets its value to that digit
/// and moves it on; `^` sends it up; straight pipes, `@`, `?` and outputs move
/// it on in its heading; stack, reservoir and subroutine operators keep it for
/// the operator; `,` prints its character and `n` its number, nothing else prints.
pub proof fn law_cell_steps(g: Map<Coordinate, ProgramCell>, d: DropletModel)
    ensures
        !g.contains_key(d.position) ==> cell_step(g, d) == StepModel::Destroy,
        g.contains_key(d.position) ==> ({
            let s = g[d.position].symbol;
            &&& s == '!' ==> cell_step(g, d) == StepModel::Destroy
            &&& '0' <= s <= '9' ==> cell_step(g, d) == StepModel::SetValueAndMove((s as u32) - ('0' as u32), d.direction)
            &&& s == '^' ==> cell_step(g, d) == StepModel::Move(Direction::Up)
            &&& (s == '|' || s == '-' || s == '@' || s == '?' || s == ',' || s == 'n') ==> cell_step(g, d)
                == StepModel::Move(d.direction)
            &&& (s == ':' || s == ';' || s == 'd' || s == 'A' || s == 'S' || s == 'M' || s == 'D' || s == '%' || s == '='
                || s == '+' || s == '~' || s == 'G' || s == 'P' || s == 'C' || s == 'R') ==> cell_step(g, d) == StepModel::Stay
            &&& s == ',' ==> cell_output(g, d) == (if 0 <= d.value <= 127 { seq![d.value as char] } else { Seq::<char>::empty() })
            &&& s == 'n' ==> cell_output(g, d) == dec_int(d.value)
            &&& s != ',' && s != 'n' ==> cell_output(g, d) == Seq::<char>::empty()
        }),
{
}

} // verus!
