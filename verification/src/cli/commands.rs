//! The command line's settings and how they combine: environment values,
//! flags and trace options.
use vstd::prelude::*;
use std::collections::HashSet;
use crate::cli::output::{TraceConfig, TraceFormat, TraceLevel, TraceOperation};
use crate::interpreter::grid::{ProgramGrid, box_height, box_width};
use crate::text::{
    chars_of, dec_int, dec_nat, lines_of, lowercase_of, parse_u64, parse_u64_spec, push_char, push_int, push_nat,
    push_str, split_chars, split_lines, split_on, string_from_chars, string_views, to_lowercase, trim_chars, trimmed,
};
use crate::types::coordinate::Coordinate;
use crate::types::error::{
    ErrorContext, ErrorInfo, InitError, InterpreterError, error_type_text, exec_error_text, interpreter_error_text,
    system_error_text,
};

verus! {

broadcast use vstd::std_specs::hash::group_hash_axioms;

/// The command line: a program file, flags, trace options and a subcommand.
pub struct Cli {
    pub file: Option<String>,
    pub verbose: bool,
    pub ticks: Option<u64>,
    pub trace: bool,
    pub benchmark: bool,
    pub trace_level: Option<String>,
    pub trace_format: Option<String>,
    pub trace_droplets: Option<String>,
    pub trace_operations: Option<String>,
    pub trace_ticks: Option<String>,
    pub trace_max_events: Option<usize>,
    pub trace_performance: bool,
    pub trace_memory: bool,
    pub trace_stack: bool,
    pub trace_subroutines: bool,
    pub trace_output: Option<String>,
    pub command: Option<Commands>,
}

/// The subcommands.
pub enum Commands {
    /// Check a program (from a file, or standard input).
    Validate { file: Option<String>, strict: bool },
    /// Run a program, possibly reading input.
    Run { file: String, interactive: bool, input: Option<String> },
    /// Time a program (and others to compare with).
    Benchmark {
        file: String,
        iterations: usize,
        output: String,
        warmup: usize,
        time_limit: u64,
        save: Option<String>,
        verbose: bool,
        compare: Vec<String>,
    },
}

/// Settings taken from the environment, overridden by flags.
pub struct EnvConfig {
    pub tick_limit: Option<u64>,
    pub verbose: bool,
    pub trace: bool,
    pub benchmark: bool,
    pub strict: bool,
    pub trace_config: TraceConfig,
}

/// Tick limit used when none is set, or when zero is set.
pub const DEFAULT_TICK_LIMIT: u64 = 1000;

impl Default for EnvConfig {
    fn default() -> (r: Self)
        ensures
            r.tick_limit == Some(DEFAULT_TICK_LIMIT),
            !r.verbose,
            !r.trace,
            !r.benchmark,
            !r.strict,
            r.trace_config.level == TraceLevel::Basic,
            r.trace_config.format == TraceFormat::Compact,
            r.trace_config.droplet_filter is None,
            r.trace_config.operation_filter is None,
            r.trace_config.tick_range is None,
            r.trace_config.max_events is None,
            !r.trace_config.include_performance,
            !r.trace_config.include_memory,
            !r.trace_config.include_stack,
            !r.trace_config.include_subroutines,
    {
        EnvConfig {
            tick_limit: Some(DEFAULT_TICK_LIMIT),
            verbose: false,
            trace: false,
            benchmark: false,
            strict: false,
            trace_config: TraceConfig::default(),
        }
    }
}

/// Which environment setting holds a value that cannot be read.
#[derive(Debug, Clone, Copy, PartialEq, Eq, Structural)]
pub enum SettingError {
    TickLimit,
    Verbose,
    Trace,
    Benchmark,
    Strict,
}

/// What a boolean setting says: `true`, `1`, `yes`, `on`, `y` or `false`, `0`,
/// `no`, `off`, `n`, in any case and with surrounding whitespace.
pub open spec fn bool_setting(value: Seq<char>) -> Option<bool> {
    let v = lowercase_of(trimmed(value));
    if v == "true"@ || v == "1"@ || v == "yes"@ || v == "on"@ || v == "y"@ {
        Some(true)
    } else if v == "false"@ || v == "0"@ || v == "no"@ || v == "off"@ || v == "n"@ {
        Some(false)
    } else {
        None
    }
}

/// A boolean setting reads as true when its trimmed, lowercased text is one of
/// `true`, `1`, `yes`, `on`, `y`, and as false when it is one of `false`, `0`,
/// `no`, `off`, `n`; any other text is no boolean.
pub proof fn law_bool_setting_words(value: Seq<char>)
    ensures
        ({
            let v = lowercase_of(trimmed(value));
            &&& (v == "true"@ || v == "1"@ || v == "yes"@ || v == "on"@ || v == "y"@) ==> bool_setting(value) == Some(true)
            &&& (v == "false"@ || v == "0"@ || v == "no"@ || v == "off"@ || v == "n"@) ==> bool_setting(value) == Some(false)
            &&& bool_setting(value) == Some(true) ==> (v == "true"@ || v == "1"@ || v == "yes"@ || v == "on"@ || v == "y"@)
            &&& bool_setting(value) == Some(false) ==> (v == "false"@ || v == "0"@ || v == "no"@ || v == "off"@ || v == "n"@)
        }),
{
    reveal_strlit("true");
    reveal_strlit("1");
    reveal_strlit("yes");
    reveal_strlit("on");
    reveal_strlit("y");
    reveal_strlit("false");
    reveal_strlit("0");
    reveal_strlit("no");
    reveal_strlit("off");
    reveal_strlit("n");
    assert("false"@.len() != "true"@.len());
    assert("false"@ != "true"@);
    assert("false"@.len() != "1"@.len());
    assert("false"@ != "1"@);
    assert("false"@.len() != "yes"@.len());
    assert("false"@ != "yes"@);
    assert("false"@.len() != "on"@.len());
    assert("false"@ != "on"@);
    assert("false"@.len() != "y"@.len());
    assert("false"@ != "y"@);
    assert("0"@.len() != "true"@.len());
    assert("0"@ != "true"@);
    assert("0"@[0] != "1"@[0]);
    assert("0"@ != "1"@);
    assert("0"@.len() != "yes"@.len());
    assert("0"@ != "yes"@);
    assert("0"@.len() != "on"@.len());
    assert("0"@ != "on"@);
    assert("0"@[0] != "y"@[0]);
    assert("0"@ != "y"@);
    assert("no"@.len() != "true"@.len());
    assert("no"@ != "true"@);
    assert("no"@.len() != "1"@.len());
    assert("no"@ != "1"@);
    assert("no"@.len() != "yes"@.len());
    assert("no"@ != "yes"@);
    assert("no"@[0] != "on"@[0]);
    assert("no"@ != "on"@);
    assert("no"@.len() != "y"@.len());
    assert("no"@ != "y"@);
    assert("off"@.len() != "true"@.len());
    assert("off"@ != "true"@);
    assert("off"@.len() != "1"@.len());
    assert("off"@ != "1"@);
    assert("off"@[0] != "yes"@[0]);
    assert("off"@ != "yes"@);
    assert("off"@.len() != "on"@.len());
    assert("off"@ != "on"@);
    assert("off"@.len() != "y"@.len());
    assert("off"@ != "y"@);
    assert("n"@.len() != "true"@.len());
    assert("n"@ != "true"@);
    assert("n"@[0] != "1"@[0]);
    assert("n"@ != "1"@);
    assert("n"@.len() != "yes"@.len());
    assert("n"@ != "yes"@);
    assert("n"@.len() != "on"@.len());
    assert("n"@ != "on"@);
    assert("n"@[0] != "y"@[0]);
    assert("n"@ != "y"@);
}

/// Whether two texts are equal.
fn same_text(a: &String, b: &str) -> (r: bool)
    ensures
        r == (a@ == b@),
{
    let cs = chars_of(a.as_str());
    crate::text::chars_equal_str(cs.as_slice(), b)
}

/// Reads a boolean setting.
pub fn parse_bool_setting(value: &str) -> (r: Option<bool>)
    ensures
        r == bool_setting(value@),
{
    let cs = chars_of(value);
    let t = trim_chars(cs.as_slice());
    let ts = string_from_chars(t.as_slice());
    let v = to_lowercase(ts.as_str());
    if same_text(&v, "true") || same_text(&v, "1") || same_text(&v, "yes") || same_text(&v, "on") || same_text(&v, "y") {
        Some(true)
    } else if same_text(&v, "false") || same_text(&v, "0") || same_text(&v, "no") || same_text(&v, "off") || same_text(&v, "n") {
        Some(false)
    } else {
        None
    }
}

/// Reads a tick limit setting as `u64::from_str` does.
pub fn parse_tick_limit_setting(value: &str) -> (r: Option<u64>)
    ensures
        r == parse_u64_spec(value@),
{
    let cs = chars_of(value);
    parse_u64(cs.as_slice())
}

/// What a boolean setting that may be absent gives: absent is `false`.
pub open spec fn optional_bool_setting(value: Option<Seq<char>>) -> Option<bool> {
    match value {
        Some(v) => bool_setting(v),
        None => Some(false),
    }
}

impl EnvConfig {
    /// The configuration given by the values of the environment settings (each
    /// absent when `None`): the tick limit (zero means the default) and the
    /// verbose, trace, benchmark and strict switches, checked in that order.
    pub fn from_settings(
        tick_limit: Option<&str>,
        verbose: Option<&str>,
        trace: Option<&str>,
        benchmark: Option<&str>,
        strict: Option<&str>,
    ) -> (r: Result<EnvConfig, SettingError>)
        ensures
            ({
                let t = match tick_limit { Some(v) => Some(v@), None => None };
                let tick = match t { Some(v) => parse_u64_spec(v), None => Some(DEFAULT_TICK_LIMIT) };
                let vb = optional_bool_setting(match verbose { Some(v) => Some(v@), None => None });
                let tr = optional_bool_setting(match trace { Some(v) => Some(v@), None => None });
                let bm = optional_bool_setting(match benchmark { Some(v) => Some(v@), None => None });
                let st = optional_bool_setting(match strict { Some(v) => Some(v@), None => None });
                if tick is None {
                    r == Err::<EnvConfig, SettingError>(SettingError::TickLimit)
                } else if vb is None {
                    r == Err::<EnvConfig, SettingError>(SettingError::Verbose)
                } else if tr is None {
                    r == Err::<EnvConfig, SettingError>(SettingError::Trace)
                } else if bm is None {
                    r == Err::<EnvConfig, SettingError>(SettingError::Benchmark)
                } else if st is None {
                    r == Err::<EnvConfig, SettingError>(SettingError::Strict)
                } else {
                    r matches Ok(c) && c.tick_limit == Some(if tick->0 == 0 { DEFAULT_TICK_LIMIT } else { tick->0 })
                        && c.verbose == vb->0 && c.trace == tr->0 && c.benchmark == bm->0 && c.strict == st->0
                        && c.trace_config.level == TraceLevel::Basic && c.trace_config.format == TraceFormat::Compact
                        && c.trace_config.droplet_filter is None && c.trace_config.operation_filter is None
                        && c.trace_config.tick_range is None && c.trace_config.max_events is None
                        && !c.trace_config.include_performance && !c.trace_config.include_memory
                        && !c.trace_config.include_stack && !c.trace_config.include_subroutines
                }
            }),
    {
        let mut config = Self::default();
        if let Some(v) = tick_limit {
            match parse_tick_limit_setting(v) {
                Some(ticks) => {
                    config.tick_limit = Some(if ticks == 0 { DEFAULT_TICK_LIMIT } else { ticks });
                },
                None => {
                    return Err(SettingError::TickLimit);
                },
            }
        }
        config.verbose = match verbose {
            Some(v) => match parse_bool_setting(v) {
                Some(b) => b,
                None => {
                    return Err(SettingError::Verbose);
                },
            },
            None => false,
        };
        config.trace = match trace {
            Some(v) => match parse_bool_setting(v) {
                Some(b) => b,
                None => {
                    return Err(SettingError::Trace);
                },
            },
            None => false,
        };
        config.benchmark = match benchmark {
            Some(v) => match parse_bool_setting(v) {
                Some(b) => b,
                None => {
                    return Err(SettingError::Benchmark);
                },
            },
            None => false,
        };
        config.strict = match strict {
            Some(v) => match parse_bool_setting(v) {
                Some(b) => b,
                None => {
                    return Err(SettingError::Strict);
                },
            },
            None => false,
        };
        Ok(config)
    }
}


/// The droplet ids named by the first `k` pieces: those that, trimmed, read as a `u64`.
pub open spec fn ids_upto(pieces: Seq<Seq<char>>, k: int) -> Set<u64>
    decreases k,
{
    if k <= 0 {
        Set::empty()
    } else {
        let prev = ids_upto(pieces, k - 1);
        match parse_u64_spec(trimmed(pieces[k - 1])) {
            Some(id) => prev.insert(id),
            None => prev,
        }
    }
}

/// The droplet ids a `--trace-droplets` value names, comma-separated.
pub open spec fn droplet_ids_named(s: Seq<char>) -> Set<u64> {
    ids_upto(split_on(s, ','), split_on(s, ',').len() as int)
}

/// The kind of operation a lowercase name stands for.
pub open spec fn operation_named(name: Seq<char>) -> Option<TraceOperation> {
    if name == "movement"@ {
        Some(TraceOperation::Movement)
    } else if name == "value_change"@ {
        Some(TraceOperation::ValueChange)
    } else if name == "stack_op"@ {
        Some(TraceOperation::StackOp)
    } else if name == "memory_op"@ {
        Some(TraceOperation::MemoryOp)
    } else if name == "arithmetic_op"@ {
        Some(TraceOperation::ArithmeticOp)
    } else if name == "io_op"@ {
        Some(TraceOperation::IoOp)
    } else if name == "subroutine_call"@ {
        Some(TraceOperation::SubroutineCall)
    } else if name == "subroutine_return"@ {
        Some(TraceOperation::SubroutineReturn)
    } else if name == "direction_change"@ {
        Some(TraceOperation::DirectionChange)
    } else if name == "collision"@ {
        Some(TraceOperation::Collision)
    } else if name == "droplet_lifecycle"@ {
        Some(TraceOperation::DropletLifecycle)
    } else {
        None
    }
}

/// The kinds of operations named by the first `k` pieces, trimmed and lowercased.
pub open spec fn operations_upto(pieces: Seq<Seq<char>>, k: int) -> Set<TraceOperation>
    decreases k,
{
    if k <= 0 {
        Set::empty()
    } else {
        let prev = operations_upto(pieces, k - 1);
        match operation_named(lowercase_of(trimmed(pieces[k - 1]))) {
            Some(op) => prev.insert(op),
            None => prev,
        }
    }
}

/// The kinds of operations a `--trace-operations` value names, comma-separated.
pub open spec fn operations_named(s: Seq<char>) -> Set<TraceOperation> {
    operations_upto(split_on(s, ','), split_on(s, ',').len() as int)
}

/// The index of the first `c` in `s`.
pub open spec fn first_index_of(s: Seq<char>, c: char) -> Option<int>
    decreases s.len(),
{
    if s.len() == 0 {
        None
    } else if s[0] == c {
        Some(0)
    } else {
        match first_index_of(s.drop_first(), c) {
            Some(i) => Some(i + 1),
            None => None,
        }
    }
}

/// The tick range a `--trace-ticks` value `start-end` names, when both ends read as `u64`.
pub open spec fn tick_range_named(s: Seq<char>) -> Option<(u64, u64)> {
    match first_index_of(s, '-') {
        Some(i) => match (parse_u64_spec(trimmed(s.take(i))), parse_u64_spec(trimmed(s.skip(i + 1)))) {
            (Some(a), Some(b)) => Some((a, b)),
            _ => None,
        },
        None => None,
    }
}

/// The trace level a `--trace-level` value names (detailed when unknown).
pub open spec fn level_named(s: Seq<char>) -> TraceLevel {
    if s == "basic"@ {
        TraceLevel::Basic
    } else if s == "detailed"@ {
        TraceLevel::Detailed
    } else if s == "verbose"@ {
        TraceLevel::Verbose
    } else {
        TraceLevel::Detailed
    }
}

/// The trace format a `--trace-format` value names (compact when unknown).
pub open spec fn format_named(s: Seq<char>) -> TraceFormat {
    if s == "compact"@ {
        TraceFormat::Compact
    } else if s == "detailed"@ {
        TraceFormat::Detailed
    } else if s == "json"@ {
        TraceFormat::Json
    } else {
        TraceFormat::Compact
    }
}

/// Whether the command line gives any trace option.
pub open spec fn any_trace_option(cli: Cli) -> bool {
    cli.trace || cli.trace_level is Some || cli.trace_format is Some || cli.trace_droplets is Some
        || cli.trace_operations is Some || cli.trace_ticks is Some || cli.trace_max_events is Some
        || cli.trace_performance || cli.trace_memory || cli.trace_stack || cli.trace_subroutines
        || cli.trace_output is Some
}

/// Whether `r` is `t` with the trace options of `cli` applied.
pub open spec fn trace_overrides(t: TraceConfig, cli: Cli, r: TraceConfig) -> bool {
    &&& r.level == match cli.trace_level {
        Some(l) => level_named(l@),
        None => if any_trace_option(cli) { TraceLevel::Detailed } else { t.level },
    }
    &&& r.format == match cli.trace_format {
        Some(f) => format_named(f@),
        None => t.format,
    }
    &&& match cli.trace_droplets {
        Some(d) => if droplet_ids_named(d@) != Set::<u64>::empty() {
            r.droplet_filter matches Some(f) && f@ == droplet_ids_named(d@)
        } else {
            r.droplet_filter == t.droplet_filter
        },
        None => r.droplet_filter == t.droplet_filter,
    }
    &&& match cli.trace_operations {
        Some(o) => if operations_named(o@) != Set::<TraceOperation>::empty() {
            r.operation_filter matches Some(v) && v@.no_duplicates() && v@.to_set() == operations_named(o@)
        } else {
            r.operation_filter == t.operation_filter
        },
        None => r.operation_filter == t.operation_filter,
    }
    &&& r.tick_range == match cli.trace_ticks {
        Some(k) => match tick_range_named(k@) {
            Some(range) => Some(range),
            None => t.tick_range,
        },
        None => t.tick_range,
    }
    &&& r.max_events == match cli.trace_max_events {
        Some(m) => Some(m),
        None => t.max_events,
    }
    &&& r.include_performance == (t.include_performance || cli.trace_performance)
    &&& r.include_memory == (t.include_memory || cli.trace_memory)
    &&& r.include_stack == (t.include_stack || cli.trace_stack)
    &&& r.include_subroutines == (t.include_subroutines || cli.trace_subroutines)
}

/// The droplet ids named by a comma-separated list.
fn parse_droplet_ids(s: &str) -> (r: HashSet<u64>)
    ensures
        r@ == droplet_ids_named(s@),
{
    let cs = chars_of(s);
    let pieces = split_chars(cs.as_slice(), ',');
    let ghost ps = split_on(s@, ',');
    let mut ids: HashSet<u64> = HashSet::new();
    let mut i: usize = 0;
    while i < pieces.len()
        invariant
            ps == split_on(s@, ','),
            pieces@.len() == ps.len(),
            forall|k: int| 0 <= k < pieces@.len() ==> (#[trigger] pieces@[k])@ == ps[k],
            i <= pieces@.len(),
            ids@ == ids_upto(ps, i as int),
        decreases pieces@.len() - i,
    {
        let t = trim_chars(pieces[i].as_slice());
        assert(pieces@[i as int]@ == ps[i as int]);
        if let Some(id) = parse_u64(t.as_slice()) {
            ids.insert(id);
        }
        i = i + 1;
    }
    ids
}

/// Adds `op` to the list unless it is there.
fn add_operation(ops: &mut Vec<TraceOperation>, op: TraceOperation)
    requires
        old(ops)@.no_duplicates(),
    ensures
        final(ops)@.no_duplicates(),
        final(ops)@.to_set() == old(ops)@.to_set().insert(op),
{
    let mut i: usize = 0;
    while i < ops.len()
        invariant
            i <= ops@.len(),
            ops@ == old(ops)@,
            old(ops)@.no_duplicates(),
            forall|k: int| 0 <= k < i ==> ops@[k] != op,
        decreases ops@.len() - i,
    {
        if ops[i] == op {
            proof {
                assert(ops@.to_set().contains(op)) by {
                    assert(ops@[i as int] == op);
                }
                assert(ops@.to_set().insert(op) =~= ops@.to_set());
            }
            return;
        }
        i = i + 1;
    }
    ops.push(op);
    proof {
        old(ops)@.lemma_push_to_set_commute(op);
    }
}

/// The kinds of operations named by a comma-separated list, each once.
fn parse_operations(s: &str) -> (r: Vec<TraceOperation>)
    ensures
        r@.no_duplicates(),
        r@.to_set() == operations_named(s@),
{
    let cs = chars_of(s);
    let pieces = split_chars(cs.as_slice(), ',');
    let ghost ps = split_on(s@, ',');
    let mut ops: Vec<TraceOperation> = Vec::new();
    let mut i: usize = 0;
    assert(ops@.to_set() =~= Set::<TraceOperation>::empty());
    while i < pieces.len()
        invariant
            ps == split_on(s@, ','),
            pieces@.len() == ps.len(),
            forall|k: int| 0 <= k < pieces@.len() ==> (#[trigger] pieces@[k])@ == ps[k],
            i <= pieces@.len(),
            ops@.no_duplicates(),
            ops@.to_set() == operations_upto(ps, i as int),
        decreases pieces@.len() - i,
    {
        let t = trim_chars(pieces[i].as_slice());
        let ts = string_from_chars(t.as_slice());
        let name = to_lowercase(ts.as_str());
        assert(pieces@[i as int]@ == ps[i as int]);
        let op: Option<TraceOperation> = if same_name(&name, "movement") {
            Some(TraceOperation::Movement)
        } else if same_name(&name, "value_change") {
            Some(TraceOperation::ValueChange)
        } else if same_name(&name, "stack_op") {
            Some(TraceOperation::StackOp)
        } else if same_name(&name, "memory_op") {
            Some(TraceOperation::MemoryOp)
        } else if same_name(&name, "arithmetic_op") {
            Some(TraceOperation::ArithmeticOp)
        } else if same_name(&name, "io_op") {
            Some(TraceOperation::IoOp)
        } else if same_name(&name, "subroutine_call") {
            Some(TraceOperation::SubroutineCall)
        } else if same_name(&name, "subroutine_return") {
            Some(TraceOperation::SubroutineReturn)
        } else if same_name(&name, "direction_change") {
            Some(TraceOperation::DirectionChange)
        } else if same_name(&name, "collision") {
            Some(TraceOperation::Collision)
        } else if same_name(&name, "droplet_lifecycle") {
            Some(TraceOperation::DropletLifecycle)
        } else {
            None
        };
        assert(op == operation_named(lowercase_of(trimmed(ps[i as int]))));
        if let Some(o) = op {
            add_operation(&mut ops, o);
        }
        i = i + 1;
    }
    ops
}

/// Whether a text is `b`.
fn same_name(a: &String, b: &str) -> (r: bool)
    ensures
        r == (a@ == b@),
{
    same_text(a, b)
}

/// The index of the first `c` in `s`.
fn find_char(s: &[char], c: char) -> (r: Option<usize>)
    ensures
        match r {
            Some(i) => first_index_of(s@, c) == Some(i as int),
            None => first_index_of(s@, c) is None,
        },
{
    let mut i: usize = 0;
    while i < s.len()
        invariant
            i <= s@.len(),
            forall|k: int| 0 <= k < i ==> s@[k] != c,
        decreases s@.len() - i,
    {
        if s[i] == c {
            proof {
                lemma_first_index(s@, c, i as int);
            }
            return Some(i);
        }
        i = i + 1;
    }
    proof {
        lemma_no_index(s@, c);
    }
    None
}

/// The first `c` of `s` is at `i` when `s[i]` is `c` and none comes before.
proof fn lemma_first_index(s: Seq<char>, c: char, i: int)
    requires
        0 <= i < s.len(),
        s[i] == c,
        forall|k: int| 0 <= k < i ==> s[k] != c,
    ensures
        first_index_of(s, c) == Some(i),
    decreases i,
{
    if i > 0 {
        lemma_first_index(s.drop_first(), c, i - 1);
    }
}

/// The first `c` of `s` lies within `s`.
proof fn lemma_first_index_range(s: Seq<char>, c: char)
    ensures
        first_index_of(s, c) matches Some(i) ==> 0 <= i < s.len(),
    decreases s.len(),
{
    if s.len() > 0 {
        lemma_first_index_range(s.drop_first(), c);
    }
}

/// There is no first `c` of `s` when `s` holds none.
proof fn lemma_no_index(s: Seq<char>, c: char)
    requires
        forall|k: int| 0 <= k < s.len() ==> s[k] != c,
    ensures
        first_index_of(s, c) is None,
    decreases s.len(),
{
    if s.len() > 0 {
        lemma_no_index(s.drop_first(), c);
    }
}

/// The tick range named by `start-end`.
fn parse_tick_range(s: &str) -> (r: Option<(u64, u64)>)
    ensures
        r == tick_range_named(s@),
{
    let cs = chars_of(s);
    match find_char(cs.as_slice(), '-') {
        None => None,
        Some(i) => {
            proof {
                lemma_first_index_range(cs@, '-');
            }
            let mut first: Vec<char> = Vec::new();
            let mut k: usize = 0;
            while k < i
                invariant
                    i < cs@.len(),
                    k <= i,
                    first@ == cs@.take(k as int),
                decreases i - k,
            {
                first.push(cs[k]);
                assert(first@ =~= cs@.take(k + 1));
                k = k + 1;
            }
            let mut second: Vec<char> = Vec::new();
            assert(i < cs.len());
            let mut k: usize = i + 1;
            while k < cs.len()
                invariant
                    i < cs@.len(),
                    i + 1 <= k <= cs@.len(),
                    second@ == cs@.subrange(i + 1, k as int),
                decreases cs@.len() - k,
            {
                second.push(cs[k]);
                assert(second@ =~= cs@.subrange(i + 1, k + 1));
                k = k + 1;
            }
            assert(second@ =~= cs@.skip(i + 1));
            let a = parse_u64(trim_chars(first.as_slice()).as_slice());
            let b = parse_u64(trim_chars(second.as_slice()).as_slice());
            match (a, b) {
                (Some(start), Some(end)) => Some((start, end)),
                _ => None,
            }
        },
    }
}

impl EnvConfig {
    /// The configuration with the flags of the command line applied: verbose,
    /// trace and benchmark are switched on by their flags, and the trace options
    /// are applied to the trace settings.
    pub fn apply_cli_overrides(self, cli: &Cli) -> (r: Self)
        ensures
            r.tick_limit == self.tick_limit,
            r.verbose == (self.verbose || cli.verbose),
            r.trace == (self.trace || cli.trace),
            r.benchmark == (self.benchmark || cli.benchmark),
            r.strict == self.strict,
            trace_overrides(self.trace_config, *cli, r.trace_config),
    {
        let EnvConfig { tick_limit, verbose, trace, benchmark, strict, trace_config } = self;
        let trace_config = Self::apply_trace_overrides(trace_config, cli);
        EnvConfig {
            tick_limit,
            verbose: verbose || cli.verbose,
            trace: trace || cli.trace,
            benchmark: benchmark || cli.benchmark,
            strict,
            trace_config,
        }
    }

    /// The trace settings with the trace options of the command line applied.
    fn apply_trace_overrides(trace_config: TraceConfig, cli: &Cli) -> (r: TraceConfig)
        ensures
            trace_overrides(trace_config, *cli, r),
    {
        let mut trace_config = trace_config;
        if cli.trace || cli.trace_level.is_some() || cli.trace_format.is_some() || cli.trace_droplets.is_some()
            || cli.trace_operations.is_some() || cli.trace_ticks.is_some() || cli.trace_max_events.is_some()
            || cli.trace_performance || cli.trace_memory || cli.trace_stack || cli.trace_subroutines
            || cli.trace_output.is_some() {
            trace_config.level = TraceLevel::Detailed;
        }
        if let Some(level_str) = &cli.trace_level {
            trace_config.level = if same_name(level_str, "basic") {
                TraceLevel::Basic
            } else if same_name(level_str, "detailed") {
                TraceLevel::Detailed
            } else if same_name(level_str, "verbose") {
                TraceLevel::Verbose
            } else {
                TraceLevel::Detailed
            };
        }
        if let Some(format_str) = &cli.trace_format {
            trace_config.format = if same_name(format_str, "compact") {
                TraceFormat::Compact
            } else if same_name(format_str, "detailed") {
                TraceFormat::Detailed
            } else if same_name(format_str, "json") {
                TraceFormat::Json
            } else {
                TraceFormat::Compact
            };
        }
        if let Some(droplets_str) = &cli.trace_droplets {
            let droplet_ids = parse_droplet_ids(droplets_str.as_str());
            if !droplet_ids.is_empty() {
                trace_config.droplet_filter = Some(droplet_ids);
            } else {
                assert(droplet_ids@ =~= Set::<u64>::empty());
            }
        }
        if let Some(operations_str) = &cli.trace_operations {
            let operations = parse_operations(operations_str.as_str());
            if operations.len() > 0 {
                proof {
                    assert(operations@.to_set().contains(operations@[0]));
                }
                trace_config.operation_filter = Some(operations);
            } else {
                assert(operations@.to_set() =~= Set::<TraceOperation>::empty());
            }
        }
        if let Some(ticks_str) = &cli.trace_ticks {
            if let Some((start, end)) = parse_tick_range(ticks_str.as_str()) {
                trace_config.tick_range = Some((start, end));
            }
        }
        if let Some(max_events) = cli.trace_max_events {
            trace_config.max_events = Some(max_events);
        }
        if cli.trace_performance {
            trace_config.include_performance = true;
        }
        if cli.trace_memory {
            trace_config.include_memory = true;
        }
        if cli.trace_stack {
            trace_config.include_stack = true;
        }
        if cli.trace_subroutines {
            trace_config.include_subroutines = true;
        }
        trace_config
    }
}


/// `n` copies of `c`.
pub open spec fn repeated(c: char, n: nat) -> Seq<char> {
    Seq::new(n, |i: int| c)
}

/// Appends `n` copies of `c`.
fn push_repeated(s: &mut String, c: char, n: usize)
    ensures
        final(s)@ == old(s)@ + repeated(c, n as nat),
{
    let mut k: usize = 0;
    while k < n
        invariant
            k <= n,
            s@ == old(s)@ + repeated(c, k as nat),
        decreases n - k,
    {
        push_char(s, c);
        assert(s@ =~= old(s)@ + repeated(c, (k + 1) as nat));
        k = k + 1;
    }
}

/// The first line reporting an invalid character.
pub open spec fn character_error_head(ch: char, coord: Coordinate) -> Seq<char> {
    "  Invalid character '"@ + seq![ch] + "' at line "@ + dec_int(coord.y + 1) + ", column "@ + dec_int(coord.x + 1)
        + "\n"@
}

/// The line of the text holding an invalid character, with a marker under it.
pub open spec fn character_error_line(coord: Coordinate, lines: Seq<Seq<char>>) -> Seq<char> {
    if 0 <= coord.y < lines.len() {
        "  Line "@ + dec_int(coord.y + 1) + ": "@ + lines[coord.y as int] + "\n"@ + "         "@
            + repeated(' ', coord.x as nat) + "^"@ + "\n"@
    } else {
        Seq::empty()
    }
}

/// The lines reporting an invalid character at `coord` of the source `lines`.
pub open spec fn character_error_lines(ch: char, coord: Coordinate, lines: Seq<Seq<char>>, source: Seq<char>) -> Seq<char> {
    character_error_head(ch, coord) + character_error_line(coord, lines) + "  Source: "@ + source + "\n"@
}

/// The numbered lines around an error, one `  Line n: text` line each.
pub open spec fn surrounding_report(ls: Seq<(usize, String)>) -> Seq<char>
    decreases ls.len(),
{
    if ls.len() == 0 {
        Seq::empty()
    } else {
        surrounding_report(ls.drop_last()) + "  Line "@ + dec_nat((ls.last().0 + 1) as nat) + ": "@ + ls.last().1@ + "\n"@
    }
}

/// The line saying where an error is.
pub open spec fn location_line(c: ErrorContext) -> Seq<char> {
    "  Location: line "@ + dec_nat((c.position.line + 1) as nat) + ", column "@ + dec_nat((c.position.column + 1) as nat) + "\n"@
}

/// The source line of an error with its span marked, when there is a source line.
pub open spec fn marked_line(c: ErrorContext) -> Seq<char> {
    if c.source_line@.len() > 0 {
        "  Line "@ + dec_nat((c.position.line + 1) as nat) + ": "@ + c.source_line@ + "\n"@ + "         "@
            + repeated(' ', c.error_span.0 as nat)
            + repeated('^', if c.error_span.1 >= c.error_span.0 { (c.error_span.1 - c.error_span.0) as nat } else { 0 })
            + "\n"@
    } else {
        Seq::empty()
    }
}

/// The lines reporting where an error is.
pub open spec fn context_report(c: ErrorContext) -> Seq<char> {
    location_line(c) + marked_line(c) + surrounding_report(c.surrounding_lines@)
}

/// The suggestion lines of an error report.
pub open spec fn suggestion_lines(ss: Seq<Seq<char>>) -> Seq<char>
    decreases ss.len(),
{
    if ss.len() == 0 { Seq::empty() } else { suggestion_lines(ss.drop_last()) + "    • "@ + ss.last() + "\n"@ }
}

/// The first line of the report on an enhanced error.
pub open spec fn enhanced_head(info: ErrorInfo) -> Seq<char> {
    "  "@ + error_type_text(info.error_type) + ": "@ + info.message@ + "\n"@
}

/// The suggestion part of the report on an enhanced error.
pub open spec fn suggestions_part(info: ErrorInfo) -> Seq<char> {
    if info.suggestions@.len() > 0 {
        "  Suggestions:\n"@ + suggestion_lines(string_views(info.suggestions@))
    } else {
        Seq::empty()
    }
}

/// The help and cause lines of the report on an enhanced error.
pub open spec fn help_and_cause(info: ErrorInfo, source: Option<Box<InterpreterError>>) -> Seq<char> {
    (match info.help_text { Some(h) => "  Help: "@ + h@ + "\n"@, None => Seq::empty() })
        + (match source { Some(e) => "  Caused by: "@ + interpreter_error_text(*e) + "\n"@, None => Seq::empty() })
}

/// The body of the report on an enhanced error.
pub open spec fn enhanced_report(info: ErrorInfo, source: Option<Box<InterpreterError>>) -> Seq<char> {
    enhanced_head(info) + (match info.context { Some(c) => context_report(c), None => Seq::empty() })
        + suggestions_part(info) + help_and_cause(info, source)
}

/// The report on a failed validation of `source` (with text `content`).
pub open spec fn validation_error_text(e: InterpreterError, content: Seq<char>, source: Seq<char>) -> Seq<char> {
    "[ERROR] Validation failed: "@ + source + "\n"@ + match e {
        InterpreterError::Initialization(i) => match i {
            InitError::NoStartSymbol => "  No start symbol (@) found in program\n"@,
            InitError::MultipleStartSymbols => "  Multiple start symbols (@) found in program\n"@,
            InitError::InvalidCharacter(ch, coord) => character_error_lines(ch, coord, lines_of(content), source),
            InitError::GridSizeExceeded(w, h) => "  Grid size "@ + dec_nat(w as nat) + "x"@ + dec_nat(h as nat)
                + " exceeds maximum supported size of 1000x1000\n"@,
        },
        InterpreterError::System(y) => "  System error: "@ + system_error_text(y) + "\n"@,
        InterpreterError::Execution(x) => "  Execution error: "@ + exec_error_text(x) + "\n"@,
        InterpreterError::Enhanced { info, source: cause } => enhanced_report(info, cause),
    }
}

/// Whether a report on `e` can be written: the line and column numbers it
/// prints, one more than those it holds, fit, and a character error within the
/// text lies at a column that is not negative.
pub open spec fn reportable(e: InterpreterError, content: Seq<char>) -> bool {
    match e {
        InterpreterError::Initialization(InitError::InvalidCharacter(_, coord)) => {
            &&& coord.x < isize::MAX
            &&& coord.y < isize::MAX
            &&& 0 <= coord.y < lines_of(content).len() ==> coord.x >= 0
        },
        InterpreterError::Enhanced { info, .. } => match info.context {
            Some(c) => {
                &&& c.position.line < usize::MAX
                &&& c.position.column < usize::MAX
                &&& forall|i: int| 0 <= i < c.surrounding_lines@.len() ==> (#[trigger] c.surrounding_lines@[i]).0 < usize::MAX
            },
            None => true,
        },
        _ => true,
    }
}

/// Appends the lines reporting where an error is.
fn push_context_report(out: &mut String, c: &ErrorContext)
    requires
        c.position.line < usize::MAX,
        c.position.column < usize::MAX,
        forall|i: int| 0 <= i < c.surrounding_lines@.len() ==> (#[trigger] c.surrounding_lines@[i]).0 < usize::MAX,
    ensures
        final(out)@ == old(out)@ + context_report(*c),
{
    push_location_line(out, c);
    push_marked_line(out, c);
    let ghost s2 = out@;
    let lines = &c.surrounding_lines;
    let mut i: usize = 0;
    while i < lines.len()
        invariant
            i <= lines@.len(),
            forall|k: int| 0 <= k < lines@.len() ==> (#[trigger] lines@[k]).0 < usize::MAX,
            out@ == s2 + surrounding_report(lines@.take(i as int)),
        decreases lines@.len() - i,
    {
        push_str(out, "  Line ");
        push_nat(out, (lines[i].0 + 1) as u128);
        push_str(out, ": ");
        push_str(out, lines[i].1.as_str());
        push_str(out, "\n");
        assert(lines@.take(i + 1).drop_last() =~= lines@.take(i as int));
        assert(out@ =~= s2 + surrounding_report(lines@.take(i + 1)));
        i = i + 1;
    }
    assert(lines@.take(lines@.len() as int) =~= lines@);
    assert(out@ =~= old(out)@ + context_report(*c));
}

/// Appends the line saying where an error is.
fn push_location_line(out: &mut String, c: &ErrorContext)
    requires
        c.position.line < usize::MAX,
        c.position.column < usize::MAX,
    ensures
        final(out)@ == old(out)@ + location_line(*c),
{
    push_str(out, "  Location: line ");
    push_nat(out, (c.position.line + 1) as u128);
    push_str(out, ", column ");
    push_nat(out, (c.position.column + 1) as u128);
    push_str(out, "\n");
    assert(out@ =~= old(out)@ + location_line(*c));
}

/// Appends the source line of an error with its span marked.
fn push_marked_line(out: &mut String, c: &ErrorContext)
    requires
        c.position.line < usize::MAX,
    ensures
        final(out)@ == old(out)@ + marked_line(*c),
{
    if !c.source_line.as_str().is_empty() {
        push_str(out, "  Line ");
        push_nat(out, (c.position.line + 1) as u128);
        push_str(out, ": ");
        push_str(out, c.source_line.as_str());
        push_str(out, "\n");
        push_str(out, "         ");
        let start = c.error_span.0;
        let end = c.error_span.1;
        push_repeated(out, ' ', start);
        let carets: usize = if end >= start { end - start } else { 0 };
        push_repeated(out, '^', carets);
        push_str(out, "\n");
    }
    assert(out@ =~= old(out)@ + marked_line(*c));
}

/// Appends the report on an enhanced error.
fn push_enhanced_report(out: &mut String, info: &ErrorInfo, source: &Option<Box<InterpreterError>>)
    requires
        info.context matches Some(c) ==> {
            &&& c.position.line < usize::MAX
            &&& c.position.column < usize::MAX
            &&& forall|i: int| 0 <= i < c.surrounding_lines@.len() ==> (#[trigger] c.surrounding_lines@[i]).0 < usize::MAX
        },
    ensures
        final(out)@ == old(out)@ + enhanced_report(*info, *source),
{
    push_str(out, "  ");
    info.error_type.write_to(out);
    push_str(out, ": ");
    push_str(out, info.message.as_str());
    push_str(out, "\n");
    let ghost s1 = out@;
    assert(s1 =~= old(out)@ + enhanced_head(*info));
    if let Some(context) = &info.context {
        push_context_report(out, context);
    }
    push_suggestions(out, info);
    push_help_and_cause(out, info, source);
    assert(out@ =~= old(out)@ + enhanced_report(*info, *source));
}

/// Appends the suggestion part of the report on an enhanced error.
fn push_suggestions(out: &mut String, info: &ErrorInfo)
    ensures
        final(out)@ == old(out)@ + suggestions_part(*info),
{
    if info.suggestions.len() > 0 {
        push_str(out, "  Suggestions:\n");
        let ghost s3 = out@;
        let ghost sv = string_views(info.suggestions@);
        let mut i: usize = 0;
        while i < info.suggestions.len()
            invariant
                i <= info.suggestions@.len(),
                sv == string_views(info.suggestions@),
                out@ == s3 + suggestion_lines(sv.take(i as int)),
            decreases info.suggestions@.len() - i,
        {
            push_str(out, "    • ");
            push_str(out, info.suggestions[i].as_str());
            push_str(out, "\n");
            assert(sv.take(i + 1).drop_last() =~= sv.take(i as int));
            assert(out@ =~= s3 + suggestion_lines(sv.take(i + 1)));
            i = i + 1;
        }
        assert(sv.take(sv.len() as int) =~= sv);
    }
    assert(out@ =~= old(out)@ + suggestions_part(*info));
}

/// Appends the help and cause lines of the report on an enhanced error.
fn push_help_and_cause(out: &mut String, info: &ErrorInfo, source: &Option<Box<InterpreterError>>)
    ensures
        final(out)@ == old(out)@ + help_and_cause(*info, *source),
{
    if let Some(help) = &info.help_text {
        push_str(out, "  Help: ");
        push_str(out, help.as_str());
        push_str(out, "\n");
    }
    if let Some(source_error) = source {
        push_str(out, "  Caused by: ");
        source_error.write_to(out);
        push_str(out, "\n");
    }
    assert(out@ =~= old(out)@ + help_and_cause(*info, *source));
}

/// The report on a failed validation of `source_name`, whose text is
/// `content`: what failed and, where known, where, with the lines around it,
/// suggestions and help.
pub fn validation_error_report(error: &InterpreterError, content: &str, source_name: &str) -> (r: String)
    requires
        reportable(*error, content@),
    ensures
        r@ == validation_error_text(*error, content@, source_name@),
{
    let mut out = String::new();
    push_str(&mut out, "[ERROR] Validation failed: ");
    push_str(&mut out, source_name);
    push_str(&mut out, "\n");
    match error {
        InterpreterError::Initialization(init_err) => match init_err {
            InitError::NoStartSymbol => push_str(&mut out, "  No start symbol (@) found in program\n"),
            InitError::MultipleStartSymbols => push_str(&mut out, "  Multiple start symbols (@) found in program\n"),
            InitError::InvalidCharacter(ch, coord) => {
                push_character_error(&mut out, *ch, *coord, content, source_name);
            },
            InitError::GridSizeExceeded(width, height) => {
                push_str(&mut out, "  Grid size ");
                push_nat(&mut out, *width as u128);
                push_str(&mut out, "x");
                push_nat(&mut out, *height as u128);
                push_str(&mut out, " exceeds maximum supported size of 1000x1000\n");
            },
        },
        InterpreterError::System(sys_err) => {
            push_str(&mut out, "  System error: ");
            sys_err.write_to(&mut out);
            push_str(&mut out, "\n");
        },
        InterpreterError::Execution(exec_err) => {
            push_str(&mut out, "  Execution error: ");
            exec_err.write_to(&mut out);
            push_str(&mut out, "\n");
        },
        InterpreterError::Enhanced { info, source } => {
            push_enhanced_report(&mut out, info, source);
        },
    }
    assert(out@ =~= validation_error_text(*error, content@, source_name@));
    out
}

/// Appends the lines reporting an invalid character.
fn push_character_error(out: &mut String, ch: char, coord: Coordinate, content: &str, source_name: &str)
    requires
        coord.x < isize::MAX,
        coord.y < isize::MAX,
        0 <= coord.y < lines_of(content@).len() ==> coord.x >= 0,
    ensures
        final(out)@ == old(out)@ + character_error_lines(ch, coord, lines_of(content@), source_name@),
{
    let line_num = coord.y + 1;
    let col_num = coord.x + 1;
    push_str(out, "  Invalid character '");
    push_char(out, ch);
    push_str(out, "' at line ");
    push_int(out, line_num as i128);
    push_str(out, ", column ");
    push_int(out, col_num as i128);
    push_str(out, "\n");
    let ghost s1 = out@;
    assert(s1 =~= old(out)@ + character_error_head(ch, coord));
    push_character_line(out, coord, content);
    push_str(out, "  Source: ");
    push_str(out, source_name);
    push_str(out, "\n");
    assert(out@ =~= old(out)@ + character_error_lines(ch, coord, lines_of(content@), source_name@));
}

/// Appends the line of the text holding an invalid character, with a marker.
fn push_character_line(out: &mut String, coord: Coordinate, content: &str)
    requires
        coord.y < isize::MAX,
        0 <= coord.y < lines_of(content@).len() ==> coord.x >= 0,
    ensures
        final(out)@ == old(out)@ + character_error_line(coord, lines_of(content@)),
{
    let lines = split_lines(content);
    if coord.y >= 0 && (coord.y as usize) < lines.len() {
        let line = &lines[coord.y as usize];
        push_str(out, "  Line ");
        push_int(out, (coord.y + 1) as i128);
        push_str(out, ": ");
        push_str(out, line.as_str());
        push_str(out, "\n");
        push_str(out, "         ");
        push_repeated(out, ' ', coord.x as usize);
        push_str(out, "^");
        push_str(out, "\n");
        assert(string_views(lines@)[coord.y as int] == lines@[coord.y as int]@);
    }
    assert(out@ =~= old(out)@ + character_error_line(coord, lines_of(content@)));
}

/// The report on a successful validation of `source_name`: grid size, size of
/// the program (the cells a droplet can be on) and start position.
pub open spec fn validation_success_text(w: usize, h: usize, cells: usize, start: Option<Coordinate>, source: Seq<char>) -> Seq<char> {
    "[OK] Program validation passed: "@ + source + "\n"@ + "  Grid size: "@ + dec_nat(w as nat) + "x"@ + dec_nat(h as nat)
        + "\n"@ + "  Program cells: "@ + dec_nat(cells as nat) + "\n"@
        + (match start {
            Some(p) => "  Start position: ("@ + dec_int(p.x as int) + ", "@ + dec_int(p.y as int) + ")\n"@,
            None => Seq::empty(),
        })
}

/// The report on a successful validation of `source_name`.
pub fn validation_success_report(grid: &ProgramGrid, source_name: &str) -> (r: String)
    requires
        grid.wf(),
    ensures
        r@ == validation_success_text(
            box_width(grid.spec_bounds()) as usize,
            box_height(grid.spec_bounds()) as usize,
            grid.spec_size() as usize,
            grid.spec_start(),
            source_name@,
        ),
{
    let (width, height) = grid.dimensions();
    let mut out = String::new();
    push_str(&mut out, "[OK] Program validation passed: ");
    push_str(&mut out, source_name);
    push_str(&mut out, "\n");
    push_str(&mut out, "  Grid size: ");
    push_nat(&mut out, width as u128);
    push_str(&mut out, "x");
    push_nat(&mut out, height as u128);
    push_str(&mut out, "\n");
    push_str(&mut out, "  Program cells: ");
    push_nat(&mut out, grid.size() as u128);
    push_str(&mut out, "\n");
    if let Some(start) = grid.start() {
        push_str(&mut out, "  Start position: (");
        push_int(&mut out, start.x as i128);
        push_str(&mut out, ", ");
        push_int(&mut out, start.y as i128);
        push_str(&mut out, ")\n");
    }
    assert(out@ =~= validation_success_text(
        box_width(grid.spec_bounds()) as usize,
        box_height(grid.spec_bounds()) as usize,
        grid.spec_size() as usize,
        grid.spec_start(),
        source_name@,
    ));
    out
}


/// Whether `validation_error_report` can write a report on `error` for `content`.
pub fn can_report(error: &InterpreterError, content: &str) -> (r: bool)
    ensures
        r == reportable(*error, content@),
{
    match error {
        InterpreterError::Initialization(InitError::InvalidCharacter(_, coord)) => {
            if coord.x == isize::MAX || coord.y == isize::MAX {
                return false;
            }
            let lines = split_lines(content);
            if coord.y >= 0 && (coord.y as usize) < lines.len() {
                coord.x >= 0
            } else {
                true
            }
        },
        InterpreterError::Enhanced { info, .. } => match &info.context {
            Some(c) => {
                if c.position.line == usize::MAX || c.position.column == usize::MAX {
                    return false;
                }
                let mut i: usize = 0;
                while i < c.surrounding_lines.len()
                    invariant
                        i <= c.surrounding_lines@.len(),
                        forall|k: int| 0 <= k < i ==> (#[trigger] c.surrounding_lines@[k]).0 < usize::MAX,
                        reportable(*error, content@) == (forall|k: int| 0 <= k < c.surrounding_lines@.len()
                            ==> (#[trigger] c.surrounding_lines@[k]).0 < usize::MAX),
                    decreases c.surrounding_lines@.len() - i,
                {
                    if c.surrounding_lines[i].0 == usize::MAX {
                        return false;
                    }
                    i = i + 1;
                }
                true
            },
            None => true,
        },
        _ => true,
    }
}

} // verus!
