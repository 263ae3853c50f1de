//! Reading program text into a grid.
use vstd::prelude::*;
use crate::assoc::{assoc_index, assoc_map, keys_unique, lemma_assoc_at};
use crate::interpreter::grid::{
    BoundingBox, ProgramCell, ProgramGrid, box_grow, box_height, box_width, capped, cell_of, extent_with, empty_box, valid_symbol,
};
use crate::text::{
    chars_of, dec_nat, is_whitespace, is_whitespace_spec, lines_of, push_char, push_nat, push_str,
    split_lines, string_from_chars, string_views, nl_index, lines_from, strip_cr,
};
use crate::types::coordinate::{COORD_LIMIT, Coordinate, in_grid_range};
use crate::types::error::{
    ErrorContext, ErrorInfo, ErrorSeverity, ErrorType, InitError, InterpreterError, Position, init_error_text,
};

verus! {

/// The byte offsets at which the lines of a text start: 0, then after each line
/// and its line feed.
pub open spec fn line_offsets_of(lines: Seq<Seq<char>>) -> Seq<int>
    decreases lines.len(),
{
    if lines.len() == 0 {
        seq![0]
    } else {
        let prev = line_offsets_of(lines.drop_last());
        prev.push(prev.last() + crate::operations::io::utf8_len(lines.last()) + 1)
    }
}

/// Whether the last line offset of a text fits in a `usize`.
pub open spec fn offsets_fit(content: Seq<char>) -> bool {
    line_offsets_of(lines_of(content)).last() <= usize::MAX
}

/// The first line of the window of `size` lines around line `index`.
pub open spec fn window_start(index: int, size: int) -> int {
    if index >= size { index - size } else { 0 }
}

/// One past the last line of that window, cut at `len` lines.
pub open spec fn window_end(index: int, size: int, len: int) -> int {
    if index + size + 1 <= len { index + size + 1 } else { len }
}

/// The numbered lines of the window of `size` lines around line `index`.
pub open spec fn window_lines(lines: Seq<Seq<char>>, index: int, size: int) -> Seq<(usize, Seq<char>)> {
    let start = window_start(index, size);
    let end = window_end(index, size, lines.len() as int);
    Seq::new((end - start) as nat, |i: int| ((start + i) as usize, lines[start + i]))
}

/// The numbered lines of a list of numbered strings.
pub open spec fn numbered_views(v: Seq<(usize, String)>) -> Seq<(usize, Seq<char>)> {
    v.map_values(|p: (usize, String)| (p.0, p.1@))
}

/// The source of a parse: a name and the lines, with their byte offsets.
#[derive(Debug, Clone)]
pub struct ParseContext {
    pub source_name: String,
    pub lines: Vec<String>,
    pub line_offsets: Vec<usize>,
}

/// The position an error at `coord` is reported at: line y, column x.
pub open spec fn position_of(coord: Coordinate) -> Position {
    Position { line: coord.y as usize, column: coord.x as usize, coordinate: coord }
}

/// Whether `ctx` is the context an error at `coord` gets from the lines `lines`:
/// the source line (empty past the end), a one-column span, and two lines on
/// either side.
pub open spec fn context_for(ctx: ErrorContext, lines: Seq<Seq<char>>, coord: Coordinate) -> bool {
    let p = position_of(coord);
    &&& ctx.position == p
    &&& ctx.source_line@ == (if (p.line as int) < lines.len() { lines[p.line as int] } else { Seq::empty() })
    &&& ctx.error_span == (p.column, (p.column + 1) as usize)
    &&& numbered_views(ctx.surrounding_lines@) == window_lines(lines, p.line as int, 2)
}

impl ParseContext {
    /// The context of `content`, named `source_name`.
    pub fn new(source_name: String, content: &str) -> (r: Self)
        requires
            offsets_fit(content@),
        ensures
            r.source_name == source_name,
            string_views(r.lines@) == lines_of(content@),
            r.line_offsets@.len() == line_offsets_of(lines_of(content@)).len(),
            forall|k: int| 0 <= k < r.line_offsets@.len() ==> r.line_offsets@[k] == line_offsets_of(lines_of(content@))[k],
    {
        let lines = split_lines(content);
        let ghost ls = lines_of(content@);
        let mut line_offsets: Vec<usize> = Vec::new();
        line_offsets.push(0);
        let mut current_offset: usize = 0;
        let mut i: usize = 0;
        proof {
            lemma_offsets_prefix(ls, 0, ls.len() as int);
            assert(ls.take(0) =~= Seq::<Seq<char>>::empty());
        }
        while i < lines.len()
            invariant
                string_views(lines@) == ls,
                ls == lines_of(content@),
                offsets_fit(content@),
                i <= lines@.len(),
                line_offsets@.len() == i + 1,
                forall|k: int| 0 <= k <= i ==> line_offsets@[k] == line_offsets_of(ls.take(i as int))[k],
                current_offset == line_offsets_of(ls.take(i as int)).last(),
                line_offsets_of(ls.take(i as int)).len() == i + 1,
            decreases lines@.len() - i,
        {
            proof {
                assert(ls.take(i + 1).drop_last() =~= ls.take(i as int));
                assert(ls.take(i + 1).last() == ls[i as int]);
                assert(ls[i as int] == lines@[i as int]@);
                lemma_offsets_prefix(ls, i + 1, ls.len() as int);
                assert(ls.take(ls.len() as int) =~= ls);
            }
            let len = lines[i].as_str().len();
            current_offset = current_offset + len + 1;
            line_offsets.push(current_offset);
            i = i + 1;
        }
        proof {
            assert(ls.take(i as int) =~= ls);
        }
        ParseContext { source_name, lines, line_offsets }
    }

    /// Line `line_index`, if there is one.
    pub fn get_line(&self, line_index: usize) -> (r: Option<&str>)
        ensures
            match r {
                Some(l) => line_index < self.lines@.len() && l@ == self.lines@[line_index as int]@,
                None => line_index >= self.lines@.len(),
            },
    {
        if line_index < self.lines.len() {
            Some(self.lines[line_index].as_str())
        } else {
            None
        }
    }

    /// The lines from `context_size` before to `context_size` after line
    /// `line_index`, each with its number.
    pub fn get_surrounding_lines(&self, line_index: usize, context_size: usize) -> (r: Vec<(usize, String)>)
        requires
            line_index + context_size + 1 <= usize::MAX,
            window_start(line_index as int, context_size as int) <= window_end(
                line_index as int,
                context_size as int,
                self.lines@.len() as int,
            ),
        ensures
            numbered_views(r@) == window_lines(string_views(self.lines@), line_index as int, context_size as int),
    {
        let start: usize = if line_index >= context_size { line_index - context_size } else { 0 };
        let end: usize = if line_index + context_size + 1 <= self.lines.len() {
            line_index + context_size + 1
        } else {
            self.lines.len()
        };
        let mut out: Vec<(usize, String)> = Vec::new();
        let mut k: usize = start;
        while k < end
            invariant
                start <= k <= end <= self.lines@.len(),
                start == window_start(line_index as int, context_size as int),
                end == window_end(line_index as int, context_size as int, self.lines@.len() as int),
                out@.len() == k - start,
                forall|i: int| 0 <= i < out@.len() ==> (#[trigger] out@[i]).0 == start + i && out@[i].1@ == self.lines@[start + i]@,
            decreases end - k,
        {
            out.push((k, self.lines[k].clone()));
            k = k + 1;
        }
        assert(numbered_views(out@) =~= window_lines(string_views(self.lines@), line_index as int, context_size as int));
        out
    }

    /// The position of a coordinate: line y, column x.
    pub fn position_from_coordinate(&self, coord: Coordinate) -> (r: Position)
        ensures
            r == position_of(coord),
    {
        Position::new(coord.y as usize, coord.x as usize, coord)
    }

    /// The context of an error at `position`: its source line, the span (one
    /// column when none is given) and two lines on either side.
    pub fn create_error_context(&self, position: Position, span: Option<(usize, usize)>) -> (r: ErrorContext)
        requires
            position.column < usize::MAX,
            position.line + 3 <= usize::MAX,
            window_start(position.line as int, 2) <= window_end(position.line as int, 2, self.lines@.len() as int),
        ensures
            r.position == position,
            r.source_line@ == (if (position.line as int) < self.lines@.len() {
                self.lines@[position.line as int]@
            } else {
                Seq::<char>::empty()
            }),
            r.error_span == (match span {
                Some(s) => s,
                None => (position.column, (position.column + 1) as usize),
            }),
            numbered_views(r.surrounding_lines@) == window_lines(string_views(self.lines@), position.line as int, 2),
    {
        let source_line = match self.get_line(position.line) {
            Some(l) => String::from_str(l),
            None => String::new(),
        };
        let error_span = match span {
            Some(s) => s,
            None => (position.column, position.column + 1),
        };
        let surrounding = self.get_surrounding_lines(position.line, 2);
        ErrorContext::new(position, source_line).with_span(error_span.0, error_span.1).with_surrounding_lines(surrounding)
    }
}

/// Line offsets grow along the lines.
pub proof fn lemma_offsets_prefix(ls: Seq<Seq<char>>, i: int, j: int)
    requires
        0 <= i <= j <= ls.len(),
    ensures
        line_offsets_of(ls.take(i)).len() == i + 1,
        line_offsets_of(ls.take(j)).len() == j + 1,
        forall|k: int| 0 <= k <= i ==> line_offsets_of(ls.take(j))[k] == line_offsets_of(ls.take(i))[k],
        line_offsets_of(ls.take(i)).last() <= line_offsets_of(ls.take(j)).last(),
    decreases j - i,
{
    lemma_offsets_len(ls.take(i));
    lemma_offsets_len(ls.take(j));
    if i < j {
        lemma_offsets_prefix(ls, i, j - 1);
        assert(ls.take(j).drop_last() =~= ls.take(j - 1));
        lemma_offsets_len(ls.take(j - 1));
    }
}

/// There is one offset more than there are lines.
pub proof fn lemma_offsets_len(ls: Seq<Seq<char>>)
    ensures
        line_offsets_of(ls).len() == ls.len() + 1,
    decreases ls.len(),
{
    if ls.len() > 0 {
        lemma_offsets_len(ls.drop_last());
    }
}


/// The non-whitespace characters of a line, with their coordinates on row `y`.
pub open spec fn row_symbols(line: Seq<char>, y: int) -> Seq<(Coordinate, char)>
    decreases line.len(),
{
    if line.len() == 0 {
        Seq::empty()
    } else {
        let prev = row_symbols(line.drop_last(), y);
        if is_whitespace_spec(line.last()) {
            prev
        } else {
            prev.push((Coordinate { x: (line.len() - 1) as isize, y: y as isize }, line.last()))
        }
    }
}

/// The non-whitespace characters of the lines, with their coordinates, row by row.
pub open spec fn symbols_of_lines(lines: Seq<Seq<char>>) -> Seq<(Coordinate, char)>
    decreases lines.len(),
{
    if lines.len() == 0 {
        Seq::empty()
    } else {
        symbols_of_lines(lines.drop_last()) + row_symbols(lines.last(), lines.len() - 1)
    }
}

/// What parsing knows after some symbols: the cells placed, their bounds, the
/// start, how many symbols were refused, and the first refused one.
pub struct ParseModel {
    pub cells: Map<Coordinate, ProgramCell>,
    pub bounds: BoundingBox,
    pub start: Option<Coordinate>,
    pub bad: int,
    pub first_bad: Option<(Coordinate, char)>,
}

/// Whether a symbol is refused: it is not a valid symbol, or it is a second start symbol.
pub open spec fn refused(st: ParseModel, ch: char) -> bool {
    !valid_symbol(ch) || (ch == '@' && st.start is Some)
}

/// One symbol of parsing: a refused symbol is counted, any other is placed.
pub open spec fn parse_step(st: ParseModel, s: (Coordinate, char)) -> ParseModel {
    if refused(st, s.1) {
        ParseModel { bad: st.bad + 1, first_bad: if st.first_bad is Some { st.first_bad } else { Some(s) }, ..st }
    } else {
        ParseModel {
            cells: st.cells.insert(s.0, cell_of(s.1)),
            bounds: box_grow(st.bounds, s.0),
            start: if s.1 == '@' { Some(s.0) } else { st.start },
            ..st
        }
    }
}

/// Parsing a sequence of symbols.
pub open spec fn parse_fold(syms: Seq<(Coordinate, char)>) -> ParseModel
    decreases syms.len(),
{
    if syms.len() == 0 {
        ParseModel { cells: Map::empty(), bounds: empty_box(), start: None, bad: 0, first_bad: None }
    } else {
        parse_step(parse_fold(syms.drop_last()), syms.last())
    }
}

/// Whether some cell holds the start symbol.
pub open spec fn has_start_cell(cells: Map<Coordinate, ProgramCell>) -> bool {
    exists|c: Coordinate| #[trigger] cells.contains_key(c) && cells[c].symbol == '@'
}

/// Whether a grid holds exactly the cells, bounds and start of a parse.
pub open spec fn grid_of(g: ProgramGrid, st: ParseModel) -> bool {
    &&& g.wf()
    &&& g@ == st.cells
    &&& g.spec_bounds() == st.bounds
    &&& g.spec_start() == st.start
}

/// Whether `e` is the error for an invalid character `ch` at `coord`: with the
/// context, suggestions and help when the lines of the source are known.
pub open spec fn invalid_character_error(e: InterpreterError, ch: char, coord: Coordinate, lines: Option<Seq<Seq<char>>>) -> bool {
    &&& e matches InterpreterError::Enhanced { info, source }
    &&& e->source is None
    &&& e->info.message@ == "Invalid character '"@ + seq![ch] + "' found in program"@
    &&& e->info.error_type == ErrorType::Syntax
    &&& e->info.severity == ErrorSeverity::Error
    &&& match lines {
        None => e->info.context is None && e->info.suggestions@.len() == 0 && e->info.help_text is None,
        Some(ls) => {
            &&& e->info.context is Some
            &&& context_for(e->info.context->0, ls, coord)
            &&& string_views(e->info.suggestions@) == seq![
                "Remove the '"@ + seq![ch] + "' character"@,
                "Check the Tubular language specification for valid symbols"@,
                "Common valid symbols include: @, digits 0-9, +, -, *, /, |, -, ^, v, <, >, etc."@,
            ]
            &&& e->info.help_text is Some
            &&& e->info.help_text->0@
                == "Tubular programs can only contain valid symbols from the language specification. Invalid characters will cause parsing to fail."@
        },
    }
}

/// Whether `e` is the error for a program without a start symbol.
pub open spec fn no_start_error(e: InterpreterError) -> bool {
    &&& e matches InterpreterError::Enhanced { info, source }
    &&& e->source is None
    &&& e->info.message@ == "No start symbol (@) found in program"@
    &&& e->info.error_type == ErrorType::Initialization
    &&& e->info.severity == ErrorSeverity::Error
    &&& e->info.context is None
    &&& string_views(e->info.suggestions@) == seq![
        "Add a start symbol '@' to your program"@,
        "The start symbol should be placed where you want execution to begin"@,
    ]
    &&& e->info.help_text is Some
    &&& e->info.help_text->0@
        == "Every Tubular program needs exactly one start symbol '@' to indicate where execution should begin."@
}

/// Whether `e` is the summary error of a parse that collected `n` errors.
pub open spec fn summary_error(e: InterpreterError, n: nat) -> bool {
    &&& e matches InterpreterError::Enhanced { info, source }
    &&& e->source is None
    &&& e->info.message@ == "Found "@ + dec_nat(n) + " parsing errors"@
    &&& e->info.error_type == ErrorType::Syntax
    &&& e->info.severity == ErrorSeverity::Error
    &&& e->info.context is None
    &&& e->info.suggestions@.len() == 0
    &&& e->info.help_text is None
}

/// The outcome of parsing the symbols `syms` of a source whose lines are `lines`
/// (when known): `None` for success, or a description of the error.
pub open spec fn parse_result_ok(
    r: Result<ProgramGrid, InterpreterError>,
    syms: Seq<(Coordinate, char)>,
    collect: bool,
    lines: Option<Seq<Seq<char>>>,
) -> bool {
    let st = parse_fold(syms);
    if collect {
        let n = st.bad + if has_start_cell(st.cells) { 0int } else { 1int };
        if n > 0 {
            r matches Err(e) && summary_error(e, n as nat)
        } else {
            r matches Ok(g) && grid_of(g, st)
        }
    } else {
        match st.first_bad {
            Some((c, ch)) => if !valid_symbol(ch) {
                r matches Err(e) && invalid_character_error(e, ch, c, lines)
            } else {
                r == Err::<ProgramGrid, InterpreterError>(InterpreterError::Initialization(InitError::MultipleStartSymbols))
            },
            None => if !has_start_cell(st.cells) {
                r matches Err(e) && no_start_error(e)
            } else {
                r matches Ok(g) && grid_of(g, st)
            },
        }
    }
}

/// Whether every line is short enough, and there are few enough lines, for
/// coordinates to stay within `COORD_LIMIT`.
pub open spec fn lines_in_range(lines: Seq<Seq<char>>) -> bool {
    &&& lines.len() <= COORD_LIMIT
    &&& forall|i: int| 0 <= i < lines.len() ==> (#[trigger] lines[i]).len() <= COORD_LIMIT
}


/// Reads program text into grids.
pub struct GridParser {
    parse_context: Option<ParseContext>,
    collect_errors: bool,
    errors: Vec<InterpreterError>,
}

/// A string holding `t`.
fn text(t: &str) -> (r: String)
    ensures
        r@ == t@,
{
    String::from_str(t)
}


/// The message of the enhanced error built from an initialization error.
pub open spec fn enhanced_message(error: InitError) -> Seq<char> {
    match error {
        InitError::InvalidCharacter(ch, _) => "Invalid character '"@ + seq![ch] + "' in program"@,
        InitError::GridSizeExceeded(w, h) => "Program grid too large: "@ + dec_nat(w as nat) + "x"@ + dec_nat(
            h as nat,
        ) + " (max 1000x1000)"@,
        _ => "Initialization error: "@ + init_error_text(error),
    }
}

/// The suggestions of the enhanced error built from an initialization error.
pub open spec fn enhanced_suggestions(error: InitError) -> Seq<Seq<char>> {
    match error {
        InitError::InvalidCharacter(ch, _) => seq![
            "Remove the '"@ + seq![ch] + "' character"@,
            "Check the Tubular language specification for valid symbols"@,
        ],
        InitError::GridSizeExceeded(_, _) => seq![
            "Reduce the program size"@,
            "Split the program into smaller modules if possible"@,
        ],
        _ => Seq::empty(),
    }
}

/// The help text of the enhanced error built from an initialization error.
pub open spec fn enhanced_help(error: InitError) -> Seq<char> {
    match error {
        InitError::InvalidCharacter(_, _) => "Only valid Tubular symbols are allowed in the program."@,
        InitError::GridSizeExceeded(_, _) => "The Tubular interpreter has a maximum grid size limit of 1000x1000 characters."@,
        _ => Seq::empty(),
    }
}

/// Whether `r` is the enhanced error built from `error` with `context`.
pub open spec fn enhanced_init_error(r: InterpreterError, error: InitError, context: ErrorContext) -> bool {
    r matches InterpreterError::Enhanced { info, source } && source is None
        && info.error_type == ErrorType::Initialization
        && info.context == Some(context)
        && info.message@ == enhanced_message(error)
        && string_views(info.suggestions@) == enhanced_suggestions(error)
        && (info.help_text matches Some(h) && h@ == enhanced_help(error))
        && info.severity == ErrorSeverity::Error
}

impl GridParser {
    /// Whether errors are collected instead of returned at the first one.
    pub closed spec fn spec_collect(&self) -> bool {
        self.collect_errors
    }

    /// The lines of the source, when the parser knows them.
    pub closed spec fn spec_context_lines(&self) -> Option<Seq<Seq<char>>> {
        match self.parse_context {
            Some(c) => Some(string_views(c.lines@)),
            None => None,
        }
    }

    /// The errors collected so far.
    pub closed spec fn spec_errors(&self) -> Seq<InterpreterError> {
        self.errors@
    }

    /// A parser as handed out: it knows no source and holds no errors.
    pub open spec fn wf(&self) -> bool {
        &&& self.spec_context_lines() is None
        &&& self.spec_errors().len() == 0
    }

    pub fn new() -> (r: Self)
        ensures
            r.wf(),
            !r.spec_collect(),
    {
        GridParser { parse_context: None, collect_errors: false, errors: Vec::new() }
    }

    /// The same parser, collecting errors.
    pub fn with_error_collection(self) -> (r: Self)
        ensures
            r.spec_context_lines() == self.spec_context_lines(),
            r.spec_errors() == self.spec_errors(),
            r.spec_collect(),
    {
        GridParser { collect_errors: true, ..self }
    }

    /// The errors collected.
    pub fn get_errors(&self) -> (r: &[InterpreterError])
        ensures
            r@ == self.spec_errors(),
    {
        self.errors.as_slice()
    }

    /// Forgets the errors collected.
    pub fn clear_errors(&mut self)
        ensures
            final(self).spec_errors().len() == 0,
            final(self).spec_collect() == old(self).spec_collect(),
            final(self).spec_context_lines() == old(self).spec_context_lines(),
    {
        self.errors.clear();
    }

    /// Parses `content`: each non-whitespace character is placed at its column
    /// and line. See `parse_result_ok` for the outcome; errors come with context.
    /// Text with more than `COORD_LIMIT` lines, or a longer line, is refused as
    /// too large, with its width and height (see `parse_string_result`).
    pub fn parse_string(&self, content: &str) -> (r: Result<ProgramGrid, InterpreterError>)
        requires
            self.wf(),
        ensures
            parse_string_result(r, content@, self.spec_collect()),
    {
        if !Self::can_parse(content) {
            let (w, h) = self.get_dimensions(content);
            return Err(InterpreterError::Initialization(InitError::GridSizeExceeded(w, h)));
        }
        let context = ParseContext::new(text("<string>"), content);
        let lines = split_lines(content);
        let rows = rows_of(&lines);
        let mut parser = GridParser { parse_context: Some(context), collect_errors: self.collect_errors, errors: Vec::new() };
        parser.parse_rows(&rows)
    }

    /// Parses the given lines (without source context); more than `COORD_LIMIT`
    /// lines, or a longer line, are refused as too large.
    pub fn parse_lines(&self, lines: &[&str]) -> (r: Result<ProgramGrid, InterpreterError>)
        requires
            self.wf(),
        ensures
            lines_in_range(str_views(lines@)) ==> parse_result_ok(r, symbols_of_lines(str_views(lines@)), self.spec_collect(), None),
            !lines_in_range(str_views(lines@)) ==> r == Err::<ProgramGrid, InterpreterError>(size_error(str_views(lines@))),
    {
        let mut rows: Vec<Vec<char>> = Vec::new();
        let mut i: usize = 0;
        while i < lines.len()
            invariant
                i <= lines@.len(),
                rows@.len() == i,
                forall|k: int| 0 <= k < i ==> (#[trigger] rows@[k])@ == lines@[k]@,
            decreases lines@.len() - i,
        {
            rows.push(chars_of(lines[i]));
            i = i + 1;
        }
        assert(row_views(rows@) =~= str_views(lines@));
        if !rows_in_range(&rows) {
            let (w, h) = rows_size(&rows);
            return Err(InterpreterError::Initialization(InitError::GridSizeExceeded(w, h)));
        }
        let mut parser = GridParser { parse_context: None, collect_errors: self.collect_errors, errors: Vec::new() };
        parser.parse_rows(&rows)
    }

    /// The error for an invalid character, with context when the source is known.
    fn validate_character(&self, ch: char, coord: Coordinate) -> (r: Result<(), InterpreterError>)
        requires
            0 <= coord.x <= COORD_LIMIT,
            0 <= coord.y <= COORD_LIMIT,
            self.spec_context_lines() matches Some(ls) ==> (coord.y as int) < ls.len(),
        ensures
            valid_symbol(ch) ==> r is Ok,
            !valid_symbol(ch) ==> (r matches Err(e) && invalid_character_error(e, ch, coord, self.spec_context_lines())),
    {
        if !ProgramCell::is_valid_symbol(ch) {
            let position = Position::new(coord.y as usize, coord.x as usize, coord);
            let mut message = text("Invalid character '");
            push_char(&mut message, ch);
            push_str(&mut message, "' found in program");
            assert(message@ =~= "Invalid character '"@ + seq![ch] + "' found in program"@);
            let mut error = InterpreterError::enhanced(message, ErrorType::Syntax);
            if let Some(context) = &self.parse_context {
                let error_context = context.create_error_context(position, None);
                let mut first = text("Remove the '");
                push_char(&mut first, ch);
                push_str(&mut first, "' character");
                assert(first@ =~= "Remove the '"@ + seq![ch] + "' character"@);
                let mut suggestions: Vec<String> = Vec::new();
                suggestions.push(first);
                suggestions.push(text("Check the Tubular language specification for valid symbols"));
                suggestions.push(text("Common valid symbols include: @, digits 0-9, +, -, *, /, |, -, ^, v, <, >, etc."));
                let ghost sv = suggestions@;
                error = error.with_context(error_context).with_suggestions(suggestions).with_help(
                    text("Tubular programs can only contain valid symbols from the language specification. Invalid characters will cause parsing to fail."),
                );
                proof {
                    assert(string_views(sv) =~= seq![
                        "Remove the '"@ + seq![ch] + "' character"@,
                        "Check the Tubular language specification for valid symbols"@,
                        "Common valid symbols include: @, digits 0-9, +, -, *, /, |, -, ^, v, <, >, etc."@,
                    ]);
                }
            }
            return Err(error);
        }
        Ok(())
    }

    /// The context for an error at `coord`: from the source when it is known,
    /// otherwise just the position.
    fn create_error_context_for_coord(&self, coord: Coordinate) -> (r: ErrorContext)
        requires
            0 <= coord.x <= COORD_LIMIT,
            0 <= coord.y <= COORD_LIMIT,
            self.spec_context_lines() matches Some(ls) ==> (coord.y as int) < ls.len(),
        ensures
            r.position == position_of(coord),
    {
        let position = Position::new(coord.y as usize, coord.x as usize, coord);
        match &self.parse_context {
            Some(ctx) => ctx.create_error_context(position, None),
            None => ErrorContext::new(position, String::new()),
        }
    }

    /// An initialization error rewritten as an enhanced error with context,
    /// suggestions and help.
    fn enhance_error(&self, error: InitError, context: ErrorContext) -> (r: InterpreterError)
        ensures
            enhanced_init_error(r, error, context),
    {
        let mut message = String::new();
        let mut suggestions: Vec<String> = Vec::new();
        let help: String;
        match error {
            InitError::InvalidCharacter(ch, _) => {
                push_str(&mut message, "Invalid character '");
                push_char(&mut message, ch);
                push_str(&mut message, "' in program");
                let mut first = text("Remove the '");
                push_char(&mut first, ch);
                push_str(&mut first, "' character");
                assert(first@ =~= "Remove the '"@ + seq![ch] + "' character"@);
                suggestions.push(first);
                suggestions.push(text("Check the Tubular language specification for valid symbols"));
                help = text("Only valid Tubular symbols are allowed in the program.");
                proof {
                    assert(string_views(suggestions@) =~= enhanced_suggestions(error));
                    assert(message@ =~= enhanced_message(error));
                }
            },
            InitError::GridSizeExceeded(width, height) => {
                push_str(&mut message, "Program grid too large: ");
                push_nat(&mut message, width as u128);
                push_str(&mut message, "x");
                push_nat(&mut message, height as u128);
                push_str(&mut message, " (max 1000x1000)");
                suggestions.push(text("Reduce the program size"));
                suggestions.push(text("Split the program into smaller modules if possible"));
                help = text("The Tubular interpreter has a maximum grid size limit of 1000x1000 characters.");
                proof {
                    assert(string_views(suggestions@) =~= enhanced_suggestions(error));
                    assert(message@ =~= enhanced_message(error));
                }
            },
            _ => {
                push_str(&mut message, "Initialization error: ");
                error.write_to(&mut message);
                help = String::new();
                proof {
                    assert(string_views(suggestions@) =~= enhanced_suggestions(error));
                    assert(message@ =~= enhanced_message(error));
                }
            },
        }
        let ghost sugg = string_views(suggestions@);
        let ghost help_view = help@;
        let r = InterpreterError::enhanced(message, ErrorType::Initialization).with_context(context).with_suggestions(
            suggestions,
        ).with_help(help);
        proof {
            assert(string_views(r->info.suggestions@) == sugg);
        }
        r
    }

    /// An error from placing a cell, rewritten with context: an initialization
    /// error becomes the enhanced error that `enhance_error` builds; any other
    /// error gets the context attached, as `InterpreterError::with_context` does.
    fn enhance_error_for_interpreter_error(&self, error: InterpreterError, context: ErrorContext) -> (r: InterpreterError)
        ensures
            match error {
                InterpreterError::Initialization(e) => enhanced_init_error(r, e, context),
                InterpreterError::Enhanced { info, source } => r == (InterpreterError::Enhanced {
                    info: ErrorInfo { context: Some(context), ..info },
                    source,
                }),
                _ => r == error,
            },
    {
        match error {
            InterpreterError::Initialization(init_err) => self.enhance_error(init_err, context),
            _ => error.with_context(context),
        }
    }

    /// Places one symbol, or reports (or collects) why it is refused.
    fn place_symbol(&mut self, grid: &mut ProgramGrid, coord: Coordinate, ch: char) -> (r: Result<(), InterpreterError>)
        requires
            old(grid).wf(),
            0 <= coord.x <= COORD_LIMIT,
            0 <= coord.y <= COORD_LIMIT,
            old(self).spec_context_lines() matches Some(ls) ==> (coord.y as int) < ls.len(),
        ensures
            final(grid).wf(),
            final(self).spec_collect() == old(self).spec_collect(),
            final(self).spec_context_lines() == old(self).spec_context_lines(),
            ({
                let st = ParseModel {
                    cells: old(grid)@,
                    bounds: old(grid).spec_bounds(),
                    start: old(grid).spec_start(),
                    bad: 0,
                    first_bad: None,
                };
                let next = parse_step(st, (coord, ch));
                if !refused(st, ch) {
                    &&& r is Ok
                    &&& final(grid)@ == next.cells
                    &&& final(grid).spec_bounds() == next.bounds
                    &&& final(grid).spec_start() == next.start
                    &&& final(self).spec_errors() == old(self).spec_errors()
                } else {
                    &&& *final(grid) == *old(grid)
                    &&& old(self).spec_collect() ==> r is Ok && final(self).spec_errors().len() == old(self).spec_errors().len() + 1
                    &&& !old(self).spec_collect() ==> if !valid_symbol(ch) {
                        (r matches Err(e) && invalid_character_error(e, ch, coord, old(self).spec_context_lines()))
                    } else {
                        r == Err::<(), InterpreterError>(InterpreterError::Initialization(InitError::MultipleStartSymbols))
                    }
                }
            }),
    {
        match self.validate_character(ch, coord) {
            Ok(()) => {
                proof {
                    assert(in_grid_range(coord));
                }
                match grid.add_cell(coord, ch) {
                    Ok(()) => Ok(()),
                    Err(e) => {
                        if self.collect_errors {
                            let context = self.create_error_context_for_coord(coord);
                            let enhanced = self.enhance_error_for_interpreter_error(e, context);
                            self.errors.push(enhanced);
                            Ok(())
                        } else {
                            Err(e)
                        }
                    },
                }
            },
            Err(e) => {
                if self.collect_errors {
                    let context = self.create_error_context_for_coord(coord);
                    let enhanced = e.with_context(context);
                    self.errors.push(enhanced);
                    Ok(())
                } else {
                    Err(e)
                }
            },
        }
    }
}

/// The character sequences of a list of rows.
pub open spec fn row_views(v: Seq<Vec<char>>) -> Seq<Seq<char>> {
    v.map_values(|r: Vec<char>| r@)
}

/// The character sequences of a list of string slices.
pub open spec fn str_views(v: Seq<&str>) -> Seq<Seq<char>> {
    v.map_values(|l: &str| l@)
}

/// The characters of each string.
fn rows_of(lines: &Vec<String>) -> (r: Vec<Vec<char>>)
    ensures
        row_views(r@) == string_views(lines@),
{
    let mut rows: Vec<Vec<char>> = Vec::new();
    let mut i: usize = 0;
    while i < lines.len()
        invariant
            i <= lines@.len(),
            rows@.len() == i,
            forall|k: int| 0 <= k < i ==> (#[trigger] rows@[k])@ == lines@[k]@,
        decreases lines@.len() - i,
    {
        rows.push(chars_of(lines[i].as_str()));
        i = i + 1;
    }
    assert(row_views(rows@) =~= string_views(lines@));
    rows
}


/// Whether `p` is a prefix of `s`.
pub open spec fn is_prefix<T>(p: Seq<T>, s: Seq<T>) -> bool {
    p.len() <= s.len() && s.take(p.len() as int) == p
}

/// A refused symbol stays the first one refused, whatever follows.
proof fn lemma_first_bad_stable(p: Seq<(Coordinate, char)>, s: Seq<(Coordinate, char)>)
    requires
        is_prefix(p, s),
        parse_fold(p).first_bad is Some,
    ensures
        parse_fold(s).first_bad == parse_fold(p).first_bad,
    decreases s.len(),
{
    if s.len() > p.len() {
        assert(s.drop_last().take(p.len() as int) =~= s.take(p.len() as int));
        lemma_first_bad_stable(p, s.drop_last());
    } else {
        assert(s.take(p.len() as int) =~= s);
    }
}

/// Prefixes of prefixes are prefixes.
proof fn lemma_prefix_trans<T>(a: Seq<T>, b: Seq<T>, c: Seq<T>)
    requires
        is_prefix(a, b),
        is_prefix(b, c),
    ensures
        is_prefix(a, c),
{
    assert(c.take(a.len() as int) =~= c.take(b.len() as int).take(a.len() as int));
}

/// The symbols of the first `x` characters of a line come first among its symbols.
proof fn lemma_row_prefix(line: Seq<char>, y: int, x: int)
    requires
        0 <= x <= line.len(),
    ensures
        is_prefix(row_symbols(line.take(x), y), row_symbols(line, y)),
    decreases line.len() - x,
{
    if x < line.len() {
        lemma_row_prefix(line, y, x + 1);
        assert(line.take(x + 1).drop_last() =~= line.take(x));
        let a = row_symbols(line.take(x), y);
        let b = row_symbols(line.take(x + 1), y);
        assert(b.take(a.len() as int) =~= a);
        lemma_prefix_trans(a, b, row_symbols(line, y));
    } else {
        assert(line.take(x) =~= line);
        let r = row_symbols(line, y);
        assert(r.take(r.len() as int) =~= r);
    }
}

/// The symbols of the first `y` lines come first among the symbols of all lines.
proof fn lemma_lines_prefix(lines: Seq<Seq<char>>, y: int)
    requires
        0 <= y <= lines.len(),
    ensures
        is_prefix(symbols_of_lines(lines.take(y)), symbols_of_lines(lines)),
    decreases lines.len() - y,
{
    if y < lines.len() {
        lemma_lines_prefix(lines, y + 1);
        assert(lines.take(y + 1).drop_last() =~= lines.take(y));
        let a = symbols_of_lines(lines.take(y));
        let b = symbols_of_lines(lines.take(y + 1));
        assert(lines.take(y + 1).last() == lines[y]);
        assert(b == a + row_symbols(lines[y], y));
        assert(b.take(a.len() as int) =~= a);
        lemma_prefix_trans(a, b, symbols_of_lines(lines));
    } else {
        assert(lines.take(y) =~= lines);
        let r = symbols_of_lines(lines);
        assert(r.take(r.len() as int) =~= r);
    }
}

/// The symbols read so far: the first `y` lines and `x` characters of line `y`.
pub open spec fn symbols_read(lines: Seq<Seq<char>>, y: int, x: int) -> Seq<(Coordinate, char)> {
    symbols_of_lines(lines.take(y)) + row_symbols(lines[y].take(x), y)
}

/// What has been read is the start of all symbols.
proof fn lemma_read_prefix(lines: Seq<Seq<char>>, y: int, x: int)
    requires
        0 <= y < lines.len(),
        0 <= x <= lines[y].len(),
    ensures
        is_prefix(symbols_read(lines, y, x), symbols_of_lines(lines)),
{
    lemma_row_prefix(lines[y], y, x);
    lemma_lines_prefix(lines, y + 1);
    assert(lines.take(y + 1).drop_last() =~= lines.take(y));
    let a = symbols_read(lines, y, x);
    let b = symbols_of_lines(lines.take(y + 1));
    let head = symbols_of_lines(lines.take(y));
    assert(b == head + row_symbols(lines[y], y));
    assert(b.take(a.len() as int) =~= a);
    lemma_prefix_trans(a, b, symbols_of_lines(lines));
}

impl GridParser {
    /// Reports a program without a start symbol (or collects that error).
    fn validate_start_symbols(&mut self, grid: &ProgramGrid) -> (r: Result<(), InterpreterError>)
        requires
            grid.wf(),
        ensures
            final(self).spec_collect() == old(self).spec_collect(),
            final(self).spec_context_lines() == old(self).spec_context_lines(),
            has_start_cell(grid@) ==> r is Ok && final(self).spec_errors() == old(self).spec_errors(),
            !has_start_cell(grid@) ==> {
                &&& old(self).spec_collect() ==> r is Ok && final(self).spec_errors().len() == old(self).spec_errors().len() + 1
                &&& !old(self).spec_collect() ==> (r matches Err(e) && no_start_error(e))
            },
    {
        let cells = grid.iter();
        proof {
            grid.lemma_wf_facts();
        }
        let mut count: usize = 0;
        let mut i: usize = 0;
        while i < cells.len()
            invariant
                keys_unique(cells@),
                assoc_map(cells@) == grid@,
                grid.wf(),
                i <= cells@.len(),
                count <= 1,
                count == 0 ==> forall|k: int| 0 <= k < i ==> (#[trigger] cells@[k]).1.symbol != '@',
                count == 1 ==> exists|k: int| 0 <= k < i && (#[trigger] cells@[k]).1.symbol == '@',
            decreases cells@.len() - i,
        {
            if cells[i].1.symbol == '@' {
                proof {
                    if count == 1 {
                        let k = choose|k: int| 0 <= k < i && (#[trigger] cells@[k]).1.symbol == '@';
                        lemma_assoc_at(cells@, k);
                        lemma_assoc_at(cells@, i as int);
                        grid.lemma_wf_facts();
                        assert(grid@.contains_key(cells@[k].0));
                        assert(grid@.contains_key(cells@[i as int].0));
                    }
                }
                count = count + 1;
            }
            i = i + 1;
        }
        proof {
            if count == 0 {
                assert forall|c: Coordinate| #[trigger] grid@.contains_key(c) implies grid@[c].symbol != '@' by {
                    let k = assoc_index(cells@, c);
                    lemma_assoc_at(cells@, k);
                }
            } else {
                let k = choose|k: int| 0 <= k < i && (#[trigger] cells@[k]).1.symbol == '@';
                lemma_assoc_at(cells@, k);
                assert(grid@.contains_key(cells@[k].0));
            }
        }
        if count == 0 {
            let mut suggestions: Vec<String> = Vec::new();
            suggestions.push(text("Add a start symbol '@' to your program"));
            suggestions.push(text("The start symbol should be placed where you want execution to begin"));
            let ghost sv = suggestions@;
            let error = InterpreterError::enhanced(text("No start symbol (@) found in program"), ErrorType::Initialization)
                .with_suggestions(suggestions).with_help(
                text("Every Tubular program needs exactly one start symbol '@' to indicate where execution should begin."),
            );
            proof {
                assert(string_views(sv) =~= seq![
                    "Add a start symbol '@' to your program"@,
                    "The start symbol should be placed where you want execution to begin"@,
                ]);
            }
            if self.collect_errors {
                self.errors.push(error);
                return Ok(());
            } else {
                return Err(error);
            }
        }
        Ok(())
    }

    /// Reads the rows into a grid: each non-whitespace character is placed at its
    /// column and row; see `parse_result_ok` for the outcome.
    fn parse_rows(&mut self, rows: &Vec<Vec<char>>) -> (r: Result<ProgramGrid, InterpreterError>)
        requires
            lines_in_range(row_views(rows@)),
            old(self).spec_errors().len() == 0,
            old(self).spec_context_lines() matches Some(ls) ==> ls == row_views(rows@),
        ensures
            parse_result_ok(r, symbols_of_lines(row_views(rows@)), old(self).spec_collect(), old(self).spec_context_lines()),
    {
        let ghost rv = row_views(rows@);
        let ghost all = symbols_of_lines(rv);
        let mut grid = ProgramGrid::new();
        let n = rows.len();
        let mut y: usize = 0;
        proof {
            assert(rv.take(0) =~= Seq::<Seq<char>>::empty());
        }
        while y < n
            invariant
                n == rows@.len(),
                rv == row_views(rows@),
                all == symbols_of_lines(rv),
                y <= n,
                lines_in_range(rv),
                self.spec_collect() == old(self).spec_collect(),
                self.spec_context_lines() == old(self).spec_context_lines(),
                old(self).spec_context_lines() matches Some(ls) ==> ls == rv,
                grid.wf(),
                grid@ == parse_fold(symbols_of_lines(rv.take(y as int))).cells,
                grid.spec_bounds() == parse_fold(symbols_of_lines(rv.take(y as int))).bounds,
                grid.spec_start() == parse_fold(symbols_of_lines(rv.take(y as int))).start,
                self.spec_collect() ==> self.spec_errors().len() == parse_fold(symbols_of_lines(rv.take(y as int))).bad,
                !self.spec_collect() ==> parse_fold(symbols_of_lines(rv.take(y as int))).first_bad is None,
            decreases n - y,
        {
            let line = &rows[y];
            let ghost lv = rv[y as int];
            assert(lv == line@);
            let mut x: usize = 0;
            proof {
                assert(lv.take(0) =~= Seq::<char>::empty());
                assert(symbols_read(rv, y as int, 0) =~= symbols_of_lines(rv.take(y as int)));
            }
            while x < line.len()
                invariant
                    n == rows@.len(),
                    rv == row_views(rows@),
                    all == symbols_of_lines(rv),
                    y < n,
                    x <= line@.len(),
                    lv == rv[y as int],
                    lv == line@,
                    lines_in_range(rv),
                    self.spec_collect() == old(self).spec_collect(),
                    self.spec_context_lines() == old(self).spec_context_lines(),
                    old(self).spec_context_lines() matches Some(ls) ==> ls == rv,
                    grid.wf(),
                    grid@ == parse_fold(symbols_read(rv, y as int, x as int)).cells,
                    grid.spec_bounds() == parse_fold(symbols_read(rv, y as int, x as int)).bounds,
                    grid.spec_start() == parse_fold(symbols_read(rv, y as int, x as int)).start,
                    self.spec_collect() ==> self.spec_errors().len() == parse_fold(symbols_read(rv, y as int, x as int)).bad,
                    !self.spec_collect() ==> parse_fold(symbols_read(rv, y as int, x as int)).first_bad is None,
                decreases line@.len() - x,
            {
                let ch = line[x];
                let ghost before = symbols_read(rv, y as int, x as int);
                proof {
                    assert(lv.take(x + 1).drop_last() =~= lv.take(x as int));
                    assert(lv.take(x + 1).last() == ch);
                    assert(rv[y as int].len() <= COORD_LIMIT);
                }
                if !is_whitespace(ch) {
                    let coord = Coordinate::new(x as isize, y as isize);
                    proof {
                        assert(row_symbols(lv.take(x + 1), y as int) == row_symbols(lv.take(x as int), y as int).push((coord, ch)));
                        assert(symbols_read(rv, y as int, x + 1) =~= before.push((coord, ch)));
                        assert(before.push((coord, ch)).drop_last() =~= before);
                    }
                    let placed = self.place_symbol(&mut grid, coord, ch);
                    if let Err(e) = placed {
                        proof {
                            lemma_read_prefix(rv, y as int, x + 1);
                            lemma_first_bad_stable(symbols_read(rv, y as int, x + 1), all);
                        }
                        return Err(e);
                    }
                } else {
                    proof {
                        assert(symbols_read(rv, y as int, x + 1) =~= before);
                    }
                }
                x = x + 1;
            }
            proof {
                assert(lv.take(x as int) =~= lv);
                assert(rv.take(y + 1).drop_last() =~= rv.take(y as int));
                assert(symbols_of_lines(rv.take(y + 1)) =~= symbols_read(rv, y as int, x as int));
            }
            y = y + 1;
        }
        proof {
            assert(rv.take(n as int) =~= rv);
        }
        let checked = self.validate_start_symbols(&grid);
        if let Err(e) = checked {
            return Err(e);
        }
        if self.collect_errors && self.errors.len() > 0 {
            let count = self.errors.len();
            let mut message = text("Found ");
            push_nat(&mut message, count as u128);
            push_str(&mut message, " parsing errors");
            return Err(InterpreterError::enhanced(message, ErrorType::Syntax).with_severity(ErrorSeverity::Error));
        }
        Ok(grid)
    }
}


/// Symbols moved by `(dx, dy)`.
pub open spec fn shifted(syms: Seq<(Coordinate, char)>, dx: int, dy: int) -> Seq<(Coordinate, char)> {
    syms.map_values(|s: (Coordinate, char)| (Coordinate { x: (s.0.x + dx) as isize, y: (s.0.y + dy) as isize }, s.1))
}

/// What placing symbols one by one gives: the grid's cells, bounds and start,
/// and the first error, after which nothing more is placed.
pub struct PlaceModel {
    pub cells: Map<Coordinate, ProgramCell>,
    pub bounds: BoundingBox,
    pub start: Option<Coordinate>,
    pub error: Option<InitError>,
}

/// Placing one symbol as `ProgramGrid::add_cell` does: a non-ASCII symbol and a
/// second start symbol are errors.
pub open spec fn place_step(st: PlaceModel, s: (Coordinate, char)) -> PlaceModel {
    if st.error is Some {
        st
    } else if (s.1 as u32) >= 128 {
        PlaceModel { error: Some(InitError::InvalidCharacter(s.1, s.0)), ..st }
    } else if s.1 == '@' && st.start is Some {
        PlaceModel { error: Some(InitError::MultipleStartSymbols), ..st }
    } else if !in_grid_range(s.0) {
        PlaceModel {
            error: Some(
                InitError::GridSizeExceeded(
                    capped(box_width(extent_with(st.bounds, s.0))),
                    capped(box_height(extent_with(st.bounds, s.0))),
                ),
            ),
            ..st
        }
    } else {
        PlaceModel {
            cells: st.cells.insert(s.0, cell_of(s.1)),
            bounds: box_grow(st.bounds, s.0),
            start: if s.1 == '@' { Some(s.0) } else { st.start },
            ..st
        }
    }
}

/// Placing a sequence of symbols.
pub open spec fn place_fold(syms: Seq<(Coordinate, char)>) -> PlaceModel
    decreases syms.len(),
{
    if syms.len() == 0 {
        PlaceModel { cells: Map::empty(), bounds: empty_box(), start: None, error: None }
    } else {
        place_step(place_fold(syms.drop_last()), syms.last())
    }
}

/// Whether the lines moved by `(ox, oy)` give every symbol a coordinate that
/// fits in `isize` (line lengths and the number of lines fit in `isize` too).
pub open spec fn origin_fits(lines: Seq<Seq<char>>, ox: int, oy: int) -> bool {
    &&& lines.len() <= isize::MAX
    &&& forall|i: int| 0 <= i < lines.len() ==> (#[trigger] lines[i]).len() <= isize::MAX
    &&& forall|k: int|
        0 <= k < symbols_of_lines(lines).len() ==> ox + (#[trigger] symbols_of_lines(lines)[k]).0.x <= isize::MAX && oy
            + symbols_of_lines(lines)[k].0.y <= isize::MAX
}

/// The coordinates of the characters of a line equal to `symbol`, on row `y`.
pub open spec fn row_positions(line: Seq<char>, y: int, symbol: char) -> Seq<Coordinate>
    decreases line.len(),
{
    if line.len() == 0 {
        Seq::empty()
    } else {
        let prev = row_positions(line.drop_last(), y, symbol);
        if line.last() == symbol {
            prev.push(Coordinate { x: (line.len() - 1) as isize, y: y as isize })
        } else {
            prev
        }
    }
}

/// The coordinates of the characters equal to `symbol`, row by row.
pub open spec fn positions_of(lines: Seq<Seq<char>>, symbol: char) -> Seq<Coordinate>
    decreases lines.len(),
{
    if lines.len() == 0 {
        Seq::empty()
    } else {
        positions_of(lines.drop_last(), symbol) + row_positions(lines.last(), lines.len() - 1, symbol)
    }
}

/// The coordinates of the symbols equal to `symbol`, in order.
pub open spec fn coords_with(syms: Seq<(Coordinate, char)>, symbol: char) -> Seq<Coordinate>
    decreases syms.len(),
{
    if syms.len() == 0 {
        Seq::empty()
    } else {
        coords_with(syms.drop_last(), symbol) + if syms.last().1 == symbol { seq![syms.last().0] } else { Seq::empty() }
    }
}

/// Selecting from joined symbols selects from each part.
proof fn lemma_coords_with_concat(a: Seq<(Coordinate, char)>, b: Seq<(Coordinate, char)>, symbol: char)
    ensures
        coords_with(a + b, symbol) == coords_with(a, symbol) + coords_with(b, symbol),
    decreases b.len(),
{
    if b.len() == 0 {
        assert(a + b =~= a);
        assert(coords_with(a, symbol) + coords_with(b, symbol) =~= coords_with(a, symbol));
    } else {
        assert((a + b).drop_last() =~= a + b.drop_last());
        assert((a + b).last() == b.last());
        lemma_coords_with_concat(a, b.drop_last(), symbol);
        let tail = if b.last().1 == symbol { seq![b.last().0] } else { Seq::<Coordinate>::empty() };
        assert(coords_with(a, symbol) + coords_with(b.drop_last(), symbol) + tail =~= coords_with(a, symbol) + (coords_with(
            b.drop_last(),
            symbol,
        ) + tail));
    }
}

/// In one row, the positions of a symbol that is not whitespace are those of
/// its symbols equal to it.
proof fn lemma_row_positions(line: Seq<char>, y: int, symbol: char)
    requires
        !is_whitespace_spec(symbol),
    ensures
        row_positions(line, y, symbol) == coords_with(row_symbols(line, y), symbol),
    decreases line.len(),
{
    if line.len() > 0 {
        lemma_row_positions(line.drop_last(), y, symbol);
        let prev = row_symbols(line.drop_last(), y);
        if !is_whitespace_spec(line.last()) {
            let s = (Coordinate { x: (line.len() - 1) as isize, y: y as isize }, line.last());
            assert(prev.push(s).drop_last() =~= prev);
            if line.last() == symbol {
                assert(coords_with(prev.push(s), symbol) =~= coords_with(prev, symbol).push(s.0));
            } else {
                assert(coords_with(prev.push(s), symbol) =~= coords_with(prev, symbol));
            }
        }
    }
}

/// `find_symbol` agrees with `extract_symbols`: the positions of a symbol that
/// is not whitespace are the coordinates of the extracted symbols equal to it,
/// in the same order.
pub proof fn law_find_matches_extract(lines: Seq<Seq<char>>, symbol: char)
    requires
        !is_whitespace_spec(symbol),
    ensures
        positions_of(lines, symbol) == coords_with(symbols_of_lines(lines), symbol),
    decreases lines.len(),
{
    if lines.len() > 0 {
        law_find_matches_extract(lines.drop_last(), symbol);
        lemma_row_positions(lines.last(), lines.len() - 1, symbol);
        lemma_coords_with_concat(symbols_of_lines(lines.drop_last()), row_symbols(lines.last(), lines.len() - 1), symbol);
    }
}

/// How many of the symbols are the character `c`.
pub open spec fn symbol_count(syms: Seq<(Coordinate, char)>, c: char) -> nat
    decreases syms.len(),
{
    if syms.len() == 0 {
        0
    } else {
        symbol_count(syms.drop_last(), c) + if syms.last().1 == c { 1nat } else { 0nat }
    }
}

/// How often `c` occurs over all the lines.
pub open spec fn lines_count(lines: Seq<Seq<char>>, c: char) -> nat
    decreases lines.len(),
{
    if lines.len() == 0 {
        0
    } else {
        lines_count(lines.drop_last(), c) + occurrences(lines.last(), c)
    }
}

proof fn lemma_occurrences_concat(a: Seq<char>, b: Seq<char>, c: char)
    ensures
        occurrences(a + b, c) == occurrences(a, c) + occurrences(b, c),
    decreases b.len(),
{
    if b.len() == 0 {
        assert(a + b =~= a);
    } else {
        assert((a + b).drop_last() =~= a + b.drop_last());
        lemma_occurrences_concat(a, b.drop_last(), c);
    }
}

proof fn lemma_symbol_count_concat(a: Seq<(Coordinate, char)>, b: Seq<(Coordinate, char)>, c: char)
    ensures
        symbol_count(a + b, c) == symbol_count(a, c) + symbol_count(b, c),
    decreases b.len(),
{
    if b.len() == 0 {
        assert(a + b =~= a);
    } else {
        assert((a + b).drop_last() =~= a + b.drop_last());
        lemma_symbol_count_concat(a, b.drop_last(), c);
    }
}

proof fn lemma_lines_count_concat(a: Seq<Seq<char>>, b: Seq<Seq<char>>, c: char)
    ensures
        lines_count(a + b, c) == lines_count(a, c) + lines_count(b, c),
    decreases b.len(),
{
    if b.len() == 0 {
        assert(a + b =~= a);
    } else {
        assert((a + b).drop_last() =~= a + b.drop_last());
        lemma_lines_count_concat(a, b.drop_last(), c);
    }
}

/// In one row, the symbols equal to a character that is not whitespace are its occurrences.
proof fn lemma_row_count(line: Seq<char>, y: int, c: char)
    requires
        !is_whitespace_spec(c),
    ensures
        symbol_count(row_symbols(line, y), c) == occurrences(line, c),
    decreases line.len(),
{
    if line.len() > 0 {
        lemma_row_count(line.drop_last(), y, c);
        let prev = row_symbols(line.drop_last(), y);
        if !is_whitespace_spec(line.last()) {
            let s = (Coordinate { x: (line.len() - 1) as isize, y: y as isize }, line.last());
            assert(prev.push(s).drop_last() =~= prev);
        }
    }
}

/// Over the lines, the symbols equal to a character that is not whitespace are its occurrences.
proof fn lemma_lines_symbol_count(lines: Seq<Seq<char>>, c: char)
    requires
        !is_whitespace_spec(c),
    ensures
        symbol_count(symbols_of_lines(lines), c) == lines_count(lines, c),
    decreases lines.len(),
{
    if lines.len() > 0 {
        lemma_lines_symbol_count(lines.drop_last(), c);
        lemma_row_count(lines.last(), lines.len() - 1, c);
        lemma_symbol_count_concat(symbols_of_lines(lines.drop_last()), row_symbols(lines.last(), lines.len() - 1), c);
    }
}

/// Splitting text into lines loses no occurrence of a character that is not whitespace.
proof fn lemma_lines_from_count(s: Seq<char>, start: int, c: char)
    requires
        !is_whitespace_spec(c),
        0 <= start,
    ensures
        start <= s.len() ==> occurrences(s.subrange(start, s.len() as int), c) == lines_count(lines_from(s, start), c),
    decreases s.len() - start,
{
    if start < s.len() {
        let j = nl_index(s, start);
        crate::text::lemma_nl_index_bounds(s, start);
        let whole = s.subrange(start, s.len() as int);
        if j >= s.len() {
            assert(lines_from(s, start) == seq![whole]);
            assert(seq![whole].drop_last() =~= Seq::<Seq<char>>::empty());
            assert(seq![whole].last() == whole);
            assert(lines_count(seq![whole], c) == lines_count(Seq::<Seq<char>>::empty(), c) + occurrences(whole, c));
        } else {
            lemma_lines_from_count(s, j + 1, c);
            let head = s.subrange(start, j);
            let rest = s.subrange(j + 1, s.len() as int);
            assert(whole =~= head + seq!['\n'] + rest);
            lemma_occurrences_concat(head + seq!['\n'], rest, c);
            lemma_occurrences_concat(head, seq!['\n'], c);
            assert(seq!['\n'].drop_last() =~= Seq::<char>::empty());
            if head.len() > 0 && head.last() == '\r' {
                assert(head =~= head.drop_last() + seq!['\r']);
                lemma_occurrences_concat(head.drop_last(), seq!['\r'], c);
                assert(seq!['\r'].drop_last() =~= Seq::<char>::empty());
                assert('\r' != c);
                assert(seq!['\r'].last() == '\r');
                assert(occurrences(Seq::<char>::empty(), c) == 0);
                assert(occurrences(seq!['\r'], c) == occurrences(seq!['\r'].drop_last(), c));
                assert(occurrences(seq!['\r'], c) == 0);
            }
            assert('\n' != c);
            assert(seq!['\n'].last() == '\n');
            assert(occurrences(Seq::<char>::empty(), c) == 0);
            assert(occurrences(seq!['\n'], c) == occurrences(seq!['\n'].drop_last(), c));
            assert(occurrences(seq!['\n'], c) == 0);
            assert(occurrences(whole, c) == occurrences(head, c) + occurrences(rest, c));
            assert(occurrences(strip_cr(head), c) == occurrences(head, c));
            let ls = lines_from(s, start);
            assert(ls == seq![strip_cr(head)] + lines_from(s, j + 1));
            lemma_lines_count_concat(seq![strip_cr(head)], lines_from(s, j + 1), c);
            assert(seq![strip_cr(head)].drop_last() =~= Seq::<Seq<char>>::empty());
            assert(seq![strip_cr(head)].last() == strip_cr(head));
            assert(lines_count(seq![strip_cr(head)], c) == lines_count(Seq::<Seq<char>>::empty(), c) + occurrences(strip_cr(head), c));
        }
    } else if start == s.len() {
        assert(s.subrange(start, s.len() as int) =~= Seq::<char>::empty());
    }
}

/// `count_symbols` agrees with `extract_symbols`: a character that is not
/// whitespace occurs in the text as often as among the extracted symbols.
pub proof fn law_count_matches_extract(content: Seq<char>, c: char)
    requires
        !is_whitespace_spec(c),
    ensures
        occurrences(content, c) == symbol_count(symbols_of_lines(lines_of(content)), c),
{
    lemma_lines_from_count(content, 0, c);
    assert(content.subrange(0, content.len() as int) =~= content);
    lemma_lines_symbol_count(lines_of(content), c);
}

/// The length of the longest line.
pub open spec fn max_line_len(lines: Seq<Seq<char>>) -> int
    decreases lines.len(),
{
    if lines.len() == 0 {
        0
    } else {
        let m = max_line_len(lines.drop_last());
        if lines.last().len() > m { lines.last().len() as int } else { m }
    }
}

/// How many times `c` occurs in `s`.
pub open spec fn occurrences(s: Seq<char>, c: char) -> nat
    decreases s.len(),
{
    if s.len() == 0 {
        0
    } else {
        occurrences(s.drop_last(), c) + if s.last() == c { 1nat } else { 0nat }
    }
}

/// The smallest x (or y, with `vertical`) among symbols, `isize::MAX` for none.
pub open spec fn min_coord(syms: Seq<(Coordinate, char)>, vertical: bool) -> isize
    decreases syms.len(),
{
    if syms.len() == 0 {
        isize::MAX
    } else {
        let m = min_coord(syms.drop_last(), vertical);
        let v = if vertical { syms.last().0.y } else { syms.last().0.x };
        if v < m { v } else { m }
    }
}

/// Whether every symbol is ASCII and the start symbol occurs at most once.
pub open spec fn placeable(syms: Seq<(Coordinate, char)>) -> bool {
    &&& forall|i: int| 0 <= i < syms.len() ==> ((#[trigger] syms[i]).1 as u32) < 128
    &&& forall|i: int, j: int|
        0 <= i < syms.len() && 0 <= j < syms.len() && (#[trigger] syms[i]).1 == '@' && (#[trigger] syms[j]).1 == '@' ==> i == j
}


/// An error stays the first error, whatever is placed after it.
proof fn lemma_place_error_stable(p: Seq<(Coordinate, char)>, s: Seq<(Coordinate, char)>)
    requires
        is_prefix(p, s),
        place_fold(p).error is Some,
    ensures
        place_fold(s).error == place_fold(p).error,
    decreases s.len(),
{
    if s.len() > p.len() {
        assert(s.drop_last().take(p.len() as int) =~= s.take(p.len() as int));
        lemma_place_error_stable(p, s.drop_last());
    } else {
        assert(s.take(p.len() as int) =~= s);
    }
}

/// Moving a prefix is a prefix of the moved sequence.
proof fn lemma_shift_prefix(p: Seq<(Coordinate, char)>, s: Seq<(Coordinate, char)>, dx: int, dy: int)
    requires
        is_prefix(p, s),
    ensures
        is_prefix(shifted(p, dx, dy), shifted(s, dx, dy)),
{
    assert(shifted(s, dx, dy).take(p.len() as int) =~= shifted(p, dx, dy));
}

/// Placing records a start only when a start symbol was placed.
proof fn lemma_place_start(syms: Seq<(Coordinate, char)>)
    ensures
        place_fold(syms).start is Some ==> exists|i: int| 0 <= i < syms.len() && (#[trigger] syms[i]).1 == '@',
    decreases syms.len(),
{
    if syms.len() > 0 {
        lemma_place_start(syms.drop_last());
        if place_fold(syms.drop_last()).start is Some {
            let i = choose|i: int| 0 <= i < syms.drop_last().len() && (#[trigger] syms.drop_last()[i]).1 == '@';
            assert(syms[i] == syms.drop_last()[i]);
        }
    }
}

/// Once a start symbol has been placed without error, a start is recorded.
proof fn lemma_place_start_recorded(syms: Seq<(Coordinate, char)>, i: int)
    requires
        0 <= i < syms.len(),
        syms[i].1 == '@',
        place_fold(syms).error is None,
    ensures
        place_fold(syms).start is Some,
    decreases syms.len(),
{
    let p = syms.drop_last();
    if place_fold(p).error is Some {
        assert(place_fold(syms) == place_step(place_fold(p), syms.last()));
    }
    if i < syms.len() - 1 {
        assert(p[i] == syms[i]);
        lemma_place_start_recorded(p, i);
    }
}

/// Placing symbols one by one succeeds exactly when each is ASCII and within
/// `COORD_LIMIT` of the origin, and at most one is a start symbol `@`.
pub proof fn law_placing_succeeds_iff(syms: Seq<(Coordinate, char)>)
    ensures
        place_fold(syms).error is None <==> (placeable(syms) && forall|i: int|
            0 <= i < syms.len() ==> in_grid_range(#[trigger] syms[i].0)),
    decreases syms.len(),
{
    if placeable(syms) && forall|i: int| 0 <= i < syms.len() ==> in_grid_range(#[trigger] syms[i].0) {
        lemma_placeable_no_error(syms);
    }
    if syms.len() > 0 && place_fold(syms).error is None {
        let p = syms.drop_last();
        let last = syms.len() - 1;
        assert(place_fold(syms) == place_step(place_fold(p), syms.last()));
        assert(place_fold(p).error is None);
        law_placing_succeeds_iff(p);
        assert forall|i: int| 0 <= i < syms.len() implies ((#[trigger] syms[i]).1 as u32) < 128 && in_grid_range(syms[i].0) by {
            if i < last {
                assert(p[i] == syms[i]);
            }
        }
        assert forall|i: int, j: int|
            0 <= i < syms.len() && 0 <= j < syms.len() && (#[trigger] syms[i]).1 == '@' && (#[trigger] syms[j]).1 == '@' implies i == j by {
            if i < last && j < last {
                assert(p[i] == syms[i]);
                assert(p[j] == syms[j]);
            } else if i < last {
                assert(p[i] == syms[i]);
                lemma_place_start_recorded(p, i);
            } else if j < last {
                assert(p[j] == syms[j]);
                lemma_place_start_recorded(p, j);
            }
        }
        assert forall|i: int| 0 <= i < syms.len() implies in_grid_range(#[trigger] syms[i].0) by {
            if i < last {
                assert(p[i] == syms[i]);
            }
        }
    }
}

/// Placeable symbols within range are placed without error.
proof fn lemma_placeable_no_error(syms: Seq<(Coordinate, char)>)
    requires
        placeable(syms),
        forall|i: int| 0 <= i < syms.len() ==> in_grid_range(#[trigger] syms[i].0),
    ensures
        place_fold(syms).error is None,
    decreases syms.len(),
{
    if syms.len() > 0 {
        let p = syms.drop_last();
        assert forall|i: int| 0 <= i < p.len() implies ((#[trigger] p[i]).1 as u32) < 128 by {
            assert(p[i] == syms[i]);
        }
        assert forall|i: int, j: int|
            0 <= i < p.len() && 0 <= j < p.len() && (#[trigger] p[i]).1 == '@' && (#[trigger] p[j]).1 == '@' implies i == j by {
            assert(p[i] == syms[i]);
            assert(p[j] == syms[j]);
        }
        assert forall|i: int| 0 <= i < p.len() implies in_grid_range(#[trigger] p[i].0) by {
            assert(p[i] == syms[i]);
        }
        lemma_placeable_no_error(p);
        lemma_place_start(p);
        assert(in_grid_range(syms[syms.len() - 1].0));
        let last = syms.len() - 1;
        assert((syms[last].1 as u32) < 128);
        if syms.last().1 == '@' && place_fold(p).start is Some {
            let i = choose|i: int| 0 <= i < p.len() && (#[trigger] p[i]).1 == '@';
            assert(syms[i] == p[i]);
        }
    }
}

/// The index of the entry for `ch`, or the length when there is none.
fn find_char(counts: &Vec<(char, usize)>, ch: char) -> (j: usize)
    ensures
        j <= counts@.len(),
        j < counts@.len() ==> counts@[j as int].0 == ch,
        j == counts@.len() ==> !crate::assoc::assoc_has(counts@, ch),
{
    let mut j: usize = 0;
    while j < counts.len() && counts[j].0 != ch
        invariant
            j <= counts@.len(),
            forall|k: int| 0 <= k < j ==> counts@[k].0 != ch,
        decreases counts@.len() - j,
    {
        j = j + 1;
    }
    j
}

/// The lines of a text, as characters.
fn rows_of_content(content: &str) -> (r: Vec<Vec<char>>)
    ensures
        row_views(r@) == lines_of(content@),
{
    let lines = split_lines(content);
    rows_of(&lines)
}

/// The error for text too large to place: its width and height.
pub open spec fn size_error(lines: Seq<Seq<char>>) -> InterpreterError {
    InterpreterError::Initialization(InitError::GridSizeExceeded(max_line_len(lines) as usize, lines.len() as usize))
}

/// What parsing `content` gives: the outcome of placing its symbols when it is
/// within range, and otherwise the error that it is too large.
pub open spec fn parse_string_result(r: Result<ProgramGrid, InterpreterError>, content: Seq<char>, collect: bool) -> bool {
    if offsets_fit(content) && lines_in_range(lines_of(content)) {
        parse_result_ok(r, symbols_of_lines(lines_of(content)), collect, Some(lines_of(content)))
    } else {
        r == Err::<ProgramGrid, InterpreterError>(size_error(lines_of(content)))
    }
}

/// The longest row and the number of rows.
fn rows_size(rows: &Vec<Vec<char>>) -> (r: (usize, usize))
    ensures
        r.0 == max_line_len(row_views(rows@)),
        r.1 == rows@.len(),
{
    let ghost rv = row_views(rows@);
    let mut width: usize = 0;
    let mut i: usize = 0;
    proof {
        assert(rv.take(0) =~= Seq::<Seq<char>>::empty());
    }
    while i < rows.len()
        invariant
            rv == row_views(rows@),
            i <= rows@.len(),
            width == max_line_len(rv.take(i as int)),
        decreases rows@.len() - i,
    {
        proof {
            assert(rv.take(i + 1).drop_last() =~= rv.take(i as int));
            assert(rv.take(i + 1).last() == rows@[i as int]@);
        }
        let len = rows[i].len();
        if len > width {
            width = len;
        }
        i = i + 1;
    }
    assert(rv.take(rows@.len() as int) =~= rv);
    (width, rows.len())
}

/// Whether the rows are few and short enough to place.
fn rows_in_range(rows: &Vec<Vec<char>>) -> (r: bool)
    ensures
        r == lines_in_range(row_views(rows@)),
{
    if rows.len() > COORD_LIMIT as usize {
        return false;
    }
    let mut i: usize = 0;
    while i < rows.len()
        invariant
            i <= rows@.len(),
            forall|k: int| 0 <= k < i ==> (#[trigger] row_views(rows@)[k]).len() <= COORD_LIMIT,
        decreases rows@.len() - i,
    {
        if rows[i].len() > COORD_LIMIT as usize {
            assert(row_views(rows@)[i as int].len() > COORD_LIMIT);
            return false;
        }
        i = i + 1;
    }
    true
}

impl GridParser {
    /// Places the characters of `content` moved by `(origin_x, origin_y)`, as
    /// `ProgramGrid::add_cell` does, without checking symbols; the first refusal
    /// of `add_cell` is the error.
    pub fn parse_with_origin(&self, content: &str, origin_x: isize, origin_y: isize) -> (r: Result<ProgramGrid, InterpreterError>)
        requires
            origin_fits(lines_of(content@), origin_x as int, origin_y as int),
        ensures
            ({
                let st = place_fold(shifted(symbols_of_lines(lines_of(content@)), origin_x as int, origin_y as int));
                match st.error {
                    Some(e) => r == Err::<ProgramGrid, InterpreterError>(InterpreterError::Initialization(e)),
                    None => r matches Ok(g) && g.wf() && g@ == st.cells && g.spec_bounds() == st.bounds
                        && g.spec_start() == st.start,
                }
            }),
    {
        let rows = rows_of_content(content);
        let ghost rv = row_views(rows@);
        let ghost all = shifted(symbols_of_lines(rv), origin_x as int, origin_y as int);
        let mut grid = ProgramGrid::new();
        let n = rows.len();
        let mut y: usize = 0;
        proof {
            assert(rv.take(0) =~= Seq::<Seq<char>>::empty());
            assert(shifted(Seq::<(Coordinate, char)>::empty(), origin_x as int, origin_y as int) =~= Seq::<(Coordinate, char)>::empty());
        }
        while y < n
            invariant
                n == rows@.len(),
                rv == row_views(rows@),
                all == shifted(symbols_of_lines(rv), origin_x as int, origin_y as int),
                rv == lines_of(content@),
                y <= n,
                origin_fits(rv, origin_x as int, origin_y as int),
                grid.wf(),
                place_fold(shifted(symbols_of_lines(rv.take(y as int)), origin_x as int, origin_y as int)).error is None,
                grid@ == place_fold(shifted(symbols_of_lines(rv.take(y as int)), origin_x as int, origin_y as int)).cells,
                grid.spec_bounds() == place_fold(shifted(symbols_of_lines(rv.take(y as int)), origin_x as int, origin_y as int)).bounds,
                grid.spec_start() == place_fold(shifted(symbols_of_lines(rv.take(y as int)), origin_x as int, origin_y as int)).start,
            decreases n - y,
        {
            let line = &rows[y];
            let ghost lv = rv[y as int];
            assert(lv == line@);
            let mut x: usize = 0;
            proof {
                assert(lv.take(0) =~= Seq::<char>::empty());
                assert(symbols_read(rv, y as int, 0) =~= symbols_of_lines(rv.take(y as int)));
            }
            while x < line.len()
                invariant
                    n == rows@.len(),
                    rv == row_views(rows@),
                    all == shifted(symbols_of_lines(rv), origin_x as int, origin_y as int),
                    rv == lines_of(content@),
                    y < n,
                    x <= line@.len(),
                    lv == rv[y as int],
                    lv == line@,
                    origin_fits(rv, origin_x as int, origin_y as int),
                    grid.wf(),
                    place_fold(shifted(symbols_read(rv, y as int, x as int), origin_x as int, origin_y as int)).error is None,
                    grid@ == place_fold(shifted(symbols_read(rv, y as int, x as int), origin_x as int, origin_y as int)).cells,
                    grid.spec_bounds() == place_fold(shifted(symbols_read(rv, y as int, x as int), origin_x as int, origin_y as int)).bounds,
                    grid.spec_start() == place_fold(shifted(symbols_read(rv, y as int, x as int), origin_x as int, origin_y as int)).start,
                decreases line@.len() - x,
            {
                let ch = line[x];
                let ghost before = symbols_read(rv, y as int, x as int);
                proof {
                    assert(lv.take(x + 1).drop_last() =~= lv.take(x as int));
                    assert(lv.take(x + 1).last() == ch);
                }
                if !is_whitespace(ch) {
                    let ghost s0 = (Coordinate { x: x as isize, y: y as isize }, ch);
                    proof {
                        assert(rv[y as int].len() <= isize::MAX);
                        assert(row_symbols(lv.take(x + 1), y as int) == row_symbols(lv.take(x as int), y as int).push(s0));
                        assert(symbols_read(rv, y as int, x + 1) =~= before.push(s0));
                        lemma_read_prefix(rv, y as int, x + 1);
                        let pre = symbols_read(rv, y as int, x + 1);
                        assert(symbols_of_lines(rv).take(pre.len() as int) == pre);
                        assert(symbols_of_lines(rv)[pre.len() - 1] == pre[pre.len() - 1]);
                        assert(origin_x + symbols_of_lines(rv)[pre.len() - 1].0.x <= isize::MAX);
                    }
                    let coord = Coordinate::new(origin_x + x as isize, origin_y + y as isize);
                    proof {
                        let sh = shifted(before.push(s0), origin_x as int, origin_y as int);
                        assert(sh =~= shifted(before, origin_x as int, origin_y as int).push((coord, ch)));
                        assert(sh.drop_last() =~= shifted(before, origin_x as int, origin_y as int));
                        assert(sh.last() == (coord, ch));
                        assert(place_fold(sh) == place_step(place_fold(shifted(before, origin_x as int, origin_y as int)), (coord, ch)));
                    }
                    let added = grid.add_cell(coord, ch);
                    if let Err(e) = added {
                        proof {
                            let sh = shifted(symbols_read(rv, y as int, x + 1), origin_x as int, origin_y as int);
                            assert(place_fold(sh).error == Some(match e {
                                InterpreterError::Initialization(ie) => ie,
                                _ => InitError::NoStartSymbol,
                            }));
                            assert(e is Initialization);
                            lemma_read_prefix(rv, y as int, x + 1);
                            lemma_shift_prefix(symbols_read(rv, y as int, x + 1), symbols_of_lines(rv), origin_x as int, origin_y as int);
                            lemma_place_error_stable(sh, all);
                            assert(place_fold(all).error == place_fold(sh).error);
                            assert(rv == lines_of(content@));
                            assert(all == shifted(symbols_of_lines(lines_of(content@)), origin_x as int, origin_y as int));
                            assert(e == InterpreterError::Initialization(place_fold(all).error->0));
                        }
                        return Err(e);
                    }
                } else {
                    proof {
                        assert(symbols_read(rv, y as int, x + 1) =~= before);
                    }
                }
                x = x + 1;
            }
            proof {
                assert(lv.take(x as int) =~= lv);
                assert(rv.take(y + 1).drop_last() =~= rv.take(y as int));
                assert(symbols_of_lines(rv.take(y + 1)) =~= symbols_read(rv, y as int, x as int));
            }
            y = y + 1;
        }
        proof {
            assert(rv.take(n as int) =~= rv);
        }
        Ok(grid)
    }

    /// The non-whitespace characters of `content` with their coordinates, row by row.
    pub fn extract_symbols(&self, content: &str) -> (r: Vec<(Coordinate, char)>)
        ensures
            r@ == symbols_of_lines(lines_of(content@)),
    {
        let rows = rows_of_content(content);
        let ghost rv = row_views(rows@);
        let mut out: Vec<(Coordinate, char)> = Vec::new();
        let n = rows.len();
        let mut y: usize = 0;
        proof {
            assert(rv.take(0) =~= Seq::<Seq<char>>::empty());
        }
        while y < n
            invariant
                n == rows@.len(),
                rv == row_views(rows@),
                y <= n,
                out@ == symbols_of_lines(rv.take(y as int)),
            decreases n - y,
        {
            let line = &rows[y];
            let ghost lv = rv[y as int];
            assert(lv == line@);
            let mut x: usize = 0;
            proof {
                assert(lv.take(0) =~= Seq::<char>::empty());
                assert(symbols_read(rv, y as int, 0) =~= symbols_of_lines(rv.take(y as int)));
            }
            while x < line.len()
                invariant
                    n == rows@.len(),
                    rv == row_views(rows@),
                    y < n,
                    x <= line@.len(),
                    lv == rv[y as int],
                    lv == line@,
                    out@ == symbols_read(rv, y as int, x as int),
                decreases line@.len() - x,
            {
                let ch = line[x];
                proof {
                    assert(lv.take(x + 1).drop_last() =~= lv.take(x as int));
                    assert(lv.take(x + 1).last() == ch);
                }
                if !is_whitespace(ch) {
                    out.push((Coordinate::new(x as isize, y as isize), ch));
                }
                assert(out@ =~= symbols_read(rv, y as int, x + 1));
                x = x + 1;
            }
            proof {
                assert(lv.take(x as int) =~= lv);
                assert(rv.take(y + 1).drop_last() =~= rv.take(y as int));
                assert(symbols_of_lines(rv.take(y + 1)) =~= symbols_read(rv, y as int, x as int));
            }
            y = y + 1;
        }
        assert(rv.take(n as int) =~= rv);
        out
    }

    /// How often each non-whitespace character occurs in `content`, each character once.
    pub fn count_symbols(&self, content: &str) -> (r: Vec<(char, usize)>)
        ensures
            keys_unique(r@),
            forall|c: char| crate::assoc::assoc_has(r@, c) <==> (!is_whitespace_spec(c) && occurrences(content@, c) > 0),
            forall|i: int| 0 <= i < r@.len() ==> (#[trigger] r@[i]).1 == occurrences(content@, r@[i].0),
    {
        let cs = chars_of(content);
        let mut counts: Vec<(char, usize)> = Vec::new();
        let mut i: usize = 0;
        while i < cs.len()
            invariant
                i <= cs@.len(),
                cs@ == content@,
                keys_unique(counts@),
                forall|c: char| #[trigger] crate::assoc::assoc_has(counts@, c) <==> (!is_whitespace_spec(c) && occurrences(cs@.take(i as int), c) > 0),
                forall|k: int| 0 <= k < counts@.len() ==> (#[trigger] counts@[k]).1 == occurrences(cs@.take(i as int), counts@[k].0),
                forall|k: int| 0 <= k < counts@.len() ==> (#[trigger] counts@[k]).1 <= i,
            decreases cs@.len() - i,
        {
            let ch = cs[i];
            proof {
                assert(cs@.take(i + 1).drop_last() =~= cs@.take(i as int));
                assert(cs@.take(i + 1).last() == ch);
                assert forall|c: char| c != ch implies occurrences(cs@.take(i + 1), c) == occurrences(cs@.take(i as int), c) by {}
                assert(occurrences(cs@.take(i + 1), ch) == occurrences(cs@.take(i as int), ch) + 1);
            }
            let ghost before = counts@;
            let ghost next = cs@.take(i + 1);
            let ghost prev = cs@.take(i as int);
            if !is_whitespace(ch) {
                let j = find_char(&counts, ch);
                if j < counts.len() {
                    let old_count = counts[j].1;
                    counts.set(j, (ch, old_count + 1));
                    proof {
                        assert forall|k: int| 0 <= k < counts@.len() implies (#[trigger] counts@[k]).1 == occurrences(next, counts@[k].0)
                            && counts@[k].1 <= i + 1 by {
                            if k != j {
                                assert(counts@[k] == before[k]);
                                assert(before[k].0 != ch);
                            }
                        }
                        assert forall|a: int, b: int| 0 <= a < counts@.len() && 0 <= b < counts@.len() && a != b implies counts@[a].0 != counts@[b].0 by {
                            assert(counts@[a].0 == before[a].0);
                            assert(counts@[b].0 == before[b].0);
                        }
                        assert forall|c: char| #[trigger] crate::assoc::assoc_has(counts@, c) <==> (!is_whitespace_spec(c) && occurrences(next, c) > 0) by {
                            if crate::assoc::assoc_has(before, c) {
                                let k = choose|k: int| 0 <= k < before.len() && before[k].0 == c;
                                assert(counts@[k].0 == c);
                            }
                            if crate::assoc::assoc_has(counts@, c) {
                                let k = choose|k: int| 0 <= k < counts@.len() && counts@[k].0 == c;
                                assert(before[k].0 == c);
                            }
                            assert(crate::assoc::assoc_has(before, c) <==> (!is_whitespace_spec(c) && occurrences(prev, c) > 0));
                        }
                    }
                } else {
                    counts.push((ch, 1));
                    proof {
                        assert(crate::assoc::assoc_has(before, ch) <==> (!is_whitespace_spec(ch) && occurrences(prev, ch) > 0));
                        assert(occurrences(prev, ch) == 0);
                        assert forall|k: int| 0 <= k < counts@.len() implies (#[trigger] counts@[k]).1 == occurrences(next, counts@[k].0)
                            && counts@[k].1 <= i + 1 by {
                            if k < before.len() {
                                assert(counts@[k] == before[k]);
                                assert(before[k].0 != ch) by {
                                    if before[k].0 == ch {
                                        assert(crate::assoc::assoc_has(before, ch));
                                    }
                                }
                            }
                        }
                        assert forall|a: int, b: int| 0 <= a < counts@.len() && 0 <= b < counts@.len() && a != b implies counts@[a].0 != counts@[b].0 by {
                            if a < before.len() && b < before.len() {
                                assert(counts@[a] == before[a]);
                                assert(counts@[b] == before[b]);
                            } else if a < before.len() {
                                assert(counts@[a] == before[a]);
                                if before[a].0 == ch {
                                    assert(crate::assoc::assoc_has(before, ch));
                                }
                            } else if b < before.len() {
                                assert(counts@[b] == before[b]);
                                if before[b].0 == ch {
                                    assert(crate::assoc::assoc_has(before, ch));
                                }
                            }
                        }
                        assert forall|c: char| #[trigger] crate::assoc::assoc_has(counts@, c) <==> (!is_whitespace_spec(c) && occurrences(next, c) > 0) by {
                            if crate::assoc::assoc_has(before, c) {
                                let k = choose|k: int| 0 <= k < before.len() && before[k].0 == c;
                                assert(counts@[k].0 == c);
                            }
                            if crate::assoc::assoc_has(counts@, c) {
                                let k = choose|k: int| 0 <= k < counts@.len() && counts@[k].0 == c;
                                if k < before.len() {
                                    assert(before[k].0 == c);
                                }
                            }
                            assert(counts@[counts@.len() - 1].0 == ch);
                            assert(crate::assoc::assoc_has(before, c) <==> (!is_whitespace_spec(c) && occurrences(prev, c) > 0));
                        }
                    }
                }
            } else {
                proof {
                    assert forall|k: int| 0 <= k < counts@.len() implies (#[trigger] counts@[k]).1 == occurrences(next, counts@[k].0)
                        && counts@[k].1 <= i + 1 by {
                        if counts@[k].0 == ch {
                            assert(crate::assoc::assoc_has(counts@, ch));
                        }
                    }
                    assert forall|c: char| #[trigger] crate::assoc::assoc_has(counts@, c) <==> (!is_whitespace_spec(c) && occurrences(next, c) > 0) by {
                        assert(crate::assoc::assoc_has(before, c) <==> (!is_whitespace_spec(c) && occurrences(prev, c) > 0));
                    }
                }
            }
            i = i + 1;
        }
        assert(cs@.take(cs@.len() as int) =~= cs@);
        counts
    }

    /// The coordinates of every character equal to `symbol` (whitespace included), row by row.
    pub fn find_symbol(&self, content: &str, symbol: char) -> (r: Vec<Coordinate>)
        ensures
            r@ == positions_of(lines_of(content@), symbol),
    {
        let rows = rows_of_content(content);
        let ghost rv = row_views(rows@);
        let mut out: Vec<Coordinate> = Vec::new();
        let n = rows.len();
        let mut y: usize = 0;
        proof {
            assert(rv.take(0) =~= Seq::<Seq<char>>::empty());
        }
        while y < n
            invariant
                n == rows@.len(),
                rv == row_views(rows@),
                y <= n,
                out@ == positions_of(rv.take(y as int), symbol),
            decreases n - y,
        {
            let line = &rows[y];
            let ghost lv = rv[y as int];
            assert(lv == line@);
            let ghost head = out@;
            let mut x: usize = 0;
            proof {
                assert(lv.take(0) =~= Seq::<char>::empty());
                assert(head + row_positions(lv.take(0), y as int, symbol) =~= head);
            }
            while x < line.len()
                invariant
                    n == rows@.len(),
                    rv == row_views(rows@),
                    y < n,
                    x <= line@.len(),
                    lv == rv[y as int],
                    lv == line@,
                    head == positions_of(rv.take(y as int), symbol),
                    out@ == head + row_positions(lv.take(x as int), y as int, symbol),
                decreases line@.len() - x,
            {
                let ch = line[x];
                proof {
                    assert(lv.take(x + 1).drop_last() =~= lv.take(x as int));
                    assert(lv.take(x + 1).last() == ch);
                }
                if ch == symbol {
                    out.push(Coordinate::new(x as isize, y as isize));
                }
                assert(out@ =~= head + row_positions(lv.take(x + 1), y as int, symbol));
                x = x + 1;
            }
            proof {
                assert(lv.take(x as int) =~= lv);
                assert(rv.take(y + 1).drop_last() =~= rv.take(y as int));
                assert(rv.take(y + 1).last() == lv);
            }
            y = y + 1;
        }
        assert(rv.take(n as int) =~= rv);
        out
    }

    /// `(width, height)`: the length of the longest line, and the number of lines.
    pub fn get_dimensions(&self, content: &str) -> (r: (usize, usize))
        ensures
            r.0 == max_line_len(lines_of(content@)),
            r.1 == lines_of(content@).len(),
    {
        let rows = rows_of_content(content);
        let ghost rv = row_views(rows@);
        let mut width: usize = 0;
        let mut i: usize = 0;
        proof {
            assert(rv.take(0) =~= Seq::<Seq<char>>::empty());
        }
        while i < rows.len()
            invariant
                rv == row_views(rows@),
                i <= rows@.len(),
                width == max_line_len(rv.take(i as int)),
            decreases rows@.len() - i,
        {
            proof {
                assert(rv.take(i + 1).drop_last() =~= rv.take(i as int));
                assert(rv.take(i + 1).last() == rows@[i as int]@);
            }
            let len = rows[i].len();
            if len > width {
                width = len;
            }
            i = i + 1;
        }
        assert(rv.take(rows@.len() as int) =~= rv);
        (width, rows.len())
    }

    /// Places the symbols of `content` moved so that the smallest x and y are
    /// zero, and returns the grid with the amount moved (both `isize::MAX` for
    /// a text without symbols).
    pub fn normalize_coordinates(&self, content: &str) -> (r: (ProgramGrid, Coordinate))
        requires
            lines_in_range(lines_of(content@)),
            placeable(symbols_of_lines(lines_of(content@))),
        ensures
            ({
                let syms = symbols_of_lines(lines_of(content@));
                let mx = min_coord(syms, false);
                let my = min_coord(syms, true);
                let st = place_fold(shifted(syms, -mx, -my));
                &&& r.1 == Coordinate { x: mx, y: my }
                &&& r.0.wf()
                &&& r.0@ == st.cells
                &&& r.0.spec_bounds() == st.bounds
                &&& r.0.spec_start() == st.start
            }),
    {
        let symbols = self.extract_symbols(content);
        let ghost syms = symbols@;
        let mut min_x: isize = isize::MAX;
        let mut min_y: isize = isize::MAX;
        let mut i: usize = 0;
        proof {
            assert(syms.take(0) =~= Seq::<(Coordinate, char)>::empty());
            lemma_symbols_in_range(lines_of(content@));
        }
        while i < symbols.len()
            invariant
                syms == symbols@,
                i <= syms.len(),
                min_x == min_coord(syms.take(i as int), false),
                min_y == min_coord(syms.take(i as int), true),
            decreases syms.len() - i,
        {
            proof {
                assert(syms.take(i + 1).drop_last() =~= syms.take(i as int));
                assert(syms.take(i + 1).last() == syms[i as int]);
            }
            let (c, _) = symbols[i];
            if c.x < min_x {
                min_x = c.x;
            }
            if c.y < min_y {
                min_y = c.y;
            }
            i = i + 1;
        }
        assert(syms.take(syms.len() as int) =~= syms);
        proof {
            lemma_min_coord_bounds(syms);
        }
        let mut grid = ProgramGrid::new();
        let mut k: usize = 0;
        proof {
            assert(shifted(syms, -min_x, -min_y).take(0) =~= Seq::<(Coordinate, char)>::empty());
        }
        while k < symbols.len()
            invariant
                syms == symbols@,
                k <= syms.len(),
                placeable(syms),
                min_x == min_coord(syms, false),
                min_y == min_coord(syms, true),
                forall|j: int| 0 <= j < syms.len() ==> 0 <= (#[trigger] syms[j]).0.x <= COORD_LIMIT && 0 <= syms[j].0.y <= COORD_LIMIT,
                forall|j: int| 0 <= j < syms.len() ==> min_x <= (#[trigger] syms[j]).0.x && min_y <= syms[j].0.y,
                0 <= min_x,
                0 <= min_y,
                grid.wf(),
                place_fold(shifted(syms, -min_x, -min_y).take(k as int)).error is None,
                grid@ == place_fold(shifted(syms, -min_x, -min_y).take(k as int)).cells,
                grid.spec_bounds() == place_fold(shifted(syms, -min_x, -min_y).take(k as int)).bounds,
                grid.spec_start() == place_fold(shifted(syms, -min_x, -min_y).take(k as int)).start,
            decreases syms.len() - k,
        {
            let (c, ch) = symbols[k];
            let ghost sh = shifted(syms, -min_x, -min_y);
            proof {
                let _ = syms[k as int];
                assert(sh.take(k + 1).drop_last() =~= sh.take(k as int));
                assert(sh.take(k + 1).last() == sh[k as int]);
                assert(placeable(sh)) by {
                    assert forall|a: int| 0 <= a < sh.len() implies ((#[trigger] sh[a]).1 as u32) < 128 by {
                        let _ = syms[a];
                    }
                    assert forall|a: int, b: int|
                        0 <= a < sh.len() && 0 <= b < sh.len() && (#[trigger] sh[a]).1 == '@' && (#[trigger] sh[b]).1 == '@' implies a == b by {
                        let _ = syms[a];
                        let _ = syms[b];
                    }
                }
                assert(is_prefix(sh.take(k + 1), sh)) by {
                    assert(sh.take((k + 1) as int) =~= sh.take(sh.take(k + 1).len() as int));
                }
                {
                    let p = sh.take(k + 1);
                    assert forall|a: int| 0 <= a < p.len() implies ((#[trigger] p[a]).1 as u32) < 128 by {
                        assert(p[a] == sh[a]);
                    }
                    assert forall|a: int, b: int|
                        0 <= a < p.len() && 0 <= b < p.len() && (#[trigger] p[a]).1 == '@' && (#[trigger] p[b]).1 == '@' implies a == b by {
                        assert(p[a] == sh[a]);
                        assert(p[b] == sh[b]);
                    }
                    lemma_placeable_no_error(p);
                }
            }
            let coord = Coordinate::new(c.x - min_x, c.y - min_y);
            let added = grid.add_cell(coord, ch);
            k = k + 1;
        }
        proof {
            assert(shifted(syms, -min_x, -min_y).take(syms.len() as int) =~= shifted(syms, -min_x, -min_y));
        }
        (grid, Coordinate::new(min_x, min_y))
    }

    /// Parses `content` and checks that the grid can run.
    pub fn validate_content(&self, content: &str) -> (r: Result<(), InterpreterError>)
        requires
            self.wf(),
        ensures
            exists|p: Result<ProgramGrid, InterpreterError>|
                #[trigger] parse_string_result(p, content@, self.spec_collect())
                    && match p {
                    Err(e) => r == Err::<(), InterpreterError>(e),
                    Ok(g) => (r is Ok <==> g.runnable()) && (r matches Err(e) ==> g.validation_failure(e)),
                },
    {
        let parsed = self.parse_string(content);
        match parsed {
            Err(e) => Err(e),
            Ok(grid) => {
                let v = grid.validate();
                proof {
                    assert(parse_result_ok(Ok::<ProgramGrid, InterpreterError>(grid), symbols_of_lines(lines_of(content@)), self.spec_collect(), Some(lines_of(content@))));
                }
                v
            },
        }
    }
}

/// Symbols of lines within range have coordinates within range.
proof fn lemma_symbols_in_range(lines: Seq<Seq<char>>)
    requires
        lines_in_range(lines),
    ensures
        forall|j: int|
            0 <= j < symbols_of_lines(lines).len() ==> 0 <= (#[trigger] symbols_of_lines(lines)[j]).0.x <= COORD_LIMIT
                && 0 <= symbols_of_lines(lines)[j].0.y <= COORD_LIMIT,
    decreases lines.len(),
{
    if lines.len() > 0 {
        let p = lines.drop_last();
        assert forall|i: int| 0 <= i < p.len() implies (#[trigger] p[i]).len() <= COORD_LIMIT by {
            assert(p[i] == lines[i]);
        }
        lemma_symbols_in_range(p);
        lemma_row_in_range(lines.last(), lines.len() - 1);
        let a = symbols_of_lines(p);
        let b = row_symbols(lines.last(), lines.len() - 1);
        assert forall|j: int| 0 <= j < (a + b).len() implies 0 <= (#[trigger] (a + b)[j]).0.x <= COORD_LIMIT
            && 0 <= (a + b)[j].0.y <= COORD_LIMIT by {
            if j < a.len() {
                assert((a + b)[j] == a[j]);
            } else {
                assert((a + b)[j] == b[j - a.len()]);
            }
        }
    }
}

/// Symbols of a short line on an early row have coordinates within range.
proof fn lemma_row_in_range(line: Seq<char>, y: int)
    requires
        line.len() <= COORD_LIMIT,
        0 <= y < COORD_LIMIT,
    ensures
        forall|j: int|
            0 <= j < row_symbols(line, y).len() ==> (#[trigger] row_symbols(line, y)[j]).0.x == row_symbols(line, y)[j].0.x
                && 0 <= row_symbols(line, y)[j].0.x < line.len() && row_symbols(line, y)[j].0.y == y,
    decreases line.len(),
{
    if line.len() > 0 {
        lemma_row_in_range(line.drop_last(), y);
        let p = row_symbols(line.drop_last(), y);
        assert forall|j: int| 0 <= j < row_symbols(line, y).len() implies 0 <= (#[trigger] row_symbols(line, y)[j]).0.x < line.len()
            && row_symbols(line, y)[j].0.y == y by {
            if j < p.len() {
                assert(row_symbols(line, y)[j] == p[j]);
            }
        }
    }
}

/// The smallest coordinates bound all coordinates, and are not negative when none is.
proof fn lemma_min_coord_bounds(syms: Seq<(Coordinate, char)>)
    ensures
        forall|j: int| 0 <= j < syms.len() ==> min_coord(syms, false) <= (#[trigger] syms[j]).0.x && min_coord(syms, true) <= syms[j].0.y,
        (forall|j: int| 0 <= j < syms.len() ==> 0 <= (#[trigger] syms[j]).0.x && 0 <= syms[j].0.y) ==> 0 <= min_coord(syms, false)
            && 0 <= min_coord(syms, true),
    decreases syms.len(),
{
    if syms.len() > 0 {
        lemma_min_coord_bounds(syms.drop_last());
        if forall|j: int| 0 <= j < syms.len() ==> 0 <= (#[trigger] syms[j]).0.x && 0 <= syms[j].0.y {
            let p = syms.drop_last();
            assert forall|j: int| 0 <= j < p.len() implies 0 <= (#[trigger] p[j]).0.x && 0 <= p[j].0.y by {
                assert(p[j] == syms[j]);
            }
            let _ = syms[syms.len() - 1];
        }
        assert forall|j: int| 0 <= j < syms.len() implies min_coord(syms, false) <= (#[trigger] syms[j]).0.x && min_coord(syms, true) <= syms[j].0.y by {
            if j < syms.len() - 1 {
                assert(syms[j] == syms.drop_last()[j]);
            }
        }
    }
}

impl Default for GridParser {
    fn default() -> (r: Self)
        ensures
            r.wf(),
            !r.spec_collect(),
    {
        GridParser::new()
    }
}


impl GridParser {
    /// Whether `parse_string` can read `content`: its line offsets fit in a
    /// `usize`, and it has at most `COORD_LIMIT` lines of at most `COORD_LIMIT`
    /// characters each.
    pub fn can_parse(content: &str) -> (r: bool)
        ensures
            r == (offsets_fit(content@) && lines_in_range(lines_of(content@))),
    {
        let lines = split_lines(content);
        let ghost ls = lines_of(content@);
        if lines.len() > COORD_LIMIT as usize {
            return false;
        }
        let mut acc: u128 = 0;
        let mut i: usize = 0;
        proof {
            assert(ls.take(0) =~= Seq::<Seq<char>>::empty());
        }
        while i < lines.len()
            invariant
                string_views(lines@) == ls,
                ls == lines_of(content@),
                lines@.len() <= COORD_LIMIT,
                i <= lines@.len(),
                acc == line_offsets_of(ls.take(i as int)).last(),
                acc <= usize::MAX,
                forall|k: int| 0 <= k < i ==> (#[trigger] ls[k]).len() <= COORD_LIMIT,
            decreases lines@.len() - i,
        {
            proof {
                assert(ls.take(i + 1).drop_last() =~= ls.take(i as int));
                assert(ls.take(i + 1).last() == ls[i as int]);
                assert(ls[i as int] == lines@[i as int]@);
            }
            let cs = chars_of(lines[i].as_str());
            if cs.len() > COORD_LIMIT as usize {
                return false;
            }
            let len = lines[i].as_str().len();
            acc = acc + len as u128 + 1;
            if acc > 0xffff_ffff_ffff_ffffu128 || acc > usize::MAX as u128 {
                proof {
                    lemma_offsets_prefix(ls, i + 1, ls.len() as int);
                    assert(ls.take(ls.len() as int) =~= ls);
                }
                return false;
            }
            i = i + 1;
        }
        assert(ls.take(ls.len() as int) =~= ls);
        true
    }
}

} // verus!
