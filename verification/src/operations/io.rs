//! Input and output operators, and the reading of numeric input.
use vstd::prelude::*;
use vstd::utf8::encode_utf8;
use crate::interpreter::droplet::Droplet;
use crate::interpreter::grid::{data_sink_symbol};
use crate::types::error::{InterpreterError, SystemError};
use crate::text::{
    all_digits, ascii_lower_seq, chars_equal_str, chars_of, dec_int, int_to_string, is_digit_spec,
    parse_i64, parse_i64_spec, push_char, push_str, split_lines, string_from_chars, string_views,
    lines_of, to_ascii_lower, trim_chars, trimmed, ascii_lower, int_literal,
};

verus! {

/// Number of bytes of the UTF-8 encoding of a line, as `str::len` reports it.
pub open spec fn utf8_len(l: Seq<char>) -> int {
    (encode_utf8(l).len() as usize) as int
}

/// The line a character read takes from, and the index it reads at: the current
/// line at the current column, or else the next buffered line from its start.
pub open spec fn char_source(lines: Seq<Seq<char>>, cur: Option<Seq<char>>, next: int, col: int) -> Option<(Seq<char>, int)> {
    match cur {
        Some(l) => Some((l, col)),
        None => if 0 <= next < lines.len() { Some((lines[next], 0)) } else { None },
    }
}

/// A buffer of input lines, read whole or one character at a time.
#[derive(Debug, Clone)]
pub struct InputBuffer {
    lines: Vec<String>,
    next_line: usize,
    current_line: Option<String>,
    column: usize,
}

/// How strictly numeric input is read.
#[derive(Debug, Clone, Copy, PartialEq, Eq, Structural)]
pub enum ValidationMode {
    /// Invalid input becomes 0, or the first number found in it.
    Lenient,
    /// Invalid input is an error.
    Strict,
    /// Input is read as a number, a number inside text, or a number word.
    Permissive,
}

impl InputBuffer {
    /// The buffered lines.
    pub closed spec fn spec_lines(&self) -> Seq<Seq<char>> {
        string_views(self.lines@)
    }

    /// The line being read character by character, if any.
    pub closed spec fn spec_current(&self) -> Option<Seq<char>> {
        match self.current_line {
            Some(l) => Some(l@),
            None => None,
        }
    }

    /// The number of buffered lines taken so far.
    pub closed spec fn spec_next_line(&self) -> int {
        self.next_line as int
    }

    /// Where the next character of the current line is read.
    pub closed spec fn spec_column(&self) -> int {
        self.column as int
    }

    /// Where the next character read comes from.
    pub open spec fn spec_char_source(&self) -> Option<(Seq<char>, int)> {
        char_source(self.spec_lines(), self.spec_current(), self.spec_next_line(), self.spec_column())
    }

    /// Whether reading a character is defined: an index that is within the byte
    /// length of the line must also be within its characters.
    pub open spec fn read_char_defined(&self) -> bool {
        match self.spec_char_source() {
            Some((l, q)) => q < utf8_len(l) ==> q < l.len(),
            None => true,
        }
    }

    /// An empty buffer.
    pub fn new() -> (r: Self)
        ensures
            r.spec_lines() == Seq::<Seq<char>>::empty(),
            r.spec_current() is None,
            r.spec_next_line() == 0,
            r.spec_column() == 0,
    {
        let r = InputBuffer { lines: Vec::new(), next_line: 0, current_line: None, column: 0 };
        assert(r.spec_lines() =~= Seq::<Seq<char>>::empty());
        r
    }

    /// A buffer holding the lines of `input`.
    pub fn with_input(input: String) -> (r: Self)
        ensures
            r.spec_lines() == lines_of(input@),
            r.spec_current() is None,
            r.spec_next_line() == 0,
            r.spec_column() == 0,
    {
        let lines = split_lines(input.as_str());
        InputBuffer { lines, next_line: 0, current_line: None, column: 0 }
    }

    /// Reads one character: from the current line, or else from the start of the
    /// next buffered line; an empty line gives a line feed. `None` means that the
    /// buffer is used up, and the character has to come from elsewhere.
    pub fn read_char(&mut self) -> (r: Option<char>)
        requires
            old(self).read_char_defined(),
        ensures
            final(self).spec_lines() == old(self).spec_lines(),
            final(self).spec_next_line() == (if old(self).spec_current() is None && old(self).spec_next_line()
                < old(self).spec_lines().len() {
                old(self).spec_next_line() + 1
            } else {
                old(self).spec_next_line()
            }),
            match old(self).spec_char_source() {
                None => r is None && final(self).spec_current() == old(self).spec_current()
                    && final(self).spec_column() == old(self).spec_column(),
                Some((l, q)) => if q < utf8_len(l) {
                    &&& r == Some(l[q])
                    &&& final(self).spec_current() == (if q + 1 >= utf8_len(l) { None } else { Some(l) })
                    &&& final(self).spec_column() == (if q + 1 >= utf8_len(l) { 0 } else { q + 1 })
                } else {
                    &&& r == Some('\n')
                    &&& final(self).spec_current() is None
                    &&& final(self).spec_column() == 0
                },
            },
    {
        if self.current_line.is_none() {
            if self.next_line < self.lines.len() {
                let line = self.lines[self.next_line].clone();
                self.current_line = Some(line);
                self.next_line = self.next_line + 1;
                self.column = 0;
            } else {
                return None;
            }
        }
        let (blen, ch) = match &self.current_line {
            Some(line) => {
                let blen = line.as_str().len();
                if self.column < blen {
                    (blen, Some(line.as_str().get_char(self.column)))
                } else {
                    (blen, None)
                }
            },
            None => (0, None),
        };
        match ch {
            Some(c) => {
                self.column = self.column + 1;
                if self.column >= blen {
                    self.current_line = None;
                    self.column = 0;
                }
                Some(c)
            },
            None => {
                self.current_line = None;
                self.column = 0;
                Some('\n')
            },
        }
    }

    /// Takes the next buffered line whole; `None` when there is none left.
    pub fn read_line(&mut self) -> (r: Option<String>)
        ensures
            final(self).spec_lines() == old(self).spec_lines(),
            final(self).spec_current() == old(self).spec_current(),
            final(self).spec_column() == old(self).spec_column(),
            old(self).spec_next_line() < old(self).spec_lines().len() ==> {
                &&& r is Some
                &&& r->0@ == old(self).spec_lines()[old(self).spec_next_line()]
                &&& final(self).spec_next_line() == old(self).spec_next_line() + 1
            },
            old(self).spec_next_line() >= old(self).spec_lines().len() ==> r is None
                && final(self).spec_next_line() == old(self).spec_next_line(),
    {
        if self.next_line < self.lines.len() {
            let line = self.lines[self.next_line].clone();
            self.next_line = self.next_line + 1;
            Some(line)
        } else {
            None
        }
    }

    /// The validation mode of buffered input: always lenient.
    pub fn validation_mode(&self) -> (r: ValidationMode)
        ensures
            r == ValidationMode::Lenient,
    {
        ValidationMode::Lenient
    }
}

impl Default for InputBuffer {
    fn default() -> (r: Self)
        ensures
            r.spec_lines() == Seq::<Seq<char>>::empty(),
            r.spec_current() is None,
            r.spec_next_line() == 0,
            r.spec_column() == 0,
    {
        InputBuffer::new()
    }
}

/// Whether `s` is non-empty and all its characters are digits, apart from a
/// leading `-` that more characters follow.
pub open spec fn valid_integer(s: Seq<char>) -> bool {
    &&& s.len() > 0
    &&& all_digits(s.subrange(if s[0] == '-' && s.len() > 1 { 1int } else { 0int }, s.len() as int))
}

/// What the number scanner knows after some characters: the candidate text,
/// whether it holds a digit, whether it took a sign, and whether it stopped.
pub struct ScanState {
    pub text: Seq<char>,
    pub found: bool,
    pub signed: bool,
    pub stopped: bool,
}

/// One step of the number scanner: a `-` starts a candidate when none is under
/// way, digits extend it, and any other character ends a candidate that holds a
/// digit or else discards it.
pub open spec fn scan_step(st: ScanState, ch: char) -> ScanState {
    if st.stopped {
        st
    } else if ch == '-' && st.text.len() == 0 && !st.signed {
        ScanState { text: st.text.push(ch), signed: true, ..st }
    } else if is_digit_spec(ch) {
        ScanState { text: st.text.push(ch), found: true, ..st }
    } else if st.found {
        ScanState { stopped: true, ..st }
    } else {
        ScanState { text: Seq::empty(), found: false, signed: false, stopped: false }
    }
}

/// The scanner's state after reading all of `s`.
pub open spec fn scan(s: Seq<char>) -> ScanState
    decreases s.len(),
{
    if s.len() == 0 {
        ScanState { text: Seq::empty(), found: false, signed: false, stopped: false }
    } else {
        scan_step(scan(s.drop_last()), s.last())
    }
}

/// The first number written in `s` (with a sign directly before it), when it fits in an `i64`.
pub open spec fn extracted_number(s: Seq<char>) -> Option<i64> {
    let st = scan(s);
    if st.found { parse_i64_spec(st.text) } else { None }
}

/// The value of a number word, lowercase.
pub open spec fn word_value(w: Seq<char>) -> Option<i64> {
    if w == "zero"@ || w == "null"@ || w == "nil"@ {
        Some(0)
    } else if w == "one"@ {
        Some(1)
    } else if w == "two"@ {
        Some(2)
    } else if w == "three"@ {
        Some(3)
    } else if w == "four"@ {
        Some(4)
    } else if w == "five"@ {
        Some(5)
    } else if w == "six"@ {
        Some(6)
    } else if w == "seven"@ {
        Some(7)
    } else if w == "eight"@ {
        Some(8)
    } else if w == "nine"@ {
        Some(9)
    } else if w == "ten"@ {
        Some(10)
    } else {
        None
    }
}

/// The number read from `s` by the permissive reading: an `i64` literal, else
/// the first number inside it, else a number word in any case.
pub open spec fn intelligent_number(s: Seq<char>) -> Option<i64> {
    if parse_i64_spec(s) is Some {
        parse_i64_spec(s)
    } else if extracted_number(s) is Some {
        extracted_number(s)
    } else {
        word_value(ascii_lower_seq(s))
    }
}

/// The text a numeric input line becomes under `mode`; `None` where the strict
/// mode refuses it.
pub open spec fn numeric_input_text(input: Seq<char>, mode: ValidationMode) -> Option<Seq<char>> {
    let t = trimmed(input);
    if t.len() == 0 {
        Some("0"@)
    } else {
        match mode {
            ValidationMode::Lenient => if valid_integer(t) {
                Some(t)
            } else {
                match extracted_number(t) {
                    Some(n) => Some(dec_int(n as int)),
                    None => Some("0"@),
                }
            },
            ValidationMode::Strict => if valid_integer(t) { Some(t) } else { None },
            ValidationMode::Permissive => match intelligent_number(t) {
                Some(n) => Some(dec_int(n as int)),
                None => Some("0"@),
            },
        }
    }
}

/// The text output for a character: the character, for ASCII codes 0 through 127;
/// nothing for any other value.
pub open spec fn char_output_text(v: int) -> Seq<char> {
    if 0 <= v <= 127 { seq![v as char] } else { Seq::empty() }
}

/// Input and output operators.
pub struct IoOperations;

impl IoOperations {
    /// Character output (`,`): the droplet's value as an ASCII character, or
    /// nothing when it is not an ASCII code.
    pub fn process_character_output(droplet: &Droplet) -> (r: Result<String, InterpreterError>)
        ensures
            r is Ok,
            r->Ok_0@ == char_output_text(droplet.value@),
    {
        let mut out = String::new();
        if let Some(n) = droplet.value.to_i64() {
            if 0 <= n && n <= 127 {
                let b: u8 = n as u8;
                push_char(&mut out, b as char);
            }
        }
        assert(out@ =~= char_output_text(droplet.value@));
        Ok(out)
    }

    /// Numeric output (`n`): the droplet's value in decimal.
    pub fn process_numeric_output(droplet: &Droplet) -> (r: Result<String, InterpreterError>)
        ensures
            r is Ok,
            r->Ok_0@ == dec_int(droplet.value@),
    {
        Ok(droplet.value.to_decimal_string())
    }

    /// Sink (`!`): no output.
    pub fn process_sink_output() -> (r: Result<String, InterpreterError>)
        ensures
            r is Ok,
            r->Ok_0@ == Seq::<char>::empty(),
    {
        Ok(String::new())
    }

    /// Character input (`?`) from a buffer: the character read, as text; `None`
    /// when the buffer is used up.
    pub fn process_character_input_with_buffer(buffer: &mut InputBuffer) -> (r: Option<String>)
        requires
            old(buffer).read_char_defined(),
        ensures
            final(buffer).spec_lines() == old(buffer).spec_lines(),
            match old(buffer).spec_char_source() {
                None => r is None,
                Some((l, q)) => r is Some && r->0@ == seq![if q < utf8_len(l) { l[q] } else { '\n' }],
            },
    {
        match buffer.read_char() {
            Some(ch) => {
                let mut s = String::new();
                push_char(&mut s, ch);
                assert(s@ =~= seq![ch]);
                Some(s)
            },
            None => None,
        }
    }

    /// Numeric input (`??`) from a buffer: the next line read under `mode`;
    /// `None` when the buffer is used up.
    pub fn process_numeric_input_with_buffer(buffer: &mut InputBuffer, mode: ValidationMode) -> (r: Option<Result<String, InterpreterError>>)
        ensures
            final(buffer).spec_lines() == old(buffer).spec_lines(),
            old(buffer).spec_next_line() < old(buffer).spec_lines().len() ==> r is Some && ({
                let text = numeric_input_text(old(buffer).spec_lines()[old(buffer).spec_next_line()], mode);
                match r->0 {
                    Ok(s) => text == Some(s@),
                    Err(_) => text is None,
                }
            }),
            old(buffer).spec_next_line() >= old(buffer).spec_lines().len() ==> r is None,
    {
        match buffer.read_line() {
            Some(line) => Some(Self::validate_and_parse_numeric(line.as_str(), mode)),
            None => None,
        }
    }

    /// Reads a line of numeric input under `mode`: blank input is `0`; a valid
    /// integer is kept as written; otherwise the lenient mode takes the first
    /// number inside it (or `0`), the strict mode refuses it and the permissive
    /// mode also reads number words.
    pub fn validate_and_parse_numeric(input: &str, mode: ValidationMode) -> (r: Result<String, InterpreterError>)
        ensures
            match numeric_input_text(input@, mode) {
                Some(t) => r is Ok && r->Ok_0@ == t,
                None => r matches Err(InterpreterError::System(SystemError::IoError(m)))
                    && m@ == "Invalid numeric input: '"@ + trimmed(input@) + "'"@,
            },
    {
        let cs = chars_of(input);
        let t = trim_chars(cs.as_slice());
        if t.len() == 0 {
            return Ok(String::from_str("0"));
        }
        match mode {
            ValidationMode::Lenient => {
                if Self::is_valid_integer_chars(t.as_slice()) {
                    Ok(string_from_chars(t.as_slice()))
                } else {
                    match Self::extract_number_chars(t.as_slice()) {
                        Some(n) => Ok(int_to_string(n as i128)),
                        None => Ok(String::from_str("0")),
                    }
                }
            },
            ValidationMode::Strict => {
                if Self::is_valid_integer_chars(t.as_slice()) {
                    Ok(string_from_chars(t.as_slice()))
                } else {
                    let mut m = String::from_str("Invalid numeric input: '");
                    let ts = string_from_chars(t.as_slice());
                    push_str(&mut m, ts.as_str());
                    push_str(&mut m, "'");
                    Err(InterpreterError::System(SystemError::IoError(m)))
                }
            },
            ValidationMode::Permissive => {
                match Self::parse_intelligently_chars(t.as_slice()) {
                    Some(n) => Ok(int_to_string(n as i128)),
                    None => Ok(String::from_str("0")),
                }
            },
        }
    }

    /// Whether `s` is a non-empty run of digits, with a leading `-` allowed before at least one more character.
    pub fn is_valid_integer(s: &str) -> (r: bool)
        ensures
            r == valid_integer(s@),
    {
        let cs = chars_of(s);
        Self::is_valid_integer_chars(cs.as_slice())
    }

    fn is_valid_integer_chars(s: &[char]) -> (r: bool)
        ensures
            r == valid_integer(s@),
    {
        if s.len() == 0 {
            return false;
        }
        let start: usize = if s[0] == '-' && s.len() > 1 { 1 } else { 0 };
        let mut i: usize = start;
        while i < s.len()
            invariant
                start <= i <= s@.len(),
                s@.len() > 0,
                start == (if s@[0] == '-' && s@.len() > 1 { 1int } else { 0int }),
                forall|k: int| start <= k < i ==> is_digit_spec(#[trigger] s@[k]),
            decreases s@.len() - i,
        {
            if !('0' <= s[i] && s[i] <= '9') {
                assert(s@.subrange(start as int, s@.len() as int)[i - start] == s@[i as int]);
                return false;
            }
            i = i + 1;
        }
        assert forall|k: int| 0 <= k < s@.len() - start implies is_digit_spec(#[trigger] s@.subrange(start as int, s@.len() as int)[k]) by {
            assert(s@.subrange(start as int, s@.len() as int)[k] == s@[k + start]);
        }
        true
    }

    /// The first number in `s`, with a `-` directly before it taken as its sign.
    pub fn extract_number(s: &str) -> (r: Option<i64>)
        ensures
            r == extracted_number(s@),
    {
        let cs = chars_of(s);
        Self::extract_number_chars(cs.as_slice())
    }

    fn extract_number_chars(s: &[char]) -> (r: Option<i64>)
        ensures
            r == extracted_number(s@),
    {
        let mut text: Vec<char> = Vec::new();
        let mut found = false;
        let mut signed = false;
        let mut stopped = false;
        let mut i: usize = 0;
        while i < s.len() && !stopped
            invariant
                i <= s@.len(),
                scan(s@.take(i as int)) == (ScanState { text: text@, found, signed, stopped }),
            decreases s@.len() - i,
        {
            let ch = s[i];
            proof {
                assert(s@.take(i + 1).drop_last() =~= s@.take(i as int));
                assert(s@.take(i + 1).last() == ch);
            }
            if ch == '-' && text.len() == 0 && !signed {
                text.push(ch);
                signed = true;
            } else if '0' <= ch && ch <= '9' {
                text.push(ch);
                found = true;
            } else if found {
                stopped = true;
            } else {
                text = Vec::new();
                signed = false;
                assert(text@ =~= Seq::<char>::empty());
            }
            i = i + 1;
        }
        proof {
            if stopped {
                lemma_scan_stopped(s@, i as int);
            } else {
                assert(s@.take(i as int) =~= s@);
            }
        }
        if found {
            parse_i64(text.as_slice())
        } else {
            None
        }
    }

    /// Reads `s` as a number: an `i64` literal, else the first number inside it,
    /// else one of the words zero (or null, nil) through ten in any case.
    pub fn parse_intelligently(s: &str) -> (r: Option<i64>)
        ensures
            r == intelligent_number(s@),
    {
        let cs = chars_of(s);
        Self::parse_intelligently_chars(cs.as_slice())
    }

    fn parse_intelligently_chars(s: &[char]) -> (r: Option<i64>)
        ensures
            r == intelligent_number(s@),
    {
        if let Some(n) = parse_i64(s) {
            return Some(n);
        }
        if let Some(n) = Self::extract_number_chars(s) {
            return Some(n);
        }
        let w = to_ascii_lower(s);
        let w = w.as_slice();
        if chars_equal_str(w, "zero") || chars_equal_str(w, "null") || chars_equal_str(w, "nil") {
            Some(0)
        } else if chars_equal_str(w, "one") {
            Some(1)
        } else if chars_equal_str(w, "two") {
            Some(2)
        } else if chars_equal_str(w, "three") {
            Some(3)
        } else if chars_equal_str(w, "four") {
            Some(4)
        } else if chars_equal_str(w, "five") {
            Some(5)
        } else if chars_equal_str(w, "six") {
            Some(6)
        } else if chars_equal_str(w, "seven") {
            Some(7)
        } else if chars_equal_str(w, "eight") {
            Some(8)
        } else if chars_equal_str(w, "nine") {
            Some(9)
        } else if chars_equal_str(w, "ten") {
            Some(10)
        } else {
            None
        }
    }

    /// Whether `symbol` is an input or output operator.
    pub fn is_io_operation(symbol: char) -> (r: bool)
        ensures
            r == (symbol == ',' || symbol == 'n' || symbol == '!' || symbol == '?'),
    {
        symbol == ',' || symbol == 'n' || symbol == '!' || symbol == '?'
    }

    /// Whether `symbol` reads input.
    pub fn is_data_source(symbol: char) -> (r: bool)
        ensures
            r == (symbol == '?'),
    {
        symbol == '?'
    }

    /// Whether `symbol` consumes a droplet's value.
    pub fn is_data_sink(symbol: char) -> (r: bool)
        ensures
            r == data_sink_symbol(symbol),
    {
        symbol == ',' || symbol == 'n' || symbol == '!'
    }
}

/// A text without digits holds no number: it is no `i64` literal and the scanner
/// finds no digit in it.
proof fn lemma_no_digits_no_number(s: Seq<char>)
    requires
        forall|i: int| 0 <= i < s.len() ==> !is_digit_spec(#[trigger] s[i]),
    ensures
        parse_i64_spec(s) is None,
        !scan(s).found,
    decreases s.len(),
{
    if s.len() > 0 {
        assert(!all_digits(s)) by {
            assert(!is_digit_spec(s[0]));
        }
        if s[0] == '-' || s[0] == '+' {
            let t = s.drop_first();
            if t.len() > 0 {
                assert(!is_digit_spec(t[0])) by {
                    assert(t[0] == s[1]);
                }
                assert(!all_digits(t));
            }
        }
        assert(int_literal(s) is None);
        assert forall|i: int| 0 <= i < s.drop_last().len() implies !is_digit_spec(#[trigger] s.drop_last()[i]) by {
            assert(s.drop_last()[i] == s[i]);
        }
        lemma_no_digits_no_number(s.drop_last());
        assert(!is_digit_spec(s.last()));
    }
}

/// A text whose ASCII lowercase has no digit is read as that lowercase word.
proof fn lemma_word_reads_as_word(s: Seq<char>)
    requires
        forall|i: int| 0 <= i < s.len() ==> !is_digit_spec(#[trigger] ascii_lower_seq(s)[i]),
    ensures
        intelligent_number(s) == word_value(ascii_lower_seq(s)),
{
    assert forall|i: int| 0 <= i < s.len() implies !is_digit_spec(#[trigger] s[i]) by {
        assert(ascii_lower_seq(s)[i] == ascii_lower(s[i]));
        assert(!is_digit_spec(ascii_lower_seq(s)[i]));
    }
    lemma_no_digits_no_number(s);
}

/// The permissive reading knows the number words: a text that is, in any case,
/// `zero`, `null` or `nil` reads as 0, and `one` through `ten` read as 1 through 10.
pub proof fn law_number_words(s: Seq<char>)
    ensures
        ascii_lower_seq(s) == "zero"@ ==> intelligent_number(s) == Some(0i64),
        ascii_lower_seq(s) == "null"@ ==> intelligent_number(s) == Some(0i64),
        ascii_lower_seq(s) == "nil"@ ==> intelligent_number(s) == Some(0i64),
        ascii_lower_seq(s) == "one"@ ==> intelligent_number(s) == Some(1i64),
        ascii_lower_seq(s) == "two"@ ==> intelligent_number(s) == Some(2i64),
        ascii_lower_seq(s) == "three"@ ==> intelligent_number(s) == Some(3i64),
        ascii_lower_seq(s) == "four"@ ==> intelligent_number(s) == Some(4i64),
        ascii_lower_seq(s) == "five"@ ==> intelligent_number(s) == Some(5i64),
        ascii_lower_seq(s) == "six"@ ==> intelligent_number(s) == Some(6i64),
        ascii_lower_seq(s) == "seven"@ ==> intelligent_number(s) == Some(7i64),
        ascii_lower_seq(s) == "eight"@ ==> intelligent_number(s) == Some(8i64),
        ascii_lower_seq(s) == "nine"@ ==> intelligent_number(s) == Some(9i64),
        ascii_lower_seq(s) == "ten"@ ==> intelligent_number(s) == Some(10i64),
{
    reveal_strlit("zero");
    reveal_strlit("null");
    reveal_strlit("nil");
    reveal_strlit("one");
    reveal_strlit("two");
    reveal_strlit("three");
    reveal_strlit("four");
    reveal_strlit("five");
    reveal_strlit("six");
    reveal_strlit("seven");
    reveal_strlit("eight");
    reveal_strlit("nine");
    reveal_strlit("ten");
    if ascii_lower_seq(s) == "zero"@ {
        reveal_strlit("zero");
        assert forall|i: int| 0 <= i < s.len() implies !is_digit_spec(#[trigger] ascii_lower_seq(s)[i]) by {
            assert(ascii_lower_seq(s).len() == s.len());
            assert(ascii_lower_seq(s)[i] == "zero"@[i]);
            assert(0 <= i < 4);
            if i == 0 { assert("zero"@[0] == 'z'); } if i == 1 { assert("zero"@[1] == 'e'); } if i == 2 { assert("zero"@[2] == 'r'); } if i == 3 { assert("zero"@[3] == 'o'); }
        }
        lemma_word_reads_as_word(s);
    }
    if ascii_lower_seq(s) == "null"@ {
        reveal_strlit("null");
        assert forall|i: int| 0 <= i < s.len() implies !is_digit_spec(#[trigger] ascii_lower_seq(s)[i]) by {
            assert(ascii_lower_seq(s).len() == s.len());
            assert(ascii_lower_seq(s)[i] == "null"@[i]);
            assert(0 <= i < 4);
            if i == 0 { assert("null"@[0] == 'n'); } if i == 1 { assert("null"@[1] == 'u'); } if i == 2 { assert("null"@[2] == 'l'); } if i == 3 { assert("null"@[3] == 'l'); }
        }
        lemma_word_reads_as_word(s);
        reveal_strlit("zero");
        assert("null"@[0] != "zero"@[0]);
        assert("null"@ != "zero"@);
    }
    if ascii_lower_seq(s) == "nil"@ {
        reveal_strlit("nil");
        assert forall|i: int| 0 <= i < s.len() implies !is_digit_spec(#[trigger] ascii_lower_seq(s)[i]) by {
            assert(ascii_lower_seq(s).len() == s.len());
            assert(ascii_lower_seq(s)[i] == "nil"@[i]);
            assert(0 <= i < 3);
            if i == 0 { assert("nil"@[0] == 'n'); } if i == 1 { assert("nil"@[1] == 'i'); } if i == 2 { assert("nil"@[2] == 'l'); }
        }
        lemma_word_reads_as_word(s);
        reveal_strlit("zero");
        assert("nil"@.len() != "zero"@.len());
        assert("nil"@ != "zero"@);
        reveal_strlit("null");
        assert("nil"@.len() != "null"@.len());
        assert("nil"@ != "null"@);
    }
    if ascii_lower_seq(s) == "one"@ {
        reveal_strlit("one");
        assert forall|i: int| 0 <= i < s.len() implies !is_digit_spec(#[trigger] ascii_lower_seq(s)[i]) by {
            assert(ascii_lower_seq(s).len() == s.len());
            assert(ascii_lower_seq(s)[i] == "one"@[i]);
            assert(0 <= i < 3);
            if i == 0 { assert("one"@[0] == 'o'); } if i == 1 { assert("one"@[1] == 'n'); } if i == 2 { assert("one"@[2] == 'e'); }
        }
        lemma_word_reads_as_word(s);
        reveal_strlit("zero");
        assert("one"@.len() != "zero"@.len());
        assert("one"@ != "zero"@);
        reveal_strlit("null");
        assert("one"@.len() != "null"@.len());
        assert("one"@ != "null"@);
        reveal_strlit("nil");
        assert("one"@[0] != "nil"@[0]);
        assert("one"@ != "nil"@);
    }
    if ascii_lower_seq(s) == "two"@ {
        reveal_strlit("two");
        assert forall|i: int| 0 <= i < s.len() implies !is_digit_spec(#[trigger] ascii_lower_seq(s)[i]) by {
            assert(ascii_lower_seq(s).len() == s.len());
            assert(ascii_lower_seq(s)[i] == "two"@[i]);
            assert(0 <= i < 3);
            if i == 0 { assert("two"@[0] == 't'); } if i == 1 { assert("two"@[1] == 'w'); } if i == 2 { assert("two"@[2] == 'o'); }
        }
        lemma_word_reads_as_word(s);
        reveal_strlit("zero");
        assert("two"@.len() != "zero"@.len());
        assert("two"@ != "zero"@);
        reveal_strlit("null");
        assert("two"@.len() != "null"@.len());
        assert("two"@ != "null"@);
        reveal_strlit("nil");
        assert("two"@[0] != "nil"@[0]);
        assert("two"@ != "nil"@);
        reveal_strlit("one");
        assert("two"@[0] != "one"@[0]);
        assert("two"@ != "one"@);
    }
    if ascii_lower_seq(s) == "three"@ {
        reveal_strlit("three");
        assert forall|i: int| 0 <= i < s.len() implies !is_digit_spec(#[trigger] ascii_lower_seq(s)[i]) by {
            assert(ascii_lower_seq(s).len() == s.len());
            assert(ascii_lower_seq(s)[i] == "three"@[i]);
            assert(0 <= i < 5);
            if i == 0 { assert("three"@[0] == 't'); } if i == 1 { assert("three"@[1] == 'h'); } if i == 2 { assert("three"@[2] == 'r'); } if i == 3 { assert("three"@[3] == 'e'); } if i == 4 { assert("three"@[4] == 'e'); }
        }
        lemma_word_reads_as_word(s);
        reveal_strlit("zero");
        assert("three"@.len() != "zero"@.len());
        assert("three"@ != "zero"@);
        reveal_strlit("null");
        assert("three"@.len() != "null"@.len());
        assert("three"@ != "null"@);
        reveal_strlit("nil");
        assert("three"@.len() != "nil"@.len());
        assert("three"@ != "nil"@);
        reveal_strlit("one");
        assert("three"@.len() != "one"@.len());
        assert("three"@ != "one"@);
        reveal_strlit("two");
        assert("three"@.len() != "two"@.len());
        assert("three"@ != "two"@);
    }
    if ascii_lower_seq(s) == "four"@ {
        reveal_strlit("four");
        assert forall|i: int| 0 <= i < s.len() implies !is_digit_spec(#[trigger] ascii_lower_seq(s)[i]) by {
            assert(ascii_lower_seq(s).len() == s.len());
            assert(ascii_lower_seq(s)[i] == "four"@[i]);
            assert(0 <= i < 4);
            if i == 0 { assert("four"@[0] == 'f'); } if i == 1 { assert("four"@[1] == 'o'); } if i == 2 { assert("four"@[2] == 'u'); } if i == 3 { assert("four"@[3] == 'r'); }
        }
        lemma_word_reads_as_word(s);
        reveal_strlit("zero");
        assert("four"@[0] != "zero"@[0]);
        assert("four"@ != "zero"@);
        reveal_strlit("null");
        assert("four"@[0] != "null"@[0]);
        assert("four"@ != "null"@);
        reveal_strlit("nil");
        assert("four"@.len() != "nil"@.len());
        assert("four"@ != "nil"@);
        reveal_strlit("one");
        assert("four"@.len() != "one"@.len());
        assert("four"@ != "one"@);
        reveal_strlit("two");
        assert("four"@.len() != "two"@.len());
        assert("four"@ != "two"@);
        reveal_strlit("three");
        assert("four"@.len() != "three"@.len());
        assert("four"@ != "three"@);
    }
    if ascii_lower_seq(s) == "five"@ {
        reveal_strlit("five");
        assert forall|i: int| 0 <= i < s.len() implies !is_digit_spec(#[trigger] ascii_lower_seq(s)[i]) by {
            assert(ascii_lower_seq(s).len() == s.len());
            assert(ascii_lower_seq(s)[i] == "five"@[i]);
            assert(0 <= i < 4);
            if i == 0 { assert("five"@[0] == 'f'); } if i == 1 { assert("five"@[1] == 'i'); } if i == 2 { assert("five"@[2] == 'v'); } if i == 3 { assert("five"@[3] == 'e'); }
        }
        lemma_word_reads_as_word(s);
        reveal_strlit("zero");
        assert("five"@[0] != "zero"@[0]);
        assert("five"@ != "zero"@);
        reveal_strlit("null");
        assert("five"@[0] != "null"@[0]);
        assert("five"@ != "null"@);
        reveal_strlit("nil");
        assert("five"@.len() != "nil"@.len());
        assert("five"@ != "nil"@);
        reveal_strlit("one");
        assert("five"@.len() != "one"@.len());
        assert("five"@ != "one"@);
        reveal_strlit("two");
        assert("five"@.len() != "two"@.len());
        assert("five"@ != "two"@);
        reveal_strlit("three");
        assert("five"@.len() != "three"@.len());
        assert("five"@ != "three"@);
        reveal_strlit("four");
        assert("five"@[1] != "four"@[1]);
        assert("five"@ != "four"@);
    }
    if ascii_lower_seq(s) == "six"@ {
        reveal_strlit("six");
        assert forall|i: int| 0 <= i < s.len() implies !is_digit_spec(#[trigger] ascii_lower_seq(s)[i]) by {
            assert(ascii_lower_seq(s).len() == s.len());
            assert(ascii_lower_seq(s)[i] == "six"@[i]);
            assert(0 <= i < 3);
            if i == 0 { assert("six"@[0] == 's'); } if i == 1 { assert("six"@[1] == 'i'); } if i == 2 { assert("six"@[2] == 'x'); }
        }
        lemma_word_reads_as_word(s);
        reveal_strlit("zero");
        assert("six"@.len() != "zero"@.len());
        assert("six"@ != "zero"@);
        reveal_strlit("null");
        assert("six"@.len() != "null"@.len());
        assert("six"@ != "null"@);
        reveal_strlit("nil");
        assert("six"@[0] != "nil"@[0]);
        assert("six"@ != "nil"@);
        reveal_strlit("one");
        assert("six"@[0] != "one"@[0]);
        assert("six"@ != "one"@);
        reveal_strlit("two");
        assert("six"@[0] != "two"@[0]);
        assert("six"@ != "two"@);
        reveal_strlit("three");
        assert("six"@.len() != "three"@.len());
        assert("six"@ != "three"@);
        reveal_strlit("four");
        assert("six"@.len() != "four"@.len());
        assert("six"@ != "four"@);
        reveal_strlit("five");
        assert("six"@.len() != "five"@.len());
        assert("six"@ != "five"@);
    }
    if ascii_lower_seq(s) == "seven"@ {
        reveal_strlit("seven");
        assert forall|i: int| 0 <= i < s.len() implies !is_digit_spec(#[trigger] ascii_lower_seq(s)[i]) by {
            assert(ascii_lower_seq(s).len() == s.len());
            assert(ascii_lower_seq(s)[i] == "seven"@[i]);
            assert(0 <= i < 5);
            if i == 0 { assert("seven"@[0] == 's'); } if i == 1 { assert("seven"@[1] == 'e'); } if i == 2 { assert("seven"@[2] == 'v'); } if i == 3 { assert("seven"@[3] == 'e'); } if i == 4 { assert("seven"@[4] == 'n'); }
        }
        lemma_word_reads_as_word(s);
        reveal_strlit("zero");
        assert("seven"@.len() != "zero"@.len());
        assert("seven"@ != "zero"@);
        reveal_strlit("null");
        assert("seven"@.len() != "null"@.len());
        assert("seven"@ != "null"@);
        reveal_strlit("nil");
        assert("seven"@.len() != "nil"@.len());
        assert("seven"@ != "nil"@);
        reveal_strlit("one");
        assert("seven"@.len() != "one"@.len());
        assert("seven"@ != "one"@);
        reveal_strlit("two");
        assert("seven"@.len() != "two"@.len());
        assert("seven"@ != "two"@);
        reveal_strlit("three");
        assert("seven"@[0] != "three"@[0]);
        assert("seven"@ != "three"@);
        reveal_strlit("four");
        assert("seven"@.len() != "four"@.len());
        assert("seven"@ != "four"@);
        reveal_strlit("five");
        assert("seven"@.len() != "five"@.len());
        assert("seven"@ != "five"@);
        reveal_strlit("six");
        assert("seven"@.len() != "six"@.len());
        assert("seven"@ != "six"@);
    }
    if ascii_lower_seq(s) == "eight"@ {
        reveal_strlit("eight");
        assert forall|i: int| 0 <= i < s.len() implies !is_digit_spec(#[trigger] ascii_lower_seq(s)[i]) by {
            assert(ascii_lower_seq(s).len() == s.len());
            assert(ascii_lower_seq(s)[i] == "eight"@[i]);
            assert(0 <= i < 5);
            if i == 0 { assert("eight"@[0] == 'e'); } if i == 1 { assert("eight"@[1] == 'i'); } if i == 2 { assert("eight"@[2] == 'g'); } if i == 3 { assert("eight"@[3] == 'h'); } if i == 4 { assert("eight"@[4] == 't'); }
        }
        lemma_word_reads_as_word(s);
        reveal_strlit("zero");
        assert("eight"@.len() != "zero"@.len());
        assert("eight"@ != "zero"@);
        reveal_strlit("null");
        assert("eight"@.len() != "null"@.len());
        assert("eight"@ != "null"@);
        reveal_strlit("nil");
        assert("eight"@.len() != "nil"@.len());
        assert("eight"@ != "nil"@);
        reveal_strlit("one");
        assert("eight"@.len() != "one"@.len());
        assert("eight"@ != "one"@);
        reveal_strlit("two");
        assert("eight"@.len() != "two"@.len());
        assert("eight"@ != "two"@);
        reveal_strlit("three");
        assert("eight"@[0] != "three"@[0]);
        assert("eight"@ != "three"@);
        reveal_strlit("four");
        assert("eight"@.len() != "four"@.len());
        assert("eight"@ != "four"@);
        reveal_strlit("five");
        assert("eight"@.len() != "five"@.len());
        assert("eight"@ != "five"@);
        reveal_strlit("six");
        assert("eight"@.len() != "six"@.len());
        assert("eight"@ != "six"@);
        reveal_strlit("seven");
        assert("eight"@[0] != "seven"@[0]);
        assert("eight"@ != "seven"@);
    }
    if ascii_lower_seq(s) == "nine"@ {
        reveal_strlit("nine");
        assert forall|i: int| 0 <= i < s.len() implies !is_digit_spec(#[trigger] ascii_lower_seq(s)[i]) by {
            assert(ascii_lower_seq(s).len() == s.len());
            assert(ascii_lower_seq(s)[i] == "nine"@[i]);
            assert(0 <= i < 4);
            if i == 0 { assert("nine"@[0] == 'n'); } if i == 1 { assert("nine"@[1] == 'i'); } if i == 2 { assert("nine"@[2] == 'n'); } if i == 3 { assert("nine"@[3] == 'e'); }
        }
        lemma_word_reads_as_word(s);
        reveal_strlit("zero");
        assert("nine"@[0] != "zero"@[0]);
        assert("nine"@ != "zero"@);
        reveal_strlit("null");
        assert("nine"@[1] != "null"@[1]);
        assert("nine"@ != "null"@);
        reveal_strlit("nil");
        assert("nine"@.len() != "nil"@.len());
        assert("nine"@ != "nil"@);
        reveal_strlit("one");
        assert("nine"@.len() != "one"@.len());
        assert("nine"@ != "one"@);
        reveal_strlit("two");
        assert("nine"@.len() != "two"@.len());
        assert("nine"@ != "two"@);
        reveal_strlit("three");
        assert("nine"@.len() != "three"@.len());
        assert("nine"@ != "three"@);
        reveal_strlit("four");
        assert("nine"@[0] != "four"@[0]);
        assert("nine"@ != "four"@);
        reveal_strlit("five");
        assert("nine"@[0] != "five"@[0]);
        assert("nine"@ != "five"@);
        reveal_strlit("six");
        assert("nine"@.len() != "six"@.len());
        assert("nine"@ != "six"@);
        reveal_strlit("seven");
        assert("nine"@.len() != "seven"@.len());
        assert("nine"@ != "seven"@);
        reveal_strlit("eight");
        assert("nine"@.len() != "eight"@.len());
        assert("nine"@ != "eight"@);
    }
    if ascii_lower_seq(s) == "ten"@ {
        reveal_strlit("ten");
        assert forall|i: int| 0 <= i < s.len() implies !is_digit_spec(#[trigger] ascii_lower_seq(s)[i]) by {
            assert(ascii_lower_seq(s).len() == s.len());
            assert(ascii_lower_seq(s)[i] == "ten"@[i]);
            assert(0 <= i < 3);
            if i == 0 { assert("ten"@[0] == 't'); } if i == 1 { assert("ten"@[1] == 'e'); } if i == 2 { assert("ten"@[2] == 'n'); }
        }
        lemma_word_reads_as_word(s);
        reveal_strlit("zero");
        assert("ten"@.len() != "zero"@.len());
        assert("ten"@ != "zero"@);
        reveal_strlit("null");
        assert("ten"@.len() != "null"@.len());
        assert("ten"@ != "null"@);
        reveal_strlit("nil");
        assert("ten"@[0] != "nil"@[0]);
        assert("ten"@ != "nil"@);
        reveal_strlit("one");
        assert("ten"@[0] != "one"@[0]);
        assert("ten"@ != "one"@);
        reveal_strlit("two");
        assert("ten"@[1] != "two"@[1]);
        assert("ten"@ != "two"@);
        reveal_strlit("three");
        assert("ten"@.len() != "three"@.len());
        assert("ten"@ != "three"@);
        reveal_strlit("four");
        assert("ten"@.len() != "four"@.len());
        assert("ten"@ != "four"@);
        reveal_strlit("five");
        assert("ten"@.len() != "five"@.len());
        assert("ten"@ != "five"@);
        reveal_strlit("six");
        assert("ten"@[0] != "six"@[0]);
        assert("ten"@ != "six"@);
        reveal_strlit("seven");
        assert("ten"@.len() != "seven"@.len());
        assert("ten"@ != "seven"@);
        reveal_strlit("eight");
        assert("ten"@.len() != "eight"@.len());
        assert("ten"@ != "eight"@);
        reveal_strlit("nine");
        assert("ten"@.len() != "nine"@.len());
        assert("ten"@ != "nine"@);
    }
}

/// Once the scanner stops, further characters change nothing.
pub proof fn lemma_scan_stopped(s: Seq<char>, i: int)
    requires
        0 <= i <= s.len(),
        scan(s.take(i)).stopped,
    ensures
        scan(s) == scan(s.take(i)),
    decreases s.len() - i,
{
    if i < s.len() {
        assert(s.take(i + 1).drop_last() =~= s.take(i));
        lemma_scan_stopped(s, i + 1);
    } else {
        assert(s.take(i) =~= s);
    }
}

} // verus!
