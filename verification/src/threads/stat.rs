//! Reading a thread's line of the process table.
//!
//! The line has the form `pid (name) state f4 f5 ...`, where the name may
//! itself hold spaces and brackets. The fields that follow the name are
//! counted from the last closing bracket: the state is the first of them, the
//! time spent in user mode the twelfth and the time spent in kernel mode the
//! thirteenth, both in clock ticks.

use vstd::prelude::*;
use crate::text::{decimal, push_decimal};
use crate::text::chars_of;
use crate::threads::fields::{fields_of, parse_u64, parsed_u64, split_fields};
use vstd::string::StrSliceExecFns;
use vstd::string::StringExecFns;

verus! {

/// Why a line could not be read.
#[derive(Clone, Copy, Debug, PartialEq, Eq)]
pub enum StatError {
    /// No closing bracket ends the name, or the text ends with it.
    InvalidFormat,
    /// Fewer than thirteen fields follow the name; the payload is their number.
    TooFewFields(usize),
    /// The twelfth field is not a number.
    BadUtime,
    /// The thirteenth field is not a number.
    BadStime,
}

/// What is read from a line.
pub struct StatLine {
    /// The native state code.
    pub state: String,
    /// Clock ticks spent in user mode.
    pub utime_ticks: u64,
    /// Clock ticks spent in kernel mode.
    pub stime_ticks: u64,
}

/// The mathematical content of a `StatLine`.
pub struct StatLineView {
    pub state: Seq<char>,
    pub utime_ticks: u64,
    pub stime_ticks: u64,
}

impl View for StatLine {
    type V = StatLineView;

    open spec fn view(&self) -> StatLineView {
        StatLineView {
            state: self.state@,
            utime_ticks: self.utime_ticks,
            stime_ticks: self.stime_ticks,
        }
    }
}

/// Index of the last occurrence of `mark` in `s`, or -1.
pub open spec fn last_index_of(s: Seq<char>, mark: char) -> int
    decreases s.len(),
{
    if s.len() == 0 {
        -1
    } else if s.last() == mark {
        s.len() - 1
    } else {
        last_index_of(s.drop_last(), mark)
    }
}

/// The characters of a field.
pub open spec fn field_text(s: Seq<char>, f: (int, int)) -> Seq<char> {
    s.subrange(f.0, f.1)
}

/// What a line holds, or why it cannot be read. The fields are taken from the
/// second character after the last closing bracket on.
pub open spec fn stat_line_of(s: Seq<char>) -> Result<StatLineView, StatError> {
    let close = last_index_of(s, ')');
    if close < 0 || close + 2 > s.len() {
        Err(StatError::InvalidFormat)
    } else {
        let fs = fields_of(s, close + 2);
        if fs.len() < 13 {
            Err(StatError::TooFewFields(fs.len() as usize))
        } else if parsed_u64(field_text(s, fs[11])).is_none() {
            Err(StatError::BadUtime)
        } else if parsed_u64(field_text(s, fs[12])).is_none() {
            Err(StatError::BadStime)
        } else {
            Ok(
                StatLineView {
                    state: field_text(s, fs[0]),
                    utime_ticks: parsed_u64(field_text(s, fs[11])).unwrap(),
                    stime_ticks: parsed_u64(field_text(s, fs[12])).unwrap(),
                },
            )
        }
    }
}

/// Where the last occurrence is, it is an occurrence and none follows it.
pub proof fn lemma_last_index_of(s: Seq<char>, mark: char)
    ensures
        -1 <= last_index_of(s, mark) < s.len(),
        last_index_of(s, mark) >= 0 ==> s[last_index_of(s, mark)] == mark,
        forall|k: int| last_index_of(s, mark) < k < s.len() ==> #[trigger] s[k] != mark,
    decreases s.len(),
{
    if s.len() > 0 && s.last() != mark {
        lemma_last_index_of(s.drop_last(), mark);
        assert forall|k: int| last_index_of(s, mark) < k < s.len() implies #[trigger] s[k]
            != mark by {
            if k < s.len() - 1 {
                assert(s.drop_last()[k] == s[k]);
            }
        }
    }
}

/// Index of the last occurrence of `mark`, if it occurs.
pub fn rfind(text: &[char], mark: char) -> (r: Option<usize>)
    ensures
        r.is_some() == (last_index_of(text@, mark) >= 0),
        r.is_some() ==> r.unwrap() == last_index_of(text@, mark),
{
    let mut i: usize = text.len();
    assert(text@.take(i as int) =~= text@);
    while i > 0
        invariant
            0 <= i <= text@.len(),
            last_index_of(text@, mark) == last_index_of(text@.take(i as int), mark),
        decreases i,
    {
        assert(text@.take(i as int).drop_last() =~= text@.take(i as int - 1));
        assert(text@.take(i as int).last() == text@[i as int - 1]);
        i = i - 1;
        if text[i] == mark {
            return Some(i);
        }
    }
    None
}

/// Reads a thread's line of the process table.
pub fn parse_stat(text: &str) -> (r: Result<StatLine, StatError>)
    ensures
        match (r, stat_line_of(text@)) {
            (Ok(line), Ok(expected)) => line@ == expected,
            (Err(e), Err(expected)) => e == expected,
            _ => false,
        },
{
    let chars = chars_of(text);
    let line = chars.as_slice();
    proof {
        lemma_last_index_of(line@, ')');
    }
    let close = match rfind(line, ')') {
        Some(i) => i,
        None => {
            return Err(StatError::InvalidFormat);
        },
    };
    assert(close < line@.len());
    if line.len() - close < 2 {
        return Err(StatError::InvalidFormat);
    }
    let fields = split_fields(line, close + 2);
    if fields.len() < 13 {
        return Err(StatError::TooFewFields(fields.len()));
    }
    let state = fields[0];
    let user = fields[11];
    let kernel = fields[12];
    let utime_ticks = match parse_u64(line, user.0, user.1) {
        Some(v) => v,
        None => {
            return Err(StatError::BadUtime);
        },
    };
    let stime_ticks = match parse_u64(line, kernel.0, kernel.1) {
        Some(v) => v,
        None => {
            return Err(StatError::BadStime);
        },
    };
    Ok(
        StatLine {
            state: text.substring_char(state.0, state.1).to_owned(),
            utime_ticks,
            stime_ticks,
        },
    )
}

/// The words in which an error is reported.
pub open spec fn stat_error_text(e: StatError) -> Seq<char> {
    match e {
        StatError::InvalidFormat => "Invalid stat format"@,
        StatError::TooFewFields(n) => "stat file has too few fields: "@ + decimal(n as nat),
        StatError::BadUtime => "Failed to parse utime"@,
        StatError::BadStime => "Failed to parse stime"@,
    }
}

impl StatError {
    /// The words in which the error is reported.
    pub fn message(&self) -> (r: String)
        ensures
            r@ == stat_error_text(*self),
    {
        match self {
            StatError::InvalidFormat => "Invalid stat format".to_owned(),
            StatError::TooFewFields(n) => {
                let mut out = "stat file has too few fields: ".to_owned();
                push_decimal(&mut out, *n as u64);
                out
            },
            StatError::BadUtime => "Failed to parse utime".to_owned(),
            StatError::BadStime => "Failed to parse stime".to_owned(),
        }
    }
}

} // verus!
