//! Error types for plotkit.

use vstd::prelude::*;
use crate::text::string_from_chars;

verus! {

/// The I/O error type of the standard library, carried by [`PlotError::Io`].
#[verifier::external_type_specification]
#[verifier::external_body]
pub struct ExIoError(std::io::Error);

/// Errors that can occur in plotkit operations.
#[derive(Debug)]
#[non_exhaustive]
pub enum PlotError {
    /// X and Y series have different lengths.
    SeriesLengthMismatch {
        /// Expected length (from the first series).
        expected: usize,
        /// Actual length of the mismatched series.
        got: usize,
    },
    /// Data series is empty.
    EmptyData,
    /// Referenced column not found (for DataFrame integrations).
    UnknownColumn(String),
    /// An I/O error occurred.
    Io(std::io::Error),
    /// The requested output format is not supported.
    UnsupportedFormat(String),
    /// Failed to load or render with a font.
    FontLoad(String),
}

/// A specialized Result type for plotkit operations.
pub type Result<T> = std::result::Result<T, PlotError>;

/// The decimal digits of `n`, most significant first, without leading zeros
/// (`"0"` for zero).
pub open spec fn decimal(n: nat) -> Seq<char>
    decreases n,
{
    if n < 10 {
        seq![digit_char(n)]
    } else {
        decimal(n / 10).push(digit_char(n % 10))
    }
}

/// The ASCII digit for `d` (`d < 10`).
pub open spec fn digit_char(d: nat) -> char {
    ('0' as u32 + d) as char
}

/// The message of every error but an I/O error, as the error's display text.
pub open spec fn error_message(e: PlotError) -> Seq<char> {
    match e {
        PlotError::SeriesLengthMismatch { expected, got } => "series length mismatch: expected "@
            + decimal(expected as nat) + ", got "@ + decimal(got as nat),
        PlotError::EmptyData => "data series is empty"@,
        PlotError::UnknownColumn(name) => "unknown column: "@ + name@,
        PlotError::Io(_) => "I/O error: "@,
        PlotError::UnsupportedFormat(f) => "unsupported format: "@ + f@,
        PlotError::FontLoad(msg) => "font loading error: "@ + msg@,
    }
}

/// Returns the decimal representation of `n`.
pub fn decimal_string(n: usize) -> (s: String)
    ensures
        s@ == decimal(n as nat),
{
    // Collect digits least significant first, then reverse.
    let mut rev: Vec<char> = Vec::new();
    let mut m: usize = n;
    let ghost mut acc: Seq<char> = seq![];
    while m >= 10
        invariant
            m <= n,
            decimal(n as nat) == decimal(m as nat) + acc,
            rev@ == acc.reverse(),
        decreases m,
    {
        let d = m % 10;
        let c = ((d as u32) + ('0' as u32)) as u8 as char;
        assert(c == digit_char(d as nat));
        rev.push(c);
        proof {
            assert(decimal(m as nat) == decimal((m / 10) as nat).push(c));
            assert(decimal((m / 10) as nat).push(c) + acc =~= decimal((m / 10) as nat) + (seq![c] + acc));
            assert((seq![c] + acc).reverse() =~= acc.reverse().push(c));
            acc = seq![c] + acc;
        }
        m = m / 10;
    }
    let c = ((m as u32) + ('0' as u32)) as u8 as char;
    assert(c == digit_char(m as nat));
    rev.push(c);
    proof {
        assert(decimal(m as nat) =~= seq![c]);
        assert((seq![c] + acc).reverse() =~= acc.reverse().push(c));
        acc = seq![c] + acc;
    }
    let mut out: Vec<char> = Vec::new();
    let len = rev.len();
    let mut i: usize = 0;
    while i < len
        invariant
            i <= len,
            len == rev@.len(),
            rev@ == acc.reverse(),
            out@ == acc.take(i as int),
        decreases len - i,
    {
        out.push(rev[len - 1 - i]);
        proof {
            assert(acc.take(i + 1) =~= acc.take(i as int).push(acc[i as int]));
        }
        i = i + 1;
    }
    assert(out@ =~= acc);
    assert(acc =~= decimal(n as nat));
    string_from_chars(&out)
}

/// Returns the display text of an I/O error (std's `Display` for `io::Error`).
///
/// Nothing is stated of the text: for operating-system errors it is the
/// platform's description of the error code.
#[verifier::external_body]
fn io_error_text(err: &std::io::Error) -> String {
    format!("{}", err)
}

/// The message of an I/O error whose display text is `text`.
pub fn io_message(text: &str) -> (s: String)
    ensures
        s@ == "I/O error: "@ + text@,
{
    let mut s = "I/O error: ".to_owned();
    s.append(text);
    s
}

impl PlotError {
    /// Returns the human-readable message of this error (its display text).
    /// The message of an I/O error is [`io_message`] of the error's display
    /// text, which the platform supplies.
    pub fn message(&self) -> (s: String)
        ensures
            !(self is Io) ==> s@ == error_message(*self),
            self is Io ==> exists|text: Seq<char>| s@ == "I/O error: "@ + text,
    {
        match self {
            PlotError::SeriesLengthMismatch { expected, got } => {
                let mut s = "series length mismatch: expected ".to_owned();
                let e = decimal_string(*expected);
                s.append(e.as_str());
                s.append(", got ");
                let g = decimal_string(*got);
                s.append(g.as_str());
                s
            },
            PlotError::EmptyData => "data series is empty".to_owned(),
            PlotError::UnknownColumn(name) => {
                let mut s = "unknown column: ".to_owned();
                s.append(name.as_str());
                s
            },
            PlotError::Io(err) => {
                let t = io_error_text(err);
                let s = io_message(t.as_str());
                assert(s@ == "I/O error: "@ + t@);
                s
            },
            PlotError::UnsupportedFormat(f) => {
                let mut s = "unsupported format: ".to_owned();
                s.append(f.as_str());
                s
            },
            PlotError::FontLoad(msg) => {
                let mut s = "font loading error: ".to_owned();
                s.append(msg.as_str());
                s
            },
        }
    }
}

impl From<std::io::Error> for PlotError {
    fn from(err: std::io::Error) -> (e: Self) {
        PlotError::Io(err)
    }
}

impl vstd::std_specs::convert::FromSpecImpl<std::io::Error> for PlotError {
    open spec fn obeys_from_spec() -> bool {
        true
    }

    open spec fn from_spec(v: std::io::Error) -> Self {
        PlotError::Io(v)
    }
}

} // verus!
