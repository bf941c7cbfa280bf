//! The configuration of a run and the rules that turn the values given on a
//! command line into one.

use vstd::prelude::*;
use vstd::string::*;
use crate::number::{
    decimal_value, digits_of, is_digit, is_numeral, numeral_value, parse_bounded, positive_value,
};

verus! {

/// The number of lines printed when the command line gives no count.
pub const DEFAULT_LINES: u64 = 10;

/// How much of each input is printed: exactly one of the two modes is active.
#[derive(Clone, Copy, Debug, PartialEq, Eq, Structural)]
pub enum Limit {
    /// The first so many lines.
    Lines(u64),
    /// The first so many bytes.
    Bytes(u64),
}

/// Why a command line is refused.
#[derive(Debug)]
pub enum UsageError {
    /// A line count and a byte count were both given.
    Conflict,
    /// The line count, as given, is no positive integer.
    Lines(String),
    /// The byte count, as given, is no positive integer.
    Bytes(String),
}

/// The mathematical content of a `UsageError`.
pub enum UsageFault {
    Conflict,
    Lines(Seq<char>),
    Bytes(Seq<char>),
}

impl View for UsageError {
    type V = UsageFault;

    open spec fn view(&self) -> UsageFault {
        match self {
            UsageError::Conflict => UsageFault::Conflict,
            UsageError::Lines(t) => UsageFault::Lines(t@),
            UsageError::Bytes(t) => UsageFault::Bytes(t@),
        }
    }
}

/// A validated configuration: the input names in order (`-` is standard
/// input), the line count, and the byte count where byte mode was asked for.
#[derive(Debug)]
pub struct Config {
    pub files: Vec<String>,
    pub lines: u64,
    pub bytes: Option<u64>,
}

/// The mathematical content of a `Config`.
pub struct Settings {
    pub files: Seq<Seq<char>>,
    pub lines: u64,
    pub bytes: Option<u64>,
}

impl View for Config {
    type V = Settings;

    open spec fn view(&self) -> Settings {
        Settings { files: self.files.deep_view(), lines: self.lines, bytes: self.bytes }
    }
}

impl Settings {
    /// At least one input, and every count at least one.
    pub open spec fn wf(self) -> bool {
        &&& self.files.len() >= 1
        &&& self.lines >= 1
        &&& self.bytes matches Some(b) ==> b >= 1
    }

    /// The active mode: a byte count overrides the line count.
    pub open spec fn limit(self) -> Limit {
        match self.bytes {
            Some(b) => Limit::Bytes(b),
            None => Limit::Lines(self.lines),
        }
    }
}

impl Limit {
    /// Whether one more line is to be read once `lines_read` lines have
    /// been: in line mode, as long as the count is not reached; in byte mode,
    /// never.
    pub open spec fn spec_wants_line(self, lines_read: u64) -> bool {
        match self {
            Limit::Lines(n) => lines_read < n,
            Limit::Bytes(_) => false,
        }
    }

    /// Whether one more line is to be read once `lines_read` lines have been.
    #[verifier::when_used_as_spec(spec_wants_line)]
    pub fn wants_line(self, lines_read: u64) -> (more: bool)
        ensures
            more == self.spec_wants_line(lines_read),
    {
        match self {
            Limit::Lines(n) => lines_read < n,
            Limit::Bytes(_) => false,
        }
    }
}

/// The sentence that tells the user of a usage fault.
pub open spec fn message_of(fault: UsageFault) -> Seq<char> {
    match fault {
        UsageFault::Conflict => "the argument '--lines <LINES>' cannot be used with '--bytes <BYTES>'"@,
        UsageFault::Lines(t) => "invalid value '"@ + t
            + "' for '--lines <LINES>': not a positive integer"@,
        UsageFault::Bytes(t) => "invalid value '"@ + t
            + "' for '--bytes <BYTES>': not a positive integer"@,
    }
}

impl UsageError {
    /// The sentence that tells the user what is wrong.
    pub fn message(&self) -> (text: String)
        ensures
            text@ == message_of(self@),
    {
        match self {
            UsageError::Conflict => String::from_str(
                "the argument '--lines <LINES>' cannot be used with '--bytes <BYTES>'",
            ),
            UsageError::Lines(t) => {
                let mut text = String::from_str("invalid value '");
                text.append(t.as_str());
                text.append("' for '--lines <LINES>': not a positive integer");
                text
            },
            UsageError::Bytes(t) => {
                let mut text = String::from_str("invalid value '");
                text.append(t.as_str());
                text.append("' for '--bytes <BYTES>': not a positive integer");
                text
            },
        }
    }
}

impl Config {
    /// The active mode: a byte count overrides the line count.
    pub fn limit(&self) -> (l: Limit)
        ensures
            l == self@.limit(),
    {
        match self.bytes {
            Some(b) => Limit::Bytes(b),
            None => Limit::Lines(self.lines),
        }
    }
}

/// The count that a command-line value denotes, if it is a positive integer
/// that 64 bits hold.
pub open spec fn count_of(text: Seq<char>) -> Option<u64> {
    positive_value(text, u64::MAX)
}

/// The input names in force: a lone `-` where none was given.
pub open spec fn names_of(files: Seq<Seq<char>>) -> Seq<Seq<char>> {
    if files.len() == 0 {
        seq!["-"@]
    } else {
        files
    }
}

/// What the values of a command line resolve to. Giving both counts is
/// refused first; then a line count that is no positive integer; then such a
/// byte count. Otherwise the line count defaults to ten and byte mode is
/// active exactly when a byte count was given.
pub open spec fn resolve(
    files: Seq<Seq<char>>,
    lines: Option<Seq<char>>,
    bytes: Option<Seq<char>>,
) -> Result<Settings, UsageFault> {
    if lines.is_some() && bytes.is_some() {
        Err(UsageFault::Conflict)
    } else if lines.is_some() && count_of(lines.unwrap()).is_none() {
        Err(UsageFault::Lines(lines.unwrap()))
    } else if bytes.is_some() && count_of(bytes.unwrap()).is_none() {
        Err(UsageFault::Bytes(bytes.unwrap()))
    } else {
        Ok(
            Settings {
                files: names_of(files),
                lines: match lines {
                    Some(t) => count_of(t).unwrap(),
                    None => DEFAULT_LINES,
                },
                bytes: match bytes {
                    Some(t) => count_of(t),
                    None => None,
                },
            },
        )
    }
}

/// The views of an optional string.
pub open spec fn text_of(value: Option<String>) -> Option<Seq<char>> {
    match value {
        Some(t) => Some(t@),
        None => None,
    }
}

/// Reads a command-line value as a count of at least one.
pub fn parse_count(text: &str) -> (r: Option<u64>)
    ensures
        r == count_of(text@),
{
    match parse_bounded(text, u64::MAX) {
        Some(n) if n > 0 => Some(n),
        _ => None,
    }
}

/// Resolves the values found on a command line (the positional input names,
/// the value of `-n/--lines` and the value of `-c/--bytes`, each as given)
/// into a configuration, or says why they are refused.
pub fn configure(files: Vec<String>, lines: Option<String>, bytes: Option<String>) -> (r: Result<
    Config,
    UsageError,
>)
    ensures
        match r {
            Ok(c) => resolve(files.deep_view(), text_of(lines), text_of(bytes)) == Ok::<
                Settings,
                UsageFault,
            >(c@),
            Err(e) => resolve(files.deep_view(), text_of(lines), text_of(bytes)) == Err::<
                Settings,
                UsageFault,
            >(e@),
        },
{
    if lines.is_some() && bytes.is_some() {
        return Err(UsageError::Conflict);
    }
    let line_count: u64 = match lines {
        Some(t) => match parse_count(t.as_str()) {
            Some(n) => n,
            None => {
                return Err(UsageError::Lines(t));
            },
        },
        None => DEFAULT_LINES,
    };
    let byte_count: Option<u64> = match bytes {
        Some(t) => match parse_count(t.as_str()) {
            Some(n) => Some(n),
            None => {
                return Err(UsageError::Bytes(t));
            },
        },
        None => None,
    };
    let names: Vec<String> = if files.len() == 0 {
        let mut only: Vec<String> = Vec::new();
        only.push("-".to_owned());
        assert(only.deep_view() =~= seq!["-"@]);
        only
    } else {
        files
    };
    assert(names.deep_view() == names_of(files.deep_view()));
    Ok(Config { files: names, lines: line_count, bytes: byte_count })
}

/// Every configuration that the command line resolves to is well formed.
pub proof fn lemma_resolved_is_well_formed(
    files: Seq<Seq<char>>,
    lines: Option<Seq<char>>,
    bytes: Option<Seq<char>>,
)
    ensures
        resolve(files, lines, bytes) matches Ok(s) ==> s.wf(),
{
}

/// A line count and a byte count given together are refused, whatever the
/// input names and whatever the two values.
pub proof fn lemma_both_counts_conflict(files: Seq<Seq<char>>, lines: Seq<char>, bytes: Seq<char>)
    ensures
        resolve(files, Some(lines), Some(bytes)) == Err::<Settings, UsageFault>(
            UsageFault::Conflict,
        ),
{
}

/// A numeral that denotes zero is no count.
pub proof fn lemma_zero_is_no_count(text: Seq<char>)
    requires
        is_numeral(text),
        numeral_value(text) == 0,
    ensures
        count_of(text).is_none(),
{
}

/// A count of zero is refused for lines and for bytes alike, whatever else
/// the command line holds.
pub proof fn lemma_zero_count_refused(
    files: Seq<Seq<char>>,
    zero: Seq<char>,
    other: Option<Seq<char>>,
)
    requires
        is_numeral(zero),
        numeral_value(zero) == 0,
    ensures
        resolve(files, Some(zero), other).is_err(),
        resolve(files, other, Some(zero)).is_err(),
{
}

/// The text `0` is a numeral that denotes zero.
pub proof fn lemma_literal_zero()
    ensures
        is_numeral("0"@),
        numeral_value("0"@) == 0,
{
    reveal_strlit("0");
    let s = "0"@;
    assert(digits_of(s) == s);
    assert(is_digit(s[0]));
    assert(s.drop_last().len() == 0);
    assert(decimal_value(s.drop_last()) == 0);
    assert(decimal_value(s) == 10 * decimal_value(s.drop_last()) + 0);
}

} // verus!
