//! From the words of a command line to a configuration: clap takes the
//! words apart, and the rules of `config` decide on the values it finds.

use clap::{Arg, Command};
use vstd::prelude::*;
use crate::config::{
    configure, lemma_literal_zero, resolve, text_of, Config, Settings, UsageError, UsageFault,
};

verus! {

/// The values found on a command line, each as it was given.
#[derive(Debug)]
pub struct Tokens {
    /// The positional input names, in order.
    pub files: Vec<String>,
    /// The value of `-n`/`--lines`, if the option was given.
    pub lines: Option<String>,
    /// The value of `-c`/`--bytes`, if the option was given.
    pub bytes: Option<String>,
}

/// The mathematical content of `Tokens`.
pub struct TokensView {
    pub files: Seq<Seq<char>>,
    pub lines: Option<Seq<char>>,
    pub bytes: Option<Seq<char>>,
}

impl View for Tokens {
    type V = TokensView;

    open spec fn view(&self) -> TokensView {
        TokensView {
            files: self.files.deep_view(),
            lines: text_of(self.lines),
            bytes: text_of(self.bytes),
        }
    }
}

/// What the parser has to say where it finds no values: the text to show,
/// and whether it reports a failure (an unknown flag, a missing value) or
/// answers a request for help or for the version.
#[derive(Debug)]
pub struct Notice {
    pub text: String,
    pub failure: bool,
}

/// Why a command line leads to no run.
#[derive(Debug)]
pub enum Refusal {
    /// The parser found no values.
    Parser(Notice),
    /// The values break a rule.
    Usage(UsageError),
}

/// The values that clap finds in the words `args` of a command line, the
/// first word being the program's name; `None` where it finds a failure or a
/// request for help or for the version.
pub uninterp spec fn clap_tokens(args: Seq<Seq<char>>) -> Option<TokensView>;

/// Builds the command with clap's `Command` and `Arg`, and calls
/// `Command::try_get_matches_from` on `args`. The values are read with
/// `ArgMatches::get_many` and `ArgMatches::get_one`; an error is turned into
/// its text (`Error::to_string`) and its `Error::use_stderr`. The contract
/// claims only that the values found are a function of the words: it names
/// them `clap_tokens`.
#[verifier::external_body]
fn tokenize(args: &Vec<String>) -> (r: Result<Tokens, Notice>)
    ensures
        match r {
            Ok(t) => clap_tokens(args.deep_view()) == Some(t@),
            Err(_) => clap_tokens(args.deep_view()).is_none(),
        },
{
    let parsed = Command::new("headr").version("0.1.0")
        .arg(Arg::new("files").value_name("FILE").num_args(1..))
        .arg(Arg::new("lines").short('n').long("lines"))
        .arg(Arg::new("bytes").short('c').long("bytes"))
        .try_get_matches_from(args);
    match parsed {
        Ok(m) => Ok(Tokens {
            files: m.get_many::<String>("files").unwrap_or_default().cloned().collect(),
            lines: m.get_one::<String>("lines").cloned(),
            bytes: m.get_one::<String>("bytes").cloned(),
        }),
        Err(e) => Err(Notice { text: e.to_string(), failure: e.use_stderr() }),
    }
}

/// What a result says about the configuration: nothing where the parser
/// found no values; else the settings, or the rule that the values break.
pub open spec fn verdict_of(r: Result<Config, Refusal>) -> Option<Result<Settings, UsageFault>> {
    match r {
        Ok(c) => Some(Ok(c@)),
        Err(Refusal::Usage(e)) => Some(Err(e@)),
        Err(Refusal::Parser(_)) => None,
    }
}

/// What the rules make of the values that the parser found.
pub open spec fn verdict(found: Option<TokensView>) -> Option<Result<Settings, UsageFault>> {
    match found {
        Some(t) => Some(resolve(t.files, t.lines, t.bytes)),
        None => None,
    }
}

/// Whatever the words, where the parser finds both a line count and a byte
/// count among them, the command line is refused for that.
pub proof fn lemma_both_counts_refused(found: TokensView)
    requires
        found.lines.is_some(),
        found.bytes.is_some(),
    ensures
        verdict(Some(found)) == Some(Err::<Settings, UsageFault>(UsageFault::Conflict)),
{
}

/// Whatever the words, where the parser finds a count that denotes zero
/// among them, the command line is refused.
pub proof fn lemma_zero_count_refused(found: TokensView)
    requires
        found.lines == Some("0"@) || found.bytes == Some("0"@),
    ensures
        verdict(Some(found)) matches Some(Err(_)),
{
    lemma_literal_zero();
}

/// Decides on what the parser returned: its notice is handed on as it is,
/// and the values it found are resolved by the rules.
pub fn conclude(parsed: Result<Tokens, Notice>) -> (r: Result<Config, Refusal>)
    ensures
        match parsed {
            Ok(t) => verdict_of(r) == Some(resolve(t@.files, t@.lines, t@.bytes)),
            Err(n) => r == Err::<Config, Refusal>(Refusal::Parser(n)),
        },
{
    match parsed {
        Ok(t) => match configure(t.files, t.lines, t.bytes) {
            Ok(c) => Ok(c),
            Err(e) => Err(Refusal::Usage(e)),
        },
        Err(n) => Err(Refusal::Parser(n)),
    }
}

/// Reads the words of a command line, the first being the program's name,
/// into a configuration.
pub fn get_args(args: &Vec<String>) -> (r: Result<Config, Refusal>)
    ensures
        verdict_of(r) == verdict(clap_tokens(args.deep_view())),
{
    conclude(tokenize(args))
}

} // verus!
