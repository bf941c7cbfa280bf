//! The decision logic of a `head`-style tool: reading counts from text,
//! resolving the words of a command line into a configuration, and working
//! out what each input contributes to standard output and standard error.

pub mod cli;
pub mod config;
pub mod head;
pub mod number;

pub use cli::{get_args, Notice, Refusal, Tokens};
pub use config::{configure, Config, Limit, UsageError};
pub use head::{emit, run, Emission, Source};
pub use number::parse_positive_int;
