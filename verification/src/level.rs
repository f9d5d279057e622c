//! Severity levels and their names.

use vstd::prelude::*;
use crate::text::{ascii_lowercase, same_text, to_ascii_lowercase};

verus! {

/// Severity of an event or of a breadcrumb.
#[derive(Clone, Copy, Debug, PartialEq, Eq, Structural)]
pub enum Level {
    Debug,
    Info,
    Warning,
    Error,
    Fatal,
}

/// What the protocol's own reader makes of a level name: the five names,
/// and `log` as a second name for `Info`.
pub open spec fn protocol_level_of(name: Seq<char>) -> Option<Level> {
    if name == "debug"@ {
        Some(Level::Debug)
    } else if name == "info"@ || name == "log"@ {
        Some(Level::Info)
    } else if name == "warning"@ {
        Some(Level::Warning)
    } else if name == "error"@ {
        Some(Level::Error)
    } else if name == "fatal"@ {
        Some(Level::Fatal)
    } else {
        None
    }
}

/// Calls `<sentry::protocol::Level as FromStr>::from_str`. That function
/// matches the whole text, case-sensitively, against `debug`, `info`, `log`,
/// `warning`, `error` and `fatal`, reads `log` as `Info`, and fails on any
/// other text.
#[verifier::external_body]
fn protocol_level(name: &str) -> (r: Option<Level>)
    ensures
        r == protocol_level_of(name@),
{
    match name.parse::<sentry::protocol::Level>() {
        Ok(sentry::protocol::Level::Debug) => Some(Level::Debug),
        Ok(sentry::protocol::Level::Info) => Some(Level::Info),
        Ok(sentry::protocol::Level::Warning) => Some(Level::Warning),
        Ok(sentry::protocol::Level::Error) => Some(Level::Error),
        Ok(sentry::protocol::Level::Fatal) => Some(Level::Fatal),
        Err(_) => None,
    }
}

/// The level that a name stands for: exactly the five lower-case names.
pub open spec fn level_named(name: Seq<char>) -> Option<Level> {
    if name == "debug"@ {
        Some(Level::Debug)
    } else if name == "info"@ {
        Some(Level::Info)
    } else if name == "warning"@ {
        Some(Level::Warning)
    } else if name == "error"@ {
        Some(Level::Error)
    } else if name == "fatal"@ {
        Some(Level::Fatal)
    } else {
        None
    }
}

/// Reads a level name, case-sensitively. `None` for any text that is not
/// one of the five names; the protocol's alias `log` is not a name here.
pub fn parse_level(name: &str) -> (r: Option<Level>)
    ensures
        r == level_named(name@),
{
    if same_text(name, "log") {
        proof {
            lemma_log_is_no_name();
        }
        None
    } else {
        protocol_level(name)
    }
}

/// `log` differs from each of the five level names.
proof fn lemma_log_is_no_name()
    ensures
        level_named("log"@) is None,
{
    reveal_strlit("log");
    reveal_strlit("debug");
    reveal_strlit("info");
    reveal_strlit("warning");
    reveal_strlit("error");
    reveal_strlit("fatal");
    assert("log"@.len() == 3);
    assert("debug"@.len() == 5);
    assert("info"@.len() == 4);
    assert("warning"@.len() == 7);
    assert("error"@.len() == 5);
    assert("fatal"@.len() == 5);
}

/// The level of an event: the one that the given name stands for, and
/// `Error` where no name is given or the name is none of the five.
pub open spec fn level_given(name: Option<Seq<char>>) -> Level {
    match name {
        Some(text) => match level_named(text) {
            Some(level) => level,
            None => Level::Error,
        },
        None => Level::Error,
    }
}

/// The level of an event from an optional name. Falls back to `Error`.
pub fn derive_level(name: Option<&str>) -> (r: Level)
    ensures
        r == level_given(
            match name {
                Some(text) => Some(text@),
                None => None,
            },
        ),
{
    match name {
        Some(text) => match parse_level(text) {
            Some(level) => level,
            None => Level::Error,
        },
        None => Level::Error,
    }
}

/// The level that a category token of a log line stands for: a level
/// name in any mix of upper and lower case.
pub fn category_level(token: &str) -> (r: Option<Level>)
    ensures
        r == level_named(ascii_lowercase(token@)),
{
    let lower = to_ascii_lowercase(token);
    parse_level(lower.as_str())
}

/// The name of a level.
pub open spec fn name_of(level: Level) -> Seq<char> {
    match level {
        Level::Debug => "debug"@,
        Level::Info => "info"@,
        Level::Warning => "warning"@,
        Level::Error => "error"@,
        Level::Fatal => "fatal"@,
    }
}

impl Level {
    /// The name of this level, in lower case.
    pub fn name(&self) -> (r: &'static str)
        ensures
            r@ == name_of(*self),
    {
        match self {
            Level::Debug => "debug",
            Level::Info => "info",
            Level::Warning => "warning",
            Level::Error => "error",
            Level::Fatal => "fatal",
        }
    }
}

/// Each level is the one that its own name stands for, and that name is
/// already in lower case.
pub proof fn lemma_name_names_level(level: Level)
    ensures
        level_named(name_of(level)) == Some(level),
        ascii_lowercase(name_of(level)) == name_of(level),
{
    reveal_strlit("debug");
    reveal_strlit("info");
    reveal_strlit("warning");
    reveal_strlit("error");
    reveal_strlit("fatal");
    assert("debug"@[0] == 'd');
    assert("info"@[0] == 'i');
    assert("warning"@[0] == 'w');
    assert("error"@[0] == 'e');
    assert("fatal"@[0] == 'f');
    assert(ascii_lowercase(name_of(level)) =~= name_of(level));
}

} // verus!
