use vstd::prelude::*;

use crate::text::str_equal;

verus! {

/// How much the daemon writes to its log.
#[derive(Clone, Copy, Debug, PartialEq, Eq, Structural)]
pub enum Level {
    /// `-d`: per-cycle disk statistics and command output.
    Debug,
    /// `-w`: threshold events and reactions.
    Warn,
    /// `-q`: errors only.
    Quiet,
}

/// The kind of a single log line.
#[derive(Clone, Copy, Debug, PartialEq, Eq, Structural)]
pub enum Severity {
    Debug,
    Info,
    Warn,
    Error,
}

/// The message returned for a command-line flag that names no level.
pub open spec fn unknown_flag_message(flag: Seq<char>) -> Seq<char> {
    "unknown log level '"@ + flag + "'; expected -d, -w, or -q"@
}

/// The level a command-line flag selects, if any.
pub open spec fn flag_level(flag: Seq<char>) -> Option<Level> {
    if flag == "-d"@ {
        Some(Level::Debug)
    } else if flag == "-w"@ {
        Some(Level::Warn)
    } else if flag == "-q"@ {
        Some(Level::Quiet)
    } else {
        None
    }
}

/// Whether a line of severity `s` is written at level `level`.
pub open spec fn level_shows(level: Level, s: Severity) -> bool {
    match level {
        Level::Debug => true,
        Level::Warn => s != Severity::Debug,
        Level::Quiet => s == Severity::Error,
    }
}

impl Level {
    /// Parses the command-line flag `-d`, `-w` or `-q`.
    pub fn from_flag(flag: &str) -> (res: Result<Level, String>)
        ensures
            match flag_level(flag@) {
                Some(level) => res == Ok::<Level, String>(level),
                None => res is Err && res->Err_0@ == unknown_flag_message(flag@),
            },
    {
        if str_equal(flag, "-d") {
            Ok(Level::Debug)
        } else if str_equal(flag, "-w") {
            Ok(Level::Warn)
        } else if str_equal(flag, "-q") {
            Ok(Level::Quiet)
        } else {
            let mut msg = String::from_str("unknown log level '");
            msg.append(flag);
            msg.append("'; expected -d, -w, or -q");
            Err(msg)
        }
    }

    /// Whether a line of the given severity is written at this level.
    pub fn shows(&self, severity: Severity) -> (shown: bool)
        ensures
            shown == level_shows(*self, severity),
    {
        match self {
            Level::Debug => true,
            Level::Warn => !matches!(severity, Severity::Debug),
            Level::Quiet => matches!(severity, Severity::Error),
        }
    }
}


/// Error lines are written at every level, and a more verbose level writes
/// every line that a quieter one writes.
pub proof fn law_levels_nest(s: Severity)
    ensures
        level_shows(Level::Quiet, Severity::Error),
        level_shows(Level::Quiet, s) ==> level_shows(Level::Warn, s),
        level_shows(Level::Warn, s) ==> level_shows(Level::Debug, s),
{
}


/// Exactly the flags `-d`, `-w` and `-q` name a level, each a different one.
pub proof fn law_flags_name_levels(flag: Seq<char>)
    ensures
        flag_level(flag) is Some <==> (flag == "-d"@ || flag == "-w"@ || flag == "-q"@),
        flag == "-d"@ ==> flag_level(flag) == Some(Level::Debug),
        flag == "-w"@ ==> flag_level(flag) == Some(Level::Warn),
        flag == "-q"@ ==> flag_level(flag) == Some(Level::Quiet),
{
    reveal_strlit("-d");
    reveal_strlit("-w");
    reveal_strlit("-q");
    assert("-d"@ != "-w"@ && "-d"@ != "-q"@ && "-w"@ != "-q"@) by {
        assert("-d"@[1] != "-w"@[1]);
        assert("-d"@[1] != "-q"@[1]);
        assert("-w"@[1] != "-q"@[1]);
    }
}

/// Quiet writes only errors, warn writes everything but debug lines, and
/// debug writes everything.
pub proof fn law_level_contents(s: Severity)
    ensures
        level_shows(Level::Quiet, s) <==> s == Severity::Error,
        level_shows(Level::Warn, s) <==> s != Severity::Debug,
        level_shows(Level::Debug, s),
{
}

} // verus!
