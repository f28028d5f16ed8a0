use vstd::prelude::*;
use crate::text::same_text;

verus! {

/// Severity of a log record, from least to most severe.
#[derive(Debug, Clone, Copy, PartialEq, Eq, Structural, PartialOrd, Ord, Hash)]
pub enum LogLevel {
    Dbg,
    Log,
    Warn,
    Error,
}

impl LogLevel {
    /// Position of the level in the severity order.
    pub open spec fn spec_rank(self) -> nat {
        match self {
            LogLevel::Dbg => 0,
            LogLevel::Log => 1,
            LogLevel::Warn => 2,
            LogLevel::Error => 3,
        }
    }

    /// The variant's name, as written in configuration files and printed by sinks.
    pub open spec fn spec_name(self) -> Seq<char> {
        match self {
            LogLevel::Dbg => seq!['D', 'b', 'g'],
            LogLevel::Log => seq!['L', 'o', 'g'],
            LogLevel::Warn => seq!['W', 'a', 'r', 'n'],
            LogLevel::Error => seq!['E', 'r', 'r'],
        }
    }

    pub fn rank(&self) -> (r: u8)
        ensures
            r == self.spec_rank(),
    {
        match self {
            LogLevel::Dbg => 0,
            LogLevel::Log => 1,
            LogLevel::Warn => 2,
            LogLevel::Error => 3,
        }
    }

    /// True when `self` is strictly less severe than `other`.
    pub fn is_below(&self, other: &LogLevel) -> (b: bool)
        ensures
            b == (self.spec_rank() < other.spec_rank()),
    {
        self.rank() < other.rank()
    }

    /// The level whose name is exactly `name`, if any.
    pub open spec fn spec_from_name(name: Seq<char>) -> Option<LogLevel> {
        if name == LogLevel::Dbg.spec_name() {
            Some(LogLevel::Dbg)
        } else if name == LogLevel::Log.spec_name() {
            Some(LogLevel::Log)
        } else if name == LogLevel::Warn.spec_name() {
            Some(LogLevel::Warn)
        } else if name == LogLevel::Error.spec_name() {
            Some(LogLevel::Error)
        } else {
            None
        }
    }

    /// The variant's name ("Dbg", "Log", "Warn" or "Err").
    pub fn name(&self) -> (s: &'static str)
        ensures
            s@ == self.spec_name(),
    {
        proof {
            reveal_strlit("Dbg");
            reveal_strlit("Log");
            reveal_strlit("Warn");
            reveal_strlit("Err");
        }
        match self {
            LogLevel::Dbg => "Dbg",
            LogLevel::Log => "Log",
            LogLevel::Warn => "Warn",
            LogLevel::Error => "Err",
        }
    }

    /// Parses a level from its exact, case-sensitive name.
    pub fn from_name(name: &str) -> (r: Option<LogLevel>)
        ensures
            r == LogLevel::spec_from_name(name@),
    {
        if same_text(name, LogLevel::Dbg.name()) {
            Some(LogLevel::Dbg)
        } else if same_text(name, LogLevel::Log.name()) {
            Some(LogLevel::Log)
        } else if same_text(name, LogLevel::Warn.name()) {
            Some(LogLevel::Warn)
        } else if same_text(name, LogLevel::Error.name()) {
            Some(LogLevel::Error)
        } else {
            None
        }
    }
}

/// Severity ranks are distinct and strictly increase from `Dbg` to `Err`.
pub proof fn lemma_level_order()
    ensures
        LogLevel::Dbg.spec_rank() < LogLevel::Log.spec_rank(),
        LogLevel::Log.spec_rank() < LogLevel::Warn.spec_rank(),
        LogLevel::Warn.spec_rank() < LogLevel::Error.spec_rank(),
        forall|a: LogLevel, b: LogLevel| a.spec_rank() == b.spec_rank() ==> a == b,
{
}

/// Reading back the name of a level gives that level, and each name belongs to one level.
pub proof fn lemma_level_name_round_trip(l: LogLevel)
    ensures
        LogLevel::spec_from_name(l.spec_name()) == Some(l),
        forall|s: Seq<char>| LogLevel::spec_from_name(s) == Some(l) ==> s == l.spec_name(),
{
}

} // verus!
