//! A small levelled logger: it decides what is let through and what is
//! written; the caller owns the destination.

use std::cmp::Ordering;
use vstd::prelude::*;
use vstd::string::StringExecFns;

verus! {

/// How much a logger lets through, from least to most. A logger set to a
/// level lets through every message of that level or of one before it.
#[derive(Clone, Copy, Debug, PartialEq, Eq, Structural)]
pub enum Level {
    Error,
    Warning,
    Notice,
    Info,
    Debug,
    Trace,
    /// Past every other level: a logger set to it lets everything through.
    NoLevel,
}

impl Level {
    /// Position of the level in the order above, from zero.
    pub open spec fn rank(self) -> nat {
        match self {
            Level::Error => 0,
            Level::Warning => 1,
            Level::Notice => 2,
            Level::Info => 3,
            Level::Debug => 4,
            Level::Trace => 5,
            Level::NoLevel => 6,
        }
    }

    /// Position of the level in its order, from zero.
    pub fn ordinal(self) -> (n: u8)
        ensures
            n == self.rank(),
    {
        match self {
            Level::Error => 0,
            Level::Warning => 1,
            Level::Notice => 2,
            Level::Info => 3,
            Level::Debug => 4,
            Level::Trace => 5,
            Level::NoLevel => 6,
        }
    }
}

impl PartialOrd for Level {
    /// Levels compare as their positions do.
    fn partial_cmp(&self, other: &Level) -> (r: Option<Ordering>) {
        let a = self.ordinal();
        let b = other.ordinal();
        if a < b {
            Some(Ordering::Less)
        } else if a > b {
            Some(Ordering::Greater)
        } else {
            Some(Ordering::Equal)
        }
    }
}

impl vstd::std_specs::cmp::PartialOrdSpecImpl for Level {
    open spec fn obeys_partial_cmp_spec() -> bool {
        true
    }

    open spec fn partial_cmp_spec(&self, other: &Level) -> Option<Ordering> {
        if self.rank() < other.rank() {
            Some(Ordering::Less)
        } else if self.rank() > other.rank() {
            Some(Ordering::Greater)
        } else {
            Some(Ordering::Equal)
        }
    }
}

/// The logger's state: the level up to which messages are let through.
#[derive(Clone, Copy, Debug)]
pub struct Logger {
    level: Level,
}

impl Logger {
    /// The level the logger is set to.
    pub closed spec fn spec_level(&self) -> Level {
        self.level
    }

    /// Whether a message of `level` is let through.
    pub open spec fn lets_through(&self, level: Level) -> bool {
        self.spec_level().rank() >= level.rank()
    }

    /// A logger at level `Info`.
    pub fn new() -> (logger: Logger)
        ensures
            logger.spec_level() == Level::Info,
    {
        Logger { level: Level::Info }
    }

    /// The level the logger is set to.
    #[verifier::when_used_as_spec(spec_level)]
    pub fn level(&self) -> (level: Level)
        ensures
            level == self.spec_level(),
    {
        self.level
    }

    /// What is to be written for `msg` at `level`: the message and a line
    /// break if the logger lets the level through, nothing otherwise.
    pub fn log(&self, level: Level, msg: &str) -> (line: Option<String>)
        ensures
            line is Some <==> self.lets_through(level),
            line matches Some(text) ==> text@ == msg@ + seq!['\n'],
    {
        if self.level >= level {
            let text = String::from_str(msg).concat("\n");
            proof {
                reveal_strlit("\n");
            }
            Some(text)
        } else {
            None
        }
    }
}

/// Sets the level of `logger`.
pub fn set_level(logger: &mut Logger, level: Level)
    ensures
        final(logger).spec_level() == level,
{
    logger.level = level;
}

} // verus!
