//! The structured logger: time stamps, names of temporary log files, and
//! the line that is written for a record.

use std::collections::hash_map::DefaultHasher;
use std::hash::{Hash, Hasher};
use vstd::prelude::*;
use vstd::string::{StrSliceExecFns, StringExecFns};
use crate::text::{
    chars_of, decimal, index_of, lemma_decimal_len, push_decimal, push_zero_padded, scan,
    zero_padded, CharClass,
};

verus! {

/// The severity of a record.
#[derive(Copy, Clone, Debug, PartialEq, Eq, Structural)]
pub enum LogLevel {
    Error,
    Warning,
    Info,
    Debug,
    Trace,
    Off,
}

impl LogLevel {
    /// The level's name as it is written in a log line.
    pub open spec fn name(self) -> Seq<char> {
        match self {
            LogLevel::Debug => "DEBUG"@,
            LogLevel::Info => "INFO"@,
            LogLevel::Warning => "WARNING"@,
            LogLevel::Error => "ERROR"@,
            LogLevel::Trace => "TRACE"@,
            LogLevel::Off => "OFF"@,
        }
    }

    /// The level's name as it is written in a log line.
    pub fn as_str(&self) -> (s: &'static str)
        ensures
            s@ == self.name(),
    {
        match self {
            LogLevel::Debug => "DEBUG",
            LogLevel::Info => "INFO",
            LogLevel::Warning => "WARNING",
            LogLevel::Error => "ERROR",
            LogLevel::Trace => "TRACE",
            LogLevel::Off => "OFF",
        }
    }

    /// The level's name as an owned string.
    pub fn to_string(&self) -> (s: String)
        ensures
            s@ == self.name(),
    {
        String::from_str(self.as_str())
    }
}

/// One record to be logged.
#[derive(Clone)]
pub struct LogInfo {
    pub level: LogLevel,
    pub message: String,
    pub filepath: &'static str,
    pub line_number: u32,
    /// The name of the thread that logs, if the caller gives one.
    pub thread: Option<String>,
}

/// A year of 365 days, in seconds.
pub const SECONDS_PER_YEAR: u64 = 31536000;

/// A month of 30 days, in seconds.
pub const SECONDS_PER_MONTH: u64 = 2592000;

pub const SECONDS_PER_DAY: u64 = 86400;

pub const SECONDS_PER_HOUR: u64 = 3600;

pub const SECONDS_PER_MINUTE: u64 = 60;

pub const NANOS_PER_MILLI: u32 = 1000000;

/// The width of the hash in the name of a temporary log file.
pub const HASH_WIDTH: usize = 23;

/// What the directive `%c` stands for at `secs` seconds and `nanos`
/// nanoseconds since the epoch.
///
/// Years have 365 days and months 30: `%Y` counts whole years since the
/// epoch, `%m` whole months within the year and `%d` whole days within the
/// month, each from zero. Any other character stands for itself.
pub open spec fn directive(c: char, secs: nat, nanos: nat) -> Seq<char> {
    if c == 'Y' {
        zero_padded(secs / SECONDS_PER_YEAR as nat, 4)
    } else if c == 'm' {
        zero_padded((secs % SECONDS_PER_YEAR as nat) / SECONDS_PER_MONTH as nat, 2)
    } else if c == 'd' {
        zero_padded((secs % SECONDS_PER_MONTH as nat) / SECONDS_PER_DAY as nat, 2)
    } else if c == 'H' {
        zero_padded((secs % SECONDS_PER_DAY as nat) / SECONDS_PER_HOUR as nat, 2)
    } else if c == 'M' {
        zero_padded((secs % SECONDS_PER_HOUR as nat) / SECONDS_PER_MINUTE as nat, 2)
    } else if c == 'S' {
        zero_padded(secs % SECONDS_PER_MINUTE as nat, 2)
    } else if c == 'f' {
        zero_padded(nanos / NANOS_PER_MILLI as nat, 3)
    } else if c == 'Z' {
        seq!['U', 'T', 'C']
    } else {
        seq![c]
    }
}

/// The time `secs` seconds and `nanos` nanoseconds since the epoch, written
/// after `format`: `%` and the character behind it are a directive, a `%` at
/// the very end stands for itself, and every other character is copied.
pub open spec fn formatted_time(format: Seq<char>, secs: nat, nanos: nat) -> Seq<char>
    decreases format.len(),
{
    if format.len() == 0 {
        Seq::empty()
    } else if format[0] != '%' {
        seq![format[0]] + formatted_time(format.skip(1), secs, nanos)
    } else if format.len() == 1 {
        seq!['%']
    } else {
        directive(format[1], secs, nanos) + formatted_time(format.skip(2), secs, nanos)
    }
}

/// Appends to `out` what the directive `%c` stands for; `text` holds `c` alone.
fn push_directive(out: &mut String, c: char, text: &str, secs: u64, nanos: u32)
    requires
        text@ == seq![c],
    ensures
        final(out)@ == old(out)@ + directive(c, secs as nat, nanos as nat),
{
    if c == 'Y' {
        push_zero_padded(out, secs / SECONDS_PER_YEAR, 4);
    } else if c == 'm' {
        push_zero_padded(out, (secs % SECONDS_PER_YEAR) / SECONDS_PER_MONTH, 2);
    } else if c == 'd' {
        push_zero_padded(out, (secs % SECONDS_PER_MONTH) / SECONDS_PER_DAY, 2);
    } else if c == 'H' {
        push_zero_padded(out, (secs % SECONDS_PER_DAY) / SECONDS_PER_HOUR, 2);
    } else if c == 'M' {
        push_zero_padded(out, (secs % SECONDS_PER_HOUR) / SECONDS_PER_MINUTE, 2);
    } else if c == 'S' {
        push_zero_padded(out, secs % SECONDS_PER_MINUTE, 2);
    } else if c == 'f' {
        let millis: u32 = nanos / NANOS_PER_MILLI;
        push_zero_padded(out, millis as u64, 3);
    } else if c == 'Z' {
        proof {
            reveal_strlit("UTC");
        }
        out.append("UTC");
    } else {
        out.append(text);
    }
}

/// The time `secs` seconds and `nanos` nanoseconds since the epoch, written
/// after `format`.
pub fn format_time(secs: u64, nanos: u32, format: &str) -> (out: String)
    ensures
        out@ == formatted_time(format@, secs as nat, nanos as nat),
{
    let chars = chars_of(format);
    let mut out = String::new();
    let mut i: usize = 0;
    assert(format@.skip(0) =~= format@);
    while i < chars.len()
        invariant
            i <= chars.len(),
            chars@ == format@,
            out@ + formatted_time(format@.skip(i as int), secs as nat, nanos as nat)
                == formatted_time(format@, secs as nat, nanos as nat),
        decreases chars.len() - i,
    {
        let ghost rest = format@.skip(i as int);
        if chars[i] != '%' {
            out.append(format.substring_char(i, i + 1));
            assert(rest.skip(1) =~= format@.skip(i + 1));
            i += 1;
        } else if i + 1 == chars.len() {
            out.append(format.substring_char(i, i + 1));
            i += 1;
        } else {
            let text = format.substring_char(i + 1, i + 2);
            proof {
                assert(format@.subrange(i + 1, i + 2) =~= seq![rest[1]]);
                assert(rest.skip(2) =~= format@.skip(i + 2));
            }
            push_directive(&mut out, chars[i + 1], text, secs, nanos);
            i += 2;
        }
    }
    out
}

/// The format of the time stamp at the start of a log line.
pub const TIME_FORMAT: &'static str = "%Y-%m-%d %H:%M:%S%.3f %Z";

/// The name of the temporary log file for the hash value `hash`: `temp-`,
/// the hash in decimal with zeros in front up to 23 characters, and `.log`.
pub open spec fn temp_name(hash: nat) -> Seq<char> {
    "temp-"@ + zero_padded(hash, HASH_WIDTH as nat) + ".log"@
}

/// The name of the temporary log file for the hash value `hash`. It is 32
/// characters long.
pub fn temp_file_name(hash: u64) -> (name: String)
    ensures
        name@ == temp_name(hash as nat),
        name@.len() == 32,
{
    let mut name = String::from_str("temp-");
    push_zero_padded(&mut name, hash, HASH_WIDTH);
    name.append(".log");
    proof {
        reveal_strlit("temp-");
        reveal_strlit(".log");
        lemma_decimal_len(hash as nat);
    }
    name
}

/// Feeds `text` to `hasher` through `Hash::hash` of the standard library.
/// Nothing is claimed of the state the hasher is left in.
#[verifier::external_body]
fn feed(text: &String, hasher: &mut DefaultHasher) {
    text.hash(hasher);
}

/// A name for a temporary log file, made from a hash of the time stamp for
/// `secs` seconds and `nanos` nanoseconds since the epoch.
pub fn generate_temp_file_name(secs: u64, nanos: u32) -> (name: String)
    ensures
        exists|hash: u64| name@ == temp_name(hash as nat),
        name@.len() == 32,
{
    let stamp = format_time(secs, nanos, TIME_FORMAT);
    let mut hasher = DefaultHasher::new();
    feed(&stamp, &mut hasher);
    let hash = hasher.finish();
    temp_file_name(hash)
}

/// The number in the debug form of a thread id, such as `2` in
/// `ThreadId(2)`: what stands behind the first `(`, up to the next `(` or
/// `)`, whichever comes first.
pub open spec fn thread_number(debug: Seq<char>) -> Seq<char> {
    let behind = debug.skip(index_of(debug, '(') + 1int);
    let piece = behind.take(index_of(behind, '(') as int);
    piece.take(index_of(piece, ')') as int)
}

/// Whether the debug form of a thread id holds a `(`.
pub open spec fn has_thread_number(debug: Seq<char>) -> bool {
    index_of(debug, '(') < debug.len()
}

/// Whether the debug form of a thread id holds a `(`.
pub fn holds_thread_number(debug: &str) -> (b: bool)
    ensures
        b == has_thread_number(debug@),
{
    let chars = chars_of(debug);
    let open = scan(&chars, 0, chars.len(), CharClass::Except('('));
    proof {
        assert(chars@.subrange(0, chars.len() as int) =~= debug@);
    }
    open < chars.len()
}

/// The label of a thread in a log line: its name if it has one, else
/// `unnamed-` and the number in the debug form of its id.
pub open spec fn thread_label_of(name: Option<Seq<char>>, debug: Seq<char>) -> Seq<char> {
    match name {
        Some(name) => name,
        None => "unnamed-"@ + thread_number(debug),
    }
}

/// The label of a thread in a log line, from its name, if it has one, and
/// the debug form of its id.
pub fn thread_label(name: Option<&str>, debug: &str) -> (label: String)
    requires
        name is None ==> has_thread_number(debug@),
    ensures
        label@ == thread_label_of(
            match name {
                Some(n) => Some(n@),
                None => None,
            },
            debug@,
        ),
{
    match name {
        Some(name) => String::from_str(name),
        None => {
            let chars = chars_of(debug);
            let len = chars.len();
            let open = scan(&chars, 0, len, CharClass::Except('('));
            assert(chars@.subrange(0, len as int) =~= debug@);
            let next = scan(&chars, open + 1, len, CharClass::Except('('));
            let close = scan(&chars, open + 1, next, CharClass::Except(')'));
            proof {
                let behind = debug@.skip(index_of(debug@, '(') + 1int);
                let piece = behind.take(index_of(behind, '(') as int);
                assert(piece =~= chars@.subrange(open + 1, next as int));
                assert(piece.take(index_of(piece, ')') as int) =~= debug@.subrange(
                    open + 1,
                    close as int,
                ));
            }
            let mut label = String::from_str("unnamed-");
            label.append(debug.substring_char(open + 1, close));
            label
        },
    }
}

/// The line written for `info` at `secs` seconds and `nanos` nanoseconds
/// since the epoch: time stamp, level, thread, place and message, the first
/// four in square brackets. The thread is the one `info` names, else
/// `current_thread`.
pub open spec fn log_line(info: LogInfo, secs: nat, nanos: nat, current_thread: Seq<char>) -> Seq<
    char,
> {
    "["@ + formatted_time(TIME_FORMAT@, secs, nanos) + "] ["@ + info.level.name() + "] ["@ + (
    match info.thread {
        Some(thread) => thread@,
        None => current_thread,
    }) + "] ["@ + info.filepath@ + ":"@ + decimal(info.line_number as nat) + "] "@
        + info.message@ + "\n"@
}

/// The structured logger's state.
#[derive(Clone, Debug)]
pub struct Logger {
    level: LogLevel,
    filename: String,
}

impl Logger {
    /// The level the logger is set to.
    pub closed spec fn spec_level(&self) -> LogLevel {
        self.level
    }

    /// The name of the file the logger writes to.
    pub closed spec fn spec_filename(&self) -> Seq<char> {
        self.filename@
    }

    /// A logger at level `Info` that writes to the file called `filename`.
    pub fn new(filename: String) -> (logger: Logger)
        ensures
            logger.spec_level() == LogLevel::Info,
            logger.spec_filename() == filename@,
    {
        Logger { level: LogLevel::Info, filename }
    }

    /// The level the logger is set to.
    #[verifier::when_used_as_spec(spec_level)]
    pub fn level(&self) -> (level: LogLevel)
        ensures
            level == self.spec_level(),
    {
        self.level
    }

    /// The name of the file the logger writes to.
    pub fn filename(&self) -> (name: &str)
        ensures
            name@ == self.spec_filename(),
    {
        self.filename.as_str()
    }

    /// Sets the level.
    pub fn set_level(&mut self, level: LogLevel)
        ensures
            final(self).spec_level() == level,
            final(self).spec_filename() == old(self).spec_filename(),
    {
        self.level = level;
    }

    /// The line to be written for `info`, whatever the logger's level.
    pub fn log(&self, info: &LogInfo, secs: u64, nanos: u32, current_thread: &str) -> (line: String)
        ensures
            line@ == log_line(*info, secs as nat, nanos as nat, current_thread@),
    {
        let stamp = format_time(secs, nanos, TIME_FORMAT);
        let mut line = String::from_str("[");
        line.append(stamp.as_str());
        line.append("] [");
        line.append(info.level.as_str());
        line.append("] [");
        match &info.thread {
            Some(thread) => line.append(thread.as_str()),
            None => line.append(current_thread),
        }
        line.append("] [");
        line.append(info.filepath);
        line.append(":");
        push_decimal(&mut line, info.line_number as u64);
        line.append("] ");
        line.append(info.message.as_str());
        line.append("\n");
        line
    }
}

} // verus!
