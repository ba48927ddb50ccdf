use vstd::prelude::*;
use vstd::string::*;
use crate::text::{split, split_text, texts};

verus! {

/// How much an entry of the log matters.
#[derive(Clone, Copy, Debug, PartialEq, Eq, Structural)]
pub enum Level {
    Error,
    Warn,
    Info,
    Debug,
}

/// The colored mark that starts an entry of the level `level`.
pub open spec fn level_marker(level: Level) -> Seq<char> {
    match level {
        Level::Error => "\u{1b}[31m[e]\u{1b}[0m"@,
        Level::Warn => "\u{1b}[33m[w]\u{1b}[0m"@,
        Level::Info => "\u{1b}[36m[i]\u{1b}[0m"@,
        Level::Debug => "\u{1b}[90m[d]\u{1b}[0m"@,
    }
}

impl Level {
    /// The colored mark that starts an entry of this level.
    pub fn marker(&self) -> (m: &'static str)
        ensures
            m@ == level_marker(*self),
    {
        match self {
            Level::Error => "\u{1b}[31m[e]\u{1b}[0m",
            Level::Warn => "\u{1b}[33m[w]\u{1b}[0m",
            Level::Info => "\u{1b}[36m[i]\u{1b}[0m",
            Level::Debug => "\u{1b}[90m[d]\u{1b}[0m",
        }
    }
}

/// An entry of the log: its level and its lines.
#[derive(Debug, PartialEq, Eq)]
pub struct LogItem {
    pub level: Level,
    pub lines: Vec<String>,
}

/// The lines of the entry that the message `s` makes at the level `level`:
/// the mark of the level, a space and the message, split at every line
/// feed.
pub open spec fn entry_lines(level: Level, s: Seq<char>) -> Seq<Seq<char>> {
    split(level_marker(level) + seq![' '] + s, '\n')
}

/// Whether `after` is `before` with one entry more at its end, made of the
/// message `s` at the level `level`.
pub open spec fn logged(before: Seq<LogItem>, after: Seq<LogItem>, level: Level, s: Seq<char>) -> bool {
    &&& after.len() == before.len() + 1
    &&& after.take(before.len() as int) == before
    &&& after.last().level == level
    &&& texts(after.last().lines@) == entry_lines(level, s)
}

/// Adds an entry to the log.
pub fn push(entries: &mut Vec<LogItem>, item: LogItem)
    ensures
        final(entries)@ == old(entries)@.push(item),
{
    entries.push(item);
}

/// Adds the message `s` to the log at the level `level`.
pub fn log(entries: &mut Vec<LogItem>, s: String, level: Level)
    ensures
        logged(old(entries)@, final(entries)@, level, s@),
{
    let mut line = level.marker().to_owned();
    line.push(' ');
    line.append(s.as_str());
    proof {
        assert(line@ =~= level_marker(level) + seq![' '] + s@);
    }
    let lines = split_text(line.as_str(), '\n');
    let item = LogItem { level, lines };
    push(entries, item);
    proof {
        assert(entries@.take(old(entries)@.len() as int) =~= old(entries)@);
    }
}

/// Adds the message `s` to the log as an error.
pub fn error(entries: &mut Vec<LogItem>, s: String)
    ensures
        logged(old(entries)@, final(entries)@, Level::Error, s@),
{
    log(entries, s, Level::Error);
}

/// Adds the message `s` to the log as a warning.
pub fn warn(entries: &mut Vec<LogItem>, s: String)
    ensures
        logged(old(entries)@, final(entries)@, Level::Warn, s@),
{
    log(entries, s, Level::Warn);
}

/// Adds the message `s` to the log as a piece of information.
pub fn info(entries: &mut Vec<LogItem>, s: String)
    ensures
        logged(old(entries)@, final(entries)@, Level::Info, s@),
{
    log(entries, s, Level::Info);
}

/// Adds the message `s` to the log for debugging.
pub fn debug(entries: &mut Vec<LogItem>, s: String)
    ensures
        logged(old(entries)@, final(entries)@, Level::Debug, s@),
{
    log(entries, s, Level::Debug);
}

} // verus!
