//! The editor's log: which records are kept, the bounded buffer the console
//! shows, and how an entry is printed.
use std::collections::VecDeque;

use vstd::prelude::*;

use crate::text::{chars_of, extend_chars, has_prefix, starts_with, string_from_chars};

verus! {

/// Most entries the console buffer holds; older ones are dropped first.
pub const MAX_ENTRIES: usize = 1000;

/// Severity of a log record, from the most severe to the most verbose.
#[derive(PartialEq, Eq, Structural, Debug, Clone, Copy)]
pub enum LogLevel {
    Error,
    Warn,
    Info,
    Debug,
    Trace,
}

/// Position of a level in the order `Error < Warn < Info < Debug < Trace`.
pub open spec fn level_rank(l: LogLevel) -> int {
    match l {
        LogLevel::Error => 1,
        LogLevel::Warn => 2,
        LogLevel::Info => 3,
        LogLevel::Debug => 4,
        LogLevel::Trace => 5,
    }
}

impl LogLevel {
    /// The level's position in the severity order.
    pub fn rank(&self) -> (r: usize)
        ensures
            r == level_rank(*self),
    {
        match self {
            LogLevel::Error => 1,
            LogLevel::Warn => 2,
            LogLevel::Info => 3,
            LogLevel::Debug => 4,
            LogLevel::Trace => 5,
        }
    }

    /// The level as it is printed: `ERROR`, `WARN`, `INFO`, `DEBUG`, `TRACE`.
    pub fn label(&self) -> (r: &'static str)
        ensures
            r@ == level_label(*self),
    {
        match self {
            LogLevel::Error => "ERROR",
            LogLevel::Warn => "WARN",
            LogLevel::Info => "INFO",
            LogLevel::Debug => "DEBUG",
            LogLevel::Trace => "TRACE",
        }
    }

    /// The console's text colour for the level, as red, green, blue.
    pub fn console_color(&self) -> (r: (u8, u8, u8))
        ensures
            r == level_color(*self),
    {
        match self {
            LogLevel::Error => (255, 100, 100),
            LogLevel::Warn => (255, 200, 100),
            LogLevel::Info => (210, 210, 210),
            LogLevel::Debug => (140, 160, 200),
            LogLevel::Trace => (120, 120, 120),
        }
    }
}

/// The printed form of a level.
pub open spec fn level_label(l: LogLevel) -> Seq<char> {
    match l {
        LogLevel::Error => "ERROR"@,
        LogLevel::Warn => "WARN"@,
        LogLevel::Info => "INFO"@,
        LogLevel::Debug => "DEBUG"@,
        LogLevel::Trace => "TRACE"@,
    }
}

/// The console colour of a level.
pub open spec fn level_color(l: LogLevel) -> (u8, u8, u8) {
    match l {
        LogLevel::Error => (255, 100, 100),
        LogLevel::Warn => (255, 200, 100),
        LogLevel::Info => (210, 210, 210),
        LogLevel::Debug => (140, 160, 200),
        LogLevel::Trace => (120, 120, 120),
    }
}

/// Targets whose records are dropped, matched as prefixes of the record's
/// target: span bookkeeping of `tracing`, and the window, graphics, shader,
/// GUI, audio-decoding and event-loop libraries.
pub open spec fn noisy_targets() -> Seq<Seq<char>> {
    seq![
        "tracing::span"@,
        "winit"@,
        "wgpu"@,
        "naga"@,
        "egui"@,
        "symphonia"@,
        "calloop"@,
    ]
}

/// A record's target starts with one of the noisy prefixes.
pub open spec fn is_noisy(target: Seq<char>) -> bool {
    exists|i: int| 0 <= i < noisy_targets().len() && has_prefix(target, #[trigger] noisy_targets()[i])
}

/// A record is kept when its level is no more verbose than `max_level` and
/// its target is not a noisy one.
pub open spec fn is_enabled(max_level: LogLevel, level: LogLevel, target: Seq<char>) -> bool {
    level_rank(level) <= level_rank(max_level) && !is_noisy(target)
}

/// Whether a record of `level` from `target` is kept.
pub fn enabled(max_level: LogLevel, level: LogLevel, target: &str) -> (r: bool)
    ensures
        r == is_enabled(max_level, level, target@),
{
    if level.rank() > max_level.rank() {
        return false;
    }
    let noisy = ["tracing::span", "winit", "wgpu", "naga", "egui", "symphonia", "calloop"];
    assert(forall|i: int| 0 <= i < 7 ==> #[trigger] noisy@[i]@ == noisy_targets()[i]);
    let mut i: usize = 0;
    while i < 7
        invariant
            i <= 7,
            forall|i: int| 0 <= i < 7 ==> #[trigger] noisy@[i]@ == noisy_targets()[i],
            forall|k: int| 0 <= k < i ==> !has_prefix(target@, #[trigger] noisy_targets()[k]),
        decreases 7 - i,
    {
        if starts_with(target, noisy[i]) {
            return false;
        }
        i = i + 1;
    }
    true
}

/// A record as the console keeps it.
pub struct LogEntry {
    pub level: LogLevel,
    pub message: String,
}

/// The line printed for a record: `[LEVEL] message`.
pub open spec fn entry_line(level: LogLevel, message: Seq<char>) -> Seq<char> {
    "["@ + level_label(level) + "] "@ + message
}

impl LogEntry {
    /// The line printed for this record in the log file and the console.
    pub fn line(&self) -> (r: String)
        ensures
            r@ == entry_line(self.level, self.message@),
    {
        let mut v = chars_of("[");
        extend_chars(&mut v, self.level.label());
        extend_chars(&mut v, "] ");
        extend_chars(&mut v, self.message.as_str());
        string_from_chars(&v)
    }
}

/// The last `MAX_ENTRIES` of a sequence of entries (all of them when fewer).
pub open spec fn newest<T>(s: Seq<T>) -> Seq<T> {
    if s.len() > MAX_ENTRIES {
        s.skip(s.len() - MAX_ENTRIES)
    } else {
        s
    }
}

/// The console's buffer of the most recent log entries.
pub struct LogBuffer {
    entries: VecDeque<LogEntry>,
}

impl View for LogBuffer {
    type V = Seq<LogEntry>;

    closed spec fn view(&self) -> Seq<LogEntry> {
        self.entries@
    }
}

impl LogBuffer {
    /// A buffer never holds more than `MAX_ENTRIES` entries.
    pub open spec fn wf(&self) -> bool {
        self@.len() <= MAX_ENTRIES
    }

    /// An empty buffer.
    pub fn new() -> (r: Self)
        ensures
            r@.len() == 0,
            r.wf(),
    {
        LogBuffer { entries: VecDeque::with_capacity(MAX_ENTRIES) }
    }

    /// Appends an entry, dropping the oldest one when the buffer is full.
    pub fn push(&mut self, entry: LogEntry)
        requires
            old(self).wf(),
        ensures
            final(self)@ == newest(old(self)@.push(entry)),
            final(self).wf(),
    {
        self.entries.push_back(entry);
        let ghost pushed = self.entries@;
        while self.entries.len() > MAX_ENTRIES
            invariant
                1 <= pushed.len() <= MAX_ENTRIES + 1,
                self.entries@.len() != pushed.len() ==> pushed.len() == MAX_ENTRIES + 1,
                self.entries@ == if self.entries@.len() == pushed.len() {
                    pushed
                } else {
                    pushed.skip(1)
                },
            decreases self.entries@.len(),
        {
            let _ = self.entries.pop_front();
            assert(self.entries@ =~= pushed.skip(1));
        }
        assert(newest(pushed) =~= self.entries@);
    }

    /// Number of entries held.
    pub fn len(&self) -> (r: usize)
        ensures
            r == self@.len(),
    {
        self.entries.len()
    }

    /// The `i`-th oldest entry held.
    pub fn get(&self, i: usize) -> (r: &LogEntry)
        requires
            i < self@.len(),
        ensures
            *r == self@[i as int],
    {
        &self.entries[i]
    }
}

/// The buffer always holds the newest `MAX_ENTRIES` entries of everything
/// pushed: pushing onto the newest entries of a history gives the newest
/// entries of the longer history.
pub proof fn lemma_buffer_keeps_newest<T>(history: Seq<T>, entry: T)
    ensures
        newest(newest(history).push(entry)) == newest(history.push(entry)),
{
    if history.len() > MAX_ENTRIES {
        assert(newest(history).push(entry).skip(1) =~= history.push(entry).skip(
            history.len() + 1 - MAX_ENTRIES,
        ));
    } else if history.len() == MAX_ENTRIES {
        assert(history.push(entry).skip(1) =~= history.push(entry).skip(
            history.len() + 1 - MAX_ENTRIES,
        ));
    }
}

/// Whatever was pushed, the buffer holds at most `MAX_ENTRIES` entries, and
/// the last one pushed is its newest.
pub proof fn lemma_buffer_bounded<T>(s: Seq<T>, entry: T)
    requires
        s.len() <= MAX_ENTRIES,
    ensures
        newest(s.push(entry)).len() <= MAX_ENTRIES,
        newest(s.push(entry)).last() == entry,
{
}

} // verus!

verus! {

/// The levels from the most severe to the most verbose.
pub open spec fn severity_order() -> Seq<LogLevel> {
    seq![LogLevel::Error, LogLevel::Warn, LogLevel::Info, LogLevel::Debug, LogLevel::Trace]
}

/// The ranks follow the severity order `Error < Warn < Info < Debug <
/// Trace`: a level listed earlier has the smaller rank.
pub proof fn lemma_rank_follows_severity(i: int, j: int)
    requires
        0 <= i < j < severity_order().len(),
    ensures
        level_rank(severity_order()[i]) < level_rank(severity_order()[j]),
{
}

/// From a target that is not noisy, a record of `level` is kept by a logger
/// of `max_level` exactly when `level` comes no later than `max_level` in
/// the order `Error, Warn, Info, Debug, Trace`. So a warning passes an
/// `Info` logger, and an info record does not pass a `Warn` logger.
pub proof fn lemma_enabled_by_severity(max_level: LogLevel, level: LogLevel, target: Seq<char>)
    requires
        !is_noisy(target),
    ensures
        is_enabled(max_level, level, target) <==> exists|i: int, j: int|
            0 <= i <= j < severity_order().len() && severity_order()[i] == level
                && severity_order()[j] == max_level,
{
    let o = severity_order();
    let pos = |l: LogLevel| -> int {
        match l {
            LogLevel::Error => 0int,
            LogLevel::Warn => 1int,
            LogLevel::Info => 2int,
            LogLevel::Debug => 3int,
            LogLevel::Trace => 4int,
        }
    };
    assert(o[pos(level)] == level);
    assert(o[pos(max_level)] == max_level);
    if is_enabled(max_level, level, target) {
        assert(pos(level) <= pos(max_level));
    }
    if exists|i: int, j: int| 0 <= i <= j < o.len() && o[i] == level && o[j] == max_level {
        let (i, j) = choose|i: int, j: int| 0 <= i <= j < o.len() && o[i] == level && o[j] == max_level;
        assert(i == pos(level));
        assert(j == pos(max_level));
    }
}

/// A record kept at some level is also kept at every more severe level from
/// the same target.
pub proof fn lemma_enabled_for_more_severe(max_level: LogLevel, level: LogLevel, severer: LogLevel, target: Seq<char>)
    requires
        is_enabled(max_level, level, target),
        level_rank(severer) <= level_rank(level),
    ensures
        is_enabled(max_level, severer, target),
{
}

} // verus!
