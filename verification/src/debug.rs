//! Diagnostics: levels of verbosity and a log of entries.
//!
//! A `DebugContext` keeps the entries whose level is at most its own. The
//! level of a context never changes what the transpiler does.

use vstd::prelude::*;
use crate::text::{chars_of, decimal, is_text, join, push_decimal, push_str, string_of};

verus! {

/// What `str::to_lowercase` makes of a text.
pub uninterp spec fn lowercase(s: Seq<char>) -> Seq<char>;

/// `str::to_lowercase` of the standard library. The lower-case form of a
/// text depends on the text alone; the contract names it and says no more.
#[verifier::external_body]
fn to_lowercase(s: &str) -> (r: String)
    ensures
        r@ == lowercase(s@),
{
    s.to_lowercase()
}

/// Levels of verbosity, from `Off` up to `Verbose`.
#[derive(Debug, Clone, Copy, PartialEq, Eq, PartialOrd, Ord, Structural)]
pub enum DebugLevel {
    Off,
    Error,
    Warn,
    Info,
    Trace,
    Verbose,
}

impl DebugLevel {
    /// The place of a level in the order `Off < Error < Warn < Info < Trace
    /// < Verbose`.
    pub open spec fn rank_of(self) -> int {
        match self {
            DebugLevel::Off => 0,
            DebugLevel::Error => 1,
            DebugLevel::Warn => 2,
            DebugLevel::Info => 3,
            DebugLevel::Trace => 4,
            DebugLevel::Verbose => 5,
        }
    }

    /// The name of a level.
    pub open spec fn name(self) -> Seq<char> {
        match self {
            DebugLevel::Off => "off"@,
            DebugLevel::Error => "error"@,
            DebugLevel::Warn => "warn"@,
            DebugLevel::Info => "info"@,
            DebugLevel::Trace => "trace"@,
            DebugLevel::Verbose => "verbose"@,
        }
    }

    /// The level that a lower-case name or digit stands for.
    pub open spec fn named(lower: Seq<char>) -> Option<DebugLevel> {
        if lower == "off"@ || lower == "0"@ {
            Some(DebugLevel::Off)
        } else if lower == "error"@ || lower == "1"@ {
            Some(DebugLevel::Error)
        } else if lower == "warn"@ || lower == "warning"@ || lower == "2"@ {
            Some(DebugLevel::Warn)
        } else if lower == "info"@ || lower == "3"@ {
            Some(DebugLevel::Info)
        } else if lower == "trace"@ || lower == "4"@ {
            Some(DebugLevel::Trace)
        } else if lower == "verbose"@ || lower == "5"@ {
            Some(DebugLevel::Verbose)
        } else {
            None
        }
    }

    /// The place of the level in the order of levels.
    pub fn rank(self) -> (r: u8)
        ensures
            r == self.rank_of(),
    {
        match self {
            DebugLevel::Off => 0,
            DebugLevel::Error => 1,
            DebugLevel::Warn => 2,
            DebugLevel::Info => 3,
            DebugLevel::Trace => 4,
            DebugLevel::Verbose => 5,
        }
    }

    /// The level with the given place in the order, if there is one.
    pub fn from_rank(rank: u8) -> (r: Option<DebugLevel>)
        ensures
            rank <= 5 ==> r is Some && r->0.rank_of() == rank,
            rank > 5 ==> r is None,
    {
        match rank {
            0 => Some(DebugLevel::Off),
            1 => Some(DebugLevel::Error),
            2 => Some(DebugLevel::Warn),
            3 => Some(DebugLevel::Info),
            4 => Some(DebugLevel::Trace),
            5 => Some(DebugLevel::Verbose),
            _ => None,
        }
    }

    /// The name of the level.
    pub fn to_string(&self) -> (r: String)
        ensures
            r@ == self.name(),
    {
        let name = match self {
            DebugLevel::Off => "off",
            DebugLevel::Error => "error",
            DebugLevel::Warn => "warn",
            DebugLevel::Info => "info",
            DebugLevel::Trace => "trace",
            DebugLevel::Verbose => "verbose",
        };
        string_of(&chars_of(name))
    }

    /// The level that a name in lower case, or a digit, stands for.
    pub fn from_lowercase(lower: &str) -> (r: Option<DebugLevel>)
        ensures
            r == DebugLevel::named(lower@),
    {
        let w = chars_of(lower);
        if is_text(&w, "off") || is_text(&w, "0") {
            Some(DebugLevel::Off)
        } else if is_text(&w, "error") || is_text(&w, "1") {
            Some(DebugLevel::Error)
        } else if is_text(&w, "warn") || is_text(&w, "warning") || is_text(&w, "2") {
            Some(DebugLevel::Warn)
        } else if is_text(&w, "info") || is_text(&w, "3") {
            Some(DebugLevel::Info)
        } else if is_text(&w, "trace") || is_text(&w, "4") {
            Some(DebugLevel::Trace)
        } else if is_text(&w, "verbose") || is_text(&w, "5") {
            Some(DebugLevel::Verbose)
        } else {
            None
        }
    }

    /// The level that `s` stands for, whatever its case; or an error that
    /// quotes `s`.
    pub fn parse(s: &str) -> (r: Result<DebugLevel, String>)
        ensures
            match DebugLevel::named(lowercase(s@)) {
                Some(level) => r == Ok::<DebugLevel, String>(level),
                None => r is Err && r->Err_0@ == "Invalid debug level: "@ + s@,
            },
    {
        let lower = to_lowercase(s);
        match DebugLevel::from_lowercase(lower.as_str()) {
            Some(level) => Ok(level),
            None => {
                let mut out: Vec<char> = Vec::new();
                push_str(&mut out, "Invalid debug level: ");
                push_str(&mut out, s);
                Err(string_of(&out))
            },
        }
    }
}

impl Default for DebugLevel {
    fn default() -> (r: DebugLevel)
        ensures
            r == DebugLevel::Off,
    {
        DebugLevel::Off
    }
}

impl std::str::FromStr for DebugLevel {
    type Err = String;

    /// The level that `s` stands for, whatever its case; or an error that
    /// quotes `s`.
    fn from_str(s: &str) -> (r: Result<DebugLevel, String>)
        ensures
            match DebugLevel::named(lowercase(s@)) {
                Some(level) => r == Ok::<DebugLevel, String>(level),
                None => r is Err && r->Err_0@ == "Invalid debug level: "@ + s@,
            },
    {
        DebugLevel::parse(s)
    }
}

/// One entry of the log.
#[derive(Debug, Clone, PartialEq)]
pub struct DebugEntry {
    pub level: DebugLevel,
    pub message: String,
    pub line: Option<usize>,
    pub column: Option<usize>,
}

/// A `DebugEntry` with its message as a sequence.
pub struct EntryView {
    pub level: DebugLevel,
    pub message: Seq<char>,
    pub line: Option<usize>,
    pub column: Option<usize>,
}

impl View for DebugEntry {
    type V = EntryView;

    open spec fn view(&self) -> EntryView {
        EntryView {
            level: self.level,
            message: self.message@,
            line: self.line,
            column: self.column,
        }
    }
}

/// The views of the entries of a log.
pub open spec fn entries(logs: Seq<DebugEntry>) -> Seq<EntryView> {
    Seq::new(logs.len(), |i: int| logs[i]@)
}

/// The view of a log with one more entry.
pub proof fn lemma_entries_push(logs: Seq<DebugEntry>, e: DebugEntry)
    ensures
        entries(logs.push(e)) == entries(logs).push(e@),
{
}

/// Where an entry points to: ` [line:column]`, ` [line N]`, or nothing.
pub open spec fn location_text(e: EntryView) -> Seq<char> {
    match (e.line, e.column) {
        (Some(line), Some(column)) => " ["@ + decimal(line as nat) + ":"@ + decimal(
            column as nat,
        ) + "]"@,
        (Some(line), None) => " [line "@ + decimal(line as nat) + "]"@,
        _ => Seq::empty(),
    }
}

/// An entry as one line of text.
pub open spec fn entry_text(e: EntryView) -> Seq<char> {
    "["@ + e.level.name() + "]"@ + location_text(e) + ": "@ + e.message
}

/// The lines of a log.
pub open spec fn entry_texts(logs: Seq<EntryView>) -> Seq<Seq<char>> {
    Seq::new(logs.len(), |i: int| entry_text(logs[i]))
}

/// The log of one transpilation.
#[derive(Debug)]
pub struct DebugContext {
    pub level: DebugLevel,
    pub logs: Vec<DebugEntry>,
}

impl DebugContext {
    /// A context with an empty log.
    pub fn new(level: DebugLevel) -> (ctx: DebugContext)
        ensures
            ctx.level == level,
            ctx.logs@.len() == 0,
    {
        DebugContext { level, logs: Vec::new() }
    }

    /// Changes the level; the log stays.
    pub fn set_level(&mut self, level: DebugLevel)
        ensures
            final(self).level == level,
            final(self).logs == old(self).logs,
    {
        self.level = level;
    }

    /// Adds an entry without a location, if its level is at most that of the
    /// context.
    pub fn log(&mut self, entry_level: DebugLevel, message: &str)
        ensures
            final(self).level == old(self).level,
            entries(final(self).logs@) == if entry_level.rank_of() <= old(self).level.rank_of() {
                entries(old(self).logs@).push(
                    EntryView { level: entry_level, message: message@, line: None, column: None },
                )
            } else {
                entries(old(self).logs@)
            },
    {
        self.log_at(entry_level, message, None, None);
    }

    /// Adds an entry, if its level is at most that of the context.
    pub fn log_at(
        &mut self,
        entry_level: DebugLevel,
        message: &str,
        line: Option<usize>,
        column: Option<usize>,
    )
        ensures
            final(self).level == old(self).level,
            entries(final(self).logs@) == if entry_level.rank_of() <= old(self).level.rank_of() {
                entries(old(self).logs@).push(
                    EntryView { level: entry_level, message: message@, line, column },
                )
            } else {
                entries(old(self).logs@)
            },
    {
        if entry_level.rank() <= self.level.rank() {
            let entry = DebugEntry {
                level: entry_level,
                message: string_of(&chars_of(message)),
                line,
                column,
            };
            proof {
                lemma_entries_push(self.logs@, entry);
            }
            self.logs.push(entry);
        }
    }

    /// Logs at level `Error`.
    pub fn error(&mut self, msg: &str)
        ensures
            final(self).level == old(self).level,
            entries(final(self).logs@) == if 1 <= old(self).level.rank_of() {
                entries(old(self).logs@).push(
                    EntryView {
                        level: DebugLevel::Error,
                        message: msg@,
                        line: None,
                        column: None,
                    },
                )
            } else {
                entries(old(self).logs@)
            },
    {
        self.log(DebugLevel::Error, msg);
    }

    /// Logs at level `Warn`.
    pub fn warn(&mut self, msg: &str)
        ensures
            final(self).level == old(self).level,
            entries(final(self).logs@) == if 2 <= old(self).level.rank_of() {
                entries(old(self).logs@).push(
                    EntryView { level: DebugLevel::Warn, message: msg@, line: None, column: None },
                )
            } else {
                entries(old(self).logs@)
            },
    {
        self.log(DebugLevel::Warn, msg);
    }

    /// Logs at level `Info`.
    pub fn info(&mut self, msg: &str)
        ensures
            final(self).level == old(self).level,
            entries(final(self).logs@) == if 3 <= old(self).level.rank_of() {
                entries(old(self).logs@).push(
                    EntryView { level: DebugLevel::Info, message: msg@, line: None, column: None },
                )
            } else {
                entries(old(self).logs@)
            },
    {
        self.log(DebugLevel::Info, msg);
    }

    /// Logs at level `Trace`.
    pub fn trace(&mut self, msg: &str)
        ensures
            final(self).level == old(self).level,
            entries(final(self).logs@) == if 4 <= old(self).level.rank_of() {
                entries(old(self).logs@).push(
                    EntryView {
                        level: DebugLevel::Trace,
                        message: msg@,
                        line: None,
                        column: None,
                    },
                )
            } else {
                entries(old(self).logs@)
            },
    {
        self.log(DebugLevel::Trace, msg);
    }

    /// Logs at level `Verbose`.
    pub fn verbose(&mut self, msg: &str)
        ensures
            final(self).level == old(self).level,
            entries(final(self).logs@) == if 5 <= old(self).level.rank_of() {
                entries(old(self).logs@).push(
                    EntryView {
                        level: DebugLevel::Verbose,
                        message: msg@,
                        line: None,
                        column: None,
                    },
                )
            } else {
                entries(old(self).logs@)
            },
    {
        self.log(DebugLevel::Verbose, msg);
    }

    /// A copy of the log, oldest entry first.
    pub fn get_logs(&self) -> (r: Vec<DebugEntry>)
        ensures
            entries(r@) == entries(self.logs@),
    {
        let mut r: Vec<DebugEntry> = Vec::new();
        let mut i: usize = 0;
        while i < self.logs.len()
            invariant
                i <= self.logs.len(),
                entries(r@) == entries(self.logs@).subrange(0, i as int),
            decreases self.logs.len() - i,
        {
            let e = &self.logs[i];
            let copy = DebugEntry {
                level: e.level,
                message: e.message.clone(),
                line: e.line,
                column: e.column,
            };
            proof {
                lemma_entries_push(r@, copy);
            }
            r.push(copy);
            assert(entries(self.logs@).subrange(0, i + 1) =~= entries(self.logs@).subrange(
                0,
                i as int,
            ).push(self.logs@[i as int]@));
            i += 1;
        }
        r
    }

    /// Empties the log.
    pub fn clear_logs(&mut self)
        ensures
            final(self).level == old(self).level,
            final(self).logs@.len() == 0,
    {
        self.logs.clear();
    }

    /// The log as text, one entry per line: `[level] [line:column]: message`.
    pub fn format_logs(&self) -> (r: String)
        ensures
            r@ == join(entry_texts(entries(self.logs@)), "\n"@),
    {
        let mut out: Vec<char> = Vec::new();
        let ghost lines = entry_texts(entries(self.logs@));
        let mut i: usize = 0;
        while i < self.logs.len()
            invariant
                i <= self.logs.len(),
                lines == entry_texts(entries(self.logs@)),
                out@ == join(lines.subrange(0, i as int), "\n"@),
            decreases self.logs.len() - i,
        {
            let e = &self.logs[i];
            if i > 0 {
                push_str(&mut out, "\n");
            }
            let ghost start = out@;
            push_str(&mut out, "[");
            push_str(&mut out, e.level.to_string().as_str());
            push_str(&mut out, "]");
            match (e.line, e.column) {
                (Some(line), Some(column)) => {
                    push_str(&mut out, " [");
                    push_decimal(&mut out, line);
                    push_str(&mut out, ":");
                    push_decimal(&mut out, column);
                    push_str(&mut out, "]");
                },
                (Some(line), None) => {
                    push_str(&mut out, " [line ");
                    push_decimal(&mut out, line);
                    push_str(&mut out, "]");
                },
                _ => {},
            }
            push_str(&mut out, ": ");
            push_str(&mut out, e.message.as_str());
            assert(out@ =~= start + entry_text(e@));
            proof {
                let a = lines.subrange(0, i as int);
                let b = lines.subrange(0, i + 1);
                assert(b.drop_last() =~= a);
                assert(b.last() == entry_text(e@));
            }
            i += 1;
        }
        assert(lines.subrange(0, self.logs.len() as int) =~= lines);
        string_of(&out)
    }
}

impl Default for DebugContext {
    fn default() -> (ctx: DebugContext)
        ensures
            ctx.level == DebugLevel::Off,
            ctx.logs@.len() == 0,
    {
        DebugContext::new(DebugLevel::Off)
    }
}

} // verus!
