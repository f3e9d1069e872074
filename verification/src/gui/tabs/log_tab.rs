//! The log view: the entries kept for display, their text form, and the
//! filtered text that is copied to the clipboard.

use vstd::prelude::*;

use crate::tftp::log_buffer::{append_bounded, lemma_newest_bounded, newest, LogEntry, LogLevel};
use crate::tftp::text::{contains, decimal, join, str_contains, string_push, u64_to_string};

verus! {

broadcast use vstd::string::group_string_axioms;

/// The most entries the view keeps.
pub const MAX_LOG_ENTRIES: usize = 10000;

/// The log view's state.
pub struct LogState {
    pub entries: Vec<LogEntry>,
    pub filter_level: LogLevel,
    pub filter_text: String,
    pub auto_scroll: bool,
    pub copy_status: String,
}

impl LogState {
    /// No entries, every level shown, following new entries.
    pub fn new() -> (r: Self)
        ensures
            r.entries@.len() == 0,
            r.filter_level == LogLevel::Trace,
            r.filter_text@.len() == 0,
            r.auto_scroll,
            r.copy_status@.len() == 0,
    {
        LogState {
            entries: Vec::new(),
            filter_level: LogLevel::Trace,
            filter_text: String::new(),
            auto_scroll: true,
            copy_status: String::new(),
        }
    }

    /// Take the entries that arrived since the last update, keeping only the
    /// newest `MAX_LOG_ENTRIES`.
    pub fn update(&mut self, incoming: Vec<LogEntry>)
        ensures
            final(self).entries@ == newest(
                old(self).entries@ + incoming@,
                MAX_LOG_ENTRIES as nat,
            ),
            final(self).entries@.len() <= MAX_LOG_ENTRIES,
            final(self).filter_level == old(self).filter_level,
            final(self).filter_text == old(self).filter_text,
            final(self).auto_scroll == old(self).auto_scroll,
            final(self).copy_status == old(self).copy_status,
    {
        proof {
            lemma_newest_bounded(self.entries@ + incoming@, MAX_LOG_ENTRIES as nat);
        }
        append_bounded(&mut self.entries, incoming, MAX_LOG_ENTRIES);
    }
}

/// `n` in decimal, padded on the left with zeros to at least `w` digits.
pub open spec fn zero_padded(n: nat, w: nat) -> Seq<char> {
    let d = decimal(n);
    if d.len() < w {
        Seq::new((w - d.len()) as nat, |_i: int| '0') + d
    } else {
        d
    }
}

fn push_zero_padded(out: &mut String, n: u64, w: usize)
    ensures
        final(out)@ == old(out)@ + zero_padded(n as nat, w as nat),
{
    let d = u64_to_string(n);
    let len = d.as_str().unicode_len();
    let ghost start = out@;
    if len < w {
        let mut k: usize = 0;
        while k < w - len
            invariant
                len < w,
                k <= w - len,
                out@ == start + Seq::new(k as nat, |_i: int| '0'),
            decreases w - len - k,
        {
            string_push(out, '0');
            assert(start + Seq::new((k + 1) as nat, |_i: int| '0') =~= (start + Seq::new(
                k as nat,
                |_i: int| '0',
            )).push('0'));
            k = k + 1;
        }
    }
    out.append(d.as_str());
    assert(out@ =~= start + zero_padded(n as nat, w as nat));
}

/// Wall-clock time of day (UTC) of a time in milliseconds since the epoch,
/// as `HH:MM:SS.mmm`.
pub open spec fn spec_format_timestamp(ms: nat) -> Seq<char> {
    let secs = ms / 1000;
    zero_padded((secs % 86400) / 3600, 2) + ":"@ + zero_padded((secs % 3600) / 60, 2) + ":"@
        + zero_padded(secs % 60, 2) + "."@ + zero_padded(ms % 1000, 3)
}

/// The time of day of an entry, as `HH:MM:SS.mmm`.
pub fn format_timestamp(timestamp_ms: u64) -> (r: String)
    ensures
        r@ == spec_format_timestamp(timestamp_ms as nat),
{
    let secs = timestamp_ms / 1000;
    let mut out = String::new();
    push_zero_padded(&mut out, (secs % 86400) / 3600, 2);
    out.append(":");
    push_zero_padded(&mut out, (secs % 3600) / 60, 2);
    out.append(":");
    push_zero_padded(&mut out, secs % 60, 2);
    out.append(".");
    push_zero_padded(&mut out, timestamp_ms % 1000, 3);
    out
}

/// `time level [target] message`, the level padded to five characters.
pub open spec fn spec_format_entry(e: LogEntry) -> Seq<char> {
    spec_format_timestamp(e.timestamp_ms as nat) + " "@ + e.level.spec_padded_name() + " ["@
        + e.target@ + "] "@ + e.message@
}

/// One entry as a line of text.
pub fn format_entry(entry: &LogEntry) -> (r: String)
    ensures
        r@ == spec_format_entry(*entry),
{
    let mut out = format_timestamp(entry.timestamp_ms);
    out.append(" ");
    out.append(entry.level.padded_name());
    out.append(" [");
    out.append(entry.target.as_str());
    out.append("] ");
    out.append(entry.message.as_str());
    out
}

/// Whether an entry is shown: at `level` or more severe, and, when a filter
/// text is given, with that text in its message or its target.
pub open spec fn entry_shown(e: LogEntry, level: LogLevel, text: Seq<char>) -> bool {
    e.level.spec_rank() <= level.spec_rank() && (text.len() == 0 || contains(e.message@, text)
        || contains(e.target@, text))
}

/// The text lines of the shown entries, in order.
pub open spec fn shown_lines(entries: Seq<LogEntry>, level: LogLevel, text: Seq<char>) -> Seq<
    Seq<char>,
>
    decreases entries.len(),
{
    if entries.len() == 0 {
        Seq::empty()
    } else {
        let rest = shown_lines(entries.drop_last(), level, text);
        if entry_shown(entries.last(), level, text) {
            rest.push(spec_format_entry(entries.last()))
        } else {
            rest
        }
    }
}

/// The shown entries as text, one line each, joined with `\n`.
pub fn filtered_text(entries: &Vec<LogEntry>, filter_level: LogLevel, filter_text: &str) -> (r:
    String)
    ensures
        r@ == join(shown_lines(entries@, filter_level, filter_text@), "\n"@),
{
    let mut out = String::new();
    let mut any = false;
    let mut i: usize = 0;
    let empty = filter_text.unicode_len() == 0;
    while i < entries.len()
        invariant
            i <= entries@.len(),
            empty == (filter_text@.len() == 0),
            any == (shown_lines(entries@.take(i as int), filter_level, filter_text@).len() > 0),
            out@ == join(shown_lines(entries@.take(i as int), filter_level, filter_text@), "\n"@),
        decreases entries.len() - i,
    {
        let e = &entries[i];
        let ghost before = shown_lines(entries@.take(i as int), filter_level, filter_text@);
        assert(entries@.take(i + 1).drop_last() =~= entries@.take(i as int));
        let shown = e.level.rank() <= filter_level.rank() && (empty || str_contains(
            e.message.as_str(),
            filter_text,
        ) || str_contains(e.target.as_str(), filter_text));
        if shown {
            let line = format_entry(e);
            if any {
                out.append("\n");
            }
            out.append(line.as_str());
            any = true;
            proof {
                let after = before.push(spec_format_entry(*e));
                assert(after.drop_last() =~= before);
                if before.len() == 0 {
                    assert(out@ =~= after[0]);
                } else {
                    assert(out@ =~= join(before, "\n"@) + "\n"@ + after.last());
                }
            }
        }
        i = i + 1;
    }
    assert(entries@.take(entries@.len() as int) =~= entries@);
    out
}

} // verus!
