//! Reading back log lines written in the tracing text format
//! (`2026-03-13T10:00:00Z  INFO target: message`).

use vstd::prelude::*;

use crate::tftp::text::{
    chars_of, find, find_chars, lemma_lex_total, lemma_lex_trans, lex_le, split_fold, starts_with,
    str_lex_le, str_starts_with, string_of_chars, trim, trimmed_string, views,
};

verus! {

broadcast use vstd::string::group_string_axioms, vstd::seq_lib::group_to_multiset_ensures,
    vstd::multiset::group_multiset_axioms;

/// Severity of a log entry, from most to least severe.
#[derive(Debug, Clone, Copy, PartialEq, Eq, Structural)]
pub enum LogLevel {
    Error,
    Warn,
    Info,
    Debug,
    Trace,
}

impl LogLevel {
    /// Verbosity rank: `Error` is 0, `Trace` is 4.
    pub open spec fn spec_rank(self) -> nat {
        match self {
            LogLevel::Error => 0,
            LogLevel::Warn => 1,
            LogLevel::Info => 2,
            LogLevel::Debug => 3,
            LogLevel::Trace => 4,
        }
    }

    pub fn rank(&self) -> (r: u8)
        ensures
            r == self.spec_rank(),
    {
        match self {
            LogLevel::Error => 0,
            LogLevel::Warn => 1,
            LogLevel::Info => 2,
            LogLevel::Debug => 3,
            LogLevel::Trace => 4,
        }
    }

    /// The level's name padded to five characters, as `{:5}` prints it.
    pub open spec fn spec_padded_name(self) -> Seq<char> {
        match self {
            LogLevel::Error => "ERROR"@,
            LogLevel::Warn => "WARN "@,
            LogLevel::Info => "INFO "@,
            LogLevel::Debug => "DEBUG"@,
            LogLevel::Trace => "TRACE"@,
        }
    }

    pub fn padded_name(&self) -> (r: &'static str)
        ensures
            r@ == self.spec_padded_name(),
    {
        match self {
            LogLevel::Error => "ERROR",
            LogLevel::Warn => "WARN ",
            LogLevel::Info => "INFO ",
            LogLevel::Debug => "DEBUG",
            LogLevel::Trace => "TRACE",
        }
    }
}

/// A single captured log entry. The time is counted in milliseconds since
/// the UNIX epoch.
#[derive(Debug, Clone)]
pub struct LogEntry {
    pub timestamp_ms: u64,
    pub level: LogLevel,
    pub target: String,
    pub message: String,
}

/// The marker of a level in a log line, with its surrounding spaces.
pub open spec fn level_marker(l: LogLevel) -> Seq<char> {
    match l {
        LogLevel::Error => " ERROR "@,
        LogLevel::Warn => " WARN "@,
        LogLevel::Debug => " DEBUG "@,
        LogLevel::Trace => " TRACE "@,
        LogLevel::Info => " INFO "@,
    }
}

/// The level of a (trimmed) line: the first of ERROR, WARN, DEBUG, TRACE whose
/// marker occurs in it, INFO otherwise.
pub open spec fn line_level(t: Seq<char>) -> LogLevel {
    if find(t, " ERROR "@) is Some {
        LogLevel::Error
    } else if find(t, " WARN "@) is Some {
        LogLevel::Warn
    } else if find(t, " DEBUG "@) is Some {
        LogLevel::Debug
    } else if find(t, " TRACE "@) is Some {
        LogLevel::Trace
    } else {
        LogLevel::Info
    }
}

/// Level, target and message of a line: after the level marker, the text up
/// to the first ": " (trimmed) is the target and the rest the message; without
/// ": " the target is "app"; without a marker the whole trimmed line is the
/// message.
pub open spec fn spec_parse_log_line(line: Seq<char>) -> (LogLevel, Seq<char>, Seq<char>) {
    let t = trim(line);
    let l = line_level(t);
    let m = level_marker(l);
    match find(t, m) {
        Some(pos) => {
            let after = t.skip(pos + m.len());
            match find(after, ": "@) {
                Some(c) => (l, trim(after.take(c)), after.skip(c + 2)),
                None => (l, "app"@, after),
            }
        },
        None => (l, "app"@, t),
    }
}

/// The entry a line of a log file stands for; its original time is not
/// read back, so the entry carries `now_ms`.
pub fn parse_log_line(line: &str, now_ms: u64) -> (r: LogEntry)
    ensures
        (r.level, r.target@, r.message@) == spec_parse_log_line(line@),
        r.timestamp_ms == now_ms,
{
    let ts = trimmed_string(line);
    let t = chars_of(ts.as_str());
    let level = if find_chars(&t, &chars_of(" ERROR "), 0).is_some() {
        LogLevel::Error
    } else if find_chars(&t, &chars_of(" WARN "), 0).is_some() {
        LogLevel::Warn
    } else if find_chars(&t, &chars_of(" DEBUG "), 0).is_some() {
        LogLevel::Debug
    } else if find_chars(&t, &chars_of(" TRACE "), 0).is_some() {
        LogLevel::Trace
    } else {
        LogLevel::Info
    };
    let marker_str = match level {
        LogLevel::Error => " ERROR ",
        LogLevel::Warn => " WARN ",
        LogLevel::Debug => " DEBUG ",
        LogLevel::Trace => " TRACE ",
        LogLevel::Info => " INFO ",
    };
    let marker = chars_of(marker_str);
    let n = t.len();
    let sep = chars_of(": ");
    proof {
        reveal_strlit(": ");
    }
    match find_chars(&t, &marker, 0) {
        Some(pos) => {
            let start = pos + marker.len();
            let after = ts.as_str().substring_char(start, n);
            let a = chars_of(after);
            assert(a@ =~= t@.skip(start as int));
            let alen = a.len();
            match find_chars(&a, &sep, 0) {
                Some(c) => {
                    let target = trimmed_string(after.substring_char(0, c));
                    let message = after.substring_char(c + 2, alen).to_string();
                    assert(a@.subrange(0, c as int) =~= a@.take(c as int));
                    assert(a@.subrange(c + 2, a@.len() as int) =~= a@.skip(c + 2));
                    LogEntry { timestamp_ms: now_ms, level, target, message }
                },
                None => LogEntry {
                    timestamp_ms: now_ms,
                    level,
                    target: "app".to_string(),
                    message: after.to_string(),
                },
            }
        },
        None => LogEntry { timestamp_ms: now_ms, level, target: "app".to_string(), message: ts },
    }
}


/// The last `max` entries of `s` (all of them when there are fewer).
pub open spec fn newest<T>(s: Seq<T>, max: nat) -> Seq<T> {
    if s.len() > max {
        s.skip(s.len() - max)
    } else {
        s
    }
}

/// Append `incoming` to `entries` and keep only the newest `max` entries.
pub fn append_bounded(entries: &mut Vec<LogEntry>, incoming: Vec<LogEntry>, max: usize)
    ensures
        final(entries)@ == newest(old(entries)@ + incoming@, max as nat),
{
    let mut all: Vec<LogEntry> = Vec::new();
    std::mem::swap(&mut all, entries);
    let mut incoming = incoming;
    all.append(&mut incoming);
    let n = all.len();
    if n > max {
        let excess = n - max;
        let mut kept: Vec<LogEntry> = Vec::new();
        let mut i = excess;
        while i < n
            invariant
                excess <= i <= n == all@.len(),
                kept@ == all@.subrange(excess as int, i as int),
            decreases n - i,
        {
            kept.push(all[i].clone_entry());
            i = i + 1;
        }
        assert(kept@ =~= all@.skip(excess as int));
        *entries = kept;
    } else {
        *entries = all;
    }
}

impl LogEntry {
    /// A copy of the entry.
    pub fn clone_entry(&self) -> (r: LogEntry)
        ensures
            r == *self,
    {
        LogEntry {
            timestamp_ms: self.timestamp_ms,
            level: self.level,
            target: self.target.clone(),
            message: self.message.clone(),
        }
    }
}

/// The lines of a text as `str::lines` yields them: split at each `\n`, a
/// `\r` right before a `\n` dropped, and no empty line after a final `\n`.
pub open spec fn lines_of(s: Seq<char>) -> Seq<Seq<char>> {
    let (done, cur) = split_fold(s, '\n');
    done.map_values(|l: Seq<char>| strip_cr(l)) + if cur.len() == 0 {
        Seq::<Seq<char>>::empty()
    } else {
        seq![cur]
    }
}

/// A line without the `\r` that ended it, if one did.
pub open spec fn strip_cr(l: Seq<char>) -> Seq<char> {
    if l.len() > 0 && l.last() == '\r' {
        l.drop_last()
    } else {
        l
    }
}

/// Each line followed by `\n`, written one after another.
pub open spec fn unlines(ls: Seq<Seq<char>>) -> Seq<char>
    decreases ls.len(),
{
    if ls.len() == 0 {
        Seq::empty()
    } else {
        unlines(ls.drop_last()) + ls.last().push('\n')
    }
}

/// The lines of `s`, as `str::lines` yields them.
pub fn lines_of_str(s: &str) -> (r: Vec<Vec<char>>)
    ensures
        r@.map_values(|l: Vec<char>| l@) == lines_of(s@),
{
    let v = chars_of(s);
    let mut out: Vec<Vec<char>> = Vec::new();
    let mut cur: Vec<char> = Vec::new();
    let mut i: usize = 0;
    while i < v.len()
        invariant
            v@ == s@,
            i <= v@.len(),
            out@.map_values(|l: Vec<char>| l@) == split_fold(v@.take(i as int), '\n').0.map_values(
                |l: Seq<char>| strip_cr(l),
            ),
            cur@ == split_fold(v@.take(i as int), '\n').1,
        decreases v.len() - i,
    {
        let c = v[i];
        let ghost pre = v@.take(i as int);
        assert(v@.take(i + 1).drop_last() =~= pre);
        assert(v@.take(i + 1).last() == c);
        if c == '\n' {
            let ghost done = split_fold(pre, '\n').0;
            let k = cur.len();
            let mut line = cur;
            let ghost c0 = cur@;
            if k > 0 && line[k - 1] == '\r' {
                line.pop();
                assert(line@ =~= strip_cr(c0));
            } else {
                assert(line@ =~= strip_cr(c0));
            }
            let ghost before = out@.map_values(|l: Vec<char>| l@);
            out.push(line);
            assert(out@.map_values(|l: Vec<char>| l@) =~= before.push(strip_cr(c0)));
            assert(done.push(c0).map_values(|l: Seq<char>| strip_cr(l)) =~= done.map_values(
                |l: Seq<char>| strip_cr(l),
            ).push(strip_cr(c0)));
            cur = Vec::new();
        } else {
            cur.push(c);
        }
        i = i + 1;
    }
    assert(v@.take(v@.len() as int) =~= v@);
    let ghost done = split_fold(v@, '\n').0;
    if cur.len() > 0 {
        out.push(cur);
    }
    assert(out@.map_values(|l: Vec<char>| l@) =~= lines_of(s@));
    out
}

/// What truncating a log to its last `max_lines` lines writes back: `None`
/// when it has no more lines than that, else those lines, each ended by `\n`.
pub open spec fn spec_truncate_log(content: Seq<char>, max_lines: nat) -> Option<Seq<char>> {
    let ls = lines_of(content);
    if ls.len() <= max_lines {
        None
    } else {
        Some(unlines(ls.skip(ls.len() - max_lines)))
    }
}

/// The content a log file keeps when only its last `max_lines` lines stay.
pub fn truncate_log_content(content: &str, max_lines: usize) -> (r: Option<String>)
    ensures
        match r {
            Some(t) => spec_truncate_log(content@, max_lines as nat) == Some(t@),
            None => spec_truncate_log(content@, max_lines as nat) is None,
        },
{
    let ls = lines_of_str(content);
    let ghost lv = ls@.map_values(|l: Vec<char>| l@);
    let n = ls.len();
    if n <= max_lines {
        return None;
    }
    let start = n - max_lines;
    let mut out = String::new();
    let mut i = start;
    while i < n
        invariant
            start <= i <= n == ls@.len(),
            lv == ls@.map_values(|l: Vec<char>| l@),
            out@ == unlines(lv.subrange(start as int, i as int)),
        decreases n - i,
    {
        assert(lv.subrange(start as int, i + 1).drop_last() =~= lv.subrange(start as int, i as int));
        let line = string_of_chars(&ls[i]);
        string_push_newline(&mut out, &line);
        i = i + 1;
    }
    assert(lv.subrange(start as int, n as int) =~= lv.skip(start as int));
    Some(out)
}

fn string_push_newline(out: &mut String, line: &String)
    ensures
        final(out)@ == old(out)@ + line@.push('\n'),
{
    out.append(line.as_str());
    out.append("\n");
    proof {
        reveal_strlit("\n");
    }
    assert(final(out)@ =~= old(out)@ + line@.push('\n'));
}


/// Whether `name` is a dated file of the log named `base` (a daily rolling
/// log such as `x.log.2026-03-13`): it starts with `base` and is longer.
pub open spec fn is_dated_log(name: Seq<char>, base: Seq<char>) -> bool {
    starts_with(name, base) && name.len() > base.len()
}

/// The names that are dated files of the log `base`, in the order given.
pub open spec fn dated_logs(names: Seq<Seq<char>>, base: Seq<char>) -> Seq<Seq<char>>
    decreases names.len(),
{
    if names.len() == 0 {
        Seq::empty()
    } else {
        let rest = dated_logs(names.drop_last(), base);
        if is_dated_log(names.last(), base) {
            rest.push(names.last())
        } else {
            rest
        }
    }
}

/// The dated files of the log `base` among the names of its directory, the
/// most recent (the greatest name) first.
pub fn dated_log_names(base: &str, names: Vec<String>) -> (r: Vec<String>)
    ensures
        views(r@).to_multiset() == dated_logs(views(names@), base@).to_multiset(),
        forall|i: int, j: int|
            0 <= i < j < r@.len() ==> lex_le((#[trigger] r@[j])@, (#[trigger] r@[i])@),
{
    let mut picked: Vec<String> = Vec::new();
    let mut i: usize = 0;
    while i < names.len()
        invariant
            i <= names@.len(),
            views(picked@) == dated_logs(views(names@.take(i as int)), base@),
        decreases names.len() - i,
    {
        assert(views(names@.take(i + 1)).drop_last() =~= views(names@.take(i as int)));
        let name = &names[i];
        let n = name.as_str().unicode_len();
        let b = base.unicode_len();
        if str_starts_with(name.as_str(), base) && n > b {
            let ghost before = picked@;
            picked.push(name.clone());
            assert(views(picked@) =~= views(before).push(name@));
        }
        i = i + 1;
    }
    assert(names@.take(names@.len() as int) =~= names@);
    let ghost target = views(picked@);
    let mut rest = picked;
    let mut out: Vec<String> = Vec::new();
    while rest.len() > 0
        invariant
            views(out@).to_multiset().add(views(rest@).to_multiset()) == target.to_multiset(),
            forall|a: int, c: int|
                0 <= a < c < out@.len() ==> lex_le((#[trigger] out@[c])@, (#[trigger] out@[a])@),
        decreases rest.len(),
    {
        let ghost before_rest = rest@;
        let x = rest.remove(0);
        proof {
            assert(views(before_rest) =~= views(before_rest.remove(0)).insert(0, x@));
            vstd::seq_lib::to_multiset_insert(views(before_rest.remove(0)), 0, x@);
            assert(views(rest@) =~= views(before_rest.remove(0)));
        }
        let mut pos: usize = 0;
        while pos < out.len() && str_lex_le(x.as_str(), out[pos].as_str())
            invariant
                pos <= out@.len(),
                forall|k: int| 0 <= k < pos ==> lex_le(x@, (#[trigger] out@[k])@),
            decreases out.len() - pos,
        {
            pos = pos + 1;
        }
        let ghost old_out = out@;
        proof {
            if pos < old_out.len() {
                lemma_lex_total(x@, old_out[pos as int]@);
            }
            assert forall|j: int| pos <= j < old_out.len() implies lex_le(
                (#[trigger] old_out[j])@,
                x@,
            ) by {
                if j > pos {
                    lemma_lex_trans(old_out[j]@, old_out[pos as int]@, x@);
                }
            }
        }
        out.insert(pos, x);
        proof {
            assert(views(out@) =~= views(old_out).insert(pos as int, x@));
            vstd::seq_lib::to_multiset_insert(views(old_out), pos as int, x@);
            assert forall|a: int, c: int| 0 <= a < c < out@.len() implies lex_le(
                (#[trigger] out@[c])@,
                (#[trigger] out@[a])@,
            ) by {
                if c < pos {
                    assert(out@[a] == old_out[a] && out@[c] == old_out[c]);
                } else if c == pos {
                    assert(out@[a] == old_out[a]);
                } else if a == pos {
                    assert(out@[c] == old_out[c - 1]);
                } else if a < pos {
                    assert(out@[a] == old_out[a] && out@[c] == old_out[c - 1]);
                } else {
                    assert(out@[a] == old_out[a - 1] && out@[c] == old_out[c - 1]);
                }
            }
            assert(views(out@).to_multiset().add(views(rest@).to_multiset()) =~= target.to_multiset());
        }
    }
    out
}


/// Keeping the newest entries never keeps more than asked, keeps the end of
/// the sequence, and keeps everything when there is room.
pub proof fn lemma_newest_bounded<T>(s: Seq<T>, max: nat)
    ensures
        newest(s, max).len() <= max || newest(s, max) == s,
        newest(s, max).len() <= s.len(),
        s.len() <= max ==> newest(s, max) == s,
        s.len() > max ==> newest(s, max).len() == max && newest(s, max) == s.subrange(
            s.len() - max,
            s.len() as int,
        ),
{
    if s.len() > max {
        assert(s.skip(s.len() - max) =~= s.subrange(s.len() - max, s.len() as int));
    }
}

/// Whether `c` occurs in `s`.
pub open spec fn has_char(s: Seq<char>, c: char) -> bool {
    exists|i: int| 0 <= i < s.len() && s[i] == c
}

proof fn lemma_split_fold_pieces(s: Seq<char>, c: char)
    ensures
        forall|i: int|
            0 <= i < split_fold(s, c).0.len() ==> !has_char(#[trigger] split_fold(s, c).0[i], c),
        !has_char(split_fold(s, c).1, c),
    decreases s.len(),
{
    if s.len() > 0 {
        lemma_split_fold_pieces(s.drop_last(), c);
        let (done, cur) = split_fold(s.drop_last(), c);
        if s.last() != c {
            assert(!has_char(cur.push(s.last()), c)) by {
                if has_char(cur.push(s.last()), c) {
                    let k = choose|k: int| 0 <= k < cur.len() + 1 && cur.push(s.last())[k] == c;
                    assert(k < cur.len());
                    assert(cur[k] == c);
                }
            }
        }
    }
}

proof fn lemma_split_fold_unlines(ls: Seq<Seq<char>>)
    requires
        forall|i: int| 0 <= i < ls.len() ==> !has_char(#[trigger] ls[i], '\n'),
    ensures
        split_fold(unlines(ls), '\n') == (ls, Seq::<char>::empty()),
    decreases ls.len(),
{
    if ls.len() > 0 {
        let front = ls.drop_last();
        let l = ls.last();
        lemma_split_fold_unlines(front);
        assert forall|i: int| 0 <= i < l.len() implies #[trigger] l[i] != '\n' by {
            assert(!has_char(ls[ls.len() - 1], '\n'));
        }
        crate::tftp::text::lemma_split_fold_plain(unlines(front), l, '\n');
        assert(Seq::<char>::empty() + l =~= l);
        let u = unlines(front) + l;
        assert(unlines(ls) =~= u.push('\n'));
        assert(u.push('\n').drop_last() =~= u);
        assert(front.push(l) =~= ls);
    }
}

/// Reading the lines of a written list of lines gives them back, when no
/// line ends with `\r` (a `\r` before a line end is dropped on reading).
pub proof fn lemma_lines_of_unlines(ls: Seq<Seq<char>>)
    requires
        forall|i: int| 0 <= i < ls.len() ==> !has_char(#[trigger] ls[i], '\n'),
        forall|i: int| 0 <= i < ls.len() ==> strip_cr(#[trigger] ls[i]) == ls[i],
    ensures
        lines_of(unlines(ls)) == ls,
{
    lemma_split_fold_unlines(ls);
    assert(ls.map_values(|l: Seq<char>| strip_cr(l)) =~= ls);
    assert(lines_of(unlines(ls)) =~= ls);
}

proof fn lemma_lines_have_no_newline(content: Seq<char>)
    ensures
        forall|i: int|
            0 <= i < lines_of(content).len() ==> !has_char(#[trigger] lines_of(content)[i], '\n'),
{
    let ls = lines_of(content);
    lemma_split_fold_pieces(content, '\n');
    let (done, cur) = split_fold(content, '\n');
    assert forall|i: int| 0 <= i < ls.len() implies !has_char(#[trigger] ls[i], '\n') by {
        if i < done.len() {
            assert(ls[i] == strip_cr(done[i]));
            assert(!has_char(done[i], '\n'));
            if has_char(strip_cr(done[i]), '\n') {
                let k = choose|k: int| 0 <= k < strip_cr(done[i]).len() && strip_cr(done[i])[k] == '\n';
                assert(done[i][k] == '\n');
            }
        } else {
            assert(ls[i] == cur);
        }
    }
}

/// Truncating a log keeps exactly `max_lines` lines, so truncating the result
/// again to the same number of lines changes nothing, whatever the content.
pub proof fn lemma_truncate_idempotent(content: Seq<char>, max_lines: nat)
    ensures
        spec_truncate_log(content, max_lines) matches Some(t) ==> lines_of(t).len() == max_lines
            && spec_truncate_log(t, max_lines) is None,
{
    let ls = lines_of(content);
    if ls.len() > max_lines {
        let tail = ls.skip(ls.len() - max_lines);
        lemma_lines_have_no_newline(content);
        assert forall|i: int| 0 <= i < tail.len() implies !has_char(#[trigger] tail[i], '\n') by {
            assert(tail[i] == ls[i + ls.len() - max_lines]);
        }
        lemma_split_fold_unlines(tail);
        let t = unlines(tail);
        assert(lines_of(t) =~= tail.map_values(|l: Seq<char>| strip_cr(l)));
    }
}

/// A truncated log holds exactly the last `max_lines` lines of the log, when
/// none of them ends with `\r`.
pub proof fn lemma_truncated_log_lines(content: Seq<char>, max_lines: nat)
    requires
        lines_of(content).len() > max_lines,
        forall|i: int|
            lines_of(content).len() - max_lines <= i < lines_of(content).len() ==> strip_cr(
                #[trigger] lines_of(content)[i],
            ) == lines_of(content)[i],
    ensures
        spec_truncate_log(content, max_lines) matches Some(t) && lines_of(t) == lines_of(
            content,
        ).skip(lines_of(content).len() - max_lines),
{
    let ls = lines_of(content);
    let tail = ls.skip(ls.len() - max_lines);
    lemma_lines_have_no_newline(content);
    assert forall|i: int| 0 <= i < tail.len() implies !has_char(#[trigger] tail[i], '\n') by {
        assert(tail[i] == ls[i + ls.len() - max_lines]);
    }
    assert forall|i: int| 0 <= i < tail.len() implies strip_cr(#[trigger] tail[i]) == tail[i] by {
        assert(tail[i] == ls[i + ls.len() - max_lines]);
    }
    lemma_lines_of_unlines(tail);
}

} // verus!
