//! Reading shell history text: splitting it into lines, extracting the command
//! that each line records in each history format, and ordering the commands
//! newest first.
use vstd::prelude::*;

use crate::shell_kind::ShellKind;
use crate::text::{
    chars_of, decimal, decimal_string, is_ascii_digit, lemma_trim_idempotent,
    lemma_split_on_nonempty, range_starts_with, split_on, starts_with, string_from_range, trim,
    trim_range, views,
};

verus! {

/// How a shell writes its history.
#[derive(Debug, Clone, Copy, PartialEq, Eq, Structural)]
pub enum HistoryFormat {
    /// One command per line (PowerShell's PSReadLine file, `doskey /history`,
    /// Nushell's `history.txt`).
    Plain,
    /// One command per line, with optional `#<digits>` timestamp lines (bash, sh).
    BashLike,
    /// Extended zsh lines `: <start>:<elapsed>;<command>`, or plain lines
    /// holding the command whole.
    Zsh,
    /// Fish's YAML-like file, where commands stand on `- cmd: ` lines.
    Fish,
}

/// The pieces of `s` between `'\n'` characters, in order; there is always at
/// least one piece. (`str::lines` differs only in a final empty piece and in a
/// `'\r'` before `'\n'`, both of which disappear when lines are trimmed and
/// empty ones skipped, as every history format here does.)
pub open spec fn split_lines(s: Seq<char>) -> Seq<Seq<char>> {
    split_on(s, '\n')
}

/// `split_lines` never gives an empty sequence of pieces.
pub proof fn lemma_split_lines_nonempty(s: Seq<char>)
    ensures
        split_lines(s).len() >= 1,
{
    lemma_split_on_nonempty(s, '\n');
}

/// A bash timestamp line: `#` followed by nothing but ASCII digits.
pub open spec fn is_timestamp_marker(line: Seq<char>) -> bool {
    &&& line.len() > 0
    &&& line[0] == '#'
    &&& forall|i: int| 1 <= i < line.len() ==> #[trigger] is_ascii_digit(line[i])
}

/// How many ASCII digits follow one another in `s` from position `from` on.
pub open spec fn digit_run(s: Seq<char>, from: int) -> int
    decreases s.len() - from,
{
    if 0 <= from < s.len() && is_ascii_digit(s[from]) {
        1 + digit_run(s, from + 1)
    } else {
        0
    }
}

/// The length of the extended-history prefix `: <start>:<elapsed>;` (both
/// numbers of one or more ASCII digits) at the start of a zsh line, if it has one.
pub open spec fn zsh_extended_prefix(t: Seq<char>) -> Option<int> {
    if t.len() >= 2 && t[0] == ':' && t[1] == ' ' {
        let x = digit_run(t, 2);
        if x > 0 && 2 + x < t.len() && t[2 + x] == ':' {
            let y = digit_run(t, 3 + x);
            if y > 0 && 3 + x + y < t.len() && t[3 + x + y] == ';' {
                Some(4 + x + y)
            } else {
                None
            }
        } else {
            None
        }
    } else {
        None
    }
}

/// What follows prefix `p` in `s`, if `s` begins with it.
pub open spec fn strip_prefix(s: Seq<char>, p: Seq<char>) -> Option<Seq<char>> {
    if starts_with(s, p) {
        Some(s.subrange(p.len() as int, s.len() as int))
    } else {
        None
    }
}

/// The command recorded by one history line, if it records one. Every format
/// trims the line and skips it when empty; bash-like histories also skip
/// timestamp lines; zsh lines lose an extended-history prefix
/// `: <start>:<elapsed>;` (the line is kept whole when nothing follows it, and
/// lines without the prefix are kept whole); fish histories keep only the
/// trimmed text after `- cmd: `.
pub open spec fn entry_of(format: HistoryFormat, line: Seq<char>) -> Option<Seq<char>> {
    let t = trim(line);
    match format {
        HistoryFormat::Plain => if t.len() > 0 {
            Some(t)
        } else {
            None
        },
        HistoryFormat::BashLike => if t.len() > 0 && !is_timestamp_marker(t) {
            Some(t)
        } else {
            None
        },
        HistoryFormat::Zsh => if t.len() == 0 {
            None
        } else {
            match zsh_extended_prefix(t) {
                Some(p) => {
                    let after = trim(t.subrange(p, t.len() as int));
                    if after.len() > 0 {
                        Some(after)
                    } else {
                        Some(t)
                    }
                },
                None => Some(t),
            }
        },
        HistoryFormat::Fish => match strip_prefix(t, "- cmd: "@) {
            Some(rest) => if trim(rest).len() > 0 {
                Some(trim(rest))
            } else {
                None
            },
            None => None,
        },
    }
}

/// The commands recorded by `lines`, the last line's first.
pub open spec fn entries_newest_first(format: HistoryFormat, lines: Seq<Seq<char>>) -> Seq<
    Seq<char>,
>
    decreases lines.len(),
{
    if lines.len() == 0 {
        Seq::empty()
    } else {
        let rest = entries_newest_first(format, lines.drop_first());
        match entry_of(format, lines[0]) {
            Some(e) => rest.push(e),
            None => rest,
        }
    }
}

/// The commands recorded in history text `content`, most recent first.
pub open spec fn history_entries_spec(format: HistoryFormat, content: Seq<char>) -> Seq<Seq<char>> {
    entries_newest_first(format, split_lines(content))
}

/// The bounds inside `s` of each piece of `split_lines(s)`.
fn line_ranges(s: &Vec<char>) -> (r: Vec<(usize, usize)>)
    ensures
        r@.len() == split_lines(s@).len(),
        forall|k: int|
            0 <= k < r@.len() ==> {
                &&& (#[trigger] r@[k]).0 <= r@[k].1 <= s@.len()
                &&& s@.subrange(r@[k].0 as int, r@[k].1 as int) == split_lines(s@)[k]
            },
{
    let mut r: Vec<(usize, usize)> = Vec::new();
    let mut start: usize = 0;
    let mut i: usize = 0;
    assert(s@.take(0) == Seq::<char>::empty());
    while i < s.len()
        invariant
            0 <= start <= i <= s@.len(),
            split_lines(s@.take(i as int)).len() == r@.len() + 1,
            split_lines(s@.take(i as int)).last() == s@.subrange(start as int, i as int),
            forall|k: int|
                0 <= k < r@.len() ==> {
                    &&& (#[trigger] r@[k]).0 <= r@[k].1 <= s@.len()
                    &&& s@.subrange(r@[k].0 as int, r@[k].1 as int) == split_lines(
                        s@.take(i as int),
                    )[k]
                },
        decreases s@.len() - i,
    {
        let ghost before = split_lines(s@.take(i as int));
        assert(s@.take(i + 1).drop_last() == s@.take(i as int));
        assert(s@.take(i + 1).last() == s@[i as int]);
        if s[i] == '\n' {
            r.push((start, i));
            start = i + 1;
        } else {
            assert(s@.subrange(start as int, i + 1) == s@.subrange(start as int, i as int).push(
                s@[i as int],
            ));
        }
        i = i + 1;
    }
    r.push((start, i));
    assert(s@.take(s@.len() as int) == s@);
    r
}

/// Whether the trimmed range `s[lo..hi]` is a bash timestamp line.
fn range_is_timestamp_marker(s: &Vec<char>, lo: usize, hi: usize) -> (r: bool)
    requires
        lo <= hi <= s@.len(),
    ensures
        r == is_timestamp_marker(s@.subrange(lo as int, hi as int)),
{
    let ghost t = s@.subrange(lo as int, hi as int);
    if lo == hi || s[lo] != '#' {
        return false;
    }
    let mut i = lo + 1;
    while i < hi
        invariant
            lo < i <= hi <= s@.len(),
            t == s@.subrange(lo as int, hi as int),
            forall|j: int| 1 <= j < i - lo ==> #[trigger] is_ascii_digit(t[j]),
        decreases hi - i,
    {
        let c = s[i];
        if !('0' <= c && c <= '9') {
            assert(!is_ascii_digit(t[i - lo]));
            return false;
        }
        i = i + 1;
    }
    true
}

/// Whether `line` is a bash timestamp marker (`#` followed by ASCII digits only).
pub fn is_bash_timestamp_marker(line: &str) -> (r: bool)
    ensures
        r == is_timestamp_marker(line@),
{
    let chars = chars_of(line);
    assert(chars@.subrange(0, chars@.len() as int) == chars@);
    range_is_timestamp_marker(&chars, 0, chars.len())
}

/// `digit_run(s[a..b], from - a)`: the digits in `s[a..b]` from `from` on.
fn digit_run_range(s: &Vec<char>, a: usize, b: usize, from: usize) -> (r: usize)
    requires
        a <= from <= b <= s@.len(),
    ensures
        r == digit_run(s@.subrange(a as int, b as int), from - a),
        from + r <= b,
{
    let ghost t = s@.subrange(a as int, b as int);
    let mut i = from;
    while i < b && '0' <= s[i] && s[i] <= '9'
        invariant
            a <= from <= i <= b <= s@.len(),
            t == s@.subrange(a as int, b as int),
            digit_run(t, from - a) == (i - from) + digit_run(t, i - a),
        decreases b - i,
    {
        assert(t[i - a] == s@[i as int]);
        i = i + 1;
    }
    assert(digit_run(t, i - a) == 0) by {
        if i < b {
            assert(t[i - a] == s@[i as int]);
        }
    }
    i - from
}

/// The bounds of `entry_of(format, s[lo..hi])` inside `s`.
fn entry_range(format: HistoryFormat, s: &Vec<char>, lo: usize, hi: usize) -> (r: Option<
    (usize, usize),
>)
    requires
        lo <= hi <= s@.len(),
    ensures
        match entry_of(format, s@.subrange(lo as int, hi as int)) {
            Some(e) => r matches Some(b) && b.0 <= b.1 <= s@.len() && s@.subrange(
                b.0 as int,
                b.1 as int,
            ) == e,
            None => r is None,
        },
{
    let (a, b) = trim_range(s, lo, hi);
    let ghost t = s@.subrange(a as int, b as int);
    match format {
        HistoryFormat::Plain => {
            if a < b {
                Some((a, b))
            } else {
                None
            }
        },
        HistoryFormat::BashLike => {
            if a < b && !range_is_timestamp_marker(s, a, b) {
                Some((a, b))
            } else {
                None
            }
        },
        HistoryFormat::Zsh => {
            if a == b {
                return None;
            }
            let mut prefix: Option<usize> = None;
            if b - a >= 2 && s[a] == ':' && s[a + 1] == ' ' {
                let x = digit_run_range(s, a, b, a + 2);
                if x > 0 && a + 2 + x < b && s[a + 2 + x] == ':' {
                    let y = digit_run_range(s, a, b, a + 3 + x);
                    if y > 0 && a + 3 + x + y < b && s[a + 3 + x + y] == ';' {
                        prefix = Some(a + 4 + x + y);
                    }
                }
            }
            assert(match prefix {
                Some(p) => zsh_extended_prefix(t) == Some(p - a),
                None => zsh_extended_prefix(t) is None,
            });
            match prefix {
                Some(p) => {
                    let (c, d) = trim_range(s, p, b);
                    assert(t.subrange(p - a, t.len() as int) == s@.subrange(p as int, b as int));
                    if c < d {
                        Some((c, d))
                    } else {
                        Some((a, b))
                    }
                },
                None => Some((a, b)),
            }
        },
        HistoryFormat::Fish => {
            if range_starts_with(s, a, b, "- cmd: ") {
                let n = "- cmd: ".unicode_len();
                let (c, d) = trim_range(s, a + n, b);
                assert(t.subrange(n as int, t.len() as int) == s@.subrange(a + n, b as int));
                if c < d {
                    Some((c, d))
                } else {
                    None
                }
            } else {
                None
            }
        },
    }
}

/// The commands recorded in history text `content` in the given format, most
/// recent first: lines are trimmed, and lines that record no command are skipped.
pub fn history_entries(format: HistoryFormat, content: &str) -> (entries: Vec<String>)
    ensures
        views(entries@) == history_entries_spec(format, content@),
{
    let chars = chars_of(content);
    let ranges = line_ranges(&chars);
    let ghost lines = split_lines(chars@);
    let n = ranges.len();
    let mut out: Vec<String> = Vec::new();
    let mut k = n;
    assert(lines.subrange(n as int, n as int) == Seq::<Seq<char>>::empty());
    assert(views(out@) == Seq::<Seq<char>>::empty());
    while k > 0
        invariant
            0 <= k <= n == ranges@.len() == lines.len(),
            lines == split_lines(chars@),
            forall|m: int|
                0 <= m < ranges@.len() ==> {
                    &&& (#[trigger] ranges@[m]).0 <= ranges@[m].1 <= chars@.len()
                    &&& chars@.subrange(ranges@[m].0 as int, ranges@[m].1 as int) == lines[m]
                },
            views(out@) == entries_newest_first(format, lines.subrange(k as int, n as int)),
        decreases k,
    {
        k = k - 1;
        let (lo, hi) = ranges[k];
        assert(lines.subrange(k as int, n as int).drop_first() == lines.subrange(k + 1, n as int));
        assert(lines.subrange(k as int, n as int)[0] == lines[k as int]);
        let ghost prev = out@;
        match entry_range(format, &chars, lo, hi) {
            Some((a, b)) => {
                let e = string_from_range(&chars, a, b);
                out.push(e);
                assert(views(out@) == views(prev).push(e@));
            },
            None => {},
        }
    }
    assert(lines.subrange(0, n as int) == lines);
    out
}

} // verus!

verus! {

/// The item `skip` places after the first, if there is one.
pub open spec fn nth_spec(items: Seq<Seq<char>>, skip: int) -> Option<Seq<char>> {
    if 0 <= skip < items.len() {
        Some(items[skip])
    } else {
        None
    }
}

/// The item `skip` places after the first of a newest-first list (0 is the
/// most recent), or `None` when there are not enough items.
pub fn nth_from_latest(items: Vec<String>, skip: usize) -> (r: Option<String>)
    ensures
        match r {
            Some(s) => nth_spec(views(items@), skip as int) == Some(s@),
            None => nth_spec(views(items@), skip as int) is None,
        },
        skip < items@.len() ==> r == Some(items@[skip as int]),
        skip >= items@.len() ==> r is None,
{
    if skip < items.len() {
        let s = items[skip].clone();
        Some(s)
    } else {
        None
    }
}

/// The command `skip` places before the most recent one in history text
/// `content` (0 is the most recent).
pub fn nth_history_entry(format: HistoryFormat, content: &str, skip: usize) -> (r: Option<String>)
    ensures
        match r {
            Some(s) => nth_spec(history_entries_spec(format, content@), skip as int) == Some(s@),
            None => nth_spec(history_entries_spec(format, content@), skip as int) is None,
        },
{
    let entries = history_entries(format, content);
    nth_from_latest(entries, skip)
}

/// The history format of each shell's history source; an unknown shell has none.
pub open spec fn history_format_spec(shell: ShellKind) -> Option<HistoryFormat> {
    match shell {
        ShellKind::PowerShell => Some(HistoryFormat::Plain),
        ShellKind::Cmd => Some(HistoryFormat::Plain),
        ShellKind::Bash => Some(HistoryFormat::BashLike),
        ShellKind::Sh => Some(HistoryFormat::BashLike),
        ShellKind::Zsh => Some(HistoryFormat::Zsh),
        ShellKind::Fish => Some(HistoryFormat::Fish),
        ShellKind::Nu => Some(HistoryFormat::Plain),
        ShellKind::Unknown => None,
    }
}

/// The history format in which `shell` keeps its history.
pub fn history_format(shell: ShellKind) -> (r: Option<HistoryFormat>)
    ensures
        r == history_format_spec(shell),
{
    match shell {
        ShellKind::PowerShell => Some(HistoryFormat::Plain),
        ShellKind::Cmd => Some(HistoryFormat::Plain),
        ShellKind::Bash => Some(HistoryFormat::BashLike),
        ShellKind::Sh => Some(HistoryFormat::BashLike),
        ShellKind::Zsh => Some(HistoryFormat::Zsh),
        ShellKind::Fish => Some(HistoryFormat::Fish),
        ShellKind::Nu => Some(HistoryFormat::Plain),
        ShellKind::Unknown => None,
    }
}

/// The Nushell pipeline that prints the command `skip` places before the most
/// recent one.
pub fn nu_history_query(skip: usize) -> (query: String)
    ensures
        query@ == "history | get command | reverse | skip "@ + decimal(skip as nat) + " | first"@,
{
    let mut query = "history | get command | reverse | skip ".to_owned();
    let digits = decimal_string(skip as u64);
    query.append(digits.as_str());
    query.append(" | first");
    query
}

} // verus!

verus! {

/// The command a line records, as a sequence of zero or one items.
pub open spec fn entry_seq(format: HistoryFormat, line: Seq<char>) -> Seq<Seq<char>> {
    match entry_of(format, line) {
        Some(e) => seq![e],
        None => Seq::empty(),
    }
}

/// Appending a line to the text adds one last piece.
proof fn lemma_split_lines_append(content: Seq<char>, line: Seq<char>)
    requires
        !line.contains('\n'),
    ensures
        split_lines(content + seq!['\n'] + line) == split_lines(content).push(line),
    decreases line.len(),
{
    let s = content + seq!['\n'] + line;
    if line.len() == 0 {
        assert(s.drop_last() =~= content);
        assert(s.last() == '\n');
        assert(line =~= Seq::<char>::empty());
        assert(split_lines(s) == split_lines(content).push(Seq::<char>::empty()));
    } else {
        assert(s.drop_last() =~= content + seq!['\n'] + line.drop_last());
        assert(!line.drop_last().contains('\n')) by {
            if line.drop_last().contains('\n') {
                let k = choose|k: int| 0 <= k < line.drop_last().len() && line.drop_last()[k] == '\n';
                assert(line[k] == '\n');
            }
        }
        lemma_split_lines_append(content, line.drop_last());
        assert(line.last() != '\n') by {
            assert(line[line.len() - 1] == line.last());
        }
        lemma_split_lines_nonempty(content);
        assert(s.last() == line.last());
        let p = split_lines(s.drop_last());
        assert(p.update(p.len() - 1, p.last().push(s.last())) =~= split_lines(content).push(
            line.drop_last().push(line.last()),
        ));
        assert(line.drop_last().push(line.last()) =~= line);
        assert(split_lines(s) == p.update(p.len() - 1, p.last().push(s.last())));
    }
}

/// A line added after the others contributes its command ahead of theirs.
proof fn lemma_entries_push(format: HistoryFormat, lines: Seq<Seq<char>>, line: Seq<char>)
    ensures
        entries_newest_first(format, lines.push(line)) == entry_seq(format, line)
            + entries_newest_first(format, lines),
    decreases lines.len(),
{
    if lines.len() == 0 {
        assert(lines.push(line).drop_first() =~= lines);
        assert(entries_newest_first(format, lines) =~= Seq::<Seq<char>>::empty());
        assert(entry_seq(format, line) + Seq::<Seq<char>>::empty() =~= entry_seq(format, line));
        match entry_of(format, line) {
            Some(e) => {
                assert(Seq::<Seq<char>>::empty().push(e) =~= seq![e]);
            },
            None => {},
        }
    } else {
        assert(lines.push(line).drop_first() =~= lines.drop_first().push(line));
        assert(lines.push(line)[0] == lines[0]);
        lemma_entries_push(format, lines.drop_first(), line);
        let a = entry_seq(format, line);
        let r = entries_newest_first(format, lines.drop_first());
        match entry_of(format, lines[0]) {
            Some(e) => {
                assert((a + r).push(e) =~= a + r.push(e));
            },
            None => {},
        }
    }
}

/// A command written as a new last line of the history becomes its most
/// recent entry, ahead of all earlier ones, which keep their order; a line
/// that records no command changes nothing.
pub proof fn lemma_appended_line_is_newest(format: HistoryFormat, content: Seq<char>, line: Seq<char>)
    requires
        !line.contains('\n'),
    ensures
        history_entries_spec(format, content + seq!['\n'] + line) == entry_seq(format, line)
            + history_entries_spec(format, content),
{
    lemma_split_lines_append(content, line);
    lemma_entries_push(format, split_lines(content), line);
}

/// Every entry that a line yields is non-empty and trimmed, and a bash-like
/// entry is never a timestamp marker.
proof fn lemma_entry_well_formed(format: HistoryFormat, line: Seq<char>)
    ensures
        entry_of(format, line) matches Some(e) ==> {
            &&& e.len() > 0
            &&& trim(e) == e
            &&& (format == HistoryFormat::BashLike ==> !is_timestamp_marker(e))
        },
{
    let t = trim(line);
    lemma_trim_idempotent(line);
    match format {
        HistoryFormat::Zsh => {
            match zsh_extended_prefix(t) {
                Some(p) => {
                    lemma_trim_idempotent(t.subrange(p, t.len() as int));
                },
                None => {},
            }
        },
        HistoryFormat::Fish => {
            match strip_prefix(t, "- cmd: "@) {
                Some(rest) => {
                    lemma_trim_idempotent(rest);
                },
                None => {},
            }
        },
        _ => {},
    }
}

/// Every history entry is non-empty and carries no surrounding white space,
/// and no entry of a bash-like history is a timestamp marker.
pub proof fn lemma_entries_well_formed(format: HistoryFormat, lines: Seq<Seq<char>>)
    ensures
        forall|i: int|
            0 <= i < entries_newest_first(format, lines).len() ==> {
                let e = #[trigger] entries_newest_first(format, lines)[i];
                &&& e.len() > 0
                &&& trim(e) == e
                &&& (format == HistoryFormat::BashLike ==> !is_timestamp_marker(e))
            },
    decreases lines.len(),
{
    if lines.len() > 0 {
        lemma_entries_well_formed(format, lines.drop_first());
        lemma_entry_well_formed(format, lines[0]);
        let rest = entries_newest_first(format, lines.drop_first());
        let all = entries_newest_first(format, lines);
        assert forall|i: int| 0 <= i < all.len() implies {
            let e = #[trigger] all[i];
            &&& e.len() > 0
            &&& trim(e) == e
            &&& (format == HistoryFormat::BashLike ==> !is_timestamp_marker(e))
        } by {
            if i < rest.len() {
                assert(all[i] == rest[i]);
            }
        }
    }
}

} // verus!

verus! {

/// Picking by position is `Iterator::nth`: below the length, position `skip`
/// gives exactly the item at index `skip` (so different positions give the
/// items at different indices: 0 the most recent, 1 the one before, ...), and
/// at or past the length there is nothing.
pub proof fn lemma_nth_is_index(items: Seq<Seq<char>>, skip: int)
    ensures
        0 <= skip < items.len() ==> nth_spec(items, skip) == Some(items[skip]),
        skip >= items.len() ==> nth_spec(items, skip) is None,
        0 <= skip < items.len() ==> nth_spec(items.drop_first(), skip - 1) == (if skip
            == 0 {
            None
        } else {
            Some(items[skip])
        }),
{
}

/// Once a command is appended to the history, every earlier command is found
/// one position further back: position `skip + 1` of the new history is
/// position `skip` of the old one, and position 0 is the new command.
pub proof fn lemma_positions_shift_after_append(
    format: HistoryFormat,
    content: Seq<char>,
    line: Seq<char>,
    skip: int,
)
    requires
        !line.contains('\n'),
        entry_of(format, line) is Some,
        0 <= skip,
    ensures
        nth_spec(history_entries_spec(format, content + seq!['\n'] + line), 0) == entry_of(
            format,
            line,
        ),
        nth_spec(history_entries_spec(format, content + seq!['\n'] + line), skip + 1) == nth_spec(
            history_entries_spec(format, content),
            skip,
        ),
{
    lemma_appended_line_is_newest(format, content, line);
    let old = history_entries_spec(format, content);
    let e = entry_of(format, line).unwrap();
    assert(entry_seq(format, line) == seq![e]);
    let new = seq![e] + old;
    assert(new[0] == e);
    if skip < old.len() {
        assert(new[skip + 1] == old[skip]);
    }
}

} // verus!

verus! {

/// `digit_run` counts exactly the digits before the first non-digit.
proof fn lemma_digit_run(s: Seq<char>, from: int, k: int)
    requires
        0 <= from,
        0 <= k,
        from + k <= s.len(),
        forall|i: int| from <= i < from + k ==> is_ascii_digit(#[trigger] s[i]),
        from + k == s.len() || !is_ascii_digit(s[from + k]),
    ensures
        digit_run(s, from) == k,
    decreases k,
{
    if k > 0 {
        lemma_digit_run(s, from + 1, k - 1);
    }
}

/// What each history format records for a line, by the shape of the trimmed
/// line `t`:
/// - plain: `t` itself, unless empty;
/// - bash-like: `t`, unless empty or a `#<digits>` timestamp;
/// - zsh: the trimmed command after an extended prefix `: <digits>:<digits>;`
///   (or `t` whole when nothing follows), and `t` whole when it does not start
///   with `:`;
/// - fish: the trimmed command after `- cmd: `, unless empty, and nothing for
///   other lines.
pub proof fn lemma_entry_shapes(line: Seq<char>, start: Seq<char>, elapsed: Seq<char>, command: Seq<char>)
    ensures
        entry_of(HistoryFormat::Plain, line) == (if trim(line).len() > 0 {
            Some(trim(line))
        } else {
            None
        }),
        trim(line).len() > 0 && trim(line)[0] != '#' ==> entry_of(HistoryFormat::BashLike, line)
            == Some(trim(line)),
        trim(line) == seq!['#'] + start && (forall|i: int|
            0 <= i < start.len() ==> is_ascii_digit(#[trigger] start[i])) ==> entry_of(
            HistoryFormat::BashLike,
            line,
        ) is None,
        trim(line).len() > 0 && trim(line)[0] != ':' ==> entry_of(HistoryFormat::Zsh, line) == Some(
            trim(line),
        ),
        trim(line) == seq![':', ' '] + start + seq![':'] + elapsed + seq![';'] + command && start.len()
            > 0 && elapsed.len() > 0 && (forall|i: int|
            0 <= i < start.len() ==> is_ascii_digit(#[trigger] start[i])) && (forall|i: int|
            0 <= i < elapsed.len() ==> is_ascii_digit(#[trigger] elapsed[i])) ==> entry_of(
            HistoryFormat::Zsh,
            line,
        ) == (if trim(command).len() > 0 {
            Some(trim(command))
        } else {
            Some(trim(line))
        }),
        trim(line) == "- cmd: "@ + command ==> entry_of(HistoryFormat::Fish, line) == (if trim(
            command,
        ).len() > 0 {
            Some(trim(command))
        } else {
            None
        }),
        !starts_with(trim(line), "- cmd: "@) ==> entry_of(HistoryFormat::Fish, line) is None,
{
    let t = trim(line);
    if t == seq!['#'] + start && (forall|i: int|
        0 <= i < start.len() ==> is_ascii_digit(#[trigger] start[i])) {
        assert forall|i: int| 1 <= i < t.len() implies #[trigger] is_ascii_digit(t[i]) by {
            assert(t[i] == start[i - 1]);
        }
    }
    if t == seq![':', ' '] + start + seq![':'] + elapsed + seq![';'] + command && start.len() > 0
        && elapsed.len() > 0 && (forall|i: int|
        0 <= i < start.len() ==> is_ascii_digit(#[trigger] start[i])) && (forall|i: int|
        0 <= i < elapsed.len() ==> is_ascii_digit(#[trigger] elapsed[i])) {
        let x = start.len() as int;
        let y = elapsed.len() as int;
        assert forall|i: int| 2 <= i < 2 + x implies is_ascii_digit(#[trigger] t[i]) by {
            assert(t[i] == start[i - 2]);
        }
        assert(t[2 + x] == ':');
        lemma_digit_run(t, 2, x);
        assert forall|i: int| 3 + x <= i < 3 + x + y implies is_ascii_digit(#[trigger] t[i]) by {
            assert(t[i] == elapsed[i - 3 - x]);
        }
        assert(t[3 + x + y] == ';');
        lemma_digit_run(t, 3 + x, y);
        assert(t[0] == ':' && t[1] == ' ');
        assert(zsh_extended_prefix(t) == Some(4 + x + y));
        assert(t.subrange(4 + x + y, t.len() as int) =~= command);
    }
    if t == "- cmd: "@ + command {
        assert(t.subrange(0, "- cmd: "@.len() as int) =~= "- cmd: "@);
        assert(t.subrange("- cmd: "@.len() as int, t.len() as int) =~= command);
    }
}

} // verus!

verus! {

/// Which format each shell's history is read in: bash and sh share the
/// bash-like format, zsh and fish have their own, and PowerShell, cmd and nu
/// keep one command per line; an unknown shell has no history.
pub proof fn lemma_history_formats()
    ensures
        history_format_spec(ShellKind::Bash) == Some(HistoryFormat::BashLike),
        history_format_spec(ShellKind::Sh) == Some(HistoryFormat::BashLike),
        history_format_spec(ShellKind::Zsh) == Some(HistoryFormat::Zsh),
        history_format_spec(ShellKind::Fish) == Some(HistoryFormat::Fish),
        history_format_spec(ShellKind::PowerShell) == Some(HistoryFormat::Plain),
        history_format_spec(ShellKind::Cmd) == Some(HistoryFormat::Plain),
        history_format_spec(ShellKind::Nu) == Some(HistoryFormat::Plain),
        history_format_spec(ShellKind::Unknown) is None,
{
}

} // verus!
