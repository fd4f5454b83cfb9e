//! The local action log: one JSON object per line, oldest first.

use vstd::prelude::*;
use crate::text::{trim, chars_of, push_char, trim_string};

verus! {

/// One logged action.
pub struct LogEntry {
    pub timestamp: String,
    pub action: String,
    pub ok: bool,
    pub message: String,
    pub source: String,
}

/// `l` without a final carriage return.
pub open spec fn strip_cr(l: Seq<char>) -> Seq<char> {
    if l.len() > 0 && l.last() == '\r' {
        l.drop_last()
    } else {
        l
    }
}

/// The characters after the last line feed of `s`.
pub open spec fn open_line(s: Seq<char>) -> Seq<char>
    decreases s.len(),
{
    if s.len() == 0 {
        s
    } else if s.last() == '\n' {
        Seq::empty()
    } else {
        open_line(s.drop_last()).push(s.last())
    }
}

/// The lines of `s` that a line feed ends, each without its line feed and without
/// a carriage return right before it.
pub open spec fn closed_lines(s: Seq<char>) -> Seq<Seq<char>>
    decreases s.len(),
{
    if s.len() == 0 {
        Seq::empty()
    } else if s.last() == '\n' {
        closed_lines(s.drop_last()).push(strip_cr(open_line(s.drop_last())))
    } else {
        closed_lines(s.drop_last())
    }
}

/// The lines of `s` as `str::lines` gives them: a last line without a line feed
/// counts when it is not empty.
pub open spec fn lines(s: Seq<char>) -> Seq<Seq<char>> {
    if open_line(s).len() > 0 {
        closed_lines(s).push(open_line(s))
    } else {
        closed_lines(s)
    }
}

/// The lines of `s` that hold more than whitespace.
pub open spec fn filled_lines(s: Seq<char>) -> Seq<Seq<char>> {
    lines(s).filter(|l: Seq<char>| trim(l).len() > 0)
}

/// `s` without its last character.
fn drop_last_char(s: &String) -> (r: String)
    requires
        s@.len() > 0,
    ensures
        r@ == s@.drop_last(),
{
    let n = s.as_str().unicode_len();
    String::from_str(s.as_str().substring_char(0, n - 1))
}

/// All lines of `content`, as `str::lines` splits them.
pub fn split_lines(content: &str) -> (r: Vec<String>)
    ensures
        r@.map_values(|l: String| l@) == lines(content@),
{
    let v = chars_of(content);
    let mut out: Vec<String> = Vec::new();
    let mut cur = String::new();
    let mut i: usize = 0;
    while i < v.len()
        invariant
            i <= v@.len(),
            v@ == content@,
            out@.map_values(|l: String| l@) == closed_lines(v@.take(i as int)),
            cur@ == open_line(v@.take(i as int)),
        decreases v@.len() - i,
    {
        assert(v@.take(i + 1).drop_last() =~= v@.take(i as int));
        let c = v[i];
        if c == '\n' {
            let line = if cur.as_str().unicode_len() > 0 && cur.as_str().get_char(
                cur.as_str().unicode_len() - 1,
            ) == '\r' {
                drop_last_char(&cur)
            } else {
                cur
            };
            let ghost before = out@;
            out.push(line);
            assert(out@.map_values(|l: String| l@) =~= before.map_values(|l: String| l@).push(
                line@,
            ));
            cur = String::new();
            assert(cur@ =~= open_line(v@.take(i + 1)));
        } else {
            push_char(&mut cur, c);
        }
        i = i + 1;
    }
    assert(v@.take(v@.len() as int) =~= v@);
    if cur.as_str().unicode_len() > 0 {
        let ghost before = out@;
        out.push(cur);
        assert(out@.map_values(|l: String| l@) =~= before.map_values(|l: String| l@).push(
            open_line(content@),
        ));
    }
    out
}

/// The lines of the log's text that hold more than whitespace, one entry each.
pub fn log_lines(content: &str) -> (r: Vec<String>)
    ensures
        r@.map_values(|l: String| l@) == filled_lines(content@),
{
    let all = split_lines(content);
    let ghost ls = lines(content@);
    let mut out: Vec<String> = Vec::new();
    let mut i: usize = 0;
    while i < all.len()
        invariant
            i <= all@.len(),
            all@.map_values(|l: String| l@) == ls,
            out@.map_values(|l: String| l@) == ls.take(i as int).filter(
                |l: Seq<char>| trim(l).len() > 0,
            ),
        decreases all@.len() - i,
    {
        proof {
            assert(ls.take(i + 1).drop_last() =~= ls.take(i as int));
            assert(ls.take(i + 1).last() == all@[i as int]@);
            reveal(Seq::filter);
        }
        let t = trim_string(all[i].as_str());
        if t.as_str().unicode_len() > 0 {
            let ghost before = out@;
            let l = all[i].clone();
            out.push(l);
            assert(out@.map_values(|l: String| l@) =~= before.map_values(|l: String| l@).push(
                all@[i as int]@,
            ));
        }
        i = i + 1;
    }
    assert(ls.take(ls.len() as int) =~= ls);
    out
}

/// The last `limit` entries of the log, oldest first.
pub open spec fn last_entries(entries: Seq<LogEntry>, limit: nat) -> Seq<LogEntry> {
    if entries.len() > limit {
        entries.skip(entries.len() - limit)
    } else {
        entries
    }
}

/// Keeps the last `limit` of the entries read from the log, in their order.
pub fn read(entries: Vec<LogEntry>, limit: usize) -> (r: Vec<LogEntry>)
    ensures
        r@ == last_entries(entries@, limit as nat),
{
    let ghost all = entries@;
    let mut entries = entries;
    if entries.len() > limit {
        let at = entries.len() - limit;
        let tail = entries.split_off(at);
        assert(tail@ =~= last_entries(all, limit as nat));
        tail
    } else {
        entries
    }
}

/// Reading the log keeps at most `limit` entries, the newest ones, oldest first.
pub proof fn read_keeps_newest(entries: Seq<LogEntry>, limit: nat)
    ensures
        last_entries(entries, limit).len() == if entries.len() > limit {
            limit
        } else {
            entries.len()
        },
        forall|i: int|
            0 <= i < last_entries(entries, limit).len() ==> #[trigger] last_entries(
                entries,
                limit,
            )[i] == entries[entries.len() - last_entries(entries, limit).len() + i],
{
}

} // verus!
