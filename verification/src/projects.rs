//! `node_modules` folders below a root: finding them, describing their projects,
//! and deleting them.

use vstd::prelude::*;
use vstd::seq_lib::lemma_multiset_commutative;
use crate::disk::{gain};
use crate::size::{human, human_text};
use crate::text::{push_char, chars_of, trim, trim_string, text_eq, views, join, join_strings, push_decimal, decimal};
use crate::time::{Instant, before, is_before, days_since, chrono_days_between, rfc3339_instant, rfc3339_utc, to_iso};
use crate::util::{ActionResult, Output, Invocation, combined_text};

verus! {

/// A `node_modules` folder found by a scan, with what helps decide whether to delete it.
pub struct NodeModulesEntry {
    pub project_path: String,
    pub node_modules_path: String,
    pub size_bytes: u64,
    /// When the project was last touched (last git commit, or newest file), RFC 3339.
    pub last_touched: Option<String>,
    /// Days since then.
    pub days_idle: Option<i64>,
    pub has_package_json: bool,
    pub has_lockfile: bool,
    pub has_git: bool,
    /// A `patches/` folder (patch-package): deleting may lose manual fixes.
    pub has_patches: bool,
}

/// The answer of a scan.
pub struct ScanResult {
    pub root: String,
    pub error: Option<String>,
    pub entries: Vec<NodeModulesEntry>,
}

/// `c` in lower case when it is an ASCII capital, as a code point.
pub open spec fn ascii_lower(c: char) -> u32 {
    if 'A' <= c && c <= 'Z' {
        (c as u32 + 32) as u32
    } else {
        c as u32
    }
}

/// Whether `a` and `b` are equal up to ASCII case (`str::eq_ignore_ascii_case`).
pub open spec fn eq_ignore_case(a: Seq<char>, b: Seq<char>) -> bool {
    a.len() == b.len() && forall|i: int| 0 <= i < a.len() ==> ascii_lower(#[trigger] a[i])
        == ascii_lower(b[i])
}

fn lower_code(c: char) -> (r: u32)
    ensures
        r == ascii_lower(c),
{
    if 'A' <= c && c <= 'Z' {
        c as u32 + 32
    } else {
        c as u32
    }
}

/// Whether `a` and `b` are equal up to ASCII case.
pub fn eq_ignore_ascii_case(a: &str, b: &str) -> (r: bool)
    ensures
        r == eq_ignore_case(a@, b@),
{
    let va = chars_of(a);
    let vb = chars_of(b);
    if va.len() != vb.len() {
        return false;
    }
    let mut i: usize = 0;
    while i < va.len()
        invariant
            i <= va@.len(),
            va@.len() == vb@.len(),
            va@ == a@,
            vb@ == b@,
            forall|j: int| 0 <= j < i ==> ascii_lower(#[trigger] va@[j]) == ascii_lower(vb@[j]),
        decreases va@.len() - i,
    {
        if lower_code(va[i]) != lower_code(vb[i]) {
            return false;
        }
        i = i + 1;
    }
    true
}

/// Whether a folder name is `node_modules`, in any ASCII case.
pub open spec fn is_nm_name(name: Seq<char>) -> bool {
    eq_ignore_case(name, "node_modules"@)
}

/// What a scan does with a subfolder.
pub enum WalkStep {
    /// Record it and do not look inside.
    Collect,
    /// Leave it alone.
    Skip,
    /// Look inside.
    Descend,
}

/// What a scan does with the subfolder `name`: a `node_modules` is recorded without
/// entering it, `.git` is skipped, anything else is searched.
pub fn walk_step(name: &str) -> (r: WalkStep)
    ensures
        is_nm_name(name@) ==> r is Collect,
        !is_nm_name(name@) && name@ == ".git"@ ==> r is Skip,
        !is_nm_name(name@) && name@ != ".git"@ ==> r is Descend,
{
    if eq_ignore_ascii_case(name, "node_modules") {
        WalkStep::Collect
    } else if text_eq(name, ".git") {
        WalkStep::Skip
    } else {
        WalkStep::Descend
    }
}

/// Whether the search for a project's newest file enters the subfolder `name`: not
/// into `node_modules` nor `.git`.
pub fn mtime_descends(name: &str) -> (r: bool)
    ensures
        r == (!is_nm_name(name@) && name@ != ".git"@),
{
    !eq_ignore_ascii_case(name, "node_modules") && !text_eq(name, ".git")
}

/// The newest modification time seen, after seeing `m`: a later time replaces the one
/// kept, an equal or earlier one does not.
pub fn keep_newest(best: Option<Instant>, m: Instant) -> (r: Option<Instant>)
    ensures
        r == match best {
            Some(b) => if before(b, m) {
                Some(m)
            } else {
                Some(b)
            },
            None => Some(m),
        },
{
    match best {
        Some(b) => if is_before(b, m) {
            Some(m)
        } else {
            Some(b)
        },
        None => Some(m),
    }
}

/// The lock files whose presence marks a project as reproducible.
pub fn lockfile_names() -> (r: Vec<&'static str>)
    ensures
        r@.map_values(|x: &str| x@) == seq![
            "package-lock.json"@,
            "yarn.lock"@,
            "pnpm-lock.yaml"@,
            "bun.lockb"@,
        ],
{
    let mut r: Vec<&'static str> = Vec::new();
    r.push("package-lock.json");
    r.push("yarn.lock");
    r.push("pnpm-lock.yaml");
    r.push("bun.lockb");
    assert(r@.map_values(|x: &str| x@) =~= seq![
        "package-lock.json"@,
        "yarn.lock"@,
        "pnpm-lock.yaml"@,
        "bun.lockb"@,
    ]);
    r
}

/// The command that prints the date of the last commit of the project at `project`.
pub fn git_last_commit_command(project: &str) -> (r: Invocation)
    ensures
        r.program@ == "git"@,
        views(r.args@) == seq!["-C"@, project@, "log"@, "-1"@, "--format=%cI"@],
{
    let mut args: Vec<String> = Vec::new();
    args.push(String::from_str("-C"));
    args.push(String::from_str(project));
    args.push(String::from_str("log"));
    args.push(String::from_str("-1"));
    args.push(String::from_str("--format=%cI"));
    assert(views(args@) =~= seq!["-C"@, project@, "log"@, "-1"@, "--format=%cI"@]);
    Invocation { program: String::from_str("git"), args }
}

/// The date git printed, trimmed, when it succeeded and printed more than whitespace.
pub fn last_commit_date(out: &Result<Output, String>) -> (r: Option<String>)
    ensures
        match out {
            Ok(o) => if o.success && trim(o.stdout@).len() > 0 {
                r matches Some(t) && t@ == trim(o.stdout@)
            } else {
                r is None
            },
            Err(_) => r is None,
        },
{
    match out {
        Ok(o) => {
            if o.success {
                let t = trim_string(o.stdout.as_str());
                if t.as_str().unicode_len() > 0 {
                    return Some(t);
                }
            }
            None
        },
        Err(_) => None,
    }
}

/// When a project was last touched: the date of its last commit when git gave one,
/// otherwise the modification time of its newest file (outside `node_modules` and
/// `.git`), written in RFC 3339.
pub fn last_touched(commit_date: Option<String>, newest_file: Option<Instant>) -> (r: Option<String>)
    ensures
        match commit_date {
            Some(d) => r == Some(d),
            None => match newest_file {
                Some(i) => match r {
                    Some(t) => rfc3339_utc(i) == Some(t@),
                    None => rfc3339_utc(i) is None,
                },
                None => r is None,
            },
        },
{
    match commit_date {
        Some(d) => Some(d),
        None => match newest_file {
            Some(i) => to_iso(i),
            None => None,
        },
    }
}

/// The days a project has been idle, from when it was last touched, at `now`.
pub open spec fn idle_days(last_touched: Option<Seq<char>>, now: Instant) -> Option<i64> {
    match last_touched {
        Some(t) => match rfc3339_instant(t) {
            Some(then) => chrono_days_between(then, now),
            None => None,
        },
        None => None,
    }
}

/// The entry of a `node_modules` folder from what was measured about it and its
/// project; `now` is the current instant.
pub fn build_entry(
    project_path: String,
    node_modules_path: String,
    size_bytes: u64,
    last_touched: Option<String>,
    now: Instant,
    has_package_json: bool,
    has_lockfile: bool,
    has_git: bool,
    has_patches: bool,
) -> (r: NodeModulesEntry)
    ensures
        r.project_path == project_path,
        r.node_modules_path == node_modules_path,
        r.size_bytes == size_bytes,
        r.last_touched == last_touched,
        r.days_idle == idle_days(
            match last_touched {
                Some(t) => Some(t@),
                None => None,
            },
            now,
        ),
        r.has_package_json == has_package_json,
        r.has_lockfile == has_lockfile,
        r.has_git == has_git,
        r.has_patches == has_patches,
{
    let days_idle = match &last_touched {
        Some(t) => days_since(t.as_str(), now),
        None => None,
    };
    NodeModulesEntry {
        project_path,
        node_modules_path,
        size_bytes,
        last_touched,
        days_idle,
        has_package_json,
        has_lockfile,
        has_git,
        has_patches,
    }
}

/// How many leading entries of `s` are larger than `size`.
pub open spec fn larger_prefix(s: Seq<NodeModulesEntry>, size: u64) -> nat
    decreases s.len(),
{
    if s.len() == 0 {
        0
    } else if s[0].size_bytes > size {
        1 + larger_prefix(s.drop_first(), size)
    } else {
        0
    }
}

/// `s` with `e` put after the entries larger than it.
pub open spec fn insert_by_size(s: Seq<NodeModulesEntry>, e: NodeModulesEntry) -> Seq<
    NodeModulesEntry,
> {
    let p = larger_prefix(s, e.size_bytes) as int;
    s.take(p) + seq![e] + s.skip(p)
}

/// The entries ordered from the largest to the smallest; entries of equal size keep
/// their order (a stable sort).
pub open spec fn by_size_desc(s: Seq<NodeModulesEntry>) -> Seq<NodeModulesEntry>
    decreases s.len(),
{
    if s.len() == 0 {
        s
    } else {
        insert_by_size(by_size_desc(s.drop_first()), s[0])
    }
}

/// Whether the entries go from the largest to the smallest.
pub open spec fn sorted_desc(s: Seq<NodeModulesEntry>) -> bool {
    forall|i: int, j: int| 0 <= i < j < s.len() ==> s[i].size_bytes >= s[j].size_bytes
}

proof fn lemma_larger_prefix(s: Seq<NodeModulesEntry>, size: u64)
    requires
        sorted_desc(s),
    ensures
        larger_prefix(s, size) <= s.len(),
        forall|i: int| 0 <= i < larger_prefix(s, size) ==> s[i].size_bytes > size,
        forall|i: int| larger_prefix(s, size) <= i < s.len() ==> s[i].size_bytes <= size,
    decreases s.len(),
{
    if s.len() > 0 {
        lemma_larger_prefix(s.drop_first(), size);
        if s[0].size_bytes > size {
            assert forall|i: int| 0 <= i < larger_prefix(s, size) implies s[i].size_bytes
                > size by {
                if i > 0 {
                    assert(s[i] == s.drop_first()[i - 1]);
                }
            }
            assert forall|i: int| larger_prefix(s, size) <= i < s.len() implies s[i].size_bytes
                <= size by {
                assert(s[i] == s.drop_first()[i - 1]);
            }
        } else {
            assert forall|i: int| 0 <= i < s.len() implies s[i].size_bytes <= size by {
                assert(s[0].size_bytes >= s[i].size_bytes);
            }
        }
    }
}

/// The stable sort by size orders the entries from the largest to the smallest and
/// keeps every entry exactly as often as it was given.
pub proof fn lemma_by_size_desc(s: Seq<NodeModulesEntry>)
    ensures
        sorted_desc(by_size_desc(s)),
        by_size_desc(s).to_multiset() == s.to_multiset(),
        by_size_desc(s).len() == s.len(),
    decreases s.len(),
{
    if s.len() > 0 {
        let t = by_size_desc(s.drop_first());
        lemma_by_size_desc(s.drop_first());
        let e = s[0];
        lemma_larger_prefix(t, e.size_bytes);
        let p = larger_prefix(t, e.size_bytes) as int;
        let r = insert_by_size(t, e);
        assert(r.len() == t.len() + 1);
        assert forall|i: int, j: int| 0 <= i < j < r.len() implies r[i].size_bytes
            >= r[j].size_bytes by {
            if j < p {
                assert(r[i] == t[i] && r[j] == t[j]);
            } else if j == p {
                assert(r[j] == e);
                assert(r[i] == t[i]);
            } else if i < p {
                assert(r[i] == t[i] && r[j] == t[j - 1]);
            } else if i == p {
                assert(r[i] == e && r[j] == t[j - 1]);
            } else {
                assert(r[i] == t[i - 1] && r[j] == t[j - 1]);
            }
        }
        lemma_multiset_commutative(t.take(p) + seq![e], t.skip(p));
        lemma_multiset_commutative(t.take(p), seq![e]);
        lemma_multiset_commutative(t.take(p), t.skip(p));
        assert(t.take(p) + t.skip(p) =~= t);
        lemma_multiset_commutative(seq![e], s.drop_first());
        assert(seq![e] + s.drop_first() =~= s);
    }
}

/// The entries sorted from the largest to the smallest, stably.
pub fn sort_by_size_desc(entries: Vec<NodeModulesEntry>) -> (r: Vec<NodeModulesEntry>)
    ensures
        r@ == by_size_desc(entries@),
        sorted_desc(r@),
        r@.to_multiset() == entries@.to_multiset(),
{
    let ghost all = entries@;
    let mut rest = entries;
    let mut out: Vec<NodeModulesEntry> = Vec::new();
    assert(all.skip(all.len() as int) =~= Seq::<NodeModulesEntry>::empty());
    while rest.len() > 0
        invariant
            rest@ == all.take(rest@.len() as int),
            rest@.len() <= all.len(),
            out@ == by_size_desc(all.skip(rest@.len() as int)),
        decreases rest@.len(),
    {
        let ghost k = rest@.len() as int;
        let e = rest.pop().unwrap();
        assert(e == all[k - 1]);
        assert(all.skip(k - 1).drop_first() =~= all.skip(k));
        assert(all.skip(k - 1)[0] == e);
        assert(rest@ =~= all.take(k - 1));
        proof {
            lemma_by_size_desc(all.skip(k));
            lemma_larger_prefix(out@, e.size_bytes);
        }
        let mut p: usize = 0;
        while p < out.len() && out[p].size_bytes > e.size_bytes
            invariant
                p <= out@.len(),
                larger_prefix(out@, e.size_bytes) <= out@.len(),
                forall|i: int| 0 <= i < larger_prefix(out@, e.size_bytes) ==> out@[i].size_bytes
                    > e.size_bytes,
                forall|i: int| larger_prefix(out@, e.size_bytes) <= i < out@.len() ==> out@[i].size_bytes
                    <= e.size_bytes,
                p <= larger_prefix(out@, e.size_bytes),
            decreases out@.len() - p,
        {
            p = p + 1;
        }
        assert(p == larger_prefix(out@, e.size_bytes));
        let ghost before = out@;
        out.insert(p, e);
        assert(out@ =~= insert_by_size(before, e));
    }
    assert(all.skip(0) =~= all);
    proof {
        lemma_by_size_desc(all);
    }
    out
}

/// Whether a scan root can be searched: not blank and an existing folder.
pub open spec fn root_ok(root: Seq<char>, is_dir: bool) -> bool {
    trim(root).len() > 0 && is_dir
}

/// Whether the scan root `root`, which is an existing folder when `is_dir`, can be
/// searched.
pub fn scan_root_valid(root: &str, is_dir: bool) -> (r: bool)
    ensures
        r == root_ok(root@, is_dir),
{
    trim_string(root).as_str().unicode_len() > 0 && is_dir
}

/// The answer of a scan of `root` (an existing folder when `is_dir`) that found
/// `entries`: the largest first, since those free the most space.
pub fn scan_node_modules_impl(root: String, is_dir: bool, entries: Vec<NodeModulesEntry>) -> (r:
    ScanResult)
    ensures
        r.root == root,
        !root_ok(root@, is_dir) ==> (r.error matches Some(e) && e@
            == "Pasta não encontrada. Confira o caminho."@ && r.entries@.len() == 0),
        root_ok(root@, is_dir) ==> r.error is None && r.entries@ == by_size_desc(entries@),
{
    if !scan_root_valid(root.as_str(), is_dir) {
        return ScanResult {
            root,
            error: Some(String::from_str("Pasta não encontrada. Confira o caminho.")),
            entries: Vec::new(),
        };
    }
    ScanResult { root, error: None, entries: sort_by_size_desc(entries) }
}


/// Whether `c` separates the components of a Windows path.
pub open spec fn is_sep(c: char) -> bool {
    c == '/' || c == '\\'
}

/// Whether `c` separates components: in a verbatim path (`\\?\`) only `\`, otherwise
/// `\` or `/`.
pub open spec fn sep_in(c: char, verbatim: bool) -> bool {
    if verbatim {
        c == '\\'
    } else {
        is_sep(c)
    }
}

/// The characters after the last separator of `s`.
pub open spec fn open_seg(s: Seq<char>, verbatim: bool) -> Seq<char>
    decreases s.len(),
{
    if s.len() == 0 {
        s
    } else if sep_in(s.last(), verbatim) {
        Seq::empty()
    } else {
        open_seg(s.drop_last(), verbatim).push(s.last())
    }
}

/// The components of `s` that a separator ends.
pub open spec fn closed_segs(s: Seq<char>, verbatim: bool) -> Seq<Seq<char>>
    decreases s.len(),
{
    if s.len() == 0 {
        Seq::empty()
    } else if sep_in(s.last(), verbatim) {
        closed_segs(s.drop_last(), verbatim).push(open_seg(s.drop_last(), verbatim))
    } else {
        closed_segs(s.drop_last(), verbatim)
    }
}

/// Whether a component is kept: not empty, and not `.` unless the path is verbatim
/// (where `.` stays a component of its own).
pub open spec fn named(x: Seq<char>, verbatim: bool) -> bool {
    x.len() > 0 && (verbatim || x != seq!['.'])
}

/// Whether `c` is an ASCII letter.
pub open spec fn is_letter(c: char) -> bool {
    ('a' <= c && c <= 'z') || ('A' <= c && c <= 'Z')
}

/// The index of the first separator of `s` at or after `from`, or the length of `s`.
pub open spec fn next_sep(s: Seq<char>, from: int, verbatim: bool) -> int
    decreases s.len() - from,
{
    if from < 0 || from >= s.len() {
        s.len() as int
    } else if sep_in(s[from], verbatim) {
        from
    } else {
        next_sep(s, from + 1, verbatim)
    }
}

/// The length of the Windows prefix of the path `s` and whether it is verbatim, as
/// `std::path` reads it on Windows: `\\?\UNC\server\share`, `\\?\C:`, `\\?\name`
/// (verbatim), `\\.\device`, `\\server\share` and `C:`; none (length 0) otherwise.
/// Within the first two characters, and in `\\.\`, `/` counts as `\`.
pub open spec fn path_prefix(s: Seq<char>) -> (int, bool) {
    if s.len() >= 2 && is_sep(s[0]) && is_sep(s[1]) {
        if s.len() >= 4 && s[0] == '\\' && s[1] == '\\' && s[2] == '?' && s[3] == '\\' {
            if s.len() >= 8 && s[4] == 'U' && s[5] == 'N' && s[6] == 'C' && is_sep(s[7]) {
                let a = next_sep(s, 8, true);
                let b = next_sep(s, a + 1, true);
                if a < s.len() && b > a + 1 {
                    (b, true)
                } else {
                    (a, true)
                }
            } else if s.len() >= 6 && is_letter(s[4]) && s[5] == ':' && (s.len() == 6 || s[6]
                == '\\') {
                (6, true)
            } else {
                (next_sep(s, 4, true), true)
            }
        } else if s.len() >= 4 && s[2] == '.' && is_sep(s[3]) {
            (next_sep(s, 4, false), false)
        } else {
            let a = next_sep(s, 2, false);
            let b = next_sep(s, a + 1, false);
            if a > 2 && a < s.len() && b > a + 1 {
                (b, false)
            } else {
                (0, false)
            }
        }
    } else if s.len() >= 2 && is_letter(s[0]) && s[1] == ':' {
        (2, false)
    } else {
        (0, false)
    }
}

/// The components of a path after its prefix, as `Path::components` keeps them.
pub open spec fn named_components(p: Seq<char>) -> Seq<Seq<char>> {
    let (n, vb) = path_prefix(p);
    let s = p.skip(n);
    closed_segs(s, vb).push(open_seg(s, vb)).filter(|x: Seq<char>| named(x, vb))
}

/// The last component of a path when it names a file or folder (`Path::file_name` on
/// Windows): none when the path has no component after its prefix or ends in `..` or
/// in a verbatim `.`.
pub open spec fn file_name(p: Seq<char>) -> Option<Seq<char>> {
    let ns = named_components(p);
    if ns.len() > 0 && ns.last() != seq!['.', '.'] && ns.last() != seq!['.'] {
        Some(ns.last())
    } else {
        None
    }
}

/// Whether the path ends in a folder named `node_modules` (in any ASCII case).
pub open spec fn nm_path(p: Seq<char>) -> bool {
    match file_name(p) {
        Some(n) => is_nm_name(n),
        None => false,
    }
}

fn is_named(x: &String, verbatim: bool) -> (r: bool)
    ensures
        r == named(x@, verbatim),
{
    proof {
        reveal_strlit(".");
        assert("."@ =~= seq!['.']);
    }
    x.as_str().unicode_len() > 0 && (verbatim || !text_eq(x.as_str(), "."))
}

fn is_sep_char(c: char, verbatim: bool) -> (r: bool)
    ensures
        r == sep_in(c, verbatim),
{
    if verbatim {
        c == '\\'
    } else {
        c == '/' || c == '\\'
    }
}

fn is_letter_char(c: char) -> (r: bool)
    ensures
        r == is_letter(c),
{
    ('a' <= c && c <= 'z') || ('A' <= c && c <= 'Z')
}

fn find_sep(cs: &Vec<char>, from: usize, verbatim: bool) -> (r: usize)
    requires
        from <= cs@.len(),
    ensures
        r == next_sep(cs@, from as int, verbatim),
        from <= r <= cs@.len(),
{
    let mut i = from;
    while i < cs.len() && !is_sep_char(cs[i], verbatim)
        invariant
            from <= i <= cs@.len(),
            next_sep(cs@, from as int, verbatim) == next_sep(cs@, i as int, verbatim),
        decreases cs@.len() - i,
    {
        i = i + 1;
    }
    i
}

fn prefix_of(cs: &Vec<char>) -> (r: (usize, bool))
    ensures
        r.0 as int == path_prefix(cs@).0,
        r.1 == path_prefix(cs@).1,
        r.0 <= cs@.len(),
{
    let n = cs.len();
    if n >= 2 && is_sep_char(cs[0], false) && is_sep_char(cs[1], false) {
        if n >= 4 && cs[0] == '\\' && cs[1] == '\\' && cs[2] == '?' && cs[3] == '\\' {
            if n >= 8 && cs[4] == 'U' && cs[5] == 'N' && cs[6] == 'C' && is_sep_char(cs[7], false) {
                let a = find_sep(cs, 8, true);
                if a < n {
                    let b = find_sep(cs, a + 1, true);
                    if b > a + 1 {
                        return (b, true);
                    }
                }
                (a, true)
            } else if n >= 6 && is_letter_char(cs[4]) && cs[5] == ':' && (n == 6 || cs[6] == '\\') {
                (6, true)
            } else {
                (find_sep(cs, 4, true), true)
            }
        } else if n >= 4 && cs[2] == '.' && is_sep_char(cs[3], false) {
            (find_sep(cs, 4, false), false)
        } else {
            let a = find_sep(cs, 2, false);
            if a > 2 && a < n {
                let b = find_sep(cs, a + 1, false);
                if b > a + 1 {
                    return (b, false);
                }
            }
            (0, false)
        }
    } else if n >= 2 && is_letter_char(cs[0]) && cs[1] == ':' {
        (2, false)
    } else {
        (0, false)
    }
}

/// The last component of the path `p`, when it names a file or folder.
pub fn path_file_name(p: &str) -> (r: Option<String>)
    ensures
        match r {
            Some(n) => file_name(p@) == Some(n@),
            None => file_name(p@) is None,
        },
{
    let all = chars_of(p);
    let (start, vb) = prefix_of(&all);
    let ghost s = p@.skip(start as int);
    assert(s =~= all@.skip(start as int));
    let ghost pred = |x: Seq<char>| named(x, vb);
    let mut cur = String::new();
    let mut last: Option<String> = None;
    let mut i: usize = start;
    assert(s.take(0) =~= Seq::<char>::empty());
    while i < all.len()
        invariant
            start <= i <= all@.len(),
            s == all@.skip(start as int),
            pred == (|x: Seq<char>| named(x, vb)),
            cur@ == open_seg(s.take(i - start), vb),
            ({
                let f = closed_segs(s.take(i - start), vb).filter(pred);
                match last {
                    Some(l) => f.len() > 0 && l@ == f.last(),
                    None => f.len() == 0,
                }
            }),
        decreases all@.len() - i,
    {
        let ghost k = (i - start) as int;
        assert(s.take(k + 1).drop_last() =~= s.take(k));
        assert(s.take(k + 1).last() == all@[i as int]);
        let c = all[i];
        proof {
            reveal(Seq::filter);
        }
        if is_sep_char(c, vb) {
            assert(closed_segs(s.take(k + 1), vb) == closed_segs(s.take(k), vb).push(cur@));
            assert(closed_segs(s.take(k), vb).push(cur@).drop_last() =~= closed_segs(s.take(k), vb));
            let ghost f0 = closed_segs(s.take(k), vb).filter(pred);
            let ghost f1 = closed_segs(s.take(k + 1), vb).filter(pred);
            if is_named(&cur, vb) {
                assert(f1 == f0.push(cur@)) by {
                    reveal(Seq::filter);
                    let x = closed_segs(s.take(k), vb).push(cur@);
                    assert(x.drop_last() =~= closed_segs(s.take(k), vb));
                    assert(x.last() == cur@);
                    assert(pred(cur@));
                }
                last = Some(cur);
            } else {
                assert(f1 == f0) by {
                    reveal(Seq::filter);
                    let x = closed_segs(s.take(k), vb).push(cur@);
                    assert(x.drop_last() =~= closed_segs(s.take(k), vb));
                    assert(x.last() == cur@);
                    assert(!pred(cur@));
                }
            }
            cur = String::new();
            assert(cur@ =~= open_seg(s.take(k + 1), vb));
        } else {
            assert(closed_segs(s.take(k + 1), vb) == closed_segs(s.take(k), vb));
            push_char(&mut cur, c);
        }
        i = i + 1;
    }
    assert(s.take(s.len() as int) =~= s);
    proof {
        reveal(Seq::filter);
        assert(closed_segs(s, vb).push(open_seg(s, vb)).drop_last() =~= closed_segs(s, vb));
    }
    let cand = if is_named(&cur, vb) {
        Some(cur)
    } else {
        last
    };
    match cand {
        Some(n) => {
            proof {
                reveal_strlit("..");
                reveal_strlit(".");
                assert(".."@ =~= seq!['.', '.']);
                assert("."@ =~= seq!['.']);
            }
            if text_eq(n.as_str(), "..") || text_eq(n.as_str(), ".") {
                None
            } else {
                Some(n)
            }
        },
        None => None,
    }
}

/// Whether the path `p` ends in a `node_modules` folder.
pub fn is_node_modules_path(p: &str) -> (r: bool)
    ensures
        r == nm_path(p@),
{
    match path_file_name(p) {
        Some(n) => eq_ignore_ascii_case(n.as_str(), "node_modules"),
        None => false,
    }
}

/// The command that deletes the folder `p` (`rmdir /s /q`, which copes with long paths
/// and large trees). There is one only when `p` ends in `node_modules`: nothing else
/// is ever deleted.
pub fn delete_command(p: &str) -> (r: Option<Invocation>)
    ensures
        r is Some <==> nm_path(p@),
        r matches Some(inv) ==> inv.program@ == "cmd"@ && views(inv.args@) == seq![
            "/c"@,
            "rmdir"@,
            "/s"@,
            "/q"@,
            p@,
        ],
{
    if !is_node_modules_path(p) {
        return None;
    }
    let mut args: Vec<String> = Vec::new();
    args.push(String::from_str("/c"));
    args.push(String::from_str("rmdir"));
    args.push(String::from_str("/s"));
    args.push(String::from_str("/q"));
    args.push(String::from_str(p));
    assert(views(args@) =~= seq!["/c"@, "rmdir"@, "/s"@, "/q"@, p@]);
    Some(Invocation { program: String::from_str("cmd"), args })
}

/// The answer of a simulated deletion of `paths`, whose sizes add up to `total` bytes.
/// An empty selection is refused before anything is simulated.
pub fn delete_node_modules_dry(paths: &Vec<String>, total: u64) -> (r: ActionResult)
    ensures
        r.details is None,
        paths@.len() == 0 ==> !r.ok && !r.dry_run && r.message@ == "Nada selecionado."@
            && r.output@.len() == 0,
        paths@.len() > 0 ==> r.ok && r.dry_run && r.message@ == "Apagaria "@ + decimal(
            paths@.len(),
        ) + " pasta(s) node_modules, liberando (aprox.): "@ + human_text(
            crate::cache::as_signed(total),
        ) + "."@ && r.output@ == join(views(paths@), "\n"@),
{
    if paths.len() == 0 {
        return ActionResult::fail(String::from_str("Nada selecionado."), String::new());
    }
    let mut m = String::from_str("Apagaria ");
    push_decimal(&mut m, paths.len() as u64);
    m.append(" pasta(s) node_modules, liberando (aprox.): ");
    let t: i64 = if total > i64::MAX as u64 {
        i64::MAX
    } else {
        total as i64
    };
    m.append(human(t).as_str());
    m.append(".");
    ActionResult::dry(m).with_output(join_strings(paths, "\n"))
}

/// What happened to one selected path.
pub enum DeleteOutcome {
    /// The folder was already gone.
    Missing,
    /// It held `before` bytes; `rmdir` ran with `out`, and afterwards the folder still
    /// existed when `still_exists`.
    Ran { before: u64, out: Result<Output, String>, still_exists: bool },
}

/// Folders deleted, bytes freed and error lines, after the first paths.
pub open spec fn delete_tally(paths: Seq<String>, outs: Seq<DeleteOutcome>) -> (nat, nat, Seq<
    Seq<char>,
>)
    decreases paths.len(),
{
    if paths.len() == 0 || outs.len() == 0 {
        (0, 0, Seq::empty())
    } else {
        let prev = delete_tally(paths.drop_last(), outs.drop_last());
        let p = paths.last()@;
        if !nm_path(p) {
            (prev.0, prev.1, prev.2.push(refused_line(p)))
        } else {
            match outs.last() {
                DeleteOutcome::Missing => prev,
                DeleteOutcome::Ran { before, out, still_exists } => match out {
                    Ok(o) => if o.success && !still_exists {
                        (prev.0 + 1, prev.1 + before as nat, prev.2)
                    } else {
                        (
                            prev.0,
                            prev.1,
                            prev.2.push(
                                p + ": falhou (talvez travado por um editor/servidor aberto). "@
                                    + combined_text(o.stdout@, o.stderr@),
                            ),
                        )
                    },
                    Err(e) => (prev.0, prev.1, prev.2.push(p + ": "@ + e@)),
                },
            }
        }
    }
}

/// `n` capped at `i64::MAX`.
pub open spec fn capped(n: nat) -> int {
    if n > i64::MAX {
        i64::MAX as int
    } else {
        n as int
    }
}

/// The line that reports a selected path refused because it is not a `node_modules`
/// folder.
pub open spec fn refused_line(p: Seq<char>) -> Seq<char> {
    p + ": ignorado (não é node_modules)."@
}

/// The answer of deleting `paths`, where `outcomes[i]` is what happened to `paths[i]`
/// (ignored for a path that does not end in `node_modules`, which is never touched).
/// An empty selection is refused; a refused path makes the whole answer a failure and
/// is reported on a line of its own.
pub fn delete_node_modules_impl(paths: &Vec<String>, outcomes: Vec<DeleteOutcome>) -> (r:
    ActionResult)
    requires
        outcomes@.len() == paths@.len(),
    ensures
        !r.dry_run && r.details is None,
        paths@.len() == 0 ==> !r.ok && r.message@ == "Nada selecionado."@ && r.output@.len()
            == 0,
        forall|i: int|
            0 <= i < paths@.len() && !nm_path(#[trigger] paths@[i]@) ==> !r.ok && delete_tally(
                paths@,
                outcomes@,
            ).2.contains(refused_line(paths@[i]@)),
        paths@.len() > 0 ==> ({
            let t = delete_tally(paths@, outcomes@);
            if t.2.len() == 0 {
                r.ok && r.output@.len() == 0 && r.message@ == decimal(t.0)
                    + " pasta(s) apagada(s). Espaço recuperado (aprox.): "@ + human_text(
                    capped(t.1),
                ) + "."@
            } else {
                !r.ok && r.output@ == join(t.2, "\n"@) && r.message@ == "Apagadas: "@ + decimal(
                    t.0,
                ) + ". Falhas: "@ + decimal(t.2.len()) + ". Espaço recuperado (aprox.): "@
                    + human_text(capped(t.1)) + "."@
            }
        }),
{
    if paths.len() == 0 {
        return ActionResult::fail(String::from_str("Nada selecionado."), String::new());
    }
    proof {
        assert forall|i: int|
            0 <= i < paths@.len() && !nm_path(#[trigger] paths@[i]@) implies delete_tally(
                paths@,
                outcomes@,
            ).2.contains(refused_line(paths@[i]@)) by {
            lemma_refused_listed(paths@, outcomes@, i);
        }
    }
    let ghost all_outs = outcomes@;
    let mut outs = outcomes;
    let mut ok_count: u64 = 0;
    let mut freed: u128 = 0;
    assert(all_outs.skip(0) =~= all_outs);
    let mut errs: Vec<String> = Vec::new();
    let mut i: usize = 0;
    while i < paths.len()
        invariant
            i <= paths@.len(),
            all_outs.len() == paths@.len(),
            outs@ == all_outs.skip(i as int),
            ok_count == delete_tally(paths@.take(i as int), all_outs.take(i as int)).0,
            freed == delete_tally(paths@.take(i as int), all_outs.take(i as int)).1,
            views(errs@) == delete_tally(paths@.take(i as int), all_outs.take(i as int)).2,
            ok_count <= i,
            freed <= i * 18446744073709551615,
        decreases paths@.len() - i,
    {
        assert(paths@.take(i + 1).drop_last() =~= paths@.take(i as int));
        assert(all_outs.take(i + 1).drop_last() =~= all_outs.take(i as int));
        let o = outs.remove(0);
        assert(o == all_outs[i as int]);
        assert(all_outs.skip(i as int).drop_first() =~= all_outs.skip(i + 1));
        let p = paths[i].as_str();
        let ghost before_errs = errs@;
        if !is_node_modules_path(p) {
            let mut m = String::from_str(p);
            m.append(": ignorado (não é node_modules).");
            errs.push(m);
        } else {
            match o {
                DeleteOutcome::Missing => {},
                DeleteOutcome::Ran { before, out, still_exists } => match out {
                    Ok(res) => if res.success && !still_exists {
                        freed = freed + before as u128;
                        ok_count = ok_count + 1;
                    } else {
                        let mut m = String::from_str(p);
                        m.append(": falhou (talvez travado por um editor/servidor aberto). ");
                        m.append(res.combined().as_str());
                        errs.push(m);
                    },
                    Err(e) => {
                        let mut m = String::from_str(p);
                        m.append(": ");
                        m.append(e.as_str());
                        errs.push(m);
                    },
                },
            }
        }
        assert(views(errs@) =~= delete_tally(paths@.take(i + 1), all_outs.take(i + 1)).2);
        i = i + 1;
    }
    assert(paths@.take(paths@.len() as int) =~= paths@);
    assert(all_outs.take(paths@.len() as int) =~= all_outs);
    let shown: i64 = if freed > i64::MAX as u128 {
        i64::MAX
    } else {
        freed as i64
    };
    let h = human(shown);
    if errs.len() == 0 {
        let mut m = String::new();
        push_decimal(&mut m, ok_count);
        m.append(" pasta(s) apagada(s). Espaço recuperado (aprox.): ");
        m.append(h.as_str());
        m.append(".");
        ActionResult::ok(m)
    } else {
        let mut m = String::from_str("Apagadas: ");
        push_decimal(&mut m, ok_count);
        m.append(". Falhas: ");
        push_decimal(&mut m, errs.len() as u64);
        m.append(". Espaço recuperado (aprox.): ");
        m.append(h.as_str());
        m.append(".");
        ActionResult::fail(m, join_strings(&errs, "\n"))
    }
}

proof fn lemma_tally_keeps_lines(paths: Seq<String>, outs: Seq<DeleteOutcome>, x: Seq<char>)
    requires
        paths.len() > 0,
        outs.len() > 0,
        delete_tally(paths.drop_last(), outs.drop_last()).2.contains(x),
    ensures
        delete_tally(paths, outs).2.contains(x),
{
    let prev = delete_tally(paths.drop_last(), outs.drop_last()).2;
    let j = choose|j: int| 0 <= j < prev.len() && prev[j] == x;
    let cur = delete_tally(paths, outs).2;
    assert(cur.len() >= prev.len() && cur[j] == prev[j]);
}

proof fn lemma_refused_listed(paths: Seq<String>, outs: Seq<DeleteOutcome>, i: int)
    requires
        0 <= i < paths.len(),
        outs.len() == paths.len(),
        !nm_path(paths[i]@),
    ensures
        delete_tally(paths, outs).2.contains(refused_line(paths[i]@)),
    decreases paths.len(),
{
    if i == paths.len() - 1 {
        let t = delete_tally(paths, outs).2;
        assert(t.last() == refused_line(paths[i]@));
        assert(t[t.len() - 1] == refused_line(paths[i]@));
    } else {
        assert(paths.drop_last()[i] == paths[i]);
        lemma_refused_listed(paths.drop_last(), outs.drop_last(), i);
        lemma_tally_keeps_lines(paths, outs, refused_line(paths[i]@));
    }
}

/// Each selected path counts at most once: as deleted or as an error.
pub proof fn delete_counts_each_path_once(paths: Seq<String>, outs: Seq<DeleteOutcome>)
    ensures
        delete_tally(paths, outs).0 + delete_tally(paths, outs).2.len() <= paths.len(),
    decreases paths.len(),
{
    if paths.len() > 0 && outs.len() > 0 {
        delete_counts_each_path_once(paths.drop_last(), outs.drop_last());
    }
}

/// The space counted as freed is that of the folders that were deleted: nothing is
/// counted for a path that does not end in `node_modules`.
pub proof fn delete_frees_only_node_modules(paths: Seq<String>, outs: Seq<DeleteOutcome>)
    requires
        forall|i: int| 0 <= i < paths.len() ==> !nm_path(#[trigger] paths[i]@),
    ensures
        delete_tally(paths, outs).0 == 0,
        delete_tally(paths, outs).1 == 0,
    decreases paths.len(),
{
    if paths.len() > 0 && outs.len() > 0 {
        assert(paths.last() == paths[paths.len() - 1]);
        delete_frees_only_node_modules(paths.drop_last(), outs.drop_last());
    }
}

} // verus!
