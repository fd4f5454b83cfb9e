//! The dashboard: volumes, memory, graphics cards, BitLocker and the last and next
//! cleanups.

use vstd::prelude::*;
use crate::disk::DiskSpace;
use crate::json::{JsonValue, array_items, as_array, s, str_field};
use crate::log::{LogEntry, lines, split_lines};
use crate::schedule::{ScheduledTask, opt_view};
use crate::text::{
    chars_of, has_sub, trim, trim_string, text_eq, views, unicode_lower, to_lower, str_contains,
    contains_char, after_first, text_after_first, pieces, split_char, digit,
};
use crate::time::{Instant, rfc3339_instant, before, is_before, parse_rfc3339};
use crate::util::{Output, Invocation, combined_text};

verus! {

/// A volume as shown on the dashboard, sizes in bytes.
pub struct DiskInfo {
    pub mount: String,
    pub total_bytes: u64,
    pub free_bytes: u64,
    pub used_bytes: u64,
}

/// The system's memory (RAM), in bytes.
pub struct MemInfo {
    pub total_bytes: u64,
    pub used_bytes: u64,
    pub available_bytes: u64,
}

/// `s` without its trailing backslashes (`trim_end_matches('\\')`).
pub open spec fn strip_trailing_backslashes(s: Seq<char>) -> Seq<char>
    decreases s.len(),
{
    if s.len() > 0 && s.last() == '\\' {
        strip_trailing_backslashes(s.drop_last())
    } else {
        s
    }
}

/// A volume as plain values.
pub ghost struct DiskInfoView {
    pub mount: Seq<char>,
    pub total_bytes: u64,
    pub free_bytes: u64,
    pub used_bytes: u64,
}

impl View for DiskInfo {
    type V = DiskInfoView;

    open spec fn view(&self) -> DiskInfoView {
        DiskInfoView {
            mount: self.mount@,
            total_bytes: self.total_bytes,
            free_bytes: self.free_bytes,
            used_bytes: self.used_bytes,
        }
    }
}

/// The mount points of the volumes with a size among `raw`.
pub open spec fn sized_mounts(raw: Seq<DiskSpace>) -> Set<Seq<char>>
    decreases raw.len(),
{
    if raw.len() == 0 {
        Set::empty()
    } else if raw.last().total != 0 {
        sized_mounts(raw.drop_last()).insert(raw.last().mount@)
    } else {
        sized_mounts(raw.drop_last())
    }
}

/// The volumes the dashboard shows: those with a size, each mount point once (the first
/// one listed), the mount point without trailing backslashes, and the used space as
/// size minus free space (zero when free space exceeds size).
pub open spec fn disk_list(raw: Seq<DiskSpace>) -> Seq<DiskInfoView>
    decreases raw.len(),
{
    if raw.len() == 0 {
        Seq::empty()
    } else {
        let prev = disk_list(raw.drop_last());
        let d = raw.last();
        if d.total != 0 && !sized_mounts(raw.drop_last()).contains(d.mount@) {
            prev.push(
                DiskInfoView {
                    mount: strip_trailing_backslashes(d.mount@),
                    total_bytes: d.total,
                    free_bytes: d.available,
                    used_bytes: if d.available <= d.total {
                        (d.total - d.available) as u64
                    } else {
                        0
                    },
                },
            )
        } else {
            prev
        }
    }
}

/// `s` without its trailing backslashes.
fn strip_backslashes_end(s: &str) -> (r: String)
    ensures
        r@ == strip_trailing_backslashes(s@),
{
    let v = chars_of(s);
    let mut j = v.len();
    assert(v@.take(j as int) =~= v@);
    while j > 0 && v[j - 1] == '\\'
        invariant
            j <= v@.len(),
            v@ == s@,
            strip_trailing_backslashes(s@) == strip_trailing_backslashes(v@.take(j as int)),
        decreases j,
    {
        assert(v@.take(j as int).drop_last() =~= v@.take(j - 1));
        j = j - 1;
    }
    String::from_str(s.substring_char(0, j))
}

/// Whether `mount` is among `seen`.
fn seen_before(seen: &Vec<String>, mount: &str) -> (r: bool)
    ensures
        r == views(seen@).contains(mount@),
{
    let mut i: usize = 0;
    while i < seen.len()
        invariant
            i <= seen@.len(),
            forall|j: int| 0 <= j < i ==> seen@[j]@ != mount@,
        decreases seen@.len() - i,
    {
        if text_eq(seen[i].as_str(), mount) {
            assert(views(seen@)[i as int] == mount@);
            return true;
        }
        i = i + 1;
    }
    assert(!views(seen@).contains(mount@)) by {
        if views(seen@).contains(mount@) {
            let j = choose|j: int| 0 <= j < views(seen@).len() && views(seen@)[j] == mount@;
            assert(seen@[j]@ == mount@);
        }
    }
    false
}

/// The volumes for the dashboard from what the system lists.
pub fn collect_disks(raw: &Vec<DiskSpace>) -> (r: Vec<DiskInfo>)
    ensures
        r@.map_values(|d: DiskInfo| d@) == disk_list(raw@),
{
    let mut seen: Vec<String> = Vec::new();
    let mut out: Vec<DiskInfo> = Vec::new();
    let mut i: usize = 0;
    while i < raw.len()
        invariant
            i <= raw@.len(),
            views(seen@).to_set() == sized_mounts(raw@.take(i as int)),
            out@.map_values(|d: DiskInfo| d@) == disk_list(raw@.take(i as int)),
        decreases raw@.len() - i,
    {
        assert(raw@.take(i + 1).drop_last() =~= raw@.take(i as int));
        assert(raw@.take(i + 1).last() == raw@[i as int]);
        let d = &raw[i];
        if d.total != 0 {
            let known = seen_before(&seen, d.mount.as_str());
            proof {
                assert(views(seen@).contains(d.mount@) == views(seen@).to_set().contains(d.mount@));
            }
            let ghost old_seen = seen@;
            seen.push(d.mount.clone());
            assert(views(seen@) =~= views(old_seen).push(d.mount@));
            assert(views(seen@).to_set() =~= views(old_seen).to_set().insert(d.mount@)) by {
                vstd::seq_lib::seq_to_set_distributes_over_add(
                    views(old_seen),
                    seq![d.mount@],
                );
                assert(views(old_seen) + seq![d.mount@] =~= views(seen@));
                assert(seq![d.mount@].to_set() =~= set![d.mount@]) by {
                    assert(seq![d.mount@][0] == d.mount@);
                }
            }
            if !known {
                let used = if d.available <= d.total {
                    d.total - d.available
                } else {
                    0
                };
                let info = DiskInfo {
                    mount: strip_backslashes_end(d.mount.as_str()),
                    total_bytes: d.total,
                    free_bytes: d.available,
                    used_bytes: used,
                };
                let ghost before_out = out@;
                out.push(info);
                assert(out@.map_values(|d: DiskInfo| d@) =~= before_out.map_values(
                    |d: DiskInfo| d@,
                ).push(info@));
            }
        }
        i = i + 1;
    }
    assert(raw@.take(raw@.len() as int) =~= raw@);
    out
}

/// The actions that count as a cleanup on the dashboard.
pub open spec fn is_cleanup_action(a: Seq<char>) -> bool {
    ||| a == "disk_cleanup"@
    ||| a == "empty_recycle_bin"@
    ||| a == "docker_prune"@
    ||| a == "docker_compact"@
}

/// When the last successful cleanup in `entries` happened.
pub open spec fn last_cleanup_spec(entries: Seq<LogEntry>) -> Option<Seq<char>>
    decreases entries.len(),
{
    if entries.len() == 0 {
        None
    } else if entries.last().ok && is_cleanup_action(entries.last().action@) {
        Some(entries.last().timestamp@)
    } else {
        last_cleanup_spec(entries.drop_last())
    }
}

fn is_cleanup(a: &str) -> (r: bool)
    ensures
        r == is_cleanup_action(a@),
{
    text_eq(a, "disk_cleanup") || text_eq(a, "empty_recycle_bin") || text_eq(a, "docker_prune")
        || text_eq(a, "docker_compact")
}

/// The timestamp of the last successful cleanup among the log's `entries`.
pub fn last_cleanup(entries: &Vec<LogEntry>) -> (r: Option<String>)
    ensures
        match r {
            Some(t) => last_cleanup_spec(entries@) == Some(t@),
            None => last_cleanup_spec(entries@) is None,
        },
{
    let mut k = entries.len();
    assert(entries@.take(k as int) =~= entries@);
    while k > 0
        invariant
            k <= entries@.len(),
            last_cleanup_spec(entries@) == last_cleanup_spec(entries@.take(k as int)),
        decreases k,
    {
        assert(entries@.take(k as int).drop_last() =~= entries@.take(k - 1));
        assert(entries@.take(k as int).last() == entries@[k - 1]);
        let e = &entries[k - 1];
        if e.ok && is_cleanup(e.action.as_str()) {
            return Some(e.timestamp.clone());
        }
        k = k - 1;
    }
    None
}

/// The earliest next run among `tasks`, where `instants[i]` is the moment that the next
/// run of `tasks[i]` denotes (`None` when it has none or it cannot be read); the first
/// one wins a tie. Gives the moment and the text it was read from.
pub open spec fn earliest_of(tasks: Seq<ScheduledTask>, instants: Seq<Option<Instant>>) -> Option<
    (Instant, Seq<char>),
>
    decreases tasks.len(),
{
    if tasks.len() == 0 || instants.len() == 0 {
        None
    } else {
        let prev = earliest_of(tasks.drop_last(), instants.drop_last());
        match (tasks.last().next_run, instants.last()) {
            (Some(nr), Some(dt)) => match prev {
                Some((cur, t)) => if before(dt, cur) {
                    Some((dt, nr@))
                } else {
                    prev
                },
                None => Some((dt, nr@)),
            },
            _ => prev,
        }
    }
}

/// The text of the earliest next run among `tasks`, given the moment each next run
/// denotes (see `earliest_of`).
pub fn earliest_next_run(tasks: &Vec<ScheduledTask>, instants: &Vec<Option<Instant>>) -> (r:
    Option<String>)
    requires
        instants@.len() == tasks@.len(),
    ensures
        match earliest_of(tasks@, instants@) {
            Some((_, t)) => r matches Some(x) && x@ == t,
            None => r is None,
        },
{
    let mut best: Option<(Instant, String)> = None;
    let mut i: usize = 0;
    while i < tasks.len()
        invariant
            i <= tasks@.len(),
            instants@.len() == tasks@.len(),
            match earliest_of(tasks@.take(i as int), instants@.take(i as int)) {
                Some((dt, t)) => best matches Some((b, x)) && b == dt && x@ == t,
                None => best is None,
            },
        decreases tasks@.len() - i,
    {
        assert(tasks@.take(i + 1).drop_last() =~= tasks@.take(i as int));
        assert(instants@.take(i + 1).drop_last() =~= instants@.take(i as int));
        assert(tasks@.take(i + 1).last() == tasks@[i as int]);
        assert(instants@.take(i + 1).last() == instants@[i as int]);
        match (&tasks[i].next_run, instants[i]) {
            (Some(nr), Some(dt)) => {
                let replace = match &best {
                    Some((cur, _)) => is_before(dt, *cur),
                    None => true,
                };
                if replace {
                    best = Some((dt, nr.clone()));
                }
            },
            _ => {},
        }
        i = i + 1;
    }
    assert(tasks@.take(tasks@.len() as int) =~= tasks@);
    assert(instants@.take(tasks@.len() as int) =~= instants@);
    match best {
        Some((_, t)) => Some(t),
        None => None,
    }
}

/// The moment each task's next run denotes, when it has one that can be read.
pub open spec fn next_run_instants(tasks: Seq<ScheduledTask>) -> Seq<Option<Instant>> {
    tasks.map_values(
        |t: ScheduledTask|
            match t.next_run {
                Some(nr) => rfc3339_instant(nr@),
                None => None,
            },
    )
}

/// The next scheduled cleanup: the earliest next run among the listed tasks.
pub fn next_cleanup(tasks: &Vec<ScheduledTask>) -> (r: Option<String>)
    ensures
        match earliest_of(tasks@, next_run_instants(tasks@)) {
            Some((_, t)) => r matches Some(x) && x@ == t,
            None => r is None,
        },
{
    let mut instants: Vec<Option<Instant>> = Vec::new();
    let mut i: usize = 0;
    while i < tasks.len()
        invariant
            i <= tasks@.len(),
            instants@ == next_run_instants(tasks@).take(i as int),
        decreases tasks@.len() - i,
    {
        let inst = match &tasks[i].next_run {
            Some(nr) => parse_rfc3339(nr.as_str()),
            None => None,
        };
        instants.push(inst);
        assert(instants@ =~= next_run_instants(tasks@).take(i + 1));
        i = i + 1;
    }
    assert(instants@ =~= next_run_instants(tasks@));
    earliest_next_run(tasks, &instants)
}

/// The script that asks PowerShell for the protection status of `C:` ("On", "Off" or
/// "Unknown", always in English).
pub const BITLOCKER_SCRIPT: &'static str = "(Get-BitLockerVolume -MountPoint 'C:').ProtectionStatus.ToString()";

/// What the BitLocker check does next.
pub enum BitlockerStep {
    /// The status and the raw text are known.
    Known { status: Option<String>, raw: Option<String> },
    /// PowerShell gave nothing: ask `manage-bde`.
    AskManageBde,
}

/// The BitLocker status from the PowerShell query: its trimmed output when it
/// succeeded and printed something, with everything it printed as raw text.
pub fn bitlocker(ps: Result<Output, String>) -> (r: BitlockerStep)
    ensures
        match ps {
            Ok(o) => if o.success && trim(o.stdout@).len() > 0 {
                r matches BitlockerStep::Known { status, raw } && opt_view(status) == Some(
                    trim(o.stdout@),
                ) && opt_view(raw) == Some(combined_text(o.stdout@, o.stderr@))
            } else {
                r is AskManageBde
            },
            Err(_) => r is AskManageBde,
        },
{
    match ps {
        Ok(o) => {
            let status = trim_string(o.stdout.as_str());
            if o.success && status.as_str().unicode_len() > 0 {
                let raw = o.combined();
                BitlockerStep::Known { status: Some(status), raw: Some(raw) }
            } else {
                BitlockerStep::AskManageBde
            }
        },
        Err(_) => BitlockerStep::AskManageBde,
    }
}

/// The command that prints the BitLocker state of `C:`.
pub fn manage_bde_status() -> (r: Invocation)
    ensures
        r.program@ == "manage-bde"@,
        views(r.args@) == seq!["-status"@, "C:"@],
{
    let mut args: Vec<String> = Vec::new();
    args.push(String::from_str("-status"));
    args.push(String::from_str("C:"));
    assert(views(args@) =~= seq!["-status"@, "C:"@]);
    Invocation { program: String::from_str("manage-bde"), args }
}

/// Whether a `manage-bde` line gives the protection status: it mentions "protection"
/// or "prote" in any case (the accent of the Portuguese "Proteção" does not survive
/// the OEM code page) and holds a colon.
pub open spec fn protection_line(l: Seq<char>) -> bool {
    (has_sub(unicode_lower(l), "protection"@) || has_sub(unicode_lower(l), "prote"@)) && l.contains(
        ':',
    )
}

/// The first line of `ls` that gives the protection status.
pub open spec fn first_protection_line(ls: Seq<Seq<char>>) -> Option<Seq<char>>
    decreases ls.len(),
{
    if ls.len() == 0 {
        None
    } else if protection_line(ls[0]) {
        Some(ls[0])
    } else {
        first_protection_line(ls.drop_first())
    }
}

/// The status `manage-bde` reports in its text: what follows the colon of the first
/// protection line, trimmed.
pub open spec fn bde_status(text: Seq<char>) -> Option<Seq<char>> {
    match first_protection_line(lines(text)) {
        Some(l) => match after_first(l, ':') {
            Some(v) => Some(trim(v)),
            None => None,
        },
        None => None,
    }
}

/// The BitLocker status and raw text from how `manage-bde` ran: nothing when it failed.
pub fn bitlocker_from_manage_bde(out: Result<Output, String>) -> (r: (Option<String>, Option<String>))
    ensures
        match out {
            Ok(o) => if o.success {
                opt_view(r.0) == bde_status(o.stdout@) && opt_view(r.1) == Some(o.stdout@)
            } else {
                r.0 is None && r.1 is None
            },
            Err(_) => r.0 is None && r.1 is None,
        },
{
    let o = match out {
        Ok(o) => o,
        Err(_) => {
            return (None, None);
        },
    };
    if !o.success {
        return (None, None);
    }
    let ls = split_lines(o.stdout.as_str());
    let ghost all = lines(o.stdout@);
    let mut i: usize = 0;
    assert(all.skip(0) =~= all);
    while i < ls.len()
        invariant
            i <= ls@.len(),
            ls@.map_values(|l: String| l@) == all,
            all == lines(o.stdout@),
            o.success,
            out == Ok::<Output, String>(o),
            first_protection_line(all) == first_protection_line(all.skip(i as int)),
        decreases ls@.len() - i,
    {
        assert(all.skip(i as int)[0] == ls@[i as int]@);
        assert(all.skip(i as int).drop_first() =~= all.skip(i + 1));
        let l = ls[i].as_str();
        let low = to_lower(l);
        let hit = (str_contains(low.as_str(), "protection") || str_contains(low.as_str(), "prote"))
            && contains_char(&chars_of(l), ':');
        if hit {
            assert(first_protection_line(all) == Some(l@));
            let status = match text_after_first(l, ':') {
                Some(v) => Some(trim_string(v.as_str())),
                None => None,
            };
            return (status, Some(o.stdout.clone()));
        }
        i = i + 1;
    }
    (None, Some(o.stdout.clone()))
}

/// The script that lists the physical (PCI) video controllers by name as JSON.
pub const GPU_SCRIPT: &'static str = "@(Get-CimInstance Win32_VideoController -ErrorAction SilentlyContinue | Where-Object { $_.PNPDeviceID -like 'PCI\\*' } | ForEach-Object { [pscustomobject]@{ name = [string]$_.Name } }) | ConvertTo-Json -Depth 3";

/// The names of the cards in a listing, leaving out empty ones.
pub open spec fn card_names(rows: Seq<JsonValue>) -> Seq<Seq<char>> {
    rows.map_values(|row: JsonValue| str_field(row, "name"@)).filter(|n: Seq<char>| n.len() > 0)
}

/// The names of the cards from the JSON that `GPU_SCRIPT` printed.
pub fn gpu_names(json: JsonValue) -> (r: Vec<String>)
    ensures
        views(r@) == card_names(array_items(json)),
{
    let rows = as_array(json);
    let mut out: Vec<String> = Vec::new();
    let mut i: usize = 0;
    while i < rows.len()
        invariant
            i <= rows@.len(),
            views(out@) == card_names(rows@.take(i as int)),
        decreases rows@.len() - i,
    {
        let name = s(&rows[i], "name");
        proof {
            let f = |row: JsonValue| str_field(row, "name"@);
            assert(rows@.take(i + 1).map_values(f).drop_last() =~= rows@.take(i as int).map_values(
                f,
            ));
            assert(rows@.take(i + 1).map_values(f).last() == str_field(rows@[i as int], "name"@));
            reveal(Seq::filter);
        }
        if name.as_str().unicode_len() > 0 {
            let ghost before_out = out@;
            out.push(name);
            assert(views(out@) =~= views(before_out).push(out@.last()@));
        }
        i = i + 1;
    }
    assert(rows@.take(rows@.len() as int) =~= rows@);
    out
}

/// The query that asks `nvidia-smi` for name, temperature and memory of each card.
pub fn nvidia_smi_query() -> (r: Invocation)
    ensures
        r.program@ == "nvidia-smi"@,
        views(r.args@) == seq![
            "--query-gpu=name,temperature.gpu,memory.total"@,
            "--format=csv,noheader,nounits"@,
        ],
{
    let mut args: Vec<String> = Vec::new();
    args.push(String::from_str("--query-gpu=name,temperature.gpu,memory.total"));
    args.push(String::from_str("--format=csv,noheader,nounits"));
    assert(views(args@) =~= seq![
        "--query-gpu=name,temperature.gpu,memory.total"@,
        "--format=csv,noheader,nounits"@,
    ]);
    Invocation { program: String::from_str("nvidia-smi"), args }
}

/// Whether `c` is a decimal digit.
pub open spec fn is_digit(c: char) -> bool {
    '0' <= c && c <= '9'
}

/// The number the decimal digits `s` write.
pub open spec fn digits_value(s: Seq<char>) -> nat
    decreases s.len(),
{
    if s.len() == 0 {
        0
    } else {
        10 * digits_value(s.drop_last()) + ((s.last() as u32) - ('0' as u32)) as nat
    }
}

/// `s` without a leading `+`.
pub open spec fn unsigned_body(s: Seq<char>) -> Seq<char> {
    if s.len() > 0 && s[0] == '+' {
        s.drop_first()
    } else {
        s
    }
}

/// What `str::parse::<u64>` gives: an optional `+`, then at least one digit and nothing
/// else, for a value that fits in 64 bits.
pub open spec fn parse_u64_spec(s: Seq<char>) -> Option<u64> {
    let body = unsigned_body(s);
    if body.len() > 0 && (forall|i: int| 0 <= i < body.len() ==> is_digit(#[trigger] body[i]))
        && digits_value(body) <= u64::MAX {
        Some(digits_value(body) as u64)
    } else {
        None
    }
}

/// The number written in `s`, as `str::parse::<u64>` reads it.
pub fn parse_u64(s: &str) -> (r: Option<u64>)
    ensures
        r == parse_u64_spec(s@),
{
    let v = chars_of(s);
    let start: usize = if v.len() > 0 && v[0] == '+' {
        1
    } else {
        0
    };
    let ghost body = unsigned_body(s@);
    assert(body =~= v@.skip(start as int));
    if v.len() == start {
        return None;
    }
    let mut value: u64 = 0;
    let mut i: usize = start;
    assert(body.take(0) =~= Seq::<char>::empty());
    while i < v.len()
        invariant
            start <= i <= v@.len(),
            v@ == s@,
            body == unsigned_body(s@),
            body == v@.skip(start as int),
            value == digits_value(body.take(i - start)),
            forall|j: int| 0 <= j < i - start ==> is_digit(#[trigger] body[j]),
        decreases v@.len() - i,
    {
        let ghost k = (i - start) as int;
        assert(body.take(k + 1).drop_last() =~= body.take(k));
        assert(body.take(k + 1).last() == v@[i as int]);
        let c = v[i];
        if !('0' <= c && c <= '9') {
            assert(body[k] == v@[i as int]);
            assert(!is_digit(body[k]));
            assert(0 <= k < body.len());
            return None;
        }
        let d = (c as u32 - '0' as u32) as u64;
        if value > (u64::MAX - d) / 10 {
            proof {
                lemma_digits_value_grows(body, k + 1);
            }
            assert(digits_value(body.take(k + 1)) > u64::MAX) by (nonlinear_arith)
                requires
                    digits_value(body.take(k + 1)) == 10 * value + d,
                    value > (u64::MAX - d) / 10,
                    d <= 9,
            ;
            return None;
        }
        value = value * 10 + d;
        i = i + 1;
    }
    assert(body.take(body.len() as int) =~= body);
    Some(value)
}

/// Each digit only adds to the value of the digits before it.
proof fn lemma_digits_value_grows(s: Seq<char>, n: int)
    requires
        0 <= n <= s.len(),
    ensures
        digits_value(s) >= digits_value(s.take(n)),
    decreases s.len() - n,
{
    if n < s.len() {
        lemma_digits_value_grows(s, n + 1);
        assert(s.take(n + 1).drop_last() =~= s.take(n));
    } else {
        assert(s.take(n) =~= s);
    }
}


/// One line of `nvidia-smi`: the card's name, its temperature as printed, and its
/// memory in MiB when that reads as a number.
pub struct NvidiaRow {
    pub name: String,
    pub temp_text: String,
    pub mem_mb: Option<u64>,
}

/// A line of `nvidia-smi` as plain values.
pub ghost struct NvidiaRowView {
    pub name: Seq<char>,
    pub temp_text: Seq<char>,
    pub mem_mb: Option<u64>,
}

impl View for NvidiaRow {
    type V = NvidiaRowView;

    open spec fn view(&self) -> NvidiaRowView {
        NvidiaRowView { name: self.name@, temp_text: self.temp_text@, mem_mb: self.mem_mb }
    }
}

/// The row a line of `nvidia-smi` gives: its first three comma-separated fields,
/// trimmed; lines with fewer fields give none.
pub open spec fn nvidia_row_of(l: Seq<char>) -> Option<NvidiaRowView> {
    let f = pieces(l, ',');
    if f.len() >= 3 {
        Some(
            NvidiaRowView {
                name: trim(f[0]),
                temp_text: trim(f[1]),
                mem_mb: parse_u64_spec(trim(f[2])),
            },
        )
    } else {
        None
    }
}

/// The rows of the lines `ls`.
pub open spec fn nvidia_rows_of(ls: Seq<Seq<char>>) -> Seq<NvidiaRowView>
    decreases ls.len(),
{
    if ls.len() == 0 {
        Seq::empty()
    } else {
        match nvidia_row_of(ls.last()) {
            Some(r) => nvidia_rows_of(ls.drop_last()).push(r),
            None => nvidia_rows_of(ls.drop_last()),
        }
    }
}

/// The rows that `nvidia-smi` printed.
pub fn nvidia_rows(stdout: &str) -> (r: Vec<NvidiaRow>)
    ensures
        r@.map_values(|x: NvidiaRow| x@) == nvidia_rows_of(lines(stdout@)),
{
    let ls = split_lines(stdout);
    let ghost all = lines(stdout@);
    let mut out: Vec<NvidiaRow> = Vec::new();
    let mut i: usize = 0;
    while i < ls.len()
        invariant
            i <= ls@.len(),
            ls@.map_values(|l: String| l@) == all,
            out@.map_values(|x: NvidiaRow| x@) == nvidia_rows_of(all.take(i as int)),
        decreases ls@.len() - i,
    {
        assert(all.take(i + 1).drop_last() =~= all.take(i as int));
        assert(all.take(i + 1).last() == ls@[i as int]@);
        let cols = split_char(ls[i].as_str(), ',');
        if cols.len() >= 3 {
            let name = trim_string(cols[0].as_str());
            let temp_text = trim_string(cols[1].as_str());
            let mem_text = trim_string(cols[2].as_str());
            let mem_mb = parse_u64(mem_text.as_str());
            let row = NvidiaRow { name, temp_text, mem_mb };
            let ghost before_out = out@;
            out.push(row);
            assert(out@.map_values(|x: NvidiaRow| x@) =~= before_out.map_values(
                |x: NvidiaRow| x@,
            ).push(row@));
        }
        i = i + 1;
    }
    assert(all.take(all.len() as int) =~= all);
    out
}

/// A graphics card: its name and, when `nvidia-smi` knows it, its temperature (of the
/// caller's type `T`) and its memory in bytes.
pub struct GpuInfo<T> {
    pub name: String,
    pub temp_c: Option<T>,
    pub memory_bytes: Option<u64>,
}

/// A graphics card as plain values.
pub ghost struct GpuView<T> {
    pub name: Seq<char>,
    pub temp_c: Option<T>,
    pub memory_bytes: Option<u64>,
}

impl<T> View for GpuInfo<T> {
    type V = GpuView<T>;

    open spec fn view(&self) -> GpuView<T> {
        GpuView { name: self.name@, temp_c: self.temp_c, memory_bytes: self.memory_bytes }
    }
}

/// A reading of `nvidia-smi`: name, temperature and memory in MiB.
pub struct GpuReading<T> {
    pub name: String,
    pub temp_c: Option<T>,
    pub mem_mb: Option<u64>,
}

/// Whether a card named `g` and a reading named `nm` are the same card: either name
/// holds the other.
pub open spec fn same_card(g: Seq<char>, nm: Seq<char>) -> bool {
    has_sub(g, nm) || has_sub(nm, g)
}

/// The index of the first card of `list` that is the card `nm`; the length of `list`
/// when there is none.
pub open spec fn first_card<T>(list: Seq<GpuView<T>>, nm: Seq<char>) -> int
    decreases list.len(),
{
    if list.len() == 0 {
        0
    } else if same_card(list[0].name, nm) {
        0
    } else {
        1 + first_card(list.drop_first(), nm)
    }
}

/// `m` MiB in bytes, wrapping around at 2^64 as the multiplication does in a release
/// build.
pub open spec fn mib_bytes(m: Option<u64>) -> Option<u64> {
    match m {
        Some(x) => Some(((x as nat * 1048576) % 0x1_0000_0000_0000_0000) as u64),
        None => None,
    }
}

/// The cards once a reading is taken in: the first card it matches takes its
/// temperature and memory; a reading that matches none is a card of its own.
pub open spec fn take_reading<T>(list: Seq<GpuView<T>>, r: GpuReading<T>) -> Seq<GpuView<T>> {
    let k = first_card(list, r.name@);
    if k < list.len() {
        list.update(k, GpuView { name: list[k].name, temp_c: r.temp_c, memory_bytes: mib_bytes(r.mem_mb) })
    } else {
        list.push(GpuView { name: r.name@, temp_c: r.temp_c, memory_bytes: mib_bytes(r.mem_mb) })
    }
}

/// The cards once all `readings` are taken in, in order.
pub open spec fn take_readings<T>(list: Seq<GpuView<T>>, readings: Seq<GpuReading<T>>) -> Seq<
    GpuView<T>,
>
    decreases readings.len(),
{
    if readings.len() == 0 {
        list
    } else {
        take_reading(take_readings(list, readings.drop_last()), readings.last())
    }
}

/// The cards known by name alone.
pub open spec fn named_cards<T>(names: Seq<String>) -> Seq<GpuView<T>> {
    names.map_values(|n: String| GpuView { name: n@, temp_c: None, memory_bytes: None })
}

proof fn lemma_first_card<T>(list: Seq<GpuView<T>>, nm: Seq<char>)
    ensures
        0 <= first_card(list, nm) <= list.len(),
        forall|j: int| 0 <= j < first_card(list, nm) ==> !same_card(#[trigger] list[j].name, nm),
        first_card(list, nm) < list.len() ==> same_card(list[first_card(list, nm)].name, nm),
    decreases list.len(),
{
    if list.len() > 0 && !same_card(list[0].name, nm) {
        lemma_first_card(list.drop_first(), nm);
        assert forall|j: int| 0 <= j < first_card(list, nm) implies !same_card(
            #[trigger] list[j].name,
            nm,
        ) by {
            if j > 0 {
                assert(list[j] == list.drop_first()[j - 1]);
            }
        }
    }
}

/// The graphics cards: those named by Windows, enriched with what `nvidia-smi` read.
pub fn collect_gpus<T>(names: Vec<String>, readings: Vec<GpuReading<T>>) -> (r: Vec<GpuInfo<T>>)
    ensures
        r@.map_values(|g: GpuInfo<T>| g@) == take_readings(named_cards::<T>(names@), readings@),
{
    let ghost all_names = names@;
    let mut names = names;
    let mut gpus: Vec<GpuInfo<T>> = Vec::new();
    let mut i: usize = 0;
    let n = names.len();
    while i < n
        invariant
            i <= n,
            n == all_names.len(),
            names@ == all_names.skip(i as int),
            gpus@.map_values(|g: GpuInfo<T>| g@) == named_cards::<T>(all_names.take(i as int)),
        decreases n - i,
    {
        let name = names.remove(0);
        assert(name == all_names[i as int]);
        assert(all_names.skip(i as int).drop_first() =~= all_names.skip(i + 1));
        let ghost before_g = gpus@;
        gpus.push(GpuInfo { name, temp_c: None, memory_bytes: None });
        let ghost v = GpuView::<T> { name: all_names[i as int]@, temp_c: None, memory_bytes: None };
        assert(gpus@.map_values(|g: GpuInfo<T>| g@) =~= before_g.map_values(|g: GpuInfo<T>| g@).push(
            v,
        ));
        assert(named_cards::<T>(all_names.take(i + 1)) =~= named_cards::<T>(
            all_names.take(i as int),
        ).push(v));
        i = i + 1;
    }
    assert(all_names.take(n as int) =~= all_names);
    let ghost start = named_cards::<T>(all_names);
    let ghost all_readings = readings@;
    let mut readings = readings;
    let m = readings.len();
    let mut j: usize = 0;
    assert(all_readings.skip(0) =~= all_readings);
    while j < m
        invariant
            j <= m,
            m == all_readings.len(),
            readings@ == all_readings.skip(j as int),
            gpus@.map_values(|g: GpuInfo<T>| g@) == take_readings(start, all_readings.take(j as int)),
        decreases m - j,
    {
        let rd = readings.remove(0);
        assert(rd == all_readings[j as int]);
        assert(all_readings.skip(j as int).drop_first() =~= all_readings.skip(j + 1));
        assert(all_readings.take(j + 1).drop_last() =~= all_readings.take(j as int));
        let ghost cur = gpus@.map_values(|g: GpuInfo<T>| g@);
        proof {
            lemma_first_card(cur, rd.name@);
        }
        let mem = match rd.mem_mb {
            Some(x) => Some(x.wrapping_mul(1048576)),
            None => None,
        };
        assert(mem == mib_bytes(rd.mem_mb));
        let mut k: usize = 0;
        while k < gpus.len() && !(str_contains(gpus[k].name.as_str(), rd.name.as_str())
            || str_contains(rd.name.as_str(), gpus[k].name.as_str()))
            invariant
                k <= gpus@.len(),
                cur == gpus@.map_values(|g: GpuInfo<T>| g@),
                0 <= first_card(cur, rd.name@) <= cur.len(),
                forall|x: int| 0 <= x < first_card(cur, rd.name@) ==> !same_card(
                    #[trigger] cur[x].name,
                    rd.name@,
                ),
                first_card(cur, rd.name@) < cur.len() ==> same_card(
                    cur[first_card(cur, rd.name@)].name,
                    rd.name@,
                ),
                k <= first_card(cur, rd.name@),
            decreases gpus@.len() - k,
        {
            assert(cur[k as int].name == gpus@[k as int].name@);
            k = k + 1;
        }
        if k < gpus.len() {
            assert(cur[k as int].name == gpus@[k as int].name@);
            assert(k == first_card(cur, rd.name@));
            let g = GpuInfo { name: gpus[k].name.clone(), temp_c: rd.temp_c, memory_bytes: mem };
            gpus.set(k, g);
            assert(gpus@.map_values(|g: GpuInfo<T>| g@) =~= take_reading(cur, all_readings[j as int]));
        } else {
            assert(k == first_card(cur, rd.name@));
            let g = GpuInfo { name: rd.name, temp_c: rd.temp_c, memory_bytes: mem };
            gpus.push(g);
            assert(gpus@.map_values(|g: GpuInfo<T>| g@) =~= take_reading(cur, all_readings[j as int]));
        }
        j = j + 1;
    }
    assert(all_readings.take(m as int) =~= all_readings);
    gpus
}

/// Whether the `i`-th task has a next run that reads as the instant `instants[i]`.
pub open spec fn has_run(tasks: Seq<ScheduledTask>, instants: Seq<Option<Instant>>, i: int) -> bool {
    tasks[i].next_run is Some && instants[i] is Some
}

/// The next cleanup is the earliest of the next runs that can be read: it is one of
/// them, none comes before it, and there is none only when no task has a readable
/// next run.
pub proof fn next_cleanup_is_earliest(tasks: Seq<ScheduledTask>, instants: Seq<Option<Instant>>)
    requires
        instants.len() == tasks.len(),
    ensures
        match earliest_of(tasks, instants) {
            Some((m, t)) => (exists|i: int|
                0 <= i < tasks.len() && #[trigger] has_run(tasks, instants, i)
                    && instants[i] == Some(m) && tasks[i].next_run.unwrap()@ == t) && (forall|
                i: int,
            |
                0 <= i < tasks.len() && #[trigger] has_run(tasks, instants, i) ==> !before(
                    instants[i].unwrap(),
                    m,
                )),
            None => forall|i: int| 0 <= i < tasks.len() ==> !#[trigger] has_run(tasks, instants, i),
        },
    decreases tasks.len(),
{
    if tasks.len() > 0 {
        let tp = tasks.drop_last();
        let ip = instants.drop_last();
        next_cleanup_is_earliest(tp, ip);
        let n = tasks.len() - 1;
        assert forall|i: int| 0 <= i < n implies has_run(tasks, instants, i) == has_run(tp, ip, i)
            by {
            assert(tasks[i] == tp[i] && instants[i] == ip[i]);
        }
        match earliest_of(tp, ip) {
            Some((m, t)) => {
                let i0 = choose|i: int|
                    0 <= i < tp.len() && #[trigger] has_run(tp, ip, i) && ip[i] == Some(m)
                        && tp[i].next_run.unwrap()@ == t;
                assert(has_run(tasks, instants, i0));
            },
            None => {},
        }
        if has_run(tasks, instants, n) {
            assert(tasks.last() == tasks[n] && instants.last() == instants[n]);
        }
    }
}

/// The last cleanup shown is that of the last successful cleanup entry of the log, and
/// there is one exactly when the log holds such an entry.
pub proof fn last_cleanup_is_latest(entries: Seq<LogEntry>)
    ensures
        match last_cleanup_spec(entries) {
            Some(t) => exists|i: int|
                0 <= i < entries.len() && #[trigger] entries[i].ok && is_cleanup_action(
                    entries[i].action@,
                ) && entries[i].timestamp@ == t && forall|j: int|
                    i < j < entries.len() ==> !(#[trigger] entries[j].ok && is_cleanup_action(
                        entries[j].action@,
                    )),
            None => forall|i: int|
                0 <= i < entries.len() ==> !(#[trigger] entries[i].ok && is_cleanup_action(
                    entries[i].action@,
                )),
        },
    decreases entries.len(),
{
    if entries.len() > 0 {
        let p = entries.drop_last();
        last_cleanup_is_latest(p);
        let n = entries.len() - 1;
        assert(entries.last() == entries[n]);
        assert forall|i: int| 0 <= i < n implies entries[i] == p[i] by {}
        if !(entries[n].ok && is_cleanup_action(entries[n].action@)) {
            match last_cleanup_spec(p) {
                Some(t) => {
                    let i0 = choose|i: int|
                        0 <= i < p.len() && #[trigger] p[i].ok && is_cleanup_action(p[i].action@)
                            && p[i].timestamp@ == t && forall|j: int|
                            i < j < p.len() ==> !(#[trigger] p[j].ok && is_cleanup_action(
                                p[j].action@,
                            ));
                    assert(entries[i0] == p[i0]);
                    assert forall|j: int| i0 < j < entries.len() implies !(
                    #[trigger] entries[j].ok && is_cleanup_action(entries[j].action@)) by {
                        if j < n {
                            assert(entries[j] == p[j]);
                        }
                    }
                },
                None => {
                    assert forall|i: int| 0 <= i < entries.len() implies !(
                    #[trigger] entries[i].ok && is_cleanup_action(entries[i].action@)) by {
                        if i < n {
                            assert(entries[i] == p[i]);
                        }
                    }
                },
            }
        }
    }
}

/// A cleanup is exactly a successful entry of one of the four cleaning actions
/// (`disk_cleanup`, `empty_recycle_bin`, `docker_prune`, `docker_compact`): the last
/// cleanup shown is the timestamp of the latest such entry, and there is none exactly
/// when the log holds no such entry.
pub proof fn last_cleanup_is_one_of_the_four(entries: Seq<LogEntry>)
    ensures
        match last_cleanup_spec(entries) {
            Some(t) => exists|i: int|
                0 <= i < entries.len() && #[trigger] entries[i].ok && ({
                    let a = entries[i].action@;
                    a == "disk_cleanup"@ || a == "empty_recycle_bin"@ || a == "docker_prune"@
                        || a == "docker_compact"@
                }) && entries[i].timestamp@ == t && forall|j: int|
                    i < j < entries.len() && #[trigger] entries[j].ok ==> {
                        let a = entries[j].action@;
                        !(a == "disk_cleanup"@ || a == "empty_recycle_bin"@ || a
                            == "docker_prune"@ || a == "docker_compact"@)
                    },
            None => forall|i: int|
                0 <= i < entries.len() && #[trigger] entries[i].ok ==> {
                    let a = entries[i].action@;
                    !(a == "disk_cleanup"@ || a == "empty_recycle_bin"@ || a == "docker_prune"@
                        || a == "docker_compact"@)
                },
        },
{
    last_cleanup_is_latest(entries);
}

/// Every volume shown has a size, and its used space is its size minus its free space
/// (none when the free space exceeds the size).
pub proof fn listed_disks_are_sized(raw: Seq<DiskSpace>)
    ensures
        forall|i: int|
            0 <= i < disk_list(raw).len() ==> {
                let d = #[trigger] disk_list(raw)[i];
                &&& d.total_bytes > 0
                &&& d.used_bytes == if d.free_bytes <= d.total_bytes {
                    d.total_bytes - d.free_bytes
                } else {
                    0
                }
            },
        disk_list(raw).len() <= raw.len(),
    decreases raw.len(),
{
    if raw.len() > 0 {
        listed_disks_are_sized(raw.drop_last());
        let prev = disk_list(raw.drop_last());
        assert forall|i: int| 0 <= i < prev.len() implies disk_list(raw)[i] == prev[i] by {}
    }
}

} // verus!
