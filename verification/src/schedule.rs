//! Routines run by the Windows Task Scheduler under the `WinButler` folder.

use vstd::prelude::*;
use crate::json::{
    JsonValue, array_items, as_array, s, str_field, opt_str, opt_i64, opt_str_field, i64_field,
};
use crate::text::{
    begins_with, chars_of, unicode_upper, to_upper, text_eq, str_starts_with, join, join_strings,
    views,
};
use crate::util::{ActionResult, Output, Step, Invocation, powershell, answers, answer, combined_text};

verus! {

/// A scheduled task as listed to the user.
pub struct ScheduledTask {
    pub name: String,
    pub state: String,
    pub last_run: Option<String>,
    pub next_run: Option<String>,
    pub last_result: Option<i64>,
}

/// A scheduled task as plain values.
pub ghost struct ScheduledTaskView {
    pub name: Seq<char>,
    pub state: Seq<char>,
    pub last_run: Option<Seq<char>>,
    pub next_run: Option<Seq<char>>,
    pub last_result: Option<i64>,
}

/// The view of an optional text.
pub open spec fn opt_view(o: Option<String>) -> Option<Seq<char>> {
    match o {
        Some(t) => Some(t@),
        None => None,
    }
}

impl View for ScheduledTask {
    type V = ScheduledTaskView;

    open spec fn view(&self) -> ScheduledTaskView {
        ScheduledTaskView {
            name: self.name@,
            state: self.state@,
            last_run: opt_view(self.last_run),
            next_run: opt_view(self.next_run),
            last_result: self.last_result,
        }
    }
}

/// The routines that can be scheduled, by name.
pub open spec fn valid_routine(name: Seq<char>) -> bool {
    ||| name == "disk_cleanup"@
    ||| name == "empty_recycle_bin"@
    ||| name == "docker_prune"@
    ||| name == "docker_compact"@
    ||| name == "clean_dev_caches"@
}

/// Whether `name` is one of the routines that can be scheduled.
pub fn is_valid_routine(name: &str) -> (r: bool)
    ensures
        r == valid_routine(name@),
{
    text_eq(name, "disk_cleanup") || text_eq(name, "empty_recycle_bin") || text_eq(
        name,
        "docker_prune",
    ) || text_eq(name, "docker_compact") || text_eq(name, "clean_dev_caches")
}

/// The script that lists the tasks under `\WinButler\` as JSON.
pub const LIST_SCRIPT: &'static str = r#"
@(Get-ScheduledTask -TaskPath '\WinButler\*' -ErrorAction SilentlyContinue | ForEach-Object {
  $i = $_ | Get-ScheduledTaskInfo
  [pscustomobject]@{
    name = [string]$_.TaskName
    state = [string]$_.State
    lastRun = $(if($i.LastRunTime){ $i.LastRunTime.ToString('o') } else { $null })
    nextRun = $(if($i.NextRunTime){ $i.NextRunTime.ToString('o') } else { $null })
    lastResult = $i.LastTaskResult
  }
}) | ConvertTo-Json -Depth 3
"#;

/// One task from a JSON row.
pub open spec fn task_row(row: JsonValue) -> ScheduledTaskView {
    ScheduledTaskView {
        name: str_field(row, "name"@),
        state: str_field(row, "state"@),
        last_run: opt_str_field(row, "lastRun"@),
        next_run: opt_str_field(row, "nextRun"@),
        last_result: i64_field(row, "lastResult"@),
    }
}

/// The tasks of a listing: rows without a name are left out.
pub open spec fn task_list(rows: Seq<JsonValue>) -> Seq<ScheduledTaskView> {
    rows.map_values(|row: JsonValue| task_row(row)).filter(
        |t: ScheduledTaskView| t.name.len() > 0,
    )
}

/// The scheduled tasks from the JSON that `LIST_SCRIPT` printed.
pub fn list_scheduled_impl(json: JsonValue) -> (r: Vec<ScheduledTask>)
    ensures
        r@.map_values(|t: ScheduledTask| t@) == task_list(array_items(json)),
{
    let rows = as_array(json);
    let mut out: Vec<ScheduledTask> = Vec::new();
    let mut i: usize = 0;
    while i < rows.len()
        invariant
            i <= rows@.len(),
            out@.map_values(|t: ScheduledTask| t@) == task_list(rows@.take(i as int)),
        decreases rows@.len() - i,
    {
        let name = s(&rows[i], "name");
        let state = s(&rows[i], "state");
        let last_run = opt_str(&rows[i], "lastRun");
        let next_run = opt_str(&rows[i], "nextRun");
        let last_result = opt_i64(&rows[i], "lastResult");
        let keep = name.as_str().unicode_len() > 0;
        proof {
            let f = |row: JsonValue| task_row(row);
            assert(rows@.take(i + 1).map_values(f).drop_last() =~= rows@.take(i as int).map_values(
                f,
            ));
            assert(rows@.take(i + 1).map_values(f).last() == task_row(rows@[i as int]));
            reveal(Seq::filter);
        }
        if keep {
            let ghost before = out@;
            let t = ScheduledTask { name, state, last_run, next_run, last_result };
            assert(t@ == task_row(rows@[i as int]));
            out.push(t);
            assert(out@.map_values(|t: ScheduledTask| t@) =~= before.map_values(
                |t: ScheduledTask| t@,
            ).push(out@.last()@));
        }
        i = i + 1;
    }
    assert(rows@.take(rows@.len() as int) =~= rows@);
    out
}

/// The arguments of `schtasks` that create (or replace) the task of a routine: it runs
/// the program `exe` with `--run <routine>`, with highest privileges; `/d day` is added
/// only for weekly and monthly schedules.
pub open spec fn schedule_args(
    routine: Seq<char>,
    frequency: Seq<char>,
    time: Seq<char>,
    day: Option<Seq<char>>,
    exe: Seq<char>,
) -> Seq<Seq<char>> {
    let sched = unicode_upper(frequency);
    let base = seq![
        "/create"@,
        "/tn"@,
        "WinButler\\"@ + routine,
        "/tr"@,
        "\""@ + exe + "\" --run "@ + routine,
        "/sc"@,
        sched,
        "/st"@,
        time,
        "/rl"@,
        "HIGHEST"@,
        "/f"@,
    ];
    match day {
        Some(d) => if sched == "WEEKLY"@ || sched == "MONTHLY"@ {
            base + seq!["/d"@, d]
        } else {
            base
        },
        None => base,
    }
}

/// The arguments of `schtasks` for a schedule: twelve fixed ones (the task
/// `WinButler\<routine>`, the command `"<exe>" --run <routine>`, the upper-cased
/// frequency, the time, the highest run level and `/f`), then `/d <day>` exactly when a
/// day is given and the upper-cased frequency is `WEEKLY` or `MONTHLY`.
pub proof fn schedule_args_carry_the_day(
    routine: Seq<char>,
    frequency: Seq<char>,
    time: Seq<char>,
    day: Option<Seq<char>>,
    exe: Seq<char>,
)
    ensures
        ({
            let a = schedule_args(routine, frequency, time, day, exe);
            let sched = unicode_upper(frequency);
            &&& a[0] == "/create"@ && a[1] == "/tn"@ && a[2] == "WinButler\\"@ + routine
            &&& a[3] == "/tr"@ && a[4] == "\""@ + exe + "\" --run "@ + routine
            &&& a[5] == "/sc"@ && a[6] == sched && a[7] == "/st"@ && a[8] == time
            &&& a[9] == "/rl"@ && a[10] == "HIGHEST"@ && a[11] == "/f"@
            &&& match day {
                Some(d) => if sched == "WEEKLY"@ || sched == "MONTHLY"@ {
                    a.len() == 14 && a[12] == "/d"@ && a[13] == d
                } else {
                    a.len() == 12
                },
                None => a.len() == 12,
            }
        }),
{
}

/// The description of a schedule: routine, frequency, time and, when given, the day.
pub open spec fn schedule_desc(
    routine: Seq<char>,
    frequency: Seq<char>,
    time: Seq<char>,
    day: Option<Seq<char>>,
) -> Seq<char> {
    routine + " · "@ + frequency + " · "@ + time + match day {
        Some(d) => " · "@ + d,
        None => Seq::empty(),
    }
}

/// The description of a schedule (see `schedule_desc`).
pub fn schedule_description(routine: &str, frequency: &str, time: &str, day: Option<&str>) -> (r:
    String)
    ensures
        r@ == schedule_desc(
            routine@,
            frequency@,
            time@,
            match day {
                Some(d) => Some(d@),
                None => None,
            },
        ),
{
    let mut desc = String::from_str(routine);
    desc.append(" · ");
    desc.append(frequency);
    desc.append(" · ");
    desc.append(time);
    match day {
        Some(d) => {
            desc.append(" · ");
            desc.append(d);
        },
        None => {},
    }
    desc
}

/// First step of scheduling a routine. `exe` is the path of this program, or the error
/// met looking it up. An unknown routine is refused; a simulation shows the command
/// line; otherwise `schtasks` has to run.
pub fn schedule_routine_impl(
    routine: &str,
    frequency: &str,
    time: &str,
    day: Option<&str>,
    dry_run: bool,
    exe: Result<String, String>,
) -> (r: Step)
    ensures
        !valid_routine(routine@) ==> (r matches Step::Done(res) && !res.ok && !res.dry_run
            && res.message@ == "Rotina inválida: "@ + routine@ && res.output@.len() == 0
            && res.details is None),
        valid_routine(routine@) ==> match exe {
            Err(e) => r matches Step::Done(res) && !res.ok && !res.dry_run && res.message@
                == "Não foi possível localizar o executável."@ && res.output@ == e@
                && res.details is None,
            Ok(path) => {
                let day_v = match day {
                    Some(d) => Some(d@),
                    None => None,
                };
                let args = schedule_args(routine@, frequency@, time@, day_v, path@);
                if dry_run {
                    r matches Step::Done(res) && res.ok && res.dry_run && res.message@
                        == "Criaria a tarefa `"@ + "WinButler\\"@ + routine@ + "` ("@ + schedule_desc(
                        routine@,
                        frequency@,
                        time@,
                        day_v,
                    ) + ")."@ && res.output@ == "schtasks "@ + join(args, " "@)
                        && res.details is None
                } else {
                    r matches Step::Run(inv) && inv.program@ == "schtasks"@ && views(inv.args@)
                        == args
                }
            },
        },
{
    if !is_valid_routine(routine) {
        let mut m = String::from_str("Rotina inválida: ");
        m.append(routine);
        return Step::Done(ActionResult::fail(m, String::new()));
    }
    let exe = match exe {
        Ok(p) => p,
        Err(e) => {
            return Step::Done(
                ActionResult::fail(String::from_str("Não foi possível localizar o executável."), e),
            );
        },
    };
    let mut task_name = String::from_str("WinButler\\");
    task_name.append(routine);
    let mut tr = String::from_str("\"");
    tr.append(exe.as_str());
    tr.append("\" --run ");
    tr.append(routine);
    let sched = to_upper(frequency);
    let ghost day_v = match day {
        Some(d) => Some(d@),
        None => None,
    };
    let mut args: Vec<String> = Vec::new();
    args.push(String::from_str("/create"));
    args.push(String::from_str("/tn"));
    args.push(task_name.clone());
    args.push(String::from_str("/tr"));
    args.push(tr);
    args.push(String::from_str("/sc"));
    args.push(sched.clone());
    args.push(String::from_str("/st"));
    args.push(String::from_str(time));
    args.push(String::from_str("/rl"));
    args.push(String::from_str("HIGHEST"));
    args.push(String::from_str("/f"));
    let ghost base = views(args@);
    match day {
        Some(d) => {
            if text_eq(sched.as_str(), "WEEKLY") || text_eq(sched.as_str(), "MONTHLY") {
                args.push(String::from_str("/d"));
                args.push(String::from_str(d));
                assert(views(args@) =~= base + seq!["/d"@, d@]);
            }
        },
        None => {},
    }
    assert(views(args@) =~= schedule_args(routine@, frequency@, time@, day_v, exe@));
    let desc = schedule_description(routine, frequency, time, day);
    if dry_run {
        let mut m = String::from_str("Criaria a tarefa `");
        m.append(task_name.as_str());
        m.append("` (");
        m.append(desc.as_str());
        m.append(").");
        let mut o = String::from_str("schtasks ");
        let joined = join_strings(&args, " ");
        o.append(joined.as_str());
        assert(m@ =~= "Criaria a tarefa `"@ + "WinButler\\"@ + routine@ + "` ("@ + desc@ + ")."@);
        return Step::Done(ActionResult::dry(m).with_output(o));
    }
    Step::Run(Invocation { program: String::from_str("schtasks"), args })
}

/// The answer of a scheduling from how `schtasks` ran: success shows what it printed.
pub fn schedule_routine_finish(desc: &str, out: Result<Output, String>) -> (r: ActionResult)
    ensures
        !r.dry_run,
        r.details is None,
        match out {
            Ok(o) => if o.success {
                r.ok && r.message@ == "Rotina agendada: "@ + desc@ + "."@ && r.output@
                    == combined_text(o.stdout@, o.stderr@)
            } else {
                !r.ok && r.message@ == "Falha ao criar tarefa agendada."@ && r.output@
                    == combined_text(o.stdout@, o.stderr@)
            },
            Err(e) => !r.ok && r.message@ == "Falha ao executar schtasks."@ && r.output@ == e@,
        },
{
    match out {
        Ok(o) => if o.success {
            let mut m = String::from_str("Rotina agendada: ");
            m.append(desc);
            m.append(".");
            ActionResult::ok(m).with_output(o.combined())
        } else {
            ActionResult::fail(String::from_str("Falha ao criar tarefa agendada."), o.combined())
        },
        Err(e) => ActionResult::fail(String::from_str("Falha ao executar schtasks."), e),
    }
}

/// `s` without its leading backslashes (`trim_start_matches('\\')`).
pub open spec fn strip_backslashes(s: Seq<char>) -> Seq<char>
    decreases s.len(),
{
    if s.len() > 0 && s[0] == '\\' {
        strip_backslashes(s.drop_first())
    } else {
        s
    }
}

/// The full name of a task under the `WinButler` folder: leading backslashes are
/// dropped, and `WinButler\` is put in front unless the name already starts with it.
pub open spec fn task_path(name: Seq<char>) -> Seq<char> {
    let leaf = strip_backslashes(name);
    if begins_with(leaf, "WinButler\\"@) {
        leaf
    } else {
        "WinButler\\"@ + leaf
    }
}

/// The full name of the task `name` under the `WinButler` folder.
pub fn scheduled_task_path(name: &str) -> (r: String)
    ensures
        r@ == task_path(name@),
{
    let v = chars_of(name);
    let mut i: usize = 0;
    assert(v@.skip(0) =~= v@);
    while i < v.len() && v[i] == '\\'
        invariant
            i <= v@.len(),
            v@ == name@,
            strip_backslashes(name@) == strip_backslashes(v@.skip(i as int)),
        decreases v@.len() - i,
    {
        assert(v@.skip(i as int).drop_first() =~= v@.skip(i + 1));
        i = i + 1;
    }
    assert(v@.skip(i as int) =~= v@.subrange(i as int, v@.len() as int));
    let leaf = name.substring_char(i, v.len());
    if str_starts_with(leaf, "WinButler\\") {
        String::from_str(leaf)
    } else {
        let mut r = String::from_str("WinButler\\");
        r.append(leaf);
        r
    }
}

/// First step of removing a task: a simulation answers at once; otherwise `schtasks`
/// has to delete it.
pub fn remove_scheduled_impl(name: &str, dry_run: bool) -> (r: Step)
    ensures
        dry_run ==> (r matches Step::Done(res) && res.ok && res.dry_run && res.message@
            == "Removeria a tarefa `"@ + task_path(name@) + "`."@ && res.output@.len() == 0
            && res.details is None),
        !dry_run ==> (r matches Step::Run(inv) && inv.program@ == "schtasks"@ && views(inv.args@)
            == seq!["/delete"@, "/tn"@, task_path(name@), "/f"@]),
{
    let full = scheduled_task_path(name);
    if dry_run {
        let mut m = String::from_str("Removeria a tarefa `");
        m.append(full.as_str());
        m.append("`.");
        return Step::Done(ActionResult::dry(m));
    }
    let mut args: Vec<String> = Vec::new();
    args.push(String::from_str("/delete"));
    args.push(String::from_str("/tn"));
    args.push(full);
    args.push(String::from_str("/f"));
    assert(views(args@) =~= seq!["/delete"@, "/tn"@, task_path(name@), "/f"@]);
    Step::Run(Invocation { program: String::from_str("schtasks"), args })
}

/// The answer of a removal from how `schtasks` ran; `full` is the task's full name.
pub fn remove_scheduled_finish(full: &str, out: Result<Output, String>) -> (r: ActionResult)
    ensures
        answers(
            r,
            out,
            "Tarefa `"@ + full@ + "` removida."@,
            "Falha ao remover tarefa."@,
            "Falha ao executar schtasks."@,
        ),
{
    let mut m = String::from_str("Tarefa `");
    m.append(full);
    m.append("` removida.");
    answer(out, m, "Falha ao remover tarefa.", "Falha ao executar schtasks.")
}

/// `s` has no leading backslash once stripped, and stripping twice strips no more.
proof fn lemma_strip_backslashes(s: Seq<char>)
    ensures
        strip_backslashes(s).len() == 0 || strip_backslashes(s)[0] != '\\',
        strip_backslashes(strip_backslashes(s)) == strip_backslashes(s),
    decreases s.len(),
{
    if s.len() > 0 && s[0] == '\\' {
        lemma_strip_backslashes(s.drop_first());
    }
}

/// Every task the app removes is under the `WinButler` folder, and naming a task by
/// its full name leads to the same task.
pub proof fn task_path_is_under_winbutler(name: Seq<char>)
    ensures
        begins_with(task_path(name), "WinButler\\"@),
        task_path(task_path(name)) == task_path(name),
{
    reveal_strlit("WinButler\\");
    let p = "WinButler\\"@;
    let leaf = strip_backslashes(name);
    lemma_strip_backslashes(name);
    if begins_with(leaf, p) {
        assert(task_path(name) == leaf);
    } else {
        assert((p + leaf).subrange(0, p.len() as int) =~= p);
    }
    let t = task_path(name);
    assert(t.subrange(0, p.len() as int) == p);
    assert(t[0] == p[0]);
    assert(strip_backslashes(t) == t);
}

} // verus!
