//! Programs that start with Windows, and switching them on and off the way Task
//! Manager does.

use vstd::prelude::*;
use crate::json::{JsonValue, array_items, as_array, s, str_field, bool_field, opt_bool};
use crate::text::{has_sub, unicode_upper, escape_quotes, to_upper, str_contains, escape_single_quotes, views};
use crate::util::{ActionResult, Output, Step, Invocation, powershell, powershell_args_spec, answers, answer};

verus! {

/// One program that starts with Windows.
pub struct StartupItem {
    pub name: String,
    pub command: String,
    pub location: String,
    pub enabled: bool,
}

/// A startup item as plain values.
pub ghost struct StartupItemView {
    pub name: Seq<char>,
    pub command: Seq<char>,
    pub location: Seq<char>,
    pub enabled: bool,
}

impl View for StartupItem {
    type V = StartupItemView;

    open spec fn view(&self) -> StartupItemView {
        StartupItemView {
            name: self.name@,
            command: self.command@,
            location: self.location@,
            enabled: self.enabled,
        }
    }
}

/// The script that lists the startup commands as JSON, with whether each is enabled
/// (an approval entry whose first byte is odd means disabled).
pub const LIST_SCRIPT: &'static str = r#"
$approvedPaths = @(
 'HKCU:\Software\Microsoft\Windows\CurrentVersion\Explorer\StartupApproved\Run',
 'HKCU:\Software\Microsoft\Windows\CurrentVersion\Explorer\StartupApproved\Run32',
 'HKCU:\Software\Microsoft\Windows\CurrentVersion\Explorer\StartupApproved\StartupFolder',
 'HKLM:\Software\Microsoft\Windows\CurrentVersion\Explorer\StartupApproved\Run',
 'HKLM:\Software\Microsoft\Windows\CurrentVersion\Explorer\StartupApproved\Run32',
 'HKLM:\Software\Microsoft\Windows\CurrentVersion\Explorer\StartupApproved\StartupFolder'
)
function Get-Enabled($name){
  foreach($p in $approvedPaths){
    try{
      $item = Get-ItemProperty -Path $p -ErrorAction Stop
      $val = $item.$name
      if($val -is [byte[]] -and $val.Length -ge 1){
        if($val[0] -band 1){ return $false } else { return $true }
      }
    } catch {}
  }
  return $true
}
@(Get-CimInstance Win32_StartupCommand -ErrorAction SilentlyContinue | ForEach-Object {
  [pscustomobject]@{
    name = [string]$_.Name
    command = [string]$_.Command
    location = [string]$_.Location
    enabled = [bool](Get-Enabled $_.Name)
  }
}) | ConvertTo-Json -Depth 3
"#;

/// One startup item from a JSON row: `enabled` counts as true unless it is `false`.
pub open spec fn startup_row(row: JsonValue) -> StartupItemView {
    StartupItemView {
        name: str_field(row, "name"@),
        command: str_field(row, "command"@),
        location: str_field(row, "location"@),
        enabled: match bool_field(row, "enabled"@) {
            Some(b) => b,
            None => true,
        },
    }
}

/// The startup items of a listing: rows without a name are left out.
pub open spec fn startup_list(rows: Seq<JsonValue>) -> Seq<StartupItemView> {
    rows.map_values(|row: JsonValue| startup_row(row)).filter(
        |e: StartupItemView| e.name.len() > 0,
    )
}

/// The startup items from the JSON that `list_startup_script` printed.
pub fn list_startup_impl(json: JsonValue) -> (r: Vec<StartupItem>)
    ensures
        r@.map_values(|e: StartupItem| e@) == startup_list(array_items(json)),
{
    let rows = as_array(json);
    let mut out: Vec<StartupItem> = Vec::new();
    let mut i: usize = 0;
    while i < rows.len()
        invariant
            i <= rows@.len(),
            out@.map_values(|e: StartupItem| e@) == startup_list(rows@.take(i as int)),
        decreases rows@.len() - i,
    {
        let name = s(&rows[i], "name");
        let command = s(&rows[i], "command");
        let location = s(&rows[i], "location");
        let enabled = match opt_bool(&rows[i], "enabled") {
            Some(b) => b,
            None => true,
        };
        let keep = name.as_str().unicode_len() > 0;
        proof {
            let f = |row: JsonValue| startup_row(row);
            assert(rows@.take(i + 1).map_values(f).drop_last() =~= rows@.take(i as int).map_values(
                f,
            ));
            assert(rows@.take(i + 1).map_values(f).last() == startup_row(rows@[i as int]));
            reveal(Seq::filter);
        }
        if keep {
            let ghost before = out@;
            out.push(StartupItem { name, command, location, enabled });
            assert(out@.map_values(|e: StartupItem| e@) =~= before.map_values(
                |e: StartupItem| e@,
            ).push(out@.last()@));
        }
        i = i + 1;
    }
    assert(rows@.take(rows@.len() as int) =~= rows@);
    out
}

/// The `StartupApproved` registry key that governs an item reported at `location`:
/// the machine's hive when the location names HKLM, the startup folder's subkey when it
/// names a startup folder and no `\RUN` key.
pub open spec fn approved_key_spec(location: Seq<char>) -> Seq<char> {
    let up = unicode_upper(location);
    let hive = if has_sub(up, "HKLM"@) || has_sub(up, "LOCAL_MACHINE"@) {
        "HKLM"@
    } else {
        "HKCU"@
    };
    let leaf = if has_sub(up, "STARTUP"@) && !has_sub(up, "\\RUN"@) {
        "StartupFolder"@
    } else {
        "Run"@
    };
    hive + ":\\Software\\Microsoft\\Windows\\CurrentVersion\\Explorer\\StartupApproved\\"@ + leaf
}

/// The `StartupApproved` key for the location an item was reported at.
pub fn approved_key(location: &str) -> (r: String)
    ensures
        r@ == approved_key_spec(location@),
{
    let up = to_upper(location);
    let hive = if str_contains(up.as_str(), "HKLM") || str_contains(up.as_str(), "LOCAL_MACHINE") {
        "HKLM"
    } else {
        "HKCU"
    };
    let leaf = if str_contains(up.as_str(), "STARTUP") && !str_contains(up.as_str(), "\\RUN") {
        "StartupFolder"
    } else {
        "Run"
    };
    let mut r = String::from_str(hive);
    r.append(":\\Software\\Microsoft\\Windows\\CurrentVersion\\Explorer\\StartupApproved\\");
    r.append(leaf);
    r
}

/// The message of a simulated change.
pub open spec fn set_startup_dry_message(name: Seq<char>, location: Seq<char>, enabled: bool) -> Seq<
    char,
> {
    "Iria "@ + (if enabled {
        "habilitar"@
    } else {
        "desabilitar"@
    }) + " `"@ + name + "` em "@ + approved_key_spec(location) + "."@
}

/// The script that writes the approval bytes (first byte 2 to enable, 3 to disable, as
/// Task Manager does), creating the key when it is missing.
pub open spec fn set_startup_script(name: Seq<char>, location: Seq<char>, enabled: bool) -> Seq<char> {
    "$bytes = [byte[]]("@ + (if enabled {
        "2"@
    } else {
        "3"@
    }) + ",0,0,0,0,0,0,0,0,0,0,0)\n$key = '"@ + approved_key_spec(location)
        + "'\nif(-not (Test-Path $key)){ New-Item -Path $key -Force | Out-Null }\nNew-ItemProperty -Path $key -Name '"@
        + escape_quotes(name) + "' -Value $bytes -PropertyType Binary -Force | Out-Null"@
}

/// The approval key lies in the machine's hive (`HKLM:`) exactly when the upper-cased
/// location names HKLM or LOCAL_MACHINE, and otherwise in the user's (`HKCU:`); it is
/// the `StartupFolder` subkey exactly when the location names STARTUP and no `\RUN`
/// key, and otherwise the `Run` subkey.
pub proof fn approval_key_follows_the_location(location: Seq<char>)
    ensures
        ({
            let up = unicode_upper(location);
            let k = approved_key_spec(location);
            let mid = ":\\Software\\Microsoft\\Windows\\CurrentVersion\\Explorer\\StartupApproved\\"@;
            &&& (has_sub(up, "HKLM"@) || has_sub(up, "LOCAL_MACHINE"@)) ==> k.take(4) == "HKLM"@
            &&& !(has_sub(up, "HKLM"@) || has_sub(up, "LOCAL_MACHINE"@)) ==> k.take(4) == "HKCU"@
            &&& k.subrange(4, 4 + mid.len() as int) == mid
            &&& (has_sub(up, "STARTUP"@) && !has_sub(up, "\\RUN"@)) ==> k.skip(4 + mid.len() as int)
                == "StartupFolder"@
            &&& !(has_sub(up, "STARTUP"@) && !has_sub(up, "\\RUN"@)) ==> k.skip(4 + mid.len() as int)
                == "Run"@
        }),
{
    reveal_strlit("HKLM");
    reveal_strlit("HKCU");
    let up = unicode_upper(location);
    let k = approved_key_spec(location);
    let mid = ":\\Software\\Microsoft\\Windows\\CurrentVersion\\Explorer\\StartupApproved\\"@;
    let hive = if has_sub(up, "HKLM"@) || has_sub(up, "LOCAL_MACHINE"@) {
        "HKLM"@
    } else {
        "HKCU"@
    };
    let leaf = if has_sub(up, "STARTUP"@) && !has_sub(up, "\\RUN"@) {
        "StartupFolder"@
    } else {
        "Run"@
    };
    assert(k == hive + mid + leaf);
    assert(hive.len() == 4);
    assert(k.take(4) =~= hive);
    assert(k.subrange(4, 4 + mid.len() as int) =~= mid);
    assert(k.skip(4 + mid.len() as int) =~= leaf);
}

/// The approval value written starts with the byte Task Manager uses: 2 to enable and
/// 3 to disable (an odd first byte is what the listing reads as disabled).
pub proof fn approval_byte_follows_the_switch(name: Seq<char>, location: Seq<char>)
    ensures
        set_startup_script(name, location, true).take(19) == "$bytes = [byte[]](2"@,
        set_startup_script(name, location, false).take(19) == "$bytes = [byte[]](3"@,
{
    reveal_strlit("$bytes = [byte[]](");
    reveal_strlit("$bytes = [byte[]](2");
    reveal_strlit("$bytes = [byte[]](3");
    reveal_strlit("2");
    reveal_strlit("3");
    let head = "$bytes = [byte[]]("@;
    assert(head.len() == 18);
    let t1 = set_startup_script(name, location, true);
    let t0 = set_startup_script(name, location, false);
    assert(t1.take(19) =~= "$bytes = [byte[]](2"@) by {
        assert forall|i: int| 0 <= i < 19 implies t1[i] == "$bytes = [byte[]](2"@[i] by {
            if i < 18 {
                assert(t1[i] == head[i]);
            } else {
                assert(t1[i] == "2"@[0]);
            }
        }
    }
    assert(t0.take(19) =~= "$bytes = [byte[]](3"@) by {
        assert forall|i: int| 0 <= i < 19 implies t0[i] == "$bytes = [byte[]](3"@[i] by {
            if i < 18 {
                assert(t0[i] == head[i]);
            } else {
                assert(t0[i] == "3"@[0]);
            }
        }
    }
}

/// First step of enabling or disabling a startup item: a simulation answers at once;
/// otherwise the script has to run in PowerShell.
pub fn set_startup_impl(name: &str, location: &str, enabled: bool, dry_run: bool) -> (r: Step)
    ensures
        dry_run ==> (r matches Step::Done(res) && res.ok && res.dry_run && res.message@
            == set_startup_dry_message(name@, location@, enabled) && res.output@.len() == 0
            && res.details is None),
        !dry_run ==> (r matches Step::Run(inv) && inv.program@ == "powershell"@ && views(inv.args@)
            == powershell_args_spec(set_startup_script(name@, location@, enabled))),
{
    let key = approved_key(location);
    let state = if enabled {
        "habilitar"
    } else {
        "desabilitar"
    };
    if dry_run {
        let mut m = String::from_str("Iria ");
        m.append(state);
        m.append(" `");
        m.append(name);
        m.append("` em ");
        m.append(key.as_str());
        m.append(".");
        return Step::Done(ActionResult::dry(m));
    }
    let first = if enabled {
        "2"
    } else {
        "3"
    };
    let safe_name = escape_single_quotes(name);
    let mut script = String::from_str("$bytes = [byte[]](");
    script.append(first);
    script.append(",0,0,0,0,0,0,0,0,0,0,0)\n$key = '");
    script.append(key.as_str());
    script.append("'\nif(-not (Test-Path $key)){ New-Item -Path $key -Force | Out-Null }\nNew-ItemProperty -Path $key -Name '");
    script.append(safe_name.as_str());
    script.append("' -Value $bytes -PropertyType Binary -Force | Out-Null");
    Step::Run(powershell(script.as_str()))
}

/// The answer of a change from how the script ran.
pub fn set_startup_finish(name: &str, enabled: bool, out: Result<Output, String>) -> (r:
    ActionResult)
    ensures
        answers(
            r,
            out,
            "`"@ + name@ + "` "@ + (if enabled {
                "habilitado"@
            } else {
                "desabilitado"@
            }) + "."@,
            "Falha ao alterar item de inicialização."@,
            "Falha ao executar PowerShell."@,
        ),
{
    let mut m = String::from_str("`");
    m.append(name);
    m.append("` ");
    m.append(if enabled {
        "habilitado"
    } else {
        "desabilitado"
    });
    m.append(".");
    answer(out, m, "Falha ao alterar item de inicialização.", "Falha ao executar PowerShell.")
}

} // verus!
