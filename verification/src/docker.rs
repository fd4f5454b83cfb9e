//! Docker: pruning, compacting the WSL2 virtual disk, and the registries it holds
//! credentials for.

use vstd::prelude::*;
use crate::disk::{gain, gain_between};
use crate::json::{JsonValue, field, get, json_text, parse_json};
use crate::size::{mb, gb_text};
use crate::text::{views, chars_of};
use crate::util::{ActionResult, Output, Invocation, combined_text, answers};

verus! {

/// The command a prune runs: a simulation only shows the current usage.
pub open spec fn prune_args(dry_run: bool) -> Seq<Seq<char>> {
    if dry_run {
        seq!["system"@, "df"@]
    } else {
        seq!["system"@, "prune"@, "-a"@, "--volumes"@, "-f"@]
    }
}

/// What `docker` runs for a prune, or for its simulation.
pub fn docker_prune_impl(dry_run: bool) -> (r: Invocation)
    ensures
        r.program@ == "docker"@,
        views(r.args@) == prune_args(dry_run),
{
    let mut args: Vec<String> = Vec::new();
    args.push(String::from_str("system"));
    if dry_run {
        args.push(String::from_str("df"));
    } else {
        args.push(String::from_str("prune"));
        args.push(String::from_str("-a"));
        args.push(String::from_str("--volumes"));
        args.push(String::from_str("-f"));
    }
    assert(views(args@) =~= prune_args(dry_run));
    Invocation { program: String::from_str("docker"), args }
}

/// The answer of a prune, or of its simulation, from how `docker` ran.
pub fn docker_prune_finish(dry_run: bool, out: Result<Output, String>) -> (r: ActionResult)
    ensures
        r.details is None,
        dry_run ==> r.ok && r.dry_run && match out {
            Ok(o) => r.message@
                == "Rodaria `docker system prune -a --volumes -f`. Uso atual abaixo (docker system df)."@
                && r.output@ == combined_text(o.stdout@, o.stderr@),
            Err(e) => r.message@ == "Rodaria `docker system prune -a --volumes -f`."@ && r.output@
                == e@,
        },
        !dry_run ==> !r.dry_run && match out {
            Ok(o) => if o.success {
                r.ok && r.message@ == "Prune concluído."@ && r.output@ == combined_text(
                    o.stdout@,
                    o.stderr@,
                )
            } else {
                !r.ok && r.message@ == "docker prune falhou."@ && r.output@ == combined_text(
                    o.stdout@,
                    o.stderr@,
                )
            },
            Err(e) => !r.ok && r.message@ == "Docker não disponível."@ && r.output@ == e@,
        },
{
    if dry_run {
        return match out {
            Ok(o) => ActionResult::dry(
                String::from_str(
                    "Rodaria `docker system prune -a --volumes -f`. Uso atual abaixo (docker system df).",
                ),
            ).with_output(o.combined()),
            Err(e) => ActionResult::dry(
                String::from_str("Rodaria `docker system prune -a --volumes -f`."),
            ).with_output(e),
        };
    }
    match out {
        Ok(o) => if o.success {
            ActionResult::ok(String::from_str("Prune concluído.")).with_output(o.combined())
        } else {
            ActionResult::fail(String::from_str("docker prune falhou."), o.combined())
        },
        Err(e) => ActionResult::fail(String::from_str("Docker não disponível."), e),
    }
}

/// Where Docker Desktop keeps its WSL2 disk, below `%LOCALAPPDATA%\Docker\wsl`, in the
/// order they are tried.
pub open spec fn vhdx_candidate(k: int) -> (Seq<char>, Seq<char>) {
    if k == 0 {
        ("disk"@, "docker_data.vhdx"@)
    } else if k == 1 {
        ("data"@, "ext4.vhdx"@)
    } else {
        ("main"@, "ext4.vhdx"@)
    }
}

/// The known places of the disk (folder and file below `%LOCALAPPDATA%\Docker\wsl`).
pub fn docker_vhdx_candidates() -> (r: Vec<(&'static str, &'static str)>)
    ensures
        r@.len() == 3,
        forall|k: int| 0 <= k < 3 ==> (#[trigger] r@[k]).0@ == vhdx_candidate(k).0 && r@[k].1@
            == vhdx_candidate(k).1,
{
    let mut r: Vec<(&'static str, &'static str)> = Vec::new();
    r.push(("disk", "docker_data.vhdx"));
    r.push(("data", "ext4.vhdx"));
    r.push(("main", "ext4.vhdx"));
    r
}

/// Whether a file name has the extension `vhdx` as `Path::extension` reads it: the text
/// after the last dot, when that dot is not the name's first character.
pub open spec fn vhdx_extension(name: Seq<char>) -> bool {
    exists|k: int|
        0 < k < name.len() && name[k] == '.' && (forall|j: int| k < j < name.len() ==> name[j]
            != '.') && name.skip(k + 1) == "vhdx"@
}

/// Whether the file `name` has the extension `vhdx`.
pub fn has_vhdx_extension(name: &str) -> (r: bool)
    ensures
        r == vhdx_extension(name@),
{
    let v = chars_of(name);
    let mut k = v.len();
    while k > 0 && v[k - 1] != '.'
        invariant
            k <= v@.len(),
            v@ == name@,
            forall|j: int| k <= j < v@.len() ==> v@[j] != '.',
        decreases k,
    {
        k = k - 1;
    }
    if k <= 1 {
        assert(!vhdx_extension(name@)) by {
            if vhdx_extension(name@) {
                let w = choose|w: int|
                    0 < w < name@.len() && name@[w] == '.' && (forall|j: int|
                        w < j < name@.len() ==> name@[j] != '.') && name@.skip(w + 1) == "vhdx"@;
                assert(w < k || v@[w] != '.');
                if k == 1 {
                    assert(v@[0] == '.');
                }
            }
        }
        return false;
    }
    let dot = k - 1;
    let ext = name.substring_char(k, v.len());
    let r = crate::text::text_eq(ext, "vhdx");
    assert(ext@ =~= name@.skip(k as int));
    assert(r == vhdx_extension(name@)) by {
        if vhdx_extension(name@) {
            let w = choose|w: int|
                0 < w < name@.len() && name@[w] == '.' && (forall|j: int| w < j < name@.len()
                    ==> name@[j] != '.') && name@.skip(w + 1) == "vhdx"@;
            assert(w == dot);
        }
    }
    r
}

/// The text of the diskpart script that compacts the disk at `path` (CRLF lines).
pub open spec fn diskpart_script(path: Seq<char>) -> Seq<char> {
    "select vdisk file=\""@ + path
        + "\"\r\nattach vdisk readonly\r\ncompact vdisk\r\ndetach vdisk\r\nexit\r\n"@
}

/// What compacting does next.
pub enum CompactStep {
    /// The action is over with this answer.
    Done(ActionResult),
    /// Shut WSL down, write `script` to a file, run it with diskpart and measure the
    /// disk at `vhdx` again.
    Compact { vhdx: String, script: String },
}

/// First step of compacting Docker's disk, found at `vhdx` (`None` when it was not
/// found): a missing disk fails, a simulation says what would run.
pub fn docker_compact_vhdx_impl(vhdx: Option<String>, dry_run: bool) -> (r: CompactStep)
    ensures
        match vhdx {
            None => r matches CompactStep::Done(res) && !res.ok && !res.dry_run && res.message@
                == "vhdx do Docker não encontrado."@ && res.output@.len() == 0
                && res.details is None,
            Some(p) => if dry_run {
                r matches CompactStep::Done(res) && res.ok && res.dry_run && res.message@
                    == "Encerraria o WSL (`wsl --shutdown`) e compactaria via diskpart:\n"@ + p@
                    && res.output@.len() == 0 && res.details is None
            } else {
                r matches CompactStep::Compact { vhdx: v, script } && v@ == p@ && script@
                    == diskpart_script(p@)
            },
        },
{
    let path = match vhdx {
        Some(p) => p,
        None => {
            return CompactStep::Done(
                ActionResult::fail(String::from_str("vhdx do Docker não encontrado."), String::new()),
            );
        },
    };
    if dry_run {
        let mut m = String::from_str(
            "Encerraria o WSL (`wsl --shutdown`) e compactaria via diskpart:\n",
        );
        m.append(path.as_str());
        return CompactStep::Done(ActionResult::dry(m));
    }
    let mut script = String::from_str("select vdisk file=\"");
    script.append(path.as_str());
    script.append("\"\r\nattach vdisk readonly\r\ncompact vdisk\r\ndetach vdisk\r\nexit\r\n");
    CompactStep::Compact { vhdx: path, script }
}

/// The command that shuts WSL down so that its disk is released.
pub fn wsl_shutdown() -> (r: Invocation)
    ensures
        r.program@ == "wsl"@,
        views(r.args@) == seq!["--shutdown"@],
{
    let mut args: Vec<String> = Vec::new();
    args.push(String::from_str("--shutdown"));
    assert(views(args@) =~= seq!["--shutdown"@]);
    Invocation { program: String::from_str("wsl"), args }
}

/// The command that runs the diskpart script stored at `script_path`.
pub fn diskpart_run(script_path: &str) -> (r: Invocation)
    ensures
        r.program@ == "diskpart"@,
        views(r.args@) == seq!["/s"@, script_path@],
{
    let mut args: Vec<String> = Vec::new();
    args.push(String::from_str("/s"));
    args.push(String::from_str(script_path));
    assert(views(args@) =~= seq!["/s"@, script_path@]);
    Invocation { program: String::from_str("diskpart"), args }
}

/// The answer when the diskpart script could not be written.
pub fn compact_script_unwritable() -> (r: ActionResult)
    ensures
        !r.ok && !r.dry_run && r.message@ == "Não foi possível criar script diskpart."@
            && r.output@.len() == 0 && r.details is None,
{
    ActionResult::fail(String::from_str("Não foi possível criar script diskpart."), String::new())
}

/// The sizes of a compaction as JSON: `before`, `after` and `freed`, in bytes.
pub open spec fn compact_details(before: u64, after: u64, freed: int) -> Seq<(Seq<char>, JsonValue)> {
    seq![
        ("before"@, JsonValue::Int(before as i128)),
        ("after"@, JsonValue::Int(after as i128)),
        ("freed"@, JsonValue::Int(freed as i128)),
    ]
}

/// The answer of a compaction from the disk's size before and after, in bytes, and how
/// diskpart ran.
pub fn docker_compact_finish(before: u64, after: u64, out: Result<Output, String>) -> (r:
    ActionResult)
    ensures
        !r.dry_run,
        match out {
            Ok(o) => if o.success {
                &&& r.ok
                &&& r.message@ == "vhdx compactado. Antes: "@ + gb_text(before as nat)
                    + " · Depois: "@ + gb_text(after as nat) + " · Liberado: "@ + gb_text(
                    gain(after, before) as nat,
                )
                &&& r.output@ == combined_text(o.stdout@, o.stderr@)
                &&& r.details matches Some(JsonValue::Object(m)) && m@.map_values(
                    |e: (String, JsonValue)| (e.0@, e.1),
                ) == compact_details(before, after, gain(after, before))
            } else {
                !r.ok && r.details is None && r.message@
                    == "diskpart falhou (feche o Docker Desktop e tente novamente)."@ && r.output@
                    == combined_text(o.stdout@, o.stderr@)
            },
            Err(e) => !r.ok && r.details is None && r.message@ == "Falha ao rodar diskpart."@
                && r.output@ == e@,
        },
{
    match out {
        Ok(o) => if o.success {
            let freed = gain_between(after, before);
            let mut m = String::from_str("vhdx compactado. Antes: ");
            m.append(mb(before).as_str());
            m.append(" · Depois: ");
            m.append(mb(after).as_str());
            m.append(" · Liberado: ");
            m.append(mb(freed as u64).as_str());
            let mut details: Vec<(String, JsonValue)> = Vec::new();
            details.push((String::from_str("before"), JsonValue::Int(before as i128)));
            details.push((String::from_str("after"), JsonValue::Int(after as i128)));
            details.push((String::from_str("freed"), JsonValue::Int(freed as i128)));
            assert(details@.map_values(|e: (String, JsonValue)| (e.0@, e.1)) =~= compact_details(
                before,
                after,
                gain(after, before),
            ));
            ActionResult::ok(m).with_output(o.combined()).with_details(JsonValue::Object(details))
        } else {
            ActionResult::fail(
                String::from_str("diskpart falhou (feche o Docker Desktop e tente novamente)."),
                o.combined(),
            )
        },
        Err(e) => ActionResult::fail(String::from_str("Falha ao rodar diskpart."), e),
    }
}

/// The keys of the object `auths` of Docker's `config.json`, in order: the registries
/// Docker holds credentials for. Nothing when there is no such object.
pub open spec fn auth_hosts(config: JsonValue) -> Seq<Seq<char>> {
    match field(config, "auths"@) {
        Some(JsonValue::Object(m)) => m@.map_values(|e: (String, JsonValue)| e.0@),
        _ => Seq::empty(),
    }
}

/// The registries that Docker's configuration, the text of its `config.json`, holds
/// credentials for; none when the text is not JSON.
pub fn list_docker_tokens(config_text: &str) -> (r: Vec<String>)
    ensures
        views(r@) == match json_text(config_text@) {
            Some(v) => auth_hosts(v),
            None => seq![],
        },
{
    match parse_json(config_text) {
        Some(v) => auth_hosts_of(&v),
        None => Vec::new(),
    }
}

/// The registries of the parsed configuration `config`.
fn auth_hosts_of(config: &JsonValue) -> (r: Vec<String>)
    ensures
        views(r@) == auth_hosts(*config),
{
    let mut out: Vec<String> = Vec::new();
    match get(config, "auths") {
        Some(JsonValue::Object(m)) => {
            let mut i: usize = 0;
            while i < m.len()
                invariant
                    i <= m@.len(),
                    views(out@) == m@.take(i as int).map_values(|e: (String, JsonValue)| e.0@),
                decreases m@.len() - i,
            {
                out.push(m[i].0.clone());
                assert(m@.take(i + 1).map_values(|e: (String, JsonValue)| e.0@) =~= m@.take(
                    i as int,
                ).map_values(|e: (String, JsonValue)| e.0@).push(m@[i as int].0@));
                assert(views(out@) =~= views(out@.drop_last()).push(m@[i as int].0@));
                i = i + 1;
            }
            assert(m@.take(m@.len() as int) =~= m@);
        },
        _ => {},
    }
    out
}

} // verus!
