//! Caches of package managers: where they are, how big, and how each is cleaned.

use vstd::prelude::*;
use crate::disk::{gain, gain_between};
use crate::size::{human, human_text};
use crate::text::{join, join_strings, views, trim, trim_string, text_eq, chars_of};
use crate::util::{ActionResult, Output, Invocation, powershell, powershell_args_spec, combined_text};

verus! {

/// How the cache of a manager is cleaned.
pub enum CleanKind {
    /// The manager's own command, run in PowerShell (which resolves the `.cmd` shims).
    Cmd(&'static str),
    /// No command exists: these subfolders of the cache folder are deleted.
    RemoveDirs(Vec<&'static str>),
}

/// A package manager whose cache can be cleaned.
pub struct CacheSpec {
    pub id: &'static str,
    pub name: &'static str,
    /// The command that prints the cache folder; empty when only the default is used.
    pub dir_cmd: &'static str,
    /// The default folder: an environment variable and a path below it.
    pub fallback: Option<(&'static str, &'static str)>,
    pub clean: CleanKind,
}

/// A cache as listed to the user.
pub struct DevCache {
    pub id: String,
    pub name: String,
    pub path: String,
    pub size_bytes: Option<u64>,
    pub available: bool,
}

/// The identifiers of the managers, in the order they are listed.
pub open spec fn table_id(k: int) -> Seq<char> {
    if k == 0 {
        "npm"@
    } else if k == 1 {
        "yarn"@
    } else if k == 2 {
        "pnpm"@
    } else if k == 3 {
        "pip"@
    } else if k == 4 {
        "nuget"@
    } else {
        "cargo"@
    }
}

/// Whether the default folder of `s` is `rel` below the variable `var`.
pub open spec fn fallback_is(s: CacheSpec, var: Seq<char>, rel: Seq<char>) -> bool {
    match s.fallback {
        Some((v, p)) => v@ == var && p@ == rel,
        None => false,
    }
}

/// Whether `s` is cleaned by the command `c`.
pub open spec fn cleans_with(s: CacheSpec, c: Seq<char>) -> bool {
    match s.clean {
        CleanKind::Cmd(x) => x@ == c,
        _ => false,
    }
}

/// Whether `s` is cleaned by deleting the subfolders `cache` and `src`.
pub open spec fn cleans_downloads(s: CacheSpec) -> bool {
    match s.clean {
        CleanKind::RemoveDirs(subs) => subs@.len() == 2 && subs@[0]@ == "cache"@ && subs@[1]@
            == "src"@,
        _ => false,
    }
}

/// Whether `s` is the `k`-th manager of the table.
pub open spec fn table_entry(s: CacheSpec, k: int) -> bool {
    &&& s.id@ == table_id(k)
    &&& k == 0 ==> s.name@ == "npm"@ && s.dir_cmd@ == "npm config get cache"@ && fallback_is(
        s,
        "LOCALAPPDATA"@,
        "npm-cache"@,
    ) && cleans_with(s, "npm cache clean --force"@)
    &&& k == 1 ==> s.name@ == "Yarn"@ && s.dir_cmd@ == "yarn cache dir"@ && fallback_is(
        s,
        "LOCALAPPDATA"@,
        "Yarn\\Cache"@,
    ) && cleans_with(s, "yarn cache clean"@)
    &&& k == 2 ==> s.name@ == "pnpm"@ && s.dir_cmd@ == "pnpm store path"@ && fallback_is(
        s,
        "LOCALAPPDATA"@,
        "pnpm-store"@,
    ) && cleans_with(s, "pnpm store prune"@)
    &&& k == 3 ==> s.name@ == "pip"@ && s.dir_cmd@ == "pip cache dir"@ && fallback_is(
        s,
        "LOCALAPPDATA"@,
        "pip\\Cache"@,
    ) && cleans_with(s, "pip cache purge"@)
    &&& k == 4 ==> s.name@ == "NuGet (.NET)"@ && s.dir_cmd@ == ""@ && fallback_is(
        s,
        "USERPROFILE"@,
        ".nuget\\packages"@,
    ) && cleans_with(s, "dotnet nuget locals all --clear"@)
    &&& k == 5 ==> s.name@ == "Cargo (Rust)"@ && s.dir_cmd@ == ""@ && fallback_is(
        s,
        "USERPROFILE"@,
        ".cargo\\registry"@,
    ) && cleans_downloads(s)
}

/// How many managers the table holds.
pub open spec fn table_len() -> int {
    6
}

/// The managers whose caches the app knows how to clean. NuGet's shown size is only
/// its global packages folder, the largest part of what its command clears; Cargo
/// has no cleaning command, so its downloads (`registry\cache`, `registry\src`) are
/// deleted and fetched again when needed.
pub fn cache_specs() -> (r: Vec<CacheSpec>)
    ensures
        r@.len() == table_len(),
        forall|k: int| 0 <= k < table_len() ==> table_entry(#[trigger] r@[k], k),
{
    let mut r: Vec<CacheSpec> = Vec::new();
    r.push(
        CacheSpec {
            id: "npm",
            name: "npm",
            dir_cmd: "npm config get cache",
            fallback: Some(("LOCALAPPDATA", "npm-cache")),
            clean: CleanKind::Cmd("npm cache clean --force"),
        },
    );
    r.push(
        CacheSpec {
            id: "yarn",
            name: "Yarn",
            dir_cmd: "yarn cache dir",
            fallback: Some(("LOCALAPPDATA", "Yarn\\Cache")),
            clean: CleanKind::Cmd("yarn cache clean"),
        },
    );
    r.push(
        CacheSpec {
            id: "pnpm",
            name: "pnpm",
            dir_cmd: "pnpm store path",
            fallback: Some(("LOCALAPPDATA", "pnpm-store")),
            clean: CleanKind::Cmd("pnpm store prune"),
        },
    );
    r.push(
        CacheSpec {
            id: "pip",
            name: "pip",
            dir_cmd: "pip cache dir",
            fallback: Some(("LOCALAPPDATA", "pip\\Cache")),
            clean: CleanKind::Cmd("pip cache purge"),
        },
    );
    r.push(
        CacheSpec {
            id: "nuget",
            name: "NuGet (.NET)",
            dir_cmd: "",
            fallback: Some(("USERPROFILE", ".nuget\\packages")),
            clean: CleanKind::Cmd("dotnet nuget locals all --clear"),
        },
    );
    let mut subs: Vec<&'static str> = Vec::new();
    subs.push("cache");
    subs.push("src");
    r.push(
        CacheSpec {
            id: "cargo",
            name: "Cargo (Rust)",
            dir_cmd: "",
            fallback: Some(("USERPROFILE", ".cargo\\registry")),
            clean: CleanKind::RemoveDirs(subs),
        },
    );
    r
}

/// The manager whose identifier is `manager`; an unknown identifier is answered with a
/// failure.
pub fn clean_dev_cache_impl(manager: &str) -> (r: Result<CacheSpec, ActionResult>)
    ensures
        match r {
            Ok(s) => s.id@ == manager@ && exists|k: int| 0 <= k < table_len() && table_entry(s, k),
            Err(res) => !res.ok && !res.dry_run && res.message@ == "Gerenciador desconhecido: "@
                + manager@ && res.output@.len() == 0 && res.details is None && forall|k: int|
                0 <= k < table_len() ==> #[trigger] table_id(k) != manager@,
        },
{
    let specs = cache_specs();
    let mut specs = specs;
    let mut i: usize = 0;
    let ghost all = specs@;
    while specs.len() > 0
        invariant
            i <= 6,
            specs@ == all.skip(i as int),
            specs@.len() == 6 - i,
            all.len() == 6,
            forall|k: int| 0 <= k < 6 ==> table_entry(#[trigger] all[k], k),
            forall|k: int| 0 <= k < i ==> #[trigger] table_id(k) != manager@,
        decreases 6 - i,
    {
        let s = specs.remove(0);
        assert(s == all[i as int]);
        if text_eq(s.id, manager) {
            assert(table_entry(s, i as int));
            return Ok(s);
        }
        assert(all.skip(i as int).drop_first() =~= all.skip(i + 1));
        i = i + 1;
    }
    assert(i == 6);
    let mut m = String::from_str("Gerenciador desconhecido: ");
    m.append(manager);
    Err(ActionResult::fail(m, String::new()))
}

/// The command that prints where the cache of `spec` is, when it has one.
pub fn cache_dir_command(spec: &CacheSpec) -> (r: Option<Invocation>)
    ensures
        spec.dir_cmd@.len() == 0 ==> r is None,
        spec.dir_cmd@.len() > 0 ==> (r matches Some(inv) && inv.program@ == "powershell"@
            && views(inv.args@) == powershell_args_spec(spec.dir_cmd@)),
{
    if spec.dir_cmd.unicode_len() == 0 {
        None
    } else {
        Some(powershell(spec.dir_cmd))
    }
}

/// The folder a successful directory command printed, once trimmed, when it printed
/// more than whitespace.
pub fn cache_dir_from_output(out: &Result<Output, String>) -> (r: Option<String>)
    ensures
        match out {
            Ok(o) => if o.success && trim(o.stdout@).len() > 0 {
                r matches Some(p) && p@ == trim(o.stdout@)
            } else {
                r is None
            },
            Err(_) => r is None,
        },
{
    match out {
        Ok(o) => {
            if o.success {
                let p = trim_string(o.stdout.as_str());
                if p.as_str().unicode_len() > 0 {
                    return Some(p);
                }
            }
            None
        },
        Err(_) => None,
    }
}

/// What cleaning a manager does, as told to the user.
pub open spec fn clean_desc(kind: CleanKind) -> Seq<char> {
    match kind {
        CleanKind::Cmd(c) => c@,
        CleanKind::RemoveDirs(subs) => "apagar "@ + join(subs@.map_values(|x: &str| x@), ", "@),
    }
}

/// What cleaning `spec` does, as told to the user.
pub fn clean_description(spec: &CacheSpec) -> (r: String)
    ensures
        r@ == clean_desc(spec.clean),
{
    match &spec.clean {
        CleanKind::Cmd(c) => String::from_str(c),
        CleanKind::RemoveDirs(subs) => {
            let mut parts: Vec<String> = Vec::new();
            let mut i: usize = 0;
            while i < subs.len()
                invariant
                    i <= subs@.len(),
                    views(parts@) == subs@.take(i as int).map_values(|x: &str| x@),
                decreases subs@.len() - i,
            {
                parts.push(String::from_str(subs[i]));
                assert(subs@.take(i + 1).map_values(|x: &str| x@) =~= subs@.take(
                    i as int,
                ).map_values(|x: &str| x@).push(subs@[i as int]@));
                assert(views(parts@) =~= views(parts@.drop_last()).push(subs@[i as int]@));
                i = i + 1;
            }
            assert(subs@.take(subs@.len() as int) =~= subs@);
            let mut r = String::from_str("apagar ");
            r.append(join_strings(&parts, ", ").as_str());
            r
        },
    }
}

/// `n` as the signed count the size text expects, at most `i64::MAX`.
pub open spec fn as_signed(n: u64) -> int {
    if n > i64::MAX {
        i64::MAX as int
    } else {
        n as int
    }
}

fn to_signed(n: u64) -> (r: i64)
    ensures
        r == as_signed(n),
{
    if n > i64::MAX as u64 {
        i64::MAX
    } else {
        n as i64
    }
}

/// The answer of a simulated cleaning, with the current size in bytes of the cache
/// folder when there is one (a missing folder counts as empty).
pub fn clean_one_dry(spec: &CacheSpec, size: Option<u64>) -> (r: ActionResult)
    ensures
        r.ok && r.dry_run && r.details is None && r.output@.len() == 0,
        r.message@ == spec.name@ + ": rodaria `"@ + clean_desc(spec.clean)
            + "`. Cache atual (aprox.): "@ + human_text(
            as_signed(
                match size {
                    Some(s) => s,
                    None => 0,
                },
            ),
        ) + "."@,
{
    let bytes: u64 = match size {
        Some(s) => s,
        None => 0,
    };
    let mut m = String::from_str(spec.name);
    m.append(": rodaria `");
    m.append(clean_description(spec).as_str());
    m.append("`. Cache atual (aprox.): ");
    m.append(human(to_signed(bytes)).as_str());
    m.append(".");
    ActionResult::dry(m)
}

/// The answer of cleaning a manager whose cache was not found.
pub fn clean_one_missing(spec: &CacheSpec) -> (r: ActionResult)
    ensures
        r.ok && !r.dry_run && r.details is None && r.output@.len() == 0,
        r.message@ == spec.name@ + ": nenhum cache encontrado."@,
{
    let mut m = String::from_str(spec.name);
    m.append(": nenhum cache encontrado.");
    ActionResult::ok(m)
}

/// The path `rel` (a relative name without separators) inside the folder `base`, as
/// Windows' `PathBuf::push` writes it: a `\\` between them unless `base` is empty, ends
/// in a separator or is a bare drive such as `C:`.
pub open spec fn joined_path(base: Seq<char>, rel: Seq<char>) -> Seq<char> {
    if base.len() == 0 || base.last() == '\\' || base.last() == '/' || (base.len() == 2
        && base[1] == ':' && (('a' <= base[0] && base[0] <= 'z') || ('A' <= base[0] && base[0]
        <= 'Z'))) {
        base + rel
    } else {
        base + seq!['\\'] + rel
    }
}

/// The path `rel` inside the folder `base` (see `joined_path`).
pub fn join_path(base: &str, rel: &str) -> (r: String)
    ensures
        r@ == joined_path(base@, rel@),
{
    let cs = chars_of(base);
    let n = cs.len();
    let mut out = String::from_str(base);
    let bare = n == 0 || cs[n - 1] == '\\' || cs[n - 1] == '/' || (n == 2 && cs[1] == ':' && (('a'
        <= cs[0] && cs[0] <= 'z') || ('A' <= cs[0] && cs[0] <= 'Z')));
    if !bare {
        out.append("\\");
        proof { reveal_strlit("\\"); }
    }
    out.append(rel);
    proof {
        if n > 0 {
            assert(cs@.last() == cs@[n - 1]);
        }
    }
    assert(out@ =~= joined_path(base@, rel@));
    out
}

/// What cleaning runs: the manager's command, or the deletion of subfolders of the
/// cache folder (`subs` by name, `targets` by full path, one for one).
pub enum CleanAction {
    Run(Invocation),
    RemoveDirs { subs: Vec<String>, targets: Vec<String> },
}

/// Whether `a` is what cleaning `spec`, whose cache folder is `path`, runs.
pub open spec fn is_clean_action(spec: CacheSpec, path: Seq<char>, a: CleanAction) -> bool {
    match spec.clean {
        CleanKind::Cmd(c) => a matches CleanAction::Run(inv) && inv.program@ == "powershell"@
            && views(inv.args@) == powershell_args_spec(c@),
        CleanKind::RemoveDirs(names) => a matches CleanAction::RemoveDirs { subs, targets }
            && views(subs@) == names@.map_values(|x: &str| x@) && views(targets@)
            == names@.map_values(|x: &str| joined_path(path, x@)),
    }
}

/// What cleaning `spec`, whose cache folder is `path`, runs.
pub fn clean_action(spec: &CacheSpec, path: &str) -> (r: CleanAction)
    ensures
        is_clean_action(*spec, path@, r),
{
    match &spec.clean {
        CleanKind::Cmd(c) => CleanAction::Run(powershell(c)),
        CleanKind::RemoveDirs(names) => {
            let mut subs: Vec<String> = Vec::new();
            let mut targets: Vec<String> = Vec::new();
            let mut i: usize = 0;
            while i < names.len()
                invariant
                    i <= names@.len(),
                    views(subs@) == names@.take(i as int).map_values(|x: &str| x@),
                    views(targets@) == names@.take(i as int).map_values(
                        |x: &str| joined_path(path@, x@),
                    ),
                decreases names@.len() - i,
            {
                subs.push(String::from_str(names[i]));
                targets.push(join_path(path, names[i]));
                assert(names@.take(i + 1).map_values(|x: &str| x@) =~= names@.take(
                    i as int,
                ).map_values(|x: &str| x@).push(names@[i as int]@));
                assert(names@.take(i + 1).map_values(|x: &str| joined_path(path@, x@))
                    =~= names@.take(i as int).map_values(|x: &str| joined_path(path@, x@)).push(
                    joined_path(path@, names@[i as int]@),
                ));
                assert(views(subs@) =~= views(subs@.drop_last()).push(names@[i as int]@));
                assert(views(targets@) =~= views(targets@.drop_last()).push(
                    joined_path(path@, names@[i as int]@),
                ));
                i = i + 1;
            }
            assert(names@.take(names@.len() as int) =~= names@);
            CleanAction::RemoveDirs { subs, targets }
        },
    }
}

/// What cleaning one manager needs next.
pub enum CleanPlan {
    /// The answer is already known.
    Answer(ActionResult),
    /// A simulation: the cache folder, when there is one, is measured and the answer
    /// comes from `clean_one_dry`.
    Measure(Option<String>),
    /// The cache folder `path` is measured, `action` runs, the folder is measured
    /// again and the answer comes from `clean_one_finish`.
    Clean { path: String, action: CleanAction },
}

/// The first step of cleaning `spec`, whose cache folder is `path` when it was found: a
/// simulation only measures; a real cleaning without a folder has nothing to do;
/// otherwise the folder is cleaned.
pub fn clean_one_plan(spec: &CacheSpec, path: Option<String>, dry_run: bool) -> (r: CleanPlan)
    ensures
        dry_run ==> r == CleanPlan::Measure(path),
        !dry_run && path is None ==> (r matches CleanPlan::Answer(res) && res.ok && !res.dry_run
            && res.details is None && res.output@.len() == 0 && res.message@ == spec.name@
            + ": nenhum cache encontrado."@),
        !dry_run && path is Some ==> (r matches CleanPlan::Clean { path: p, action } && p
            == path->0 && is_clean_action(*spec, p@, action)),
{
    if dry_run {
        return CleanPlan::Measure(path);
    }
    match path {
        None => CleanPlan::Answer(clean_one_missing(spec)),
        Some(p) => {
            let action = clean_action(spec, p.as_str());
            CleanPlan::Clean { path: p, action }
        },
    }
}

/// Whether the manager's command succeeded, and what it printed or the error's text.
pub fn command_outcome(out: Result<Output, String>) -> (r: (bool, String))
    ensures
        match out {
            Ok(o) => r.0 == o.success && r.1@ == combined_text(o.stdout@, o.stderr@),
            Err(e) => !r.0 && r.1@ == e@,
        },
{
    match out {
        Ok(o) => (o.success, o.combined()),
        Err(e) => (false, e),
    }
}

/// The error lines of the deletions: `targets[i]`, a colon and the error, for each
/// deletion that failed (`failures[i]` holds its error), in order.
pub open spec fn removal_errors(targets: Seq<Seq<char>>, failures: Seq<Option<String>>) -> Seq<
    Seq<char>,
>
    decreases failures.len(),
{
    if failures.len() == 0 || targets.len() == 0 {
        Seq::empty()
    } else {
        let prev = removal_errors(targets.drop_last(), failures.drop_last());
        match failures.last() {
            Some(e) => prev.push(targets.last() + ": "@ + e@),
            None => prev,
        }
    }
}

/// Whether deleting the subfolders succeeded: `failures[i]` is the error met deleting
/// `targets[i]`, none when it was deleted or did not exist (only existing targets are
/// deleted). Without errors the text lists the subfolders; otherwise it has one line
/// per error.
pub fn remove_dirs_outcome(subs: &Vec<String>, targets: &Vec<String>, failures: Vec<
    Option<String>,
>) -> (r: (bool, String))
    requires
        failures@.len() == targets@.len(),
    ensures
        ({
            let errs = removal_errors(views(targets@), failures@);
            &&& errs.len() == 0 ==> r.0 && r.1@ == "Removido: "@ + join(views(subs@), ", "@)
            &&& errs.len() > 0 ==> !r.0 && r.1@ == join(errs, "\n"@)
        }),
{
    let ghost all = failures@;
    let mut fails = failures;
    let mut errors: Vec<String> = Vec::new();
    let mut i: usize = 0;
    assert(all.skip(0) =~= all);
    while i < targets.len()
        invariant
            i <= targets@.len(),
            all.len() == targets@.len(),
            fails@ == all.skip(i as int),
            views(errors@) == removal_errors(views(targets@).take(i as int), all.take(i as int)),
        decreases targets@.len() - i,
    {
        let f = fails.remove(0);
        assert(f == all[i as int]);
        assert(all.skip(i as int).drop_first() =~= all.skip(i + 1));
        assert(views(targets@).take(i + 1).drop_last() =~= views(targets@).take(i as int));
        assert(all.take(i + 1).drop_last() =~= all.take(i as int));
        assert(views(targets@).take(i + 1).last() == targets@[i as int]@);
        match f {
            Some(e) => {
                let mut line = targets[i].clone();
                line.append(": ");
                line.append(e.as_str());
                let ghost before = errors@;
                errors.push(line);
                assert(views(errors@) =~= views(before).push(targets@[i as int]@ + ": "@ + e@));
            },
            None => {},
        }
        i = i + 1;
    }
    assert(views(targets@).take(targets@.len() as int) =~= views(targets@));
    assert(all.take(targets@.len() as int) =~= all);
    if errors.len() == 0 {
        let mut t = String::from_str("Removido: ");
        t.append(join_strings(subs, ", ").as_str());
        (true, t)
    } else {
        (false, join_strings(&errors, "\n"))
    }
}

/// The answer of cleaning `spec`, from the cache's size before and after in bytes and
/// the outcome of the cleaning.
pub fn clean_one_finish(spec: &CacheSpec, before: u64, after: u64, success: bool, text: String) -> (r:
    ActionResult)
    ensures
        !r.dry_run && r.details is None,
        success ==> r.ok && r.message@ == spec.name@ + ": limpo. Espaço recuperado (aprox.): "@
            + human_text(gain(after, before)) + "."@ && r.output@ == text@,
        !success ==> !r.ok && r.message@ == spec.name@ + ": falha ao limpar."@ && r.output@
            == text@,
{
    if success {
        let mut m = String::from_str(spec.name);
        m.append(": limpo. Espaço recuperado (aprox.): ");
        m.append(human(gain_between(after, before)).as_str());
        m.append(".");
        ActionResult::ok(m).with_output(text)
    } else {
        let mut m = String::from_str(spec.name);
        m.append(": falha ao limpar.");
        ActionResult::fail(m, text)
    }
}

/// A cache as plain values.
pub ghost struct DevCacheView {
    pub id: Seq<char>,
    pub name: Seq<char>,
    pub path: Seq<char>,
    pub size_bytes: Option<u64>,
    pub available: bool,
}

impl View for DevCache {
    type V = DevCacheView;

    open spec fn view(&self) -> DevCacheView {
        DevCacheView {
            id: self.id@,
            name: self.name@,
            path: self.path@,
            size_bytes: self.size_bytes,
            available: self.available,
        }
    }
}

/// The listing of a manager from where its cache was found and its size in bytes.
pub open spec fn dev_cache_row(spec: CacheSpec, found: Option<(String, u64)>) -> DevCacheView {
    DevCacheView {
        id: spec.id@,
        name: spec.name@,
        path: match found {
            Some(f) => f.0@,
            None => Seq::empty(),
        },
        size_bytes: match found {
            Some(f) => Some(f.1),
            None => None,
        },
        available: found is Some,
    }
}

/// A manager whose cache was found at `p` with `size` bytes is listed as available, with
/// that folder and that size; one whose cache was not found is listed as unavailable,
/// with no folder and no size. Its identifier and name are the manager's.
pub proof fn found_caches_are_listed_where_found(spec: CacheSpec, found: Option<(String, u64)>)
    ensures
        dev_cache_row(spec, found).id == spec.id@,
        dev_cache_row(spec, found).name == spec.name@,
        dev_cache_row(spec, found).available == (found is Some),
        match found {
            Some(f) => dev_cache_row(spec, found).path == f.0@ && dev_cache_row(
                spec,
                found,
            ).size_bytes == Some(f.1),
            None => dev_cache_row(spec, found).path.len() == 0 && dev_cache_row(
                spec,
                found,
            ).size_bytes is None,
        },
{
}

/// The listing of all managers: `found[k]` is the folder and size of the cache of
/// the `k`-th manager of `cache_specs`, when it was found.
pub fn list_dev_caches_impl(found: Vec<Option<(String, u64)>>) -> (r: Vec<DevCache>)
    requires
        found@.len() == table_len(),
    ensures
        r@.len() == table_len(),
        forall|k: int|
            0 <= k < table_len() ==> {
                &&& (#[trigger] r@[k]).id@ == table_id(k)
                &&& exists|s: CacheSpec| #[trigger] table_entry(s, k) && r@[k]@ == dev_cache_row(
                    s,
                    found@[k],
                )
            },
        forall|k: int|
            0 <= k < table_len() ==> {
                &&& (#[trigger] r@[k]).available == (found@[k] is Some)
                &&& match found@[k] {
                    Some(f) => r@[k].path@ == f.0@ && r@[k].size_bytes == Some(f.1),
                    None => r@[k].path@.len() == 0 && r@[k].size_bytes is None,
                }
            },
{
    let specs = cache_specs();
    let mut found = found;
    let mut out: Vec<DevCache> = Vec::new();
    let ghost all = found@;
    let mut i: usize = 0;
    while i < 6
        invariant
            i <= 6,
            specs@.len() == 6,
            forall|k: int| 0 <= k < 6 ==> table_entry(#[trigger] specs@[k], k),
            all.len() == 6,
            found@ == all.skip(i as int),
            out@.len() == i,
            forall|k: int|
                0 <= k < i ==> {
                    &&& (#[trigger] out@[k]).id@ == table_id(k)
                    &&& out@[k]@ == dev_cache_row(specs@[k], all[k])
                    &&& out@[k].available == (all[k] is Some)
                    &&& match all[k] {
                        Some(f) => out@[k].path@ == f.0@ && out@[k].size_bytes == Some(f.1),
                        None => out@[k].path@.len() == 0 && out@[k].size_bytes is None,
                    }
                },
        decreases 6 - i,
    {
        let f = found.remove(0);
        assert(f == all[i as int]);
        assert(all.skip(i as int).drop_first() =~= all.skip(i + 1));
        let s = &specs[i];
        let c = match f {
            Some((p, size)) => DevCache {
                id: String::from_str(s.id),
                name: String::from_str(s.name),
                path: p,
                size_bytes: Some(size),
                available: true,
            },
            None => DevCache {
                id: String::from_str(s.id),
                name: String::from_str(s.name),
                path: String::new(),
                size_bytes: None,
                available: false,
            },
        };
        out.push(c);
        i = i + 1;
    }
    proof {
        assert forall|k: int| #![trigger out@[k]] 0 <= k < table_len() implies exists|s: CacheSpec|
            #[trigger] table_entry(s, k) && out@[k]@ == dev_cache_row(s, all[k]) by {
            assert(table_entry(specs@[k], k));
        }
    }
    out
}

/// How many of `results` succeeded.
pub open spec fn ok_count(results: Seq<ActionResult>) -> nat {
    results.filter(|r: ActionResult| r.ok).len()
}

/// How many of `results` failed.
pub open spec fn fail_count(results: Seq<ActionResult>) -> nat {
    results.filter(|r: ActionResult| !r.ok).len()
}

/// The messages of `results`.
pub open spec fn messages(results: Seq<ActionResult>) -> Seq<Seq<char>> {
    results.map_values(|r: ActionResult| r.message@)
}

/// The answer of cleaning every cache that was found, from the answers for each of
/// them, in order.
pub open spec fn clean_all_message(dry_run: bool, results: Seq<ActionResult>) -> Seq<char> {
    if dry_run {
        "Simularia limpeza de "@ + crate::text::decimal(ok_count(results))
            + " cache(s) de gerenciadores."@
    } else if fail_count(results) > 0 {
        "Caches limpos: "@ + crate::text::decimal(ok_count(results)) + ". Falhas: "@
            + crate::text::decimal(fail_count(results)) + "."@
    } else {
        "Caches limpos: "@ + crate::text::decimal(ok_count(results)) + "."@
    }
}

/// The answers of the managers whose cache was found, in order: `results[k]` is the
/// answer for the `k`-th manager, none when its cache folder was not found.
pub open spec fn present(results: Seq<Option<ActionResult>>) -> Seq<ActionResult>
    decreases results.len(),
{
    if results.len() == 0 {
        Seq::empty()
    } else {
        let prev = present(results.drop_last());
        match results.last() {
            Some(r) => prev.push(r),
            None => prev,
        }
    }
}

proof fn lemma_push_counts(s: Seq<ActionResult>, r: ActionResult)
    ensures
        ok_count(s.push(r)) == ok_count(s) + if r.ok {
            1int
        } else {
            0int
        },
        fail_count(s.push(r)) == fail_count(s) + if r.ok {
            0int
        } else {
            1int
        },
        messages(s.push(r)) == messages(s).push(r.message@),
{
    reveal(Seq::filter);
    assert(s.push(r).drop_last() =~= s);
    assert(messages(s.push(r)) =~= messages(s).push(r.message@));
}

/// The answer of cleaning all caches: `results[k]` is the answer of cleaning the
/// `k`-th manager of the table, none when its cache folder was not found. A manager
/// without a cache is skipped: neither counted nor listed.
pub fn clean_all_dev_caches_impl(dry_run: bool, results: Vec<Option<ActionResult>>) -> (r:
    ActionResult)
    ensures
        r.details is None,
        r.dry_run == dry_run,
        r.ok == (dry_run || fail_count(present(results@)) == 0),
        r.message@ == clean_all_message(dry_run, present(results@)),
        r.output@ == join(messages(present(results@)), "\n"@),
{
    let ghost all = results@;
    let mut rest = results;
    let mut oks: usize = 0;
    let mut fails: usize = 0;
    let mut lines: Vec<String> = Vec::new();
    let ghost mut kept: Seq<ActionResult> = Seq::empty();
    let mut i: usize = 0;
    let n = rest.len();
    assert(all.skip(0) =~= all);
    while i < n
        invariant
            n == all.len(),
            i <= n,
            rest@ == all.skip(i as int),
            kept == present(all.take(i as int)),
            oks == ok_count(kept),
            fails == fail_count(kept),
            oks + fails <= i,
            views(lines@) == messages(kept),
        decreases n - i,
    {
        let o = rest.remove(0);
        assert(o == all[i as int]);
        assert(all.skip(i as int).drop_first() =~= all.skip(i + 1));
        assert(all.take(i + 1).drop_last() =~= all.take(i as int));
        match o {
            Some(res) => {
                proof {
                    lemma_push_counts(kept, res);
                }
                if res.ok {
                    oks = oks + 1;
                } else {
                    fails = fails + 1;
                }
                let ghost before = lines@;
                lines.push(res.message);
                assert(views(lines@) =~= views(before).push(res.message@));
                proof {
                    kept = kept.push(res);
                }
            },
            None => {},
        }
        i = i + 1;
    }
    assert(all.take(n as int) =~= all);
    let text = join_strings(&lines, "\n");
    if dry_run {
        let mut m = String::from_str("Simularia limpeza de ");
        crate::text::push_decimal(&mut m, oks as u64);
        m.append(" cache(s) de gerenciadores.");
        ActionResult::dry(m).with_output(text)
    } else if fails > 0 {
        let mut m = String::from_str("Caches limpos: ");
        crate::text::push_decimal(&mut m, oks as u64);
        m.append(". Falhas: ");
        crate::text::push_decimal(&mut m, fails as u64);
        m.append(".");
        ActionResult::fail(m, text)
    } else {
        let mut m = String::from_str("Caches limpos: ");
        crate::text::push_decimal(&mut m, oks as u64);
        m.append(".");
        ActionResult::ok(m).with_output(text)
    }
}

/// Cleaning all caches counts every manager whose cache was found once, as cleaned or
/// as failed, and no manager whose cache was not found.
pub proof fn clean_all_counts_every_cache(results: Seq<Option<ActionResult>>)
    ensures
        ok_count(present(results)) + fail_count(present(results)) == results.filter(
            |o: Option<ActionResult>| o is Some,
        ).len(),
    decreases results.len(),
{
    reveal(Seq::filter);
    if results.len() > 0 {
        clean_all_counts_every_cache(results.drop_last());
        match results.last() {
            Some(r) => lemma_push_counts(present(results.drop_last()), r),
            None => {},
        }
    }
}

} // verus!
