//! Windows' disk cleanup and the recycle bin.

use vstd::prelude::*;
use crate::size::{human, human_text};
use crate::text::{str_starts_with, begins_with, has_sub, unicode_lower, to_lower, str_contains};
use crate::util::{ActionResult, Output, Step, Invocation, powershell, powershell_args_spec, combined_text};
use crate::text::views;

verus! {

/// A volume as the system reports it: where it is mounted, its size and its free space
/// in bytes.
pub struct DiskSpace {
    pub mount: String,
    pub total: u64,
    pub available: u64,
}

/// The first volume mounted on `C:`, if any.
pub open spec fn c_volume(disks: Seq<DiskSpace>) -> Option<DiskSpace>
    decreases disks.len(),
{
    if disks.len() == 0 {
        None
    } else if begins_with(disks[0].mount@, "C:"@) {
        Some(disks[0])
    } else {
        c_volume(disks.drop_first())
    }
}

/// The free space of the `C:` volume in bytes, 0 when there is none.
pub fn c_free_bytes(disks: &Vec<DiskSpace>) -> (r: u64)
    ensures
        r == match c_volume(disks@) {
            Some(d) => d.available,
            None => 0,
        },
{
    let mut i: usize = 0;
    assert(disks@.skip(0) =~= disks@);
    while i < disks.len()
        invariant
            i <= disks@.len(),
            c_volume(disks@) == c_volume(disks@.skip(i as int)),
        decreases disks@.len() - i,
    {
        assert(disks@.skip(i as int).drop_first() =~= disks@.skip(i + 1));
        assert(disks@.skip(i as int)[0] == disks@[i as int]);
        if str_starts_with(disks[i].mount.as_str(), "C:") {
            return disks[i].available;
        }
        i = i + 1;
    }
    0
}

/// How much a quantity grew from `from` to `to`, never below zero, at most `i64::MAX`.
pub open spec fn gain(from: u64, to: u64) -> int {
    if to <= from {
        0
    } else if to - from > i64::MAX {
        i64::MAX as int
    } else {
        to - from
    }
}

/// How much a quantity grew from `from` to `to` (see `gain`).
pub fn gain_between(from: u64, to: u64) -> (r: i64)
    ensures
        r == gain(from, to),
        r >= 0,
{
    if to <= from {
        0
    } else if to - from > i64::MAX as u64 {
        i64::MAX
    } else {
        (to - from) as i64
    }
}

/// First step of the disk cleanup: a simulation answers at once; otherwise
/// `cleanmgr /sagerun:1` has to run, with the free space of `C:` measured before and
/// after.
pub fn disk_cleanup_impl(dry_run: bool) -> (r: Step)
    ensures
        dry_run ==> (r matches Step::Done(res) && res.ok && res.dry_run && res.message@
            == "Rodaria `cleanmgr /sagerun:1` com o perfil de limpeza salvo (configurável via `cleanmgr /sageset:1`)."@
            && res.output@.len() == 0 && res.details is None),
        !dry_run ==> (r matches Step::Run(inv) && inv.program@ == "cleanmgr"@ && views(inv.args@)
            == seq!["/sagerun:1"@]),
{
    if dry_run {
        return Step::Done(
            ActionResult::dry(
                String::from_str(
                    "Rodaria `cleanmgr /sagerun:1` com o perfil de limpeza salvo (configurável via `cleanmgr /sageset:1`).",
                ),
            ),
        );
    }
    let mut args: Vec<String> = Vec::new();
    args.push(String::from_str("/sagerun:1"));
    assert(views(args@) =~= seq!["/sagerun:1"@]);
    Step::Run(Invocation { program: String::from_str("cleanmgr"), args })
}

/// The answer of the disk cleanup, from the free bytes of `C:` before and after and how
/// `cleanmgr` ran. A run without exit code counts as started, since cleanmgr goes on
/// in the background.
pub fn disk_cleanup_finish(before: u64, after: u64, out: Result<Output, String>) -> (r:
    ActionResult)
    ensures
        !r.dry_run,
        r.details is None,
        match out {
            Ok(o) => if o.success || o.code is None {
                r.ok && r.message@ == "Limpeza iniciada. Espaço recuperado (aprox.): "@
                    + human_text(gain(before, after))
                    + ". Obs.: cleanmgr roda em background; o valor pode subestimar."@ && r.output@
                    == combined_text(o.stdout@, o.stderr@)
            } else {
                !r.ok && r.message@ == "cleanmgr retornou erro."@ && r.output@ == combined_text(
                    o.stdout@,
                    o.stderr@,
                )
            },
            Err(e) => !r.ok && r.message@ == "Falha ao executar cleanmgr."@ && r.output@ == e@,
        },
{
    match out {
        Ok(o) => if o.success || o.code.is_none() {
            let mut m = String::from_str("Limpeza iniciada. Espaço recuperado (aprox.): ");
            let h = human(gain_between(before, after));
            m.append(h.as_str());
            m.append(". Obs.: cleanmgr roda em background; o valor pode subestimar.");
            ActionResult::ok(m).with_output(o.combined())
        } else {
            ActionResult::fail(String::from_str("cleanmgr retornou erro."), o.combined())
        },
        Err(e) => ActionResult::fail(String::from_str("Falha ao executar cleanmgr."), e),
    }
}

/// First step of emptying the recycle bin: a simulation answers at once; otherwise
/// `Clear-RecycleBin` has to run in PowerShell, with the free space of `C:` measured
/// before and after.
pub fn empty_recycle_bin_impl(dry_run: bool) -> (r: Step)
    ensures
        dry_run ==> (r matches Step::Done(res) && res.ok && res.dry_run && res.message@
            == "Esvaziaria a Lixeira de todos os drives (`Clear-RecycleBin -Force`)."@
            && res.output@.len() == 0 && res.details is None),
        !dry_run ==> (r matches Step::Run(inv) && inv.program@ == "powershell"@ && views(inv.args@)
            == powershell_args_spec("Clear-RecycleBin -Force -ErrorAction Stop"@)),
{
    if dry_run {
        return Step::Done(
            ActionResult::dry(
                String::from_str(
                    "Esvaziaria a Lixeira de todos os drives (`Clear-RecycleBin -Force`).",
                ),
            ),
        );
    }
    Step::Run(powershell("Clear-RecycleBin -Force -ErrorAction Stop"))
}

/// The answer of emptying the recycle bin. A failure whose text mentions "empty" in any
/// case means the bin was already empty.
pub fn empty_recycle_bin_finish(before: u64, after: u64, out: Result<Output, String>) -> (r:
    ActionResult)
    ensures
        !r.dry_run,
        r.details is None,
        match out {
            Ok(o) => if o.success {
                r.ok && r.message@ == "Lixeira esvaziada. Espaço recuperado (aprox.): "@
                    + human_text(gain(before, after)) + "."@ && r.output@.len() == 0
            } else if has_sub(unicode_lower(combined_text(o.stdout@, o.stderr@)), "empty"@) {
                r.ok && r.message@ == "A Lixeira já estava vazia."@ && r.output@.len() == 0
            } else {
                !r.ok && r.message@ == "Não foi possível esvaziar a Lixeira."@ && r.output@
                    == combined_text(o.stdout@, o.stderr@)
            },
            Err(e) => !r.ok && r.message@ == "Falha ao esvaziar a Lixeira."@ && r.output@ == e@,
        },
{
    match out {
        Ok(o) => if o.success {
            let mut m = String::from_str("Lixeira esvaziada. Espaço recuperado (aprox.): ");
            let h = human(gain_between(before, after));
            m.append(h.as_str());
            m.append(".");
            ActionResult::ok(m)
        } else {
            let text = o.combined();
            let low = to_lower(text.as_str());
            if str_contains(low.as_str(), "empty") {
                ActionResult::ok(String::from_str("A Lixeira já estava vazia."))
            } else {
                ActionResult::fail(String::from_str("Não foi possível esvaziar a Lixeira."), text)
            }
        },
        Err(e) => ActionResult::fail(String::from_str("Falha ao esvaziar a Lixeira."), e),
    }
}

} // verus!
