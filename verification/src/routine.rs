//! The routines that the Task Scheduler starts headless (`--run <routine>`).

use vstd::prelude::*;
use crate::schedule::valid_routine;
use crate::text::text_eq;
use crate::util::ActionResult;

verus! {

/// A routine that runs without the window, always for real.
#[derive(PartialEq, Eq, Structural)]
pub enum Routine {
    DiskCleanup,
    EmptyRecycleBin,
    DockerPrune,
    DockerCompact,
    CleanDevCaches,
}

/// The routine of a name, when there is one.
pub open spec fn routine_of(name: Seq<char>) -> Option<Routine> {
    if name == "disk_cleanup"@ {
        Some(Routine::DiskCleanup)
    } else if name == "empty_recycle_bin"@ {
        Some(Routine::EmptyRecycleBin)
    } else if name == "docker_prune"@ {
        Some(Routine::DockerPrune)
    } else if name == "docker_compact"@ {
        Some(Routine::DockerCompact)
    } else if name == "clean_dev_caches"@ {
        Some(Routine::CleanDevCaches)
    } else {
        None
    }
}

/// The name of a routine, as scheduled and as logged.
pub open spec fn routine_name_spec(r: Routine) -> Seq<char> {
    match r {
        Routine::DiskCleanup => "disk_cleanup"@,
        Routine::EmptyRecycleBin => "empty_recycle_bin"@,
        Routine::DockerPrune => "docker_prune"@,
        Routine::DockerCompact => "docker_compact"@,
        Routine::CleanDevCaches => "clean_dev_caches"@,
    }
}

/// The name of a routine.
pub fn routine_name(r: &Routine) -> (n: &'static str)
    ensures
        n@ == routine_name_spec(*r),
{
    match r {
        Routine::DiskCleanup => "disk_cleanup",
        Routine::EmptyRecycleBin => "empty_recycle_bin",
        Routine::DockerPrune => "docker_prune",
        Routine::DockerCompact => "docker_compact",
        Routine::CleanDevCaches => "clean_dev_caches",
    }
}

/// The routine that the headless mode runs for `name`; an unknown name is answered
/// with a failure.
pub fn run_routine(name: &str) -> (r: Result<Routine, ActionResult>)
    ensures
        match routine_of(name@) {
            Some(k) => r == Ok::<Routine, ActionResult>(k),
            None => r matches Err(res) && !res.ok && !res.dry_run && res.message@
                == "Rotina desconhecida: "@ + name@ && res.output@.len() == 0
                && res.details is None,
        },
{
    if text_eq(name, "disk_cleanup") {
        Ok(Routine::DiskCleanup)
    } else if text_eq(name, "empty_recycle_bin") {
        Ok(Routine::EmptyRecycleBin)
    } else if text_eq(name, "docker_prune") {
        Ok(Routine::DockerPrune)
    } else if text_eq(name, "docker_compact") {
        Ok(Routine::DockerCompact)
    } else if text_eq(name, "clean_dev_caches") {
        Ok(Routine::CleanDevCaches)
    } else {
        let mut m = String::from_str("Rotina desconhecida: ");
        m.append(name);
        Err(ActionResult::fail(m, String::new()))
    }
}

/// Every routine that can be scheduled is one the headless mode runs, and no other
/// name is run: the scheduler never creates a task that would fail as unknown.
pub proof fn schedulable_routines_are_runnable(name: Seq<char>)
    ensures
        valid_routine(name) <==> routine_of(name) is Some,
{
}

/// The name a routine is scheduled and logged under leads back to the routine.
pub proof fn routine_names_round_trip(r: Routine)
    ensures
        routine_of(routine_name_spec(r)) == Some(r),
        valid_routine(routine_name_spec(r)),
{
    reveal_strlit("disk_cleanup");
    reveal_strlit("empty_recycle_bin");
    reveal_strlit("docker_prune");
    reveal_strlit("docker_compact");
    reveal_strlit("clean_dev_caches");
    let d = "disk_cleanup"@;
    let e = "empty_recycle_bin"@;
    let p = "docker_prune"@;
    let c = "docker_compact"@;
    let k = "clean_dev_caches"@;
    assert(d[0] != e[0] && d[0] != k[0] && e[0] != p[0] && e[0] != c[0] && e[0] != k[0]);
    assert(d[1] != p[1] && d.len() != c.len() && p[0] != k[0] && c[0] != k[0] && p.len()
        != c.len());
}

} // verus!
