//! Which of the tools the app drives are present on this machine.

use vstd::prelude::*;
use crate::text::views;
use crate::util::{Output, Invocation};

verus! {

/// The tools found on the machine.
pub struct Capabilities {
    pub docker: bool,
    pub wsl: bool,
    pub bitlocker: bool,
    pub cleanmgr: bool,
}

/// Whether a probe worked: the program started and exited with success.
pub open spec fn worked(out: Result<Output, String>) -> bool {
    match out {
        Ok(o) => o.success,
        Err(_) => false,
    }
}

/// Whether a probe worked.
pub fn works(out: &Result<Output, String>) -> (r: bool)
    ensures
        r == worked(*out),
{
    match out {
        Ok(o) => o.success,
        Err(_) => false,
    }
}

/// A program with its arguments.
fn invocation(program: &str, a: &str, b: Option<&str>) -> (r: Invocation)
    ensures
        r.program@ == program@,
        views(r.args@) == match b {
            Some(x) => seq![a@, x@],
            None => seq![a@],
        },
{
    let mut args: Vec<String> = Vec::new();
    args.push(String::from_str(a));
    match b {
        Some(x) => args.push(String::from_str(x)),
        None => {},
    }
    assert(views(args@) =~= match b {
        Some(x) => seq![a@, x@],
        None => seq![a@],
    });
    Invocation { program: String::from_str(program), args }
}

/// The probe for Docker: `docker --version`.
pub fn docker_probe() -> (r: Invocation)
    ensures
        r.program@ == "docker"@,
        views(r.args@) == seq!["--version"@],
{
    invocation("docker", "--version", None)
}

/// The first probe for WSL: `wsl --status`.
pub fn wsl_status_probe() -> (r: Invocation)
    ensures
        r.program@ == "wsl"@,
        views(r.args@) == seq!["--status"@],
{
    invocation("wsl", "--status", None)
}

/// The second probe for WSL, tried when the first fails: `wsl -l -q`.
pub fn wsl_list_probe() -> (r: Invocation)
    ensures
        r.program@ == "wsl"@,
        views(r.args@) == seq!["-l"@, "-q"@],
{
    invocation("wsl", "-l", Some("-q"))
}

/// The probe for BitLocker: `manage-bde -status C:`.
pub fn bitlocker_probe() -> (r: Invocation)
    ensures
        r.program@ == "manage-bde"@,
        views(r.args@) == seq!["-status"@, "C:"@],
{
    invocation("manage-bde", "-status", Some("C:"))
}

/// The capabilities from the probes: Docker, WSL (either of its probes) and BitLocker;
/// the disk cleanup tool always ships with Windows.
pub fn detect_capabilities_impl(docker: bool, wsl_status: bool, wsl_list: bool, bitlocker: bool) -> (r:
    Capabilities)
    ensures
        r.docker == docker,
        r.wsl == (wsl_status || wsl_list),
        r.bitlocker == bitlocker,
        r.cleanmgr,
{
    Capabilities { docker, wsl: wsl_status || wsl_list, bitlocker, cleanmgr: true }
}

} // verus!
