use win_butler::cache::{cache_specs, clean_action, clean_one_plan, join_path, CleanPlan, clean_all_dev_caches_impl, clean_description, clean_dev_cache_impl, clean_one_dry, clean_one_finish, clean_one_missing, cache_dir_command, cache_dir_from_output, command_outcome, list_dev_caches_impl, remove_dirs_outcome, CleanAction};
use win_butler::detect::{bitlocker_probe, detect_capabilities_impl, docker_probe, works, wsl_list_probe, wsl_status_probe};
use win_butler::disk::{c_free_bytes, disk_cleanup_finish, disk_cleanup_impl, empty_recycle_bin_finish, empty_recycle_bin_impl, gain_between, DiskSpace};
use win_butler::docker::{compact_script_unwritable, diskpart_run, docker_compact_finish, docker_compact_vhdx_impl, docker_prune_finish, docker_prune_impl, docker_vhdx_candidates, has_vhdx_extension, list_docker_tokens, wsl_shutdown, CompactStep};
use win_butler::env::{list_env_vars_impl, list_env_vars_script, looks_suspicious, ps_scope, remove_env_var_finish, remove_env_var_impl};
use win_butler::json::JsonValue;
use win_butler::routine::{routine_name, run_routine, Routine};
use win_butler::schedule::{is_valid_routine, list_scheduled_impl, remove_scheduled_finish, remove_scheduled_impl, schedule_routine_finish, schedule_routine_impl, scheduled_task_path};
use win_butler::startup::{approved_key, list_startup_impl, set_startup_finish, set_startup_impl};
use win_butler::util::{ActionResult, Output, Step};

fn out(success: bool, stdout: &str, stderr: &str) -> Output {
    Output { success, stdout: stdout.to_string(), stderr: stderr.to_string(), code: Some(if success { 0 } else { 1 }) }
}

fn obj(fields: Vec<(&str, JsonValue)>) -> JsonValue {
    JsonValue::Object(fields.into_iter().map(|(k, v)| (k.to_string(), v)).collect())
}

fn text(s: &str) -> JsonValue {
    JsonValue::Str(s.to_string())
}

fn done(step: Step) -> ActionResult {
    match step {
        Step::Done(r) => r,
        Step::Run(_) => panic!("expected a finished step"),
    }
}

fn run(step: Step) -> (String, Vec<String>) {
    match step {
        Step::Run(inv) => (inv.program, inv.args),
        Step::Done(_) => panic!("expected a program to run"),
    }
}

#[test]
fn suspicious_names_and_values() {
    assert!(looks_suspicious("GITHUB_TOKEN", "x"));
    assert!(looks_suspicious("my_api_key", "x"));
    assert!(looks_suspicious("DB_PASSWORD", ""));
    assert!(!looks_suspicious("PATH", "C:\\Windows;C:\\Tools"));
    assert!(looks_suspicious("X", "abcdefghijklmnopqrstuvwxyz0123"));
    assert!(!looks_suspicious("X", "abcdefghijklmnopqrstuvw"));
    assert!(!looks_suspicious("X", "abcdefghijklmnopqrst uvwxyz0123"));
    assert!(!looks_suspicious("X", "abcdefghijklmnopqrstuvwxyz/0123"));
    assert!(!looks_suspicious("X", "ab.cd.ef.gh.ij.kl.mn.op.qr.st"));
    assert!(looks_suspicious("X", "  abcdefghijklmnopqrstuvwxyz0123  "));
}

#[test]
fn scope_names() {
    assert_eq!(ps_scope("machine"), "Machine");
    assert_eq!(ps_scope("user"), "User");
    assert_eq!(ps_scope("Machine"), "User");
}

#[test]
fn env_listing_from_json() {
    let json = JsonValue::Array(vec![
        obj(vec![("name", text("GH_TOKEN")), ("value", text("x"))]),
        obj(vec![("name", text("")), ("value", text("y"))]),
        obj(vec![("name", text("HOME")), ("value", text("C:\\Users\\a"))]),
    ]);
    let vars = list_env_vars_impl("user".to_string(), json);
    assert_eq!(vars.len(), 2);
    assert_eq!(vars[0].name, "GH_TOKEN");
    assert!(vars[0].suspicious);
    assert_eq!(vars[1].name, "HOME");
    assert!(!vars[1].suspicious);
    assert_eq!(vars[1].scope, "user");
    let single = list_env_vars_impl("machine".to_string(), obj(vec![("name", text("A")), ("value", text("b"))]));
    assert_eq!(single.len(), 1);
    assert!(list_env_vars_script("machine").contains("GetEnvironmentVariables('Machine')"));
}

#[test]
fn env_removal_steps() {
    let r = done(remove_env_var_impl("user", "FOO", true));
    assert!(r.ok && r.dry_run);
    assert_eq!(r.message, "Removeria a variável de user `FOO` (SetEnvironmentVariable = null).");
    let (program, args) = run(remove_env_var_impl("machine", "it's", false));
    assert_eq!(program, "powershell");
    assert!(args[5].ends_with("[Environment]::SetEnvironmentVariable('it''s', $null, 'Machine')"));
    let r = remove_env_var_finish("FOO", Ok(out(true, "", "")));
    assert!(r.ok);
    assert_eq!(r.message, "Variável `FOO` removida.");
    let r = remove_env_var_finish("FOO", Ok(out(false, "", "denied")));
    assert_eq!(r.message, "Falha ao remover variável.");
    assert_eq!(r.output, "denied");
    let r = remove_env_var_finish("FOO", Err("no ps".to_string()));
    assert_eq!(r.message, "Falha ao executar PowerShell.");
}

#[test]
fn startup_keys() {
    let base = "\\Software\\Microsoft\\Windows\\CurrentVersion\\Explorer\\StartupApproved\\";
    assert_eq!(approved_key("HKLM\\SOFTWARE\\Microsoft\\Windows\\CurrentVersion\\Run"), format!("HKLM:{base}Run"));
    assert_eq!(approved_key("HKU\\S-1-5\\SOFTWARE\\Microsoft\\Windows\\CurrentVersion\\Run"), format!("HKCU:{base}Run"));
    assert_eq!(approved_key("Startup"), format!("HKCU:{base}StartupFolder"));
    assert_eq!(approved_key("Common Startup"), format!("HKCU:{base}StartupFolder"));
    assert_eq!(approved_key("HKEY_LOCAL_MACHINE\\startup\\run"), format!("HKLM:{base}Run"));
}

#[test]
fn startup_listing_and_toggle() {
    let json = JsonValue::Array(vec![
        obj(vec![("name", text("OneDrive")), ("command", text("od.exe")), ("location", text("HKU")), ("enabled", JsonValue::Bool(false))]),
        obj(vec![("name", text("Teams")), ("command", text("t.exe")), ("location", text("Startup"))]),
        obj(vec![("command", text("nameless"))]),
    ]);
    let items = list_startup_impl(json);
    assert_eq!(items.len(), 2);
    assert!(!items[0].enabled);
    assert!(items[1].enabled);
    let r = done(set_startup_impl("Teams", "Startup", false, true));
    assert!(r.dry_run);
    assert!(r.message.starts_with("Iria desabilitar `Teams` em HKCU:"));
    let (_, args) = run(set_startup_impl("O'Brien", "HKLM", true, false));
    assert!(args[5].contains("$bytes = [byte[]](2,0,0,0,0,0,0,0,0,0,0,0)\n$key = 'HKLM:"));
    assert!(args[5].contains("-Name 'O''Brien'"));
    let r = set_startup_finish("Teams", false, Ok(out(true, "", "")));
    assert_eq!(r.message, "`Teams` desabilitado.");
    let r = set_startup_finish("Teams", true, Ok(out(false, "x", "")));
    assert_eq!(r.message, "Falha ao alterar item de inicialização.");
}

#[test]
fn scheduling() {
    assert!(is_valid_routine("docker_prune"));
    assert!(!is_valid_routine("format_c"));
    let r = done(schedule_routine_impl("format_c", "daily", "03:00", None, true, Ok("C:\\wb.exe".to_string())));
    assert!(!r.ok);
    assert_eq!(r.message, "Rotina inválida: format_c");
    let r = done(schedule_routine_impl("disk_cleanup", "daily", "03:00", None, true, Err("gone".to_string())));
    assert_eq!(r.message, "Não foi possível localizar o executável.");
    assert_eq!(r.output, "gone");
    let r = done(schedule_routine_impl("disk_cleanup", "weekly", "03:00", Some("MON"), true, Ok("C:\\wb.exe".to_string())));
    assert!(r.dry_run);
    assert_eq!(r.message, "Criaria a tarefa `WinButler\\disk_cleanup` (disk_cleanup · weekly · 03:00 · MON).");
    assert_eq!(r.output, "schtasks /create /tn WinButler\\disk_cleanup /tr \"C:\\wb.exe\" --run disk_cleanup /sc WEEKLY /st 03:00 /rl HIGHEST /f /d MON");
    let (program, args) = run(schedule_routine_impl("docker_prune", "daily", "04:30", Some("MON"), false, Ok("wb.exe".to_string())));
    assert_eq!(program, "schtasks");
    assert_eq!(args.len(), 12);
    assert_eq!(args[6], "DAILY");
    let r = schedule_routine_finish("x · daily · 04:30", Ok(out(true, "SUCCESS", "")));
    assert!(r.ok);
    assert_eq!(r.message, "Rotina agendada: x · daily · 04:30.");
    assert_eq!(r.output, "SUCCESS");
}

#[test]
fn scheduled_task_names() {
    assert_eq!(scheduled_task_path("disk_cleanup"), "WinButler\\disk_cleanup");
    assert_eq!(scheduled_task_path("\\\\WinButler\\x"), "WinButler\\x");
    assert_eq!(scheduled_task_path("\\x"), "WinButler\\x");
    let once = scheduled_task_path("\\a");
    assert_eq!(scheduled_task_path(&once), once);
    let r = done(remove_scheduled_impl("a", true));
    assert_eq!(r.message, "Removeria a tarefa `WinButler\\a`.");
    let (program, args) = run(remove_scheduled_impl("a", false));
    assert_eq!(program, "schtasks");
    assert_eq!(args, vec!["/delete", "/tn", "WinButler\\a", "/f"]);
    let r = remove_scheduled_finish("WinButler\\a", Ok(out(true, "", "")));
    assert_eq!(r.message, "Tarefa `WinButler\\a` removida.");
    let r = remove_scheduled_finish("WinButler\\a", Err("x".to_string()));
    assert_eq!(r.message, "Falha ao executar schtasks.");
}

#[test]
fn scheduled_listing() {
    let json = obj(vec![
        ("name", text("disk_cleanup")),
        ("state", text("Ready")),
        ("lastRun", JsonValue::Null),
        ("nextRun", text("2025-01-01T03:00:00-03:00")),
        ("lastResult", JsonValue::Int(267011)),
    ]);
    let tasks = list_scheduled_impl(json);
    assert_eq!(tasks.len(), 1);
    assert_eq!(tasks[0].last_run, None);
    assert_eq!(tasks[0].next_run.as_deref(), Some("2025-01-01T03:00:00-03:00"));
    assert_eq!(tasks[0].last_result, Some(267011));
    let big = obj(vec![("name", text("x")), ("lastResult", JsonValue::Int(1i128 << 70))]);
    assert_eq!(list_scheduled_impl(big)[0].last_result, None);
}

#[test]
fn headless_routines() {
    assert!(matches!(run_routine("docker_compact"), Ok(Routine::DockerCompact)));
    match run_routine("nope") {
        Err(r) => {
            assert!(!r.ok);
            assert_eq!(r.message, "Rotina desconhecida: nope");
        }
        Ok(_) => panic!("unknown routine accepted"),
    }
    for r in [Routine::DiskCleanup, Routine::EmptyRecycleBin, Routine::DockerPrune, Routine::DockerCompact, Routine::CleanDevCaches] {
        let name = routine_name(&r);
        assert!(is_valid_routine(name));
        assert!(run_routine(name).is_ok());
    }
}

#[test]
fn disk_cleanup_steps() {
    let r = done(disk_cleanup_impl(true));
    assert!(r.dry_run);
    let (program, args) = run(disk_cleanup_impl(false));
    assert_eq!((program.as_str(), args), ("cleanmgr", vec!["/sagerun:1".to_string()]));
    let r = disk_cleanup_finish(1000, 1000 + 1536, Ok(out(true, "", "")));
    assert!(r.ok);
    assert_eq!(r.message, "Limpeza iniciada. Espaço recuperado (aprox.): 1.5 KB. Obs.: cleanmgr roda em background; o valor pode subestimar.");
    let mut no_code = out(false, "", "");
    no_code.code = None;
    assert!(disk_cleanup_finish(5000, 1000, Ok(no_code)).message.contains("0.0 B"));
    assert_eq!(disk_cleanup_finish(0, 0, Ok(out(false, "", "bad"))).message, "cleanmgr retornou erro.");
    assert_eq!(disk_cleanup_finish(0, 0, Err("x".to_string())).message, "Falha ao executar cleanmgr.");
    assert_eq!(gain_between(10, 4), 0);
    assert_eq!(gain_between(4, 10), 6);
    assert_eq!(gain_between(0, u64::MAX), i64::MAX);
}

#[test]
fn recycle_bin_steps() {
    assert!(done(empty_recycle_bin_impl(true)).dry_run);
    let (program, args) = run(empty_recycle_bin_impl(false));
    assert_eq!(program, "powershell");
    assert!(args[5].ends_with("Clear-RecycleBin -Force -ErrorAction Stop"));
    let r = empty_recycle_bin_finish(0, 2048, Ok(out(true, "", "")));
    assert_eq!(r.message, "Lixeira esvaziada. Espaço recuperado (aprox.): 2.0 KB.");
    let r = empty_recycle_bin_finish(0, 0, Ok(out(false, "", "The recycle bin is EMPTY")));
    assert!(r.ok);
    assert_eq!(r.message, "A Lixeira já estava vazia.");
    let r = empty_recycle_bin_finish(0, 0, Ok(out(false, "", "Access denied")));
    assert!(!r.ok);
    assert_eq!(r.output, "Access denied");
    assert_eq!(empty_recycle_bin_finish(0, 0, Err("e".to_string())).message, "Falha ao esvaziar a Lixeira.");
}

#[test]
fn c_volume_free_space() {
    let disks = vec![
        DiskSpace { mount: "D:\\".to_string(), total: 10, available: 5 },
        DiskSpace { mount: "C:\\".to_string(), total: 100, available: 42 },
        DiskSpace { mount: "C:\\x".to_string(), total: 100, available: 7 },
    ];
    assert_eq!(c_free_bytes(&disks), 42);
    assert_eq!(c_free_bytes(&vec![]), 0);
}

#[test]
fn docker_prune_steps() {
    let inv = docker_prune_impl(true);
    assert_eq!(inv.args, vec!["system", "df"]);
    let inv = docker_prune_impl(false);
    assert_eq!(inv.args, vec!["system", "prune", "-a", "--volumes", "-f"]);
    let r = docker_prune_finish(true, Ok(out(true, "usage", "")));
    assert!(r.dry_run && r.ok);
    assert_eq!(r.output, "usage");
    let r = docker_prune_finish(true, Err("no docker".to_string()));
    assert_eq!(r.message, "Rodaria `docker system prune -a --volumes -f`.");
    let r = docker_prune_finish(false, Ok(out(true, "Total reclaimed space: 1GB", "")));
    assert_eq!(r.message, "Prune concluído.");
    assert_eq!(docker_prune_finish(false, Ok(out(false, "", ""))).message, "docker prune falhou.");
    assert_eq!(docker_prune_finish(false, Err("x".to_string())).message, "Docker não disponível.");
}

#[test]
fn docker_compaction() {
    match docker_compact_vhdx_impl(None, false) {
        CompactStep::Done(r) => assert_eq!(r.message, "vhdx do Docker não encontrado."),
        _ => panic!(),
    }
    match docker_compact_vhdx_impl(Some("C:\\d\\ext4.vhdx".to_string()), true) {
        CompactStep::Done(r) => assert_eq!(r.message, "Encerraria o WSL (`wsl --shutdown`) e compactaria via diskpart:\nC:\\d\\ext4.vhdx"),
        _ => panic!(),
    }
    match docker_compact_vhdx_impl(Some("C:\\d\\ext4.vhdx".to_string()), false) {
        CompactStep::Compact { vhdx, script } => {
            assert_eq!(vhdx, "C:\\d\\ext4.vhdx");
            assert_eq!(script, "select vdisk file=\"C:\\d\\ext4.vhdx\"\r\nattach vdisk readonly\r\ncompact vdisk\r\ndetach vdisk\r\nexit\r\n");
        }
        _ => panic!(),
    }
    let gb = 1073741824u64;
    let r = docker_compact_finish(10 * gb, 4 * gb, Ok(out(true, "done", "")));
    assert!(r.ok);
    assert_eq!(r.message, "vhdx compactado. Antes: 10.0 GB · Depois: 4.0 GB · Liberado: 6.0 GB");
    match r.details {
        Some(JsonValue::Object(m)) => {
            assert_eq!(m[2].0, "freed");
            assert!(matches!(m[2].1, JsonValue::Int(x) if x == (6 * gb) as i128));
        }
        _ => panic!(),
    }
    let r = docker_compact_finish(gb, 2 * gb, Ok(out(true, "", "")));
    assert!(r.message.ends_with("Liberado: 0.0 GB"));
    assert_eq!(docker_compact_finish(0, 0, Ok(out(false, "", ""))).message, "diskpart falhou (feche o Docker Desktop e tente novamente).");
    assert_eq!(docker_compact_finish(0, 0, Err("x".to_string())).message, "Falha ao rodar diskpart.");
    assert_eq!(compact_script_unwritable().message, "Não foi possível criar script diskpart.");
    assert_eq!(wsl_shutdown().args, vec!["--shutdown"]);
    assert_eq!(diskpart_run("C:\\s.dpt").args, vec!["/s", "C:\\s.dpt"]);
}

#[test]
fn docker_files() {
    let c = docker_vhdx_candidates();
    assert_eq!(c[0], ("disk", "docker_data.vhdx"));
    assert!(has_vhdx_extension("ext4.vhdx"));
    assert!(has_vhdx_extension("a.b.vhdx"));
    assert!(!has_vhdx_extension(".vhdx"));
    assert!(!has_vhdx_extension("ext4.vhdx.bak"));
    assert!(!has_vhdx_extension("vhdx"));
    assert!(!has_vhdx_extension("ext4.VHDX"));
    let cfg = r#"{"auths": {"https://index.docker.io/v1/": {}, "ghcr.io": {"auth": "x"}}, "credsStore": "desktop"}"#;
    assert_eq!(list_docker_tokens(cfg), vec!["ghcr.io", "https://index.docker.io/v1/"]);
    assert!(list_docker_tokens(r#"{"auths": "x"}"#).is_empty());
    assert!(list_docker_tokens("null").is_empty());
    assert!(list_docker_tokens("{not json").is_empty());
    assert!(list_docker_tokens("").is_empty());
}

#[test]
fn cache_table_and_lookup() {
    let specs = cache_specs();
    let ids: Vec<&str> = specs.iter().map(|s| s.id).collect();
    assert_eq!(ids, vec!["npm", "yarn", "pnpm", "pip", "nuget", "cargo"]);
    assert_eq!(clean_description(&specs[0]), "npm cache clean --force");
    assert_eq!(clean_description(&specs[5]), "apagar cache, src");
    assert!(cache_dir_command(&specs[4]).is_none());
    assert_eq!(cache_dir_command(&specs[1]).unwrap().args[5].rsplit("; ").next().unwrap(), "yarn cache dir");
    match clean_action(&specs[5], "C:\\Users\\u\\.cargo\\registry") {
        CleanAction::RemoveDirs { subs, targets } => {
            assert_eq!(subs, vec!["cache", "src"]);
            assert_eq!(targets, vec!["C:\\Users\\u\\.cargo\\registry\\cache", "C:\\Users\\u\\.cargo\\registry\\src"]);
        }
        _ => panic!(),
    }
    match clean_action(&specs[0], "C:\\npm") {
        CleanAction::Run(inv) => assert!(inv.args[5].ends_with("npm cache clean --force")),
        _ => panic!(),
    }
    assert_eq!(join_path("C:\\a\\", "src"), "C:\\a\\src");
    assert_eq!(join_path("C:/a/", "src"), "C:/a/src");
    assert_eq!(join_path("C:", "src"), "C:src");
    assert_eq!(join_path("", "src"), "src");
    assert_eq!(join_path("D:\\x", "cache"), "D:\\x\\cache");
    match clean_dev_cache_impl("pip") {
        Ok(s) => assert_eq!(s.name, "pip"),
        Err(_) => panic!(),
    }
    match clean_dev_cache_impl("maven") {
        Err(r) => assert_eq!(r.message, "Gerenciador desconhecido: maven"),
        Ok(_) => panic!(),
    }
}

#[test]
fn cache_cleaning_answers() {
    let specs = cache_specs();
    assert_eq!(cache_dir_from_output(&Ok(out(true, "  C:\\npm-cache \r\n", ""))).as_deref(), Some("C:\\npm-cache"));
    assert_eq!(cache_dir_from_output(&Ok(out(true, "   ", ""))), None);
    assert_eq!(cache_dir_from_output(&Ok(out(false, "C:\\x", ""))), None);
    let r = clean_one_dry(&specs[0], Some(3 * 1048576));
    assert_eq!(r.message, "npm: rodaria `npm cache clean --force`. Cache atual (aprox.): 3.0 MB.");
    assert_eq!(r.output, "");
    assert!(r.details.is_none());
    assert_eq!(clean_one_dry(&specs[5], None).message, "Cargo (Rust): rodaria `apagar cache, src`. Cache atual (aprox.): 0.0 B.");
    assert!(matches!(clean_one_plan(&specs[0], Some("C:\\x".to_string()), true), CleanPlan::Measure(Some(p)) if p == "C:\\x"));
    assert!(matches!(clean_one_plan(&specs[0], None, true), CleanPlan::Measure(None)));
    match clean_one_plan(&specs[1], None, false) {
        CleanPlan::Answer(r) => {
            assert!(r.ok && !r.dry_run);
            assert_eq!(r.message, "Yarn: nenhum cache encontrado.");
        }
        _ => panic!(),
    }
    match clean_one_plan(&specs[5], Some("C:\\reg".to_string()), false) {
        CleanPlan::Clean { path, action: CleanAction::RemoveDirs { targets, .. } } => {
            assert_eq!(path, "C:\\reg");
            assert_eq!(targets, vec!["C:\\reg\\cache", "C:\\reg\\src"]);
        }
        _ => panic!(),
    }
    assert_eq!(clean_one_missing(&specs[1]).message, "Yarn: nenhum cache encontrado.");
    let (ok, t) = command_outcome(Ok(out(true, "cleaned", "")));
    assert!(ok);
    assert_eq!(t, "cleaned");
    let (ok, t) = command_outcome(Err("spawn".to_string()));
    assert!(!ok);
    assert_eq!(t, "spawn");
    let subs = vec!["cache".to_string(), "src".to_string()];
    let targets = vec!["C:\\r\\cache".to_string(), "C:\\r\\src".to_string()];
    assert_eq!(remove_dirs_outcome(&subs, &targets, vec![None, None]), (true, "Removido: cache, src".to_string()));
    assert_eq!(
        remove_dirs_outcome(&subs, &targets, vec![Some("x".to_string()), None]),
        (false, "C:\\r\\cache: x".to_string())
    );
    assert_eq!(
        remove_dirs_outcome(&subs, &targets, vec![Some("x".to_string()), Some("y".to_string())]),
        (false, "C:\\r\\cache: x\nC:\\r\\src: y".to_string())
    );
    let r = clean_one_finish(&specs[5], 4096, 1024, true, "Removido: cache, src".to_string());
    assert_eq!(r.message, "Cargo (Rust): limpo. Espaço recuperado (aprox.): 3.0 KB.");
    assert_eq!(r.output, "Removido: cache, src");
    let r = clean_one_finish(&specs[3], 4096, 1024, false, "err".to_string());
    assert_eq!(r.message, "pip: falha ao limpar.");
}

#[test]
fn cache_listing_and_summary() {
    let found = vec![Some(("C:\\npm".to_string(), 10)), None, None, None, None, Some(("C:\\cargo".to_string(), 0))];
    let list = list_dev_caches_impl(found);
    assert_eq!(list.len(), 6);
    assert!(list[0].available);
    assert_eq!(list[0].size_bytes, Some(10));
    assert!(!list[1].available);
    assert_eq!(list[1].path, "");
    assert_eq!(list[1].size_bytes, None);
    assert_eq!(list[5].name, "Cargo (Rust)");
    let results = vec![
        Some(ActionResult::ok("a".to_string())),
        None,
        Some(ActionResult::fail("b".to_string(), String::new())),
        None,
        Some(ActionResult::ok("c".to_string())),
        None,
    ];
    let r = clean_all_dev_caches_impl(false, results);
    assert!(!r.ok);
    assert_eq!(r.message, "Caches limpos: 2. Falhas: 1.");
    assert_eq!(r.output, "a\nb\nc");
    let r = clean_all_dev_caches_impl(false, vec![None, Some(ActionResult::ok("a".to_string()))]);
    assert!(r.ok);
    assert_eq!(r.message, "Caches limpos: 1.");
    assert_eq!(r.output, "a");
    let r = clean_all_dev_caches_impl(true, vec![Some(ActionResult::dry("a".to_string())), Some(ActionResult::dry("b".to_string()))]);
    assert!(r.dry_run);
    assert_eq!(r.message, "Simularia limpeza de 2 cache(s) de gerenciadores.");
    let r = clean_all_dev_caches_impl(false, vec![None, None, None, None, None, None]);
    assert!(r.ok);
    assert_eq!(r.message, "Caches limpos: 0.");
    let r = clean_all_dev_caches_impl(false, vec![]);
    assert_eq!(r.message, "Caches limpos: 0.");
    assert_eq!(r.output, "");
}

#[test]
fn capability_probes() {
    assert_eq!(docker_probe().args, vec!["--version"]);
    assert_eq!(wsl_status_probe().args, vec!["--status"]);
    assert_eq!(wsl_list_probe().args, vec!["-l", "-q"]);
    assert_eq!(bitlocker_probe().program, "manage-bde");
    assert!(works(&Ok(out(true, "", ""))));
    assert!(!works(&Ok(out(false, "", ""))));
    assert!(!works(&Err("x".to_string())));
    let c = detect_capabilities_impl(true, false, true, false);
    assert!(c.docker && c.wsl && !c.bitlocker && c.cleanmgr);
}
