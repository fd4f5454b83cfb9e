use win_butler::projects::{build_entry, delete_command, delete_node_modules_dry, delete_node_modules_impl, keep_newest, eq_ignore_ascii_case, git_last_commit_command, is_node_modules_path, last_commit_date, last_touched, lockfile_names, mtime_descends, path_file_name, scan_node_modules_impl, scan_root_valid, sort_by_size_desc, walk_step, DeleteOutcome, NodeModulesEntry, WalkStep};
use win_butler::time::Instant;
use win_butler::util::Output;

fn out(success: bool, stdout: &str, stderr: &str) -> Output {
    Output { success, stdout: stdout.to_string(), stderr: stderr.to_string(), code: Some(0) }
}

fn entry(path: &str, size: u64) -> NodeModulesEntry {
    NodeModulesEntry {
        project_path: path.to_string(),
        node_modules_path: format!("{path}\\node_modules"),
        size_bytes: size,
        last_touched: None,
        days_idle: None,
        has_package_json: true,
        has_lockfile: false,
        has_git: false,
        has_patches: false,
    }
}

#[test]
fn folder_names() {
    assert!(eq_ignore_ascii_case("Node_Modules", "node_modules"));
    assert!(!eq_ignore_ascii_case("node_module", "node_modules"));
    assert!(matches!(walk_step("NODE_MODULES"), WalkStep::Collect));
    assert!(matches!(walk_step(".git"), WalkStep::Skip));
    assert!(matches!(walk_step(".GIT"), WalkStep::Descend));
    assert!(matches!(walk_step("src"), WalkStep::Descend));
    assert!(!mtime_descends("node_modules"));
    assert!(!mtime_descends(".git"));
    assert!(mtime_descends("lib"));
    assert_eq!(lockfile_names(), vec!["package-lock.json", "yarn.lock", "pnpm-lock.yaml", "bun.lockb"]);
}

#[test]
fn file_names_of_paths() {
    assert_eq!(path_file_name("C:\\a\\node_modules").as_deref(), Some("node_modules"));
    assert_eq!(path_file_name("C:\\a\\node_modules\\").as_deref(), Some("node_modules"));
    assert_eq!(path_file_name("C:/a/b/./").as_deref(), Some("b"));
    assert_eq!(path_file_name("C:\\a\\..").as_deref(), None);
    assert_eq!(path_file_name("C:\\").as_deref(), None);
    assert_eq!(path_file_name("C:node_modules").as_deref(), Some("node_modules"));
    assert_eq!(path_file_name("").as_deref(), None);
    assert!(is_node_modules_path("D:\\proj\\Node_Modules"));
    assert!(!is_node_modules_path("D:\\proj\\node_modules.bak"));
    assert!(!is_node_modules_path("D:\\proj\\node_modules\\.."));
    assert!(!is_node_modules_path("D:\\proj"));
}

#[test]
fn only_node_modules_can_be_deleted() {
    let inv = delete_command("D:\\p\\node_modules").unwrap();
    assert_eq!(inv.program, "cmd");
    assert_eq!(inv.args, vec!["/c", "rmdir", "/s", "/q", "D:\\p\\node_modules"]);
    assert!(delete_command("D:\\p").is_none());
    assert!(delete_command("C:\\").is_none());
}

#[test]
fn project_facts() {
    let inv = git_last_commit_command("D:\\p");
    assert_eq!(inv.args, vec!["-C", "D:\\p", "log", "-1", "--format=%cI"]);
    assert_eq!(last_commit_date(&Ok(out(true, "2025-01-01T10:00:00+01:00\n", ""))).as_deref(), Some("2025-01-01T10:00:00+01:00"));
    assert_eq!(last_commit_date(&Ok(out(true, "\n", ""))), None);
    assert_eq!(last_commit_date(&Ok(out(false, "x", ""))), None);
    assert_eq!(last_touched(Some("d".to_string()), Some(Instant { secs: 0, nanos: 0 })).as_deref(), Some("d"));
    assert_eq!(last_touched(None, Some(Instant { secs: 86400, nanos: 0 })).as_deref(), Some("1970-01-02T00:00:00+00:00"));
    assert_eq!(last_touched(None, None), None);
    let now = Instant { secs: 86400 * 40, nanos: 0 };
    let e = build_entry("p".to_string(), "p\\node_modules".to_string(), 5, Some("1970-01-11T00:00:00Z".to_string()), now, true, true, false, true);
    assert_eq!(e.days_idle, Some(30));
    assert!(e.has_patches);
    let e = build_entry("p".to_string(), "q".to_string(), 5, None, now, false, false, false, false);
    assert_eq!(e.days_idle, None);
}

#[test]
fn scan_sorts_largest_first_stably() {
    let sorted = sort_by_size_desc(vec![entry("a", 5), entry("b", 9), entry("c", 5), entry("d", 1), entry("e", 9)]);
    let order: Vec<&str> = sorted.iter().map(|e| e.project_path.as_str()).collect();
    assert_eq!(order, vec!["b", "e", "a", "c", "d"]);
    let r = scan_node_modules_impl("D:\\code".to_string(), true, vec![entry("a", 1), entry("b", 2)]);
    assert!(r.error.is_none());
    assert_eq!(r.entries[0].project_path, "b");
    assert!(!scan_root_valid("   ", true));
    assert!(!scan_root_valid("D:\\none", false));
    let r = scan_node_modules_impl("  ".to_string(), true, vec![entry("a", 1)]);
    assert_eq!(r.error.as_deref(), Some("Pasta não encontrada. Confira o caminho."));
    assert!(r.entries.is_empty());
    assert_eq!(r.root, "  ");
}

#[test]
fn deletion_answers() {
    let r = delete_node_modules_impl(&vec![], vec![]);
    assert!(!r.ok && !r.dry_run);
    assert_eq!(r.message, "Nada selecionado.");
    assert_eq!(r.output, "");
    let r = delete_node_modules_dry(&vec![], 0);
    assert!(!r.ok && !r.dry_run);
    assert_eq!(r.message, "Nada selecionado.");
    let r = delete_node_modules_impl(&vec!["D:\\a\\src".to_string()], vec![DeleteOutcome::Missing]);
    assert!(!r.ok);
    assert_eq!(r.output, "D:\\a\\src: ignorado (não é node_modules).");
    let paths = vec!["D:\\a\\node_modules".to_string(), "D:\\b\\node_modules".to_string()];
    let r = delete_node_modules_dry(&paths, 3 * 1048576);
    assert!(r.dry_run);
    assert_eq!(r.message, "Apagaria 2 pasta(s) node_modules, liberando (aprox.): 3.0 MB.");
    assert_eq!(r.output, "D:\\a\\node_modules\nD:\\b\\node_modules");
    let r = delete_node_modules_impl(
        &paths,
        vec![
            DeleteOutcome::Ran { before: 1024, out: Ok(out(true, "", "")), still_exists: false },
            DeleteOutcome::Ran { before: 2048, out: Ok(out(true, "", "")), still_exists: false },
        ],
    );
    assert!(r.ok);
    assert_eq!(r.message, "2 pasta(s) apagada(s). Espaço recuperado (aprox.): 3.0 KB.");
    let paths = vec![
        "D:\\a\\src".to_string(),
        "D:\\b\\node_modules".to_string(),
        "D:\\c\\node_modules".to_string(),
        "D:\\d\\node_modules".to_string(),
        "D:\\e\\node_modules".to_string(),
    ];
    let r = delete_node_modules_impl(
        &paths,
        vec![
            DeleteOutcome::Ran { before: 999, out: Ok(out(true, "", "")), still_exists: false },
            DeleteOutcome::Missing,
            DeleteOutcome::Ran { before: 1024, out: Ok(out(true, "", "")), still_exists: true },
            DeleteOutcome::Ran { before: 1024, out: Err("denied".to_string()), still_exists: true },
            DeleteOutcome::Ran { before: 1024, out: Ok(out(true, "", "")), still_exists: false },
        ],
    );
    assert!(!r.ok);
    assert_eq!(r.message, "Apagadas: 1. Falhas: 3. Espaço recuperado (aprox.): 1.0 KB.");
    assert_eq!(
        r.output,
        "D:\\a\\src: ignorado (não é node_modules).\nD:\\c\\node_modules: falhou (talvez travado por um editor/servidor aberto). \nD:\\d\\node_modules: denied"
    );
}

#[test]
fn newest_modification_time_is_kept() {
    let a = Instant { secs: 100, nanos: 5 };
    let b = Instant { secs: 100, nanos: 6 };
    let c = Instant { secs: 99, nanos: 999_999_999 };
    assert!(keep_newest(None, a) == Some(a));
    assert!(keep_newest(Some(a), b) == Some(b));
    assert!(keep_newest(Some(b), a) == Some(b));
    assert!(keep_newest(Some(a), c) == Some(a));
    assert!(keep_newest(Some(a), a) == Some(a));
}

#[test]
fn windows_path_prefixes() {
    let f = |p: &str| path_file_name(p);
    assert_eq!(f(r"\\server\node_modules"), None);
    assert_eq!(f(r"\\server\share\node_modules").as_deref(), Some("node_modules"));
    assert_eq!(f(r"//server/share/node_modules").as_deref(), Some("node_modules"));
    assert_eq!(f(r"\\?\C:\x\node_modules").as_deref(), Some("node_modules"));
    assert_eq!(f(r"\\?\C:\x\node_modules\."), None);
    assert_eq!(f(r"C:\x\node_modules\.").as_deref(), Some("node_modules"));
    assert_eq!(f(r"\\?\C:\x/node_modules").as_deref(), Some("x/node_modules"));
    assert_eq!(f(r"\\.\C:\x\node_modules").as_deref(), Some("node_modules"));
    assert_eq!(f(r"\\?\UNC\srv\share\node_modules").as_deref(), Some("node_modules"));
    assert_eq!(f(r"\\?\UNC\srv\node_modules"), None);
    assert_eq!(f(r"\\?\node_modules"), None);
    assert_eq!(f(r"\\server").as_deref(), Some("server"));
    assert_eq!(f(r"C:"), None);
    assert_eq!(f(r"C:node_modules").as_deref(), Some("node_modules"));
    assert!(!is_node_modules_path(r"\\server\node_modules"));
    assert!(is_node_modules_path(r"\\server\share\Node_Modules"));
    assert!(delete_command(r"\\server\node_modules").is_none());
}
