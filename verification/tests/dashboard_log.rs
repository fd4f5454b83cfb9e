use win_butler::dashboard::{bitlocker, bitlocker_from_manage_bde, collect_disks, collect_gpus, earliest_next_run, gpu_names, last_cleanup, manage_bde_status, next_cleanup, nvidia_rows, nvidia_smi_query, parse_u64, BitlockerStep, GpuReading, BITLOCKER_SCRIPT};
use win_butler::disk::DiskSpace;
use win_butler::json::JsonValue;
use win_butler::log::{log_lines, read, split_lines, LogEntry};
use win_butler::schedule::ScheduledTask;
use win_butler::time::{days_since, is_before, parse_rfc3339, to_iso, Instant};
use win_butler::util::Output;

fn out(success: bool, stdout: &str, stderr: &str) -> Output {
    Output { success, stdout: stdout.to_string(), stderr: stderr.to_string(), code: Some(0) }
}

fn entry(ts: &str, action: &str, ok: bool) -> LogEntry {
    LogEntry { timestamp: ts.to_string(), action: action.to_string(), ok, message: String::new(), source: "user".to_string() }
}

fn task(name: &str, next: Option<&str>) -> ScheduledTask {
    ScheduledTask { name: name.to_string(), state: "Ready".to_string(), last_run: None, next_run: next.map(|s| s.to_string()), last_result: None }
}

#[test]
fn lines_like_std() {
    for t in ["", "a", "a\n", "a\r\nb", "a\n\nb\r", "\n", "x\r\n\r\n", "a\rb\n"] {
        let expected: Vec<String> = t.lines().map(|l| l.to_string()).collect();
        assert_eq!(split_lines(t), expected, "text {t:?}");
    }
}

#[test]
fn log_keeps_filled_lines_and_newest_entries() {
    assert_eq!(log_lines("{\"a\":1}\n  \n\r\n{\"b\":2}\r\n"), vec!["{\"a\":1}", "{\"b\":2}"]);
    let entries = vec![entry("1", "a", true), entry("2", "b", true), entry("3", "c", false)];
    let kept = read(entries, 2);
    assert_eq!(kept.len(), 2);
    assert_eq!(kept[0].timestamp, "2");
    assert_eq!(kept[1].timestamp, "3");
    let all = read(vec![entry("1", "a", true)], 500);
    assert_eq!(all.len(), 1);
    assert!(read(vec![entry("1", "a", true)], 0).is_empty());
}

#[test]
fn last_cleanup_is_the_latest_successful_one() {
    let entries = vec![
        entry("t1", "disk_cleanup", true),
        entry("t2", "docker_prune", true),
        entry("t3", "docker_compact", false),
        entry("t4", "clean_dev_caches", true),
        entry("t5", "remove_env_var", true),
    ];
    assert_eq!(last_cleanup(&entries).as_deref(), Some("t2"));
    assert_eq!(last_cleanup(&vec![entry("t", "set_startup", true)]), None);
}

#[test]
fn rfc3339_instants() {
    let a = parse_rfc3339("2025-01-01T03:00:00-03:00").unwrap();
    let b = parse_rfc3339("2025-01-01T05:00:00Z").unwrap();
    assert_eq!(a.secs, b.secs + 3600);
    assert!(is_before(b, a));
    assert!(parse_rfc3339("yesterday").is_none());
    let t = parse_rfc3339("2024-02-29T12:00:00.5+00:00").unwrap();
    assert_eq!(t.nanos, 500_000_000);
    assert_eq!(to_iso(Instant { secs: 0, nanos: 0 }).as_deref(), Some("1970-01-01T00:00:00+00:00"));
}

#[test]
fn days_are_truncated_toward_zero() {
    let now = parse_rfc3339("2025-03-11T00:00:00Z").unwrap();
    assert_eq!(days_since("2025-03-01T00:00:00Z", now), Some(10));
    assert_eq!(days_since("2025-03-08T00:00:01Z", now), Some(2));
    assert_eq!(days_since("2025-03-14T00:00:00Z", now), Some(-3));
    assert_eq!(days_since("2025-03-13T23:59:59+00:00", now), Some(-2));
    assert_eq!(days_since("2025-03-10T21:00:00-03:00", now), Some(0));
    assert_eq!(days_since("garbage", now), None);
    for (a, b) in [("1970-01-01T00:00:00Z", "1970-01-12T13:46:40.000000005Z"), ("2023-11-14T22:13:20.999999999Z", "2020-09-13T12:26:40.000000001Z")] {
        let x = chrono::DateTime::parse_from_rfc3339(a).unwrap();
        let y = chrono::DateTime::parse_from_rfc3339(b).unwrap();
        assert_eq!(days_since(a, parse_rfc3339(b).unwrap()), Some((y - x).num_days()));
    }
}

#[test]
fn next_cleanup_is_the_earliest() {
    let tasks = vec![
        task("a", Some("2025-01-02T00:00:00Z")),
        task("b", None),
        task("c", Some("not a date")),
        task("d", Some("2025-01-01T22:00:00-03:00")),
        task("e", Some("2025-01-02T01:00:00+01:00")),
    ];
    // d is 2025-01-02T01:00Z, a is 2025-01-02T00:00Z, e is 2025-01-02T00:00Z (ties keep a).
    assert_eq!(next_cleanup(&tasks).as_deref(), Some("2025-01-02T00:00:00Z"));
    assert_eq!(next_cleanup(&vec![task("b", None)]), None);
    let inst = vec![Some(Instant { secs: 5, nanos: 0 }), Some(Instant { secs: 3, nanos: 0 })];
    let two = vec![task("x", Some("five")), task("y", Some("three"))];
    assert_eq!(earliest_next_run(&two, &inst).as_deref(), Some("three"));
}

#[test]
fn disks_for_the_dashboard() {
    let raw = vec![
        DiskSpace { mount: "C:\\".to_string(), total: 100, available: 30 },
        DiskSpace { mount: "Z:\\".to_string(), total: 0, available: 0 },
        DiskSpace { mount: "C:\\".to_string(), total: 100, available: 30 },
        DiskSpace { mount: "D:\\\\".to_string(), total: 10, available: 20 },
    ];
    let disks = collect_disks(&raw);
    assert_eq!(disks.len(), 2);
    assert_eq!(disks[0].mount, "C:");
    assert_eq!(disks[0].used_bytes, 70);
    assert_eq!(disks[1].mount, "D:");
    assert_eq!(disks[1].used_bytes, 0);
}

#[test]
fn bitlocker_status() {
    assert!(BITLOCKER_SCRIPT.contains("ProtectionStatus"));
    match bitlocker(Ok(out(true, "On\r\n", ""))) {
        BitlockerStep::Known { status, raw } => {
            assert_eq!(status.as_deref(), Some("On"));
            assert_eq!(raw.as_deref(), Some("On"));
        }
        _ => panic!(),
    }
    assert!(matches!(bitlocker(Ok(out(true, "  ", ""))), BitlockerStep::AskManageBde));
    assert!(matches!(bitlocker(Err("x".to_string())), BitlockerStep::AskManageBde));
    assert_eq!(manage_bde_status().args, vec!["-status", "C:"]);
    let text = "Volume C: [OS]\n    Conversion Status:    Fully Encrypted\n    Protection Status:    Protection On\n";
    let (status, raw) = bitlocker_from_manage_bde(Ok(out(true, text, "")));
    assert_eq!(status.as_deref(), Some("Protection On"));
    assert_eq!(raw.as_deref(), Some(text));
    let pt = "Volume C:\r\n    Status da Prote\u{87}\u{c6}o: Prote\u{87}\u{c6}o Desativada\r\n";
    let (status, _) = bitlocker_from_manage_bde(Ok(out(true, pt, "")));
    assert_eq!(status.as_deref(), Some("Prote\u{87}\u{c6}o Desativada"));
    let (status, raw) = bitlocker_from_manage_bde(Ok(out(true, "nothing here", "")));
    assert_eq!(status, None);
    assert_eq!(raw.as_deref(), Some("nothing here"));
    assert_eq!(bitlocker_from_manage_bde(Ok(out(false, "x", ""))), (None, None));
}

#[test]
fn numbers_like_std_parse() {
    for t in ["0", "42", "+7", "", "+", "-1", "1 ", "18446744073709551615", "18446744073709551616", "99999999999999999999", "00012"] {
        assert_eq!(parse_u64(t), t.parse::<u64>().ok(), "text {t:?}");
    }
}

#[test]
fn graphics_cards() {
    let json = JsonValue::Array(vec![
        JsonValue::Object(vec![("name".to_string(), JsonValue::Str("NVIDIA GeForce RTX 3060".to_string()))]),
        JsonValue::Object(vec![("name".to_string(), JsonValue::Str(String::new()))]),
        JsonValue::Object(vec![("name".to_string(), JsonValue::Str("Intel(R) UHD Graphics".to_string()))]),
    ]);
    let names = gpu_names(json);
    assert_eq!(names, vec!["NVIDIA GeForce RTX 3060", "Intel(R) UHD Graphics"]);
    assert_eq!(nvidia_smi_query().args[1], "--format=csv,noheader,nounits");
    let rows = nvidia_rows("NVIDIA GeForce RTX 3060, 54, 12288\nbad line\nTesla T4, [N/A], x\n");
    assert_eq!(rows.len(), 2);
    assert_eq!(rows[0].name, "NVIDIA GeForce RTX 3060");
    assert_eq!(rows[0].temp_text, "54");
    assert_eq!(rows[0].mem_mb, Some(12288));
    assert_eq!(rows[1].mem_mb, None);
    let readings: Vec<GpuReading<f32>> = rows
        .into_iter()
        .map(|r| GpuReading { temp_c: r.temp_text.parse::<f32>().ok(), name: r.name, mem_mb: r.mem_mb })
        .collect();
    let gpus = collect_gpus(names, readings);
    assert_eq!(gpus.len(), 3);
    assert_eq!(gpus[0].temp_c, Some(54.0));
    assert_eq!(gpus[0].memory_bytes, Some(12288 * 1024 * 1024));
    assert_eq!(gpus[1].temp_c, None);
    assert_eq!(gpus[2].name, "Tesla T4");
    assert_eq!(gpus[2].temp_c, None);
    let wrapped = collect_gpus::<f32>(vec![], vec![GpuReading { name: "X".to_string(), temp_c: None, mem_mb: Some(u64::MAX) }]);
    assert_eq!(wrapped[0].memory_bytes, Some(u64::MAX.wrapping_mul(1048576)));
}
