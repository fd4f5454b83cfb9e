use win_butler::json::{as_array, s, JsonValue};
use win_butler::size::{human, mb};
use win_butler::text::{decimal_string, escape_single_quotes, join_strings, signed_decimal_string, split_char, str_contains, to_lower, to_upper, trim_end_string, trim_string};
use win_butler::util::{answer, powershell, powershell_json, ActionResult, Output};

fn out(success: bool, stdout: &str, stderr: &str) -> Output {
    Output { success, stdout: stdout.to_string(), stderr: stderr.to_string(), code: Some(if success { 0 } else { 1 }) }
}

#[test]
fn human_formats_binary_units() {
    assert_eq!(human(0), "0.0 B");
    assert_eq!(human(512), "512.0 B");
    assert_eq!(human(1536), "1.5 KB");
    assert_eq!(human(-2048), "-2.0 KB");
    assert_eq!(human(1048576 * 3 / 2), "1.5 MB");
    assert_eq!(human(5 * 1099511627776), "5.0 TB");
    assert_eq!(human(1048575), "1024.0 KB");
}

#[test]
fn human_rounds_ties_to_even_like_float_formatting() {
    // 1280 bytes is exactly 1.25 KB; 1792 bytes is exactly 1.75 KB.
    assert_eq!(human(1280), format!("{:.1} KB", 1280f64 / 1024.0));
    assert_eq!(human(1792), format!("{:.1} KB", 1792f64 / 1024.0));
    assert_eq!(human(1280), "1.2 KB");
    assert_eq!(human(1792), "1.8 KB");
}

#[test]
fn human_matches_float_rendering_on_many_values() {
    let units = ["B", "KB", "MB", "GB", "TB"];
    let mut x: i64 = 1;
    while x < (1i64 << 52) {
        for v in [x, x + 1, x * 3 / 2, x * 7 / 5, -x] {
            let neg = v < 0;
            let mut f = v.unsigned_abs() as f64;
            let mut i = 0;
            while f >= 1024.0 && i < units.len() - 1 {
                f /= 1024.0;
                i += 1;
            }
            let expected = format!("{}{:.1} {}", if neg { "-" } else { "" }, f, units[i]);
            assert_eq!(human(v), expected, "value {v}");
        }
        x = x * 3 + 1;
    }
}

#[test]
fn human_extremes() {
    assert_eq!(human(i64::MIN), "-8388608.0 TB");
    assert_eq!(human(i64::MAX), "8388608.0 TB");
}

#[test]
fn mb_shows_gigabytes() {
    assert_eq!(mb(0), "0.0 GB");
    assert_eq!(mb(1610612736), "1.5 GB");
    assert_eq!(mb(1073741824 * 10), "10.0 GB");
    assert_eq!(mb(123456789012), format!("{:.1} GB", 123456789012f64 / 1024.0 / 1024.0 / 1024.0));
}

#[test]
fn decimal_numerals() {
    assert_eq!(decimal_string(0), "0");
    assert_eq!(decimal_string(1234567890), "1234567890");
    assert_eq!(decimal_string(u64::MAX), u64::MAX.to_string());
    assert_eq!(signed_decimal_string(-42), "-42");
    assert_eq!(signed_decimal_string(i64::MIN), i64::MIN.to_string());
}

#[test]
fn trims_like_std() {
    for t in ["", "  ", " a b ", "\t\nx\r\n", "\u{3000}y\u{a0}", "z"] {
        assert_eq!(trim_string(t), t.trim());
        assert_eq!(trim_end_string(t), t.trim_end());
    }
}

#[test]
fn contains_and_case() {
    assert!(str_contains("hello world", "o w"));
    assert!(str_contains("abc", ""));
    assert!(!str_contains("abc", "abcd"));
    assert_eq!(to_upper("ma\u{df}e"), "MASSE");
    assert_eq!(to_lower("ÄBC"), "äbc");
}

#[test]
fn escape_and_join_and_split() {
    assert_eq!(escape_single_quotes("it's"), "it''s");
    assert_eq!(escape_single_quotes("''"), "''''");
    assert_eq!(join_strings(&vec!["a".to_string(), "b".to_string(), "c".to_string()], ", "), "a, b, c");
    assert_eq!(join_strings(&vec![], "\n"), "");
    assert_eq!(split_char("a,,b", ','), vec!["a", "", "b"]);
    assert_eq!(split_char("", ','), vec![""]);
}

#[test]
fn combined_output() {
    assert_eq!(out(true, "a\n", "  ").combined(), "a");
    assert_eq!(out(true, "", "err\n").combined(), "err");
    assert_eq!(out(true, "out  \n", "  err  \n").combined(), "out\n  err");
    assert_eq!(out(true, "", "").combined(), "");
}

#[test]
fn action_result_builders() {
    let r = ActionResult::ok("feito".to_string());
    assert!(r.ok && !r.dry_run && r.output.is_empty() && r.details.is_none());
    let r = ActionResult::dry("simulado".to_string()).with_output("x".to_string());
    assert!(r.ok && r.dry_run);
    assert_eq!(r.output, "x");
    let r = ActionResult::fail("falhou".to_string(), "saida".to_string()).with_details(JsonValue::Null);
    assert!(!r.ok && !r.dry_run);
    assert_eq!(r.message, "falhou");
    assert!(matches!(r.details, Some(JsonValue::Null)));
}

#[test]
fn answer_from_program_outcome() {
    let r = answer(Ok(out(true, "x", "")), "ok!".to_string(), "ruim", "erro");
    assert!(r.ok);
    assert_eq!(r.message, "ok!");
    assert_eq!(r.output, "");
    let r = answer(Ok(out(false, "x\n", "y")), "ok!".to_string(), "ruim", "erro");
    assert!(!r.ok);
    assert_eq!(r.message, "ruim");
    assert_eq!(r.output, "x\ny");
    let r = answer(Err("not found".to_string()), "ok!".to_string(), "ruim", "erro");
    assert_eq!(r.message, "erro");
    assert_eq!(r.output, "not found");
}

#[test]
fn powershell_invocation() {
    let inv = powershell("Get-Date");
    assert_eq!(inv.program, "powershell");
    assert_eq!(
        inv.args,
        vec![
            "-NoProfile",
            "-NonInteractive",
            "-ExecutionPolicy",
            "Bypass",
            "-Command",
            "[Console]::OutputEncoding = [System.Text.Encoding]::UTF8; $ProgressPreference='SilentlyContinue'; Get-Date",
        ]
    );
}

#[test]
fn powershell_json_cases() {
    assert!(matches!(powershell_json(Ok(out(true, "  \n", ""))), JsonValue::Array(a) if a.is_empty()));
    assert!(matches!(powershell_json(Ok(out(true, "3", ""))), JsonValue::Array(a) if matches!(a[..], [JsonValue::Int(3)])));
    assert!(matches!(powershell_json(Ok(out(true, "{oops", ""))), JsonValue::Null));
    assert!(matches!(powershell_json(Ok(out(false, "3", ""))), JsonValue::Null));
    assert!(matches!(powershell_json(Err("x".to_string())), JsonValue::Null));
    assert!(matches!(powershell_json(Ok(out(true, " null ", ""))), JsonValue::Array(a) if a.is_empty()));
    match powershell_json(Ok(out(true, "\r\n{\"name\":\"x\",\"n\":1.5}\r\n", ""))) {
        JsonValue::Array(a) => {
            assert_eq!(a.len(), 1);
            match &a[0] {
                JsonValue::Object(m) => {
                    assert_eq!(m.len(), 2);
                    assert_eq!(m[0].0, "n");
                    assert!(matches!(&m[0].1, JsonValue::Decimal(d) if d == "1.5"));
                    assert_eq!(m[1].0, "name");
                    assert!(matches!(&m[1].1, JsonValue::Str(s) if s == "x"));
                }
                _ => panic!(),
            }
        }
        _ => panic!(),
    }
    match powershell_json(Ok(out(true, "[{\"a\":true},{\"a\":-7}]", ""))) {
        JsonValue::Array(a) => {
            assert_eq!(a.len(), 2);
            assert!(matches!(&a[1], JsonValue::Object(m) if matches!(m[0].1, JsonValue::Int(-7))));
        }
        _ => panic!(),
    }
}

#[test]
fn as_array_normalises_single_objects() {
    let obj = JsonValue::Object(vec![("name".to_string(), JsonValue::Str("a".to_string()))]);
    let items = as_array(JsonValue::Array(vec![JsonValue::Int(1), JsonValue::Int(2)]));
    assert_eq!(items.len(), 2);
    assert_eq!(as_array(JsonValue::Null).len(), 0);
    let single = as_array(obj);
    assert_eq!(single.len(), 1);
    assert_eq!(s(&single[0], "name"), "a");
    assert_eq!(s(&single[0], "other"), "");
    assert_eq!(s(&JsonValue::Int(1), "name"), "");
    let not_text = JsonValue::Object(vec![("name".to_string(), JsonValue::Bool(true))]);
    assert_eq!(s(&not_text, "name"), "");
}
