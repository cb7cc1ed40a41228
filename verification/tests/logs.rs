use lighty_launcher::instance::{compose_all_logs, extract_errors_from_log, last_log_lines, log_not_found_lines};

#[test]
fn test_extract_errors() {
    let log = r#"
[12:00:00] [main/INFO]: Starting Minecraft
[12:00:01] [main/ERROR]: Failed to load mod
at net.minecraft.Main.main(Main.java:123)
at java.base/java.lang.Thread.run(Thread.java:834)
[12:00:02] [main/INFO]: Game crashed
"#;

    let errors = extract_errors_from_log(log);
    assert_eq!(errors.len(), 3);
    assert!(errors[0].contains("ERROR"));
}

#[test]
fn stack_trace_outside_exception_is_ignored() {
    let log = "at a.b.C(C.java:1)\n[x] FATAL boom\n  at d.e.F(F.java:2)\n\n  at g.h.I(I.java:3)\nsee crash-reports/crash.txt\n";
    let errors = extract_errors_from_log(log);
    assert_eq!(
        errors,
        vec![
            "[x] FATAL boom".to_string(),
            "  at d.e.F(F.java:2)".to_string(),
            "see crash-reports/crash.txt".to_string(),
        ]
    );
}

#[test]
fn crlf_lines_are_split() {
    let errors = extract_errors_from_log("ERROR one\r\nok\r\nCaused by: x\r\n\r\nat y\r\n");
    assert_eq!(errors, vec!["ERROR one".to_string(), "Caused by: x".to_string()]);
}

#[test]
fn empty_log_has_no_errors() {
    assert!(extract_errors_from_log("").is_empty());
}

#[test]
fn last_lines_keeps_tail_in_order() {
    let content = "a\nb\nc\nd\n";
    assert_eq!(last_log_lines(content, 2), vec!["c".to_string(), "d".to_string()]);
    assert_eq!(last_log_lines(content, 10).len(), 4);
    assert!(last_log_lines(content, 0).is_empty());
}

#[test]
fn missing_log_message() {
    assert_eq!(
        log_not_found_lines("/g/logs/latest.log"),
        vec!["Log file not found: /g/logs/latest.log".to_string()]
    );
}

#[test]
fn all_logs_composition() {
    assert_eq!(compose_all_logs(None, None), "No log files found in logs/ directory");
    assert_eq!(compose_all_logs(Some("L"), None), "=== latest.log ===\nL\n\n");
    assert_eq!(compose_all_logs(Some("L"), Some("D")), "=== latest.log ===\nL\n\n=== debug.log ===\nD");
    assert_eq!(compose_all_logs(None, Some("")), "=== debug.log ===\n");
}
