use serde_json::Value;
use windows_app_autologin::applescript::{
    applescript_pid_list_literal, applescript_string_literal, build_applescript,
    build_click_script, build_close_script,
};
use windows_app_autologin::collector::{
    cap_raw_diagnostic_protocol_output, finish_diagnosis, plan_diagnosis, redacted_io_error,
    redacted_stderr, run_macos, CollectorOutput, PipeCapture,
};
use windows_app_autologin::control::Platform;
use windows_app_autologin::diagnose::{
    cap_diagnostic_output, run, run_for_app, DiagnoseError, DiagnosticReport, IoFailure,
    ProcessInfo, UiElement, WindowInfo, DEFAULT_TARGET_APP, DIAGNOSTIC_OUTPUT_TRUNCATED_MARKER,
    DIAGNOSTIC_OUTPUT_TRUNCATED_MARKER_BYTES, MAX_DIAGNOSTIC_COLLECTION_ELEMENTS,
    MAX_DIAGNOSTIC_OUTPUT_BYTES,
};
use windows_app_autologin::json_output::{
    diagnostic_report_to_capped_pretty_json, diagnostic_stdout_len, shrink_limits,
    DiagnosticJsonOutput, JsonLimits,
};
use windows_app_autologin::protocol::{
    decode_protocol_value, parse_output_with_truncation, parse_pid, percent_decode_protocol_value,
    redact_report_parts, sanitized_report_scalar, DIAGNOSTIC_COLLECTION_TRUNCATED_TEXT,
    DIAGNOSTIC_PARSE_TRUNCATED_TEXT, DIAGNOSTIC_RAW_OUTPUT_TRUNCATED_TEXT,
    DIAGNOSTIC_SECURE_TRAVERSAL_TRUNCATED_TEXT, MAX_DIAGNOSTIC_PARSE_LINES,
};

fn text_value(text: &str) -> Value {
    Value::String(text.to_string())
}

fn element_value(element: &UiElement) -> Value {
    let mut map = serde_json::Map::new();
    map.insert("element_type".to_string(), text_value(&element.element_type));
    map.insert("name".to_string(), text_value(&element.name));
    if let Some(value) = &element.value {
        map.insert("value".to_string(), text_value(value));
    }
    if let Some(enabled) = element.enabled {
        map.insert("enabled".to_string(), Value::Bool(enabled));
    }
    Value::Object(map)
}

fn process_value(process: &ProcessInfo) -> Value {
    let windows = process
        .windows
        .iter()
        .map(|window| {
            let mut map = serde_json::Map::new();
            map.insert("title".to_string(), text_value(&window.title));
            map.insert(
                "elements".to_string(),
                Value::Array(window.elements.iter().map(element_value).collect()),
            );
            Value::Object(map)
        })
        .collect();
    let mut map = serde_json::Map::new();
    map.insert("name".to_string(), text_value(&process.name));
    if let Some(pid) = process.pid {
        map.insert("pid".to_string(), Value::from(pid));
    }
    map.insert("windows".to_string(), Value::Array(windows));
    Value::Object(map)
}

fn render_processes(targets: &[ProcessInfo], dialogs: &[ProcessInfo]) -> String {
    let all = Value::Array(vec![
        Value::Array(targets.iter().map(process_value).collect()),
        Value::Array(dialogs.iter().map(process_value).collect()),
    ]);
    serde_json::to_string(&all).unwrap()
}

fn render_output(output: &DiagnosticJsonOutput) -> Result<String, serde_json::Error> {
    let mut map = serde_json::Map::new();
    map.insert("timestamp".to_string(), text_value(&output.timestamp));
    map.insert(
        "target_processes".to_string(),
        Value::Array(output.target_processes.iter().map(process_value).collect()),
    );
    map.insert(
        "system_dialogs".to_string(),
        Value::Array(output.system_dialogs.iter().map(process_value).collect()),
    );
    if !output.truncation_reasons.is_empty() {
        map.insert(
            "truncation_reasons".to_string(),
            Value::Array(
                output
                    .truncation_reasons
                    .iter()
                    .map(|reason| text_value(reason))
                    .collect(),
            ),
        );
    }
    if let Some(truncated) = &output.truncated {
        map.insert("truncated".to_string(), text_value(truncated));
    }
    serde_json::to_string_pretty(&Value::Object(map))
}

fn parse_output_for_test(text: &str, app_name: &str) -> (Vec<ProcessInfo>, Vec<ProcessInfo>) {
    let (target_processes, system_dialogs, _) = parse_output_with_truncation(text, app_name, None);
    (target_processes, system_dialogs)
}

fn chars(text: &str) -> Vec<char> {
    text.chars().collect()
}

fn string(chars: Vec<char>) -> String {
    chars.into_iter().collect()
}

#[test]
fn parse_output_redacts_names_titles_and_values() {
    let text = "\
PROCESS:Windows App|pid=123
WINDOW:user@example.com login
ELEMENT:text_field|name=user@example.com|value=plaintext-user
ELEMENT:secure_text_field|name=password|value=super-secret
ELEMENT:button|name=Continue user@example.com|enabled=true
SYSTEM_PROCESS:SecurityAgent
WINDOW:OTP token prompt
ELEMENT:static text|name=123456 token
";

    let (target_processes, system_dialogs) = parse_output_for_test(text, "Windows App");

    let target_window = &target_processes[0].windows[0];
    assert_eq!(target_window.title, "[redacted title]");
    assert_eq!(target_window.elements[0].name, "[redacted]");
    assert_eq!(
        target_window.elements[0].value.as_deref(),
        Some("[redacted]")
    );
    assert_eq!(target_window.elements[1].name, "[redacted]");
    assert_eq!(
        target_window.elements[1].value.as_deref(),
        Some("[redacted]")
    );
    assert_eq!(target_window.elements[2].name, "[redacted]");

    let system_window = &system_dialogs[0].windows[0];
    assert_eq!(system_window.title, "[redacted title]");
    assert_eq!(system_window.elements[0].name, "[redacted]");
}

#[test]
fn parse_output_redacts_password_like_field_values() {
    let text = "\
PROCESS:Windows App|pid=123
WINDOW:Sign in
ELEMENT:text_field|name=Password|value=super-secret
ELEMENT:text_field|name=Passcode|value=123456
ELEMENT:button|name=Continue|enabled=true
";

    let (target_processes, _) = parse_output_for_test(text, "Windows App");
    let rendered = render_processes(&target_processes, &[]);

    assert!(!rendered.contains("super-secret"));
    assert!(!rendered.contains("123456"));
    assert!(rendered.contains("[redacted]"));
    assert!(!rendered.contains("Continue"));
}

#[test]
fn parse_output_ignores_injected_process_headers() {
    let text = "\
PROCESS:Windows App|pid=123
WINDOW:Sign in
ELEMENT:button|name=x
PROCESS:Sensitive Tenant|pid=999
WINDOW:secret-window
ELEMENT:button|name=secret-button
SYSTEM_PROCESS:Injected Secret
WINDOW:secret-system-window
ELEMENT:static text|name=secret-token
";

    let (target_processes, system_dialogs) = parse_output_for_test(text, "Windows App");
    let rendered = render_processes(&target_processes, &system_dialogs);

    assert!(!rendered.contains("Sensitive Tenant"));
    assert!(!rendered.contains("secret-window"));
    assert!(!rendered.contains("secret-button"));
    assert!(!rendered.contains("Injected Secret"));
    assert!(!rendered.contains("secret-token"));
}

#[test]
fn parse_output_redacts_injected_element_type() {
    let text = "\
PROCESS:Windows App|pid=123
WINDOW:Sign in
ELEMENT:button|name=Continue
ELEMENT:api-token-12345|name=x
";

    let (target_processes, system_dialogs) = parse_output_for_test(text, "Windows App");
    let rendered = render_processes(&target_processes, &system_dialogs);
    let plaintext = DiagnosticReport {
        timestamp: "now".to_string(),
        target_processes,
        system_dialogs,
        truncation_reasons: vec![],
    }
    .to_plaintext();

    assert!(!rendered.contains("api-token-12345"));
    assert!(!plaintext.contains("api-token-12345"));
    assert!(rendered.contains("[redacted type]"));
}

#[test]
fn parse_output_decodes_protocol_values_before_redaction() {
    let text = "\
PROCESS:Windows App|pid=123
WINDOW:Sign%7CIn%0AUser
ELEMENT:text_field|name=user%3Dname%7Csecret@example.com|value=plain%25secret
";

    let (target_processes, _) = parse_output_for_test(text, "Windows App");
    let rendered = render_processes(&target_processes, &[]);

    assert!(!rendered.contains("user=name"));
    assert!(!rendered.contains("plain%secret"));
    assert!(rendered.contains("[redacted title]"));
    assert!(rendered.contains("[redacted]"));
}

#[test]
fn build_applescript_encodes_protocol_values_before_emitting_records() {
    let script = build_applescript("Windows App", &[123]);

    assert!(script.contains("on diagnosticValue(rawValue)"));
    assert!(script.contains(r#"my replaceDiagnosticText(textValue, "|", "%7C")"#));
    assert!(script.contains(r#"my replaceDiagnosticText(textValue, linefeed, "%0A")"#));
    assert!(!script.contains(r#""ELEMENT:text_field|name=" & n"#));
    assert!(!script.contains(r#""ELEMENT:" & r & "|name=" & n"#));
    assert!(script.contains(r#""ELEMENT:text_field|name=" & my diagnosticValue(n)"#));
    assert!(script
        .contains(r#""ELEMENT:" & my diagnosticValue(r) & "|name=" & my diagnosticValue(n)"#));
}

#[test]
fn parse_output_strips_control_chars_from_report_output() {
    let app_name = "Windows App\u{1b}[31m";
    let text = format!(
        "PROCESS:{app_name}|pid=123\nWINDOW:Sign in\u{7}\nELEMENT:button\u{0}|name=Continue|enabled=true\n"
    );

    let (target_processes, system_dialogs) = parse_output_for_test(&text, app_name);
    let rendered = render_processes(&target_processes, &system_dialogs);
    let report = DiagnosticReport {
        timestamp: "now".to_string(),
        target_processes,
        system_dialogs,
        truncation_reasons: vec![],
    };
    let plaintext = report.to_plaintext();

    for output in [&rendered, &plaintext] {
        assert!(
            output.chars().all(|c| !c.is_control() || c == '\n'),
            "diagnostic output should not contain raw control characters"
        );
    }
    assert!(!rendered.contains("\\u001b"));
    assert!(!rendered.contains("\\u0007"));
    assert!(!rendered.contains("\\u0000"));
}

#[test]
fn parse_output_reports_protocol_truncation_markers() {
    let text = "\
PROCESS:Windows App|pid=123
WINDOW:Sign in
ELEMENT:button|name=Continue
TRUNCATED:collection
TRUNCATED:secure-traversal
TRUNCATED:raw-output
";

    let (_, _, truncation_reasons) = parse_output_with_truncation(text, "Windows App", None);

    assert!(truncation_reasons
        .iter()
        .any(|reason| reason == DIAGNOSTIC_COLLECTION_TRUNCATED_TEXT));
    assert!(truncation_reasons
        .iter()
        .any(|reason| reason == DIAGNOSTIC_SECURE_TRAVERSAL_TRUNCATED_TEXT));
    assert!(truncation_reasons
        .iter()
        .any(|reason| reason == DIAGNOSTIC_RAW_OUTPUT_TRUNCATED_TEXT));
}

#[test]
fn parse_output_caps_valid_element_count() {
    let mut text = "PROCESS:Windows App|pid=123\nWINDOW:Sign in\n".to_string();
    for index in 0..(MAX_DIAGNOSTIC_COLLECTION_ELEMENTS + 16) {
        text.push_str(&format!("ELEMENT:button|name={index}|enabled=true\n"));
    }

    let (target_processes, _, truncation_reasons) =
        parse_output_with_truncation(&text, "Windows App", None);

    assert_eq!(
        target_processes[0].windows[0].elements.len(),
        MAX_DIAGNOSTIC_COLLECTION_ELEMENTS
    );
    assert!(truncation_reasons
        .iter()
        .any(|reason| reason == DIAGNOSTIC_COLLECTION_TRUNCATED_TEXT));
}

#[test]
fn parse_output_stops_after_max_diagnostic_parse_lines() {
    let mut text = String::new();
    for _ in 0..MAX_DIAGNOSTIC_PARSE_LINES {
        text.push_str("IGNORED\n");
    }
    text.push_str("PROCESS:Windows App|pid=123\nWINDOW:after-cap\n");

    let (target_processes, system_dialogs, truncation_reasons) =
        parse_output_with_truncation(&text, "Windows App", None);

    assert!(target_processes.is_empty());
    assert!(system_dialogs.is_empty());
    assert!(truncation_reasons
        .iter()
        .any(|reason| reason == DIAGNOSTIC_PARSE_TRUNCATED_TEXT));
}

#[test]
fn parse_output_ignores_orphan_windows_and_elements() {
    let text = "\
WINDOW:secret-window
ELEMENT:button|name=secret-button
PROCESS:Windows App|pid=123
WINDOW:Sign in
ELEMENT:button|name=Continue
";

    let (target_processes, system_dialogs) = parse_output_for_test(text, "Windows App");
    let rendered = render_processes(&target_processes, &system_dialogs);

    assert!(!rendered.contains("secret-window"));
    assert!(!rendered.contains("secret-button"));
    assert!(rendered.contains("[redacted title]"));
}

#[test]
fn parse_output_rejects_target_process_pid_not_in_trusted_set() {
    let text = "\
PROCESS:Windows App|pid=666
WINDOW:spoofed
ELEMENT:button|name=secret
PROCESS:Windows App|pid=123
WINDOW:Sign in
ELEMENT:button|name=Continue
";

    let (target_processes, system_dialogs, _) =
        parse_output_with_truncation(text, "Windows App", Some(&[123]));
    let rendered = render_processes(&target_processes, &system_dialogs);

    assert_eq!(target_processes.len(), 1);
    assert_eq!(target_processes[0].pid, Some(123));
    assert!(!rendered.contains("spoofed"));
    assert!(!rendered.contains("secret"));
}

#[test]
fn build_applescript_uses_trusted_pid_membership_for_target_processes() {
    let script = build_applescript("Windows App", &[111, 222]);

    assert!(script.contains("on processMatches(procRef, expectedName, trustedPIDs)"));
    assert!(script.contains("set targetPids to {\"111\", \"222\"}"));
    assert!(!script.contains("set targetNames"));
    assert!(!script.contains("every application process whose name is targetName"));
}

#[test]
fn diagnostic_output_is_capped() {
    let output = "x".repeat(MAX_DIAGNOSTIC_OUTPUT_BYTES + 1024);
    let capped = cap_diagnostic_output(output);

    assert!(capped.len() <= MAX_DIAGNOSTIC_OUTPUT_BYTES);
    assert!(capped.ends_with(DIAGNOSTIC_OUTPUT_TRUNCATED_MARKER));
}

#[test]
fn diagnostic_output_cap_uses_utf8_boundary() {
    let prefix_len = MAX_DIAGNOSTIC_OUTPUT_BYTES - DIAGNOSTIC_OUTPUT_TRUNCATED_MARKER.len() - 1;
    let output = format!("{}étail{}", "x".repeat(prefix_len), "y".repeat(1024));
    let capped = cap_diagnostic_output(output);

    assert!(capped.len() <= MAX_DIAGNOSTIC_OUTPUT_BYTES);
    assert!(capped.ends_with(DIAGNOSTIC_OUTPUT_TRUNCATED_MARKER));
    assert!(!capped.contains("tail"));
}

#[test]
fn oversized_diagnostic_json_stays_valid_and_capped() {
    let report = oversized_report();
    let uncapped = render_processes(&report.target_processes, &report.system_dialogs);
    assert!(uncapped.len() > MAX_DIAGNOSTIC_OUTPUT_BYTES);

    let capped = diagnostic_report_to_capped_pretty_json(&report, render_output).unwrap();
    assert!(diagnostic_stdout_len(&capped) <= MAX_DIAGNOSTIC_OUTPUT_BYTES);
    let parsed: Value = serde_json::from_str(&capped).unwrap();
    assert_eq!(
        parsed.get("truncated").and_then(|value| value.as_str()),
        Some("diagnostic output truncated")
    );
}

fn oversized_report() -> DiagnosticReport {
    let elements = (0..2048)
        .map(|index| UiElement {
            element_type: "static_text".to_string(),
            name: format!("redacted element {index} {}", "x".repeat(64)),
            value: None,
            enabled: Some(true),
        })
        .collect();

    DiagnosticReport {
        timestamp: "now".to_string(),
        target_processes: vec![ProcessInfo {
            name: "Windows App".to_string(),
            pid: Some(42),
            windows: vec![WindowInfo {
                title: "[redacted title]".to_string(),
                elements,
            }],
        }],
        system_dialogs: vec![],
        truncation_reasons: vec![],
    }
}

// ---------------------------------------------------------------------------
// Exact values
// ---------------------------------------------------------------------------

fn small_report(value: Option<&str>) -> DiagnosticReport {
    DiagnosticReport {
        timestamp: "now".to_string(),
        target_processes: vec![ProcessInfo {
            name: "Windows App".to_string(),
            pid: Some(42),
            windows: vec![WindowInfo {
                title: "Sign in".to_string(),
                elements: vec![UiElement {
                    element_type: "text_field".to_string(),
                    name: "User".to_string(),
                    value: value.map(str::to_string),
                    enabled: Some(true),
                }],
            }],
        }],
        system_dialogs: vec![],
        truncation_reasons: vec!["diagnostic collection truncated".to_string()],
    }
}

#[test]
fn plaintext_never_shows_a_value() {
    let with_value = small_report(Some("hunter2")).to_plaintext();
    assert!(!with_value.contains("hunter2"));
    assert!(with_value.contains("Windows App"));
    assert!(with_value.contains("Sign in"));
    assert!(with_value.contains("diagnostic collection truncated"));
    assert_eq!(with_value, small_report(Some("other")).to_plaintext());
}

#[test]
fn short_output_is_not_capped() {
    assert_eq!(cap_diagnostic_output("short".to_string()), "short");
    assert_eq!(
        DIAGNOSTIC_OUTPUT_TRUNCATED_MARKER.len(),
        DIAGNOSTIC_OUTPUT_TRUNCATED_MARKER_BYTES
    );
}

#[test]
fn run_reports_an_empty_desktop_with_a_timestamp() {
    let before = chrono::Local::now();
    let reports = [
        run(Platform::Windows, None, |_| panic!("nothing is run")).unwrap(),
        run(Platform::Other, Some(vec![123]), |_| panic!("nothing is run")).unwrap(),
        run_for_app("Another App", Platform::Windows, Some(vec![123]), |_| {
            panic!("nothing is run")
        })
        .unwrap(),
        run_for_app("Another App", Platform::Other, None, |_| panic!("nothing is run")).unwrap(),
    ];
    let after = chrono::Local::now();
    for report in reports {
        assert!(report.target_processes.is_empty());
        assert!(report.system_dialogs.is_empty());
        assert!(report.truncation_reasons.is_empty());
        assert_timestamp(&report.timestamp);
        let time = chrono::DateTime::parse_from_rfc3339(&report.timestamp).unwrap();
        assert!(before <= time && time <= after);
    }
}

fn assert_timestamp(timestamp: &str) {
    let bytes = timestamp.as_bytes();
    let len = bytes.len();
    assert!([25, 29, 32, 35].contains(&len));
    for (i, byte) in bytes.iter().enumerate() {
        match i {
            4 | 7 => assert_eq!(*byte, b'-'),
            10 => assert_eq!(*byte, b'T'),
            13 | 16 => assert_eq!(*byte, b':'),
            _ if i == len - 3 => assert_eq!(*byte, b':'),
            _ if i == len - 6 => assert!(*byte == b'+' || *byte == b'-'),
            19 => assert_eq!(*byte, b'.'),
            _ => assert!(byte.is_ascii_digit()),
        }
    }
}

#[test]
fn run_collects_where_there_is_a_collector() {
    let ran = std::cell::RefCell::new(Vec::new());
    let collect = |script: &str| {
        ran.borrow_mut().push(script.to_string());
        Ok(output_of(
            b"PROCESS:Another%20App|pid=123\nWINDOW:Contoso\n",
            true,
            b"",
        ))
    };
    let report = run_for_app("Another App", Platform::Macos, Some(vec![123]), collect).unwrap();
    assert_eq!(report.target_processes.len(), 1);
    assert_eq!(report.target_processes[0].windows.len(), 1);
    assert_timestamp(&report.timestamp);
    let report = run(Platform::Macos, Some(vec![123]), collect).unwrap();
    assert!(report.target_processes.is_empty());
    assert_eq!(
        ran.into_inner(),
        vec![
            build_applescript("Another App", &[123]),
            build_applescript(DEFAULT_TARGET_APP, &[123]),
        ]
    );
}

#[test]
fn run_returns_why_there_is_no_report() {
    let unverified = run_for_app("Another App", Platform::Macos, None, |_| {
        panic!("nothing is run")
    });
    assert_eq!(unverified.unwrap_err(), DiagnoseError::IdentityUnverified);
    let unverified = run(Platform::Macos, None, |_| panic!("nothing is run"));
    assert_eq!(unverified.unwrap_err(), DiagnoseError::IdentityUnverified);
    let late = run(Platform::Macos, Some(vec![123]), |_| Err(IoFailure::TimedOut));
    assert_eq!(late.unwrap_err(), DiagnoseError::TimedOut);
    let failed = run_for_app("Another App", Platform::Macos, Some(vec![123]), |_| {
        Ok(output_of(b"", false, b"denied"))
    });
    assert_eq!(
        failed.unwrap_err(),
        DiagnoseError::Failed {
            stderr_present: true
        }
    );
}

#[test]
fn json_renderer_errors_come_back() {
    let result: Result<String, String> =
        diagnostic_report_to_capped_pretty_json(&small_report(None), |_| Err("broken".to_string()));
    assert_eq!(result, Err("broken".to_string()));
}

#[test]
fn small_report_is_not_truncated_in_json() {
    let json = diagnostic_report_to_capped_pretty_json(&small_report(None), render_output).unwrap();
    let parsed: Value = serde_json::from_str(&json).unwrap();
    assert!(parsed.get("truncated").is_none());
    assert_eq!(diagnostic_stdout_len("abc"), 4);
}

#[test]
fn json_output_counts_over_all_processes() {
    let report = oversized_report();
    let output = DiagnosticJsonOutput::from_report_with_limits(&report, false, 8, 32, 3);
    assert_eq!(output.target_processes[0].windows[0].elements.len(), 3);
    assert_eq!(output.truncated.as_deref(), Some("diagnostic output truncated"));
    let whole = DiagnosticJsonOutput::from_report_with_limits(&small_report(None), false, 8, 32, 3);
    assert_eq!(whole.truncated, None);
    let forced = DiagnosticJsonOutput::from_report_with_limits(&small_report(None), true, 8, 32, 3);
    assert!(forced.truncated.is_some());
}

#[test]
fn json_limits_shrink_to_nothing() {
    let mut limits = JsonLimits {
        forced: false,
        processes: 8,
        windows: 32,
        elements: 256,
    };
    let mut steps = 0;
    while let Some(next) = shrink_limits(limits) {
        assert!(next.forced);
        assert!(
            next.processes + next.windows + next.elements
                < limits.processes + limits.windows + limits.elements
        );
        limits = next;
        steps += 1;
    }
    assert_eq!((limits.processes, limits.windows, limits.elements), (0, 0, 0));
    assert!(steps > 3);
}

#[test]
fn scalars_are_decoded_and_sanitized() {
    assert_eq!(string(percent_decode_protocol_value(&chars("a%7Cb%25%zz%4"))), "a|b%%zz%4");
    assert_eq!(sanitized_report_scalar("  a\u{7} \n b  "), "a b");
    assert_eq!(string(decode_protocol_value(&chars("Sign%0Ain"))), "Sign in");
    assert_eq!(
        string(decode_protocol_value(&chars(&"x".repeat(500)))).chars().count(),
        160
    );
    assert_eq!(parse_pid(&chars("123")), Some(123));
    assert_eq!(parse_pid(&chars("-5")), Some(-5));
    assert_eq!(parse_pid(&chars("2147483648")), None);
    assert_eq!(parse_pid(&chars("12a")), None);
    assert_eq!(parse_pid(&chars("")), None);
}

#[test]
fn script_literals_are_escaped() {
    assert_eq!(applescript_string_literal(r#"a"b\c"#), r#""a\"b\\c""#);
    assert_eq!(applescript_pid_list_literal(&[1, -2]), r#"{"1", "-2"}"#);
    assert_eq!(applescript_pid_list_literal(&[]), "{}");
    let click = build_click_script("Windows App", &[7]);
    assert!(click.contains("\"7\""));
    assert!(click.contains("\"Windows App\""));
    let close = build_close_script("Windows App", &[7]);
    assert!(close.contains("\"7\""));
}

#[test]
fn pipe_capture_keeps_what_fits() {
    let mut capture = PipeCapture::new();
    capture.take_chunk(b"abc", 5);
    assert_eq!((capture.bytes.as_slice(), capture.truncated), (&b"abc"[..], false));
    capture.take_chunk(b"defg", 5);
    assert_eq!((capture.bytes.as_slice(), capture.truncated), (&b"abcde"[..], true));
}

#[test]
fn raw_output_is_capped_with_a_marker() {
    assert_eq!(cap_raw_diagnostic_protocol_output("abc\n", false), "abc\n");
    let marked = cap_raw_diagnostic_protocol_output("abc\n", true);
    assert!(marked.starts_with("abc\n"));
    assert!(marked.contains("TRUNCATED:raw-output"));
    let long = cap_raw_diagnostic_protocol_output(&"y".repeat(1_000_000), false);
    assert!(long.len() < 1_000_000);
    assert!(long.contains("TRUNCATED:raw-output"));
}

fn capture(bytes: &[u8]) -> PipeCapture {
    PipeCapture {
        bytes: bytes.to_vec(),
        truncated: false,
    }
}

fn output_of(stdout: &[u8], success: bool, stderr: &[u8]) -> CollectorOutput {
    CollectorOutput {
        success,
        stdout: capture(stdout),
        stderr: capture(stderr),
    }
}

#[test]
fn diagnosis_parses_what_the_collector_wrote() {
    let plan = plan_diagnosis("Windows App", Some(vec![123])).unwrap();
    assert!(plan.script.contains("{\"123\"}"));
    let text = b"PROCESS:Windows App|pid=123\nWINDOW:\xff\nELEMENT:button|name=x\n";
    let report = finish_diagnosis("Windows App", &plan, Ok(output_of(text, true, b""))).unwrap();
    assert_eq!(report.target_processes.len(), 1);
    assert_eq!(report.target_processes[0].windows[0].title, "[redacted title]");
    assert!(!report.timestamp.is_empty());
}

#[test]
fn diagnosis_errors_are_told_apart() {
    assert!(matches!(
        plan_diagnosis("Windows App", None),
        Err(DiagnoseError::IdentityUnverified)
    ));
    let plan = plan_diagnosis("Windows App", Some(vec![123])).unwrap();
    assert!(matches!(
        finish_diagnosis("Windows App", &plan, Err(IoFailure::TimedOut)),
        Err(DiagnoseError::TimedOut)
    ));
    let error = finish_diagnosis("Windows App", &plan, Err(IoFailure::NotFound)).unwrap_err();
    assert!(matches!(error, DiagnoseError::NotRun(IoFailure::NotFound)));
    assert!(!error.message().is_empty());
    let failed =
        finish_diagnosis("Windows App", &plan, Ok(output_of(b"", false, b"secret"))).unwrap_err();
    assert!(matches!(failed, DiagnoseError::Failed { stderr_present: true }));
    assert!(!failed.message().contains("secret"));
    assert_ne!(redacted_stderr(true), redacted_stderr(false));
    assert_ne!(
        redacted_io_error(IoFailure::PermissionDenied),
        redacted_io_error(IoFailure::Other)
    );
}

#[test]
fn a_diagnosis_runs_its_script_once() {
    let ran = std::cell::RefCell::new(Vec::new());
    let report = run_macos("Windows App", Some(vec![123]), |script| {
        ran.borrow_mut().push(script.to_string());
        Ok(output_of(
            b"PROCESS:Windows%20App|pid=123\nWINDOW:Contoso\n",
            true,
            b"",
        ))
    })
    .unwrap();
    assert_eq!(report.target_processes.len(), 1);
    assert_eq!(
        ran.into_inner(),
        vec![build_applescript("Windows App", &[123])]
    );
    let unverified = run_macos("Windows App", None, |_| panic!("nothing is run"));
    assert_eq!(unverified.unwrap_err(), DiagnoseError::IdentityUnverified);
}

#[test]
fn json_fits_the_cap_whatever_the_reasons() {
    let mut report = small_report(None);
    report.truncation_reasons = vec!["x".repeat(2 * MAX_DIAGNOSTIC_OUTPUT_BYTES)];
    let json = diagnostic_report_to_capped_pretty_json(&report, render_output).unwrap();
    assert!(diagnostic_stdout_len(&json) <= MAX_DIAGNOSTIC_OUTPUT_BYTES);
    let parsed: Value = serde_json::from_str(&json).unwrap();
    assert_eq!(
        parsed.get("truncated").and_then(|value| value.as_str()),
        Some("diagnostic output truncated")
    );
    assert_eq!(
        parsed.get("timestamp").and_then(|value| value.as_str()),
        Some(report.timestamp.as_str())
    );
}

#[test]
fn json_that_never_fits_is_left_out() {
    let json = diagnostic_report_to_capped_pretty_json(&small_report(None), |_| {
        Ok::<String, String>("x".repeat(MAX_DIAGNOSTIC_OUTPUT_BYTES))
    })
    .unwrap();
    let parsed: Value = serde_json::from_str(&json).unwrap();
    assert_eq!(
        parsed.get("truncated").and_then(|value| value.as_str()),
        Some("diagnostic output truncated")
    );
}

#[test]
fn an_error_of_the_smallest_json_comes_back() {
    let result = diagnostic_report_to_capped_pretty_json(&small_report(Some("why")), |output| {
        if output.truncation_reasons.is_empty() {
            Err("broken".to_string())
        } else {
            Ok("x".repeat(MAX_DIAGNOSTIC_OUTPUT_BYTES))
        }
    });
    assert_eq!(result, Err("broken".to_string()));
}

fn telling_process() -> ProcessInfo {
    ProcessInfo {
        name: "Windows App".to_string(),
        pid: Some(7),
        windows: vec![WindowInfo {
            title: "Contoso".to_string(),
            elements: vec![
                UiElement {
                    element_type: "button".to_string(),
                    name: "user@example.com".to_string(),
                    value: Some("hunter2".to_string()),
                    enabled: Some(true),
                },
                UiElement {
                    element_type: "mystery".to_string(),
                    name: " ".to_string(),
                    value: None,
                    enabled: None,
                },
            ],
        }],
    }
}

#[test]
fn redaction_changes_texts_alone_and_only_once() {
    let mut targets = vec![telling_process()];
    let mut dialogs = vec![telling_process()];
    redact_report_parts(&mut targets, &mut dialogs);
    for processes in [&targets, &dialogs] {
        assert_eq!(processes.len(), 1);
        assert_eq!(processes[0].name, "Windows App");
        assert_eq!(processes[0].pid, Some(7));
        let window = &processes[0].windows[0];
        assert_eq!(window.title, "[redacted title]");
        assert_eq!(window.elements.len(), 2);
        assert_eq!(window.elements[0].element_type, "button");
        assert_eq!(window.elements[0].name, "[redacted]");
        assert_eq!(window.elements[0].value.as_deref(), Some("[redacted]"));
        assert_eq!(window.elements[0].enabled, Some(true));
        assert_eq!(window.elements[1].element_type, "[redacted type]");
        assert_eq!(window.elements[1].name, "");
        assert_eq!(window.elements[1].value, None);
        assert_eq!(window.elements[1].enabled, None);
    }
    let once = format!("{targets:?}{dialogs:?}");
    redact_report_parts(&mut targets, &mut dialogs);
    assert_eq!(format!("{targets:?}{dialogs:?}"), once);
}
