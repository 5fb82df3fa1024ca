use oncall_agent_rs::evidence::{
    build_tool_evidence, decorate_result, detect_success, extract_error_code, summarize, truncate,
};

#[test]
fn truncate_caps_length() {
    assert_eq!(truncate("abc", 5), "abc");
    assert_eq!(truncate("abcdef", 3), "abc...");
}

#[test]
fn detect_success_reads_success_flag() {
    assert!(detect_success(r#"{"success":true,"message":"ok"}"#));
    assert!(!detect_success(r#"{"success":false,"errorCode":"DEPENDENCY_ERROR"}"#));
}

#[test]
fn detect_success_reads_status_field() {
    assert!(!detect_success(r#"{"status":"error","message":"x"}"#));
    assert!(detect_success(r#"{"status":"success"}"#));
    assert!(detect_success(r#"{"status":"no_results"}"#));
}

#[test]
fn detect_success_defaults_true_and_handles_plain_text() {
    assert!(detect_success(""));
    assert!(detect_success("unix_timestamp_seconds=1"));
    assert!(!detect_success("{ \"success\": false }"));
}

#[test]
fn summarize_prefers_error_then_message() {
    assert_eq!(summarize("{}", Some("超时")), "工具调用失败: 超时");
    assert_eq!(summarize(r#"{"message":"近1h无异常"}"#, None), "近1h无异常");
    assert_eq!(summarize(r#"{"status":"no_results"}"#, None), "status=no_results");
    assert_eq!(summarize("", None), "工具调用完成，返回为空");
}

#[test]
fn decorate_injects_into_json_object_keeping_fields() {
    let out = decorate_result(r#"{"success":true,"alerts":[]}"#, "ev-abc123", true);
    assert!(out.starts_with(r#"{"success":true,"alerts":[]"#));
    assert!(out.contains(r#""_diagnosisEvidenceId":"ev-abc123""#));
    assert!(out.contains(r#""_diagnosisEvidenceSuccess":true"#));
    assert!(serde_json::from_str::<serde_json::Value>(&out).unwrap().is_object());
}

#[test]
fn decorate_handles_empty_object_and_plain_text() {
    let obj = decorate_result("{}", "ev-1", false);
    assert!(serde_json::from_str::<serde_json::Value>(&obj).unwrap().is_object());
    assert!(obj.contains(r#""_diagnosisEvidenceId":"ev-1""#));

    let text = decorate_result("unix_timestamp_seconds=1", "ev-2", true);
    assert_eq!(text, "unix_timestamp_seconds=1\n\n诊断证据ID: ev-2");
}

#[test]
fn build_evidence_truncates_and_sets_fields() {
    let evidence = build_tool_evidence(
        "queryMetricTrend",
        r#"{"metric":"cpu_usage"}"#,
        r#"{"success":true,"message":"ok"}"#,
        true,
        None,
    );
    assert_eq!(evidence.evidence_type, "tool_call");
    assert_eq!(evidence.tool_name, "queryMetricTrend");
    assert_eq!(evidence.query_params, r#"{"metric":"cpu_usage"}"#);
    assert!(evidence.id.starts_with("ev-"));
    assert_eq!(evidence.id.len(), 3 + 12);
    assert_eq!(evidence.summary, "ok");
    assert!(evidence.success);
}

#[test]
fn error_code_comes_from_json_output() {
    assert_eq!(extract_error_code(r#"{"errorCode":"DEPENDENCY_ERROR"}"#), "DEPENDENCY_ERROR");
    assert_eq!(extract_error_code("plain"), "");
    assert_eq!(extract_error_code(r#"{"errorCode":"  "}"#), "");
}
