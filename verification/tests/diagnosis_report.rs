use oncall_agent_rs::diagnosis_report::{augment_alert_context, build_evidence_table, constrain_report};
use oncall_agent_rs::model::DiagnosisEvidence;

fn tool_ev(id: &str, tool: &str, success: bool) -> DiagnosisEvidence {
    DiagnosisEvidence {
        id: id.to_string(),
        evidence_type: "tool_call".to_string(),
        tool_name: tool.to_string(),
        summary: format!("{tool} 摘要"),
        success,
        ..DiagnosisEvidence::default()
    }
}

#[test]
fn augment_appends_table_and_rules() {
    let evidence = vec![tool_ev("ev-1", "queryMetricTrend", true)];
    let out = augment_alert_context("告警上下文", &evidence);
    assert!(out.starts_with("告警上下文"));
    assert!(out.contains("## 可用工具证据表（仅成功）"));
    assert!(out.contains("ev-1"));
    assert!(out.contains("## 报告证据约束"));
}

#[test]
fn constrain_passes_when_resource_claim_cites_metric_trend() {
    let evidence = vec![tool_ev("ev-1", "queryMetricTrend", true)];
    let report = "## 根因\nCPU 飙升 [evidence: ev-1]";
    let out = constrain_report(report, &evidence);
    assert!(out.contains("## 证据校验"));
    assert!(out.contains("- 校验状态: 通过"));
    assert!(out.contains("- 置信度: 高"));
    assert!(out.contains("- 已引用证据: ev-1"));
}

#[test]
fn constrain_flags_unknown_evidence_id() {
    let evidence = vec![tool_ev("ev-1", "queryMetricTrend", true)];
    let report = "结论 [evidence: ev-unknown]";
    let out = constrain_report(report, &evidence);
    assert!(out.contains("- 校验状态: 失败"));
    assert!(out.contains("- 置信度: 低"));
    assert!(out.contains("- 未知证据: ev-unknown"));
}

#[test]
fn constrain_flags_missing_metric_trend_for_resource_claim() {
    let evidence = vec![tool_ev("ev-1", "queryLogs", true)];
    let report = "CPU 使用率过高 [evidence: ev-1]";
    let out = constrain_report(report, &evidence);
    assert!(out.contains("- 校验状态: 需补证"));
    assert!(out.contains("资源类结论缺少成功的 queryMetricTrend"));
}

#[test]
fn constrain_is_idempotent() {
    let evidence = vec![tool_ev("ev-1", "queryMetricTrend", true)];
    let report = "CPU [evidence: ev-1]";
    let once = constrain_report(report, &evidence);
    let twice = constrain_report(&once, &evidence);
    assert_eq!(once, twice);
    assert_eq!(twice.matches("## 证据校验").count(), 1);
}

#[test]
fn constrain_is_idempotent_on_a_report_with_an_old_section() {
    let evidence = vec![tool_ev("ev-1", "queryMetricTrend", true), tool_ev("ev-2", "queryLogs", false)];
    let report = "## 根因\n内存 [evidence: ev-2]\n\n## 证据校验\n- 旧内容";
    let once = constrain_report(report, &evidence);
    let twice = constrain_report(&once, &evidence);
    assert_eq!(once, twice);
    assert_eq!(once.matches("## 证据校验").count(), 1);
    assert!(!once.contains("旧内容"));
}

fn failed_ev(id: &str) -> DiagnosisEvidence {
    DiagnosisEvidence { error_code: "TIMEOUT".to_string(), ..tool_ev(id, "queryLogs", false) }
}

#[test]
fn the_evidence_table_has_a_heading_for_each_kind_present() {
    let usable_heading = "## 可用工具证据表（仅成功）";
    let failed_heading = "## 失败工具证据说明";
    assert_eq!(build_evidence_table(&[]), "");
    let only_usable = build_evidence_table(&[tool_ev("ev-1", "queryMetricTrend", true)]);
    assert!(only_usable.lines().any(|l| l == usable_heading));
    assert!(!only_usable.lines().any(|l| l == failed_heading));
    let only_failed = build_evidence_table(&[failed_ev("ev-2")]);
    assert!(!only_failed.lines().any(|l| l == usable_heading));
    assert!(only_failed.lines().any(|l| l == failed_heading));
    let both = build_evidence_table(&[tool_ev("ev-1", "queryMetricTrend", true), failed_ev("ev-2")]);
    assert!(both.lines().any(|l| l == usable_heading));
    assert!(both.lines().any(|l| l == failed_heading));
    assert!(!both.ends_with('\n'));
}

#[test]
fn a_guarded_report_has_one_validation_heading() {
    let evidence = vec![tool_ev("ev-1", "queryMetricTrend", true)];
    let once = constrain_report("CPU [evidence: ev-1]", &evidence);
    let twice = constrain_report(&once, &evidence);
    assert_eq!(twice, once);
    assert_eq!(once.lines().filter(|l| l.trim() == "## 证据校验").count(), 1);
}

fn verdict_lines(out: &str) -> (String, String, String) {
    let lines: Vec<&str> = out.lines().collect();
    let k = lines.iter().position(|l| l.trim() == "## 证据校验").expect("heading");
    (lines[k + 1].to_string(), lines[k + 2].to_string(), lines[k + 6].to_string())
}

#[test]
fn the_verdict_lines_follow_the_citations() {
    let evidence = vec![
        tool_ev("ev-1", "queryMetricTrend", true),
        tool_ev("ev-2", "queryLogs", false),
    ];
    let failed = constrain_report("CPU 飙升 [evidence: ev-2]", &evidence);
    let (status, confidence, _) = verdict_lines(&failed);
    assert_eq!(status, "- 校验状态: 失败");
    assert_eq!(confidence, "- 置信度: 低");
    let needs = constrain_report("CPU 飙升，日志有异常 [evidence: ev-1]", &evidence);
    let (status, confidence, missing) = verdict_lines(&needs);
    assert_eq!(status, "- 校验状态: 需补证");
    assert_eq!(confidence, "- 置信度: 中");
    assert_ne!(missing, "- 缺失证据: 无");
    let passed = constrain_report("CPU 飙升 [evidence: ev-1]", &evidence);
    assert_eq!(
        verdict_lines(&passed),
        ("- 校验状态: 通过".to_string(), "- 置信度: 高".to_string(), "- 缺失证据: 无".to_string())
    );
}
