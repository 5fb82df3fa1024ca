use oncall_agent_rs::agent_runtime::OverAllState;
use oncall_agent_rs::ai_ops::AiOpsService;
use oncall_agent_rs::config::{AppConfig, EnvSnapshot};
use oncall_agent_rs::incident::{
    build_alert_context, build_case_document, build_incident_case_query, compact, escape_expr,
    extract_section, i64_to_string, latest_completed_run, seed_incident, summary, value,
    IncidentService,
};
use oncall_agent_rs::json::{field_str, to_json_string};
use oncall_agent_rs::model::DiagnosisEvidence;

fn config() -> AppConfig {
    AppConfig::from_env(&EnvSnapshot { vars: vec![] }).ok().expect("defaults")
}

fn tool_evidence(tool: &str, summary: &str) -> DiagnosisEvidence {
    DiagnosisEvidence {
        id: "ev-000000000001".to_string(),
        evidence_type: "metrics".to_string(),
        title: "trend".to_string(),
        content: "cpu 92".to_string(),
        tool_name: tool.to_string(),
        query_params: "{}".to_string(),
        time_range: String::new(),
        summary: summary.to_string(),
        raw_fragment: "{}".to_string(),
        success: true,
        error_message: String::new(),
        error_code: String::new(),
        created_at: 1,
    }
}

#[test]
fn the_service_starts_with_the_seed_incident() {
    let service = IncidentService::new(&config());
    let list = service.list();
    assert_eq!(list.len(), 1);
    assert_eq!(list[0].id, "incident-1");
    assert_eq!(list[0].title, "HighCPUUsage payment-service");
    assert_eq!(list[0].latest_run_status, "COMPLETED");
    assert_eq!(list[0].alert_count, 2);
    let incident = service.get("incident-1").expect("seeded");
    assert_eq!(incident.severity, "critical");
    assert_eq!(incident.diagnosis_runs.len(), 1);
    assert_eq!(incident.diagnosis_runs[0].evidence[0].id, "evidence-1");
    assert!(service.get("missing").is_none());
    assert!(service.runs("missing").is_none());
    assert_eq!(service.runs("incident-1").unwrap()[0].run_id, "run-1");
}

#[test]
fn alert_context_names_title_severity_and_count() {
    let incident = seed_incident();
    assert_eq!(
        build_alert_context(&incident),
        "HighCPUUsage payment-service severity=critical alertCount=2"
    );
    assert_eq!(
        build_incident_case_query(&incident),
        "HighCPUUsage payment-service\ncritical"
    );
}

#[test]
fn diagnose_queues_a_run_with_the_alert_context() {
    let mut service = IncidentService::new(&config());
    assert!(service.diagnose("missing").is_none());
    let run = service.diagnose("incident-1").expect("known incident");
    assert!(run.run_id.starts_with("run-"));
    assert_eq!(run.run_id.len(), 16);
    assert_eq!(run.status, "QUEUED");
    assert_eq!(run.incident_id, "incident-1");
    assert_eq!(run.alert_context, "HighCPUUsage payment-service severity=critical alertCount=2");
    assert_eq!(run.current_step, "等待诊断任务开始");
    assert_eq!(run.progress_message, "诊断任务已入队");
    assert_eq!(run.evidence.len(), 1);
    assert_eq!(run.evidence[0].evidence_type, "alert_context");
    assert_eq!(run.evidence[0].content, run.alert_context);
    assert!(run.evidence[0].id.starts_with("ev-"));
    let runs = service.runs("incident-1").unwrap();
    assert_eq!(runs.len(), 2);
    assert_eq!(runs[1].run_id, run.run_id);
    let incident = service.get("incident-1").unwrap();
    assert_eq!(incident.updated_at, run.created_at);
    assert_eq!(service.list()[0].latest_run_status, "QUEUED");
}

#[test]
fn a_run_goes_through_tools_to_completion() {
    let mut service = IncidentService::new(&config());
    let run = service.diagnose("incident-1").unwrap();
    let id = run.run_id.clone();

    service.mark_running("incident-1", &id);
    let r = &service.runs("incident-1").unwrap()[1];
    assert_eq!(r.status, "RUNNING");
    assert!(r.started_at > 0);
    assert_eq!(r.progress_message, "AI Ops 诊断已开始");

    service.mark_waiting_tool("incident-1", &id, "queryMetricTrend", "{\"metric\":\"cpu_usage\"}");
    let r = &service.runs("incident-1").unwrap()[1];
    assert_eq!(r.status, "WAITING_TOOL");
    assert_eq!(r.current_tool, "queryMetricTrend");
    assert_eq!(r.current_step, "正在调用工具 queryMetricTrend");
    assert_eq!(r.progress_message, "{\"metric\":\"cpu_usage\"}");

    service.add_tool_evidence("incident-1", &id, tool_evidence("queryMetricTrend", "cpu rising"));
    let r = &service.runs("incident-1").unwrap()[1];
    assert_eq!(r.status, "RUNNING");
    assert_eq!(r.current_tool, "");
    assert_eq!(r.current_step, "已完成工具调用 queryMetricTrend");
    assert_eq!(r.progress_message, "cpu rising");
    assert_eq!(r.evidence.len(), 2);

    service.complete_run("incident-1", &id, "# 报告\n\n## 根因结论\nCPU 饱和\n");
    let r = &service.runs("incident-1").unwrap()[1];
    assert_eq!(r.status, "COMPLETED");
    assert!(r.completed_at >= r.started_at);
    assert_eq!(r.current_step, "诊断完成");
    assert_eq!(r.progress_message, "已生成诊断报告");
    assert!(r.report.starts_with("# 报告"));
}

#[test]
fn a_failed_run_records_why() {
    let mut service = IncidentService::new(&config());
    let run = service.diagnose("incident-1").unwrap();
    service.fail_run("incident-1", &run.run_id, "模型超时");
    let r = &service.runs("incident-1").unwrap()[1];
    assert_eq!(r.status, "FAILED");
    assert_eq!(r.error_message, "模型超时");
    assert_eq!(r.progress_message, "模型超时");
    assert!(r.started_at > 0);
    assert_eq!(r.evidence.len(), 2);
    assert_eq!(r.evidence[1].evidence_type, "failure_reason");
    assert_eq!(r.evidence[1].title, "诊断失败原因");
    assert_eq!(r.evidence[1].raw_fragment, "模型超时");
}

#[test]
fn the_alert_context_evidence_is_replaced_or_added() {
    let mut service = IncidentService::new(&config());
    let run = service.diagnose("incident-1").unwrap();
    service.update_run_alert_context("incident-1", &run.run_id, "new context");
    let r = &service.runs("incident-1").unwrap()[1];
    assert_eq!(r.alert_context, "new context");
    assert_eq!(r.evidence.len(), 1);
    assert_eq!(r.evidence[0].content, "new context");
    assert_eq!(r.evidence[0].summary, "new context");
    assert_eq!(r.evidence[0].id, run.evidence[0].id);

    service.update_run_alert_context("incident-1", "run-1", "seed context");
    let seed = &service.runs("incident-1").unwrap()[0];
    assert_eq!(seed.evidence.len(), 2);
    assert_eq!(seed.evidence[1].evidence_type, "alert_context");
    assert_eq!(seed.evidence[1].content, "seed context");
}

#[test]
fn updates_to_unknown_runs_change_nothing() {
    let mut service = IncidentService::new(&config());
    let before = service.get("incident-1").unwrap();
    service.mark_running("incident-1", "run-unknown");
    service.fail_run("incident-unknown", "run-1", "x");
    let after = service.get("incident-1").unwrap();
    assert_eq!(after.updated_at, before.updated_at);
    assert_eq!(after.diagnosis_runs[0].status, "COMPLETED");
}

#[test]
fn the_evidence_collector_writes_to_its_run() {
    let mut service = IncidentService::new(&config());
    let run = service.diagnose("incident-1").unwrap();
    let collector = service.evidence_collector("incident-1", &run.run_id);
    assert_eq!(collector.incident_id(), "incident-1");
    assert_eq!(collector.run_id(), run.run_id);
    collector.mark_waiting(&mut service, "queryLogs", "{}");
    assert_eq!(service.runs("incident-1").unwrap()[1].status, "WAITING_TOOL");
    collector.record(&mut service, tool_evidence("queryLogs", "errors found"));
    let evidence = collector.snapshot_evidence(&service);
    assert_eq!(evidence.len(), 2);
    assert_eq!(evidence[1].tool_name, "queryLogs");
    let other = service.evidence_collector("incident-1", "run-none");
    assert!(other.snapshot_evidence(&service).is_empty());
}

#[test]
fn sections_are_extracted_up_to_the_next_heading() {
    let report = "# R\n## 根因结论\n  连接池耗尽  \n## 处理建议\n扩容\n";
    assert_eq!(extract_section(report, "根因结论").as_deref(), Some("连接池耗尽"));
    assert_eq!(extract_section(report, "处理建议").as_deref(), Some("扩容"));
    assert!(extract_section(report, "影响范围").is_none());
}

#[test]
fn small_helpers_behave() {
    assert_eq!(value("  "), "N/A");
    assert_eq!(value("x"), "x");
    assert_eq!(compact("abcdef", 3), "abc...");
    assert_eq!(compact("abc", 3), "abc");
    assert_eq!(escape_expr("a\"b\\c"), "a\\\"b\\\\c");
    assert_eq!(i64_to_string(-42), "-42");
    assert_eq!(i64_to_string(i64::MIN), "-9223372036854775808");
}

#[test]
fn the_newest_completed_run_is_archived() {
    let mut service = IncidentService::new(&config());
    let seed = seed_incident();
    assert_eq!(latest_completed_run(&seed).unwrap().run_id, "run-1");
    assert_eq!(summary(&seed).latest_run_status, "COMPLETED");

    let archive = service.prepare_archive("incident-1").expect("completed run");
    let doc = &archive.document;
    assert!(doc.content.starts_with("# 历史故障案例\nIncident ID: incident-1\n标题: HighCPUUsage payment-service\n级别: critical\n"));
    assert!(doc.content.contains("## 根因\n# HighCPUUsage payment-service"));
    assert!(doc.content.contains("## 处理动作\n未提取到结构化处理动作"));
    assert_eq!(doc.id.len(), 36);
    assert_eq!(field_str(&doc.metadata, "doc_type").as_deref(), Some("incident_case"));
    assert_eq!(field_str(&doc.metadata, "run_id").as_deref(), Some("run-1"));
    assert_eq!(field_str(&doc.metadata, "_source").as_deref(), Some("incident_case:incident-1"));
    assert!(to_json_string(&doc.metadata).contains("\"archived_at\":"));
    assert_eq!(
        archive.delete_expr,
        "metadata[\"doc_type\"] == \"incident_case\" && metadata[\"incident_id\"] == \"incident-1\""
    );
    let again = build_case_document(&seed, &seed.diagnosis_runs[0]);
    assert_eq!(again.id, doc.id);

    let err = service.prepare_archive("nope").err().unwrap();
    assert_eq!(err, "Incident 不存在: nope");

    let run = service.diagnose("incident-1").unwrap();
    service.complete_run("incident-1", &run.run_id, "## 根因结论\n磁盘满\n## 处理建议\n清理日志\n");
    let archive = service.prepare_archive("incident-1").unwrap();
    assert!(archive.document.content.contains("## 根因\n磁盘满\n"));
    assert!(archive.document.content.contains("## 处理动作\n清理日志\n"));
    assert_eq!(field_str(&archive.document.metadata, "run_id").as_deref(), Some(run.run_id.as_str()));
}

#[test]
fn an_incident_without_a_completed_run_cannot_be_archived() {
    let mut service = IncidentService::new(&config());
    service.incidents[0].diagnosis_runs[0].status = "FAILED".to_string();
    assert_eq!(
        service.prepare_archive("incident-1").err().unwrap(),
        "Incident 尚无已完成诊断，不能写入历史案例"
    );
}

#[test]
fn similar_cases_search_at_least_one() {
    let service = IncidentService::new(&config());
    let (query, k) = service.similar_cases_query("incident-1", 0).unwrap();
    assert_eq!(query, "HighCPUUsage payment-service\ncritical");
    assert_eq!(k, 1);
    assert_eq!(service.similar_cases_query("incident-1", 5).unwrap().1, 5);
    assert_eq!(service.similar_cases_query("x", 5).err().unwrap(), "Incident 不存在: x");
}

#[test]
fn tool_calls_are_recorded_on_the_run() {
    let mut service = IncidentService::new(&config());
    let run = service.diagnose("incident-1").unwrap();
    let collector = service.evidence_collector("incident-1", &run.run_id);
    let out = collector
        .finish_tool_call(&mut service, "queryLogs", "{}", Ok("{\"success\":true}".to_string()))
        .unwrap();
    let evidence = collector.snapshot_evidence(&service);
    assert_eq!(evidence.len(), 2);
    assert_eq!(evidence[1].tool_name, "queryLogs");
    assert!(evidence[1].success);
    assert!(out.contains(&evidence[1].id));
    let err = collector
        .finish_tool_call(&mut service, "queryLogs", "{}", Err("boom".to_string()))
        .err()
        .unwrap();
    assert_eq!(err, "boom");
    let evidence = collector.snapshot_evidence(&service);
    assert_eq!(evidence.len(), 3);
    assert!(!evidence[2].success);
    assert_eq!(evidence[2].error_message, "boom");
}

#[test]
fn a_diagnosis_ends_with_its_report_or_its_failure() {
    let ai_ops = AiOpsService::new(&config());
    let mut service = IncidentService::new(&config());
    let run = service.diagnose("incident-1").unwrap();
    let mut state = OverAllState::new();
    state.insert_assistant_message("supervisor_output", "  # 报告  ");
    service.finish_diagnosis(&ai_ops, "incident-1", &run.run_id, Ok(Some(state)));
    let r = &service.runs("incident-1").unwrap()[1];
    assert_eq!(r.status, "COMPLETED");
    assert!(r.report.starts_with("# 报告"));

    let run = service.diagnose("incident-1").unwrap();
    service.finish_diagnosis(&ai_ops, "incident-1", &run.run_id, Ok(Some(OverAllState::new())));
    assert_eq!(service.runs("incident-1").unwrap()[2].error_message, "多 Agent 流程完成，但未能提取最终报告");

    let run = service.diagnose("incident-1").unwrap();
    service.finish_diagnosis(&ai_ops, "incident-1", &run.run_id, Err("DASHSCOPE_API_KEY 未配置".to_string()));
    let r = &service.runs("incident-1").unwrap()[3];
    assert_eq!(r.status, "FAILED");
    assert_eq!(r.error_message, "告警分析异常: DASHSCOPE_API_KEY 未配置");
}
