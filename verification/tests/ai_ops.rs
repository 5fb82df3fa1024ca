use oncall_agent_rs::agent_runtime::{AssistantMessage, OverAllState, ReactAgent, StateValue};
use oncall_agent_rs::ai_ops::{
    build_task_prompt, guarded_tool_output, handoff_request, handoff_tool_name,
    handoff_description, mcp_dependency_name, AiOpsService,
};
use serde_json::Value;
use oncall_agent_rs::config::AppConfig;

fn test_config() -> AppConfig {
    AppConfig {
        host: [127, 0, 0, 1],
        port: 3000,
        allowed_origin: "*".to_string(),
        request_timeout_secs: 30,
        log_filter: "info".to_string(),
        static_dir: "./static".to_string(),
        redis_url: None,
        chat_history_path: "./data/test-chat-history".to_string(),
        session_ttl_secs: 3600,
        dashscope_api_key: None,
        dashscope_base_url: "https://dashscope.aliyuncs.com/compatible-mode/v1".to_string(),
        dashscope_api_base_url: "https://dashscope.aliyuncs.com/api/v1".to_string(),
        dashscope_responses_rectifier_enabled: false,
        dashscope_chat_model: "qwen-plus".to_string(),
        chat_agent_max_turns: 6,
        dashscope_embedding_model: "text-embedding-v4".to_string(),
        dashscope_rerank_model: "gte-rerank-v2".to_string(),
        dashscope_rerank_url:
            "https://dashscope.aliyuncs.com/api/v1/services/rerank/text-rerank/text-rerank"
                .to_string(),
        milvus_host: "localhost".to_string(),
        milvus_port: 19530,
        milvus_username: String::new(),
        milvus_password: String::new(),
        milvus_database: "default".to_string(),
        milvus_timeout_ms: 5000,
        rag_candidate_k: 20,
        rag_search_ef: 64,
        upload_path: "./data/uploads".to_string(),
        upload_allowed_extensions: vec!["md".to_string(), "txt".to_string()],
        document_chunk_max_size: 800,
        document_chunk_overlap: 120,
        private_memory_recall_enabled: false,
        private_memory_recall_top_k: 5,
        private_memory_store_path: "./data/private-memory".to_string(),
        prometheus_base_url: "http://localhost:9090".to_string(),
        prometheus_timeout_secs: 5,
        prometheus_mock_enabled: true,
        cls_mock_enabled: true,
        ai_ops_chat_model: "qwen-plus".to_string(),
        ai_ops_agent_max_turns: 12,
        ai_ops_max_rounds: 8,
    }
}

#[test]
fn extract_final_report_returns_none_when_state_missing_planner_plan() {
    let service = AiOpsService::new(&test_config());
    let state = OverAllState::new();

    assert_eq!(service.extract_final_report(&state), None);
}

#[test]
fn extract_final_report_returns_report_from_assistant_message() {
    let service = AiOpsService::new(&test_config());
    let mut state = OverAllState::new();
    state.insert_assistant_message("supervisor_output", "# 告警分析报告\n\n测试报告内容");

    assert_eq!(
        service.extract_final_report(&state).as_deref(),
        Some("# 告警分析报告\n\n测试报告内容")
    );
}

#[test]
fn extract_final_report_falls_back_to_planner_plan_for_compatibility() {
    let service = AiOpsService::new(&test_config());
    let mut state = OverAllState::new();
    state.insert_assistant_message("planner_plan", "# 旧报告");

    assert_eq!(service.extract_final_report(&state).as_deref(), Some("# 旧报告"));
}

#[test]
fn extract_final_report_returns_none_when_report_is_not_assistant_message() {
    let service = AiOpsService::new(&test_config());
    let mut state = OverAllState::new();
    state.insert("supervisor_output", StateValue::Text("just a string".to_string()));

    assert_eq!(service.extract_final_report(&state), None);
}

#[test]
fn extract_final_report_returns_none_for_blank_assistant_message() {
    let service = AiOpsService::new(&test_config());
    let mut state = OverAllState::new();
    state.insert(
        "supervisor_output",
        StateValue::AssistantMessage(AssistantMessage::new("  ")),
    );

    assert_eq!(service.extract_final_report(&state), None);
}

#[test]
fn build_ai_ops_sub_agents_use_specialized_names_and_tools() {
    let service = AiOpsService::new(&test_config());
    let chat_model = service.chat_model();
    let tool_callbacks = service.tool_callbacks();

    let agents = service.build_ai_ops_sub_agents(&chat_model, &tool_callbacks);

    assert!(agents.iter().any(|agent| agent.name() == "metrics_agent"));
    assert!(agents.iter().any(|agent| agent.name() == "logs_agent"));
    assert!(agents.iter().any(|agent| agent.name() == "knowledge_agent"));
    assert!(agents.iter().any(|agent| agent.name() == "remediation_agent"));

    let metrics = agents
        .iter()
        .find(|agent| agent.name() == "metrics_agent")
        .expect("metrics agent");
    assert!(metrics.allows_tool("queryMetricTrend"));
    assert!(!metrics.allows_tool("queryLogs"));

    let remediation = agents
        .iter()
        .find(|agent| agent.name() == "remediation_agent")
        .expect("remediation agent");
    assert!(remediation.allows_tool("getCurrentDateTime"));
    assert!(!remediation.allows_tool("queryMetricTrend"));
}

#[test]
fn build_ai_ops_sub_agents_skip_logs_agent_when_cls_disabled() {
    let mut config = test_config();
    config.cls_mock_enabled = false;
    let service = AiOpsService::new(&config);
    let chat_model = service.chat_model();
    let tool_callbacks = service.tool_callbacks();

    let agents = service.build_ai_ops_sub_agents(&chat_model, &tool_callbacks);

    assert!(!agents.iter().any(|agent| agent.name() == "logs_agent"));
}

#[test]
fn build_method_tools_for_agent_filters_by_allowed_tools() {
    let service = AiOpsService::new(&test_config());
    let agent = ReactAgent::new("metrics_agent", "qwen-plus", "metrics", 12)
        .with_allowed_tools(vec!["queryMetricTrend".to_string()]);

    let tool_names = service.build_method_tools_for_agent(&Vec::new(), &agent);

    assert_eq!(tool_names, vec!["queryMetricTrend".to_string()]);
}

#[test]
fn the_team_model_uses_the_api_base_url() {
    let service = AiOpsService::new(&test_config());
    assert_eq!(service.chat_model().base_url, "https://dashscope.aliyuncs.com/api/v1");
    assert_eq!(service.chat_model().model, "qwen-plus");
}

#[test]
fn every_team_tool_is_given_to_an_agent_without_a_limit() {
    let service = AiOpsService::new(&test_config());
    let agent = ReactAgent::new("free_agent", "qwen-plus", "free", 12);
    let callbacks = vec!["mcp_cls_search".to_string()];
    let tools = service.build_method_tools_for_agent(&callbacks, &agent);
    assert_eq!(
        tools,
        vec![
            "getCurrentDateTime".to_string(),
            "queryInternalDocs".to_string(),
            "queryPrometheusAlerts".to_string(),
            "queryMetricTrend".to_string(),
            "queryLogs".to_string(),
            "getAvailableLogTopics".to_string(),
            "mcp_cls_search".to_string(),
        ]
    );
}

#[test]
fn handoff_tools_are_named_after_their_agent() {
    assert_eq!(handoff_tool_name("metrics_agent"), "transfer_to_metrics_agent");
}

#[test]
fn the_task_prompt_appends_a_trimmed_alert_context() {
    let plain = build_task_prompt(None);
    let blank = build_task_prompt(Some("   "));
    assert_eq!(plain, blank);
    let with_context = build_task_prompt(Some("  CPU 告警  "));
    assert!(with_context.starts_with(&plain));
    assert!(with_context.contains("CPU 告警"));
    assert!(!with_context.contains("  CPU 告警  "));
}

#[test]
fn mcp_dependencies_are_recognised_by_name() {
    assert_eq!(mcp_dependency_name("Tavily_Search").as_deref(), Some("mcp-tavily"));
    assert_eq!(mcp_dependency_name("dbhub_execute_sql").as_deref(), Some("mcp-dbhub"));
    assert_eq!(mcp_dependency_name("list_TABLES").as_deref(), Some("mcp-dbhub"));
    assert!(mcp_dependency_name("plain_tool").is_none());
}

#[test]
fn handoff_requests_need_a_task() {
    let blank = handoff_request("metrics_agent", Ok(("  ".to_string(), None))).err().unwrap();
    let v: Value = serde_json::from_str(&blank).unwrap();
    assert_eq!(v["success"], false);
    assert_eq!(v["agent"], "metrics_agent");
    assert_eq!(v["errorCode"], "INVALID_ARGUMENT");
    assert_eq!(v["message"], "handoff task 不能为空");
    let bad = handoff_request("metrics_agent", Err("missing field `task`".to_string())).err().unwrap();
    let v: Value = serde_json::from_str(&bad).unwrap();
    assert_eq!(v["message"], "无法解析 handoff 参数: missing field `task`");
    let message = handoff_request(
        "metrics_agent",
        Ok((" check cpu ".to_string(), Some(" ev-1 ".to_string()))),
    )
    .ok()
    .unwrap();
    assert!(message.starts_with("## Supervisor 委派任务\ncheck cpu\n\n"));
    assert!(message.ends_with("## Supervisor 提供的上下文\nev-1"));
}

#[test]
fn handoff_results_are_recorded_and_reported() {
    let service = AiOpsService::new(&test_config());
    let agent = ReactAgent::new("metrics_agent", "qwen-plus", "metrics", 12).with_output_key("metrics_result");
    let mut state = OverAllState::new();
    let answer = service.handoff_result(&mut state, &agent, Ok("cpu high".to_string()));
    let v: Value = serde_json::from_str(&answer).unwrap();
    assert_eq!(v["success"], true);
    assert_eq!(v["agent"], "metrics_agent");
    assert_eq!(v["output"], "cpu high");
    assert_eq!(state.agent_output("metrics_agent").unwrap().text(), "cpu high");
    assert_eq!(state.assistant_message("metrics_result").unwrap().text(), "cpu high");

    let mut untouched = OverAllState::new();
    let failed = service.handoff_result(&mut untouched, &agent, Err("timeout".to_string()));
    let v: Value = serde_json::from_str(&failed).unwrap();
    assert_eq!(v["errorCode"], "AGENT_CALL_FAILED");
    assert!(untouched.agent_output("metrics_agent").is_none());
}

#[test]
fn failed_external_tools_become_dependency_errors() {
    assert_eq!(guarded_tool_output("mcp-dbhub", "execute_sql", Ok("rows".to_string())), "rows");
    let v: Value = serde_json::from_str(&guarded_tool_output(
        "mcp-dbhub",
        "execute_sql",
        Err("connection refused".to_string()),
    ))
    .unwrap();
    assert_eq!(v["errorCode"], "DEPENDENCY_ERROR");
    assert_eq!(v["dependency"], "mcp-dbhub");
    assert_eq!(v["tool"], "execute_sql");
    assert_eq!(v["message"], "connection refused");
}

#[test]
fn execute_ai_ops_analysis_without_api_key_returns_config_error() {
    let service = AiOpsService::new(&test_config());
    let error = service
        .chat_model()
        .require_api_key()
        .expect_err("缺少 DASHSCOPE_API_KEY 时应返回错误");
    assert!(error.contains("DASHSCOPE_API_KEY 未配置"));
    let mut config = test_config();
    config.dashscope_api_key = Some("test".to_string());
    assert_eq!(AiOpsService::new(&config).chat_model().require_api_key(), Ok("test".to_string()));
}

#[test]
fn handoff_tool_exposes_transfer_name_and_schema() {
    let agent = ReactAgent::new("metrics_agent", "qwen-plus", "metrics", 12)
        .with_description("负责指标诊断");
    assert_eq!(handoff_tool_name(agent.name()), "transfer_to_metrics_agent");
    let description = handoff_description(agent.name(), agent.description());
    assert!(description.starts_with("Delegate a focused subtask to metrics_agent. Capability: 负责指标诊断"));
}
