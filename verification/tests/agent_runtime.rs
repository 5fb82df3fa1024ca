use oncall_agent_rs::agent_runtime::{OverAllState, ReactAgent, SupervisorAgent};

#[test]
fn react_agent_keeps_core_configuration() {
    let agent = ReactAgent::new("planner_agent", "qwen-plus", "plan prompt", 12)
        .with_description("负责拆解告警、规划与再规划步骤")
        .with_output_key("planner_plan")
        .with_allowed_tools(vec!["queryMetricTrend".to_string()]);

    assert_eq!(agent.name(), "planner_agent");
    assert_eq!(agent.description(), "负责拆解告警、规划与再规划步骤");
    assert_eq!(agent.model(), "qwen-plus");
    assert_eq!(agent.system_prompt(), "plan prompt");
    assert_eq!(agent.preamble(), "plan prompt");
    assert_eq!(agent.output_key(), Some("planner_plan"));
    assert_eq!(agent.max_turns(), 12);
    assert!(agent.method_tools().is_empty());
    assert!(agent.tool_callbacks().is_empty());
    assert_eq!(
        agent.allowed_tools(),
        Some(&["queryMetricTrend".to_string()][..])
    );
    assert!(agent.allows_tool("queryMetricTrend"));
    assert!(!agent.allows_tool("queryLogs"));
}

#[test]
fn react_agent_keeps_tool_metadata() {
    let agent = ReactAgent::new("executor_agent", "qwen-plus", "exec prompt", 12).with_tool_metadata(
        vec!["queryMetricTrend".to_string()],
        vec!["mcp".to_string()],
    );

    assert_eq!(agent.method_tools(), &["queryMetricTrend".to_string()]);
    assert_eq!(agent.tool_callbacks(), &["mcp".to_string()]);
}

#[test]
fn overall_state_stores_assistant_messages() {
    let mut state = OverAllState::new();
    state.insert_assistant_message("planner_plan", "report");
    state.record_agent_output("metrics_agent", "metrics");

    let message = state
        .assistant_message("planner_plan")
        .expect("planner_plan should be an assistant message");
    assert_eq!(message.text(), "report");
    assert_eq!(
        state
            .agent_output("metrics_agent")
            .expect("metrics agent output")
            .text(),
        "metrics"
    );
}

#[test]
fn overall_state_renders_prompt_templates() {
    let mut state = OverAllState::new();
    state.insert_text("input", "task");
    state.insert_assistant_message("planner_plan", "plan");
    state.insert_assistant_message("executor_feedback", "feedback");

    assert_eq!(
        state.render_template("{input}|{planner_plan}|{executor_feedback}"),
        "task|plan|feedback"
    );
}

#[test]
fn supervisor_agent_keeps_sub_agents() {
    let metrics = ReactAgent::new("metrics_agent", "qwen-plus", "metrics", 12)
        .with_description("负责指标诊断");
    let knowledge = ReactAgent::new("knowledge_agent", "qwen-plus", "knowledge", 12)
        .with_description("负责知识库检索");
    let supervisor = SupervisorAgent::builder()
        .name("ai_ops_supervisor")
        .description("负责调度专业子 Agent 的多 Agent 控制器")
        .model("qwen-plus")
        .system_prompt("supervisor")
        .sub_agents(vec![metrics, knowledge])
        .max_turns(12)
        .build();

    assert_eq!(supervisor.name(), "ai_ops_supervisor");
    assert_eq!(
        supervisor.description(),
        "负责调度专业子 Agent 的多 Agent 控制器"
    );
    assert_eq!(supervisor.system_prompt(), "supervisor");
    assert_eq!(supervisor.sub_agents().len(), 2);
    assert_eq!(
        supervisor
            .sub_agent("metrics_agent")
            .expect("metrics agent")
            .description(),
        "负责指标诊断"
    );
}

#[test]
fn supervisor_agent_builds_handoff_preamble_from_sub_agents() {
    let metrics = ReactAgent::new("metrics_agent", "qwen-plus", "metrics", 12)
        .with_description("负责 Prometheus 指标诊断");
    let logs =
        ReactAgent::new("logs_agent", "qwen-plus", "logs", 12).with_description("负责日志检索");
    let supervisor = SupervisorAgent::builder()
        .name("ai_ops_supervisor")
        .description("负责调度专业子 Agent 的多 Agent 控制器")
        .model("qwen-plus")
        .system_prompt("supervisor")
        .sub_agents(vec![metrics, logs])
        .max_turns(12)
        .build();

    let preamble = supervisor.build_handoff_preamble();

    assert!(preamble.contains("- metrics_agent: 负责 Prometheus 指标诊断"));
    assert!(preamble.contains("- logs_agent: 负责日志检索"));
    assert!(preamble.contains("transfer_to_<agent_name>"));
    assert!(preamble.contains("最终答案必须由你输出"));
}

#[test]
fn state_keeps_last_value_of_a_key() {
    let mut state = OverAllState::new();
    state.insert_text("input", "first");
    state.insert_text("input", "second");
    assert_eq!(state.text("input"), Some("second"));
    assert_eq!(state.text_or_empty("missing"), "");
}

#[test]
fn render_template_leaves_unknown_placeholders() {
    let mut state = OverAllState::new();
    state.insert_text("input", "task");
    assert_eq!(state.render_template("{input} {other}"), "task {other}");
}
