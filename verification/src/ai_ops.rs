//! The AI Ops team of agents: who the specialists are, which tools each
//! may use, what the supervisor is asked, and how delegations and tool
//! failures are written back to the model.
use vstd::prelude::*;

use crate::agent_runtime::{
    ReactAgent, SupervisorAgent, OverAllState, ReactAgentModel, AssistantMessage,
};
use crate::config::AppConfig;
use crate::diagnosis_report::{augment_alert_context, augment_spec};
use crate::json::{get, json_text, obj_get, set_field, str_of, to_json_string, JsonValue};
use crate::model::DiagnosisEvidence;
use crate::text::{
    append_str, chars_of, concat, contains, contains_chars, is_blank, is_blank_str, lowercase,
    string_of, to_lowercase, to_string, trim, trim_str, views,
};

verus! {

pub const TASK_PROMPT: &'static str = r##"你是企业级 SRE Supervisor，接到了自动化告警排查任务。
请按需通过 handoff 工具委派 metrics_agent、logs_agent、knowledge_agent、remediation_agent 等专业子 Agent 收集证据和建议，然后由你综合输出最终《告警分析报告》。
禁止编造虚假数据；连续多次查询失败需诚实反馈无法完成的原因。报告结论必须绑定 evidence id；证据不足时必须显式说明缺失证据。

最终输出必须是纯 Markdown，直接从 "# 告警分析报告" 开始，包含：
- 活跃告警清单
- 告警根因分析
- 处理方案执行或处理建议
- 结论、置信度、缺失证据、后续建议、风险评估
"##;

pub const METRICS_AGENT_PROMPT: &'static str = r##"你是 metrics_agent，负责 Prometheus 活跃告警、指标趋势和资源状态判断。

职责：
- 根据 Supervisor 委派任务和 {input} 中的告警上下文，查询必要的 Prometheus 指标或活跃告警。
- 对 CPU、内存、错误率、P99 延迟、重启次数等结论，优先调用 queryMetricTrend。
- 只有需要确认全局告警面、关联告警或 firing 状态时，才调用 queryPrometheusAlerts。
- 不要编造数据；工具失败或数据缺失必须如实说明。
- 工具返回中若包含 _diagnosisEvidenceId，输出中必须原样标注 [evidence: ev-xxxx]。

输出给 Supervisor 的内容应包含：关键指标、时间窗口、趋势判断、证据 id、仍缺少的指标证据。
"##;

pub const LOGS_AGENT_PROMPT: &'static str = r##"你是 logs_agent，负责日志主题选择、错误日志检索和日志证据摘要。

职责：
- 根据告警类型和 Supervisor 委派任务选择日志主题；能推断主题时直接 queryLogs，不能推断时才 getAvailableLogTopics。
- 主题推断：CPU/内存/磁盘 -> system-metrics；错误率/服务不可用/慢响应/下游依赖 -> application-logs；慢 SQL -> database-slow-query；OOMKilled/CrashLoop/重启/容器崩溃 -> system-events。
- 查询日志时使用连字符 region（如 ap-guangzhou）；不确定时省略 region 使用默认值。
- 不要编造日志；无结果或失败必须说明查询参数和失败原因。
- 工具返回中若包含 _diagnosisEvidenceId，输出中必须原样标注 [evidence: ev-xxxx]。

输出给 Supervisor 的内容应包含：查询主题、关键词/时间范围、关键日志片段摘要、证据 id、缺失证据。
"##;

pub const KNOWLEDGE_AGENT_PROMPT: &'static str = r##"你是 knowledge_agent，负责查询内部文档、Runbook 和历史处理建议。

职责：
- 只围绕 Supervisor 委派的问题查询 queryInternalDocs。
- 将文档、Runbook、历史案例中的建议与当前告警上下文区分开，不要把文档建议当作已验证事实。
- 工具返回中若包含 _diagnosisEvidenceId，输出中必须原样标注 [evidence: ev-xxxx]。

输出给 Supervisor 的内容应包含：相关文档结论、适用条件、处理建议、证据 id、不能确认的部分。
"##;

pub const REMEDIATION_AGENT_PROMPT: &'static str = r##"你是 remediation_agent，负责基于已有证据提出处理方案、风险和回滚建议。

职责：
- 不直接查询指标、日志或文档；只基于 Supervisor 提供的上下文、子 Agent 结果和当前时间进行分析。
- 将建议分为立即缓解、根因修复、验证步骤、回滚方案。
- 每个建议都要说明依赖的证据；证据不足时标注“证据不足”。
- 不要编造已执行动作。

输出给 Supervisor 的内容应包含：处理建议、预期效果、风险、回滚方式、仍需补充的证据。
"##;

pub const SUPERVISOR_OUTPUT_KEY: &'static str = "supervisor_output";

pub const PLANNER_PLAN_KEY: &'static str = "planner_plan";

pub const INPUT_KEY: &'static str = "input";

pub const CONTEXT_HEADING: &'static str = "\n\n## 当前告警上下文\n";

pub const CONTEXT_CLOSING: &'static str = "\n\n请基于以上告警上下文进行分析和处理。";

pub const HANDOFF_PREFIX: &'static str = "transfer_to_";

pub const HANDOFF_TASK_HEADING: &'static str = "## Supervisor 委派任务\n";

pub const HANDOFF_TASK_CLOSING: &'static str =
    "\n\n请只完成你的专业职责，返回可供 Supervisor 综合的证据、分析和不确定性；不要输出最终用户报告。";

pub const HANDOFF_CONTEXT_HEADING: &'static str = "\n\n## Supervisor 提供的上下文\n";

pub const DEFAULT_CAPABILITY: &'static str = "specialized AI Ops analysis";

pub const DEPENDENCY_DEFAULT_MSG: &'static str = "MCP tool dependency failed";

/// The model the AI Ops agents run on.
#[derive(Debug)]
pub struct AiOpsChatModel {
    pub api_key: Option<String>,
    pub base_url: String,
    pub model: String,
}

pub const MISSING_API_KEY: &'static str = "DASHSCOPE_API_KEY 未配置";

impl AiOpsChatModel {
    /// The API key the team's client is built with; an error where none is
    /// configured.
    pub fn require_api_key(&self) -> (r: Result<String, String>)
        ensures
            match self.api_key {
                Some(k) => r matches Ok(s) && s@ == k@,
                None => r matches Err(e) && e@ == MISSING_API_KEY@,
            },
    {
        match &self.api_key {
            Some(k) => Ok(k.clone()),
            None => Err(to_string(MISSING_API_KEY)),
        }
    }
}

/// The AI Ops settings.
pub struct AiOpsService {
    pub api_key: Option<String>,
    pub base_url: String,
    pub model: String,
    pub agent_max_turns: usize,
    pub max_rounds: usize,
    pub prometheus_base_url: String,
    pub prometheus_timeout_secs: u64,
    pub prometheus_mock_enabled: bool,
    pub cls_mock_enabled: bool,
}

fn clone_opt(o: &Option<String>) -> (r: Option<String>)
    ensures
        r == *o,
{
    match o {
        Some(s) => Some(s.clone()),
        None => None,
    }
}

/// The tools every agent of the team may be given.
pub open spec fn method_tools_spec(cls_enabled: bool) -> Seq<Seq<char>> {
    let base = seq![
        "getCurrentDateTime"@,
        "queryInternalDocs"@,
        "queryPrometheusAlerts"@,
        "queryMetricTrend"@,
    ];
    if cls_enabled {
        base + seq!["queryLogs"@, "getAvailableLogTopics"@]
    } else {
        base
    }
}

/// Whether an agent may call a tool, as a predicate on tool names.
pub open spec fn allowed_by(a: ReactAgentModel) -> spec_fn(Seq<char>) -> bool {
    |t: Seq<char>| a.allows(t)
}

/// A specialist of the team, as the contracts read it: its name, prompt,
/// description and allowed tools, with the team's tool lists and turns.
pub open spec fn specialist(
    a: ReactAgentModel,
    name: Seq<char>,
    prompt: Seq<char>,
    description: Seq<char>,
    allowed: Seq<Seq<char>>,
    model: Seq<char>,
    service: AiOpsService,
    callbacks: Seq<Seq<char>>,
) -> bool {
    &&& a.name == name
    &&& a.model == model
    &&& a.system_prompt == prompt
    &&& a.description == description
    &&& a.output_key is None
    &&& a.method_tools == method_tools_spec(service.cls_mock_enabled)
    &&& a.tool_callbacks == callbacks
    &&& a.allowed_tools == Some(allowed)
    &&& a.max_turns == service.agent_max_turns
}

impl AiOpsService {
    pub fn new(config: &AppConfig) -> (r: AiOpsService)
        ensures
            r.api_key == config.dashscope_api_key,
            r.base_url == config.dashscope_api_base_url,
            r.model == config.ai_ops_chat_model,
            r.agent_max_turns == config.ai_ops_agent_max_turns,
            r.max_rounds == config.ai_ops_max_rounds,
            r.prometheus_base_url == config.prometheus_base_url,
            r.prometheus_timeout_secs == config.prometheus_timeout_secs,
            r.prometheus_mock_enabled == config.prometheus_mock_enabled,
            r.cls_mock_enabled == config.cls_mock_enabled,
    {
        AiOpsService {
            api_key: clone_opt(&config.dashscope_api_key),
            base_url: config.dashscope_api_base_url.clone(),
            model: config.ai_ops_chat_model.clone(),
            agent_max_turns: config.ai_ops_agent_max_turns,
            max_rounds: config.ai_ops_max_rounds,
            prometheus_base_url: config.prometheus_base_url.clone(),
            prometheus_timeout_secs: config.prometheus_timeout_secs,
            prometheus_mock_enabled: config.prometheus_mock_enabled,
            cls_mock_enabled: config.cls_mock_enabled,
        }
    }

    /// The model the team runs on.
    pub fn chat_model(&self) -> (r: AiOpsChatModel)
        ensures
            r.api_key == self.api_key,
            r.base_url == self.base_url,
            r.model == self.model,
    {
        AiOpsChatModel {
            api_key: clone_opt(&self.api_key),
            base_url: self.base_url.clone(),
            model: self.model.clone(),
        }
    }

    /// The tools of the team: time, internal documents, Prometheus alerts
    /// and metric trends, and the two log tools where logs are mocked.
    pub fn build_method_tools_array(&self) -> (r: Vec<String>)
        ensures
            views(r@) == method_tools_spec(self.cls_mock_enabled),
    {
        let mut tools: Vec<String> = Vec::new();
        tools.push(to_string("getCurrentDateTime"));
        tools.push(to_string("queryInternalDocs"));
        tools.push(to_string("queryPrometheusAlerts"));
        tools.push(to_string("queryMetricTrend"));
        if self.cls_mock_enabled {
            tools.push(to_string("queryLogs"));
            tools.push(to_string("getAvailableLogTopics"));
        }
        assert(views(tools@) =~= method_tools_spec(self.cls_mock_enabled));
        tools
    }

    /// The external tool callbacks of the team: none are registered.
    pub fn tool_callbacks(&self) -> (r: Vec<String>)
        ensures
            r@.len() == 0,
    {
        Vec::new()
    }

    /// The tools an agent is given: those of the team (see
    /// `build_method_tools_array`) and the external ones, in that order,
    /// that the agent allows.
    pub fn build_method_tools_for_agent(&self, tool_callbacks: &Vec<String>, agent: &ReactAgent) -> (r:
        Vec<String>)
        ensures
            views(r@) == (method_tools_spec(self.cls_mock_enabled) + views(tool_callbacks@)).filter(
                allowed_by(agent@),
            ),
    {
        let mut all = self.build_method_tools_array();
        let mut i: usize = 0;
        while i < tool_callbacks.len()
            invariant
                i <= tool_callbacks.len(),
                views(all@) == method_tools_spec(self.cls_mock_enabled) + views(tool_callbacks@).take(i as int),
            decreases tool_callbacks.len() - i,
        {
            let ghost before = all@;
            let c = tool_callbacks[i].clone();
            assert(c@ == tool_callbacks@[i as int]@);
            all.push(c);
            assert(views(all@) =~= views(before).push(c@));
            assert(views(tool_callbacks@).take(i + 1) =~= views(tool_callbacks@).take(i as int).push(tool_callbacks@[i as int]@));
            assert(views(all@) =~= method_tools_spec(self.cls_mock_enabled) + views(tool_callbacks@).take(i + 1));
            i = i + 1;
        }
        assert(views(tool_callbacks@).take(tool_callbacks.len() as int) =~= views(tool_callbacks@));
        let ghost source = views(all@);
        let mut out: Vec<String> = Vec::new();
        let mut k: usize = 0;
        while k < all.len()
            invariant
                k <= all.len(),
                source == views(all@),
                views(out@) == source.take(k as int).filter(allowed_by(agent@)),
            decreases all.len() - k,
        {
            let keep = agent.allows_tool(all[k].as_str());
            proof {
                let s1 = source.take(k + 1);
                assert(s1.drop_last() =~= source.take(k as int));
                assert(s1.last() == all@[k as int]@);
                reveal(Seq::filter);
                assert(s1.filter(allowed_by(agent@)) == (if agent@.allows(s1.last()) {
                    s1.drop_last().filter(allowed_by(agent@)).push(s1.last())
                } else {
                    s1.drop_last().filter(allowed_by(agent@))
                }));
            }
            if keep {
                let ghost before = out@;
                out.push(all[k].clone());
                assert(views(out@) =~= views(before).push(all@[k as int]@));
            }
            k = k + 1;
        }
        assert(source.take(all.len() as int) =~= source);
        out
    }

    fn specialist_agent(
        &self,
        chat_model: &AiOpsChatModel,
        tool_callbacks: &Vec<String>,
        name: &str,
        prompt: &str,
        description: &str,
        allowed: Vec<String>,
    ) -> (r: ReactAgent)
        ensures
            specialist(
                r@,
                name@,
                prompt@,
                description@,
                views(allowed@),
                chat_model.model@,
                *self,
                views(tool_callbacks@),
            ),
    {
        ReactAgent::new(name, chat_model.model.as_str(), prompt, self.agent_max_turns)
            .with_description(description)
            .with_tool_metadata(self.build_method_tools_array(), crate::agent_runtime::clone_strings(tool_callbacks))
            .with_allowed_tools(allowed)
    }

    /// The metrics specialist.
    pub fn build_metrics_agent(&self, chat_model: &AiOpsChatModel, tool_callbacks: &Vec<String>) -> (r:
        ReactAgent)
        ensures
            specialist(
                r@,
                "metrics_agent"@,
                METRICS_AGENT_PROMPT@,
                "负责 Prometheus 活跃告警、指标趋势和资源状态判断"@,
                seq!["getCurrentDateTime"@, "queryPrometheusAlerts"@, "queryMetricTrend"@],
                chat_model.model@,
                *self,
                views(tool_callbacks@),
            ),
    {
        let allowed = vec![to_string("getCurrentDateTime"), to_string("queryPrometheusAlerts"), to_string("queryMetricTrend")];
        assert(views(allowed@) =~= seq!["getCurrentDateTime"@, "queryPrometheusAlerts"@, "queryMetricTrend"@]);
        self.specialist_agent(chat_model, tool_callbacks, "metrics_agent", METRICS_AGENT_PROMPT, "负责 Prometheus 活跃告警、指标趋势和资源状态判断", allowed)
    }

    /// The logs specialist.
    pub fn build_logs_agent(&self, chat_model: &AiOpsChatModel, tool_callbacks: &Vec<String>) -> (r:
        ReactAgent)
        ensures
            specialist(
                r@,
                "logs_agent"@,
                LOGS_AGENT_PROMPT@,
                "负责日志主题选择、错误日志检索和日志证据摘要"@,
                seq!["getCurrentDateTime"@, "getAvailableLogTopics"@, "queryLogs"@],
                chat_model.model@,
                *self,
                views(tool_callbacks@),
            ),
    {
        let allowed = vec![to_string("getCurrentDateTime"), to_string("getAvailableLogTopics"), to_string("queryLogs")];
        assert(views(allowed@) =~= seq!["getCurrentDateTime"@, "getAvailableLogTopics"@, "queryLogs"@]);
        self.specialist_agent(chat_model, tool_callbacks, "logs_agent", LOGS_AGENT_PROMPT, "负责日志主题选择、错误日志检索和日志证据摘要", allowed)
    }

    /// The knowledge specialist.
    pub fn build_knowledge_agent(&self, chat_model: &AiOpsChatModel, tool_callbacks: &Vec<String>) -> (r:
        ReactAgent)
        ensures
            specialist(
                r@,
                "knowledge_agent"@,
                KNOWLEDGE_AGENT_PROMPT@,
                "负责查询内部文档、Runbook 和历史处理建议"@,
                seq!["getCurrentDateTime"@, "queryInternalDocs"@],
                chat_model.model@,
                *self,
                views(tool_callbacks@),
            ),
    {
        let allowed = vec![to_string("getCurrentDateTime"), to_string("queryInternalDocs")];
        assert(views(allowed@) =~= seq!["getCurrentDateTime"@, "queryInternalDocs"@]);
        self.specialist_agent(chat_model, tool_callbacks, "knowledge_agent", KNOWLEDGE_AGENT_PROMPT, "负责查询内部文档、Runbook 和历史处理建议", allowed)
    }

    /// The remediation specialist.
    pub fn build_remediation_agent(&self, chat_model: &AiOpsChatModel, tool_callbacks: &Vec<String>) -> (r:
        ReactAgent)
        ensures
            specialist(
                r@,
                "remediation_agent"@,
                REMEDIATION_AGENT_PROMPT@,
                "负责根据已有证据提出处理方案、风险和回滚建议"@,
                seq!["getCurrentDateTime"@],
                chat_model.model@,
                *self,
                views(tool_callbacks@),
            ),
    {
        let allowed = vec![to_string("getCurrentDateTime")];
        assert(views(allowed@) =~= seq!["getCurrentDateTime"@]);
        self.specialist_agent(chat_model, tool_callbacks, "remediation_agent", REMEDIATION_AGENT_PROMPT, "负责根据已有证据提出处理方案、风险和回滚建议", allowed)
    }

    /// The specialists: metrics, knowledge and remediation, and logs where
    /// logs are mocked.
    pub fn build_ai_ops_sub_agents(&self, chat_model: &AiOpsChatModel, tool_callbacks: &Vec<String>) -> (r:
        Vec<ReactAgent>)
        ensures
            r@.len() == (if self.cls_mock_enabled {
                4int
            } else {
                3int
            }),
            specialist(
                r@[0]@,
                "metrics_agent"@,
                METRICS_AGENT_PROMPT@,
                "负责 Prometheus 活跃告警、指标趋势和资源状态判断"@,
                seq!["getCurrentDateTime"@, "queryPrometheusAlerts"@, "queryMetricTrend"@],
                chat_model.model@,
                *self,
                views(tool_callbacks@),
            ),
            specialist(
                r@[1]@,
                "knowledge_agent"@,
                KNOWLEDGE_AGENT_PROMPT@,
                "负责查询内部文档、Runbook 和历史处理建议"@,
                seq!["getCurrentDateTime"@, "queryInternalDocs"@],
                chat_model.model@,
                *self,
                views(tool_callbacks@),
            ),
            specialist(
                r@[2]@,
                "remediation_agent"@,
                REMEDIATION_AGENT_PROMPT@,
                "负责根据已有证据提出处理方案、风险和回滚建议"@,
                seq!["getCurrentDateTime"@],
                chat_model.model@,
                *self,
                views(tool_callbacks@),
            ),
            self.cls_mock_enabled ==> specialist(
                r@[3]@,
                "logs_agent"@,
                LOGS_AGENT_PROMPT@,
                "负责日志主题选择、错误日志检索和日志证据摘要"@,
                seq!["getCurrentDateTime"@, "getAvailableLogTopics"@, "queryLogs"@],
                chat_model.model@,
                *self,
                views(tool_callbacks@),
            ),
            forall|i: int| 0 <= i < r@.len() ==> (#[trigger] r@[i])@.max_turns == self.agent_max_turns
                && r@[i]@.model == chat_model.model@,
    {
        let mut agents: Vec<ReactAgent> = Vec::new();
        agents.push(self.build_metrics_agent(chat_model, tool_callbacks));
        agents.push(self.build_knowledge_agent(chat_model, tool_callbacks));
        agents.push(self.build_remediation_agent(chat_model, tool_callbacks));
        if self.cls_mock_enabled {
            agents.push(self.build_logs_agent(chat_model, tool_callbacks));
        }
        agents
    }

    /// The supervisor over the specialists; it may delegate twice the
    /// rounds of the configuration.
    pub fn build_supervisor_agent(&self, chat_model: &AiOpsChatModel, sub_agents: Vec<ReactAgent>) -> (r:
        SupervisorAgent)
        requires
            self.max_rounds * 2 <= usize::MAX,
        ensures
            r@.name == "ai_ops_supervisor"@,
            r@.description == "负责调度专业子 Agent 的多 Agent 控制器"@,
            r@.model == chat_model.model@,
            r@.system_prompt == crate::agent_runtime::SUPERVISOR_PROMPT@,
            r@.sub_agents == crate::agent_runtime::agent_views(sub_agents@),
            r@.max_turns == self.max_rounds * 2,
    {
        let prompt = SupervisorAgent::default_system_prompt();
        SupervisorAgent::builder()
            .name("ai_ops_supervisor")
            .description("负责调度专业子 Agent 的多 Agent 控制器")
            .model(chat_model.model.as_str())
            .system_prompt(prompt.as_str())
            .sub_agents(sub_agents)
            .max_turns(self.max_rounds * 2)
            .build()
    }

    /// The final report: the supervisor's output, else the planner's plan,
    /// trimmed; none where it is missing or blank.
    pub fn extract_final_report(&self, state: &OverAllState) -> (r: Option<String>)
        ensures
            match final_report_spec(state@) {
                Some(t) => r matches Some(s) && s@ == t,
                None => r is None,
            },
    {
        let message = match state.assistant_message(SUPERVISOR_OUTPUT_KEY) {
            Some(m) => Some(m),
            None => state.assistant_message(PLANNER_PLAN_KEY),
        };
        match message {
            Some(m) => {
                let report = trim_str(m.text());
                if report.as_str().is_empty() {
                    None
                } else {
                    Some(report)
                }
            },
            None => None,
        }
    }

    /// Writes an agent's output under its output key, if it has one.
    pub fn write_agent_output(&self, state: &mut OverAllState, agent: &ReactAgent, output: &str)
        ensures
            match agent@.output_key {
                Some(k) => final(state)@ == old(state)@.insert(
                    k,
                    crate::agent_runtime::StateValueModel::Message(output@),
                ),
                None => final(state)@ == old(state)@,
            },
    {
        match agent.output_key() {
            Some(key) => state.insert_assistant_message(key, output),
            None => {},
        }
    }
}

/// The final report a state holds: the supervisor's output, else the
/// planner's plan, where it is an assistant message; trimmed, and none
/// where it is blank.
pub open spec fn final_report_spec(state: Map<Seq<char>, crate::agent_runtime::StateValueModel>) -> Option<
    Seq<char>,
> {
    let m = match state.get(SUPERVISOR_OUTPUT_KEY@) {
        Some(crate::agent_runtime::StateValueModel::Message(t)) => Some(t),
        _ => match state.get(PLANNER_PLAN_KEY@) {
            Some(crate::agent_runtime::StateValueModel::Message(t)) => Some(t),
            _ => None,
        },
    };
    match m {
        Some(t) => if trim(t).len() > 0 {
            Some(trim(t))
        } else {
            None
        },
        None => None,
    }
}

/// The task the supervisor is given: the task prompt, then the alert
/// context, trimmed, where one that is not blank is given.
pub open spec fn task_prompt_spec(alert_context: Option<Seq<char>>) -> Seq<char> {
    match alert_context {
        Some(c) => if trim(c).len() > 0 {
            TASK_PROMPT@ + CONTEXT_HEADING@ + trim(c) + CONTEXT_CLOSING@
        } else {
            TASK_PROMPT@
        },
        None => TASK_PROMPT@,
    }
}

/// The task the supervisor is given (see `task_prompt_spec`).
pub fn build_task_prompt(alert_context: Option<&str>) -> (r: String)
    ensures
        r@ == task_prompt_spec(
            match alert_context {
                Some(c) => Some(c@),
                None => None,
            },
        ),
{
    match alert_context {
        Some(c) => {
            let t = trim_str(c);
            if t.as_str().is_empty() {
                return to_string(TASK_PROMPT);
            }
            let mut v = chars_of(TASK_PROMPT);
            append_str(&mut v, CONTEXT_HEADING);
            append_str(&mut v, t.as_str());
            append_str(&mut v, CONTEXT_CLOSING);
            string_of(&v)
        },
        None => to_string(TASK_PROMPT),
    }
}

/// The alert context of a diagnosis run: with the run's evidence appended
/// when the run is named and its evidence is at hand, else as given.
pub fn build_evidence_bound_alert_context(
    alert_context: Option<&str>,
    incident_id: &str,
    run_id: &str,
    evidence: Option<&Vec<DiagnosisEvidence>>,
) -> (r: String)
    ensures
        ({
            let ctx = match alert_context {
                Some(c) => c@,
                None => ""@,
            };
            if is_blank(incident_id@) || is_blank(run_id@) || evidence is None {
                r@ == ctx
            } else {
                r@ == augment_spec(ctx, evidence.unwrap()@)
            }
        }),
{
    let ctx = match alert_context {
        Some(c) => c,
        None => "",
    };
    if is_blank_str(incident_id) || is_blank_str(run_id) {
        return to_string(ctx);
    }
    match evidence {
        None => to_string(ctx),
        Some(ev) => augment_alert_context(ctx, ev.as_slice()),
    }
}

/// Whether a run's tools are to record evidence: a collector is at hand and
/// the incident and run are named.
pub fn records_evidence(has_collector: bool, incident_id: &str, run_id: &str) -> (r: bool)
    ensures
        r == (has_collector && !is_blank(incident_id@) && !is_blank(run_id@)),
{
    has_collector && !is_blank_str(incident_id) && !is_blank_str(run_id)
}

/// Writes the supervisor's report into the state, unless it is blank.
pub fn record_supervisor_output(state: &mut OverAllState, report: &str)
    ensures
        is_blank(report@) ==> final(state)@ == old(state)@,
        !is_blank(report@) ==> final(state)@ == old(state)@.insert(
            SUPERVISOR_OUTPUT_KEY@,
            crate::agent_runtime::StateValueModel::Message(report@),
        ),
{
    if !is_blank_str(report) {
        state.insert_assistant_message(SUPERVISOR_OUTPUT_KEY, report);
    }
}

/// The name of the tool that hands work to `agent_name`.
pub fn handoff_tool_name(agent_name: &str) -> (r: String)
    ensures
        r@ == HANDOFF_PREFIX@ + agent_name@,
{
    concat(HANDOFF_PREFIX, agent_name)
}

/// The message a specialist is sent: the task, trimmed, its duty, and the
/// context, trimmed, where one that is not blank is given.
pub open spec fn handoff_message_spec(task: Seq<char>, context: Option<Seq<char>>) -> Seq<char> {
    let base = HANDOFF_TASK_HEADING@ + trim(task) + HANDOFF_TASK_CLOSING@;
    match context {
        Some(c) => if trim(c).len() > 0 {
            base + HANDOFF_CONTEXT_HEADING@ + trim(c)
        } else {
            base
        },
        None => base,
    }
}

/// The message a specialist is sent (see `handoff_message_spec`).
pub fn format_message(task: &str, context: Option<&str>) -> (r: String)
    ensures
        r@ == handoff_message_spec(
            task@,
            match context {
                Some(c) => Some(c@),
                None => None,
            },
        ),
{
    let mut v = chars_of(HANDOFF_TASK_HEADING);
    let t = trim_str(task);
    append_str(&mut v, t.as_str());
    append_str(&mut v, HANDOFF_TASK_CLOSING);
    match context {
        Some(c) => {
            let ct = trim_str(c);
            if !ct.as_str().is_empty() {
                append_str(&mut v, HANDOFF_CONTEXT_HEADING);
                append_str(&mut v, ct.as_str());
            }
        },
        None => {},
    }
    string_of(&v)
}

/// How the hand-off tool to an agent describes itself.
pub fn handoff_description(agent_name: &str, agent_description: &str) -> (r: String)
    ensures
        r@ == "Delegate a focused subtask to "@ + agent_name@ + ". Capability: "@ + (if is_blank(
            agent_description@,
        ) {
            DEFAULT_CAPABILITY@
        } else {
            agent_description@
        }) + ". Returns that agent's evidence and analysis for the supervisor to synthesize."@,
{
    let mut v = chars_of("Delegate a focused subtask to ");
    append_str(&mut v, agent_name);
    append_str(&mut v, ". Capability: ");
    if is_blank_str(agent_description) {
        append_str(&mut v, DEFAULT_CAPABILITY);
    } else {
        append_str(&mut v, agent_description);
    }
    append_str(&mut v, ". Returns that agent's evidence and analysis for the supervisor to synthesize.");
    string_of(&v)
}

/// The external dependency a tool stands for, by its name: the web search
/// service, or the database service.
pub open spec fn mcp_dependency_spec(haystack: Seq<char>) -> Option<Seq<char>> {
    let h = lowercase(haystack);
    if contains(h, "tavily"@) {
        Some("mcp-tavily"@)
    } else if contains(h, "dbhub"@) || contains(h, "bytebase"@) || contains(h, "execute_sql"@)
        || contains(h, "execute sql"@) || contains(h, "readonly sql"@) || contains(h, "read-only sql"@)
        || contains(h, "database schema"@) || contains(h, "list_tables"@) || contains(h, "describe_table"@) {
        Some("mcp-dbhub"@)
    } else {
        None
    }
}

fn has(t: &Vec<char>, needle: &str) -> (r: bool)
    ensures
        r == contains(t@, needle@),
{
    contains_chars(t, &chars_of(needle))
}

/// The external dependency a tool stands for (see `mcp_dependency_spec`).
pub fn mcp_dependency_name(haystack: &str) -> (r: Option<String>)
    ensures
        match r {
            Some(s) => mcp_dependency_spec(haystack@) == Some(s@),
            None => mcp_dependency_spec(haystack@) is None,
        },
{
    let lower = to_lowercase(haystack);
    let h = chars_of(lower.as_str());
    if has(&h, "tavily") {
        return Some(to_string("mcp-tavily"));
    }
    if has(&h, "dbhub") || has(&h, "bytebase") || has(&h, "execute_sql") || has(&h, "execute sql")
        || has(&h, "readonly sql") || has(&h, "read-only sql") || has(&h, "database schema")
        || has(&h, "list_tables") || has(&h, "describe_table") {
        return Some(to_string("mcp-dbhub"));
    }
    None
}

/// `v` is an object with the string fields `keys`, valued `values`, the
/// boolean field `success`, false, and no other field.
pub open spec fn is_failure_object(v: JsonValue, keys: Seq<Seq<char>>, values: Seq<Seq<char>>) -> bool {
    match v {
        JsonValue::Object(f) => {
            &&& obj_get(f@, "success"@) == Some(JsonValue::Bool(false))
            &&& forall|i: int| 0 <= i < keys.len() ==> str_of(obj_get(f@, #[trigger] keys[i])) == Some(values[i])
            &&& forall|k: Seq<char>| #[trigger] obj_get(f@, k) is Some ==> k == "success"@ || exists|i: int| 0 <= i < keys.len() && keys[i] == k
        },
        _ => false,
    }
}

proof fn lemma_error_field_names()
    ensures
        "success"@.len() == 7 && "success"@[0] == 's',
        "agent"@.len() == 5,
        "errorCode"@.len() == 9,
        "message"@.len() == 7 && "message"@[0] == 'm',
        "dependency"@.len() == 10,
        "tool"@.len() == 4,
{
    reveal_strlit("dependency");
    reveal_strlit("tool");
    reveal_strlit("success");
    reveal_strlit("agent");
    reveal_strlit("errorCode");
    reveal_strlit("message");
}

/// A failed hand-off, as the tool answers it: not successful, the agent,
/// the error code and the message.
pub fn handoff_error_json(agent_name: &str, error_code: &str, message: &str) -> (r: String)
    ensures
        exists|v: JsonValue|
            is_failure_object(
                v,
                seq!["agent"@, "errorCode"@, "message"@],
                seq![agent_name@, error_code@, message@],
            ) && r@ == json_text(v),
{
    proof {
        lemma_error_field_names();
    }
    let mut f: Vec<(String, JsonValue)> = Vec::new();
    let ghost f0 = f@;
    set_field(&mut f, "success", JsonValue::Bool(false));
    let ghost f1 = f@;
    set_field(&mut f, "agent", JsonValue::Str(to_string(agent_name)));
    let ghost f2 = f@;
    set_field(&mut f, "errorCode", JsonValue::Str(to_string(error_code)));
    let ghost f3 = f@;
    set_field(&mut f, "message", JsonValue::Str(to_string(message)));
    let ghost keys = seq!["agent"@, "errorCode"@, "message"@];
    proof {
        assert forall|k: Seq<char>| #[trigger] obj_get(f@, k) is Some implies k == "success"@ || exists|i: int| 0 <= i < keys.len() && keys[i] == k by {
            if k != "success"@ && k != "agent"@ && k != "errorCode"@ && k != "message"@ {
                assert(obj_get(f0, k) is None);
                assert(obj_get(f@, k) == obj_get(f3, k));
                assert(obj_get(f3, k) == obj_get(f2, k));
                assert(obj_get(f2, k) == obj_get(f1, k));
                assert(obj_get(f1, k) == obj_get(f0, k));
            } else if k == "agent"@ {
                assert(keys[0] == k);
            } else if k == "errorCode"@ {
                assert(keys[1] == k);
            } else if k == "message"@ {
                assert(keys[2] == k);
            }
        }
        assert(obj_get(f@, "success"@) == obj_get(f1, "success"@));
        assert(obj_get(f@, "agent"@) == obj_get(f2, "agent"@));
        assert(obj_get(f@, "errorCode"@) == obj_get(f3, "errorCode"@));
    }
    let v = JsonValue::Object(f);
    let r = to_json_string(&v);
    assert(is_failure_object(v, keys, seq![agent_name@, error_code@, message@]));
    r
}

/// A failed call of an external tool, as it is answered to the model: not
/// successful, the error code, the dependency, the tool and the message (a
/// fixed one where it is blank).
pub fn dependency_error_json(dependency: &str, operation: &str, error_code: &str, message: &str) -> (r:
    String)
    ensures
        exists|v: JsonValue|
            is_failure_object(
                v,
                seq!["errorCode"@, "dependency"@, "tool"@, "message"@],
                seq![
                    error_code@,
                    dependency@,
                    operation@,
                    if is_blank(message@) {
                        DEPENDENCY_DEFAULT_MSG@
                    } else {
                        message@
                    },
                ],
            ) && r@ == json_text(v),
{
    proof {
        lemma_error_field_names();
    }
    let text = if is_blank_str(message) {
        to_string(DEPENDENCY_DEFAULT_MSG)
    } else {
        to_string(message)
    };
    let mut f: Vec<(String, JsonValue)> = Vec::new();
    let ghost f0 = f@;
    set_field(&mut f, "success", JsonValue::Bool(false));
    let ghost f1 = f@;
    set_field(&mut f, "errorCode", JsonValue::Str(to_string(error_code)));
    let ghost f2 = f@;
    set_field(&mut f, "dependency", JsonValue::Str(to_string(dependency)));
    let ghost f3 = f@;
    set_field(&mut f, "tool", JsonValue::Str(to_string(operation)));
    let ghost f4 = f@;
    set_field(&mut f, "message", JsonValue::Str(text));
    let ghost keys = seq!["errorCode"@, "dependency"@, "tool"@, "message"@];
    proof {
        assert forall|k: Seq<char>| #[trigger] obj_get(f@, k) is Some implies k == "success"@ || exists|i: int| 0 <= i < keys.len() && keys[i] == k by {
            if k != "success"@ && k != "errorCode"@ && k != "dependency"@ && k != "tool"@ && k != "message"@ {
                assert(obj_get(f0, k) is None);
                assert(obj_get(f@, k) == obj_get(f4, k));
                assert(obj_get(f4, k) == obj_get(f3, k));
                assert(obj_get(f3, k) == obj_get(f2, k));
                assert(obj_get(f2, k) == obj_get(f1, k));
                assert(obj_get(f1, k) == obj_get(f0, k));
            } else if k == "errorCode"@ {
                assert(keys[0] == k);
            } else if k == "dependency"@ {
                assert(keys[1] == k);
            } else if k == "tool"@ {
                assert(keys[2] == k);
            } else if k == "message"@ {
                assert(keys[3] == k);
            }
        }
        assert(obj_get(f@, "success"@) == obj_get(f1, "success"@));
        assert(obj_get(f@, "errorCode"@) == obj_get(f2, "errorCode"@));
        assert(obj_get(f@, "dependency"@) == obj_get(f3, "dependency"@));
        assert(obj_get(f@, "tool"@) == obj_get(f4, "tool"@));
    }
    let v = JsonValue::Object(f);
    let r = to_json_string(&v);
    assert(is_failure_object(v, keys, seq![error_code@, dependency@, operation@, if is_blank(message@) {
        DEPENDENCY_DEFAULT_MSG@
    } else {
        message@
    }]));
    r
}

/// What a call of an external tool answers the model: its output, or, where
/// it failed, a dependency error naming the dependency, the tool and the
/// failure (see `dependency_error_json`).
pub fn guarded_tool_output(dependency: &str, tool_name: &str, outcome: Result<String, String>) -> (r:
    String)
    ensures
        match outcome {
            Ok(o) => r == o,
            Err(e) => exists|v: JsonValue|
                is_failure_object(
                    v,
                    seq!["errorCode"@, "dependency"@, "tool"@, "message"@],
                    seq![
                        "DEPENDENCY_ERROR"@,
                        dependency@,
                        tool_name@,
                        if is_blank(e@) {
                            DEPENDENCY_DEFAULT_MSG@
                        } else {
                            e@
                        },
                    ],
                ) && r@ == json_text(v),
        },
{
    match outcome {
        Ok(o) => o,
        Err(e) => dependency_error_json(dependency, tool_name, "DEPENDENCY_ERROR", e.as_str()),
    }
}

pub const INVALID_ARGUMENT: &'static str = "INVALID_ARGUMENT";

pub const AGENT_CALL_FAILED: &'static str = "AGENT_CALL_FAILED";

pub const BLANK_TASK: &'static str = "handoff task 不能为空";

pub const BAD_ARGUMENTS_PREFIX: &'static str = "无法解析 handoff 参数: ";

/// `j` is the failed hand-off to `agent` answered with `code` and `message`.
pub open spec fn is_handoff_error(j: Seq<char>, agent: Seq<char>, code: Seq<char>, message: Seq<char>) -> bool {
    exists|v: JsonValue|
        is_failure_object(v, seq!["agent"@, "errorCode"@, "message"@], seq![agent, code, message])
            && j == json_text(v)
}

/// What a hand-off to `agent_name` sends its specialist, given how its
/// arguments read (the task and its context, or why they could not be
/// read): the message, or the failure the supervisor is answered where
/// they could not be read or the task is blank.
pub fn handoff_request(agent_name: &str, parsed: Result<(String, Option<String>), String>) -> (r:
    Result<String, String>)
    ensures
        match parsed {
            Err(e) => r matches Err(j) && is_handoff_error(
                j@,
                agent_name@,
                INVALID_ARGUMENT@,
                BAD_ARGUMENTS_PREFIX@ + e@,
            ),
            Ok(args) => if is_blank(args.0@) {
                r matches Err(j) && is_handoff_error(j@, agent_name@, INVALID_ARGUMENT@, BLANK_TASK@)
            } else {
                r matches Ok(m) && m@ == handoff_message_spec(
                    args.0@,
                    match args.1 {
                        Some(c) => Some(c@),
                        None => None,
                    },
                )
            },
        },
{
    match parsed {
        Err(e) => {
            let message = concat(BAD_ARGUMENTS_PREFIX, e.as_str());
            Err(handoff_error_json(agent_name, INVALID_ARGUMENT, message.as_str()))
        },
        Ok((task, context)) => {
            if is_blank_str(task.as_str()) {
                Err(handoff_error_json(agent_name, INVALID_ARGUMENT, BLANK_TASK))
            } else {
                let c = match &context {
                    Some(c) => Some(c.as_str()),
                    None => None,
                };
                Ok(format_message(task.as_str(), c))
            }
        },
    }
}

/// `j` is the successful hand-off to `agent` that produced `output`.
pub open spec fn is_handoff_success(j: Seq<char>, agent: Seq<char>, output: Seq<char>) -> bool {
    exists|v: JsonValue|
        {
            &&& v matches JsonValue::Object(f) && f@.len() == 3 && f@[0].0@ == "success"@ && f@[0].1
                == JsonValue::Bool(true) && f@[1].0@ == "agent"@ && str_of(Some(f@[1].1)) == Some(
                agent,
            ) && f@[2].0@ == "output"@ && str_of(Some(f@[2].1)) == Some(output)
            &&& j == json_text(v)
        }
}

impl AiOpsService {
    /// Takes in what a specialist answered a hand-off: its output is
    /// recorded in the state, under the agent's name and under its output
    /// key where it has one, and the supervisor is told; a failure is
    /// answered as such and leaves the state as it was.
    pub fn handoff_result(&self, state: &mut OverAllState, agent: &ReactAgent, output: Result<String, String>) -> (r:
        String)
        ensures
            match output {
                Ok(o) => {
                    &&& is_handoff_success(r@, agent@.name, o@)
                    &&& final(state)@ == ({
                        let recorded = old(state)@.insert(
                            crate::agent_runtime::agent_output_key_spec(agent@.name),
                            crate::agent_runtime::StateValueModel::Message(o@),
                        );
                        match agent@.output_key {
                            Some(k) => recorded.insert(
                                k,
                                crate::agent_runtime::StateValueModel::Message(o@),
                            ),
                            None => recorded,
                        }
                    })
                },
                Err(e) => is_handoff_error(r@, agent@.name, AGENT_CALL_FAILED@, e@) && final(state)@
                    == old(state)@,
            },
    {
        match output {
            Ok(o) => {
                state.record_agent_output(agent.name(), o.as_str());
                self.write_agent_output(state, agent, o.as_str());
                let mut f: Vec<(String, JsonValue)> = Vec::new();
                f.push((to_string("success"), JsonValue::Bool(true)));
                f.push((to_string("agent"), JsonValue::Str(to_string(agent.name()))));
                f.push((to_string("output"), JsonValue::Str(o)));
                let v = JsonValue::Object(f);
                let r = to_json_string(&v);
                assert(v matches JsonValue::Object(f) && f@.len() == 3 && f@[0].0@ == "success"@
                    && f@[0].1 == JsonValue::Bool(true) && f@[1].0@ == "agent"@ && str_of(
                    Some(f@[1].1),
                ) == Some(agent@.name) && f@[2].0@ == "output"@ && str_of(Some(f@[2].1)) == Some(
                    o@,
                ));
                r
            },
            Err(e) => handoff_error_json(agent.name(), AGENT_CALL_FAILED, e.as_str()),
        }
    }
}

} // verus!
