use oncall_agent_rs::chat::{
    chat_question, offline_answer, ChatService, ChatStreamEvent, StreamAction, StreamState,
    DEFAULT_SYSTEM_PROMPT,
};
use oncall_agent_rs::config::AppConfig;
use oncall_agent_rs::model::ChatMessage;

fn test_config() -> AppConfig {
    AppConfig {
        host: [127, 0, 0, 1],
        port: 3000,
        allowed_origin: "*".to_string(),
        request_timeout_secs: 30,
        log_filter: "info".to_string(),
        static_dir: "./static".to_string(),
        redis_url: None,
        chat_history_path: "./data/test-chat-history".to_string(),
        session_ttl_secs: 3600,
        dashscope_api_key: None,
        dashscope_base_url: "https://dashscope.aliyuncs.com/compatible-mode/v1".to_string(),
        dashscope_api_base_url: "https://anyrouter.top/v1".to_string(),
        dashscope_responses_rectifier_enabled: false,
        dashscope_chat_model: "GPT-5.5".to_string(),
        chat_agent_max_turns: 6,
        dashscope_embedding_model: "text-embedding-v4".to_string(),
        dashscope_rerank_model: "gte-rerank-v2".to_string(),
        dashscope_rerank_url:
            "https://dashscope.aliyuncs.com/api/v1/services/rerank/text-rerank/text-rerank"
                .to_string(),
        milvus_host: "localhost".to_string(),
        milvus_port: 19530,
        milvus_username: String::new(),
        milvus_password: String::new(),
        milvus_database: "default".to_string(),
        milvus_timeout_ms: 5000,
        rag_candidate_k: 20,
        rag_search_ef: 64,
        upload_path: "./data/uploads".to_string(),
        upload_allowed_extensions: vec!["md".to_string(), "txt".to_string()],
        document_chunk_max_size: 800,
        document_chunk_overlap: 120,
        private_memory_recall_enabled: false,
        private_memory_recall_top_k: 5,
        private_memory_store_path: "./data/private-memory".to_string(),
        prometheus_base_url: "http://localhost:9090".to_string(),
        prometheus_timeout_secs: 5,
        prometheus_mock_enabled: true,
        cls_mock_enabled: true,
        ai_ops_chat_model: "qwen-plus".to_string(),
        ai_ops_agent_max_turns: 12,
        ai_ops_max_rounds: 8,
    }
}

#[test]
fn build_system_prompt_includes_private_memories() {
    let service = ChatService::new(&test_config());
    let prompt = service.build_system_prompt(
        DEFAULT_SYSTEM_PROMPT,
        &[ChatMessage { role: "user".to_string(), content: "继续上次的话题".to_string() }],
        &vec!["[用户私人记忆] 用户偏好使用中文回答".to_string()],
    );

    assert!(prompt.contains("--- 私人记忆 ---"));
    assert!(prompt.contains("[用户私人记忆] 用户偏好使用中文回答"));
    assert!(prompt.contains("--- 对话历史 ---"));
}

#[test]
fn create_react_agent_keeps_system_prompt() {
    let service = ChatService::new(&test_config());
    let agent = service.create_react_agent("qwen-plus", "prompt-with-history");

    assert_eq!(agent.name(), "intelligent_assistant");
    assert_eq!(agent.model(), "qwen-plus");
    assert_eq!(agent.preamble(), "prompt-with-history");
    assert_eq!(agent.max_turns(), 6);
    assert_eq!(agent.description(), "");
    assert_eq!(agent.output_key(), None);
    assert!(agent.allowed_tools().is_none());
    assert!(agent.allows_tool("queryInternalDocs"));
    assert_eq!(
        agent.method_tools(),
        vec!["getCurrentDateTime".to_string(), "queryInternalDocs".to_string()]
    );
    assert!(agent.tool_callbacks().is_empty());
}

#[test]
fn a_prompt_without_history_ends_with_the_closing_line() {
    let service = ChatService::new(&test_config());
    let prompt = service.build_system_prompt("base", &[], &vec!["  ".to_string()]);
    assert_eq!(
        prompt,
        "base\n\n--- 私人记忆 ---\n--- 私人记忆结束 ---\n\n请基于以上对话历史，回答用户的新问题。"
    );
}

#[test]
fn the_history_is_labelled_by_role() {
    let service = ChatService::new(&test_config());
    let prompt = service.build_system_prompt(
        "base",
        &[
            ChatMessage { role: "user".to_string(), content: "q".to_string() },
            ChatMessage { role: "assistant".to_string(), content: "a".to_string() },
        ],
        &Vec::new(),
    );
    assert_eq!(
        prompt,
        "base\n\n--- 对话历史 ---\n用户: q\n助手: a\n--- 对话历史结束 ---\n\n请基于以上对话历史，回答用户的新问题。"
    );
}

#[test]
fn the_service_reads_its_settings() {
    let service = ChatService::new(&test_config());
    assert_eq!(service.base_url, "https://anyrouter.top/v1");
    assert_eq!(service.chat_model(), "GPT-5.5");
    assert!(service.get_tool_callbacks().is_empty());
}

#[test]
fn questions_are_trimmed_and_blank_ones_refused() {
    assert_eq!(chat_question(Some("  hi  ")), Ok("hi".to_string()));
    assert_eq!(chat_question(Some("   ")), Err("问题内容不能为空".to_string()));
    assert_eq!(chat_question(None), Err("问题内容不能为空".to_string()));
}

#[test]
fn a_stream_collects_what_it_sends() {
    let mut state = StreamState::new();
    assert!(matches!(state.step(Ok(ChatStreamEvent::Content("Hel".to_string()))), StreamAction::Emit(t) if t == "Hel"));
    assert!(matches!(state.step(Ok(ChatStreamEvent::Content(String::new()))), StreamAction::Nothing));
    assert!(matches!(state.step(Ok(ChatStreamEvent::Content("lo".to_string()))), StreamAction::Emit(t) if t == "lo"));
    assert_eq!(state.full_answer, "Hello");
    assert!(matches!(state.step(Ok(ChatStreamEvent::Final("Hello!".to_string()))), StreamAction::Nothing));
    assert_eq!(state.finish(), ("Hello!".to_string(), None));
}

#[test]
fn a_stream_with_only_a_final_answer_sends_it_at_the_end() {
    let mut state = StreamState::new();
    state.step(Ok(ChatStreamEvent::Final("done".to_string())));
    assert_eq!(state.finish(), ("done".to_string(), Some("done".to_string())));
    let mut failing = StreamState::new();
    assert!(matches!(failing.step(Err("boom".to_string())), StreamAction::Stop(e) if e == "boom"));
    assert_eq!(StreamState::new().finish(), (String::new(), None));
}

/// The events a chat without a model API key streams: the echoed question
/// as content, then as the final answer.
fn offline_events(question: &str) -> Vec<ChatStreamEvent> {
    let answer = offline_answer(question);
    vec![ChatStreamEvent::Content(answer.clone()), ChatStreamEvent::Final(answer)]
}

#[test]
fn stream_chat_without_api_key_emits_placeholder_content() {
    let service = ChatService::new(&test_config());
    let agent = service.create_react_agent("qwen-plus", "prompt");
    assert_eq!(agent.model(), "qwen-plus");
    let mut state = StreamState::new();
    let mut content_chunks = Vec::new();
    for event in offline_events("继续上次的话题") {
        if let StreamAction::Emit(chunk) = state.step(Ok(event)) {
            content_chunks.push(chunk);
        }
    }
    assert!(!content_chunks.is_empty());
    assert!(content_chunks.join("").contains("继续上次的话题"));
}

#[test]
fn stream_chat_final_matches_streamed_content_without_api_key() {
    let mut streamed_content = String::new();
    let mut final_answer = None;
    for event in offline_events("你好") {
        match event {
            ChatStreamEvent::Content(chunk) => streamed_content.push_str(&chunk),
            ChatStreamEvent::Final(answer) => final_answer = Some(answer),
        }
    }
    assert_eq!(final_answer.as_deref(), Some(streamed_content.as_str()));
    assert_eq!(offline_answer("你好"), "oncall-agent-rs received: 你好");
}
