use oncall_agent_rs::config::{AppConfig, EnvSnapshot};
use oncall_agent_rs::json::{parse_json, to_json_string};
use oncall_agent_rs::memory::{conversation_text, facts_from_reply, reply_content, MemoryExtractionService};
use oncall_agent_rs::model::ChatMessage;

fn config() -> AppConfig {
    AppConfig::from_env(&EnvSnapshot { vars: vec![] }).ok().expect("defaults")
}

fn message(role: &str, content: &str) -> ChatMessage {
    ChatMessage { role: role.to_string(), content: content.to_string() }
}

#[test]
fn the_conversation_is_one_line_per_message() {
    let text = conversation_text(&vec![message("user", "q"), message("assistant", "a")]);
    assert_eq!(text, "user: q\nassistant: a\n");
}

#[test]
fn replies_yield_marked_facts() {
    assert!(facts_from_reply("  None ").is_empty());
    assert!(facts_from_reply("   ").is_empty());
    assert_eq!(
        facts_from_reply("用户偏好中文; ;服务部署在 k8s "),
        vec!["[用户私人记忆] 用户偏好中文".to_string(), "[用户私人记忆] 服务部署在 k8s".to_string()]
    );
}

#[test]
fn extraction_needs_a_session_messages_and_a_key() {
    let mut service = MemoryExtractionService::new(&config());
    service.api_key = Some("k".to_string());
    assert!(service.should_extract("s", &vec![message("user", "q")]));
    assert!(!service.should_extract(" ", &vec![message("user", "q")]));
    assert!(!service.should_extract("s", &Vec::new()));
    service.api_key = None;
    assert!(!service.should_extract("s", &vec![message("user", "q")]));
}

#[test]
fn the_request_goes_to_chat_completions() {
    let mut service = MemoryExtractionService::new(&config());
    service.chat_base_url = "https://example.com/v1//".to_string();
    service.chat_model = "qwen-plus".to_string();
    assert_eq!(service.completions_url(), "https://example.com/v1/chat/completions");
    let body: serde_json::Value =
        serde_json::from_str(&to_json_string(&service.extraction_request("user: q\n"))).unwrap();
    assert_eq!(body["model"], "qwen-plus");
    assert_eq!(body["messages"][0]["role"], "system");
    assert_eq!(body["messages"][1]["content"], "对话记录如下：\nuser: q\n");
}

#[test]
fn the_reply_is_the_first_choice() {
    let payload = parse_json("{\"choices\":[{\"message\":{\"content\":\"A;B\"}}]}").unwrap();
    assert_eq!(reply_content(&payload).as_deref(), Some("A;B"));
    assert!(reply_content(&parse_json("{\"choices\":[]}").unwrap()).is_none());
}
