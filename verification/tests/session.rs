use oncall_agent_rs::chat_history::{new_record, prepare_for_save, summarize_records, title_for};
use oncall_agent_rs::config::{AppConfig, EnvSnapshot};
use oncall_agent_rs::model::{ChatMessage, ChatSessionRecord};
use oncall_agent_rs::session::{recent_window, redis_key, ClearResult, SessionInfo, SessionManager};

fn config() -> AppConfig {
    AppConfig::from_env(&EnvSnapshot { vars: vec![] }).ok().expect("defaults")
}

fn message(role: &str, content: &str) -> ChatMessage {
    ChatMessage { role: role.to_string(), content: content.to_string() }
}

#[test]
fn the_window_keeps_six_pairs_and_gives_back_the_rest() {
    let mut session = SessionInfo::with_parts("s".to_string(), 5, Vec::new());
    let mut evicted = Vec::new();
    for i in 0..8 {
        evicted.extend(session.add_message(&format!("q{i}"), &format!("a{i}")));
    }
    assert_eq!(session.get_message_pair_count(), 6);
    assert_eq!(session.get_history()[0].content, "q2");
    assert_eq!(evicted.len(), 4);
    assert_eq!(evicted[0].content, "q0");
    assert_eq!(evicted[3].content, "a1");
}

#[test]
fn an_odd_history_drops_a_whole_pair_more() {
    let history: Vec<ChatMessage> = (0..13).map(|i| message("user", &i.to_string())).collect();
    let mut session = SessionInfo::with_parts("s".to_string(), 5, history);
    let evicted = session.add_message("q", "a");
    assert_eq!(evicted.len(), 4);
    assert_eq!(session.get_history().len(), 11);
}

#[test]
fn recent_window_keeps_the_last_twelve() {
    let history: Vec<ChatMessage> = (0..15).map(|i| message("user", &i.to_string())).collect();
    let window = recent_window(history);
    assert_eq!(window.len(), 12);
    assert_eq!(window[0].content, "3");
}

#[test]
fn the_manager_starts_with_the_sample_session() {
    let manager = SessionManager::new(&config());
    let info = manager.session_info("session-1").expect("seeded");
    assert_eq!(info.message_pair_count, 1);
    assert_eq!(info.create_time, 1_718_559_600_000);
    let list = manager.list_sessions();
    assert_eq!(list.len(), 1);
    assert_eq!(list[0].title, "继续上次的话题");
    assert!(manager.session_info("  ").is_none());
}

#[test]
fn saved_sessions_are_listed_newest_first_and_can_be_cleared() {
    let mut manager = SessionManager::new(&config());
    let mut session = SessionInfo::with_parts("newer".to_string(), 2_000_000_000_000, Vec::new());
    session.add_message("1234567890123456789012345678901", "ok");
    manager.save_session(&session);
    let list = manager.list_sessions();
    assert_eq!(list[0].session_id, "newer");
    assert_eq!(list[0].title, "123456789012345678901234567890...");
    assert_eq!(manager.clear(" newer "), ClearResult::Cleared);
    assert_eq!(manager.session_info("newer").unwrap().message_pair_count, 0);
    assert_eq!(manager.clear(""), ClearResult::MissingSessionId);
    assert_eq!(manager.clear("nobody"), ClearResult::NotFound);
    assert!(manager.delete_session("newer"));
    assert!(!manager.delete_session("newer"));
}

#[test]
fn resolved_ids_are_trimmed_or_fresh() {
    assert_eq!(SessionManager::resolve_session_id(Some(" abc ")), "abc");
    let fresh = SessionManager::resolve_session_id(Some("  "));
    assert_eq!(fresh.len(), 36);
    let c: Vec<char> = fresh.chars().collect();
    assert!([8, 13, 18, 23].iter().all(|&i| c[i] == '-'));
    assert_eq!(c[14], '4');
    assert!(matches!(c[19], '8' | '9' | 'a' | 'b'));
    assert_eq!(SessionManager::resolve_session_id(None).len(), 36);
    assert_eq!(redis_key("abc"), "session:abc");
}

#[test]
fn list_sessions_title_should_skip_blank_user_messages() {
    let record = ChatSessionRecord {
        session_id: "blank-title".to_string(),
        create_time: 100,
        update_time: 200,
        message_history: vec![
            message("user", "   "),
            message("assistant", "blank"),
            message("user", "real question"),
            message("assistant", "answer"),
        ],
    };
    assert_eq!(title_for(&record), "real question");
    let summaries = summarize_records(&vec![record]);
    assert_eq!(summaries[0].title, "real question");
    assert_eq!(title_for(&new_record("x", 0, 7)), "新对话");
    assert_eq!(new_record("x", 0, 7).create_time, 7);
}

#[test]
fn list_sessions_should_return_summaries_sorted_by_update_time_desc() {
    let older = ChatSessionRecord { session_id: "older".to_string(), create_time: 100, update_time: 200, message_history: vec![message("user", "old question"), message("assistant", "answer")] };
    let newer = ChatSessionRecord { session_id: "newer".to_string(), create_time: 100, update_time: 300, message_history: vec![message("user", "1234567890123456789012345678901"), message("assistant", "answer")] };
    let summaries = summarize_records(&vec![older, newer]);
    assert_eq!(summaries.len(), 2);
    assert_eq!(summaries[0].session_id, "newer");
    assert_eq!(summaries[0].title, "123456789012345678901234567890...");
    assert_eq!(summaries[0].message_pair_count, 1);
    assert_eq!(summaries[1].session_id, "older");
}

#[test]
fn records_without_an_id_are_not_saved() {
    assert!(prepare_for_save(new_record(" ", 1, 1), 5).is_none());
    let saved = prepare_for_save(new_record("x", 0, 0), 5).expect("saved");
    assert_eq!(saved.create_time, 5);
    assert_eq!(saved.update_time, 5);
}

#[test]
fn sessions_are_admitted_from_redis_then_history_then_new() {
    let mut manager = SessionManager::new(&config());
    let cached = SessionInfo::with_parts("cached".to_string(), 10, vec![message("user", "q")]);
    let (s, save) = manager.admit_session("cached", Some(cached), None);
    assert!(!save);
    assert_eq!(s.create_time, 10);
    assert_eq!(manager.get_session("cached").unwrap().get_history().len(), 1);

    let long: Vec<ChatMessage> = (0..20).map(|i| message("user", &i.to_string())).collect();
    let record = ChatSessionRecord { session_id: "stored".to_string(), create_time: 5, update_time: 6, message_history: long };
    let (s, save) = manager.admit_session("stored", None, Some(record));
    assert!(save);
    assert_eq!(s.get_history().len(), 12);
    assert_eq!(s.get_history()[0].content, "8");
    assert_eq!(manager.get_session("stored").unwrap().update_time, 6);

    let (s, save) = manager.admit_session("brand-new", None, None);
    assert!(save);
    assert_eq!(s.session_id, "brand-new");
    assert!(s.get_history().is_empty());
    assert!(manager.get_session("brand-new").is_some());
}
