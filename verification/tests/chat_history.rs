use oncall_agent_rs::chat_history::{session_file_name, ChatHistoryStore};

#[test]
fn append_message_pair_should_persist_and_reload_complete_history() {
    let store = ChatHistoryStore::new("./target/test-chat-history-store-append");

    let first = store
        .append_message_pair(None, "session/with/path", 100, "hello", "hi", 1_000)
        .expect("a record to store");
    let record = store
        .append_message_pair(Some(first), "session/with/path", 100, "second", "answer", 2_000)
        .expect("a record to store");

    assert_eq!(record.session_id, "session/with/path");
    assert_eq!(record.create_time, 100);
    assert_eq!(record.message_history.len(), 4);
    assert_eq!(record.message_history[0].content, "hello");
    assert_eq!(record.message_history[3].content, "answer");
    assert_eq!(record.update_time, 2_000);
}

#[test]
fn a_blank_session_is_not_stored() {
    let store = ChatHistoryStore::new("");
    assert_eq!(store.root_path, "./data/chat-history");
    assert!(store.append_message_pair(None, "  ", 100, "q", "a", 5).is_none());
}

#[test]
fn a_new_record_without_creation_time_takes_now() {
    let store = ChatHistoryStore::new("dir");
    let record = store.append_message_pair(None, "s", 0, "q", "a", 42).unwrap();
    assert_eq!(record.create_time, 42);
    assert_eq!(record.message_history[0].role, "user");
    assert_eq!(record.message_history[1].role, "assistant");
}

#[test]
fn session_files_are_named_by_url_safe_base64() {
    assert_eq!(session_file_name("session/with/path"), "c2Vzc2lvbi93aXRoL3BhdGg.json");
    let store = ChatHistoryStore::new("./data/chat-history");
    assert_eq!(
        store.path_for_session("session/with/path"),
        "./data/chat-history/c2Vzc2lvbi93aXRoL3BhdGg.json"
    );
    let rooted = ChatHistoryStore::new("/tmp/");
    assert_eq!(rooted.path_for_session("a"), "/tmp/YQ.json");
}

#[test]
fn blank_session_ids_name_no_record() {
    let store = ChatHistoryStore::new("./target/test-chat-history-guard");
    assert!(store.record_path("").is_none());
    assert!(store.record_path("  \t").is_none());
    assert_eq!(store.record_path("s1"), Some(store.path_for_session("s1")));
}

#[test]
fn session_file_names_use_the_url_safe_alphabet_without_padding() {
    assert_eq!(session_file_name("a"), "YQ.json");
    assert_eq!(session_file_name("ab"), "YWI.json");
    assert_eq!(session_file_name("abc"), "YWJj.json");
    assert_eq!(session_file_name("~~~"), "fn5-.json");
    assert_eq!(session_file_name("???"), "Pz8_.json");
    assert_eq!(session_file_name("中文"), "5Lit5paH.json");
    assert_eq!(session_file_name(""), ".json");
}
