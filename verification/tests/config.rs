use oncall_agent_rs::config::{parse_extensions, AppConfig, EnvSnapshot, EnvValue};

fn env(pairs: &[(&str, &str)]) -> EnvSnapshot {
    EnvSnapshot {
        vars: pairs
            .iter()
            .map(|(k, v)| (k.to_string(), EnvValue::Present(v.to_string())))
            .collect(),
    }
}

#[test]
fn defaults_apply_when_nothing_is_set() {
    let config = AppConfig::from_env(&env(&[])).ok().expect("defaults are valid");
    assert_eq!(config.host, [127, 0, 0, 1]);
    assert_eq!(config.port, 3000);
    assert_eq!(config.allowed_origin, "*");
    assert_eq!(config.request_timeout_secs, 30);
    assert_eq!(config.session_ttl_secs, 3600);
    assert_eq!(config.redis_url, None);
    assert_eq!(config.dashscope_chat_model, "qwen-plus");
    assert_eq!(config.ai_ops_chat_model, "qwen-plus");
    assert_eq!(config.milvus_port, 19530);
    assert_eq!(config.milvus_username, "");
    assert_eq!(config.upload_allowed_extensions, vec!["txt".to_string(), "md".to_string()]);
    assert_eq!(config.document_chunk_max_size, 800);
    assert!(config.private_memory_recall_enabled);
    assert!(!config.prometheus_mock_enabled);
    assert_eq!(config.ai_ops_max_rounds, 8);
}

#[test]
fn values_are_read_and_trimmed() {
    let config = AppConfig::from_env(&env(&[
        ("APP_HOST", "0.0.0.0"),
        ("APP_PORT", "8080"),
        ("APP_REDIS_URL", "  redis://cache  "),
        ("DASHSCOPE_CHAT_MODEL", "qwen-max"),
        ("PROMETHEUS_MOCK_ENABLED", " Yes "),
        ("FILE_UPLOAD_ALLOWED_EXTENSIONS", " PDF, ,md "),
    ]))
    .ok()
    .expect("valid");
    assert_eq!(config.host, [0, 0, 0, 0]);
    assert_eq!(config.port, 8080);
    assert_eq!(config.redis_url, Some("redis://cache".to_string()));
    assert_eq!(config.ai_ops_chat_model, "qwen-max");
    assert!(config.prometheus_mock_enabled);
    assert_eq!(config.upload_allowed_extensions, vec!["pdf".to_string(), "md".to_string()]);
}

#[test]
fn the_first_bad_variable_is_reported() {
    let err = AppConfig::from_env(&env(&[("APP_PORT", "70000"), ("APP_HOST", "1.2.3")]))
        .err()
        .expect("invalid");
    assert_eq!(err.message(), "APP_HOST 必须是合法的 IPv4 地址");
    let err = AppConfig::from_env(&env(&[("APP_PORT", "70000")])).err().expect("invalid");
    assert_eq!(err.message(), "APP_PORT 必须是合法的端口号");
    let err = AppConfig::from_env(&env(&[("CLS_MOCK_ENABLED", "maybe")])).err().expect("invalid");
    assert_eq!(err.message(), "CLS_MOCK_ENABLED 必须是布尔值");
    let err = AppConfig::from_env(&env(&[("RAG_SEARCH_EF", "-1")])).err().expect("invalid");
    assert_eq!(err.message(), "RAG_SEARCH_EF 必须是正整数");
}

#[test]
fn a_variable_that_is_not_unicode_is_refused() {
    let snapshot = EnvSnapshot { vars: vec![("APP_LOG_FILTER".to_string(), EnvValue::NotUnicode)] };
    let err = AppConfig::from_env(&snapshot).err().expect("invalid");
    assert_eq!(err.message(), "APP_LOG_FILTER 必须是合法的 Unicode 字符串");
}

#[test]
fn zero_values_are_refused_in_order() {
    let err = AppConfig::from_env(&env(&[("APP_SESSION_TTL_SECS", "0"), ("RAG_CANDIDATE_K", "0")]))
        .err()
        .expect("invalid");
    assert_eq!(err.message(), "APP_SESSION_TTL_SECS 必须大于 0");
    let err = AppConfig::from_env(&env(&[("FILE_UPLOAD_ALLOWED_EXTENSIONS", " , ")]))
        .err()
        .expect("invalid");
    assert_eq!(err.message(), "FILE_UPLOAD_ALLOWED_EXTENSIONS 不能为空");
}

#[test]
fn extensions_are_split_trimmed_and_lowercased() {
    assert_eq!(parse_extensions("TXT, Md,,"), vec!["txt".to_string(), "md".to_string()]);
}
