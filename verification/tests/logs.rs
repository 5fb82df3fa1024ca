use oncall_agent_rs::logs::{
    build_error_response, build_mock_logs, GetAvailableLogTopicsArgs, GetAvailableLogTopicsTool,
    QueryLogsArgs, QueryLogsTool,
};
use serde_json::Value;

fn args(topic: Option<&str>, query: Option<&str>, limit: Option<i64>) -> QueryLogsArgs {
    QueryLogsArgs {
        region: Some("ap-guangzhou".to_string()),
        log_topic: topic.map(str::to_string),
        query: query.map(str::to_string),
        limit,
    }
}

#[test]
fn cpu_queries_find_five_cpu_lines() {
    let logs = build_mock_logs("", "CPU", 20);
    assert_eq!(logs.len(), 5);
    assert_eq!(logs[0].message, "CPU使用率过高: 92.0%, 进程: java (PID: 1), 线程数: 245");
    assert_eq!(logs[1].message, "CPU使用率过高: 90.5%, 进程: java (PID: 1), 线程数: 245");
    assert_eq!(logs[4].metrics[0], ("cpu_usage".to_string(), "86.0".to_string()));
    assert_eq!(logs[0].timestamp.len(), 19);
}

#[test]
fn memory_queries_find_memory_lines_and_a_gc_warning() {
    let logs = build_mock_logs("system-metrics", "oom", 20);
    assert_eq!(logs.len(), 6);
    assert_eq!(
        logs[3].message,
        "内存使用率过高: 87.4%, JVM堆内存: 3.5GB/4GB, GC次数: 113"
    );
    assert_eq!(logs[5].metrics[0].1, "15");
    let disk = build_mock_logs("SYSTEM-METRICS", "disk", 20);
    assert_eq!(disk[2].message, "磁盘使用率告警: /data 分区使用率 89.0%, 可用空间: 11.0GB");
}

#[test]
fn application_queries_combine_their_groups_and_honour_the_limit() {
    let logs = build_mock_logs("application-logs", "error slow redis", 100);
    assert_eq!(logs.len(), 12);
    assert_eq!(logs[0].level, "ERROR");
    assert_eq!(logs[1].level, "FATAL");
    assert_eq!(logs[4].message, "HTTP 500 Internal Server Error: /api/v1/users/profile, 耗时: 5800ms, 错误: Database query timeout");
    assert_eq!(logs[6].message, "慢请求警告: /api/v1/users/orders, 响应时间: 4050ms, 阈值: 3000ms");
    assert_eq!(logs[11].service, "order-service");
    assert_eq!(build_mock_logs("application-logs", "error slow redis", 3).len(), 3);
}

#[test]
fn other_topics_fall_back_to_generic_lines() {
    let slow = build_mock_logs("database-slow-query", "", 2);
    assert_eq!(slow.len(), 2);
    assert_eq!(slow[0].instance, "mysql-primary-01");
    let events = build_mock_logs("system-events", "nothing", 4);
    assert_eq!(events.len(), 4);
    assert_eq!(events[1].level, "WARN");
    assert_eq!(events[2].level, "INFO");
    assert_eq!(events[3].message, "日志消息 #3, 查询条件: nothing");
    let generic = build_mock_logs("custom", "Q", 50);
    assert_eq!(generic.len(), 10);
    assert_eq!(generic[9].instance, "instance-9");
    assert!(generic[0].metrics.is_empty());
}

#[test]
fn the_query_tool_answers_with_json() {
    let tool = QueryLogsTool { mock_enabled: true };
    let out: Value = serde_json::from_str(&tool.call(args(Some("system-events"), Some("restart"), None))).unwrap();
    assert_eq!(out["success"], true);
    assert_eq!(out["total"], 2);
    assert_eq!(out["message"], "成功查询到 2 条日志");
    assert_eq!(out["logs"][0]["metrics"]["reason"], "OOMKilled");
    assert_eq!(out["query"], "restart");
    let blank: Value = serde_json::from_str(&tool.call(args(None, Some("  "), Some(-3)))).unwrap();
    assert_eq!(blank["query"], "DEFAULT_QUERY");
    assert_eq!(blank["total"], 10);
    let capped: Value = serde_json::from_str(&tool.call(args(Some("x"), None, Some(500)))).unwrap();
    assert_eq!(capped["total"], 10);
}

#[test]
fn the_real_service_is_not_available() {
    let tool = QueryLogsTool { mock_enabled: false };
    let out: Value = serde_json::from_str(&tool.call(args(None, None, None))).unwrap();
    assert_eq!(out["success"], false);
    assert_eq!(out["errorCode"], "DEPENDENCY_ERROR");
    assert_eq!(out["error"], "CLS 真实查询尚未实现，请启用 mock 模式进行测试");
    let err: Value = serde_json::from_str(&build_error_response("m", "e", "C")).unwrap();
    assert_eq!(err["message"], "m");
}

#[test]
fn the_topic_list_names_four_topics() {
    let out: Value =
        serde_json::from_str(&GetAvailableLogTopicsTool.call(GetAvailableLogTopicsArgs {})).unwrap();
    assert_eq!(out["success"], true);
    assert_eq!(out["topics"].as_array().unwrap().len(), 4);
    assert_eq!(out["topics"][2]["topic_name"], "database-slow-query");
    assert_eq!(out["topics"][1]["example_queries"][5], "downstream OR redis OR database OR mq");
    assert_eq!(out["available_regions"][3], "ap-chengdu");
    assert_eq!(out["default_region"], "ap-guangzhou");
}

#[test]
fn mock_log_lines_are_stamped_in_local_time() {
    let logs = build_mock_logs("application-logs", "", 20);
    assert!(!logs.is_empty());
    for entry in &logs {
        let t: Vec<char> = entry.timestamp.chars().collect();
        assert_eq!(t.len(), 19, "{}", entry.timestamp);
        for (i, c) in t.iter().enumerate() {
            match i {
                4 | 7 => assert_eq!(*c, '-'),
                10 => assert_eq!(*c, ' '),
                13 | 16 => assert_eq!(*c, ':'),
                _ => assert!(c.is_ascii_digit()),
            }
        }
    }
}
