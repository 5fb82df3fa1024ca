use oncall_agent_rs::json::parse_json;
use oncall_agent_rs::prometheus::{
    alerts_answer, alerts_failure, build_metric_trend_error, build_mock_alerts,
    duration_from_active_at, plan_metric_trend, simplify_alerts, trend_dependency_error,
    QueryMetricTrendArgs,
};
use serde_json::Value;

fn trend_args(metric: &str, window: Option<&str>, step: Option<&str>) -> QueryMetricTrendArgs {
    QueryMetricTrendArgs {
        metric: Some(metric.to_string()),
        service: Some("payment-service".to_string()),
        instance: None,
        window: window.map(str::to_string),
        step: step.map(str::to_string),
    }
}

#[test]
fn mock_alerts_have_fixed_durations() {
    let alerts = build_mock_alerts();
    assert_eq!(alerts.len(), 3);
    assert_eq!(alerts[0].alert_name, "HighCPUUsage");
    assert_eq!(alerts[0].duration, "25m0s");
    assert_eq!(alerts[1].duration, "15m0s");
    assert_eq!(alerts[2].state, "firing");
    assert!(alerts[2].active_at.ends_with('Z'));
    let answer: Value = serde_json::from_str(&alerts_answer(&alerts)).unwrap();
    assert_eq!(answer["success"], true);
    assert_eq!(answer["message"], "成功检索到 3 个活动告警");
    assert_eq!(answer["alerts"][1]["alert_name"], "HighMemoryUsage");
}

#[test]
fn durations_count_whole_seconds() {
    // 2024-06-17T00:00:00Z is 1718582400.
    assert_eq!(duration_from_active_at("2024-06-17T00:00:00Z", 1718582400 + 3725, 0), "1h2m5s");
    assert_eq!(duration_from_active_at("2024-06-17T00:00:00.5Z", 1718582401, 400_000_000), "0s");
    assert_eq!(duration_from_active_at("2024-06-17T00:00:00Z", 1718582300, 0), "0s");
    assert_eq!(duration_from_active_at("yesterday", 1718582400, 0), "unknown");
}

#[test]
fn answered_alerts_keep_each_name_once() {
    let body = parse_json(
        "{\"status\":\"success\",\"data\":{\"alerts\":[\
         {\"labels\":{\"alertname\":\"A\"},\"annotations\":{\"description\":\"first\"},\"state\":\"firing\",\"activeAt\":\"2024-06-17T00:00:00Z\"},\
         {\"labels\":{\"alertname\":\"A\"},\"annotations\":{\"description\":\"again\"}},\
         {\"labels\":{\"alertname\":\"B\"},\"state\":\"pending\",\"activeAt\":\"bad\"}]}}",
    )
    .unwrap();
    let alerts = simplify_alerts(&body, 1718582460, 0).ok().unwrap();
    assert_eq!(alerts.len(), 2);
    assert_eq!(alerts[0].description, "first");
    assert_eq!(alerts[0].duration, "1m0s");
    assert_eq!(alerts[1].alert_name, "B");
    assert_eq!(alerts[1].description, "");
    assert_eq!(alerts[1].duration, "unknown");
}

#[test]
fn a_failed_status_is_an_error() {
    let body = parse_json("{\"status\":\"error\"}").unwrap();
    assert_eq!(
        simplify_alerts(&body, 0, 0).err().unwrap(),
        "Prometheus API 返回非成功状态: error"
    );
    let body = parse_json("{}").unwrap();
    assert_eq!(
        simplify_alerts(&body, 0, 0).err().unwrap(),
        "Prometheus API 返回非成功状态: unknown"
    );
    let failure: Value = serde_json::from_str(&alerts_failure("HTTP 请求失败: 503")).unwrap();
    assert_eq!(failure["message"], "查询 Prometheus 失败，证据缺失");
    assert_eq!(failure["error"], "HTTP 请求失败: 503");
}

#[test]
fn trend_plans_settle_window_and_step() {
    let plan = plan_metric_trend(&trend_args(" CPU_Usage ", Some("15M"), None)).ok().unwrap();
    assert_eq!(plan.metric, "cpu_usage");
    assert_eq!(plan.window, "15m");
    assert_eq!(plan.step, "30s");
    assert!(plan.query.starts_with("100 * avg(rate(container_cpu_usage_seconds_total{pod=~\".*payment-service.*\""));
    let plan = plan_metric_trend(&trend_args("error_rate", Some("2d"), Some("5M"))).ok().unwrap();
    assert_eq!(plan.window, "1h");
    assert_eq!(plan.step, "5m");
    let failed: Value = serde_json::from_str(&trend_dependency_error(&plan, "HTTP 请求失败: 500")).unwrap();
    assert_eq!(failed["errorCode"], "DEPENDENCY_ERROR");
    assert_eq!(failed["query"], Value::String(plan.query.clone()));
}

#[test]
fn unknown_metrics_are_refused() {
    let err = plan_metric_trend(&trend_args("disk_usage", None, None)).err().unwrap();
    let v: Value = serde_json::from_str(&err).unwrap();
    assert_eq!(v["success"], false);
    assert_eq!(v["metric"], "disk_usage");
    assert_eq!(v["window"], "1h");
    assert_eq!(v["query"], Value::Null);
    assert_eq!(
        v["message"],
        "不支持的指标: disk_usage。支持的指标: cpu_usage, memory_usage, error_rate, p99_latency, restart_count"
    );
    assert_eq!(v["summary"]["direction"], "stable");
    assert_eq!(v["summary"]["max"], 0.0);
    assert!(v["points"].as_array().unwrap().is_empty());
    let blank: Value = serde_json::from_str(&build_metric_trend_error("m", "1h", None, " ", None, None)).unwrap();
    assert_eq!(blank["message"], "查询指标趋势失败");
}
