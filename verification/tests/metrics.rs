use oncall_agent_rs::metrics::{
    build_metric_trend_query, build_selector, direction_text, duration_string, is_step,
    mock_point_count, normalize_metric, normalize_step, normalize_window, parse_step_seconds,
    regex_contains, window_seconds,
};

#[test]
fn regex_contains_escapes_operators() {
    assert_eq!(regex_contains(" a.b* "), ".*a\\.b\\*.*");
    assert_eq!(regex_contains("x\"y"), ".*x\\\"y.*");
}

#[test]
fn selectors_list_their_matchers() {
    assert_eq!(build_selector("job", " ", "instance", "", &vec![]), "{}");
    assert_eq!(
        build_selector("job", "pay", "instance", "", &vec![("status", "=~\"5..\"")]),
        "{job=~\".*pay.*\",status=~\"5..\"}"
    );
}

#[test]
fn trend_queries_by_metric() {
    assert_eq!(
        build_metric_trend_query("cpu_usage", "pay", ""),
        "100 * avg(rate(container_cpu_usage_seconds_total{pod=~\".*pay.*\",container!\"\"}[5m]))"
    );
    assert_eq!(build_metric_trend_query("custom_metric", "pay", "i"), "custom_metric");
}

#[test]
fn windows_and_steps_are_normalized() {
    assert_eq!(normalize_metric(Some(" CPU_Usage ")), "cpu_usage");
    assert_eq!(normalize_window(Some(" 6H ")), "6h");
    assert_eq!(normalize_window(Some("2d")), "1h");
    assert_eq!(normalize_window(None), "1h");
    assert_eq!(normalize_step("15m", None), "30s");
    assert_eq!(normalize_step("6h", Some("bad")), "5m");
    assert_eq!(normalize_step("1h", Some(" 2M ")), "2m");
    assert!(is_step("15s"));
    assert!(!is_step("s"));
    assert!(!is_step("1x"));
}

#[test]
fn seconds_and_point_counts() {
    assert_eq!(window_seconds("15m"), 900);
    assert_eq!(window_seconds("zzz"), 3600);
    assert_eq!(parse_step_seconds("2h"), 7200);
    assert_eq!(parse_step_seconds("oops"), 60);
    assert_eq!(mock_point_count("1h", "1m"), 61);
    assert_eq!(mock_point_count("15m", "1h"), 8);
    assert_eq!(mock_point_count("6h", "1s"), 80);
}

#[test]
fn durations_and_directions_are_worded() {
    assert_eq!(duration_string(3725), "1h2m5s");
    assert_eq!(duration_string(65), "1m5s");
    assert_eq!(duration_string(-4), "0s");
    assert_eq!(direction_text("spiking"), "出现突增");
    assert_eq!(direction_text("other"), "整体平稳");
}
