//! The Prometheus tools of the agents: active alerts (sample ones while
//! Prometheus is mocked, else those a query answered, each alert name
//! once), and the plan and failures of a metric trend query.
use vstd::prelude::*;

use crate::indexing::{number_field, text_field};
use crate::json::{get, get_field, json_text, str_of, to_json_string, JsonValue};
use crate::logs::{build_error_response, is_digit, is_error_response, DEPENDENCY_ERROR};
use crate::metrics::{
    build_metric_trend_query, duration_spec, duration_string, normalize_metric, normalize_step,
    normalize_step_spec, normalize_window, normalize_window_spec, trend_query_spec,
};
use crate::text::{
    append_str, chars_of, concat, decimal, is_blank, is_blank_str, lowercase, str_eq, string_of,
    to_string, trim, u64_to_string,
};

verus! {

pub const ALERTS_TOOL: &'static str = "queryPrometheusAlerts";

pub const TREND_TOOL: &'static str = "queryMetricTrend";

pub const ALERTS_FAILED: &'static str = "查询 Prometheus 失败，证据缺失";

pub const NOT_SUCCESS_PREFIX: &'static str = "Prometheus API 返回非成功状态: ";

pub const UNKNOWN: &'static str = "unknown";

pub const TREND_FAILED: &'static str = "查询指标趋势失败";

pub const SUPPORTED_METRICS_TEXT: &'static str = "cpu_usage, memory_usage, error_rate, p99_latency, restart_count";

/// The alert tool: its Prometheus, how long a query may take, and whether
/// Prometheus is mocked.
pub struct QueryPrometheusAlertsTool {
    pub base_url: String,
    pub timeout_secs: u64,
    pub mock_enabled: bool,
}

/// The alert query takes no arguments.
pub struct QueryPrometheusAlertsArgs {}

/// The trend tool: its Prometheus, how long a query may take, and whether
/// Prometheus is mocked.
pub struct QueryMetricTrendTool {
    pub base_url: String,
    pub timeout_secs: u64,
    pub mock_enabled: bool,
}

/// What a trend query is asked: each part may be left out.
pub struct QueryMetricTrendArgs {
    pub metric: Option<String>,
    pub service: Option<String>,
    pub instance: Option<String>,
    pub window: Option<String>,
    pub step: Option<String>,
}

/// An active alert as the tool answers it.
pub struct AlertSummary {
    pub alert_name: String,
    pub description: String,
    pub state: String,
    pub active_at: String,
    pub duration: String,
}

// ---------------------------------------------------------------------------
// Time
// ---------------------------------------------------------------------------

/// The instant an RFC 3339 time names, as whole seconds since the epoch and
/// the nanoseconds past them (`DateTime::parse_from_rfc3339`), where it is
/// one.
pub uninterp spec fn rfc3339_instant(s: Seq<char>) -> Option<(int, int)>;

/// `DateTime::parse_from_rfc3339(s)`, as its `timestamp()` and
/// `timestamp_subsec_nanos()`: a function of `s` alone, named
/// `rfc3339_instant`.
#[verifier::external_body]
fn parse_rfc3339(s: &str) -> (r: Option<(i64, u32)>)
    ensures
        match r {
            Some(p) => rfc3339_instant(s@) == Some((p.0 as int, p.1 as int)),
            None => rfc3339_instant(s@) is None,
        },
{
    match chrono::DateTime::parse_from_rfc3339(s) {
        Ok(t) => Some((t.timestamp(), t.timestamp_subsec_nanos())),
        Err(_) => None,
    }
}

/// The current instant, as whole seconds since the epoch and the
/// nanoseconds past them (`Utc::now()`). It is read from the clock:
/// nothing is stated of it.
#[verifier::external_body]
pub(crate) fn now_instant() -> (i64, u32) {
    let t = chrono::Utc::now();
    (t.timestamp(), t.timestamp_subsec_nanos())
}

/// A UTC time in RFC 3339 to the second: the year in four digits (a sign
/// and at least four digits outside years 0 to 9999), then
/// `-MM-DDTHH:MM:SS` in two digits each, then `Z`.
pub open spec fn is_rfc3339_utc_seconds(s: Seq<char>) -> bool {
    &&& s.len() >= 20
    &&& {
        let y = s.take(s.len() - 16);
        let t = s.skip(s.len() - 16);
        &&& (y.len() == 4 && forall|i: int| 0 <= i < 4 ==> is_digit(#[trigger] y[i])) || (y.len()
            >= 5 && (y[0] == '+' || y[0] == '-') && forall|i: int|
            1 <= i < y.len() ==> is_digit(#[trigger] y[i]))
        &&& t[0] == '-' && t[3] == '-' && t[6] == 'T' && t[9] == ':' && t[12] == ':' && t[15]
            == 'Z'
        &&& forall|i: int|
            0 <= i < 15 && i != 0 && i != 3 && i != 6 && i != 9 && i != 12 ==> is_digit(
                #[trigger] t[i],
            )
    }
}

/// The time `minutes` ago in UTC, written in RFC 3339 to the second with a
/// `Z` (`to_rfc3339_opts(SecondsFormat::Secs, true)`, which writes each
/// field in two digits and the year in four, with a sign outside years 0
/// to 9999). Which time it is, the clock decides: only its shape is stated.
#[verifier::external_body]
fn rfc3339_minutes_ago(minutes: i64) -> (r: String)
    requires
        0 <= minutes <= 1000,
    ensures
        is_rfc3339_utc_seconds(r@),
{
    (chrono::Utc::now() - chrono::Duration::minutes(minutes)).to_rfc3339_opts(
        chrono::SecondsFormat::Secs,
        true,
    )
}

/// How long ago, in words, the RFC 3339 time `active_at` was at `now`
/// (seconds and nanoseconds): whole seconds, none where it lies ahead, and
/// `unknown` where it is no such time.
pub open spec fn elapsed_text(active_at: Seq<char>, now: (int, int)) -> Seq<char> {
    match rfc3339_instant(active_at) {
        Some(a) => {
            let d = (now.0 * 1_000_000_000 + now.1) - (a.0 * 1_000_000_000 + a.1);
            if d <= 0 {
                duration_spec(0)
            } else {
                let s = d / 1_000_000_000;
                duration_spec(
                    if s > i64::MAX {
                        i64::MAX as int
                    } else {
                        s
                    },
                )
            }
        },
        None => UNKNOWN@,
    }
}

/// How long ago `active_at` was at `now` (see `elapsed_text`).
pub fn duration_from_active_at(active_at: &str, now_secs: i64, now_nanos: u32) -> (r: String)
    ensures
        r@ == elapsed_text(active_at@, (now_secs as int, now_nanos as int)),
{
    match parse_rfc3339(active_at) {
        Some((secs, nanos)) => {
            let n: i128 = now_secs as i128 * 1_000_000_000 + now_nanos as i128;
            let a: i128 = secs as i128 * 1_000_000_000 + nanos as i128;
            let d: i128 = n - a;
            if d <= 0 {
                duration_string(0)
            } else {
                let s: i128 = d / 1_000_000_000;
                if s > i64::MAX as i128 {
                    duration_string(i64::MAX)
                } else {
                    duration_string(s as i64)
                }
            }
        },
        None => to_string(UNKNOWN),
    }
}

// ---------------------------------------------------------------------------
// Alerts
// ---------------------------------------------------------------------------

/// An alert as the contracts read it.
pub struct AlertView {
    pub name: Seq<char>,
    pub description: Seq<char>,
    pub state: Seq<char>,
    pub active_at: Seq<char>,
}

/// The field `key` of an optional value.
pub open spec fn get_in(v: Option<JsonValue>, key: Seq<char>) -> Option<JsonValue> {
    match v {
        Some(x) => get(x, key),
        None => None,
    }
}

/// The text of a value that is a string, else nothing.
pub open spec fn text_or_empty(v: Option<JsonValue>) -> Seq<char> {
    match str_of(v) {
        Some(s) => s,
        None => seq![],
    }
}

/// What an alert of a Prometheus answer says: its name label, its
/// description annotation, its state and since when it is active.
pub open spec fn alert_view(a: JsonValue) -> AlertView {
    AlertView {
        name: text_or_empty(get_in(get(a, "labels"@), "alertname"@)),
        description: text_or_empty(get_in(get(a, "annotations"@), "description"@)),
        state: text_or_empty(get(a, "state"@)),
        active_at: text_or_empty(get(a, "activeAt"@)),
    }
}

pub open spec fn alert_names(s: Seq<AlertView>) -> Seq<Seq<char>> {
    s.map_values(|v: AlertView| v.name)
}

/// The alerts of `a` in order, each name once: a later alert of a name
/// already seen is left out.
pub open spec fn distinct_alerts(a: Seq<JsonValue>) -> Seq<AlertView>
    decreases a.len(),
{
    if a.len() == 0 {
        seq![]
    } else {
        let s = distinct_alerts(a.drop_last());
        let v = alert_view(a.last());
        if alert_names(s).contains(v.name) {
            s
        } else {
            s.push(v)
        }
    }
}

/// The alerts of a Prometheus answer (`data.alerts`), none where it lists
/// none.
pub open spec fn answered_alerts(body: JsonValue) -> Seq<JsonValue> {
    match get_in(get(body, "data"@), "alerts"@) {
        Some(JsonValue::Array(a)) => a@,
        _ => seq![],
    }
}

/// `s` is the alert `v` as it is answered at `now`.
pub open spec fn is_alert_summary(s: AlertSummary, v: AlertView, now: (int, int)) -> bool {
    &&& s.alert_name@ == v.name
    &&& s.description@ == v.description
    &&& s.state@ == v.state
    &&& s.active_at@ == v.active_at
    &&& s.duration@ == elapsed_text(v.active_at, now)
}

/// `v` answers the alerts `views` at `now`, one for one.
pub open spec fn summaries_at(v: Seq<AlertSummary>, views: Seq<AlertView>, now: (int, int)) -> bool {
    v.len() == views.len() && forall|i: int|
        0 <= i < v.len() ==> is_alert_summary(#[trigger] v[i], views[i], now)
}

fn text_of(v: Option<&JsonValue>) -> (r: String)
    ensures
        r@ == text_or_empty(
            match v {
                Some(x) => Some(*x),
                None => None,
            },
        ),
{
    match v {
        Some(JsonValue::Str(s)) => s.clone(),
        _ => String::new(),
    }
}

fn field_in<'a>(v: Option<&'a JsonValue>, key: &str) -> (r: Option<&'a JsonValue>)
    ensures
        match r {
            Some(x) => get_in(
                match v {
                    Some(y) => Some(*y),
                    None => None,
                },
                key@,
            ) == Some(*x),
            None => get_in(
                match v {
                    Some(y) => Some(*y),
                    None => None,
                },
                key@,
            ) is None,
        },
{
    match v {
        Some(x) => get_field(x, key),
        None => None,
    }
}

fn seen(out: &Vec<AlertSummary>, name: &str, Ghost(views): Ghost<Seq<AlertView>>) -> (r: bool)
    requires
        out@.len() == views.len(),
        forall|i: int| 0 <= i < out@.len() ==> (#[trigger] out@[i]).alert_name@ == views[i].name,
    ensures
        r == alert_names(views).contains(name@),
{
    let mut i: usize = 0;
    while i < out.len()
        invariant
            i <= out@.len(),
            out@.len() == views.len(),
            forall|k: int| 0 <= k < out@.len() ==> (#[trigger] out@[k]).alert_name@ == views[k].name,
            forall|k: int| 0 <= k < i ==> views[k].name != name@,
        decreases out.len() - i,
    {
        if str_eq(out[i].alert_name.as_str(), name) {
            assert(alert_names(views)[i as int] == name@);
            return true;
        }
        i = i + 1;
    }
    proof {
        if alert_names(views).contains(name@) {
            let k = choose|k: int| 0 <= k < alert_names(views).len() && alert_names(views)[k] == name@;
            assert(views[k].name == name@);
        }
    }
    false
}

/// The active alerts of a Prometheus answer as of `now` (seconds and
/// nanoseconds): an error where its status is not `success`, else its
/// alerts, each name once (see `distinct_alerts`).
pub fn simplify_alerts(body: &JsonValue, now_secs: i64, now_nanos: u32) -> (r: Result<Vec<AlertSummary>, String>)
    ensures
        match r {
            Err(e) => str_of(get(*body, "status"@)) != Some("success"@) && e@ == NOT_SUCCESS_PREFIX@
                + match str_of(get(*body, "status"@)) {
                Some(s) => s,
                None => UNKNOWN@,
            },
            Ok(v) => {
                &&& str_of(get(*body, "status"@)) == Some("success"@)
                &&& v@.len() == distinct_alerts(answered_alerts(*body)).len()
                &&& forall|i: int|
                    0 <= i < v@.len() ==> is_alert_summary(
                        #[trigger] v@[i],
                        distinct_alerts(answered_alerts(*body))[i],
                        (now_secs as int, now_nanos as int),
                    )
            },
        },
{
    let status = match get_field(body, "status") {
        Some(JsonValue::Str(s)) => Some(s.clone()),
        _ => None,
    };
    let ok = match &status {
        Some(s) => str_eq(s.as_str(), "success"),
        None => false,
    };
    if !ok {
        let shown = match status {
            Some(s) => s,
            None => to_string(UNKNOWN),
        };
        return Err(concat(NOT_SUCCESS_PREFIX, shown.as_str()));
    }
    let ghost all = answered_alerts(*body);
    let empty: Vec<JsonValue> = Vec::new();
    let alerts: &Vec<JsonValue> = match field_in(get_field(body, "data"), "alerts") {
        Some(JsonValue::Array(a)) => a,
        _ => &empty,
    };
    assert(alerts@ == all);
    let mut out: Vec<AlertSummary> = Vec::new();
    let mut i: usize = 0;
    while i < alerts.len()
        invariant
            i <= alerts@.len(),
            alerts@ == all,
            out@.len() == distinct_alerts(all.take(i as int)).len(),
            forall|k: int|
                0 <= k < out@.len() ==> is_alert_summary(
                    #[trigger] out@[k],
                    distinct_alerts(all.take(i as int))[k],
                    (now_secs as int, now_nanos as int),
                ),
        decreases alerts.len() - i,
    {
        let a = &alerts[i];
        let ghost prefix = distinct_alerts(all.take(i as int));
        assert(all.take(i + 1).drop_last() =~= all.take(i as int));
        assert(all.take(i + 1).last() == *a);
        let name = text_of(field_in(get_field(a, "labels"), "alertname"));
        if !seen(&out, name.as_str(), Ghost(prefix)) {
            let description = text_of(field_in(get_field(a, "annotations"), "description"));
            let state = text_of(get_field(a, "state"));
            let active_at = text_of(get_field(a, "activeAt"));
            let duration = duration_from_active_at(active_at.as_str(), now_secs, now_nanos);
            out.push(AlertSummary { alert_name: name, description, state, active_at, duration });
        }
        i = i + 1;
    }
    assert(all.take(alerts.len() as int) =~= all);
    Ok(out)
}

/// The active alerts of a Prometheus answer as of now (see
/// `simplify_alerts`, for the instant the clock gave).
pub fn alerts_from_body(body: &JsonValue) -> (r: Result<Vec<AlertSummary>, String>)
    ensures
        match r {
            Err(e) => str_of(get(*body, "status"@)) != Some("success"@) && e@ == NOT_SUCCESS_PREFIX@
                + match str_of(get(*body, "status"@)) {
                Some(s) => s,
                None => UNKNOWN@,
            },
            Ok(v) => {
                &&& str_of(get(*body, "status"@)) == Some("success"@)
                &&& v@.len() == distinct_alerts(answered_alerts(*body)).len()
                &&& exists|now: (int, int)|
                    #[trigger] summaries_at(v@, distinct_alerts(answered_alerts(*body)), now)
            },
        },
{
    let (secs, nanos) = now_instant();
    let r = simplify_alerts(body, secs, nanos);
    proof {
        if r is Ok {
            let now = (secs as int, nanos as int);
            assert(summaries_at(r->Ok_0@, distinct_alerts(answered_alerts(*body)), now));
        }
    }
    r
}

/// The sample alerts while Prometheus is mocked: high CPU for 25 minutes,
/// high memory for 15, slow responses for 10.
pub open spec fn mock_alert_views() -> Seq<(Seq<char>, Seq<char>, int)> {
    seq![
        ("HighCPUUsage"@, "服务 payment-service 的 CPU 使用率持续超过 80%，当前值为 92%。实例: pod-payment-service-7d8f9c6b5-x2k4m，命名空间: production"@, 25),
        ("HighMemoryUsage"@, "服务 order-service 的内存使用率持续超过 85%，当前值为 91%。JVM堆内存使用: 3.8GB/4GB，可能存在内存泄漏风险。实例: pod-order-service-5c7d8e9f1-m3n2p，命名空间: production"@, 15),
        ("SlowResponse"@, "服务 user-service 的 P99 响应时间持续超过 3 秒，当前值为 4.2 秒。受影响接口: /api/v1/users/profile, /api/v1/users/orders。可能原因：数据库慢查询或下游服务延迟"@, 10),
    ]
}

fn mock_alert(name: &str, description: &str, minutes: i64) -> (r: AlertSummary)
    requires
        0 <= minutes <= 1000,
    ensures
        r.alert_name@ == name@,
        r.description@ == description@,
        r.state@ == "firing"@,
        r.duration@ == duration_spec(minutes * 60),
        is_rfc3339_utc_seconds(r.active_at@),
{
    AlertSummary {
        alert_name: to_string(name),
        description: to_string(description),
        state: to_string("firing"),
        active_at: rfc3339_minutes_ago(minutes),
        duration: duration_string(minutes * 60),
    }
}

/// The sample alerts (see `mock_alert_views`): firing, active since as
/// many minutes ago (a UTC time in RFC 3339; which one, the clock
/// decides), for that long.
pub fn build_mock_alerts() -> (r: Vec<AlertSummary>)
    ensures
        r@.len() == 3,
        forall|i: int|
            0 <= i < 3 ==> {
                &&& (#[trigger] r@[i]).alert_name@ == mock_alert_views()[i].0
                &&& r@[i].description@ == mock_alert_views()[i].1
                &&& r@[i].state@ == "firing"@
                &&& r@[i].duration@ == duration_spec(mock_alert_views()[i].2 * 60)
                &&& is_rfc3339_utc_seconds(r@[i].active_at@)
            },
{
    let mut r: Vec<AlertSummary> = Vec::new();
    r.push(mock_alert("HighCPUUsage", "服务 payment-service 的 CPU 使用率持续超过 80%，当前值为 92%。实例: pod-payment-service-7d8f9c6b5-x2k4m，命名空间: production", 25));
    r.push(mock_alert("HighMemoryUsage", "服务 order-service 的内存使用率持续超过 85%，当前值为 91%。JVM堆内存使用: 3.8GB/4GB，可能存在内存泄漏风险。实例: pod-order-service-5c7d8e9f1-m3n2p，命名空间: production", 15));
    r.push(mock_alert("SlowResponse", "服务 user-service 的 P99 响应时间持续超过 3 秒，当前值为 4.2 秒。受影响接口: /api/v1/users/profile, /api/v1/users/orders。可能原因：数据库慢查询或下游服务延迟", 10));
    r
}

/// `j` is the alert `s` as JSON.
pub open spec fn is_alert_json(j: JsonValue, s: AlertSummary) -> bool {
    match j {
        JsonValue::Object(f) => {
            &&& f@.len() == 5
            &&& text_field(f@[0], "alert_name"@, s.alert_name@)
            &&& text_field(f@[1], "description"@, s.description@)
            &&& text_field(f@[2], "state"@, s.state@)
            &&& text_field(f@[3], "active_at"@, s.active_at@)
            &&& text_field(f@[4], "duration"@, s.duration@)
        },
        _ => false,
    }
}

/// `v` answers the alert query with `alerts`: successful, the alerts, and
/// how many there are.
pub open spec fn is_alerts_answer(v: JsonValue, alerts: Seq<AlertSummary>) -> bool {
    match v {
        JsonValue::Object(f) => {
            &&& f@.len() == 3
            &&& f@[0].0@ == "success"@ && f@[0].1 == JsonValue::Bool(true)
            &&& f@[1].0@ == "alerts"@
            &&& match f@[1].1 {
                JsonValue::Array(a) => a@.len() == alerts.len() && forall|i: int|
                    0 <= i < a@.len() ==> is_alert_json(#[trigger] a@[i], alerts[i]),
                _ => false,
            }
            &&& text_field(
                f@[2],
                "message"@,
                "成功检索到 "@ + decimal(alerts.len()) + " 个活动告警"@,
            )
        },
        _ => false,
    }
}

fn text_pair(key: &str, value: &str) -> (r: (String, JsonValue))
    ensures
        text_field(r, key@, value@),
{
    (to_string(key), JsonValue::Str(to_string(value)))
}

/// The answer to the alert query (see `is_alerts_answer`), as JSON text.
pub fn alerts_answer(alerts: &Vec<AlertSummary>) -> (r: String)
    ensures
        exists|v: JsonValue| is_alerts_answer(v, alerts@) && r@ == json_text(v),
{
    let mut a: Vec<JsonValue> = Vec::new();
    let mut i: usize = 0;
    while i < alerts.len()
        invariant
            i <= alerts@.len(),
            a@.len() == i,
            forall|k: int| 0 <= k < i ==> is_alert_json(#[trigger] a@[k], alerts@[k]),
        decreases alerts.len() - i,
    {
        let s = &alerts[i];
        let mut f: Vec<(String, JsonValue)> = Vec::new();
        f.push(text_pair("alert_name", s.alert_name.as_str()));
        f.push(text_pair("description", s.description.as_str()));
        f.push(text_pair("state", s.state.as_str()));
        f.push(text_pair("active_at", s.active_at.as_str()));
        f.push(text_pair("duration", s.duration.as_str()));
        a.push(JsonValue::Object(f));
        i = i + 1;
    }
    let mut msg = chars_of("成功检索到 ");
    append_str(&mut msg, u64_to_string(alerts.len() as u64).as_str());
    append_str(&mut msg, " 个活动告警");
    let mut f: Vec<(String, JsonValue)> = Vec::new();
    f.push((to_string("success"), JsonValue::Bool(true)));
    f.push((to_string("alerts"), JsonValue::Array(a)));
    f.push((to_string("message"), JsonValue::Str(string_of(&msg))));
    let v = JsonValue::Object(f);
    let r = to_json_string(&v);
    assert(is_alerts_answer(v, alerts@) && r@ == json_text(v));
    r
}

/// The answer where Prometheus could not be queried: a dependency error.
pub fn alerts_failure(error: &str) -> (r: String)
    ensures
        exists|v: JsonValue| is_error_response(v, ALERTS_FAILED@, error@, DEPENDENCY_ERROR@) && r@
            == json_text(v),
{
    build_error_response(ALERTS_FAILED, error, DEPENDENCY_ERROR)
}

// ---------------------------------------------------------------------------
// Metric trends
// ---------------------------------------------------------------------------

/// The metrics the trend tool knows.
pub open spec fn supported_metric(m: Seq<char>) -> bool {
    m == "cpu_usage"@ || m == "memory_usage"@ || m == "error_rate"@ || m == "p99_latency"@ || m
        == "restart_count"@
}

/// What a trend query runs: the metric, window and step it settled on,
/// and its PromQL.
pub struct TrendPlan {
    pub metric: String,
    pub window: String,
    pub step: String,
    pub query: String,
}

/// An optional value, or an optional string, as JSON.
pub open spec fn optional_text(v: JsonValue, t: Option<Seq<char>>) -> bool {
    match t {
        Some(s) => str_of(Some(v)) == Some(s),
        None => v == JsonValue::Null,
    }
}

/// `v` is a number field `key` holding zero with one decimal.
pub open spec fn zero_field(p: (String, JsonValue), key: Seq<char>) -> bool {
    number_field(p, key, "0.0"@)
}

/// `v` is a failed trend answer for `metric` and `window`: no points, the
/// summary of no points, the message (a fixed one where it is blank), the
/// query, error and error code where there are.
pub open spec fn is_trend_error(
    v: JsonValue,
    metric: Seq<char>,
    window: Seq<char>,
    query: Option<Seq<char>>,
    message: Seq<char>,
    error: Option<Seq<char>>,
    code: Option<Seq<char>>,
) -> bool {
    match v {
        JsonValue::Object(f) => {
            &&& f@.len() == 9
            &&& f@[0].0@ == "success"@ && f@[0].1 == JsonValue::Bool(false)
            &&& text_field(f@[1], "metric"@, metric)
            &&& text_field(f@[2], "window"@, window)
            &&& f@[3].0@ == "query"@ && optional_text(f@[3].1, query)
            &&& f@[4].0@ == "points"@ && (f@[4].1 matches JsonValue::Array(a) && a@.len() == 0)
            &&& f@[5].0@ == "summary"@ && match f@[5].1 {
                JsonValue::Object(s) => {
                    &&& s@.len() == 6
                    &&& zero_field(s@[0], "min"@) && zero_field(s@[1], "max"@)
                    &&& zero_field(s@[2], "avg"@) && zero_field(s@[3], "latest"@)
                    &&& text_field(s@[4], "direction"@, "stable"@)
                    &&& s@[5].0@ == "anomalous"@ && s@[5].1 == JsonValue::Bool(false)
                },
                _ => false,
            }
            &&& text_field(f@[6], "message"@, if is_blank(message) {
                TREND_FAILED@
            } else {
                message
            })
            &&& f@[7].0@ == "error"@ && optional_text(f@[7].1, error)
            &&& f@[8].0@ == "errorCode"@ && optional_text(f@[8].1, code)
        },
        _ => false,
    }
}

fn optional_json(t: Option<&str>) -> (r: JsonValue)
    ensures
        optional_text(
            r,
            match t {
                Some(s) => Some(s@),
                None => None,
            },
        ),
{
    match t {
        Some(s) => JsonValue::Str(to_string(s)),
        None => JsonValue::Null,
    }
}

fn zero(key: &str) -> (r: (String, JsonValue))
    ensures
        zero_field(r, key@),
{
    (to_string(key), JsonValue::Number(to_string("0.0")))
}

/// A failed trend answer (see `is_trend_error`), as JSON text.
pub fn build_metric_trend_error(
    metric: &str,
    window: &str,
    query: Option<&str>,
    message: &str,
    error: Option<&str>,
    error_code: Option<&str>,
) -> (r: String)
    ensures
        exists|v: JsonValue|
            is_trend_error(
                v,
                metric@,
                window@,
                match query {
                    Some(q) => Some(q@),
                    None => None,
                },
                message@,
                match error {
                    Some(e) => Some(e@),
                    None => None,
                },
                match error_code {
                    Some(c) => Some(c@),
                    None => None,
                },
            ) && r@ == json_text(v),
{
    let mut s: Vec<(String, JsonValue)> = Vec::new();
    s.push(zero("min"));
    s.push(zero("max"));
    s.push(zero("avg"));
    s.push(zero("latest"));
    s.push(text_pair("direction", "stable"));
    s.push((to_string("anomalous"), JsonValue::Bool(false)));
    let shown = if is_blank_str(message) {
        TREND_FAILED
    } else {
        message
    };
    let mut f: Vec<(String, JsonValue)> = Vec::new();
    f.push((to_string("success"), JsonValue::Bool(false)));
    f.push(text_pair("metric", metric));
    f.push(text_pair("window", window));
    f.push((to_string("query"), optional_json(query)));
    f.push((to_string("points"), JsonValue::Array(Vec::new())));
    f.push((to_string("summary"), JsonValue::Object(s)));
    f.push(text_pair("message", shown));
    f.push((to_string("error"), optional_json(error)));
    f.push((to_string("errorCode"), optional_json(error_code)));
    let v = JsonValue::Object(f);
    let r = to_json_string(&v);
    assert(is_trend_error(
        v,
        metric@,
        window@,
        match query {
            Some(q) => Some(q@),
            None => None,
        },
        message@,
        match error {
            Some(e) => Some(e@),
            None => None,
        },
        match error_code {
            Some(c) => Some(c@),
            None => None,
        },
    ) && r@ == json_text(v));
    r
}

/// The text of an optional argument.
pub open spec fn arg_view(o: Option<String>) -> Option<Seq<char>> {
    match o {
        Some(s) => Some(s@),
        None => None,
    }
}

/// The argument's text, empty where it is left out.
pub open spec fn arg_or_empty(o: Option<String>) -> Seq<char> {
    match o {
        Some(s) => s@,
        None => seq![],
    }
}

/// The message for a metric the trend tool does not know.
pub open spec fn unsupported_message(metric: Seq<char>) -> Seq<char> {
    "不支持的指标: "@ + metric + "。支持的指标: "@ + SUPPORTED_METRICS_TEXT@
}

fn opt_str(o: &Option<String>) -> (r: Option<&str>)
    ensures
        match r {
            Some(s) => o is Some && s@ == o->0@,
            None => o is None,
        },
{
    match o {
        Some(s) => Some(s.as_str()),
        None => None,
    }
}

/// What a trend query runs: its metric (trimmed, lowercased), window and
/// step as the tool settles them, and its PromQL; where the metric is not
/// one the tool knows, the failed answer that says so.
pub fn plan_metric_trend(args: &QueryMetricTrendArgs) -> (r: Result<TrendPlan, String>)
    ensures
        ({
            let metric = lowercase(trim(arg_or_empty(args.metric)));
            let window = normalize_window_spec(arg_view(args.window));
            match r {
                Ok(p) => {
                    &&& supported_metric(metric)
                    &&& p.metric@ == metric
                    &&& p.window@ == window
                    &&& p.step@ == normalize_step_spec(window, arg_view(args.step))
                    &&& p.query@ == trend_query_spec(
                        metric,
                        arg_or_empty(args.service),
                        arg_or_empty(args.instance),
                    )
                },
                Err(e) => {
                    &&& !supported_metric(metric)
                    &&& exists|v: JsonValue|
                        is_trend_error(
                            v,
                            metric,
                            window,
                            None,
                            unsupported_message(metric),
                            None,
                            None,
                        ) && e@ == json_text(v)
                },
            }
        }),
{
    let metric = normalize_metric(opt_str(&args.metric));
    let window = normalize_window(opt_str(&args.window));
    let step = normalize_step(window.as_str(), opt_str(&args.step));
    proof {
        assert(""@ =~= Seq::<char>::empty()) by {
            reveal_strlit("");
        }
    }
    let m = metric.as_str();
    let known = str_eq(m, "cpu_usage") || str_eq(m, "memory_usage") || str_eq(m, "error_rate")
        || str_eq(m, "p99_latency") || str_eq(m, "restart_count");
    if !known {
        let mut msg = chars_of("不支持的指标: ");
        append_str(&mut msg, m);
        append_str(&mut msg, "。支持的指标: ");
        append_str(&mut msg, SUPPORTED_METRICS_TEXT);
        let message = string_of(&msg);
        return Err(build_metric_trend_error(m, window.as_str(), None, message.as_str(), None, None));
    }
    let service = match opt_str(&args.service) {
        Some(s) => s,
        None => "",
    };
    let instance = match opt_str(&args.instance) {
        Some(s) => s,
        None => "",
    };
    let query = build_metric_trend_query(m, service, instance);
    Ok(TrendPlan { metric, window, step, query })
}

/// The failed answer where Prometheus could not give the trend of `plan`.
pub fn trend_dependency_error(plan: &TrendPlan, error: &str) -> (r: String)
    ensures
        exists|v: JsonValue|
            is_trend_error(
                v,
                plan.metric@,
                plan.window@,
                Some(plan.query@),
                error@,
                Some(error@),
                Some(DEPENDENCY_ERROR@),
            ) && r@ == json_text(v),
{
    build_metric_trend_error(
        plan.metric.as_str(),
        plan.window.as_str(),
        Some(plan.query.as_str()),
        error,
        Some(error),
        Some(DEPENDENCY_ERROR),
    )
}

} // verus!
