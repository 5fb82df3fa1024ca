//! The metric trend tool's arithmetic and query text: windows and steps as
//! the tool accepts them, the label selectors and PromQL it sends, and the
//! wording of a trend.
use vstd::prelude::*;

use crate::config::{all_digits, digits_value, parse_uint_exec};
use crate::text::{
    lemma_join_push,
    append_chars, append_str, chars_of, concat, decimal, is_blank, is_blank_str, join,
    join_strings, lowercase, str_eq, string_of, to_lowercase, to_string, trim, trim_chars,
    trim_str, u64_to_string, views,
};

verus! {

pub open spec fn supported_window(w: Seq<char>) -> bool {
    w == "15m"@ || w == "1h"@ || w == "6h"@
}

/// How a trend direction is worded.
pub fn direction_text(direction: &str) -> (r: &'static str)
    ensures
        r@ == (if direction@ == "increasing"@ {
            "持续上升"@
        } else if direction@ == "decreasing"@ {
            "持续下降"@
        } else if direction@ == "spiking"@ {
            "出现突增"@
        } else {
            "整体平稳"@
        }),
{
    if str_eq(direction, "increasing") {
        "持续上升"
    } else if str_eq(direction, "decreasing") {
        "持续下降"
    } else if str_eq(direction, "spiking") {
        "出现突增"
    } else {
        "整体平稳"
    }
}

/// `first`, unless it is blank; then `second`.
pub fn first_non_blank<'a>(first: &'a str, second: &'a str) -> (r: &'a str)
    ensures
        r@ == (if !is_blank(first@) {
            first@
        } else {
            second@
        }),
{
    if !is_blank_str(first) {
        first
    } else {
        second
    }
}

/// Characters that a regular expression reads as operators.
pub open spec fn is_regex_special(c: char) -> bool {
    c == '\\' || c == '"' || c == '.' || c == '*' || c == '+' || c == '?' || c == '[' || c == ']'
        || c == '(' || c == ')' || c == '{' || c == '}' || c == '|' || c == '^' || c == '$'
}

/// `s` with a backslash before each regular expression operator.
pub open spec fn escape_regex(s: Seq<char>) -> Seq<char>
    decreases s.len(),
{
    if s.len() == 0 {
        seq![]
    } else {
        escape_regex(s.drop_last()) + if is_regex_special(s.last()) {
            seq!['\\', s.last()]
        } else {
            seq![s.last()]
        }
    }
}

/// A pattern that matches any text holding `value`, trimmed, literally.
pub open spec fn regex_contains_spec(value: Seq<char>) -> Seq<char> {
    seq!['.', '*'] + escape_regex(trim(value)) + seq!['.', '*']
}

/// A pattern that matches any text holding `value`, trimmed, literally.
pub fn regex_contains(value: &str) -> (r: String)
    ensures
        r@ == regex_contains_spec(value@),
{
    let t = trim_chars(&chars_of(value));
    let mut out: Vec<char> = vec!['.', '*'];
    let ghost start = out@;
    let mut i: usize = 0;
    while i < t.len()
        invariant
            i <= t.len(),
            start == seq!['.', '*'],
            out@ == start + escape_regex(t@.take(i as int)),
        decreases t.len() - i,
    {
        let c = t[i];
        assert(t@.take(i + 1).drop_last() =~= t@.take(i as int));
        if c == '\\' || c == '"' || c == '.' || c == '*' || c == '+' || c == '?' || c == '['
            || c == ']' || c == '(' || c == ')' || c == '{' || c == '}' || c == '|' || c == '^'
            || c == '$' {
            out.push('\\');
        }
        out.push(c);
        assert(out@ =~= start + escape_regex(t@.take(i + 1)));
        i = i + 1;
    }
    assert(t@.take(t.len() as int) =~= t@);
    out.push('.');
    out.push('*');
    assert(out@ =~= regex_contains_spec(value@));
    string_of(&out)
}

/// One label matcher: `label=~"pattern"`.
pub open spec fn label_matcher(label: Seq<char>, value: Seq<char>) -> Seq<char> {
    label + "=~\""@ + regex_contains_spec(value) + "\""@
}

/// The matchers of a selector: a label with a value that is not blank,
/// then a second one, then the extra matchers as written.
pub open spec fn selector_matchers(
    primary_label: Seq<char>,
    primary_value: Seq<char>,
    secondary_label: Seq<char>,
    secondary_value: Seq<char>,
    extra: Seq<(Seq<char>, Seq<char>)>,
) -> Seq<Seq<char>> {
    let first: Seq<Seq<char>> = if primary_label.len() > 0 && !is_blank(primary_value) {
        seq![label_matcher(primary_label, primary_value)]
    } else {
        seq![]
    };
    let second: Seq<Seq<char>> = if secondary_label.len() > 0 && !is_blank(secondary_value) {
        seq![label_matcher(secondary_label, secondary_value)]
    } else {
        seq![]
    };
    first + second + extra.map_values(|p: (Seq<char>, Seq<char>)| p.0 + p.1)
}

/// A selector: its matchers in braces, separated by commas.
pub open spec fn selector_spec(
    primary_label: Seq<char>,
    primary_value: Seq<char>,
    secondary_label: Seq<char>,
    secondary_value: Seq<char>,
    extra: Seq<(Seq<char>, Seq<char>)>,
) -> Seq<char> {
    let m = selector_matchers(primary_label, primary_value, secondary_label, secondary_value, extra);
    if m.len() == 0 {
        "{}"@
    } else {
        "{"@ + join(m, ","@) + "}"@
    }
}

pub open spec fn pair_views(v: Seq<(&str, &str)>) -> Seq<(Seq<char>, Seq<char>)> {
    v.map_values(|p: (&str, &str)| (p.0@, p.1@))
}

fn matcher(label: &str, value: &str) -> (r: String)
    ensures
        r@ == label_matcher(label@, value@),
{
    let mut v = chars_of(label);
    append_str(&mut v, "=~\"");
    let pattern = regex_contains(value);
    append_str(&mut v, pattern.as_str());
    append_str(&mut v, "\"");
    string_of(&v)
}

/// The label selector of a query (see `selector_spec`).
pub fn build_selector(
    primary_label: &str,
    primary_value: &str,
    secondary_label: &str,
    secondary_value: &str,
    extra_matchers: &Vec<(&str, &str)>,
) -> (r: String)
    ensures
        r@ == selector_spec(
            primary_label@,
            primary_value@,
            secondary_label@,
            secondary_value@,
            pair_views(extra_matchers@),
        ),
{
    let mut matchers: Vec<String> = Vec::new();
    if !primary_label.is_empty() && !is_blank_str(primary_value) {
        matchers.push(matcher(primary_label, primary_value));
    }
    if !secondary_label.is_empty() && !is_blank_str(secondary_value) {
        matchers.push(matcher(secondary_label, secondary_value));
    }
    let ghost base = views(matchers@);
    let mut i: usize = 0;
    while i < extra_matchers.len()
        invariant
            i <= extra_matchers.len(),
            views(matchers@) == base + pair_views(extra_matchers@).take(i as int).map_values(
                |p: (Seq<char>, Seq<char>)| p.0 + p.1,
            ),
        decreases extra_matchers.len() - i,
    {
        let (label, value) = extra_matchers[i];
        let m = concat(label, value);
        let ghost before = views(matchers@);
        matchers.push(m);
        assert(views(matchers@) =~= before.push(m@));
        assert(pair_views(extra_matchers@).take(i + 1) =~= pair_views(extra_matchers@).take(
            i as int,
        ).push((label@, value@)));
        assert(views(matchers@) =~= base + pair_views(extra_matchers@).take(i + 1).map_values(
            |p: (Seq<char>, Seq<char>)| p.0 + p.1,
        ));
        i = i + 1;
    }
    assert(pair_views(extra_matchers@).take(extra_matchers.len() as int) =~= pair_views(
        extra_matchers@,
    ));
    assert(views(matchers@) =~= selector_matchers(
        primary_label@,
        primary_value@,
        secondary_label@,
        secondary_value@,
        pair_views(extra_matchers@),
    ));
    if matchers.len() == 0 {
        to_string("{}")
    } else {
        let joined = join_strings(&matchers, ",");
        let open = concat("{", joined.as_str());
        concat(open.as_str(), "}")
    }
}

/// The PromQL of a metric trend, for a service and an instance; a metric
/// the tool does not know is sent as written.
pub open spec fn trend_query_spec(metric: Seq<char>, service: Seq<char>, instance: Seq<char>) -> Seq<char> {
    let app = selector_spec("job"@, service, "instance"@, instance, seq![]);
    let app_error = selector_spec("job"@, service, "instance"@, instance, seq![("status"@, "=~\"5..\""@)]);
    let pod_value = if !is_blank(instance) {
        instance
    } else {
        service
    };
    let pod = selector_spec("pod"@, pod_value, ""@, ""@, seq![("container"@, "!\"\""@)]);
    if metric == "cpu_usage"@ {
        "100 * avg(rate(container_cpu_usage_seconds_total"@ + pod + "[5m]))"@
    } else if metric == "memory_usage"@ {
        "100 * avg(container_memory_working_set_bytes"@ + pod
            + ") / clamp_min(avg(container_spec_memory_limit_bytes"@ + pod + "), 1)"@
    } else if metric == "error_rate"@ {
        "sum(rate(http_requests_total"@ + app_error + "[5m])) / clamp_min(sum(rate(http_requests_total"@
            + app + "[5m])), 1) * 100"@
    } else if metric == "p99_latency"@ {
        "histogram_quantile(0.99, sum(rate(http_request_duration_seconds_bucket"@ + app
            + "[5m])) by (le))"@
    } else if metric == "restart_count"@ {
        "sum(increase(kube_pod_container_status_restarts_total"@ + selector_spec(
            "pod"@,
            pod_value,
            ""@,
            ""@,
            seq![],
        ) + "[5m]))"@
    } else {
        metric
    }
}

fn wrap3(a: &str, b: &str, c: &str) -> (r: String)
    ensures
        r@ == a@ + b@ + c@,
{
    let ab = concat(a, b);
    concat(ab.as_str(), c)
}

/// The PromQL of a metric trend (see `trend_query_spec`).
pub fn build_metric_trend_query(metric: &str, service: &str, instance: &str) -> (r: String)
    ensures
        r@ == trend_query_spec(metric@, service@, instance@),
{
    let no_extra: Vec<(&str, &str)> = Vec::new();
    assert(pair_views(no_extra@) =~= seq![]);
    let app = build_selector("job", service, "instance", instance, &no_extra);
    let error_extra: Vec<(&str, &str)> = vec![("status", "=~\"5..\"")];
    assert(pair_views(error_extra@) =~= seq![("status"@, "=~\"5..\""@)]);
    let app_error = build_selector("job", service, "instance", instance, &error_extra);
    let pod_value = first_non_blank(instance, service);
    let pod_extra: Vec<(&str, &str)> = vec![("container", "!\"\"")];
    assert(pair_views(pod_extra@) =~= seq![("container"@, "!\"\""@)]);
    let pod = build_selector("pod", pod_value, "", "", &pod_extra);
    if str_eq(metric, "cpu_usage") {
        wrap3("100 * avg(rate(container_cpu_usage_seconds_total", pod.as_str(), "[5m]))")
    } else if str_eq(metric, "memory_usage") {
        let head = wrap3("100 * avg(container_memory_working_set_bytes", pod.as_str(), ") / clamp_min(avg(container_spec_memory_limit_bytes");
        wrap3(head.as_str(), pod.as_str(), "), 1)")
    } else if str_eq(metric, "error_rate") {
        let head = wrap3("sum(rate(http_requests_total", app_error.as_str(), "[5m])) / clamp_min(sum(rate(http_requests_total");
        wrap3(head.as_str(), app.as_str(), "[5m])), 1) * 100")
    } else if str_eq(metric, "p99_latency") {
        wrap3("histogram_quantile(0.99, sum(rate(http_request_duration_seconds_bucket", app.as_str(), "[5m])) by (le))")
    } else if str_eq(metric, "restart_count") {
        let restart = build_selector("pod", pod_value, "", "", &no_extra);
        wrap3("sum(increase(kube_pod_container_status_restarts_total", restart.as_str(), "[5m]))")
    } else {
        to_string(metric)
    }
}

/// The metric a request names, trimmed and lowercased.
pub fn normalize_metric(metric: Option<&str>) -> (r: String)
    ensures
        r@ == lowercase(trim(match metric {
            Some(m) => m@,
            None => ""@,
        })),
{
    let m = match metric {
        Some(m) => m,
        None => "",
    };
    let t = trim_str(m);
    to_lowercase(t.as_str())
}

/// The window a request names, trimmed and lowercased, where the tool
/// supports it; else one hour.
pub open spec fn normalize_window_spec(window: Option<Seq<char>>) -> Seq<char> {
    let w = lowercase(trim(match window {
        Some(w) => w,
        None => ""@,
    }));
    if supported_window(w) {
        w
    } else {
        "1h"@
    }
}

/// The window of a trend (see `normalize_window_spec`).
pub fn normalize_window(window: Option<&str>) -> (r: String)
    ensures
        r@ == normalize_window_spec(match window {
            Some(w) => Some(w@),
            None => None,
        }),
{
    let w = match window {
        Some(w) => w,
        None => "",
    };
    let t = trim_str(w);
    let l = to_lowercase(t.as_str());
    if str_eq(l.as_str(), "15m") || str_eq(l.as_str(), "1h") || str_eq(l.as_str(), "6h") {
        l
    } else {
        to_string("1h")
    }
}

/// Whether `s` is a step: one or more decimal digits, then `s`, `m` or `h`.
pub open spec fn is_step_spec(s: Seq<char>) -> bool {
    s.len() >= 2 && all_digits(s.drop_last()) && (s.last() == 's' || s.last() == 'm' || s.last()
        == 'h')
}

/// Whether `step` is a step (see `is_step_spec`).
pub fn is_step(step: &str) -> (r: bool)
    ensures
        r == is_step_spec(step@),
{
    let v = chars_of(step);
    if v.len() < 2 {
        return false;
    }
    let n = v.len() - 1;
    let mut i: usize = 0;
    while i < n
        invariant
            n == v.len() - 1,
            v@ == step@,
            i <= n,
            forall|j: int| 0 <= j < i ==> crate::config::is_digit(#[trigger] v@[j]),
        decreases n - i,
    {
        if v[i] < '0' || v[i] > '9' {
            assert(v@.drop_last()[i as int] == v@[i as int]);
            return false;
        }
        i = i + 1;
    }
    assert forall|j: int| 0 <= j < v@.drop_last().len() implies crate::config::is_digit(
        #[trigger] v@.drop_last()[j],
    ) by {
        assert(v@.drop_last()[j] == v@[j]);
    }
    let u = v[n];
    assert(step@.last() == u);
    u == 's' || u == 'm' || u == 'h'
}

/// The sampling step of a trend: the requested one where it is a step,
/// else one that suits the window.
pub open spec fn normalize_step_spec(window: Seq<char>, step: Option<Seq<char>>) -> Seq<char> {
    let s = lowercase(trim(match step {
        Some(s) => s,
        None => ""@,
    }));
    if is_step_spec(s) {
        s
    } else if window == "15m"@ {
        "30s"@
    } else if window == "6h"@ {
        "5m"@
    } else {
        "1m"@
    }
}

/// The sampling step of a trend (see `normalize_step_spec`).
pub fn normalize_step(window: &str, step: Option<&str>) -> (r: String)
    ensures
        r@ == normalize_step_spec(
            window@,
            match step {
                Some(s) => Some(s@),
                None => None,
            },
        ),
{
    let s = match step {
        Some(s) => s,
        None => "",
    };
    let t = trim_str(s);
    let l = to_lowercase(t.as_str());
    if is_step(l.as_str()) {
        return l;
    }
    if str_eq(window, "15m") {
        to_string("30s")
    } else if str_eq(window, "6h") {
        to_string("5m")
    } else {
        to_string("1m")
    }
}

/// The length of a window in seconds.
pub open spec fn window_seconds_spec(window: Seq<char>) -> int {
    let w = normalize_window_spec(Some(window));
    if w == "15m"@ {
        900
    } else if w == "6h"@ {
        21600
    } else {
        3600
    }
}

/// The length of a window in seconds.
pub fn window_seconds(window: &str) -> (r: i64)
    ensures
        r == window_seconds_spec(window@),
{
    let w = normalize_window(Some(window));
    if str_eq(w.as_str(), "15m") {
        15 * 60
    } else if str_eq(w.as_str(), "6h") {
        6 * 3600
    } else {
        3600
    }
}

/// The seconds of one unit of a step.
pub open spec fn unit_seconds(u: char) -> int {
    if u == 's' {
        1
    } else if u == 'h' {
        3600
    } else {
        60
    }
}

/// The length of a step in seconds; a minute where it is not a step, or
/// where its number does not fit in `i64`.
pub open spec fn step_seconds_spec(step: Seq<char>) -> int {
    if !is_step_spec(step) {
        60
    } else if digits_value(step.drop_last()) > i64::MAX {
        60 * unit_seconds(step.last())
    } else {
        digits_value(step.drop_last()) * unit_seconds(step.last())
    }
}

/// The length of a step in seconds (see `step_seconds_spec`). The step's
/// number times its unit must fit in `i64`, or the multiplication
/// overflows.
pub fn parse_step_seconds(step: &str) -> (r: i64)
    requires
        is_step_spec(step@) ==> step_seconds_spec(step@) <= i64::MAX,
    ensures
        r == step_seconds_spec(step@),
{
    if !is_step(step) {
        return 60;
    }
    let v = chars_of(step);
    let n = v.len() - 1;
    let digits = crate::text::slice_chars(&v, 0, n);
    assert(digits@ =~= step@.drop_last());
    let value: i64 = match parse_uint_exec(&digits, 9223372036854775807u64) {
        Some(x) => x as i64,
        None => 60,
    };
    proof {
        if digits@.len() > 0 && digits@[0] == '+' {
            assert(!crate::config::is_digit(digits@[0]));
        }
    }
    let u = v[n];
    if u == 's' {
        value
    } else if u == 'h' {
        value * 3600
    } else {
        value * 60
    }
}

/// How many points a mock trend has: one per step across the window, and
/// one more, kept between 8 and 80.
pub open spec fn mock_point_count_spec(window: Seq<char>, step: Seq<char>) -> int {
    let w = window_seconds_spec(window);
    let s = step_seconds_spec(step);
    let count = if s <= 0 {
        20
    } else {
        w / s + 1
    };
    if count < 8 {
        8
    } else if count > 80 {
        80
    } else {
        count
    }
}

/// How many points a mock trend has (see `mock_point_count_spec`).
pub fn mock_point_count(window: &str, step: &str) -> (r: usize)
    requires
        is_step_spec(step@) ==> step_seconds_spec(step@) <= i64::MAX,
    ensures
        r == mock_point_count_spec(window@, step@),
{
    let window_secs = window_seconds(window);
    let step_secs = parse_step_seconds(step);
    let count: i64 = if step_secs <= 0 {
        20
    } else {
        window_secs / step_secs + 1
    };
    if count < 8 {
        8
    } else if count > 80 {
        80
    } else {
        count as usize
    }
}

/// A duration of whole seconds written as hours, minutes and seconds, the
/// larger units only where they are not zero; a negative one as zero.
pub open spec fn duration_spec(seconds: int) -> Seq<char> {
    let s = if seconds < 0 {
        0
    } else {
        seconds
    };
    let h = s / 3600;
    let m = (s % 3600) / 60;
    let sec = s % 60;
    if h > 0 {
        decimal(h as nat) + "h"@ + decimal(m as nat) + "m"@ + decimal(sec as nat) + "s"@
    } else if m > 0 {
        decimal(m as nat) + "m"@ + decimal(sec as nat) + "s"@
    } else {
        decimal(sec as nat) + "s"@
    }
}

/// A duration of whole seconds in words (see `duration_spec`).
pub fn duration_string(seconds: i64) -> (r: String)
    ensures
        r@ == duration_spec(seconds as int),
{
    let s: i64 = if seconds < 0 {
        0
    } else {
        seconds
    };
    let h = s / 3600;
    let m = (s % 3600) / 60;
    let sec = s % 60;
    let hs = u64_to_string(h as u64);
    let ms = u64_to_string(m as u64);
    let ss = u64_to_string(sec as u64);
    if h > 0 {
        let a = wrap3(hs.as_str(), "h", ms.as_str());
        let b = wrap3(a.as_str(), "m", ss.as_str());
        concat(b.as_str(), "s")
    } else if m > 0 {
        let a = wrap3(ms.as_str(), "m", ss.as_str());
        concat(a.as_str(), "s")
    } else {
        concat(ss.as_str(), "s")
    }
}

// ---------------------------------------------------------------------------
// Laws of the trend queries
// ---------------------------------------------------------------------------

/// The matcher that keeps only server errors.
pub open spec fn server_error_matcher() -> Seq<char> {
    "status=~\"5..\""@
}

/// `sel` with the server-error matcher added as its last matcher.
pub open spec fn with_server_errors(sel: Seq<char>) -> Seq<char> {
    if sel == "{}"@ {
        "{"@ + server_error_matcher() + "}"@
    } else {
        sel.drop_last() + ","@ + server_error_matcher() + "}"@
    }
}

/// Law: the error rate of a service is the rate of its requests answered
/// with a 5xx status over the rate of all its requests, in percent: the
/// numerator's selector is the denominator's with `status=~"5.."` added,
/// and the denominator's is the service's (and instance's) request
/// selector, as the latency query uses it.
pub proof fn law_error_rate_counts_server_errors(service: Seq<char>, instance: Seq<char>)
    ensures
        ({
            let sel = selector_spec("job"@, service, "instance"@, instance, seq![]);
            &&& trend_query_spec("error_rate"@, service, instance) == "sum(rate(http_requests_total"@
                + with_server_errors(sel) + "[5m])) / clamp_min(sum(rate(http_requests_total"@ + sel
                + "[5m])), 1) * 100"@
            &&& trend_query_spec("p99_latency"@, service, instance)
                == "histogram_quantile(0.99, sum(rate(http_request_duration_seconds_bucket"@ + sel
                + "[5m])) by (le))"@
        }),
{
    reveal_strlit("error_rate");
    reveal_strlit("cpu_usage");
    reveal_strlit("memory_usage");
    reveal_strlit("p99_latency");
    reveal_strlit("{}");
    reveal_strlit("{");
    reveal_strlit("}");
    reveal_strlit(",");
    reveal_strlit("status");
    reveal_strlit("=~\"5..\"");
    reveal_strlit("status=~\"5..\"");
    let extra = seq![("status"@, "=~\"5..\""@)];
    let base = selector_matchers("job"@, service, "instance"@, instance, seq![]);
    let m = selector_matchers("job"@, service, "instance"@, instance, extra);
    let x = server_error_matcher();
    assert("status"@ + "=~\"5..\""@ =~= x);
    assert(extra[0].0 + extra[0].1 == x);
    assert(extra.map_values(|p: (Seq<char>, Seq<char>)| p.0 + p.1) =~= seq![x]);
    assert(seq![].map_values(|p: (Seq<char>, Seq<char>)| p.0 + p.1) =~= Seq::<Seq<char>>::empty());
    assert(m =~= base.push(x));
    lemma_join_push(base, ","@, x);
    let sel = selector_spec("job"@, service, "instance"@, instance, seq![]);
    let err = selector_spec("job"@, service, "instance"@, instance, extra);
    if base.len() == 0 {
        assert(sel == "{}"@);
        assert(err == "{"@ + x + "}"@);
    } else {
        let inner = join(base, ","@);
        assert(sel =~= "{"@ + inner + "}"@);
        assert(sel.drop_last() =~= "{"@ + inner);
        assert(sel != "{}"@) by {
            if sel == "{}"@ {
                assert(sel.len() == 2);
                assert(inner.len() == 0);
                assert(base[0].len() > 0);
                assert(inner.len() >= base[0].len()) by {
                    if base.len() > 1 {
                        assert(inner == base[0] + ","@ + join(base.drop_first(), ","@));
                    }
                }
            }
        }
        assert(err =~= "{"@ + (inner + ","@ + x) + "}"@);
        assert(err =~= sel.drop_last() + ","@ + x + "}"@);
    }
    assert(err == with_server_errors(sel));
    assert("error_rate"@[0] != "cpu_usage"@[0]);
    assert("error_rate"@[0] != "memory_usage"@[0]);
    assert("p99_latency"@[0] != "cpu_usage"@[0]);
    assert("p99_latency"@[0] != "memory_usage"@[0]);
    assert("p99_latency"@[0] != "error_rate"@[0]);
    assert("error_rate"@ != "cpu_usage"@);
    assert("error_rate"@ != "memory_usage"@);
    assert("p99_latency"@ != "cpu_usage"@);
    assert("p99_latency"@ != "memory_usage"@);
    assert("p99_latency"@ != "error_rate"@);
}


} // verus!
