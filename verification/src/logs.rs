//! The log tools of the agents: the log topics there are, and the sample
//! logs answered for a topic and a query while the log service is mocked.
use vstd::prelude::*;

use crate::indexing::{number_field, text_field};
use crate::json::{json_text, str_of, to_json_string, JsonValue};
use crate::text::{
    append_str, chars_of, concat, contains, contains_chars, decimal, digit_char, is_blank,
    is_blank_str, lowercase, str_eq, string_of, to_lowercase, to_string, u64_to_string,
};

verus! {

pub const GET_LOG_TOPICS_TOOL: &'static str = "getAvailableLogTopics";

pub const QUERY_LOGS_TOOL: &'static str = "queryLogs";

pub const DEFAULT_TOPIC: &'static str = "system-metrics";

pub const DEFAULT_QUERY: &'static str = "DEFAULT_QUERY";

pub const NO_LOGS_MESSAGE: &'static str = "未找到匹配的日志";

pub const CLS_UNAVAILABLE: &'static str = "CLS 真实查询尚未实现，请启用 mock 模式进行测试";

pub const CLS_FAILED: &'static str = "查询日志失败: CLS 真实查询尚未实现，请启用 mock 模式进行测试";

pub const DEPENDENCY_ERROR: &'static str = "DEPENDENCY_ERROR";

/// Seconds east of UTC of the time zone the sample logs are stamped in.
pub const SHANGHAI_OFFSET_SECS: i32 = 28800;

/// The tool that lists the log topics.
pub struct GetAvailableLogTopicsTool;

/// The topic list takes no arguments.
pub struct GetAvailableLogTopicsArgs {}

/// The tool that queries logs; only the mocked service answers.
pub struct QueryLogsTool {
    pub mock_enabled: bool,
}

/// What the log query is asked: each part may be left out.
pub struct QueryLogsArgs {
    pub region: Option<String>,
    pub log_topic: Option<String>,
    pub query: Option<String>,
    pub limit: Option<i64>,
}

/// One log line: when, how severe, where from, what it says, and the
/// figures that go with it.
pub struct LogEntry {
    pub timestamp: String,
    pub level: String,
    pub service: String,
    pub instance: String,
    pub message: String,
    pub metrics: Vec<(String, String)>,
}

/// A log line as the contracts read it: whether its time is written as a
/// local timestamp (see `is_local_timestamp`; which time it is, the clock
/// decides), and everything else.
pub struct LogView {
    pub stamped: bool,
    pub level: Seq<char>,
    pub service: Seq<char>,
    pub instance: Seq<char>,
    pub message: Seq<char>,
    pub metrics: Seq<(Seq<char>, Seq<char>)>,
}

pub open spec fn metric_views(m: Seq<(String, String)>) -> Seq<(Seq<char>, Seq<char>)> {
    m.map_values(|p: (String, String)| (p.0@, p.1@))
}

pub open spec fn log_view(e: LogEntry) -> LogView {
    LogView {
        stamped: is_local_timestamp(e.timestamp@),
        level: e.level@,
        service: e.service@,
        instance: e.instance@,
        message: e.message@,
        metrics: metric_views(e.metrics@),
    }
}

pub open spec fn log_views(s: Seq<LogEntry>) -> Seq<LogView> {
    s.map_values(|e: LogEntry| log_view(e))
}

pub open spec fn lv(
    level: Seq<char>,
    service: Seq<char>,
    instance: Seq<char>,
    message: Seq<char>,
    metrics: Seq<(Seq<char>, Seq<char>)>,
) -> LogView {
    LogView { stamped: true, level, service, instance, message, metrics }
}

/// `n` tenths written with one decimal (`{:.1}`).
pub open spec fn tenths_text(n: nat) -> Seq<char> {
    decimal(n / 10) + seq!['.', digit_char((n % 10) as int)]
}

fn tenths(n: u64) -> (r: String)
    ensures
        r@ == tenths_text(n as nat),
{
    let mut v = chars_of(u64_to_string(n / 10).as_str());
    v.push('.');
    v.push(((n % 10) as u8 + 48u8) as char);
    proof {
        assert(((n % 10) as u8 + 48u8) as char == digit_char((n % 10) as int));
    }
    string_of(&v)
}

fn dec(n: u64) -> (r: String)
    ensures
        r@ == decimal(n as nat),
{
    u64_to_string(n)
}

/// Whether `c` is a decimal digit.
pub open spec fn is_digit(c: char) -> bool {
    '0' <= c <= '9'
}

/// A time written `%Y-%m-%d %H:%M:%S`: the year in four digits (a sign
/// and at least four digits outside years 0 to 9999), then
/// `-MM-DD HH:MM:SS` in two digits each.
pub open spec fn is_local_timestamp(s: Seq<char>) -> bool {
    &&& s.len() >= 19
    &&& {
        let y = s.take(s.len() - 15);
        let t = s.skip(s.len() - 15);
        &&& (y.len() == 4 && forall|i: int| 0 <= i < 4 ==> is_digit(#[trigger] y[i])) || (y.len()
            >= 5 && (y[0] == '+' || y[0] == '-') && forall|i: int|
            1 <= i < y.len() ==> is_digit(#[trigger] y[i]))
        &&& t[0] == '-' && t[3] == '-' && t[6] == ' ' && t[9] == ':' && t[12] == ':'
        &&& forall|i: int|
            0 <= i < 15 && i != 0 && i != 3 && i != 6 && i != 9 && i != 12 ==> is_digit(
                #[trigger] t[i],
            )
    }
}

/// The local time `minutes` ago at `offset_secs` east of UTC, written
/// `%Y-%m-%d %H:%M:%S` (`chrono`'s `format`, which writes each field in
/// two digits and the year in four, with a sign outside years 0 to 9999).
/// Which time it is, the clock decides: only its shape is stated.
#[verifier::external_body]
fn local_time_minus(offset_secs: i32, minutes: i64) -> (r: String)
    requires
        -86_399 <= offset_secs <= 86_399,
        0 <= minutes <= 1000,
    ensures
        is_local_timestamp(r@),
{
    let offset = chrono::FixedOffset::east_opt(offset_secs).expect("offset within a day");
    (chrono::Utc::now() - chrono::Duration::minutes(minutes)).with_timezone(&offset).format(
        "%Y-%m-%d %H:%M:%S",
    ).to_string()
}

fn kv(k: &str, v: &str) -> (r: (String, String))
    ensures
        r.0@ == k@,
        r.1@ == v@,
{
    (to_string(k), to_string(v))
}

fn kvs(k: &str, v: String) -> (r: (String, String))
    ensures
        r.0@ == k@,
        r.1@ == v@,
{
    (to_string(k), v)
}

/// A log line stamped `minutes` ago in Shanghai time.
fn entry(
    minutes: i64,
    level: &str,
    service: &str,
    instance: &str,
    message: String,
    metrics: Vec<(String, String)>,
) -> (r: LogEntry)
    requires
        0 <= minutes <= 1000,
    ensures
        log_view(r) == lv(level@, service@, instance@, message@, metric_views(metrics@)),
{
    LogEntry {
        timestamp: local_time_minus(SHANGHAI_OFFSET_SECS, minutes),
        level: to_string(level),
        service: to_string(service),
        instance: to_string(instance),
        message,
        metrics,
    }
}

fn has(q: &Vec<char>, needle: &str) -> (r: bool)
    ensures
        r == contains(q@, needle@),
{
    contains_chars(q, &chars_of(needle))
}

// ---------------------------------------------------------------------------
// System metrics
// ---------------------------------------------------------------------------

pub open spec fn cpu_entry(i: int) -> LogView {
    let cpu = tenths_text((920 - 15 * i) as nat);
    lv(
        "WARN"@,
        "payment-service"@,
        "pod-payment-service-7d8f9c6b5-x2k4m"@,
        "CPU使用率过高: "@ + cpu + "%, 进程: java (PID: 1), 线程数: 245"@,
        seq![
            ("cpu_usage"@, cpu),
            ("cpu_cores"@, "4"@),
            ("load_average_1m"@, "3.82"@),
            ("load_average_5m"@, "3.65"@),
            ("top_process"@, "java"@),
            ("process_threads"@, "245"@),
        ],
    )
}

pub open spec fn memory_entry(i: int) -> LogView {
    let mem = tenths_text((910 - 12 * i) as nat);
    let heap = tenths_text((38 - i) as nat);
    lv(
        "WARN"@,
        "order-service"@,
        "pod-order-service-5c7d8e9f1-m3n2p"@,
        "内存使用率过高: "@ + mem + "%, JVM堆内存: "@ + heap + "GB/4GB, GC次数: "@ + decimal(
            (128 - 5 * i) as nat,
        ),
        seq![
            ("memory_usage"@, mem),
            ("jvm_heap_used"@, heap + "GB"@),
            ("jvm_heap_max"@, "4GB"@),
            ("gc_count"@, decimal((128 - 5 * i) as nat)),
            ("gc_time_ms"@, decimal((1250 + 50 * i) as nat)),
        ],
    )
}

pub open spec fn gc_entry() -> LogView {
    lv(
        "WARN"@,
        "order-service"@,
        "pod-order-service-5c7d8e9f1-m3n2p"@,
        "频繁 Full GC 警告: 过去10分钟内发生 15 次 Full GC, 平均耗时 850ms, 建议检查内存泄漏"@,
        seq![
            ("full_gc_count"@, "15"@),
            ("avg_gc_time_ms"@, "850"@),
            ("survivor_space"@, "95%"@),
            ("old_gen"@, "89%"@),
        ],
    )
}

pub open spec fn disk_entry(i: int) -> LogView {
    let usage = tenths_text((850 + 20 * i) as nat);
    let avail = tenths_text((150 - 20 * i) as nat);
    lv(
        "WARN"@,
        "log-collector"@,
        "node-worker-01"@,
        "磁盘使用率告警: /data 分区使用率 "@ + usage + "%, 可用空间: "@ + avail + "GB"@,
        seq![
            ("disk_usage"@, usage + "%"@),
            ("disk_available"@, avail + "GB"@),
            ("disk_total"@, "100GB"@),
            ("mount_point"@, "/data"@),
            ("largest_dir"@, "/data/logs"@),
        ],
    )
}

pub open spec fn asks_cpu(q: Seq<char>) -> bool {
    contains(q, "cpu"@) || contains(q, ">80"@)
}

pub open spec fn asks_memory(q: Seq<char>) -> bool {
    contains(q, "memory"@) || contains(q, ">85"@) || contains(q, "oom"@)
}

pub open spec fn asks_disk(q: Seq<char>) -> bool {
    contains(q, "disk"@) || contains(q, "filesystem"@)
}

/// The system metric logs a (lowercased) query finds.
pub open spec fn system_metrics_spec(q: Seq<char>) -> Seq<LogView> {
    (if asks_cpu(q) {
        Seq::new(5, |i: int| cpu_entry(i))
    } else {
        seq![]
    }) + (if asks_memory(q) {
        Seq::new(5, |i: int| memory_entry(i)).push(gc_entry())
    } else {
        seq![]
    }) + (if asks_disk(q) {
        Seq::new(3, |i: int| disk_entry(i))
    } else {
        seq![]
    })
}

fn build_system_metrics_logs(q: &Vec<char>) -> (r: Vec<LogEntry>)
    ensures
        log_views(r@) == system_metrics_spec(q@),
{
    let mut logs: Vec<LogEntry> = Vec::new();
    if has(q, "cpu") || has(q, ">80") {
        let mut i: u64 = 0;
        while i < 5
            invariant
                i <= 5,
                log_views(logs@) == Seq::new(i as nat, |k: int| cpu_entry(k)),
            decreases 5 - i,
        {
            let cpu = tenths(920 - 15 * i);
            let mut msg = chars_of("CPU使用率过高: ");
            append_str(&mut msg, cpu.as_str());
            append_str(&mut msg, "%, 进程: java (PID: 1), 线程数: 245");
            let mut m: Vec<(String, String)> = Vec::new();
            m.push(kvs("cpu_usage", cpu));
            m.push(kv("cpu_cores", "4"));
            m.push(kv("load_average_1m", "3.82"));
            m.push(kv("load_average_5m", "3.65"));
            m.push(kv("top_process", "java"));
            m.push(kv("process_threads", "245"));
            let e = entry(
                (i * 2) as i64,
                "WARN",
                "payment-service",
                "pod-payment-service-7d8f9c6b5-x2k4m",
                string_of(&msg),
                m,
            );
            assert(metric_views(e.metrics@) =~= cpu_entry(i as int).metrics);
            assert(e.message@ =~= cpu_entry(i as int).message);
            assert(log_view(e) == cpu_entry(i as int));
            let ghost before = logs@;
            logs.push(e);
            assert(log_views(logs@) =~= log_views(before).push(log_view(e)));
            assert(log_views(logs@) =~= Seq::new((i + 1) as nat, |k: int| cpu_entry(k)));
            i = i + 1;
        }
    }
    let ghost part1 = log_views(logs@);
    if has(q, "memory") || has(q, ">85") || has(q, "oom") {
        let mut i: u64 = 0;
        while i < 5
            invariant
                i <= 5,
                log_views(logs@) == part1 + Seq::new(i as nat, |k: int| memory_entry(k)),
            decreases 5 - i,
        {
            let mem = tenths(910 - 12 * i);
            let heap = tenths(38 - i);
            let gc = dec(128 - 5 * i);
            let mut msg = chars_of("内存使用率过高: ");
            append_str(&mut msg, mem.as_str());
            append_str(&mut msg, "%, JVM堆内存: ");
            append_str(&mut msg, heap.as_str());
            append_str(&mut msg, "GB/4GB, GC次数: ");
            append_str(&mut msg, gc.as_str());
            let mut m: Vec<(String, String)> = Vec::new();
            m.push(kvs("memory_usage", mem));
            m.push(kvs("jvm_heap_used", concat(heap.as_str(), "GB")));
            m.push(kv("jvm_heap_max", "4GB"));
            m.push(kvs("gc_count", gc));
            m.push(kvs("gc_time_ms", dec(1250 + 50 * i)));
            let e = entry(
                (i * 3) as i64,
                "WARN",
                "order-service",
                "pod-order-service-5c7d8e9f1-m3n2p",
                string_of(&msg),
                m,
            );
            assert(metric_views(e.metrics@) =~= memory_entry(i as int).metrics);
            assert(e.message@ =~= memory_entry(i as int).message);
            assert(log_view(e) == memory_entry(i as int));
            let ghost before = logs@;
            logs.push(e);
            assert(log_views(logs@) =~= log_views(before).push(log_view(e)));
            assert(log_views(logs@) =~= part1 + Seq::new((i + 1) as nat, |k: int| memory_entry(k)));
            i = i + 1;
        }
        let mut m: Vec<(String, String)> = Vec::new();
        m.push(kv("full_gc_count", "15"));
        m.push(kv("avg_gc_time_ms", "850"));
        m.push(kv("survivor_space", "95%"));
        m.push(kv("old_gen", "89%"));
        let e = entry(
            8,
            "WARN",
            "order-service",
            "pod-order-service-5c7d8e9f1-m3n2p",
            to_string("频繁 Full GC 警告: 过去10分钟内发生 15 次 Full GC, 平均耗时 850ms, 建议检查内存泄漏"),
            m,
        );
        assert(metric_views(e.metrics@) =~= gc_entry().metrics);
        assert(log_view(e) == gc_entry());
        let ghost before = logs@;
        logs.push(e);
        assert(log_views(logs@) =~= log_views(before).push(log_view(e)));
    }
    let ghost part2 = log_views(logs@);
    if has(q, "disk") || has(q, "filesystem") {
        let mut i: u64 = 0;
        while i < 3
            invariant
                i <= 3,
                log_views(logs@) == part2 + Seq::new(i as nat, |k: int| disk_entry(k)),
            decreases 3 - i,
        {
            let usage = tenths(850 + 20 * i);
            let avail = tenths(150 - 20 * i);
            let mut msg = chars_of("磁盘使用率告警: /data 分区使用率 ");
            append_str(&mut msg, usage.as_str());
            append_str(&mut msg, "%, 可用空间: ");
            append_str(&mut msg, avail.as_str());
            append_str(&mut msg, "GB");
            let mut m: Vec<(String, String)> = Vec::new();
            m.push(kvs("disk_usage", concat(usage.as_str(), "%")));
            m.push(kvs("disk_available", concat(avail.as_str(), "GB")));
            m.push(kv("disk_total", "100GB"));
            m.push(kv("mount_point", "/data"));
            m.push(kv("largest_dir", "/data/logs"));
            let e = entry(
                (i * 5) as i64,
                "WARN",
                "log-collector",
                "node-worker-01",
                string_of(&msg),
                m,
            );
            assert(metric_views(e.metrics@) =~= disk_entry(i as int).metrics);
            assert(e.message@ =~= disk_entry(i as int).message);
            assert(log_view(e) == disk_entry(i as int));
            let ghost before = logs@;
            logs.push(e);
            assert(log_views(logs@) =~= log_views(before).push(log_view(e)));
            assert(log_views(logs@) =~= part2 + Seq::new((i + 1) as nat, |k: int| disk_entry(k)));
            i = i + 1;
        }
    }
    proof {
        assert(log_views(logs@) =~= system_metrics_spec(q@));
    }
    logs
}

// ---------------------------------------------------------------------------
// Application logs
// ---------------------------------------------------------------------------

pub open spec fn pool_entry() -> LogView {
    lv(
        "ERROR"@,
        "order-service"@,
        "pod-order-service-5c7d8e9f1-m3n2p"@,
        "数据库连接池耗尽: Cannot acquire connection from pool, active: 50/50, waiting: 23, timeout: 30000ms"@,
        seq![
            ("error_type"@, "ConnectionPoolExhaustedException"@),
            ("pool_active"@, "50"@),
            ("pool_max"@, "50"@),
            ("waiting_threads"@, "23"@),
        ],
    )
}

pub open spec fn heap_entry() -> LogView {
    lv(
        "FATAL"@,
        "order-service"@,
        "pod-order-service-5c7d8e9f1-m3n2p"@,
        "java.lang.OutOfMemoryError: Java heap space at com.example.order.service.OrderService.processLargeOrder(OrderService.java:156)"@,
        seq![
            ("error_type"@, "OutOfMemoryError"@),
            ("heap_used"@, "3.9GB"@),
            ("heap_max"@, "4GB"@),
            ("stack_trace"@, "OrderService.processLargeOrder -> OrderRepository.findByCondition -> HikariPool.getConnection"@),
        ],
    )
}

pub open spec fn http500_entry(i: int) -> LogView {
    let ms = decimal((5200 + 300 * i) as nat);
    lv(
        "ERROR"@,
        "user-service"@,
        "pod-user-service-8e9f0a1b2-k5j6h"@,
        "HTTP 500 Internal Server Error: /api/v1/users/profile, 耗时: "@ + ms
            + "ms, 错误: Database query timeout"@,
        seq![
            ("http_status"@, "500"@),
            ("uri"@, "/api/v1/users/profile"@),
            ("method"@, "GET"@),
            ("duration_ms"@, ms),
            ("error_cause"@, "QueryTimeoutException"@),
        ],
    )
}

pub open spec fn slow_uri(i: int) -> Seq<char> {
    if i % 2 == 0 {
        "/api/v1/users/profile"@
    } else {
        "/api/v1/users/orders"@
    }
}

pub open spec fn slow_entry(i: int) -> LogView {
    let ms = decimal((4200 - 150 * i) as nat);
    lv(
        "WARN"@,
        "user-service"@,
        "pod-user-service-8e9f0a1b2-k5j6h"@,
        "慢请求警告: "@ + slow_uri(i) + ", 响应时间: "@ + ms + "ms, 阈值: 3000ms"@,
        seq![
            ("uri"@, slow_uri(i)),
            ("response_time_ms"@, ms),
            ("threshold_ms"@, "3000"@),
            ("db_time_ms"@, decimal((3800 - 100 * i) as nat)),
            ("cache_hit"@, "false"@),
        ],
    )
}

pub open spec fn redis_entry() -> LogView {
    lv(
        "ERROR"@,
        "payment-service"@,
        "pod-payment-service-7d8f9c6b5-x2k4m"@,
        "Redis 连接超时: 无法连接到 Redis 集群, 节点: redis-cluster-01:6379, 超时: 3000ms"@,
        seq![
            ("dependency"@, "redis"@),
            ("host"@, "redis-cluster-01:6379"@),
            ("timeout_ms"@, "3000"@),
            ("retry_count"@, "3"@),
        ],
    )
}

pub open spec fn queue_entry() -> LogView {
    lv(
        "WARN"@,
        "order-service"@,
        "pod-order-service-5c7d8e9f1-m3n2p"@,
        "消息队列积压警告: 队列 order-process-queue 积压消息数: 15823, 消费速率下降"@,
        seq![
            ("dependency"@, "rabbitmq"@),
            ("queue"@, "order-process-queue"@),
            ("pending_messages"@, "15823"@),
            ("consumer_count"@, "3"@),
        ],
    )
}

pub open spec fn asks_errors(q: Seq<char>) -> bool {
    contains(q, "error"@) || contains(q, "fatal"@) || contains(q, "500"@)
}

pub open spec fn asks_slow(q: Seq<char>) -> bool {
    contains(q, "response_time"@) || contains(q, "slow"@) || contains(q, ">3000"@)
}

pub open spec fn asks_dependencies(q: Seq<char>) -> bool {
    contains(q, "downstream"@) || contains(q, "redis"@) || contains(q, "database"@) || contains(
        q,
        "mq"@,
    )
}

/// The application logs a (lowercased) query finds.
pub open spec fn application_logs_spec(q: Seq<char>) -> Seq<LogView> {
    (if asks_errors(q) {
        seq![pool_entry(), heap_entry()] + Seq::new(3, |i: int| http500_entry(i))
    } else {
        seq![]
    }) + (if asks_slow(q) {
        Seq::new(5, |i: int| slow_entry(i))
    } else {
        seq![]
    }) + (if asks_dependencies(q) {
        seq![redis_entry(), queue_entry()]
    } else {
        seq![]
    })
}

fn push_entry(logs: &mut Vec<LogEntry>, e: LogEntry)
    ensures
        final(logs)@ == old(logs)@.push(e),
        log_views(final(logs)@) == log_views(old(logs)@).push(log_view(e)),
{
    let ghost before = logs@;
    logs.push(e);
    assert(log_views(logs@) =~= log_views(before).push(log_view(e)));
}

fn build_application_logs(q: &Vec<char>) -> (r: Vec<LogEntry>)
    ensures
        log_views(r@) == application_logs_spec(q@),
{
    let mut logs: Vec<LogEntry> = Vec::new();
    if has(q, "error") || has(q, "fatal") || has(q, "500") {
        let mut m: Vec<(String, String)> = Vec::new();
        m.push(kv("error_type", "ConnectionPoolExhaustedException"));
        m.push(kv("pool_active", "50"));
        m.push(kv("pool_max", "50"));
        m.push(kv("waiting_threads", "23"));
        let e = entry(
            5,
            "ERROR",
            "order-service",
            "pod-order-service-5c7d8e9f1-m3n2p",
            to_string("数据库连接池耗尽: Cannot acquire connection from pool, active: 50/50, waiting: 23, timeout: 30000ms"),
            m,
        );
        assert(metric_views(e.metrics@) =~= pool_entry().metrics);
        push_entry(&mut logs, e);
        let mut m: Vec<(String, String)> = Vec::new();
        m.push(kv("error_type", "OutOfMemoryError"));
        m.push(kv("heap_used", "3.9GB"));
        m.push(kv("heap_max", "4GB"));
        m.push(kv("stack_trace", "OrderService.processLargeOrder -> OrderRepository.findByCondition -> HikariPool.getConnection"));
        let e = entry(
            12,
            "FATAL",
            "order-service",
            "pod-order-service-5c7d8e9f1-m3n2p",
            to_string("java.lang.OutOfMemoryError: Java heap space at com.example.order.service.OrderService.processLargeOrder(OrderService.java:156)"),
            m,
        );
        assert(metric_views(e.metrics@) =~= heap_entry().metrics);
        push_entry(&mut logs, e);
        assert(log_views(logs@) =~= seq![pool_entry(), heap_entry()]);
        let ghost head = log_views(logs@);
        let mut i: u64 = 0;
        while i < 3
            invariant
                i <= 3,
                log_views(logs@) == head + Seq::new(i as nat, |k: int| http500_entry(k)),
            decreases 3 - i,
        {
            let ms = dec(5200 + 300 * i);
            let mut msg = chars_of("HTTP 500 Internal Server Error: /api/v1/users/profile, 耗时: ");
            append_str(&mut msg, ms.as_str());
            append_str(&mut msg, "ms, 错误: Database query timeout");
            let mut m: Vec<(String, String)> = Vec::new();
            m.push(kv("http_status", "500"));
            m.push(kv("uri", "/api/v1/users/profile"));
            m.push(kv("method", "GET"));
            m.push(kvs("duration_ms", ms));
            m.push(kv("error_cause", "QueryTimeoutException"));
            let e = entry(
                (3 + i) as i64,
                "ERROR",
                "user-service",
                "pod-user-service-8e9f0a1b2-k5j6h",
                string_of(&msg),
                m,
            );
            assert(metric_views(e.metrics@) =~= http500_entry(i as int).metrics);
            assert(e.message@ =~= http500_entry(i as int).message);
            push_entry(&mut logs, e);
            assert(log_views(logs@) =~= head + Seq::new((i + 1) as nat, |k: int| http500_entry(k)));
            i = i + 1;
        }
    }
    let ghost part1 = log_views(logs@);
    if has(q, "response_time") || has(q, "slow") || has(q, ">3000") {
        let mut i: u64 = 0;
        while i < 5
            invariant
                i <= 5,
                log_views(logs@) == part1 + Seq::new(i as nat, |k: int| slow_entry(k)),
            decreases 5 - i,
        {
            let uri = if i % 2 == 0 {
                "/api/v1/users/profile"
            } else {
                "/api/v1/users/orders"
            };
            assert(uri@ == slow_uri(i as int));
            let ms = dec(4200 - 150 * i);
            let mut msg = chars_of("慢请求警告: ");
            append_str(&mut msg, uri);
            append_str(&mut msg, ", 响应时间: ");
            append_str(&mut msg, ms.as_str());
            append_str(&mut msg, "ms, 阈值: 3000ms");
            let mut m: Vec<(String, String)> = Vec::new();
            m.push(kv("uri", uri));
            m.push(kvs("response_time_ms", ms));
            m.push(kv("threshold_ms", "3000"));
            m.push(kvs("db_time_ms", dec(3800 - 100 * i)));
            m.push(kv("cache_hit", "false"));
            let e = entry(
                (i * 2) as i64,
                "WARN",
                "user-service",
                "pod-user-service-8e9f0a1b2-k5j6h",
                string_of(&msg),
                m,
            );
            assert(metric_views(e.metrics@) =~= slow_entry(i as int).metrics);
            assert(e.message@ =~= slow_entry(i as int).message);
            push_entry(&mut logs, e);
            assert(log_views(logs@) =~= part1 + Seq::new((i + 1) as nat, |k: int| slow_entry(k)));
            i = i + 1;
        }
    }
    let ghost part2 = log_views(logs@);
    if has(q, "downstream") || has(q, "redis") || has(q, "database") || has(q, "mq") {
        let mut m: Vec<(String, String)> = Vec::new();
        m.push(kv("dependency", "redis"));
        m.push(kv("host", "redis-cluster-01:6379"));
        m.push(kv("timeout_ms", "3000"));
        m.push(kv("retry_count", "3"));
        let e = entry(
            7,
            "ERROR",
            "payment-service",
            "pod-payment-service-7d8f9c6b5-x2k4m",
            to_string("Redis 连接超时: 无法连接到 Redis 集群, 节点: redis-cluster-01:6379, 超时: 3000ms"),
            m,
        );
        assert(metric_views(e.metrics@) =~= redis_entry().metrics);
        push_entry(&mut logs, e);
        let mut m: Vec<(String, String)> = Vec::new();
        m.push(kv("dependency", "rabbitmq"));
        m.push(kv("queue", "order-process-queue"));
        m.push(kv("pending_messages", "15823"));
        m.push(kv("consumer_count", "3"));
        let e = entry(
            9,
            "WARN",
            "order-service",
            "pod-order-service-5c7d8e9f1-m3n2p",
            to_string("消息队列积压警告: 队列 order-process-queue 积压消息数: 15823, 消费速率下降"),
            m,
        );
        assert(metric_views(e.metrics@) =~= queue_entry().metrics);
        push_entry(&mut logs, e);
        assert(log_views(logs@) =~= part2 + seq![redis_entry(), queue_entry()]);
    }
    proof {
        assert(log_views(logs@) =~= application_logs_spec(q@));
    }
    logs
}

// ---------------------------------------------------------------------------
// Slow queries, system events, and any other topic
// ---------------------------------------------------------------------------

pub open spec fn slow_query_entries() -> Seq<LogView> {
    seq![
        lv(
            "WARN"@,
            "mysql"@,
            "mysql-primary-01"@,
            "慢查询: SELECT * FROM orders WHERE user_id = ? AND status IN (?, ?, ?) ORDER BY created_at DESC LIMIT 100, 执行时间: 3.2s, 扫描行数: 1,245,678"@,
            seq![
                ("query_time_sec"@, "3.2"@),
                ("rows_examined"@, "1245678"@),
                ("rows_returned"@, "100"@),
                ("index_used"@, "idx_user_id"@),
                ("table"@, "orders"@),
                ("query_type"@, "SELECT"@),
            ],
        ),
        lv(
            "WARN"@,
            "mysql"@,
            "mysql-primary-01"@,
            "慢查询: SELECT u.*, p.* FROM users u LEFT JOIN user_profiles p ON u.id = p.user_id WHERE u.last_login > ?, 执行时间: 2.8s, 全表扫描"@,
            seq![
                ("query_time_sec"@, "2.8"@),
                ("rows_examined"@, "856234"@),
                ("rows_returned"@, "45678"@),
                ("index_used"@, "NONE"@),
                ("table"@, "users, user_profiles"@),
                ("query_type"@, "SELECT"@),
                ("warning"@, "Full table scan detected"@),
            ],
        ),
        lv(
            "WARN"@,
            "mysql"@,
            "mysql-primary-01"@,
            "慢查询: UPDATE orders SET status = ? WHERE created_at < ? AND status = ?, 执行时间: 4.5s, 锁等待时间: 2.1s"@,
            seq![
                ("query_time_sec"@, "4.5"@),
                ("lock_time_sec"@, "2.1"@),
                ("rows_affected"@, "23456"@),
                ("table"@, "orders"@),
                ("query_type"@, "UPDATE"@),
                ("warning"@, "High lock contention"@),
            ],
        ),
    ]
}

fn build_database_slow_query_logs() -> (r: Vec<LogEntry>)
    ensures
        log_views(r@) == slow_query_entries(),
{
    let mut logs: Vec<LogEntry> = Vec::new();
    let mut m: Vec<(String, String)> = Vec::new();
    m.push(kv("query_time_sec", "3.2"));
    m.push(kv("rows_examined", "1245678"));
    m.push(kv("rows_returned", "100"));
    m.push(kv("index_used", "idx_user_id"));
    m.push(kv("table", "orders"));
    m.push(kv("query_type", "SELECT"));
    let e = entry(
        3,
        "WARN",
        "mysql",
        "mysql-primary-01",
        to_string("慢查询: SELECT * FROM orders WHERE user_id = ? AND status IN (?, ?, ?) ORDER BY created_at DESC LIMIT 100, 执行时间: 3.2s, 扫描行数: 1,245,678"),
        m,
    );
    assert(metric_views(e.metrics@) =~= slow_query_entries()[0].metrics);
    push_entry(&mut logs, e);
    let mut m: Vec<(String, String)> = Vec::new();
    m.push(kv("query_time_sec", "2.8"));
    m.push(kv("rows_examined", "856234"));
    m.push(kv("rows_returned", "45678"));
    m.push(kv("index_used", "NONE"));
    m.push(kv("table", "users, user_profiles"));
    m.push(kv("query_type", "SELECT"));
    m.push(kv("warning", "Full table scan detected"));
    let e = entry(
        6,
        "WARN",
        "mysql",
        "mysql-primary-01",
        to_string("慢查询: SELECT u.*, p.* FROM users u LEFT JOIN user_profiles p ON u.id = p.user_id WHERE u.last_login > ?, 执行时间: 2.8s, 全表扫描"),
        m,
    );
    assert(metric_views(e.metrics@) =~= slow_query_entries()[1].metrics);
    push_entry(&mut logs, e);
    let mut m: Vec<(String, String)> = Vec::new();
    m.push(kv("query_time_sec", "4.5"));
    m.push(kv("lock_time_sec", "2.1"));
    m.push(kv("rows_affected", "23456"));
    m.push(kv("table", "orders"));
    m.push(kv("query_type", "UPDATE"));
    m.push(kv("warning", "High lock contention"));
    let e = entry(
        8,
        "WARN",
        "mysql",
        "mysql-primary-01",
        to_string("慢查询: UPDATE orders SET status = ? WHERE created_at < ? AND status = ?, 执行时间: 4.5s, 锁等待时间: 2.1s"),
        m,
    );
    assert(metric_views(e.metrics@) =~= slow_query_entries()[2].metrics);
    push_entry(&mut logs, e);
    assert(log_views(logs@) =~= slow_query_entries());
    logs
}

pub open spec fn event_entries() -> Seq<LogView> {
    seq![
        lv(
            "WARN"@,
            "kubernetes"@,
            "kube-controller-manager"@,
            "Pod 重启事件: pod-order-service-5c7d8e9f1-m3n2p, 原因: OOMKilled, 容器退出码: 137, 重启次数: 3"@,
            seq![
                ("event_type"@, "PodRestart"@),
                ("pod"@, "pod-order-service-5c7d8e9f1-m3n2p"@),
                ("reason"@, "OOMKilled"@),
                ("exit_code"@, "137"@),
                ("restart_count"@, "3"@),
                ("namespace"@, "production"@),
            ],
        ),
        lv(
            "ERROR"@,
            "kernel"@,
            "node-worker-02"@,
            "OOM Killer 触发: 进程 java (PID: 12345) 被杀死, 内存使用: 3.9GB, 内存限制: 4GB"@,
            seq![
                ("event_type"@, "OOMKill"@),
                ("process"@, "java"@),
                ("pid"@, "12345"@),
                ("memory_used"@, "3.9GB"@),
                ("memory_limit"@, "4GB"@),
                ("cgroup"@, "/kubepods/pod-order-service"@),
            ],
        ),
    ]
}

pub open spec fn asks_events(q: Seq<char>) -> bool {
    contains(q, "restart"@) || contains(q, "crash"@) || contains(q, "oom_kill"@)
}

/// The system events a (lowercased) query finds.
pub open spec fn system_events_spec(q: Seq<char>) -> Seq<LogView> {
    if asks_events(q) {
        event_entries()
    } else {
        seq![]
    }
}

fn build_system_events_logs(q: &Vec<char>) -> (r: Vec<LogEntry>)
    ensures
        log_views(r@) == system_events_spec(q@),
{
    let mut logs: Vec<LogEntry> = Vec::new();
    if has(q, "restart") || has(q, "crash") || has(q, "oom_kill") {
        let mut m: Vec<(String, String)> = Vec::new();
        m.push(kv("event_type", "PodRestart"));
        m.push(kv("pod", "pod-order-service-5c7d8e9f1-m3n2p"));
        m.push(kv("reason", "OOMKilled"));
        m.push(kv("exit_code", "137"));
        m.push(kv("restart_count", "3"));
        m.push(kv("namespace", "production"));
        let e = entry(
            15,
            "WARN",
            "kubernetes",
            "kube-controller-manager",
            to_string("Pod 重启事件: pod-order-service-5c7d8e9f1-m3n2p, 原因: OOMKilled, 容器退出码: 137, 重启次数: 3"),
            m,
        );
        assert(metric_views(e.metrics@) =~= event_entries()[0].metrics);
        push_entry(&mut logs, e);
        let mut m: Vec<(String, String)> = Vec::new();
        m.push(kv("event_type", "OOMKill"));
        m.push(kv("process", "java"));
        m.push(kv("pid", "12345"));
        m.push(kv("memory_used", "3.9GB"));
        m.push(kv("memory_limit", "4GB"));
        m.push(kv("cgroup", "/kubepods/pod-order-service"));
        let e = entry(
            16,
            "ERROR",
            "kernel",
            "node-worker-02",
            to_string("OOM Killer 触发: 进程 java (PID: 12345) 被杀死, 内存使用: 3.9GB, 内存限制: 4GB"),
            m,
        );
        assert(metric_views(e.metrics@) =~= event_entries()[1].metrics);
        push_entry(&mut logs, e);
        assert(log_views(logs@) =~= event_entries());
    }
    logs
}

pub open spec fn generic_level(i: int) -> Seq<char> {
    if i % 3 == 0 {
        "ERROR"@
    } else if i % 3 == 1 {
        "WARN"@
    } else {
        "INFO"@
    }
}

pub open spec fn generic_entry(i: int, q: Seq<char>) -> LogView {
    lv(
        generic_level(i),
        "generic-service"@,
        "instance-"@ + decimal(i as nat),
        "日志消息 #"@ + decimal(i as nat) + ", 查询条件: "@ + q,
        seq![],
    )
}

/// At most ten numbered lines of a service that echo the query.
pub open spec fn generic_logs_spec(q: Seq<char>, limit: nat) -> Seq<LogView> {
    Seq::new(if limit < 10 {
        limit
    } else {
        10
    }, |i: int| generic_entry(i, q))
}

fn build_generic_logs(q: &Vec<char>, limit: usize) -> (r: Vec<LogEntry>)
    ensures
        log_views(r@) == generic_logs_spec(q@, limit as nat),
{
    let n: u64 = if limit < 10 {
        limit as u64
    } else {
        10
    };
    let mut logs: Vec<LogEntry> = Vec::new();
    let mut i: u64 = 0;
    while i < n
        invariant
            n <= 10,
            n == (if limit < 10 {
                limit as nat
            } else {
                10
            }),
            i <= n,
            log_views(logs@) == Seq::new(i as nat, |k: int| generic_entry(k, q@)),
        decreases n - i,
    {
        let level = if i % 3 == 0 {
            "ERROR"
        } else if i % 3 == 1 {
            "WARN"
        } else {
            "INFO"
        };
        assert(level@ == generic_level(i as int));
        let num = dec(i);
        let instance = concat("instance-", num.as_str());
        let mut msg = chars_of("日志消息 #");
        append_str(&mut msg, num.as_str());
        append_str(&mut msg, ", 查询条件: ");
        crate::text::append_chars(&mut msg, q);
        let e = entry(i as i64, level, "generic-service", instance.as_str(), string_of(&msg), Vec::new());
        assert(metric_views(e.metrics@) =~= generic_entry(i as int, q@).metrics);
        assert(e.message@ =~= generic_entry(i as int, q@).message);
        push_entry(&mut logs, e);
        assert(log_views(logs@) =~= Seq::new((i + 1) as nat, |k: int| generic_entry(k, q@)));
        i = i + 1;
    }
    logs
}

/// The sample logs of a topic for a query, at most `limit` of them: the
/// topic is the default one where none is given, topic and query are
/// lowercased, and a topic or query that finds nothing gets the generic
/// lines.
pub open spec fn mock_logs_spec(topic: Seq<char>, query: Seq<char>, limit: nat) -> Seq<LogView> {
    let t = if topic.len() == 0 {
        DEFAULT_TOPIC@
    } else {
        lowercase(topic)
    };
    let q = lowercase(query);
    let found = if t == DEFAULT_TOPIC@ {
        system_metrics_spec(q)
    } else if t == "application-logs"@ {
        application_logs_spec(q)
    } else if t == "database-slow-query"@ {
        slow_query_entries()
    } else if t == "system-events"@ {
        system_events_spec(q)
    } else {
        generic_logs_spec(q, limit)
    };
    let logs = if found.len() == 0 {
        generic_logs_spec(q, limit)
    } else {
        found
    };
    if logs.len() > limit {
        logs.take(limit as int)
    } else {
        logs
    }
}

/// The sample logs of a topic for a query (see `mock_logs_spec`).
pub fn build_mock_logs(log_topic: &str, query: &str, limit: usize) -> (r: Vec<LogEntry>)
    ensures
        log_views(r@) == mock_logs_spec(log_topic@, query@, limit as nat),
{
    let topic = if log_topic.unicode_len() == 0 {
        to_string(DEFAULT_TOPIC)
    } else {
        to_lowercase(log_topic)
    };
    let lowered = to_lowercase(query);
    let q = chars_of(lowered.as_str());
    let t = topic.as_str();
    let mut logs = if str_eq(t, DEFAULT_TOPIC) {
        build_system_metrics_logs(&q)
    } else if str_eq(t, "application-logs") {
        build_application_logs(&q)
    } else if str_eq(t, "database-slow-query") {
        build_database_slow_query_logs()
    } else if str_eq(t, "system-events") {
        build_system_events_logs(&q)
    } else {
        build_generic_logs(&q, limit)
    };
    if logs.len() == 0 {
        logs = build_generic_logs(&q, limit);
    }
    if logs.len() > limit {
        let ghost before = logs@;
        logs.truncate(limit);
        assert(log_views(logs@) =~= log_views(before).take(limit as int));
    }
    logs
}

// ---------------------------------------------------------------------------
// The answers, as JSON
// ---------------------------------------------------------------------------

/// `f` holds the figures `m`, in order, as strings.
pub open spec fn metrics_json(f: Seq<(String, JsonValue)>, m: Seq<(Seq<char>, Seq<char>)>) -> bool {
    f.len() == m.len() && forall|i: int| 0 <= i < f.len() ==> text_field(#[trigger] f[i], m[i].0, m[i].1)
}

/// `j` is the log line `v` as JSON: its time (a string), level, service,
/// instance, message and figures.
pub open spec fn is_log_json(j: JsonValue, v: LogView) -> bool {
    match j {
        JsonValue::Object(f) => {
            &&& f@.len() == 6
            &&& f@[0].0@ == "timestamp"@
            &&& match f@[0].1 {
                JsonValue::Str(t) => v.stamped ==> is_local_timestamp(t@),
                _ => false,
            }
            &&& text_field(f@[1], "level"@, v.level)
            &&& text_field(f@[2], "service"@, v.service)
            &&& text_field(f@[3], "instance"@, v.instance)
            &&& text_field(f@[4], "message"@, v.message)
            &&& f@[5].0@ == "metrics"@
            &&& match f@[5].1 {
                JsonValue::Object(g) => metrics_json(g@, v.metrics),
                _ => false,
            }
        },
        _ => false,
    }
}

fn text(key: &str, value: &str) -> (r: (String, JsonValue))
    ensures
        text_field(r, key@, value@),
{
    (to_string(key), JsonValue::Str(to_string(value)))
}

/// A log line as JSON (see `is_log_json`).
pub fn log_entry_json(e: &LogEntry) -> (r: JsonValue)
    ensures
        is_log_json(r, log_view(*e)),
{
    let mut g: Vec<(String, JsonValue)> = Vec::new();
    let mut i: usize = 0;
    while i < e.metrics.len()
        invariant
            i <= e.metrics@.len(),
            g@.len() == i,
            forall|k: int|
                0 <= k < i ==> text_field(
                    #[trigger] g@[k],
                    e.metrics@[k].0@,
                    e.metrics@[k].1@,
                ),
        decreases e.metrics.len() - i,
    {
        g.push(text(e.metrics[i].0.as_str(), e.metrics[i].1.as_str()));
        i = i + 1;
    }
    let mut f: Vec<(String, JsonValue)> = Vec::new();
    f.push(text("timestamp", e.timestamp.as_str()));
    f.push(text("level", e.level.as_str()));
    f.push(text("service", e.service.as_str()));
    f.push(text("instance", e.instance.as_str()));
    f.push(text("message", e.message.as_str()));
    f.push((to_string("metrics"), JsonValue::Object(g)));
    JsonValue::Object(f)
}

/// `v` is a failed answer: not successful, with a message, an error and
/// an error code.
pub open spec fn is_error_response(v: JsonValue, message: Seq<char>, error: Seq<char>, code: Seq<char>) -> bool {
    match v {
        JsonValue::Object(f) => {
            &&& f@.len() == 4
            &&& f@[0].0@ == "success"@ && f@[0].1 == JsonValue::Bool(false)
            &&& text_field(f@[1], "message"@, message)
            &&& text_field(f@[2], "error"@, error)
            &&& text_field(f@[3], "errorCode"@, code)
        },
        _ => false,
    }
}

/// A failed answer (see `is_error_response`), as JSON text.
pub fn build_error_response(message: &str, error: &str, error_code: &str) -> (r: String)
    ensures
        exists|v: JsonValue| is_error_response(v, message@, error@, error_code@) && r@ == json_text(v),
{
    let mut f: Vec<(String, JsonValue)> = Vec::new();
    f.push((to_string("success"), JsonValue::Bool(false)));
    f.push(text("message", message));
    f.push(text("error", error));
    f.push(text("errorCode", error_code));
    let v = JsonValue::Object(f);
    let r = to_json_string(&v);
    assert(is_error_response(v, message@, error@, error_code@) && r@ == json_text(v));
    r
}

/// How many lines a query asks for: the limit given, at most 100, where
/// it is positive; else 20.
pub open spec fn query_limit(limit: Option<i64>) -> nat {
    match limit {
        Some(v) => if v > 0 {
            if v < 100 {
                v as nat
            } else {
                100
            }
        } else {
            20
        },
        None => 20,
    }
}

/// The text of an optional argument, empty where it is left out.
pub open spec fn arg_text(o: Option<String>) -> Seq<char> {
    match o {
        Some(s) => s@,
        None => seq![],
    }
}

/// What the log answer says of how many lines it found.
pub open spec fn logs_message(n: nat) -> Seq<char> {
    if n == 0 {
        NO_LOGS_MESSAGE@
    } else {
        "成功查询到 "@ + decimal(n) + " 条日志"@
    }
}

/// `v` answers a log query of `region`, `topic` and `query` with `logs`.
pub open spec fn is_logs_output(
    v: JsonValue,
    region: Seq<char>,
    topic: Seq<char>,
    query: Seq<char>,
    logs: Seq<LogView>,
) -> bool {
    match v {
        JsonValue::Object(f) => {
            &&& f@.len() == 7
            &&& f@[0].0@ == "success"@ && f@[0].1 == JsonValue::Bool(logs.len() > 0)
            &&& text_field(f@[1], "region"@, region)
            &&& text_field(f@[2], "log_topic"@, topic)
            &&& text_field(f@[3], "query"@, if is_blank(query) {
                DEFAULT_QUERY@
            } else {
                query
            })
            &&& f@[4].0@ == "logs"@
            &&& match f@[4].1 {
                JsonValue::Array(a) => a@.len() == logs.len() && forall|i: int|
                    0 <= i < a@.len() ==> is_log_json(#[trigger] a@[i], logs[i]),
                _ => false,
            }
            &&& number_field(f@[5], "total"@, decimal(logs.len()))
            &&& text_field(f@[6], "message"@, logs_message(logs.len()))
        },
        _ => false,
    }
}

fn opt_string(o: Option<String>) -> (r: String)
    ensures
        r@ == arg_text(o),
{
    match o {
        Some(s) => s,
        None => String::new(),
    }
}

impl QueryLogsTool {
    /// Answers a log query: the sample logs of its topic for its query
    /// (see `mock_logs_spec`) while the log service is mocked, a dependency
    /// error otherwise.
    pub fn call(&self, args: QueryLogsArgs) -> (r: String)
        ensures
            !self.mock_enabled ==> exists|v: JsonValue|
                is_error_response(v, CLS_FAILED@, CLS_UNAVAILABLE@, DEPENDENCY_ERROR@) && r@
                    == json_text(v),
            self.mock_enabled ==> exists|v: JsonValue|
                is_logs_output(
                    v,
                    arg_text(args.region),
                    arg_text(args.log_topic),
                    arg_text(args.query),
                    mock_logs_spec(
                        arg_text(args.log_topic),
                        arg_text(args.query),
                        query_limit(args.limit),
                    ),
                ) && r@ == json_text(v),
    {
        let limit: usize = match args.limit {
            Some(v) => if v > 0 {
                if v < 100 {
                    v as usize
                } else {
                    100
                }
            } else {
                20
            },
            None => 20,
        };
        let ghost spec_region = arg_text(args.region);
        let ghost spec_topic = arg_text(args.log_topic);
        let ghost spec_query = arg_text(args.query);
        let region = opt_string(args.region);
        let log_topic = opt_string(args.log_topic);
        let query = opt_string(args.query);
        if !self.mock_enabled {
            return build_error_response(CLS_FAILED, CLS_UNAVAILABLE, DEPENDENCY_ERROR);
        }
        let logs = build_mock_logs(log_topic.as_str(), query.as_str(), limit);
        let ghost views = log_views(logs@);
        let mut a: Vec<JsonValue> = Vec::new();
        let mut i: usize = 0;
        while i < logs.len()
            invariant
                i <= logs@.len(),
                views == log_views(logs@),
                a@.len() == i,
                forall|k: int| 0 <= k < i ==> is_log_json(#[trigger] a@[k], views[k]),
            decreases logs.len() - i,
        {
            a.push(log_entry_json(&logs[i]));
            i = i + 1;
        }
        let n = logs.len();
        let shown_query = if is_blank_str(query.as_str()) {
            to_string(DEFAULT_QUERY)
        } else {
            query
        };
        let message = if n == 0 {
            to_string(NO_LOGS_MESSAGE)
        } else {
            let mut m = chars_of("成功查询到 ");
            append_str(&mut m, dec(n as u64).as_str());
            append_str(&mut m, " 条日志");
            string_of(&m)
        };
        let mut f: Vec<(String, JsonValue)> = Vec::new();
        f.push((to_string("success"), JsonValue::Bool(n > 0)));
        f.push((to_string("region"), JsonValue::Str(region)));
        f.push((to_string("log_topic"), JsonValue::Str(log_topic)));
        f.push((to_string("query"), JsonValue::Str(shown_query)));
        f.push((to_string("logs"), JsonValue::Array(a)));
        f.push((to_string("total"), JsonValue::Number(dec(n as u64))));
        f.push((to_string("message"), JsonValue::Str(message)));
        let v = JsonValue::Object(f);
        let r = to_json_string(&v);
        assert(is_logs_output(
            v,
            spec_region,
            spec_topic,
            spec_query,
            mock_logs_spec(spec_topic, spec_query, query_limit(args.limit)),
        ) && r@ == json_text(v));
        r
    }
}

// ---------------------------------------------------------------------------
// The topic list
// ---------------------------------------------------------------------------

/// A log topic: its name, what it holds, example queries and the alerts it
/// relates to.
pub struct TopicView {
    pub name: Seq<char>,
    pub description: Seq<char>,
    pub examples: Seq<Seq<char>>,
    pub alerts: Seq<Seq<char>>,
}

/// The log topics there are.
pub open spec fn topic_views() -> Seq<TopicView> {
    seq![
        TopicView { name: "system-metrics"@, description: "系统指标日志，包含 CPU、内存、磁盘使用率等系统资源监控数据"@, examples: seq!["cpu_usage:>80"@, "memory_usage:>85"@, "disk_usage:>90"@, "level:WARN AND service:payment-service"@], alerts: seq!["HighCPUUsage"@, "HighMemoryUsage"@, "HighDiskUsage"@] },
        TopicView { name: "application-logs"@, description: "应用日志，包含应用程序的错误日志、警告日志、慢请求日志、下游依赖调用日志等"@, examples: seq!["level:ERROR"@, "level:FATAL"@, "http_status:500"@, "response_time:>3000"@, "slow"@, "downstream OR redis OR database OR mq"@], alerts: seq!["ServiceUnavailable"@, "SlowResponse"@, "HighMemoryUsage"@] },
        TopicView { name: "database-slow-query"@, description: "数据库慢查询日志，包含执行时间较长的 SQL 查询，可用于分析数据库性能问题"@, examples: seq!["query_time:>2"@, "table:orders"@, "query_type:SELECT"@, "*"@], alerts: seq!["SlowResponse"@, "ServiceUnavailable"@] },
        TopicView { name: "system-events"@, description: "系统事件日志，包含 Kubernetes Pod 重启、OOM Kill、容器崩溃等系统级事件"@, examples: seq!["restart OR crash"@, "oom_kill"@, "event_type:PodRestart"@, "reason:OOMKilled"@], alerts: seq!["ServiceUnavailable"@, "HighMemoryUsage"@] },
    ]
}

/// The regions logs can be queried in.
pub open spec fn region_names() -> Seq<Seq<char>> {
    seq!["ap-guangzhou"@, "ap-shanghai"@, "ap-beijing"@, "ap-chengdu"@]
}

pub const TOPICS_MESSAGE: &'static str = "共有 4 个可用的日志主题。建议使用默认地域 'ap-guangzhou' 或省略 region 参数";

/// `v` is an array of the strings `s`.
pub open spec fn is_text_array(v: JsonValue, s: Seq<Seq<char>>) -> bool {
    match v {
        JsonValue::Array(a) => a@.len() == s.len() && forall|i: int|
            0 <= i < a@.len() ==> str_of(Some(#[trigger] a@[i])) == Some(s[i]),
        _ => false,
    }
}

/// `j` is the topic `t` as JSON.
pub open spec fn is_topic_json(j: JsonValue, t: TopicView) -> bool {
    match j {
        JsonValue::Object(f) => {
            &&& f@.len() == 4
            &&& text_field(f@[0], "topic_name"@, t.name)
            &&& text_field(f@[1], "description"@, t.description)
            &&& f@[2].0@ == "example_queries"@ && is_text_array(f@[2].1, t.examples)
            &&& f@[3].0@ == "related_alerts"@ && is_text_array(f@[3].1, t.alerts)
        },
        _ => false,
    }
}

/// `v` is the topic list: successful, the topics, the regions, the default
/// region and a note.
pub open spec fn is_topics_output(v: JsonValue) -> bool {
    match v {
        JsonValue::Object(f) => {
            &&& f@.len() == 5
            &&& f@[0].0@ == "success"@ && f@[0].1 == JsonValue::Bool(true)
            &&& f@[1].0@ == "topics"@
            &&& match f@[1].1 {
                JsonValue::Array(a) => a@.len() == topic_views().len() && forall|i: int|
                    0 <= i < a@.len() ==> is_topic_json(#[trigger] a@[i], topic_views()[i]),
                _ => false,
            }
            &&& f@[2].0@ == "available_regions"@ && is_text_array(f@[2].1, region_names())
            &&& text_field(f@[3], "default_region"@, "ap-guangzhou"@)
            &&& text_field(f@[4], "message"@, TOPICS_MESSAGE@)
        },
        _ => false,
    }
}

fn text_array(items: Vec<&str>) -> (r: JsonValue)
    ensures
        is_text_array(r, items@.map_values(|s: &str| s@)),
{
    let mut a: Vec<JsonValue> = Vec::new();
    let mut i: usize = 0;
    while i < items.len()
        invariant
            i <= items@.len(),
            a@.len() == i,
            forall|k: int| 0 <= k < i ==> str_of(Some(#[trigger] a@[k])) == Some(items@[k]@),
        decreases items.len() - i,
    {
        a.push(JsonValue::Str(to_string(items[i])));
        i = i + 1;
    }
    JsonValue::Array(a)
}

fn topic_json(name: &str, description: &str, examples: Vec<&str>, alerts: Vec<&str>) -> (r: JsonValue)
    ensures
        is_topic_json(
            r,
            TopicView {
                name: name@,
                description: description@,
                examples: examples@.map_values(|s: &str| s@),
                alerts: alerts@.map_values(|s: &str| s@),
            },
        ),
{
    let mut f: Vec<(String, JsonValue)> = Vec::new();
    f.push(text("topic_name", name));
    f.push(text("description", description));
    f.push((to_string("example_queries"), text_array(examples)));
    f.push((to_string("related_alerts"), text_array(alerts)));
    JsonValue::Object(f)
}

impl GetAvailableLogTopicsTool {
    /// The log topics there are, with the regions and the default one.
    pub fn call(&self, args: GetAvailableLogTopicsArgs) -> (r: String)
        ensures
            exists|v: JsonValue| is_topics_output(v) && r@ == json_text(v),
    {
        let mut topics: Vec<JsonValue> = Vec::new();
    topics.push(topic_json("system-metrics", "系统指标日志，包含 CPU、内存、磁盘使用率等系统资源监控数据", vec!["cpu_usage:>80", "memory_usage:>85", "disk_usage:>90", "level:WARN AND service:payment-service"], vec!["HighCPUUsage", "HighMemoryUsage", "HighDiskUsage"]));
    topics.push(topic_json("application-logs", "应用日志，包含应用程序的错误日志、警告日志、慢请求日志、下游依赖调用日志等", vec!["level:ERROR", "level:FATAL", "http_status:500", "response_time:>3000", "slow", "downstream OR redis OR database OR mq"], vec!["ServiceUnavailable", "SlowResponse", "HighMemoryUsage"]));
    topics.push(topic_json("database-slow-query", "数据库慢查询日志，包含执行时间较长的 SQL 查询，可用于分析数据库性能问题", vec!["query_time:>2", "table:orders", "query_type:SELECT", "*"], vec!["SlowResponse", "ServiceUnavailable"]));
    topics.push(topic_json("system-events", "系统事件日志，包含 Kubernetes Pod 重启、OOM Kill、容器崩溃等系统级事件", vec!["restart OR crash", "oom_kill", "event_type:PodRestart", "reason:OOMKilled"], vec!["ServiceUnavailable", "HighMemoryUsage"]));
        let regions = text_array(vec!["ap-guangzhou", "ap-shanghai", "ap-beijing", "ap-chengdu"]);
        let mut f: Vec<(String, JsonValue)> = Vec::new();
        f.push((to_string("success"), JsonValue::Bool(true)));
        f.push((to_string("topics"), JsonValue::Array(topics)));
        f.push((to_string("available_regions"), regions));
        f.push(text("default_region", "ap-guangzhou"));
        f.push(text("message", TOPICS_MESSAGE));
        let v = JsonValue::Object(f);
        let r = to_json_string(&v);
        proof {
            assert(is_topics_output(v));
        }
        r
    }
}

// ---------------------------------------------------------------------------
// Laws of the result limit
// ---------------------------------------------------------------------------

/// The lines that topic and query find, as a limit `limit` answers them.
proof fn lemma_limited_is_prefix(topic: Seq<char>, query: Seq<char>, limit: nat)
    requires
        0 < limit <= 100,
    ensures
        ({
            let full = mock_logs_spec(topic, query, 100);
            mock_logs_spec(topic, query, limit) == full.take(
                if limit < full.len() {
                    limit as int
                } else {
                    full.len() as int
                },
            )
        }),
{
    let t = if topic.len() == 0 {
        DEFAULT_TOPIC@
    } else {
        lowercase(topic)
    };
    let q = lowercase(query);
    let full = mock_logs_spec(topic, query, 100);
    let r = mock_logs_spec(topic, query, limit);
    let g = generic_logs_spec(q, limit);
    let g100 = generic_logs_spec(q, 100);
    assert(g100.len() == 10);
    let topical = t == DEFAULT_TOPIC@ || t == "application-logs"@ || t == "database-slow-query"@
        || t == "system-events"@;
    let f = if t == DEFAULT_TOPIC@ {
        system_metrics_spec(q)
    } else if t == "application-logs"@ {
        application_logs_spec(q)
    } else if t == "database-slow-query"@ {
        slow_query_entries()
    } else {
        system_events_spec(q)
    };
    if topical && f.len() > 0 {
        if f.len() > 100 {
            assert(full == f.take(100));
            assert(r == f.take(limit as int));
            assert(r =~= full.take(limit as int));
        } else {
            assert(full == f);
            if f.len() > limit {
                assert(r == f.take(limit as int));
            } else {
                assert(r == f);
                assert(full.take(full.len() as int) =~= full);
            }
        }
    } else {
        assert(full == g100);
        assert(r == g);
        let k: int = if limit < 10 {
            limit as int
        } else {
            10
        };
        assert(g =~= g100.take(k));
    }
}

/// Law: a positive limit `n` answers at most `n` lines, and at most 100:
/// the first `n` (or 100) of the lines the largest limit answers, all of
/// them where there are fewer.
pub proof fn law_logs_respect_limit(topic: Seq<char>, query: Seq<char>, n: i64)
    requires
        n > 0,
    ensures
        ({
            let full = mock_logs_spec(topic, query, 100);
            let m: int = if n < 100 {
                n as int
            } else {
                100
            };
            let r = mock_logs_spec(topic, query, query_limit(Some(n)));
            &&& r.len() <= n
            &&& r.len() <= 100
            &&& r == full.take(if m < full.len() { m } else { full.len() as int })
        }),
{
    lemma_limited_is_prefix(topic, query, query_limit(Some(n)));
}

/// Law: a query without a limit, or with one that is not positive, answers
/// as a limit of 20 does.
pub proof fn law_logs_default_limit(topic: Seq<char>, query: Seq<char>, n: i64)
    requires
        n <= 0,
    ensures
        mock_logs_spec(topic, query, query_limit(None)) == mock_logs_spec(
            topic,
            query,
            query_limit(Some(20)),
        ),
        mock_logs_spec(topic, query, query_limit(Some(n))) == mock_logs_spec(
            topic,
            query,
            query_limit(Some(20)),
        ),
{
}


} // verus!
