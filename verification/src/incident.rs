//! Incidents and their diagnosis runs: the run lifecycle (queued, running,
//! waiting for a tool, completed or failed) with the evidence it gathers,
//! and the past-case document an incident is archived as.
use vstd::prelude::*;

use crate::diagnosis_report::{constrain_report, constrain_spec};
use crate::config::AppConfig;
use crate::indexing::{deterministic_id, uuid_v5_oid};
use crate::evidence::{
    build_tool_evidence, decorate_result, decorated_spec, detect_success, detect_success_spec,
    is_evidence_id, is_short_id, is_tool_evidence, new_evidence_id, short_random_id, truncate,
    truncate_spec,
};
use crate::json::{get, obj_get, set_field, str_of, JsonValue};
use crate::model::{
    clone_evidence, clone_runs, run_copy, ArchiveResult, DiagnosisEvidence, DiagnosisRun,
    IncidentRecord, IncidentSummary,
};
use crate::ordering::{is_desc_order, order_desc};
use crate::session::now_millis;
use crate::text::{
    append_str, chars_of, concat, decimal, find_from, find_idx, is_blank, is_blank_str,
    lemma_find_idx_bounds, slice_chars, str_eq, string_of, to_string, trim, trim_chars,
    u64_to_string,
};
use crate::vector_search::{escape_expr_value, escape_expr_value_spec};

verus! {

pub const QUEUED: &'static str = "QUEUED";

pub const RUNNING: &'static str = "RUNNING";

pub const WAITING_TOOL: &'static str = "WAITING_TOOL";

pub const COMPLETED: &'static str = "COMPLETED";

pub const FAILED: &'static str = "FAILED";

pub const STEP_QUEUED: &'static str = "等待诊断任务开始";

pub const PROGRESS_QUEUED: &'static str = "诊断任务已入队";

pub const STEP_RUNNING: &'static str = "正在拆解诊断任务";

pub const PROGRESS_RUNNING: &'static str = "AI Ops 诊断已开始";

pub const STEP_WAITING: &'static str = "正在调用工具 ";

pub const STEP_TOOL_DONE: &'static str = "已完成工具调用 ";

pub const STEP_COMPLETED: &'static str = "诊断完成";

pub const PROGRESS_COMPLETED: &'static str = "已生成诊断报告";

pub const STEP_FAILED: &'static str = "诊断失败";

pub const ALERT_CONTEXT_TYPE: &'static str = "alert_context";

pub const ALERT_CONTEXT_TITLE: &'static str = "注入给 AI 的告警上下文";

pub const FAILURE_TYPE: &'static str = "failure_reason";

pub const FAILURE_TITLE: &'static str = "诊断失败原因";

pub const RUN_ID_PREFIX: &'static str = "run-";

pub const NOT_AVAILABLE: &'static str = "N/A";

// ---------------------------------------------------------------------------
// Small pieces
// ---------------------------------------------------------------------------

/// `text`, or a placeholder where it is blank.
pub fn value(text: &str) -> (r: &str)
    ensures
        r@ == (if is_blank(text@) {
            NOT_AVAILABLE@
        } else {
            text@
        }),
{
    if is_blank_str(text) {
        NOT_AVAILABLE
    } else {
        text
    }
}

/// `value` cut to `max_len` characters, with an ellipsis where it was longer.
pub fn compact(value: &str, max_len: usize) -> (r: String)
    ensures
        r@ == truncate_spec(value@, max_len as nat),
{
    truncate(value, max_len)
}

/// `value` with backslashes and quotes escaped for a filter expression.
pub fn escape_expr(value: &str) -> (r: String)
    ensures
        r@ == escape_expr_value_spec(value@),
{
    escape_expr_value(value)
}

/// `x` in decimal, with a minus sign where it is negative.
pub open spec fn signed_decimal(x: int) -> Seq<char> {
    if x < 0 {
        seq!['-'] + decimal((-x) as nat)
    } else {
        decimal(x as nat)
    }
}

/// `x` in decimal (`i64::to_string`).
pub fn i64_to_string(x: i64) -> (r: String)
    ensures
        r@ == signed_decimal(x as int),
{
    if x < 0 {
        let m = (-(x as i128)) as u64;
        let mut v = vec!['-'];
        crate::text::push_decimal(&mut v, m);
        assert(v@ =~= signed_decimal(x as int));
        string_of(&v)
    } else {
        u64_to_string(x as u64)
    }
}

/// The text of the section `heading` of a report: after the first
/// `## heading`, up to the next second-level heading, trimmed.
pub open spec fn extract_section_spec(report: Seq<char>, heading: Seq<char>) -> Option<Seq<char>> {
    let marker = "## "@ + heading;
    match find_idx(report, marker, 0) {
        Some(i) => {
            let rest = report.skip(i + marker.len());
            match find_idx(rest, "\n## "@, 0) {
                Some(e) => Some(trim(rest.take(e))),
                None => Some(trim(rest)),
            }
        },
        None => None,
    }
}

/// The text of the section `heading` of a report (see `extract_section_spec`).
pub fn extract_section(report: &str, heading: &str) -> (r: Option<String>)
    ensures
        match r {
            Some(s) => extract_section_spec(report@, heading@) == Some(s@),
            None => extract_section_spec(report@, heading@) is None,
        },
{
    let v = chars_of(report);
    let marker_s = concat("## ", heading);
    let marker = chars_of(marker_s.as_str());
    match find_from(&v, &marker, 0) {
        None => None,
        Some(i) => {
            proof {
                lemma_find_idx_bounds(v@, marker@, 0);
            }
            let total = v.len();
            let rest = slice_chars(&v, i + marker.len(), total);
            assert(rest@ =~= report@.skip(i + marker@.len()));
            let next = chars_of("\n## ");
            match find_from(&rest, &next, 0) {
                Some(e) => {
                    proof {
                        lemma_find_idx_bounds(rest@, next@, 0);
                    }
                    let head = slice_chars(&rest, 0, e);
                    assert(head@ =~= rest@.take(e as int));
                    Some(string_of(&trim_chars(&head)))
                },
                None => Some(string_of(&trim_chars(&rest))),
            }
        },
    }
}

/// The query past cases are searched with: the title and the severity
/// that are not blank, one per line.
pub open spec fn case_query_spec(title: Seq<char>, severity: Seq<char>) -> Seq<char> {
    if !is_blank(title) && !is_blank(severity) {
        title + seq!['\n'] + severity
    } else if !is_blank(title) {
        title
    } else if !is_blank(severity) {
        severity
    } else {
        seq![]
    }
}

/// The query past cases of an incident are searched with.
pub fn build_incident_case_query(incident: &IncidentRecord) -> (r: String)
    ensures
        r@ == case_query_spec(incident.title@, incident.severity@),
{
    let t = !is_blank_str(incident.title.as_str());
    let s = !is_blank_str(incident.severity.as_str());
    if t && s {
        let mut v = chars_of(incident.title.as_str());
        v.push('\n');
        append_str(&mut v, incident.severity.as_str());
        string_of(&v)
    } else if t {
        incident.title.clone()
    } else if s {
        incident.severity.clone()
    } else {
        String::new()
    }
}

/// The alert context of an incident: its title, severity and alert count.
pub open spec fn alert_context_spec(incident: IncidentRecord) -> Seq<char> {
    incident.title@ + " severity="@ + incident.severity@ + " alertCount="@ + signed_decimal(
        incident.alert_count as int,
    )
}

/// The alert context of an incident (see `alert_context_spec`).
pub fn build_alert_context(incident: &IncidentRecord) -> (r: String)
    ensures
        r@ == alert_context_spec(*incident),
{
    let mut v = chars_of(incident.title.as_str());
    append_str(&mut v, " severity=");
    append_str(&mut v, incident.severity.as_str());
    append_str(&mut v, " alertCount=");
    let n = i64_to_string(incident.alert_count as i64);
    append_str(&mut v, n.as_str());
    string_of(&v)
}

/// Evidence that is not a tool call: the alert context given to the
/// model, or why a diagnosis failed.
pub open spec fn is_context_evidence(
    e: DiagnosisEvidence,
    evidence_type: Seq<char>,
    title: Seq<char>,
    content: Seq<char>,
    created_at: i64,
) -> bool {
    &&& is_evidence_id(e.id@)
    &&& e.evidence_type@ == evidence_type
    &&& e.title@ == title
    &&& e.content@ == content
    &&& e.summary@ == content
    &&& e.raw_fragment@ == content
    &&& e.success
    &&& e.created_at == created_at
    &&& e.tool_name@.len() == 0 && e.query_params@.len() == 0 && e.time_range@.len() == 0
    &&& e.error_message@.len() == 0 && e.error_code@.len() == 0
}

/// Evidence that is not a tool call (see `is_context_evidence`).
pub fn context_evidence(evidence_type: &str, title: &str, content: &str, created_at: i64) -> (r:
    DiagnosisEvidence)
    ensures
        is_context_evidence(r, evidence_type@, title@, content@, created_at),
{
    DiagnosisEvidence {
        id: new_evidence_id(),
        evidence_type: to_string(evidence_type),
        title: to_string(title),
        content: to_string(content),
        tool_name: String::new(),
        query_params: String::new(),
        time_range: String::new(),
        summary: to_string(content),
        raw_fragment: to_string(content),
        success: true,
        error_message: String::new(),
        error_code: String::new(),
        created_at,
    }
}

// ---------------------------------------------------------------------------
// The run lifecycle
// ---------------------------------------------------------------------------

/// What happens to a diagnosis run.
pub enum RunUpdate {
    /// The diagnosis starts.
    Running,
    /// A tool is called, with these parameters.
    WaitingTool(String, String),
    /// A tool returned this evidence.
    ToolEvidence(DiagnosisEvidence),
    /// The alert context given to the model changed.
    AlertContext(String),
    /// The diagnosis ended with this report.
    Complete(String),
    /// The diagnosis failed with this error.
    Fail(String),
}

/// What an update says, as values.
pub enum RunChange {
    Running,
    WaitingTool(Seq<char>, Seq<char>),
    ToolEvidence(DiagnosisEvidence),
    AlertContext(Seq<char>),
    Complete(Seq<char>),
    Fail(Seq<char>),
}

impl View for RunUpdate {
    type V = RunChange;

    open spec fn view(&self) -> RunChange {
        match self {
            RunUpdate::Running => RunChange::Running,
            RunUpdate::WaitingTool(t, p) => RunChange::WaitingTool(t@, p@),
            RunUpdate::ToolEvidence(e) => RunChange::ToolEvidence(*e),
            RunUpdate::AlertContext(c) => RunChange::AlertContext(c@),
            RunUpdate::Complete(r) => RunChange::Complete(r@),
            RunUpdate::Fail(e) => RunChange::Fail(e@),
        }
    }
}

/// The parts of a run no update touches.
pub open spec fn same_identity(a: DiagnosisRun, b: DiagnosisRun) -> bool {
    &&& a.run_id == b.run_id
    &&& a.incident_id == b.incident_id
    &&& a.created_at == b.created_at
    &&& a.reused_from_run_id == b.reused_from_run_id
    &&& a.reuse_reason == b.reuse_reason
    &&& a.reuse_validated_at == b.reuse_validated_at
}

/// The first evidence of the alert context kind in `ev`.
pub open spec fn first_context_index(ev: Seq<DiagnosisEvidence>, i: int) -> Option<int>
    decreases ev.len() - i,
{
    if i < 0 || i >= ev.len() {
        None
    } else if ev[i].evidence_type@ == ALERT_CONTEXT_TYPE@ {
        Some(i)
    } else {
        first_context_index(ev, i + 1)
    }
}

/// How a run changes under an update made at `now`.
pub open spec fn run_updated(old: DiagnosisRun, new: DiagnosisRun, update: RunChange, now: i64) -> bool {
    &&& same_identity(old, new)
    &&& match update {
        RunChange::Running => {
            &&& new.status@ == RUNNING@ && new.started_at == now
            &&& new.current_step@ == STEP_RUNNING@ && new.progress_message@ == PROGRESS_RUNNING@
            &&& new.current_tool@.len() == 0
            &&& new.completed_at == old.completed_at && new.alert_context == old.alert_context
            &&& new.report == old.report && new.error_message == old.error_message
            &&& new.evidence@ == old.evidence@
        },
        RunChange::WaitingTool(tool, params) => {
            &&& new.started_at == (if old.started_at == 0 {
                now
            } else {
                old.started_at
            })
            &&& new.status@ == WAITING_TOOL@ && new.current_tool@ == tool
            &&& new.current_step@ == STEP_WAITING@ + tool && new.progress_message@ == params
            &&& new.completed_at == old.completed_at && new.alert_context == old.alert_context
            &&& new.report == old.report && new.error_message == old.error_message
            &&& new.evidence@ == old.evidence@
        },
        RunChange::ToolEvidence(e) => {
            &&& new.evidence@ == old.evidence@.push(e)
            &&& new.status@ == RUNNING@ && new.current_tool@.len() == 0
            &&& new.current_step@ == STEP_TOOL_DONE@ + e.tool_name@
            &&& new.progress_message@ == e.summary@
            &&& new.started_at == old.started_at && new.completed_at == old.completed_at
            &&& new.alert_context == old.alert_context && new.report == old.report
            &&& new.error_message == old.error_message
        },
        RunChange::AlertContext(ctx) => {
            &&& new.alert_context@ == ctx
            &&& match first_context_index(old.evidence@, 0) {
                Some(k) => new.evidence@.len() == old.evidence@.len() && (forall|m: int|
                    0 <= m < old.evidence@.len() && m != k ==> new.evidence@[m] == old.evidence@[m])
                    && new.evidence@[k] == (DiagnosisEvidence {
                        content: new.evidence@[k].content,
                        summary: new.evidence@[k].summary,
                        raw_fragment: new.evidence@[k].raw_fragment,
                        ..old.evidence@[k]
                    }) && new.evidence@[k].content@ == ctx && new.evidence@[k].summary@ == ctx
                    && new.evidence@[k].raw_fragment@ == ctx,
                None => new.evidence@.len() == old.evidence@.len() + 1 && new.evidence@.take(
                    old.evidence@.len() as int,
                ) == old.evidence@ && is_context_evidence(
                    new.evidence@.last(),
                    ALERT_CONTEXT_TYPE@,
                    ALERT_CONTEXT_TITLE@,
                    ctx,
                    now,
                ),
            }
            &&& new.status == old.status && new.started_at == old.started_at
            &&& new.completed_at == old.completed_at && new.report == old.report
            &&& new.error_message == old.error_message && new.current_step == old.current_step
            &&& new.progress_message == old.progress_message && new.current_tool == old.current_tool
        },
        RunChange::Complete(report) => {
            &&& new.started_at == (if old.started_at == 0 {
                now
            } else {
                old.started_at
            })
            &&& new.status@ == COMPLETED@ && new.completed_at == now
            &&& new.report@ == constrain_spec(report, old.evidence@)
            &&& new.error_message@.len() == 0 && new.current_tool@.len() == 0
            &&& new.current_step@ == STEP_COMPLETED@ && new.progress_message@ == PROGRESS_COMPLETED@
            &&& new.alert_context == old.alert_context && new.evidence@ == old.evidence@
        },
        RunChange::Fail(error) => {
            &&& new.started_at == (if old.started_at == 0 {
                now
            } else {
                old.started_at
            })
            &&& new.status@ == FAILED@ && new.completed_at == now
            &&& new.error_message@ == error && new.current_tool@.len() == 0
            &&& new.current_step@ == STEP_FAILED@ && new.progress_message@ == error
            &&& new.evidence@.len() == old.evidence@.len() + 1
            &&& new.evidence@.take(old.evidence@.len() as int) == old.evidence@
            &&& is_context_evidence(new.evidence@.last(), FAILURE_TYPE@, FAILURE_TITLE@, error, now)
            &&& new.alert_context == old.alert_context && new.report == old.report
        },
    }
}

fn find_context_evidence(ev: &Vec<DiagnosisEvidence>) -> (r: Option<usize>)
    ensures
        match r {
            Some(k) => first_context_index(ev@, 0) == Some(k as int) && k < ev@.len(),
            None => first_context_index(ev@, 0) is None,
        },
{
    let mut i: usize = 0;
    while i < ev.len()
        invariant
            i <= ev.len(),
            first_context_index(ev@, 0) == first_context_index(ev@, i as int),
        decreases ev.len() - i,
    {
        if str_eq(ev[i].evidence_type.as_str(), ALERT_CONTEXT_TYPE) {
            return Some(i);
        }
        i = i + 1;
    }
    None
}

/// Applies an update made at `now` to a run (see `run_updated`).
pub fn apply_update(run: DiagnosisRun, update: RunUpdate, now: i64) -> (r: DiagnosisRun)
    ensures
        run_updated(run, r, update@, now),
{
    let mut run = run;
    match update {
        RunUpdate::Running => {
            run.status = to_string(RUNNING);
            run.started_at = now;
            run.current_step = to_string(STEP_RUNNING);
            run.progress_message = to_string(PROGRESS_RUNNING);
            run.current_tool = String::new();
        },
        RunUpdate::WaitingTool(tool, params) => {
            if run.started_at == 0 {
                run.started_at = now;
            }
            run.status = to_string(WAITING_TOOL);
            run.current_step = concat(STEP_WAITING, tool.as_str());
            run.current_tool = tool;
            run.progress_message = params;
        },
        RunUpdate::ToolEvidence(evidence) => {
            let step = concat(STEP_TOOL_DONE, evidence.tool_name.as_str());
            let summary = evidence.summary.clone();
            run.evidence.push(evidence);
            run.status = to_string(RUNNING);
            run.current_tool = String::new();
            run.current_step = step;
            run.progress_message = summary;
        },
        RunUpdate::AlertContext(ctx) => {
            match find_context_evidence(&run.evidence) {
                Some(k) => {
                    let old_ev = run.evidence[k].clone();
                    let updated = DiagnosisEvidence {
                        content: ctx.clone(),
                        summary: ctx.clone(),
                        raw_fragment: ctx.clone(),
                        ..old_ev
                    };
                    run.evidence.set(k, updated);
                },
                None => {
                    let ghost before = run.evidence@;
                    run.evidence.push(
                        context_evidence(ALERT_CONTEXT_TYPE, ALERT_CONTEXT_TITLE, ctx.as_str(), now),
                    );
                    assert(run.evidence@.take(before.len() as int) =~= before);
                },
            }
            run.alert_context = ctx;
        },
        RunUpdate::Complete(report) => {
            if run.started_at == 0 {
                run.started_at = now;
            }
            run.status = to_string(COMPLETED);
            run.completed_at = now;
            run.report = constrain_report(report.as_str(), run.evidence.as_slice());
            run.error_message = String::new();
            run.current_tool = String::new();
            run.current_step = to_string(STEP_COMPLETED);
            run.progress_message = to_string(PROGRESS_COMPLETED);
        },
        RunUpdate::Fail(error) => {
            if run.started_at == 0 {
                run.started_at = now;
            }
            run.status = to_string(FAILED);
            run.completed_at = now;
            run.current_tool = String::new();
            run.current_step = to_string(STEP_FAILED);
            run.progress_message = error.clone();
            let ghost before = run.evidence@;
            run.evidence.push(context_evidence(FAILURE_TYPE, FAILURE_TITLE, error.as_str(), now));
            assert(run.evidence@.take(before.len() as int) =~= before);
            run.error_message = error;
        },
    }
    run
}


// ---------------------------------------------------------------------------
// The incident store
// ---------------------------------------------------------------------------

pub open spec fn find_incident(s: Seq<IncidentRecord>, id: Seq<char>, i: int) -> Option<int>
    decreases s.len() - i,
{
    if i < 0 || i >= s.len() {
        None
    } else if s[i].id@ == id {
        Some(i)
    } else {
        find_incident(s, id, i + 1)
    }
}

pub open spec fn find_run(s: Seq<DiagnosisRun>, id: Seq<char>, i: int) -> Option<int>
    decreases s.len() - i,
{
    if i < 0 || i >= s.len() {
        None
    } else if s[i].run_id@ == id {
        Some(i)
    } else {
        find_run(s, id, i + 1)
    }
}

proof fn lemma_find_incident(s: Seq<IncidentRecord>, id: Seq<char>, i: int)
    requires
        0 <= i,
    ensures
        match find_incident(s, id, i) {
            Some(j) => i <= j < s.len() && s[j].id@ == id,
            None => forall|m: int| i <= m < s.len() ==> (#[trigger] s[m]).id@ != id,
        },
    decreases s.len() - i,
{
    if i < s.len() && s[i].id@ != id {
        lemma_find_incident(s, id, i + 1);
    }
}

proof fn lemma_find_run(s: Seq<DiagnosisRun>, id: Seq<char>, i: int)
    requires
        0 <= i,
    ensures
        match find_run(s, id, i) {
            Some(j) => i <= j < s.len() && s[j].run_id@ == id,
            None => forall|m: int| i <= m < s.len() ==> (#[trigger] s[m]).run_id@ != id,
        },
    decreases s.len() - i,
{
    if i < s.len() && s[i].run_id@ != id {
        lemma_find_run(s, id, i + 1);
    }
}

fn locate_incident(s: &Vec<IncidentRecord>, id: &str) -> (r: Option<usize>)
    ensures
        match r {
            Some(j) => find_incident(s@, id@, 0) == Some(j as int) && j < s@.len(),
            None => find_incident(s@, id@, 0) is None,
        },
{
    let mut i: usize = 0;
    while i < s.len()
        invariant
            i <= s.len(),
            find_incident(s@, id@, 0) == find_incident(s@, id@, i as int),
        decreases s.len() - i,
    {
        if str_eq(s[i].id.as_str(), id) {
            return Some(i);
        }
        i = i + 1;
    }
    None
}

fn locate_run(s: &Vec<DiagnosisRun>, id: &str) -> (r: Option<usize>)
    ensures
        match r {
            Some(j) => find_run(s@, id@, 0) == Some(j as int) && j < s@.len(),
            None => find_run(s@, id@, 0) is None,
        },
{
    let mut i: usize = 0;
    while i < s.len()
        invariant
            i <= s.len(),
            find_run(s@, id@, 0) == find_run(s@, id@, i as int),
        decreases s.len() - i,
    {
        if str_eq(s[i].run_id.as_str(), id) {
            return Some(i);
        }
        i = i + 1;
    }
    None
}

/// The incident and the run an update is meant for.
pub open spec fn locate(s: Seq<IncidentRecord>, incident_id: Seq<char>, run_id: Seq<char>) -> Option<(int, int)> {
    match find_incident(s, incident_id, 0) {
        Some(i) => match find_run(s[i].diagnosis_runs@, run_id, 0) {
            Some(j) => Some((i, j)),
            None => None,
        },
        None => None,
    }
}

/// The incident `a` is `b` but for its runs and when it changed.
pub open spec fn same_incident_but_runs(a: IncidentRecord, b: IncidentRecord) -> bool {
    a == (IncidentRecord { diagnosis_runs: a.diagnosis_runs, updated_at: a.updated_at, ..b })
}

/// How the incidents change under `change` to the run `run_id` of the
/// incident `incident_id`: that run as `run_updated` says, its incident
/// marked changed at the time of the update, everything else as it was;
/// nothing changes where either is unknown.
pub open spec fn run_mutated(
    old: Seq<IncidentRecord>,
    new: Seq<IncidentRecord>,
    incident_id: Seq<char>,
    run_id: Seq<char>,
    change: RunChange,
) -> bool {
    match locate(old, incident_id, run_id) {
        Some((i, j)) => {
            &&& new.len() == old.len()
            &&& forall|k: int| 0 <= k < old.len() && k != i ==> new[k] == old[k]
            &&& same_incident_but_runs(new[i], old[i])
            &&& new[i].diagnosis_runs@.len() == old[i].diagnosis_runs@.len()
            &&& forall|m: int|
                0 <= m < old[i].diagnosis_runs@.len() && m != j ==> new[i].diagnosis_runs@[m]
                    == old[i].diagnosis_runs@[m]
            &&& run_updated(
                old[i].diagnosis_runs@[j],
                new[i].diagnosis_runs@[j],
                change,
                new[i].updated_at,
            )
        },
        None => new == old,
    }
}

/// A run with every text empty, every time zero and no evidence: what is
/// left in place of a run while it is updated.
fn empty_run() -> (r: DiagnosisRun)
    ensures
        r.run_id@.len() == 0 && r.incident_id@.len() == 0 && r.status@.len() == 0,
        r.created_at == 0 && r.started_at == 0 && r.completed_at == 0,
        r.alert_context@.len() == 0 && r.report@.len() == 0 && r.error_message@.len() == 0,
        r.current_step@.len() == 0 && r.progress_message@.len() == 0 && r.current_tool@.len() == 0,
        r.reused_from_run_id@.len() == 0 && r.reuse_reason@.len() == 0,
        r.reuse_validated_at == 0,
        r.evidence@.len() == 0,
{
    DiagnosisRun {
        run_id: String::new(),
        incident_id: String::new(),
        status: String::new(),
        created_at: 0,
        started_at: 0,
        completed_at: 0,
        alert_context: String::new(),
        report: String::new(),
        error_message: String::new(),
        current_step: String::new(),
        progress_message: String::new(),
        current_tool: String::new(),
        reused_from_run_id: String::new(),
        reuse_reason: String::new(),
        reuse_validated_at: 0,
        evidence: Vec::new(),
    }
}

/// An incident with every text empty, every time and count zero and no
/// run: what is left in place of an incident while it is updated.
fn empty_incident() -> (r: IncidentRecord)
    ensures
        r.id@.len() == 0 && r.aggregation_key@.len() == 0 && r.title@.len() == 0,
        r.status@.len() == 0 && r.severity@.len() == 0,
        r.created_at == 0 && r.updated_at == 0 && r.last_alert_at == 0,
        r.alert_count == 0,
        r.diagnosis_runs@.len() == 0,
{
    IncidentRecord {
        id: String::new(),
        aggregation_key: String::new(),
        title: String::new(),
        status: String::new(),
        severity: String::new(),
        created_at: 0,
        updated_at: 0,
        last_alert_at: 0,
        alert_count: 0,
        diagnosis_runs: Vec::new(),
    }
}

/// The run a diagnosis of `incident_id` starts with at `now`: queued, with
/// the alert context `ctx` as its one evidence.
pub open spec fn is_queued_run(r: DiagnosisRun, incident_id: Seq<char>, ctx: Seq<char>, now: i64) -> bool {
    &&& is_short_id(RUN_ID_PREFIX@, r.run_id@)
    &&& r.incident_id@ == incident_id
    &&& r.status@ == QUEUED@
    &&& r.created_at == now && r.started_at == 0 && r.completed_at == 0
    &&& r.alert_context@ == ctx
    &&& r.report@.len() == 0 && r.error_message@.len() == 0 && r.current_tool@.len() == 0
    &&& r.current_step@ == STEP_QUEUED@ && r.progress_message@ == PROGRESS_QUEUED@
    &&& r.reused_from_run_id@.len() == 0 && r.reuse_reason@.len() == 0
    &&& r.reuse_validated_at == 0
    &&& r.evidence@.len() == 1
    &&& is_context_evidence(r.evidence@[0], ALERT_CONTEXT_TYPE@, ALERT_CONTEXT_TITLE@, ctx, now)
}

/// The newest run that completed with a report that is not blank, among
/// the first `n` runs.
pub open spec fn last_completed(runs: Seq<DiagnosisRun>, n: int) -> Option<int>
    decreases n,
{
    if n <= 0 || n > runs.len() {
        None
    } else if runs[n - 1].status@ == COMPLETED@ && !is_blank(runs[n - 1].report@) {
        Some(n - 1)
    } else {
        last_completed(runs, n - 1)
    }
}

/// The newest run of an incident that completed with a report.
pub fn latest_completed_run(incident: &IncidentRecord) -> (r: Option<DiagnosisRun>)
    ensures
        match last_completed(incident.diagnosis_runs@, incident.diagnosis_runs@.len() as int) {
            Some(j) => r is Some && run_copy(r->0, incident.diagnosis_runs@[j]),
            None => r is None,
        },
{
    let runs = &incident.diagnosis_runs;
    let mut n: usize = runs.len();
    while n > 0
        invariant
            n <= runs@.len(),
            runs@ == incident.diagnosis_runs@,
            last_completed(runs@, runs@.len() as int) == last_completed(runs@, n as int),
        decreases n,
    {
        let run = &runs[n - 1];
        if str_eq(run.status.as_str(), COMPLETED) && !is_blank_str(run.report.as_str()) {
            assert(last_completed(runs@, n as int) == Some(n - 1));
            let copy = run.clone();
            assert(run_copy(copy, runs@[n - 1]));
            return Some(copy);
        }
        n = n - 1;
    }
    None
}

/// `s` lists `rec`: its fields, and the status of its newest run (empty
/// where it has none).
pub open spec fn is_summary_of(s: IncidentSummary, rec: IncidentRecord) -> bool {
    &&& s.id == rec.id && s.title == rec.title && s.status == rec.status
    &&& s.severity == rec.severity && s.alert_count == rec.alert_count
    &&& s.created_at == rec.created_at && s.updated_at == rec.updated_at
    &&& s.last_alert_at == rec.last_alert_at
    &&& s.latest_run_status@ == (if rec.diagnosis_runs@.len() == 0 {
        Seq::<char>::empty()
    } else {
        rec.diagnosis_runs@.last().status@
    })
}

/// The line of the incident list for `record`.
pub fn summary(record: &IncidentRecord) -> (r: IncidentSummary)
    ensures
        is_summary_of(r, *record),
{
    let n = record.diagnosis_runs.len();
    let latest = if n == 0 {
        String::new()
    } else {
        record.diagnosis_runs[n - 1].status.clone()
    };
    IncidentSummary {
        id: record.id.clone(),
        title: record.title.clone(),
        status: record.status.clone(),
        severity: record.severity.clone(),
        alert_count: record.alert_count,
        latest_run_status: latest,
        created_at: record.created_at,
        updated_at: record.updated_at,
        last_alert_at: record.last_alert_at,
    }
}

/// `a` holds what `b` holds.
pub open spec fn incident_copy(a: IncidentRecord, b: IncidentRecord) -> bool {
    &&& a == (IncidentRecord { diagnosis_runs: a.diagnosis_runs, ..b })
    &&& a.diagnosis_runs@.len() == b.diagnosis_runs@.len()
    &&& forall|i: int|
        0 <= i < a.diagnosis_runs@.len() ==> run_copy(
            #[trigger] a.diagnosis_runs@[i],
            b.diagnosis_runs@[i],
        )
}

/// The keys the incident list is ordered by.
pub open spec fn incident_update_keys(s: Seq<IncidentRecord>) -> Seq<i64> {
    Seq::new(s.len(), |i: int| s[i].updated_at)
}

/// The incident every service starts with: a payment service whose CPU
/// ran high, with one completed diagnosis.
pub open spec fn is_seed_incident(r: IncidentRecord) -> bool {
    &&& r.id@ == "incident-1"@
    &&& r.aggregation_key@ == "HighCPUUsage:payment-service"@
    &&& r.title@ == "HighCPUUsage payment-service"@
    &&& r.status@ == "OPEN"@ && r.severity@ == "critical"@
    &&& r.created_at == 1_718_559_600_000 && r.updated_at == 1_718_559_960_000
    &&& r.last_alert_at == 1_718_559_990_000 && r.alert_count == 2
    &&& r.diagnosis_runs@.len() == 1
    &&& r.diagnosis_runs@[0].run_id@ == "run-1"@
    &&& r.diagnosis_runs@[0].incident_id@ == "incident-1"@
    &&& r.diagnosis_runs@[0].status@ == COMPLETED@
    &&& r.diagnosis_runs@[0].created_at == 1_718_559_610_000
    &&& r.diagnosis_runs@[0].started_at == 1_718_559_620_000
    &&& r.diagnosis_runs@[0].completed_at == 1_718_559_950_000
    &&& r.diagnosis_runs@[0].alert_context@ == "HighCPUUsage payment-service critical"@
    &&& r.diagnosis_runs@[0].report@ == SEED_REPORT@
    &&& r.diagnosis_runs@[0].progress_message@ == "诊断已完成"@
    &&& r.diagnosis_runs@[0].evidence@.len() == 1
    &&& r.diagnosis_runs@[0].evidence@[0].id@ == "evidence-1"@
    &&& r.diagnosis_runs@[0].evidence@[0].evidence_type@ == "metrics"@
    &&& r.diagnosis_runs@[0].evidence@[0].title@ == "CPU 使用率持续高位"@
    &&& r.diagnosis_runs@[0].evidence@[0].content@ == "payment-service CPU 使用率超过 90%。"@
    &&& r.diagnosis_runs@[0].evidence@[0].tool_name@ == "queryMetrics"@
    &&& r.diagnosis_runs@[0].evidence@[0].success
    &&& r.diagnosis_runs@[0].evidence@[0].created_at == 1_718_559_630_000
}

pub const SEED_REPORT: &'static str = "# HighCPUUsage payment-service\n\n初步判断为 CPU 饱和导致请求延迟上升。";

/// The incident every service starts with (see `is_seed_incident`).
pub fn seed_incident() -> (r: IncidentRecord)
    ensures
        is_seed_incident(r),
{
    let evidence = DiagnosisEvidence {
        id: to_string("evidence-1"),
        evidence_type: to_string("metrics"),
        title: to_string("CPU 使用率持续高位"),
        content: to_string("payment-service CPU 使用率超过 90%。"),
        tool_name: to_string("queryMetrics"),
        query_params: String::new(),
        time_range: String::new(),
        summary: String::new(),
        raw_fragment: String::new(),
        success: true,
        error_message: String::new(),
        error_code: String::new(),
        created_at: 1_718_559_630_000,
    };
    let run = DiagnosisRun {
        run_id: to_string("run-1"),
        incident_id: to_string("incident-1"),
        status: to_string(COMPLETED),
        created_at: 1_718_559_610_000,
        started_at: 1_718_559_620_000,
        completed_at: 1_718_559_950_000,
        alert_context: to_string("HighCPUUsage payment-service critical"),
        report: to_string(SEED_REPORT),
        error_message: String::new(),
        current_step: String::new(),
        progress_message: to_string("诊断已完成"),
        current_tool: String::new(),
        reused_from_run_id: String::new(),
        reuse_reason: String::new(),
        reuse_validated_at: 0,
        evidence: vec![evidence],
    };
    IncidentRecord {
        id: to_string("incident-1"),
        aggregation_key: to_string("HighCPUUsage:payment-service"),
        title: to_string("HighCPUUsage payment-service"),
        status: to_string("OPEN"),
        severity: to_string("critical"),
        created_at: 1_718_559_600_000,
        updated_at: 1_718_559_960_000,
        last_alert_at: 1_718_559_990_000,
        alert_count: 2,
        diagnosis_runs: vec![run],
    }
}

/// The incidents of the service, each with its diagnosis runs.
pub struct IncidentService {
    pub incidents: Vec<IncidentRecord>,
}

impl IncidentService {
    /// A service holding the seed incident.
    pub fn new(config: &AppConfig) -> (r: Self)
        ensures
            r.incidents@.len() == 1,
            is_seed_incident(r.incidents@[0]),
    {
        IncidentService { incidents: vec![seed_incident()] }
    }

    /// The incident list, most recently changed first.
    pub fn list(&self) -> (r: Vec<IncidentSummary>)
        ensures
            exists|order: Seq<usize>|
                is_desc_order(incident_update_keys(self.incidents@), order) && r@.len()
                    == order.len() && forall|i: int|
                    0 <= i < order.len() ==> is_summary_of(
                        #[trigger] r@[i],
                        self.incidents@[order[i] as int],
                    ),
    {
        let mut keys: Vec<i64> = Vec::new();
        let mut i: usize = 0;
        while i < self.incidents.len()
            invariant
                i <= self.incidents.len(),
                keys@ == incident_update_keys(self.incidents@).take(i as int),
            decreases self.incidents.len() - i,
        {
            keys.push(self.incidents[i].updated_at);
            assert(keys@ =~= incident_update_keys(self.incidents@).take(i + 1));
            i = i + 1;
        }
        assert(keys@ =~= incident_update_keys(self.incidents@));
        let order = order_desc(&keys);
        let mut out: Vec<IncidentSummary> = Vec::new();
        let mut k: usize = 0;
        while k < order.len()
            invariant
                k <= order.len(),
                is_desc_order(incident_update_keys(self.incidents@), order@),
                out@.len() == k,
                forall|m: int|
                    0 <= m < k ==> is_summary_of(#[trigger] out@[m], self.incidents@[order@[m] as int]),
            decreases order.len() - k,
        {
            out.push(summary(&self.incidents[order[k]]));
            k = k + 1;
        }
        out
    }

    /// A copy of the incident `incident_id`, where there is one.
    pub fn get(&self, incident_id: &str) -> (r: Option<IncidentRecord>)
        ensures
            match find_incident(self.incidents@, incident_id@, 0) {
                Some(i) => r is Some && incident_copy(r->0, self.incidents@[i]),
                None => r is None,
            },
    {
        match locate_incident(&self.incidents, incident_id) {
            Some(i) => Some(self.incidents[i].clone()),
            None => None,
        }
    }

    /// The runs of the incident `incident_id`, where there is one.
    pub fn runs(&self, incident_id: &str) -> (r: Option<Vec<DiagnosisRun>>)
        ensures
            match find_incident(self.incidents@, incident_id@, 0) {
                Some(i) => r is Some && r->0@.len() == self.incidents@[i].diagnosis_runs@.len()
                    && forall|m: int|
                    0 <= m < r->0@.len() ==> run_copy(
                        #[trigger] r->0@[m],
                        self.incidents@[i].diagnosis_runs@[m],
                    ),
                None => r is None,
            },
    {
        match locate_incident(&self.incidents, incident_id) {
            Some(i) => Some(clone_runs(&self.incidents[i].diagnosis_runs)),
            None => None,
        }
    }

    /// Queues a diagnosis of the incident `incident_id`: a new run, added
    /// last, with the incident's alert context; `None` where there is no
    /// such incident.
    pub fn diagnose(&mut self, incident_id: &str) -> (r: Option<DiagnosisRun>)
        ensures
            match find_incident(old(self).incidents@, incident_id@, 0) {
                Some(i) => {
                    &&& r is Some
                    &&& final(self).incidents@.len() == old(self).incidents@.len()
                    &&& forall|k: int|
                        0 <= k < old(self).incidents@.len() && k != i ==> final(self).incidents@[k]
                            == old(self).incidents@[k]
                    &&& same_incident_but_runs(final(self).incidents@[i], old(self).incidents@[i])
                    &&& final(self).incidents@[i].diagnosis_runs@.len()
                        == old(self).incidents@[i].diagnosis_runs@.len() + 1
                    &&& final(self).incidents@[i].diagnosis_runs@.take(
                        old(self).incidents@[i].diagnosis_runs@.len() as int,
                    ) == old(self).incidents@[i].diagnosis_runs@
                    &&& run_copy(r->0, final(self).incidents@[i].diagnosis_runs@.last())
                    &&& is_queued_run(
                        r->0,
                        incident_id@,
                        alert_context_spec(old(self).incidents@[i]),
                        final(self).incidents@[i].updated_at,
                    )
                },
                None => r is None && final(self).incidents@ == old(self).incidents@,
            },
    {
        let i = match locate_incident(&self.incidents, incident_id) {
            Some(i) => i,
            None => return None,
        };
        let now = now_millis();
        let alert_context = build_alert_context(&self.incidents[i]);
        let run = DiagnosisRun {
            run_id: short_random_id(RUN_ID_PREFIX),
            incident_id: to_string(incident_id),
            status: to_string(QUEUED),
            created_at: now,
            started_at: 0,
            completed_at: 0,
            alert_context: alert_context.clone(),
            report: String::new(),
            error_message: String::new(),
            current_step: to_string(STEP_QUEUED),
            progress_message: to_string(PROGRESS_QUEUED),
            current_tool: String::new(),
            reused_from_run_id: String::new(),
            reuse_reason: String::new(),
            reuse_validated_at: 0,
            evidence: vec![
                context_evidence(
                    ALERT_CONTEXT_TYPE,
                    ALERT_CONTEXT_TITLE,
                    alert_context.as_str(),
                    now,
                ),
            ],
        };
        let copy = run.clone();
        let mut incident = empty_incident();
        std::mem::swap(&mut incident, &mut self.incidents[i]);
        let ghost runs_before = incident.diagnosis_runs@;
        incident.diagnosis_runs.push(copy);
        incident.updated_at = now;
        std::mem::swap(&mut incident, &mut self.incidents[i]);
        proof {
            assert(self.incidents@[i as int].diagnosis_runs@.take(runs_before.len() as int)
                =~= runs_before);
        }
        Some(run)
    }

    /// Applies `update` to the run `run_id` of the incident `incident_id`
    /// (see `run_mutated`).
    fn mutate_run(&mut self, incident_id: &str, run_id: &str, update: RunUpdate)
        ensures
            run_mutated(old(self).incidents@, final(self).incidents@, incident_id@, run_id@, update@),
    {
        let i = match locate_incident(&self.incidents, incident_id) {
            Some(i) => i,
            None => return,
        };
        let j = match locate_run(&self.incidents[i].diagnosis_runs, run_id) {
            Some(j) => j,
            None => return,
        };
        let now = now_millis();
        let mut incident = empty_incident();
        std::mem::swap(&mut incident, &mut self.incidents[i]);
        let mut run = empty_run();
        std::mem::swap(&mut run, &mut incident.diagnosis_runs[j]);
        let ghost runs_before = incident.diagnosis_runs@;
        let updated = apply_update(run, update, now);
        incident.diagnosis_runs.set(j, updated);
        incident.updated_at = now;
        std::mem::swap(&mut incident, &mut self.incidents[i]);
        proof {
            assert(self.incidents@[i as int].diagnosis_runs@ =~= runs_before.update(
                j as int,
                updated,
            ));
        }
    }

    /// Marks the run started.
    pub fn mark_running(&mut self, incident_id: &str, run_id: &str)
        ensures
            run_mutated(
                old(self).incidents@,
                final(self).incidents@,
                incident_id@,
                run_id@,
                RunChange::Running,
            ),
    {
        self.mutate_run(incident_id, run_id, RunUpdate::Running);
    }

    /// Marks the run waiting for the tool `tool_name`, called with
    /// `query_params`.
    pub fn mark_waiting_tool(
        &mut self,
        incident_id: &str,
        run_id: &str,
        tool_name: &str,
        query_params: &str,
    )
        ensures
            run_mutated(
                old(self).incidents@,
                final(self).incidents@,
                incident_id@,
                run_id@,
                RunChange::WaitingTool(tool_name@, query_params@),
            ),
    {
        self.mutate_run(
            incident_id,
            run_id,
            RunUpdate::WaitingTool(to_string(tool_name), to_string(query_params)),
        );
    }

    /// Adds the evidence of a tool call to the run, which is running again.
    pub fn add_tool_evidence(&mut self, incident_id: &str, run_id: &str, evidence: DiagnosisEvidence)
        ensures
            run_mutated(
                old(self).incidents@,
                final(self).incidents@,
                incident_id@,
                run_id@,
                RunChange::ToolEvidence(evidence),
            ),
    {
        self.mutate_run(incident_id, run_id, RunUpdate::ToolEvidence(evidence));
    }

    /// Sets the alert context of the run, and the evidence that records it.
    pub fn update_run_alert_context(&mut self, incident_id: &str, run_id: &str, alert_context: &str)
        ensures
            run_mutated(
                old(self).incidents@,
                final(self).incidents@,
                incident_id@,
                run_id@,
                RunChange::AlertContext(alert_context@),
            ),
    {
        self.mutate_run(incident_id, run_id, RunUpdate::AlertContext(to_string(alert_context)));
    }

    /// Completes the run with `report`, held to the run's evidence.
    pub fn complete_run(&mut self, incident_id: &str, run_id: &str, report: &str)
        ensures
            run_mutated(
                old(self).incidents@,
                final(self).incidents@,
                incident_id@,
                run_id@,
                RunChange::Complete(report@),
            ),
    {
        self.mutate_run(incident_id, run_id, RunUpdate::Complete(to_string(report)));
    }

    /// Marks the run failed with `error_message`.
    pub fn fail_run(&mut self, incident_id: &str, run_id: &str, error_message: &str)
        ensures
            run_mutated(
                old(self).incidents@,
                final(self).incidents@,
                incident_id@,
                run_id@,
                RunChange::Fail(error_message@),
            ),
    {
        self.mutate_run(incident_id, run_id, RunUpdate::Fail(to_string(error_message)));
    }

    /// A handle on the run `run_id` of the incident `incident_id`.
    pub fn evidence_collector(&self, incident_id: &str, run_id: &str) -> (r: EvidenceCollector)
        ensures
            r.incident_id@ == incident_id@,
            r.run_id@ == run_id@,
    {
        EvidenceCollector { incident_id: to_string(incident_id), run_id: to_string(run_id) }
    }
}

/// A handle on one diagnosis run, through which the tools of a diagnosis
/// record what they do.
pub struct EvidenceCollector {
    pub incident_id: String,
    pub run_id: String,
}

impl EvidenceCollector {
    /// The incident of the run.
    pub fn incident_id(&self) -> (r: &str)
        ensures
            r@ == self.incident_id@,
    {
        self.incident_id.as_str()
    }

    /// The run.
    pub fn run_id(&self) -> (r: &str)
        ensures
            r@ == self.run_id@,
    {
        self.run_id.as_str()
    }

    /// Before a tool call: the run waits for the tool.
    pub fn mark_waiting(&self, service: &mut IncidentService, tool_name: &str, query_params: &str)
        ensures
            run_mutated(
                old(service).incidents@,
                final(service).incidents@,
                self.incident_id@,
                self.run_id@,
                RunChange::WaitingTool(tool_name@, query_params@),
            ),
    {
        service.mark_waiting_tool(
            self.incident_id.as_str(),
            self.run_id.as_str(),
            tool_name,
            query_params,
        );
    }

    /// After a tool call: its evidence is added and the run runs again.
    pub fn record(&self, service: &mut IncidentService, evidence: DiagnosisEvidence)
        ensures
            run_mutated(
                old(service).incidents@,
                final(service).incidents@,
                self.incident_id@,
                self.run_id@,
                RunChange::ToolEvidence(evidence),
            ),
    {
        service.add_tool_evidence(self.incident_id.as_str(), self.run_id.as_str(), evidence);
    }

    /// The evidence the run has gathered so far; none where the run is
    /// unknown.
    pub fn snapshot_evidence(&self, service: &IncidentService) -> (r: Vec<DiagnosisEvidence>)
        ensures
            match locate(service.incidents@, self.incident_id@, self.run_id@) {
                Some((i, j)) => r@ == service.incidents@[i].diagnosis_runs@[j].evidence@,
                None => r@.len() == 0,
            },
    {
        match locate_incident(&service.incidents, self.incident_id.as_str()) {
            Some(i) => match locate_run(
                &service.incidents[i].diagnosis_runs,
                self.run_id.as_str(),
            ) {
                Some(j) => clone_evidence(&service.incidents[i].diagnosis_runs[j].evidence),
                None => Vec::new(),
            },
            None => Vec::new(),
        }
    }
}


// ---------------------------------------------------------------------------
// Past cases
// ---------------------------------------------------------------------------

pub const ROOT_CAUSE_HEADING: &'static str = "根因结论";

pub const ACTION_HEADING: &'static str = "处理建议";

pub const NO_ACTION: &'static str = "未提取到结构化处理动作";

pub const CASE_HEAD: &'static str = "# 历史故障案例\nIncident ID: ";

pub const CASE_TITLE: &'static str = "\n标题: ";

pub const CASE_SEVERITY: &'static str = "\n级别: ";

pub const CASE_ALERT_NAME: &'static str = "\n告警名: ";

pub const CASE_ROOT_CAUSE: &'static str = "\n服务: \n实例: \n\n## 根因\n";

pub const CASE_ACTION: &'static str = "\n\n## 处理动作\n";

pub const CASE_REPORT: &'static str = "\n\n## 原始诊断报告\n";

pub const CASE_SOURCE_PREFIX: &'static str = "incident_case:";

pub const CASE_DOC_TYPE: &'static str = "incident_case";

pub const INCIDENT_MISSING: &'static str = "Incident 不存在: ";

pub const NO_COMPLETED_RUN: &'static str = "Incident 尚无已完成诊断，不能写入历史案例";

pub const ARCHIVED_MESSAGE: &'static str = "历史案例已写入知识库";

pub const CASE_EXPR_HEAD: &'static str = "metadata[\"doc_type\"] == \"incident_case\" && metadata[\"incident_id\"] == \"";

/// `text`, or a placeholder where it is blank.
pub open spec fn value_spec(text: Seq<char>) -> Seq<char> {
    if is_blank(text) {
        NOT_AVAILABLE@
    } else {
        text
    }
}

/// The section `heading` of a report where it is there and not blank,
/// else `fallback`.
pub open spec fn section_or(report: Seq<char>, heading: Seq<char>, fallback: Seq<char>) -> Seq<char> {
    match extract_section_spec(report, heading) {
        Some(s) => if is_blank(s) {
            fallback
        } else {
            s
        },
        None => fallback,
    }
}

/// The root cause a report names, or its first 240 characters.
pub open spec fn root_cause_spec(report: Seq<char>) -> Seq<char> {
    section_or(report, ROOT_CAUSE_HEADING@, truncate_spec(report, 240))
}

/// The action a report advises, or a note that it names none.
pub open spec fn action_spec(report: Seq<char>) -> Seq<char> {
    section_or(report, ACTION_HEADING@, NO_ACTION@)
}

/// The text of the past case of an incident and the run that diagnosed it.
pub open spec fn case_content_spec(incident: IncidentRecord, run: DiagnosisRun) -> Seq<char> {
    CASE_HEAD@ + incident.id@ + CASE_TITLE@ + value_spec(incident.title@) + CASE_SEVERITY@
        + value_spec(incident.severity@) + CASE_ALERT_NAME@ + value_spec(incident.title@)
        + CASE_ROOT_CAUSE@ + root_cause_spec(run.report@) + CASE_ACTION@ + action_spec(
        run.report@,
    ) + CASE_REPORT@ + truncate_spec(run.report@, 2000) + seq!['\n']
}

/// The field `p` is `key` holding the string `text`.
pub open spec fn field_is(p: (String, JsonValue), key: Seq<char>, text: Seq<char>) -> bool {
    p.0@ == key && str_of(Some(p.1)) == Some(text)
}

/// The metadata of the past case of `incident` and `run`, archived at
/// `at`.
pub open spec fn case_metadata_spec(m: JsonValue, incident: IncidentRecord, run: DiagnosisRun, at: i64) -> bool {
    match m {
        JsonValue::Object(f) => {
            &&& f@.len() == 10
            &&& field_is(f@[0], "_source"@, CASE_SOURCE_PREFIX@ + incident.id@)
            &&& field_is(f@[1], "doc_type"@, CASE_DOC_TYPE@)
            &&& field_is(f@[2], "incident_id"@, incident.id@)
            &&& field_is(f@[3], "run_id"@, run.run_id@)
            &&& field_is(f@[4], "alertname"@, value_spec(incident.title@))
            &&& field_is(f@[5], "service"@, Seq::empty())
            &&& field_is(f@[6], "instance"@, Seq::empty())
            &&& field_is(f@[7], "severity"@, value_spec(incident.severity@))
            &&& field_is(f@[8], "root_cause"@, root_cause_spec(run.report@))
            &&& f@[9].0@ == "archived_at"@
            &&& f@[9].1 matches JsonValue::Number(n) && n@ == signed_decimal(at as int)
        },
        _ => false,
    }
}

/// A past case, as it is written to the knowledge base.
pub struct CaseDocument {
    pub id: String,
    pub content: String,
    pub metadata: JsonValue,
}

/// `d` is the past case of `incident` and `run`.
pub open spec fn is_case_document(d: CaseDocument, incident: IncidentRecord, run: DiagnosisRun) -> bool {
    &&& d.id@ == uuid_v5_oid(CASE_SOURCE_PREFIX@ + incident.id@)
    &&& d.content@ == case_content_spec(incident, run)
    &&& exists|at: i64| case_metadata_spec(d.metadata, incident, run, at)
}

fn section_or_else(report: &str, heading: &str, fallback: String) -> (r: String)
    ensures
        r@ == section_or(report@, heading@, fallback@),
{
    match extract_section(report, heading) {
        Some(s) => if is_blank_str(s.as_str()) {
            fallback
        } else {
            s
        },
        None => fallback,
    }
}

fn str_field(key: &str, text: &str) -> (r: (String, JsonValue))
    ensures
        field_is(r, key@, text@),
{
    (to_string(key), JsonValue::Str(to_string(text)))
}

/// The past case of an incident and the run that diagnosed it.
pub fn build_case_document(incident: &IncidentRecord, run: &DiagnosisRun) -> (r: CaseDocument)
    ensures
        is_case_document(r, *incident, *run),
{
    let report = run.report.as_str();
    let root_cause = section_or_else(report, ROOT_CAUSE_HEADING, compact(report, 240));
    let action = section_or_else(report, ACTION_HEADING, to_string(NO_ACTION));
    let title = value(incident.title.as_str());
    let severity = value(incident.severity.as_str());
    let mut v = chars_of(CASE_HEAD);
    append_str(&mut v, incident.id.as_str());
    append_str(&mut v, CASE_TITLE);
    append_str(&mut v, title);
    append_str(&mut v, CASE_SEVERITY);
    append_str(&mut v, severity);
    append_str(&mut v, CASE_ALERT_NAME);
    append_str(&mut v, title);
    append_str(&mut v, CASE_ROOT_CAUSE);
    append_str(&mut v, root_cause.as_str());
    append_str(&mut v, CASE_ACTION);
    append_str(&mut v, action.as_str());
    append_str(&mut v, CASE_REPORT);
    let full = compact(report, 2000);
    append_str(&mut v, full.as_str());
    v.push('\n');
    let source = concat(CASE_SOURCE_PREFIX, incident.id.as_str());
    let id = deterministic_id(source.as_str());
    let at = now_millis();
    let mut fields: Vec<(String, JsonValue)> = Vec::new();
    fields.push(str_field("_source", source.as_str()));
    fields.push(str_field("doc_type", CASE_DOC_TYPE));
    fields.push(str_field("incident_id", incident.id.as_str()));
    fields.push(str_field("run_id", run.run_id.as_str()));
    fields.push(str_field("alertname", title));
    fields.push((to_string("service"), JsonValue::Str(String::new())));
    fields.push((to_string("instance"), JsonValue::Str(String::new())));
    fields.push(str_field("severity", severity));
    fields.push(str_field("root_cause", root_cause.as_str()));
    fields.push((to_string("archived_at"), JsonValue::Number(i64_to_string(at))));
    let metadata = JsonValue::Object(fields);
    proof {
        assert(v@ =~= case_content_spec(*incident, *run));
        assert(case_metadata_spec(metadata, *incident, *run, at));
    }
    CaseDocument { id, content: string_of(&v), metadata }
}

/// What archiving an incident as a past case writes: the case, and the
/// filter that removes the copy stored before.
pub struct CaseArchive {
    pub document: CaseDocument,
    pub delete_expr: String,
}

/// The filter that selects the past cases of the incident `id`.
pub open spec fn case_delete_expr(id: Seq<char>) -> Seq<char> {
    CASE_EXPR_HEAD@ + escape_expr_value_spec(id) + seq!['"']
}

/// The answer to an archived incident.
pub fn archived(incident_id: &str, document_id: String) -> (r: ArchiveResult)
    ensures
        r.success,
        r.incident_id@ == incident_id@,
        r.document_id == Some(document_id),
        r.message@ == ARCHIVED_MESSAGE@,
{
    ArchiveResult {
        success: true,
        incident_id: to_string(incident_id),
        document_id: Some(document_id),
        message: to_string(ARCHIVED_MESSAGE),
    }
}

impl IncidentService {
    /// What archiving the incident `incident_id` as a past case writes:
    /// the case of its newest completed run. An error where there is no
    /// such incident, or it has no completed run.
    pub fn prepare_archive(&self, incident_id: &str) -> (r: Result<CaseArchive, String>)
        ensures
            match find_incident(self.incidents@, incident_id@, 0) {
                None => match r {
                    Err(e) => e@ == INCIDENT_MISSING@ + incident_id@,
                    Ok(_) => false,
                },
                Some(i) => match last_completed(
                    self.incidents@[i].diagnosis_runs@,
                    self.incidents@[i].diagnosis_runs@.len() as int,
                ) {
                    None => match r {
                        Err(e) => e@ == NO_COMPLETED_RUN@,
                        Ok(_) => false,
                    },
                    Some(j) => match r {
                        Ok(a) => is_case_document(
                            a.document,
                            self.incidents@[i],
                            self.incidents@[i].diagnosis_runs@[j],
                        ) && a.delete_expr@ == case_delete_expr(self.incidents@[i].id@),
                        Err(_) => false,
                    },
                },
            },
    {
        let i = match locate_incident(&self.incidents, incident_id) {
            Some(i) => i,
            None => return Err(concat(INCIDENT_MISSING, incident_id)),
        };
        let incident = &self.incidents[i];
        let run = match latest_completed_run(incident) {
            Some(run) => run,
            None => return Err(to_string(NO_COMPLETED_RUN)),
        };
        let document = build_case_document(incident, &run);
        proof {
            let runs = incident.diagnosis_runs@;
            let j = last_completed(runs, runs.len() as int)->0;
            let at = choose|at: i64| case_metadata_spec(document.metadata, *incident, run, at);
            assert(case_metadata_spec(document.metadata, *incident, runs[j], at));
        }
        let mut v = chars_of(CASE_EXPR_HEAD);
        let escaped = escape_expr(incident.id.as_str());
        append_str(&mut v, escaped.as_str());
        v.push('"');
        proof {
            assert(v@ =~= case_delete_expr(incident.id@));
        }
        Ok(CaseArchive { document, delete_expr: string_of(&v) })
    }

    /// The query and the number of past cases to search for the incident
    /// `incident_id` (at least one); an error where there is no such
    /// incident.
    pub fn similar_cases_query(&self, incident_id: &str, top_k: usize) -> (r: Result<(String, usize), String>)
        ensures
            match find_incident(self.incidents@, incident_id@, 0) {
                None => match r {
                    Err(e) => e@ == INCIDENT_MISSING@ + incident_id@,
                    Ok(_) => false,
                },
                Some(i) => match r {
                    Ok(q) => q.0@ == case_query_spec(
                        self.incidents@[i].title@,
                        self.incidents@[i].severity@,
                    ) && q.1 == (if top_k == 0 {
                        1
                    } else {
                        top_k
                    }),
                    Err(_) => false,
                },
            },
    {
        let i = match locate_incident(&self.incidents, incident_id) {
            Some(i) => i,
            None => return Err(concat(INCIDENT_MISSING, incident_id)),
        };
        let query = build_incident_case_query(&self.incidents[i]);
        let k = if top_k == 0 {
            1
        } else {
            top_k
        };
        Ok((query, k))
    }
}

// ---------------------------------------------------------------------------
// The end of a diagnosis
// ---------------------------------------------------------------------------

pub const NO_FINAL_REPORT: &'static str = "多 Agent 流程完成，但未能提取最终报告";

pub const ANALYSIS_FAILED_PREFIX: &'static str = "告警分析异常: ";

/// What a finished analysis does to its run: a report completes it; an
/// analysis that gave no state or no report, or failed, fails it.
pub open spec fn diagnosis_outcome_change(
    outcome: Result<Option<crate::agent_runtime::OverAllState>, String>,
) -> RunChange {
    match outcome {
        Ok(Some(state)) => match crate::ai_ops::final_report_spec(state@) {
            Some(report) => RunChange::Complete(report),
            None => RunChange::Fail(NO_FINAL_REPORT@),
        },
        Ok(None) => RunChange::Fail(NO_FINAL_REPORT@),
        Err(e) => RunChange::Fail(ANALYSIS_FAILED_PREFIX@ + e@),
    }
}

impl IncidentService {
    /// Ends the diagnosis run `run_id` of the incident `incident_id` with
    /// what the analysis gave (see `diagnosis_outcome_change`).
    pub fn finish_diagnosis(
        &mut self,
        ai_ops: &crate::ai_ops::AiOpsService,
        incident_id: &str,
        run_id: &str,
        outcome: Result<Option<crate::agent_runtime::OverAllState>, String>,
    )
        ensures
            run_mutated(
                old(self).incidents@,
                final(self).incidents@,
                incident_id@,
                run_id@,
                diagnosis_outcome_change(outcome),
            ),
    {
        match outcome {
            Ok(Some(state)) => match ai_ops.extract_final_report(&state) {
                Some(report) => self.complete_run(incident_id, run_id, report.as_str()),
                None => self.fail_run(incident_id, run_id, NO_FINAL_REPORT),
            },
            Ok(None) => self.fail_run(incident_id, run_id, NO_FINAL_REPORT),
            Err(e) => {
                let message = concat(ANALYSIS_FAILED_PREFIX, e.as_str());
                self.fail_run(incident_id, run_id, message.as_str());
            },
        }
    }
}

impl EvidenceCollector {
    /// After a tool call with `args`: its evidence is recorded on the run;
    /// a result comes back marked with that evidence, a failure comes back
    /// as it was.
    pub fn finish_tool_call(
        &self,
        service: &mut IncidentService,
        tool_name: &str,
        args: &str,
        outcome: Result<String, String>,
    ) -> (r: Result<String, String>)
        ensures
            match outcome {
                Ok(raw) => exists|e: DiagnosisEvidence|
                    {
                        &&& is_tool_evidence(
                            e,
                            tool_name@,
                            args@,
                            raw@,
                            detect_success_spec(raw@),
                            None,
                        )
                        &&& run_mutated(
                            old(service).incidents@,
                            final(service).incidents@,
                            self.incident_id@,
                            self.run_id@,
                            RunChange::ToolEvidence(e),
                        )
                        &&& r matches Ok(out) && out@ == decorated_spec(
                            raw@,
                            e.id@,
                            detect_success_spec(raw@),
                        )
                    },
                Err(m) => exists|e: DiagnosisEvidence|
                    {
                        &&& is_tool_evidence(e, tool_name@, args@, Seq::empty(), false, Some(m@))
                        &&& run_mutated(
                            old(service).incidents@,
                            final(service).incidents@,
                            self.incident_id@,
                            self.run_id@,
                            RunChange::ToolEvidence(e),
                        )
                        &&& r matches Err(x) && x@ == m@
                    },
            },
    {
        match outcome {
            Ok(raw) => {
                let success = detect_success(raw.as_str());
                let evidence = build_tool_evidence(tool_name, args, raw.as_str(), success, None);
                let id = evidence.id.clone();
                let ghost e = evidence;
                self.record(service, evidence);
                let out = decorate_result(raw.as_str(), id.as_str(), success);
                Ok(out)
            },
            Err(message) => {
                let evidence = build_tool_evidence(tool_name, args, "", false, Some(message.as_str()));
                proof {
                    reveal_strlit("");
                    assert(""@ =~= Seq::<char>::empty());
                }
                self.record(service, evidence);
                Err(message)
            },
        }
    }
}

/// A tool call seen through on a run (waiting for the tool, then its
/// evidence) leaves the run running, with the evidence added last and no
/// tool pending, started no later than when it waited.
pub proof fn law_tool_call_cycle(
    before: DiagnosisRun,
    waiting: DiagnosisRun,
    after: DiagnosisRun,
    tool: Seq<char>,
    params: Seq<char>,
    e: DiagnosisEvidence,
    t1: i64,
    t2: i64,
)
    requires
        run_updated(before, waiting, RunChange::WaitingTool(tool, params), t1),
        run_updated(waiting, after, RunChange::ToolEvidence(e), t2),
    ensures
        after.status@ == RUNNING@,
        after.current_tool@.len() == 0,
        after.evidence@ == before.evidence@.push(e),
        after.started_at == (if before.started_at == 0 {
            t1
        } else {
            before.started_at
        }),
        after.current_step@ == STEP_TOOL_DONE@ + e.tool_name@,
        same_identity(before, after),
        after.report == before.report && after.alert_context == before.alert_context,
{
}

/// A failed run keeps every piece of evidence it had, and adds the reason
/// it failed after them.
pub proof fn law_failure_keeps_evidence(before: DiagnosisRun, after: DiagnosisRun, error: Seq<char>, t: i64)
    requires
        run_updated(before, after, RunChange::Fail(error), t),
    ensures
        after.evidence@.len() == before.evidence@.len() + 1,
        forall|i: int| 0 <= i < before.evidence@.len() ==> after.evidence@[i] == before.evidence@[i],
        after.evidence@.last().evidence_type@ == FAILURE_TYPE@,
        after.evidence@.last().content@ == error,
{
    assert forall|i: int| 0 <= i < before.evidence@.len() implies after.evidence@[i]
        == before.evidence@[i] by {
        assert(after.evidence@.take(before.evidence@.len() as int)[i] == after.evidence@[i]);
    }
}

} // verus!
