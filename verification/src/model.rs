//! The records the service keeps and hands out: chat sessions, incidents,
//! diagnosis runs and their evidence, document chunks and index tasks.
use vstd::prelude::*;

verus! {

/// One piece of evidence gathered during a diagnosis run.
#[derive(Debug, Default)]
pub struct DiagnosisEvidence {
    pub id: String,
    pub evidence_type: String,
    pub title: String,
    pub content: String,
    pub tool_name: String,
    pub query_params: String,
    pub time_range: String,
    pub summary: String,
    pub raw_fragment: String,
    pub success: bool,
    pub error_message: String,
    pub error_code: String,
    pub created_at: i64,
}

impl Clone for DiagnosisEvidence {
    fn clone(&self) -> (r: Self)
        ensures
            r == *self,
    {
        DiagnosisEvidence {
            id: self.id.clone(),
            evidence_type: self.evidence_type.clone(),
            title: self.title.clone(),
            content: self.content.clone(),
            tool_name: self.tool_name.clone(),
            query_params: self.query_params.clone(),
            time_range: self.time_range.clone(),
            summary: self.summary.clone(),
            raw_fragment: self.raw_fragment.clone(),
            success: self.success,
            error_message: self.error_message.clone(),
            error_code: self.error_code.clone(),
            created_at: self.created_at,
        }
    }
}

/// A copy of a vector of evidence.
pub fn clone_evidence(v: &Vec<DiagnosisEvidence>) -> (r: Vec<DiagnosisEvidence>)
    ensures
        r@ == v@,
{
    let mut r: Vec<DiagnosisEvidence> = Vec::new();
    let mut i: usize = 0;
    while i < v.len()
        invariant
            i <= v.len(),
            r@ == v@.take(i as int),
        decreases v.len() - i,
    {
        r.push(v[i].clone());
        assert(v@.take(i + 1) =~= v@.take(i as int).push(v@[i as int]));
        i = i + 1;
    }
    assert(v@.take(v.len() as int) =~= v@);
    r
}

/// One message of a conversation.
#[derive(Debug)]
pub struct ChatMessage {
    pub role: String,
    pub content: String,
}

impl Clone for ChatMessage {
    fn clone(&self) -> (r: Self)
        ensures
            r == *self,
    {
        ChatMessage { role: self.role.clone(), content: self.content.clone() }
    }
}

/// A copy of a list of messages.
pub fn clone_messages(v: &Vec<ChatMessage>) -> (r: Vec<ChatMessage>)
    ensures
        r@ == v@,
{
    let mut r: Vec<ChatMessage> = Vec::new();
    let mut i: usize = 0;
    while i < v.len()
        invariant
            i <= v.len(),
            r@ == v@.take(i as int),
        decreases v.len() - i,
    {
        r.push(v[i].clone());
        assert(v@.take(i + 1) =~= v@.take(i as int).push(v@[i as int]));
        i = i + 1;
    }
    assert(v@.take(v.len() as int) =~= v@);
    r
}

/// A stored conversation.
#[derive(Debug)]
pub struct ChatSessionRecord {
    pub session_id: String,
    pub create_time: i64,
    pub update_time: i64,
    pub message_history: Vec<ChatMessage>,
}

impl Clone for ChatSessionRecord {
    fn clone(&self) -> (r: Self)
        ensures
            r.session_id == self.session_id,
            r.create_time == self.create_time,
            r.update_time == self.update_time,
            r.message_history@ == self.message_history@,
    {
        ChatSessionRecord {
            session_id: self.session_id.clone(),
            create_time: self.create_time,
            update_time: self.update_time,
            message_history: clone_messages(&self.message_history),
        }
    }
}

/// A line of the session list.
#[derive(Debug)]
pub struct ChatSessionSummary {
    pub session_id: String,
    pub title: String,
    pub message_pair_count: usize,
    pub create_time: i64,
    pub update_time: i64,
}

/// What the session endpoint tells about one session.
#[derive(Debug)]
pub struct SessionInfoResponse {
    pub session_id: String,
    pub message_pair_count: usize,
    pub create_time: i64,
}

/// A piece of a document, with where it lies in the document.
#[derive(Debug, Default)]
pub struct DocumentChunk {
    pub content: String,
    pub start_index: i32,
    pub end_index: i32,
    pub chunk_index: i32,
    pub title: String,
}

/// A diagnosis run of an incident.
#[derive(Debug, Default)]
pub struct DiagnosisRun {
    pub run_id: String,
    pub incident_id: String,
    pub status: String,
    pub created_at: i64,
    pub started_at: i64,
    pub completed_at: i64,
    pub alert_context: String,
    pub report: String,
    pub error_message: String,
    pub current_step: String,
    pub progress_message: String,
    pub current_tool: String,
    pub reused_from_run_id: String,
    pub reuse_reason: String,
    pub reuse_validated_at: i64,
    pub evidence: Vec<DiagnosisEvidence>,
}

impl Clone for DiagnosisRun {
    fn clone(&self) -> (r: Self)
        ensures
            r == (DiagnosisRun { evidence: r.evidence, ..*self }),
            r.evidence@ == self.evidence@,
    {
        DiagnosisRun {
            run_id: self.run_id.clone(),
            incident_id: self.incident_id.clone(),
            status: self.status.clone(),
            created_at: self.created_at,
            started_at: self.started_at,
            completed_at: self.completed_at,
            alert_context: self.alert_context.clone(),
            report: self.report.clone(),
            error_message: self.error_message.clone(),
            current_step: self.current_step.clone(),
            progress_message: self.progress_message.clone(),
            current_tool: self.current_tool.clone(),
            reused_from_run_id: self.reused_from_run_id.clone(),
            reuse_reason: self.reuse_reason.clone(),
            reuse_validated_at: self.reuse_validated_at,
            evidence: clone_evidence(&self.evidence),
        }
    }
}

/// `a` holds what `b` holds.
pub open spec fn run_copy(a: DiagnosisRun, b: DiagnosisRun) -> bool {
    a == (DiagnosisRun { evidence: a.evidence, ..b }) && a.evidence@ == b.evidence@
}

/// A copy of a list of runs.
pub fn clone_runs(v: &Vec<DiagnosisRun>) -> (r: Vec<DiagnosisRun>)
    ensures
        r@.len() == v@.len(),
        forall|i: int| 0 <= i < r@.len() ==> run_copy(#[trigger] r@[i], v@[i]),
{
    let mut r: Vec<DiagnosisRun> = Vec::new();
    let mut i: usize = 0;
    while i < v.len()
        invariant
            i <= v.len(),
            r@.len() == i,
            forall|j: int| 0 <= j < i ==> run_copy(#[trigger] r@[j], v@[j]),
        decreases v.len() - i,
    {
        r.push(v[i].clone());
        i = i + 1;
    }
    r
}

/// A line of the incident list.
#[derive(Debug)]
pub struct IncidentSummary {
    pub id: String,
    pub title: String,
    pub status: String,
    pub severity: String,
    pub alert_count: i32,
    pub latest_run_status: String,
    pub created_at: i64,
    pub updated_at: i64,
    pub last_alert_at: i64,
}

/// An incident and its diagnosis runs.
#[derive(Debug)]
pub struct IncidentRecord {
    pub id: String,
    pub aggregation_key: String,
    pub title: String,
    pub status: String,
    pub severity: String,
    pub created_at: i64,
    pub updated_at: i64,
    pub last_alert_at: i64,
    pub alert_count: i32,
    pub diagnosis_runs: Vec<DiagnosisRun>,
}

impl Clone for IncidentRecord {
    fn clone(&self) -> (r: Self)
        ensures
            r == (IncidentRecord { diagnosis_runs: r.diagnosis_runs, ..*self }),
            r.diagnosis_runs@.len() == self.diagnosis_runs@.len(),
            forall|i: int|
                0 <= i < r.diagnosis_runs@.len() ==> run_copy(
                    #[trigger] r.diagnosis_runs@[i],
                    self.diagnosis_runs@[i],
                ),
    {
        IncidentRecord {
            id: self.id.clone(),
            aggregation_key: self.aggregation_key.clone(),
            title: self.title.clone(),
            status: self.status.clone(),
            severity: self.severity.clone(),
            created_at: self.created_at,
            updated_at: self.updated_at,
            last_alert_at: self.last_alert_at,
            alert_count: self.alert_count,
            diagnosis_runs: clone_runs(&self.diagnosis_runs),
        }
    }
}

/// The outcome of archiving an incident as a past case.
#[derive(Debug)]
pub struct ArchiveResult {
    pub success: bool,
    pub incident_id: String,
    pub document_id: Option<String>,
    pub message: String,
}

/// Where indexing of an uploaded file stands.
#[derive(Debug, Default)]
pub struct IndexTaskStatus {
    pub task_id: String,
    pub file_name: String,
    pub file_path: String,
    pub status: String,
    pub message: String,
    pub error_message: Option<String>,
    pub created_at: i64,
    pub updated_at: i64,
}

impl Clone for IndexTaskStatus {
    fn clone(&self) -> (r: Self)
        ensures
            r == *self,
    {
        IndexTaskStatus {
            task_id: self.task_id.clone(),
            file_name: self.file_name.clone(),
            file_path: self.file_path.clone(),
            status: self.status.clone(),
            message: self.message.clone(),
            error_message: match &self.error_message {
                Some(m) => Some(m.clone()),
                None => None,
            },
            created_at: self.created_at,
            updated_at: self.updated_at,
        }
    }
}

/// The answer to an upload.
#[derive(Debug)]
pub struct FileUploadRes {
    pub file_name: String,
    pub file_path: String,
    pub size: u64,
    pub task_id: String,
    pub status: String,
    pub message: String,
}

/// A request that carries one message.
#[derive(Debug)]
pub struct MessageEnvelope {
    pub message: String,
}

} // verus!
