//! The status of the indexing task of each uploaded file.
use vstd::prelude::*;

use crate::model::IndexTaskStatus;
use crate::ordering::{is_desc_order, order_desc};
use crate::session::now_millis;
use crate::text::{str_eq, to_string};
use crate::upload::{ACCEPTED_MSG, ACCEPTED_STATUS};

verus! {

pub const RUNNING_MSG: &'static str = "索引处理中";

pub const COMPLETED_STATUS: &'static str = "COMPLETED";

pub const COMPLETED_MSG: &'static str = "索引完成";

pub const FAILED_STATUS: &'static str = "FAILED";

pub const FAILED_MSG: &'static str = "索引失败";

/// A fresh random task id (`Uuid::new_v4`, hyphenated). Which digits come
/// out is not stated: they are random.
#[verifier::external_body]
fn new_task_id() -> (r: String)
    ensures
        crate::evidence::is_random_uuid_text(r@),
{
    uuid::Uuid::new_v4().to_string()
}

/// The first index at or after `i` of the task `id`.
pub open spec fn find_task(s: Seq<IndexTaskStatus>, id: Seq<char>, i: int) -> Option<int>
    decreases s.len() - i,
{
    if i < 0 || i >= s.len() {
        None
    } else if s[i].task_id@ == id {
        Some(i)
    } else {
        find_task(s, id, i + 1)
    }
}

proof fn lemma_find_task(s: Seq<IndexTaskStatus>, id: Seq<char>, i: int)
    requires
        0 <= i,
    ensures
        match find_task(s, id, i) {
            Some(j) => i <= j < s.len() && s[j].task_id@ == id && forall|m: int|
                i <= m < j ==> (#[trigger] s[m]).task_id@ != id,
            None => forall|m: int| i <= m < s.len() ==> (#[trigger] s[m]).task_id@ != id,
        },
    decreases s.len() - i,
{
    if i < s.len() && s[i].task_id@ != id {
        lemma_find_task(s, id, i + 1);
    }
}

/// The status of the task `id` among `s`.
pub open spec fn status_of(s: Seq<IndexTaskStatus>, id: Seq<char>) -> Option<IndexTaskStatus> {
    match find_task(s, id, 0) {
        Some(j) => Some(s[j]),
        None => None,
    }
}

pub open spec fn updated_keys(s: Seq<IndexTaskStatus>) -> Seq<i64> {
    s.map_values(|x: IndexTaskStatus| x.updated_at)
}

/// The indexing tasks, each with its latest status.
pub struct IndexTaskStatusService {
    pub statuses: Vec<IndexTaskStatus>,
}

impl IndexTaskStatusService {
    /// A service with no task.
    pub fn new() -> (r: IndexTaskStatusService)
        ensures
            r.statuses@.len() == 0,
    {
        IndexTaskStatusService { statuses: Vec::new() }
    }

    fn find(&self, task_id: &str) -> (r: Option<usize>)
        ensures
            match r {
                Some(j) => find_task(self.statuses@, task_id@, 0) == Some(j as int) && j
                    < self.statuses@.len(),
                None => find_task(self.statuses@, task_id@, 0) is None,
            },
    {
        let mut i: usize = 0;
        while i < self.statuses.len()
            invariant
                i <= self.statuses.len(),
                find_task(self.statuses@, task_id@, 0) == find_task(
                    self.statuses@,
                    task_id@,
                    i as int,
                ),
            decreases self.statuses.len() - i,
        {
            if str_eq(self.statuses[i].task_id.as_str(), task_id) {
                return Some(i);
            }
            i = i + 1;
        }
        None
    }

    /// Keeps `status` as the status of its task.
    fn put(&mut self, status: IndexTaskStatus)
        ensures
            status_of(final(self).statuses@, status.task_id@) == Some(status),
            forall|id: Seq<char>|
                id != status.task_id@ ==> status_of(final(self).statuses@, id) == status_of(
                    old(self).statuses@,
                    id,
                ),
    {
        let ghost pre = self.statuses@;
        let ghost st = status;
        proof {
            lemma_find_task(pre, status.task_id@, 0);
        }
        match self.find(status.task_id.as_str()) {
            Some(j) => {
                self.statuses.set(j, status);
                proof {
                    assert(self.statuses@[j as int] == st);
                    lemma_find_task(self.statuses@, st.task_id@, 0);
                    match find_task(self.statuses@, st.task_id@, 0) {
                        Some(b) => {
                            assert(pre[b].task_id@ == self.statuses@[b].task_id@ || b == j);
                        },
                        None => {},
                    }
                    assert forall|id: Seq<char>| id != st.task_id@ implies status_of(
                        self.statuses@,
                        id,
                    ) == status_of(pre, id) by {
                        lemma_find_task(self.statuses@, id, 0);
                        lemma_find_task(pre, id, 0);
                        match find_task(pre, id, 0) {
                            Some(a) => {
                                assert(self.statuses@[a] == pre[a]);
                            },
                            None => {},
                        }
                        match find_task(self.statuses@, id, 0) {
                            Some(b) => {
                                assert(self.statuses@[b] == pre[b]);
                            },
                            None => {},
                        }
                    }
                }
            },
            None => {
                self.statuses.push(status);
                proof {
                    assert(self.statuses@[pre.len() as int] == st);
                    lemma_find_task(self.statuses@, st.task_id@, 0);
                    match find_task(self.statuses@, st.task_id@, 0) {
                        Some(b) => {
                            if b < pre.len() {
                                assert(self.statuses@[b] == pre[b]);
                            }
                        },
                        None => {},
                    }
                    assert forall|id: Seq<char>| id != st.task_id@ implies status_of(
                        self.statuses@,
                        id,
                    ) == status_of(pre, id) by {
                        lemma_find_task(self.statuses@, id, 0);
                        lemma_find_task(pre, id, 0);
                        match find_task(pre, id, 0) {
                            Some(a) => {
                                assert(self.statuses@[a] == pre[a]);
                            },
                            None => {},
                        }
                        match find_task(self.statuses@, id, 0) {
                            Some(b) => {
                                if b < pre.len() {
                                    assert(self.statuses@[b] == pre[b]);
                                }
                            },
                            None => {},
                        }
                    }
                }
            },
        }
    }

    /// Registers the indexing of a stored file; the task starts as indexing.
    pub fn create_task(&mut self, file_name: &str, file_path: &str) -> (r: IndexTaskStatus)
        ensures
            r.file_name@ == file_name@,
            r.file_path@ == file_path@,
            r.status@ == ACCEPTED_STATUS@,
            r.message@ == ACCEPTED_MSG@,
            r.error_message is None,
            r.created_at == r.updated_at,
            crate::evidence::is_random_uuid_text(r.task_id@),
            status_of(final(self).statuses@, r.task_id@) == Some(r),
            forall|id: Seq<char>|
                id != r.task_id@ ==> status_of(final(self).statuses@, id) == status_of(
                    old(self).statuses@,
                    id,
                ),
    {
        let now = now_millis();
        let status = IndexTaskStatus {
            task_id: new_task_id(),
            file_name: to_string(file_name),
            file_path: to_string(file_path),
            status: to_string(ACCEPTED_STATUS),
            message: to_string(ACCEPTED_MSG),
            error_message: None,
            created_at: now,
            updated_at: now,
        };
        self.put(status.clone());
        status
    }

    /// Sets the status, message and error of a known task, changed at
    /// `now`; its id, file and creation time stay. An unknown task is
    /// ignored.
    pub fn set_status_at(
        &mut self,
        task_id: &str,
        status_value: &str,
        message: &str,
        error_message: Option<String>,
        now: i64,
    )
        ensures
            match status_of(old(self).statuses@, task_id@) {
                Some(s) => match status_of(final(self).statuses@, task_id@) {
                    Some(t) => t.task_id == s.task_id && t.file_name == s.file_name && t.file_path
                        == s.file_path && t.created_at == s.created_at && t.status@ == status_value@
                        && t.message@ == message@ && t.error_message == error_message
                        && t.updated_at == now,
                    None => false,
                },
                None => final(self).statuses@ == old(self).statuses@,
            },
            forall|id: Seq<char>|
                id != task_id@ ==> status_of(final(self).statuses@, id) == status_of(
                    old(self).statuses@,
                    id,
                ),
    {
        match self.find(task_id) {
            Some(j) => {
                let old_status = self.statuses[j].clone();
                let updated = IndexTaskStatus {
                    task_id: old_status.task_id,
                    file_name: old_status.file_name,
                    file_path: old_status.file_path,
                    status: to_string(status_value),
                    message: to_string(message),
                    error_message,
                    created_at: old_status.created_at,
                    updated_at: now,
                };
                proof {
                    lemma_find_task(self.statuses@, task_id@, 0);
                }
                self.put(updated);
            },
            None => {},
        }
    }

    /// The task is being indexed.
    pub fn mark_running(&mut self, task_id: &str)
        ensures
            match status_of(old(self).statuses@, task_id@) {
                Some(s) => match status_of(final(self).statuses@, task_id@) {
                    Some(t) => t.task_id == s.task_id && t.file_name == s.file_name && t.file_path
                        == s.file_path && t.created_at == s.created_at && t.status@ == ACCEPTED_STATUS@ && t.message@
                        == RUNNING_MSG@ && t.error_message is None,
                    None => false,
                },
                None => final(self).statuses@ == old(self).statuses@,
            },
            forall|id: Seq<char>|
                id != task_id@ ==> status_of(final(self).statuses@, id) == status_of(
                    old(self).statuses@,
                    id,
                ),
    {
        self.set_status_at(task_id, ACCEPTED_STATUS, RUNNING_MSG, None, now_millis());
    }

    /// The task is indexed.
    pub fn mark_completed(&mut self, task_id: &str)
        ensures
            match status_of(old(self).statuses@, task_id@) {
                Some(s) => match status_of(final(self).statuses@, task_id@) {
                    Some(t) => t.task_id == s.task_id && t.file_name == s.file_name && t.file_path
                        == s.file_path && t.created_at == s.created_at && t.status@ == COMPLETED_STATUS@ && t.message@
                        == COMPLETED_MSG@ && t.error_message is None,
                    None => false,
                },
                None => final(self).statuses@ == old(self).statuses@,
            },
            forall|id: Seq<char>|
                id != task_id@ ==> status_of(final(self).statuses@, id) == status_of(
                    old(self).statuses@,
                    id,
                ),
    {
        self.set_status_at(task_id, COMPLETED_STATUS, COMPLETED_MSG, None, now_millis());
    }

    /// The task failed with `error_message`.
    pub fn mark_failed(&mut self, task_id: &str, error_message: String)
        ensures
            match status_of(old(self).statuses@, task_id@) {
                Some(s) => match status_of(final(self).statuses@, task_id@) {
                    Some(t) => t.task_id == s.task_id && t.file_name == s.file_name && t.file_path
                        == s.file_path && t.created_at == s.created_at && t.status@ == FAILED_STATUS@ && t.message@
                        == FAILED_MSG@ && t.error_message == Some(error_message),
                    None => false,
                },
                None => final(self).statuses@ == old(self).statuses@,
            },
            forall|id: Seq<char>|
                id != task_id@ ==> status_of(final(self).statuses@, id) == status_of(
                    old(self).statuses@,
                    id,
                ),
    {
        self.set_status_at(task_id, FAILED_STATUS, FAILED_MSG, Some(error_message), now_millis());
    }

    /// The status of a task, if it is known.
    pub fn get_status(&self, task_id: &str) -> (r: Option<IndexTaskStatus>)
        ensures
            r == status_of(self.statuses@, task_id@),
    {
        match self.find(task_id) {
            Some(j) => Some(self.statuses[j].clone()),
            None => None,
        }
    }

    /// Every task, the most recently changed first.
    pub fn list_statuses(&self) -> (r: Vec<IndexTaskStatus>)
        ensures
            exists|order: Seq<usize>|
                is_desc_order(updated_keys(self.statuses@), order) && r@.len() == order.len()
                    && forall|i: int|
                    0 <= i < order.len() ==> #[trigger] r@[i] == self.statuses@[order[i] as int],
    {
        let mut keys: Vec<i64> = Vec::new();
        let mut i: usize = 0;
        while i < self.statuses.len()
            invariant
                i <= self.statuses.len(),
                keys@ == updated_keys(self.statuses@).take(i as int),
            decreases self.statuses.len() - i,
        {
            keys.push(self.statuses[i].updated_at);
            assert(keys@ =~= updated_keys(self.statuses@).take(i + 1));
            i = i + 1;
        }
        assert(keys@ =~= updated_keys(self.statuses@));
        let order = order_desc(&keys);
        let mut out: Vec<IndexTaskStatus> = Vec::new();
        let mut k: usize = 0;
        while k < order.len()
            invariant
                k <= order.len(),
                is_desc_order(updated_keys(self.statuses@), order@),
                out@.len() == k,
                forall|m: int| 0 <= m < k ==> #[trigger] out@[m] == self.statuses@[order@[m] as int],
            decreases order.len() - k,
        {
            out.push(self.statuses[order[k]].clone());
            k = k + 1;
        }
        out
    }
}

} // verus!
