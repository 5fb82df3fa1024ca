use oncall_agent_rs::alerts::AlertService;
use oncall_agent_rs::index_tasks::IndexTaskStatusService;

#[test]
fn a_report_reads_back_as_stored() {
    let mut service = AlertService::new();
    assert_eq!(service.get_report("a-1"), None);
    service.store_report("a-1", "first");
    service.store_report("a-2", "other");
    service.store_report("a-1", "second");
    assert_eq!(service.get_report("a-1"), Some("second".to_string()));
    assert_eq!(service.get_report("a-2"), Some("other".to_string()));
}

#[test]
fn index_tasks_move_through_their_states() {
    let mut service = IndexTaskStatusService::new();
    let task = service.create_task("a.md", "/tmp/a.md");
    assert_eq!(task.status, "INDEXING");
    assert_eq!(task.message, "文件已接收，索引处理中");
    service.mark_running(&task.task_id);
    assert_eq!(service.get_status(&task.task_id).unwrap().message, "索引处理中");
    service.mark_failed(&task.task_id, "boom".to_string());
    let failed = service.get_status(&task.task_id).unwrap();
    assert_eq!(failed.status, "FAILED");
    assert_eq!(failed.error_message, Some("boom".to_string()));
    service.mark_completed(&task.task_id);
    let done = service.get_status(&task.task_id).unwrap();
    assert_eq!(done.status, "COMPLETED");
    assert_eq!(done.error_message, None);
    assert!(service.get_status("unknown").is_none());
    service.mark_completed("unknown");
    assert_eq!(service.list_statuses().len(), 1);
}

#[test]
fn a_task_keeps_its_file_and_creation_time_through_its_states() {
    let mut service = IndexTaskStatusService::new();
    let task = service.create_task("b.md", "/tmp/b.md");
    service.mark_failed(&task.task_id, "boom".to_string());
    service.mark_completed(&task.task_id);
    let done = service.get_status(&task.task_id).unwrap();
    assert_eq!(done.task_id, task.task_id);
    assert_eq!(done.file_name, "b.md");
    assert_eq!(done.file_path, "/tmp/b.md");
    assert_eq!(done.created_at, task.created_at);
    assert_eq!(done.message, "索引完成");
}

#[test]
fn a_status_set_at_a_time_carries_that_time() {
    let mut service = IndexTaskStatusService::new();
    let task = service.create_task("c.md", "/tmp/c.md");
    service.set_status_at(&task.task_id, "FAILED", "索引失败", Some("boom".to_string()), 1_700_000_000_000);
    let failed = service.get_status(&task.task_id).unwrap();
    assert_eq!(failed.status, "FAILED");
    assert_eq!(failed.message, "索引失败");
    assert_eq!(failed.error_message, Some("boom".to_string()));
    assert_eq!(failed.updated_at, 1_700_000_000_000);
    assert_eq!(failed.created_at, task.created_at);
    service.set_status_at("unknown", "FAILED", "x", None, 5);
    assert!(service.get_status("unknown").is_none());
}

fn is_random_uuid(s: &str) -> bool {
    let b: Vec<char> = s.chars().collect();
    b.len() == 36
        && b.iter().enumerate().all(|(i, c)| {
            if i == 8 || i == 13 || i == 18 || i == 23 {
                *c == '-'
            } else {
                c.is_ascii_hexdigit() && !c.is_ascii_uppercase()
            }
        })
        && b[14] == '4'
        && matches!(b[19], '8' | '9' | 'a' | 'b')
}

#[test]
fn a_new_task_id_is_a_random_uuid() {
    let mut service = IndexTaskStatusService::new();
    let a = service.create_task("d.md", "/tmp/d.md");
    let b = service.create_task("e.md", "/tmp/e.md");
    assert!(is_random_uuid(&a.task_id));
    assert!(is_random_uuid(&b.task_id));
    assert_ne!(a.task_id, b.task_id);
}
