use oncall_agent_rs::upload::{check_upload, clean_file_name, is_allowed_extension};

fn allowed() -> Vec<String> {
    vec!["txt".to_string(), "md".to_string()]
}

#[test]
fn file_names_lose_their_directories() {
    assert_eq!(clean_file_name("C:\\docs\\runbook.md"), "runbook.md");
    assert_eq!(clean_file_name("a/b/ notes.txt "), "notes.txt");
    assert_eq!(clean_file_name("dir/"), "");
}

#[test]
fn extensions_are_compared_lowercased() {
    assert!(is_allowed_extension("Runbook.MD", &allowed()));
    assert!(!is_allowed_extension("archive.tar.gz", &allowed()));
    assert!(!is_allowed_extension("README", &allowed()));
}

#[test]
fn uploads_are_checked_in_order() {
    assert_eq!(check_upload(None, Some(3), &allowed()), Err("文件名不能为空".to_string()));
    assert_eq!(check_upload(Some("x/"), Some(3), &allowed()), Err("非法的路径格式: ".to_string()));
    assert_eq!(check_upload(Some("a..b.md"), Some(3), &allowed()), Err("非法的路径格式: a..b.md".to_string()));
    assert_eq!(
        check_upload(Some("a.pdf"), Some(3), &allowed()),
        Err("不支持的文件格式，仅支持: txt,md".to_string())
    );
    assert_eq!(check_upload(Some("a.md"), Some(0), &allowed()), Err("文件不能为空".to_string()));
    assert_eq!(check_upload(Some("a.md"), None, &allowed()), Err("文件不能为空".to_string()));
    assert_eq!(check_upload(Some("dir/a.md"), Some(3), &allowed()), Ok("a.md".to_string()));
}
