use sapphillon::plugins::browser_info::context_data_answer;
use sapphillon::permission_check::{
    fill_resource, permission_outcome, select_allowed, FunctionPermissions,
};
use sapphillon::plugins::exec::{exec_permission_request, exec_plugin_package, exec_plugin_permissions};
use sapphillon::plugins::fetch::{fetch_permission_request, post_permission_request};
use sapphillon::plugins::filesystem::{
    filesystem_list_files_permission_request, filesystem_plugin_package,
    filesystem_read_permission_request,
};
use sapphillon::plugins::filesystem::filesystem_write_permission_request;
use sapphillon::plugins::search::search_file_permission_request;
use sapphillon::plugins::window::{
    inactive_window_titles_permission_request,
    active_window_title_permission_request, inactive_window_titles, OpenWindow,
};
use sapphillon::proto::{Permission, PERMISSION_TYPE_EXECUTE};

fn grant(id: &str, resources: &[&str]) -> FunctionPermissions {
    FunctionPermissions {
        plugin_function_id: id.to_string(),
        permissions: vec![Permission {
            display_name: "Command Access".to_string(),
            description: "d".to_string(),
            permission_type: PERMISSION_TYPE_EXECUTE,
            resource: resources.iter().map(|r| r.to_string()).collect(),
            permission_level: 0,
        }],
    }
}

#[test]
fn exec_check_defaults_to_its_own_permissions() {
    let req = exec_permission_request(None, "echo hi".to_string());
    assert_eq!(req.allowed, exec_plugin_permissions());
    assert_eq!(req.required.len(), 1);
    assert_eq!(req.required[0].resource, vec!["echo hi".to_string()]);
    assert_eq!(req.required[0].display_name, "Command Access");
}

#[test]
fn first_applicable_grant_wins() {
    let grants = vec![grant("other.fn", &["x"]), grant("*", &["star"]), grant("app.sapphillon.core.exec.exec", &["own"])];
    let allowed = select_allowed(&grants, "app.sapphillon.core.exec.exec");
    assert_eq!(allowed[0].resource, vec!["star".to_string()]);
    let req = exec_permission_request(Some(vec![grant("other.fn", &[])]), "ls".to_string());
    assert!(req.allowed.is_empty());
}

#[test]
fn filling_resources() {
    let declared = vec![
        Permission { display_name: "a".to_string(), description: String::new(), permission_type: 4, resource: vec![], permission_level: 0 },
        Permission { display_name: "b".to_string(), description: String::new(), permission_type: 4, resource: vec!["kept".to_string()], permission_level: 0 },
    ];
    let filled = fill_resource(&declared, "https://x");
    assert_eq!(filled[0].resource, vec!["https://x".to_string()]);
    assert_eq!(filled[1].resource, vec!["kept".to_string()]);
    assert_eq!(fill_resource(&declared, ""), declared);
}

#[test]
fn fetch_and_window_checks_grant_nothing_by_default() {
    let req = fetch_permission_request(None, "https://example.com");
    assert!(req.allowed.is_empty());
    assert_eq!(req.required[0].resource, vec!["https://example.com".to_string()]);
    let post = post_permission_request(Some(vec![grant("app.sapphillon.core.fetch.post", &[])]), "https://a");
    assert_eq!(post.allowed.len(), 1);
    let win = active_window_title_permission_request(None);
    assert!(win.required[0].resource.is_empty());
}

#[test]
fn filesystem_checks() {
    let read = filesystem_read_permission_request(None, "/etc/hosts".to_string());
    assert_eq!(read.allowed.len(), 1);
    assert_eq!(read.allowed[0].display_name, "Filesystem Read");
    assert_eq!(read.required[0].resource, vec!["/etc/hosts".to_string()]);
    let list = filesystem_list_files_permission_request(None, "/some/path".to_string());
    assert!(list.allowed.is_empty());
    assert_eq!(list.required[0].description, "Allows the plugin to list files from the local filesystem.");
}

#[test]
fn denied_checks_answer_with_the_missing_permissions() {
    assert_eq!(permission_outcome(None), Ok(()));
    let err = permission_outcome(Some("FILESYSTEM_READ".to_string())).unwrap_err();
    assert_eq!(err.message, "PermissionDenied. Missing Permissions:");
    assert_eq!(err.detail, "FILESYSTEM_READ");
}

#[test]
fn catalog_entries() {
    let exec = exec_plugin_package();
    assert_eq!(exec.package_id, "app.sapphillon.core.exec");
    assert_eq!(exec.package_version, "0.1.0");
    assert_eq!(exec.functions[0].function_id, "app.sapphillon.core.exec.exec");
    assert_eq!(exec.plugin_store_url, "BUILTIN");
    let fs = filesystem_plugin_package();
    let ids: Vec<&str> = fs.functions.iter().map(|f| f.function_id.as_str()).collect();
    assert_eq!(
        ids,
        vec![
            "app.sapphillon.core.filesystem.read",
            "app.sapphillon.core.filesystem.write",
            "app.sapphillon.core.filesystem.list_files"
        ]
    );
    assert_eq!(fs.functions[1].arguments, "String: path, String: content");
}

#[test]
fn inactive_windows_exclude_the_active_one() {
    let windows = vec![
        OpenWindow { id: 1, title: "Editor".to_string() },
        OpenWindow { id: 2, title: "Browser".to_string() },
        OpenWindow { id: 3, title: "Terminal".to_string() },
    ];
    assert_eq!(inactive_window_titles(&windows, Some(2)), vec!["Editor", "Terminal"]);
    assert_eq!(inactive_window_titles(&windows, None), vec!["Editor", "Browser", "Terminal"]);
}

#[test]
fn remaining_permission_requests() {
    let write = filesystem_write_permission_request(None, "/tmp/out.txt".to_string());
    assert_eq!(write.allowed[0].display_name, "Filesystem Write");
    assert_eq!(write.required[0].resource, vec!["/tmp/out.txt".to_string()]);
    let search = search_file_permission_request(Some(vec![grant("*", &["/home"])]), "/home/me");
    assert_eq!(search.allowed[0].resource, vec!["/home".to_string()]);
    assert_eq!(search.required[0].resource, vec!["/home/me".to_string()]);
    let win = inactive_window_titles_permission_request(Some(vec![grant("app.sapphillon.core.window.get_inactive_window_titles", &[])]));
    assert_eq!(win.allowed.len(), 1);
    assert_eq!(win.required[0].display_name, "Window Access");
}

#[test]
fn browser_service_settings_and_answers() {
    let addr = sapphillon::plugins::browser_info::browser_service_address(None, None);
    assert_eq!(addr, "http://127.0.0.1:50051");
    let addr = sapphillon::plugins::browser_info::browser_service_address(None, Some("http://g:1".to_string()));
    assert_eq!(addr, "http://g:1");
    let addr = sapphillon::plugins::browser_info::browser_service_address(
        Some("http://b:2".to_string()),
        Some("http://g:1".to_string()),
    );
    assert_eq!(addr, "http://b:2");
    assert!(sapphillon::plugins::browser_info::stand_in_mode(Some("1")));
    assert!(!sapphillon::plugins::browser_info::stand_in_mode(Some("true")));
    assert!(!sapphillon::plugins::browser_info::stand_in_mode(None));
    assert_eq!(context_data_answer(true, None, None), Ok("{}".to_string()));
    assert_eq!(context_data_answer(true, Some("{\"a\":1}".to_string()), None), Ok("{\"a\":1}".to_string()));
    assert_eq!(context_data_answer(false, None, None), Err("Unknown error from server".to_string()));
    assert_eq!(context_data_answer(false, None, Some("boom".to_string())), Err("boom".to_string()));
}
