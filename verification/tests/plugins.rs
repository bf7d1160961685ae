use sapphillon::plugins::browser_info::{stand_in_context, ContextDataParams};
use sapphillon::plugins::fetch::{
    fetch_plugin_function, fetch_plugin_package, fetch_plugin_permissions, post_plugin_function,
};
use sapphillon::plugins::search::{get_active_searcher_name, search_plugin_function, search_plugin_package};
use sapphillon::plugins::window::{
    get_active_window_title_plugin_function, get_inactive_window_titles_plugin_function,
    window_plugin_package,
};
use sapphillon::proto::PERMISSION_TYPE_NET_ACCESS;

#[test]
fn test_fetch_plugin_permissions() {
    let perms = fetch_plugin_permissions();
    assert_eq!(perms.len(), 1, "Expected exactly one permission");
    let p = &perms[0];
    assert_eq!(p.display_name, "Network Access");
    assert!(p.description.contains("network"));
    assert_eq!(p.permission_type, PERMISSION_TYPE_NET_ACCESS);
    assert!(p.resource.is_empty());
}

#[test]
fn test_get_active_searcher() {
    let name = get_active_searcher_name();
    assert!(!name.is_empty());
    println!("Active searcher: {name}");
}

#[test]
fn test_fetch_plugin_package() {
    let pkg = fetch_plugin_package();
    assert_eq!(pkg.package_id, "app.sapphillon.core.fetch");
    assert_eq!(pkg.package_name, "Fetch");
    let expected_version = "0.1.0".to_string();
    assert_eq!(pkg.package_version, expected_version);
    let func_ids: Vec<String> = pkg.functions.into_iter().map(|f| f.function_id).collect();
    assert!(
        func_ids.contains(&fetch_plugin_function().function_id),
        "Package functions must include fetch_plugin_function"
    );
}

#[test]
fn fetch_and_post_functions_describe_their_parameters() {
    let fetch = fetch_plugin_function();
    assert_eq!(fetch.function_id, "app.sapphillon.core.fetch.fetch");
    let define = fetch.function_define.expect("fetch has a definition");
    let names: Vec<String> = define.parameters.iter().map(|p| p.name.clone()).collect();
    assert_eq!(names, vec!["url".to_string()]);
    assert_eq!(define.returns.len(), 1);
    assert_eq!(define.returns[0].name, "content");
    assert_eq!(define.returns[0].param_type, "string");

    let post = post_plugin_function();
    assert_eq!(post.function_id, "app.sapphillon.core.fetch.post");
    assert_eq!(post.function_name, "Post");
    assert_eq!(post.permissions, fetch_plugin_permissions());
    let define = post.function_define.expect("post has a definition");
    let names: Vec<String> = define.parameters.iter().map(|p| p.name.clone()).collect();
    assert_eq!(names, vec!["url".to_string(), "body".to_string()]);
    assert_eq!(define.parameters[1].description, "Request body");
}

#[test]
fn search_package_lists_the_file_search_function() {
    let pkg = search_plugin_package();
    assert_eq!(pkg.package_id, "app.sapphillon.core.search");
    assert_eq!(pkg.package_name, "Search");
    assert_eq!(pkg.plugin_store_url, "BUILTIN");
    assert_eq!(pkg.internal_plugin, Some(true));
    assert_eq!(pkg.verified, Some(true));
    assert_eq!(pkg.functions, vec![search_plugin_function()]);
    let f = search_plugin_function();
    assert_eq!(f.function_id, "app.sapphillon.core.search.file");
    assert_eq!(f.function_name, "search.file");
    let define = f.function_define.expect("search has a definition");
    assert_eq!(define.parameters[0].name, "root_path");
    assert_eq!(define.parameters[1].name, "query");
    assert_eq!(define.returns[0].description, "JSON array of file paths");
}

#[test]
fn window_package_lists_both_window_functions() {
    let pkg = window_plugin_package();
    assert_eq!(pkg.package_id, "app.sapphillon.core.window");
    assert_eq!(pkg.package_name, "Window");
    assert_eq!(pkg.package_version, "0.1.0");
    assert_eq!(
        pkg.functions,
        vec![get_active_window_title_plugin_function(), get_inactive_window_titles_plugin_function()]
    );
    let inactive = get_inactive_window_titles_plugin_function();
    let define = inactive.function_define.expect("window titles has a definition");
    assert!(define.parameters.is_empty());
    assert_eq!(define.returns[0].name, "titles");
    assert_eq!(define.returns[0].param_type, "string[]");
    let active = get_active_window_title_plugin_function();
    assert_eq!(active.function_name, "Get Active Window Title");
    assert_eq!(active.permissions[0].display_name, "Window Access");
}

#[test]
fn stand_in_context_echoes_the_requested_limits() {
    let c = stand_in_context(Some(ContextDataParams { history_limit: Some(5), download_limit: None }));
    assert_eq!(c.history.len(), 2);
    assert_eq!(c.history[1].url, "https://www.rust-lang.org/");
    assert_eq!(c.downloads[0].size_bytes, 1_048_576);
    assert_eq!(c.downloads[0].status, "completed");
    assert_eq!(c.tabs.len(), 2);
    assert!(c.tabs[0].active && !c.tabs[1].active);
    assert!(c.meta.dummy);
    assert_eq!(c.meta.generated_at, "2025-09-07T12:10:00Z");
    assert_eq!(c.meta.history_limit, Some(5));
    assert_eq!(c.meta.download_limit, None);
    let bare = stand_in_context(None);
    assert_eq!(bare.meta.history_limit, None);
}
