use sapphillon::convert::workflow_code::allowed_permissions_to_proto;
use sapphillon::entity::ext_plugin_package::Model as ExtPluginPackage;
use sapphillon::entity::permission::Model as EntityPermission;
use sapphillon::entity::plugin_function::Model as EntityPluginFunction;
use sapphillon::entity::plugin_function_permission::Model as EntityLink;
use sapphillon::entity::plugin_package::Model as EntityPluginPackage;
use sapphillon::entity::workflow::Model as EntityWorkflow;
use sapphillon::entity::workflow_code::Model as EntityWorkflowCode;
use sapphillon::entity::workflow_code_allowed_permission::Model as EntityWCAllowed;
use sapphillon::entity::workflow_code_plugin_function::Model as EntityWCPluginFunction;
use sapphillon::entity::workflow_code_plugin_package::Model as EntityWCPluginPackage;
use sapphillon::entity::workflow_result::Model as EntityWorkflowResult;
use sapphillon::ext_plugin::{mark_missing, new_ext_plugin_package};
use sapphillon::plugin_listing::{assemble_plugin_list, listed_function_ids};
use sapphillon::plugin_registry::{
    collect_registrations, plan_function_changes, plan_package_changes, plan_permission_inserts,
    plan_permission_links,
};
use sapphillon::proto::{
    AllowedPermission, Permission, PluginFunction, PluginPackage, Workflow, WorkflowCode,
    WorkflowResult, PERMISSION_LEVEL_HIGH, PERMISSION_LEVEL_MEDIUM, PERMISSION_TYPE_FILESYSTEM_READ,
    PERMISSION_TYPE_NET_ACCESS, WORKFLOW_RESULT_TYPE_SUCCESS_UNSPECIFIED,
};
use sapphillon::workflow::{
    assemble_workflow, new_workflow, new_workflow_code, plan_workflow_update, require_workflow,
    CodeRelations,
};

fn network_permission() -> Permission {
    Permission {
        display_name: "Network Access".to_string(),
        description: "Allows outbound requests".to_string(),
        permission_type: PERMISSION_TYPE_NET_ACCESS,
        resource: vec!["https://example.com".to_string()],
        permission_level: PERMISSION_LEVEL_MEDIUM,
    }
}

fn example_function(description: &str) -> PluginFunction {
    PluginFunction {
        function_id: "pkg.fn".to_string(),
        function_name: "Fn".to_string(),
        description: description.to_string(),
        permissions: vec![network_permission()],
        arguments: String::new(),
        returns: String::new(),
        function_define: None,
    }
}

fn example_package(version: &str, description: &str) -> PluginPackage {
    PluginPackage {
        package_id: "pkg".to_string(),
        package_name: "Pkg".to_string(),
        package_version: version.to_string(),
        description: "Example package".to_string(),
        functions: vec![example_function(description)],
        plugin_store_url: "builtin".to_string(),
        internal_plugin: Some(true),
        verified: Some(true),
        deprecated: Some(false),
        installed_at: None,
        updated_at: None,
    }
}

/// What a database holds between registrations, with ids handed out in order.
struct Store {
    packages: Vec<EntityPluginPackage>,
    functions: Vec<EntityPluginFunction>,
    permissions: Vec<EntityPermission>,
    links: Vec<EntityLink>,
}

/// Runs one registration against the store, writing what the planners plan;
/// returns how many rows were written.
fn register(store: &mut Store, plugins: &[PluginPackage]) -> usize {
    let regs = collect_registrations(plugins);
    let mut writes = 0;
    let (ins, upd) = plan_package_changes(&regs.packages, &store.packages);
    writes += ins.len() + upd.len();
    for u in upd {
        let slot = store.packages.iter_mut().find(|p| p.package_id == u.package_id).unwrap();
        *slot = u;
    }
    store.packages.extend(ins);
    let (ins, upd) = plan_function_changes(&regs.functions, &store.functions);
    writes += ins.len() + upd.len();
    for u in upd {
        let slot = store.functions.iter_mut().find(|f| f.function_id == u.function_id).unwrap();
        *slot = u;
    }
    store.functions.extend(ins);
    let new_perms = plan_permission_inserts(&regs.permissions, &store.permissions);
    writes += new_perms.len();
    for mut p in new_perms {
        p.id = store.permissions.len() as i32 + 1;
        store.permissions.push(p);
    }
    let new_links = plan_permission_links(&regs.permissions, &store.permissions, &store.links);
    writes += new_links.len();
    for mut l in new_links {
        l.id = store.links.len() as i32 + 1;
        store.links.push(l);
    }
    writes
}

#[test]
fn registration_writes_once_then_settles() {
    let mut store =
        Store { packages: Vec::new(), functions: Vec::new(), permissions: Vec::new(), links: Vec::new() };
    let plugins = vec![example_package("1.0.0", "Example function")];
    assert_eq!(register(&mut store, &plugins), 4);
    assert_eq!(register(&mut store, &plugins), 0);
    assert_eq!(store.packages.len(), 1);
    assert_eq!(store.packages[0].package_id, "pkg");
    assert_eq!(store.functions.len(), 1);
    assert_eq!(store.functions[0].function_id, "pkg.fn");
    assert_eq!(store.permissions.len(), 1);
    assert_eq!(store.permissions[0].plugin_function_id, "pkg.fn");
    assert_eq!(store.links.len(), 1);
    assert_eq!(store.links[0].plugin_function_id, "pkg.fn");
    assert_eq!(store.links[0].permission_id, store.permissions[0].id.to_string());
}

#[test]
fn registration_refreshes_changed_rows() {
    let mut store =
        Store { packages: Vec::new(), functions: Vec::new(), permissions: Vec::new(), links: Vec::new() };
    register(&mut store, &[example_package("1.0.0", "Example function")]);
    let writes = register(&mut store, &[example_package("1.0.1", "Updated description")]);
    assert_eq!(writes, 2);
    assert_eq!(store.packages.len(), 1);
    assert_eq!(store.packages[0].package_version, "1.0.1");
    assert_eq!(store.functions.len(), 1);
    assert_eq!(store.functions[0].description.as_deref(), Some("Updated description"));
    assert_eq!(register(&mut store, &[example_package("1.0.1", "Updated description")]), 0);
}

#[test]
fn registration_merges_duplicate_declarations() {
    let first = example_package("1.0.0", "first");
    let mut second = example_package("2.0.0", "second");
    second.functions[0].permissions.push(network_permission());
    let regs = collect_registrations(&[first, second]);
    assert_eq!(regs.packages.len(), 1);
    assert_eq!(regs.packages[0].package_version, "2.0.0");
    assert_eq!(regs.functions.len(), 1);
    assert_eq!(regs.functions[0].description.as_deref(), Some("second"));
    assert_eq!(regs.permissions.len(), 1);
    assert_eq!(regs.permissions[0].resource_json.as_deref(), Some("[\"https://example.com\"]"));
}

fn permission_row(id: i32, function_id: &str) -> EntityPermission {
    EntityPermission {
        id,
        plugin_function_id: function_id.to_string(),
        display_name: Some("dn".to_string()),
        description: None,
        permission_type: 0,
        resource_json: None,
        level: None,
    }
}

#[test]
fn listing_attaches_permissions_by_function() {
    let pkg = EntityPluginPackage {
        package_id: "pkg1".to_string(),
        package_name: "P".to_string(),
        package_version: "0.1".to_string(),
        description: None,
        plugin_store_url: None,
        internal_plugin: false,
        verified: false,
        deprecated: false,
        installed_at: None,
        updated_at: None,
    };
    let f = |id: &str, name: &str| EntityPluginFunction {
        function_id: id.to_string(),
        package_id: "pkg1".to_string(),
        function_name: name.to_string(),
        description: Some("D".to_string()),
        arguments: None,
        returns: None,
    };
    let items = vec![(pkg, vec![f("pkg1.fn1", "F1"), f("pkg1.fn2", "F2")])];
    assert_eq!(listed_function_ids(&items), vec!["pkg1.fn1", "pkg1.fn2"]);
    let loaded = vec![Some(permission_row(101, "pkg1.fn1")), None, Some(permission_row(102, "pkg1.fn2"))];
    let pkgs = assemble_plugin_list(&items, &loaded);
    assert_eq!(pkgs.len(), 1);
    assert_eq!(pkgs[0].package_id, "pkg1");
    assert_eq!(pkgs[0].functions.len(), 2);
    let counts: Vec<usize> = pkgs[0].functions.iter().map(|f| f.permissions.len()).collect();
    assert_eq!(counts, vec![1, 1]);
    assert_eq!(pkgs[0].functions[0].permissions[0].display_name, "dn");
}

#[test]
fn grants_group_by_function_in_text_order() {
    let rel = |id: i32| EntityWCAllowed { id, workflow_code_id: "wc".to_string(), permission_id: id };
    let mut p1 = permission_row(1, "b.fn");
    p1.display_name = Some("first".to_string());
    let p2 = permission_row(2, "a.fn");
    let mut p3 = permission_row(3, "b.fn");
    p3.display_name = Some("third".to_string());
    p3.level = Some(PERMISSION_LEVEL_HIGH);
    let items = vec![(rel(1), Some(p1)), (rel(2), Some(p2)), (rel(4), None), (rel(3), Some(p3))];
    let groups = allowed_permissions_to_proto(&items);
    assert_eq!(groups.len(), 2);
    assert_eq!(groups[0].plugin_function_id, "a.fn");
    assert_eq!(groups[1].plugin_function_id, "b.fn");
    assert_eq!(groups[1].permissions.len(), 2);
    assert_eq!(groups[1].permissions[0].display_name, "first");
    assert_eq!(groups[1].permissions[0].permission_level, 0);
    assert_eq!(groups[1].permissions[1].display_name, "third");
    assert_eq!(groups[1].permissions[1].permission_level, PERMISSION_LEVEL_HIGH);
    assert!(allowed_permissions_to_proto(&[(rel(9), None)]).is_empty());
}

fn is_uuid_v4(s: &str) -> bool {
    let b = s.as_bytes();
    b.len() == 36
        && b.iter().enumerate().all(|(i, c)| {
            if [8, 13, 18, 23].contains(&i) {
                *c == b'-'
            } else {
                c.is_ascii_digit() || (b'a'..=b'f').contains(c)
            }
        })
        && b[14] == b'4'
        && [b'8', b'9', b'a', b'b'].contains(&b[19])
}

#[test]
fn new_workflow_code_starts_at_first_revision() {
    let created = new_workflow_code(
        "print('hi')".to_string(),
        -7,
        &["func1".to_string()],
        &["pkg1".to_string(), "pkg2".to_string()],
    );
    assert!(is_uuid_v4(&created.code.id), "{}", created.code.id);
    assert_eq!(created.code.workflow_id, "-7");
    assert_eq!(created.code.code_revision, 1);
    assert_eq!(created.code.language, 0);
    assert!(created.code.created_at.is_none());
    assert_eq!(created.function_links.len(), 1);
    assert_eq!(created.function_links[0].workflow_code_id, created.code.id);
    assert_eq!(created.function_links[0].plugin_function_id, "func1");
    assert_eq!(created.package_links.len(), 2);
    assert_eq!(created.package_links[1].plugin_package_id, "pkg2");
    assert_eq!(created.message.id, created.code.id);
    assert_eq!(created.message.code, "print('hi')");
    assert!(created.message.plugin_function_ids.is_empty());
    let again = new_workflow_code("x".to_string(), 1, &[], &[]);
    assert_ne!(again.code.id, created.code.id);
}

#[test]
fn new_workflow_stamps_times_and_reads_missing_description_as_empty() {
    let (row, message) = new_workflow("My Workflow".to_string(), Some("A test workflow".to_string()));
    assert!(is_uuid_v4(&row.id));
    assert_eq!(row.display_name, "My Workflow");
    assert_eq!(row.description.as_deref(), Some("A test workflow"));
    assert_eq!(message.description, "A test workflow");
    assert!(message.created_at.is_some());
    assert!(message.updated_at.is_some());
    let (_, bare) = new_workflow("W".to_string(), None);
    assert_eq!(bare.description, "");
}

#[test]
fn missing_workflow_is_reported_by_id() {
    match require_workflow(None, "wf-404") {
        Err(e) => assert_eq!(e, "workflow not found: wf-404"),
        Ok(_) => panic!("expected an error"),
    }
    let wm = EntityWorkflow {
        id: "wf".to_string(),
        display_name: "W".to_string(),
        description: None,
        workflow_language: 0,
        created_at: None,
        updated_at: None,
    };
    assert_eq!(require_workflow(Some(wm.clone()), "wf"), Ok(wm));
}

#[test]
fn external_package_missing_flag() {
    let row = new_ext_plugin_package("a/b/1.0".to_string(), "/tmp/a/b/1.0".to_string());
    assert!(!row.missing);
    let marked = mark_missing(Some(row.clone()), "a/b/1.0", true).unwrap();
    assert!(marked.missing);
    assert_eq!(marked.install_dir, "/tmp/a/b/1.0");
    assert_eq!(
        mark_missing(None, "x/y/2", true),
        Err("External plugin package not found: x/y/2".to_string())
    );
}

fn sync_example() -> Workflow {
    Workflow {
        id: "wf1".to_string(),
        display_name: "Updated Workflow".to_string(),
        description: "Updated description".to_string(),
        workflow_language: 1,
        workflow_code: vec![WorkflowCode {
            id: "wc1".to_string(),
            code_revision: 3,
            code: "console.log('hello')".to_string(),
            language: 1,
            created_at: None,
            result: vec![WorkflowResult {
                id: "res1".to_string(),
                display_name: "Latest".to_string(),
                description: String::new(),
                result: String::new(),
                ran_at: None,
                result_type: WORKFLOW_RESULT_TYPE_SUCCESS_UNSPECIFIED,
                exit_code: 0,
                workflow_result_revision: 7,
            }],
            plugin_packages: vec![PluginPackage {
                package_id: "pkg1".to_string(),
                package_name: "Demo Package".to_string(),
                package_version: "1.0.0".to_string(),
                description: "Plugin description".to_string(),
                functions: vec![PluginFunction {
                    function_id: "pkg.fn".to_string(),
                    function_name: "Fn".to_string(),
                    description: "Run function".to_string(),
                    permissions: Vec::new(),
                    arguments: "{}".to_string(),
                    returns: "{}".to_string(),
                    function_define: None,
                }],
                plugin_store_url: "https://example.com".to_string(),
                internal_plugin: Some(false),
                verified: Some(true),
                deprecated: Some(false),
                installed_at: None,
                updated_at: None,
            }],
            plugin_function_ids: vec!["pkg.fn".to_string()],
            allowed_permissions: vec![AllowedPermission {
                plugin_function_id: "pkg.fn".to_string(),
                permissions: vec![Permission {
                    display_name: "Read".to_string(),
                    description: "Read secret".to_string(),
                    permission_type: PERMISSION_TYPE_FILESYSTEM_READ,
                    resource: vec!["secrets/path".to_string()],
                    permission_level: PERMISSION_LEVEL_HIGH,
                }],
            }],
        }],
        created_at: None,
        updated_at: None,
        workflow_results: Vec::new(),
    }
}

#[test]
fn workflow_sync_plans_every_relation() {
    let plan = plan_workflow_update(&sync_example());
    assert_eq!(plan.workflow.display_name, "Updated Workflow");
    assert_eq!(plan.workflow.description.as_deref(), Some("Updated description"));
    assert_eq!(plan.codes.len(), 1);
    let code = &plan.codes[0];
    assert_eq!(code.code.workflow_id, "wf1");
    assert_eq!(code.packages.len(), 1);
    assert_eq!(code.packages[0].package.package_id, "pkg1");
    assert_eq!(code.packages[0].functions[0].package_id, "pkg1");
    assert_eq!(code.package_links.len(), 1);
    assert_eq!(code.function_links.len(), 1);
    assert_eq!(code.grants.len(), 1);
    assert_eq!(code.grants[0].1.resource_json.as_deref(), Some("[\"secrets/path\"]"));
    assert_eq!(code.results.len(), 1);
    assert_eq!(code.results[0].workflow_result_revision, 7);
    assert_eq!(code.results[0].workflow_code_id, "wc1");
    assert!(code.results[0].description.is_none());
}

#[test]
fn workflow_assembles_from_loaded_rows() {
    let wm = EntityWorkflow {
        id: "wf1".to_string(),
        display_name: "W".to_string(),
        description: None,
        workflow_language: 1,
        created_at: None,
        updated_at: None,
    };
    let code = EntityWorkflowCode {
        id: "wc1".to_string(),
        workflow_id: "wf1".to_string(),
        code_revision: 2,
        code: "x".to_string(),
        language: 1,
        created_at: None,
    };
    let result = EntityWorkflowResult {
        id: "r1".to_string(),
        workflow_id: "wf1".to_string(),
        workflow_code_id: "wc1".to_string(),
        display_name: None,
        description: Some("d".to_string()),
        result: None,
        ran_at: None,
        result_type: 0,
        exit_code: None,
        workflow_result_revision: 4,
    };
    let pkg = EntityPluginPackage {
        package_id: "pkg1".to_string(),
        package_name: "P".to_string(),
        package_version: "v".to_string(),
        description: None,
        plugin_store_url: None,
        internal_plugin: true,
        verified: false,
        deprecated: false,
        installed_at: None,
        updated_at: None,
    };
    let link = |p: &str| EntityWCPluginPackage { id: 1, workflow_code_id: "wc1".to_string(), plugin_package_id: p.to_string() };
    let relations = CodeRelations {
        code,
        results: vec![result.clone()],
        packages: vec![(link("pkg1"), Some(pkg)), (link("gone"), None)],
        function_links: vec![EntityWCPluginFunction { id: 1, workflow_code_id: "wc1".to_string(), plugin_function_id: "pkg.fn".to_string() }],
        grants: vec![(EntityWCAllowed { id: 1, workflow_code_id: "wc1".to_string(), permission_id: 5 }, Some(permission_row(5, "pkg.fn")))],
    };
    let w = assemble_workflow(&wm, &[relations], &[result]);
    assert_eq!(w.description, "");
    assert_eq!(w.workflow_code.len(), 1);
    let c = &w.workflow_code[0];
    assert_eq!(c.plugin_packages.len(), 1);
    assert_eq!(c.plugin_function_ids, vec!["pkg.fn"]);
    assert_eq!(c.allowed_permissions.len(), 1);
    assert_eq!(c.result.len(), 1);
    assert_eq!(c.result[0].exit_code, 0);
    assert_eq!(c.result[0].display_name, "");
    assert_eq!(w.workflow_results.len(), 1);
    assert_eq!(w.workflow_results[0].description, "d");
}

#[test]
fn synchronised_grants_read_back_grouped() {
    let plan = plan_workflow_update(&sync_example());
    let loaded: Vec<(EntityWCAllowed, Option<EntityPermission>)> = plan.codes[0]
        .grants
        .iter()
        .enumerate()
        .map(|(i, (g, p))| {
            let mut p = p.clone();
            p.id = 10 + i as i32;
            (EntityWCAllowed { id: i as i32, workflow_code_id: g.workflow_code_id.clone(), permission_id: p.id }, Some(p))
        })
        .collect();
    let groups = allowed_permissions_to_proto(&loaded);
    assert_eq!(groups, sync_example().workflow_code[0].allowed_permissions);
}

#[test]
fn synchronising_twice_plans_the_same_writes() {
    let message = sync_example();
    let first = plan_workflow_update(&message);
    let second = plan_workflow_update(&message);
    assert_eq!(first.workflow, second.workflow);
    assert_eq!(first.codes.len(), second.codes.len());
    for (a, b) in first.codes.iter().zip(second.codes.iter()) {
        assert_eq!(a.code, b.code);
        assert_eq!(a.package_links, b.package_links);
        assert_eq!(a.function_links, b.function_links);
        assert_eq!(a.grants, b.grants);
        assert_eq!(a.results, b.results);
        assert_eq!(a.packages.len(), b.packages.len());
        for (p, q) in a.packages.iter().zip(b.packages.iter()) {
            assert_eq!(p.package, q.package);
            assert_eq!(p.functions, q.functions);
        }
    }
    let code = &first.codes[0];
    let linked: Vec<&str> = code.package_links.iter().map(|l| l.plugin_package_id.as_str()).collect();
    let named: Vec<&str> = message.workflow_code[0].plugin_packages.iter().map(|p| p.package_id.as_str()).collect();
    assert_eq!(linked, named);
    let granted: usize = message.workflow_code[0].allowed_permissions.iter().map(|a| a.permissions.len()).sum();
    assert_eq!(code.grants.len(), granted);
}
