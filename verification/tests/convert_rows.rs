use sapphillon::convert::model::{model_entities_to_proto, model_entity_to_proto, model_proto_to_entity};
use sapphillon::convert::plugin;
use sapphillon::convert::plugin_code::{
    permission_to_proto, plugin_function_to_proto, plugin_package_to_proto, proto_to_permission,
    proto_to_plugin_function, proto_to_plugin_package,
};
use sapphillon::convert::provider::{
    provider_entities_to_proto, provider_entity_to_proto, provider_proto_to_entity,
};
use sapphillon::convert::workflow_code::{
    proto_allowed_permissions_to_entities, proto_to_workflow_code,
    proto_to_workflow_code_plugin_functions, proto_to_workflow_code_plugin_packages,
    proto_to_workflow_result, workflow_code_to_proto, workflow_code_to_proto_with_relations,
};
use sapphillon::entity::model::Model as EntityModel;
use sapphillon::entity::permission::Model as EntityPermission;
use sapphillon::entity::plugin_function::Model as EntityPluginFunction;
use sapphillon::entity::plugin_package::Model as EntityPluginPackage;
use sapphillon::entity::provider::Model as EntityProvider;
use sapphillon::entity::workflow_code::Model as EntityWorkflowCode;
use sapphillon::entity::workflow_code_allowed_permission::Model as EntityWCAllowed;
use sapphillon::proto::{
    AllowedPermission, Permission, PluginFunction, PluginPackage, ProtoModel, ProtoProvider,
    WorkflowCode, WorkflowResult, PERMISSION_LEVEL_HIGH, PERMISSION_LEVEL_MEDIUM,
    PERMISSION_LEVEL_UNSPECIFIED, PERMISSION_TYPE_FILESYSTEM_READ,
    WORKFLOW_RESULT_TYPE_SUCCESS_UNSPECIFIED,
};
use sapphillon::timestamp::ProtoTimestamp;

#[test]
fn entity_proto_roundtrip() {
    let entity = EntityModel {
        name: "models/test".to_string(),
        display_name: "Test".to_string(),
        description: Some("desc".to_string()),
        provider_name: "providers/base".to_string(),
    };

    let proto: ProtoModel = entity.clone().into();
    assert_eq!(proto.name, entity.name);
    assert_eq!(proto.display_name, entity.display_name);
    assert_eq!(proto.description, entity.description);
    assert_eq!(proto.provider_name, entity.provider_name);

    let via_helper = model_entity_to_proto(&entity);
    assert_eq!(via_helper, proto);

    let entity_round: EntityModel = proto.clone().into();
    assert_eq!(entity_round, entity);

    let entity_via_helper = model_proto_to_entity(&proto);
    assert_eq!(entity_via_helper, entity);

    let batch = model_entities_to_proto(std::slice::from_ref(&entity));
    assert_eq!(batch.len(), 1);
    assert_eq!(batch[0], proto);
}

#[test]
fn proto_entity_roundtrip_empty_description() {
    let proto = ProtoModel {
        name: "".to_string(),
        display_name: "".to_string(),
        description: None,
        provider_name: "providers/any".to_string(),
    };

    let entity: EntityModel = proto.clone().into();
    assert_eq!(entity.name, proto.name);
    assert_eq!(entity.description, proto.description);

    let via_helper = model_proto_to_entity(&proto);
    assert_eq!(via_helper, entity);

    let proto_round = model_entity_to_proto(&entity);
    assert_eq!(proto_round, proto);
}

#[test]
fn entity_to_proto_and_back() {
    let entity = EntityProvider {
        name: "providers/my_provider".to_string(),
        display_name: "My Provider".to_string(),
        api_key: "secret-key".to_string(),
        api_endpoint: "https://api.example.com".to_string(),
    };

    let proto: ProtoProvider = entity.clone().into();
    assert_eq!(proto.name, entity.name);
    assert_eq!(proto.display_name, entity.display_name);
    assert_eq!(proto.api_key, entity.api_key);
    assert_eq!(proto.api_endpoint, entity.api_endpoint);

    let entity_round: EntityProvider = proto.into();
    assert_eq!(entity_round, entity);
}

#[test]
fn proto_to_entity_and_back_empty_fields() {
    let proto = ProtoProvider {
        name: "".to_string(),
        display_name: "".to_string(),
        api_key: "".to_string(),
        api_endpoint: "".to_string(),
    };

    let entity: EntityProvider = proto.clone().into();
    assert_eq!(entity.name, proto.name);
    assert_eq!(entity.display_name, proto.display_name);
    assert_eq!(entity.api_key, proto.api_key);
    assert_eq!(entity.api_endpoint, proto.api_endpoint);

    let proto_round: ProtoProvider = entity.clone().into();
    assert_eq!(proto_round, proto);

    let via_helper = provider_entity_to_proto(&entity);
    assert_eq!(via_helper, proto_round);

    let entity_via_helper = provider_proto_to_entity(&proto_round);
    assert_eq!(entity_via_helper, entity);

    let batch = provider_entities_to_proto(std::slice::from_ref(&entity_via_helper));
    assert_eq!(batch.len(), 1);
    assert_eq!(batch[0], proto_round);
}

fn minimal_package_row() -> EntityPluginPackage {
    EntityPluginPackage {
        package_id: "pkg1".to_string(),
        package_name: "P".to_string(),
        package_version: "v1".to_string(),
        description: None,
        plugin_store_url: None,
        internal_plugin: true,
        verified: true,
        deprecated: false,
        installed_at: None,
        updated_at: None,
    }
}

#[test]
fn plugin_converts_minimal_package() {
    let e = minimal_package_row();

    let p = plugin::plugin_package_to_proto(&e);

    assert_eq!(p.package_id, e.package_id);
    assert_eq!(p.package_version, e.package_version);
    assert_eq!(p.package_name, e.package_name);
    assert_eq!(p.functions.len(), 0);
    assert_eq!(p.internal_plugin, Some(true));
}

#[test]
fn plugin_converts_function_and_permission() {
    let f = EntityPluginFunction {
        function_id: "pkg.fn".to_string(),
        package_id: "pkg1".to_string(),
        function_name: "Fn".to_string(),
        description: Some("do it".to_string()),
        arguments: Some("{}".to_string()),
        returns: Some("{}".to_string()),
    };

    let perm_entity = EntityPermission {
        id: 1,
        plugin_function_id: "pkg.fn".to_string(),
        display_name: Some("Read".to_string()),
        description: Some("desc".to_string()),
        permission_type: PERMISSION_TYPE_FILESYSTEM_READ,
        resource_json: Some("[\"secrets/x\"]".to_string()),
        level: Some(PERMISSION_LEVEL_UNSPECIFIED),
    };

    let proto_perm = plugin::permission_to_proto(&perm_entity);
    assert_eq!(proto_perm.display_name, "Read");
    assert_eq!(proto_perm.resource.len(), 1);

    let proto_fn = plugin::plugin_function_to_proto(&f, Some(std::slice::from_ref(&proto_perm)));
    assert_eq!(proto_fn.function_id, f.function_id);
    assert_eq!(proto_fn.permissions.len(), 1);
}

#[test]
fn converts_proto_package_to_entity_roundtrip_fields() {
    let proto = PluginPackage {
        package_id: "pkg1".to_string(),
        package_name: "Plugin".to_string(),
        package_version: "1.2.3".to_string(),
        description: "Best plugin".to_string(),
        functions: Vec::new(),
        plugin_store_url: "https://example.com".to_string(),
        internal_plugin: Some(true),
        verified: Some(true),
        deprecated: Some(false),
        installed_at: Some(ProtoTimestamp { seconds: 1_726_000_000, nanos: 123_000_000 }),
        updated_at: Some(ProtoTimestamp { seconds: 1_726_000_001, nanos: 987_000_000 }),
    };

    let entity = EntityPluginPackage {
        package_id: proto.package_id.clone(),
        package_name: proto.package_name.clone(),
        package_version: proto.package_version.clone(),
        description: Some(proto.description.clone()),
        plugin_store_url: Some(proto.plugin_store_url.clone()),
        internal_plugin: proto.internal_plugin.unwrap_or(false),
        verified: proto.verified.unwrap_or(false),
        deprecated: proto.deprecated.unwrap_or(false),
        installed_at: None,
        updated_at: None,
    };

    let out = plugin::plugin_package_to_proto(&entity);
    assert_eq!(out.package_id, entity.package_id);
    assert_eq!(out.package_name, entity.package_name);
    assert_eq!(out.package_version, entity.package_version);
    assert_eq!(out.description, entity.description.clone().unwrap_or_default());
    assert_eq!(out.plugin_store_url, entity.plugin_store_url.clone().unwrap_or_default());
}

#[test]
fn plugin_code_converts_minimal_package() {
    let e = minimal_package_row();

    let p = plugin_package_to_proto(&e);

    assert_eq!(p.package_id, e.package_id);
    assert_eq!(p.package_version, e.package_version);
    assert_eq!(p.package_name, e.package_name);
    assert_eq!(p.functions.len(), 0);
    assert_eq!(p.internal_plugin, Some(true));
}

#[test]
fn plugin_code_converts_function_and_permission() {
    let f = EntityPluginFunction {
        function_id: "pkg.fn".to_string(),
        package_id: "pkg1".to_string(),
        function_name: "Fn".to_string(),
        description: Some("do it".to_string()),
        arguments: Some("{}".to_string()),
        returns: Some("{}".to_string()),
    };

    let perm_entity = EntityPermission {
        id: 1,
        plugin_function_id: "pkg.fn".to_string(),
        display_name: Some("Read".to_string()),
        description: Some("desc".to_string()),
        permission_type: PERMISSION_TYPE_FILESYSTEM_READ,
        resource_json: Some("[\"secrets/x\"]".to_string()),
        level: Some(PERMISSION_LEVEL_UNSPECIFIED),
    };

    let proto_perm = permission_to_proto(&perm_entity);
    assert_eq!(proto_perm.display_name, "Read");
    assert_eq!(proto_perm.resource.len(), 1);

    let proto_fn = plugin_function_to_proto(&f, Some(&[proto_perm.clone()]));
    assert_eq!(proto_fn.function_id, f.function_id);
    assert_eq!(proto_fn.permissions.len(), 1);
}

#[test]
fn converts_proto_package_to_entity() {
    let proto = PluginPackage {
        package_id: "pkg1".to_string(),
        package_name: "Plugin".to_string(),
        package_version: "1.2.3".to_string(),
        description: "Best plugin".to_string(),
        functions: Vec::new(),
        plugin_store_url: "https://example.com".to_string(),
        internal_plugin: Some(true),
        verified: Some(true),
        deprecated: Some(false),
        installed_at: Some(ProtoTimestamp { seconds: 1_726_000_000, nanos: 123_000_000 }),
        updated_at: Some(ProtoTimestamp { seconds: 1_726_000_001, nanos: 987_000_000 }),
    };

    let entity = proto_to_plugin_package(&proto);

    assert_eq!(entity.package_id, proto.package_id);
    assert_eq!(entity.package_name, proto.package_name);
    assert_eq!(entity.package_version, proto.package_version);
    assert_eq!(entity.description.as_deref(), Some("Best plugin"));
    assert_eq!(entity.plugin_store_url.as_deref(), Some("https://example.com"));
    assert!(entity.internal_plugin);
    assert!(entity.verified);
    assert!(!entity.deprecated);
    assert_eq!(
        entity.installed_at.unwrap().timestamp(),
        proto.installed_at.as_ref().unwrap().seconds
    );
    assert_eq!(
        entity.updated_at.unwrap().timestamp(),
        proto.updated_at.as_ref().unwrap().seconds
    );
}

#[test]
fn converts_proto_function_to_entity() {
    let proto = PluginFunction {
        function_id: "pkg.fn".to_string(),
        function_name: "Fn".to_string(),
        description: "do it".to_string(),
        permissions: Vec::new(),
        arguments: "{}".to_string(),
        returns: "{}".to_string(),
        function_define: None,
    };

    let entity = proto_to_plugin_function(&proto, "pkg1".to_string());

    assert_eq!(entity.function_id, proto.function_id);
    assert_eq!(entity.function_name, proto.function_name);
    assert_eq!(entity.package_id, "pkg1");
    assert_eq!(entity.description.as_deref(), Some("do it"));
    assert_eq!(entity.arguments.as_deref(), Some("{}"));
    assert_eq!(entity.returns.as_deref(), Some("{}"));
}

#[test]
fn converts_proto_permission_to_entity() {
    let proto = Permission {
        display_name: "Read".to_string(),
        description: "desc".to_string(),
        permission_type: PERMISSION_TYPE_FILESYSTEM_READ,
        resource: vec!["secrets/x".to_string()],
        permission_level: PERMISSION_LEVEL_MEDIUM,
    };

    let entity = proto_to_permission(&proto, "pkg.fn".to_string(), Some(42));

    assert_eq!(entity.id, 42);
    assert_eq!(entity.plugin_function_id, "pkg.fn");
    assert_eq!(entity.display_name.as_deref(), Some("Read"));
    assert_eq!(entity.description.as_deref(), Some("desc"));
    assert_eq!(entity.permission_type, PERMISSION_TYPE_FILESYSTEM_READ);
    assert!(entity.resource_json.unwrap().contains("secrets/x"));
    assert_eq!(entity.level, Some(PERMISSION_LEVEL_MEDIUM));
}

#[test]
fn converts_minimal_entity_to_proto() {
    let e = EntityWorkflowCode {
        id: "wc1".to_string(),
        workflow_id: "wf1".to_string(),
        code_revision: 1,
        code: "print('hi')".to_string(),
        language: 0,
        created_at: None,
    };

    let p = workflow_code_to_proto(&e);

    assert_eq!(p.id, e.id);
    assert_eq!(p.code_revision, e.code_revision);
    assert_eq!(p.code, e.code);
    assert_eq!(p.language, e.language);
    assert!(p.created_at.is_none());
}

#[test]
fn converts_with_relations_attached() {
    let e = EntityWorkflowCode {
        id: "wc2".to_string(),
        workflow_id: "wf2".to_string(),
        code_revision: 2,
        code: "print('bye')".to_string(),
        language: 1,
        created_at: None,
    };

    let pkg = minimal_package_row();

    let wc_allowed = EntityWCAllowed { id: 1, workflow_code_id: e.id.clone(), permission_id: 1 };

    let perm_entity = EntityPermission {
        id: 1,
        plugin_function_id: "pf1".to_string(),
        display_name: Some("X".to_string()),
        description: Some("D".to_string()),
        permission_type: PERMISSION_TYPE_FILESYSTEM_READ,
        resource_json: None,
        level: Some(PERMISSION_LEVEL_UNSPECIFIED),
    };

    let p = workflow_code_to_proto_with_relations(
        &e,
        None,
        Some(std::slice::from_ref(&pkg)),
        Some(&["pf1".to_string()]),
        Some(&[(wc_allowed, Some(perm_entity))]),
    );

    assert_eq!(p.id, e.id);
    assert_eq!(p.plugin_packages.len(), 1);
    assert_eq!(p.plugin_function_ids.len(), 1);
    assert_eq!(p.allowed_permissions.len(), 1);
}

#[test]
fn converts_proto_workflow_code_to_entity() {
    let proto = WorkflowCode {
        id: "wc-id".to_string(),
        code_revision: 5,
        code: "console.log('hi')".to_string(),
        language: 1,
        created_at: Some(ProtoTimestamp { seconds: 1_726_000_000, nanos: 111_000_000 }),
        result: Vec::new(),
        plugin_packages: Vec::new(),
        plugin_function_ids: Vec::new(),
        allowed_permissions: Vec::new(),
    };

    let entity = proto_to_workflow_code(&proto, "wf-id".to_string());

    assert_eq!(entity.id, proto.id);
    assert_eq!(entity.workflow_id, "wf-id");
    assert_eq!(entity.code_revision, proto.code_revision);
    assert_eq!(entity.code, proto.code);
    assert_eq!(entity.language, proto.language);
    assert_eq!(
        entity.created_at.unwrap().timestamp(),
        proto.created_at.as_ref().unwrap().seconds
    );
}

#[test]
fn converts_proto_plugin_relations() {
    let packages = vec![PluginPackage {
        package_id: "pkg1".to_string(),
        package_name: "Pkg".to_string(),
        package_version: "1.0.0".to_string(),
        description: String::new(),
        functions: Vec::new(),
        plugin_store_url: String::new(),
        internal_plugin: None,
        verified: None,
        deprecated: None,
        installed_at: None,
        updated_at: None,
    }];

    let package_links = proto_to_workflow_code_plugin_packages("wc".to_string(), &packages);
    assert_eq!(package_links.len(), 1);
    assert_eq!(package_links[0].workflow_code_id, "wc");
    assert_eq!(package_links[0].plugin_package_id, "pkg1");
    assert_eq!(package_links[0].id, 0);

    let functions = vec!["pkg.fn".to_string(), "pkg.fn2".to_string()];
    let function_links = proto_to_workflow_code_plugin_functions("wc".to_string(), &functions);
    assert_eq!(function_links.len(), 2);
    assert!(function_links.iter().all(|link| link.workflow_code_id == "wc" && link.id == 0));
    assert_eq!(function_links[0].plugin_function_id, "pkg.fn");
    assert_eq!(function_links[1].plugin_function_id, "pkg.fn2");
}

#[test]
fn converts_proto_allowed_permissions_to_entities() {
    let proto_permission = Permission {
        display_name: "Read".to_string(),
        description: "Allow read".to_string(),
        permission_type: PERMISSION_TYPE_FILESYSTEM_READ,
        resource: vec!["secrets/path".to_string()],
        permission_level: PERMISSION_LEVEL_HIGH,
    };

    let allowed = AllowedPermission {
        plugin_function_id: "pkg.fn".to_string(),
        permissions: vec![proto_permission.clone()],
    };

    let tuples = proto_allowed_permissions_to_entities("wc".to_string(), &[allowed]);
    assert_eq!(tuples.len(), 1);

    let (relation, permission) = &tuples[0];
    assert_eq!(relation.workflow_code_id, "wc");
    assert_eq!(relation.permission_id, permission.id);
    assert_eq!(permission.plugin_function_id, "pkg.fn");
    assert_eq!(permission.permission_type, proto_permission.permission_type);
    assert_eq!(permission.level, Some(proto_permission.permission_level));
}

#[test]
fn converts_proto_workflow_result_to_entity() {
    let proto = WorkflowResult {
        id: "res1".to_string(),
        display_name: "Result".to_string(),
        description: String::new(),
        result: String::new(),
        ran_at: Some(ProtoTimestamp { seconds: 1_726_500_000, nanos: 0 }),
        result_type: WORKFLOW_RESULT_TYPE_SUCCESS_UNSPECIFIED,
        exit_code: 0,
        workflow_result_revision: 3,
    };

    let entity = proto_to_workflow_result(&proto, "wf".to_string(), "wc".to_string());

    assert_eq!(entity.id, proto.id);
    assert_eq!(entity.workflow_id, "wf");
    assert_eq!(entity.workflow_code_id, "wc");
    assert_eq!(entity.display_name.as_deref(), Some("Result"));
    assert!(entity.description.is_none());
    assert!(entity.result.is_none());
    assert_eq!(entity.ran_at.unwrap().timestamp(), proto.ran_at.as_ref().unwrap().seconds);
    assert_eq!(entity.result_type, proto.result_type);
    assert_eq!(entity.exit_code, Some(0));
    assert_eq!(entity.workflow_result_revision, proto.workflow_result_revision);
}

#[test]
fn package_message_reads_back_through_its_row() {
    let proto = PluginPackage {
        package_id: "pkg1".to_string(),
        package_name: "Plugin".to_string(),
        package_version: "1.2.3".to_string(),
        description: String::new(),
        functions: Vec::new(),
        plugin_store_url: "https://example.com".to_string(),
        internal_plugin: Some(true),
        verified: Some(false),
        deprecated: Some(false),
        installed_at: Some(ProtoTimestamp { seconds: 1_726_000_000, nanos: 123_000_000 }),
        updated_at: None,
    };
    let row = proto_to_plugin_package(&proto);
    assert_eq!(row.description, None);
    assert_eq!(plugin_package_to_proto(&row), proto);
}

#[test]
fn package_row_reads_back_through_its_message() {
    let mut row = minimal_package_row();
    row.description = Some("Best plugin".to_string());
    row.verified = true;
    let back = proto_to_plugin_package(&plugin_package_to_proto(&row));
    assert_eq!(back, row);
}

#[test]
fn function_message_reads_back_with_its_permissions() {
    let proto = PluginFunction {
        function_id: "pkg.fn".to_string(),
        function_name: "Fn".to_string(),
        description: String::new(),
        permissions: vec![Permission {
            display_name: "Read".to_string(),
            description: "Reads files".to_string(),
            permission_type: PERMISSION_TYPE_FILESYSTEM_READ,
            resource: vec!["/tmp".to_string()],
            permission_level: PERMISSION_LEVEL_HIGH,
        }],
        arguments: "{}".to_string(),
        returns: String::new(),
        function_define: None,
    };
    let row = proto_to_plugin_function(&proto, "pkg".to_string());
    assert_eq!(plugin_function_to_proto(&row, Some(&proto.permissions)), proto);
    let bare = plugin_function_to_proto(&row, None);
    assert!(bare.permissions.is_empty());
    assert_eq!(bare.function_id, proto.function_id);
}
