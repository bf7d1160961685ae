use sapphillon::schema::{drop_order, schema_tables, ColumnKind, DeleteAction};

#[test]
fn schema_lists_every_table_once() {
    let tables = schema_tables();
    let names: Vec<&str> = tables.iter().map(|t| t.name.as_str()).collect();
    assert_eq!(names.len(), 13);
    assert_eq!(names[0], "plugin_package");
    assert_eq!(names[12], "ext_plugin_package");
    let mut dropped = drop_order();
    assert_eq!(dropped.len(), 13);
    dropped.sort();
    let mut created: Vec<String> = names.iter().map(|n| n.to_string()).collect();
    created.sort();
    assert_eq!(dropped, created);
}

#[test]
fn plugin_function_has_composite_key_and_unique_index() {
    let tables = schema_tables();
    let f = &tables[1];
    assert_eq!(f.composite_key, vec!["package_id".to_string(), "function_id".to_string()]);
    assert!(f.indexes[0].unique);
    assert_eq!(f.foreign_keys[0].ref_table, "plugin_package");
    let perm = &tables[3];
    let ty = perm.columns.iter().find(|c| c.name == "type").unwrap();
    assert_eq!(ty.kind, ColumnKind::Integer);
    assert!(!ty.nullable);
    let flags: Vec<&str> = tables[0].columns.iter().filter(|c| c.default_false).map(|c| c.name.as_str()).collect();
    assert_eq!(flags, vec!["internal_plugin", "verified", "deprecated"]);
}

#[test]
fn every_foreign_key_cascades_on_delete() {
    let tables = schema_tables();
    let mut count = 0;
    for t in &tables {
        for f in &t.foreign_keys {
            assert_eq!(f.on_delete, DeleteAction::Cascade);
            count += 1;
        }
    }
    assert_eq!(count, 14);
}

#[test]
fn descriptive_columns_are_nullable() {
    let tables = schema_tables();
    let nullable = |t: usize, name: &str| tables[t].columns.iter().find(|c| c.name == name).unwrap().nullable;
    assert!(nullable(0, "package_name"));
    assert!(nullable(0, "package_version"));
    assert!(nullable(1, "function_name"));
    assert!(nullable(4, "api_key"));
    assert!(nullable(6, "display_name"));
    assert!(!nullable(5, "provider_name"));
}
