//! The database schema: the tables the service creates, in creation order,
//! and the order in which they are dropped.
use vstd::prelude::*;

verus! {

/// The storage class of a column.
#[derive(Clone, Copy, Debug, PartialEq, Eq, Structural)]
pub enum ColumnKind {
    /// A short string.
    String,
    /// A long text.
    Text,
    Integer,
    Boolean,
    Timestamp,
}

/// What happens to a row when the row its foreign key refers to is deleted.
#[derive(Clone, Copy, Debug, PartialEq, Eq, Structural)]
pub enum DeleteAction {
    /// The row is deleted too.
    Cascade,
    /// The delete is refused.
    Restrict,
    /// The key column is set to null.
    SetNull,
    /// The key column is set to its default.
    SetDefault,
    /// Nothing is done; the database checks the key at the end.
    NoAction,
}

/// A column of a table.
pub struct ColumnDefinition {
    pub name: String,
    pub kind: ColumnKind,
    pub nullable: bool,
    pub primary_key: bool,
    pub auto_increment: bool,
    /// Whether the column defaults to `false`.
    pub default_false: bool,
}

/// A foreign key: `column` refers to `ref_column` of `ref_table`, and
/// `on_delete` says what a delete of the row referred to does to this row.
pub struct ForeignKeyDefinition {
    pub name: String,
    pub column: String,
    pub ref_table: String,
    pub ref_column: String,
    pub on_delete: DeleteAction,
}

/// An index on one column.
pub struct IndexDefinition {
    pub name: String,
    pub column: String,
    pub unique: bool,
}

/// A table: its columns, the columns of its composite primary key (empty
/// when a single column is the key), its indexes and its foreign keys.
pub struct TableDefinition {
    pub name: String,
    pub columns: Vec<ColumnDefinition>,
    pub composite_key: Vec<String>,
    pub indexes: Vec<IndexDefinition>,
    pub foreign_keys: Vec<ForeignKeyDefinition>,
}

/// The value of a [`ColumnDefinition`].
pub struct ColumnSpec {
    pub name: Seq<char>,
    pub kind: ColumnKind,
    pub nullable: bool,
    pub primary_key: bool,
    pub auto_increment: bool,
    pub default_false: bool,
}

/// The value of a [`ForeignKeyDefinition`].
pub struct ForeignKeySpec {
    pub name: Seq<char>,
    pub column: Seq<char>,
    pub ref_table: Seq<char>,
    pub ref_column: Seq<char>,
    pub on_delete: DeleteAction,
}

/// The value of an [`IndexDefinition`].
pub struct IndexSpec {
    pub name: Seq<char>,
    pub column: Seq<char>,
    pub unique: bool,
}

/// The value of a [`TableDefinition`].
#[verifier::ext_equal]
pub struct TableSpec {
    pub name: Seq<char>,
    pub columns: Seq<ColumnSpec>,
    pub composite_key: Seq<Seq<char>>,
    pub indexes: Seq<IndexSpec>,
    pub foreign_keys: Seq<ForeignKeySpec>,
}

impl View for ColumnDefinition {
    type V = ColumnSpec;

    open spec fn view(&self) -> ColumnSpec {
        ColumnSpec {
            name: self.name@,
            kind: self.kind,
            nullable: self.nullable,
            primary_key: self.primary_key,
            auto_increment: self.auto_increment,
            default_false: self.default_false,
        }
    }
}

impl View for ForeignKeyDefinition {
    type V = ForeignKeySpec;

    open spec fn view(&self) -> ForeignKeySpec {
        ForeignKeySpec {
            name: self.name@,
            column: self.column@,
            ref_table: self.ref_table@,
            ref_column: self.ref_column@,
            on_delete: self.on_delete,
        }
    }
}

impl View for IndexDefinition {
    type V = IndexSpec;

    open spec fn view(&self) -> IndexSpec {
        IndexSpec { name: self.name@, column: self.column@, unique: self.unique }
    }
}

impl View for TableDefinition {
    type V = TableSpec;

    open spec fn view(&self) -> TableSpec {
        TableSpec {
            name: self.name@,
            columns: self.columns@.map_values(|c: ColumnDefinition| c@),
            composite_key: self.composite_key@.map_values(|s: String| s@),
            indexes: self.indexes@.map_values(|i: IndexDefinition| i@),
            foreign_keys: self.foreign_keys@.map_values(|f: ForeignKeyDefinition| f@),
        }
    }
}

/// A column with the given storage class and nullability.
pub open spec fn col(name: Seq<char>, kind: ColumnKind, nullable: bool) -> ColumnSpec {
    ColumnSpec { name, kind, nullable, primary_key: false, auto_increment: false, default_false: false }
}

/// A single-column string primary key.
pub open spec fn string_key(name: Seq<char>) -> ColumnSpec {
    ColumnSpec {
        name,
        kind: ColumnKind::String,
        nullable: false,
        primary_key: true,
        auto_increment: false,
        default_false: false,
    }
}

/// A single-column integer primary key numbered by the database.
pub open spec fn serial_key(name: Seq<char>) -> ColumnSpec {
    ColumnSpec {
        name,
        kind: ColumnKind::Integer,
        nullable: false,
        primary_key: true,
        auto_increment: true,
        default_false: false,
    }
}

/// A flag that defaults to `false`.
pub open spec fn flag(name: Seq<char>) -> ColumnSpec {
    ColumnSpec {
        name,
        kind: ColumnKind::Boolean,
        nullable: false,
        primary_key: false,
        auto_increment: false,
        default_false: true,
    }
}

/// A foreign key whose rows are deleted with the row they refer to.
pub open spec fn fk(
    name: Seq<char>,
    column: Seq<char>,
    ref_table: Seq<char>,
    ref_column: Seq<char>,
) -> ForeignKeySpec {
    ForeignKeySpec { name, column, ref_table, ref_column, on_delete: DeleteAction::Cascade }
}

/// A table with a single-column key and no index.
pub open spec fn table(name: Seq<char>, columns: Seq<ColumnSpec>, foreign_keys: Seq<ForeignKeySpec>) -> TableSpec {
    TableSpec { name, columns, composite_key: Seq::empty(), indexes: Seq::empty(), foreign_keys }
}

/// The tables of the schema, in creation order.
pub open spec fn spec_schema_tables() -> Seq<TableSpec> {
    seq![
        table(
            "plugin_package"@,
            seq![
                string_key("package_id"@),
                col("package_name"@, ColumnKind::String, true),
                col("package_version"@, ColumnKind::String, true),
                col("description"@, ColumnKind::String, true),
                col("plugin_store_url"@, ColumnKind::String, true),
                flag("internal_plugin"@),
                flag("verified"@),
                flag("deprecated"@),
                col("installed_at"@, ColumnKind::Timestamp, true),
                col("updated_at"@, ColumnKind::Timestamp, true),
                col("provider_id"@, ColumnKind::String, true),
            ],
            seq![],
        ),
        TableSpec {
            name: "plugin_function"@,
            columns: seq![
                col("function_id"@, ColumnKind::String, false),
                col("package_id"@, ColumnKind::String, false),
                col("function_name"@, ColumnKind::String, true),
                col("description"@, ColumnKind::String, true),
                col("arguments"@, ColumnKind::Text, true),
                col("returns"@, ColumnKind::Text, true),
                col("function_define"@, ColumnKind::Text, true),
                col("version"@, ColumnKind::String, true),
            ],
            composite_key: seq!["package_id"@, "function_id"@],
            indexes: seq![
                IndexSpec {
                    name: "idx_plugin_function_function_id_unique"@,
                    column: "function_id"@,
                    unique: true,
                },
            ],
            foreign_keys: seq![
                fk("fk_plugin_function_package"@, "package_id"@, "plugin_package"@, "package_id"@),
            ],
        },
        table(
            "plugin_function_permission"@,
            seq![
                serial_key("id"@),
                col("plugin_function_id"@, ColumnKind::String, false),
                col("permission_id"@, ColumnKind::String, false),
            ],
            seq![
                fk(
                    "fk_plugin_function_permission_function"@,
                    "plugin_function_id"@,
                    "plugin_function"@,
                    "function_id"@,
                ),
                fk(
                    "fk_plugin_function_permission_permission"@,
                    "permission_id"@,
                    "permission"@,
                    "id"@,
                ),
            ],
        ),
        table(
            "permission"@,
            seq![
                serial_key("id"@),
                col("plugin_function_id"@, ColumnKind::String, false),
                col("display_name"@, ColumnKind::String, true),
                col("description"@, ColumnKind::String, true),
                col("type"@, ColumnKind::Integer, false),
                col("resource_json"@, ColumnKind::Text, true),
                col("level"@, ColumnKind::Integer, true),
            ],
            seq![
                fk(
                    "fk_permission_plugin_function"@,
                    "plugin_function_id"@,
                    "plugin_function"@,
                    "function_id"@,
                ),
            ],
        ),
        table(
            "provider"@,
            seq![
                string_key("name"@),
                col("display_name"@, ColumnKind::String, true),
                col("api_key"@, ColumnKind::String, true),
                col("api_endpoint"@, ColumnKind::String, true),
            ],
            seq![],
        ),
        table(
            "model"@,
            seq![
                string_key("name"@),
                col("display_name"@, ColumnKind::String, true),
                col("description"@, ColumnKind::String, true),
                col("provider_name"@, ColumnKind::String, false),
            ],
            seq![fk("fk_model_provider"@, "provider_name"@, "provider"@, "name"@)],
        ),
        table(
            "workflow"@,
            seq![
                string_key("id"@),
                col("display_name"@, ColumnKind::String, true),
                col("description"@, ColumnKind::String, true),
                col("workflow_language"@, ColumnKind::Integer, false),
                col("created_at"@, ColumnKind::Timestamp, true),
                col("updated_at"@, ColumnKind::Timestamp, true),
            ],
            seq![],
        ),
        table(
            "workflow_code"@,
            seq![
                string_key("id"@),
                col("workflow_id"@, ColumnKind::String, false),
                col("code_revision"@, ColumnKind::Integer, false),
                col("code"@, ColumnKind::Text, false),
                col("language"@, ColumnKind::Integer, false),
                col("created_at"@, ColumnKind::Timestamp, true),
            ],
            seq![fk("fk_workflow_code_workflow"@, "workflow_id"@, "workflow"@, "id"@)],
        ),
        table(
            "workflow_result"@,
            seq![
                string_key("id"@),
                col("workflow_id"@, ColumnKind::String, false),
                col("workflow_code_id"@, ColumnKind::String, false),
                col("display_name"@, ColumnKind::String, true),
                col("description"@, ColumnKind::String, true),
                col("result"@, ColumnKind::Text, true),
                col("ran_at"@, ColumnKind::Timestamp, true),
                col("result_type"@, ColumnKind::Integer, false),
                col("exit_code"@, ColumnKind::Integer, true),
                col("workflow_result_revision"@, ColumnKind::Integer, false),
            ],
            seq![
                fk("fk_workflow_result_workflow"@, "workflow_id"@, "workflow"@, "id"@),
                fk("fk_workflow_result_code"@, "workflow_code_id"@, "workflow_code"@, "id"@),
            ],
        ),
        table(
            "workflow_code_plugin_package"@,
            seq![
                serial_key("id"@),
                col("workflow_code_id"@, ColumnKind::String, false),
                col("plugin_package_id"@, ColumnKind::String, false),
            ],
            seq![
                fk(
                    "fk_workflow_code_plugin_package_code"@,
                    "workflow_code_id"@,
                    "workflow_code"@,
                    "id"@,
                ),
                fk(
                    "fk_workflow_code_plugin_package_package"@,
                    "plugin_package_id"@,
                    "plugin_package"@,
                    "package_id"@,
                ),
            ],
        ),
        table(
            "workflow_code_plugin_function"@,
            seq![
                serial_key("id"@),
                col("workflow_code_id"@, ColumnKind::String, false),
                col("plugin_function_id"@, ColumnKind::String, false),
            ],
            seq![
                fk(
                    "fk_workflow_code_plugin_function_code"@,
                    "workflow_code_id"@,
                    "workflow_code"@,
                    "id"@,
                ),
                fk(
                    "fk_workflow_code_plugin_function_function"@,
                    "plugin_function_id"@,
                    "plugin_function"@,
                    "function_id"@,
                ),
            ],
        ),
        table(
            "workflow_code_allowed_permission"@,
            seq![
                serial_key("id"@),
                col("workflow_code_id"@, ColumnKind::String, false),
                col("permission_id"@, ColumnKind::Integer, false),
            ],
            seq![
                fk(
                    "fk_workflow_code_allowed_permission_code"@,
                    "workflow_code_id"@,
                    "workflow_code"@,
                    "id"@,
                ),
                fk(
                    "fk_workflow_code_allowed_permission_permission"@,
                    "permission_id"@,
                    "permission"@,
                    "id"@,
                ),
            ],
        ),
        table(
            "ext_plugin_package"@,
            seq![
                string_key("plugin_package_id"@),
                col("install_dir"@, ColumnKind::String, false),
                flag("missing"@),
            ],
            seq![],
        ),
    ]
}

/// The tables in the order they are dropped.
pub open spec fn spec_drop_order() -> Seq<Seq<char>> {
    seq![
        "ext_plugin_package"@,
        "workflow_code_allowed_permission"@,
        "workflow_code_plugin_function"@,
        "workflow_code_plugin_package"@,
        "workflow_result"@,
        "workflow_code"@,
        "workflow"@,
        "permission"@,
        "model"@,
        "plugin_function_permission"@,
        "plugin_function"@,
        "plugin_package"@,
        "provider"@,
    ]
}

fn column(name: &str, kind: ColumnKind, nullable: bool) -> (r: ColumnDefinition)
    ensures
        r@ == col(name@, kind, nullable),
{
    ColumnDefinition {
        name: name.to_owned(),
        kind,
        nullable,
        primary_key: false,
        auto_increment: false,
        default_false: false,
    }
}

fn string_key_column(name: &str) -> (r: ColumnDefinition)
    ensures
        r@ == string_key(name@),
{
    ColumnDefinition {
        name: name.to_owned(),
        kind: ColumnKind::String,
        nullable: false,
        primary_key: true,
        auto_increment: false,
        default_false: false,
    }
}

fn serial_key_column(name: &str) -> (r: ColumnDefinition)
    ensures
        r@ == serial_key(name@),
{
    ColumnDefinition {
        name: name.to_owned(),
        kind: ColumnKind::Integer,
        nullable: false,
        primary_key: true,
        auto_increment: true,
        default_false: false,
    }
}

fn flag_column(name: &str) -> (r: ColumnDefinition)
    ensures
        r@ == flag(name@),
{
    ColumnDefinition {
        name: name.to_owned(),
        kind: ColumnKind::Boolean,
        nullable: false,
        primary_key: false,
        auto_increment: false,
        default_false: true,
    }
}

fn foreign_key(name: &str, column: &str, ref_table: &str, ref_column: &str) -> (r:
    ForeignKeyDefinition)
    ensures
        r@ == fk(name@, column@, ref_table@, ref_column@),
{
    ForeignKeyDefinition {
        name: name.to_owned(),
        column: column.to_owned(),
        ref_table: ref_table.to_owned(),
        ref_column: ref_column.to_owned(),
        on_delete: DeleteAction::Cascade,
    }
}

fn simple_table(
    name: &str,
    columns: Vec<ColumnDefinition>,
    foreign_keys: Vec<ForeignKeyDefinition>,
) -> (r: TableDefinition)
    ensures
        r@ == table(
            name@,
            columns@.map_values(|c: ColumnDefinition| c@),
            foreign_keys@.map_values(|f: ForeignKeyDefinition| f@),
        ),
{
    let r = TableDefinition {
        name: name.to_owned(),
        columns,
        composite_key: Vec::new(),
        indexes: Vec::new(),
        foreign_keys,
    };
    proof {
        assert(r@.composite_key =~= Seq::<Seq<char>>::empty());
        assert(r@.indexes =~= Seq::<IndexSpec>::empty());
    }
    r
}

/// The tables of the schema, in creation order.
pub fn schema_tables() -> (r: Vec<TableDefinition>)
    ensures
        r@.map_values(|t: TableDefinition| t@) == spec_schema_tables(),
{
    let spec = Ghost(spec_schema_tables());
    let plugin_package = simple_table(
        "plugin_package",
        vec![
            string_key_column("package_id"),
            column("package_name", ColumnKind::String, true),
            column("package_version", ColumnKind::String, true),
            column("description", ColumnKind::String, true),
            column("plugin_store_url", ColumnKind::String, true),
            flag_column("internal_plugin"),
            flag_column("verified"),
            flag_column("deprecated"),
            column("installed_at", ColumnKind::Timestamp, true),
            column("updated_at", ColumnKind::Timestamp, true),
            column("provider_id", ColumnKind::String, true),
        ],
        vec![],
    );
    proof {
        assert(plugin_package@ =~= spec@[0]);
    }
    let plugin_function = TableDefinition {
        name: "plugin_function".to_owned(),
        columns: vec![
            column("function_id", ColumnKind::String, false),
            column("package_id", ColumnKind::String, false),
            column("function_name", ColumnKind::String, true),
            column("description", ColumnKind::String, true),
            column("arguments", ColumnKind::Text, true),
            column("returns", ColumnKind::Text, true),
            column("function_define", ColumnKind::Text, true),
            column("version", ColumnKind::String, true),
        ],
        composite_key: vec!["package_id".to_owned(), "function_id".to_owned()],
        indexes: vec![
            IndexDefinition {
                name: "idx_plugin_function_function_id_unique".to_owned(),
                column: "function_id".to_owned(),
                unique: true,
            },
        ],
        foreign_keys: vec![
            foreign_key("fk_plugin_function_package", "package_id", "plugin_package", "package_id"),
        ],
    };
    proof {
        assert(plugin_function@ =~= spec@[1]);
    }
    let plugin_function_permission = simple_table(
        "plugin_function_permission",
        vec![
            serial_key_column("id"),
            column("plugin_function_id", ColumnKind::String, false),
            column("permission_id", ColumnKind::String, false),
        ],
        vec![
            foreign_key(
                "fk_plugin_function_permission_function",
                "plugin_function_id",
                "plugin_function",
                "function_id",
            ),
            foreign_key(
                "fk_plugin_function_permission_permission",
                "permission_id",
                "permission",
                "id",
            ),
        ],
    );
    proof {
        assert(plugin_function_permission@ =~= spec@[2]);
    }
    let permission = simple_table(
        "permission",
        vec![
            serial_key_column("id"),
            column("plugin_function_id", ColumnKind::String, false),
            column("display_name", ColumnKind::String, true),
            column("description", ColumnKind::String, true),
            column("type", ColumnKind::Integer, false),
            column("resource_json", ColumnKind::Text, true),
            column("level", ColumnKind::Integer, true),
        ],
        vec![
            foreign_key(
                "fk_permission_plugin_function",
                "plugin_function_id",
                "plugin_function",
                "function_id",
            ),
        ],
    );
    proof {
        assert(permission@ =~= spec@[3]);
    }
    let provider = simple_table(
        "provider",
        vec![
            string_key_column("name"),
            column("display_name", ColumnKind::String, true),
            column("api_key", ColumnKind::String, true),
            column("api_endpoint", ColumnKind::String, true),
        ],
        vec![],
    );
    proof {
        assert(provider@ =~= spec@[4]);
    }
    let model = simple_table(
        "model",
        vec![
            string_key_column("name"),
            column("display_name", ColumnKind::String, true),
            column("description", ColumnKind::String, true),
            column("provider_name", ColumnKind::String, false),
        ],
        vec![foreign_key("fk_model_provider", "provider_name", "provider", "name")],
    );
    proof {
        assert(model@ =~= spec@[5]);
    }
    let workflow = simple_table(
        "workflow",
        vec![
            string_key_column("id"),
            column("display_name", ColumnKind::String, true),
            column("description", ColumnKind::String, true),
            column("workflow_language", ColumnKind::Integer, false),
            column("created_at", ColumnKind::Timestamp, true),
            column("updated_at", ColumnKind::Timestamp, true),
        ],
        vec![],
    );
    proof {
        assert(workflow@ =~= spec@[6]);
    }
    let workflow_code = simple_table(
        "workflow_code",
        vec![
            string_key_column("id"),
            column("workflow_id", ColumnKind::String, false),
            column("code_revision", ColumnKind::Integer, false),
            column("code", ColumnKind::Text, false),
            column("language", ColumnKind::Integer, false),
            column("created_at", ColumnKind::Timestamp, true),
        ],
        vec![foreign_key("fk_workflow_code_workflow", "workflow_id", "workflow", "id")],
    );
    proof {
        assert(workflow_code@ =~= spec@[7]);
    }
    let workflow_result = simple_table(
        "workflow_result",
        vec![
            string_key_column("id"),
            column("workflow_id", ColumnKind::String, false),
            column("workflow_code_id", ColumnKind::String, false),
            column("display_name", ColumnKind::String, true),
            column("description", ColumnKind::String, true),
            column("result", ColumnKind::Text, true),
            column("ran_at", ColumnKind::Timestamp, true),
            column("result_type", ColumnKind::Integer, false),
            column("exit_code", ColumnKind::Integer, true),
            column("workflow_result_revision", ColumnKind::Integer, false),
        ],
        vec![
            foreign_key("fk_workflow_result_workflow", "workflow_id", "workflow", "id"),
            foreign_key("fk_workflow_result_code", "workflow_code_id", "workflow_code", "id"),
        ],
    );
    proof {
        assert(workflow_result@ =~= spec@[8]);
    }
    let code_packages = simple_table(
        "workflow_code_plugin_package",
        vec![
            serial_key_column("id"),
            column("workflow_code_id", ColumnKind::String, false),
            column("plugin_package_id", ColumnKind::String, false),
        ],
        vec![
            foreign_key(
                "fk_workflow_code_plugin_package_code",
                "workflow_code_id",
                "workflow_code",
                "id",
            ),
            foreign_key(
                "fk_workflow_code_plugin_package_package",
                "plugin_package_id",
                "plugin_package",
                "package_id",
            ),
        ],
    );
    proof {
        assert(code_packages@ =~= spec@[9]);
    }
    let code_functions = simple_table(
        "workflow_code_plugin_function",
        vec![
            serial_key_column("id"),
            column("workflow_code_id", ColumnKind::String, false),
            column("plugin_function_id", ColumnKind::String, false),
        ],
        vec![
            foreign_key(
                "fk_workflow_code_plugin_function_code",
                "workflow_code_id",
                "workflow_code",
                "id",
            ),
            foreign_key(
                "fk_workflow_code_plugin_function_function",
                "plugin_function_id",
                "plugin_function",
                "function_id",
            ),
        ],
    );
    proof {
        assert(code_functions@ =~= spec@[10]);
    }
    let code_grants = simple_table(
        "workflow_code_allowed_permission",
        vec![
            serial_key_column("id"),
            column("workflow_code_id", ColumnKind::String, false),
            column("permission_id", ColumnKind::Integer, false),
        ],
        vec![
            foreign_key(
                "fk_workflow_code_allowed_permission_code",
                "workflow_code_id",
                "workflow_code",
                "id",
            ),
            foreign_key(
                "fk_workflow_code_allowed_permission_permission",
                "permission_id",
                "permission",
                "id",
            ),
        ],
    );
    proof {
        assert(code_grants@ =~= spec@[11]);
    }
    let ext_packages = simple_table(
        "ext_plugin_package",
        vec![
            string_key_column("plugin_package_id"),
            column("install_dir", ColumnKind::String, false),
            flag_column("missing"),
        ],
        vec![],
    );
    proof {
        assert(ext_packages@ =~= spec@[12]);
    }
    let r = vec![
        plugin_package,
        plugin_function,
        plugin_function_permission,
        permission,
        provider,
        model,
        workflow,
        workflow_code,
        workflow_result,
        code_packages,
        code_functions,
        code_grants,
        ext_packages,
    ];
    proof {
        assert(r@.map_values(|t: TableDefinition| t@) =~= spec@);
    }
    r
}

/// The tables in the order they are dropped.
pub fn drop_order() -> (r: Vec<String>)
    ensures
        r@.map_values(|s: String| s@) == spec_drop_order(),
{
    let r = vec![
        "ext_plugin_package".to_owned(),
        "workflow_code_allowed_permission".to_owned(),
        "workflow_code_plugin_function".to_owned(),
        "workflow_code_plugin_package".to_owned(),
        "workflow_result".to_owned(),
        "workflow_code".to_owned(),
        "workflow".to_owned(),
        "permission".to_owned(),
        "model".to_owned(),
        "plugin_function_permission".to_owned(),
        "plugin_function".to_owned(),
        "plugin_package".to_owned(),
        "provider".to_owned(),
    ];
    proof {
        assert(r@.map_values(|s: String| s@) =~= spec_drop_order());
    }
    r
}
/// Whether a table has a column named `name`.
pub open spec fn has_column(t: TableSpec, name: Seq<char>) -> bool {
    exists|c: int| 0 <= c < t.columns.len() && (#[trigger] t.columns[c]).name == name
}

/// Whether a list of tables has a table named `table` with a column named
/// `column`.
pub open spec fn has_table_column(ts: Seq<TableSpec>, table: Seq<char>, column: Seq<char>) -> bool {
    exists|j: int| 0 <= j < ts.len() && (#[trigger] ts[j]).name == table && has_column(ts[j], column)
}

/// Whether foreign key `f` of table `t` joins a column of `t` to a column of
/// a table of `ts`.
pub open spec fn foreign_key_resolves(ts: Seq<TableSpec>, t: TableSpec, f: ForeignKeySpec) -> bool {
    has_column(t, f.column) && has_table_column(ts, f.ref_table, f.ref_column)
}

/// Every foreign key of the schema joins a column of its own table to a
/// column of a table of the schema.
pub proof fn lemma_foreign_keys_resolve()
    ensures
        forall|i: int, k: int|
            0 <= i < spec_schema_tables().len() && 0 <= k < spec_schema_tables()[i].foreign_keys.len()
                ==> foreign_key_resolves(
                spec_schema_tables(),
                spec_schema_tables()[i],
                #[trigger] spec_schema_tables()[i].foreign_keys[k],
            ),
{
    let ts = spec_schema_tables();
    assert forall|i: int, k: int|
        0 <= i < ts.len() && 0 <= k < ts[i].foreign_keys.len() implies foreign_key_resolves(
        ts,
        ts[i],
        #[trigger] ts[i].foreign_keys[k],
    ) by {
        let t = ts[i];
        let f = t.foreign_keys[k];
        assert(t.columns[0].name == t.columns[0].name);
        if i == 1 {
            assert(t.columns[1].name == f.column);
            assert(ts[0].columns[0].name == f.ref_column);
        } else if i == 2 {
            assert(t.columns[k + 1].name == f.column);
            if k == 0 {
                assert(ts[1].columns[0].name == f.ref_column);
            } else {
                assert(ts[3].columns[0].name == f.ref_column);
            }
        } else if i == 3 {
            assert(t.columns[1].name == f.column);
            assert(ts[1].columns[0].name == f.ref_column);
        } else if i == 5 {
            assert(t.columns[3].name == f.column);
            assert(ts[4].columns[0].name == f.ref_column);
        } else if i == 7 {
            assert(t.columns[1].name == f.column);
            assert(ts[6].columns[0].name == f.ref_column);
        } else if i == 8 {
            assert(t.columns[k + 1].name == f.column);
            if k == 0 {
                assert(ts[6].columns[0].name == f.ref_column);
            } else {
                assert(ts[7].columns[0].name == f.ref_column);
            }
        } else if i == 9 {
            assert(t.columns[k + 1].name == f.column);
            if k == 0 {
                assert(ts[7].columns[0].name == f.ref_column);
            } else {
                assert(ts[0].columns[0].name == f.ref_column);
            }
        } else if i == 10 {
            assert(t.columns[k + 1].name == f.column);
            if k == 0 {
                assert(ts[7].columns[0].name == f.ref_column);
            } else {
                assert(ts[1].columns[0].name == f.ref_column);
            }
        } else if i == 11 {
            assert(t.columns[k + 1].name == f.column);
            if k == 0 {
                assert(ts[7].columns[0].name == f.ref_column);
            } else {
                assert(ts[3].columns[0].name == f.ref_column);
            }
        }
    }
}

/// Every foreign key of the schema deletes its rows with the row they refer
/// to.
pub proof fn lemma_foreign_keys_cascade()
    ensures
        forall|i: int, k: int|
            0 <= i < spec_schema_tables().len() && 0 <= k < spec_schema_tables()[i].foreign_keys.len()
                ==> (#[trigger] spec_schema_tables()[i].foreign_keys[k]).on_delete
                == DeleteAction::Cascade,
{
}

/// The names of a list of tables.
pub open spec fn table_names(ts: Seq<TableSpec>) -> Seq<Seq<char>> {
    ts.map_values(|t: TableSpec| t.name)
}

/// The schema's tables have pairwise different names, and dropping them
/// drops each of them exactly once.
pub proof fn lemma_drop_order_covers_schema()
    ensures
        table_names(spec_schema_tables()).no_duplicates(),
        spec_drop_order().no_duplicates(),
        spec_drop_order().len() == spec_schema_tables().len(),
        forall|t: Seq<char>|
            spec_drop_order().contains(t) <==> table_names(spec_schema_tables()).contains(t),
{
    reveal_strlit("ext_plugin_package");
    reveal_strlit("workflow_code_allowed_permission");
    reveal_strlit("workflow_code_plugin_function");
    reveal_strlit("workflow_code_plugin_package");
    reveal_strlit("workflow_result");
    reveal_strlit("workflow_code");
    reveal_strlit("workflow");
    reveal_strlit("permission");
    reveal_strlit("model");
    reveal_strlit("plugin_function_permission");
    reveal_strlit("plugin_function");
    reveal_strlit("plugin_package");
    reveal_strlit("provider");
    let names = table_names(spec_schema_tables());
    let drop = spec_drop_order();
    assert(names =~= seq![
        "plugin_package"@,
        "plugin_function"@,
        "plugin_function_permission"@,
        "permission"@,
        "provider"@,
        "model"@,
        "workflow"@,
        "workflow_code"@,
        "workflow_result"@,
        "workflow_code_plugin_package"@,
        "workflow_code_plugin_function"@,
        "workflow_code_allowed_permission"@,
        "ext_plugin_package"@,
    ]);
    assert(names[0].len() == 14 && names[0][0] == 'p');
    assert(names[1].len() == 15 && names[1][0] == 'p');
    assert(names[2].len() == 26 && names[2][0] == 'p');
    assert(names[3].len() == 10 && names[3][0] == 'p');
    assert(names[4].len() == 8 && names[4][0] == 'p');
    assert(names[5].len() == 5 && names[5][0] == 'm');
    assert(names[6].len() == 8 && names[6][0] == 'w');
    assert(names[7].len() == 13 && names[7][0] == 'w');
    assert(names[8].len() == 15 && names[8][0] == 'w');
    assert(names[9].len() == 28 && names[9][0] == 'w');
    assert(names[10].len() == 29 && names[10][0] == 'w');
    assert(names[11].len() == 32 && names[11][0] == 'w');
    assert(names[12].len() == 18 && names[12][0] == 'e');
    assert(drop[0].len() == 18 && drop[0][0] == 'e');
    assert(drop[1].len() == 32 && drop[1][0] == 'w');
    assert(drop[2].len() == 29 && drop[2][0] == 'w');
    assert(drop[3].len() == 28 && drop[3][0] == 'w');
    assert(drop[4].len() == 15 && drop[4][0] == 'w');
    assert(drop[5].len() == 13 && drop[5][0] == 'w');
    assert(drop[6].len() == 8 && drop[6][0] == 'w');
    assert(drop[7].len() == 10 && drop[7][0] == 'p');
    assert(drop[8].len() == 5 && drop[8][0] == 'm');
    assert(drop[9].len() == 26 && drop[9][0] == 'p');
    assert(drop[10].len() == 15 && drop[10][0] == 'p');
    assert(drop[11].len() == 14 && drop[11][0] == 'p');
    assert(drop[12].len() == 8 && drop[12][0] == 'p');
    assert forall|i: int, j: int| 0 <= i < names.len() && 0 <= j < names.len() && i != j implies names[i]
        != names[j] by {
        assert(names[i].len() != names[j].len() || names[i][0] != names[j][0]);
    }
    assert forall|i: int, j: int| 0 <= i < drop.len() && 0 <= j < drop.len() && i != j implies drop[i]
        != drop[j] by {
        assert(drop[i].len() != drop[j].len() || drop[i][0] != drop[j][0]);
    }
    assert forall|k: int| 0 <= k < drop.len() implies names.contains(#[trigger] drop[k]) by {
        if k == 0 { assert(names[12] == drop[k]); }
        if k == 1 { assert(names[11] == drop[k]); }
        if k == 2 { assert(names[10] == drop[k]); }
        if k == 3 { assert(names[9] == drop[k]); }
        if k == 4 { assert(names[8] == drop[k]); }
        if k == 5 { assert(names[7] == drop[k]); }
        if k == 6 { assert(names[6] == drop[k]); }
        if k == 7 { assert(names[3] == drop[k]); }
        if k == 8 { assert(names[5] == drop[k]); }
        if k == 9 { assert(names[2] == drop[k]); }
        if k == 10 { assert(names[1] == drop[k]); }
        if k == 11 { assert(names[0] == drop[k]); }
        if k == 12 { assert(names[4] == drop[k]); }
    }
    assert forall|k: int| 0 <= k < names.len() implies drop.contains(#[trigger] names[k]) by {
        if k == 0 { assert(drop[11] == names[k]); }
        if k == 1 { assert(drop[10] == names[k]); }
        if k == 2 { assert(drop[9] == names[k]); }
        if k == 3 { assert(drop[7] == names[k]); }
        if k == 4 { assert(drop[12] == names[k]); }
        if k == 5 { assert(drop[8] == names[k]); }
        if k == 6 { assert(drop[6] == names[k]); }
        if k == 7 { assert(drop[5] == names[k]); }
        if k == 8 { assert(drop[4] == names[k]); }
        if k == 9 { assert(drop[3] == names[k]); }
        if k == 10 { assert(drop[2] == names[k]); }
        if k == 11 { assert(drop[1] == names[k]); }
        if k == 12 { assert(drop[0] == names[k]); }
    }
    assert forall|t: Seq<char>| drop.contains(t) <==> names.contains(t) by {
        if drop.contains(t) {
            let k = choose|k: int| 0 <= k < drop.len() && drop[k] == t;
            assert(names.contains(drop[k]));
        }
        if names.contains(t) {
            let k = choose|k: int| 0 <= k < names.len() && names[k] == t;
            assert(drop.contains(names[k]));
        }
    }
}

} // verus!
