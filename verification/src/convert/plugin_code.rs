//! Plugin packages, functions and permissions: rows and protocol messages in
//! both directions.
use crate::entity::permission::{Model as EntityPermission, ModelView as PermissionRow};
use crate::entity::plugin_function::{Model as EntityPluginFunction, ModelView as FunctionRow};
use crate::entity::plugin_package::{Model as EntityPluginPackage, ModelView as PackageRow};
use crate::proto::{
    duplicate_functions, duplicate_permissions, function_views, permission_views, Permission,
    PermissionView, PluginFunction, PluginFunctionView, PluginPackage, PluginPackageView,
    PERMISSION_LEVEL_UNSPECIFIED,
};
use crate::resource_json::{
    resource_json_of, resources_of, spec_resource_json_of, spec_resources_of,
};
use crate::text::{
    opt_str, strs, spec_string_to_option, spec_unwrap_or_empty, unwrap_or_empty,
};
use crate::timestamp::{
    lemma_stable_instant_read_back, lemma_stable_timestamp_read_back,
    opt_datetime_to_proto_timestamp,
    opt_proto_timestamp_to_datetime, spec_opt_datetime_of,
    spec_opt_proto_of, stable_instant, stable_timestamp,
};
use vstd::prelude::*;

verus! {

/// An absent flag read as `false`.
pub open spec fn flag_or_false(b: Option<bool>) -> bool {
    match b {
        Some(x) => x,
        None => false,
    }
}

/// The row for a package message. Empty strings become absent, absent flags
/// `false`, timestamps instants (absent when out of range); functions are not
/// part of the row.
pub open spec fn spec_proto_to_plugin_package(p: PluginPackageView) -> PackageRow {
    PackageRow {
        package_id: p.package_id,
        package_name: p.package_name,
        package_version: p.package_version,
        description: spec_string_to_option(p.description),
        plugin_store_url: spec_string_to_option(p.plugin_store_url),
        internal_plugin: flag_or_false(p.internal_plugin),
        verified: flag_or_false(p.verified),
        deprecated: flag_or_false(p.deprecated),
        installed_at: spec_opt_datetime_of(p.installed_at),
        updated_at: spec_opt_datetime_of(p.updated_at),
    }
}

/// The row for a function message in package `package_id`.
pub open spec fn spec_proto_to_plugin_function(
    f: PluginFunctionView,
    package_id: Seq<char>,
) -> FunctionRow {
    FunctionRow {
        function_id: f.function_id,
        package_id,
        function_name: f.function_name,
        description: spec_string_to_option(f.description),
        arguments: spec_string_to_option(f.arguments),
        returns: spec_string_to_option(f.returns),
    }
}

/// The stored level of a permission level: absent for `Unspecified`.
pub open spec fn spec_level_of(level: i32) -> Option<i32> {
    if level == PERMISSION_LEVEL_UNSPECIFIED {
        None
    } else {
        Some(level)
    }
}

/// The row for a permission message of function `plugin_function_id`, with
/// row id `id` (0 when not given).
pub open spec fn spec_proto_to_permission(
    p: PermissionView,
    plugin_function_id: Seq<char>,
    id: Option<i32>,
) -> PermissionRow {
    PermissionRow {
        id: match id {
            Some(i) => i,
            None => 0,
        },
        plugin_function_id,
        display_name: spec_string_to_option(p.display_name),
        description: spec_string_to_option(p.description),
        permission_type: p.permission_type,
        resource_json: spec_resource_json_of(p.resource),
        level: spec_level_of(p.permission_level),
    }
}

/// The message for a package row, without functions. Absent strings become
/// empty and instants timestamps.
pub open spec fn spec_plugin_package_to_proto(e: PackageRow) -> PluginPackageView {
    PluginPackageView {
        package_id: e.package_id,
        package_name: e.package_name,
        package_version: e.package_version,
        description: spec_unwrap_or_empty(e.description),
        functions: Seq::empty(),
        plugin_store_url: spec_unwrap_or_empty(e.plugin_store_url),
        internal_plugin: Some(e.internal_plugin),
        verified: Some(e.verified),
        deprecated: Some(e.deprecated),
        installed_at: spec_opt_proto_of(e.installed_at),
        updated_at: spec_opt_proto_of(e.updated_at),
    }
}

/// The message for a package row with the given functions attached.
pub open spec fn spec_plugin_package_to_proto_with_functions(
    e: PackageRow,
    functions: Option<Seq<PluginFunctionView>>,
) -> PluginPackageView {
    match functions {
        Some(f) => PluginPackageView { functions: f, ..spec_plugin_package_to_proto(e) },
        None => spec_plugin_package_to_proto(e),
    }
}

/// The message for a function row with the given permissions attached.
pub open spec fn spec_plugin_function_to_proto(
    e: FunctionRow,
    permissions: Option<Seq<PermissionView>>,
) -> PluginFunctionView {
    PluginFunctionView {
        function_id: e.function_id,
        function_name: e.function_name,
        description: spec_unwrap_or_empty(e.description),
        permissions: match permissions {
            Some(p) => p,
            None => Seq::empty(),
        },
        arguments: spec_unwrap_or_empty(e.arguments),
        returns: spec_unwrap_or_empty(e.returns),
        function_define: None,
    }
}

/// The message for a permission row: resources parsed from `resource_json`,
/// an absent level read as `Unspecified`.
pub open spec fn spec_permission_to_proto(e: PermissionRow) -> PermissionView {
    PermissionView {
        display_name: spec_unwrap_or_empty(e.display_name),
        description: spec_unwrap_or_empty(e.description),
        permission_type: e.permission_type,
        resource: spec_resources_of(e.resource_json),
        permission_level: match e.level {
            Some(l) => l,
            None => PERMISSION_LEVEL_UNSPECIFIED,
        },
    }
}

/// The protocol's reading of an optional string field: the empty string is
/// absent, any other is present.
pub fn proto_string_to_option(value: &str) -> (r: Option<String>)
    ensures
        opt_str(r) == spec_string_to_option(value@),
{
    if value.is_empty() {
        None
    } else {
        Some(value.to_owned())
    }
}

/// Converts a package message into its row; functions are left to the caller.
pub fn proto_to_plugin_package(proto: &PluginPackage) -> (r: EntityPluginPackage)
    ensures
        r@ == spec_proto_to_plugin_package(proto@),
{
    let installed_at = opt_proto_timestamp_to_datetime(&proto.installed_at);
    let updated_at = opt_proto_timestamp_to_datetime(&proto.updated_at);
    EntityPluginPackage {
        package_id: proto.package_id.clone(),
        package_name: proto.package_name.clone(),
        package_version: proto.package_version.clone(),
        description: proto_string_to_option(proto.description.as_str()),
        plugin_store_url: proto_string_to_option(proto.plugin_store_url.as_str()),
        internal_plugin: match proto.internal_plugin {
            Some(b) => b,
            None => false,
        },
        verified: match proto.verified {
            Some(b) => b,
            None => false,
        },
        deprecated: match proto.deprecated {
            Some(b) => b,
            None => false,
        },
        installed_at,
        updated_at,
    }
}

/// Converts a function message into its row, in package `package_id`.
pub fn proto_to_plugin_function(proto: &PluginFunction, package_id: String) -> (r:
    EntityPluginFunction)
    ensures
        r@ == spec_proto_to_plugin_function(proto@, package_id@),
{
    EntityPluginFunction {
        function_id: proto.function_id.clone(),
        package_id,
        function_name: proto.function_name.clone(),
        description: proto_string_to_option(proto.description.as_str()),
        arguments: proto_string_to_option(proto.arguments.as_str()),
        returns: proto_string_to_option(proto.returns.as_str()),
    }
}

/// Converts a permission message into its row for function
/// `plugin_function_id`. Resources are stored as JSON (absent when there are
/// none) and the `Unspecified` level as absent.
pub fn proto_to_permission(proto: &Permission, plugin_function_id: String, id: Option<i32>) -> (r:
    EntityPermission)
    ensures
        r@ == spec_proto_to_permission(proto@, plugin_function_id@, id),
        spec_resources_of(r@.resource_json) == proto@.resource,
{
    let resource_json = resource_json_of(&proto.resource);
    proof {
        assert(proto.resource.deep_view() =~= strs(proto.resource@));
    }
    let level_value = proto.permission_level;
    let level = if level_value == PERMISSION_LEVEL_UNSPECIFIED {
        None
    } else {
        Some(level_value)
    };
    EntityPermission {
        id: match id {
            Some(i) => i,
            None => 0,
        },
        plugin_function_id,
        display_name: proto_string_to_option(proto.display_name.as_str()),
        description: proto_string_to_option(proto.description.as_str()),
        permission_type: proto.permission_type,
        resource_json,
        level,
    }
}

/// Converts a package row into its message, without functions.
pub fn plugin_package_to_proto(entity: &EntityPluginPackage) -> (r: PluginPackage)
    ensures
        r@ == spec_plugin_package_to_proto(entity@),
{
    let r = PluginPackage {
        package_id: entity.package_id.clone(),
        package_name: entity.package_name.clone(),
        package_version: entity.package_version.clone(),
        description: unwrap_or_empty(&entity.description),
        functions: Vec::new(),
        plugin_store_url: unwrap_or_empty(&entity.plugin_store_url),
        internal_plugin: Some(entity.internal_plugin),
        verified: Some(entity.verified),
        deprecated: Some(entity.deprecated),
        installed_at: opt_datetime_to_proto_timestamp(&entity.installed_at),
        updated_at: opt_datetime_to_proto_timestamp(&entity.updated_at),
    };
    proof {
        assert(function_views(r.functions@) =~= Seq::<PluginFunctionView>::empty());
    }
    r
}

/// Converts a package row into its message, attaching `functions` when given.
pub fn plugin_package_to_proto_with_functions(
    entity: &EntityPluginPackage,
    functions: Option<&[PluginFunction]>,
) -> (r: PluginPackage)
    ensures
        r@ == spec_plugin_package_to_proto_with_functions(
            entity@,
            match functions {
                Some(f) => Some(function_views(f@)),
                None => None,
            },
        ),
{
    let mut p = plugin_package_to_proto(entity);
    match functions {
        Some(funcs) => {
            p.functions = duplicate_functions(funcs);
        },
        None => {},
    }
    p
}

/// Converts a function row into its message, attaching `permissions` when given.
pub fn plugin_function_to_proto(
    entity: &EntityPluginFunction,
    permissions: Option<&[Permission]>,
) -> (r: PluginFunction)
    ensures
        r@ == spec_plugin_function_to_proto(
            entity@,
            match permissions {
                Some(p) => Some(permission_views(p@)),
                None => None,
            },
        ),
{
    let perms: Vec<Permission> = match permissions {
        Some(p) => duplicate_permissions(p),
        None => {
            let v: Vec<Permission> = Vec::new();
            proof {
                assert(permission_views(v@) =~= Seq::<PermissionView>::empty());
            }
            v
        },
    };
    PluginFunction {
        function_id: entity.function_id.clone(),
        function_name: entity.function_name.clone(),
        description: unwrap_or_empty(&entity.description),
        permissions: perms,
        arguments: unwrap_or_empty(&entity.arguments),
        returns: unwrap_or_empty(&entity.returns),
        function_define: None,
    }
}

/// Converts a permission row into its message.
pub fn permission_to_proto(entity: &EntityPermission) -> (r: Permission)
    ensures
        r@ == spec_permission_to_proto(entity@),
{
    let resource = resources_of(&entity.resource_json);
    let level = match entity.level {
        Some(l) => l,
        None => PERMISSION_LEVEL_UNSPECIFIED,
    };
    let r = Permission {
        display_name: unwrap_or_empty(&entity.display_name),
        description: unwrap_or_empty(&entity.description),
        permission_type: entity.permission_type,
        resource,
        permission_level: level,
    };
    proof {
        assert(r@.resource =~= resource.deep_view());
    }
    r
}

/// A permission message survives the trip through its row: stored as a row
/// by `proto_to_permission` and read back by `permission_to_proto`, every
/// field comes back.
pub proof fn lemma_permission_roundtrip(p: PermissionView, fid: Seq<char>, id: Option<i32>)
    requires
        spec_resources_of(spec_resource_json_of(p.resource)) == p.resource,
    ensures
        spec_permission_to_proto(spec_proto_to_permission(p, fid, id)) == p,
{
    let row = spec_proto_to_permission(p, fid, id);
    let back = spec_permission_to_proto(row);
    assert(back.display_name =~= p.display_name);
    assert(back.description =~= p.description);
}

/// A package message survives the trip through its row when nothing the row
/// drops is there: no functions, each flag given, each timestamp stable.
pub proof fn lemma_plugin_package_roundtrip(p: PluginPackageView)
    requires
        p.functions.len() == 0,
        p.internal_plugin is Some,
        p.verified is Some,
        p.deprecated is Some,
        stable_timestamp(p.installed_at),
        stable_timestamp(p.updated_at),
    ensures
        spec_plugin_package_to_proto(spec_proto_to_plugin_package(p)) == p,
{
    lemma_stable_timestamp_read_back(p.installed_at);
    lemma_stable_timestamp_read_back(p.updated_at);
    let back = spec_plugin_package_to_proto(spec_proto_to_plugin_package(p));
    assert(back.description =~= p.description);
    assert(back.plugin_store_url =~= p.plugin_store_url);
    assert(back.functions =~= p.functions);
    assert(back =~= p);
}

/// A function message without a definition (the row does not keep one)
/// survives the trip through its row when its own permissions are attached
/// again; with none attached it comes back with no permissions.
pub proof fn lemma_plugin_function_roundtrip(f: PluginFunctionView, package_id: Seq<char>)
    requires
        (f.function_define is None),
    ensures
        spec_plugin_function_to_proto(
            spec_proto_to_plugin_function(f, package_id),
            Some(f.permissions),
        ) == f,
        spec_plugin_function_to_proto(spec_proto_to_plugin_function(f, package_id), None)
            == (PluginFunctionView { permissions: Seq::empty(), ..f }),
{
    let back = spec_plugin_function_to_proto(
        spec_proto_to_plugin_function(f, package_id),
        Some(f.permissions),
    );
    assert(back.description =~= f.description);
    assert(back.arguments =~= f.arguments);
    assert(back.returns =~= f.returns);
    assert(back =~= f);
    let bare = spec_plugin_function_to_proto(spec_proto_to_plugin_function(f, package_id), None);
    assert(bare =~= PluginFunctionView { permissions: Seq::empty(), ..f });
}

/// A function row survives the trip through its message, except that an
/// empty string reads back as absent.
pub proof fn lemma_plugin_function_row_roundtrip(e: FunctionRow)
    requires
        e.description != Some(Seq::<char>::empty()),
        e.arguments != Some(Seq::<char>::empty()),
        e.returns != Some(Seq::<char>::empty()),
    ensures
        spec_proto_to_plugin_function(spec_plugin_function_to_proto(e, None), e.package_id) == e,
{
    let back = spec_proto_to_plugin_function(spec_plugin_function_to_proto(e, None), e.package_id);
    lemma_optional_text_roundtrip(e.description);
    lemma_optional_text_roundtrip(e.arguments);
    lemma_optional_text_roundtrip(e.returns);
    assert(back =~= e);
}

/// A package row survives the trip through its message, except that an empty
/// string reads back as absent and an instant inside a leap second moves.
pub proof fn lemma_plugin_package_row_roundtrip(e: PackageRow)
    requires
        e.description != Some(Seq::<char>::empty()),
        e.plugin_store_url != Some(Seq::<char>::empty()),
        stable_instant(e.installed_at),
        stable_instant(e.updated_at),
    ensures
        spec_proto_to_plugin_package(spec_plugin_package_to_proto(e)) == e,
{
    lemma_optional_text_roundtrip(e.description);
    lemma_optional_text_roundtrip(e.plugin_store_url);
    lemma_stable_instant_read_back(e.installed_at);
    lemma_stable_instant_read_back(e.updated_at);
    let back = spec_proto_to_plugin_package(spec_plugin_package_to_proto(e));
    assert(back =~= e);
}

/// An optional text that is never the empty string reads back as itself
/// after being written out with absent as empty.
pub proof fn lemma_optional_text_roundtrip(o: Option<Seq<char>>)
    requires
        o != Some(Seq::<char>::empty()),
    ensures
        spec_string_to_option(spec_unwrap_or_empty(o)) == o,
{
    match o {
        Some(s) => {
            if s.len() == 0 {
                assert(s =~= Seq::<char>::empty());
            }
        },
        None => {},
    }
}

} // verus!
