//! The file system plugin: reading, writing and listing files.
use crate::permission_check::{
    grant_list_views, grants_or_own, pin_first_resource, select_allowed, spec_pin_first_resource,
    spec_select_allowed, FunctionPermissions, FunctionPermissionsView, PermissionRequest,
};
use crate::plugins::exec::{builtin_package_version, spec_builtin_package_version};
use crate::proto::{
    function_views, permission_views, Permission, PermissionView, PluginFunction,
    PluginFunctionView, PluginPackage, PluginPackageView, PERMISSION_LEVEL_UNSPECIFIED,
    PERMISSION_TYPE_FILESYSTEM_READ, PERMISSION_TYPE_FILESYSTEM_WRITE,
};
use vstd::prelude::*;

verus! {

/// The id of the `read` function.
pub open spec fn filesystem_read_function_id() -> Seq<char> {
    "app.sapphillon.core.filesystem.read"@
}

/// The permissions the `read` function declares.
pub open spec fn spec_filesystem_read_plugin_permissions() -> Seq<PermissionView> {
    seq![
        PermissionView {
            display_name: "Filesystem Read"@,
            description: "Allows the plugin to read files from the local filesystem."@,
            permission_type: PERMISSION_TYPE_FILESYSTEM_READ,
            resource: Seq::empty(),
            permission_level: PERMISSION_LEVEL_UNSPECIFIED,
        },
    ]
}

/// The catalog entry of the `read` function.
pub open spec fn spec_filesystem_read_plugin_function() -> PluginFunctionView {
    PluginFunctionView {
        function_id: filesystem_read_function_id(),
        function_name: "fs.read"@,
        description: "Reads a text file from the local filesystem and returns its contents as a string."@,
        permissions: spec_filesystem_read_plugin_permissions(),
        arguments: "String: path"@,
        returns: "String: content"@,
        function_define: None,
    }
}

/// The permissions the `read` function declares: filesystem read, for any path.
pub fn filesystem_read_plugin_permissions() -> (r: Vec<Permission>)
    ensures
        r@.len() == 1,
        permission_views(r@) == spec_filesystem_read_plugin_permissions(),
{
    let p = Permission {
        display_name: String::from_str("Filesystem Read"),
        description: String::from_str("Allows the plugin to read files from the local filesystem."),
        permission_type: PERMISSION_TYPE_FILESYSTEM_READ,
        resource: Vec::new(),
        permission_level: PERMISSION_LEVEL_UNSPECIFIED,
    };
    let mut v: Vec<Permission> = Vec::new();
    v.push(p);
    proof {
        assert(p@.resource =~= Seq::<Seq<char>>::empty());
        assert(permission_views(v@) =~= spec_filesystem_read_plugin_permissions());
    }
    v
}

/// The catalog entry of the `read` function.
pub fn filesystem_read_plugin_function() -> (r: PluginFunction)
    ensures
        r@ == spec_filesystem_read_plugin_function(),
{
    PluginFunction {
        function_id: String::from_str("app.sapphillon.core.filesystem.read"),
        function_name: String::from_str("fs.read"),
        description: String::from_str("Reads a text file from the local filesystem and returns its contents as a string."),
        permissions: filesystem_read_plugin_permissions(),
        arguments: String::from_str("String: path"),
        returns: String::from_str("String: content"),
        function_define: None,
    }
}

/// The grants the `read` check reads: the workflow's, or when it has none,
/// the function's own permissions granted to it.
pub open spec fn spec_filesystem_read_grants(grants: Option<Seq<FunctionPermissionsView>>) -> Seq<
    FunctionPermissionsView,
> {
    match grants {
        Some(g) => g,
        None => seq![
            FunctionPermissionsView {
                plugin_function_id: filesystem_read_function_id(),
                permissions: spec_filesystem_read_plugin_permissions(),
            },
        ],
    }
}

/// The two sides of the permission check before the `read` operation on
/// `path`: the permissions granted to the function (see
/// [`spec_filesystem_read_grants`]), and its declared permission pinned to
/// this path.
pub fn filesystem_read_permission_request(grants: Option<Vec<FunctionPermissions>>, path: String) -> (r:
    PermissionRequest)
    ensures
        permission_views(r.allowed@) == spec_select_allowed(
            spec_filesystem_read_grants(
                match grants {
                    Some(g) => Some(grant_list_views(g@)),
                    None => None,
                },
            ),
            filesystem_read_function_id(),
        ),
        permission_views(r.required@) == spec_pin_first_resource(
            spec_filesystem_read_plugin_permissions(),
            path@,
        ),
{
    let function_id = String::from_str("app.sapphillon.core.filesystem.read");
    let all = grants_or_own(grants, function_id.clone(), filesystem_read_plugin_permissions());
    let allowed = select_allowed(all.as_slice(), function_id.as_str());
    let required = pin_first_resource(filesystem_read_plugin_permissions(), path);
    PermissionRequest { allowed, required }
}

/// The id of the `write` function.
pub open spec fn filesystem_write_function_id() -> Seq<char> {
    "app.sapphillon.core.filesystem.write"@
}

/// The permissions the `write` function declares.
pub open spec fn spec_filesystem_write_plugin_permissions() -> Seq<PermissionView> {
    seq![
        PermissionView {
            display_name: "Filesystem Write"@,
            description: "Allows the plugin to write files to the local filesystem."@,
            permission_type: PERMISSION_TYPE_FILESYSTEM_WRITE,
            resource: Seq::empty(),
            permission_level: PERMISSION_LEVEL_UNSPECIFIED,
        },
    ]
}

/// The catalog entry of the `write` function.
pub open spec fn spec_filesystem_write_plugin_function() -> PluginFunctionView {
    PluginFunctionView {
        function_id: filesystem_write_function_id(),
        function_name: "WriteFile"@,
        description: "Writes text to a file on the local filesystem."@,
        permissions: spec_filesystem_write_plugin_permissions(),
        arguments: "String: path, String: content"@,
        returns: "String: result"@,
        function_define: None,
    }
}

/// The permissions the `write` function declares: filesystem write, for any path.
pub fn filesystem_write_plugin_permissions() -> (r: Vec<Permission>)
    ensures
        r@.len() == 1,
        permission_views(r@) == spec_filesystem_write_plugin_permissions(),
{
    let p = Permission {
        display_name: String::from_str("Filesystem Write"),
        description: String::from_str("Allows the plugin to write files to the local filesystem."),
        permission_type: PERMISSION_TYPE_FILESYSTEM_WRITE,
        resource: Vec::new(),
        permission_level: PERMISSION_LEVEL_UNSPECIFIED,
    };
    let mut v: Vec<Permission> = Vec::new();
    v.push(p);
    proof {
        assert(p@.resource =~= Seq::<Seq<char>>::empty());
        assert(permission_views(v@) =~= spec_filesystem_write_plugin_permissions());
    }
    v
}

/// The catalog entry of the `write` function.
pub fn filesystem_write_plugin_function() -> (r: PluginFunction)
    ensures
        r@ == spec_filesystem_write_plugin_function(),
{
    PluginFunction {
        function_id: String::from_str("app.sapphillon.core.filesystem.write"),
        function_name: String::from_str("WriteFile"),
        description: String::from_str("Writes text to a file on the local filesystem."),
        permissions: filesystem_write_plugin_permissions(),
        arguments: String::from_str("String: path, String: content"),
        returns: String::from_str("String: result"),
        function_define: None,
    }
}

/// The grants the `write` check reads: the workflow's, or when it has none,
/// the function's own permissions granted to it.
pub open spec fn spec_filesystem_write_grants(grants: Option<Seq<FunctionPermissionsView>>) -> Seq<
    FunctionPermissionsView,
> {
    match grants {
        Some(g) => g,
        None => seq![
            FunctionPermissionsView {
                plugin_function_id: filesystem_write_function_id(),
                permissions: spec_filesystem_write_plugin_permissions(),
            },
        ],
    }
}

/// The two sides of the permission check before the `write` operation on
/// `path`: the permissions granted to the function (see
/// [`spec_filesystem_write_grants`]), and its declared permission pinned to
/// this path.
pub fn filesystem_write_permission_request(grants: Option<Vec<FunctionPermissions>>, path: String) -> (r:
    PermissionRequest)
    ensures
        permission_views(r.allowed@) == spec_select_allowed(
            spec_filesystem_write_grants(
                match grants {
                    Some(g) => Some(grant_list_views(g@)),
                    None => None,
                },
            ),
            filesystem_write_function_id(),
        ),
        permission_views(r.required@) == spec_pin_first_resource(
            spec_filesystem_write_plugin_permissions(),
            path@,
        ),
{
    let function_id = String::from_str("app.sapphillon.core.filesystem.write");
    let all = grants_or_own(grants, function_id.clone(), filesystem_write_plugin_permissions());
    let allowed = select_allowed(all.as_slice(), function_id.as_str());
    let required = pin_first_resource(filesystem_write_plugin_permissions(), path);
    PermissionRequest { allowed, required }
}

/// The id of the `list_files` function.
pub open spec fn filesystem_list_files_function_id() -> Seq<char> {
    "app.sapphillon.core.filesystem.list_files"@
}

/// The permissions the `list_files` function declares.
pub open spec fn spec_filesystem_list_files_plugin_permissions() -> Seq<PermissionView> {
    seq![
        PermissionView {
            display_name: "Filesystem Read"@,
            description: "Allows the plugin to list files from the local filesystem."@,
            permission_type: PERMISSION_TYPE_FILESYSTEM_READ,
            resource: Seq::empty(),
            permission_level: PERMISSION_LEVEL_UNSPECIFIED,
        },
    ]
}

/// The catalog entry of the `list_files` function.
pub open spec fn spec_filesystem_list_files_plugin_function() -> PluginFunctionView {
    PluginFunctionView {
        function_id: filesystem_list_files_function_id(),
        function_name: "fs.list"@,
        description: "List files in a directory."@,
        permissions: spec_filesystem_list_files_plugin_permissions(),
        arguments: "String: path"@,
        returns: "String: content"@,
        function_define: None,
    }
}

/// The permissions the `list_files` function declares: filesystem read, for any path.
pub fn filesystem_list_files_plugin_permissions() -> (r: Vec<Permission>)
    ensures
        r@.len() == 1,
        permission_views(r@) == spec_filesystem_list_files_plugin_permissions(),
{
    let p = Permission {
        display_name: String::from_str("Filesystem Read"),
        description: String::from_str("Allows the plugin to list files from the local filesystem."),
        permission_type: PERMISSION_TYPE_FILESYSTEM_READ,
        resource: Vec::new(),
        permission_level: PERMISSION_LEVEL_UNSPECIFIED,
    };
    let mut v: Vec<Permission> = Vec::new();
    v.push(p);
    proof {
        assert(p@.resource =~= Seq::<Seq<char>>::empty());
        assert(permission_views(v@) =~= spec_filesystem_list_files_plugin_permissions());
    }
    v
}

/// The catalog entry of the `list_files` function.
pub fn filesystem_list_files_plugin_function() -> (r: PluginFunction)
    ensures
        r@ == spec_filesystem_list_files_plugin_function(),
{
    PluginFunction {
        function_id: String::from_str("app.sapphillon.core.filesystem.list_files"),
        function_name: String::from_str("fs.list"),
        description: String::from_str("List files in a directory."),
        permissions: filesystem_list_files_plugin_permissions(),
        arguments: String::from_str("String: path"),
        returns: String::from_str("String: content"),
        function_define: None,
    }
}

/// The two sides of the permission check before the `list_files` operation on
/// `path`: the permissions the workflow grants to the function (none when it
/// supplies no grants), and its declared permission pinned to this path.
pub fn filesystem_list_files_permission_request(grants: Option<Vec<FunctionPermissions>>, path: String) -> (r:
    PermissionRequest)
    ensures
        permission_views(r.allowed@) == spec_select_allowed(
            match grants {
                Some(g) => grant_list_views(g@),
                None => Seq::empty(),
            },
            filesystem_list_files_function_id(),
        ),
        permission_views(r.required@) == spec_pin_first_resource(
            spec_filesystem_list_files_plugin_permissions(),
            path@,
        ),
{
    let function_id = String::from_str("app.sapphillon.core.filesystem.list_files");
    let all: Vec<FunctionPermissions> = match grants {
        Some(g) => g,
        None => Vec::new(),
    };
    proof {
        if grants is None {
            assert(grant_list_views(all@) =~= Seq::<FunctionPermissionsView>::empty());
        }
    }
    let allowed = select_allowed(all.as_slice(), function_id.as_str());
    let required = pin_first_resource(filesystem_list_files_plugin_permissions(), path);
    PermissionRequest { allowed, required }
}

/// The catalog entry of the file system package.
pub open spec fn spec_filesystem_plugin_package() -> PluginPackageView {
    PluginPackageView {
        package_id: "app.sapphillon.core.filesystem"@,
        package_name: "Filesystem"@,
        package_version: spec_builtin_package_version(),
        description: "A plugin to read and write text files from the local filesystem."@,
        functions: seq![
            spec_filesystem_read_plugin_function(),
            spec_filesystem_write_plugin_function(),
            spec_filesystem_list_files_plugin_function(),
        ],
        plugin_store_url: "BUILTIN"@,
        internal_plugin: Some(true),
        verified: Some(true),
        deprecated: None,
        installed_at: None,
        updated_at: None,
    }
}

/// The catalog entry of the file system package, as registered at startup.
pub fn filesystem_plugin_package() -> (r: PluginPackage)
    ensures
        r@ == spec_filesystem_plugin_package(),
{
    let mut functions: Vec<PluginFunction> = Vec::new();
    functions.push(filesystem_read_plugin_function());
    functions.push(filesystem_write_plugin_function());
    functions.push(filesystem_list_files_plugin_function());
    let r = PluginPackage {
        package_id: String::from_str("app.sapphillon.core.filesystem"),
        package_name: String::from_str("Filesystem"),
        package_version: builtin_package_version(),
        description: String::from_str("A plugin to read and write text files from the local filesystem."),
        functions,
        plugin_store_url: String::from_str("BUILTIN"),
        internal_plugin: Some(true),
        verified: Some(true),
        deprecated: None,
        installed_at: None,
        updated_at: None,
    };
    proof {
        assert(function_views(r.functions@) =~= seq![
            spec_filesystem_read_plugin_function(),
            spec_filesystem_write_plugin_function(),
            spec_filesystem_list_files_plugin_function(),
        ]);
    }
    r
}

} // verus!
