//! The command execution plugin.
use crate::permission_check::{
    grant_list_views, grants_or_own, pin_first_resource, select_allowed, spec_pin_first_resource,
    spec_select_allowed, FunctionPermissions, FunctionPermissionsView, PermissionRequest,
};
use crate::proto::{
    function_views, permission_views, Permission, PermissionView, PluginFunction,
    PluginFunctionView, PluginPackage, PluginPackageView, PERMISSION_LEVEL_UNSPECIFIED,
    PERMISSION_TYPE_EXECUTE,
};
use vstd::prelude::*;

verus! {

/// The version the builtin plugin packages report: this library's version.
pub open spec fn spec_builtin_package_version() -> Seq<char> {
    "0.1.0"@
}

/// The version the builtin plugin packages report.
pub fn builtin_package_version() -> (r: String)
    ensures
        r@ == spec_builtin_package_version(),
{
    String::from_str("0.1.0")
}

/// The id of the command execution function.
pub open spec fn exec_function_id() -> Seq<char> {
    "app.sapphillon.core.exec.exec"@
}

/// The permissions the command execution function declares.
pub open spec fn spec_exec_plugin_permissions() -> Seq<PermissionView> {
    seq![
        PermissionView {
            display_name: "Command Access"@,
            description: "Allows the plugin to execute shell commands."@,
            permission_type: PERMISSION_TYPE_EXECUTE,
            resource: Seq::empty(),
            permission_level: PERMISSION_LEVEL_UNSPECIFIED,
        },
    ]
}

/// The catalog entry of the command execution function.
pub open spec fn spec_exec_plugin_function() -> PluginFunctionView {
    PluginFunctionView {
        function_id: exec_function_id(),
        function_name: "Exec"@,
        description: "Executes a command in the default shell and returns its output."@,
        permissions: spec_exec_plugin_permissions(),
        arguments: "String: command"@,
        returns: "String: output"@,
        function_define: None,
    }
}

/// The catalog entry of the command execution package.
pub open spec fn spec_exec_plugin_package() -> PluginPackageView {
    PluginPackageView {
        package_id: "app.sapphillon.core.exec"@,
        package_name: "Exec"@,
        package_version: spec_builtin_package_version(),
        description: "A plugin to execute shell commands."@,
        functions: seq![spec_exec_plugin_function()],
        plugin_store_url: "BUILTIN"@,
        internal_plugin: Some(true),
        verified: Some(true),
        deprecated: None,
        installed_at: None,
        updated_at: None,
    }
}

/// The permissions the command execution function declares: command access,
/// for any command.
pub fn exec_plugin_permissions() -> (r: Vec<Permission>)
    ensures
        r@.len() == 1,
        permission_views(r@) == spec_exec_plugin_permissions(),
{
    let p = Permission {
        display_name: String::from_str("Command Access"),
        description: String::from_str("Allows the plugin to execute shell commands."),
        permission_type: PERMISSION_TYPE_EXECUTE,
        resource: Vec::new(),
        permission_level: PERMISSION_LEVEL_UNSPECIFIED,
    };
    let mut v: Vec<Permission> = Vec::new();
    v.push(p);
    proof {
        assert(p@.resource =~= Seq::<Seq<char>>::empty());
        assert(permission_views(v@) =~= spec_exec_plugin_permissions());
    }
    v
}

/// The catalog entry of the command execution function.
pub fn exec_plugin_function() -> (r: PluginFunction)
    ensures
        r@ == spec_exec_plugin_function(),
{
    PluginFunction {
        function_id: String::from_str("app.sapphillon.core.exec.exec"),
        function_name: String::from_str("Exec"),
        description: String::from_str(
            "Executes a command in the default shell and returns its output.",
        ),
        permissions: exec_plugin_permissions(),
        arguments: String::from_str("String: command"),
        returns: String::from_str("String: output"),
        function_define: None,
    }
}

/// The catalog entry of the command execution package, as registered at
/// startup.
pub fn exec_plugin_package() -> (r: PluginPackage)
    ensures
        r@ == spec_exec_plugin_package(),
{
    let mut functions: Vec<PluginFunction> = Vec::new();
    functions.push(exec_plugin_function());
    let r = PluginPackage {
        package_id: String::from_str("app.sapphillon.core.exec"),
        package_name: String::from_str("Exec"),
        package_version: builtin_package_version(),
        description: String::from_str("A plugin to execute shell commands."),
        functions,
        plugin_store_url: String::from_str("BUILTIN"),
        internal_plugin: Some(true),
        verified: Some(true),
        deprecated: None,
        installed_at: None,
        updated_at: None,
    };
    proof {
        assert(function_views(r.functions@) =~= seq![spec_exec_plugin_function()]);
    }
    r
}

/// The grants the command execution check reads: the workflow's, or when it
/// has none, command access granted to the function itself.
pub open spec fn spec_exec_grants(grants: Option<Seq<FunctionPermissionsView>>) -> Seq<
    FunctionPermissionsView,
> {
    match grants {
        Some(g) => g,
        None => seq![
            FunctionPermissionsView {
                plugin_function_id: exec_function_id(),
                permissions: spec_exec_plugin_permissions(),
            },
        ],
    }
}

/// The two sides of the permission check before running `command`: the
/// permissions granted to the command execution function (see
/// [`spec_exec_grants`]), and command access pinned to this command.
pub fn exec_permission_request(grants: Option<Vec<FunctionPermissions>>, command: String) -> (r:
    PermissionRequest)
    ensures
        permission_views(r.allowed@) == spec_select_allowed(
            spec_exec_grants(
                match grants {
                    Some(g) => Some(grant_list_views(g@)),
                    None => None,
                },
            ),
            exec_function_id(),
        ),
        permission_views(r.required@) == spec_pin_first_resource(
            spec_exec_plugin_permissions(),
            command@,
        ),
{
    let function_id = String::from_str("app.sapphillon.core.exec.exec");
    let all = grants_or_own(grants, function_id.clone(), exec_plugin_permissions());
    let allowed = select_allowed(all.as_slice(), function_id.as_str());
    let required = pin_first_resource(exec_plugin_permissions(), command);
    PermissionRequest { allowed, required }
}

} // verus!
