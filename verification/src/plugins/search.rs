//! The file search plugin.
use crate::permission_check::{
    fill_permission_request, grant_list_views, spec_fill_resource, spec_select_allowed,
    FunctionPermissions, PermissionRequest,
};
use crate::plugins::exec::{builtin_package_version, spec_builtin_package_version};
use crate::proto::{
    function_views, new_parameter, parameter_views, permission_views, spec_parameter, FunctionDefine,
    FunctionDefineView, FunctionParameter, Permission, PermissionView, PluginFunction,
    PluginFunctionView, PluginPackage, PluginPackageView, PERMISSION_LEVEL_UNSPECIFIED,
    PERMISSION_TYPE_EXECUTE,
};
use vstd::prelude::*;

verus! {

/// The id of the file search function.
pub open spec fn search_file_function_id() -> Seq<char> {
    "app.sapphillon.core.search.file"@
}

/// The permissions the search plugin's functions declare.
pub open spec fn spec_search_plugin_permissions() -> Seq<PermissionView> {
    seq![
        PermissionView {
            display_name: "Execute"@,
            description: "Allows the plugin to execute commands."@,
            permission_type: PERMISSION_TYPE_EXECUTE,
            resource: Seq::empty(),
            permission_level: PERMISSION_LEVEL_UNSPECIFIED,
        },
    ]
}

/// The permissions the search plugin's functions declare: execute, for
/// any resource.
pub fn search_plugin_permissions() -> (r: Vec<Permission>)
    ensures
        r@.len() == 1,
        permission_views(r@) == spec_search_plugin_permissions(),
{
    let p = Permission {
        display_name: String::from_str("Execute"),
        description: String::from_str("Allows the plugin to execute commands."),
        permission_type: PERMISSION_TYPE_EXECUTE,
        resource: Vec::new(),
        permission_level: PERMISSION_LEVEL_UNSPECIFIED,
    };
    let mut v: Vec<Permission> = Vec::new();
    v.push(p);
    proof {
        assert(p@.resource =~= Seq::<Seq<char>>::empty());
        assert(permission_views(v@) =~= spec_search_plugin_permissions());
    }
    v
}

/// The two sides of the permission check before searching under `root_path`: the permissions
/// the workflow grants to the file search function (none when it supplies no
/// grants), and the declared permissions with `root_path` filled in.
pub fn search_file_permission_request(grants: Option<Vec<FunctionPermissions>>, root_path: &str) -> (r:
    PermissionRequest)
    ensures
        permission_views(r.allowed@) == spec_select_allowed(
            match grants {
                Some(g) => grant_list_views(g@),
                None => Seq::empty(),
            },
            search_file_function_id(),
        ),
        permission_views(r.required@) == spec_fill_resource(
            spec_search_plugin_permissions(),
            root_path@,
        ),
{
    let declared = search_plugin_permissions();
    let function_id = String::from_str("app.sapphillon.core.search.file");
    fill_permission_request(grants, function_id.as_str(), declared.as_slice(), root_path)
}

/// A file search backend, known by its name.
pub struct FileSearcher {
    pub name: String,
}

/// The name of the portable backend that walks the directory tree.
pub open spec fn walkdir_searcher_name() -> Seq<char> {
    "walkdir"@
}

/// The backend to search with: the operating system's search service when
/// one is available, otherwise the portable directory walk.
pub fn select_searcher(platform: Option<FileSearcher>) -> (r: FileSearcher)
    ensures
        match platform {
            Some(p) => r == p,
            None => r.name@ == walkdir_searcher_name(),
        },
{
    match platform {
        Some(p) => p,
        None => FileSearcher { name: String::from_str("walkdir") },
    }
}

/// The search backend in use. No operating-system search service is built
/// into this library, so the portable directory walk is used.
pub fn get_searcher() -> (r: FileSearcher)
    ensures
        r.name@ == walkdir_searcher_name(),
{
    select_searcher(None)
}

/// The name of the search backend in use; never empty.
pub fn get_active_searcher_name() -> (r: String)
    ensures
        r@ == walkdir_searcher_name(),
        r@.len() > 0,
{
    proof {
        reveal_strlit("walkdir");
    }
    get_searcher().name
}

/// The catalog entry of the file search function.
pub open spec fn spec_search_plugin_function() -> PluginFunctionView {
    PluginFunctionView {
        function_id: search_file_function_id(),
        function_name: "search.file"@,
        description: "Searches for files on the local filesystem using native OS search APIs."@,
        permissions: spec_search_plugin_permissions(),
        arguments: Seq::empty(),
        returns: Seq::empty(),
        function_define: Some(
            FunctionDefineView {
                parameters: seq![
                    spec_parameter("root_path"@, "string"@, "Root directory to search"@),
                    spec_parameter("query"@, "string"@, "Search query"@),
                ],
                returns: seq![spec_parameter("results"@, "string"@, "JSON array of file paths"@)],
            },
        ),
    }
}

/// The description of the search package.
pub open spec fn search_package_description() -> Seq<char> {
    "A plugin to search for files on the local filesystem using native OS search APIs (Windows Search/Everything, macOS Spotlight, Linux Tracker/Baloo)."@
}

/// The catalog entry of the search package.
pub open spec fn spec_search_plugin_package() -> PluginPackageView {
    PluginPackageView {
        package_id: "app.sapphillon.core.search"@,
        package_name: "Search"@,
        package_version: spec_builtin_package_version(),
        description: search_package_description(),
        functions: seq![spec_search_plugin_function()],
        plugin_store_url: "BUILTIN"@,
        internal_plugin: Some(true),
        verified: Some(true),
        deprecated: None,
        installed_at: None,
        updated_at: None,
    }
}

/// The catalog entry of the file search function: a root directory and a
/// query in, a JSON array of paths out.
pub fn search_plugin_function() -> (r: PluginFunction)
    ensures
        r@ == spec_search_plugin_function(),
{
    let mut parameters: Vec<FunctionParameter> = Vec::new();
    parameters.push(new_parameter("root_path", "string", "Root directory to search"));
    parameters.push(new_parameter("query", "string", "Search query"));
    let mut results: Vec<FunctionParameter> = Vec::new();
    results.push(new_parameter("results", "string", "JSON array of file paths"));
    let r = PluginFunction {
        function_id: String::from_str("app.sapphillon.core.search.file"),
        function_name: String::from_str("search.file"),
        description: String::from_str(
            "Searches for files on the local filesystem using native OS search APIs.",
        ),
        permissions: search_plugin_permissions(),
        arguments: String::new(),
        returns: String::new(),
        function_define: Some(FunctionDefine { parameters, returns: results }),
    };
    proof {
        let d = spec_search_plugin_function().function_define->Some_0;
        assert(parameter_views(r.function_define->Some_0.parameters@) =~= d.parameters);
        assert(parameter_views(r.function_define->Some_0.returns@) =~= d.returns);
        assert(r@ =~= spec_search_plugin_function());
    }
    r
}

/// The catalog entry of the search package, as registered at startup.
pub fn search_plugin_package() -> (r: PluginPackage)
    ensures
        r@ == spec_search_plugin_package(),
{
    let mut functions: Vec<PluginFunction> = Vec::new();
    functions.push(search_plugin_function());
    let r = PluginPackage {
        package_id: String::from_str("app.sapphillon.core.search"),
        package_name: String::from_str("Search"),
        package_version: builtin_package_version(),
        description: String::from_str(
            "A plugin to search for files on the local filesystem using native OS search APIs (Windows Search/Everything, macOS Spotlight, Linux Tracker/Baloo).",
        ),
        functions,
        plugin_store_url: String::from_str("BUILTIN"),
        internal_plugin: Some(true),
        verified: Some(true),
        deprecated: None,
        installed_at: None,
        updated_at: None,
    };
    proof {
        assert(function_views(r.functions@) =~= seq![spec_search_plugin_function()]);
    }
    r
}

} // verus!
