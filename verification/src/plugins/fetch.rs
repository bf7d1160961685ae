//! The network fetch plugin: GET and POST requests.
use crate::permission_check::{
    fill_permission_request, grant_list_views, spec_fill_resource, spec_select_allowed,
    FunctionPermissions, PermissionRequest,
};
use crate::plugins::exec::{builtin_package_version, spec_builtin_package_version};
use crate::proto::{
    function_views, new_parameter, parameter_views, permission_views, spec_parameter, FunctionDefine,
    FunctionDefineView, FunctionParameter, Permission, PermissionView, PluginFunction,
    PluginFunctionView, PluginPackage, PluginPackageView, PERMISSION_LEVEL_UNSPECIFIED,
    PERMISSION_TYPE_NET_ACCESS,
};
use vstd::prelude::*;

verus! {

/// The id of the fetch function.
pub open spec fn fetch_function_id() -> Seq<char> {
    "app.sapphillon.core.fetch.fetch"@
}

/// The id of the post function.
pub open spec fn post_function_id() -> Seq<char> {
    "app.sapphillon.core.fetch.post"@
}

/// The permissions the fetch plugin's functions declare.
pub open spec fn spec_fetch_plugin_permissions() -> Seq<PermissionView> {
    seq![
        PermissionView {
            display_name: "Network Access"@,
            description: "Allows the plugin to make network requests."@,
            permission_type: PERMISSION_TYPE_NET_ACCESS,
            resource: Seq::empty(),
            permission_level: PERMISSION_LEVEL_UNSPECIFIED,
        },
    ]
}

/// The permissions the fetch plugin's functions declare: network access, for
/// any resource.
pub fn fetch_plugin_permissions() -> (r: Vec<Permission>)
    ensures
        r@.len() == 1,
        permission_views(r@) == spec_fetch_plugin_permissions(),
{
    let p = Permission {
        display_name: String::from_str("Network Access"),
        description: String::from_str("Allows the plugin to make network requests."),
        permission_type: PERMISSION_TYPE_NET_ACCESS,
        resource: Vec::new(),
        permission_level: PERMISSION_LEVEL_UNSPECIFIED,
    };
    let mut v: Vec<Permission> = Vec::new();
    v.push(p);
    proof {
        assert(p@.resource =~= Seq::<Seq<char>>::empty());
        assert(permission_views(v@) =~= spec_fetch_plugin_permissions());
    }
    v
}

/// The two sides of the permission check before fetching `url`: the permissions
/// the workflow grants to the fetch function (none when it supplies no
/// grants), and the declared permissions with `url` filled in.
pub fn fetch_permission_request(grants: Option<Vec<FunctionPermissions>>, url: &str) -> (r:
    PermissionRequest)
    ensures
        permission_views(r.allowed@) == spec_select_allowed(
            match grants {
                Some(g) => grant_list_views(g@),
                None => Seq::empty(),
            },
            fetch_function_id(),
        ),
        permission_views(r.required@) == spec_fill_resource(
            spec_fetch_plugin_permissions(),
            url@,
        ),
{
    let declared = fetch_plugin_permissions();
    let function_id = String::from_str("app.sapphillon.core.fetch.fetch");
    fill_permission_request(grants, function_id.as_str(), declared.as_slice(), url)
}

/// The two sides of the permission check before posting to `url`: the permissions
/// the workflow grants to the post function (none when it supplies no
/// grants), and the declared permissions with `url` filled in.
pub fn post_permission_request(grants: Option<Vec<FunctionPermissions>>, url: &str) -> (r:
    PermissionRequest)
    ensures
        permission_views(r.allowed@) == spec_select_allowed(
            match grants {
                Some(g) => grant_list_views(g@),
                None => Seq::empty(),
            },
            post_function_id(),
        ),
        permission_views(r.required@) == spec_fill_resource(
            spec_fetch_plugin_permissions(),
            url@,
        ),
{
    let declared = fetch_plugin_permissions();
    let function_id = String::from_str("app.sapphillon.core.fetch.post");
    fill_permission_request(grants, function_id.as_str(), declared.as_slice(), url)
}

/// The catalog entry of the post function.
pub open spec fn spec_post_plugin_function() -> PluginFunctionView {
    PluginFunctionView {
        function_id: post_function_id(),
        function_name: "Post"@,
        description: "Posts the content of a URL using reqwest and returns it as a string."@,
        permissions: spec_fetch_plugin_permissions(),
        arguments: Seq::empty(),
        returns: Seq::empty(),
        function_define: Some(
            FunctionDefineView {
                parameters: seq![
                    spec_parameter("url"@, "string"@, "Target URL"@),
                    spec_parameter("body"@, "string"@, "Request body"@),
                ],
                returns: seq![spec_parameter("content"@, "string"@, "Response body as string"@)],
            },
        ),
    }
}

/// The catalog entry of the fetch function.
pub open spec fn spec_fetch_plugin_function() -> PluginFunctionView {
    PluginFunctionView {
        function_id: fetch_function_id(),
        function_name: "Fetch"@,
        description: "Fetches the content of a URL using reqwest and returns it as a string."@,
        permissions: spec_fetch_plugin_permissions(),
        arguments: Seq::empty(),
        returns: Seq::empty(),
        function_define: Some(
            FunctionDefineView {
                parameters: seq![spec_parameter("url"@, "string"@, "Target URL"@)],
                returns: seq![spec_parameter("content"@, "string"@, "Response body as string"@)],
            },
        ),
    }
}

/// The catalog entry of the fetch package. It lists the fetch function only.
pub open spec fn spec_fetch_plugin_package() -> PluginPackageView {
    PluginPackageView {
        package_id: "app.sapphillon.core.fetch"@,
        package_name: "Fetch"@,
        package_version: spec_builtin_package_version(),
        description: "A plugin to fetch the content of a URL."@,
        functions: seq![spec_fetch_plugin_function()],
        plugin_store_url: "BUILTIN"@,
        internal_plugin: Some(true),
        verified: Some(true),
        deprecated: None,
        installed_at: None,
        updated_at: None,
    }
}

/// The catalog entry of the post function: a URL and a body in, the response
/// body out.
pub fn post_plugin_function() -> (r: PluginFunction)
    ensures
        r@ == spec_post_plugin_function(),
{
    let mut parameters: Vec<FunctionParameter> = Vec::new();
    parameters.push(new_parameter("url", "string", "Target URL"));
    parameters.push(new_parameter("body", "string", "Request body"));
    let mut results: Vec<FunctionParameter> = Vec::new();
    results.push(new_parameter("content", "string", "Response body as string"));
    let r = PluginFunction {
        function_id: String::from_str("app.sapphillon.core.fetch.post"),
        function_name: String::from_str("Post"),
        description: String::from_str(
            "Posts the content of a URL using reqwest and returns it as a string.",
        ),
        permissions: fetch_plugin_permissions(),
        arguments: String::new(),
        returns: String::new(),
        function_define: Some(FunctionDefine { parameters, returns: results }),
    };
    proof {
        let d = spec_post_plugin_function().function_define->Some_0;
        assert(parameter_views(r.function_define->Some_0.parameters@) =~= d.parameters);
        assert(parameter_views(r.function_define->Some_0.returns@) =~= d.returns);
        assert(r@ =~= spec_post_plugin_function());
    }
    r
}

/// The catalog entry of the fetch function: a URL in, the response body out.
pub fn fetch_plugin_function() -> (r: PluginFunction)
    ensures
        r@ == spec_fetch_plugin_function(),
{
    let mut parameters: Vec<FunctionParameter> = Vec::new();
    parameters.push(new_parameter("url", "string", "Target URL"));
    let mut results: Vec<FunctionParameter> = Vec::new();
    results.push(new_parameter("content", "string", "Response body as string"));
    let r = PluginFunction {
        function_id: String::from_str("app.sapphillon.core.fetch.fetch"),
        function_name: String::from_str("Fetch"),
        description: String::from_str(
            "Fetches the content of a URL using reqwest and returns it as a string.",
        ),
        permissions: fetch_plugin_permissions(),
        arguments: String::new(),
        returns: String::new(),
        function_define: Some(FunctionDefine { parameters, returns: results }),
    };
    proof {
        let d = spec_fetch_plugin_function().function_define->Some_0;
        assert(parameter_views(r.function_define->Some_0.parameters@) =~= d.parameters);
        assert(parameter_views(r.function_define->Some_0.returns@) =~= d.returns);
        assert(r@ =~= spec_fetch_plugin_function());
    }
    r
}

/// The catalog entry of the fetch package, as registered at startup.
pub fn fetch_plugin_package() -> (r: PluginPackage)
    ensures
        r@ == spec_fetch_plugin_package(),
{
    let mut functions: Vec<PluginFunction> = Vec::new();
    functions.push(fetch_plugin_function());
    let r = PluginPackage {
        package_id: String::from_str("app.sapphillon.core.fetch"),
        package_name: String::from_str("Fetch"),
        package_version: builtin_package_version(),
        description: String::from_str("A plugin to fetch the content of a URL."),
        functions,
        plugin_store_url: String::from_str("BUILTIN"),
        internal_plugin: Some(true),
        verified: Some(true),
        deprecated: None,
        installed_at: None,
        updated_at: None,
    };
    proof {
        assert(function_views(r.functions@) =~= seq![spec_fetch_plugin_function()]);
    }
    r
}

} // verus!
