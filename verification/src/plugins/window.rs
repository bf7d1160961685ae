//! The window plugin: titles of the open windows.
use crate::permission_check::{
    fill_permission_request, grant_list_views, spec_fill_resource, spec_select_allowed,
    FunctionPermissions, PermissionRequest,
};
use crate::plugins::exec::{builtin_package_version, spec_builtin_package_version};
use crate::proto::{
    function_views, new_parameter, parameter_views, permission_views, spec_parameter, FunctionDefine,
    FunctionDefineView, FunctionParameter, Permission, PermissionView, PluginFunction,
    PluginFunctionView, PluginPackage, PluginPackageView, PERMISSION_LEVEL_UNSPECIFIED,
    PERMISSION_TYPE_EXECUTE,
};
use crate::text::strs;
use vstd::prelude::*;

verus! {

/// The id of the active window title function.
pub open spec fn active_window_title_function_id() -> Seq<char> {
    "app.sapphillon.core.window.get_active_window_title"@
}

/// The id of the inactive window titles function.
pub open spec fn inactive_window_titles_function_id() -> Seq<char> {
    "app.sapphillon.core.window.get_inactive_window_titles"@
}

/// The permissions the window plugin's functions declare.
pub open spec fn spec_window_plugin_permissions() -> Seq<PermissionView> {
    seq![
        PermissionView {
            display_name: "Window Access"@,
            description: "Allows the plugin to access window information."@,
            permission_type: PERMISSION_TYPE_EXECUTE,
            resource: Seq::empty(),
            permission_level: PERMISSION_LEVEL_UNSPECIFIED,
        },
    ]
}

/// The permissions the window plugin's functions declare: window access, for
/// any resource.
pub fn window_plugin_permissions() -> (r: Vec<Permission>)
    ensures
        r@.len() == 1,
        permission_views(r@) == spec_window_plugin_permissions(),
{
    let p = Permission {
        display_name: String::from_str("Window Access"),
        description: String::from_str("Allows the plugin to access window information."),
        permission_type: PERMISSION_TYPE_EXECUTE,
        resource: Vec::new(),
        permission_level: PERMISSION_LEVEL_UNSPECIFIED,
    };
    let mut v: Vec<Permission> = Vec::new();
    v.push(p);
    proof {
        assert(p@.resource =~= Seq::<Seq<char>>::empty());
        assert(permission_views(v@) =~= spec_window_plugin_permissions());
    }
    v
}

/// The two sides of the permission check before reading the active window's title: the permissions
/// the workflow grants to the active window title function (none when it supplies no
/// grants), and the declared permissions with no resource filled in.
pub fn active_window_title_permission_request(grants: Option<Vec<FunctionPermissions>>) -> (r:
    PermissionRequest)
    ensures
        permission_views(r.allowed@) == spec_select_allowed(
            match grants {
                Some(g) => grant_list_views(g@),
                None => Seq::empty(),
            },
            active_window_title_function_id(),
        ),
        permission_views(r.required@) == spec_fill_resource(
            spec_window_plugin_permissions(),
            Seq::<char>::empty(),
        ),
{
    let declared = window_plugin_permissions();
    let function_id = String::from_str("app.sapphillon.core.window.get_active_window_title");
    let none = "";
    proof {
        reveal_strlit("");
        assert(none@ =~= Seq::<char>::empty());
    }
    fill_permission_request(grants, function_id.as_str(), declared.as_slice(), none)
}

/// The two sides of the permission check before reading the inactive windows' titles: the permissions
/// the workflow grants to the inactive window titles function (none when it supplies no
/// grants), and the declared permissions with no resource filled in.
pub fn inactive_window_titles_permission_request(grants: Option<Vec<FunctionPermissions>>) -> (r:
    PermissionRequest)
    ensures
        permission_views(r.allowed@) == spec_select_allowed(
            match grants {
                Some(g) => grant_list_views(g@),
                None => Seq::empty(),
            },
            inactive_window_titles_function_id(),
        ),
        permission_views(r.required@) == spec_fill_resource(
            spec_window_plugin_permissions(),
            Seq::<char>::empty(),
        ),
{
    let declared = window_plugin_permissions();
    let function_id = String::from_str("app.sapphillon.core.window.get_inactive_window_titles");
    let none = "";
    proof {
        reveal_strlit("");
        assert(none@ =~= Seq::<char>::empty());
    }
    fill_permission_request(grants, function_id.as_str(), declared.as_slice(), none)
}

/// An open window: its id and its title.
pub struct OpenWindow {
    pub id: u32,
    pub title: String,
}

/// The titles of the open windows other than the active one, in order; all
/// of them when no window is active.
pub open spec fn spec_inactive_window_titles(windows: Seq<OpenWindow>, active: Option<u32>) -> Seq<
    Seq<char>,
>
    decreases windows.len(),
{
    if windows.len() == 0 {
        Seq::empty()
    } else {
        let prev = spec_inactive_window_titles(windows.drop_last(), active);
        let w = windows.last();
        match active {
            Some(a) => if w.id != a {
                prev.push(w.title@)
            } else {
                prev
            },
            None => prev.push(w.title@),
        }
    }
}

/// The titles of the open windows other than the active one (`active` is its
/// id), in order.
pub fn inactive_window_titles(windows: &[OpenWindow], active: Option<u32>) -> (r: Vec<String>)
    ensures
        strs(r@) == spec_inactive_window_titles(windows@, active),
{
    let mut out: Vec<String> = Vec::new();
    let mut k: usize = 0;
    proof {
        assert(strs(out@) =~= spec_inactive_window_titles(windows@.take(0), active));
    }
    while k < windows.len()
        invariant
            k <= windows@.len(),
            strs(out@) == spec_inactive_window_titles(windows@.take(k as int), active),
        decreases windows@.len() - k,
    {
        proof {
            assert(windows@.take(k + 1).drop_last() =~= windows@.take(k as int));
            assert(windows@.take(k + 1).last() == windows@[k as int]);
        }
        let w = &windows[k];
        let keep = match active {
            Some(a) => w.id != a,
            None => true,
        };
        if keep {
            let t = w.title.clone();
            let ghost before = out@;
            out.push(t);
            proof {
                assert(strs(out@) =~= strs(before).push(t@));
            }
        }
        k = k + 1;
    }
    proof {
        assert(windows@.take(windows@.len() as int) =~= windows@);
    }
    out
}

/// The catalog entry of the active window title function.
pub open spec fn spec_get_active_window_title_plugin_function() -> PluginFunctionView {
    PluginFunctionView {
        function_id: active_window_title_function_id(),
        function_name: "Get Active Window Title"@,
        description: "Gets the title of the currently active window."@,
        permissions: spec_window_plugin_permissions(),
        arguments: Seq::empty(),
        returns: Seq::empty(),
        function_define: Some(
            FunctionDefineView {
                parameters: Seq::empty(),
                returns: seq![spec_parameter("title"@, "string"@, "Active window title"@)],
            },
        ),
    }
}

/// The catalog entry of the inactive window titles function.
pub open spec fn spec_get_inactive_window_titles_plugin_function() -> PluginFunctionView {
    PluginFunctionView {
        function_id: inactive_window_titles_function_id(),
        function_name: "Get Inactive Window Titles"@,
        description: "Gets the titles of all inactive windows."@,
        permissions: spec_window_plugin_permissions(),
        arguments: Seq::empty(),
        returns: Seq::empty(),
        function_define: Some(
            FunctionDefineView {
                parameters: Seq::empty(),
                returns: seq![spec_parameter("titles"@, "string[]"@, "List of inactive window titles"@)],
            },
        ),
    }
}

/// The catalog entry of the window package.
pub open spec fn spec_window_plugin_package() -> PluginPackageView {
    PluginPackageView {
        package_id: "app.sapphillon.core.window"@,
        package_name: "Window"@,
        package_version: spec_builtin_package_version(),
        description: "A plugin to manage windows."@,
        functions: seq![
            spec_get_active_window_title_plugin_function(),
            spec_get_inactive_window_titles_plugin_function(),
        ],
        plugin_store_url: "BUILTIN"@,
        internal_plugin: Some(true),
        verified: Some(true),
        deprecated: None,
        installed_at: None,
        updated_at: None,
    }
}

/// The catalog entry of the active window title function: nothing in, the
/// title out.
pub fn get_active_window_title_plugin_function() -> (r: PluginFunction)
    ensures
        r@ == spec_get_active_window_title_plugin_function(),
{
    let parameters: Vec<FunctionParameter> = Vec::new();
    let mut results: Vec<FunctionParameter> = Vec::new();
    results.push(new_parameter("title", "string", "Active window title"));
    let r = PluginFunction {
        function_id: String::from_str("app.sapphillon.core.window.get_active_window_title"),
        function_name: String::from_str("Get Active Window Title"),
        description: String::from_str("Gets the title of the currently active window."),
        permissions: window_plugin_permissions(),
        arguments: String::new(),
        returns: String::new(),
        function_define: Some(FunctionDefine { parameters, returns: results }),
    };
    proof {
        let d = spec_get_active_window_title_plugin_function().function_define->Some_0;
        assert(parameter_views(r.function_define->Some_0.parameters@) =~= d.parameters);
        assert(parameter_views(r.function_define->Some_0.returns@) =~= d.returns);
        assert(r@ =~= spec_get_active_window_title_plugin_function());
    }
    r
}

/// The catalog entry of the inactive window titles function: nothing in, the
/// list of titles out.
pub fn get_inactive_window_titles_plugin_function() -> (r: PluginFunction)
    ensures
        r@ == spec_get_inactive_window_titles_plugin_function(),
{
    let parameters: Vec<FunctionParameter> = Vec::new();
    let mut results: Vec<FunctionParameter> = Vec::new();
    results.push(new_parameter("titles", "string[]", "List of inactive window titles"));
    let r = PluginFunction {
        function_id: String::from_str("app.sapphillon.core.window.get_inactive_window_titles"),
        function_name: String::from_str("Get Inactive Window Titles"),
        description: String::from_str("Gets the titles of all inactive windows."),
        permissions: window_plugin_permissions(),
        arguments: String::new(),
        returns: String::new(),
        function_define: Some(FunctionDefine { parameters, returns: results }),
    };
    proof {
        let d = spec_get_inactive_window_titles_plugin_function().function_define->Some_0;
        assert(parameter_views(r.function_define->Some_0.parameters@) =~= d.parameters);
        assert(parameter_views(r.function_define->Some_0.returns@) =~= d.returns);
        assert(r@ =~= spec_get_inactive_window_titles_plugin_function());
    }
    r
}

/// The catalog entry of the window package, as registered at startup.
pub fn window_plugin_package() -> (r: PluginPackage)
    ensures
        r@ == spec_window_plugin_package(),
{
    let mut functions: Vec<PluginFunction> = Vec::new();
    functions.push(get_active_window_title_plugin_function());
    functions.push(get_inactive_window_titles_plugin_function());
    let r = PluginPackage {
        package_id: String::from_str("app.sapphillon.core.window"),
        package_name: String::from_str("Window"),
        package_version: builtin_package_version(),
        description: String::from_str("A plugin to manage windows."),
        functions,
        plugin_store_url: String::from_str("BUILTIN"),
        internal_plugin: Some(true),
        verified: Some(true),
        deprecated: None,
        installed_at: None,
        updated_at: None,
    };
    proof {
        assert(function_views(r.functions@) =~= seq![
            spec_get_active_window_title_plugin_function(),
            spec_get_inactive_window_titles_plugin_function(),
        ]);
    }
    r
}

} // verus!
