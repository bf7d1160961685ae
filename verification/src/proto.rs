//! The protocol messages that the service exchanges, as plain values.
use crate::text::{clone_strings, opt_str, strs};
use crate::timestamp::ProtoTimestamp;
use vstd::prelude::*;

verus! {

/// `PermissionLevel::Unspecified`.
pub const PERMISSION_LEVEL_UNSPECIFIED: i32 = 0;

/// `PermissionLevel::Low`.
pub const PERMISSION_LEVEL_LOW: i32 = 1;

/// `PermissionLevel::Medium`.
pub const PERMISSION_LEVEL_MEDIUM: i32 = 2;

/// `PermissionLevel::High`.
pub const PERMISSION_LEVEL_HIGH: i32 = 3;

/// `PermissionType::Unspecified`.
pub const PERMISSION_TYPE_UNSPECIFIED: i32 = 0;

/// `PermissionType::Execute`.
pub const PERMISSION_TYPE_EXECUTE: i32 = 1;

/// `PermissionType::FilesystemRead`.
pub const PERMISSION_TYPE_FILESYSTEM_READ: i32 = 2;

/// `PermissionType::FilesystemWrite`.
pub const PERMISSION_TYPE_FILESYSTEM_WRITE: i32 = 3;

/// `PermissionType::NetAccess`.
pub const PERMISSION_TYPE_NET_ACCESS: i32 = 4;

/// `WorkflowResultType::SuccessUnspecified`.
pub const WORKFLOW_RESULT_TYPE_SUCCESS_UNSPECIFIED: i32 = 0;

/// `WorkflowLanguage::Unspecified`.
pub const WORKFLOW_LANGUAGE_UNSPECIFIED: i32 = 0;

/// The `ai.v1.Models` message: a language model offered by a provider.
#[derive(Clone, Debug, PartialEq, Eq)]
pub struct ProtoModel {
    pub name: String,
    pub display_name: String,
    pub description: Option<String>,
    pub provider_name: String,
}

/// The value of [`ProtoModel`], with strings as character sequences.
#[verifier::ext_equal]
pub struct ProtoModelView {
    pub name: Seq<char>,
    pub display_name: Seq<char>,
    pub description: Option<Seq<char>>,
    pub provider_name: Seq<char>,
}

impl View for ProtoModel {
    type V = ProtoModelView;

    open spec fn view(&self) -> ProtoModelView {
        ProtoModelView {
            name: self.name@,
            display_name: self.display_name@,
            description: opt_str(self.description),
            provider_name: self.provider_name@,
        }
    }
}

/// The `ai.v1.Provider` message: an AI service endpoint.
#[derive(Clone, Debug, PartialEq, Eq)]
pub struct ProtoProvider {
    pub name: String,
    pub display_name: String,
    pub api_key: String,
    pub api_endpoint: String,
}

/// The value of [`ProtoProvider`], with strings as character sequences.
#[verifier::ext_equal]
pub struct ProtoProviderView {
    pub name: Seq<char>,
    pub display_name: Seq<char>,
    pub api_key: Seq<char>,
    pub api_endpoint: Seq<char>,
}

impl View for ProtoProvider {
    type V = ProtoProviderView;

    open spec fn view(&self) -> ProtoProviderView {
        ProtoProviderView {
            name: self.name@,
            display_name: self.display_name@,
            api_key: self.api_key@,
            api_endpoint: self.api_endpoint@,
        }
    }
}

/// The `v1.Permission` message.
#[derive(Clone, Debug, PartialEq, Eq)]
pub struct Permission {
    pub display_name: String,
    pub description: String,
    pub permission_type: i32,
    pub resource: Vec<String>,
    pub permission_level: i32,
}

/// The value of [`Permission`], with strings as character sequences.
#[verifier::ext_equal]
pub struct PermissionView {
    pub display_name: Seq<char>,
    pub description: Seq<char>,
    pub permission_type: i32,
    pub resource: Seq<Seq<char>>,
    pub permission_level: i32,
}

impl View for Permission {
    type V = PermissionView;

    open spec fn view(&self) -> PermissionView {
        PermissionView {
            display_name: self.display_name@,
            description: self.description@,
            permission_type: self.permission_type,
            resource: strs(self.resource@),
            permission_level: self.permission_level,
        }
    }
}

/// The `v1.FunctionParameter` message: one named, typed parameter or result of a function.
#[derive(Clone, Debug, PartialEq, Eq)]
pub struct FunctionParameter {
    pub name: String,
    pub param_type: String,
    pub description: String,
}

/// The value of [`FunctionParameter`], with strings as character sequences.
#[verifier::ext_equal]
pub struct FunctionParameterView {
    pub name: Seq<char>,
    pub param_type: Seq<char>,
    pub description: Seq<char>,
}

impl View for FunctionParameter {
    type V = FunctionParameterView;

    open spec fn view(&self) -> FunctionParameterView {
        FunctionParameterView {
            name: self.name@,
            param_type: self.param_type@,
            description: self.description@,
        }
    }
}

/// The `v1.FunctionDefine` message: what a function takes and what it gives back.
#[derive(Clone, Debug, PartialEq, Eq)]
pub struct FunctionDefine {
    pub parameters: Vec<FunctionParameter>,
    pub returns: Vec<FunctionParameter>,
}

/// The value of [`FunctionDefine`].
#[verifier::ext_equal]
pub struct FunctionDefineView {
    pub parameters: Seq<FunctionParameterView>,
    pub returns: Seq<FunctionParameterView>,
}

impl View for FunctionDefine {
    type V = FunctionDefineView;

    open spec fn view(&self) -> FunctionDefineView {
        FunctionDefineView {
            parameters: parameter_views(self.parameters@),
            returns: parameter_views(self.returns@),
        }
    }
}

/// The values of a list of [`FunctionParameter`].
pub open spec fn parameter_views(v: Seq<FunctionParameter>) -> Seq<FunctionParameterView> {
    v.map_values(|x: FunctionParameter| x@)
}

/// The value of a parameter with the given name, type and description.
pub open spec fn spec_parameter(
    name: Seq<char>,
    param_type: Seq<char>,
    description: Seq<char>,
) -> FunctionParameterView {
    FunctionParameterView { name, param_type, description }
}

/// A parameter with the given name, type and description.
pub fn new_parameter(name: &str, param_type: &str, description: &str) -> (r: FunctionParameter)
    ensures
        r@ == spec_parameter(name@, param_type@, description@),
{
    FunctionParameter {
        name: String::from_str(name),
        param_type: String::from_str(param_type),
        description: String::from_str(description),
    }
}

/// The value of an optional [`FunctionDefine`].
pub open spec fn define_view(d: Option<FunctionDefine>) -> Option<FunctionDefineView> {
    match d {
        Some(x) => Some(x@),
        None => None,
    }
}

/// The `v1.PluginFunction` message.
#[derive(Clone, Debug, PartialEq, Eq)]
pub struct PluginFunction {
    pub function_id: String,
    pub function_name: String,
    pub description: String,
    pub permissions: Vec<Permission>,
    pub arguments: String,
    pub returns: String,
    pub function_define: Option<FunctionDefine>,
}

/// The value of [`PluginFunction`], with strings as character sequences.
#[verifier::ext_equal]
pub struct PluginFunctionView {
    pub function_id: Seq<char>,
    pub function_name: Seq<char>,
    pub description: Seq<char>,
    pub permissions: Seq<PermissionView>,
    pub arguments: Seq<char>,
    pub returns: Seq<char>,
    pub function_define: Option<FunctionDefineView>,
}

impl View for PluginFunction {
    type V = PluginFunctionView;

    open spec fn view(&self) -> PluginFunctionView {
        PluginFunctionView {
            function_id: self.function_id@,
            function_name: self.function_name@,
            description: self.description@,
            permissions: permission_views(self.permissions@),
            arguments: self.arguments@,
            returns: self.returns@,
            function_define: define_view(self.function_define),
        }
    }
}

/// The `v1.PluginPackage` message.
#[derive(Clone, Debug, PartialEq, Eq)]
pub struct PluginPackage {
    pub package_id: String,
    pub package_name: String,
    pub package_version: String,
    pub description: String,
    pub functions: Vec<PluginFunction>,
    pub plugin_store_url: String,
    pub internal_plugin: Option<bool>,
    pub verified: Option<bool>,
    pub deprecated: Option<bool>,
    pub installed_at: Option<ProtoTimestamp>,
    pub updated_at: Option<ProtoTimestamp>,
}

/// The value of [`PluginPackage`], with strings as character sequences.
#[verifier::ext_equal]
pub struct PluginPackageView {
    pub package_id: Seq<char>,
    pub package_name: Seq<char>,
    pub package_version: Seq<char>,
    pub description: Seq<char>,
    pub functions: Seq<PluginFunctionView>,
    pub plugin_store_url: Seq<char>,
    pub internal_plugin: Option<bool>,
    pub verified: Option<bool>,
    pub deprecated: Option<bool>,
    pub installed_at: Option<ProtoTimestamp>,
    pub updated_at: Option<ProtoTimestamp>,
}

impl View for PluginPackage {
    type V = PluginPackageView;

    open spec fn view(&self) -> PluginPackageView {
        PluginPackageView {
            package_id: self.package_id@,
            package_name: self.package_name@,
            package_version: self.package_version@,
            description: self.description@,
            functions: function_views(self.functions@),
            plugin_store_url: self.plugin_store_url@,
            internal_plugin: self.internal_plugin,
            verified: self.verified,
            deprecated: self.deprecated,
            installed_at: self.installed_at,
            updated_at: self.updated_at,
        }
    }
}

/// The `v1.AllowedPermission` message: the permissions granted to one plugin function.
#[derive(Clone, Debug, PartialEq, Eq)]
pub struct AllowedPermission {
    pub plugin_function_id: String,
    pub permissions: Vec<Permission>,
}

/// The value of [`AllowedPermission`], with strings as character sequences.
#[verifier::ext_equal]
pub struct AllowedPermissionView {
    pub plugin_function_id: Seq<char>,
    pub permissions: Seq<PermissionView>,
}

impl View for AllowedPermission {
    type V = AllowedPermissionView;

    open spec fn view(&self) -> AllowedPermissionView {
        AllowedPermissionView {
            plugin_function_id: self.plugin_function_id@,
            permissions: permission_views(self.permissions@),
        }
    }
}

/// The `v1.WorkflowResult` message.
#[derive(Clone, Debug, PartialEq, Eq)]
pub struct WorkflowResult {
    pub id: String,
    pub display_name: String,
    pub description: String,
    pub result: String,
    pub ran_at: Option<ProtoTimestamp>,
    pub result_type: i32,
    pub exit_code: i32,
    pub workflow_result_revision: i32,
}

/// The value of [`WorkflowResult`], with strings as character sequences.
#[verifier::ext_equal]
pub struct WorkflowResultView {
    pub id: Seq<char>,
    pub display_name: Seq<char>,
    pub description: Seq<char>,
    pub result: Seq<char>,
    pub ran_at: Option<ProtoTimestamp>,
    pub result_type: i32,
    pub exit_code: i32,
    pub workflow_result_revision: i32,
}

impl View for WorkflowResult {
    type V = WorkflowResultView;

    open spec fn view(&self) -> WorkflowResultView {
        WorkflowResultView {
            id: self.id@,
            display_name: self.display_name@,
            description: self.description@,
            result: self.result@,
            ran_at: self.ran_at,
            result_type: self.result_type,
            exit_code: self.exit_code,
            workflow_result_revision: self.workflow_result_revision,
        }
    }
}

/// The `v1.WorkflowCode` message.
#[derive(Clone, Debug, PartialEq, Eq)]
pub struct WorkflowCode {
    pub id: String,
    pub code_revision: i32,
    pub code: String,
    pub language: i32,
    pub created_at: Option<ProtoTimestamp>,
    pub result: Vec<WorkflowResult>,
    pub plugin_packages: Vec<PluginPackage>,
    pub plugin_function_ids: Vec<String>,
    pub allowed_permissions: Vec<AllowedPermission>,
}

/// The value of [`WorkflowCode`], with strings as character sequences.
#[verifier::ext_equal]
pub struct WorkflowCodeView {
    pub id: Seq<char>,
    pub code_revision: i32,
    pub code: Seq<char>,
    pub language: i32,
    pub created_at: Option<ProtoTimestamp>,
    pub result: Seq<WorkflowResultView>,
    pub plugin_packages: Seq<PluginPackageView>,
    pub plugin_function_ids: Seq<Seq<char>>,
    pub allowed_permissions: Seq<AllowedPermissionView>,
}

impl View for WorkflowCode {
    type V = WorkflowCodeView;

    open spec fn view(&self) -> WorkflowCodeView {
        WorkflowCodeView {
            id: self.id@,
            code_revision: self.code_revision,
            code: self.code@,
            language: self.language,
            created_at: self.created_at,
            result: result_views(self.result@),
            plugin_packages: package_views(self.plugin_packages@),
            plugin_function_ids: strs(self.plugin_function_ids@),
            allowed_permissions: allowed_views(self.allowed_permissions@),
        }
    }
}

/// The `v1.Workflow` message.
#[derive(Clone, Debug, PartialEq, Eq)]
pub struct Workflow {
    pub id: String,
    pub display_name: String,
    pub description: String,
    pub workflow_language: i32,
    pub workflow_code: Vec<WorkflowCode>,
    pub created_at: Option<ProtoTimestamp>,
    pub updated_at: Option<ProtoTimestamp>,
    pub workflow_results: Vec<WorkflowResult>,
}

/// The value of [`Workflow`], with strings as character sequences.
#[verifier::ext_equal]
pub struct WorkflowView {
    pub id: Seq<char>,
    pub display_name: Seq<char>,
    pub description: Seq<char>,
    pub workflow_language: i32,
    pub workflow_code: Seq<WorkflowCodeView>,
    pub created_at: Option<ProtoTimestamp>,
    pub updated_at: Option<ProtoTimestamp>,
    pub workflow_results: Seq<WorkflowResultView>,
}

impl View for Workflow {
    type V = WorkflowView;

    open spec fn view(&self) -> WorkflowView {
        WorkflowView {
            id: self.id@,
            display_name: self.display_name@,
            description: self.description@,
            workflow_language: self.workflow_language,
            workflow_code: code_views(self.workflow_code@),
            created_at: self.created_at,
            updated_at: self.updated_at,
            workflow_results: result_views(self.workflow_results@),
        }
    }
}

/// The values of a list of [`Permission`].
pub open spec fn permission_views(v: Seq<Permission>) -> Seq<PermissionView> {
    v.map_values(|x: Permission| x@)
}

/// The values of a list of [`PluginFunction`].
pub open spec fn function_views(v: Seq<PluginFunction>) -> Seq<PluginFunctionView> {
    v.map_values(|x: PluginFunction| x@)
}

/// The values of a list of [`PluginPackage`].
pub open spec fn package_views(v: Seq<PluginPackage>) -> Seq<PluginPackageView> {
    v.map_values(|x: PluginPackage| x@)
}

/// The values of a list of [`AllowedPermission`].
pub open spec fn allowed_views(v: Seq<AllowedPermission>) -> Seq<AllowedPermissionView> {
    v.map_values(|x: AllowedPermission| x@)
}

/// The values of a list of [`WorkflowResult`].
pub open spec fn result_views(v: Seq<WorkflowResult>) -> Seq<WorkflowResultView> {
    v.map_values(|x: WorkflowResult| x@)
}

/// The values of a list of [`WorkflowCode`].
pub open spec fn code_views(v: Seq<WorkflowCode>) -> Seq<WorkflowCodeView> {
    v.map_values(|x: WorkflowCode| x@)
}

impl Permission {
    /// A copy of this permission.
    pub fn duplicate(&self) -> (r: Permission)
        ensures
            r@ == self@,
    {
        Permission {
            display_name: self.display_name.clone(),
            description: self.description.clone(),
            permission_type: self.permission_type,
            resource: clone_strings(&self.resource),
            permission_level: self.permission_level,
        }
    }
}

/// A copy of a list of permissions.
pub fn duplicate_permissions(v: &[Permission]) -> (r: Vec<Permission>)
    ensures
        permission_views(r@) == permission_views(v@),
{
    let mut out: Vec<Permission> = Vec::new();
    let mut i: usize = 0;
    while i < v.len()
        invariant
            i <= v@.len(),
            out@.len() == i,
            permission_views(out@) == permission_views(v@.take(i as int)),
        decreases v@.len() - i,
    {
        let ghost before = out@;
        let d = v[i].duplicate();
        out.push(d);
        proof {
            assert(out@ == before.push(d));
            assert(before.len() == i);
            assert forall|j: int| 0 <= j <= i implies #[trigger] permission_views(out@)[j] == permission_views(
                v@.take(i + 1),
            )[j] by {
                if j < i {
                    assert(permission_views(before)[j] == permission_views(v@.take(i as int))[j]);
                    assert(out@[j] == before[j]);
                    assert(v@.take(i + 1)[j] == v@.take(i as int)[j]);
                } else {
                    assert(out@[j] == d);
                    assert(v@.take(i + 1)[j] == v@[i as int]);
                }
            }
            assert(permission_views(out@) =~= permission_views(v@.take(i + 1)));
        }
        i = i + 1;
    }
    proof {
        assert(v@.take(v@.len() as int) =~= v@);
    }
    out
}

impl FunctionParameter {
    /// A copy of this parameter.
    pub fn duplicate(&self) -> (r: FunctionParameter)
        ensures
            r@ == self@,
    {
        FunctionParameter {
            name: self.name.clone(),
            param_type: self.param_type.clone(),
            description: self.description.clone(),
        }
    }
}

/// A copy of a list of parameters.
pub fn duplicate_parameters(v: &[FunctionParameter]) -> (r: Vec<FunctionParameter>)
    ensures
        parameter_views(r@) == parameter_views(v@),
{
    let mut out: Vec<FunctionParameter> = Vec::new();
    let mut i: usize = 0;
    while i < v.len()
        invariant
            i <= v@.len(),
            out@.len() == i,
            parameter_views(out@) == parameter_views(v@.take(i as int)),
        decreases v@.len() - i,
    {
        let ghost before = out@;
        let d = v[i].duplicate();
        out.push(d);
        proof {
            assert(out@ == before.push(d));
            assert forall|j: int| 0 <= j <= i implies #[trigger] parameter_views(out@)[j]
                == parameter_views(v@.take(i + 1))[j] by {
                if j < i {
                    assert(parameter_views(before)[j] == parameter_views(v@.take(i as int))[j]);
                    assert(out@[j] == before[j]);
                    assert(v@.take(i + 1)[j] == v@.take(i as int)[j]);
                } else {
                    assert(out@[j] == d);
                    assert(v@.take(i + 1)[j] == v@[i as int]);
                }
            }
            assert(parameter_views(out@) =~= parameter_views(v@.take(i + 1)));
        }
        i = i + 1;
    }
    proof {
        assert(v@.take(v@.len() as int) =~= v@);
    }
    out
}

/// A copy of an optional function definition.
pub fn duplicate_define(d: &Option<FunctionDefine>) -> (r: Option<FunctionDefine>)
    ensures
        define_view(r) == define_view(*d),
{
    match d {
        Some(x) => Some(
            FunctionDefine {
                parameters: duplicate_parameters(x.parameters.as_slice()),
                returns: duplicate_parameters(x.returns.as_slice()),
            },
        ),
        None => None,
    }
}

impl PluginFunction {
    /// A copy of this function.
    pub fn duplicate(&self) -> (r: PluginFunction)
        ensures
            r@ == self@,
    {
        PluginFunction {
            function_id: self.function_id.clone(),
            function_name: self.function_name.clone(),
            description: self.description.clone(),
            permissions: duplicate_permissions(self.permissions.as_slice()),
            arguments: self.arguments.clone(),
            returns: self.returns.clone(),
            function_define: duplicate_define(&self.function_define),
        }
    }
}

/// A copy of a list of functions.
pub fn duplicate_functions(v: &[PluginFunction]) -> (r: Vec<PluginFunction>)
    ensures
        function_views(r@) == function_views(v@),
{
    let mut out: Vec<PluginFunction> = Vec::new();
    let mut i: usize = 0;
    while i < v.len()
        invariant
            i <= v@.len(),
            out@.len() == i,
            function_views(out@) == function_views(v@.take(i as int)),
        decreases v@.len() - i,
    {
        let ghost before = out@;
        let d = v[i].duplicate();
        out.push(d);
        proof {
            assert(out@ == before.push(d));
            assert(before.len() == i);
            assert forall|j: int| 0 <= j <= i implies #[trigger] function_views(out@)[j] == function_views(
                v@.take(i + 1),
            )[j] by {
                if j < i {
                    assert(function_views(before)[j] == function_views(v@.take(i as int))[j]);
                    assert(out@[j] == before[j]);
                    assert(v@.take(i + 1)[j] == v@.take(i as int)[j]);
                } else {
                    assert(out@[j] == d);
                    assert(v@.take(i + 1)[j] == v@[i as int]);
                }
            }
            assert(function_views(out@) =~= function_views(v@.take(i + 1)));
        }
        i = i + 1;
    }
    proof {
        assert(v@.take(v@.len() as int) =~= v@);
    }
    out
}

impl WorkflowResult {
    /// A copy of this result.
    pub fn duplicate(&self) -> (r: WorkflowResult)
        ensures
            r@ == self@,
    {
        WorkflowResult {
            id: self.id.clone(),
            display_name: self.display_name.clone(),
            description: self.description.clone(),
            result: self.result.clone(),
            ran_at: self.ran_at,
            result_type: self.result_type,
            exit_code: self.exit_code,
            workflow_result_revision: self.workflow_result_revision,
        }
    }
}

/// A copy of a list of results.
pub fn duplicate_results(v: &[WorkflowResult]) -> (r: Vec<WorkflowResult>)
    ensures
        result_views(r@) == result_views(v@),
{
    let mut out: Vec<WorkflowResult> = Vec::new();
    let mut i: usize = 0;
    while i < v.len()
        invariant
            i <= v@.len(),
            out@.len() == i,
            forall|j: int| 0 <= j < i ==> (#[trigger] out@[j])@ == v@[j]@,
        decreases v@.len() - i,
    {
        out.push(v[i].duplicate());
        i = i + 1;
    }
    proof {
        assert(result_views(out@) =~= result_views(v@));
    }
    out
}

} // verus!
