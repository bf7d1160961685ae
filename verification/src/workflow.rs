//! Workflows: creating them and their code revisions, assembling a workflow
//! message from its loaded rows, and planning the writes that synchronise a
//! workflow message into the tables.
use crate::convert::plugin_code::{
    proto_string_to_option, proto_to_plugin_function, proto_to_plugin_package,
    lemma_optional_text_roundtrip, spec_plugin_package_to_proto, spec_proto_to_plugin_function,
    spec_proto_to_plugin_package,
};
use crate::convert::workflow_code::{
    allowed_pair_views, function_link_views, grant_views, is_grouping_of,
    package_link_views, proto_allowed_permissions_to_entities,
    proto_to_workflow_code, proto_to_workflow_code_plugin_functions,
    proto_to_workflow_code_plugin_packages, proto_to_workflow_result, spec_allowed_rows, spec_function_links, spec_package_links, spec_packages_to_proto,
    spec_proto_to_workflow_code, spec_proto_to_workflow_result,
    workflow_code_to_proto_with_relations,
};
use crate::entity::permission::Model as EntityPermission;
use crate::entity::plugin_function::Model as EntityPluginFunction;
use crate::entity::plugin_package::Model as EntityPluginPackage;
use crate::entity::workflow::{Model as EntityWorkflow, ModelView as WorkflowRow};
use crate::entity::workflow_code::Model as EntityWorkflowCode;
use crate::entity::workflow_code_allowed_permission::Model as EntityWCAllowed;
use crate::entity::workflow_code_plugin_function::Model as EntityWCPluginFunction;
use crate::entity::workflow_code_plugin_package::Model as EntityWCPluginPackage;
use crate::entity::workflow_result::{Model as EntityWorkflowResult, ModelView as ResultRow};
use crate::proto::{
    result_views, PluginPackage, PluginPackageView, Workflow, WorkflowCode, WorkflowCodeView,
    WorkflowResult, WorkflowResultView, WorkflowView, WORKFLOW_LANGUAGE_UNSPECIFIED,
};
use crate::text::{
    decimal_text, i32_to_decimal, opt_str, spec_string_to_option, spec_unwrap_or_empty, strs,
    unwrap_or_empty,
};
use crate::timestamp::{
    lemma_stable_instant_read_back, lemma_stable_timestamp_read_back, opt_datetime_to_proto_timestamp, stable_instant,
    opt_proto_timestamp_to_datetime, spec_opt_datetime_of,
    spec_opt_proto_of, stable_timestamp, ProtoTimestamp, UtcDateTime,
};
use vstd::prelude::*;

verus! {

/// A lower-case hexadecimal digit.
pub open spec fn is_lower_hex(c: char) -> bool {
    ||| ('0' as u32) <= (c as u32) <= ('9' as u32)
    ||| ('a' as u32) <= (c as u32) <= ('f' as u32)
}

/// The hyphenated lower-case text of a random (version 4, RFC 4122 variant)
/// UUID: 32 hexadecimal digits in groups of 8, 4, 4, 4 and 12.
pub open spec fn is_uuid_v4_text(s: Seq<char>) -> bool {
    &&& s.len() == 36
    &&& forall|i: int|
        0 <= i < 36 ==> if i == 8 || i == 13 || i == 18 || i == 23 {
            #[trigger] s[i] == '-'
        } else {
            is_lower_hex(s[i])
        }
    &&& s[14] == '4'
    &&& (s[19] == '8' || s[19] == '9' || s[19] == 'a' || s[19] == 'b')
}

/// `uuid::Uuid::new_v4().to_string()`.
///
/// Trusted: the crate masks the random bits to version 4 and the RFC 4122
/// variant, and formats the value hyphenated in lower case. Which identifier
/// comes out is left unsaid: it is random.
#[verifier::external_body]
fn new_uuid_v4() -> (s: String)
    ensures
        is_uuid_v4_text(s@),
{
    uuid::Uuid::new_v4().to_string()
}

/// The message for a stored result: absent texts read as empty, an absent
/// exit code as 0.
pub open spec fn spec_workflow_result_to_proto(e: ResultRow) -> WorkflowResultView {
    WorkflowResultView {
        id: e.id,
        display_name: spec_unwrap_or_empty(e.display_name),
        description: spec_unwrap_or_empty(e.description),
        result: spec_unwrap_or_empty(e.result),
        ran_at: spec_opt_proto_of(e.ran_at),
        result_type: e.result_type,
        exit_code: match e.exit_code {
            Some(c) => c,
            None => 0,
        },
        workflow_result_revision: e.workflow_result_revision,
    }
}

/// The messages for a list of stored results, in order.
pub open spec fn spec_workflow_results_to_proto(v: Seq<EntityWorkflowResult>) -> Seq<
    WorkflowResultView,
> {
    v.map_values(|e: EntityWorkflowResult| spec_workflow_result_to_proto(e@))
}

/// Converts a stored result into its message.
pub fn workflow_result_to_proto(entity: &EntityWorkflowResult) -> (r: WorkflowResult)
    ensures
        r@ == spec_workflow_result_to_proto(entity@),
{
    WorkflowResult {
        id: entity.id.clone(),
        display_name: unwrap_or_empty(&entity.display_name),
        description: unwrap_or_empty(&entity.description),
        result: unwrap_or_empty(&entity.result),
        ran_at: opt_datetime_to_proto_timestamp(&entity.ran_at),
        result_type: entity.result_type,
        exit_code: match entity.exit_code {
            Some(c) => c,
            None => 0,
        },
        workflow_result_revision: entity.workflow_result_revision,
    }
}

/// Converts stored results into their messages, in order.
pub fn workflow_results_to_proto(entities: &[EntityWorkflowResult]) -> (r: Vec<WorkflowResult>)
    ensures
        result_views(r@) == spec_workflow_results_to_proto(entities@),
{
    let mut out: Vec<WorkflowResult> = Vec::new();
    let mut i: usize = 0;
    while i < entities.len()
        invariant
            i <= entities@.len(),
            out@.len() == i,
            forall|j: int|
                0 <= j < i ==> (#[trigger] out@[j])@ == spec_workflow_result_to_proto(entities@[j]@),
        decreases entities@.len() - i,
    {
        out.push(workflow_result_to_proto(&entities[i]));
        i = i + 1;
    }
    proof {
        assert(result_views(out@) =~= spec_workflow_results_to_proto(entities@));
    }
    out
}

/// The rows loaded for one code revision of a workflow: the revision, its
/// results, its package links with the package each names (absent when the
/// package row is missing), its function links, and its grants with the
/// permission each names.
pub struct CodeRelations {
    pub code: EntityWorkflowCode,
    pub results: Vec<EntityWorkflowResult>,
    pub packages: Vec<(EntityWCPluginPackage, Option<EntityPluginPackage>)>,
    pub function_links: Vec<EntityWCPluginFunction>,
    pub grants: Vec<(EntityWCAllowed, Option<EntityPermission>)>,
}

/// The package rows that package links name, skipping links whose package
/// row is missing, in order.
pub open spec fn linked_packages(v: Seq<(EntityWCPluginPackage, Option<EntityPluginPackage>)>) -> Seq<
    EntityPluginPackage,
>
    decreases v.len(),
{
    if v.len() == 0 {
        Seq::empty()
    } else {
        let prev = linked_packages(v.drop_last());
        match v.last().1 {
            Some(p) => prev.push(p),
            None => prev,
        }
    }
}

/// Whether a package link comes with its package row.
pub open spec fn link_has_package() -> spec_fn((EntityWCPluginPackage, Option<EntityPluginPackage>)) -> bool {
    |x: (EntityWCPluginPackage, Option<EntityPluginPackage>)| x.1 is Some
}

/// The packages a revision's links name are the package rows of exactly the
/// links whose row is present, in link order: one per such link.
pub proof fn lemma_linked_packages_are_present(v: Seq<(EntityWCPluginPackage, Option<EntityPluginPackage>)>)
    ensures
        linked_packages(v) == v.filter(link_has_package()).map_values(
            |x: (EntityWCPluginPackage, Option<EntityPluginPackage>)| x.1->Some_0,
        ),
        linked_packages(v).len() == v.filter(link_has_package()).len(),
    decreases v.len(),
{
    reveal(Seq::filter);
    if v.len() > 0 {
        lemma_linked_packages_are_present(v.drop_last());
        let prev = v.drop_last().filter(link_has_package());
        if link_has_package()(v.last()) {
            assert(prev.push(v.last()).map_values(
                |x: (EntityWCPluginPackage, Option<EntityPluginPackage>)| x.1->Some_0,
            ) =~= prev.map_values(
                |x: (EntityWCPluginPackage, Option<EntityPluginPackage>)| x.1->Some_0,
            ).push(v.last().1->Some_0));
        }
    } else {
        assert(v.filter(link_has_package()) =~= v);
        assert(v.map_values(|x: (EntityWCPluginPackage, Option<EntityPluginPackage>)| x.1->Some_0)
            =~= Seq::<EntityPluginPackage>::empty());
    }
}

/// A loaded code revision's message lists one package message per package
/// link whose package row is present, in link order, each the message of that
/// row.
pub proof fn lemma_assembled_code_packages(c: CodeRelations, w: WorkflowCodeView)
    requires
        is_assembled_code(c, w),
    ensures
        w.plugin_packages.len() == c.packages@.filter(link_has_package()).len(),
        forall|j: int|
            0 <= j < w.plugin_packages.len() ==> #[trigger] w.plugin_packages[j]
                == spec_plugin_package_to_proto((c.packages@.filter(link_has_package())[j].1->Some_0)@),
{
    lemma_linked_packages_are_present(c.packages@);
}

/// The function ids that function links name, in order.
pub open spec fn linked_function_ids(v: Seq<EntityWCPluginFunction>) -> Seq<Seq<char>> {
    v.map_values(|l: EntityWCPluginFunction| l.plugin_function_id@)
}

/// Whether `w` is the message for a loaded code revision: the revision's
/// fields, its results, the packages its links name (without functions), the
/// function ids its links name, and its grants grouped by function.
pub open spec fn is_assembled_code(c: CodeRelations, w: WorkflowCodeView) -> bool {
    &&& w.id == c.code@.id
    &&& w.code_revision == c.code@.code_revision
    &&& w.code == c.code@.code
    &&& w.language == c.code@.language
    &&& w.created_at == spec_opt_proto_of(c.code@.created_at)
    &&& w.result == spec_workflow_results_to_proto(c.results@)
    &&& w.plugin_packages == spec_packages_to_proto(linked_packages(c.packages@))
    &&& w.plugin_function_ids == linked_function_ids(c.function_links@)
    &&& is_grouping_of(grant_views(c.grants@), w.allowed_permissions)
}

/// Copies the package rows that package links name, skipping links whose
/// package row is missing.
fn present_packages(v: &[(EntityWCPluginPackage, Option<EntityPluginPackage>)]) -> (r: Vec<
    EntityPluginPackage,
>)
    ensures
        r@.len() == linked_packages(v@).len(),
        forall|j: int| 0 <= j < r@.len() ==> (#[trigger] r@[j])@ == linked_packages(v@)[j]@,
{
    let mut out: Vec<EntityPluginPackage> = Vec::new();
    let mut i: usize = 0;
    proof {
        assert(out@.map_values(|p: EntityPluginPackage| p@) =~= linked_packages(v@.take(0)).map_values(
            |p: EntityPluginPackage| p@,
        ));
    }
    while i < v.len()
        invariant
            i <= v@.len(),
            out@.map_values(|p: EntityPluginPackage| p@) == linked_packages(v@.take(i as int)).map_values(
                |p: EntityPluginPackage| p@,
            ),
        decreases v@.len() - i,
    {
        proof {
            assert(v@.take(i + 1).drop_last() =~= v@.take(i as int));
            assert(v@.take(i + 1).last() == v@[i as int]);
        }
        match &v[i].1 {
            Some(p) => {
                let d = p.duplicate();
                let ghost before = out@;
                out.push(d);
                proof {
                    assert(out@.map_values(|p: EntityPluginPackage| p@) =~= before.map_values(
                        |p: EntityPluginPackage| p@,
                    ).push(d@));
                    assert(linked_packages(v@.take(i + 1)) == linked_packages(v@.take(i as int)).push(
                        *p,
                    ));
                    assert(linked_packages(v@.take(i + 1)).map_values(|p: EntityPluginPackage| p@)
                        =~= linked_packages(v@.take(i as int)).map_values(
                        |p: EntityPluginPackage| p@,
                    ).push(p@));
                }
            },
            None => {},
        }
        i = i + 1;
    }
    proof {
        assert(v@.take(v@.len() as int) =~= v@);
        let lp = linked_packages(v@);
        assert(out@.map_values(|p: EntityPluginPackage| p@).len() == lp.map_values(|p: EntityPluginPackage| p@).len());
        assert forall|j: int| 0 <= j < out@.len() implies (#[trigger] out@[j])@ == lp[j]@ by {
            assert(out@.map_values(|p: EntityPluginPackage| p@)[j] == lp.map_values(
                |p: EntityPluginPackage| p@,
            )[j]);
        }
    }
    out
}

/// Assembles the message for one loaded code revision.
pub fn assemble_workflow_code(c: &CodeRelations) -> (r: WorkflowCode)
    ensures
        is_assembled_code(*c, r@),
{
    let results = workflow_results_to_proto(c.results.as_slice());
    let packages = present_packages(c.packages.as_slice());
    let mut ids: Vec<String> = Vec::new();
    let mut i: usize = 0;
    while i < c.function_links.len()
        invariant
            i <= c.function_links@.len(),
            ids@.len() == i,
            forall|j: int|
                0 <= j < i ==> (#[trigger] ids@[j])@ == c.function_links@[j].plugin_function_id@,
        decreases c.function_links@.len() - i,
    {
        ids.push(c.function_links[i].plugin_function_id.clone());
        i = i + 1;
    }
    proof {
        assert(strs(ids@) =~= linked_function_ids(c.function_links@));
    }
    let r = workflow_code_to_proto_with_relations(
        &c.code,
        Some(results.as_slice()),
        Some(packages.as_slice()),
        Some(ids.as_slice()),
        Some(c.grants.as_slice()),
    );
    proof {
        let lp = linked_packages(c.packages@);
        assert(spec_packages_to_proto(packages@) =~= spec_packages_to_proto(lp));
    }
    r
}

/// Whether `w` is the message for a loaded workflow: the workflow's fields
/// (an absent description reads as empty), its code revisions in load order,
/// and the results loaded for the whole workflow.
pub open spec fn is_assembled_workflow(
    wm: WorkflowRow,
    codes: Seq<CodeRelations>,
    results: Seq<EntityWorkflowResult>,
    w: WorkflowView,
) -> bool {
    &&& w.id == wm.id
    &&& w.display_name == wm.display_name
    &&& w.description == spec_unwrap_or_empty(wm.description)
    &&& w.workflow_language == wm.workflow_language
    &&& w.created_at == spec_opt_proto_of(wm.created_at)
    &&& w.updated_at == spec_opt_proto_of(wm.updated_at)
    &&& w.workflow_code.len() == codes.len()
    &&& forall|i: int| 0 <= i < codes.len() ==> is_assembled_code(codes[i], #[trigger] w.workflow_code[i])
    &&& w.workflow_results == spec_workflow_results_to_proto(results)
}

/// Assembles a workflow message from its loaded rows.
pub fn assemble_workflow(
    workflow: &EntityWorkflow,
    codes: &[CodeRelations],
    results: &[EntityWorkflowResult],
) -> (r: Workflow)
    ensures
        is_assembled_workflow(workflow@, codes@, results@, r@),
{
    let mut code_messages: Vec<WorkflowCode> = Vec::new();
    let mut i: usize = 0;
    while i < codes.len()
        invariant
            i <= codes@.len(),
            code_messages@.len() == i,
            forall|j: int| 0 <= j < i ==> is_assembled_code(codes@[j], (#[trigger] code_messages@[j])@),
        decreases codes@.len() - i,
    {
        code_messages.push(assemble_workflow_code(&codes[i]));
        i = i + 1;
    }
    let r = Workflow {
        id: workflow.id.clone(),
        display_name: workflow.display_name.clone(),
        description: unwrap_or_empty(&workflow.description),
        workflow_language: workflow.workflow_language,
        workflow_code: code_messages,
        created_at: opt_datetime_to_proto_timestamp(&workflow.created_at),
        updated_at: opt_datetime_to_proto_timestamp(&workflow.updated_at),
        workflow_results: workflow_results_to_proto(results),
    };
    proof {
        assert forall|j: int| 0 <= j < codes@.len() implies is_assembled_code(
            codes@[j],
            #[trigger] r@.workflow_code[j],
        ) by {
            assert(r@.workflow_code[j] == code_messages@[j]@);
        }
    }
    r
}

/// The error text when no workflow has the requested id.
pub open spec fn workflow_not_found_text(workflow_id: Seq<char>) -> Seq<char> {
    "workflow not found: "@ + workflow_id
}

/// The workflow looked up by `workflow_id`, or the not-found error text.
pub fn require_workflow(found: Option<EntityWorkflow>, workflow_id: &str) -> (r: Result<
    EntityWorkflow,
    String,
>)
    ensures
        match found {
            Some(m) => r == Ok::<EntityWorkflow, String>(m),
            None => r matches Err(e) && e@ == workflow_not_found_text(workflow_id@),
        },
{
    match found {
        Some(m) => Ok(m),
        None => {
            let mut text = String::from_str("workflow not found: ");
            text.append(workflow_id);
            Err(text)
        },
    }
}

/// The workflow row for a workflow message: an empty description is absent.
pub open spec fn spec_proto_to_workflow(p: WorkflowView) -> WorkflowRow {
    WorkflowRow {
        id: p.id,
        display_name: p.display_name,
        description: spec_string_to_option(p.description),
        workflow_language: p.workflow_language,
        created_at: spec_opt_datetime_of(p.created_at),
        updated_at: spec_opt_datetime_of(p.updated_at),
    }
}

/// A package to store, with the functions it declares.
pub struct PackageSync {
    pub package: EntityPluginPackage,
    pub functions: Vec<EntityPluginFunction>,
}

/// The writes for one code revision: the revision row to store, the packages
/// and functions it names to store, the package and function links and the
/// grants that replace its current ones (each grant with the new permission
/// row it points to), and the results that replace its current ones.
pub struct CodeSync {
    pub code: EntityWorkflowCode,
    pub packages: Vec<PackageSync>,
    pub package_links: Vec<EntityWCPluginPackage>,
    pub function_links: Vec<EntityWCPluginFunction>,
    pub grants: Vec<(EntityWCAllowed, EntityPermission)>,
    pub results: Vec<EntityWorkflowResult>,
}

/// The writes that synchronise a workflow message into the tables: the
/// workflow row to store, and the writes for each code revision.
pub struct WorkflowSync {
    pub workflow: EntityWorkflow,
    pub codes: Vec<CodeSync>,
}

/// Whether `s` stores package message `p`: its row, and a row for each
/// function it declares, in that package.
pub open spec fn is_package_sync(p: PluginPackageView, s: PackageSync) -> bool {
    &&& s.package@ == spec_proto_to_plugin_package(p)
    &&& s.functions@.len() == p.functions.len()
    &&& forall|k: int|
        0 <= k < p.functions.len() ==> (#[trigger] s.functions@[k])@ == spec_proto_to_plugin_function(
            p.functions[k],
            p.package_id,
        )
}

/// Whether `s` holds the writes for code revision message `c` of workflow
/// `workflow_id`.
pub open spec fn is_code_sync(c: WorkflowCodeView, workflow_id: Seq<char>, s: CodeSync) -> bool {
    &&& s.code@ == spec_proto_to_workflow_code(c, workflow_id)
    &&& s.packages@.len() == c.plugin_packages.len()
    &&& forall|j: int|
        0 <= j < c.plugin_packages.len() ==> is_package_sync(
            c.plugin_packages[j],
            #[trigger] s.packages@[j],
        )
    &&& package_link_views(s.package_links@) == spec_package_links(c.id, c.plugin_packages)
    &&& function_link_views(s.function_links@) == spec_function_links(c.id, c.plugin_function_ids)
    &&& allowed_pair_views(s.grants@) == spec_allowed_rows(c.id, c.allowed_permissions)
    &&& s.results@.len() == c.result.len()
    &&& forall|j: int|
        0 <= j < c.result.len() ==> (#[trigger] s.results@[j])@ == spec_proto_to_workflow_result(
            c.result[j],
            workflow_id,
            c.id,
        )
}

/// Whether two package writes store the same rows.
pub open spec fn same_package_writes(a: PackageSync, b: PackageSync) -> bool {
    &&& a.package@ == b.package@
    &&& a.functions@.len() == b.functions@.len()
    &&& forall|k: int| 0 <= k < a.functions@.len() ==> (#[trigger] a.functions@[k])@ == b.functions@[k]@
}

/// Whether two code revision writes store the same rows: the same revision
/// row, packages and functions, and the same links, grants and results to put
/// in place of the revision's current ones.
pub open spec fn same_code_writes(a: CodeSync, b: CodeSync) -> bool {
    &&& a.code@ == b.code@
    &&& a.packages@.len() == b.packages@.len()
    &&& forall|j: int|
        0 <= j < a.packages@.len() ==> same_package_writes(#[trigger] a.packages@[j], b.packages@[j])
    &&& package_link_views(a.package_links@) == package_link_views(b.package_links@)
    &&& function_link_views(a.function_links@) == function_link_views(b.function_links@)
    &&& allowed_pair_views(a.grants@) == allowed_pair_views(b.grants@)
    &&& a.results@.len() == b.results@.len()
    &&& forall|j: int| 0 <= j < a.results@.len() ==> (#[trigger] a.results@[j])@ == b.results@[j]@
}

/// Whether `s` holds the writes `plan_workflow_update` plans for workflow
/// message `p`.
pub open spec fn is_workflow_sync(p: WorkflowView, s: WorkflowSync) -> bool {
    &&& s.workflow@ == spec_proto_to_workflow(p)
    &&& s.codes@.len() == p.workflow_code.len()
    &&& forall|i: int|
        0 <= i < s.codes@.len() ==> is_code_sync(p.workflow_code[i], p.id, #[trigger] s.codes@[i])
}

/// Synchronising the same workflow message twice leaves the rows as the first
/// synchronisation left them: the second plans exactly the writes of the
/// first (the same workflow row, revision rows, packages and functions, and
/// the same links, grants and results in place of each revision's current
/// ones), so only the ids the store hands out to new permission rows differ.
pub proof fn lemma_workflow_sync_is_idempotent(p: WorkflowView, first: WorkflowSync, second: WorkflowSync)
    requires
        is_workflow_sync(p, first),
        is_workflow_sync(p, second),
    ensures
        first.workflow@ == second.workflow@,
        first.codes@.len() == second.codes@.len(),
        forall|i: int|
            0 <= i < first.codes@.len() ==> same_code_writes(
                #[trigger] first.codes@[i],
                second.codes@[i],
            ),
{
    assert forall|i: int| 0 <= i < first.codes@.len() implies same_code_writes(
        #[trigger] first.codes@[i],
        second.codes@[i],
    ) by {
        let a = first.codes@[i];
        let b = second.codes@[i];
        assert(is_code_sync(p.workflow_code[i], p.id, a));
        assert(is_code_sync(p.workflow_code[i], p.id, b));
        assert forall|j: int| 0 <= j < a.packages@.len() implies same_package_writes(
            #[trigger] a.packages@[j],
            b.packages@[j],
        ) by {
            assert(is_package_sync(p.workflow_code[i].plugin_packages[j], a.packages@[j]));
            assert(is_package_sync(p.workflow_code[i].plugin_packages[j], b.packages@[j]));
        }
    }
}

/// Plans the writes for one package message.
fn plan_package_sync(p: &PluginPackage) -> (r: PackageSync)
    ensures
        is_package_sync(p@, r),
{
    let package = proto_to_plugin_package(p);
    let mut functions: Vec<EntityPluginFunction> = Vec::new();
    let mut k: usize = 0;
    while k < p.functions.len()
        invariant
            k <= p.functions@.len(),
            functions@.len() == k,
            forall|m: int|
                0 <= m < k ==> (#[trigger] functions@[m])@ == spec_proto_to_plugin_function(
                    p.functions@[m]@,
                    p.package_id@,
                ),
        decreases p.functions@.len() - k,
    {
        functions.push(proto_to_plugin_function(&p.functions[k], p.package_id.clone()));
        k = k + 1;
    }
    PackageSync { package, functions }
}

/// Plans the writes for one code revision message of workflow `workflow_id`.
fn plan_code_sync(c: &WorkflowCode, workflow_id: &String) -> (r: CodeSync)
    ensures
        is_code_sync(c@, workflow_id@, r),
{
    let code = proto_to_workflow_code(c, workflow_id.clone());
    let mut packages: Vec<PackageSync> = Vec::new();
    let mut j: usize = 0;
    while j < c.plugin_packages.len()
        invariant
            j <= c.plugin_packages@.len(),
            packages@.len() == j,
            forall|m: int|
                0 <= m < j ==> is_package_sync(c.plugin_packages@[m]@, #[trigger] packages@[m]),
        decreases c.plugin_packages@.len() - j,
    {
        packages.push(plan_package_sync(&c.plugin_packages[j]));
        j = j + 1;
    }
    let package_links = proto_to_workflow_code_plugin_packages(
        c.id.clone(),
        c.plugin_packages.as_slice(),
    );
    let function_links = proto_to_workflow_code_plugin_functions(
        c.id.clone(),
        c.plugin_function_ids.as_slice(),
    );
    let grants = proto_allowed_permissions_to_entities(c.id.clone(), c.allowed_permissions.as_slice());
    let mut results: Vec<EntityWorkflowResult> = Vec::new();
    let mut m: usize = 0;
    while m < c.result.len()
        invariant
            m <= c.result@.len(),
            results@.len() == m,
            forall|q: int|
                0 <= q < m ==> (#[trigger] results@[q])@ == spec_proto_to_workflow_result(
                    c.result@[q]@,
                    workflow_id@,
                    c.id@,
                ),
        decreases c.result@.len() - m,
    {
        results.push(proto_to_workflow_result(&c.result[m], workflow_id.clone(), c.id.clone()));
        m = m + 1;
    }
    CodeSync { code, packages, package_links, function_links, grants, results }
}

/// Plans the writes that synchronise a workflow message into the tables: the
/// workflow row and every code revision are stored (inserted or overwritten),
/// the packages and functions the revisions name are stored, and each
/// revision's links, grants and results are replaced by the ones the message
/// holds. The workflow-level results are not written: they carry no code
/// revision.
pub fn plan_workflow_update(proto: &Workflow) -> (r: WorkflowSync)
    ensures
        is_workflow_sync(proto@, r),
        r.workflow@ == spec_proto_to_workflow(proto@),
        r.codes@.len() == proto@.workflow_code.len(),
        forall|i: int|
            0 <= i < r.codes@.len() ==> is_code_sync(
                proto@.workflow_code[i],
                proto@.id,
                #[trigger] r.codes@[i],
            ),
{
    let workflow = EntityWorkflow {
        id: proto.id.clone(),
        display_name: proto.display_name.clone(),
        description: proto_string_to_option(proto.description.as_str()),
        workflow_language: proto.workflow_language,
        created_at: opt_proto_timestamp_to_datetime(&proto.created_at),
        updated_at: opt_proto_timestamp_to_datetime(&proto.updated_at),
    };
    let mut codes: Vec<CodeSync> = Vec::new();
    let mut i: usize = 0;
    while i < proto.workflow_code.len()
        invariant
            i <= proto.workflow_code@.len(),
            codes@.len() == i,
            forall|m: int|
                0 <= m < i ==> is_code_sync(
                    proto.workflow_code@[m]@,
                    proto.id@,
                    #[trigger] codes@[m],
                ),
        decreases proto.workflow_code@.len() - i,
    {
        codes.push(plan_code_sync(&proto.workflow_code[i], &proto.id));
        i = i + 1;
    }
    WorkflowSync { workflow, codes }
}

/// The link rows tying a new code revision to the packages with the given
/// ids, in order, with row id 0 so that the database assigns one.
pub open spec fn spec_package_id_links(
    workflow_code_id: Seq<char>,
    package_ids: Seq<Seq<char>>,
) -> Seq<crate::entity::workflow_code_plugin_package::ModelView> {
    package_ids.map_values(
        |p: Seq<char>|
            crate::entity::workflow_code_plugin_package::ModelView {
                id: 0,
                workflow_code_id,
                plugin_package_id: p,
            },
    )
}

/// A new code revision with its rows and its message.
pub struct NewWorkflowCode {
    pub code: EntityWorkflowCode,
    pub function_links: Vec<EntityWCPluginFunction>,
    pub package_links: Vec<EntityWCPluginPackage>,
    pub message: WorkflowCode,
}

/// Creates the first code revision of workflow `workflow_id` holding `code`,
/// linked to the given functions and packages: a fresh random id, revision
/// 1, the unspecified language, no creation time. The message carries the
/// revision's fields and no relations.
pub fn new_workflow_code(
    code: String,
    workflow_id: i32,
    plugin_function_ids: &[String],
    plugin_package_ids: &[String],
) -> (r: NewWorkflowCode)
    ensures
        is_uuid_v4_text(r.code@.id),
        r.code@.workflow_id == decimal_text(workflow_id as int),
        r.code@.code_revision == 1,
        r.code@.code == code@,
        r.code@.language == WORKFLOW_LANGUAGE_UNSPECIFIED,
        r.code@.created_at is None,
        function_link_views(r.function_links@) == spec_function_links(
            r.code@.id,
            strs(plugin_function_ids@),
        ),
        package_link_views(r.package_links@) == spec_package_id_links(
            r.code@.id,
            strs(plugin_package_ids@),
        ),
        r.message@ == crate::convert::workflow_code::spec_workflow_code_to_proto(r.code@),
{
    let id = new_uuid_v4();
    let row = EntityWorkflowCode {
        id,
        workflow_id: i32_to_decimal(workflow_id),
        code_revision: 1,
        code,
        language: WORKFLOW_LANGUAGE_UNSPECIFIED,
        created_at: None,
    };
    let function_links = proto_to_workflow_code_plugin_functions(row.id.clone(), plugin_function_ids);
    let mut package_links: Vec<EntityWCPluginPackage> = Vec::new();
    let mut i: usize = 0;
    while i < plugin_package_ids.len()
        invariant
            i <= plugin_package_ids@.len(),
            package_links@.len() == i,
            forall|j: int|
                0 <= j < i ==> (#[trigger] package_links@[j])@
                    == (crate::entity::workflow_code_plugin_package::ModelView {
                    id: 0,
                    workflow_code_id: row.id@,
                    plugin_package_id: plugin_package_ids@[j]@,
                }),
        decreases plugin_package_ids@.len() - i,
    {
        package_links.push(
            EntityWCPluginPackage {
                id: 0,
                workflow_code_id: row.id.clone(),
                plugin_package_id: plugin_package_ids[i].clone(),
            },
        );
        i = i + 1;
    }
    proof {
        assert(package_link_views(package_links@) =~= spec_package_id_links(
            row.id@,
            strs(plugin_package_ids@),
        ));
    }
    let message = crate::convert::workflow_code::workflow_code_to_proto(&row);
    NewWorkflowCode { code: row, function_links, package_links, message }
}

/// Creates a workflow named `display_name`: a fresh random id, the
/// unspecified language, and creation and update times read from the clock
/// (one reading each). The message carries the workflow's fields, an absent
/// description as empty, and no code or results.
pub fn new_workflow(display_name: String, description: Option<String>) -> (r: (
    EntityWorkflow,
    Workflow,
))
    ensures
        is_uuid_v4_text(r.0@.id),
        r.0@.display_name == display_name@,
        r.0@.description == opt_str(description),
        r.0@.workflow_language == WORKFLOW_LANGUAGE_UNSPECIFIED,
        r.0@.created_at is Some,
        r.0@.updated_at is Some,
        r.1@ == (WorkflowView {
            id: r.0@.id,
            display_name: r.0@.display_name,
            description: spec_unwrap_or_empty(r.0@.description),
            workflow_language: r.0@.workflow_language,
            workflow_code: Seq::empty(),
            created_at: spec_opt_proto_of(r.0@.created_at),
            updated_at: spec_opt_proto_of(r.0@.updated_at),
            workflow_results: Seq::empty(),
        }),
{
    let created = UtcDateTime::now();
    let updated = UtcDateTime::now();
    let row = EntityWorkflow {
        id: new_uuid_v4(),
        display_name,
        description,
        workflow_language: WORKFLOW_LANGUAGE_UNSPECIFIED,
        created_at: Some(created),
        updated_at: Some(updated),
    };
    let message = Workflow {
        id: row.id.clone(),
        display_name: row.display_name.clone(),
        description: unwrap_or_empty(&row.description),
        workflow_language: row.workflow_language,
        workflow_code: Vec::new(),
        created_at: opt_datetime_to_proto_timestamp(&row.created_at),
        updated_at: opt_datetime_to_proto_timestamp(&row.updated_at),
        workflow_results: Vec::new(),
    };
    proof {
        assert(message@.workflow_code =~= Seq::<WorkflowCodeView>::empty());
        assert(message@.workflow_results =~= Seq::<WorkflowResultView>::empty());
    }
    (row, message)
}

/// A workflow stored from its message reads back with the message's own
/// fields; an empty description stays empty.
pub proof fn lemma_workflow_fields_read_back(
    p: WorkflowView,
    codes: Seq<CodeRelations>,
    results: Seq<EntityWorkflowResult>,
    w: WorkflowView,
)
    requires
        stable_timestamp(p.created_at),
        stable_timestamp(p.updated_at),
        is_assembled_workflow(spec_proto_to_workflow(p), codes, results, w),
    ensures
        w.id == p.id,
        w.display_name == p.display_name,
        w.description == p.description,
        w.workflow_language == p.workflow_language,
        w.created_at == p.created_at,
        w.updated_at == p.updated_at,
{
    lemma_stable_timestamp_read_back(p.created_at);
    lemma_stable_timestamp_read_back(p.updated_at);
    if p.description.len() == 0 {
        assert(p.description =~= Seq::<char>::empty());
    }
}

/// A code revision stored from its message reads back with the message's
/// own fields.
pub proof fn lemma_code_fields_read_back(
    c: WorkflowCodeView,
    workflow_id: Seq<char>,
    loaded: CodeRelations,
    w: WorkflowCodeView,
)
    requires
        stable_timestamp(c.created_at),
        loaded.code@ == spec_proto_to_workflow_code(c, workflow_id),
        is_assembled_code(loaded, w),
    ensures
        w.id == c.id,
        w.code_revision == c.code_revision,
        w.code == c.code,
        w.language == c.language,
        w.created_at == c.created_at,
{
    lemma_stable_timestamp_read_back(c.created_at);
}


/// When every package link comes with its package row, the linked packages
/// are those rows, one per link, in order.
proof fn lemma_linked_packages_all_present(v: Seq<(EntityWCPluginPackage, Option<EntityPluginPackage>)>)
    requires
        forall|j: int| 0 <= j < v.len() ==> (#[trigger] v[j]).1 is Some,
    ensures
        linked_packages(v) == v.map_values(
            |x: (EntityWCPluginPackage, Option<EntityPluginPackage>)| x.1->Some_0,
        ),
    decreases v.len(),
{
    if v.len() > 0 {
        assert forall|j: int| 0 <= j < v.drop_last().len() implies (#[trigger] v.drop_last()[j]).1 is Some by {
            assert(v.drop_last()[j] == v[j]);
        }
        lemma_linked_packages_all_present(v.drop_last());
        assert(v.last() == v[v.len() - 1]);
        assert(v.map_values(|x: (EntityWCPluginPackage, Option<EntityPluginPackage>)| x.1->Some_0)
            =~= v.drop_last().map_values(
            |x: (EntityWCPluginPackage, Option<EntityPluginPackage>)| x.1->Some_0,
        ).push(v.last().1->Some_0));
    } else {
        assert(v.map_values(|x: (EntityWCPluginPackage, Option<EntityPluginPackage>)| x.1->Some_0)
            =~= Seq::<EntityPluginPackage>::empty());
    }
}

/// A code revision whose packages were stored from its message and are
/// loaded back, one row per link in link order, lists the packages its
/// message named, in order, each with the message's id, name, version,
/// description and store address.
pub proof fn lemma_code_packages_read_back(c: WorkflowCodeView, loaded: CodeRelations, w: WorkflowCodeView)
    requires
        loaded.packages@.len() == c.plugin_packages.len(),
        forall|j: int|
            0 <= j < c.plugin_packages.len() ==> ((#[trigger] loaded.packages@[j]).1 matches Some(e)
                && e@ == spec_proto_to_plugin_package(c.plugin_packages[j])),
        is_assembled_code(loaded, w),
    ensures
        w.plugin_packages.len() == c.plugin_packages.len(),
        forall|j: int|
            0 <= j < c.plugin_packages.len() ==> {
                let back = #[trigger] w.plugin_packages[j];
                let sent = c.plugin_packages[j];
                &&& back.package_id == sent.package_id
                &&& back.package_name == sent.package_name
                &&& back.package_version == sent.package_version
                &&& back.description == sent.description
                &&& back.plugin_store_url == sent.plugin_store_url
            },
{
    let v = loaded.packages@;
    assert forall|j: int| 0 <= j < v.len() implies (#[trigger] v[j]).1 is Some by {
        assert(v[j] == loaded.packages@[j]);
    }
    lemma_linked_packages_all_present(v);
    assert forall|j: int| 0 <= j < c.plugin_packages.len() implies {
        let back = #[trigger] w.plugin_packages[j];
        let sent = c.plugin_packages[j];
        &&& back.package_id == sent.package_id
        &&& back.package_name == sent.package_name
        &&& back.package_version == sent.package_version
        &&& back.description == sent.description
        &&& back.plugin_store_url == sent.plugin_store_url
    } by {
        let sent = c.plugin_packages[j];
        let back = w.plugin_packages[j];
        assert(back.description =~= sent.description);
        assert(back.plugin_store_url =~= sent.plugin_store_url);
    }
}


/// A result message stored by the synchronisation and loaded back reads back
/// as itself: its own id, display name, description and result text (an empty
/// text stays empty), type, exit code and revision, and, when its time is
/// normalized and inside chrono's range, its time. The stored row belongs to
/// the workflow and revision it was stored for.
pub proof fn lemma_result_read_back(r: WorkflowResultView, workflow_id: Seq<char>, workflow_code_id: Seq<char>)
    ensures
        ({
            let row = spec_proto_to_workflow_result(r, workflow_id, workflow_code_id);
            let back = spec_workflow_result_to_proto(row);
            &&& row.workflow_id == workflow_id
            &&& row.workflow_code_id == workflow_code_id
            &&& back.id == r.id
            &&& back.display_name == r.display_name
            &&& back.description == r.description
            &&& back.result == r.result
            &&& back.result_type == r.result_type
            &&& back.exit_code == r.exit_code
            &&& back.workflow_result_revision == r.workflow_result_revision
            &&& stable_timestamp(r.ran_at) ==> back == r
        }),
{
    let row = spec_proto_to_workflow_result(r, workflow_id, workflow_code_id);
    let back = spec_workflow_result_to_proto(row);
    assert(back.display_name =~= r.display_name);
    assert(back.description =~= r.description);
    assert(back.result =~= r.result);
    if stable_timestamp(r.ran_at) {
        lemma_stable_timestamp_read_back(r.ran_at);
        assert(back =~= r);
    }
}

/// A stored result whose texts are present and not empty, and whose exit code
/// is present, survives the trip through its message and back into a row.
pub proof fn lemma_result_row_read_back(e: ResultRow)
    requires
        e.display_name != Some(Seq::<char>::empty()),
        e.description != Some(Seq::<char>::empty()),
        e.result != Some(Seq::<char>::empty()),
        e.exit_code is Some,
        stable_instant(e.ran_at),
    ensures
        spec_proto_to_workflow_result(spec_workflow_result_to_proto(e), e.workflow_id, e.workflow_code_id) == e,
{
    lemma_optional_text_roundtrip(e.display_name);
    lemma_optional_text_roundtrip(e.description);
    lemma_optional_text_roundtrip(e.result);
    lemma_stable_instant_read_back(e.ran_at);
    let back = spec_proto_to_workflow_result(spec_workflow_result_to_proto(e), e.workflow_id, e.workflow_code_id);
    assert(back =~= e);
}

} // verus!
