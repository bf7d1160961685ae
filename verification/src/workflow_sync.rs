//! What a workflow synchronisation leaves in the relation tables: for each
//! code revision of the message, in order, the revision's package links,
//! function links, grants (with the permission rows they point to) and
//! results are deleted and the planned rows inserted. The ids the store hands
//! out to inserted rows are not part of this model: planned rows carry id 0.
use crate::convert::workflow_code::{
    allowed_pair_views, function_link_views, package_link_views, spec_allowed_group_rows,
    spec_allowed_rows, spec_function_links, spec_package_links, spec_proto_to_workflow_result,
};
use crate::entity::permission::ModelView as PermissionRow;
use crate::entity::workflow_code_allowed_permission::ModelView as AllowedRow;
use crate::entity::workflow_code_plugin_function::ModelView as FunctionLinkRow;
use crate::entity::workflow_code_plugin_package::ModelView as PackageLinkRow;
use crate::entity::workflow_result::{Model as EntityWorkflowResult, ModelView as ResultRow};
use crate::proto::{AllowedPermissionView, WorkflowCodeView, WorkflowResultView, WorkflowView};
use crate::sync_rows::{
    group_ids, lemma_replace_groups_rows_of, lemma_replace_groups_twice, replace_groups,
    rows_of_code, well_tagged,
};
use crate::workflow::{is_code_sync, is_workflow_sync, CodeSync, WorkflowSync};
use vstd::prelude::*;

verus! {

/// The relation rows of the code revisions, as the store holds them.
pub struct RelationRows {
    pub package_links: Seq<PackageLinkRow>,
    pub function_links: Seq<FunctionLinkRow>,
    pub grants: Seq<(AllowedRow, PermissionRow)>,
    pub results: Seq<ResultRow>,
}

/// The revision a package link belongs to.
pub open spec fn package_link_code() -> spec_fn(PackageLinkRow) -> Seq<char> {
    |l: PackageLinkRow| l.workflow_code_id
}

/// The revision a function link belongs to.
pub open spec fn function_link_code() -> spec_fn(FunctionLinkRow) -> Seq<char> {
    |l: FunctionLinkRow| l.workflow_code_id
}

/// The revision a grant belongs to.
pub open spec fn grant_code() -> spec_fn((AllowedRow, PermissionRow)) -> Seq<char> {
    |g: (AllowedRow, PermissionRow)| g.0.workflow_code_id
}

/// The revision a result belongs to.
pub open spec fn result_code() -> spec_fn(ResultRow) -> Seq<char> {
    |r: ResultRow| r.workflow_code_id
}

/// The ids of a workflow message's code revisions, in order.
pub open spec fn code_ids(p: WorkflowView) -> Seq<Seq<char>> {
    p.workflow_code.map_values(|c: WorkflowCodeView| c.id)
}

/// The result rows of code revision `c` of workflow `workflow_id`.
pub open spec fn code_result_rows(c: WorkflowCodeView, workflow_id: Seq<char>) -> Seq<ResultRow> {
    c.result.map_values(|r: WorkflowResultView| spec_proto_to_workflow_result(r, workflow_id, c.id))
}

/// How many permissions a list of allowed permission messages grants.
pub open spec fn granted_count(allowed: Seq<AllowedPermissionView>) -> nat
    decreases allowed.len(),
{
    if allowed.len() == 0 {
        0
    } else {
        granted_count(allowed.drop_last()) + allowed.last().permissions.len()
    }
}

/// The package links a message asks for, revision by revision.
pub open spec fn message_package_links(p: WorkflowView) -> Seq<(Seq<char>, Seq<PackageLinkRow>)> {
    p.workflow_code.map_values(
        |c: WorkflowCodeView| (c.id, spec_package_links(c.id, c.plugin_packages)),
    )
}

/// The function links a message asks for, revision by revision.
pub open spec fn message_function_links(p: WorkflowView) -> Seq<(Seq<char>, Seq<FunctionLinkRow>)> {
    p.workflow_code.map_values(
        |c: WorkflowCodeView| (c.id, spec_function_links(c.id, c.plugin_function_ids)),
    )
}

/// The grants a message asks for, revision by revision.
pub open spec fn message_grants(p: WorkflowView) -> Seq<(Seq<char>, Seq<(AllowedRow, PermissionRow)>)> {
    p.workflow_code.map_values(
        |c: WorkflowCodeView| (c.id, spec_allowed_rows(c.id, c.allowed_permissions)),
    )
}

/// The results a message asks for, revision by revision.
pub open spec fn message_results(p: WorkflowView) -> Seq<(Seq<char>, Seq<ResultRow>)> {
    p.workflow_code.map_values(|c: WorkflowCodeView| (c.id, code_result_rows(c, p.id)))
}

/// The result rows a revision's writes insert.
pub open spec fn planned_results(s: CodeSync) -> Seq<ResultRow> {
    s.results@.map_values(|r: EntityWorkflowResult| r@)
}

/// The relation tables after the writes of `plan` are made, one revision
/// after the other.
pub open spec fn sync_relations(before: RelationRows, plan: WorkflowSync) -> RelationRows {
    let codes = plan.codes@;
    RelationRows {
        package_links: replace_groups(
            before.package_links,
            package_link_code(),
            codes.map_values(|s: CodeSync| (s.code@.id, package_link_views(s.package_links@))),
        ),
        function_links: replace_groups(
            before.function_links,
            function_link_code(),
            codes.map_values(|s: CodeSync| (s.code@.id, function_link_views(s.function_links@))),
        ),
        grants: replace_groups(
            before.grants,
            grant_code(),
            codes.map_values(|s: CodeSync| (s.code@.id, allowed_pair_views(s.grants@))),
        ),
        results: replace_groups(
            before.results,
            result_code(),
            codes.map_values(|s: CodeSync| (s.code@.id, planned_results(s))),
        ),
    }
}

/// The grant rows of one allowed permission message all belong to revision
/// `code_id`, and there is one per permission.
proof fn lemma_allowed_rows_tagged(code_id: Seq<char>, allowed: Seq<AllowedPermissionView>)
    ensures
        spec_allowed_rows(code_id, allowed).len() == granted_count(allowed),
        forall|j: int|
            0 <= j < spec_allowed_rows(code_id, allowed).len() ==> (#[trigger] spec_allowed_rows(
                code_id,
                allowed,
            )[j]).0.workflow_code_id == code_id,
    decreases allowed.len(),
{
    if allowed.len() > 0 {
        lemma_allowed_rows_tagged(code_id, allowed.drop_last());
        let prev = spec_allowed_rows(code_id, allowed.drop_last());
        let last = spec_allowed_group_rows(code_id, allowed.last());
        assert(spec_allowed_rows(code_id, allowed) == prev + last);
        assert forall|j: int|
            0 <= j < spec_allowed_rows(code_id, allowed).len() implies (#[trigger] spec_allowed_rows(
            code_id,
            allowed,
        )[j]).0.workflow_code_id == code_id by {
            if j < prev.len() {
                assert(spec_allowed_rows(code_id, allowed)[j] == prev[j]);
            } else {
                assert(spec_allowed_rows(code_id, allowed)[j] == last[j - prev.len()]);
            }
        }
    }
}

/// The planned writes ask, revision by revision, for exactly the rows of the
/// message.
proof fn lemma_plan_groups(p: WorkflowView, plan: WorkflowSync)
    requires
        is_workflow_sync(p, plan),
    ensures
        plan.codes@.map_values(|s: CodeSync| (s.code@.id, package_link_views(s.package_links@)))
            == message_package_links(p),
        plan.codes@.map_values(|s: CodeSync| (s.code@.id, function_link_views(s.function_links@)))
            == message_function_links(p),
        plan.codes@.map_values(|s: CodeSync| (s.code@.id, allowed_pair_views(s.grants@)))
            == message_grants(p),
        plan.codes@.map_values(|s: CodeSync| (s.code@.id, planned_results(s))) == message_results(p),
{
    let codes = plan.codes@;
    assert forall|i: int| 0 <= i < codes.len() implies {
        let s = #[trigger] codes[i];
        let c = p.workflow_code[i];
        &&& s.code@.id == c.id
        &&& planned_results(s) == code_result_rows(c, p.id)
    } by {
        let s = codes[i];
        let c = p.workflow_code[i];
        assert(is_code_sync(c, p.id, s));
        assert(planned_results(s) =~= code_result_rows(c, p.id));
    }
    assert(codes.map_values(|s: CodeSync| (s.code@.id, package_link_views(s.package_links@)))
        =~= message_package_links(p));
    assert(codes.map_values(|s: CodeSync| (s.code@.id, function_link_views(s.function_links@)))
        =~= message_function_links(p));
    assert(codes.map_values(|s: CodeSync| (s.code@.id, allowed_pair_views(s.grants@)))
        =~= message_grants(p));
    assert(codes.map_values(|s: CodeSync| (s.code@.id, planned_results(s))) =~= message_results(p));
}

/// With revision ids that do not repeat, the message's rows are tagged with
/// their revision.
proof fn lemma_message_groups_tagged(p: WorkflowView)
    requires
        code_ids(p).no_duplicates(),
    ensures
        well_tagged(message_package_links(p), package_link_code()),
        well_tagged(message_function_links(p), function_link_code()),
        well_tagged(message_grants(p), grant_code()),
        well_tagged(message_results(p), result_code()),
{
    assert(group_ids(message_package_links(p)) =~= code_ids(p));
    assert(group_ids(message_function_links(p)) =~= code_ids(p));
    assert(group_ids(message_grants(p)) =~= code_ids(p));
    assert(group_ids(message_results(p)) =~= code_ids(p));
    assert forall|i: int| 0 <= i < p.workflow_code.len() implies #[trigger] message_grants(p)[i].1
        == spec_allowed_rows(p.workflow_code[i].id, p.workflow_code[i].allowed_permissions) by {}
    assert forall|i: int, j: int|
        0 <= i < message_grants(p).len() && 0 <= j < message_grants(p)[i].1.len() implies grant_code()(
        #[trigger] message_grants(p)[i].1[j],
    ) == message_grants(p)[i].0 by {
        lemma_allowed_rows_tagged(p.workflow_code[i].id, p.workflow_code[i].allowed_permissions);
    }
}

/// After a workflow message is synchronised, each of its code revisions has
/// exactly the package links, function links, grants and results the message
/// gives it (one grant per granted permission), and a revision the message
/// does not hold keeps the rows it had. The message's revision ids must not
/// repeat; the store's row ids are left aside.
pub proof fn lemma_workflow_sync_leaves_message_relations(
    p: WorkflowView,
    plan: WorkflowSync,
    before: RelationRows,
)
    requires
        is_workflow_sync(p, plan),
        code_ids(p).no_duplicates(),
    ensures
        ({
            let after = sync_relations(before, plan);
            &&& forall|i: int|
                0 <= i < p.workflow_code.len() ==> {
                    let c = #[trigger] p.workflow_code[i];
                    &&& rows_of_code(after.package_links, package_link_code(), c.id)
                        == spec_package_links(c.id, c.plugin_packages)
                    &&& rows_of_code(after.function_links, function_link_code(), c.id)
                        == spec_function_links(c.id, c.plugin_function_ids)
                    &&& rows_of_code(after.grants, grant_code(), c.id) == spec_allowed_rows(
                        c.id,
                        c.allowed_permissions,
                    )
                    &&& rows_of_code(after.grants, grant_code(), c.id).len() == granted_count(
                        c.allowed_permissions,
                    )
                    &&& rows_of_code(after.results, result_code(), c.id) == code_result_rows(c, p.id)
                }
            &&& forall|id: Seq<char>|
                !code_ids(p).contains(id) ==> {
                    &&& #[trigger] rows_of_code(after.package_links, package_link_code(), id)
                        == rows_of_code(before.package_links, package_link_code(), id)
                    &&& rows_of_code(after.function_links, function_link_code(), id)
                        == rows_of_code(before.function_links, function_link_code(), id)
                    &&& rows_of_code(after.grants, grant_code(), id) == rows_of_code(
                        before.grants,
                        grant_code(),
                        id,
                    )
                    &&& rows_of_code(after.results, result_code(), id) == rows_of_code(
                        before.results,
                        result_code(),
                        id,
                    )
                }
        }),
{
    lemma_plan_groups(p, plan);
    lemma_message_groups_tagged(p);
    assert(group_ids(message_package_links(p)) =~= code_ids(p));
    assert(group_ids(message_function_links(p)) =~= code_ids(p));
    assert(group_ids(message_grants(p)) =~= code_ids(p));
    assert(group_ids(message_results(p)) =~= code_ids(p));
    assert forall|i: int| 0 <= i < p.workflow_code.len() implies {
        let c = #[trigger] p.workflow_code[i];
        let after = sync_relations(before, plan);
        &&& rows_of_code(after.package_links, package_link_code(), c.id) == spec_package_links(
            c.id,
            c.plugin_packages,
        )
        &&& rows_of_code(after.function_links, function_link_code(), c.id) == spec_function_links(
            c.id,
            c.plugin_function_ids,
        )
        &&& rows_of_code(after.grants, grant_code(), c.id) == spec_allowed_rows(
            c.id,
            c.allowed_permissions,
        )
        &&& rows_of_code(after.grants, grant_code(), c.id).len() == granted_count(
            c.allowed_permissions,
        )
        &&& rows_of_code(after.results, result_code(), c.id) == code_result_rows(c, p.id)
    } by {
        let c = p.workflow_code[i];
        lemma_replace_groups_rows_of(before.package_links, package_link_code(), message_package_links(p), c.id);
        lemma_replace_groups_rows_of(before.function_links, function_link_code(), message_function_links(p), c.id);
        lemma_replace_groups_rows_of(before.grants, grant_code(), message_grants(p), c.id);
        lemma_replace_groups_rows_of(before.results, result_code(), message_results(p), c.id);
        assert(message_package_links(p)[i].0 == c.id);
        assert(message_function_links(p)[i].0 == c.id);
        assert(message_grants(p)[i].0 == c.id);
        assert(message_results(p)[i].0 == c.id);
        lemma_allowed_rows_tagged(c.id, c.allowed_permissions);
    }
    let after = sync_relations(before, plan);
    assert forall|id: Seq<char>| !code_ids(p).contains(id) implies {
        &&& #[trigger] rows_of_code(after.package_links, package_link_code(), id) == rows_of_code(
            before.package_links,
            package_link_code(),
            id,
        )
        &&& rows_of_code(after.function_links, function_link_code(), id) == rows_of_code(
            before.function_links,
            function_link_code(),
            id,
        )
        &&& rows_of_code(after.grants, grant_code(), id) == rows_of_code(before.grants, grant_code(), id)
        &&& rows_of_code(after.results, result_code(), id) == rows_of_code(
            before.results,
            result_code(),
            id,
        )
    } by {
        lemma_replace_groups_rows_of(before.package_links, package_link_code(), message_package_links(p), id);
        lemma_replace_groups_rows_of(before.function_links, function_link_code(), message_function_links(p), id);
        lemma_replace_groups_rows_of(before.grants, grant_code(), message_grants(p), id);
        lemma_replace_groups_rows_of(before.results, result_code(), message_results(p), id);
    }
}

/// Synchronising the same workflow message a second time leaves the relation
/// tables as the first synchronisation left them (the store's row ids aside).
/// The message's revision ids must not repeat.
pub proof fn lemma_workflow_sync_twice(
    p: WorkflowView,
    first: WorkflowSync,
    second: WorkflowSync,
    before: RelationRows,
)
    requires
        is_workflow_sync(p, first),
        is_workflow_sync(p, second),
        code_ids(p).no_duplicates(),
    ensures
        sync_relations(sync_relations(before, first), second) == sync_relations(before, first),
{
    lemma_plan_groups(p, first);
    lemma_plan_groups(p, second);
    lemma_message_groups_tagged(p);
    lemma_replace_groups_twice(before.package_links, package_link_code(), message_package_links(p));
    lemma_replace_groups_twice(before.function_links, function_link_code(), message_function_links(p));
    lemma_replace_groups_twice(before.grants, grant_code(), message_grants(p));
    lemma_replace_groups_twice(before.results, result_code(), message_results(p));
}

} // verus!
