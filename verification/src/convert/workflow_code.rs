//! Workflow code revisions, their link rows, allowed permissions and results:
//! rows and protocol messages in both directions.
use crate::convert::plugin_code::{
    lemma_permission_roundtrip, permission_to_proto, plugin_package_to_proto,
    proto_string_to_option, proto_to_permission, spec_permission_to_proto,
    spec_plugin_package_to_proto, spec_proto_to_permission,
};
use crate::entity::permission::{Model as EntityPermission, ModelView as PermissionRow};
use crate::entity::plugin_package::Model as EntityPluginPackage;
use crate::entity::workflow_code::{Model as EntityWorkflowCode, ModelView as CodeRow};
use crate::entity::workflow_code_allowed_permission::{
    Model as EntityWCAllowed, ModelView as AllowedRow,
};
use crate::entity::workflow_code_plugin_function::{
    Model as EntityWCPluginFunction, ModelView as FunctionLinkRow,
};
use crate::entity::workflow_code_plugin_package::{
    Model as EntityWCPluginPackage, ModelView as PackageLinkRow,
};
use crate::entity::workflow_result::{Model as EntityWorkflowResult, ModelView as ResultRow};
use crate::proto::{
    allowed_views, duplicate_results, package_views, permission_views, result_views,
    AllowedPermission, AllowedPermissionView, Permission, PermissionView, PluginPackage,
    PluginPackageView, WorkflowCode, WorkflowCodeView, WorkflowResult, WorkflowResultView,
};
use crate::resource_json::{spec_resource_json_of, spec_resources_of};
use crate::text::{insert_sorted_text, sorted_texts, spec_string_to_option, strs};
use crate::timestamp::{
    opt_datetime_to_proto_timestamp, opt_proto_timestamp_to_datetime, spec_opt_datetime_of, spec_opt_proto_of,
};
use vstd::prelude::*;

verus! {

/// The row for a workflow code message of workflow `workflow_id`.
pub open spec fn spec_proto_to_workflow_code(p: WorkflowCodeView, workflow_id: Seq<char>) -> CodeRow {
    CodeRow {
        id: p.id,
        workflow_id,
        code_revision: p.code_revision,
        code: p.code,
        language: p.language,
        created_at: spec_opt_datetime_of(p.created_at),
    }
}

/// The link rows for the packages a workflow code uses, one per package in
/// order, with row id 0.
pub open spec fn spec_package_links(
    workflow_code_id: Seq<char>,
    packages: Seq<PluginPackageView>,
) -> Seq<PackageLinkRow> {
    packages.map_values(
        |p: PluginPackageView|
            PackageLinkRow { id: 0, workflow_code_id, plugin_package_id: p.package_id },
    )
}

/// The link rows for the functions a workflow code uses, one per function id
/// in order, with row id 0.
pub open spec fn spec_function_links(
    workflow_code_id: Seq<char>,
    function_ids: Seq<Seq<char>>,
) -> Seq<FunctionLinkRow> {
    function_ids.map_values(
        |f: Seq<char>| FunctionLinkRow { id: 0, workflow_code_id, plugin_function_id: f },
    )
}

/// The (grant, permission) row pairs for the permissions of one allowed
/// permission message: new rows, with ids 0.
pub open spec fn spec_allowed_group_rows(
    workflow_code_id: Seq<char>,
    allowed: AllowedPermissionView,
) -> Seq<(AllowedRow, PermissionRow)> {
    allowed.permissions.map_values(
        |p: PermissionView|
            (
                AllowedRow { id: 0, workflow_code_id, permission_id: 0 },
                spec_proto_to_permission(p, allowed.plugin_function_id, None),
            ),
    )
}

/// The (grant, permission) row pairs for a list of allowed permission
/// messages, flattened in order.
pub open spec fn spec_allowed_rows(
    workflow_code_id: Seq<char>,
    allowed: Seq<AllowedPermissionView>,
) -> Seq<(AllowedRow, PermissionRow)>
    decreases allowed.len(),
{
    if allowed.len() == 0 {
        Seq::empty()
    } else {
        spec_allowed_rows(workflow_code_id, allowed.drop_last()) + spec_allowed_group_rows(
            workflow_code_id,
            allowed.last(),
        )
    }
}

/// The row for a result message of code `workflow_code_id` in workflow
/// `workflow_id`; the exit code is always stored.
pub open spec fn spec_proto_to_workflow_result(
    p: WorkflowResultView,
    workflow_id: Seq<char>,
    workflow_code_id: Seq<char>,
) -> ResultRow {
    ResultRow {
        id: p.id,
        workflow_id,
        workflow_code_id,
        display_name: spec_string_to_option(p.display_name),
        description: spec_string_to_option(p.description),
        result: spec_string_to_option(p.result),
        ran_at: spec_opt_datetime_of(p.ran_at),
        result_type: p.result_type,
        exit_code: Some(p.exit_code),
        workflow_result_revision: p.workflow_result_revision,
    }
}

/// The message for a workflow code row, with no relations attached.
pub open spec fn spec_workflow_code_to_proto(e: CodeRow) -> WorkflowCodeView {
    WorkflowCodeView {
        id: e.id,
        code_revision: e.code_revision,
        code: e.code,
        language: e.language,
        created_at: spec_opt_proto_of(e.created_at),
        result: Seq::empty(),
        plugin_packages: Seq::empty(),
        plugin_function_ids: Seq::empty(),
        allowed_permissions: Seq::empty(),
    }
}

/// The views of a list of package link rows.
pub open spec fn package_link_views(v: Seq<EntityWCPluginPackage>) -> Seq<PackageLinkRow> {
    v.map_values(|x: EntityWCPluginPackage| x@)
}

/// The views of a list of function link rows.
pub open spec fn function_link_views(v: Seq<EntityWCPluginFunction>) -> Seq<FunctionLinkRow> {
    v.map_values(|x: EntityWCPluginFunction| x@)
}

/// The views of a list of (grant, permission) row pairs.
pub open spec fn allowed_pair_views(v: Seq<(EntityWCAllowed, EntityPermission)>) -> Seq<
    (AllowedRow, PermissionRow),
> {
    v.map_values(|x: (EntityWCAllowed, EntityPermission)| (x.0@, x.1@))
}

/// Converts a workflow code message into its row, in workflow `workflow_id`.
/// Relations are left to the caller.
pub fn proto_to_workflow_code(proto: &WorkflowCode, workflow_id: String) -> (r: EntityWorkflowCode)
    ensures
        r@ == spec_proto_to_workflow_code(proto@, workflow_id@),
{
    EntityWorkflowCode {
        id: proto.id.clone(),
        workflow_id,
        code_revision: proto.code_revision,
        code: proto.code.clone(),
        language: proto.language,
        created_at: opt_proto_timestamp_to_datetime(&proto.created_at),
    }
}

/// The link rows tying workflow code `workflow_code_id` to the packages it
/// uses, with row id 0 so that the database assigns one.
pub fn proto_to_workflow_code_plugin_packages(
    workflow_code_id: String,
    packages: &[PluginPackage],
) -> (r: Vec<EntityWCPluginPackage>)
    ensures
        package_link_views(r@) == spec_package_links(workflow_code_id@, package_views(packages@)),
{
    let mut out: Vec<EntityWCPluginPackage> = Vec::new();
    let mut i: usize = 0;
    while i < packages.len()
        invariant
            i <= packages@.len(),
            out@.len() == i,
            forall|j: int|
                0 <= j < i ==> (#[trigger] out@[j])@ == (PackageLinkRow {
                    id: 0,
                    workflow_code_id: workflow_code_id@,
                    plugin_package_id: packages@[j].package_id@,
                }),
        decreases packages@.len() - i,
    {
        out.push(
            EntityWCPluginPackage {
                id: 0,
                workflow_code_id: workflow_code_id.clone(),
                plugin_package_id: packages[i].package_id.clone(),
            },
        );
        i = i + 1;
    }
    proof {
        assert(package_link_views(out@) =~= spec_package_links(
            workflow_code_id@,
            package_views(packages@),
        ));
    }
    out
}

/// The link rows tying workflow code `workflow_code_id` to the functions it
/// uses, with row id 0 so that the database assigns one.
pub fn proto_to_workflow_code_plugin_functions(
    workflow_code_id: String,
    plugin_function_ids: &[String],
) -> (r: Vec<EntityWCPluginFunction>)
    ensures
        function_link_views(r@) == spec_function_links(
            workflow_code_id@,
            strs(plugin_function_ids@),
        ),
{
    let mut out: Vec<EntityWCPluginFunction> = Vec::new();
    let mut i: usize = 0;
    while i < plugin_function_ids.len()
        invariant
            i <= plugin_function_ids@.len(),
            out@.len() == i,
            forall|j: int|
                0 <= j < i ==> (#[trigger] out@[j])@ == (FunctionLinkRow {
                    id: 0,
                    workflow_code_id: workflow_code_id@,
                    plugin_function_id: plugin_function_ids@[j]@,
                }),
        decreases plugin_function_ids@.len() - i,
    {
        out.push(
            EntityWCPluginFunction {
                id: 0,
                workflow_code_id: workflow_code_id.clone(),
                plugin_function_id: plugin_function_ids[i].clone(),
            },
        );
        i = i + 1;
    }
    proof {
        assert(function_link_views(out@) =~= spec_function_links(
            workflow_code_id@,
            strs(plugin_function_ids@),
        ));
    }
    out
}

/// Flattens allowed permission messages into (grant, permission) row pairs,
/// in order. Both rows get id 0: the caller inserts the permission first and
/// then points the grant at the id the database gave it.
pub fn proto_allowed_permissions_to_entities(
    workflow_code_id: String,
    allowed_permissions: &[AllowedPermission],
) -> (r: Vec<(EntityWCAllowed, EntityPermission)>)
    ensures
        allowed_pair_views(r@) == spec_allowed_rows(
            workflow_code_id@,
            allowed_views(allowed_permissions@),
        ),
{
    let ghost aps = allowed_views(allowed_permissions@);
    let mut out: Vec<(EntityWCAllowed, EntityPermission)> = Vec::new();
    let mut i: usize = 0;
    proof {
        assert(allowed_pair_views(out@) =~= spec_allowed_rows(workflow_code_id@, aps.take(0)));
    }
    while i < allowed_permissions.len()
        invariant
            i <= allowed_permissions@.len(),
            aps == allowed_views(allowed_permissions@),
            allowed_pair_views(out@) == spec_allowed_rows(workflow_code_id@, aps.take(i as int)),
        decreases allowed_permissions@.len() - i,
    {
        let allowed = &allowed_permissions[i];
        let ghost start = out@;
        let mut j: usize = 0;
        while j < allowed.permissions.len()
            invariant
                j <= allowed.permissions@.len(),
                start.len() <= out@.len(),
                out@.subrange(0, start.len() as int) == start,
                allowed_pair_views(out@.subrange(start.len() as int, out@.len() as int))
                    == spec_allowed_group_rows(workflow_code_id@, allowed@).take(j as int),
            decreases allowed.permissions@.len() - j,
        {
            let ghost before = out@;
            let permission = proto_to_permission(
                &allowed.permissions[j],
                allowed.plugin_function_id.clone(),
                None,
            );
            let relation = EntityWCAllowed {
                id: 0,
                workflow_code_id: workflow_code_id.clone(),
                permission_id: permission.id,
            };
            out.push((relation, permission));
            proof {
                assert(before.subrange(0, start.len() as int) == start);
                assert(out@.subrange(0, start.len() as int) =~= before.subrange(
                    0,
                    start.len() as int,
                ));
                assert(out@.subrange(start.len() as int, out@.len() as int) =~= before.subrange(
                    start.len() as int,
                    before.len() as int,
                ).push((relation, permission)));
                assert(allowed.permissions@[j as int]@ == allowed@.permissions[j as int]);
                let group = spec_allowed_group_rows(workflow_code_id@, allowed@);
                let tail_before = before.subrange(start.len() as int, before.len() as int);
                assert(allowed_pair_views(tail_before.push((relation, permission)))
                    =~= allowed_pair_views(tail_before).push((relation@, permission@)));
                assert(group[j as int] == (relation@, permission@));
                assert(group.take(j + 1) =~= group.take(j as int).push(group[j as int]));
                assert(allowed_pair_views(out@.subrange(start.len() as int, out@.len() as int))
                    =~= group.take(j + 1));
            }
            j = j + 1;
        }
        proof {
            assert(out@ =~= start + out@.subrange(start.len() as int, out@.len() as int));
            assert(allowed_pair_views(out@) =~= allowed_pair_views(start) + allowed_pair_views(
                out@.subrange(start.len() as int, out@.len() as int),
            ));
            assert(spec_allowed_group_rows(workflow_code_id@, allowed@).take(j as int)
                =~= spec_allowed_group_rows(workflow_code_id@, allowed@));
            assert(aps.take(i + 1).drop_last() =~= aps.take(i as int));
            assert(aps.take(i + 1).last() == allowed@);
        }
        i = i + 1;
    }
    proof {
        assert(aps.take(allowed_permissions@.len() as int) =~= aps);
    }
    out
}

/// Converts a result message into its row for code `workflow_code_id` of
/// workflow `workflow_id`.
pub fn proto_to_workflow_result(
    proto: &WorkflowResult,
    workflow_id: String,
    workflow_code_id: String,
) -> (r: EntityWorkflowResult)
    ensures
        r@ == spec_proto_to_workflow_result(proto@, workflow_id@, workflow_code_id@),
{
    EntityWorkflowResult {
        id: proto.id.clone(),
        workflow_id,
        workflow_code_id,
        display_name: proto_string_to_option(proto.display_name.as_str()),
        description: proto_string_to_option(proto.description.as_str()),
        result: proto_string_to_option(proto.result.as_str()),
        ran_at: opt_proto_timestamp_to_datetime(&proto.ran_at),
        result_type: proto.result_type,
        exit_code: Some(proto.exit_code),
        workflow_result_revision: proto.workflow_result_revision,
    }
}

/// Converts a workflow code row into its message, with no relations attached.
pub fn workflow_code_to_proto(entity: &EntityWorkflowCode) -> (r: WorkflowCode)
    ensures
        r@ == spec_workflow_code_to_proto(entity@),
{
    let r = WorkflowCode {
        id: entity.id.clone(),
        code_revision: entity.code_revision,
        code: entity.code.clone(),
        language: entity.language,
        created_at: opt_datetime_to_proto_timestamp(&entity.created_at),
        result: Vec::new(),
        plugin_packages: Vec::new(),
        plugin_function_ids: Vec::new(),
        allowed_permissions: Vec::new(),
    };
    proof {
        assert(r@ =~= spec_workflow_code_to_proto(entity@));
    }
    r
}

/// The views of (grant, optional permission) row pairs as loaded together.
pub open spec fn grant_views(v: Seq<(EntityWCAllowed, Option<EntityPermission>)>) -> Seq<
    (AllowedRow, Option<PermissionRow>),
> {
    v.map_values(
        |x: (EntityWCAllowed, Option<EntityPermission>)|
            (
                x.0@,
                match x.1 {
                    Some(p) => Some(p@),
                    None => None,
                },
            ),
    )
}

/// The permission messages granted to function `function_id` by a list of
/// loaded grants, in order; grants whose permission row is missing are
/// skipped.
pub open spec fn granted_permissions(
    items: Seq<(AllowedRow, Option<PermissionRow>)>,
    function_id: Seq<char>,
) -> Seq<PermissionView>
    decreases items.len(),
{
    if items.len() == 0 {
        Seq::empty()
    } else {
        let prev = granted_permissions(items.drop_last(), function_id);
        match items.last().1 {
            Some(p) => if p.plugin_function_id == function_id {
                prev.push(spec_permission_to_proto(p))
            } else {
                prev
            },
            None => prev,
        }
    }
}

/// Whether `groups` is the grouping of loaded grants `items`: one group per
/// function that holds at least one granted permission, in strictly
/// increasing text order of the function id, each holding that function's
/// permissions in load order.
pub open spec fn is_grouping_of(
    items: Seq<(AllowedRow, Option<PermissionRow>)>,
    groups: Seq<AllowedPermissionView>,
) -> bool {
    &&& sorted_texts(groups.map_values(|a: AllowedPermissionView| a.plugin_function_id))
    &&& forall|i: int|
        0 <= i < groups.len() ==> (#[trigger] groups[i]).permissions == granted_permissions(
            items,
            groups[i].plugin_function_id,
        ) && groups[i].permissions.len() > 0
    &&& forall|f: Seq<char>|
        granted_permissions(items, f).len() > 0 ==> groups.map_values(
            |a: AllowedPermissionView| a.plugin_function_id,
        ).contains(f)
}

/// Groups loaded grants into allowed permission messages: one per function
/// that holds at least one granted permission, in text order of the function
/// id, each with that function's permissions in load order. A missing level
/// reads as `Unspecified`.
pub fn allowed_permissions_to_proto(items: &[(EntityWCAllowed, Option<EntityPermission>)]) -> (r:
    Vec<AllowedPermission>)
    ensures
        is_grouping_of(grant_views(items@), allowed_views(r@)),
{
    let ghost g = grant_views(items@);
    let mut ids: Vec<String> = Vec::new();
    let mut k: usize = 0;
    proof {
        assert(strs(ids@) =~= Seq::<Seq<char>>::empty());
    }
    while k < items.len()
        invariant
            k <= items@.len(),
            g == grant_views(items@),
            sorted_texts(strs(ids@)),
            forall|i: int|
                0 <= i < ids@.len() ==> granted_permissions(g.take(k as int), #[trigger] strs(ids@)[i]).len() > 0,
            forall|f: Seq<char>|
                granted_permissions(g.take(k as int), f).len() > 0 ==> #[trigger] strs(ids@).contains(f),
        decreases items@.len() - k,
    {
        let ghost before = strs(ids@);
        proof {
            assert(g.take(k + 1).drop_last() =~= g.take(k as int));
            assert(g.take(k + 1).last() == g[k as int]);
        }
        match &items[k].1 {
            Some(p) => {
                insert_sorted_text(&mut ids, p.plugin_function_id.clone());
                proof {
                    assert forall|i: int| 0 <= i < ids@.len() implies granted_permissions(
                        g.take(k + 1),
                        #[trigger] strs(ids@)[i],
                    ).len() > 0 by {
                        let t = strs(ids@)[i];
                        assert(strs(ids@).contains(t));
                        if t != p@.plugin_function_id {
                            let j = choose|j: int| 0 <= j < before.len() && before[j] == t;
                            assert(granted_permissions(g.take(k as int), before[j]).len() > 0);
                        }
                    }
                    assert forall|f: Seq<char>| granted_permissions(g.take(k + 1), f).len()
                        > 0 implies #[trigger] strs(ids@).contains(f) by {
                        if f != p@.plugin_function_id {
                            assert(granted_permissions(g.take(k + 1), f) == granted_permissions(
                                g.take(k as int),
                                f,
                            ));
                            assert(before.contains(f));
                        }
                    }
                }
            },
            None => {
                proof {
                    assert forall|f: Seq<char>| #![auto] granted_permissions(g.take(k + 1), f)
                        == granted_permissions(g.take(k as int), f) by {}
                }
            },
        }
        k = k + 1;
    }
    proof {
        assert(g.take(items@.len() as int) =~= g);
    }
    let mut out: Vec<AllowedPermission> = Vec::new();
    let mut i: usize = 0;
    while i < ids.len()
        invariant
            i <= ids@.len(),
            out@.len() == i,
            g == grant_views(items@),
            forall|j: int|
                0 <= j < i ==> (#[trigger] out@[j])@.plugin_function_id == strs(ids@)[j]
                    && out@[j]@.permissions == granted_permissions(g, strs(ids@)[j]),
        decreases ids@.len() - i,
    {
        let id = &ids[i];
        let mut perms: Vec<Permission> = Vec::new();
        let mut m: usize = 0;
        proof {
            assert(permission_views(perms@) =~= granted_permissions(g.take(0), id@));
        }
        while m < items.len()
            invariant
                m <= items@.len(),
                g == grant_views(items@),
                permission_views(perms@) == granted_permissions(g.take(m as int), id@),
            decreases items@.len() - m,
        {
            proof {
                assert(g.take(m + 1).drop_last() =~= g.take(m as int));
                assert(g.take(m + 1).last() == g[m as int]);
            }
            match &items[m].1 {
                Some(p) => {
                    if p.plugin_function_id == *id {
                        let pp = permission_to_proto(p);
                        perms.push(pp);
                        proof {
                            assert(permission_views(perms@) =~= granted_permissions(
                                g.take(m as int),
                                id@,
                            ).push(pp@));
                        }
                    }
                },
                None => {},
            }
            m = m + 1;
        }
        proof {
            assert(g.take(items@.len() as int) =~= g);
        }
        out.push(AllowedPermission { plugin_function_id: id.clone(), permissions: perms });
        i = i + 1;
    }
    proof {
        let groups = allowed_views(out@);
        let fids = groups.map_values(|a: AllowedPermissionView| a.plugin_function_id);
        assert(fids =~= strs(ids@));
        assert forall|j: int| 0 <= j < groups.len() implies (#[trigger] groups[j]).permissions
            == granted_permissions(g, groups[j].plugin_function_id)
            && groups[j].permissions.len() > 0 by {
            assert(out@[j]@ == groups[j]);
            assert(granted_permissions(g, strs(ids@)[j]).len() > 0);
        }
    }
    out
}

/// The messages for a list of package rows, without functions, in order.
pub open spec fn spec_packages_to_proto(v: Seq<EntityPluginPackage>) -> Seq<PluginPackageView> {
    v.map_values(|e: EntityPluginPackage| spec_plugin_package_to_proto(e@))
}

/// Converts package rows into their messages, without functions, in order.
pub fn plugin_packages_to_proto(entities: &[EntityPluginPackage]) -> (r: Vec<PluginPackage>)
    ensures
        package_views(r@) == spec_packages_to_proto(entities@),
{
    let mut out: Vec<PluginPackage> = Vec::new();
    let mut i: usize = 0;
    while i < entities.len()
        invariant
            i <= entities@.len(),
            out@.len() == i,
            forall|j: int|
                0 <= j < i ==> (#[trigger] out@[j])@ == spec_plugin_package_to_proto(entities@[j]@),
        decreases entities@.len() - i,
    {
        out.push(plugin_package_to_proto(&entities[i]));
        i = i + 1;
    }
    proof {
        assert(package_views(out@) =~= spec_packages_to_proto(entities@));
    }
    out
}

/// Converts a workflow code row into its message and attaches the relations
/// the caller has loaded: results as given, package rows as messages without
/// functions, function ids as given, and grants grouped by function (see
/// [`allowed_permissions_to_proto`]). A relation not given stays empty.
pub fn workflow_code_to_proto_with_relations(
    entity: &EntityWorkflowCode,
    result: Option<&[WorkflowResult]>,
    plugin_packages: Option<&[EntityPluginPackage]>,
    plugin_function_ids: Option<&[String]>,
    allowed_permissions: Option<&[(EntityWCAllowed, Option<EntityPermission>)]>,
) -> (r: WorkflowCode)
    ensures
        r@.id == entity@.id,
        r@.code_revision == entity@.code_revision,
        r@.code == entity@.code,
        r@.language == entity@.language,
        r@.created_at == spec_opt_proto_of(entity@.created_at),
        r@.result == match result {
            Some(v) => result_views(v@),
            None => Seq::empty(),
        },
        r@.plugin_packages == match plugin_packages {
            Some(v) => spec_packages_to_proto(v@),
            None => Seq::empty(),
        },
        r@.plugin_function_ids == match plugin_function_ids {
            Some(v) => strs(v@),
            None => Seq::empty(),
        },
        match allowed_permissions {
            Some(v) => is_grouping_of(grant_views(v@), r@.allowed_permissions),
            None => r@.allowed_permissions == Seq::<AllowedPermissionView>::empty(),
        },
{
    let mut p = workflow_code_to_proto(entity);
    match result {
        Some(v) => {
            p.result = duplicate_results(v);
        },
        None => {},
    }
    match plugin_packages {
        Some(v) => {
            p.plugin_packages = plugin_packages_to_proto(v);
        },
        None => {},
    }
    match plugin_function_ids {
        Some(v) => {
            let mut ids: Vec<String> = Vec::new();
            let mut i: usize = 0;
            while i < v.len()
                invariant
                    i <= v@.len(),
                    ids@ == v@.take(i as int),
                decreases v@.len() - i,
            {
                ids.push(v[i].clone());
                i = i + 1;
                proof {
                    assert(ids@ =~= v@.take(i as int));
                }
            }
            proof {
                assert(v@.take(v@.len() as int) =~= v@);
            }
            p.plugin_function_ids = ids;
        },
        None => {},
    }
    match allowed_permissions {
        Some(v) => {
            p.allowed_permissions = allowed_permissions_to_proto(v);
        },
        None => {},
    }
    p
}

/// The permissions that a list of allowed permission messages grants to
/// function `function_id`, entry by entry in order.
pub open spec fn declared_grants(
    allowed: Seq<AllowedPermissionView>,
    function_id: Seq<char>,
) -> Seq<PermissionView>
    decreases allowed.len(),
{
    if allowed.len() == 0 {
        Seq::empty()
    } else {
        let prev = declared_grants(allowed.drop_last(), function_id);
        if allowed.last().plugin_function_id == function_id {
            prev + allowed.last().permissions
        } else {
            prev
        }
    }
}

/// Stored (grant, permission) pairs as they load back: every grant finds its
/// permission.
pub open spec fn as_loaded(rows: Seq<(AllowedRow, PermissionRow)>) -> Seq<
    (AllowedRow, Option<PermissionRow>),
> {
    rows.map_values(|r: (AllowedRow, PermissionRow)| (r.0, Some(r.1)))
}

/// Whether every permission of the messages survives its resources' trip
/// through their JSON text.
pub open spec fn resources_round_trip(allowed: Seq<AllowedPermissionView>) -> bool {
    forall|i: int, j: int|
        0 <= i < allowed.len() && 0 <= j < allowed[i].permissions.len() ==> {
            let p = #[trigger] allowed[i].permissions[j];
            spec_resources_of(spec_resource_json_of(p.resource)) == p.resource
        }
}

/// The loaded permissions of a concatenation are those of its parts.
pub proof fn lemma_granted_permissions_concat(
    a: Seq<(AllowedRow, Option<PermissionRow>)>,
    b: Seq<(AllowedRow, Option<PermissionRow>)>,
    function_id: Seq<char>,
)
    ensures
        granted_permissions(a + b, function_id) == granted_permissions(a, function_id)
            + granted_permissions(b, function_id),
    decreases b.len(),
{
    if b.len() == 0 {
        assert(a + b =~= a);
        assert(granted_permissions(a, function_id) + granted_permissions(b, function_id)
            =~= granted_permissions(a, function_id));
    } else {
        assert((a + b).drop_last() =~= a + b.drop_last());
        assert((a + b).last() == b.last());
        lemma_granted_permissions_concat(a, b.drop_last(), function_id);
        let ga = granted_permissions(a, function_id);
        let gb = granted_permissions(b.drop_last(), function_id);
        match b.last().1 {
            Some(p) => {
                if p.plugin_function_id == function_id {
                    assert(ga + gb.push(spec_permission_to_proto(p)) =~= (ga + gb).push(
                        spec_permission_to_proto(p),
                    ));
                }
            },
            None => {},
        }
    }
}

/// The loaded permissions of one message's rows: its permissions, read back,
/// when it names the function, none otherwise.
pub proof fn lemma_group_rows_read_back(
    workflow_code_id: Seq<char>,
    allowed: AllowedPermissionView,
    function_id: Seq<char>,
)
    requires
        forall|j: int|
            0 <= j < allowed.permissions.len() ==> {
                let p = #[trigger] allowed.permissions[j];
                spec_resources_of(spec_resource_json_of(p.resource)) == p.resource
            },
    ensures
        granted_permissions(
            as_loaded(spec_allowed_group_rows(workflow_code_id, allowed)),
            function_id,
        ) == if allowed.plugin_function_id == function_id {
            allowed.permissions
        } else {
            Seq::empty()
        },
    decreases allowed.permissions.len(),
{
    let rows = as_loaded(spec_allowed_group_rows(workflow_code_id, allowed));
    if allowed.permissions.len() > 0 {
        let shorter = AllowedPermissionView {
            permissions: allowed.permissions.drop_last(),
            ..allowed
        };
        assert forall|j: int| 0 <= j < shorter.permissions.len() implies {
            let p = #[trigger] shorter.permissions[j];
            spec_resources_of(spec_resource_json_of(p.resource)) == p.resource
        } by {
            assert(shorter.permissions[j] == allowed.permissions[j]);
        }
        lemma_group_rows_read_back(workflow_code_id, shorter, function_id);
        assert(rows.drop_last() =~= as_loaded(spec_allowed_group_rows(workflow_code_id, shorter)));
        let last = allowed.permissions.last();
        assert(last == allowed.permissions[allowed.permissions.len() - 1]);
        lemma_permission_roundtrip(last, allowed.plugin_function_id, None);
        assert(rows.last() == (
            AllowedRow { id: 0, workflow_code_id, permission_id: 0 },
            Some(spec_proto_to_permission(last, allowed.plugin_function_id, None)),
        ));
        if allowed.plugin_function_id == function_id {
            assert(shorter.permissions.push(last) =~= allowed.permissions);
        }
    } else {
        assert(rows.len() == 0);
        assert(allowed.permissions =~= Seq::<PermissionView>::empty());
    }
}

/// Grants read back as written: the permission rows stored for a list of
/// allowed permission messages, loaded back, grant each function exactly
/// the permissions the messages listed for it, in order.
pub proof fn lemma_allowed_permissions_read_back(
    workflow_code_id: Seq<char>,
    allowed: Seq<AllowedPermissionView>,
    function_id: Seq<char>,
)
    requires
        resources_round_trip(allowed),
    ensures
        granted_permissions(as_loaded(spec_allowed_rows(workflow_code_id, allowed)), function_id)
            == declared_grants(allowed, function_id),
    decreases allowed.len(),
{
    if allowed.len() > 0 {
        let prev = allowed.drop_last();
        assert forall|i: int, j: int|
            0 <= i < prev.len() && 0 <= j < prev[i].permissions.len() implies {
            let p = #[trigger] prev[i].permissions[j];
            spec_resources_of(spec_resource_json_of(p.resource)) == p.resource
        } by {
            assert(prev[i] == allowed[i]);
        }
        lemma_allowed_permissions_read_back(workflow_code_id, prev, function_id);
        let last = allowed.last();
        assert(last == allowed[allowed.len() - 1]);
        assert forall|j: int| 0 <= j < last.permissions.len() implies {
            let p = #[trigger] last.permissions[j];
            spec_resources_of(spec_resource_json_of(p.resource)) == p.resource
        } by {
            assert(last.permissions[j] == allowed[allowed.len() - 1].permissions[j]);
        }
        lemma_group_rows_read_back(workflow_code_id, last, function_id);
        let a = spec_allowed_rows(workflow_code_id, prev);
        let b = spec_allowed_group_rows(workflow_code_id, last);
        assert(as_loaded(a + b) =~= as_loaded(a) + as_loaded(b));
        lemma_granted_permissions_concat(as_loaded(a), as_loaded(b), function_id);
        if last.plugin_function_id != function_id {
            assert(declared_grants(prev, function_id) + Seq::<PermissionView>::empty()
                =~= declared_grants(prev, function_id));
        }
    }
}

/// A workflow code's grants, written from its allowed permission messages
/// and loaded back grouped, give each listed function the permissions the
/// messages listed for it, and list every function that was granted one.
pub proof fn lemma_grouped_grants_read_back(
    workflow_code_id: Seq<char>,
    allowed: Seq<AllowedPermissionView>,
    groups: Seq<AllowedPermissionView>,
)
    requires
        resources_round_trip(allowed),
        is_grouping_of(as_loaded(spec_allowed_rows(workflow_code_id, allowed)), groups),
    ensures
        forall|i: int|
            0 <= i < groups.len() ==> (#[trigger] groups[i]).permissions == declared_grants(
                allowed,
                groups[i].plugin_function_id,
            ),
        forall|f: Seq<char>|
            declared_grants(allowed, f).len() > 0 ==> groups.map_values(
                |a: AllowedPermissionView| a.plugin_function_id,
            ).contains(f),
{
    assert forall|i: int| 0 <= i < groups.len() implies (#[trigger] groups[i]).permissions
        == declared_grants(allowed, groups[i].plugin_function_id) by {
        lemma_allowed_permissions_read_back(workflow_code_id, allowed, groups[i].plugin_function_id);
    }
    assert forall|f: Seq<char>| declared_grants(allowed, f).len() > 0 implies groups.map_values(
        |a: AllowedPermissionView| a.plugin_function_id,
    ).contains(f) by {
        lemma_allowed_permissions_read_back(workflow_code_id, allowed, f);
    }
}

} // verus!
