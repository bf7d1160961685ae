//! Registering the builtin plugin catalog at startup.
//!
//! The packages, functions and permissions that the plugins declare are turned
//! into rows, duplicates are merged, and the rows are compared with what is
//! stored: missing rows are inserted, stored packages and functions whose
//! descriptive fields differ are refreshed, and every declared permission is
//! linked to its function once. Running the registration a second time on
//! the result changes nothing.
use crate::convert::plugin_code::{
    proto_to_permission, proto_to_plugin_function, proto_to_plugin_package,
    spec_proto_to_permission, spec_proto_to_plugin_function, spec_proto_to_plugin_package,
};
use crate::entity::permission::{Model as EntityPermission, ModelView as PermissionRow};
use crate::entity::plugin_function::{Model as EntityPluginFunction, ModelView as FunctionRow};
use crate::entity::plugin_package::{Model as EntityPluginPackage, ModelView as PackageRow};
use crate::proto::{package_views, PluginPackage, PluginPackageView};
use crate::entity::plugin_function_permission::Model as EntityPluginFunctionPermission;
use crate::text::{clone_opt_string, decimal_text, i32_to_decimal, opt_string_eq};
use vstd::prelude::*;

verus! {

/// The (package, function) index pairs of every function declared by a list
/// of packages, package by package and in declaration order.
pub open spec fn function_positions(ps: Seq<PluginPackageView>) -> Seq<(int, int)>
    decreases ps.len(),
{
    if ps.len() == 0 {
        Seq::empty()
    } else {
        function_positions(ps.drop_last()) + Seq::new(
            ps.last().functions.len(),
            |j: int| ((ps.len() - 1) as int, j),
        )
    }
}

/// Every index pair of `function_positions` names a declared function.
pub proof fn lemma_function_positions_valid(ps: Seq<PluginPackageView>)
    ensures
        forall|k: int|
            0 <= k < function_positions(ps).len() ==> {
                let pos = #[trigger] function_positions(ps)[k];
                0 <= pos.0 < ps.len() && 0 <= pos.1 < ps[pos.0].functions.len()
            },
    decreases ps.len(),
{
    if ps.len() > 0 {
        lemma_function_positions_valid(ps.drop_last());
        let prev = function_positions(ps.drop_last());
        assert forall|k: int| 0 <= k < function_positions(ps).len() implies {
            let pos = #[trigger] function_positions(ps)[k];
            0 <= pos.0 < ps.len() && 0 <= pos.1 < ps[pos.0].functions.len()
        } by {
            if k < prev.len() {
                let pos = prev[k];
                assert(ps.drop_last()[pos.0] == ps[pos.0]);
            }
        }
    }
}

/// The package rows declared by a list of packages, in order.
pub open spec fn spec_incoming_packages(ps: Seq<PluginPackageView>) -> Seq<PackageRow> {
    ps.map_values(|p: PluginPackageView| spec_proto_to_plugin_package(p))
}

/// The function rows declared by a list of packages, in order; each function
/// belongs to the package that declares it.
pub open spec fn spec_incoming_functions(ps: Seq<PluginPackageView>) -> Seq<FunctionRow> {
    function_positions(ps).map_values(
        |pos: (int, int)|
            spec_proto_to_plugin_function(ps[pos.0].functions[pos.1], ps[pos.0].package_id),
    )
}

/// The permission rows declared at the given function positions, in order;
/// each belongs to the function that declares it and has no id yet.
pub open spec fn permission_rows_at(
    ps: Seq<PluginPackageView>,
    positions: Seq<(int, int)>,
) -> Seq<PermissionRow>
    decreases positions.len(),
{
    if positions.len() == 0 {
        Seq::empty()
    } else {
        let pos = positions.last();
        let f = ps[pos.0].functions[pos.1];
        permission_rows_at(ps, positions.drop_last()) + f.permissions.map_values(
            |p| spec_proto_to_permission(p, f.function_id, None),
        )
    }
}

/// The permission rows declared by a list of packages, in order.
pub open spec fn spec_incoming_permissions(ps: Seq<PluginPackageView>) -> Seq<PermissionRow> {
    permission_rows_at(ps, function_positions(ps))
}

/// The last row with package id `id`, if any.
pub open spec fn last_package_with_id(rows: Seq<PackageRow>, id: Seq<char>) -> Option<PackageRow>
    decreases rows.len(),
{
    if rows.len() == 0 {
        None
    } else if rows.last().package_id == id {
        Some(rows.last())
    } else {
        last_package_with_id(rows.drop_last(), id)
    }
}

/// The last row with function id `id`, if any.
pub open spec fn last_function_with_id(rows: Seq<FunctionRow>, id: Seq<char>) -> Option<
    FunctionRow,
>
    decreases rows.len(),
{
    if rows.len() == 0 {
        None
    } else if rows.last().function_id == id {
        Some(rows.last())
    } else {
        last_function_with_id(rows.drop_last(), id)
    }
}

/// The ids of a list of package rows.
pub open spec fn package_ids(rows: Seq<PackageRow>) -> Seq<Seq<char>> {
    rows.map_values(|r: PackageRow| r.package_id)
}

/// The ids of a list of function rows.
pub open spec fn function_ids(rows: Seq<FunctionRow>) -> Seq<Seq<char>> {
    rows.map_values(|r: FunctionRow| r.function_id)
}

/// Whether `out` merges `rows` by package id, a later row replacing an
/// earlier one: one row per id, each the last row with its id.
pub open spec fn merges_packages(rows: Seq<PackageRow>, out: Seq<PackageRow>) -> bool {
    &&& package_ids(out).no_duplicates()
    &&& forall|i: int|
        0 <= i < out.len() ==> last_package_with_id(rows, (#[trigger] out[i]).package_id) == Some(
            out[i],
        )
    &&& forall|id: Seq<char>|
        #[trigger] last_package_with_id(rows, id) is Some ==> package_ids(out).contains(id)
}

/// Whether `out` merges `rows` by function id, a later row replacing an
/// earlier one: one row per id, each the last row with its id.
pub open spec fn merges_functions(rows: Seq<FunctionRow>, out: Seq<FunctionRow>) -> bool {
    &&& function_ids(out).no_duplicates()
    &&& forall|i: int|
        0 <= i < out.len() ==> last_function_with_id(rows, (#[trigger] out[i]).function_id)
            == Some(out[i])
    &&& forall|id: Seq<char>|
        #[trigger] last_function_with_id(rows, id) is Some ==> function_ids(out).contains(id)
}

/// Two permission rows describe the same permission: they agree on every
/// column but the id.
pub open spec fn same_permission(a: PermissionRow, b: PermissionRow) -> bool {
    &&& a.plugin_function_id == b.plugin_function_id
    &&& a.display_name == b.display_name
    &&& a.description == b.description
    &&& a.permission_type == b.permission_type
    &&& a.resource_json == b.resource_json
    &&& a.level == b.level
}

/// Whether a list of rows holds one that describes the same permission as
/// `row`.
pub open spec fn has_permission(rows: Seq<PermissionRow>, row: PermissionRow) -> bool
    decreases rows.len(),
{
    rows.len() > 0 && (same_permission(rows.last(), row) || has_permission(rows.drop_last(), row))
}

/// A row that describes the same permission as `row` makes the list hold it.
pub proof fn lemma_has_permission_at(rows: Seq<PermissionRow>, i: int, row: PermissionRow)
    requires
        0 <= i < rows.len(),
        same_permission(rows[i], row),
    ensures
        has_permission(rows, row),
    decreases rows.len(),
{
    if i < rows.len() - 1 {
        assert(rows.drop_last()[i] == rows[i]);
        lemma_has_permission_at(rows.drop_last(), i, row);
    }
}

/// Whether `out` merges `rows` by permission, the first row standing for all
/// that describe the same permission: pairwise different permissions, each a
/// row of `rows`, and every row of `rows` described by one of them.
pub open spec fn merges_permissions(rows: Seq<PermissionRow>, out: Seq<PermissionRow>) -> bool {
    &&& forall|i: int, j: int|
        0 <= i < j < out.len() ==> !same_permission(#[trigger] out[i], #[trigger] out[j])
    &&& forall|i: int|
        0 <= i < out.len() ==> first_same_permission(rows, #[trigger] out[i]) == Some(out[i])
    &&& forall|k: int| 0 <= k < rows.len() ==> has_permission(out, #[trigger] rows[k])
}

/// The first row that describes the same permission as `row`, if any.
pub open spec fn first_same_permission(rows: Seq<PermissionRow>, row: PermissionRow) -> Option<
    PermissionRow,
>
    decreases rows.len(),
{
    if rows.len() == 0 {
        None
    } else {
        match first_same_permission(rows.drop_last(), row) {
            Some(x) => Some(x),
            None => if same_permission(rows.last(), row) {
                Some(rows.last())
            } else {
                None
            },
        }
    }
}

/// The first row describing a permission describes it and is a row of the
/// list.
pub proof fn lemma_first_same_permission_found(rows: Seq<PermissionRow>, row: PermissionRow)
    ensures
        first_same_permission(rows, row) matches Some(x) ==> same_permission(x, row) && rows.contains(x),
    decreases rows.len(),
{
    if rows.len() > 0 {
        lemma_first_same_permission_found(rows.drop_last(), row);
        match first_same_permission(rows.drop_last(), row) {
            Some(x) => {
                let j = choose|j: int| 0 <= j < rows.drop_last().len() && rows.drop_last()[j] == x;
                assert(rows[j] == x);
            },
            None => {
                assert(rows[rows.len() - 1] == rows.last());
            },
        }
    }
}

/// A list that holds a permission has a row describing it.
pub proof fn lemma_has_permission_witness(rows: Seq<PermissionRow>, row: PermissionRow) -> (j: int)
    requires
        has_permission(rows, row),
    ensures
        0 <= j < rows.len(),
        same_permission(rows[j], row),
    decreases rows.len(),
{
    if same_permission(rows.last(), row) {
        rows.len() - 1
    } else {
        let j = lemma_has_permission_witness(rows.drop_last(), row);
        assert(rows.drop_last()[j] == rows[j]);
        j
    }
}

/// The views of a list of package rows.
pub open spec fn package_row_views(v: Seq<EntityPluginPackage>) -> Seq<PackageRow> {
    v.map_values(|x: EntityPluginPackage| x@)
}

/// The views of a list of function rows.
pub open spec fn function_row_views(v: Seq<EntityPluginFunction>) -> Seq<FunctionRow> {
    v.map_values(|x: EntityPluginFunction| x@)
}

/// The views of a list of permission rows.
pub open spec fn permission_row_views(v: Seq<EntityPermission>) -> Seq<PermissionRow> {
    v.map_values(|x: EntityPermission| x@)
}

/// The (package, function) index pairs of every declared function.
pub fn declared_function_positions(plugins: &[PluginPackage]) -> (r: Vec<(usize, usize)>)
    ensures
        r@.map_values(|p: (usize, usize)| (p.0 as int, p.1 as int)) == function_positions(
            package_views(plugins@),
        ),
{
    let ghost ps = package_views(plugins@);
    let mut out: Vec<(usize, usize)> = Vec::new();
    let mut i: usize = 0;
    proof {
        assert(ps.take(0) =~= Seq::<PluginPackageView>::empty());
        assert(out@.map_values(|p: (usize, usize)| (p.0 as int, p.1 as int)) =~= function_positions(
            ps.take(0),
        ));
    }
    while i < plugins.len()
        invariant
            i <= plugins@.len(),
            ps == package_views(plugins@),
            out@.map_values(|p: (usize, usize)| (p.0 as int, p.1 as int)) == function_positions(
                ps.take(i as int),
            ),
        decreases plugins@.len() - i,
    {
        let ghost start = out@.map_values(|p: (usize, usize)| (p.0 as int, p.1 as int));
        let n = plugins[i].functions.len();
        let mut j: usize = 0;
        while j < n
            invariant
                j <= n,
                n == ps[i as int].functions.len(),
                i < plugins@.len(),
                ps == package_views(plugins@),
                out@.map_values(|p: (usize, usize)| (p.0 as int, p.1 as int)) == start + Seq::new(
                    j as nat,
                    |m: int| (i as int, m),
                ),
            decreases n - j,
        {
            let ghost before = out@;
            out.push((i, j));
            proof {
                let prev = before.map_values(|p: (usize, usize)| (p.0 as int, p.1 as int));
                assert(out@.map_values(|p: (usize, usize)| (p.0 as int, p.1 as int)) =~= prev.push(
                    (i as int, j as int),
                ));
                assert(start + Seq::new((j + 1) as nat, |m: int| (i as int, m)) =~= (start
                    + Seq::new(j as nat, |m: int| (i as int, m))).push((i as int, j as int)));
            }
            j = j + 1;
        }
        proof {
            assert(ps.take(i + 1).drop_last() =~= ps.take(i as int));
            assert(ps.take(i + 1).last() == ps[i as int]);
            assert(ps.take(i + 1).len() - 1 == i);
        }
        i = i + 1;
    }
    proof {
        assert(ps.take(plugins@.len() as int) =~= ps);
    }
    out
}

/// The package rows declared by the plugins, in order.
pub fn incoming_package_rows(plugins: &[PluginPackage]) -> (r: Vec<EntityPluginPackage>)
    ensures
        package_row_views(r@) == spec_incoming_packages(package_views(plugins@)),
{
    let mut out: Vec<EntityPluginPackage> = Vec::new();
    let mut i: usize = 0;
    while i < plugins.len()
        invariant
            i <= plugins@.len(),
            out@.len() == i,
            forall|j: int|
                0 <= j < i ==> (#[trigger] out@[j])@ == spec_proto_to_plugin_package(plugins@[j]@),
        decreases plugins@.len() - i,
    {
        out.push(proto_to_plugin_package(&plugins[i]));
        i = i + 1;
    }
    proof {
        assert(package_row_views(out@) =~= spec_incoming_packages(package_views(plugins@)));
    }
    out
}

/// The function rows declared by the plugins, in order.
pub fn incoming_function_rows(plugins: &[PluginPackage]) -> (r: Vec<EntityPluginFunction>)
    ensures
        function_row_views(r@) == spec_incoming_functions(package_views(plugins@)),
{
    let ghost ps = package_views(plugins@);
    let positions = declared_function_positions(plugins);
    let ghost pos = function_positions(ps);
    proof {
        lemma_function_positions_valid(ps);
        assert forall|k: int| 0 <= k < positions@.len() implies (#[trigger] positions@[k]).0 == pos[k].0
            && positions@[k].1 == pos[k].1 by {
            assert(positions@.map_values(|p: (usize, usize)| (p.0 as int, p.1 as int))[k] == pos[k]);
        }
    }
    let mut out: Vec<EntityPluginFunction> = Vec::new();
    let mut k: usize = 0;
    while k < positions.len()
        invariant
            k <= positions@.len(),
            ps == package_views(plugins@),
            pos == function_positions(ps),
            positions@.len() == pos.len(),
            forall|m: int|
                0 <= m < positions@.len() ==> (#[trigger] positions@[m]).0 == pos[m].0
                    && positions@[m].1 == pos[m].1,
            forall|m: int|
                0 <= m < pos.len() ==> {
                    let p = #[trigger] pos[m];
                    0 <= p.0 < ps.len() && 0 <= p.1 < ps[p.0].functions.len()
                },
            out@.len() == k,
            forall|m: int|
                0 <= m < k ==> (#[trigger] out@[m])@ == spec_proto_to_plugin_function(
                    ps[pos[m].0].functions[pos[m].1],
                    ps[pos[m].0].package_id,
                ),
        decreases positions@.len() - k,
    {
        let (pi, fi) = positions[k];
        proof {
            assert(pos[k as int].0 == pi && pos[k as int].1 == fi);
            let p = pos[k as int];
            assert(0 <= p.0 < ps.len() && 0 <= p.1 < ps[p.0].functions.len());
        }
        let package = &plugins[pi];
        let row = proto_to_plugin_function(&package.functions[fi], package.package_id.clone());
        out.push(row);
        k = k + 1;
    }
    proof {
        assert(function_row_views(out@) =~= spec_incoming_functions(ps));
    }
    out
}

/// The permission rows declared by the plugins, in order; none has an id yet.
pub fn incoming_permission_rows(plugins: &[PluginPackage]) -> (r: Vec<EntityPermission>)
    ensures
        permission_row_views(r@) == spec_incoming_permissions(package_views(plugins@)),
{
    let ghost ps = package_views(plugins@);
    let positions = declared_function_positions(plugins);
    let ghost pos = function_positions(ps);
    proof {
        lemma_function_positions_valid(ps);
        assert forall|k: int| 0 <= k < positions@.len() implies (#[trigger] positions@[k]).0 == pos[k].0
            && positions@[k].1 == pos[k].1 by {
            assert(positions@.map_values(|p: (usize, usize)| (p.0 as int, p.1 as int))[k] == pos[k]);
        }
        assert(permission_row_views(Seq::<EntityPermission>::empty()) =~= permission_rows_at(ps, pos.take(0)));
    }
    let mut out: Vec<EntityPermission> = Vec::new();
    let mut k: usize = 0;
    while k < positions.len()
        invariant
            k <= positions@.len(),
            ps == package_views(plugins@),
            pos == function_positions(ps),
            positions@.len() == pos.len(),
            forall|m: int|
                0 <= m < positions@.len() ==> (#[trigger] positions@[m]).0 == pos[m].0
                    && positions@[m].1 == pos[m].1,
            forall|m: int|
                0 <= m < pos.len() ==> {
                    let p = #[trigger] pos[m];
                    0 <= p.0 < ps.len() && 0 <= p.1 < ps[p.0].functions.len()
                },
            permission_row_views(out@) == permission_rows_at(ps, pos.take(k as int)),
        decreases positions@.len() - k,
    {
        let (pi, fi) = positions[k];
        proof {
            assert(pos[k as int].0 == pi && pos[k as int].1 == fi);
            let p = pos[k as int];
            assert(0 <= p.0 < ps.len() && 0 <= p.1 < ps[p.0].functions.len());
        }
        let function = &plugins[pi].functions[fi];
        let ghost fv = ps[pi as int].functions[fi as int];
        proof {
            assert(function@ == fv);
        }
        let ghost start = out@;
        let mut j: usize = 0;
        while j < function.permissions.len()
            invariant
                j <= function.permissions@.len(),
                fv == function@,
                start.len() <= out@.len(),
                out@.subrange(0, start.len() as int) == start,
                permission_row_views(out@.subrange(start.len() as int, out@.len() as int))
                    == fv.permissions.map_values(
                    |p| spec_proto_to_permission(p, fv.function_id, None),
                ).take(j as int),
            decreases function.permissions@.len() - j,
        {
            let ghost before = out@;
            let row = proto_to_permission(
                &function.permissions[j],
                function.function_id.clone(),
                None,
            );
            out.push(row);
            proof {
                let group = fv.permissions.map_values(
                    |p| spec_proto_to_permission(p, fv.function_id, None),
                );
                let tail_before = before.subrange(start.len() as int, before.len() as int);
                assert(out@.subrange(0, start.len() as int) =~= before.subrange(
                    0,
                    start.len() as int,
                ));
                assert(out@.subrange(start.len() as int, out@.len() as int) =~= tail_before.push(
                    row,
                ));
                assert(permission_row_views(tail_before.push(row)) =~= permission_row_views(
                    tail_before,
                ).push(row@));
                assert(function.permissions@[j as int]@ == fv.permissions[j as int]);
                assert(group[j as int] == row@);
                assert(group.take(j + 1) =~= group.take(j as int).push(group[j as int]));
            }
            j = j + 1;
        }
        proof {
            let group = fv.permissions.map_values(
                |p| spec_proto_to_permission(p, fv.function_id, None),
            );
            assert(group.take(j as int) =~= group);
            assert(out@ =~= start + out@.subrange(start.len() as int, out@.len() as int));
            assert(permission_row_views(out@) =~= permission_row_views(start) + permission_row_views(
                out@.subrange(start.len() as int, out@.len() as int),
            ));
            assert(pos.take(k + 1).drop_last() =~= pos.take(k as int));
            assert(pos.take(k + 1).last() == pos[k as int]);
        }
        k = k + 1;
    }
    proof {
        assert(pos.take(pos.len() as int) =~= pos);
    }
    out
}

/// One more row: the last row with an id is the new row when it has the id,
/// and the last row with it before otherwise.
pub proof fn lemma_last_package_step(rows: Seq<PackageRow>, k: int, id: Seq<char>)
    requires
        0 <= k < rows.len(),
    ensures
        last_package_with_id(rows.take(k + 1), id) == if rows[k].package_id == id {
            Some(rows[k])
        } else {
            last_package_with_id(rows.take(k), id)
        },
{
    assert(rows.take(k + 1).drop_last() =~= rows.take(k));
    assert(rows.take(k + 1).last() == rows[k]);
}

/// One more row: the last row with an id is the new row when it has the id,
/// and the last row with it before otherwise.
pub proof fn lemma_last_function_step(rows: Seq<FunctionRow>, k: int, id: Seq<char>)
    requires
        0 <= k < rows.len(),
    ensures
        last_function_with_id(rows.take(k + 1), id) == if rows[k].function_id == id {
            Some(rows[k])
        } else {
            last_function_with_id(rows.take(k), id)
        },
{
    assert(rows.take(k + 1).drop_last() =~= rows.take(k));
    assert(rows.take(k + 1).last() == rows[k]);
}

/// Merges package rows by id, a later row replacing an earlier one in place.
pub fn merge_packages(rows: &[EntityPluginPackage]) -> (r: Vec<EntityPluginPackage>)
    ensures
        merges_packages(package_row_views(rows@), package_row_views(r@)),
{
    let ghost rv = package_row_views(rows@);
    let mut out: Vec<EntityPluginPackage> = Vec::new();
    let mut k: usize = 0;
    proof {
        assert(package_ids(package_row_views(out@)) =~= Seq::<Seq<char>>::empty());
        assert forall|id: Seq<char>| #[trigger] last_package_with_id(rv.take(0), id) is None by {
            assert(rv.take(0).len() == 0);
        }
    }
    while k < rows.len()
        invariant
            k <= rows@.len(),
            rv == package_row_views(rows@),
            merges_packages(rv.take(k as int), package_row_views(out@)),
        decreases rows@.len() - k,
    {
        let ghost ov = package_row_views(out@);
        let row = rows[k].duplicate();
        proof {
            assert(row@ == rv[k as int]);
        }
        let mut idx: usize = 0;
        while idx < out.len() && !(out[idx].package_id == row.package_id)
            invariant
                idx <= out@.len(),
                ov == package_row_views(out@),
                forall|i: int| 0 <= i < idx ==> (#[trigger] ov[i]).package_id != row@.package_id,
            decreases out@.len() - idx,
        {
            idx = idx + 1;
        }
        proof {
            assert forall|id: Seq<char>| #[trigger] last_package_with_id(rv.take(k + 1), id)
                == if row@.package_id == id {
                Some(row@)
            } else {
                last_package_with_id(rv.take(k as int), id)
            } by {
                lemma_last_package_step(rv, k as int, id);
            }
        }
        if idx < out.len() {
            out.set(idx, row);
            proof {
                let nv = package_row_views(out@);
                assert(nv =~= ov.update(idx as int, row@));
                assert(package_ids(nv) =~= package_ids(ov));
                assert forall|i: int| 0 <= i < nv.len() implies last_package_with_id(
                    rv.take(k + 1),
                    (#[trigger] nv[i]).package_id,
                ) == Some(nv[i]) by {
                    if i != idx {
                        assert(package_ids(ov)[i] != package_ids(ov)[idx as int]);
                        assert(last_package_with_id(rv.take(k as int), ov[i].package_id) == Some(
                            ov[i],
                        ));
                    }
                }
                assert forall|id: Seq<char>| #[trigger] last_package_with_id(rv.take(k + 1), id)
                    is Some implies package_ids(nv).contains(id) by {
                    if id == row@.package_id {
                        assert(package_ids(nv)[idx as int] == id);
                    } else {
                        assert(last_package_with_id(rv.take(k as int), id) is Some);
                    }
                }
            }
        } else {
            out.push(row);
            proof {
                let nv = package_row_views(out@);
                assert(nv =~= ov.push(row@));
                assert(package_ids(nv) =~= package_ids(ov).push(row@.package_id));
                assert(!package_ids(ov).contains(row@.package_id));
                assert forall|i: int| 0 <= i < nv.len() implies last_package_with_id(
                    rv.take(k + 1),
                    (#[trigger] nv[i]).package_id,
                ) == Some(nv[i]) by {
                    if i < ov.len() {
                        assert(ov[i].package_id != row@.package_id);
                        assert(last_package_with_id(rv.take(k as int), ov[i].package_id) == Some(
                            ov[i],
                        ));
                    }
                }
                assert forall|id: Seq<char>| #[trigger] last_package_with_id(rv.take(k + 1), id)
                    is Some implies package_ids(nv).contains(id) by {
                    if id == row@.package_id {
                        assert(package_ids(nv)[ov.len() as int] == id);
                    } else {
                        assert(last_package_with_id(rv.take(k as int), id) is Some);
                        let j = choose|j: int| 0 <= j < package_ids(ov).len() && package_ids(ov)[j] == id;
                        assert(package_ids(nv)[j] == id);
                    }
                }
            }
        }
        k = k + 1;
    }
    proof {
        assert(rv.take(rows@.len() as int) =~= rv);
    }
    out
}

/// Merges function rows by id, a later row replacing an earlier one in place.
pub fn merge_functions(rows: &[EntityPluginFunction]) -> (r: Vec<EntityPluginFunction>)
    ensures
        merges_functions(function_row_views(rows@), function_row_views(r@)),
{
    let ghost rv = function_row_views(rows@);
    let mut out: Vec<EntityPluginFunction> = Vec::new();
    let mut k: usize = 0;
    proof {
        assert(function_ids(function_row_views(out@)) =~= Seq::<Seq<char>>::empty());
        assert forall|id: Seq<char>| #[trigger] last_function_with_id(rv.take(0), id) is None by {
            assert(rv.take(0).len() == 0);
        }
    }
    while k < rows.len()
        invariant
            k <= rows@.len(),
            rv == function_row_views(rows@),
            merges_functions(rv.take(k as int), function_row_views(out@)),
        decreases rows@.len() - k,
    {
        let ghost ov = function_row_views(out@);
        let row = rows[k].duplicate();
        proof {
            assert(row@ == rv[k as int]);
        }
        let mut idx: usize = 0;
        while idx < out.len() && !(out[idx].function_id == row.function_id)
            invariant
                idx <= out@.len(),
                ov == function_row_views(out@),
                forall|i: int| 0 <= i < idx ==> (#[trigger] ov[i]).function_id != row@.function_id,
            decreases out@.len() - idx,
        {
            idx = idx + 1;
        }
        proof {
            assert forall|id: Seq<char>| #[trigger] last_function_with_id(rv.take(k + 1), id)
                == if row@.function_id == id {
                Some(row@)
            } else {
                last_function_with_id(rv.take(k as int), id)
            } by {
                lemma_last_function_step(rv, k as int, id);
            }
        }
        if idx < out.len() {
            out.set(idx, row);
            proof {
                let nv = function_row_views(out@);
                assert(nv =~= ov.update(idx as int, row@));
                assert(function_ids(nv) =~= function_ids(ov));
                assert forall|i: int| 0 <= i < nv.len() implies last_function_with_id(
                    rv.take(k + 1),
                    (#[trigger] nv[i]).function_id,
                ) == Some(nv[i]) by {
                    if i != idx {
                        assert(function_ids(ov)[i] != function_ids(ov)[idx as int]);
                        assert(last_function_with_id(rv.take(k as int), ov[i].function_id) == Some(
                            ov[i],
                        ));
                    }
                }
                assert forall|id: Seq<char>| #[trigger] last_function_with_id(rv.take(k + 1), id)
                    is Some implies function_ids(nv).contains(id) by {
                    if id == row@.function_id {
                        assert(function_ids(nv)[idx as int] == id);
                    } else {
                        assert(last_function_with_id(rv.take(k as int), id) is Some);
                    }
                }
            }
        } else {
            out.push(row);
            proof {
                let nv = function_row_views(out@);
                assert(nv =~= ov.push(row@));
                assert(function_ids(nv) =~= function_ids(ov).push(row@.function_id));
                assert(!function_ids(ov).contains(row@.function_id));
                assert forall|i: int| 0 <= i < nv.len() implies last_function_with_id(
                    rv.take(k + 1),
                    (#[trigger] nv[i]).function_id,
                ) == Some(nv[i]) by {
                    if i < ov.len() {
                        assert(ov[i].function_id != row@.function_id);
                        assert(last_function_with_id(rv.take(k as int), ov[i].function_id) == Some(
                            ov[i],
                        ));
                    }
                }
                assert forall|id: Seq<char>| #[trigger] last_function_with_id(rv.take(k + 1), id)
                    is Some implies function_ids(nv).contains(id) by {
                    if id == row@.function_id {
                        assert(function_ids(nv)[ov.len() as int] == id);
                    } else {
                        assert(last_function_with_id(rv.take(k as int), id) is Some);
                        let j = choose|j: int| 0 <= j < function_ids(ov).len() && function_ids(ov)[j] == id;
                        assert(function_ids(nv)[j] == id);
                    }
                }
            }
        }
        k = k + 1;
    }
    proof {
        assert(rv.take(rows@.len() as int) =~= rv);
    }
    out
}

/// Whether two permission rows describe the same permission.
pub fn same_permission_rows(a: &EntityPermission, b: &EntityPermission) -> (r: bool)
    ensures
        r == same_permission(a@, b@),
{
    let same_level = match (a.level, b.level) {
        (Some(x), Some(y)) => x == y,
        (None, None) => true,
        _ => false,
    };
    a.plugin_function_id == b.plugin_function_id && opt_string_eq(&a.display_name, &b.display_name)
        && opt_string_eq(&a.description, &b.description) && a.permission_type == b.permission_type
        && opt_string_eq(&a.resource_json, &b.resource_json) && same_level
}

/// Merges permission rows that describe the same permission, keeping the
/// first of them, in order.
pub fn merge_permissions(rows: &[EntityPermission]) -> (r: Vec<EntityPermission>)
    ensures
        merges_permissions(permission_row_views(rows@), permission_row_views(r@)),
{
    let ghost rv = permission_row_views(rows@);
    let mut out: Vec<EntityPermission> = Vec::new();
    let mut k: usize = 0;
    while k < rows.len()
        invariant
            k <= rows@.len(),
            rv == permission_row_views(rows@),
            merges_permissions(rv.take(k as int), permission_row_views(out@)),
        decreases rows@.len() - k,
    {
        let ghost ov = permission_row_views(out@);
        let row = &rows[k];
        proof {
            assert(row@ == rv[k as int]);
        }
        let mut idx: usize = 0;
        while idx < out.len() && !same_permission_rows(&out[idx], row)
            invariant
                idx <= out@.len(),
                ov == permission_row_views(out@),
                forall|i: int| 0 <= i < idx ==> !same_permission(#[trigger] ov[i], row@),
            decreases out@.len() - idx,
        {
            idx = idx + 1;
        }
        let ghost r1 = rv.take(k + 1);
        proof {
            assert(r1 =~= rv.take(k as int).push(row@));
        }
        if idx < out.len() {
            proof {
                assert forall|i: int| 0 <= i < ov.len() implies first_same_permission(
                    r1,
                    #[trigger] ov[i],
                ) == Some(ov[i]) by {
                    assert(r1.drop_last() =~= rv.take(k as int));
                    assert(first_same_permission(rv.take(k as int), ov[i]) == Some(ov[i]));
                }
                assert forall|m: int| 0 <= m < r1.len() implies has_permission(ov, #[trigger] r1[m]) by {
                    if m < k {
                        assert(r1[m] == rv.take(k as int)[m]);
                    } else {
                        lemma_has_permission_at(ov, idx as int, r1[m]);
                    }
                }
            }
        } else {
            out.push(row.duplicate());
            proof {
                let nv = permission_row_views(out@);
                assert(nv =~= ov.push(row@));
                assert forall|i: int, j: int| 0 <= i < j < nv.len() implies !same_permission(
                    #[trigger] nv[i],
                    #[trigger] nv[j],
                ) by {
                    if j == ov.len() {
                        assert(!same_permission(ov[i], row@));
                    } else {
                        assert(!same_permission(ov[i], ov[j]));
                    }
                }
                assert(r1.drop_last() =~= rv.take(k as int));
                assert(r1.last() == row@);
                lemma_first_same_permission_found(rv.take(k as int), row@);
                if first_same_permission(rv.take(k as int), row@) is Some {
                    let y = first_same_permission(rv.take(k as int), row@)->0;
                    let m = choose|m: int| 0 <= m < rv.take(k as int).len() && rv.take(k as int)[m] == y;
                    assert(has_permission(ov, rv.take(k as int)[m]));
                    let j = lemma_has_permission_witness(ov, y);
                    assert(same_permission(ov[j], row@));
                    assert(false);
                }
                assert forall|i: int| 0 <= i < nv.len() implies first_same_permission(
                    r1,
                    #[trigger] nv[i],
                ) == Some(nv[i]) by {
                    if i < ov.len() {
                        assert(nv[i] == ov[i]);
                        assert(first_same_permission(rv.take(k as int), ov[i]) == Some(ov[i]));
                    } else {
                        assert(nv[i] == row@);
                    }
                }
                assert forall|m: int| 0 <= m < r1.len() implies has_permission(nv, #[trigger] r1[m]) by {
                    assert(nv.drop_last() =~= ov);
                    if m < k {
                        assert(r1[m] == rv.take(k as int)[m]);
                        assert(has_permission(ov, r1[m]));
                    } else {
                        assert(same_permission(nv.last(), r1[m]));
                    }
                }
                assert(merges_permissions(r1, nv));
            }
        }
        k = k + 1;
    }
    proof {
        assert(rv.take(rows@.len() as int) =~= rv);
    }
    out
}

/// The rows the plugins declare, with duplicates merged.
pub struct Registrations {
    pub packages: Vec<EntityPluginPackage>,
    pub functions: Vec<EntityPluginFunction>,
    pub permissions: Vec<EntityPermission>,
}

/// Turns the declared plugins into rows and merges duplicates: a package or
/// function declared twice keeps its last declaration, a permission declared
/// twice for a function its first.
pub fn collect_registrations(plugins: &[PluginPackage]) -> (r: Registrations)
    ensures
        merges_packages(
            spec_incoming_packages(package_views(plugins@)),
            package_row_views(r.packages@),
        ),
        merges_functions(
            spec_incoming_functions(package_views(plugins@)),
            function_row_views(r.functions@),
        ),
        merges_permissions(
            spec_incoming_permissions(package_views(plugins@)),
            permission_row_views(r.permissions@),
        ),
{
    let packages = incoming_package_rows(plugins);
    let functions = incoming_function_rows(plugins);
    let permissions = incoming_permission_rows(plugins);
    Registrations {
        packages: merge_packages(packages.as_slice()),
        functions: merge_functions(functions.as_slice()),
        permissions: merge_permissions(permissions.as_slice()),
    }
}

/// A stored package differs from its declaration in a field that
/// registration keeps up to date (not its timestamps).
pub open spec fn package_changed(stored: PackageRow, declared: PackageRow) -> bool {
    ||| stored.package_name != declared.package_name
    ||| stored.package_version != declared.package_version
    ||| stored.description != declared.description
    ||| stored.plugin_store_url != declared.plugin_store_url
    ||| stored.internal_plugin != declared.internal_plugin
    ||| stored.verified != declared.verified
    ||| stored.deprecated != declared.deprecated
}

/// A stored package with the fields that registration keeps up to date taken
/// from its declaration.
pub open spec fn package_refreshed(stored: PackageRow, declared: PackageRow) -> PackageRow {
    PackageRow {
        package_name: declared.package_name,
        package_version: declared.package_version,
        description: declared.description,
        plugin_store_url: declared.plugin_store_url,
        internal_plugin: declared.internal_plugin,
        verified: declared.verified,
        deprecated: declared.deprecated,
        ..stored
    }
}

/// The declared packages that are not stored, in order.
pub open spec fn packages_to_insert(declared: Seq<PackageRow>, stored: Seq<PackageRow>) -> Seq<
    PackageRow,
>
    decreases declared.len(),
{
    if declared.len() == 0 {
        Seq::empty()
    } else {
        let prev = packages_to_insert(declared.drop_last(), stored);
        if last_package_with_id(stored, declared.last().package_id) is Some {
            prev
        } else {
            prev.push(declared.last())
        }
    }
}

/// The stored packages that differ from their declaration, refreshed, in
/// stored order.
pub open spec fn packages_to_update(declared: Seq<PackageRow>, stored: Seq<PackageRow>) -> Seq<
    PackageRow,
>
    decreases stored.len(),
{
    if stored.len() == 0 {
        Seq::empty()
    } else {
        let prev = packages_to_update(declared, stored.drop_last());
        let e = stored.last();
        match last_package_with_id(declared, e.package_id) {
            Some(d) => if package_changed(e, d) {
                prev.push(package_refreshed(e, d))
            } else {
                prev
            },
            None => prev,
        }
    }
}

/// The index of the last row with package id `id`, if any.
pub fn find_last_package(rows: &[EntityPluginPackage], id: &String) -> (r: Option<usize>)
    ensures
        match r {
            Some(i) => i < rows@.len() && last_package_with_id(package_row_views(rows@), id@)
                == Some(rows@[i as int]@),
            None => last_package_with_id(package_row_views(rows@), id@) is None,
        },
{
    let ghost rv = package_row_views(rows@);
    let mut found: Option<usize> = None;
    let mut k: usize = 0;
    while k < rows.len()
        invariant
            k <= rows@.len(),
            rv == package_row_views(rows@),
            match found {
                Some(i) => i < k && last_package_with_id(rv.take(k as int), id@) == Some(rv[i as int]),
                None => last_package_with_id(rv.take(k as int), id@) is None,
            },
        decreases rows@.len() - k,
    {
        proof {
            lemma_last_package_step(rv, k as int, id@);
        }
        if rows[k].package_id == *id {
            found = Some(k);
        }
        k = k + 1;
    }
    proof {
        assert(rv.take(rows@.len() as int) =~= rv);
    }
    found
}

/// Whether a stored package differs from its declaration in a field that
/// registration keeps up to date.
pub fn package_fields_differ(stored: &EntityPluginPackage, declared: &EntityPluginPackage) -> (r:
    bool)
    ensures
        r == package_changed(stored@, declared@),
{
    !(stored.package_name == declared.package_name)
        || !(stored.package_version == declared.package_version)
        || !opt_string_eq(&stored.description, &declared.description)
        || !opt_string_eq(&stored.plugin_store_url, &declared.plugin_store_url)
        || stored.internal_plugin != declared.internal_plugin
        || stored.verified != declared.verified
        || stored.deprecated != declared.deprecated
}

/// Plans the package writes of a registration: the declared packages that are
/// not stored yet, to insert, and the stored ones that differ from their
/// declaration, refreshed, to update. `declared` holds one row per id.
pub fn plan_package_changes(declared: &[EntityPluginPackage], stored: &[EntityPluginPackage]) -> (r:
    (Vec<EntityPluginPackage>, Vec<EntityPluginPackage>))
    ensures
        package_row_views(r.0@) == packages_to_insert(
            package_row_views(declared@),
            package_row_views(stored@),
        ),
        package_row_views(r.1@) == packages_to_update(
            package_row_views(declared@),
            package_row_views(stored@),
        ),
{
    let ghost dv = package_row_views(declared@);
    let ghost sv = package_row_views(stored@);
    let mut inserts: Vec<EntityPluginPackage> = Vec::new();
    let mut k: usize = 0;
    proof {
        assert(package_row_views(inserts@) =~= packages_to_insert(dv.take(0), sv));
    }
    while k < declared.len()
        invariant
            k <= declared@.len(),
            dv == package_row_views(declared@),
            sv == package_row_views(stored@),
            package_row_views(inserts@) == packages_to_insert(dv.take(k as int), sv),
        decreases declared@.len() - k,
    {
        proof {
            assert(dv.take(k + 1).drop_last() =~= dv.take(k as int));
            assert(dv.take(k + 1).last() == dv[k as int]);
        }
        if find_last_package(stored, &declared[k].package_id).is_none() {
            let row = declared[k].duplicate();
            inserts.push(row);
            proof {
                assert(package_row_views(inserts@) =~= packages_to_insert(dv.take(k as int), sv).push(
                    row@,
                ));
            }
        }
        k = k + 1;
    }
    proof {
        assert(dv.take(declared@.len() as int) =~= dv);
    }
    let mut updates: Vec<EntityPluginPackage> = Vec::new();
    let mut m: usize = 0;
    proof {
        assert(package_row_views(updates@) =~= packages_to_update(dv, sv.take(0)));
    }
    while m < stored.len()
        invariant
            m <= stored@.len(),
            dv == package_row_views(declared@),
            sv == package_row_views(stored@),
            package_row_views(updates@) == packages_to_update(dv, sv.take(m as int)),
        decreases stored@.len() - m,
    {
        proof {
            assert(sv.take(m + 1).drop_last() =~= sv.take(m as int));
            assert(sv.take(m + 1).last() == sv[m as int]);
        }
        let e = &stored[m];
        match find_last_package(declared, &e.package_id) {
            Some(j) => {
                let d = &declared[j];
                if package_fields_differ(e, d) {
                    let row = EntityPluginPackage {
                        package_id: e.package_id.clone(),
                        package_name: d.package_name.clone(),
                        package_version: d.package_version.clone(),
                        description: clone_opt_string(&d.description),
                        plugin_store_url: clone_opt_string(&d.plugin_store_url),
                        internal_plugin: d.internal_plugin,
                        verified: d.verified,
                        deprecated: d.deprecated,
                        installed_at: e.installed_at,
                        updated_at: e.updated_at,
                    };
                    updates.push(row);
                    proof {
                        assert(row@ == package_refreshed(e@, d@));
                        assert(package_row_views(updates@) =~= packages_to_update(
                            dv,
                            sv.take(m as int),
                        ).push(row@));
                    }
                }
            },
            None => {},
        }
        m = m + 1;
    }
    proof {
        assert(sv.take(stored@.len() as int) =~= sv);
    }
    (inserts, updates)
}

/// The stored packages after a registration's writes: updated rows replace
/// the stored rows with their id, inserted rows come after.
pub open spec fn apply_package_changes(
    stored: Seq<PackageRow>,
    inserts: Seq<PackageRow>,
    updates: Seq<PackageRow>,
) -> Seq<PackageRow> {
    stored.map_values(
        |e: PackageRow|
            match last_package_with_id(updates, e.package_id) {
                Some(u) => u,
                None => e,
            },
    ) + inserts
}

/// The last row with an id has that id and is one of the rows; there is one
/// exactly when some row has the id.
pub proof fn lemma_last_package_found(rows: Seq<PackageRow>, id: Seq<char>)
    ensures
        match last_package_with_id(rows, id) {
            Some(x) => x.package_id == id && rows.contains(x) && package_ids(rows).contains(id),
            None => !package_ids(rows).contains(id),
        },
    decreases rows.len(),
{
    if rows.len() > 0 {
        lemma_last_package_found(rows.drop_last(), id);
        let prev = rows.drop_last();
        if rows.last().package_id != id {
            match last_package_with_id(prev, id) {
                Some(x) => {
                    let j = choose|j: int| 0 <= j < prev.len() && prev[j] == x;
                    assert(rows[j] == x);
                    assert(package_ids(rows)[j] == id);
                },
                None => {
                    if package_ids(rows).contains(id) {
                        let j = choose|j: int| 0 <= j < rows.len() && package_ids(rows)[j] == id;
                        assert(package_ids(prev)[j] == id);
                    }
                },
            }
        } else {
            assert(rows[rows.len() - 1] == rows.last());
            assert(package_ids(rows)[rows.len() - 1] == id);
        }
    } else {
        assert(!package_ids(rows).contains(id));
    }
}

/// In a list without repeated ids, the last row with a row's id is that row.
pub proof fn lemma_last_package_unique(rows: Seq<PackageRow>, k: int)
    requires
        package_ids(rows).no_duplicates(),
        0 <= k < rows.len(),
    ensures
        last_package_with_id(rows, rows[k].package_id) == Some(rows[k]),
    decreases rows.len(),
{
    if k < rows.len() - 1 {
        assert(package_ids(rows)[k] != package_ids(rows)[rows.len() - 1]);
        assert(package_ids(rows.drop_last()) =~= package_ids(rows).drop_last());
        assert(rows.drop_last()[k] == rows[k]);
        lemma_last_package_unique(rows.drop_last(), k);
    }
}

/// The last row with an id in a concatenation is found in the second part
/// first.
pub proof fn lemma_last_package_concat(a: Seq<PackageRow>, b: Seq<PackageRow>, id: Seq<char>)
    ensures
        last_package_with_id(a + b, id) == match last_package_with_id(b, id) {
            Some(x) => Some(x),
            None => last_package_with_id(a, id),
        },
    decreases b.len(),
{
    if b.len() == 0 {
        assert(a + b =~= a);
    } else {
        assert((a + b).drop_last() =~= a + b.drop_last());
        assert((a + b).last() == b.last());
        lemma_last_package_concat(a, b.drop_last(), id);
    }
}

/// A declared package whose id is not stored is among the inserts.
pub proof fn lemma_package_insert_member(declared: Seq<PackageRow>, stored: Seq<PackageRow>, k: int)
    requires
        0 <= k < declared.len(),
        last_package_with_id(stored, declared[k].package_id) is None,
    ensures
        packages_to_insert(declared, stored).contains(declared[k]),
    decreases declared.len(),
{
    let ins = packages_to_insert(declared, stored);
    if k == declared.len() - 1 {
        assert(ins.last() == declared[k]);
        assert(ins[ins.len() - 1] == declared[k]);
    } else {
        assert(declared.drop_last()[k] == declared[k]);
        lemma_package_insert_member(declared.drop_last(), stored, k);
        let prev = packages_to_insert(declared.drop_last(), stored);
        let j = choose|j: int| 0 <= j < prev.len() && prev[j] == declared[k];
        assert(ins[j] == declared[k]);
    }
}

/// Every insert is a declared package.
pub proof fn lemma_package_insert_declared(declared: Seq<PackageRow>, stored: Seq<PackageRow>, x: PackageRow)
    requires
        packages_to_insert(declared, stored).contains(x),
    ensures
        declared.contains(x),
    decreases declared.len(),
{
    if declared.len() > 0 {
        let prev = packages_to_insert(declared.drop_last(), stored);
        if prev.contains(x) {
            lemma_package_insert_declared(declared.drop_last(), stored, x);
            let j = choose|j: int| 0 <= j < declared.drop_last().len() && declared.drop_last()[j] == x;
            assert(declared[j] == x);
        } else {
            assert(declared[declared.len() - 1] == x);
        }
    }
}

/// The update planned for an id, in a stored list without repeated ids: the
/// refreshed stored row when its declaration differs, none otherwise.
pub proof fn lemma_package_update_for(declared: Seq<PackageRow>, stored: Seq<PackageRow>, id: Seq<char>)
    requires
        package_ids(stored).no_duplicates(),
    ensures
        last_package_with_id(packages_to_update(declared, stored), id) == match last_package_with_id(
            stored,
            id,
        ) {
            Some(e) => match last_package_with_id(declared, id) {
                Some(d) => if package_changed(e, d) {
                    Some(package_refreshed(e, d))
                } else {
                    None
                },
                None => None,
            },
            None => None,
        },
    decreases stored.len(),
{
    if stored.len() > 0 {
        let prev_stored = stored.drop_last();
        assert(package_ids(prev_stored) =~= package_ids(stored).drop_last());
        lemma_package_update_for(declared, prev_stored, id);
        let e = stored.last();
        let prev = packages_to_update(declared, prev_stored);
        let upd = packages_to_update(declared, stored);
        assert(stored.drop_last() == prev_stored);
        if e.package_id == id {
            assert(last_package_with_id(stored, id) == Some(e));
            lemma_last_package_found(prev_stored, id);
            if package_ids(prev_stored).contains(id) {
                let j = choose|j: int| 0 <= j < prev_stored.len() && package_ids(prev_stored)[j] == id;
                assert(package_ids(stored)[j] == package_ids(stored)[stored.len() - 1]);
            }
            assert(last_package_with_id(prev, id) is None);
        } else {
            assert(last_package_with_id(stored, id) == last_package_with_id(prev_stored, id));
        }
        match last_package_with_id(declared, e.package_id) {
            Some(d) => {
                let x = package_refreshed(e, d);
                if package_changed(e, d) {
                    assert(upd == prev.push(x));
                    assert(prev.push(x).drop_last() =~= prev);
                    assert(prev.push(x).last() == x);
                    assert(x.package_id == e.package_id);
                } else {
                    assert(upd == prev);
                }
            },
            None => {
                assert(upd == prev);
            },
        }
    }
}

/// No inserts are planned when every declared id is stored.
pub proof fn lemma_no_package_inserts(declared: Seq<PackageRow>, stored: Seq<PackageRow>)
    requires
        forall|k: int|
            0 <= k < declared.len() ==> last_package_with_id(stored, (#[trigger] declared[k]).package_id) is Some,
    ensures
        packages_to_insert(declared, stored) == Seq::<PackageRow>::empty(),
    decreases declared.len(),
{
    if declared.len() > 0 {
        assert forall|k: int| 0 <= k < declared.drop_last().len() implies last_package_with_id(
            stored,
            (#[trigger] declared.drop_last()[k]).package_id,
        ) is Some by {
            assert(declared.drop_last()[k] == declared[k]);
        }
        lemma_no_package_inserts(declared.drop_last(), stored);
        assert(declared.last() == declared[declared.len() - 1]);
    }
}

/// No updates are planned when no stored package differs from its declaration.
pub proof fn lemma_no_package_updates(declared: Seq<PackageRow>, stored: Seq<PackageRow>)
    requires
        forall|k: int|
            0 <= k < stored.len() ==> match last_package_with_id(declared, (#[trigger] stored[k]).package_id) {
                Some(d) => !package_changed(stored[k], d),
                None => true,
            },
    ensures
        packages_to_update(declared, stored) == Seq::<PackageRow>::empty(),
    decreases stored.len(),
{
    if stored.len() > 0 {
        assert forall|k: int| 0 <= k < stored.drop_last().len() implies match last_package_with_id(
            declared,
            (#[trigger] stored.drop_last()[k]).package_id,
        ) {
            Some(d) => !package_changed(stored.drop_last()[k], d),
            None => true,
        } by {
            assert(stored.drop_last()[k] == stored[k]);
        }
        lemma_no_package_updates(declared, stored.drop_last());
        assert(stored.last() == stored[stored.len() - 1]);
    }
}

/// Registering packages settles: once the planned inserts and updates are
/// written, planning the same registration again finds nothing to insert and
/// nothing to update. Stored ids are a primary key, and the declared rows
/// have been merged by id.
pub proof fn lemma_package_registration_settles(declared: Seq<PackageRow>, stored: Seq<PackageRow>)
    requires
        package_ids(declared).no_duplicates(),
        package_ids(stored).no_duplicates(),
    ensures
        ({
            let applied = apply_package_changes(
                stored,
                packages_to_insert(declared, stored),
                packages_to_update(declared, stored),
            );
            &&& packages_to_insert(declared, applied) == Seq::<PackageRow>::empty()
            &&& packages_to_update(declared, applied) == Seq::<PackageRow>::empty()
        }),
{
    let ins = packages_to_insert(declared, stored);
    let upd = packages_to_update(declared, stored);
    let mapped = stored.map_values(
        |e: PackageRow|
            match last_package_with_id(upd, e.package_id) {
                Some(u) => u,
                None => e,
            },
    );
    let applied = apply_package_changes(stored, ins, upd);
    assert(applied == mapped + ins);
    assert forall|k: int| 0 <= k < mapped.len() implies (#[trigger] mapped[k]).package_id
        == stored[k].package_id by {
        lemma_package_update_for(declared, stored, stored[k].package_id);
        lemma_last_package_found(upd, stored[k].package_id);
    }
    assert(package_ids(mapped) =~= package_ids(stored));
    assert forall|k: int| 0 <= k < declared.len() implies last_package_with_id(
        applied,
        (#[trigger] declared[k]).package_id,
    ) is Some by {
        let id = declared[k].package_id;
        lemma_last_package_concat(mapped, ins, id);
        lemma_last_package_found(stored, id);
        lemma_last_package_found(mapped, id);
        if last_package_with_id(stored, id) is None {
            lemma_package_insert_member(declared, stored, k);
            lemma_last_package_found(ins, id);
            let j = choose|j: int| 0 <= j < ins.len() && ins[j] == declared[k];
            assert(package_ids(ins)[j] == id);
        }
    }
    lemma_no_package_inserts(declared, applied);
    assert forall|k: int| 0 <= k < applied.len() implies match last_package_with_id(
        declared,
        (#[trigger] applied[k]).package_id,
    ) {
        Some(d) => !package_changed(applied[k], d),
        None => true,
    } by {
        if k < mapped.len() {
            let e = stored[k];
            lemma_last_package_unique(stored, k);
            lemma_package_update_for(declared, stored, e.package_id);
            assert(applied[k] == mapped[k]);
        } else {
            let x = ins[k - mapped.len()];
            assert(applied[k] == x);
            assert(ins.contains(x));
            lemma_package_insert_declared(declared, stored, x);
            let j = choose|j: int| 0 <= j < declared.len() && declared[j] == x;
            lemma_last_package_unique(declared, j);
        }
    }
    lemma_no_package_updates(declared, applied);
}

/// A stored function differs from its declaration in a field that
/// registration keeps up to date.
pub open spec fn function_changed(stored: FunctionRow, declared: FunctionRow) -> bool {
    ||| stored.function_name != declared.function_name
    ||| stored.description != declared.description
    ||| stored.arguments != declared.arguments
    ||| stored.returns != declared.returns
}

/// A stored function with the fields that registration keeps up to date taken
/// from its declaration.
pub open spec fn function_refreshed(stored: FunctionRow, declared: FunctionRow) -> FunctionRow {
    FunctionRow {
        function_name: declared.function_name,
        description: declared.description,
        arguments: declared.arguments,
        returns: declared.returns,
        ..stored
    }
}

/// The declared functions that are not stored, in order.
pub open spec fn functions_to_insert(declared: Seq<FunctionRow>, stored: Seq<FunctionRow>) -> Seq<
    FunctionRow,
>
    decreases declared.len(),
{
    if declared.len() == 0 {
        Seq::empty()
    } else {
        let prev = functions_to_insert(declared.drop_last(), stored);
        if last_function_with_id(stored, declared.last().function_id) is Some {
            prev
        } else {
            prev.push(declared.last())
        }
    }
}

/// The stored functions that differ from their declaration, refreshed, in
/// stored order.
pub open spec fn functions_to_update(declared: Seq<FunctionRow>, stored: Seq<FunctionRow>) -> Seq<
    FunctionRow,
>
    decreases stored.len(),
{
    if stored.len() == 0 {
        Seq::empty()
    } else {
        let prev = functions_to_update(declared, stored.drop_last());
        let e = stored.last();
        match last_function_with_id(declared, e.function_id) {
            Some(d) => if function_changed(e, d) {
                prev.push(function_refreshed(e, d))
            } else {
                prev
            },
            None => prev,
        }
    }
}

/// The index of the last row with function id `id`, if any.
pub fn find_last_function(rows: &[EntityPluginFunction], id: &String) -> (r: Option<usize>)
    ensures
        match r {
            Some(i) => i < rows@.len() && last_function_with_id(function_row_views(rows@), id@)
                == Some(rows@[i as int]@),
            None => last_function_with_id(function_row_views(rows@), id@) is None,
        },
{
    let ghost rv = function_row_views(rows@);
    let mut found: Option<usize> = None;
    let mut k: usize = 0;
    while k < rows.len()
        invariant
            k <= rows@.len(),
            rv == function_row_views(rows@),
            match found {
                Some(i) => i < k && last_function_with_id(rv.take(k as int), id@) == Some(rv[i as int]),
                None => last_function_with_id(rv.take(k as int), id@) is None,
            },
        decreases rows@.len() - k,
    {
        proof {
            lemma_last_function_step(rv, k as int, id@);
        }
        if rows[k].function_id == *id {
            found = Some(k);
        }
        k = k + 1;
    }
    proof {
        assert(rv.take(rows@.len() as int) =~= rv);
    }
    found
}

/// Whether a stored function differs from its declaration in a field that
/// registration keeps up to date.
pub fn function_fields_differ(stored: &EntityPluginFunction, declared: &EntityPluginFunction) -> (r:
    bool)
    ensures
        r == function_changed(stored@, declared@),
{
    !(stored.function_name == declared.function_name)
        || !opt_string_eq(&stored.description, &declared.description)
        || !opt_string_eq(&stored.arguments, &declared.arguments)
        || !opt_string_eq(&stored.returns, &declared.returns)
}

/// Plans the function writes of a registration: the declared functions that are
/// not stored yet, to insert, and the stored ones that differ from their
/// declaration, refreshed, to update. `declared` holds one row per id.
pub fn plan_function_changes(declared: &[EntityPluginFunction], stored: &[EntityPluginFunction]) -> (r:
    (Vec<EntityPluginFunction>, Vec<EntityPluginFunction>))
    ensures
        function_row_views(r.0@) == functions_to_insert(
            function_row_views(declared@),
            function_row_views(stored@),
        ),
        function_row_views(r.1@) == functions_to_update(
            function_row_views(declared@),
            function_row_views(stored@),
        ),
{
    let ghost dv = function_row_views(declared@);
    let ghost sv = function_row_views(stored@);
    let mut inserts: Vec<EntityPluginFunction> = Vec::new();
    let mut k: usize = 0;
    proof {
        assert(function_row_views(inserts@) =~= functions_to_insert(dv.take(0), sv));
    }
    while k < declared.len()
        invariant
            k <= declared@.len(),
            dv == function_row_views(declared@),
            sv == function_row_views(stored@),
            function_row_views(inserts@) == functions_to_insert(dv.take(k as int), sv),
        decreases declared@.len() - k,
    {
        proof {
            assert(dv.take(k + 1).drop_last() =~= dv.take(k as int));
            assert(dv.take(k + 1).last() == dv[k as int]);
        }
        if find_last_function(stored, &declared[k].function_id).is_none() {
            let row = declared[k].duplicate();
            inserts.push(row);
            proof {
                assert(function_row_views(inserts@) =~= functions_to_insert(dv.take(k as int), sv).push(
                    row@,
                ));
            }
        }
        k = k + 1;
    }
    proof {
        assert(dv.take(declared@.len() as int) =~= dv);
    }
    let mut updates: Vec<EntityPluginFunction> = Vec::new();
    let mut m: usize = 0;
    proof {
        assert(function_row_views(updates@) =~= functions_to_update(dv, sv.take(0)));
    }
    while m < stored.len()
        invariant
            m <= stored@.len(),
            dv == function_row_views(declared@),
            sv == function_row_views(stored@),
            function_row_views(updates@) == functions_to_update(dv, sv.take(m as int)),
        decreases stored@.len() - m,
    {
        proof {
            assert(sv.take(m + 1).drop_last() =~= sv.take(m as int));
            assert(sv.take(m + 1).last() == sv[m as int]);
        }
        let e = &stored[m];
        match find_last_function(declared, &e.function_id) {
            Some(j) => {
                let d = &declared[j];
                if function_fields_differ(e, d) {
                    let row = EntityPluginFunction {
                        function_id: e.function_id.clone(),
                        package_id: e.package_id.clone(),
                        function_name: d.function_name.clone(),
                        description: clone_opt_string(&d.description),
                        arguments: clone_opt_string(&d.arguments),
                        returns: clone_opt_string(&d.returns),
                    };
                    updates.push(row);
                    proof {
                        assert(row@ == function_refreshed(e@, d@));
                        assert(function_row_views(updates@) =~= functions_to_update(
                            dv,
                            sv.take(m as int),
                        ).push(row@));
                    }
                }
            },
            None => {},
        }
        m = m + 1;
    }
    proof {
        assert(sv.take(stored@.len() as int) =~= sv);
    }
    (inserts, updates)
}

/// The stored functions after a registration's writes: updated rows replace
/// the stored rows with their id, inserted rows come after.
pub open spec fn apply_function_changes(
    stored: Seq<FunctionRow>,
    inserts: Seq<FunctionRow>,
    updates: Seq<FunctionRow>,
) -> Seq<FunctionRow> {
    stored.map_values(
        |e: FunctionRow|
            match last_function_with_id(updates, e.function_id) {
                Some(u) => u,
                None => e,
            },
    ) + inserts
}

/// The last row with an id has that id and is one of the rows; there is one
/// exactly when some row has the id.
pub proof fn lemma_last_function_found(rows: Seq<FunctionRow>, id: Seq<char>)
    ensures
        match last_function_with_id(rows, id) {
            Some(x) => x.function_id == id && rows.contains(x) && function_ids(rows).contains(id),
            None => !function_ids(rows).contains(id),
        },
    decreases rows.len(),
{
    if rows.len() > 0 {
        lemma_last_function_found(rows.drop_last(), id);
        let prev = rows.drop_last();
        if rows.last().function_id != id {
            match last_function_with_id(prev, id) {
                Some(x) => {
                    let j = choose|j: int| 0 <= j < prev.len() && prev[j] == x;
                    assert(rows[j] == x);
                    assert(function_ids(rows)[j] == id);
                },
                None => {
                    if function_ids(rows).contains(id) {
                        let j = choose|j: int| 0 <= j < rows.len() && function_ids(rows)[j] == id;
                        assert(function_ids(prev)[j] == id);
                    }
                },
            }
        } else {
            assert(rows[rows.len() - 1] == rows.last());
            assert(function_ids(rows)[rows.len() - 1] == id);
        }
    } else {
        assert(!function_ids(rows).contains(id));
    }
}

/// In a list without repeated ids, the last row with a row's id is that row.
pub proof fn lemma_last_function_unique(rows: Seq<FunctionRow>, k: int)
    requires
        function_ids(rows).no_duplicates(),
        0 <= k < rows.len(),
    ensures
        last_function_with_id(rows, rows[k].function_id) == Some(rows[k]),
    decreases rows.len(),
{
    if k < rows.len() - 1 {
        assert(function_ids(rows)[k] != function_ids(rows)[rows.len() - 1]);
        assert(function_ids(rows.drop_last()) =~= function_ids(rows).drop_last());
        assert(rows.drop_last()[k] == rows[k]);
        lemma_last_function_unique(rows.drop_last(), k);
    }
}

/// The last row with an id in a concatenation is found in the second part
/// first.
pub proof fn lemma_last_function_concat(a: Seq<FunctionRow>, b: Seq<FunctionRow>, id: Seq<char>)
    ensures
        last_function_with_id(a + b, id) == match last_function_with_id(b, id) {
            Some(x) => Some(x),
            None => last_function_with_id(a, id),
        },
    decreases b.len(),
{
    if b.len() == 0 {
        assert(a + b =~= a);
    } else {
        assert((a + b).drop_last() =~= a + b.drop_last());
        assert((a + b).last() == b.last());
        lemma_last_function_concat(a, b.drop_last(), id);
    }
}

/// A declared function whose id is not stored is among the inserts.
pub proof fn lemma_function_insert_member(declared: Seq<FunctionRow>, stored: Seq<FunctionRow>, k: int)
    requires
        0 <= k < declared.len(),
        last_function_with_id(stored, declared[k].function_id) is None,
    ensures
        functions_to_insert(declared, stored).contains(declared[k]),
    decreases declared.len(),
{
    let ins = functions_to_insert(declared, stored);
    if k == declared.len() - 1 {
        assert(ins.last() == declared[k]);
        assert(ins[ins.len() - 1] == declared[k]);
    } else {
        assert(declared.drop_last()[k] == declared[k]);
        lemma_function_insert_member(declared.drop_last(), stored, k);
        let prev = functions_to_insert(declared.drop_last(), stored);
        let j = choose|j: int| 0 <= j < prev.len() && prev[j] == declared[k];
        assert(ins[j] == declared[k]);
    }
}

/// Every insert is a declared function.
pub proof fn lemma_function_insert_declared(declared: Seq<FunctionRow>, stored: Seq<FunctionRow>, x: FunctionRow)
    requires
        functions_to_insert(declared, stored).contains(x),
    ensures
        declared.contains(x),
    decreases declared.len(),
{
    if declared.len() > 0 {
        let prev = functions_to_insert(declared.drop_last(), stored);
        if prev.contains(x) {
            lemma_function_insert_declared(declared.drop_last(), stored, x);
            let j = choose|j: int| 0 <= j < declared.drop_last().len() && declared.drop_last()[j] == x;
            assert(declared[j] == x);
        } else {
            assert(declared[declared.len() - 1] == x);
        }
    }
}

/// The update planned for an id, in a stored list without repeated ids: the
/// refreshed stored row when its declaration differs, none otherwise.
pub proof fn lemma_function_update_for(declared: Seq<FunctionRow>, stored: Seq<FunctionRow>, id: Seq<char>)
    requires
        function_ids(stored).no_duplicates(),
    ensures
        last_function_with_id(functions_to_update(declared, stored), id) == match last_function_with_id(
            stored,
            id,
        ) {
            Some(e) => match last_function_with_id(declared, id) {
                Some(d) => if function_changed(e, d) {
                    Some(function_refreshed(e, d))
                } else {
                    None
                },
                None => None,
            },
            None => None,
        },
    decreases stored.len(),
{
    if stored.len() > 0 {
        let prev_stored = stored.drop_last();
        assert(function_ids(prev_stored) =~= function_ids(stored).drop_last());
        lemma_function_update_for(declared, prev_stored, id);
        let e = stored.last();
        let prev = functions_to_update(declared, prev_stored);
        let upd = functions_to_update(declared, stored);
        assert(stored.drop_last() == prev_stored);
        if e.function_id == id {
            assert(last_function_with_id(stored, id) == Some(e));
            lemma_last_function_found(prev_stored, id);
            if function_ids(prev_stored).contains(id) {
                let j = choose|j: int| 0 <= j < prev_stored.len() && function_ids(prev_stored)[j] == id;
                assert(function_ids(stored)[j] == function_ids(stored)[stored.len() - 1]);
            }
            assert(last_function_with_id(prev, id) is None);
        } else {
            assert(last_function_with_id(stored, id) == last_function_with_id(prev_stored, id));
        }
        match last_function_with_id(declared, e.function_id) {
            Some(d) => {
                let x = function_refreshed(e, d);
                if function_changed(e, d) {
                    assert(upd == prev.push(x));
                    assert(prev.push(x).drop_last() =~= prev);
                    assert(prev.push(x).last() == x);
                    assert(x.function_id == e.function_id);
                } else {
                    assert(upd == prev);
                }
            },
            None => {
                assert(upd == prev);
            },
        }
    }
}

/// No inserts are planned when every declared id is stored.
pub proof fn lemma_no_function_inserts(declared: Seq<FunctionRow>, stored: Seq<FunctionRow>)
    requires
        forall|k: int|
            0 <= k < declared.len() ==> last_function_with_id(stored, (#[trigger] declared[k]).function_id) is Some,
    ensures
        functions_to_insert(declared, stored) == Seq::<FunctionRow>::empty(),
    decreases declared.len(),
{
    if declared.len() > 0 {
        assert forall|k: int| 0 <= k < declared.drop_last().len() implies last_function_with_id(
            stored,
            (#[trigger] declared.drop_last()[k]).function_id,
        ) is Some by {
            assert(declared.drop_last()[k] == declared[k]);
        }
        lemma_no_function_inserts(declared.drop_last(), stored);
        assert(declared.last() == declared[declared.len() - 1]);
    }
}

/// No updates are planned when no stored function differs from its declaration.
pub proof fn lemma_no_function_updates(declared: Seq<FunctionRow>, stored: Seq<FunctionRow>)
    requires
        forall|k: int|
            0 <= k < stored.len() ==> match last_function_with_id(declared, (#[trigger] stored[k]).function_id) {
                Some(d) => !function_changed(stored[k], d),
                None => true,
            },
    ensures
        functions_to_update(declared, stored) == Seq::<FunctionRow>::empty(),
    decreases stored.len(),
{
    if stored.len() > 0 {
        assert forall|k: int| 0 <= k < stored.drop_last().len() implies match last_function_with_id(
            declared,
            (#[trigger] stored.drop_last()[k]).function_id,
        ) {
            Some(d) => !function_changed(stored.drop_last()[k], d),
            None => true,
        } by {
            assert(stored.drop_last()[k] == stored[k]);
        }
        lemma_no_function_updates(declared, stored.drop_last());
        assert(stored.last() == stored[stored.len() - 1]);
    }
}

/// Registering functions settles: once the planned inserts and updates are
/// written, planning the same registration again finds nothing to insert and
/// nothing to update. Stored ids are a primary key, and the declared rows
/// have been merged by id.
pub proof fn lemma_function_registration_settles(declared: Seq<FunctionRow>, stored: Seq<FunctionRow>)
    requires
        function_ids(declared).no_duplicates(),
        function_ids(stored).no_duplicates(),
    ensures
        ({
            let applied = apply_function_changes(
                stored,
                functions_to_insert(declared, stored),
                functions_to_update(declared, stored),
            );
            &&& functions_to_insert(declared, applied) == Seq::<FunctionRow>::empty()
            &&& functions_to_update(declared, applied) == Seq::<FunctionRow>::empty()
        }),
{
    let ins = functions_to_insert(declared, stored);
    let upd = functions_to_update(declared, stored);
    let mapped = stored.map_values(
        |e: FunctionRow|
            match last_function_with_id(upd, e.function_id) {
                Some(u) => u,
                None => e,
            },
    );
    let applied = apply_function_changes(stored, ins, upd);
    assert(applied == mapped + ins);
    assert forall|k: int| 0 <= k < mapped.len() implies (#[trigger] mapped[k]).function_id
        == stored[k].function_id by {
        lemma_function_update_for(declared, stored, stored[k].function_id);
        lemma_last_function_found(upd, stored[k].function_id);
    }
    assert(function_ids(mapped) =~= function_ids(stored));
    assert forall|k: int| 0 <= k < declared.len() implies last_function_with_id(
        applied,
        (#[trigger] declared[k]).function_id,
    ) is Some by {
        let id = declared[k].function_id;
        lemma_last_function_concat(mapped, ins, id);
        lemma_last_function_found(stored, id);
        lemma_last_function_found(mapped, id);
        if last_function_with_id(stored, id) is None {
            lemma_function_insert_member(declared, stored, k);
            lemma_last_function_found(ins, id);
            let j = choose|j: int| 0 <= j < ins.len() && ins[j] == declared[k];
            assert(function_ids(ins)[j] == id);
        }
    }
    lemma_no_function_inserts(declared, applied);
    assert forall|k: int| 0 <= k < applied.len() implies match last_function_with_id(
        declared,
        (#[trigger] applied[k]).function_id,
    ) {
        Some(d) => !function_changed(applied[k], d),
        None => true,
    } by {
        if k < mapped.len() {
            let e = stored[k];
            lemma_last_function_unique(stored, k);
            lemma_function_update_for(declared, stored, e.function_id);
            assert(applied[k] == mapped[k]);
        } else {
            let x = ins[k - mapped.len()];
            assert(applied[k] == x);
            assert(ins.contains(x));
            lemma_function_insert_declared(declared, stored, x);
            let j = choose|j: int| 0 <= j < declared.len() && declared[j] == x;
            lemma_last_function_unique(declared, j);
        }
    }
    lemma_no_function_updates(declared, applied);
}

/// The declared permissions that no stored row describes, in order.
pub open spec fn permissions_to_insert(
    declared: Seq<PermissionRow>,
    stored: Seq<PermissionRow>,
) -> Seq<PermissionRow>
    decreases declared.len(),
{
    if declared.len() == 0 {
        Seq::empty()
    } else {
        let prev = permissions_to_insert(declared.drop_last(), stored);
        if has_permission(stored, declared.last()) {
            prev
        } else {
            prev.push(declared.last())
        }
    }
}

/// Whether some row describes the same permission as `row`.
pub fn holds_permission(rows: &[EntityPermission], row: &EntityPermission) -> (r: bool)
    ensures
        r == has_permission(permission_row_views(rows@), row@),
{
    let ghost rv = permission_row_views(rows@);
    let mut k: usize = 0;
    let mut found = false;
    while k < rows.len()
        invariant
            k <= rows@.len(),
            rv == permission_row_views(rows@),
            found == has_permission(rv.take(k as int), row@),
        decreases rows@.len() - k,
    {
        proof {
            assert(rv.take(k + 1).drop_last() =~= rv.take(k as int));
            assert(rv.take(k + 1).last() == rv[k as int]);
        }
        if same_permission_rows(&rows[k], row) {
            found = true;
        }
        k = k + 1;
    }
    proof {
        assert(rv.take(rows@.len() as int) =~= rv);
    }
    found
}

/// Plans the permission inserts of a registration: the declared permissions
/// that no stored row of their functions describes. The database gives the
/// inserted rows their ids.
pub fn plan_permission_inserts(declared: &[EntityPermission], stored: &[EntityPermission]) -> (r:
    Vec<EntityPermission>)
    ensures
        permission_row_views(r@) == permissions_to_insert(
            permission_row_views(declared@),
            permission_row_views(stored@),
        ),
{
    let ghost dv = permission_row_views(declared@);
    let ghost sv = permission_row_views(stored@);
    let mut out: Vec<EntityPermission> = Vec::new();
    let mut k: usize = 0;
    proof {
        assert(permission_row_views(out@) =~= permissions_to_insert(dv.take(0), sv));
    }
    while k < declared.len()
        invariant
            k <= declared@.len(),
            dv == permission_row_views(declared@),
            sv == permission_row_views(stored@),
            permission_row_views(out@) == permissions_to_insert(dv.take(k as int), sv),
        decreases declared@.len() - k,
    {
        proof {
            assert(dv.take(k + 1).drop_last() =~= dv.take(k as int));
            assert(dv.take(k + 1).last() == dv[k as int]);
        }
        if !holds_permission(stored, &declared[k]) {
            let row = declared[k].duplicate();
            out.push(row);
            proof {
                assert(permission_row_views(out@) =~= permissions_to_insert(dv.take(k as int), sv).push(
                    row@,
                ));
            }
        }
        k = k + 1;
    }
    proof {
        assert(dv.take(declared@.len() as int) =~= dv);
    }
    out
}

/// A concatenation holds a permission when one of its parts does.
pub proof fn lemma_has_permission_concat(a: Seq<PermissionRow>, b: Seq<PermissionRow>, row: PermissionRow)
    ensures
        has_permission(a + b, row) == (has_permission(a, row) || has_permission(b, row)),
    decreases b.len(),
{
    if b.len() == 0 {
        assert(a + b =~= a);
    } else {
        assert((a + b).drop_last() =~= a + b.drop_last());
        assert((a + b).last() == b.last());
        lemma_has_permission_concat(a, b.drop_last(), row);
    }
}

/// A declared permission that no stored row describes is among the inserts.
pub proof fn lemma_permission_insert_member(
    declared: Seq<PermissionRow>,
    stored: Seq<PermissionRow>,
    k: int,
)
    requires
        0 <= k < declared.len(),
        !has_permission(stored, declared[k]),
    ensures
        permissions_to_insert(declared, stored).contains(declared[k]),
    decreases declared.len(),
{
    let ins = permissions_to_insert(declared, stored);
    if k == declared.len() - 1 {
        assert(ins[ins.len() - 1] == declared[k]);
    } else {
        assert(declared.drop_last()[k] == declared[k]);
        lemma_permission_insert_member(declared.drop_last(), stored, k);
        let prev = permissions_to_insert(declared.drop_last(), stored);
        let j = choose|j: int| 0 <= j < prev.len() && prev[j] == declared[k];
        assert(ins[j] == declared[k]);
    }
}

/// No inserts are planned when every declared permission is held.
pub proof fn lemma_no_permission_inserts(declared: Seq<PermissionRow>, stored: Seq<PermissionRow>)
    requires
        forall|k: int| 0 <= k < declared.len() ==> has_permission(stored, #[trigger] declared[k]),
    ensures
        permissions_to_insert(declared, stored) == Seq::<PermissionRow>::empty(),
    decreases declared.len(),
{
    if declared.len() > 0 {
        assert forall|k: int| 0 <= k < declared.drop_last().len() implies has_permission(
            stored,
            #[trigger] declared.drop_last()[k],
        ) by {
            assert(declared.drop_last()[k] == declared[k]);
        }
        lemma_no_permission_inserts(declared.drop_last(), stored);
        assert(declared.last() == declared[declared.len() - 1]);
    }
}

/// Registering permissions settles: once the planned rows are inserted, under
/// whatever ids the database gives them, planning the same registration again
/// finds nothing to insert.
pub proof fn lemma_permission_registration_settles(
    declared: Seq<PermissionRow>,
    stored: Seq<PermissionRow>,
    inserted: Seq<PermissionRow>,
)
    requires
        inserted.len() == permissions_to_insert(declared, stored).len(),
        forall|i: int|
            0 <= i < inserted.len() ==> same_permission(
                #[trigger] inserted[i],
                permissions_to_insert(declared, stored)[i],
            ),
    ensures
        permissions_to_insert(declared, stored + inserted) == Seq::<PermissionRow>::empty(),
{
    let ins = permissions_to_insert(declared, stored);
    assert forall|k: int| 0 <= k < declared.len() implies has_permission(
        stored + inserted,
        #[trigger] declared[k],
    ) by {
        lemma_has_permission_concat(stored, inserted, declared[k]);
        if !has_permission(stored, declared[k]) {
            lemma_permission_insert_member(declared, stored, k);
            let j = choose|j: int| 0 <= j < ins.len() && ins[j] == declared[k];
            assert(same_permission(inserted[j], ins[j]));
            lemma_has_permission_at(inserted, j, declared[k]);
        }
    }
    lemma_no_permission_inserts(declared, stored + inserted);
}

/// The last row that describes the same permission as `row`, if any.
pub open spec fn last_same_permission(rows: Seq<PermissionRow>, row: PermissionRow) -> Option<
    PermissionRow,
>
    decreases rows.len(),
{
    if rows.len() == 0 {
        None
    } else if same_permission(rows.last(), row) {
        Some(rows.last())
    } else {
        last_same_permission(rows.drop_last(), row)
    }
}

/// The (function id, permission id) link for a stored permission row; the
/// link table keeps the permission id as decimal text.
pub open spec fn permission_link(p: PermissionRow) -> (Seq<char>, Seq<char>) {
    (p.plugin_function_id, decimal_text(p.id as int))
}

/// The links to add so that every declared permission is linked to its
/// function through the stored row that describes it (the last such row), in
/// declaration order, each link once and none already in `linked`.
pub open spec fn links_to_add(
    declared: Seq<PermissionRow>,
    stored: Seq<PermissionRow>,
    linked: Seq<(Seq<char>, Seq<char>)>,
) -> Seq<(Seq<char>, Seq<char>)>
    decreases declared.len(),
{
    if declared.len() == 0 {
        Seq::empty()
    } else {
        let prev = links_to_add(declared.drop_last(), stored, linked);
        match last_same_permission(stored, declared.last()) {
            Some(p) => {
                let l = permission_link(p);
                if linked.contains(l) || prev.contains(l) {
                    prev
                } else {
                    prev.push(l)
                }
            },
            None => prev,
        }
    }
}

/// The (function id, permission id) pairs of a list of link rows.
pub open spec fn link_pairs(v: Seq<EntityPluginFunctionPermission>) -> Seq<(Seq<char>, Seq<char>)> {
    v.map_values(
        |x: EntityPluginFunctionPermission| (x.plugin_function_id@, x.permission_id@),
    )
}

/// The index of the last row that describes the same permission as `row`.
pub fn find_last_same_permission(rows: &[EntityPermission], row: &EntityPermission) -> (r: Option<
    usize,
>)
    ensures
        match r {
            Some(i) => i < rows@.len() && last_same_permission(permission_row_views(rows@), row@)
                == Some(rows@[i as int]@),
            None => last_same_permission(permission_row_views(rows@), row@) is None,
        },
{
    let ghost rv = permission_row_views(rows@);
    let mut found: Option<usize> = None;
    let mut k: usize = 0;
    while k < rows.len()
        invariant
            k <= rows@.len(),
            rv == permission_row_views(rows@),
            match found {
                Some(i) => i < k && last_same_permission(rv.take(k as int), row@) == Some(rv[i as int]),
                None => last_same_permission(rv.take(k as int), row@) is None,
            },
        decreases rows@.len() - k,
    {
        proof {
            assert(rv.take(k + 1).drop_last() =~= rv.take(k as int));
            assert(rv.take(k + 1).last() == rv[k as int]);
        }
        if same_permission_rows(&rows[k], row) {
            found = Some(k);
        }
        k = k + 1;
    }
    proof {
        assert(rv.take(rows@.len() as int) =~= rv);
    }
    found
}

/// Whether a list of link rows holds the link (`function_id`, `permission_id`).
pub fn holds_link(
    links: &[EntityPluginFunctionPermission],
    function_id: &String,
    permission_id: &String,
) -> (r: bool)
    ensures
        r == link_pairs(links@).contains((function_id@, permission_id@)),
{
    let mut k: usize = 0;
    while k < links.len()
        invariant
            k <= links@.len(),
            forall|j: int|
                0 <= j < k ==> (#[trigger] link_pairs(links@)[j]) != (function_id@, permission_id@),
        decreases links@.len() - k,
    {
        if links[k].plugin_function_id == *function_id && links[k].permission_id == *permission_id {
            proof {
                assert(link_pairs(links@)[k as int] == (function_id@, permission_id@));
            }
            return true;
        }
        k = k + 1;
    }
    false
}

/// Plans the links of a registration: each declared permission is linked to
/// its function through the stored row that describes it, unless that link
/// is stored or already planned. The planned rows have id 0 so that the
/// database assigns one.
pub fn plan_permission_links(
    declared: &[EntityPermission],
    stored: &[EntityPermission],
    links: &[EntityPluginFunctionPermission],
) -> (r: Vec<EntityPluginFunctionPermission>)
    ensures
        link_pairs(r@) == links_to_add(
            permission_row_views(declared@),
            permission_row_views(stored@),
            link_pairs(links@),
        ),
        forall|i: int| 0 <= i < r@.len() ==> (#[trigger] r@[i]).id == 0,
{
    let ghost dv = permission_row_views(declared@);
    let ghost sv = permission_row_views(stored@);
    let mut out: Vec<EntityPluginFunctionPermission> = Vec::new();
    let mut k: usize = 0;
    proof {
        assert(link_pairs(out@) =~= links_to_add(dv.take(0), sv, link_pairs(links@)));
    }
    while k < declared.len()
        invariant
            k <= declared@.len(),
            dv == permission_row_views(declared@),
            sv == permission_row_views(stored@),
            link_pairs(out@) == links_to_add(dv.take(k as int), sv, link_pairs(links@)),
            forall|i: int| 0 <= i < out@.len() ==> (#[trigger] out@[i]).id == 0,
        decreases declared@.len() - k,
    {
        proof {
            assert(dv.take(k + 1).drop_last() =~= dv.take(k as int));
            assert(dv.take(k + 1).last() == dv[k as int]);
        }
        match find_last_same_permission(stored, &declared[k]) {
            Some(j) => {
                let p = &stored[j];
                let function_id = p.plugin_function_id.clone();
                let permission_id = i32_to_decimal(p.id);
                if !holds_link(links, &function_id, &permission_id) && !holds_link(
                    out.as_slice(),
                    &function_id,
                    &permission_id,
                ) {
                    let link = EntityPluginFunctionPermission {
                        id: 0,
                        plugin_function_id: function_id,
                        permission_id,
                    };
                    let ghost before = out@;
                    out.push(link);
                    proof {
                        assert(link_pairs(out@) =~= link_pairs(before).push(
                            (link.plugin_function_id@, link.permission_id@),
                        ));
                    }
                }
            },
            None => {},
        }
        k = k + 1;
    }
    proof {
        assert(dv.take(declared@.len() as int) =~= dv);
    }
    out
}

/// After planning, the link of every declared permission that a stored row
/// describes is stored or planned.
pub proof fn lemma_links_cover(
    declared: Seq<PermissionRow>,
    stored: Seq<PermissionRow>,
    linked: Seq<(Seq<char>, Seq<char>)>,
    k: int,
)
    requires
        0 <= k < declared.len(),
    ensures
        match last_same_permission(stored, declared[k]) {
            Some(p) => linked.contains(permission_link(p)) || links_to_add(
                declared,
                stored,
                linked,
            ).contains(permission_link(p)),
            None => true,
        },
    decreases declared.len(),
{
    let added = links_to_add(declared, stored, linked);
    let prev = links_to_add(declared.drop_last(), stored, linked);
    if k < declared.len() - 1 {
        assert(declared.drop_last()[k] == declared[k]);
        lemma_links_cover(declared.drop_last(), stored, linked, k);
    }
    match last_same_permission(stored, declared.last()) {
        Some(p) => {
            let l = permission_link(p);
            if !(linked.contains(l) || prev.contains(l)) {
                assert(added == prev.push(l));
                assert(added[added.len() - 1] == l);
                assert forall|x: (Seq<char>, Seq<char>)| prev.contains(x) implies added.contains(x) by {
                    let j = choose|j: int| 0 <= j < prev.len() && prev[j] == x;
                    assert(added[j] == x);
                }
            }
        },
        None => {},
    }
}

/// No links are planned when every declared permission's link is stored.
pub proof fn lemma_no_links_to_add(
    declared: Seq<PermissionRow>,
    stored: Seq<PermissionRow>,
    linked: Seq<(Seq<char>, Seq<char>)>,
)
    requires
        forall|k: int|
            0 <= k < declared.len() ==> match last_same_permission(stored, #[trigger] declared[k]) {
                Some(p) => linked.contains(permission_link(p)),
                None => true,
            },
    ensures
        links_to_add(declared, stored, linked) == Seq::<(Seq<char>, Seq<char>)>::empty(),
    decreases declared.len(),
{
    if declared.len() > 0 {
        assert forall|k: int| 0 <= k < declared.drop_last().len() implies match last_same_permission(
            stored,
            #[trigger] declared.drop_last()[k],
        ) {
            Some(p) => linked.contains(permission_link(p)),
            None => true,
        } by {
            assert(declared.drop_last()[k] == declared[k]);
        }
        lemma_no_links_to_add(declared.drop_last(), stored, linked);
        assert(declared.last() == declared[declared.len() - 1]);
    }
}

/// Linking settles: once the planned links are stored, planning the same
/// registration again adds no link.
pub proof fn lemma_link_registration_settles(
    declared: Seq<PermissionRow>,
    stored: Seq<PermissionRow>,
    linked: Seq<(Seq<char>, Seq<char>)>,
)
    ensures
        links_to_add(declared, stored, linked + links_to_add(declared, stored, linked))
            == Seq::<(Seq<char>, Seq<char>)>::empty(),
{
    let added = links_to_add(declared, stored, linked);
    assert forall|k: int| 0 <= k < declared.len() implies match last_same_permission(
        stored,
        #[trigger] declared[k],
    ) {
        Some(p) => (linked + added).contains(permission_link(p)),
        None => true,
    } by {
        lemma_links_cover(declared, stored, linked, k);
        match last_same_permission(stored, declared[k]) {
            Some(p) => {
                let l = permission_link(p);
                if linked.contains(l) {
                    let j = choose|j: int| 0 <= j < linked.len() && linked[j] == l;
                    assert((linked + added)[j] == l);
                } else {
                    let j = choose|j: int| 0 <= j < added.len() && added[j] == l;
                    assert((linked + added)[linked.len() + j] == l);
                }
            },
            None => {},
        }
    }
    lemma_no_links_to_add(declared, stored, linked + added);
}

/// Registering packages brings stored packages up to date: after the planned
/// writes, the stored row with a declared package's id agrees with the
/// declaration on every field that registration keeps up to date.
pub proof fn lemma_package_registration_refreshes(declared: Seq<PackageRow>, stored: Seq<PackageRow>, k: int)
    requires
        package_ids(declared).no_duplicates(),
        package_ids(stored).no_duplicates(),
        0 <= k < declared.len(),
    ensures
        ({
            let applied = apply_package_changes(
                stored,
                packages_to_insert(declared, stored),
                packages_to_update(declared, stored),
            );
            let row = last_package_with_id(applied, declared[k].package_id)->0;
            &&& last_package_with_id(applied, declared[k].package_id) is Some
            &&& !package_changed(row, declared[k])
            &&& row.package_id == declared[k].package_id
            &&& row.package_name == declared[k].package_name
            &&& row.package_version == declared[k].package_version
            &&& row.description == declared[k].description
            &&& row.plugin_store_url == declared[k].plugin_store_url
            &&& row.internal_plugin == declared[k].internal_plugin
            &&& row.verified == declared[k].verified
            &&& row.deprecated == declared[k].deprecated
        }),
{
    let applied = apply_package_changes(
        stored,
        packages_to_insert(declared, stored),
        packages_to_update(declared, stored),
    );
    let id = declared[k].package_id;
    lemma_package_registration_settles(declared, stored);
    lemma_last_package_found(applied, id);
    lemma_last_package_unique(declared, k);
    match last_package_with_id(applied, id) {
        Some(x) => {
            let j = choose|j: int| 0 <= j < applied.len() && applied[j] == x;
            lemma_update_free_packages(declared, applied, j);
        },
        None => {
            lemma_no_package_inserts_means_stored(declared, applied, k);
        },
    }
}

/// With no updates planned, no stored package differs from its declaration.
pub proof fn lemma_update_free_packages(declared: Seq<PackageRow>, stored: Seq<PackageRow>, j: int)
    requires
        packages_to_update(declared, stored) == Seq::<PackageRow>::empty(),
        0 <= j < stored.len(),
    ensures
        match last_package_with_id(declared, stored[j].package_id) {
            Some(d) => !package_changed(stored[j], d),
            None => true,
        },
    decreases stored.len(),
{
    let prev = packages_to_update(declared, stored.drop_last());
    let e = stored.last();
    match last_package_with_id(declared, e.package_id) {
        Some(d) => {
            if package_changed(e, d) {
                assert(packages_to_update(declared, stored).len() == prev.len() + 1);
            }
        },
        None => {},
    }
    if j < stored.len() - 1 {
        assert(stored.drop_last()[j] == stored[j]);
        lemma_update_free_packages(declared, stored.drop_last(), j);
    }
}

/// With no inserts planned, every declared package's id is stored.
pub proof fn lemma_no_package_inserts_means_stored(declared: Seq<PackageRow>, stored: Seq<PackageRow>, k: int)
    requires
        packages_to_insert(declared, stored) == Seq::<PackageRow>::empty(),
        0 <= k < declared.len(),
    ensures
        last_package_with_id(stored, declared[k].package_id) is Some,
{
    if last_package_with_id(stored, declared[k].package_id) is None {
        lemma_package_insert_member(declared, stored, k);
        assert(packages_to_insert(declared, stored).len() > 0);
    }
}

/// Registering functions brings stored functions up to date: after the planned
/// writes, the stored row with a declared function's id agrees with the
/// declaration on every field that registration keeps up to date.
pub proof fn lemma_function_registration_refreshes(declared: Seq<FunctionRow>, stored: Seq<FunctionRow>, k: int)
    requires
        function_ids(declared).no_duplicates(),
        function_ids(stored).no_duplicates(),
        0 <= k < declared.len(),
    ensures
        ({
            let applied = apply_function_changes(
                stored,
                functions_to_insert(declared, stored),
                functions_to_update(declared, stored),
            );
            let row = last_function_with_id(applied, declared[k].function_id)->0;
            &&& last_function_with_id(applied, declared[k].function_id) is Some
            &&& !function_changed(row, declared[k])
            &&& row.function_id == declared[k].function_id
            &&& row.function_name == declared[k].function_name
            &&& row.description == declared[k].description
            &&& row.arguments == declared[k].arguments
            &&& row.returns == declared[k].returns
        }),
{
    let applied = apply_function_changes(
        stored,
        functions_to_insert(declared, stored),
        functions_to_update(declared, stored),
    );
    let id = declared[k].function_id;
    lemma_function_registration_settles(declared, stored);
    lemma_last_function_found(applied, id);
    lemma_last_function_unique(declared, k);
    match last_function_with_id(applied, id) {
        Some(x) => {
            let j = choose|j: int| 0 <= j < applied.len() && applied[j] == x;
            lemma_update_free_functions(declared, applied, j);
        },
        None => {
            lemma_no_function_inserts_means_stored(declared, applied, k);
        },
    }
}

/// With no updates planned, no stored function differs from its declaration.
pub proof fn lemma_update_free_functions(declared: Seq<FunctionRow>, stored: Seq<FunctionRow>, j: int)
    requires
        functions_to_update(declared, stored) == Seq::<FunctionRow>::empty(),
        0 <= j < stored.len(),
    ensures
        match last_function_with_id(declared, stored[j].function_id) {
            Some(d) => !function_changed(stored[j], d),
            None => true,
        },
    decreases stored.len(),
{
    let prev = functions_to_update(declared, stored.drop_last());
    let e = stored.last();
    match last_function_with_id(declared, e.function_id) {
        Some(d) => {
            if function_changed(e, d) {
                assert(functions_to_update(declared, stored).len() == prev.len() + 1);
            }
        },
        None => {},
    }
    if j < stored.len() - 1 {
        assert(stored.drop_last()[j] == stored[j]);
        lemma_update_free_functions(declared, stored.drop_last(), j);
    }
}

/// With no inserts planned, every declared function's id is stored.
pub proof fn lemma_no_function_inserts_means_stored(declared: Seq<FunctionRow>, stored: Seq<FunctionRow>, k: int)
    requires
        functions_to_insert(declared, stored) == Seq::<FunctionRow>::empty(),
        0 <= k < declared.len(),
    ensures
        last_function_with_id(stored, declared[k].function_id) is Some,
{
    if last_function_with_id(stored, declared[k].function_id) is None {
        lemma_function_insert_member(declared, stored, k);
        assert(functions_to_insert(declared, stored).len() > 0);
    }
}


/// Registering the same plugins twice changes nothing the second time. With
/// the declared rows merged by id (as `collect_registrations` gives them) and
/// the stored packages and functions keyed by id (their primary keys), once
/// the first registration's inserts and updates are written, its permissions
/// inserted (`inserted`, the planned rows with the ids the store gave them)
/// and its links added, the second registration plans no package or function
/// insert or update, no permission insert and no link.
pub proof fn lemma_registration_is_idempotent(
    declared_packages: Seq<PackageRow>,
    stored_packages: Seq<PackageRow>,
    declared_functions: Seq<FunctionRow>,
    stored_functions: Seq<FunctionRow>,
    declared_permissions: Seq<PermissionRow>,
    stored_permissions: Seq<PermissionRow>,
    inserted: Seq<PermissionRow>,
    linked: Seq<(Seq<char>, Seq<char>)>,
)
    requires
        package_ids(declared_packages).no_duplicates(),
        package_ids(stored_packages).no_duplicates(),
        function_ids(declared_functions).no_duplicates(),
        function_ids(stored_functions).no_duplicates(),
        inserted.len() == permissions_to_insert(declared_permissions, stored_permissions).len(),
        forall|i: int|
            0 <= i < inserted.len() ==> same_permission(
                #[trigger] inserted[i],
                permissions_to_insert(declared_permissions, stored_permissions)[i],
            ),
    ensures
        ({
            let packages = apply_package_changes(
                stored_packages,
                packages_to_insert(declared_packages, stored_packages),
                packages_to_update(declared_packages, stored_packages),
            );
            let functions = apply_function_changes(
                stored_functions,
                functions_to_insert(declared_functions, stored_functions),
                functions_to_update(declared_functions, stored_functions),
            );
            let permissions = stored_permissions + inserted;
            let links = linked + links_to_add(declared_permissions, permissions, linked);
            &&& packages_to_insert(declared_packages, packages) == Seq::<PackageRow>::empty()
            &&& packages_to_update(declared_packages, packages) == Seq::<PackageRow>::empty()
            &&& functions_to_insert(declared_functions, functions) == Seq::<FunctionRow>::empty()
            &&& functions_to_update(declared_functions, functions) == Seq::<FunctionRow>::empty()
            &&& permissions_to_insert(declared_permissions, permissions) == Seq::<
                PermissionRow,
            >::empty()
            &&& links_to_add(declared_permissions, permissions, links) == Seq::<
                (Seq<char>, Seq<char>),
            >::empty()
        }),
{
    lemma_package_registration_settles(declared_packages, stored_packages);
    lemma_function_registration_settles(declared_functions, stored_functions);
    lemma_permission_registration_settles(declared_permissions, stored_permissions, inserted);
    lemma_link_registration_settles(declared_permissions, stored_permissions + inserted, linked);
}

} // verus!
