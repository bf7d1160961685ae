//! Listing the plugin catalog: packages with their functions, each function
//! with the permissions linked to it.
use crate::convert::plugin_code::{
    permission_to_proto, plugin_function_to_proto, plugin_package_to_proto_with_functions,
    spec_permission_to_proto, spec_plugin_function_to_proto,
    spec_plugin_package_to_proto_with_functions,
};
use crate::entity::permission::{Model as EntityPermission, ModelView as PermissionRow};
use crate::entity::plugin_function::Model as EntityPluginFunction;
use crate::entity::plugin_package::Model as EntityPluginPackage;
use crate::proto::{
    function_views, package_views, permission_views, Permission, PermissionView, PluginFunction,
    PluginFunctionView, PluginPackage, PluginPackageView,
};
use crate::text::strs;
use vstd::prelude::*;

verus! {

/// The ids of every listed function, package by package, in order.
pub open spec fn spec_listed_function_ids(
    items: Seq<(EntityPluginPackage, Vec<EntityPluginFunction>)>,
) -> Seq<Seq<char>>
    decreases items.len(),
{
    if items.len() == 0 {
        Seq::empty()
    } else {
        spec_listed_function_ids(items.drop_last()) + items.last().1@.map_values(
            |f: EntityPluginFunction| f.function_id@,
        )
    }
}

/// The ids of every listed function, to load their permissions in one query.
pub fn listed_function_ids(items: &[(EntityPluginPackage, Vec<EntityPluginFunction>)]) -> (r: Vec<
    String,
>)
    ensures
        strs(r@) == spec_listed_function_ids(items@),
{
    let mut out: Vec<String> = Vec::new();
    let mut i: usize = 0;
    proof {
        assert(strs(out@) =~= spec_listed_function_ids(items@.take(0)));
    }
    while i < items.len()
        invariant
            i <= items@.len(),
            strs(out@) == spec_listed_function_ids(items@.take(i as int)),
        decreases items@.len() - i,
    {
        let funcs = &items[i].1;
        let ghost start = strs(out@);
        let mut j: usize = 0;
        while j < funcs.len()
            invariant
                j <= funcs@.len(),
                strs(out@) == start + funcs@.take(j as int).map_values(
                    |f: EntityPluginFunction| f.function_id@,
                ),
            decreases funcs@.len() - j,
        {
            let ghost before = out@;
            let id = funcs[j].function_id.clone();
            out.push(id);
            proof {
                assert(strs(out@) =~= strs(before).push(id@));
                assert(funcs@.take(j + 1) =~= funcs@.take(j as int).push(funcs@[j as int]));
                assert(funcs@.take(j + 1).map_values(|f: EntityPluginFunction| f.function_id@)
                    =~= funcs@.take(j as int).map_values(|f: EntityPluginFunction| f.function_id@).push(id@));
            }
            j = j + 1;
        }
        proof {
            assert(funcs@.take(j as int) =~= funcs@);
            assert(items@.take(i + 1).drop_last() =~= items@.take(i as int));
            assert(items@.take(i + 1).last() == items@[i as int]);
        }
        i = i + 1;
    }
    proof {
        assert(items@.take(items@.len() as int) =~= items@);
    }
    out
}

/// The messages for the loaded permissions of function `function_id`, in
/// load order; relations whose permission row is missing are skipped.
pub open spec fn function_permissions(
    loaded: Seq<Option<PermissionRow>>,
    function_id: Seq<char>,
) -> Seq<PermissionView>
    decreases loaded.len(),
{
    if loaded.len() == 0 {
        Seq::empty()
    } else {
        let prev = function_permissions(loaded.drop_last(), function_id);
        match loaded.last() {
            Some(p) => if p.plugin_function_id == function_id {
                prev.push(spec_permission_to_proto(p))
            } else {
                prev
            },
            None => prev,
        }
    }
}

/// Whether a loaded relation holds a permission row of function `function_id`.
pub open spec fn permission_row_of(function_id: Seq<char>) -> spec_fn(Option<PermissionRow>) -> bool {
    |o: Option<PermissionRow>| o is Some && o->Some_0.plugin_function_id == function_id
}

/// The permissions attached to function `function_id` are the messages of
/// exactly the loaded rows whose function is `function_id`, in load order:
/// one per such row.
pub proof fn lemma_function_permissions_are_its_rows(
    loaded: Seq<Option<PermissionRow>>,
    function_id: Seq<char>,
)
    ensures
        function_permissions(loaded, function_id) == loaded.filter(permission_row_of(function_id)).map_values(
            |o: Option<PermissionRow>| spec_permission_to_proto(o->Some_0),
        ),
        function_permissions(loaded, function_id).len() == loaded.filter(
            permission_row_of(function_id),
        ).len(),
    decreases loaded.len(),
{
    reveal(Seq::filter);
    if loaded.len() > 0 {
        lemma_function_permissions_are_its_rows(loaded.drop_last(), function_id);
        let prev = loaded.drop_last().filter(permission_row_of(function_id));
        if permission_row_of(function_id)(loaded.last()) {
            assert(prev.push(loaded.last()).map_values(
                |o: Option<PermissionRow>| spec_permission_to_proto(o->Some_0),
            ) =~= prev.map_values(|o: Option<PermissionRow>| spec_permission_to_proto(o->Some_0)).push(
                spec_permission_to_proto(loaded.last()->Some_0),
            ));
        }
    } else {
        assert(loaded.filter(permission_row_of(function_id)) =~= Seq::<Option<PermissionRow>>::empty());
        assert(Seq::<Option<PermissionRow>>::empty().map_values(
            |o: Option<PermissionRow>| spec_permission_to_proto(o->Some_0),
        ) =~= Seq::<PermissionView>::empty());
    }
}

/// The views of loaded permission rows.
pub open spec fn loaded_views(v: Seq<Option<EntityPermission>>) -> Seq<Option<PermissionRow>> {
    v.map_values(
        |p: Option<EntityPermission>|
            match p {
                Some(x) => Some(x@),
                None => None,
            },
    )
}

/// The message for a listed function: its row with the permissions loaded
/// for its id.
pub open spec fn spec_listed_function(
    f: EntityPluginFunction,
    loaded: Seq<Option<PermissionRow>>,
) -> PluginFunctionView {
    spec_plugin_function_to_proto(f@, Some(function_permissions(loaded, f.function_id@)))
}

/// The message for a listed package: its row with its functions, each with
/// the permissions loaded for it.
pub open spec fn spec_listed_package(
    item: (EntityPluginPackage, Vec<EntityPluginFunction>),
    loaded: Seq<Option<PermissionRow>>,
) -> PluginPackageView {
    spec_plugin_package_to_proto_with_functions(
        item.0@,
        Some(item.1@.map_values(|f: EntityPluginFunction| spec_listed_function(f, loaded))),
    )
}

/// The permission messages loaded for function `function_id`.
fn permissions_for_function(loaded: &[Option<EntityPermission>], function_id: &String) -> (r: Vec<
    Permission,
>)
    ensures
        permission_views(r@) == function_permissions(loaded_views(loaded@), function_id@),
{
    let ghost lv = loaded_views(loaded@);
    let mut out: Vec<Permission> = Vec::new();
    let mut k: usize = 0;
    proof {
        assert(permission_views(out@) =~= function_permissions(lv.take(0), function_id@));
    }
    while k < loaded.len()
        invariant
            k <= loaded@.len(),
            lv == loaded_views(loaded@),
            permission_views(out@) == function_permissions(lv.take(k as int), function_id@),
        decreases loaded@.len() - k,
    {
        proof {
            assert(lv.take(k + 1).drop_last() =~= lv.take(k as int));
            assert(lv.take(k + 1).last() == lv[k as int]);
        }
        match &loaded[k] {
            Some(p) => {
                if p.plugin_function_id == *function_id {
                    let pp = permission_to_proto(p);
                    out.push(pp);
                    proof {
                        assert(permission_views(out@) =~= function_permissions(
                            lv.take(k as int),
                            function_id@,
                        ).push(pp@));
                    }
                }
            },
            None => {},
        }
        k = k + 1;
    }
    proof {
        assert(lv.take(loaded@.len() as int) =~= lv);
    }
    out
}

/// Assembles the listed packages: each package with its functions, and each
/// function with the loaded permissions of its id, in load order.
pub fn assemble_plugin_list(
    items: &[(EntityPluginPackage, Vec<EntityPluginFunction>)],
    loaded: &[Option<EntityPermission>],
) -> (r: Vec<PluginPackage>)
    ensures
        package_views(r@) == items@.map_values(
            |item: (EntityPluginPackage, Vec<EntityPluginFunction>)|
                spec_listed_package(item, loaded_views(loaded@)),
        ),
{
    let ghost lv = loaded_views(loaded@);
    let mut out: Vec<PluginPackage> = Vec::new();
    let mut i: usize = 0;
    while i < items.len()
        invariant
            i <= items@.len(),
            lv == loaded_views(loaded@),
            out@.len() == i,
            forall|m: int| 0 <= m < i ==> (#[trigger] out@[m])@ == spec_listed_package(items@[m], lv),
        decreases items@.len() - i,
    {
        let funcs = &items[i].1;
        let mut protos: Vec<PluginFunction> = Vec::new();
        let mut j: usize = 0;
        while j < funcs.len()
            invariant
                j <= funcs@.len(),
                lv == loaded_views(loaded@),
                protos@.len() == j,
                forall|m: int|
                    0 <= m < j ==> (#[trigger] protos@[m])@ == spec_listed_function(funcs@[m], lv),
            decreases funcs@.len() - j,
        {
            let perms = permissions_for_function(loaded, &funcs[j].function_id);
            protos.push(plugin_function_to_proto(&funcs[j], Some(perms.as_slice())));
            j = j + 1;
        }
        let pkg = plugin_package_to_proto_with_functions(&items[i].0, Some(protos.as_slice()));
        proof {
            assert(function_views(protos@) =~= funcs@.map_values(
                |f: EntityPluginFunction| spec_listed_function(f, lv),
            ));
        }
        out.push(pkg);
        i = i + 1;
    }
    proof {
        assert(package_views(out@) =~= items@.map_values(
            |item: (EntityPluginPackage, Vec<EntityPluginFunction>)| spec_listed_package(item, lv),
        ));
    }
    out
}


/// The catalog listing is the page of packages converted: one message per
/// listed package, in page order, each the package row's message carrying its
/// functions in order, and each function the function row's message carrying
/// exactly the loaded permissions linked to its id, in load order.
pub proof fn lemma_listing_converts_the_page(
    items: Seq<(EntityPluginPackage, Vec<EntityPluginFunction>)>,
    loaded: Seq<Option<PermissionRow>>,
)
    ensures
        ({
            let listed = items.map_values(
                |item: (EntityPluginPackage, Vec<EntityPluginFunction>)|
                    spec_listed_package(item, loaded),
            );
            &&& listed.len() == items.len()
            &&& forall|i: int|
                0 <= i < items.len() ==> (#[trigger] listed[i]) == spec_plugin_package_to_proto_with_functions(
                    items[i].0@,
                    Some(listed[i].functions),
                )
            &&& forall|i: int| 0 <= i < items.len() ==> (#[trigger] listed[i]).functions.len() == items[i].1@.len()
            &&& forall|i: int, j: int|
                0 <= i < items.len() && 0 <= j < items[i].1@.len() ==> #[trigger] listed[i].functions[j]
                    == spec_plugin_function_to_proto(
                    items[i].1@[j]@,
                    Some(function_permissions(loaded, items[i].1@[j].function_id@)),
                )
            &&& forall|i: int, j: int|
                0 <= i < items.len() && 0 <= j < items[i].1@.len() ==> #[trigger] listed[i].functions[j].permissions
                    == loaded.filter(permission_row_of(items[i].1@[j].function_id@)).map_values(
                    |o: Option<PermissionRow>| spec_permission_to_proto(o->Some_0),
                )
        }),
{
    let listed = items.map_values(
        |item: (EntityPluginPackage, Vec<EntityPluginFunction>)| spec_listed_package(item, loaded),
    );
    assert forall|i: int, j: int|
        0 <= i < items.len() && 0 <= j < items[i].1@.len() implies #[trigger] listed[i].functions[j].permissions
            == loaded.filter(permission_row_of(items[i].1@[j].function_id@)).map_values(
            |o: Option<PermissionRow>| spec_permission_to_proto(o->Some_0),
        ) by {
        lemma_function_permissions_are_its_rows(loaded, items[i].1@[j].function_id@);
    }
}

} // verus!
