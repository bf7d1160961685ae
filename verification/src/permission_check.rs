//! What a builtin plugin asks for before it acts: the permissions an
//! operation requires, the permissions the workflow grants to the function,
//! and the answer the plugin gives once the two have been compared.
use crate::proto::{permission_views, Permission, PermissionView};
use crate::text::{clone_strings, same_text};
use vstd::prelude::*;

verus! {

/// The permissions granted to one plugin function; the id `*` grants them to
/// every function.
pub struct FunctionPermissions {
    pub plugin_function_id: String,
    pub permissions: Vec<Permission>,
}

/// The value of [`FunctionPermissions`], with strings as character sequences.
#[verifier::ext_equal]
pub struct FunctionPermissionsView {
    pub plugin_function_id: Seq<char>,
    pub permissions: Seq<PermissionView>,
}

impl View for FunctionPermissions {
    type V = FunctionPermissionsView;

    open spec fn view(&self) -> FunctionPermissionsView {
        FunctionPermissionsView {
            plugin_function_id: self.plugin_function_id@,
            permissions: permission_views(self.permissions@),
        }
    }
}

/// The values of a list of grants.
pub open spec fn grant_list_views(v: Seq<FunctionPermissions>) -> Seq<FunctionPermissionsView> {
    v.map_values(|g: FunctionPermissions| g@)
}

/// The two sides that a permission check compares: what the workflow grants
/// to the function, and what the operation requires.
pub struct PermissionRequest {
    pub allowed: Vec<Permission>,
    pub required: Vec<Permission>,
}

/// The answer of a plugin whose permission check found permissions missing:
/// a fixed message and the missing permissions as text.
#[derive(Debug, PartialEq, Eq)]
pub struct PermissionDenied {
    pub message: String,
    pub detail: String,
}

/// The message of [`PermissionDenied`].
pub open spec fn permission_denied_text() -> Seq<char> {
    "PermissionDenied. Missing Permissions:"@
}

/// Whether a grant applies to function `function_id`: it names the function,
/// or every function.
pub open spec fn grant_applies(grant_id: Seq<char>, function_id: Seq<char>) -> bool {
    grant_id == function_id || grant_id == "*"@
}

/// The permissions the first applicable grant holds; none when no grant
/// applies.
pub open spec fn spec_select_allowed(
    grants: Seq<FunctionPermissionsView>,
    function_id: Seq<char>,
) -> Seq<PermissionView>
    decreases grants.len(),
{
    if grants.len() == 0 {
        Seq::empty()
    } else if grant_applies(grants[0].plugin_function_id, function_id) {
        grants[0].permissions
    } else {
        spec_select_allowed(grants.drop_first(), function_id)
    }
}

/// The grants select the permissions of the first grant, by index, that
/// names the function or every function (`*`); when no grant does, none.
pub proof fn lemma_select_allowed_first_grant(grants: Seq<FunctionPermissionsView>, function_id: Seq<char>)
    ensures
        forall|i: int|
            0 <= i < grants.len() && (#[trigger] grants[i].plugin_function_id == function_id
                || grants[i].plugin_function_id == "*"@) && (forall|j: int|
                0 <= j < i ==> grants[j].plugin_function_id != function_id
                    && grants[j].plugin_function_id != "*"@) ==> spec_select_allowed(grants, function_id)
                == grants[i].permissions,
        (forall|j: int|
            0 <= j < grants.len() ==> #[trigger] grants[j].plugin_function_id != function_id
                && grants[j].plugin_function_id != "*"@) ==> spec_select_allowed(grants, function_id)
            == Seq::<PermissionView>::empty(),
    decreases grants.len(),
{
    if grants.len() > 0 {
        let rest = grants.drop_first();
        lemma_select_allowed_first_grant(rest, function_id);
        assert forall|i: int|
            0 <= i < grants.len() && (#[trigger] grants[i].plugin_function_id == function_id
                || grants[i].plugin_function_id == "*"@) && (forall|j: int|
                0 <= j < i ==> grants[j].plugin_function_id != function_id
                    && grants[j].plugin_function_id != "*"@) implies spec_select_allowed(grants, function_id)
            == grants[i].permissions by {
            if i > 0 {
                assert(grants[0].plugin_function_id != function_id && grants[0].plugin_function_id != "*"@);
                assert(rest[i - 1] == grants[i]);
                assert forall|j: int| 0 <= j < i - 1 implies rest[j].plugin_function_id != function_id
                    && rest[j].plugin_function_id != "*"@ by {
                    assert(rest[j] == grants[j + 1]);
                }
            }
        }
        if forall|j: int|
            0 <= j < grants.len() ==> #[trigger] grants[j].plugin_function_id != function_id
                && grants[j].plugin_function_id != "*"@ {
            assert(grants[0].plugin_function_id != function_id && grants[0].plugin_function_id != "*"@);
            assert forall|j: int| 0 <= j < rest.len() implies #[trigger] rest[j].plugin_function_id
                != function_id && rest[j].plugin_function_id != "*"@ by {
                assert(rest[j] == grants[j + 1]);
            }
        }
    }
}

/// A permission restricted to the single resource `resource`.
pub open spec fn with_single_resource(p: PermissionView, resource: Seq<char>) -> PermissionView {
    PermissionView { resource: seq![resource], ..p }
}

/// The permissions an operation on `resource` requires when a plugin pins
/// its first declared permission to the resource.
pub open spec fn spec_pin_first_resource(
    declared: Seq<PermissionView>,
    resource: Seq<char>,
) -> Seq<PermissionView> {
    declared.update(0, with_single_resource(declared[0], resource))
}

/// The permissions an operation on `resource` requires when a plugin fills
/// in the resource: each declared permission without resources gets
/// `resource`, unless `resource` is empty.
pub open spec fn spec_fill_resource(declared: Seq<PermissionView>, resource: Seq<char>) -> Seq<
    PermissionView,
> {
    declared.map_values(
        |p: PermissionView|
            if resource.len() > 0 && p.resource.len() == 0 {
                with_single_resource(p, resource)
            } else {
                p
            },
    )
}

/// Whether `text` is `*`.
fn is_wildcard(text: &str) -> (r: bool)
    ensures
        r == (text@ == "*"@),
{
    proof {
        reveal_strlit("*");
    }
    if text.unicode_len() == 1 {
        let c = text.get_char(0);
        proof {
            if c == '*' {
                assert(text@ =~= "*"@);
            }
        }
        c == '*'
    } else {
        false
    }
}

/// The permissions the workflow grants to function `function_id`: those of
/// the first grant that names it or every function, none when no grant
/// applies.
pub fn select_allowed(grants: &[FunctionPermissions], function_id: &str) -> (r: Vec<Permission>)
    ensures
        permission_views(r@) == spec_select_allowed(grant_list_views(grants@), function_id@),
        forall|i: int|
            0 <= i < grants@.len() && (#[trigger] grants@[i].plugin_function_id@ == function_id@
                || grants@[i].plugin_function_id@ == "*"@) && (forall|j: int|
                0 <= j < i ==> grants@[j].plugin_function_id@ != function_id@
                    && grants@[j].plugin_function_id@ != "*"@) ==> permission_views(r@)
                == permission_views(grants@[i].permissions@),
        (forall|j: int|
            0 <= j < grants@.len() ==> #[trigger] grants@[j].plugin_function_id@ != function_id@
                && grants@[j].plugin_function_id@ != "*"@) ==> r@.len() == 0,
{
    proof {
        let gv = grant_list_views(grants@);
        lemma_select_allowed_first_grant(gv, function_id@);
        assert forall|i: int|
            0 <= i < grants@.len() && (#[trigger] grants@[i].plugin_function_id@ == function_id@
                || grants@[i].plugin_function_id@ == "*"@) && (forall|j: int|
                0 <= j < i ==> grants@[j].plugin_function_id@ != function_id@
                    && grants@[j].plugin_function_id@ != "*"@) implies spec_select_allowed(gv, function_id@)
            == permission_views(grants@[i].permissions@) by {
            assert(gv[i] == grants@[i]@);
            assert forall|j: int| 0 <= j < i implies gv[j].plugin_function_id != function_id@
                && gv[j].plugin_function_id != "*"@ by {
                assert(gv[j] == grants@[j]@);
            }
            assert(gv[i].plugin_function_id == function_id@ || gv[i].plugin_function_id == "*"@);
            assert(spec_select_allowed(gv, function_id@) == gv[i].permissions);
        }
        if forall|j: int|
            0 <= j < grants@.len() ==> #[trigger] grants@[j].plugin_function_id@ != function_id@
                && grants@[j].plugin_function_id@ != "*"@ {
            assert forall|j: int| 0 <= j < gv.len() implies #[trigger] gv[j].plugin_function_id
                != function_id@ && gv[j].plugin_function_id != "*"@ by {
                assert(gv[j] == grants@[j]@);
            }
        }
    }
    let ghost gv = grant_list_views(grants@);
    let mut k: usize = 0;
    proof {
        assert(gv.skip(0) =~= gv);
    }
    while k < grants.len()
        invariant
            k <= grants@.len(),
            gv == grant_list_views(grants@),
            spec_select_allowed(gv, function_id@) == spec_select_allowed(gv.skip(k as int), function_id@),
            forall|i: int|
                0 <= i < grants@.len() && (#[trigger] grants@[i].plugin_function_id@ == function_id@
                    || grants@[i].plugin_function_id@ == "*"@) && (forall|j: int|
                    0 <= j < i ==> grants@[j].plugin_function_id@ != function_id@
                        && grants@[j].plugin_function_id@ != "*"@) ==> spec_select_allowed(gv, function_id@)
                    == permission_views(grants@[i].permissions@),
        decreases grants@.len() - k,
    {
        let g = &grants[k];
        proof {
            assert(gv.skip(k as int)[0] == g@);
        }
        if same_text(g.plugin_function_id.as_str(), function_id) || is_wildcard(g.plugin_function_id.as_str()) {
            return crate::proto::duplicate_permissions(g.permissions.as_slice());
        }
        proof {
            assert(gv.skip(k as int).drop_first() =~= gv.skip(k + 1));
        }
        k = k + 1;
    }
    let none: Vec<Permission> = Vec::new();
    proof {
        assert(permission_views(none@) =~= Seq::<PermissionView>::empty());
    }
    none
}

/// The permissions required for an operation on `resource`, by a plugin
/// that pins its first declared permission to the resource.
pub fn pin_first_resource(declared: Vec<Permission>, resource: String) -> (r: Vec<Permission>)
    requires
        declared@.len() > 0,
    ensures
        permission_views(r@) == spec_pin_first_resource(permission_views(declared@), resource@),
{
    let mut out = declared;
    let first = &out[0];
    let mut resources: Vec<String> = Vec::new();
    resources.push(resource);
    let pinned = Permission {
        display_name: first.display_name.clone(),
        description: first.description.clone(),
        permission_type: first.permission_type,
        resource: resources,
        permission_level: first.permission_level,
    };
    let ghost before = out@;
    out.set(0, pinned);
    proof {
        assert(pinned@.resource =~= seq![resource@]);
        assert(permission_views(out@) =~= spec_pin_first_resource(permission_views(before), resource@));
    }
    out
}

/// The permissions required for an operation on `resource`, by a plugin
/// that fills the resource into every declared permission that has none
/// (nothing changes when `resource` is empty).
pub fn fill_resource(declared: &[Permission], resource: &str) -> (r: Vec<Permission>)
    ensures
        permission_views(r@) == spec_fill_resource(permission_views(declared@), resource@),
{
    let empty_resource = resource.is_empty();
    let mut out: Vec<Permission> = Vec::new();
    let mut k: usize = 0;
    while k < declared.len()
        invariant
            k <= declared@.len(),
            empty_resource == (resource@.len() == 0),
            out@.len() == k,
            forall|m: int|
                0 <= m < k ==> (#[trigger] out@[m])@ == (if resource@.len() > 0
                    && declared@[m]@.resource.len() == 0 {
                    with_single_resource(declared@[m]@, resource@)
                } else {
                    declared@[m]@
                }),
        decreases declared@.len() - k,
    {
        let p = &declared[k];
        if !empty_resource && p.resource.len() == 0 {
            let mut resources: Vec<String> = Vec::new();
            resources.push(resource.to_owned());
            let filled = Permission {
                display_name: p.display_name.clone(),
                description: p.description.clone(),
                permission_type: p.permission_type,
                resource: resources,
                permission_level: p.permission_level,
            };
            proof {
                assert(filled@.resource =~= seq![resource@]);
                assert(filled@ =~= with_single_resource(p@, resource@));
            }
            out.push(filled);
        } else {
            let kept = Permission {
                display_name: p.display_name.clone(),
                description: p.description.clone(),
                permission_type: p.permission_type,
                resource: clone_strings(&p.resource),
                permission_level: p.permission_level,
            };
            out.push(kept);
        }
        k = k + 1;
    }
    proof {
        assert(permission_views(out@) =~= spec_fill_resource(permission_views(declared@), resource@));
    }
    out
}

/// The grants a workflow supplies, or, when it supplies none, a single grant
/// of `own` to function `function_id` (how the command and file read and
/// write plugins behave).
pub fn grants_or_own(
    grants: Option<Vec<FunctionPermissions>>,
    function_id: String,
    own: Vec<Permission>,
) -> (r: Vec<FunctionPermissions>)
    ensures
        grant_list_views(r@) == match grants {
            Some(g) => grant_list_views(g@),
            None => seq![FunctionPermissionsView { plugin_function_id: function_id@, permissions: permission_views(own@) }],
        },
{
    match grants {
        Some(g) => g,
        None => {
            let mut v: Vec<FunctionPermissions> = Vec::new();
            v.push(FunctionPermissions { plugin_function_id: function_id, permissions: own });
            proof {
                assert(grant_list_views(v@) =~= seq![FunctionPermissionsView { plugin_function_id: function_id@, permissions: permission_views(own@) }]);
            }
            v
        },
    }
}

/// The two sides of the permission check of a plugin that fills the
/// resource in: the permissions the workflow grants to function
/// `function_id` (none when it supplies no grants), and the declared
/// permissions with `resource` filled in.
pub fn fill_permission_request(
    grants: Option<Vec<FunctionPermissions>>,
    function_id: &str,
    declared: &[Permission],
    resource: &str,
) -> (r: PermissionRequest)
    ensures
        permission_views(r.allowed@) == spec_select_allowed(
            match grants {
                Some(g) => grant_list_views(g@),
                None => Seq::empty(),
            },
            function_id@,
        ),
        permission_views(r.required@) == spec_fill_resource(permission_views(declared@), resource@),
{
    let all: Vec<FunctionPermissions> = match grants {
        Some(g) => g,
        None => Vec::new(),
    };
    proof {
        if grants is None {
            assert(grant_list_views(all@) =~= Seq::<FunctionPermissionsView>::empty());
        }
    }
    let allowed = select_allowed(all.as_slice(), function_id);
    let required = fill_resource(declared, resource);
    PermissionRequest { allowed, required }
}

/// The plugin's answer to a permission check: success when nothing is
/// missing, otherwise [`PermissionDenied`] with the missing permissions as
/// text.
pub fn permission_outcome(missing: Option<String>) -> (r: Result<(), PermissionDenied>)
    ensures
        match missing {
            None => r is Ok,
            Some(text) => r matches Err(e) && e.message@ == permission_denied_text() && e.detail
                == text,
        },
{
    match missing {
        None => Ok(()),
        Some(text) => Err(
            PermissionDenied {
                message: String::from_str("PermissionDenied. Missing Permissions:"),
                detail: text,
            },
        ),
    }
}

} // verus!
