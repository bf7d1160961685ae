//! Replacing the rows that belong to a workflow code revision: a table of
//! relation rows, each tagged with the revision it belongs to, where a
//! synchronisation deletes a revision's rows and inserts its new ones.
use vstd::prelude::*;

verus! {

/// The rows of `rows` that satisfy `pred`, in order.
pub open spec fn keep<T>(rows: Seq<T>, pred: spec_fn(T) -> bool) -> Seq<T>
    decreases rows.len(),
{
    if rows.len() == 0 {
        Seq::empty()
    } else {
        let rest = keep(rows.drop_last(), pred);
        if pred(rows.last()) {
            rest.push(rows.last())
        } else {
            rest
        }
    }
}

/// Keeping rows of a joined table keeps them from each part.
pub proof fn lemma_keep_add<T>(a: Seq<T>, b: Seq<T>, pred: spec_fn(T) -> bool)
    ensures
        keep(a + b, pred) == keep(a, pred) + keep(b, pred),
    decreases b.len(),
{
    if b.len() == 0 {
        assert(a + b =~= a);
        assert(keep(a, pred) + keep(b, pred) =~= keep(a, pred));
    } else {
        assert((a + b).drop_last() =~= a + b.drop_last());
        assert((a + b).last() == b.last());
        lemma_keep_add(a, b.drop_last(), pred);
        if pred(b.last()) {
            assert(keep(a, pred) + keep(b.drop_last(), pred).push(b.last()) =~= (keep(a, pred)
                + keep(b.drop_last(), pred)).push(b.last()));
        }
    }
}

/// A table whose rows all satisfy `pred` is kept whole.
pub proof fn lemma_keep_all<T>(a: Seq<T>, pred: spec_fn(T) -> bool)
    requires
        forall|i: int| 0 <= i < a.len() ==> pred(#[trigger] a[i]),
    ensures
        keep(a, pred) == a,
    decreases a.len(),
{
    if a.len() > 0 {
        lemma_keep_all(a.drop_last(), pred);
        assert(a.drop_last().push(a.last()) =~= a);
    }
}

/// A table none of whose rows satisfies `pred` keeps nothing.
pub proof fn lemma_keep_none<T>(a: Seq<T>, pred: spec_fn(T) -> bool)
    requires
        forall|i: int| 0 <= i < a.len() ==> !pred(#[trigger] a[i]),
    ensures
        keep(a, pred) == Seq::<T>::empty(),
    decreases a.len(),
{
    if a.len() > 0 {
        lemma_keep_none(a.drop_last(), pred);
    }
}

/// Keeping with two predicates that agree on every row keeps the same rows.
pub proof fn lemma_keep_same<T>(a: Seq<T>, p: spec_fn(T) -> bool, q: spec_fn(T) -> bool)
    requires
        forall|x: T| #[trigger] p(x) == q(x),
    ensures
        keep(a, p) == keep(a, q),
    decreases a.len(),
{
    if a.len() > 0 {
        lemma_keep_same(a.drop_last(), p, q);
    }
}

/// Keeping twice keeps the rows that satisfy both predicates.
pub proof fn lemma_keep_keep<T>(a: Seq<T>, p: spec_fn(T) -> bool, q: spec_fn(T) -> bool)
    ensures
        keep(keep(a, p), q) == keep(a, |x: T| p(x) && q(x)),
    decreases a.len(),
{
    if a.len() > 0 {
        lemma_keep_keep(a.drop_last(), p, q);
        let rest = keep(a.drop_last(), p);
        if p(a.last()) {
            assert(rest.push(a.last()).drop_last() =~= rest);
        }
    }
}

/// A row that is kept is a row of the table.
pub proof fn lemma_keep_from<T>(a: Seq<T>, pred: spec_fn(T) -> bool, i: int)
    requires
        0 <= i < keep(a, pred).len(),
    ensures
        pred(keep(a, pred)[i]),
        a.contains(keep(a, pred)[i]),
    decreases a.len(),
{
    if a.len() > 0 {
        let rest = keep(a.drop_last(), pred);
        if i < rest.len() {
            lemma_keep_from(a.drop_last(), pred, i);
            let x = rest[i];
            let j = choose|j: int| 0 <= j < a.drop_last().len() && a.drop_last()[j] == x;
            assert(a[j] == x);
        } else {
            assert(a[a.len() - 1] == a.last());
        }
    }
}

/// Whether a row belongs to revision `code_id`.
pub open spec fn of_code<T>(code_of: spec_fn(T) -> Seq<char>, code_id: Seq<char>) -> spec_fn(T) -> bool {
    |r: T| code_of(r) == code_id
}

/// Whether a row belongs to a revision other than `code_id`.
pub open spec fn not_of_code<T>(code_of: spec_fn(T) -> Seq<char>, code_id: Seq<char>) -> spec_fn(
    T,
) -> bool {
    |r: T| code_of(r) != code_id
}

/// Whether a row belongs to none of the revisions `ids`.
pub open spec fn outside_codes<T>(code_of: spec_fn(T) -> Seq<char>, ids: Seq<Seq<char>>) -> spec_fn(
    T,
) -> bool {
    |r: T| !ids.contains(code_of(r))
}

/// The rows of `rows` that belong to revision `code_id`.
pub open spec fn rows_of_code<T>(rows: Seq<T>, code_of: spec_fn(T) -> Seq<char>, code_id: Seq<char>) -> Seq<T> {
    keep(rows, of_code(code_of, code_id))
}

/// The ids of a list of (revision id, new rows) groups.
pub open spec fn group_ids<T>(groups: Seq<(Seq<char>, Seq<T>)>) -> Seq<Seq<char>> {
    groups.map_values(|g: (Seq<char>, Seq<T>)| g.0)
}

/// The new rows of every group, joined in order.
pub open spec fn group_rows<T>(groups: Seq<(Seq<char>, Seq<T>)>) -> Seq<T>
    decreases groups.len(),
{
    if groups.len() == 0 {
        Seq::empty()
    } else {
        group_rows(groups.drop_last()) + groups.last().1
    }
}

/// Whether each group's rows belong to its revision and no revision comes
/// twice.
pub open spec fn well_tagged<T>(groups: Seq<(Seq<char>, Seq<T>)>, code_of: spec_fn(T) -> Seq<char>) -> bool {
    &&& group_ids(groups).no_duplicates()
    &&& forall|i: int, j: int|
        0 <= i < groups.len() && 0 <= j < groups[i].1.len() ==> code_of(#[trigger] groups[i].1[j])
            == groups[i].0
}

/// The table after the groups are synchronised one after the other: for each,
/// the rows of its revision are deleted and its new rows inserted.
pub open spec fn replace_groups<T>(
    rows: Seq<T>,
    code_of: spec_fn(T) -> Seq<char>,
    groups: Seq<(Seq<char>, Seq<T>)>,
) -> Seq<T>
    decreases groups.len(),
{
    if groups.len() == 0 {
        rows
    } else {
        let before = replace_groups(rows, code_of, groups.drop_last());
        keep(before, not_of_code(code_of, groups.last().0)) + groups.last().1
    }
}

proof fn lemma_well_tagged_prefix<T>(groups: Seq<(Seq<char>, Seq<T>)>, code_of: spec_fn(T) -> Seq<char>)
    requires
        groups.len() > 0,
        well_tagged(groups, code_of),
    ensures
        well_tagged(groups.drop_last(), code_of),
        group_ids(groups) == group_ids(groups.drop_last()).push(groups.last().0),
{
    let g = groups.drop_last();
    assert(group_ids(groups) =~= group_ids(g).push(groups.last().0));
    assert forall|a: int, b: int| 0 <= a < b < group_ids(g).len() implies group_ids(g)[a] != group_ids(
        g,
    )[b] by {
        assert(group_ids(g)[a] == group_ids(groups)[a]);
        assert(group_ids(g)[b] == group_ids(groups)[b]);
    }
    assert forall|i: int, j: int| 0 <= i < g.len() && 0 <= j < g[i].1.len() implies code_of(
        #[trigger] g[i].1[j],
    ) == g[i].0 by {
        assert(g[i] == groups[i]);
    }
}

/// Every new row belongs to one of the groups' revisions.
proof fn lemma_group_rows_tagged<T>(groups: Seq<(Seq<char>, Seq<T>)>, code_of: spec_fn(T) -> Seq<char>, k: int)
    requires
        well_tagged(groups, code_of),
        0 <= k < group_rows(groups).len(),
    ensures
        group_ids(groups).contains(code_of(group_rows(groups)[k])),
    decreases groups.len(),
{
    let g = groups.drop_last();
    lemma_well_tagged_prefix(groups, code_of);
    let prev = group_rows(g);
    if k < prev.len() {
        lemma_group_rows_tagged(g, code_of, k);
        assert(group_rows(groups)[k] == prev[k]);
        let t = choose|t: int| 0 <= t < group_ids(g).len() && group_ids(g)[t] == code_of(prev[k]);
        assert(group_ids(groups)[t] == group_ids(g)[t]);
    } else {
        let j = k - prev.len();
        assert(group_rows(groups)[k] == groups.last().1[j]);
        assert(groups.last() == groups[groups.len() - 1]);
        assert(code_of(groups[groups.len() - 1].1[j]) == groups[groups.len() - 1].0);
        assert(group_ids(groups)[groups.len() - 1] == groups.last().0);
    }
}

/// Synchronising the groups one after the other leaves the rows of the other
/// revisions, in their order, followed by the groups' new rows.
pub proof fn lemma_replace_groups<T>(
    rows: Seq<T>,
    code_of: spec_fn(T) -> Seq<char>,
    groups: Seq<(Seq<char>, Seq<T>)>,
)
    requires
        well_tagged(groups, code_of),
    ensures
        replace_groups(rows, code_of, groups) == keep(rows, outside_codes(code_of, group_ids(groups)))
            + group_rows(groups),
    decreases groups.len(),
{
    if groups.len() == 0 {
        lemma_keep_all(rows, outside_codes(code_of, group_ids(groups)));
        assert(rows + Seq::<T>::empty() =~= rows);
    } else {
        let g = groups.drop_last();
        let x = groups.last();
        lemma_well_tagged_prefix(groups, code_of);
        lemma_replace_groups(rows, code_of, g);
        let pg = outside_codes(code_of, group_ids(g));
        let qx = not_of_code(code_of, x.0);
        let pall = outside_codes(code_of, group_ids(groups));
        lemma_keep_add(keep(rows, pg), group_rows(g), qx);
        lemma_keep_keep(rows, pg, qx);
        let both = |r: T| pg(r) && qx(r);
        assert forall|r: T| #[trigger] both(r) == pall(r) by {
            assert(group_ids(groups) == group_ids(g).push(x.0));
            if group_ids(g).contains(code_of(r)) {
                let t = choose|t: int| 0 <= t < group_ids(g).len() && group_ids(g)[t] == code_of(r);
                assert(group_ids(groups)[t] == code_of(r));
            }
            if code_of(r) == x.0 {
                assert(group_ids(groups)[groups.len() - 1] == x.0);
            }
            if group_ids(groups).contains(code_of(r)) && code_of(r) != x.0 {
                let t = choose|t: int|
                    0 <= t < group_ids(groups).len() && group_ids(groups)[t] == code_of(r);
                assert(t < group_ids(g).len());
                assert(group_ids(g)[t] == code_of(r));
            }
        }
        lemma_keep_same(rows, both, pall);
        assert forall|k: int| 0 <= k < group_rows(g).len() implies qx(#[trigger] group_rows(g)[k]) by {
            lemma_group_rows_tagged(g, code_of, k);
            let t = choose|t: int| 0 <= t < group_ids(g).len() && group_ids(g)[t] == code_of(group_rows(g)[k]);
            assert(group_ids(groups)[t] == group_ids(g)[t]);
            assert(group_ids(groups)[groups.len() - 1] == x.0);
            assert(t != groups.len() - 1);
        }
        lemma_keep_all(group_rows(g), qx);
        assert(group_rows(groups) == group_rows(g) + x.1);
        assert(keep(rows, pall) + group_rows(g) + x.1 =~= keep(rows, pall) + (group_rows(g) + x.1));
    }
}


/// The new rows keep none of the rows of a revision outside the groups, and
/// keep exactly a group's rows for its revision.
proof fn lemma_group_rows_of<T>(
    groups: Seq<(Seq<char>, Seq<T>)>,
    code_of: spec_fn(T) -> Seq<char>,
    id: Seq<char>,
)
    requires
        well_tagged(groups, code_of),
    ensures
        !group_ids(groups).contains(id) ==> rows_of_code(group_rows(groups), code_of, id) == Seq::<
            T,
        >::empty(),
        forall|i: int|
            0 <= i < groups.len() && #[trigger] groups[i].0 == id ==> rows_of_code(
                group_rows(groups),
                code_of,
                id,
            ) == groups[i].1,
    decreases groups.len(),
{
    let q = of_code(code_of, id);
    if groups.len() == 0 {
        assert(keep(Seq::<T>::empty(), q) =~= Seq::<T>::empty());
    } else {
        let g = groups.drop_last();
        let x = groups.last();
        lemma_well_tagged_prefix(groups, code_of);
        lemma_group_rows_of(g, code_of, id);
        lemma_keep_add(group_rows(g), x.1, q);
        assert(group_rows(groups) == group_rows(g) + x.1);
        assert(x == groups[groups.len() - 1]);
        assert(group_ids(groups)[groups.len() - 1] == x.0);
        if x.0 == id {
            lemma_keep_all(x.1, q);
            assert forall|k: int| 0 <= k < group_rows(g).len() implies !q(#[trigger] group_rows(g)[k]) by {
                lemma_group_rows_tagged(g, code_of, k);
                let t = choose|t: int|
                    0 <= t < group_ids(g).len() && group_ids(g)[t] == code_of(group_rows(g)[k]);
                assert(group_ids(groups)[t] == group_ids(g)[t]);
            }
            lemma_keep_none(group_rows(g), q);
            assert(Seq::<T>::empty() + x.1 =~= x.1);
            assert forall|i: int| 0 <= i < groups.len() && #[trigger] groups[i].0 == id implies rows_of_code(
                group_rows(groups),
                code_of,
                id,
            ) == groups[i].1 by {
                if i < groups.len() - 1 {
                    assert(group_ids(groups)[i] == groups[i].0);
                }
            }
        } else {
            lemma_keep_none(x.1, q);
            assert(rows_of_code(group_rows(groups), code_of, id) =~= rows_of_code(group_rows(g), code_of, id));
            if !group_ids(groups).contains(id) {
                if group_ids(g).contains(id) {
                    let t = choose|t: int| 0 <= t < group_ids(g).len() && group_ids(g)[t] == id;
                    assert(group_ids(groups)[t] == id);
                }
            }
            assert forall|i: int| 0 <= i < groups.len() && #[trigger] groups[i].0 == id implies rows_of_code(
                group_rows(groups),
                code_of,
                id,
            ) == groups[i].1 by {
                assert(i < groups.len() - 1);
                assert(g[i] == groups[i]);
            }
        }
    }
}

/// After synchronising the groups, a group's revision holds exactly the
/// group's new rows, and a revision outside the groups holds the rows it held
/// before.
pub proof fn lemma_replace_groups_rows_of<T>(
    rows: Seq<T>,
    code_of: spec_fn(T) -> Seq<char>,
    groups: Seq<(Seq<char>, Seq<T>)>,
    id: Seq<char>,
)
    requires
        well_tagged(groups, code_of),
    ensures
        forall|i: int|
            0 <= i < groups.len() && #[trigger] groups[i].0 == id ==> rows_of_code(
                replace_groups(rows, code_of, groups),
                code_of,
                id,
            ) == groups[i].1,
        !group_ids(groups).contains(id) ==> rows_of_code(
            replace_groups(rows, code_of, groups),
            code_of,
            id,
        ) == rows_of_code(rows, code_of, id),
{
    let p = outside_codes(code_of, group_ids(groups));
    let q = of_code(code_of, id);
    lemma_replace_groups(rows, code_of, groups);
    lemma_keep_add(keep(rows, p), group_rows(groups), q);
    lemma_group_rows_of(groups, code_of, id);
    assert forall|i: int| 0 <= i < groups.len() && #[trigger] groups[i].0 == id implies rows_of_code(
        replace_groups(rows, code_of, groups),
        code_of,
        id,
    ) == groups[i].1 by {
        assert(group_ids(groups)[i] == id);
        assert forall|k: int| 0 <= k < keep(rows, p).len() implies !q(#[trigger] keep(rows, p)[k]) by {
            lemma_keep_from(rows, p, k);
        }
        lemma_keep_none(keep(rows, p), q);
        assert(Seq::<T>::empty() + groups[i].1 =~= groups[i].1);
    }
    if !group_ids(groups).contains(id) {
        lemma_keep_keep(rows, p, q);
        let both = |r: T| p(r) && q(r);
        assert forall|r: T| #[trigger] both(r) == q(r) by {}
        lemma_keep_same(rows, both, q);
        assert(keep(keep(rows, p), q) + Seq::<T>::empty() =~= keep(keep(rows, p), q));
    }
}

/// Synchronising the same groups a second time leaves the table as the first
/// synchronisation left it.
pub proof fn lemma_replace_groups_twice<T>(
    rows: Seq<T>,
    code_of: spec_fn(T) -> Seq<char>,
    groups: Seq<(Seq<char>, Seq<T>)>,
)
    requires
        well_tagged(groups, code_of),
    ensures
        replace_groups(replace_groups(rows, code_of, groups), code_of, groups) == replace_groups(
            rows,
            code_of,
            groups,
        ),
{
    let p = outside_codes(code_of, group_ids(groups));
    let once = replace_groups(rows, code_of, groups);
    lemma_replace_groups(rows, code_of, groups);
    lemma_replace_groups(once, code_of, groups);
    lemma_keep_add(keep(rows, p), group_rows(groups), p);
    lemma_keep_keep(rows, p, p);
    let both = |r: T| p(r) && p(r);
    assert forall|r: T| #[trigger] both(r) == p(r) by {}
    lemma_keep_same(rows, both, p);
    assert forall|k: int| 0 <= k < group_rows(groups).len() implies !p(#[trigger] group_rows(groups)[k]) by {
        lemma_group_rows_tagged(groups, code_of, k);
    }
    lemma_keep_none(group_rows(groups), p);
    assert(keep(rows, p) + Seq::<T>::empty() =~= keep(rows, p));
}

} // verus!
