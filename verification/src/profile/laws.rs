//! What holds of the profile list across operations: sorting keeps the
//! profiles and orders them by name, ids stay unique, a created or imported
//! profile can be found, an updated one is found as updated, a deleted one
//! is gone.

use vstd::prelude::*;
use vstd::utf8::encode_utf8;
use crate::config::ProfileView;
use crate::profile::{
    add_missing, as_builtin, bytes_lt, first_with_id, has_id, ids_distinct, import_id,
    insert_by_name, name_lt, renamed, sort_by_name, sorted_by_name, with_id, without_id, as_user};

verus! {

// ---------------------------------------------------------------
// The order of byte strings
// ---------------------------------------------------------------

pub(crate) proof fn lemma_bytes_lt_irreflexive(a: Seq<u8>)
    ensures
        !bytes_lt(a, a),
    decreases a.len(),
{
    if a.len() > 0 {
        lemma_bytes_lt_irreflexive(a.drop_first());
    }
}

pub(crate) proof fn lemma_bytes_lt_asymmetric(a: Seq<u8>, b: Seq<u8>)
    ensures
        bytes_lt(a, b) ==> !bytes_lt(b, a),
    decreases a.len(),
{
    if a.len() > 0 && b.len() > 0 && a[0] == b[0] {
        lemma_bytes_lt_asymmetric(a.drop_first(), b.drop_first());
    }
}

pub(crate) proof fn lemma_bytes_lt_total(a: Seq<u8>, b: Seq<u8>)
    ensures
        a != b ==> bytes_lt(a, b) || bytes_lt(b, a),
    decreases a.len(),
{
    if a.len() == 0 && b.len() == 0 {
        assert(a =~= b);
    } else if a.len() > 0 && b.len() > 0 && a[0] == b[0] {
        lemma_bytes_lt_total(a.drop_first(), b.drop_first());
        if a.drop_first() == b.drop_first() {
            assert forall|i: int| 0 <= i < a.len() implies a[i] == b[i] by {
                if i > 0 {
                    assert(a[i] == a.drop_first()[i - 1]);
                    assert(b[i] == b.drop_first()[i - 1]);
                }
            }
            assert(a.drop_first().len() == a.len() - 1 && b.drop_first().len() == b.len() - 1);
            assert(a =~= b);
        }
    }
}

pub(crate) proof fn lemma_bytes_lt_transitive(a: Seq<u8>, b: Seq<u8>, c: Seq<u8>)
    ensures
        bytes_lt(a, b) && bytes_lt(b, c) ==> bytes_lt(a, c),
    decreases a.len(),
{
    if a.len() > 0 && b.len() > 0 && c.len() > 0 && a[0] == b[0] && b[0] == c[0] {
        lemma_bytes_lt_transitive(a.drop_first(), b.drop_first(), c.drop_first());
    }
}

/// "Sorts no later than" is transitive on names.
proof fn lemma_name_le_transitive(a: ProfileView, b: ProfileView, c: ProfileView)
    ensures
        !name_lt(b, a) && !name_lt(c, b) ==> !name_lt(c, a),
{
    let (x, y, z) = (encode_utf8(a.name), encode_utf8(b.name), encode_utf8(c.name));
    lemma_bytes_lt_total(x, y);
    lemma_bytes_lt_transitive(z, x, y);
}

proof fn lemma_name_lt_asymmetric(a: ProfileView, b: ProfileView)
    ensures
        name_lt(a, b) ==> !name_lt(b, a),
{
    lemma_bytes_lt_asymmetric(encode_utf8(a.name), encode_utf8(b.name));
}

// ---------------------------------------------------------------
// Insertion and sorting keep the profiles
// ---------------------------------------------------------------

proof fn lemma_insert_members(s: Seq<ProfileView>, x: ProfileView)
    ensures
        insert_by_name(s, x).len() == s.len() + 1,
        forall|y: ProfileView| #[trigger] insert_by_name(s, x).contains(y) <==> (s.contains(y) || y
            == x),
        forall|id: Seq<char>| #[trigger] has_id(insert_by_name(s, x), id) <==> (has_id(s, id)
            || x.id == id),
    decreases s.len(),
{
    let t = insert_by_name(s, x);
    if s.len() == 0 {
        assert(t == seq![x]);
        assert forall|id: Seq<char>| has_id(t, id) <==> (has_id(s, id) || x.id == id) by {
            if x.id == id {
                assert(t[0].id == id);
            }
        }
    } else if name_lt(x, s.last()) {
        let u = s.drop_last();
        lemma_insert_members(u, x);
        assert(t == insert_by_name(u, x).push(s.last()));
        assert forall|y: ProfileView| t.contains(y) <==> (s.contains(y) || y == x) by {
            if t.contains(y) {
                let i = choose|i: int| 0 <= i < t.len() && t[i] == y;
                if i < t.len() - 1 {
                    assert(insert_by_name(u, x).contains(y));
                    if u.contains(y) {
                        let j = choose|j: int| 0 <= j < u.len() && u[j] == y;
                        assert(s[j] == y);
                    }
                } else {
                    assert(s[s.len() - 1] == y);
                }
            }
            if s.contains(y) {
                let i = choose|i: int| 0 <= i < s.len() && s[i] == y;
                if i < s.len() - 1 {
                    assert(u[i] == y);
                    assert(insert_by_name(u, x).contains(y));
                    let j = choose|j: int|
                        0 <= j < insert_by_name(u, x).len() && insert_by_name(u, x)[j] == y;
                    assert(t[j] == y);
                } else {
                    assert(t[t.len() - 1] == y);
                }
            }
            if y == x {
                assert(insert_by_name(u, x).contains(y));
                let j = choose|j: int|
                    0 <= j < insert_by_name(u, x).len() && insert_by_name(u, x)[j] == y;
                assert(t[j] == y);
            }
        }
        assert forall|id: Seq<char>| has_id(t, id) <==> (has_id(s, id) || x.id == id) by {
            if has_id(t, id) {
                let i = choose|i: int| 0 <= i < t.len() && #[trigger] t[i].id == id;
                assert(t.contains(t[i]));
                if s.contains(t[i]) {
                    let j = choose|j: int| 0 <= j < s.len() && s[j] == t[i];
                    assert(s[j].id == id);
                }
            }
            if has_id(s, id) {
                let i = choose|i: int| 0 <= i < s.len() && #[trigger] s[i].id == id;
                assert(s.contains(s[i]));
                assert(t.contains(s[i]));
                let j = choose|j: int| 0 <= j < t.len() && t[j] == s[i];
                assert(t[j].id == id);
            }
            if x.id == id {
                assert(t.contains(x));
                let j = choose|j: int| 0 <= j < t.len() && t[j] == x;
                assert(t[j].id == id);
            }
        }
    } else {
        assert(t == s.push(x));
        assert forall|y: ProfileView| t.contains(y) <==> (s.contains(y) || y == x) by {
            if t.contains(y) {
                let i = choose|i: int| 0 <= i < t.len() && t[i] == y;
                if i < s.len() {
                    assert(s[i] == y);
                }
            }
            if s.contains(y) {
                let i = choose|i: int| 0 <= i < s.len() && s[i] == y;
                assert(t[i] == y);
            }
            if y == x {
                assert(t[s.len() as int] == y);
            }
        }
        assert forall|id: Seq<char>| has_id(t, id) <==> (has_id(s, id) || x.id == id) by {
            if has_id(t, id) {
                let i = choose|i: int| 0 <= i < t.len() && #[trigger] t[i].id == id;
                if i < s.len() {
                    assert(s[i].id == id);
                }
            }
            if has_id(s, id) {
                let i = choose|i: int| 0 <= i < s.len() && #[trigger] s[i].id == id;
                assert(t[i].id == id);
            }
            if x.id == id {
                assert(t[s.len() as int].id == id);
            }
        }
    }
}

proof fn lemma_sort_members(s: Seq<ProfileView>)
    ensures
        sort_by_name(s).len() == s.len(),
        forall|y: ProfileView| #[trigger] sort_by_name(s).contains(y) <==> s.contains(y),
        forall|id: Seq<char>| #[trigger] has_id(sort_by_name(s), id) <==> has_id(s, id),
    decreases s.len(),
{
    if s.len() > 0 {
        let u = s.drop_last();
        lemma_sort_members(u);
        lemma_insert_members(sort_by_name(u), s.last());
        assert forall|y: ProfileView| sort_by_name(s).contains(y) <==> s.contains(y) by {
            if s.contains(y) {
                let i = choose|i: int| 0 <= i < s.len() && s[i] == y;
                if i < s.len() - 1 {
                    assert(u[i] == y);
                }
            }
            if u.contains(y) {
                let i = choose|i: int| 0 <= i < u.len() && u[i] == y;
                assert(s[i] == y);
            }
        }
        assert forall|id: Seq<char>| has_id(sort_by_name(s), id) <==> has_id(s, id) by {
            if has_id(s, id) {
                let i = choose|i: int| 0 <= i < s.len() && #[trigger] s[i].id == id;
                if i < s.len() - 1 {
                    assert(u[i].id == id);
                }
            }
            if has_id(u, id) {
                let i = choose|i: int| 0 <= i < u.len() && #[trigger] u[i].id == id;
                assert(s[i].id == id);
            }
        }
    }
}

// ---------------------------------------------------------------
// Unique ids
// ---------------------------------------------------------------

proof fn lemma_push_distinct(s: Seq<ProfileView>, x: ProfileView)
    requires
        ids_distinct(s),
        !has_id(s, x.id),
    ensures
        ids_distinct(s.push(x)),
{
    let t = s.push(x);
    assert forall|i: int, j: int| 0 <= i < j < t.len() implies #[trigger] t[i].id != #[trigger] t[j].id by {
        if j == s.len() {
            assert(s[i].id != x.id);
        } else {
            assert(t[i] == s[i] && t[j] == s[j]);
        }
    }
}

proof fn lemma_insert_distinct(s: Seq<ProfileView>, x: ProfileView)
    requires
        ids_distinct(s),
        !has_id(s, x.id),
    ensures
        ids_distinct(insert_by_name(s, x)),
    decreases s.len(),
{
    if s.len() == 0 {
        lemma_push_distinct(s, x);
        assert(s.push(x) =~= seq![x]);
    } else if name_lt(x, s.last()) {
        let u = s.drop_last();
        assert(ids_distinct(u)) by {
            assert forall|i: int, j: int| 0 <= i < j < u.len() implies #[trigger] u[i].id != #[trigger] u[j].id by {
                assert(u[i] == s[i] && u[j] == s[j]);
            }
        }
        assert(!has_id(u, x.id)) by {
            if has_id(u, x.id) {
                let i = choose|i: int| 0 <= i < u.len() && #[trigger] u[i].id == x.id;
                assert(s[i].id == x.id);
            }
        }
        lemma_insert_distinct(u, x);
        lemma_insert_members(u, x);
        assert(!has_id(insert_by_name(u, x), s.last().id)) by {
            if has_id(u, s.last().id) {
                let i = choose|i: int| 0 <= i < u.len() && #[trigger] u[i].id == s.last().id;
                assert(s[i].id == s[s.len() - 1].id);
            }
            assert(s.contains(s.last()));
        }
        lemma_push_distinct(insert_by_name(u, x), s.last());
    } else {
        lemma_push_distinct(s, x);
    }
}

proof fn lemma_sort_distinct(s: Seq<ProfileView>)
    requires
        ids_distinct(s),
    ensures
        ids_distinct(sort_by_name(s)),
    decreases s.len(),
{
    if s.len() > 0 {
        let u = s.drop_last();
        assert(ids_distinct(u)) by {
            assert forall|i: int, j: int| 0 <= i < j < u.len() implies #[trigger] u[i].id != #[trigger] u[j].id by {
                assert(u[i] == s[i] && u[j] == s[j]);
            }
        }
        lemma_sort_distinct(u);
        lemma_sort_members(u);
        assert(!has_id(u, s.last().id)) by {
            if has_id(u, s.last().id) {
                let i = choose|i: int| 0 <= i < u.len() && #[trigger] u[i].id == s.last().id;
                assert(s[i].id == s[s.len() - 1].id);
            }
        }
        lemma_insert_distinct(sort_by_name(u), s.last());
    }
}

/// In a list with unique ids, a member is the first (and only) holder of
/// its id.
proof fn lemma_unique_holder(s: Seq<ProfileView>, x: ProfileView)
    requires
        ids_distinct(s),
        s.contains(x),
    ensures
        exists|i: int| first_with_id(s, x.id, i) && s[i] == x,
{
    let i = choose|i: int| 0 <= i < s.len() && s[i] == x;
    assert forall|j: int| 0 <= j < i implies #[trigger] s[j].id != x.id by {
        assert(s[j].id != s[i].id);
    }
    assert(first_with_id(s, x.id, i));
}

// ---------------------------------------------------------------
// Laws
// ---------------------------------------------------------------

/// Sorting by name keeps exactly the profiles it is given, and as many.
pub proof fn law_sort_keeps_profiles(s: Seq<ProfileView>)
    ensures
        sort_by_name(s).len() == s.len(),
        forall|y: ProfileView| #[trigger] sort_by_name(s).contains(y) <==> s.contains(y),
        forall|id: Seq<char>| #[trigger] has_id(sort_by_name(s), id) <==> has_id(s, id),
{
    lemma_sort_members(s);
}

proof fn lemma_insert_sorted(s: Seq<ProfileView>, x: ProfileView)
    requires
        sorted_by_name(s),
    ensures
        sorted_by_name(insert_by_name(s, x)),
    decreases s.len(),
{
    let t = insert_by_name(s, x);
    if s.len() == 0 {
        assert(t == seq![x]);
    } else if name_lt(x, s.last()) {
        let u = s.drop_last();
        let l = s.last();
        assert(sorted_by_name(u)) by {
            assert forall|i: int, j: int| 0 <= i < j < u.len() implies !name_lt(#[trigger] u[j], #[trigger] u[i]) by {
                assert(u[i] == s[i] && u[j] == s[j]);
            }
        }
        lemma_insert_sorted(u, x);
        lemma_insert_members(u, x);
        let w = insert_by_name(u, x);
        assert forall|i: int, j: int| 0 <= i < j < t.len() implies !name_lt(#[trigger] t[j], #[trigger] t[i]) by {
            if j == t.len() - 1 {
                assert(t[j] == l);
                assert(w.contains(w[i]));
                if w[i] == x {
                    lemma_name_lt_asymmetric(x, l);
                } else {
                    let k = choose|k: int| 0 <= k < u.len() && u[k] == w[i];
                    assert(s[k] == w[i]);
                    assert(!name_lt(s[s.len() - 1], s[k]));
                }
            } else {
                assert(t[i] == w[i] && t[j] == w[j]);
            }
        }
    } else {
        let l = s.last();
        assert forall|i: int, j: int| 0 <= i < j < t.len() implies !name_lt(#[trigger] t[j], #[trigger] t[i]) by {
            if j == s.len() {
                assert(t[j] == x);
                assert(t[i] == s[i]);
                if i < s.len() - 1 {
                    assert(!name_lt(s[s.len() - 1], s[i]));
                }
                lemma_name_le_transitive(s[i], l, x);
            } else {
                assert(t[i] == s[i] && t[j] == s[j]);
            }
        }
    }
}

/// The list that sorting gives is ordered by name.
pub proof fn law_sort_orders_by_name(s: Seq<ProfileView>)
    ensures
        sorted_by_name(sort_by_name(s)),
    decreases s.len(),
{
    if s.len() > 0 {
        law_sort_orders_by_name(s.drop_last());
        lemma_insert_sorted(sort_by_name(s.drop_last()), s.last());
    }
}

/// A profile created under a free id is found afterwards, and ids stay
/// unique.
pub proof fn law_create_then_found(s: Seq<ProfileView>, p: ProfileView)
    requires
        !has_id(s, p.id),
    ensures
        has_id(sort_by_name(s.push(p)), p.id),
        ids_distinct(s) ==> ids_distinct(sort_by_name(s.push(p))),
        ids_distinct(s) ==> exists|i: int|
            first_with_id(sort_by_name(s.push(p)), p.id, i) && sort_by_name(s.push(p))[i] == p,
{
    let t = s.push(p);
    lemma_sort_members(t);
    assert(t[s.len() as int].id == p.id);
    assert(t.contains(p));
    if ids_distinct(s) {
        lemma_push_distinct(s, p);
        lemma_sort_distinct(t);
        lemma_unique_holder(sort_by_name(t), p);
    }
}

/// Replacing the first holder of an id by a profile with that id in a
/// list of unique ids, then sorting, keeps ids unique and finds the new
/// profile under the id.
proof fn lemma_replace_found(s: Seq<ProfileView>, k: int, q: ProfileView)
    requires
        first_with_id(s, q.id, k),
        ids_distinct(s),
    ensures
        ids_distinct(sort_by_name(s.update(k, q))),
        exists|i: int| first_with_id(sort_by_name(s.update(k, q)), q.id, i) && sort_by_name(s.update(k, q))[i] == q,
{
    let t = s.update(k, q);
    assert forall|i: int, j: int| 0 <= i < j < t.len() implies #[trigger] t[i].id != #[trigger] t[j].id by {
        assert(s[i].id != s[j].id);
    }
    lemma_sort_distinct(t);
    lemma_sort_members(t);
    assert(t[k] == q);
    assert(t.contains(q));
    lemma_unique_holder(sort_by_name(t), q);
}

/// After an update of the profile at position `k` (the first holder of
/// the id), the list (sorted by name again) holds unique ids and looking
/// the id up gives the new profile, with the built-in flag set when `k`
/// was built in.
pub proof fn law_update_then_get(s: Seq<ProfileView>, k: int, p: ProfileView)
    requires
        first_with_id(s, p.id, k),
        ids_distinct(s),
    ensures
        ids_distinct(sort_by_name(s.update(k, p))),
        exists|i: int|
            first_with_id(sort_by_name(s.update(k, p)), p.id, i) && sort_by_name(s.update(k, p))[i] == p,
        ids_distinct(sort_by_name(s.update(k, as_builtin(p)))),
        exists|i: int|
            first_with_id(sort_by_name(s.update(k, as_builtin(p))), p.id, i) && sort_by_name(
                s.update(k, as_builtin(p)),
            )[i] == as_builtin(p),
{
    lemma_replace_found(s, k, p);
    lemma_replace_found(s, k, as_builtin(p));
}

/// After a delete, no profile has the id; every other id is still held
/// exactly when it was before, and ids stay unique.
pub proof fn law_delete_removes(s: Seq<ProfileView>, id: Seq<char>)
    ensures
        !has_id(without_id(s, id), id),
        forall|other: Seq<char>|
            other != id ==> (#[trigger] has_id(without_id(s, id), other) <==> has_id(s, other)),
        ids_distinct(s) ==> ids_distinct(without_id(s, id)),
    decreases s.len(),
{
    if s.len() > 0 {
        let u = s.drop_last();
        let l = s.last();
        law_delete_removes(u, id);
        let w = without_id(u, id);
        assert forall|x: Seq<char>| #[trigger] has_id(u, x) ==> has_id(s, x) by {
            if has_id(u, x) {
                let i = choose|i: int| 0 <= i < u.len() && #[trigger] u[i].id == x;
                assert(s[i].id == x);
            }
        }
        if l.id != id {
            let t = w.push(l);
            assert(without_id(s, id) == t);
            assert(!has_id(t, id)) by {
                if has_id(t, id) {
                    let i = choose|i: int| 0 <= i < t.len() && #[trigger] t[i].id == id;
                    assert(i < w.len());
                    assert(w[i].id == id);
                }
            }
            assert forall|other: Seq<char>| other != id implies (#[trigger] has_id(t, other) <==> has_id(
                s,
                other,
            )) by {
                if has_id(t, other) {
                    let i = choose|i: int| 0 <= i < t.len() && #[trigger] t[i].id == other;
                    if i < w.len() {
                        assert(w[i].id == other);
                        assert(has_id(w, other));
                        assert(has_id(u, other));
                    } else {
                        assert(s[s.len() - 1].id == other);
                    }
                }
                if has_id(s, other) {
                    if other == l.id {
                        assert(t[w.len() as int].id == other);
                    } else {
                        let k = choose|k: int| 0 <= k < s.len() && #[trigger] s[k].id == other;
                        assert(u[k].id == other);
                        assert(has_id(w, other));
                        let i = choose|i: int| 0 <= i < w.len() && #[trigger] w[i].id == other;
                        assert(t[i].id == other);
                    }
                }
            }
            if ids_distinct(s) {
                assert(ids_distinct(u)) by {
                    assert forall|i: int, j: int| 0 <= i < j < u.len() implies #[trigger] u[i].id != #[trigger] u[j].id by {
                        assert(u[i] == s[i] && u[j] == s[j]);
                    }
                }
                assert(!has_id(w, l.id)) by {
                    if has_id(u, l.id) {
                        let i = choose|i: int| 0 <= i < u.len() && #[trigger] u[i].id == l.id;
                        assert(s[i].id == s[s.len() - 1].id);
                    }
                }
                lemma_push_distinct(w, l);
            }
        } else {
            assert(without_id(s, id) == w);
            assert forall|other: Seq<char>| other != id implies (#[trigger] has_id(w, other) <==> has_id(
                s,
                other,
            )) by {
                if has_id(s, other) {
                    let i = choose|i: int| 0 <= i < s.len() && #[trigger] s[i].id == other;
                    assert(u[i].id == other);
                }
            }
            if ids_distinct(s) {
                assert(ids_distinct(u)) by {
                    assert forall|i: int, j: int| 0 <= i < j < u.len() implies #[trigger] u[i].id != #[trigger] u[j].id by {
                        assert(u[i] == s[i] && u[j] == s[j]);
                    }
                }
            }
        }
    }
}

/// The id an imported profile gets is free in the list, starts with the
/// id it came with, differs from it when that was taken, and is found
/// after the import; ids stay unique.
pub proof fn law_import_id_fresh(s: Seq<ProfileView>, q: ProfileView, id: Seq<char>)
    requires
        import_id(s, q.id, id),
    ensures
        !has_id(s, id),
        q.id.is_prefix_of(id),
        has_id(s, q.id) ==> id != q.id,
        has_id(sort_by_name(s.push(with_id(q, id))), id),
        ids_distinct(s) ==> ids_distinct(sort_by_name(s.push(with_id(q, id)))),
{
    if has_id(s, q.id) {
        let n = choose|n: nat|
            #![trigger renamed(q.id, n)]
            n >= 2 && id == renamed(q.id, n) && !has_id(s, id) && forall|m: nat|
                2 <= m < n ==> has_id(s, #[trigger] renamed(q.id, m));
        assert(id.subrange(0, q.id.len() as int) =~= q.id);
    } else {
        assert(id.subrange(0, q.id.len() as int) =~= q.id);
    }
    law_create_then_found(s, with_id(q, id));
}

/// An imported profile is a user's profile: in the list after the import,
/// whatever holds its id first is not built in, so deleting it is not
/// refused as the deletion of a built-in profile.
pub proof fn law_imported_not_builtin(s: Seq<ProfileView>, q: ProfileView, id: Seq<char>, k: int)
    requires
        import_id(s, q.id, id),
        first_with_id(sort_by_name(s.push(with_id(as_user(q), id))), id, k),
    ensures
        !sort_by_name(s.push(with_id(as_user(q), id)))[k].builtin,
{
    let p = with_id(as_user(q), id);
    let t = s.push(p);
    law_import_id_fresh(s, as_user(q), id);
    lemma_sort_members(t);
    let y = sort_by_name(t)[k];
    assert(sort_by_name(t).contains(y));
    assert(t.contains(y));
    let i = choose|i: int| 0 <= i < t.len() && t[i] == y;
    if i < s.len() {
        assert(s[i] == y);
        assert(has_id(s, id));
    }
}

/// The built-in profiles that loading adds are exactly those whose ids the
/// stored list lacks; every stored profile stays.
pub proof fn law_load_adds_missing_builtins(s: Seq<ProfileView>, bs: Seq<ProfileView>)
    ensures
        forall|y: ProfileView| s.contains(y) ==> #[trigger] add_missing(s, bs).contains(y),
        forall|i: int| 0 <= i < bs.len() ==> has_id(add_missing(s, bs), #[trigger] bs[i].id),
    decreases bs.len(),
{
    if bs.len() > 0 {
        let u = bs.drop_last();
        law_load_adds_missing_builtins(s, u);
        let t = add_missing(s, u);
        let l = bs.last();
        if !has_id(t, l.id) {
            assert forall|y: ProfileView| t.contains(y) implies #[trigger] t.push(l).contains(y) by {
                let i = choose|i: int| 0 <= i < t.len() && t[i] == y;
                assert(t.push(l)[i] == y);
            }
            assert forall|x: Seq<char>| has_id(t, x) implies #[trigger] has_id(t.push(l), x) by {
                let i = choose|i: int| 0 <= i < t.len() && #[trigger] t[i].id == x;
                assert(t.push(l)[i].id == x);
            }
            assert(t.push(l)[t.len() as int].id == l.id);
        }
        assert forall|i: int| 0 <= i < bs.len() implies has_id(add_missing(s, bs), #[trigger] bs[i].id) by {
            if i < bs.len() - 1 {
                assert(u[i] == bs[i]);
                assert(has_id(t, u[i].id));
            }
        }
    }
}

} // verus!
