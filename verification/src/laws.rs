//! The general laws of the store, stated over its map model and proved
//! once and for all: freshness of assigned IDs, agreement of lookups with
//! creation and deletion, and the relations between the scans and the
//! counts.

use crate::capsule::TimeCapsule;
use crate::capsule::capsule_view;
use crate::capsule::views_of;
use crate::store::Store;
use crate::store::count_matching;
use crate::store::ids_strictly_increasing;
use crate::store::is_listing;
use crate::store::is_listing_before;
use crate::store::is_listing_by;
use crate::store::keep_all;
use crate::store::keep_before;
use crate::store::matches_entry;
use vstd::prelude::*;

verus! {

/// Every ID present in a well-formed store lies between 1 and the
/// counter. A create assigns the counter plus one, so assigned IDs are
/// strictly increasing, starting at 1, and never reused — deletes never
/// lower the counter.
pub proof fn lemma_ids_bounded(s: Store, id: u64)
    requires
        s.wf(),
        s.capsules().contains_key(id),
    ensures
        1 <= id <= s.next_counter(),
{
}

/// A lookup right after a create finds the record the create returned:
/// the stored entry under the new ID carries exactly the returned
/// capsule's content and unlock date.
pub proof fn lemma_get_after_create(
    prev: Store,
    next: Store,
    c: TimeCapsule,
    content: Seq<char>,
    unlock_date: u64,
)
    requires
        next.capsules() == prev.capsules().insert(c.id, (content, unlock_date)),
        c.content@ == content,
        c.unlock_date == unlock_date,
    ensures
        next.capsules().contains_key(c.id),
        next.capsules()[c.id].0 == c.content@,
        next.capsules()[c.id].1 == c.unlock_date,
{
}

/// After a successful delete the ID is absent from the store, so a
/// following get or delete on that ID reports NotFound, by their own
/// contracts.
pub proof fn lemma_deleted_id_absent(prev: Store, next: Store, id: u64)
    requires
        next.capsules() == prev.capsules().remove(id),
    ensures
        !next.capsules().contains_key(id),
{
}

/// A listing selected by `keep` has exactly as many entries as the
/// record map has keys selected by `keep`.
proof fn lemma_listing_by_len(
    m: Map<u64, (Seq<char>, u64)>,
    keep: spec_fn(u64, (Seq<char>, u64)) -> bool,
    s: Seq<TimeCapsule>,
)
    requires
        m.dom().finite(),
        is_listing_by(m, keep, s),
    ensures
        s.len() == m.dom().filter(|k: u64| keep(k, m[k])).len(),
    decreases s.len(),
{
    broadcast use vstd::set::group_set_axioms;
    broadcast use vstd::set_lib::group_set_properties;

    let sel = m.dom().filter(|k: u64| keep(k, m[k]));
    if s.len() == 0 {
        assert forall|k: u64| !(#[trigger] sel.contains(k)) by {
            if m.contains_key(k) && keep(k, m[k]) {
                assert(false);
            }
        }
        assert(sel =~= Set::<u64>::empty());
    } else {
        let last = s.last();
        let s2 = s.drop_last();
        let m2 = m.remove(last.id);
        assert(matches_entry(m, last) && keep(last.id, m[last.id]));
        assert forall|i: int|
            0 <= i < s2.len() implies matches_entry(m2, #[trigger] s2[i]) && keep(
            s2[i].id,
            m2[s2[i].id],
        ) by {
            assert(s2[i] == s[i]);
            assert(s[i].id < last.id);
        }
        assert forall|k: u64| #[trigger]
            m2.contains_key(k) && keep(k, m2[k]) implies exists|i: int|
            0 <= i < s2.len() && s2[i].id == k by {
            assert(m.contains_key(k) && keep(k, m[k]));
            let i = choose|i: int| 0 <= i < s.len() && s[i].id == k;
            assert(i < s.len() - 1);
            assert(s2[i] == s[i]);
            assert(0 <= i < s2.len() && s2[i].id == k);
        }
        assert(is_listing_by(m2, keep, s2));
        assert(m2.dom().finite());
        lemma_listing_by_len(m2, keep, s2);
        let sel2 = m2.dom().filter(|k: u64| keep(k, m2[k]));
        assert forall|k: u64| #[trigger] sel.contains(k) <==> sel2.insert(last.id).contains(k) by {
            if k != last.id {
                assert(m2.contains_key(k) <==> m.contains_key(k));
                if m.contains_key(k) {
                    assert(m2[k] == m[k]);
                }
            }
        }
        assert(sel =~= sel2.insert(last.id));
        assert(sel2.finite());
        assert(!sel2.contains(last.id));
        assert(sel.len() == sel2.len() + 1);
    }
}

/// The number of records equals the length of the full listing: what
/// `count_all` returns equals the length of what `list_all` returns.
pub proof fn lemma_listing_len(m: Map<u64, (Seq<char>, u64)>, s: Seq<TimeCapsule>)
    requires
        m.dom().finite(),
        is_listing(m, s),
    ensures
        s.len() == m.dom().len(),
{
    lemma_listing_by_len(m, keep_all(), s);
    assert(m.dom().filter(|k: u64| keep_all()(k, m[k])) =~= m.dom());
}

/// The number of records with unlock date at most `t` equals the length
/// of the listing before `t`: what `count_before` returns equals the
/// length of what `list_before` returns.
pub proof fn lemma_listing_before_len(m: Map<u64, (Seq<char>, u64)>, t: u64, s: Seq<TimeCapsule>)
    requires
        m.dom().finite(),
        is_listing_before(m, t, s),
    ensures
        s.len() == count_matching(m, t),
{
    lemma_listing_by_len(m, keep_before(t), s);
    assert(m.dom().filter(|k: u64| keep_before(t)(k, m[k])) =~= m.dom().filter(
        |k: u64| m[k].1 <= t,
    ));
}

/// Dropping the first capsule of a listing lists the map without that
/// capsule's ID.
proof fn lemma_tail_listing(
    m: Map<u64, (Seq<char>, u64)>,
    keep: spec_fn(u64, (Seq<char>, u64)) -> bool,
    s: Seq<TimeCapsule>,
)
    requires
        is_listing_by(m, keep, s),
        s.len() > 0,
    ensures
        is_listing_by(m.remove(s[0].id), keep, s.drop_first()),
{
    let m2 = m.remove(s[0].id);
    let s2 = s.drop_first();
    assert forall|i: int|
        0 <= i < s2.len() implies matches_entry(m2, #[trigger] s2[i]) && keep(
        s2[i].id,
        m2[s2[i].id],
    ) by {
        assert(s2[i] == s[i + 1]);
        assert(matches_entry(m, s[i + 1]) && keep(s[i + 1].id, m[s[i + 1].id]));
        assert(s[0].id < s[i + 1].id);
    }
    assert forall|k: u64| #[trigger] m2.contains_key(k) && keep(k, m2[k]) implies exists|i: int|
        0 <= i < s2.len() && s2[i].id == k by {
        assert(m.contains_key(k) && keep(k, m[k]));
        let i = choose|i: int| 0 <= i < s.len() && s[i].id == k;
        assert(i != 0);
        assert(s2[i - 1] == s[i]);
        assert(0 <= i - 1 < s2.len() && s2[i - 1].id == k);
    }
    assert forall|i: int, j: int|
        0 <= i < j < s2.len() implies (#[trigger] s2[i]).id < (#[trigger] s2[j]).id by {
        assert(s2[i] == s[i + 1]);
        assert(s2[j] == s[j + 1]);
    }
}

/// Two listings of the same records under the same selection hold the
/// same capsule values in the same order: the listing is unique up to
/// the mathematical value of each capsule.
pub proof fn lemma_listing_by_unique(
    m: Map<u64, (Seq<char>, u64)>,
    keep: spec_fn(u64, (Seq<char>, u64)) -> bool,
    a: Seq<TimeCapsule>,
    b: Seq<TimeCapsule>,
)
    requires
        is_listing_by(m, keep, a),
        is_listing_by(m, keep, b),
    ensures
        views_of(a) == views_of(b),
    decreases a.len(),
{
    if a.len() == 0 {
        if b.len() > 0 {
            assert(matches_entry(m, b[0]) && keep(b[0].id, m[b[0].id]));
            assert(m.contains_key(b[0].id) && keep(b[0].id, m[b[0].id]));
            assert(false);
        }
        assert(views_of(a) =~= views_of(b));
    } else {
        if b.len() == 0 {
            assert(matches_entry(m, a[0]) && keep(a[0].id, m[a[0].id]));
            assert(false);
        }
        assert(matches_entry(m, a[0]) && keep(a[0].id, m[a[0].id]));
        assert(matches_entry(m, b[0]) && keep(b[0].id, m[b[0].id]));
        let j = choose|j: int| 0 <= j < b.len() && b[j].id == a[0].id;
        assert(b[0].id <= b[j].id);
        let i = choose|i: int| 0 <= i < a.len() && a[i].id == b[0].id;
        assert(a[0].id <= a[i].id);
        assert(a[0].id == b[0].id);
        lemma_tail_listing(m, keep, a);
        lemma_tail_listing(m, keep, b);
        lemma_listing_by_unique(m.remove(a[0].id), keep, a.drop_first(), b.drop_first());
        assert(views_of(a.drop_first()).len() == a.len() - 1);
        assert(views_of(b.drop_first()).len() == b.len() - 1);
        assert(a.len() == b.len());
        assert forall|i2: int|
            0 <= i2 < a.len() implies views_of(a)[i2] == views_of(b)[i2] by {
            if i2 == 0 {
                assert(capsule_view(a[0]) == (a[0].id, m[a[0].id].0, m[a[0].id].1));
                assert(capsule_view(b[0]) == (b[0].id, m[b[0].id].0, m[b[0].id].1));
            } else {
                assert(views_of(a.drop_first())[i2 - 1] == views_of(b.drop_first())[i2 - 1]);
                assert(a.drop_first()[i2 - 1] == a[i2]);
                assert(b.drop_first()[i2 - 1] == b[i2]);
            }
        }
        assert(views_of(a) =~= views_of(b));
    }
}

/// Filtering keeps the order of a listing: a filtered sequence of
/// capsules with strictly increasing IDs still has strictly increasing
/// IDs, and each of its elements occurs in the original.
proof fn lemma_filter_keeps_order(s: Seq<TimeCapsule>, p: spec_fn(TimeCapsule) -> bool)
    requires
        ids_strictly_increasing(s),
    ensures
        ids_strictly_increasing(s.filter(p)),
        forall|l: int|
            0 <= l < s.filter(p).len() ==> exists|i: int|
                0 <= i < s.len() && s[i] == #[trigger] s.filter(p)[l],
    decreases s.len(),
{
    reveal(Seq::filter);
    if s.len() == 0 {
    } else {
        let s2 = s.drop_last();
        assert forall|i: int, j: int|
            0 <= i < j < s2.len() implies (#[trigger] s2[i]).id < (#[trigger] s2[j]).id by {
            assert(s2[i] == s[i]);
            assert(s2[j] == s[j]);
        }
        lemma_filter_keeps_order(s2, p);
        let f2 = s2.filter(p);
        assert forall|l: int|
            0 <= l < f2.len() implies exists|i: int| 0 <= i < s.len() && s[i] == #[trigger] f2[l] by {
            let i = choose|i: int| 0 <= i < s2.len() && s2[i] == f2[l];
            assert(s[i] == s2[i]);
        }
        if p(s.last()) {
            let f = f2.push(s.last());
            assert(s.filter(p) == f);
            assert forall|l1: int, l2: int|
                0 <= l1 < l2 < f.len() implies (#[trigger] f[l1]).id < (#[trigger] f[l2]).id by {
                if l2 < f2.len() {
                    assert(f[l1] == f2[l1]);
                    assert(f[l2] == f2[l2]);
                } else {
                    assert(f[l2] == s.last());
                    assert(f[l1] == f2[l1]);
                    let i = choose|i: int| 0 <= i < s2.len() && s2[i] == f2[l1];
                    assert(s[i] == s2[i]);
                    assert(s[i].id < s.last().id);
                }
            }
            assert forall|l: int|
                0 <= l < f.len() implies exists|i: int| 0 <= i < s.len() && s[i] == #[trigger] f[l] by {
                if l < f2.len() {
                    assert(f[l] == f2[l]);
                    let i = choose|i: int| 0 <= i < s.len() && s[i] == f2[l];
                    assert(s[i] == f[l]);
                } else {
                    assert(f[l] == s[s.len() - 1]);
                }
            }
        } else {
            assert(s.filter(p) == f2);
        }
    }
}

/// The listing before `t` is exactly the filter of the full listing by
/// unlock date at most `t`: what `list_before` returns holds the same
/// capsule values, in the same order, as `list_all` filtered.
pub proof fn lemma_before_is_filter(
    m: Map<u64, (Seq<char>, u64)>,
    t: u64,
    a: Seq<TimeCapsule>,
    b: Seq<TimeCapsule>,
)
    requires
        is_listing(m, a),
        is_listing_before(m, t, b),
    ensures
        views_of(b) == views_of(a.filter(|c: TimeCapsule| c.unlock_date <= t)),
{
    broadcast use vstd::seq_lib::group_filter_ensures;

    let p = |c: TimeCapsule| c.unlock_date <= t;
    let f = a.filter(p);
    lemma_filter_keeps_order(a, p);
    assert forall|l: int|
        0 <= l < f.len() implies matches_entry(m, #[trigger] f[l]) && keep_before(t)(
        f[l].id,
        m[f[l].id],
    ) by {
        let i = choose|i: int| 0 <= i < a.len() && a[i] == f[l];
        assert(matches_entry(m, a[i]));
        assert(p(f[l]));
    }
    assert forall|k: u64| #[trigger]
        m.contains_key(k) && keep_before(t)(k, m[k]) implies exists|l: int|
        0 <= l < f.len() && f[l].id == k by {
        let i = choose|i: int| 0 <= i < a.len() && a[i].id == k;
        assert(matches_entry(m, a[i]));
        assert(a[i].unlock_date == m[k].1);
        assert(p(a[i]));
        assert(f.contains(a[i]));
        let l = choose|l: int| 0 <= l < f.len() && f[l] == a[i];
        assert(0 <= l < f.len() && f[l].id == k);
    }
    assert(is_listing_by(m, keep_before(t), f));
    lemma_listing_by_unique(m, keep_before(t), b, f);
}

} // verus!
