//! The record store: ID allocation, keyed storage and query scans over
//! the durable substrate, with every operation verified against a map
//! model of the stored records.

use crate::capsule::Error;
use crate::capsule::TimeCapsule;
use crate::capsule::error_msg;
use crate::codec::decode_capsule;
use crate::codec::decoded_capsule;
use crate::codec::encode_capsule;
use crate::durable::Durable;
use crate::durable::counter_get;
use crate::durable::counter_set;
use crate::durable::counter_value;
use crate::durable::durable_new;
use crate::durable::entries_of;
use crate::durable::map_contents;
use crate::durable::map_entries;
use crate::durable::map_get;
use crate::durable::map_insert;
use crate::durable::map_len;
use crate::durable::map_remove;
use crate::text::msg_delete_not_found;
use crate::text::msg_get_not_found;
use crate::text::msg_update_date_not_found;
use crate::text::msg_update_not_found;
use crate::text::not_found_message;
use vstd::pervasive::unreached;
use vstd::prelude::*;

verus! {

/// An empty record map, named so that contracts can state emptiness in
/// one token.
pub open spec fn no_capsules() -> Map<u64, (Seq<char>, u64)> {
    Map::empty()
}

/// Whether a capsule agrees with the record map at its own ID.
pub open spec fn matches_entry(m: Map<u64, (Seq<char>, u64)>, c: TimeCapsule) -> bool {
    m.contains_key(c.id) && m[c.id].0 == c.content@ && m[c.id].1 == c.unlock_date
}

/// Whether the IDs of a sequence of capsules are strictly increasing.
pub open spec fn ids_strictly_increasing(s: Seq<TimeCapsule>) -> bool {
    forall|i: int, j: int| 0 <= i < j < s.len() ==> (#[trigger] s[i]).id < (#[trigger] s[j]).id
}

/// Whether `s` lists, in ascending ID order, exactly the records of `m`
/// that `keep` selects.
pub open spec fn is_listing_by(
    m: Map<u64, (Seq<char>, u64)>,
    keep: spec_fn(u64, (Seq<char>, u64)) -> bool,
    s: Seq<TimeCapsule>,
) -> bool {
    &&& ids_strictly_increasing(s)
    &&& forall|i: int|
        0 <= i < s.len() ==> matches_entry(m, #[trigger] s[i]) && keep(s[i].id, m[s[i].id])
    &&& forall|k: u64| #[trigger]
        m.contains_key(k) && keep(k, m[k]) ==> exists|i: int| 0 <= i < s.len() && s[i].id == k
}

/// The selector that keeps every record.
pub open spec fn keep_all() -> spec_fn(u64, (Seq<char>, u64)) -> bool {
    |k: u64, v: (Seq<char>, u64)| true
}

/// The selector that keeps the records whose unlock date is at most `t`.
pub open spec fn keep_before(t: u64) -> spec_fn(u64, (Seq<char>, u64)) -> bool {
    |k: u64, v: (Seq<char>, u64)| v.1 <= t
}

/// Whether `s` lists every record of `m`, in ascending ID order.
pub open spec fn is_listing(m: Map<u64, (Seq<char>, u64)>, s: Seq<TimeCapsule>) -> bool {
    is_listing_by(m, keep_all(), s)
}

/// Whether `s` lists, in ascending ID order, exactly the records of `m`
/// with unlock date at most `t`.
pub open spec fn is_listing_before(
    m: Map<u64, (Seq<char>, u64)>,
    t: u64,
    s: Seq<TimeCapsule>,
) -> bool {
    is_listing_by(m, keep_before(t), s)
}

/// The number of records of `m` whose unlock date is at most `t`.
pub open spec fn count_matching(m: Map<u64, (Seq<char>, u64)>, t: u64) -> nat {
    m.dom().filter(|k: u64| m[k].1 <= t).len()
}

/// The record store: a durable counter for ID allocation and a durable
/// ordered map from ID to encoded record.
pub struct Store {
    pub d: Durable,
}

impl Store {
    /// The raw durable map: ID to stored bytes.
    pub open spec fn contents(self) -> Map<u64, Seq<u8>> {
        map_contents(self.d)
    }

    /// The value of the durable ID counter: the last assigned ID, or zero
    /// when none was ever assigned.
    pub open spec fn next_counter(self) -> u64 {
        counter_value(self.d)
    }

    /// The records of the store: each stored byte string, decoded.
    pub open spec fn capsules(self) -> Map<u64, (Seq<char>, u64)> {
        self.contents().map_entries(
            |k: u64, bytes: Seq<u8>|
                {
                    let t = decoded_capsule(bytes)->0;
                    (t.1, t.2)
                },
        )
    }

    /// Well-formedness: finitely many records, every stored byte string
    /// decodes to a record carrying its own key as ID, and every key lies
    /// between 1 and the counter.
    pub open spec fn wf(self) -> bool {
        &&& self.contents().dom().finite()
        &&& forall|k: u64| #[trigger]
            self.contents().contains_key(k) ==> (decoded_capsule(self.contents()[k]) matches Some(
                t,
            ) && t.0 == k)
        &&& forall|k: u64| #[trigger]
            self.contents().contains_key(k) ==> 1 <= k <= self.next_counter()
    }

    /// The current value of the ID counter, for callers that must check
    /// headroom before a create.
    pub fn id_counter(&self) -> (v: u64)
        ensures
            v == self.next_counter(),
    {
        counter_get(&self.d)
    }

    /// A fresh, empty store with the counter at zero.
    pub fn new() -> (s: Store)
        ensures
            s.wf(),
            s.capsules() == no_capsules(),
            s.next_counter() == 0,
    {
        let s = Store { d: durable_new(0) };
        proof {
            assert(s.contents().dom() =~= Set::<u64>::empty());
            assert(s.capsules() =~= no_capsules());
        }
        s
    }

    /// Allocates the next ID (one more than the counter), stores a record
    /// with the given content and unlock date under it, and returns the
    /// new capsule.
    pub fn create(&mut self, content: String, unlock_date: u64) -> (c: TimeCapsule)
        requires
            old(self).wf(),
            old(self).next_counter() < u64::MAX,
        ensures
            final(self).wf(),
            c.id == old(self).next_counter() + 1,
            c.content@ == content@,
            c.unlock_date == unlock_date,
            !old(self).capsules().contains_key(c.id),
            final(self).next_counter() == c.id,
            final(self).capsules() == old(self).capsules().insert(c.id, (content@, unlock_date)),
    {
        let current_value = counter_get(&self.d);
        let id = current_value + 1;
        counter_set(&mut self.d, id);
        let time_capsule = TimeCapsule { id, content, unlock_date };
        do_insert_time_capsule(self, &time_capsule);
        time_capsule
    }

    /// Point lookup: the record stored under `id`, or NotFound.
    pub fn get(&self, id: u64) -> (r: Result<TimeCapsule, Error>)
        requires
            self.wf(),
        ensures
            self.capsules().contains_key(id) ==> (r matches Ok(c) && c.id == id && c.content@
                == self.capsules()[id].0 && c.unlock_date == self.capsules()[id].1),
            !self.capsules().contains_key(id) ==> (r matches Err(e) && error_msg(e)
                == msg_get_not_found(id)),
    {
        match _get_time_capsule(self, &id) {
            Some(item) => Ok(item),
            None => Err(
                Error::NotFound {
                    msg: not_found_message("time capsule with id=", id, " not found"),
                },
            ),
        }
    }

    /// Replaces both the content and the unlock date of the record under
    /// `id`, or NotFound when the ID is absent.
    pub fn update(&mut self, id: u64, content: String, unlock_date: u64) -> (r: Result<
        TimeCapsule,
        Error,
    >)
        requires
            old(self).wf(),
        ensures
            final(self).wf(),
            final(self).next_counter() == old(self).next_counter(),
            old(self).capsules().contains_key(id) ==> (r matches Ok(c) && c.id == id && c.content@
                == content@ && c.unlock_date == unlock_date && final(self).capsules() == old(self).capsules().insert(id, (content@, unlock_date))),
            !old(self).capsules().contains_key(id) ==> (r matches Err(e) && error_msg(e)
                == msg_update_not_found(id) && final(self).capsules() == old(self).capsules()),
    {
        match _get_time_capsule(self, &id) {
            Some(mut time_capsule) => {
                time_capsule.content = content;
                time_capsule.unlock_date = unlock_date;
                do_insert_time_capsule(self, &time_capsule);
                Ok(time_capsule)
            },
            None => Err(
                Error::NotFound {
                    msg: not_found_message(
                        "couldn't update time capsule with id=",
                        id,
                        ". item not found",
                    ),
                },
            ),
        }
    }

    /// Replaces only the unlock date of the record under `id`, leaving
    /// the content untouched, or NotFound when the ID is absent.
    pub fn update_unlock_date(&mut self, id: u64, new_unlock_date: u64) -> (r: Result<
        TimeCapsule,
        Error,
    >)
        requires
            old(self).wf(),
        ensures
            final(self).wf(),
            final(self).next_counter() == old(self).next_counter(),
            old(self).capsules().contains_key(id) ==> (r matches Ok(c) && c.id == id && c.content@
                == old(self).capsules()[id].0 && c.unlock_date == new_unlock_date
                && final(self).capsules() == old(self).capsules().insert(
                id,
                (old(self).capsules()[id].0, new_unlock_date),
            )),
            !old(self).capsules().contains_key(id) ==> (r matches Err(e) && error_msg(e)
                == msg_update_date_not_found(id) && final(self).capsules() == old(self).capsules()),
    {
        match _get_time_capsule(self, &id) {
            Some(mut time_capsule) => {
                time_capsule.unlock_date = new_unlock_date;
                do_insert_time_capsule(self, &time_capsule);
                Ok(time_capsule)
            },
            None => Err(
                Error::NotFound {
                    msg: not_found_message(
                        "couldn't update unlock date for time capsule with id=",
                        id,
                        ". item not found",
                    ),
                },
            ),
        }
    }

    /// Removes the record under `id`, returning it as confirmation, or
    /// NotFound when the ID is absent.
    pub fn delete(&mut self, id: u64) -> (r: Result<TimeCapsule, Error>)
        requires
            old(self).wf(),
        ensures
            final(self).wf(),
            final(self).next_counter() == old(self).next_counter(),
            old(self).capsules().contains_key(id) ==> (r matches Ok(c) && c.id == id && c.content@
                == old(self).capsules()[id].0 && c.unlock_date == old(self).capsules()[id].1
                && final(self).capsules() == old(self).capsules().remove(id)),
            !old(self).capsules().contains_key(id) ==> (r matches Err(e) && error_msg(e)
                == msg_delete_not_found(id) && final(self).capsules() == old(self).capsules()),
    {
        match map_remove(&mut self.d, id) {
            Some(bytes) => {
                match decode_capsule(&bytes) {
                    Some(time_capsule) => {
                        proof {
                            assert(self.capsules() =~= old(self).capsules().remove(id));
                        }
                        Ok(time_capsule)
                    },
                    None => unreached(),
                }
            },
            None => Err(
                Error::NotFound {
                    msg: not_found_message(
                        "couldn't delete time capsule with id=",
                        id,
                        ". item not found.",
                    ),
                },
            ),
        }
    }

    /// Every record currently stored, in ascending ID order.
    pub fn list_all(&self) -> (r: Vec<TimeCapsule>)
        requires
            self.wf(),
        ensures
            is_listing(self.capsules(), r@),
    {
        let entries = map_entries(&self.d);
        let mut out: Vec<TimeCapsule> = Vec::new();
        let mut idx: usize = 0;
        while idx < entries.len()
            invariant
                self.wf(),
                entries_of(self.contents(), entries@),
                0 <= idx <= entries@.len(),
                forall|l: int|
                    0 <= l < out@.len() ==> matches_entry(self.capsules(), #[trigger] out@[l]),
                ids_strictly_increasing(out@),
                forall|l: int, j: int|
                    0 <= l < out@.len() && idx <= j < entries@.len() ==> (#[trigger] out@[l]).id < (
                    #[trigger] entries@[j]).0,
                forall|j: int|
                    0 <= j < idx ==> exists|l: int|
                        0 <= l < out@.len() && out@[l].id == (#[trigger] entries@[j]).0,
            decreases entries@.len() - idx,
        {
            let entry = &entries[idx];
            match decode_capsule(&entry.1) {
                Some(time_capsule) => {
                    let ghost out0 = out@;
                    out.push(time_capsule);
                    proof {
                        assert(time_capsule.id == (entries@[idx as int]).0);
                        assert forall|j: int| 0 <= j <= idx as int implies exists|l: int|
                            0 <= l < out@.len() && out@[l].id == (#[trigger] entries@[j]).0 by {
                            if j < idx as int {
                                let l = choose|l: int|
                                    0 <= l < out0.len() && out0[l].id == (entries@[j]).0;
                                assert(out@[l] == out0[l]);
                                assert(0 <= l < out@.len() && out@[l].id == (entries@[j]).0);
                            } else {
                                assert(out@[out@.len() - 1].id == (entries@[j]).0);
                            }
                        }
                    }
                },
                None => unreached(),
            }
            idx = idx + 1;
        }
        out
    }

    /// Every record whose unlock date is at most `threshold`, in
    /// ascending ID order.
    pub fn list_before(&self, threshold: u64) -> (r: Vec<TimeCapsule>)
        requires
            self.wf(),
        ensures
            is_listing_before(self.capsules(), threshold, r@),
    {
        let entries = map_entries(&self.d);
        let mut out: Vec<TimeCapsule> = Vec::new();
        let mut idx: usize = 0;
        while idx < entries.len()
            invariant
                self.wf(),
                entries_of(self.contents(), entries@),
                0 <= idx <= entries@.len(),
                forall|l: int|
                    0 <= l < out@.len() ==> matches_entry(self.capsules(), #[trigger] out@[l])
                        && out@[l].unlock_date <= threshold,
                ids_strictly_increasing(out@),
                forall|l: int, j: int|
                    0 <= l < out@.len() && idx <= j < entries@.len() ==> (#[trigger] out@[l]).id < (
                    #[trigger] entries@[j]).0,
                forall|j: int|
                    0 <= j < idx && self.capsules()[(#[trigger] entries@[j]).0].1 <= threshold
                        ==> exists|l: int| 0 <= l < out@.len() && out@[l].id == entries@[j].0,
            decreases entries@.len() - idx,
        {
            let entry = &entries[idx];
            match decode_capsule(&entry.1) {
                Some(time_capsule) => {
                    proof {
                        assert(time_capsule.id == (entries@[idx as int]).0);
                        assert(self.capsules()[(entries@[idx as int]).0].1
                            == time_capsule.unlock_date);
                    }
                    if time_capsule.unlock_date <= threshold {
                        let ghost out0 = out@;
                        out.push(time_capsule);
                        proof {
                            assert forall|j: int|
                                0 <= j <= idx as int && self.capsules()[(#[trigger] entries@[j]).0].1
                                    <= threshold implies exists|l: int|
                                0 <= l < out@.len() && out@[l].id == (entries@[j]).0 by {
                                if j < idx as int {
                                    let l = choose|l: int|
                                        0 <= l < out0.len() && out0[l].id == (entries@[j]).0;
                                    assert(out@[l] == out0[l]);
                                    assert(0 <= l < out@.len() && out@[l].id == (entries@[j]).0);
                                } else {
                                    assert(out@[out@.len() - 1].id == (entries@[j]).0);
                                }
                            }
                        }
                    }
                },
                None => unreached(),
            }
            idx = idx + 1;
        }
        out
    }

    /// The number of records currently stored.
    pub fn count_all(&self) -> (n: u64)
        requires
            self.wf(),
        ensures
            n as nat == self.capsules().dom().len(),
    {
        let n = map_len(&self.d);
        proof {
            assert(self.capsules().dom() =~= self.contents().dom());
        }
        n
    }

    /// The number of records whose unlock date is at most `threshold`.
    pub fn count_before(&self, threshold: u64) -> (n: usize)
        requires
            self.wf(),
        ensures
            n as nat == count_matching(self.capsules(), threshold),
    {
        let list = self.list_before(threshold);
        proof {
            assert(self.capsules().dom() =~= self.contents().dom());
            crate::laws::lemma_listing_before_len(self.capsules(), threshold, list@);
        }
        list.len()
    }
}

/// Encodes a capsule and stores it under its own ID. The ID must already
/// have been allocated: it lies between 1 and the counter.
pub fn do_insert_time_capsule(s: &mut Store, item: &TimeCapsule)
    requires
        old(s).wf(),
        1 <= item.id <= old(s).next_counter(),
    ensures
        final(s).wf(),
        final(s).next_counter() == old(s).next_counter(),
        final(s).capsules() == old(s).capsules().insert(item.id, (item.content@, item.unlock_date)),
{
    let bytes = encode_capsule(item);
    map_insert(&mut s.d, item.id, bytes);
    proof {
        assert(s.capsules() =~= old(s).capsules().insert(
            item.id,
            (item.content@, item.unlock_date),
        ));
    }
}

/// The record stored under `id`, decoded, if one is present.
pub fn _get_time_capsule(s: &Store, id: &u64) -> (r: Option<TimeCapsule>)
    requires
        s.wf(),
    ensures
        match r {
            Some(c) => s.capsules().contains_key(*id) && c.id == *id && c.content@
                == s.capsules()[*id].0 && c.unlock_date == s.capsules()[*id].1,
            None => !s.capsules().contains_key(*id),
        },
{
    match map_get(&s.d, *id) {
        Some(bytes) => {
            match decode_capsule(&bytes) {
                Some(time_capsule) => Some(time_capsule),
                None => unreached(),
            }
        },
        None => None,
    }
}

} // verus!
