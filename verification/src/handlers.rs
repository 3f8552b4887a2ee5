//! The request handlers: the external call surface, one thin operation
//! per call, each translating into a record-store operation and shaping
//! the result or error for the caller.

use crate::capsule::Error;
use crate::capsule::TimeCapsule;
use crate::capsule::TimeCapsulePayload;
use crate::capsule::error_msg;
use crate::store::Store;
use crate::store::count_matching;
use crate::store::is_listing;
use crate::store::is_listing_before;
use crate::text::msg_delete_not_found;
use crate::text::msg_get_not_found;
use crate::text::msg_update_date_not_found;
use crate::text::msg_update_not_found;
use vstd::prelude::*;

verus! {

/// Returns the capsule stored under `id`, or NotFound.
pub fn get_time_capsule(s: &Store, id: u64) -> (r: Result<TimeCapsule, Error>)
    requires
        s.wf(),
    ensures
        s.capsules().contains_key(id) ==> (r matches Ok(c) && c.id == id && c.content@
            == s.capsules()[id].0 && c.unlock_date == s.capsules()[id].1),
        !s.capsules().contains_key(id) ==> (r matches Err(e) && error_msg(e) == msg_get_not_found(
            id,
        )),
{
    s.get(id)
}

/// Creates a capsule from the payload, assigning the next ID; creation
/// cannot fail at the business level, so the result is always the new
/// capsule.
pub fn add_time_capsule(s: &mut Store, item: TimeCapsulePayload) -> (r: Option<TimeCapsule>)
    requires
        old(s).wf(),
        old(s).next_counter() < u64::MAX,
    ensures
        final(s).wf(),
        r matches Some(c) && c.id == old(s).next_counter() + 1 && c.content@ == item.content@
            && c.unlock_date == item.unlock_date && final(s).next_counter() == c.id && final(s).capsules() == old(s).capsules().insert(c.id, (item.content@, item.unlock_date)),
{
    Some(s.create(item.content, item.unlock_date))
}

/// Replaces the content and unlock date of the capsule under `id`, or
/// NotFound.
pub fn update_time_capsule(s: &mut Store, id: u64, item: TimeCapsulePayload) -> (r: Result<
    TimeCapsule,
    Error,
>)
    requires
        old(s).wf(),
    ensures
        final(s).wf(),
        final(s).next_counter() == old(s).next_counter(),
        old(s).capsules().contains_key(id) ==> (r matches Ok(c) && c.id == id && c.content@
            == item.content@ && c.unlock_date == item.unlock_date && final(s).capsules() == old(s).capsules().insert(id, (item.content@, item.unlock_date))),
        !old(s).capsules().contains_key(id) ==> (r matches Err(e) && error_msg(e)
            == msg_update_not_found(id) && final(s).capsules() == old(s).capsules()),
{
    s.update(id, item.content, item.unlock_date)
}

/// Removes the capsule under `id`, returning it, or NotFound.
pub fn delete_time_capsule(s: &mut Store, id: u64) -> (r: Result<TimeCapsule, Error>)
    requires
        old(s).wf(),
    ensures
        final(s).wf(),
        final(s).next_counter() == old(s).next_counter(),
        old(s).capsules().contains_key(id) ==> (r matches Ok(c) && c.id == id && c.content@ == old(s).capsules()[id].0 && c.unlock_date == old(s).capsules()[id].1 && final(s).capsules()
            == old(s).capsules().remove(id)),
        !old(s).capsules().contains_key(id) ==> (r matches Err(e) && error_msg(e)
            == msg_delete_not_found(id) && final(s).capsules() == old(s).capsules()),
{
    s.delete(id)
}

/// Replaces only the unlock date of the capsule under `id`, or NotFound.
pub fn update_unlock_date(s: &mut Store, id: u64, new_unlock_date: u64) -> (r: Result<
    TimeCapsule,
    Error,
>)
    requires
        old(s).wf(),
    ensures
        final(s).wf(),
        final(s).next_counter() == old(s).next_counter(),
        old(s).capsules().contains_key(id) ==> (r matches Ok(c) && c.id == id && c.content@ == old(s).capsules()[id].0 && c.unlock_date == new_unlock_date && final(s).capsules() == old(s).capsules().insert(id, (old(s).capsules()[id].0, new_unlock_date))),
        !old(s).capsules().contains_key(id) ==> (r matches Err(e) && error_msg(e)
            == msg_update_date_not_found(id) && final(s).capsules() == old(s).capsules()),
{
    s.update_unlock_date(id, new_unlock_date)
}

/// Returns every capsule whose unlock date is at most `unlock_date`, in
/// ascending ID order.
pub fn get_time_capsules_before_date(s: &Store, unlock_date: u64) -> (r: Vec<TimeCapsule>)
    requires
        s.wf(),
    ensures
        is_listing_before(s.capsules(), unlock_date, r@),
{
    s.list_before(unlock_date)
}

/// Returns every capsule currently stored, in ascending ID order.
pub fn get_all_time_capsules(s: &Store) -> (r: Vec<TimeCapsule>)
    requires
        s.wf(),
    ensures
        is_listing(s.capsules(), r@),
{
    s.list_all()
}

/// Returns the total number of capsules currently stored.
pub fn get_total_time_capsules(s: &Store) -> (n: u64)
    requires
        s.wf(),
    ensures
        n as nat == s.capsules().dom().len(),
{
    s.count_all()
}

/// Returns the number of capsules whose unlock date is at most
/// `unlock_date`.
pub fn get_time_capsules_count_before_date(s: &Store, unlock_date: u64) -> (n: usize)
    requires
        s.wf(),
    ensures
        n as nat == count_matching(s.capsules(), unlock_date),
{
    s.count_before(unlock_date)
}

} // verus!
