//! The slab of active transfers.
use crate::slab_model::SlabModel;
use slab::Slab;
use vstd::prelude::*;

verus! {

/// The address of a curl easy handle, which stands for the transfer.
pub type EasyHandle = usize;

/// The occupied keys of a slab of transfers, with the transfer under each.
pub uninterp spec fn request_entries(requests: Slab<EasyHandle>) -> Map<usize, EasyHandle>;

/// The keys of a slab of transfers that were handed out and are free again, in
/// the order in which they stand in its list of vacant entries, the head of
/// that list last.
pub uninterp spec fn request_vacant(requests: Slab<EasyHandle>) -> Seq<usize>;

/// The model of a slab of transfers.
pub open spec fn request_model(requests: Slab<EasyHandle>) -> SlabModel<EasyHandle> {
    SlabModel { entries: request_entries(requests), vacant: request_vacant(requests) }
}

/// Calls `slab::Slab::new`: the new slab holds nothing and has no vacated key.
#[verifier::external_body]
pub(crate) fn requests_new() -> (requests: Slab<EasyHandle>)
    ensures
        request_model(requests).is_empty(),
        request_vacant(requests) == Seq::<usize>::empty(),
{
    Slab::new()
}

/// Calls `slab::Slab::vacant_key`: the key that the next insertion gets.
#[verifier::external_body]
pub(crate) fn requests_vacant_key(requests: &Slab<EasyHandle>) -> (key: usize)
    ensures
        key == request_model(*requests).next_key(),
{
    requests.vacant_key()
}

/// Calls `slab::Slab::insert`: the value goes under the key at the head of the
/// list of vacant entries, or under a new key where that list is empty.
#[verifier::external_body]
pub(crate) fn requests_insert(requests: &mut Slab<EasyHandle>, handle: EasyHandle) -> (key: usize)
    ensures
        key == request_model(*old(requests)).next_key(),
        request_model(*final(requests)) == request_model(*old(requests)).insert(handle),
{
    requests.insert(handle)
}

/// Calls `slab::Slab::remove`, which panics on a key that is not occupied: hands
/// out the value, and puts the key at the head of the list of vacant entries.
#[verifier::external_body]
pub(crate) fn requests_remove(requests: &mut Slab<EasyHandle>, key: usize) -> (handle: EasyHandle)
    requires
        request_entries(*old(requests)).contains_key(key),
    ensures
        handle == request_entries(*old(requests))[key],
        request_model(*final(requests)) == request_model(*old(requests)).remove(key),
{
    requests.remove(key)
}

/// Calls `slab::Slab::get`: the value under an occupied key, `None` for any other.
#[verifier::external_body]
pub(crate) fn requests_get(requests: &Slab<EasyHandle>, key: usize) -> (handle: Option<&EasyHandle>)
    ensures
        handle is Some <==> request_entries(*requests).contains_key(key),
        handle is Some ==> *handle->0 == request_entries(*requests)[key],
{
    requests.get(key)
}

/// Calls `slab::Slab::is_empty`: whether no key is occupied.
#[verifier::external_body]
pub(crate) fn requests_is_empty(requests: &Slab<EasyHandle>) -> (empty: bool)
    ensures
        empty <==> request_model(*requests).is_empty(),
{
    requests.is_empty()
}

/// Calls `slab::Slab::clear`: drops all values and forgets all keys.
#[verifier::external_body]
pub(crate) fn requests_clear(requests: &mut Slab<EasyHandle>)
    ensures
        request_model(*final(requests)) == SlabModel::<EasyHandle>::empty(),
{
    requests.clear()
}

} // verus!
