//! The slab of sockets that are watched on curl's behalf.
use crate::slab_model::SlabModel;
use slab::Slab;
use vstd::prelude::*;

verus! {

/// A socket handle, as a number that is wide enough on every platform.
pub type Socket = i64;

/// What is kept about a socket that is watched on curl's behalf.
#[derive(Debug, Clone, Copy, PartialEq, Eq, Structural)]
pub struct SocketContext {
    /// The socket handle.
    pub socket: Socket,
    /// Whether curl is interested in readable events.
    pub readable: bool,
    /// Whether curl is interested in writable events.
    pub writable: bool,
}

/// The occupied keys of a slab of sockets, with the context under each.
pub uninterp spec fn socket_entries(sockets: Slab<SocketContext>) -> Map<usize, SocketContext>;

/// The keys of a slab of sockets that were handed out and are free again, in
/// the order in which they stand in its list of vacant entries, the head of
/// that list last.
pub uninterp spec fn socket_vacant(sockets: Slab<SocketContext>) -> Seq<usize>;

/// The model of a slab of sockets.
pub open spec fn socket_model(sockets: Slab<SocketContext>) -> SlabModel<SocketContext> {
    SlabModel { entries: socket_entries(sockets), vacant: socket_vacant(sockets) }
}

/// Calls `slab::Slab::new`: the new slab holds nothing and has no vacated key.
#[verifier::external_body]
pub(crate) fn sockets_new() -> (sockets: Slab<SocketContext>)
    ensures
        socket_model(sockets).is_empty(),
        socket_vacant(sockets) == Seq::<usize>::empty(),
{
    Slab::new()
}

/// Calls `slab::Slab::insert`: the value goes under the key at the head of the
/// list of vacant entries, or under a new key where that list is empty. A key
/// is an index into a vector of entries of at least one byte each, so it is
/// smaller than the greatest `usize`.
#[verifier::external_body]
pub(crate) fn sockets_insert(sockets: &mut Slab<SocketContext>, context: SocketContext) -> (key:
    usize)
    ensures
        key == socket_model(*old(sockets)).next_key(),
        key < usize::MAX,
        socket_model(*final(sockets)) == socket_model(*old(sockets)).insert(context),
{
    sockets.insert(context)
}

/// Calls `slab::Slab::remove`, which panics on a key that is not occupied: hands
/// out the value, and puts the key at the head of the list of vacant entries.
#[verifier::external_body]
pub(crate) fn sockets_remove(sockets: &mut Slab<SocketContext>, key: usize) -> (context:
    SocketContext)
    requires
        socket_entries(*old(sockets)).contains_key(key),
    ensures
        context == socket_entries(*old(sockets))[key],
        socket_model(*final(sockets)) == socket_model(*old(sockets)).remove(key),
{
    sockets.remove(key)
}

/// Calls `slab::Slab::get`: the value under an occupied key, `None` for any other.
#[verifier::external_body]
pub(crate) fn sockets_get(sockets: &Slab<SocketContext>, key: usize) -> (context: Option<
    &SocketContext,
>)
    ensures
        context is Some <==> socket_entries(*sockets).contains_key(key),
        context is Some ==> *context->0 == socket_entries(*sockets)[key],
{
    sockets.get(key)
}

/// Calls `slab::Slab::get_mut`: a reference to the value under an occupied key,
/// through which only that value can change; `None` for any other key.
#[verifier::external_body]
pub(crate) fn sockets_get_mut(sockets: &mut Slab<SocketContext>, key: usize) -> (context: Option<
    &mut SocketContext,
>)
    ensures
        match context {
            Some(found) => socket_entries(*old(sockets)).contains_key(key) && *found
                == socket_entries(*old(sockets))[key] && socket_model(*final(sockets))
                == socket_model(*old(sockets)).update(key, *final(found)),
            None => !socket_entries(*old(sockets)).contains_key(key) && socket_model(
                *final(sockets),
            ) == socket_model(*old(sockets)),
        },
{
    sockets.get_mut(key)
}

} // verus!
