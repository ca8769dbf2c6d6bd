//! Refreshes of the editor's remote lists that a page may ask for.
use vstd::prelude::*;

verus! {

/// A list to fetch again from the server.
#[derive(Debug, Clone, Copy, PartialEq, Eq, Structural)]
pub enum QueueRefresh {
    Assets,
    Categories,
}

/// The refresh asked for, if any, leaving none asked for.
pub fn take_queued_refresh(queued: &mut Option<QueueRefresh>) -> (r: Option<QueueRefresh>)
    ensures
        r == *old(queued),
        *final(queued) is None,
{
    queued.take()
}

} // verus!
