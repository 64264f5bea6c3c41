//! The session options that one participant proposes.

use vstd::prelude::*;
use crate::clockwork::ids::ConnectionID;
use crate::clockwork::traits::Options;

verus! {

/// Wrapper type around `Options`, as it travels between the participants.
#[derive(Debug)]
pub struct RemoteOptions<O> {
    /// Unique ID of the client these options belong to.
    pub id: ConnectionID,
    /// Options of the client.
    pub data: O,
}

impl<O> RemoteOptions<O> where O: Options {
    /// The options of `id`.
    pub fn new(id: ConnectionID, options: O) -> (r: Self)
        ensures
            r.id == id,
            r.data == options,
    {
        Self { id, data: options }
    }
}

} // verus!
