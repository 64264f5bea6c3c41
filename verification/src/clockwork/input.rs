//! The inputs that one participant sends for one input sequence.

use vstd::prelude::*;
use crate::clockwork::ids::ConnectionID;
use crate::clockwork::traits::Input;

verus! {

/// Wrapper type around `Input`, representing the complete remote input.
#[derive(Debug)]
pub struct RemoteInput<I> {
    /// Unique ID of the client this input belongs to.
    pub id: ConnectionID,
    /// Input state of the client.
    pub data: Vec<I>,
    /// Sequence number of the input.
    pub sequence: u8,
}

impl<I> RemoteInput<I> where I: Input {
    /// The inputs of `id` for `sequence`.
    pub fn new(id: ConnectionID, sequence: u8, input: Vec<I>) -> (r: Self)
        ensures
            r.id == id,
            r.sequence == sequence,
            r.data == input,
    {
        Self { id, sequence, data: input }
    }
}

} // verus!
