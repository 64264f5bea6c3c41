//! What an application supplies: its options, its inputs and its state.
//!
//! The protocol never looks inside these payloads. It moves them as bytes
//! that the application's own codec writes and reads, and it drives the
//! state through the calls below. Nothing is assumed of what an
//! implementation gives back: whatever depends on it is decided by functions
//! that take the outcome as an argument.

use vstd::prelude::*;
use crate::clockwork::ids::{ConnectionID, HostID};
use crate::clockwork::connection::RemoteAddr;
use crate::clockwork::options::RemoteOptions;
use crate::clockwork::input::RemoteInput;

verus! {

/// A trait for the implementation of the initial game options.
pub trait Options: Sized {
    /// Writes the options of one participant as bytes.
    fn encode(options: &RemoteOptions<Self>) -> Option<Vec<u8>>;

    /// Reads the options of one participant from bytes.
    fn decode(bytes: &[u8]) -> Option<RemoteOptions<Self>>;

    /// A hash of what the options hold.
    fn content_hash(&self) -> u64;
}

/// A trait for the implementation of the game inputs.
pub trait Input: Copy {
    /// Writes the inputs of one participant as bytes.
    fn encode(input: &RemoteInput<Self>) -> Option<Vec<u8>>;

    /// Reads the inputs of one participant from bytes.
    fn decode(bytes: &[u8]) -> Option<RemoteInput<Self>>;
}

/// A trait for the implementation of the overall game state.
pub trait State<O, I, R>: Sized {
    fn is_ready(&self) -> bool;

    fn init(&mut self, host: HostID, roster: &[(ConnectionID, RemoteAddr)], refs: &mut R);

    fn tick(&mut self, host: HostID, roster: &[(ConnectionID, RemoteAddr)]);

    fn apply_options(&mut self, host: HostID, options: &[(ConnectionID, O)]);

    fn apply_input(&mut self, host: HostID, sender: ConnectionID, input: I);
}

} // verus!
