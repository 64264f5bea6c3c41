//! The payloads of the game: the options of a session and the commands of
//! the players, with the bytes that they travel as.

use std::collections::hash_map::DefaultHasher;
use std::hash::Hasher;
use vstd::prelude::*;
use vstd::std_specs::hash::DefaultHasherAdditionalSpecFns;
use crate::clockwork::ids::{ConnectionID, HostID};
use crate::clockwork::input::RemoteInput;
use crate::clockwork::options::RemoteOptions;
use crate::clockwork::traits::{Input, Options};

verus! {

/// What a player can ask for in one simulation step.
#[derive(Debug, PartialEq, Eq, Structural, Copy, Clone)]
pub enum GameInput {
    /// A click on the tile in this column and row.
    LeftClick(u8, u8),
    Idle,
}

impl Default for GameInput {
    fn default() -> (r: Self)
        ensures
            r == GameInput::Idle,
    {
        GameInput::Idle
    }
}

/// The options of a session.
#[derive(Debug, PartialEq, Eq, Copy, Clone)]
pub struct GameOptions {
    /// The number of players that the session waits for.
    pub min_players: u8,
    /// The seed of the random numbers that all players share.
    pub random_seed: [u8; 4],
}

impl Default for GameOptions {
    fn default() -> (r: Self)
        ensures
            r.min_players == 3,
            r.random_seed@ == seq![0u8, 0u8, 0u8, 0u8],
    {
        let r = GameOptions { min_players: 3, random_seed: [0, 0, 0, 0] };
        assert(r.random_seed@ =~= seq![0u8, 0u8, 0u8, 0u8]);
        r
    }
}

/// The bytes that bincode writes for the options of one participant, given
/// as its fields: identifier, number of players and seed.
pub uninterp spec fn bincode_options(id: u32, min_players: u8, seed: Seq<u8>) -> Option<Seq<u8>>;

/// The options of one participant that bincode reads from a byte string, as
/// their fields, where it reads any.
pub uninterp spec fn bincode_options_parsed(bytes: Seq<u8>) -> Option<(u32, u8, Seq<u8>)>;

/// The bytes that bincode writes for the inputs of one participant, given
/// as its fields: identifier, the clicks in their order, with nothing for an
/// idle step, and sequence.
pub uninterp spec fn bincode_inputs(id: u32, clicks: Seq<Option<(u8, u8)>>, sequence: u8) -> Option<Seq<u8>>;

/// The inputs of one participant that bincode reads from a byte string, as
/// their fields, where it reads any.
pub uninterp spec fn bincode_inputs_parsed(bytes: Seq<u8>) -> Option<(u32, Seq<Option<(u8, u8)>>, u8)>;

/// Calls `bincode::serialize` without a size limit on the fields of an
/// options record in their order of declaration. The result is named by
/// `bincode_options`; what was written reads back as the same fields, as
/// bincode promises of its two functions.
#[verifier::external_body]
fn bincode_write_options(id: u32, min_players: u8, seed: [u8; 4]) -> (r: Option<Vec<u8>>)
    ensures
        r.is_some() == bincode_options(id, min_players, seed@).is_some(),
        r matches Some(bytes) ==> bincode_options(id, min_players, seed@) == Some(bytes@)
            && bincode_options_parsed(bytes@) == Some((id, min_players, seed@)),
{
    bincode::serialize(&(id, min_players, seed), bincode::Infinite).ok()
}

/// Calls `bincode::deserialize` for the fields of an options record. The
/// result is named by `bincode_options_parsed`.
#[verifier::external_body]
fn bincode_read_options(bytes: &[u8]) -> (r: Option<(u32, u8, [u8; 4])>)
    ensures
        r.is_some() == bincode_options_parsed(bytes@).is_some(),
        r matches Some(f) ==> bincode_options_parsed(bytes@) == Some((f.0, f.1, f.2@)),
{
    bincode::deserialize::<(u32, u8, [u8; 4])>(bytes).ok()
}

/// Calls `bincode::serialize` without a size limit on the fields of an
/// input record in their order of declaration. The result is named by
/// `bincode_inputs`; what was written reads back as the same fields, as
/// bincode promises of its two functions.
#[verifier::external_body]
fn bincode_write_inputs(id: u32, clicks: &Vec<Option<(u8, u8)>>, sequence: u8) -> (r: Option<Vec<u8>>)
    ensures
        r.is_some() == bincode_inputs(id, clicks@, sequence).is_some(),
        r matches Some(bytes) ==> bincode_inputs(id, clicks@, sequence) == Some(bytes@)
            && bincode_inputs_parsed(bytes@) == Some((id, clicks@, sequence)),
{
    bincode::serialize(&(id, clicks, sequence), bincode::Infinite).ok()
}

/// Calls `bincode::deserialize` for the fields of an input record. The
/// result is named by `bincode_inputs_parsed`.
#[verifier::external_body]
fn bincode_read_inputs(bytes: &[u8]) -> (r: Option<(u32, Vec<Option<(u8, u8)>>, u8)>)
    ensures
        r.is_some() == bincode_inputs_parsed(bytes@).is_some(),
        r matches Some(f) ==> bincode_inputs_parsed(bytes@) == Some((f.0, f.1@, f.2)),
{
    bincode::deserialize::<(u32, Vec<Option<(u8, u8)>>, u8)>(bytes).ok()
}

impl GameInput {
    /// The click that the input stands for, if it is one.
    pub open spec fn click(self) -> Option<(u8, u8)> {
        match self {
            GameInput::LeftClick(x, y) => Some((x, y)),
            GameInput::Idle => None,
        }
    }

    /// The input that a click, or none, stands for.
    pub open spec fn of_click(click: Option<(u8, u8)>) -> GameInput {
        match click {
            Some((x, y)) => GameInput::LeftClick(x, y),
            None => GameInput::Idle,
        }
    }

    /// The clicks of the inputs, in their order.
    pub open spec fn clicks(inputs: Seq<GameInput>) -> Seq<Option<(u8, u8)>> {
        Seq::new(inputs.len(), |k: int| inputs[k].click())
    }

    /// The inputs of the clicks, in their order.
    pub open spec fn of_clicks(clicks: Seq<Option<(u8, u8)>>) -> Seq<GameInput> {
        Seq::new(clicks.len(), |k: int| Self::of_click(clicks[k]))
    }

    /// The bytes of the inputs of one participant.
    pub open spec fn encoded(id: ConnectionID, inputs: Seq<GameInput>, sequence: u8) -> Option<Seq<u8>> {
        bincode_inputs(id@, Self::clicks(inputs), sequence)
    }

    /// Encodes the inputs of one participant. What comes out decodes to the
    /// same inputs.
    pub fn encode_record(input: &RemoteInput<GameInput>) -> (r: Option<Vec<u8>>)
        ensures
            r.is_some() == Self::encoded(input.id, input.data@, input.sequence).is_some(),
            r matches Some(bytes) ==> Self::encoded(input.id, input.data@, input.sequence) == Some(
                bytes@,
            ) && bincode_inputs_parsed(bytes@) == Some(
                (input.id@, Self::clicks(input.data@), input.sequence),
            ),
    {
        let mut clicks: Vec<Option<(u8, u8)>> = Vec::with_capacity(input.data.len());
        let mut k: usize = 0;
        while k < input.data.len()
            invariant
                k <= input.data@.len(),
                clicks@ == Self::clicks(input.data@).take(k as int),
            decreases input.data@.len() - k,
        {
            let click = match input.data[k] {
                GameInput::LeftClick(x, y) => Some((x, y)),
                GameInput::Idle => None,
            };
            clicks.push(click);
            assert(clicks@ =~= Self::clicks(input.data@).take(k + 1));
            k += 1;
        }
        assert(Self::clicks(input.data@).take(k as int) =~= Self::clicks(input.data@));
        bincode_write_inputs(input.id.raw(), &clicks, input.sequence)
    }

    /// Decodes the inputs of one participant.
    pub fn decode_record(bytes: &[u8]) -> (r: Option<RemoteInput<GameInput>>)
        ensures
            r.is_some() == bincode_inputs_parsed(bytes@).is_some(),
            r matches Some(input) ==> ({
                let (id, clicks, sequence) = bincode_inputs_parsed(bytes@)->0;
                &&& input.id@ == id
                &&& input.data@ == Self::of_clicks(clicks)
                &&& input.sequence == sequence
            }),
    {
        match bincode_read_inputs(bytes) {
            Some((id, clicks, sequence)) => {
                let mut data: Vec<GameInput> = Vec::with_capacity(clicks.len());
                let mut k: usize = 0;
                while k < clicks.len()
                    invariant
                        k <= clicks@.len(),
                        data@ == Self::of_clicks(clicks@).take(k as int),
                    decreases clicks@.len() - k,
                {
                    let input = match clicks[k] {
                        Some((x, y)) => GameInput::LeftClick(x, y),
                        None => GameInput::Idle,
                    };
                    data.push(input);
                    assert(data@ =~= Self::of_clicks(clicks@).take(k + 1));
                    k += 1;
                }
                assert(Self::of_clicks(clicks@).take(k as int) =~= Self::of_clicks(clicks@));
                Some(RemoteInput { id: ConnectionID::new(id), sequence, data })
            },
            None => None,
        }
    }

    /// Every input is the input of its click: no input is lost on the way
    /// to bytes and back.
    pub proof fn clicks_keep_inputs(inputs: Seq<GameInput>)
        ensures
            Self::of_clicks(Self::clicks(inputs)) == inputs,
    {
        assert(Self::of_clicks(Self::clicks(inputs)) =~= inputs);
    }
}

impl Input for GameInput {
    /// Writes the inputs of one participant as bincode writes its
    /// identifier, its clicks and its sequence.
    fn encode(input: &RemoteInput<Self>) -> (r: Option<Vec<u8>>)
        ensures
            r.is_some() == GameInput::encoded(input.id, input.data@, input.sequence).is_some(),
            r matches Some(bytes) ==> GameInput::encoded(input.id, input.data@, input.sequence)
                == Some(bytes@) && bincode_inputs_parsed(bytes@) == Some(
                (input.id@, GameInput::clicks(input.data@), input.sequence),
            ),
    {
        GameInput::encode_record(input)
    }

    /// Reads the inputs of one participant where bincode reads an
    /// identifier, clicks and a sequence.
    fn decode(bytes: &[u8]) -> (r: Option<RemoteInput<Self>>)
        ensures
            r.is_some() == bincode_inputs_parsed(bytes@).is_some(),
            r matches Some(input) ==> ({
                let (id, clicks, sequence) = bincode_inputs_parsed(bytes@)->0;
                &&& input.id@ == id
                &&& input.data@ == GameInput::of_clicks(clicks)
                &&& input.sequence == sequence
            }),
    {
        GameInput::decode_record(bytes)
    }
}

impl GameOptions {
    /// The bytes of the options of one participant.
    pub open spec fn encoded(options: RemoteOptions<GameOptions>) -> Option<Seq<u8>> {
        bincode_options(options.id@, options.data.min_players, options.data.random_seed@)
    }

    /// What is hashed of the options: the number of players, then the seed.
    pub open spec fn hashed(self) -> Seq<Seq<u8>> {
        seq![seq![self.min_players], self.random_seed@]
    }

    /// Encodes the options of one participant. What comes out decodes to
    /// the same options.
    pub fn encode_record(options: &RemoteOptions<GameOptions>) -> (r: Option<Vec<u8>>)
        ensures
            r.is_some() == Self::encoded(*options).is_some(),
            r matches Some(bytes) ==> Self::encoded(*options) == Some(bytes@)
                && bincode_options_parsed(bytes@) == Some(
                (options.id@, options.data.min_players, options.data.random_seed@),
            ),
    {
        bincode_write_options(options.id.raw(), options.data.min_players, options.data.random_seed)
    }

    /// Decodes the options of one participant.
    pub fn decode_record(bytes: &[u8]) -> (r: Option<RemoteOptions<GameOptions>>)
        ensures
            r.is_some() == bincode_options_parsed(bytes@).is_some(),
            r matches Some(options) ==> bincode_options_parsed(bytes@) == Some(
                (options.id@, options.data.min_players, options.data.random_seed@),
            ),
    {
        match bincode_read_options(bytes) {
            Some((id, min_players, random_seed)) => Some(
                RemoteOptions {
                    id: ConnectionID::new(id),
                    data: GameOptions { min_players, random_seed },
                },
            ),
            None => None,
        }
    }

    /// A hash of the number of players and the seed.
    pub fn hash(&self) -> (r: u64)
        ensures
            r == DefaultHasher::spec_finish(self.hashed()),
    {
        let mut hasher = DefaultHasher::new();
        let players = [self.min_players];
        hasher.write(players.as_slice());
        hasher.write(self.random_seed.as_slice());
        assert(players@ =~= seq![self.min_players]);
        assert(hasher@ =~= self.hashed());
        hasher.finish()
    }
}

impl GameOptions {
    /// Whether the options at a place are those by which the session
    /// starts: they are the host's, and as many participants have sent
    /// options as the host waits for.
    pub open spec fn starts_at(host: HostID, options: Seq<(ConnectionID, GameOptions)>, k: int) -> bool {
        options[k].0@ == host@ && options.len() == options[k].1.min_players
    }

    /// The options by which the session starts, if the host has sent its
    /// options and as many participants have sent theirs as the host waits
    /// for.
    pub fn accepted(host: HostID, options: &[(ConnectionID, GameOptions)]) -> (r: Option<GameOptions>)
        ensures
            r is Some <==> exists|k: int|
                0 <= k < options@.len() && Self::starts_at(host, options@, k),
            r matches Some(taken) ==> exists|k: int|
                0 <= k < options@.len() && Self::starts_at(host, options@, k) && taken
                    == options@[k].1 && forall|j: int|
                    0 <= j < k ==> !Self::starts_at(host, options@, j),
    {
        let mut k: usize = 0;
        while k < options.len()
            invariant
                k <= options@.len(),
                forall|j: int| 0 <= j < k ==> !Self::starts_at(host, options@, j),
            decreases options@.len() - k,
        {
            if host.is_connection(&options[k].0) && options.len() == options[k].1.min_players as usize {
                assert(Self::starts_at(host, options@, k as int));
                return Some(options[k].1);
            }
            k += 1;
        }
        None
    }
}

impl Options for GameOptions {
    /// Writes the options of one participant as bincode writes its
    /// identifier, the number of players and the seed.
    fn encode(options: &RemoteOptions<Self>) -> (r: Option<Vec<u8>>)
        ensures
            r.is_some() == GameOptions::encoded(*options).is_some(),
            r matches Some(bytes) ==> GameOptions::encoded(*options) == Some(bytes@)
                && bincode_options_parsed(bytes@) == Some(
                (options.id@, options.data.min_players, options.data.random_seed@),
            ),
    {
        GameOptions::encode_record(options)
    }

    /// Reads the options of one participant where bincode reads an
    /// identifier, a number of players and a seed.
    fn decode(bytes: &[u8]) -> (r: Option<RemoteOptions<Self>>)
        ensures
            r.is_some() == bincode_options_parsed(bytes@).is_some(),
            r matches Some(options) ==> bincode_options_parsed(bytes@) == Some(
                (options.id@, options.data.min_players, options.data.random_seed@),
            ),
    {
        GameOptions::decode_record(bytes)
    }

    /// The hash of the number of players and the seed.
    fn content_hash(&self) -> (r: u64)
        ensures
            r == DefaultHasher::spec_finish(self.hashed()),
    {
        self.hash()
    }
}

} // verus!
