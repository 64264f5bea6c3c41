//! The tick states of both sides and their codes on the wire.

use vstd::prelude::*;

verus! {

/// Client Tick States
#[derive(Debug, PartialEq, Eq, Structural, Hash, Copy, Clone)]
pub enum ClientTick {
    WaitForServer,
    SendOptions,
    Ready,
    SyncConfirm,
    SendInput,
    Unknown,
}

/// Server Tick States
#[derive(Debug, PartialEq, Eq, Structural, Hash, Copy, Clone)]
pub enum ServerTick {
    WaitForClients,
    AwaitOptions,
    ConfirmOptions,
    Migrate,
    Initialize,
    InitializeMigrate,
    AwaitInput,
    Unknown,
}

impl ClientTick {
    /// The byte that stands for this tick on the wire.
    pub open spec fn code(self) -> u8 {
        match self {
            ClientTick::WaitForServer => 0,
            ClientTick::SendOptions => 1,
            ClientTick::Ready => 2,
            ClientTick::SyncConfirm => 3,
            ClientTick::SendInput => 4,
            ClientTick::Unknown => 255,
        }
    }

    /// The tick that a byte on the wire stands for; every byte without a
    /// meaning stands for `Unknown`.
    pub open spec fn of_code(value: u8) -> ClientTick {
        if value == 0 {
            ClientTick::WaitForServer
        } else if value == 1 {
            ClientTick::SendOptions
        } else if value == 2 {
            ClientTick::Ready
        } else if value == 3 {
            ClientTick::SyncConfirm
        } else if value == 4 {
            ClientTick::SendInput
        } else {
            ClientTick::Unknown
        }
    }

    /// The tick that a byte on the wire stands for.
    pub fn from_u8(value: u8) -> (r: Self)
        ensures
            r == Self::of_code(value),
    {
        match value {
            0 => ClientTick::WaitForServer,
            1 => ClientTick::SendOptions,
            2 => ClientTick::Ready,
            3 => ClientTick::SyncConfirm,
            4 => ClientTick::SendInput,
            _ => ClientTick::Unknown,
        }
    }

    /// The byte that stands for the tick on the wire.
    pub fn to_u8(self) -> (r: u8)
        ensures
            r == self.code(),
    {
        match self {
            ClientTick::WaitForServer => 0,
            ClientTick::SendOptions => 1,
            ClientTick::Ready => 2,
            ClientTick::SyncConfirm => 3,
            ClientTick::SendInput => 4,
            ClientTick::Unknown => 255,
        }
    }

    /// Every tick survives the trip over the wire.
    pub proof fn code_round_trip(tick: ClientTick)
        ensures
            Self::of_code(tick.code()) == tick,
    {
    }

    /// A byte decodes to a known tick exactly when it is that tick's code.
    pub proof fn known_codes_are_stable(value: u8)
        ensures
            Self::of_code(value) != ClientTick::Unknown ==> Self::of_code(value).code() == value,
            Self::of_code(value) == ClientTick::Unknown <==> value > 4,
    {
    }
}

impl Default for ClientTick {
    fn default() -> (r: Self)
        ensures
            r == ClientTick::WaitForServer,
    {
        ClientTick::WaitForServer
    }
}

impl ServerTick {
    /// The byte that stands for this tick on the wire.
    pub open spec fn code(self) -> u8 {
        match self {
            ServerTick::WaitForClients => 0,
            ServerTick::AwaitOptions => 1,
            ServerTick::ConfirmOptions => 2,
            ServerTick::Migrate => 3,
            ServerTick::Initialize => 4,
            ServerTick::InitializeMigrate => 5,
            ServerTick::AwaitInput => 6,
            ServerTick::Unknown => 255,
        }
    }

    /// The tick that a byte on the wire stands for; every byte without a
    /// meaning stands for `Unknown`.
    pub open spec fn of_code(value: u8) -> ServerTick {
        if value == 0 {
            ServerTick::WaitForClients
        } else if value == 1 {
            ServerTick::AwaitOptions
        } else if value == 2 {
            ServerTick::ConfirmOptions
        } else if value == 3 {
            ServerTick::Migrate
        } else if value == 4 {
            ServerTick::Initialize
        } else if value == 5 {
            ServerTick::InitializeMigrate
        } else if value == 6 {
            ServerTick::AwaitInput
        } else {
            ServerTick::Unknown
        }
    }

    /// The tick that a byte on the wire stands for.
    pub fn from_u8(value: u8) -> (r: Self)
        ensures
            r == Self::of_code(value),
    {
        match value {
            0 => ServerTick::WaitForClients,
            1 => ServerTick::AwaitOptions,
            2 => ServerTick::ConfirmOptions,
            3 => ServerTick::Migrate,
            4 => ServerTick::Initialize,
            5 => ServerTick::InitializeMigrate,
            6 => ServerTick::AwaitInput,
            _ => ServerTick::Unknown,
        }
    }

    /// The byte that stands for the tick on the wire.
    pub fn to_u8(self) -> (r: u8)
        ensures
            r == self.code(),
    {
        match self {
            ServerTick::WaitForClients => 0,
            ServerTick::AwaitOptions => 1,
            ServerTick::ConfirmOptions => 2,
            ServerTick::Migrate => 3,
            ServerTick::Initialize => 4,
            ServerTick::InitializeMigrate => 5,
            ServerTick::AwaitInput => 6,
            ServerTick::Unknown => 255,
        }
    }

    /// How far a remote has come; the aggregate tick of a server is the
    /// lowest rank among its remotes.
    pub open spec fn rank(self) -> int {
        match self {
            ServerTick::WaitForClients => 0,
            ServerTick::AwaitOptions => 1,
            ServerTick::ConfirmOptions => 2,
            ServerTick::Migrate => 3,
            ServerTick::Initialize => 4,
            ServerTick::InitializeMigrate => 5,
            ServerTick::AwaitInput => 6,
            ServerTick::Unknown => 7,
        }
    }

    /// Whether this tick comes before `other` in the order of the states.
    pub fn precedes(self, other: ServerTick) -> (r: bool)
        ensures
            r == (self.rank() < other.rank()),
    {
        self.position() < other.position()
    }

    fn position(self) -> (r: u8)
        ensures
            r == self.rank(),
    {
        match self {
            ServerTick::WaitForClients => 0,
            ServerTick::AwaitOptions => 1,
            ServerTick::ConfirmOptions => 2,
            ServerTick::Migrate => 3,
            ServerTick::Initialize => 4,
            ServerTick::InitializeMigrate => 5,
            ServerTick::AwaitInput => 6,
            ServerTick::Unknown => 7,
        }
    }

    /// Every tick survives the trip over the wire.
    pub proof fn code_round_trip(tick: ServerTick)
        ensures
            Self::of_code(tick.code()) == tick,
    {
    }

    /// A byte decodes to a known tick exactly when it is that tick's code.
    pub proof fn known_codes_are_stable(value: u8)
        ensures
            Self::of_code(value) != ServerTick::Unknown ==> Self::of_code(value).code() == value,
            Self::of_code(value) == ServerTick::Unknown <==> value > 6,
    {
    }
}

impl Default for ServerTick {
    fn default() -> (r: Self)
        ensures
            r == ServerTick::WaitForClients,
    {
        ServerTick::WaitForClients
    }
}

} // verus!
