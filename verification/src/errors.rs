use vstd::prelude::*;

verus! {

/// The recognized option names of `modify_game_options`.
#[derive(Clone, Copy, Debug, PartialEq, Eq, Structural)]
pub enum OptionKey {
    RoomName,
    MapId,
    MaxPlayers,
    GameSpeed,
    MapWidth,
    MapHeight,
    Mountain,
    City,
    Swamp,
    FogOfWar,
    DeathSpectating,
    RevealKing,
    WarringState,
}

/// Every way a pool operation can fail. Each reason surfaces verbatim to
/// the requesting client; no operation leaves shared state partially
/// mutated when it returns one of these.
#[derive(Clone, Copy, Debug, PartialEq, Eq, Structural)]
pub enum RoomError {
    /// No room of the given id is in the pool.
    RoomNotFound,
    /// No player of the given connection is in the room.
    PlayerNotFound,
    /// The acting player is not the room's host.
    PermissionDenied,
    /// The room already holds `max_players` players.
    RoomFull,
    /// The pool already holds its maximum number of rooms.
    CapacityExceeded,
    /// The requested team lies beyond the spectator sentinel.
    InvalidTeam,
    /// The option name is not one of the recognized options.
    InvalidKey,
    /// The value does not fit the named option's type or range.
    InvalidValue(OptionKey),
    /// The named player already is the room's host.
    AlreadyHost,
}

} // verus!
