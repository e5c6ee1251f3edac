//! The typed messages of the session protocol.
//!
//! These are the values that cross the wire (framed by `codec`) and the
//! values exchanged with the game director and the match controllers.

use vstd::prelude::*;
use crate::version::SemanticVersion;

verus! {

/// Credentials issued for an account. On the wire a credential is its bare
/// token; absence is `null`.
#[derive(Clone, Copy, Debug, PartialEq, Eq, Structural)]
pub struct Credentials {
    pub token: u32,
}

/// The opaque account record handed to the client at handshake time. On the
/// wire it is the bare account number.
#[derive(Clone, Copy, Debug, PartialEq, Eq, Structural)]
pub struct AccountData {
    pub account_id: u32,
}

/// An account as the game director returns it from account creation.
#[derive(Clone, Copy, Debug, PartialEq, Eq, Structural)]
pub struct Account {
    pub credentials: Credentials,
    pub data: AccountData,
}

/// A player's fixed position at the table. On the wire a seat is its index
/// in east-first turn order: east 0, south 1, west 2, north 3.
#[derive(Clone, Copy, Debug, PartialEq, Eq, Structural)]
pub enum Seat {
    East,
    South,
    West,
    North,
}

/// A tile, identified by its index in the tile set. On the wire a tile is
/// that bare number.
#[derive(Clone, Copy, Debug, PartialEq, Eq, Structural)]
pub struct Tile {
    pub id: u8,
}

/// First frame the client sends: its version and, for an existing account,
/// its credentials.
#[derive(Clone, Copy, Debug, PartialEq, Eq)]
pub struct HandshakeRequest {
    pub client_version: SemanticVersion,
    pub credentials: Option<Credentials>,
}

/// The server's answer to an accepted handshake request.
#[derive(Clone, Copy, Debug, PartialEq, Eq)]
pub struct HandshakeResponse {
    pub server_version: SemanticVersion,
    pub new_credentials: Option<Credentials>,
    pub account_data: AccountData,
}

/// Payload of a `DiscardTile` request.
#[derive(Clone, Copy, Debug, PartialEq, Eq, Structural)]
pub struct DiscardTileRequest {
    pub player: Seat,
    pub tile: Tile,
}

/// A request the client may send once the handshake is done.
#[derive(Clone, Copy, Debug, PartialEq, Eq)]
pub enum ClientRequest {
    StartMatch,
    DiscardTile(DiscardTileRequest),
}

/// Opaque summary of the board handed to a player joining a match. On the
/// wire it is the bare snapshot number.
#[derive(Clone, Copy, Debug, PartialEq, Eq, Structural)]
pub struct MatchState {
    pub snapshot: u32,
}

/// The response to a successful `StartMatch`, carrying the initial state of
/// the match that was joined.
#[derive(Clone, Copy, Debug, PartialEq, Eq, Structural)]
pub struct StartMatchResponse {
    pub state: MatchState,
}

/// An event a match controller pushes to the client outside the
/// request/response flow.
#[derive(Clone, Copy, Debug, PartialEq, Eq)]
pub enum MatchEvent {
    TileDiscarded { seat: Seat, tile: Tile },
}

/// An error a match controller reports back for a rejected operation.
#[derive(Clone, Copy, Debug, PartialEq, Eq, Structural)]
pub struct MatchError {
    pub code: u32,
}

/// An error local to one request; it is reported to the client as an error
/// response and the session continues.
#[derive(Clone, Copy, Debug, PartialEq, Eq)]
pub enum RequestError {
    /// The frame does not hold a client request.
    MalformedRequest,
    /// A `DiscardTile` arrived while no match was joined.
    NotInMatch,
    /// A `StartMatch` arrived while a match was already joined: a protocol
    /// violation, refused without contacting the game director.
    AlreadyInMatch,
    /// The match controller rejected the discard.
    DiscardRejected(MatchError),
}

} // verus!
