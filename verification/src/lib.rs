//! Session layer of a real-time multiplayer mahjong server.
//!
//! The library owns the logic of one connected client: the handshake that
//! establishes protocol compatibility and an account, the per-session state
//! machine that routes client requests to the match-coordination layer, and
//! the framing of every message that crosses the wire. Transport, the actor
//! runtime and the game director itself live with the caller; the caller
//! feeds inbound frames to a session and performs the actions the session
//! decides on, handing the results back.

pub mod codec;
pub mod handshake;
pub mod ids;
pub mod messages;
pub mod session;
pub mod version;
pub mod wire_laws;

pub use handshake::HandshakeError;
pub use handshake::priming_frame;
pub use ids::ClientId;
pub use ids::ClientIdGenerator;
pub use messages::Account;
pub use messages::AccountData;
pub use messages::ClientRequest;
pub use messages::Credentials;
pub use messages::DiscardTileRequest;
pub use messages::HandshakeRequest;
pub use messages::HandshakeResponse;
pub use messages::MatchError;
pub use messages::MatchEvent;
pub use messages::MatchState;
pub use messages::RequestError;
pub use messages::Seat;
pub use messages::StartMatchResponse;
pub use messages::Tile;
pub use session::ClientController;
pub use session::ClientState;
pub use session::DispatchAction;
pub use session::MatchControllerHandle;
pub use session::start_match_seat;
pub use session::SessionFault;
pub use version::SemanticVersion;
pub use version::server_version;
pub use version::spec_server_version;
