//! The session handshake: the fixed initial exchange that establishes
//! protocol compatibility and an account before normal request processing.
//!
//! The caller splits a fresh connection, sends the priming frame, and waits
//! for one inbound frame. `perform_handshake` validates that frame; when it
//! asks for an account, the caller obtains one from the game director and
//! hands it to `complete_handshake`, which yields the response to send and
//! the running session. Any failure before that aborts connection setup.

use vstd::prelude::*;
use crate::codec;
use crate::codec::lit_ping;
use crate::codec::spec_decode_handshake_request;
use crate::ids::ClientId;
use crate::messages::Account;
use crate::messages::HandshakeRequest;
use crate::messages::HandshakeResponse;
use crate::session::ClientController;
use crate::session::spec_new_controller;
use crate::version::SemanticVersion;
use crate::wire_laws::lemma_handshake_request_round_trip;
use crate::wire_laws::spec_encode_handshake_request;

verus! {

/// Why a handshake was refused. Refusal aborts connection setup; the
/// transport is not retried.
#[derive(Clone, Copy, Debug, PartialEq, Eq)]
pub enum HandshakeError {
    /// The frame does not hold a handshake request.
    MalformedHandshake,
    /// The client's version differs from the server's; no compatibility
    /// range is negotiated.
    VersionMismatch,
    /// The client sent credentials, but login to an existing account is not
    /// offered; refused with a typed error rather than left undefined.
    UnsupportedLogin,
}

/// Whether a decoded handshake request is accepted, and why not otherwise.
pub open spec fn spec_check_handshake(req: HandshakeRequest, server: SemanticVersion) -> Result<
    HandshakeRequest,
    HandshakeError,
> {
    if req.client_version != server {
        Err(HandshakeError::VersionMismatch)
    } else if req.credentials is Some {
        Err(HandshakeError::UnsupportedLogin)
    } else {
        Ok(req)
    }
}

/// What validating one inbound frame yields: the accepted request, or the
/// error that aborts connection setup.
pub open spec fn spec_perform_handshake(frame: Seq<u8>, server: SemanticVersion) -> Result<
    HandshakeRequest,
    HandshakeError,
> {
    match spec_decode_handshake_request(frame) {
        Some(req) => spec_check_handshake(req, server),
        None => Err(HandshakeError::MalformedHandshake),
    }
}

/// The response an accepted handshake earns: the server's own version and
/// the freshly issued credentials and account record.
pub open spec fn spec_handshake_response(server: SemanticVersion, account: Account) -> HandshakeResponse {
    HandshakeResponse {
        server_version: server,
        new_credentials: Some(account.credentials),
        account_data: account.data,
    }
}

/// The single opaque frame sent right after the connection is split. Some
/// client runtimes hang until a first server-initiated message arrives; this
/// frame is that workaround, not part of the logical protocol.
pub fn priming_frame() -> (frame: Vec<u8>)
    ensures
        frame@ == lit_ping(),
{
    codec::lit_ping_vec()
}

impl ClientController {
    /// Validates the client's handshake frame against the server's version.
    /// The frame must decode as a handshake request (else
    /// `MalformedHandshake`), name the server's exact version (else
    /// `VersionMismatch`) and carry no credentials (else
    /// `UnsupportedLogin`). On success the caller asks the game director for
    /// a fresh account and finishes with `complete_handshake`.
    pub fn perform_handshake(frame: &Vec<u8>, server: SemanticVersion) -> (r: Result<
        HandshakeRequest,
        HandshakeError,
    >)
        ensures
            r == spec_perform_handshake(frame@, server),
    {
        match codec::decode_handshake_request(frame) {
            None => Err(HandshakeError::MalformedHandshake),
            Some(req) => {
                if !(req.client_version.major == server.major && req.client_version.minor
                    == server.minor && req.client_version.patch == server.patch) {
                    Err(HandshakeError::VersionMismatch)
                } else if req.credentials.is_some() {
                    Err(HandshakeError::UnsupportedLogin)
                } else {
                    Ok(req)
                }
            },
        }
    }

    /// Finishes an accepted handshake once the game director produced the
    /// account: the session starts `Idle` under the given identifier, and
    /// the response carries the server version with the account's fresh
    /// credentials. The caller encodes the response with
    /// `codec::encode_handshake_response` and sends it before feeding the
    /// session any request.
    pub fn complete_handshake(id: ClientId, server: SemanticVersion, account: Account) -> (r: (
        ClientController,
        HandshakeResponse,
    ))
        ensures
            r.0 == spec_new_controller(id),
            r.1 == spec_handshake_response(server, account),
    {
        let session = ClientController::new(id);
        let response = HandshakeResponse {
            server_version: server,
            new_credentials: Some(account.credentials),
            account_data: account.data,
        };
        (session, response)
    }
}

/// Law: the handshake round trip. A request that names the server's version
/// and carries no credentials is accepted as it stands, and the response
/// built for it reports exactly the server's version and carries the fresh
/// credentials.
pub proof fn lemma_handshake_round_trip(
    req: HandshakeRequest,
    server: SemanticVersion,
    account: Account,
)
    requires
        req.client_version == server,
        req.credentials is None,
    ensures
        spec_check_handshake(req, server) == Ok::<HandshakeRequest, HandshakeError>(req),
        spec_perform_handshake(spec_encode_handshake_request(req), server) == Ok::<
            HandshakeRequest,
            HandshakeError,
        >(req),
        spec_handshake_response(server, account).server_version == server,
        spec_handshake_response(server, account).new_credentials == Some(account.credentials),
{
    lemma_handshake_request_round_trip(req);
}

/// Law: a version mismatch never yields a session. A request whose
/// `client_version` differs from the server's is refused with
/// `VersionMismatch`, whatever its credentials, and so is every frame that
/// decodes to such a request.
pub proof fn lemma_version_mismatch_rejected(req: HandshakeRequest, server: SemanticVersion)
    requires
        req.client_version != server,
    ensures
        spec_check_handshake(req, server) == Err::<HandshakeRequest, HandshakeError>(
            HandshakeError::VersionMismatch,
        ),
        forall|frame: Seq<u8>|
            spec_decode_handshake_request(frame) == Some(req) ==> spec_perform_handshake(
                frame,
                server,
            ) == Err::<HandshakeRequest, HandshakeError>(HandshakeError::VersionMismatch),
        spec_perform_handshake(spec_encode_handshake_request(req), server) == Err::<
            HandshakeRequest,
            HandshakeError,
        >(HandshakeError::VersionMismatch),
{
    lemma_handshake_request_round_trip(req);
}

} // verus!
