use mahjong_session::ClientRequest;
use mahjong_session::Credentials;
use mahjong_session::DiscardTileRequest;
use mahjong_session::HandshakeResponse;
use mahjong_session::MatchError;
use mahjong_session::MatchEvent;
use mahjong_session::MatchState;
use mahjong_session::RequestError;
use mahjong_session::Seat;
use mahjong_session::SemanticVersion;
use mahjong_session::StartMatchResponse;
use mahjong_session::Tile;
use mahjong_session::codec::decode_client_request;
use mahjong_session::codec::decode_handshake_request;
use mahjong_session::codec::encode_error_response;
use mahjong_session::codec::encode_handshake_response;
use mahjong_session::codec::encode_match_event;
use mahjong_session::codec::encode_start_match_response;

fn frame(text: &str) -> Vec<u8> {
    text.as_bytes().to_vec()
}

#[test]
fn decodes_handshake_request_with_token() {
    let r = decode_handshake_request(&frame(
        "{\"client_version\":\"12.34.56\",\"credentials\":4294967295}",
    ))
    .expect("well-formed request");
    assert_eq!(r.client_version, SemanticVersion { major: 12, minor: 34, patch: 56 });
    assert_eq!(r.credentials, Some(Credentials { token: 4294967295 }));
}

#[test]
fn decodes_handshake_request_with_zero_token() {
    let r = decode_handshake_request(&frame(
        "{\"client_version\":\"0.0.0\",\"credentials\":0}",
    ))
    .expect("well-formed request");
    assert_eq!(r.client_version, SemanticVersion { major: 0, minor: 0, patch: 0 });
    assert_eq!(r.credentials, Some(Credentials { token: 0 }));
}

#[test]
fn rejects_noncanonical_numbers() {
    // Leading zeroes, values past the 32-bit range, and a missing run of
    // digits are all refused.
    assert_eq!(
        decode_handshake_request(&frame("{\"client_version\":\"1.0.0\",\"credentials\":00}")),
        None,
    );
    assert_eq!(
        decode_handshake_request(&frame(
            "{\"client_version\":\"1.0.0\",\"credentials\":4294967296}",
        )),
        None,
    );
    assert_eq!(
        decode_handshake_request(&frame("{\"client_version\":\".0.0\",\"credentials\":null}")),
        None,
    );
}

#[test]
fn rejects_trailing_bytes() {
    assert_eq!(
        decode_handshake_request(&frame(
            "{\"client_version\":\"1.0.0\",\"credentials\":null}}",
        )),
        None,
    );
    assert_eq!(decode_client_request(&frame("\"StartMatch\" ")), None);
    assert_eq!(
        decode_client_request(&frame("{\"DiscardTile\":{\"player\":0,\"tile\":1}}x")),
        None,
    );
}

#[test]
fn decodes_start_match_request() {
    assert_eq!(
        decode_client_request(&frame("\"StartMatch\"")),
        Some(ClientRequest::StartMatch),
    );
}

#[test]
fn decodes_discard_tile_request() {
    assert_eq!(
        decode_client_request(&frame("{\"DiscardTile\":{\"player\":3,\"tile\":255}}")),
        Some(ClientRequest::DiscardTile(DiscardTileRequest {
            player: Seat::North,
            tile: Tile { id: 255 },
        })),
    );
}

#[test]
fn rejects_unknown_seat_and_oversized_tile() {
    assert_eq!(
        decode_client_request(&frame("{\"DiscardTile\":{\"player\":4,\"tile\":1}}")),
        None,
    );
    assert_eq!(
        decode_client_request(&frame("{\"DiscardTile\":{\"player\":0,\"tile\":256}}")),
        None,
    );
}

#[test]
fn encodes_handshake_response_without_credentials() {
    let response = HandshakeResponse {
        server_version: SemanticVersion { major: 1, minor: 0, patch: 0 },
        new_credentials: None,
        account_data: mahjong_session::AccountData { account_id: 0 },
    };
    assert_eq!(
        encode_handshake_response(&response),
        frame("{\"server_version\":\"1.0.0\",\"new_credentials\":null,\"account_data\":0}"),
    );
}

#[test]
fn encodes_start_match_response() {
    assert_eq!(
        encode_start_match_response(&StartMatchResponse { state: MatchState { snapshot: 0 } }),
        frame("{\"state\":0}"),
    );
    assert_eq!(
        encode_start_match_response(&StartMatchResponse {
            state: MatchState { snapshot: 4294967295 },
        }),
        frame("{\"state\":4294967295}"),
    );
}

#[test]
fn encodes_match_event() {
    assert_eq!(
        encode_match_event(&MatchEvent::TileDiscarded { seat: Seat::East, tile: Tile { id: 0 } }),
        frame("{\"TileDiscarded\":{\"seat\":0,\"tile\":0}}"),
    );
    assert_eq!(
        encode_match_event(&MatchEvent::TileDiscarded {
            seat: Seat::South,
            tile: Tile { id: 135 },
        }),
        frame("{\"TileDiscarded\":{\"seat\":1,\"tile\":135}}"),
    );
}

#[test]
fn encodes_error_responses() {
    assert_eq!(
        encode_error_response(&RequestError::MalformedRequest),
        frame("{\"error\":{\"kind\":0,\"code\":0}}"),
    );
    assert_eq!(
        encode_error_response(&RequestError::NotInMatch),
        frame("{\"error\":{\"kind\":1,\"code\":0}}"),
    );
    assert_eq!(
        encode_error_response(&RequestError::AlreadyInMatch),
        frame("{\"error\":{\"kind\":2,\"code\":0}}"),
    );
    assert_eq!(
        encode_error_response(&RequestError::DiscardRejected(MatchError { code: 12 })),
        frame("{\"error\":{\"kind\":3,\"code\":12}}"),
    );
}
