use mahjong_session::Account;
use mahjong_session::AccountData;
use mahjong_session::ClientController;
use mahjong_session::ClientId;
use mahjong_session::ClientState;
use mahjong_session::Credentials;
use mahjong_session::HandshakeError;
use mahjong_session::SemanticVersion;
use mahjong_session::codec::encode_handshake_response;
use mahjong_session::priming_frame;
use mahjong_session::server_version;

fn frame(text: &str) -> Vec<u8> {
    text.as_bytes().to_vec()
}

#[test]
fn priming_frame_is_ping() {
    assert_eq!(priming_frame(), frame("ping"));
}

#[test]
fn server_version_is_one_zero_zero() {
    let v = server_version();
    assert_eq!(v, SemanticVersion { major: 1, minor: 0, patch: 0 });
}

#[test]
fn handshake_accepts_matching_version_without_credentials() {
    let req = ClientController::perform_handshake(
        &frame("{\"client_version\":\"1.0.0\",\"credentials\":null}"),
        server_version(),
    )
    .expect("matching handshake must be accepted");
    assert_eq!(req.client_version, SemanticVersion { major: 1, minor: 0, patch: 0 });
    assert_eq!(req.credentials, None);
}

#[test]
fn handshake_round_trip_yields_server_version_and_fresh_credentials() {
    let server = server_version();
    let req = ClientController::perform_handshake(
        &frame("{\"client_version\":\"1.0.0\",\"credentials\":null}"),
        server,
    )
    .expect("matching handshake must be accepted");
    assert_eq!(req.credentials, None);
    let account = Account {
        credentials: Credentials { token: 99 },
        data: AccountData { account_id: 42 },
    };
    let (session, response) = ClientController::complete_handshake(ClientId(7), server, account);
    assert_eq!(response.server_version, server);
    assert_eq!(response.new_credentials, Some(Credentials { token: 99 }));
    assert_eq!(response.account_data, AccountData { account_id: 42 });
    assert_eq!(session.id, ClientId(7));
    assert_eq!(session.state, ClientState::Idle);
    assert_eq!(
        encode_handshake_response(&response),
        frame("{\"server_version\":\"1.0.0\",\"new_credentials\":99,\"account_data\":42}"),
    );
}

#[test]
fn handshake_rejects_version_mismatch() {
    let r = ClientController::perform_handshake(
        &frame("{\"client_version\":\"1.0.1\",\"credentials\":null}"),
        server_version(),
    );
    assert_eq!(r, Err(HandshakeError::VersionMismatch));
    let r = ClientController::perform_handshake(
        &frame("{\"client_version\":\"2.0.0\",\"credentials\":null}"),
        server_version(),
    );
    assert_eq!(r, Err(HandshakeError::VersionMismatch));
}

#[test]
fn handshake_rejects_version_mismatch_with_credentials() {
    let r = ClientController::perform_handshake(
        &frame("{\"client_version\":\"0.9.9\",\"credentials\":17}"),
        server_version(),
    );
    assert_eq!(r, Err(HandshakeError::VersionMismatch));
}

#[test]
fn handshake_refuses_existing_account_login() {
    let r = ClientController::perform_handshake(
        &frame("{\"client_version\":\"1.0.0\",\"credentials\":17}"),
        server_version(),
    );
    assert_eq!(r, Err(HandshakeError::UnsupportedLogin));
}

#[test]
fn handshake_rejects_malformed_frames() {
    let server = server_version();
    let malformed = [
        "",
        "ping",
        "{}",
        "{\"client_version\":\"1.0.0\",\"credentials\":null",
        "{\"client_version\":\"1.0.0\",\"credentials\":null} ",
        "{\"client_version\":\"1.0\",\"credentials\":null}",
        "{\"client_version\":\"01.0.0\",\"credentials\":null}",
        "{\"client_version\":\"1.0.0\",\"credentials\":007}",
        "{\"client_version\":1,\"credentials\":null}",
        "{\"credentials\":null,\"client_version\":\"1.0.0\"}",
    ];
    for text in malformed.iter() {
        let r = ClientController::perform_handshake(&frame(text), server);
        assert_eq!(r, Err(HandshakeError::MalformedHandshake), "frame: {}", text);
    }
}
