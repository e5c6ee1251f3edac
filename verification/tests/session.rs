use mahjong_session::Account;
use mahjong_session::AccountData;
use mahjong_session::ClientController;
use mahjong_session::ClientId;
use mahjong_session::ClientIdGenerator;
use mahjong_session::ClientState;
use mahjong_session::Credentials;
use mahjong_session::DispatchAction;
use mahjong_session::MatchControllerHandle;
use mahjong_session::MatchError;
use mahjong_session::MatchEvent;
use mahjong_session::MatchState;
use mahjong_session::RequestError;
use mahjong_session::Seat;
use mahjong_session::SessionFault;
use mahjong_session::Tile;
use mahjong_session::server_version;

fn frame(text: &str) -> Vec<u8> {
    text.as_bytes().to_vec()
}

/// Stands in for a match controller; counts the discards that reach it.
struct StubMatchController {
    discards_received: usize,
}

impl StubMatchController {
    fn discard_tile(&mut self, _player: Seat, _tile: Tile) -> Result<(), MatchError> {
        self.discards_received += 1;
        Ok(())
    }
}

#[test]
fn fresh_session_is_idle() {
    let session = ClientController::new(ClientId(3));
    assert_eq!(session.id, ClientId(3));
    assert_eq!(session.state, ClientState::Idle);
}

#[test]
fn start_match_transitions_to_in_match() {
    let mut session = ClientController::new(ClientId(3));
    let action = session.handle_message(&frame("\"StartMatch\""));
    assert_eq!(action, Ok(DispatchAction::AskStartMatch));
    let handle = MatchControllerHandle { controller_id: 5 };
    let response = session.complete_start_match(handle, MatchState { snapshot: 77 });
    assert_eq!(response, frame("{\"state\":77}"));
    assert_eq!(session.state, ClientState::InMatch { controller: handle });
    assert_eq!(session.id, ClientId(3));
}

#[test]
fn start_match_while_in_match_is_a_protocol_violation() {
    let mut session = ClientController::new(ClientId(3));
    let handle = MatchControllerHandle { controller_id: 5 };
    session.complete_start_match(handle, MatchState { snapshot: 1 });
    let action = session.handle_message(&frame("\"StartMatch\""));
    assert_eq!(action, Err(RequestError::AlreadyInMatch));
    assert_eq!(session.state, ClientState::InMatch { controller: handle });
}

#[test]
fn the_starting_session_joins_as_the_east_seat() {
    assert_eq!(mahjong_session::start_match_seat(), Seat::East);
}

#[test]
fn discard_while_idle_is_rejected_and_reaches_no_controller() {
    let session = ClientController::new(ClientId(3));
    let mut stub = StubMatchController { discards_received: 0 };
    let action = session.handle_message(&frame(
        "{\"DiscardTile\":{\"player\":0,\"tile\":14}}",
    ));
    assert_eq!(action, Err(RequestError::NotInMatch));
    if let Ok(DispatchAction::ForwardDiscard { player, tile, .. }) = action {
        stub.discard_tile(player, tile).unwrap();
    }
    assert_eq!(stub.discards_received, 0);
    assert_eq!(session.state, ClientState::Idle);
}

#[test]
fn discard_while_in_match_is_forwarded_to_the_joined_controller() {
    let mut session = ClientController::new(ClientId(3));
    let handle = MatchControllerHandle { controller_id: 9 };
    session.complete_start_match(handle, MatchState { snapshot: 1 });
    let action = session.handle_message(&frame(
        "{\"DiscardTile\":{\"player\":1,\"tile\":107}}",
    ));
    assert_eq!(
        action,
        Ok(DispatchAction::ForwardDiscard {
            controller: handle,
            player: Seat::South,
            tile: Tile { id: 107 },
        }),
    );
}

#[test]
fn malformed_request_fails_the_request_but_not_the_session() {
    let mut session = ClientController::new(ClientId(3));
    let action = session.handle_message(&frame("StartMatch"));
    assert_eq!(action, Err(RequestError::MalformedRequest));
    let action = session.handle_message(&frame("\"StartMatch\""));
    assert_eq!(action, Ok(DispatchAction::AskStartMatch));
    session.complete_start_match(MatchControllerHandle { controller_id: 2 }, MatchState {
        snapshot: 0,
    });
    let action = session.handle_message(&frame(""));
    assert_eq!(action, Err(RequestError::MalformedRequest));
    assert!(matches!(session.state, ClientState::InMatch { .. }));
}

#[test]
fn rejected_discard_is_surfaced_to_the_client() {
    let verdict: Result<(), MatchError> = Err(MatchError { code: 12 });
    assert_eq!(
        ClientController::complete_discard(verdict),
        Err(RequestError::DiscardRejected(MatchError { code: 12 })),
    );
    assert_eq!(ClientController::complete_discard(Ok(())), Ok(()));
}

#[test]
fn event_while_idle_is_the_typed_invariant_fault() {
    let session = ClientController::new(ClientId(3));
    let event = MatchEvent::TileDiscarded { seat: Seat::East, tile: Tile { id: 14 } };
    assert_eq!(session.send_event(&event), Err(SessionFault::EventWhileIdle));
}

#[test]
fn event_while_in_match_is_delivered_as_a_frame() {
    let mut session = ClientController::new(ClientId(3));
    session.complete_start_match(MatchControllerHandle { controller_id: 5 }, MatchState {
        snapshot: 0,
    });
    let event = MatchEvent::TileDiscarded { seat: Seat::West, tile: Tile { id: 30 } };
    assert_eq!(
        session.send_event(&event),
        Ok(frame("{\"TileDiscarded\":{\"seat\":2,\"tile\":30}}")),
    );
}

#[test]
fn end_to_end_session_scenario() {
    let server = server_version();
    let mut generator = ClientIdGenerator::new();

    // The connection is split; the client first receives the priming frame.
    assert_eq!(mahjong_session::priming_frame(), frame("ping"));

    // The client sends its handshake request.
    let req = ClientController::perform_handshake(
        &frame("{\"client_version\":\"1.0.0\",\"credentials\":null}"),
        server,
    )
    .expect("matching handshake must be accepted");
    assert_eq!(req.credentials, None);

    // The game director creates an account; the session starts idle.
    let account = Account {
        credentials: Credentials { token: 814 },
        data: AccountData { account_id: 6 },
    };
    let (mut session, response) =
        ClientController::complete_handshake(generator.next(), server, account);
    assert_eq!(
        mahjong_session::codec::encode_handshake_response(&response),
        frame("{\"server_version\":\"1.0.0\",\"new_credentials\":814,\"account_data\":6}"),
    );
    assert_eq!(session.state, ClientState::Idle);

    // The client asks to start a match; the director hands out a controller.
    let action = session.handle_message(&frame("\"StartMatch\""));
    assert_eq!(action, Ok(DispatchAction::AskStartMatch));
    let handle = MatchControllerHandle { controller_id: 1 };
    let response = session.complete_start_match(handle, MatchState { snapshot: 3125 });
    assert_eq!(response, frame("{\"state\":3125}"));
    assert_eq!(session.state, ClientState::InMatch { controller: handle });
}

#[test]
fn concurrent_sessions_are_distinct_and_independent() {
    let mut generator = ClientIdGenerator::new();
    let mut session_a = ClientController::new(generator.next());
    let session_b = ClientController::new(generator.next());
    assert_ne!(session_a.id, session_b.id);

    let handle = MatchControllerHandle { controller_id: 8 };
    session_a.complete_start_match(handle, MatchState { snapshot: 4 });
    let event = MatchEvent::TileDiscarded { seat: Seat::North, tile: Tile { id: 99 } };

    // The event pushed to session A yields a frame on A's transport alone;
    // B is untouched, still idle, and would fault on the same delivery.
    assert_eq!(
        session_a.send_event(&event),
        Ok(frame("{\"TileDiscarded\":{\"seat\":3,\"tile\":99}}")),
    );
    assert_eq!(session_b.state, ClientState::Idle);
    assert_eq!(session_b.send_event(&event), Err(SessionFault::EventWhileIdle));
}
