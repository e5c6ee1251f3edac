//! The per-session state machine and request dispatch.
//!
//! One `ClientController` stands for one connected client. The caller owns
//! the transport and the handles to the game director and match controllers;
//! it feeds inbound frames to `handle_message`, performs the action the
//! session decides on, and hands the outcome back through the `complete_*`
//! functions. Because the caller drives one session from one mailbox, the
//! session's operations are serialized and no two of them run at once.

use vstd::prelude::*;
use crate::codec;
use crate::codec::spec_decode_client_request;
use crate::codec::spec_encode_match_event;
use crate::codec::spec_encode_start_match_response;
use crate::ids::ClientId;
use crate::messages::ClientRequest;
use crate::messages::DiscardTileRequest;
use crate::messages::MatchError;
use crate::messages::MatchEvent;
use crate::messages::MatchState;
use crate::messages::RequestError;
use crate::messages::Seat;
use crate::messages::StartMatchResponse;
use crate::messages::Tile;

verus! {

/// Capability handle naming one match controller. The caller maps it to the
/// controller's actual address; the session only stores and returns it.
#[derive(Clone, Copy, Debug, PartialEq, Eq, Structural)]
pub struct MatchControllerHandle {
    pub controller_id: u64,
}

/// Protocol state of one client session. The observed transitions are
/// monotonic: `Idle` until a match is started, `InMatch` from then on;
/// leaving a match is not part of the protocol.
#[derive(Clone, Copy, Debug, PartialEq, Eq)]
pub enum ClientState {
    Idle,
    InMatch { controller: MatchControllerHandle },
}

/// A violation of the session's own invariants by a collaborator. It is
/// fatal to the session task, never reported to the client.
#[derive(Clone, Copy, Debug, PartialEq, Eq)]
pub enum SessionFault {
    /// An event was pushed while the session was not in a match.
    EventWhileIdle,
}

/// The outside call a request asks for. The caller performs it and returns
/// its result through the matching `complete_*` function.
#[derive(Clone, Copy, Debug, PartialEq, Eq)]
pub enum DispatchAction {
    /// Ask the game director for a new match, join it as the east seat with
    /// this session's own handle, then call `complete_start_match`.
    AskStartMatch,
    /// Forward the discard to the named controller and await its verdict,
    /// then call `complete_discard`.
    ForwardDiscard { controller: MatchControllerHandle, player: Seat, tile: Tile },
}

/// The session controller: the identifier given at handshake time and the
/// protocol state. Transport and director handles stay with the caller.
pub struct ClientController {
    pub id: ClientId,
    pub state: ClientState,
}

/// A freshly constructed session: the given identifier, no match joined.
pub open spec fn spec_new_controller(id: ClientId) -> ClientController {
    ClientController { id, state: ClientState::Idle }
}

/// What a request asks of a session in a given state. `StartMatch` asks the
/// director for a match only while no match is joined; sent from a session
/// already in a match it is a protocol violation, refused with
/// `AlreadyInMatch` before any collaborator is contacted. A discard is
/// forwarded to the joined controller and rejected with `NotInMatch` when
/// none is.
pub open spec fn spec_dispatch(state: ClientState, req: ClientRequest) -> Result<
    DispatchAction,
    RequestError,
> {
    match req {
        ClientRequest::StartMatch => match state {
            ClientState::Idle => Ok(DispatchAction::AskStartMatch),
            ClientState::InMatch { .. } => Err(RequestError::AlreadyInMatch),
        },
        ClientRequest::DiscardTile(d) => match state {
            ClientState::InMatch { controller } => Ok(
                DispatchAction::ForwardDiscard { controller, player: d.player, tile: d.tile },
            ),
            ClientState::Idle => Err(RequestError::NotInMatch),
        },
    }
}

/// The session after a successful `StartMatch`: same identifier, now in the
/// joined match. Dispatch hands out `AskStartMatch` only from `Idle`, so a
/// caller that follows its verdicts reaches this transition from `Idle`
/// alone.
pub open spec fn spec_after_start_match(
    c: ClientController,
    controller: MatchControllerHandle,
) -> ClientController {
    ClientController { id: c.id, state: ClientState::InMatch { controller } }
}

/// What event delivery does in a given state: the encoded event frame while
/// a match is joined, the fatal fault otherwise.
pub open spec fn spec_send_event(state: ClientState, event: MatchEvent) -> Result<
    Seq<u8>,
    SessionFault,
> {
    match state {
        ClientState::InMatch { .. } => Ok(spec_encode_match_event(event)),
        ClientState::Idle => Err(SessionFault::EventWhileIdle),
    }
}

/// The fixed seat assignment for a newly started match: the session that
/// asked for the match joins it as the east player.
pub fn start_match_seat() -> (s: Seat)
    ensures
        s == Seat::East,
{
    Seat::East
}

impl ClientController {
    /// A fresh session in `Idle` state, carrying the given identifier for
    /// the rest of its life.
    pub fn new(id: ClientId) -> (c: Self)
        ensures
            c == spec_new_controller(id),
    {
        ClientController { id, state: ClientState::Idle }
    }

    /// Decides what one inbound frame asks for. A frame that holds no client
    /// request fails that single request with `MalformedRequest` and leaves
    /// the session as it is; the session itself is never terminated here.
    pub fn handle_message(&self, frame: &Vec<u8>) -> (r: Result<DispatchAction, RequestError>)
        ensures
            r == (match spec_decode_client_request(frame@) {
                Some(req) => spec_dispatch(self.state, req),
                None => Err::<DispatchAction, RequestError>(RequestError::MalformedRequest),
            }),
    {
        match codec::decode_client_request(frame) {
            None => Err(RequestError::MalformedRequest),
            Some(req) => match req {
                ClientRequest::StartMatch => match &self.state {
                    ClientState::Idle => Ok(DispatchAction::AskStartMatch),
                    ClientState::InMatch { .. } => Err(RequestError::AlreadyInMatch),
                },
                ClientRequest::DiscardTile(d) => match &self.state {
                    ClientState::InMatch { controller } => Ok(
                        DispatchAction::ForwardDiscard {
                            controller: *controller,
                            player: d.player,
                            tile: d.tile,
                        },
                    ),
                    ClientState::Idle => Err(RequestError::NotInMatch),
                },
            },
        }
    }

    /// Records a successful match start: the session joins the match and the
    /// returned frame carries the initial state for the client.
    pub fn complete_start_match(
        &mut self,
        controller: MatchControllerHandle,
        state: MatchState,
    ) -> (frame: Vec<u8>)
        ensures
            *final(self) == spec_after_start_match(*old(self), controller),
            frame@ == spec_encode_start_match_response(StartMatchResponse { state }),
    {
        self.state = ClientState::InMatch { controller };
        codec::encode_start_match_response(&StartMatchResponse { state })
    }

    /// Maps a match controller's verdict on a forwarded discard to the
    /// request's outcome: a rejection is surfaced to the client as a
    /// request-level error, never swallowed.
    pub fn complete_discard(result: Result<(), MatchError>) -> (r: Result<(), RequestError>)
        ensures
            r == (match result {
                Ok(()) => Ok::<(), RequestError>(()),
                Err(e) => Err::<(), RequestError>(RequestError::DiscardRejected(e)),
            }),
    {
        match result {
            Ok(()) => Ok(()),
            Err(e) => Err(RequestError::DiscardRejected(e)),
        }
    }

    /// Delivers a server-pushed event outside the request/response flow:
    /// the encoded frame to write to the transport. Delivery while no match
    /// is joined is a collaborator bug: it yields the typed fault and no
    /// frame, and the caller aborts the session task on it.
    pub fn send_event(&self, event: &MatchEvent) -> (r: Result<Vec<u8>, SessionFault>)
        ensures
            (match r {
                Ok(frame) => spec_send_event(self.state, *event) == Ok::<Seq<u8>, SessionFault>(
                    frame@,
                ),
                Err(fault) => spec_send_event(self.state, *event) == Err::<Seq<u8>, SessionFault>(
                    fault,
                ),
            }),
    {
        match &self.state {
            ClientState::InMatch { .. } => Ok(codec::encode_match_event(event)),
            ClientState::Idle => Err(SessionFault::EventWhileIdle),
        }
    }
}

/// Law: the state machine of one session. A fresh session is `Idle`; a
/// successful `StartMatch` moves it to `InMatch` with the joined controller
/// and keeps its identifier; a `DiscardTile` dispatched while `Idle` is
/// rejected with `NotInMatch`, so no action reaches a match controller; and
/// a `StartMatch` dispatched while already `InMatch` is the protocol
/// violation `AlreadyInMatch`, so the game director is never asked twice.
pub proof fn lemma_state_machine(
    id: ClientId,
    c: ClientController,
    controller: MatchControllerHandle,
    d: DiscardTileRequest,
)
    ensures
        spec_new_controller(id).state is Idle,
        spec_new_controller(id).id == id,
        spec_after_start_match(c, controller).state == (ClientState::InMatch { controller }),
        spec_after_start_match(c, controller).id == c.id,
        c.state is Idle ==> spec_dispatch(c.state, ClientRequest::DiscardTile(d))
            == Err::<DispatchAction, RequestError>(RequestError::NotInMatch),
        c.state is InMatch ==> spec_dispatch(c.state, ClientRequest::StartMatch)
            == Err::<DispatchAction, RequestError>(RequestError::AlreadyInMatch),
{
}

/// Law: event delivery demands a joined match. In `Idle` state it is the
/// typed invariant fault and no frame is produced; in `InMatch` state it is
/// exactly the encoded event.
pub proof fn lemma_event_delivery_precondition(state: ClientState, event: MatchEvent)
    ensures
        state is Idle ==> spec_send_event(state, event) == Err::<Seq<u8>, SessionFault>(
            SessionFault::EventWhileIdle,
        ),
        state is InMatch ==> spec_send_event(state, event) == Ok::<Seq<u8>, SessionFault>(
            spec_encode_match_event(event),
        ),
{
}

} // verus!
