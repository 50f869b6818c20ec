//! The receiving side of a session, as a state machine.
//!
//! An endpoint reads from its peer only while the peer is to move. A frame
//! that arrives is decoded; a malformed one is dropped. A frame that reports
//! the end of the game ends it here too, and its move is not looked at. The
//! move of any other frame goes to the rules engine: if the engine takes it,
//! the turn comes back to this endpoint, and if it refuses, the two boards
//! have come apart and the session is given up.
//!
//! Reading the channel, asking the rules engine and writing to the channel
//! are the caller's work. Once per tick the caller reports whose turn it is
//! and how the game stands (`tick`); if told to read, it hands over what the
//! channel had (`receive`); if given a move, it has the rules engine apply it
//! and reports the outcome (`applied`).

use vstd::prelude::*;
use crate::board::{placement, BoardSnapshot, Piece, Side, SQUARES};
use crate::error::{EncodingOverflow, ProtocolError};
use crate::frame::{
    decode_message, decoded_frame, encode_message, fits, framed, lemma_message_roundtrip,
    same_bytes, MAX_MESSAGE_LEN,
};
use crate::inbox::FrameBuffer;
use crate::moves::{decode_move, decoded_move, lemma_decode_encode, move_code, Move};
use crate::player::NetworkPlayer;
use crate::status::{lemma_status_roundtrip, GameStatusCode};

verus! {

/// Where the receiving side of a session stands.
#[derive(Clone, Copy, Debug, PartialEq, Eq, Structural)]
pub enum SyncState {
    /// This endpoint is to move: nothing is read.
    Idle,
    /// The peer is to move: the channel is read at every tick.
    AwaitingRemote,
    /// A move of the peer has been decoded and is with the rules engine.
    Applying,
    /// The game has ended, or the session was given up. Nothing follows.
    GameOver,
}

/// What the layer above is told.
#[derive(Clone, Copy, Debug, PartialEq, Eq, Structural)]
pub enum SyncEvent {
    /// The peer's move stands on the local board.
    RemoteMoveApplied,
    /// The peer reports that the game has ended.
    RemoteGameEnded,
    /// The session is given up: the peer's move was refused here, or the
    /// channel failed.
    ConnectionLost,
}

/// What a received frame asks for.
#[derive(Clone, Copy, Debug, PartialEq, Eq, Structural)]
pub enum FrameVerdict {
    /// The frame is malformed and is dropped.
    Discard(ProtocolError),
    /// The frame reports the end of the game.
    GameEnded,
    /// The frame carries this move, for the rules engine to apply.
    Apply(Move),
}

/// What came of handing received bytes over.
#[derive(Clone, Copy, Debug, PartialEq, Eq, Structural)]
pub enum PollOutcome {
    /// No frame is complete yet, or none is awaited.
    Pending,
    /// A malformed frame was dropped.
    Discarded(ProtocolError),
    /// The peer's move: have the rules engine apply it and report to
    /// `applied`.
    Apply(Move),
    /// Something for the layer above: the peer reports that the game has
    /// ended.
    Event(SyncEvent),
}

/// What a received frame asks for. Its status is read before its move: a
/// status other than `0-0` ends the game whatever the move code holds.
pub open spec fn verdict(frame: Seq<u8>) -> FrameVerdict {
    match decoded_frame(frame) {
        Err(error) => FrameVerdict::Discard(error),
        Ok((code, status, _)) => {
            if status != GameStatusCode::Ongoing.wire() {
                FrameVerdict::GameEnded
            } else {
                match decoded_move(code) {
                    Ok(mv) => FrameVerdict::Apply(mv),
                    Err(error) => FrameVerdict::Discard(error),
                }
            }
        },
    }
}

impl SyncState {
    /// The state after a tick at which `active` is to move and the local
    /// rules engine reports `status`, for the endpoint that plays `side`.
    pub open spec fn after_tick(
        self,
        side: Side,
        active: Side,
        status: GameStatusCode,
    ) -> SyncState {
        if self == SyncState::GameOver || status.ended() {
            SyncState::GameOver
        } else if self == SyncState::Applying {
            SyncState::Applying
        } else if active == side {
            SyncState::Idle
        } else {
            SyncState::AwaitingRemote
        }
    }

    /// The state after a frame was received while the peer's move was
    /// awaited.
    pub open spec fn after_frame(frame: FrameVerdict) -> SyncState {
        match frame {
            FrameVerdict::Discard(_) => SyncState::AwaitingRemote,
            FrameVerdict::GameEnded => SyncState::GameOver,
            FrameVerdict::Apply(_) => SyncState::Applying,
        }
    }

    /// What the caller is told of a frame received while the peer's move was
    /// awaited.
    pub open spec fn outcome_of(frame: FrameVerdict) -> PollOutcome {
        match frame {
            FrameVerdict::Discard(error) => PollOutcome::Discarded(error),
            FrameVerdict::GameEnded => PollOutcome::Event(SyncEvent::RemoteGameEnded),
            FrameVerdict::Apply(mv) => PollOutcome::Apply(mv),
        }
    }

    /// The state after the rules engine took or refused the peer's move.
    pub open spec fn after_apply(self, accepted: bool) -> SyncState {
        if self == SyncState::Applying {
            if accepted {
                SyncState::Idle
            } else {
                SyncState::GameOver
            }
        } else {
            self
        }
    }

    /// What the layer above is told when the channel fails: that the
    /// connection is lost, unless the session was over before.
    pub open spec fn failure_event(self) -> Option<SyncEvent> {
        if self == SyncState::GameOver {
            None
        } else {
            Some(SyncEvent::ConnectionLost)
        }
    }

    /// What the layer above is told once the rules engine took or refused
    /// the peer's move.
    pub open spec fn event_of(self, accepted: bool) -> Option<SyncEvent> {
        if self == SyncState::Applying {
            if accepted {
                Some(SyncEvent::RemoteMoveApplied)
            } else {
                Some(SyncEvent::ConnectionLost)
            }
        } else {
            None
        }
    }
}

/// Decides what a received frame asks for.
pub fn judge(frame: &[u8]) -> (asked: FrameVerdict)
    ensures
        asked == verdict(frame@),
{
    match decode_message(frame) {
        Err(error) => FrameVerdict::Discard(error),
        Ok((code, status, _)) => {
            let ongoing = GameStatusCode::Ongoing.to_wire();
            if !same_bytes(status.as_slice(), ongoing.as_slice()) {
                FrameVerdict::GameEnded
            } else {
                match decode_move(code.as_slice()) {
                    Ok(mv) => FrameVerdict::Apply(mv),
                    Err(error) => FrameVerdict::Discard(error),
                }
            }
        },
    }
}

/// The receiving side of one session.
#[derive(Debug)]
pub struct SyncLoop {
    player: NetworkPlayer,
    state: SyncState,
    inbox: FrameBuffer,
}

impl SyncLoop {
    /// The endpoint whose session this is.
    pub closed spec fn endpoint(&self) -> NetworkPlayer {
        self.player
    }

    /// Where the session stands.
    pub closed spec fn phase(&self) -> SyncState {
        self.state
    }

    /// The bytes received and not yet read as frames.
    pub closed spec fn buffered(&self) -> Seq<u8> {
        self.inbox@
    }

    /// The size of the session's frames.
    pub closed spec fn frame_len(&self) -> nat {
        self.inbox.frame_len()
    }

    /// The session of `player`, with frames of `frame_size` bytes. Nothing
    /// has been received, and nothing is read before the first tick.
    pub fn new(player: NetworkPlayer, frame_size: usize) -> (session: SyncLoop)
        ensures
            session.endpoint() == player,
            session.phase() == SyncState::Idle,
            session.buffered() == Seq::<u8>::empty(),
            session.frame_len() == frame_size,
    {
        SyncLoop { player, state: SyncState::Idle, inbox: FrameBuffer::new(frame_size) }
    }

    /// The side that this endpoint plays.
    pub fn assigned_side(&self) -> (side: Side)
        ensures
            side == self.endpoint().color,
    {
        self.player.color
    }

    /// The endpoint whose session this is.
    pub fn player(&self) -> (player: NetworkPlayer)
        ensures
            player == self.endpoint(),
    {
        self.player
    }

    /// Where the session stands.
    pub fn state(&self) -> (state: SyncState)
        ensures
            state == self.phase(),
    {
        self.state
    }

    /// The size of the session's frames.
    pub fn frame_size(&self) -> (size: usize)
        ensures
            size == self.frame_len(),
    {
        self.inbox.frame_size()
    }

    /// Whether this endpoint may move now: the game is going on and `active`,
    /// the side that the rules engine reports to be on move, is its own.
    pub fn may_move(&self, active: Side) -> (may: bool)
        ensures
            may == (self.phase() != SyncState::GameOver && active == self.endpoint().color),
    {
        self.state != SyncState::GameOver && active == self.player.color
    }

    /// Takes note, once per tick and before any read, of whose turn it is and
    /// how the game stands by the local rules engine, and says whether to
    /// read the channel now. The channel is read only while the game is going
    /// on and the peer is to move: never on this endpoint's own turn, never
    /// once the game has ended, and never while a move of the peer is with
    /// the rules engine.
    pub fn tick(&mut self, active: Side, status: GameStatusCode) -> (read: bool)
        ensures
            final(self).phase() == old(self).phase().after_tick(
                old(self).endpoint().color,
                active,
                status,
            ),
            read == (final(self).phase() == SyncState::AwaitingRemote),
            read ==> active != old(self).endpoint().color && !status.ended(),
            final(self).endpoint() == old(self).endpoint(),
            final(self).buffered() == old(self).buffered(),
            final(self).frame_len() == old(self).frame_len(),
    {
        if self.state == SyncState::GameOver || status.is_over() {
            self.state = SyncState::GameOver;
            false
        } else if self.state == SyncState::Applying {
            false
        } else if active == self.player.color {
            self.state = SyncState::Idle;
            false
        } else {
            self.state = SyncState::AwaitingRemote;
            true
        }
    }

    /// Takes in what a read of the channel gave, which may be nothing, and
    /// reads the oldest frame if it is complete. While no move of the peer is
    /// awaited the bytes are kept and no frame is read.
    pub fn receive(&mut self, bytes: &[u8]) -> (outcome: PollOutcome)
        ensures
            final(self).endpoint() == old(self).endpoint(),
            final(self).frame_len() == old(self).frame_len(),
            ({
                let stream = old(self).buffered() + bytes@;
                let size = old(self).frame_len() as int;
                if old(self).phase() != SyncState::AwaitingRemote || stream.len() < size {
                    &&& outcome == PollOutcome::Pending
                    &&& final(self).phase() == old(self).phase()
                    &&& final(self).buffered() == stream
                } else {
                    &&& outcome == SyncState::outcome_of(verdict(stream.take(size)))
                    &&& final(self).phase() == SyncState::after_frame(verdict(stream.take(size)))
                    &&& final(self).buffered() == stream.skip(size)
                }
            }),
    {
        self.inbox.push(bytes);
        if self.state != SyncState::AwaitingRemote {
            return PollOutcome::Pending;
        }
        match self.inbox.take_frame() {
            None => PollOutcome::Pending,
            Some(frame) => {
                match judge(frame.as_slice()) {
                    FrameVerdict::Discard(error) => PollOutcome::Discarded(error),
                    FrameVerdict::GameEnded => {
                        self.state = SyncState::GameOver;
                        PollOutcome::Event(SyncEvent::RemoteGameEnded)
                    },
                    FrameVerdict::Apply(mv) => {
                        self.state = SyncState::Applying;
                        PollOutcome::Apply(mv)
                    },
                }
            },
        }
    }

    /// Takes note of whether the rules engine took the peer's move. If it
    /// did, the turn is back with this endpoint. If it refused, the session
    /// is given up: the caller drops the connection.
    pub fn applied(&mut self, accepted: bool) -> (event: Option<SyncEvent>)
        ensures
            final(self).phase() == old(self).phase().after_apply(accepted),
            event == old(self).phase().event_of(accepted),
            final(self).endpoint() == old(self).endpoint(),
            final(self).buffered() == old(self).buffered(),
            final(self).frame_len() == old(self).frame_len(),
    {
        if self.state != SyncState::Applying {
            None
        } else if accepted {
            self.state = SyncState::Idle;
            Some(SyncEvent::RemoteMoveApplied)
        } else {
            self.state = SyncState::GameOver;
            Some(SyncEvent::ConnectionLost)
        }
    }

    /// Gives the session up because the channel failed: a transport error
    /// ends the game here, and nothing is read or sent after it.
    pub fn abandon(&mut self) -> (event: Option<SyncEvent>)
        ensures
            final(self).phase() == SyncState::GameOver,
            event == old(self).phase().failure_event(),
            final(self).endpoint() == old(self).endpoint(),
            final(self).buffered() == old(self).buffered(),
            final(self).frame_len() == old(self).frame_len(),
    {
        if self.state == SyncState::GameOver {
            None
        } else {
            self.state = SyncState::GameOver;
            Some(SyncEvent::ConnectionLost)
        }
    }

    /// Builds the frame that tells the peer of a move that this endpoint has
    /// made: the move, and the status and the board after it. Once the
    /// session is over nothing is sent.
    pub fn send_local_move(
        &self,
        mv: Move,
        status: GameStatusCode,
        board: &BoardSnapshot,
    ) -> (frame: Result<Option<Vec<u8>>, EncodingOverflow>)
        ensures
            match frame {
                Ok(Some(frame)) => {
                    &&& self.phase() != SyncState::GameOver
                    &&& frame@ == framed(
                        move_code(mv),
                        status.wire(),
                        placement(board@),
                        self.frame_len(),
                    )
                    &&& frame@.len() == self.frame_len()
                },
                Ok(None) => self.phase() == SyncState::GameOver,
                Err(_) => {
                    &&& self.phase() != SyncState::GameOver
                    &&& !fits(move_code(mv), status.wire(), placement(board@), self.frame_len())
                },
            },
            self.frame_len() >= MAX_MESSAGE_LEN ==> frame is Ok,
    {
        if self.state == SyncState::GameOver {
            return Ok(None);
        }
        match encode_message(mv, status, board, self.inbox.frame_size()) {
            Ok(frame) => Ok(Some(frame)),
            Err(error) => Err(error),
        }
    }
}

/// Once the game is over it stays over, whatever is reported or received.
pub proof fn lemma_game_over_is_final(
    side: Side,
    active: Side,
    status: GameStatusCode,
    accepted: bool,
)
    ensures
        SyncState::GameOver.after_tick(side, active, status) == SyncState::GameOver,
        SyncState::GameOver.after_apply(accepted) == SyncState::GameOver,
{
}

/// After a tick the channel is awaited only if the game is going on and the
/// side on move is the peer's.
pub proof fn lemma_turn_gating(state: SyncState, side: Side, active: Side, status: GameStatusCode)
    ensures
        state.after_tick(side, active, status) == SyncState::AwaitingRemote ==> active != side
            && !status.ended() && state != SyncState::GameOver,
{
}

/// What one endpoint sends, the other reads: the frame of a move between
/// squares of the board asks the peer to apply that very move while the game
/// is going on, and to end the game once the sender reports that it has
/// ended.
pub proof fn lemma_sent_frame_verdict(
    mv: Move,
    status: GameStatusCode,
    squares: Seq<Option<Piece>>,
    frame_size: nat,
)
    requires
        mv.wf(),
        squares.len() == SQUARES,
        frame_size >= MAX_MESSAGE_LEN,
    ensures
        verdict(framed(move_code(mv), status.wire(), placement(squares), frame_size)) == (if status
            == GameStatusCode::Ongoing {
            FrameVerdict::Apply(mv)
        } else {
            FrameVerdict::GameEnded
        }),
{
    lemma_message_roundtrip(mv, status, squares, frame_size);
    lemma_decode_encode(mv);
    lemma_status_roundtrip(status);
    lemma_status_roundtrip(GameStatusCode::Ongoing);
}

} // verus!
