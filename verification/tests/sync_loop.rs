use chess_sync::board::{BoardSnapshot, Piece, PieceKind, Side};
use chess_sync::error::{EncodingOverflow, ProtocolError};
use chess_sync::frame::{decode_message, encode_frame, encode_message, FRAME_SIZE};
use chess_sync::moves::{Move, PromotionKind, Square};
use chess_sync::player::{NetworkPlayer, Role};
use chess_sync::status::GameStatusCode;
use chess_sync::sync::{judge, FrameVerdict, PollOutcome, SyncEvent, SyncLoop, SyncState};

const BOARD: &[u8] = b"rnbqkbnr/pppppppp/8/8/3P4/8/PPP1PPPP/RNBQKBNR";

fn square(file: u8, rank: u8) -> Square {
    Square::new(file, rank).unwrap()
}

fn host() -> NetworkPlayer {
    NetworkPlayer { role: Role::Host, color: Side::Black }
}

fn guest() -> NetworkPlayer {
    NetworkPlayer { role: Role::Guest, color: Side::White }
}

fn pawn_push() -> Move {
    Move { from: square(3, 1), to: square(3, 3), promotion: None }
}

fn frame(code: &[u8], status: &[u8]) -> Vec<u8> {
    encode_frame(code, status, BOARD, FRAME_SIZE).unwrap()
}

fn awaiting_host() -> SyncLoop {
    let mut session = SyncLoop::new(host(), FRAME_SIZE);
    assert!(session.tick(Side::White, GameStatusCode::Ongoing));
    assert_eq!(session.state(), SyncState::AwaitingRemote);
    session
}

#[test]
fn new_session_is_idle() {
    let session = SyncLoop::new(guest(), 128);
    assert_eq!(session.state(), SyncState::Idle);
    assert_eq!(session.assigned_side(), Side::White);
    assert_eq!(session.player(), guest());
    assert_eq!(session.frame_size(), 128);
}

#[test]
fn nothing_is_read_on_the_own_turn() {
    let mut white = SyncLoop::new(guest(), 128);
    assert!(!white.tick(Side::White, GameStatusCode::Ongoing));
    assert_eq!(white.state(), SyncState::Idle);
    let mut black = SyncLoop::new(host(), 128);
    assert!(black.tick(Side::White, GameStatusCode::Ongoing));
    assert!(!black.tick(Side::Black, GameStatusCode::Ongoing));
    assert_eq!(black.state(), SyncState::Idle);
}

#[test]
fn channel_is_read_while_the_peer_is_to_move() {
    let mut white = SyncLoop::new(guest(), 128);
    assert!(white.tick(Side::Black, GameStatusCode::Ongoing));
    assert_eq!(white.state(), SyncState::AwaitingRemote);
    assert!(white.tick(Side::Black, GameStatusCode::Ongoing));
    assert_eq!(white.state(), SyncState::AwaitingRemote);
}

#[test]
fn read_is_told_only_for_the_peer_s_turn_in_a_running_game() {
    let statuses = [
        GameStatusCode::Ongoing,
        GameStatusCode::WhiteWon,
        GameStatusCode::BlackWon,
        GameStatusCode::Draw,
    ];
    for player in [host(), guest()] {
        for active in [Side::White, Side::Black] {
            for status in statuses {
                for start in 0..4 {
                    let mut session = SyncLoop::new(player, 128);
                    if start >= 1 {
                        let peer = match player.color {
                            Side::White => Side::Black,
                            Side::Black => Side::White,
                        };
                        session.tick(peer, GameStatusCode::Ongoing);
                    }
                    if start >= 2 {
                        session.receive(&frame(b"D2D40", b"0-0"));
                    }
                    if start >= 3 {
                        session.applied(false);
                    }
                    let before = session.state();
                    let read = session.tick(active, status);
                    let expected = active != player.color
                        && status == GameStatusCode::Ongoing
                        && (before == SyncState::Idle || before == SyncState::AwaitingRemote);
                    assert_eq!(read, expected);
                    assert_eq!(read, session.state() == SyncState::AwaitingRemote);
                    if read {
                        assert_ne!(active, session.assigned_side());
                    }
                }
            }
        }
    }
}

#[test]
fn local_end_of_the_game_stops_the_reading() {
    for status in [GameStatusCode::WhiteWon, GameStatusCode::BlackWon, GameStatusCode::Draw] {
        let mut session = awaiting_host();
        assert!(!session.tick(Side::White, status));
        assert_eq!(session.state(), SyncState::GameOver);
        assert!(!session.tick(Side::White, GameStatusCode::Ongoing));
        assert_eq!(session.state(), SyncState::GameOver);
    }
}

#[test]
fn incomplete_frame_changes_nothing() {
    let mut session = awaiting_host();
    let bytes = frame(b"D2D40", b"0-0");
    assert_eq!(session.receive(b""), PollOutcome::Pending);
    assert_eq!(session.receive(&bytes[..50]), PollOutcome::Pending);
    assert_eq!(session.state(), SyncState::AwaitingRemote);
    assert_eq!(session.receive(&bytes[50..127]), PollOutcome::Pending);
    assert_eq!(session.state(), SyncState::AwaitingRemote);
    assert_eq!(session.receive(&bytes[127..]), PollOutcome::Apply(pawn_push()));
    assert_eq!(session.state(), SyncState::Applying);
}

#[test]
fn move_that_applies_gives_the_turn_back() {
    let mut session = awaiting_host();
    assert_eq!(session.receive(&frame(b"D2D40", b"0-0")), PollOutcome::Apply(pawn_push()));
    assert_eq!(session.state(), SyncState::Applying);
    assert!(!session.tick(Side::White, GameStatusCode::Ongoing));
    assert_eq!(session.state(), SyncState::Applying);
    assert_eq!(session.applied(true), Some(SyncEvent::RemoteMoveApplied));
    assert_eq!(session.state(), SyncState::Idle);
    assert!(!session.tick(Side::Black, GameStatusCode::Ongoing));
    assert!(session.may_move(Side::Black));
}

#[test]
fn frame_that_reports_the_end_ends_the_game_without_a_move() {
    for status in [&b"1-0"[..], b"0-1", b"1-1", b"2-2", b"", b"0-00"] {
        let mut session = awaiting_host();
        let outcome = session.receive(&frame(b"D2D40", status));
        assert_eq!(outcome, PollOutcome::Event(SyncEvent::RemoteGameEnded));
        assert_eq!(session.state(), SyncState::GameOver);
        assert_eq!(session.applied(true), None);
        assert_eq!(session.state(), SyncState::GameOver);
        assert!(!session.tick(Side::White, GameStatusCode::Ongoing));
    }
}

#[test]
fn end_of_the_game_is_read_before_the_move() {
    let mut session = awaiting_host();
    let outcome = session.receive(&frame(b"Z9Z90", b"1-0"));
    assert_eq!(outcome, PollOutcome::Event(SyncEvent::RemoteGameEnded));
    assert_eq!(session.state(), SyncState::GameOver);
}

#[test]
fn move_that_is_refused_gives_the_session_up() {
    let mut session = awaiting_host();
    let illegal = Move { from: square(0, 0), to: square(7, 7), promotion: None };
    assert_eq!(session.receive(&frame(b"A1H80", b"0-0")), PollOutcome::Apply(illegal));
    assert_eq!(session.applied(false), Some(SyncEvent::ConnectionLost));
    assert_eq!(session.state(), SyncState::GameOver);
    assert!(!session.tick(Side::White, GameStatusCode::Ongoing));
    assert!(!session.may_move(Side::Black));
    let board = BoardSnapshot::empty();
    assert_eq!(session.send_local_move(pawn_push(), GameStatusCode::Ongoing, &board), Ok(None));
}

#[test]
fn malformed_frames_are_dropped() {
    let mut session = awaiting_host();
    let mut wrong_tag = frame(b"D2D40", b"0-0");
    wrong_tag[0] = b'X';
    assert_eq!(session.receive(&wrong_tag), PollOutcome::Discarded(ProtocolError::UnknownTag));
    assert_eq!(session.state(), SyncState::AwaitingRemote);
    assert_eq!(session.receive(&[b'0'; 128]), PollOutcome::Discarded(ProtocolError::TooFewFields));
    assert_eq!(session.state(), SyncState::AwaitingRemote);
    let off_board = frame(b"I2D40", b"0-0");
    assert_eq!(session.receive(&off_board), PollOutcome::Discarded(ProtocolError::InvalidSquare));
    assert_eq!(session.state(), SyncState::AwaitingRemote);
    assert_eq!(session.receive(&frame(b"D2D40", b"0-0")), PollOutcome::Apply(pawn_push()));
}

#[test]
fn frames_that_arrive_together_are_read_one_by_one() {
    let mut session = awaiting_host();
    let mut bytes = frame(b"D2D40", b"0-0");
    bytes.extend_from_slice(&frame(b"G1F30", b"0-0"));
    assert_eq!(session.receive(&bytes), PollOutcome::Apply(pawn_push()));
    assert_eq!(session.applied(true), Some(SyncEvent::RemoteMoveApplied));
    assert_eq!(session.receive(b""), PollOutcome::Pending);
    assert!(session.tick(Side::White, GameStatusCode::Ongoing));
    let knight = Move { from: square(6, 0), to: square(5, 2), promotion: None };
    assert_eq!(session.receive(b""), PollOutcome::Apply(knight));
}

#[test]
fn bytes_handed_over_out_of_turn_are_kept() {
    let mut session = SyncLoop::new(host(), 128);
    assert_eq!(session.receive(&frame(b"D2D40", b"0-0")), PollOutcome::Pending);
    assert_eq!(session.state(), SyncState::Idle);
    assert!(session.tick(Side::White, GameStatusCode::Ongoing));
    assert_eq!(session.receive(b""), PollOutcome::Apply(pawn_push()));
}

#[test]
fn applied_means_nothing_unless_a_move_is_pending() {
    let mut idle = SyncLoop::new(guest(), 128);
    assert_eq!(idle.applied(true), None);
    assert_eq!(idle.applied(false), None);
    assert_eq!(idle.state(), SyncState::Idle);
    let mut awaiting = awaiting_host();
    assert_eq!(awaiting.applied(false), None);
    assert_eq!(awaiting.state(), SyncState::AwaitingRemote);
}

#[test]
fn local_move_is_framed_for_the_peer() {
    let session = SyncLoop::new(guest(), 128);
    let mut board = BoardSnapshot::empty();
    board.set(square(3, 3), Some(Piece { kind: PieceKind::Pawn, side: Side::White }));
    let sent = session
        .send_local_move(pawn_push(), GameStatusCode::Ongoing, &board)
        .unwrap()
        .unwrap();
    assert_eq!(sent.len(), 128);
    assert!(sent.starts_with(b"ChessMOVE:D2D40:0-0:8/8/8/8/3P4/8/8/8:0"));
    assert_eq!(sent, encode_message(pawn_push(), GameStatusCode::Ongoing, &board, 128).unwrap());
    let (move_code, status_code, board_string) = decode_message(&sent).unwrap();
    assert_eq!(move_code, b"D2D40".to_vec());
    assert_eq!(status_code, b"0-0".to_vec());
    assert_eq!(board_string, b"8/8/8/8/3P4/8/8/8".to_vec());
}

#[test]
fn local_move_that_ends_the_game_is_still_sent() {
    let session = SyncLoop::new(guest(), 128);
    let board = BoardSnapshot::empty();
    let mate = Move { from: square(7, 4), to: square(5, 6), promotion: None };
    let sent = session.send_local_move(mate, GameStatusCode::WhiteWon, &board).unwrap().unwrap();
    assert!(sent.starts_with(b"ChessMOVE:H5F70:1-0:"));
}

#[test]
fn local_move_does_not_fit_a_small_frame() {
    let session = SyncLoop::new(guest(), 30);
    let board = BoardSnapshot::empty();
    assert_eq!(
        session.send_local_move(pawn_push(), GameStatusCode::Ongoing, &board),
        Err(EncodingOverflow)
    );
}

#[test]
fn what_one_endpoint_sends_the_other_applies() {
    let white = SyncLoop::new(guest(), 128);
    let mut black = awaiting_host();
    let mut board = BoardSnapshot::empty();
    board.set(square(4, 7), Some(Piece { kind: PieceKind::Queen, side: Side::White }));
    let promotion =
        Move { from: square(4, 6), to: square(4, 7), promotion: Some(PromotionKind::Queen) };
    let sent = white.send_local_move(promotion, GameStatusCode::Ongoing, &board).unwrap().unwrap();
    assert_eq!(black.receive(&sent), PollOutcome::Apply(promotion));
    assert_eq!(black.applied(true), Some(SyncEvent::RemoteMoveApplied));
}

#[test]
fn verdict_of_a_frame() {
    assert_eq!(judge(&frame(b"D2D40", b"0-0")), FrameVerdict::Apply(pawn_push()));
    assert_eq!(judge(&frame(b"D2D40", b"1-0")), FrameVerdict::GameEnded);
    assert_eq!(
        judge(&frame(b"D9D40", b"0-0")),
        FrameVerdict::Discard(ProtocolError::InvalidSquare)
    );
    assert_eq!(judge(b"ChessMOVE:D2D40"), FrameVerdict::Discard(ProtocolError::TooFewFields));
    assert_eq!(judge(b"Chess:D2D40:0-0:8"), FrameVerdict::Discard(ProtocolError::UnknownTag));
}

#[test]
fn only_the_side_on_move_may_move() {
    let session = SyncLoop::new(guest(), 128);
    assert!(session.may_move(Side::White));
    assert!(!session.may_move(Side::Black));
    let other = SyncLoop::new(host(), 128);
    assert!(other.may_move(Side::Black));
    assert!(!other.may_move(Side::White));
}

#[test]
fn failed_channel_ends_the_session() {
    let mut session = awaiting_host();
    assert_eq!(session.abandon(), Some(SyncEvent::ConnectionLost));
    assert_eq!(session.state(), SyncState::GameOver);
    assert_eq!(session.abandon(), None);
    assert!(!session.tick(Side::White, GameStatusCode::Ongoing));
    assert_eq!(session.receive(&frame(b"D2D40", b"0-0")), PollOutcome::Pending);
    assert_eq!(session.state(), SyncState::GameOver);
}
