use chess_sync::board::{piece_byte, BoardSnapshot, Piece, PieceKind, Side};
use chess_sync::moves::Square;

fn square(file: u8, rank: u8) -> Square {
    Square::new(file, rank).unwrap()
}

fn piece(kind: PieceKind, side: Side) -> Option<Piece> {
    Some(Piece { kind, side })
}

fn back_rank() -> [PieceKind; 8] {
    [
        PieceKind::Rook,
        PieceKind::Knight,
        PieceKind::Bishop,
        PieceKind::Queen,
        PieceKind::King,
        PieceKind::Bishop,
        PieceKind::Knight,
        PieceKind::Rook,
    ]
}

fn starting_position() -> BoardSnapshot {
    let mut board = BoardSnapshot::empty();
    for (file, kind) in back_rank().into_iter().enumerate() {
        let file = file as u8;
        board.set(square(file, 0), piece(kind, Side::White));
        board.set(square(file, 1), piece(PieceKind::Pawn, Side::White));
        board.set(square(file, 6), piece(PieceKind::Pawn, Side::Black));
        board.set(square(file, 7), piece(kind, Side::Black));
    }
    board
}

fn text(board: &BoardSnapshot) -> String {
    String::from_utf8(board.to_placement_string()).unwrap()
}

#[test]
fn piece_letters_follow_the_usual_notation() {
    let kinds = [
        (PieceKind::Pawn, b'P'),
        (PieceKind::Knight, b'N'),
        (PieceKind::Bishop, b'B'),
        (PieceKind::Rook, b'R'),
        (PieceKind::Queen, b'Q'),
        (PieceKind::King, b'K'),
    ];
    for (kind, letter) in kinds {
        assert_eq!(piece_byte(Piece { kind, side: Side::White }), letter);
        assert_eq!(piece_byte(Piece { kind, side: Side::Black }), letter.to_ascii_lowercase());
    }
}

#[test]
fn empty_board_is_eight_runs_of_eight() {
    assert_eq!(text(&BoardSnapshot::empty()), "8/8/8/8/8/8/8/8");
}

#[test]
fn starting_position_is_written_rank_eight_first() {
    assert_eq!(text(&starting_position()), "rnbqkbnr/pppppppp/8/8/8/8/PPPPPPPP/RNBQKBNR");
}

#[test]
fn position_after_a_pawn_push() {
    let mut board = starting_position();
    board.set(square(3, 1), None);
    board.set(square(3, 3), piece(PieceKind::Pawn, Side::White));
    assert_eq!(text(&board), "rnbqkbnr/pppppppp/8/8/3P4/8/PPP1PPPP/RNBQKBNR");
}

#[test]
fn runs_are_flushed_before_pieces_and_at_the_end_of_a_rank() {
    let mut board = BoardSnapshot::empty();
    board.set(square(0, 7), piece(PieceKind::King, Side::Black));
    board.set(square(7, 6), piece(PieceKind::Queen, Side::White));
    board.set(square(2, 4), piece(PieceKind::Knight, Side::Black));
    board.set(square(5, 4), piece(PieceKind::Bishop, Side::White));
    board.set(square(1, 0), piece(PieceKind::Rook, Side::White));
    assert_eq!(text(&board), "k7/7Q/8/2n2B2/8/8/8/1R6");
}

#[test]
fn run_at_the_end_of_the_first_rank_is_written() {
    let mut board = BoardSnapshot::empty();
    board.set(square(4, 0), piece(PieceKind::King, Side::White));
    assert_eq!(text(&board), "8/8/8/8/8/8/8/4K3");
    board.set(square(6, 0), piece(PieceKind::Rook, Side::White));
    assert_eq!(text(&board), "8/8/8/8/8/8/8/4K1R1");
}

#[test]
fn run_does_not_carry_over_to_the_next_rank() {
    let mut board = BoardSnapshot::empty();
    board.set(square(0, 3), piece(PieceKind::Rook, Side::White));
    board.set(square(7, 2), piece(PieceKind::Pawn, Side::Black));
    assert_eq!(text(&board), "8/8/8/8/R7/7p/8/8");
}

#[test]
fn full_board_takes_seventy_one_bytes() {
    let mut board = BoardSnapshot::empty();
    for rank in 0..8 {
        for file in 0..8 {
            board.set(square(file, rank), piece(PieceKind::Pawn, Side::Black));
        }
    }
    let written = board.to_placement_string();
    assert_eq!(written.len(), 71);
    assert_eq!(
        String::from_utf8(written).unwrap(),
        "pppppppp/pppppppp/pppppppp/pppppppp/pppppppp/pppppppp/pppppppp/pppppppp"
    );
}

#[test]
fn placement_holds_no_colon_and_no_zero() {
    let mut board = starting_position();
    board.set(square(4, 1), None);
    board.set(square(4, 3), piece(PieceKind::Pawn, Side::White));
    for byte in board.to_placement_string() {
        assert_ne!(byte, b':');
        assert_ne!(byte, b'0');
    }
}

#[test]
fn set_and_get_agree() {
    let mut board = BoardSnapshot::empty();
    for rank in 0..8 {
        for file in 0..8 {
            assert_eq!(board.get(square(file, rank)), None);
        }
    }
    let queen = piece(PieceKind::Queen, Side::Black);
    board.set(square(3, 7), queen);
    assert_eq!(board.get(square(3, 7)), queen);
    assert_eq!(board.squares[7 * 8 + 3], queen);
    for rank in 0..8 {
        for file in 0..8 {
            if (file, rank) != (3, 7) {
                assert_eq!(board.get(square(file, rank)), None);
            }
        }
    }
    board.set(square(3, 7), None);
    assert_eq!(board, BoardSnapshot::empty());
}
