//! The pieces on the board, and the placement string that a frame carries.
//!
//! The placement string lists the ranks from the eighth down to the first,
//! with a `/` between two ranks. Within a rank the files run from `a` to `h`:
//! a piece is written as its letter, upper case for White and lower case for
//! Black, and a run of empty squares as its length. Nothing else is written:
//! castling rights, the en-passant square and the move counters stay with the
//! rules engine of each endpoint, which keeps them for itself.

use vstd::prelude::*;
use crate::moves::Square;

verus! {

/// The `/` between two ranks.
pub const RANK_SEPARATOR: u8 = 47;

/// The digit `0`, from which the length of a run of empty squares counts.
pub const DIGIT_ZERO: u8 = 48;

/// What an upper-case letter lacks to be its lower-case letter.
pub const LOWER_CASE: u8 = 32;

/// The number of squares on the board.
pub const SQUARES: usize = 64;

/// The longest placement string: every square taken, and seven separators.
pub const MAX_PLACEMENT_LEN: usize = 71;

/// One of the two players.
#[derive(Clone, Copy, Debug, PartialEq, Eq, Structural)]
pub enum Side {
    White,
    Black,
}

/// The kind of a piece.
#[derive(Clone, Copy, Debug, PartialEq, Eq, Structural)]
pub enum PieceKind {
    Pawn,
    Knight,
    Bishop,
    Rook,
    Queen,
    King,
}

/// A piece: its kind and its owner.
#[derive(Clone, Copy, Debug, PartialEq, Eq, Structural)]
pub struct Piece {
    pub kind: PieceKind,
    pub side: Side,
}

/// The upper-case letter of a kind of piece.
pub open spec fn kind_letter(kind: PieceKind) -> u8 {
    match kind {
        PieceKind::Pawn => 80,
        PieceKind::Knight => 78,
        PieceKind::Bishop => 66,
        PieceKind::Rook => 82,
        PieceKind::Queen => 81,
        PieceKind::King => 75,
    }
}

/// The letter of a piece: upper case for White, lower case for Black.
pub open spec fn piece_letter(piece: Piece) -> u8 {
    match piece.side {
        Side::White => kind_letter(piece.kind),
        Side::Black => (kind_letter(piece.kind) + LOWER_CASE) as u8,
    }
}

/// How a run of empty squares is written: not at all if it is empty, else as
/// the digit of its length.
pub open spec fn run_text(run: nat) -> Seq<u8> {
    if run == 0 {
        Seq::empty()
    } else {
        seq![(DIGIT_ZERO + run) as u8]
    }
}

/// The text of a row of squares that follows a run of `run` empty squares.
pub open spec fn row_text(row: Seq<Option<Piece>>, run: nat) -> Seq<u8>
    decreases row.len(),
{
    if row.len() == 0 {
        run_text(run)
    } else {
        match row[0] {
            None => row_text(row.drop_first(), run + 1),
            Some(piece) => run_text(run) + seq![piece_letter(piece)] + row_text(
                row.drop_first(),
                0,
            ),
        }
    }
}

/// The squares of one rank, from file `a` to file `h`.
pub open spec fn rank_row(squares: Seq<Option<Piece>>, rank: int) -> Seq<Option<Piece>> {
    squares.subrange(8 * rank, 8 * rank + 8)
}

/// The text of the ranks from `rank` down to the first.
pub open spec fn ranks_text(squares: Seq<Option<Piece>>, rank: int) -> Seq<u8>
    decreases rank,
{
    if rank <= 0 {
        row_text(rank_row(squares, 0), 0)
    } else {
        row_text(rank_row(squares, rank), 0) + seq![RANK_SEPARATOR] + ranks_text(
            squares,
            rank - 1,
        )
    }
}

/// The placement string of a board of 64 squares, the square of file `f` and
/// rank `r` at index `8 * r + f`.
pub open spec fn placement(squares: Seq<Option<Piece>>) -> Seq<u8> {
    ranks_text(squares, 7)
}

/// The index of a square among the 64 of a board.
pub open spec fn square_index(sq: Square) -> int {
    8 * sq.rank_index() + sq.file_index()
}

/// A byte that a placement string may hold: the separator of two ranks, the
/// length of a run of empty squares, or the letter of a piece.
pub open spec fn placement_byte(byte: u8) -> bool {
    ||| byte == RANK_SEPARATOR
    ||| DIGIT_ZERO < byte <= DIGIT_ZERO + 8
    ||| exists|piece: Piece| byte == #[trigger] piece_letter(piece)
}

/// The letter of a piece: upper case for White, lower case for Black.
pub fn piece_byte(piece: Piece) -> (letter: u8)
    ensures
        letter == piece_letter(piece),
{
    let upper: u8 = match piece.kind {
        PieceKind::Pawn => 80,
        PieceKind::Knight => 78,
        PieceKind::Bishop => 66,
        PieceKind::Rook => 82,
        PieceKind::Queen => 81,
        PieceKind::King => 75,
    };
    match piece.side {
        Side::White => upper,
        Side::Black => upper + LOWER_CASE,
    }
}

/// The text of a row that, with the run before it, spans at most a rank is
/// no longer than the row, but for the digit of a run that it starts with;
/// and it holds placement bytes only.
pub proof fn lemma_row_text(row: Seq<Option<Piece>>, run: nat)
    requires
        run + row.len() <= 8,
    ensures
        row_text(row, run).len() <= row.len() + (if run > 0 {
            1nat
        } else {
            0nat
        }),
        forall|i: int|
            0 <= i < row_text(row, run).len() ==> placement_byte(
                #[trigger] row_text(row, run)[i],
            ),
    decreases row.len(),
{
    if row.len() == 0 {
    } else {
        match row[0] {
            None => {
                lemma_row_text(row.drop_first(), run + 1);
            },
            Some(piece) => {
                lemma_row_text(row.drop_first(), 0);
                let head = run_text(run) + seq![piece_letter(piece)];
                let tail = row_text(row.drop_first(), 0);
                assert(row_text(row, run) == head + tail);
                assert forall|i: int| 0 <= i < (head + tail).len() implies placement_byte(
                    #[trigger] (head + tail)[i],
                ) by {
                    if i < head.len() {
                        if i == head.len() - 1 {
                            assert((head + tail)[i] == piece_letter(piece));
                        }
                    } else {
                        assert((head + tail)[i] == tail[i - head.len()]);
                    }
                }
            },
        }
    }
}

/// The text of the ranks from `rank` down to the first takes at most nine
/// bytes for each of them, less one, and holds placement bytes only.
pub proof fn lemma_ranks_text(squares: Seq<Option<Piece>>, rank: int)
    requires
        squares.len() == SQUARES,
        0 <= rank < 8,
    ensures
        ranks_text(squares, rank).len() <= 9 * (rank + 1) - 1,
        forall|i: int|
            0 <= i < ranks_text(squares, rank).len() ==> placement_byte(
                #[trigger] ranks_text(squares, rank)[i],
            ),
    decreases rank,
{
    lemma_row_text(rank_row(squares, rank), 0);
    if rank > 0 {
        lemma_ranks_text(squares, rank - 1);
        let head = row_text(rank_row(squares, rank), 0);
        let tail = ranks_text(squares, rank - 1);
        let text = head + seq![RANK_SEPARATOR] + tail;
        assert(ranks_text(squares, rank) == text);
        assert forall|i: int| 0 <= i < text.len() implies placement_byte(#[trigger] text[i]) by {
            if i < head.len() {
                assert(text[i] == head[i]);
            } else if i == head.len() {
                assert(text[i] == RANK_SEPARATOR);
            } else {
                assert(text[i] == tail[i - head.len() - 1]);
            }
        }
    }
}

/// The placement string of a board is at most 71 bytes long and holds
/// nothing but rank separators, run lengths from `1` to `8` and piece
/// letters.
pub proof fn lemma_placement_shape(squares: Seq<Option<Piece>>)
    requires
        squares.len() == SQUARES,
    ensures
        placement(squares).len() <= MAX_PLACEMENT_LEN,
        forall|i: int|
            0 <= i < placement(squares).len() ==> placement_byte(#[trigger] placement(squares)[i]),
{
    lemma_ranks_text(squares, 7);
}

/// The piece that a letter stands for, if it is the letter of one.
pub open spec fn letter_piece(letter: u8) -> Option<Piece> {
    if exists|piece: Piece| letter == #[trigger] piece_letter(piece) {
        Some(choose|piece: Piece| letter == #[trigger] piece_letter(piece))
    } else {
        None
    }
}

/// The squares that one byte of a placement string stands for: a digit for
/// as many empty squares, a letter for the square of its piece, and the rank
/// separator for none.
pub open spec fn byte_squares(byte: u8) -> Seq<Option<Piece>> {
    if DIGIT_ZERO < byte <= DIGIT_ZERO + 8 {
        Seq::new((byte - DIGIT_ZERO) as nat, |i: int| None::<Piece>)
    } else if letter_piece(byte) is Some {
        seq![letter_piece(byte)]
    } else {
        Seq::empty()
    }
}

/// The squares that a placement string stands for, in the order in which it
/// names them.
pub open spec fn text_squares(text: Seq<u8>) -> Seq<Option<Piece>>
    decreases text.len(),
{
    if text.len() == 0 {
        Seq::empty()
    } else {
        byte_squares(text[0]) + text_squares(text.drop_first())
    }
}

/// The squares of the ranks from `rank` down to the first, each rank from
/// file `a` to file `h`.
pub open spec fn ranks_squares(squares: Seq<Option<Piece>>, rank: int) -> Seq<Option<Piece>>
    decreases rank,
{
    if rank <= 0 {
        rank_row(squares, 0)
    } else {
        rank_row(squares, rank) + ranks_squares(squares, rank - 1)
    }
}

/// No two pieces share a letter.
pub proof fn lemma_letter_piece(piece: Piece)
    ensures
        letter_piece(piece_letter(piece)) == Some(piece),
        !(DIGIT_ZERO < piece_letter(piece) <= DIGIT_ZERO + 8),
        piece_letter(piece) != RANK_SEPARATOR,
{
    let found = choose|other: Piece| piece_letter(piece) == #[trigger] piece_letter(other);
    assert(piece_letter(found) == piece_letter(piece));
}

/// A text of one byte stands for the squares of that byte.
pub proof fn lemma_byte_text(byte: u8)
    ensures
        text_squares(seq![byte]) == byte_squares(byte),
{
    let text = seq![byte];
    assert(text.drop_first() =~= Seq::<u8>::empty());
    assert(text_squares(text.drop_first()) =~= Seq::<Option<Piece>>::empty());
    assert(byte_squares(byte) + Seq::<Option<Piece>>::empty() =~= byte_squares(byte));
}

/// A text that is made of two stands for the squares of the first, then those
/// of the second.
pub proof fn lemma_text_squares_concat(first: Seq<u8>, second: Seq<u8>)
    ensures
        text_squares(first + second) == text_squares(first) + text_squares(second),
    decreases first.len(),
{
    if first.len() == 0 {
        assert(first + second =~= second);
        assert(text_squares(first) + text_squares(second) =~= text_squares(second));
    } else {
        lemma_text_squares_concat(first.drop_first(), second);
        assert((first + second).drop_first() =~= first.drop_first() + second);
        assert(byte_squares(first[0]) + (text_squares(first.drop_first()) + text_squares(second))
            =~= byte_squares(first[0]) + text_squares(first.drop_first()) + text_squares(second));
    }
}

/// The text of a row stands for the squares of the row, after the empty
/// squares of the run that it follows.
pub proof fn lemma_row_squares(row: Seq<Option<Piece>>, run: nat)
    requires
        run + row.len() <= 8,
    ensures
        text_squares(row_text(row, run)) == Seq::new(run, |i: int| None::<Piece>) + row,
    decreases row.len(),
{
    let empties = Seq::new(run, |i: int| None::<Piece>);
    let run_squares = text_squares(run_text(run));
    assert(run_squares =~= empties) by {
        if run > 0 {
            lemma_byte_text((DIGIT_ZERO + run) as u8);
        }
    }
    if row.len() == 0 {
        assert(empties + row =~= empties);
    } else {
        let rest = row.drop_first();
        match row[0] {
            None => {
                lemma_row_squares(rest, run + 1);
                assert(Seq::new(run + 1, |i: int| None::<Piece>) + rest =~= empties + row);
            },
            Some(piece) => {
                lemma_row_squares(rest, 0);
                lemma_letter_piece(piece);
                let letter = seq![piece_letter(piece)];
                lemma_byte_text(piece_letter(piece));
                assert(text_squares(letter) =~= seq![Some(piece)]);
                lemma_text_squares_concat(run_text(run), letter);
                lemma_text_squares_concat(run_text(run) + letter, row_text(rest, 0));
                assert(Seq::new(0, |i: int| None::<Piece>) + rest =~= rest);
                assert(empties + seq![Some(piece)] + rest =~= empties + row);
            },
        }
    }
}

/// The text of the ranks from `rank` down to the first stands for their
/// squares.
pub proof fn lemma_ranks_squares(squares: Seq<Option<Piece>>, rank: int)
    requires
        squares.len() == SQUARES,
        0 <= rank < 8,
    ensures
        text_squares(ranks_text(squares, rank)) == ranks_squares(squares, rank),
    decreases rank,
{
    let row = rank_row(squares, rank);
    lemma_row_squares(row, 0);
    assert(Seq::new(0, |i: int| None::<Piece>) + row =~= row);
    if rank > 0 {
        lemma_ranks_squares(squares, rank - 1);
        let separator = seq![RANK_SEPARATOR];
        lemma_byte_text(RANK_SEPARATOR);
        assert(letter_piece(RANK_SEPARATOR) is None) by {
            if letter_piece(RANK_SEPARATOR) is Some {
                let piece = choose|piece: Piece| RANK_SEPARATOR == #[trigger] piece_letter(piece);
                lemma_letter_piece(piece);
            }
        }
        assert(text_squares(separator) =~= Seq::<Option<Piece>>::empty());
        lemma_text_squares_concat(row_text(row, 0), separator);
        lemma_text_squares_concat(row_text(row, 0) + separator, ranks_text(squares, rank - 1));
        assert(row + Seq::<Option<Piece>>::empty() + ranks_squares(squares, rank - 1) =~= row
            + ranks_squares(squares, rank - 1));
    }
}

/// The squares of the ranks from `rank` down hold the square of file `file`
/// and rank `below`, for every `below` up to `rank`, at the place that its
/// rank and file give it.
pub proof fn lemma_ranks_squares_index(
    squares: Seq<Option<Piece>>,
    rank: int,
    below: int,
    file: int,
)
    requires
        squares.len() == SQUARES,
        0 <= below <= rank < 8,
        0 <= file < 8,
    ensures
        ranks_squares(squares, rank).len() == 8 * (rank + 1),
        ranks_squares(squares, rank)[8 * (rank - below) + file] == squares[8 * below + file],
    decreases rank,
{
    if rank > 0 {
        lemma_ranks_squares_index(squares, rank - 1, if below < rank {
            below
        } else {
            0
        }, file);
    }
}

/// The placement string says all there is to say of where the pieces stand:
/// two boards with the same placement string are the same board.
pub proof fn lemma_placement_faithful(first: Seq<Option<Piece>>, second: Seq<Option<Piece>>)
    requires
        first.len() == SQUARES,
        second.len() == SQUARES,
        placement(first) == placement(second),
    ensures
        first == second,
{
    lemma_ranks_squares(first, 7);
    lemma_ranks_squares(second, 7);
    assert forall|i: int| 0 <= i < SQUARES implies first[i] == second[i] by {
        let rank = i / 8;
        let file = i % 8;
        lemma_ranks_squares_index(first, 7, rank, file);
        lemma_ranks_squares_index(second, 7, rank, file);
    }
    assert(first =~= second);
}

/// The pieces on the 64 squares at one moment: the square of file `f` and
/// rank `r` at index `8 * r + f`.
#[derive(Clone, Copy, Debug, PartialEq, Eq)]
pub struct BoardSnapshot {
    pub squares: [Option<Piece>; 64],
}

impl View for BoardSnapshot {
    type V = Seq<Option<Piece>>;

    open spec fn view(&self) -> Seq<Option<Piece>> {
        self.squares@
    }
}

impl BoardSnapshot {
    /// What stands on a square.
    pub open spec fn piece_at(self, sq: Square) -> Option<Piece> {
        self@[square_index(sq)]
    }

    /// The board with no piece on it.
    pub fn empty() -> (board: BoardSnapshot)
        ensures
            board@ == Seq::new(SQUARES as nat, |i: int| None::<Piece>),
    {
        let board = BoardSnapshot { squares: [None;64] };
        assert(board@ =~= Seq::new(SQUARES as nat, |i: int| None::<Piece>));
        board
    }

    /// What stands on a square.
    pub fn get(&self, sq: Square) -> (piece: Option<Piece>)
        ensures
            piece == self.piece_at(sq),
    {
        let index = sq.rank() as usize * 8 + sq.file() as usize;
        self.squares[index]
    }

    /// Puts a piece on a square, or clears the square.
    pub fn set(&mut self, sq: Square, piece: Option<Piece>)
        ensures
            final(self)@ == old(self)@.update(square_index(sq), piece),
    {
        let index = sq.rank() as usize * 8 + sq.file() as usize;
        self.squares[index] = piece;
    }

    /// Appends the text of one rank to `out`.
    fn write_rank(&self, rank: usize, out: &mut Vec<u8>)
        requires
            rank < 8,
        ensures
            final(out)@ == old(out)@ + row_text(rank_row(self@, rank as int), 0),
    {
        let ghost row = rank_row(self@, rank as int);
        let ghost before = out@;
        let mut run: u8 = 0;
        let mut file: usize = 0;
        assert(row.skip(0) =~= row);
        assert(out@ + row_text(row.skip(0), 0) == before + row_text(row, 0));
        while file < 8
            invariant
                file <= 8,
                rank < 8,
                run <= file,
                row == rank_row(self@, rank as int),
                before + row_text(row, 0) == out@ + row_text(row.skip(file as int), run as nat),
            decreases 8 - file,
        {
            let piece = self.squares[rank * 8 + file];
            let ghost rest = row.skip(file as int);
            let ghost written = out@;
            proof {
                assert(rest[0] == piece);
                assert(rest.drop_first() =~= row.skip(file as int + 1));
            }
            match piece {
                None => {
                    run += 1;
                },
                Some(p) => {
                    if run != 0 {
                        out.push(DIGIT_ZERO + run);
                    }
                    out.push(piece_byte(p));
                    proof {
                        let next = row_text(row.skip(file as int + 1), 0);
                        assert(out@ =~= written + (run_text(run as nat) + seq![piece_letter(p)]));
                        assert(written + (run_text(run as nat) + seq![piece_letter(p)] + next)
                            =~= written + (run_text(run as nat) + seq![piece_letter(p)]) + next);
                    }
                    run = 0;
                },
            }
            file += 1;
        }
        let ghost written = out@;
        assert(row.skip(8).len() == 0);
        if run != 0 {
            out.push(DIGIT_ZERO + run);
        }
        assert(out@ =~= written + run_text(run as nat));
    }

    /// Writes the placement string of the board.
    pub fn to_placement_string(&self) -> (text: Vec<u8>)
        ensures
            text@ == placement(self@),
            text@.len() <= MAX_PLACEMENT_LEN,
    {
        let mut out: Vec<u8> = Vec::new();
        let mut rank: usize = 7;
        assert(out@ + ranks_text(self@, 7) =~= placement(self@));
        while rank > 0
            invariant
                rank <= 7,
                placement(self@) == out@ + ranks_text(self@, rank as int),
            decreases rank,
        {
            let ghost written = out@;
            let ghost row = row_text(rank_row(self@, rank as int), 0);
            let ghost rest = ranks_text(self@, rank - 1);
            self.write_rank(rank, &mut out);
            out.push(RANK_SEPARATOR);
            proof {
                assert(out@ =~= written + (row + seq![RANK_SEPARATOR]));
                assert(written + (row + seq![RANK_SEPARATOR] + rest) =~= written + (row + seq![
                    RANK_SEPARATOR,
                ]) + rest);
            }
            rank -= 1;
        }
        self.write_rank(0, &mut out);
        proof {
            lemma_placement_shape(self@);
        }
        out
    }
}

} // verus!
