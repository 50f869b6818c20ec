//! Squares, moves and the five-byte move code.
//!
//! A move travels as `<file><rank><file><rank><promotion>`: the files as the
//! letters `A`..`H`, the ranks as the digits `1`..`8`, and the promotion as
//! one of `K`, `B`, `R`, `Q`, or `0` where the move promotes nothing.

use vstd::prelude::*;
use crate::error::ProtocolError;

verus! {

/// The letter `A`, which stands for the first file.
pub const FILE_BASE: u8 = 65;

/// The digit `1`, which stands for the first rank.
pub const RANK_BASE: u8 = 49;

/// The digit `0`, which stands for "no promotion".
pub const NO_PROMOTION: u8 = 48;

/// The letter `K`: promotion to a knight.
pub const KNIGHT_LETTER: u8 = 75;

/// The letter `B`: promotion to a bishop.
pub const BISHOP_LETTER: u8 = 66;

/// The letter `R`: promotion to a rook.
pub const ROOK_LETTER: u8 = 82;

/// The letter `Q`: promotion to a queen.
pub const QUEEN_LETTER: u8 = 81;

/// The length of a move code.
pub const MOVE_CODE_LEN: usize = 5;

/// A square of the board: the files `a`..`h` and the ranks `1`..`8`, each
/// counted from 0 to 7.
#[derive(Clone, Copy, Debug, PartialEq, Eq, Structural)]
pub struct Square {
    file: u8,
    rank: u8,
}

impl Square {
    /// The file of the square, 0 for `a`.
    pub closed spec fn file_index(self) -> int {
        self.file as int
    }

    /// The rank of the square, 0 for the first rank.
    pub closed spec fn rank_index(self) -> int {
        self.rank as int
    }

    /// The square with the given coordinates.
    pub closed spec fn at(file: int, rank: int) -> Square {
        Square { file: file as u8, rank: rank as u8 }
    }

    /// Both coordinates lie on the board.
    pub open spec fn wf(self) -> bool {
        0 <= self.file_index() < 8 && 0 <= self.rank_index() < 8
    }

    #[verifier::type_invariant]
    spec fn on_board(self) -> bool {
        self.file < 8 && self.rank < 8
    }

    /// `at` builds the square that has the coordinates it was given.
    pub proof fn lemma_at(file: int, rank: int)
        requires
            0 <= file < 8,
            0 <= rank < 8,
        ensures
            Square::at(file, rank).file_index() == file,
            Square::at(file, rank).rank_index() == rank,
            Square::at(file, rank).wf(),
    {
    }

    /// A square on the board is the one that `at` builds from its coordinates:
    /// two squares with the same coordinates are equal.
    pub proof fn lemma_coordinates(self)
        requires
            self.wf(),
        ensures
            self == Square::at(self.file_index(), self.rank_index()),
    {
    }

    /// The square with the given coordinates, if both are below 8.
    pub fn new(file: u8, rank: u8) -> (sq: Option<Square>)
        ensures
            sq == (if file < 8 && rank < 8 {
                Some(Square::at(file as int, rank as int))
            } else {
                None
            }),
            sq matches Some(s) ==> s.file_index() == file && s.rank_index() == rank,
    {
        if file < 8 && rank < 8 {
            Some(Square { file, rank })
        } else {
            None
        }
    }

    /// The file of the square, 0 for `a`.
    pub fn file(&self) -> (file: u8)
        ensures
            file == self.file_index(),
            self.wf(),
    {
        proof {
            use_type_invariant(self);
        }
        self.file
    }

    /// The rank of the square, 0 for the first rank.
    pub fn rank(&self) -> (rank: u8)
        ensures
            rank == self.rank_index(),
            self.wf(),
    {
        proof {
            use_type_invariant(self);
        }
        self.rank
    }
}

/// The piece that a pawn becomes on the last rank.
#[derive(Clone, Copy, Debug, PartialEq, Eq, Structural)]
pub enum PromotionKind {
    Knight,
    Bishop,
    Rook,
    Queen,
}

/// A move: where the piece stands, where it goes, and what it becomes if it
/// promotes. Whether the move is legal is for the rules engine to say.
#[derive(Clone, Copy, Debug, PartialEq, Eq, Structural)]
pub struct Move {
    pub from: Square,
    pub to: Square,
    pub promotion: Option<PromotionKind>,
}

impl Move {
    /// Both squares lie on the board.
    pub open spec fn wf(self) -> bool {
        self.from.wf() && self.to.wf()
    }
}

/// The letter that stands for a file.
pub open spec fn file_letter(file: int) -> u8 {
    (FILE_BASE + file) as u8
}

/// The digit that stands for a rank.
pub open spec fn rank_digit(rank: int) -> u8 {
    (RANK_BASE + rank) as u8
}

/// The byte that stands for a promotion choice.
pub open spec fn promotion_letter(promotion: Option<PromotionKind>) -> u8 {
    match promotion {
        Some(PromotionKind::Knight) => KNIGHT_LETTER,
        Some(PromotionKind::Bishop) => BISHOP_LETTER,
        Some(PromotionKind::Rook) => ROOK_LETTER,
        Some(PromotionKind::Queen) => QUEEN_LETTER,
        None => NO_PROMOTION,
    }
}

/// The promotion choice that a byte stands for: `0` and every byte that is
/// none of the four letters mean "none".
pub open spec fn promotion_of(letter: u8) -> Option<PromotionKind> {
    if letter == KNIGHT_LETTER {
        Some(PromotionKind::Knight)
    } else if letter == BISHOP_LETTER {
        Some(PromotionKind::Bishop)
    } else if letter == ROOK_LETTER {
        Some(PromotionKind::Rook)
    } else if letter == QUEEN_LETTER {
        Some(PromotionKind::Queen)
    } else {
        None
    }
}

/// The square that a letter and a digit name, if the letter is one of
/// `A`..`H` and the digit one of `1`..`8`.
pub open spec fn square_of(letter: u8, digit: u8) -> Option<Square> {
    if FILE_BASE <= letter < FILE_BASE + 8 && RANK_BASE <= digit < RANK_BASE + 8 {
        Some(Square::at(letter - FILE_BASE, digit - RANK_BASE))
    } else {
        None
    }
}

/// The code of a move: five bytes.
pub open spec fn move_code(mv: Move) -> Seq<u8> {
    seq![
        file_letter(mv.from.file_index()),
        rank_digit(mv.from.rank_index()),
        file_letter(mv.to.file_index()),
        rank_digit(mv.to.rank_index()),
        promotion_letter(mv.promotion),
    ]
}

/// What a move code means. The first two bytes name the square the piece
/// leaves, the next two the square it reaches, the fifth the promotion. A
/// code without a fifth byte promotes nothing, and bytes after the fifth are
/// not read. A code that is too short for two squares, or names a square off
/// the board, is refused.
pub open spec fn decoded_move(code: Seq<u8>) -> Result<Move, ProtocolError> {
    if code.len() < 4 {
        Err(ProtocolError::InvalidSquare)
    } else {
        match (square_of(code[0], code[1]), square_of(code[2], code[3])) {
            (Some(from), Some(to)) => Ok(
                Move {
                    from,
                    to,
                    promotion: if code.len() > 4 {
                        promotion_of(code[4])
                    } else {
                        None
                    },
                },
            ),
            _ => Err(ProtocolError::InvalidSquare),
        }
    }
}

/// The byte that stands for a promotion choice.
pub fn promotion_byte(promotion: Option<PromotionKind>) -> (letter: u8)
    ensures
        letter == promotion_letter(promotion),
{
    match promotion {
        Some(PromotionKind::Knight) => KNIGHT_LETTER,
        Some(PromotionKind::Bishop) => BISHOP_LETTER,
        Some(PromotionKind::Rook) => ROOK_LETTER,
        Some(PromotionKind::Queen) => QUEEN_LETTER,
        None => NO_PROMOTION,
    }
}

/// Reads a promotion choice from the fifth byte of a move code.
pub fn parse_promotion(letter: u8) -> (promotion: Option<PromotionKind>)
    ensures
        promotion == promotion_of(letter),
{
    if letter == KNIGHT_LETTER {
        Some(PromotionKind::Knight)
    } else if letter == BISHOP_LETTER {
        Some(PromotionKind::Bishop)
    } else if letter == ROOK_LETTER {
        Some(PromotionKind::Rook)
    } else if letter == QUEEN_LETTER {
        Some(PromotionKind::Queen)
    } else {
        None
    }
}

/// Reads a square from a file letter and a rank digit.
pub fn parse_square(letter: u8, digit: u8) -> (sq: Option<Square>)
    ensures
        sq == square_of(letter, digit),
{
    let on_file = FILE_BASE <= letter && letter < FILE_BASE + 8;
    let on_rank = RANK_BASE <= digit && digit < RANK_BASE + 8;
    if on_file && on_rank {
        Square::new(letter - FILE_BASE, digit - RANK_BASE)
    } else {
        None
    }
}

/// Writes a move as its five-byte code.
pub fn encode_move(mv: Move) -> (code: Vec<u8>)
    ensures
        code@ == move_code(mv),
        code@.len() == MOVE_CODE_LEN,
{
    let mut code: Vec<u8> = Vec::new();
    code.push(FILE_BASE + mv.from.file());
    code.push(RANK_BASE + mv.from.rank());
    code.push(FILE_BASE + mv.to.file());
    code.push(RANK_BASE + mv.to.rank());
    code.push(promotion_byte(mv.promotion));
    code
}

/// Reads a move from its code, or refuses the code with
/// `ProtocolError::InvalidSquare`.
pub fn decode_move(code: &[u8]) -> (decoded: Result<Move, ProtocolError>)
    ensures
        decoded == decoded_move(code@),
        decoded matches Ok(mv) ==> mv.wf(),
{
    proof {
        lemma_decoded_on_board(code@);
    }
    if code.len() < 4 {
        return Err(ProtocolError::InvalidSquare);
    }
    let from = parse_square(code[0], code[1]);
    let to = parse_square(code[2], code[3]);
    match (from, to) {
        (Some(from), Some(to)) => {
            let promotion = if code.len() > 4 {
                parse_promotion(code[4])
            } else {
                None
            };
            Ok(Move { from, to, promotion })
        },
        _ => Err(ProtocolError::InvalidSquare),
    }
}

/// Decoding the code of a move gives the move back, whatever its squares and
/// its promotion choice.
pub proof fn lemma_decode_encode(mv: Move)
    requires
        mv.wf(),
    ensures
        decoded_move(move_code(mv)) == Ok::<Move, ProtocolError>(mv),
{
    mv.from.lemma_coordinates();
    mv.to.lemma_coordinates();
}

/// A move that was decoded has both its squares on the board.
pub proof fn lemma_decoded_on_board(code: Seq<u8>)
    ensures
        decoded_move(code) matches Ok(mv) ==> mv.wf(),
{
    if code.len() >= 4 {
        if square_of(code[0], code[1]) is Some {
            Square::lemma_at(code[0] - FILE_BASE, code[1] - RANK_BASE);
        }
        if square_of(code[2], code[3]) is Some {
            Square::lemma_at(code[2] - FILE_BASE, code[3] - RANK_BASE);
        }
    }
}

} // verus!
