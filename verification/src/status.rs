//! The status of a game and its three-byte wire code.
//!
//! The code reads as a score, White's point before the dash and Black's after
//! it: `0-0` while the game is going on, `1-0` and `0-1` for a win, `1-1` for
//! a draw.

use vstd::prelude::*;

verus! {

/// The digit `0`.
pub const SCORE_NONE: u8 = 48;

/// The digit `1`.
pub const SCORE_POINT: u8 = 49;

/// The dash between the two scores.
pub const SCORE_DASH: u8 = 45;

/// The length of a status code.
pub const STATUS_CODE_LEN: usize = 3;

/// How a game stands.
#[derive(Clone, Copy, Debug, PartialEq, Eq, Structural)]
pub enum GameStatusCode {
    Ongoing,
    WhiteWon,
    BlackWon,
    Draw,
}

impl GameStatusCode {
    /// The wire code of a status.
    pub open spec fn wire(self) -> Seq<u8> {
        match self {
            GameStatusCode::Ongoing => seq![SCORE_NONE, SCORE_DASH, SCORE_NONE],
            GameStatusCode::WhiteWon => seq![SCORE_POINT, SCORE_DASH, SCORE_NONE],
            GameStatusCode::BlackWon => seq![SCORE_NONE, SCORE_DASH, SCORE_POINT],
            GameStatusCode::Draw => seq![SCORE_POINT, SCORE_DASH, SCORE_POINT],
        }
    }

    /// The status that a wire code stands for. Only the four codes stand for
    /// one: no other byte string is read as a status.
    pub open spec fn parsed(code: Seq<u8>) -> Option<GameStatusCode> {
        if code == GameStatusCode::Ongoing.wire() {
            Some(GameStatusCode::Ongoing)
        } else if code == GameStatusCode::WhiteWon.wire() {
            Some(GameStatusCode::WhiteWon)
        } else if code == GameStatusCode::BlackWon.wire() {
            Some(GameStatusCode::BlackWon)
        } else if code == GameStatusCode::Draw.wire() {
            Some(GameStatusCode::Draw)
        } else {
            None
        }
    }

    /// The game has ended.
    pub open spec fn ended(self) -> bool {
        self != GameStatusCode::Ongoing
    }

    /// Whether the game has ended.
    pub fn is_over(self) -> (over: bool)
        ensures
            over == self.ended(),
    {
        match self {
            GameStatusCode::Ongoing => false,
            GameStatusCode::WhiteWon => true,
            GameStatusCode::BlackWon => true,
            GameStatusCode::Draw => true,
        }
    }

    /// Writes the status as its three-byte code.
    pub fn to_wire(self) -> (code: Vec<u8>)
        ensures
            code@ == self.wire(),
            code@.len() == STATUS_CODE_LEN,
    {
        let (white, black) = match self {
            GameStatusCode::Ongoing => (SCORE_NONE, SCORE_NONE),
            GameStatusCode::WhiteWon => (SCORE_POINT, SCORE_NONE),
            GameStatusCode::BlackWon => (SCORE_NONE, SCORE_POINT),
            GameStatusCode::Draw => (SCORE_POINT, SCORE_POINT),
        };
        let mut code: Vec<u8> = Vec::new();
        code.push(white);
        code.push(SCORE_DASH);
        code.push(black);
        code
    }

    /// Reads a status from its code; `None` for every other byte string.
    pub fn from_wire(code: &[u8]) -> (status: Option<GameStatusCode>)
        ensures
            status == GameStatusCode::parsed(code@),
    {
        if code.len() != 3 || code[1] != SCORE_DASH {
            return None;
        }
        let white = code[0];
        let black = code[2];
        let status = if white == SCORE_NONE && black == SCORE_NONE {
            Some(GameStatusCode::Ongoing)
        } else if white == SCORE_POINT && black == SCORE_NONE {
            Some(GameStatusCode::WhiteWon)
        } else if white == SCORE_NONE && black == SCORE_POINT {
            Some(GameStatusCode::BlackWon)
        } else if white == SCORE_POINT && black == SCORE_POINT {
            Some(GameStatusCode::Draw)
        } else {
            None
        };
        proof {
            if let Some(s) = status {
                assert(code@ =~= s.wire());
            }
        }
        status
    }
}

/// Every status has a code of three bytes, and reading the code gives the
/// status back: the mapping is total, and no two statuses share a code.
pub proof fn lemma_status_roundtrip(status: GameStatusCode)
    ensures
        status.wire().len() == STATUS_CODE_LEN,
        GameStatusCode::parsed(status.wire()) == Some(status),
{
    assert(GameStatusCode::Ongoing.wire()[0] != GameStatusCode::WhiteWon.wire()[0]);
    assert(GameStatusCode::Ongoing.wire()[2] != GameStatusCode::BlackWon.wire()[2]);
    assert(GameStatusCode::Ongoing.wire()[0] != GameStatusCode::Draw.wire()[0]);
    assert(GameStatusCode::WhiteWon.wire()[0] != GameStatusCode::BlackWon.wire()[0]);
    assert(GameStatusCode::WhiteWon.wire()[2] != GameStatusCode::Draw.wire()[2]);
    assert(GameStatusCode::BlackWon.wire()[0] != GameStatusCode::Draw.wire()[0]);
}

/// A byte string is read as a status only if it is that status's code: there
/// is no fallback that maps an unknown code to some status.
pub proof fn lemma_status_exact(code: Seq<u8>)
    ensures
        GameStatusCode::parsed(code) matches Some(status) ==> status.wire() == code,
        GameStatusCode::parsed(code) is None ==> forall|status: GameStatusCode|
            #[trigger] status.wire() != code,
{
}

} // verus!
