//! The board as a square-to-occupant lookup, and the sprite for each piece.

use vstd::prelude::*;
use crate::raster::Raster;

verus! {

#[derive(Clone, Copy, Debug, PartialEq, Eq, Structural)]
pub enum PieceColor {
    White,
    Black,
}

#[derive(Clone, Copy, Debug, PartialEq, Eq, Structural)]
pub enum Role {
    Pawn,
    Knight,
    Bishop,
    Rook,
    Queen,
    King,
}

#[derive(Clone, Copy, Debug, PartialEq, Eq, Structural)]
pub struct Piece {
    pub color: PieceColor,
    pub role: Role,
}

/// The piece that a FEN letter stands for: upper case for White, lower case for Black.
pub open spec fn piece_of_char(c: char) -> Option<Piece> {
    let role = match c {
        'P' | 'p' => Some(Role::Pawn),
        'N' | 'n' => Some(Role::Knight),
        'B' | 'b' => Some(Role::Bishop),
        'R' | 'r' => Some(Role::Rook),
        'Q' | 'q' => Some(Role::Queen),
        'K' | 'k' => Some(Role::King),
        _ => None,
    };
    match role {
        Some(role) => Some(
            Piece {
                color: if 'A' <= c <= 'Z' {
                    PieceColor::White
                } else {
                    PieceColor::Black
                },
                role,
            },
        ),
        None => None,
    }
}

impl Role {
    pub open spec fn rank_in_set(self) -> int {
        match self {
            Role::Pawn => 0,
            Role::Knight => 1,
            Role::Bishop => 2,
            Role::Rook => 3,
            Role::Queen => 4,
            Role::King => 5,
        }
    }
}

impl Piece {
    /// Position of this piece's sprite in a sprite set: White's six roles, then Black's.
    pub open spec fn sprite_slot(self) -> int {
        match self.color {
            PieceColor::White => self.role.rank_in_set(),
            PieceColor::Black => 6 + self.role.rank_in_set(),
        }
    }

    pub fn from_char(c: char) -> (r: Option<Piece>)
        ensures
            r == piece_of_char(c),
    {
        let role = match c {
            'P' | 'p' => Role::Pawn,
            'N' | 'n' => Role::Knight,
            'B' | 'b' => Role::Bishop,
            'R' | 'r' => Role::Rook,
            'Q' | 'q' => Role::Queen,
            'K' | 'k' => Role::King,
            _ => {
                return None;
            },
        };
        let color = if 'A' <= c && c <= 'Z' {
            PieceColor::White
        } else {
            PieceColor::Black
        };
        Some(Piece { color, role })
    }

    pub fn sprite_index(&self) -> (r: usize)
        ensures
            r == self.sprite_slot(),
            r < 12,
    {
        let base: usize = match self.role {
            Role::Pawn => 0,
            Role::Knight => 1,
            Role::Bishop => 2,
            Role::Rook => 3,
            Role::Queen => 4,
            Role::King => 5,
        };
        match self.color {
            PieceColor::White => base,
            PieceColor::Black => 6 + base,
        }
    }
}

/// The occupant of each square, square `8 * rank + file` (a1 first, h8 last).
pub struct BoardState {
    pub squares: Vec<Option<Piece>>,
}

/// The occupants that a list of per-square letters stands for.
pub open spec fn pieces_of_chars(cs: Seq<Option<char>>) -> Seq<Option<Piece>> {
    cs.map_values(
        |c: Option<char>|
            match c {
                Some(c) => piece_of_char(c),
                None => None,
            },
    )
}

/// A list of per-square letters that describes a board: 64 entries, each empty
/// or a piece letter.
pub open spec fn chars_describe_board(cs: Seq<Option<char>>) -> bool {
    &&& cs.len() == 64
    &&& forall|i: int| 0 <= i < 64 && #[trigger] cs[i] is Some ==> piece_of_char(cs[i]->0) is Some
}

/// What the board field of a FEN describes, as one letter or none per square,
/// a1 to h8.
pub uninterp spec fn board_fen_squares(fen: Seq<char>) -> Option<Seq<Option<char>>>;

/// Relies on shakmaty's `FromStr for Board` (Board::from_ascii_board_fen) to read
/// a FEN board field, and on Board::piece_at with Piece::char to list the
/// occupant of each square in the order of Square::ALL.
#[verifier::external_body]
fn parse_board_fen(fen: &str) -> (r: Option<Vec<Option<char>>>)
    ensures
        r is None <==> board_fen_squares(fen@) is None,
        r matches Some(v) ==> board_fen_squares(fen@) == Some(v@),
{
    match <shakmaty::Board as std::str::FromStr>::from_str(fen) {
        Ok(board) => Some(
            shakmaty::Square::ALL.iter().map(|&sq| board.piece_at(sq).map(|p| p.char())).collect(),
        ),
        Err(_) => None,
    }
}

impl BoardState {
    pub open spec fn wf(&self) -> bool {
        self.squares@.len() == 64
    }

    /// The board with no piece on it.
    pub fn empty() -> (r: BoardState)
        ensures
            r.wf(),
            forall|i: int| 0 <= i < 64 ==> #[trigger] r.squares@[i] is None,
    {
        let mut squares: Vec<Option<Piece>> = Vec::new();
        let mut i: usize = 0;
        while i < 64
            invariant
                i <= 64,
                squares@.len() == i,
                forall|j: int| 0 <= j < i ==> #[trigger] squares@[j] is None,
            decreases 64 - i,
        {
            squares.push(None);
            i = i + 1;
        }
        BoardState { squares }
    }

    /// The occupant of square `8 * rank + file`.
    pub fn piece_at(&self, square: usize) -> (r: Option<Piece>)
        requires
            self.wf(),
            square < 64,
        ensures
            r == self.squares@[square as int],
    {
        self.squares[square]
    }

    /// Builds a board from one letter or none per square, a1 to h8; `None`
    /// unless there are 64 entries and each letter names a piece.
    pub fn from_chars(cs: &Vec<Option<char>>) -> (r: Option<BoardState>)
        ensures
            r is Some <==> chars_describe_board(cs@),
            r matches Some(b) ==> b.wf() && b.squares@ == pieces_of_chars(cs@),
    {
        if cs.len() != 64 {
            return None;
        }
        let mut squares: Vec<Option<Piece>> = Vec::new();
        let mut i: usize = 0;
        while i < 64
            invariant
                cs@.len() == 64,
                i <= 64,
                squares@.len() == i,
                forall|j: int| 0 <= j < i ==> #[trigger] squares@[j] == pieces_of_chars(cs@)[j],
                forall|j: int|
                    0 <= j < i && #[trigger] cs@[j] is Some ==> piece_of_char(cs@[j]->0) is Some,
            decreases 64 - i,
        {
            match cs[i] {
                Some(c) => match Piece::from_char(c) {
                    Some(p) => squares.push(Some(p)),
                    None => {
                        return None;
                    },
                },
                None => squares.push(None),
            }
            i = i + 1;
        }
        assert(squares@ =~= pieces_of_chars(cs@));
        Some(BoardState { squares })
    }

    /// Reads the board field of a FEN (`rnbqkbnr/pppppppp/8/8/8/8/PPPPPPPP/RNBQKBNR`);
    /// `None` where it is not one.
    pub fn from_board_fen(fen: &str) -> (r: Option<BoardState>)
        ensures
            r is Some <==> (board_fen_squares(fen@) matches Some(cs) && chars_describe_board(cs)),
            r matches Some(b) ==> b.wf() && b.squares@ == pieces_of_chars(
                board_fen_squares(fen@)->0,
            ),
    {
        match parse_board_fen(fen) {
            Some(cs) => BoardState::from_chars(&cs),
            None => None,
        }
    }
}

/// One sprite per piece, in the order of `Piece::sprite_slot`.
pub struct SpriteSet {
    pub sprites: Vec<Raster>,
}

impl SpriteSet {
    pub open spec fn wf(&self) -> bool {
        &&& self.sprites@.len() == 12
        &&& forall|i: int| 0 <= i < 12 ==> (#[trigger] self.sprites@[i]).wf()
    }

    /// Takes twelve well-formed rasters: White's pawn, knight, bishop, rook,
    /// queen and king, then Black's in the same order. `None` otherwise.
    pub fn from_rasters(sprites: Vec<Raster>) -> (r: Option<SpriteSet>)
        ensures
            r is Some <==> (sprites@.len() == 12 && forall|i: int|
                0 <= i < 12 ==> (#[trigger] sprites@[i]).wf()),
            r matches Some(s) ==> s.sprites@ == sprites@,
    {
        if sprites.len() != 12 {
            return None;
        }
        let mut i: usize = 0;
        while i < 12
            invariant
                sprites@.len() == 12,
                i <= 12,
                forall|j: int| 0 <= j < i ==> (#[trigger] sprites@[j]).wf(),
            decreases 12 - i,
        {
            if !sprites[i].is_well_formed() {
                return None;
            }
            i = i + 1;
        }
        Some(SpriteSet { sprites })
    }

    pub fn sprite(&self, piece: Piece) -> (r: &Raster)
        requires
            self.wf(),
        ensures
            *r == self.sprites@[piece.sprite_slot()],
            r.wf(),
    {
        &self.sprites[piece.sprite_index()]
    }
}

} // verus!
