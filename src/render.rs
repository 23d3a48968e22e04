//! Draws a board state: the empty board, then each occupied square's sprite.

use vstd::prelude::*;
use crate::board::{BoardState, Piece, SpriteSet};
use crate::geometry::{origin_of, square_origin};
use crate::raster::{blank_bytes, blank_board, overlaid, Raster};

verus! {

/// The canvas after drawing the first `n` squares (a1 first) of `board` over
/// the empty board, each occupant's sprite at its square's origin.
pub open spec fn rendered(
    board: Seq<Option<Piece>>,
    sprites: Seq<Raster>,
    flip: bool,
    n: nat,
) -> Seq<u8>
    decreases n,
{
    if n == 0 {
        blank_bytes()
    } else {
        let prev = rendered(board, sprites, flip, (n - 1) as nat);
        let sq = n - 1;
        match board[sq] {
            None => prev,
            Some(p) => {
                let s = sprites[p.sprite_slot()];
                let o = origin_of(sq % 8, sq / 8, flip);
                overlaid(prev, 400, 400, s.data@, s.width, s.height, o.0 as i64, o.1 as i64)
            },
        }
    }
}

/// Draws the board as a 400 by 400 raster; with `flip` Black's side is at the bottom.
pub fn render_board(board: &BoardState, sprites: &SpriteSet, flip: bool) -> (r: Raster)
    requires
        board.wf(),
        sprites.wf(),
    ensures
        r.wf(),
        r.width == 400,
        r.height == 400,
        r.data@ == rendered(board.squares@, sprites.sprites@, flip, 64),
{
    let mut img = blank_board();
    let mut sq: usize = 0;
    while sq < 64
        invariant
            board.wf(),
            sprites.wf(),
            sq <= 64,
            img.wf(),
            img.width == 400,
            img.height == 400,
            img.data@ == rendered(board.squares@, sprites.sprites@, flip, sq as nat),
        decreases 64 - sq,
    {
        if let Some(piece) = board.piece_at(sq) {
            let (x, y) = square_origin((sq % 8) as u8, (sq / 8) as u8, flip);
            img = img.overlay(sprites.sprite(piece), x, y);
        }
        sq = sq + 1;
    }
    img
}

/// With no piece on the board, drawing it leaves exactly the empty checkerboard.
pub proof fn lemma_empty_board_is_checkerboard(
    board: Seq<Option<Piece>>,
    sprites: Seq<Raster>,
    flip: bool,
    n: nat,
)
    requires
        n <= board.len(),
        forall|i: int| 0 <= i < board.len() ==> #[trigger] board[i] is None,
    ensures
        rendered(board, sprites, flip, n) == blank_bytes(),
    decreases n,
{
    if n > 0 {
        lemma_empty_board_is_checkerboard(board, sprites, flip, (n - 1) as nat);
    }
}

} // verus!
