//! Where each square of the board sits on the 400 by 400 pixel canvas.

use vstd::prelude::*;

verus! {

/// Side of one square, in pixels.
pub const SQUARE_SIZE: i64 = 50;

/// Offset of the last square along either axis, in pixels.
pub const LAST_OFFSET: i64 = 350;

/// Top-left corner of a square seen from White's side: rank 7 at the top.
pub open spec fn white_origin(file: int, rank: int) -> (int, int) {
    (file * 50, (7 - rank) * 50)
}

/// Mirrors an offset about the board's centre (a turn of the board by 180 degrees).
pub open spec fn flipped(o: (int, int)) -> (int, int) {
    (350 - o.0, 350 - o.1)
}

/// Top-left corner of a square under the given orientation.
pub open spec fn origin_of(file: int, rank: int, flip: bool) -> (int, int) {
    if flip {
        flipped(white_origin(file, rank))
    } else {
        white_origin(file, rank)
    }
}

/// Whether pixel `(px, py)` lies in the 50 by 50 cell whose top-left corner is `o`.
pub open spec fn in_cell(o: (int, int), px: int, py: int) -> bool {
    o.0 <= px < o.0 + 50 && o.1 <= py < o.1 + 50
}

/// Pixel offset of the top-left corner of a square, seen from White's side.
pub fn square_to_pixels(file: u8, rank: u8) -> (r: (i64, i64))
    requires
        file < 8,
        rank < 8,
    ensures
        (r.0 as int, r.1 as int) == white_origin(file as int, rank as int),
{
    ((file as i64) * SQUARE_SIZE, (7 - rank as i64) * SQUARE_SIZE)
}

/// Pixel offset of the top-left corner of a square; with `flip` the board is
/// seen from Black's side.
pub fn square_origin(file: u8, rank: u8, flip: bool) -> (r: (i64, i64))
    requires
        file < 8,
        rank < 8,
    ensures
        (r.0 as int, r.1 as int) == origin_of(file as int, rank as int, flip),
        0 <= r.0 <= 350,
        0 <= r.1 <= 350,
{
    let (x, y) = square_to_pixels(file, rank);
    if flip {
        (LAST_OFFSET - x, LAST_OFFSET - y)
    } else {
        (x, y)
    }
}

/// Turning the board twice gives back every offset.
pub proof fn lemma_flip_involution(o: (int, int))
    ensures
        flipped(flipped(o)) == o,
{
}

/// The flipped origin of a square is the flip of its unflipped origin, and
/// flipping it again gives that origin back.
pub proof fn lemma_origin_flip_involution(file: int, rank: int)
    ensures
        origin_of(file, rank, true) == flipped(origin_of(file, rank, false)),
        flipped(origin_of(file, rank, true)) == origin_of(file, rank, false),
{
}

/// Two distinct squares get distinct cells that share no pixel, under either
/// orientation, and every cell lies on the 400 by 400 canvas.
pub proof fn lemma_cells_disjoint(f1: int, r1: int, f2: int, r2: int, flip: bool)
    requires
        0 <= f1 < 8,
        0 <= r1 < 8,
        0 <= f2 < 8,
        0 <= r2 < 8,
        f1 != f2 || r1 != r2,
    ensures
        origin_of(f1, r1, flip) != origin_of(f2, r2, flip),
        forall|px: int, py: int|
            !(#[trigger] in_cell(origin_of(f1, r1, flip), px, py) && in_cell(
                origin_of(f2, r2, flip),
                px,
                py,
            )),
        forall|px: int, py: int|
            #[trigger] in_cell(origin_of(f1, r1, flip), px, py) ==> 0 <= px < 400 && 0 <= py < 400,
{
    assert forall|px: int, py: int|
        !(#[trigger] in_cell(origin_of(f1, r1, flip), px, py) && in_cell(
            origin_of(f2, r2, flip),
            px,
            py,
        )) by {
        if f1 != f2 {
            assert(f1 * 50 + 50 <= f2 * 50 || f2 * 50 + 50 <= f1 * 50) by (nonlinear_arith)
                requires
                    f1 != f2,
            ;
        } else {
            assert(r1 * 50 + 50 <= r2 * 50 || r2 * 50 + 50 <= r1 * 50) by (nonlinear_arith)
                requires
                    r1 != r2,
            ;
        }
    }
}

} // verus!
