//! Turns the positions of a game, one at a time, into animation frames.

use vstd::prelude::*;
use crate::board::{board_fen_squares, chars_describe_board, pieces_of_chars, BoardState, Piece, SpriteSet};
use crate::delta::{after_submit, flushed, out_frame_is, FrameDelta, OutFrame, FINAL_FRAME_DELAY, FRAME_DELAY};
use crate::palette::{fixed_palette, fixed_palette_spec, indexed_frame, quantize, Rgb, TRANSPARENT_INDEX};
use crate::raster::Raster;
use crate::render::{render_board, rendered};

verus! {

/// The header tags of a game that change the position it starts from.
#[derive(Clone, Copy, Debug, PartialEq, Eq, Structural)]
pub enum TagKind {
    /// `FEN`: the starting position.
    Fen,
    /// `Variant`: the rules the game is played under.
    Variant,
    /// Any other tag, which does not matter here.
    Other,
}

/// The kind of a header tag, by its name (`FEN` and `Variant`, exactly as written).
pub open spec fn tag_kind_of(name: Seq<u8>) -> TagKind {
    if name == seq![0x46u8, 0x45u8, 0x4eu8] {
        TagKind::Fen
    } else if name == seq![0x56u8, 0x61u8, 0x72u8, 0x69u8, 0x61u8, 0x6eu8, 0x74u8] {
        TagKind::Variant
    } else {
        TagKind::Other
    }
}

fn bytes_equal(a: &[u8], b: &[u8]) -> (r: bool)
    ensures
        r == (a@ == b@),
{
    if a.len() != b.len() {
        return false;
    }
    let mut i: usize = 0;
    while i < a.len()
        invariant
            a@.len() == b@.len(),
            i <= a@.len(),
            forall|j: int| 0 <= j < i ==> a@[j] == b@[j],
        decreases a@.len() - i,
    {
        if a[i] != b[i] {
            return false;
        }
        i = i + 1;
    }
    assert(a@ =~= b@);
    true
}

/// Which of the tags that set up the starting position `name` is, if any.
pub fn tag_kind(name: &[u8]) -> (r: TagKind)
    ensures
        r == tag_kind_of(name@),
{
    let fen: [u8; 3] = [0x46, 0x45, 0x4e];
    let variant: [u8; 7] = [0x56, 0x61, 0x72, 0x69, 0x61, 0x6e, 0x74];
    assert(fen@ =~= seq![0x46u8, 0x45u8, 0x4eu8]);
    assert(variant@ =~= seq![0x56u8, 0x61u8, 0x72u8, 0x69u8, 0x61u8, 0x6eu8, 0x74u8]);
    if bytes_equal(name, fen.as_slice()) {
        TagKind::Fen
    } else if bytes_equal(name, variant.as_slice()) {
        TagKind::Variant
    } else {
        TagKind::Other
    }
}

/// Draws the board field of a FEN; `None` where the text is not one.
pub fn render_position(fen: &str, sprites: &SpriteSet, flip: bool) -> (r: Option<Raster>)
    requires
        sprites.wf(),
    ensures
        r is Some <==> (board_fen_squares(fen@) matches Some(cs) && chars_describe_board(cs)),
        r matches Some(img) ==> img.wf() && img.width == 400 && img.height == 400 && img.data@
            == rendered(pieces_of_chars(board_fen_squares(fen@)->0), sprites.sprites@, flip, 64),
{
    match BoardState::from_board_fen(fen) {
        Some(board) => Some(render_board(&board, sprites, flip)),
        None => None,
    }
}

/// Renders the positions of one game into frames of the fixed palette, holding
/// back each frame until the next position (or the end of the game) is known.
pub struct GameRenderer {
    pub delta: FrameDelta,
    pub flip: bool,
    pub sprites: SpriteSet,
    pub palette: Vec<Rgb>,
}

/// The indexed frame that a position becomes.
pub open spec fn frame_of(board: Seq<Option<Piece>>, sprites: Seq<Raster>, flip: bool) -> Seq<u8> {
    indexed_frame(rendered(board, sprites, flip, 64), fixed_palette_spec())
}

impl GameRenderer {
    pub open spec fn wf(&self) -> bool {
        &&& self.delta.wf()
        &&& self.delta.transparent == TRANSPARENT_INDEX
        &&& self.sprites.wf()
        &&& self.palette@ == fixed_palette_spec()
    }

    pub fn new(flip: bool, sprites: SpriteSet) -> (r: GameRenderer)
        requires
            sprites.wf(),
        ensures
            r.wf(),
            r.flip == flip,
            r.sprites == sprites,
            r.delta.view() is None,
    {
        GameRenderer {
            delta: FrameDelta::new(TRANSPARENT_INDEX),
            flip,
            sprites,
            palette: fixed_palette(),
        }
    }

    /// Takes the next position of the game; returns the previous position's
    /// frame, now that it can be written.
    pub fn render_frame(&mut self, board: &BoardState) -> (r: Option<OutFrame>)
        requires
            old(self).wf(),
            board.wf(),
        ensures
            final(self).wf(),
            final(self).flip == old(self).flip,
            final(self).sprites == old(self).sprites,
            final(self).delta.view() == after_submit(
                old(self).delta.view(),
                frame_of(board.squares@, old(self).sprites.sprites@, old(self).flip),
            ),
            out_frame_is(r, flushed(old(self).delta.view(), FRAME_DELAY, TRANSPARENT_INDEX)),
    {
        let img = render_board(board, &self.sprites, self.flip);
        let indexed = quantize(&img, &self.palette);
        self.delta.submit(indexed)
    }

    /// The game is over: returns the last position's frame, if any, with the
    /// long display time.
    pub fn render_final_frame(&mut self) -> (r: Option<OutFrame>)
        requires
            old(self).wf(),
        ensures
            final(self).wf(),
            final(self).flip == old(self).flip,
            final(self).sprites == old(self).sprites,
            final(self).delta.view() is None,
            out_frame_is(r, flushed(old(self).delta.view(), FINAL_FRAME_DELAY, TRANSPARENT_INDEX)),
    {
        self.delta.finish()
    }
}

} // verus!
