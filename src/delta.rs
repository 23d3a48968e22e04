//! One-frame lookahead between indexed frames: each frame is held until its
//! successor is known, then flushed with the pixels that did not change since
//! its predecessor replaced by a transparent index.

use vstd::prelude::*;

verus! {

/// Display time of every frame but the last, in hundredths of a second.
pub const FRAME_DELAY: u16 = 62;

/// Display time of the last frame, in hundredths of a second.
pub const FINAL_FRAME_DELAY: u16 = 500;

/// A frame ready for the output stream: palette indices and display time.
pub struct OutFrame {
    pub pixels: Vec<u8>,
    pub delay: u16,
}

/// The frame not yet written, with the positions that will be transparent
/// when it is, and the palette index that marks a transparent pixel.
pub struct FrameDelta {
    pub pending: Option<(Vec<u8>, Vec<bool>)>,
    pub transparent: u8,
}

/// Marks each position of `new` whose index equals the one of `prev` there.
pub open spec fn unchanged_mask(new: Seq<u8>, prev: Seq<u8>) -> Seq<bool> {
    Seq::new(new.len(), |i: int| i < prev.len() && new[i] == prev[i])
}

/// A mask of `n` positions with none marked.
pub open spec fn no_mask(n: nat) -> Seq<bool> {
    Seq::new(n, |i: int| false)
}

/// `pixels` with each marked position replaced by the transparent index.
pub open spec fn with_sentinel(pixels: Seq<u8>, mask: Seq<bool>, transparent: u8) -> Seq<u8> {
    Seq::new(pixels.len(), |i: int| if mask[i] { transparent } else { pixels[i] })
}

/// What is held after `frame` comes in: the frame, with the positions where it
/// equals the frame held before (none when nothing was held).
pub open spec fn after_submit(
    held: Option<(Seq<u8>, Seq<bool>)>,
    frame: Seq<u8>,
) -> Option<(Seq<u8>, Seq<bool>)> {
    match held {
        None => Some((frame, no_mask(frame.len()))),
        Some((prev, _)) => Some((frame, unchanged_mask(frame, prev))),
    }
}

/// The frame written when the held one leaves, with the given display time.
pub open spec fn flushed(
    held: Option<(Seq<u8>, Seq<bool>)>,
    delay: u16,
    transparent: u8,
) -> Option<(Seq<u8>, u16)> {
    match held {
        None => None,
        Some((pixels, mask)) => Some((with_sentinel(pixels, mask, transparent), delay)),
    }
}

impl OutFrame {
    pub open spec fn view(&self) -> (Seq<u8>, u16) {
        (self.pixels@, self.delay)
    }
}

/// `r` is the frame that `expected` describes, or nothing where it describes none.
pub open spec fn out_frame_is(r: Option<OutFrame>, expected: Option<(Seq<u8>, u16)>) -> bool {
    match r {
        None => expected is None,
        Some(f) => expected == Some(f.view()),
    }
}

fn unchanged_positions(new: &Vec<u8>, prev: &Vec<u8>) -> (r: Vec<bool>)
    ensures
        r@ == unchanged_mask(new@, prev@),
{
    let mut mask: Vec<bool> = Vec::with_capacity(new.len());
    let mut i: usize = 0;
    while i < new.len()
        invariant
            i <= new@.len(),
            mask@.len() == i,
            forall|j: int| 0 <= j < i ==> #[trigger] mask@[j] == unchanged_mask(new@, prev@)[j],
        decreases new@.len() - i,
    {
        mask.push(i < prev.len() && new[i] == prev[i]);
        i = i + 1;
    }
    assert(mask@ =~= unchanged_mask(new@, prev@));
    mask
}

fn no_positions(n: usize) -> (r: Vec<bool>)
    ensures
        r@ == no_mask(n as nat),
{
    let mut mask: Vec<bool> = Vec::with_capacity(n);
    let mut i: usize = 0;
    while i < n
        invariant
            i <= n,
            mask@.len() == i,
            forall|j: int| 0 <= j < i ==> #[trigger] mask@[j] == false,
        decreases n - i,
    {
        mask.push(false);
        i = i + 1;
    }
    assert(mask@ =~= no_mask(n as nat));
    mask
}

fn apply_sentinel(pixels: Vec<u8>, mask: &Vec<bool>, transparent: u8) -> (r: Vec<u8>)
    requires
        mask@.len() == pixels@.len(),
    ensures
        r@ == with_sentinel(pixels@, mask@, transparent),
{
    let mut out = pixels;
    let mut i: usize = 0;
    while i < out.len()
        invariant
            mask@.len() == pixels@.len(),
            out@.len() == pixels@.len(),
            i <= out@.len(),
            forall|j: int| 0 <= j < i ==> #[trigger] out@[j] == with_sentinel(pixels@, mask@, transparent)[j],
            forall|j: int| i <= j < out@.len() ==> #[trigger] out@[j] == pixels@[j],
        decreases out@.len() - i,
    {
        if mask[i] {
            out.set(i, transparent);
        }
        i = i + 1;
    }
    assert(out@ =~= with_sentinel(pixels@, mask@, transparent));
    out
}

impl FrameDelta {
    pub open spec fn view(&self) -> Option<(Seq<u8>, Seq<bool>)> {
        match self.pending {
            None => None,
            Some((pixels, mask)) => Some((pixels@, mask@)),
        }
    }

    /// A held frame and its mask cover the same positions.
    pub open spec fn wf(&self) -> bool {
        match self.view() {
            None => true,
            Some((pixels, mask)) => pixels.len() == mask.len(),
        }
    }

    /// Nothing held; `transparent` will mark the pixels that did not change.
    pub fn new(transparent: u8) -> (r: FrameDelta)
        ensures
            r.wf(),
            r.view() is None,
            r.transparent == transparent,
    {
        FrameDelta { pending: None, transparent }
    }

    /// Holds `frame` and hands back the frame it displaces, if any, flushed with
    /// the short display time.
    pub fn submit(&mut self, frame: Vec<u8>) -> (r: Option<OutFrame>)
        requires
            old(self).wf(),
        ensures
            final(self).wf(),
            final(self).transparent == old(self).transparent,
            final(self).view() == after_submit(old(self).view(), frame@),
            out_frame_is(r, flushed(old(self).view(), FRAME_DELAY, old(self).transparent)),
    {
        let mask = match &self.pending {
            Some((prev, _)) => unchanged_positions(&frame, prev),
            None => no_positions(frame.len()),
        };
        let displaced = self.pending.take();
        self.pending = Some((frame, mask));
        match displaced {
            Some((pixels, held_mask)) => Some(
                OutFrame {
                    pixels: apply_sentinel(pixels, &held_mask, self.transparent),
                    delay: FRAME_DELAY,
                },
            ),
            None => None,
        }
    }

    /// Hands back the held frame, if any, flushed with the long display time,
    /// and holds nothing after.
    pub fn finish(&mut self) -> (r: Option<OutFrame>)
        requires
            old(self).wf(),
        ensures
            final(self).wf(),
            final(self).transparent == old(self).transparent,
            final(self).view() is None,
            out_frame_is(r, flushed(old(self).view(), FINAL_FRAME_DELAY, old(self).transparent)),
    {
        match self.pending.take() {
            Some((pixels, held_mask)) => Some(
                OutFrame {
                    pixels: apply_sentinel(pixels, &held_mask, self.transparent),
                    delay: FINAL_FRAME_DELAY,
                },
            ),
            None => None,
        }
    }
}

/// What is held, and what was written, after submitting `frames` in order to a
/// compressor that held nothing.
pub open spec fn run_submits(frames: Seq<Seq<u8>>, transparent: u8) -> (
    Option<(Seq<u8>, Seq<bool>)>,
    Seq<(Seq<u8>, u16)>,
)
    decreases frames.len(),
{
    if frames.len() == 0 {
        (None, Seq::empty())
    } else {
        let (held, written) = run_submits(frames.drop_last(), transparent);
        let written = match flushed(held, FRAME_DELAY, transparent) {
            Some(f) => written.push(f),
            None => written,
        };
        (after_submit(held, frames.last()), written)
    }
}

/// The whole output stream: every frame submitted in order, then `finish`.
pub open spec fn run_stream(frames: Seq<Seq<u8>>, transparent: u8) -> Seq<(Seq<u8>, u16)> {
    let (held, written) = run_submits(frames, transparent);
    match flushed(held, FINAL_FRAME_DELAY, transparent) {
        Some(f) => written.push(f),
        None => written,
    }
}

/// The transparent positions of frame `i` of a sequence: none for the first,
/// else those where it equals frame `i - 1`.
pub open spec fn mask_in_sequence(frames: Seq<Seq<u8>>, i: int) -> Seq<bool> {
    if i == 0 {
        no_mask(frames[0].len())
    } else {
        unchanged_mask(frames[i], frames[i - 1])
    }
}

proof fn lemma_run_submits(frames: Seq<Seq<u8>>, transparent: u8)
    ensures
        frames.len() == 0 ==> run_submits(frames, transparent).0 is None,
        frames.len() > 0 ==> run_submits(frames, transparent).0 == Some(
            (frames.last(), mask_in_sequence(frames, frames.len() - 1)),
        ),
        frames.len() > 0 ==> run_submits(frames, transparent).1.len() == frames.len() - 1,
        frames.len() == 0 ==> run_submits(frames, transparent).1.len() == 0,
        forall|i: int|
            0 <= i < run_submits(frames, transparent).1.len() ==> #[trigger] run_submits(frames, transparent).1[i] == (
                with_sentinel(frames[i], mask_in_sequence(frames, i), transparent),
                FRAME_DELAY,
            ),
    decreases frames.len(),
{
    if frames.len() > 0 {
        let prefix = frames.drop_last();
        lemma_run_submits(prefix, transparent);
        assert forall|i: int| 0 <= i < prefix.len() implies mask_in_sequence(prefix, i)
            == mask_in_sequence(frames, i) by {
            assert(prefix[i] == frames[i]);
            if i > 0 {
                assert(prefix[i - 1] == frames[i - 1]);
            }
        }
        if prefix.len() > 0 {
            assert(prefix.last() == frames[frames.len() - 2]);
        }
    }
}

/// Submitting `n` frames and then finishing writes exactly `n` frames: frame `i`
/// is the `i`-th frame submitted, with the positions where it equals its
/// predecessor made transparent (none for the first); all but the last show for
/// the short time, the last, written by `finish`, for the long time. The first
/// frame is written by the second submission, and each later submission writes
/// one more.
pub proof fn lemma_one_written_frame_per_submitted_frame(frames: Seq<Seq<u8>>, transparent: u8)
    ensures
        run_stream(frames, transparent).len() == frames.len(),
        forall|i: int|
            0 <= i < frames.len() ==> (#[trigger] run_stream(frames, transparent)[i]).0 == with_sentinel(
                frames[i],
                mask_in_sequence(frames, i),
                transparent,
            ),
        forall|i: int| 0 <= i < frames.len() - 1 ==> (#[trigger] run_stream(frames, transparent)[i]).1 == FRAME_DELAY,
        frames.len() > 0 ==> run_stream(frames, transparent).last().1 == FINAL_FRAME_DELAY,
        run_submits(frames, transparent).1.len() == if frames.len() == 0 {
            0
        } else {
            frames.len() - 1
        },
{
    lemma_run_submits(frames, transparent);
}

/// A frame identical to the one before it is written entirely transparent,
/// while the first frame of a stream keeps every pixel.
pub proof fn lemma_repeated_frame_is_transparent(frames: Seq<Seq<u8>>, i: int, transparent: u8)
    requires
        0 < i < frames.len(),
        frames[i] == frames[i - 1],
    ensures
        run_stream(frames, transparent)[i].0 == Seq::new(frames[i].len(), |j: int| transparent),
        run_stream(frames, transparent)[0].0 == frames[0],
{
    lemma_one_written_frame_per_submitted_frame(frames, transparent);
    assert(run_stream(frames, transparent)[i].0 =~= Seq::new(frames[i].len(), |j: int| transparent));
    assert(run_stream(frames, transparent)[0].0 =~= frames[0]);
}

/// A single frame followed by `finish` gives one written frame: that frame,
/// unchanged, with the long display time.
pub proof fn lemma_single_frame_round_trip(frame: Seq<u8>, transparent: u8)
    ensures
        run_stream(seq![frame], transparent) == seq![(frame, FINAL_FRAME_DELAY)],
{
    let frames = seq![frame];
    lemma_one_written_frame_per_submitted_frame(frames, transparent);
    assert(run_stream(frames, transparent)[0].0 =~= frame);
    assert(run_stream(frames, transparent) =~= seq![(frame, FINAL_FRAME_DELAY)]);
}


/// The views of a sequence of frames.
pub open spec fn frame_views(frames: Seq<Vec<u8>>) -> Seq<Seq<u8>> {
    frames.map_values(|f: Vec<u8>| f@)
}

/// The views of a sequence of written frames.
pub open spec fn out_views(frames: Seq<OutFrame>) -> Seq<(Seq<u8>, u16)> {
    frames.map_values(|f: OutFrame| f.view())
}

/// Runs the compressor over a whole sequence held in memory: the frames that
/// submitting each in order and then finishing writes.
pub fn delta_pass(frames: &Vec<Vec<u8>>, transparent: u8) -> (r: Vec<OutFrame>)
    ensures
        out_views(r@) == run_stream(frame_views(frames@), transparent),
{
    let ghost fs = frame_views(frames@);
    let mut delta = FrameDelta::new(transparent);
    let mut out: Vec<OutFrame> = Vec::new();
    let mut i: usize = 0;
    while i < frames.len()
        invariant
            fs == frame_views(frames@),
            i <= frames@.len(),
            delta.wf(),
            delta.transparent == transparent,
            delta.view() == run_submits(fs.take(i as int), transparent).0,
            out_views(out@) == run_submits(fs.take(i as int), transparent).1,
        decreases frames@.len() - i,
    {
        let frame = frames[i].clone();
        proof {
            assert(fs.take(i + 1).drop_last() =~= fs.take(i as int));
            assert(fs.take(i + 1).last() == frame@);
        }
        let ghost before = out@;
        if let Some(f) = delta.submit(frame) {
            out.push(f);
            assert(out_views(out@) =~= out_views(before).push(f.view()));
        }
        i = i + 1;
    }
    assert(fs.take(frames@.len() as int) =~= fs);
    let ghost before = out@;
    if let Some(f) = delta.finish() {
        out.push(f);
        assert(out_views(out@) =~= out_views(before).push(f.view()));
    }
    out
}

} // verus!
