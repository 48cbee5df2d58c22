//! The sliding strip frame.
//!
//! The frame holds one color per LED, index 0 newest.  Each tick shifts
//! every pixel one place toward the tail, drops the oldest, and writes the
//! new color at the front.

use vstd::prelude::*;
use crate::garland::{black, spec_black, Color, LED_NUMBER};

verus! {

/// The fully dark strip state.
pub open spec fn spec_zero_frame() -> Seq<Color> {
    Seq::new(LED_NUMBER as nat, |i: int| spec_black())
}

/// One shift step: the new color in front, the old frame behind it, its
/// last element dropped.
pub open spec fn spec_shift(frame: Seq<Color>, c: Color) -> Seq<Color>
    recommends
        frame.len() == LED_NUMBER,
{
    seq![c] + frame.take(LED_NUMBER - 1)
}

/// The frame after feeding a whole color sequence, first color first.
pub open spec fn spec_feed(frame: Seq<Color>, colors: Seq<Color>) -> Seq<Color>
    decreases colors.len(),
{
    if colors.len() == 0 {
        frame
    } else {
        spec_feed(spec_shift(frame, colors[0]), colors.skip(1))
    }
}

/// Owner of the strip state.
pub struct FrameShifter {
    frame: Vec<Color>,
}

impl View for FrameShifter {
    type V = Seq<Color>;

    closed spec fn view(&self) -> Seq<Color> {
        self.frame@
    }
}

impl FrameShifter {
    /// The frame always spans the whole strip.
    pub open spec fn wf(&self) -> bool {
        self@.len() == LED_NUMBER
    }

    /// A fully dark strip.
    #[verifier::loop_isolation(false)]
    pub fn new() -> (s: FrameShifter)
        ensures
            s.wf(),
            s@ == spec_zero_frame(),
    {
        let mut frame: Vec<Color> = Vec::new();
        let mut i: usize = 0;
        while i < LED_NUMBER
            invariant
                i <= LED_NUMBER,
                frame@ == spec_zero_frame().take(i as int),
            decreases LED_NUMBER - i,
        {
            frame.push(black());
            i += 1;
            proof {
                assert(frame@ =~= spec_zero_frame().take(i as int));
            }
        }
        proof {
            assert(spec_zero_frame().take(LED_NUMBER as int) =~= spec_zero_frame());
        }
        FrameShifter { frame }
    }

    /// Shift the strip by one pixel, newest first, and place the new color
    /// at the front.  Returns a snapshot of the whole new frame.
    #[verifier::loop_isolation(false)]
    pub fn tick(&mut self, new_color: Color) -> (snapshot: Vec<Color>)
        requires
            old(self).wf(),
        ensures
            final (self).wf(),
            final (self)@ == spec_shift(old(self)@, new_color),
            snapshot@ == final (self)@,
    {
        let mut index: usize = LED_NUMBER - 1;
        while index >= 1
            invariant
                index <= LED_NUMBER - 1,
                self.frame@.len() == LED_NUMBER,
                forall|j: int|
                    index < j < LED_NUMBER ==> #[trigger] self.frame@[j] == old(self)@[j - 1],
                forall|j: int| 0 <= j <= index ==> #[trigger] self.frame@[j] == old(self)@[j],
            decreases index,
        {
            let prev = self.frame[index - 1];
            self.frame.set(index, prev);
            index -= 1;
        }
        self.frame.set(0, new_color);
        proof {
            assert(self.frame@ =~= spec_shift(old(self)@, new_color));
        }
        copy_frame(&self.frame)
    }
}

/// An element-by-element copy of a frame.
#[verifier::loop_isolation(false)]
pub fn copy_frame(frame: &Vec<Color>) -> (out: Vec<Color>)
    ensures
        out@ == frame@,
{
    let mut out: Vec<Color> = Vec::new();
    let mut i: usize = 0;
    while i < frame.len()
        invariant
            i <= frame@.len(),
            out@ == frame@.take(i as int),
        decreases frame@.len() - i,
    {
        out.push(frame[i]);
        i += 1;
        proof {
            assert(out@ =~= frame@.take(i as int));
        }
    }
    proof {
        assert(frame@.take(frame@.len() as int) =~= frame@);
    }
    out
}

/// FIFO law of the sliding frame: after feeding the colors of `cs` one per
/// tick, position `j` holds the `j`-newest color, and positions the fed
/// colors do not reach still hold the starting frame, shifted by the number
/// of ticks.  Colors fed more than `LED_NUMBER` ticks ago have left at the
/// tail.
pub proof fn lemma_frame_fifo(f: Seq<Color>, cs: Seq<Color>, j: int)
    requires
        f.len() == LED_NUMBER,
        0 <= j < LED_NUMBER,
    ensures
        spec_feed(f, cs).len() == LED_NUMBER,
        j < cs.len() ==> spec_feed(f, cs)[j] == cs[cs.len() - 1 - j],
        j >= cs.len() ==> spec_feed(f, cs)[j] == f[j - cs.len()],
    decreases cs.len(),
{
    if cs.len() == 0 {
    } else {
        let f1 = spec_shift(f, cs[0]);
        lemma_frame_fifo(f1, cs.skip(1), j);
    }
}

/// The FIFO law from the dark start frame: every position the fed colors
/// have not reached is still dark.
pub proof fn lemma_frame_fifo_from_zero(cs: Seq<Color>, j: int)
    requires
        0 <= j < LED_NUMBER,
    ensures
        spec_feed(spec_zero_frame(), cs).len() == LED_NUMBER,
        j < cs.len() ==> spec_feed(spec_zero_frame(), cs)[j] == cs[cs.len() - 1 - j],
        j >= cs.len() ==> spec_feed(spec_zero_frame(), cs)[j] == spec_black(),
{
    lemma_frame_fifo(spec_zero_frame(), cs, j);
}

} // verus!
