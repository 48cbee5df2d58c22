//! The producer/consumer pipeline as pure decisions.
//!
//! The producer draws a base color, corrects it and expands it into a
//! pattern; the consumer feeds each pattern element into the sliding frame
//! and emits one snapshot per element.  The task loops, delays and bounded
//! hand-off queues live outside; this module states what each step
//! computes, so the emitted frame stream is pinned as a function of the
//! drawn base colors.

use vstd::prelude::*;
use crate::frame::{spec_feed, spec_shift, spec_zero_frame, FrameShifter};
use crate::garland::{
    no_pastel, pattern_get, pattern_len, pattern_of, spec_no_pastel, spec_triangle_wave,
    triangle_wave, valid_color, Color, AMPLITUDE, PATTERN_LEN,
};
use crate::rng::{rand_from_seed, rand_next_range};

verus! {

/// Owner of the seeded pseudo-random source; produces base colors and
/// their patterns.
pub struct ColorGenerator {
    rand: tinyrand::StdRand,
}

/// Assemble a base color from three drawn component values.
pub fn base_color(r: u16, g: u16, b: u16) -> (c: Color)
    requires
        r < AMPLITUDE,
        g < AMPLITUDE,
        b < AMPLITUDE,
    ensures
        c == (Color { r: r as u8, g: g as u8, b: b as u8 }),
        valid_color(c),
{
    Color { r: r as u8, g: g as u8, b: b as u8 }
}

/// The deterministic part of the producer: the pattern one base color
/// yields — pastel correction followed by triangle-wave expansion.
pub fn pattern_for(color: Color) -> (p: heapless::Vec<Color, PATTERN_LEN>)
    requires
        valid_color(color),
    ensures
        pattern_of(p) == spec_triangle_wave(spec_no_pastel(color)),
{
    let corrected = no_pastel(color);
    triangle_wave(corrected)
}

impl ColorGenerator {
    /// Seed the generator once, at startup.
    pub fn new(seed: u64) -> ColorGenerator {
        ColorGenerator { rand: rand_from_seed(seed) }
    }

    /// Draw a base color: three independent uniform draws in
    /// `[0, AMPLITUDE)`.
    pub fn next_base_color(&mut self) -> (c: Color)
        ensures
            valid_color(c),
    {
        let r = rand_next_range(&mut self.rand, AMPLITUDE);
        let g = rand_next_range(&mut self.rand, AMPLITUDE);
        let b = rand_next_range(&mut self.rand, AMPLITUDE);
        base_color(r, g, b)
    }

    /// One full producer step: draw a base color, correct it, expand it.
    /// Whatever the draw came to, the result is the pattern of some valid
    /// base color.
    pub fn next_pattern(&mut self) -> (p: heapless::Vec<Color, PATTERN_LEN>)
        ensures
            exists|c: Color|
                valid_color(c) && pattern_of(p) == spec_triangle_wave(spec_no_pastel(c)),
    {
        let color = self.next_base_color();
        let p = pattern_for(color);
        proof {
            assert(valid_color(color) && pattern_of(p) == spec_triangle_wave(
                spec_no_pastel(color),
            ));
        }
        p
    }
}

/// Every pattern element the drawn base colors produce, in order.
pub open spec fn spec_color_stream(draws: Seq<Color>) -> Seq<Color>
    decreases draws.len(),
{
    if draws.len() == 0 {
        Seq::<Color>::empty()
    } else {
        spec_triangle_wave(spec_no_pastel(draws[0])) + spec_color_stream(draws.skip(1))
    }
}

/// The frame snapshots emitted while feeding `colors` into `frame`, one
/// per color.
pub open spec fn spec_frames(frame: Seq<Color>, colors: Seq<Color>) -> Seq<Seq<Color>>
    decreases colors.len(),
{
    if colors.len() == 0 {
        Seq::<Seq<Color>>::empty()
    } else {
        let f1 = spec_shift(frame, colors[0]);
        seq![f1] + spec_frames(f1, colors.skip(1))
    }
}

proof fn lemma_feed_snoc(f: Seq<Color>, cs: Seq<Color>, c: Color)
    ensures
        spec_feed(f, cs.push(c)) == spec_shift(spec_feed(f, cs), c),
    decreases cs.len(),
{
    if cs.len() == 0 {
        assert(cs.push(c)[0] == c);
        assert(cs.push(c).skip(1) =~= Seq::<Color>::empty());
        assert(spec_feed(spec_shift(f, c), Seq::<Color>::empty()) == spec_shift(f, c));
    } else {
        assert(cs.push(c)[0] == cs[0]);
        assert(cs.push(c).skip(1) =~= cs.skip(1).push(c));
        lemma_feed_snoc(spec_shift(f, cs[0]), cs.skip(1), c);
    }
}

proof fn lemma_frames_snoc(f: Seq<Color>, cs: Seq<Color>, c: Color)
    ensures
        spec_frames(f, cs.push(c)) == spec_frames(f, cs).push(
            spec_shift(spec_feed(f, cs), c),
        ),
    decreases cs.len(),
{
    if cs.len() == 0 {
        assert(cs.push(c)[0] == c);
        assert(cs.push(c).skip(1) =~= Seq::<Color>::empty());
        assert(spec_frames(spec_shift(f, c), Seq::<Color>::empty())
            == Seq::<Seq<Color>>::empty());
        assert(spec_feed(f, Seq::<Color>::empty()) == f);
        assert(seq![spec_shift(f, c)] + Seq::<Seq<Color>>::empty() =~= Seq::<
            Seq<Color>,
        >::empty().push(spec_shift(f, c)));
    } else {
        let f1 = spec_shift(f, cs[0]);
        assert(cs.push(c)[0] == cs[0]);
        assert(cs.push(c).skip(1) =~= cs.skip(1).push(c));
        lemma_frames_snoc(f1, cs.skip(1), c);
        assert(seq![f1] + spec_frames(f1, cs.skip(1)).push(spec_shift(spec_feed(f, cs), c)) =~= (
        seq![f1] + spec_frames(f1, cs.skip(1))).push(spec_shift(spec_feed(f, cs), c)));
    }
}

proof fn lemma_stream_snoc(draws: Seq<Color>, d: Color)
    ensures
        spec_color_stream(draws.push(d)) == spec_color_stream(draws) + spec_triangle_wave(
            spec_no_pastel(d),
        ),
    decreases draws.len(),
{
    let pat = spec_triangle_wave(spec_no_pastel(d));
    if draws.len() == 0 {
        assert(draws.push(d)[0] == d);
        assert(draws.push(d).skip(1) =~= Seq::<Color>::empty());
        assert(spec_color_stream(Seq::<Color>::empty()) == Seq::<Color>::empty());
        assert(pat + Seq::<Color>::empty() =~= Seq::<Color>::empty() + pat);
    } else {
        let pat0 = spec_triangle_wave(spec_no_pastel(draws[0]));
        assert(draws.push(d)[0] == draws[0]);
        assert(draws.push(d).skip(1) =~= draws.skip(1).push(d));
        lemma_stream_snoc(draws.skip(1), d);
        assert(pat0 + (spec_color_stream(draws.skip(1)) + pat) =~= (pat0 + spec_color_stream(
            draws.skip(1),
        )) + pat);
    }
}

/// Run the whole pipeline for a fixed sequence of base-color draws: expand
/// each draw to its pattern, feed every pattern element into the frame
/// shifter, and collect one frame snapshot per element.  The emitted frame
/// stream is a function of the draws alone.
#[verifier::loop_isolation(false)]
pub fn run_pipeline(draws: &Vec<Color>) -> (frames: Vec<Vec<Color>>)
    requires
        forall|i: int| 0 <= i < draws@.len() ==> valid_color(#[trigger] draws@[i]),
    ensures
        frames@.map_values(|f: Vec<Color>| f@) == spec_frames(
            spec_zero_frame(),
            spec_color_stream(draws@),
        ),
{
    let mut shifter = FrameShifter::new();
    let mut frames: Vec<Vec<Color>> = Vec::new();
    let mut k: usize = 0;
    while k < draws.len()
        invariant
            k <= draws@.len(),
            shifter.wf(),
            shifter@ == spec_feed(spec_zero_frame(), spec_color_stream(draws@.take(k as int))),
            frames@.map_values(|f: Vec<Color>| f@) == spec_frames(
                spec_zero_frame(),
                spec_color_stream(draws@.take(k as int)),
            ),
        decreases draws@.len() - k,
    {
        let pattern = pattern_for(draws[k]);
        let n = pattern_len(&pattern);
        let mut j: usize = 0;
        while j < n
            invariant
                j <= n,
                k < draws@.len(),
                n == pattern_of(pattern).len(),
                pattern_of(pattern) == spec_triangle_wave(spec_no_pastel(draws@[k as int])),
                shifter.wf(),
                shifter@ == spec_feed(
                    spec_zero_frame(),
                    spec_color_stream(draws@.take(k as int)) + pattern_of(pattern).take(j as int),
                ),
                frames@.map_values(|f: Vec<Color>| f@) == spec_frames(
                    spec_zero_frame(),
                    spec_color_stream(draws@.take(k as int)) + pattern_of(pattern).take(j as int),
                ),
            decreases n - j,
        {
            let ghost prefix = spec_color_stream(draws@.take(k as int)) + pattern_of(
                pattern,
            ).take(j as int);
            let ghost frames_before = frames@.map_values(|f: Vec<Color>| f@);
            let c = pattern_get(&pattern, j);
            let snapshot = shifter.tick(c);
            frames.push(snapshot);
            j += 1;
            proof {
                lemma_feed_snoc(spec_zero_frame(), prefix, c);
                lemma_frames_snoc(spec_zero_frame(), prefix, c);
                assert(prefix.push(c) =~= spec_color_stream(draws@.take(k as int)) + pattern_of(
                    pattern,
                ).take(j as int));
                assert(frames@.map_values(|f: Vec<Color>| f@) =~= frames_before.push(snapshot@));
            }
        }
        k += 1;
        proof {
            lemma_stream_snoc(draws@.take(k as int - 1), draws@[k as int - 1]);
            assert(draws@.take(k as int - 1).push(draws@[k as int - 1]) =~= draws@.take(k as int));
            assert(pattern_of(pattern).take(n as int) =~= pattern_of(pattern));
        }
    }
    proof {
        assert(draws@.take(draws@.len() as int) =~= draws@);
    }
    frames
}

/// End-to-end determinism: the emitted frame stream is a function of the
/// drawn base colors alone, so two runs over equal draw sequences emit
/// equal frame sequences.
pub proof fn lemma_pipeline_deterministic(draws1: Seq<Color>, draws2: Seq<Color>)
    requires
        draws1 == draws2,
    ensures
        spec_frames(spec_zero_frame(), spec_color_stream(draws1)) == spec_frames(
            spec_zero_frame(),
            spec_color_stream(draws2),
        ),
{
}

} // verus!
