use garland::frame::FrameShifter;
use garland::garland::{black, Color, LED_NUMBER};
use garland::pipeline::{base_color, pattern_for, run_pipeline, ColorGenerator};

fn rgb(r: u8, g: u8, b: u8) -> Color {
    Color { r, g, b }
}

/// Encodes a small index as a unique color.
fn enc(i: usize) -> Color {
    rgb((i % 8) as u8, ((i / 8) % 8) as u8, ((i / 64) % 8) as u8)
}

#[test]
fn new_frame_is_dark() {
    let mut shifter = FrameShifter::new();
    let frame = shifter.tick(black());
    assert_eq!(LED_NUMBER, frame.len());
    for c in &frame {
        assert_eq!(black(), *c);
    }
}

#[test]
fn ticks_keep_fifo_order() {
    let mut shifter = FrameShifter::new();
    let colors = [rgb(1, 0, 0), rgb(0, 2, 0), rgb(0, 0, 3)];
    let mut last = Vec::new();
    for c in colors {
        last = shifter.tick(c);
    }
    assert_eq!(LED_NUMBER, last.len());
    assert_eq!(rgb(0, 0, 3), last[0]);
    assert_eq!(rgb(0, 2, 0), last[1]);
    assert_eq!(rgb(1, 0, 0), last[2]);
    for i in 3..LED_NUMBER {
        assert_eq!(black(), last[i]);
    }
}

#[test]
fn overfeeding_evicts_oldest_at_tail() {
    let mut shifter = FrameShifter::new();
    let total = LED_NUMBER + 2;
    let mut last = Vec::new();
    for i in 0..total {
        last = shifter.tick(enc(i));
    }
    // Position j holds the j-newest color; the two oldest are gone.
    assert_eq!(enc(total - 1), last[0]);
    assert_eq!(enc(2), last[LED_NUMBER - 1]);
}

#[test]
fn pipeline_frames_for_one_draw() {
    // Base color (0,0,1) stays (0,0,1) after correction; its max is 1, so
    // the pattern is dark, dark, the color, dark, dark.
    let draws = vec![rgb(0, 0, 1)];
    let frames = run_pipeline(&draws);

    assert_eq!(5, frames.len());
    for frame in &frames {
        assert_eq!(LED_NUMBER, frame.len());
    }
    assert_eq!(black(), frames[1][0]);
    assert_eq!(rgb(0, 0, 1), frames[2][0]);
    assert_eq!(black(), frames[3][0]);
    assert_eq!(rgb(0, 0, 1), frames[3][1]);
    assert_eq!(rgb(0, 0, 1), frames[4][2]);
    assert_eq!(black(), frames[4][0]);
}

#[test]
fn pipeline_is_deterministic_across_runs() {
    let draws = vec![rgb(1, 2, 3), rgb(4, 5, 6), rgb(7, 0, 2), rgb(0, 0, 0)];
    let first = run_pipeline(&draws);
    let second = run_pipeline(&draws);
    assert_eq!(first, second);
}

#[test]
fn base_color_narrows_draws() {
    assert_eq!(rgb(7, 0, 3), base_color(7, 0, 3));
}

#[test]
fn pattern_for_corrects_before_expanding() {
    // (4,3,2): R max and even, so G darkens to 1; max stays 4, so the
    // pattern spans 6*4 - 1 elements and peaks at the corrected color.
    let pattern = pattern_for(rgb(4, 3, 2));
    assert_eq!(23, pattern.len());
    assert_eq!(rgb(4, 1, 2), pattern[8 + 3]);
}

#[test]
fn generator_draws_stay_in_amplitude() {
    let mut generator = ColorGenerator::new(0xDEAD_BEEF);
    for _ in 0..32 {
        let c = generator.next_base_color();
        assert!(c.r < 8 && c.g < 8 && c.b < 8);
    }
}

#[test]
fn generator_patterns_stay_in_amplitude() {
    let mut generator = ColorGenerator::new(42);
    for _ in 0..8 {
        let pattern = generator.next_pattern();
        assert!(pattern.len() <= 48);
        for c in pattern.iter() {
            assert!(c.r < 8 && c.g < 8 && c.b < 8);
        }
    }
}

#[test]
fn generator_is_deterministic_for_a_seed() {
    let mut one = ColorGenerator::new(99);
    let mut two = ColorGenerator::new(99);
    for _ in 0..16 {
        assert_eq!(one.next_base_color(), two.next_base_color());
    }
}
