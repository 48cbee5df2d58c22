use garland::garland::{
    black, max, max2, mul_on_ratio, no_pastel, single_point, triangle_wave, Color,
};

fn rgb(r: u8, g: u8, b: u8) -> Color {
    Color { r, g, b }
}

#[test]
fn correct_ratio() {
    let res = mul_on_ratio(rgb(20, 10, 5), 1, 5);

    assert_eq!(rgb(4, 2, 1), res);
}

#[test]
fn ratio_truncates_to_native_range() {
    // 255 * 255 / 1 = 65025, truncated to the low byte.
    let res = mul_on_ratio(rgb(255, 0, 0), 255, 1);
    assert_eq!(rgb(1, 0, 0), res);
}

#[test]
fn max_picks_largest() {
    assert_eq!(7, max(7, 3, 5));
    assert_eq!(7, max(3, 7, 5));
    assert_eq!(7, max(3, 5, 7));
    assert_eq!(5, max2(3, 5));
    assert_eq!(5, max2(5, 3));
    assert_eq!(4, max2(4, 4));
}

#[test]
fn no_pastel_red_max_even_darkens_green() {
    assert_eq!(rgb(4, 1, 2), no_pastel(rgb(4, 3, 2)));
}

#[test]
fn no_pastel_red_max_odd_darkens_blue() {
    assert_eq!(rgb(5, 3, 0), no_pastel(rgb(5, 3, 2)));
}

#[test]
fn no_pastel_green_max_even_darkens_red() {
    assert_eq!(rgb(0, 4, 2), no_pastel(rgb(1, 4, 2)));
}

#[test]
fn no_pastel_green_max_odd_darkens_blue() {
    assert_eq!(rgb(1, 5, 0), no_pastel(rgb(1, 5, 2)));
}

#[test]
fn no_pastel_blue_max_even_darkens_red() {
    assert_eq!(rgb(0, 2, 6), no_pastel(rgb(1, 2, 6)));
}

#[test]
fn no_pastel_blue_max_odd_darkens_green() {
    assert_eq!(rgb(1, 0, 7), no_pastel(rgb(1, 2, 7)));
}

#[test]
fn no_pastel_tie_prefers_red_first() {
    // R and G share the maximum; the R branch wins, R is odd, B darkens.
    assert_eq!(rgb(3, 3, 0), no_pastel(rgb(3, 3, 2)));
}

#[test]
fn triangle_wave_shape_for_max_two() {
    let pattern = triangle_wave(rgb(2, 1, 0));
    let b = black();

    assert_eq!(11, pattern.len());
    // 2m dark pixels on both flanks.
    for i in 0..4 {
        assert_eq!(b, pattern[i]);
        assert_eq!(b, pattern[7 + i]);
    }
    // Rising run 1..=m, falling run m..=2.
    assert_eq!(rgb(1, 0, 0), pattern[4]);
    assert_eq!(rgb(2, 1, 0), pattern[5]);
    assert_eq!(rgb(2, 1, 0), pattern[6]);
}

#[test]
fn triangle_wave_of_black_is_empty() {
    let pattern = triangle_wave(black());
    assert_eq!(0, pattern.len());
}

#[test]
fn single_point_holds_one_color() {
    let pattern = single_point(rgb(1, 2, 3));
    assert_eq!(1, pattern.len());
    assert_eq!(rgb(1, 2, 3), pattern[0]);
}
