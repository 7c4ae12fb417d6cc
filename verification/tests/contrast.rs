use kontrast::color::Color;
use kontrast::kontrast::Kontrast;
use kontrast::kontrast::luminosity;
use kontrast::quality::ContrastQualities;
use kontrast::quality::Quality;
use kontrast::quality::qualities_for_ratio;
use kontrast::quality::quality_for_size;

fn rgb(r: i32, g: i32, b: i32) -> Color {
    Color::from_rgb(r, g, b)
}

fn state(fg: Color, bg: Color) -> Kontrast {
    let mut k = Kontrast::default();
    k.set_text_color(fg);
    k.set_background_color(bg);
    k
}

#[test]
fn white_on_black_has_maximal_contrast() {
    let r = Kontrast::contrast_for_colors(&rgb(255, 255, 255), &rgb(0, 0, 0));
    assert_eq!(r, 21_000_000);
}

#[test]
fn extreme_luminances() {
    assert_eq!(luminosity(&rgb(255, 255, 255)), 1_000_000);
    assert_eq!(luminosity(&rgb(0, 0, 0)), 0);
}

#[test]
fn contrast_of_color_with_itself_is_one() {
    let c = rgb(128, 37, 201);
    assert_eq!(Kontrast::contrast_for_colors(&c, &c), 1_000_000);
    let d = rgb(0, 0, 0);
    assert_eq!(Kontrast::contrast_for_colors(&d, &d), 1_000_000);
}

#[test]
fn contrast_is_symmetric() {
    let a = rgb(12, 200, 99);
    let b = rgb(240, 3, 77);
    assert_eq!(
        Kontrast::contrast_for_colors(&a, &b),
        Kontrast::contrast_for_colors(&b, &a)
    );
}

#[test]
fn exact_ratio_of_two_grays() {
    let g = rgb(128, 128, 128);
    assert_eq!(luminosity(&g), 215_860);
    assert_eq!(Kontrast::contrast_for_colors(&g, &rgb(200, 200, 200)), 2_360_565);
    assert_eq!(Kontrast::contrast_for_colors(&g, &rgb(255, 255, 255)), 3_949_447);
}

#[test]
fn luminance_is_monotone_in_each_channel() {
    let mut last = luminosity(&rgb(0, 0, 0));
    for c in 1..=255 {
        let next = luminosity(&rgb(c, 0, 0));
        assert!(next >= last);
        last = next;
    }
    assert!(luminosity(&rgb(0, 10, 0)) <= luminosity(&rgb(0, 11, 0)));
    assert!(luminosity(&rgb(0, 0, 10)) <= luminosity(&rgb(0, 0, 11)));
}

#[test]
fn quality_boundaries_are_strict() {
    let exactly_seven = qualities_for_ratio(7_000_000);
    assert_eq!(exactly_seven.small, Quality::Good);
    assert_eq!(exactly_seven.medium, Quality::Good);
    assert_eq!(exactly_seven.large, Quality::Perfect);

    let above_seven = qualities_for_ratio(7_000_001);
    assert_eq!(above_seven.small, Quality::Perfect);
    assert_eq!(above_seven.medium, Quality::Perfect);
    assert_eq!(above_seven.large, Quality::Perfect);

    let exactly_four_and_a_half = qualities_for_ratio(4_500_000);
    assert_eq!(exactly_four_and_a_half.small, Quality::Bad);
    assert_eq!(exactly_four_and_a_half.medium, Quality::Bad);
    assert_eq!(exactly_four_and_a_half.large, Quality::Good);

    let above_four_and_a_half = qualities_for_ratio(4_500_001);
    assert_eq!(above_four_and_a_half.small, Quality::Good);

    let exactly_three = qualities_for_ratio(3_000_000);
    assert_eq!(exactly_three.small, Quality::Bad);
    assert_eq!(exactly_three.medium, Quality::Bad);
    assert_eq!(exactly_three.large, Quality::Bad);

    let above_three = qualities_for_ratio(3_000_001);
    assert_eq!(above_three.large, Quality::Good);
}

#[test]
fn font_size_buckets() {
    let q = ContrastQualities {
        small: Quality::Bad,
        medium: Quality::Good,
        large: Quality::Perfect,
    };
    assert_eq!(quality_for_size(18, &q), Quality::Perfect);
    assert_eq!(quality_for_size(100, &q), Quality::Perfect);
    assert_eq!(quality_for_size(17, &q), Quality::Good);
    assert_eq!(quality_for_size(14, &q), Quality::Good);
    assert_eq!(quality_for_size(13, &q), Quality::Bad);
    assert_eq!(quality_for_size(0, &q), Quality::Bad);
    assert_eq!(quality_for_size(-3, &q), Quality::Bad);
}

#[test]
fn font_size_quality_follows_the_current_pair() {
    let mut k = state(rgb(255, 255, 255), rgb(0, 0, 0));
    k.set_font_size(10);
    assert_eq!(k.font_size_quality(), Quality::Perfect);
    let mut poor = state(rgb(100, 100, 100), rgb(110, 110, 110));
    poor.set_font_size(30);
    assert_eq!(poor.font_size_quality(), Quality::Bad);
}

#[test]
fn display_text_color_keeps_a_good_foreground() {
    let k = state(rgb(255, 255, 255), rgb(0, 0, 0));
    assert_eq!(k.display_text_color(), rgb(255, 255, 255));
}

#[test]
fn display_text_color_falls_back_to_black_on_light_background() {
    // mid gray on a light gray: ratio 2.36, background luminance 0.578
    let k = state(rgb(128, 128, 128), rgb(200, 200, 200));
    assert!(k.contrast() <= 3_000_000);
    assert!(luminosity(&rgb(200, 200, 200)) > 500_000);
    assert_eq!(k.display_text_color(), rgb(0, 0, 0));
}

#[test]
fn display_text_color_falls_back_to_white_on_dark_background() {
    // mid gray on a dark gray: ratio 1.75, background luminance 0.102
    let k = state(rgb(128, 128, 128), rgb(90, 90, 90));
    assert!(k.contrast() <= 3_000_000);
    assert!(luminosity(&rgb(90, 90, 90)) <= 500_000);
    assert_eq!(k.display_text_color(), rgb(255, 255, 255));
}

#[test]
fn random_pair_exceeds_the_threshold() {
    let mut k = Kontrast::default();
    for _ in 0..20 {
        k.random();
        assert!(k.contrast() > 3_500_000);
    }
}

#[test]
fn random_keeps_font_size_and_grabbed_color() {
    let mut k = Kontrast::default();
    k.set_font_size(42);
    k.set_grabbed_color(rgb(1, 2, 3));
    k.random();
    assert_eq!(k.font_size, 42);
    assert_eq!(k.grabbed_color, rgb(1, 2, 3));
}

#[test]
fn reverse_swaps_the_pair() {
    let mut k = state(rgb(1, 2, 3), rgb(4, 5, 6));
    k.reverse();
    assert_eq!(k.text_color, rgb(4, 5, 6));
    assert_eq!(k.background_color, rgb(1, 2, 3));
}

#[test]
fn reverse_twice_restores_the_pair_exactly() {
    let original = state(rgb(17, 230, 9), rgb(250, 1, 128));
    let mut k = original;
    k.reverse();
    k.reverse();
    assert_eq!(k, original);
}
