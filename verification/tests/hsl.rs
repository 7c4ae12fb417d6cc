use kontrast::color::Color;
use kontrast::color::hsl_to_rgb;
use kontrast::color::rgb_to_hsl;
use kontrast::kontrast::Kontrast;

fn rgb(r: i32, g: i32, b: i32) -> Color {
    Color::from_rgb(r, g, b)
}

#[test]
fn constructors_clamp_and_wrap() {
    assert_eq!(rgb(-5, 300, 100), rgb(0, 255, 100));
    assert_eq!(Color::from_hsl(360, 10, 20), Color::from_hsl(0, 10, 20));
    assert_eq!(Color::from_hsl(-1, 300, -5), Color::from_hsl(359, 255, 0));
    assert_eq!(Color::from_hsl(-361, 0, 0), Color::from_hsl(359, 0, 0));
    assert_eq!(Color::from_hsl(725, 0, 0), Color::from_hsl(5, 0, 0));
}

#[test]
fn hsl_of_primary_colors() {
    assert_eq!(rgb_to_hsl(255, 0, 0), (0, 255, 127));
    assert_eq!(rgb_to_hsl(0, 255, 0), (120, 255, 127));
    assert_eq!(rgb_to_hsl(0, 0, 255), (240, 255, 127));
    assert_eq!(rgb_to_hsl(10, 200, 50), (132, 230, 105));
}

#[test]
fn achromatic_colors_have_zero_hue_and_saturation() {
    assert_eq!(rgb_to_hsl(0, 0, 0), (0, 0, 0));
    assert_eq!(rgb_to_hsl(255, 255, 255), (0, 0, 255));
    assert_eq!(rgb_to_hsl(128, 128, 128), (0, 0, 128));
}

#[test]
fn rgb_of_hsl_triples() {
    assert_eq!(hsl_to_rgb(120, 255, 127), (0, 254, 0));
    assert_eq!(hsl_to_rgb(0, 0, 77), (77, 77, 77));
    assert_eq!(hsl_to_rgb(0, 0, 255), (255, 255, 255));
}

#[test]
fn accessors_convert_between_families() {
    let c = rgb(10, 200, 50);
    assert_eq!(c.hue(), 132);
    assert_eq!(c.saturation(), 230);
    assert_eq!(c.lightness(), 105);
    let h = Color::from_hsl(132, 230, 105);
    let (r, g, b) = hsl_to_rgb(132, 230, 105);
    assert_eq!(h.red(), r);
    assert_eq!(h.green(), g);
    assert_eq!(h.blue(), b);
}

#[test]
fn setting_hue_keeps_saturation_and_lightness() {
    let mut k = Kontrast::default();
    k.set_text_color(rgb(10, 200, 50));
    let s_before = k.text_saturation();
    let l_before = k.text_lightness();
    k.set_text_hue(123);
    assert_eq!(k.text_hue(), 123);
    assert_eq!(k.text_saturation(), s_before);
    assert_eq!(k.text_lightness(), l_before);
}

#[test]
fn setting_saturation_keeps_hue_and_lightness() {
    let mut k = Kontrast::default();
    k.set_text_color(rgb(10, 200, 50));
    let h_before = k.text_hue();
    let l_before = k.text_lightness();
    k.set_text_saturation(77);
    assert_eq!(k.text_hue(), h_before);
    assert_eq!(k.text_saturation(), 77);
    assert_eq!(k.text_lightness(), l_before);
}

#[test]
fn setting_lightness_keeps_hue_and_saturation() {
    let mut k = Kontrast::default();
    k.set_text_color(rgb(10, 200, 50));
    let h_before = k.text_hue();
    let s_before = k.text_saturation();
    k.set_text_lightness(9);
    assert_eq!(k.text_hue(), h_before);
    assert_eq!(k.text_saturation(), s_before);
    assert_eq!(k.text_lightness(), 9);
}

#[test]
fn background_setters_mirror_the_text_setters() {
    let mut k = Kontrast::default();
    k.set_background_color(rgb(10, 200, 50));
    let s_before = k.background_saturation();
    let l_before = k.background_lightness();
    k.set_background_hue(301);
    assert_eq!(k.background_hue(), 301);
    assert_eq!(k.background_saturation(), s_before);
    assert_eq!(k.background_lightness(), l_before);
    k.set_background_saturation(1000);
    assert_eq!(k.background_saturation(), 255);
    assert_eq!(k.background_hue(), 301);
    k.set_background_lightness(-4);
    assert_eq!(k.background_lightness(), 0);
    assert_eq!(k.background_hue(), 301);
    assert_eq!(k.text_color, Kontrast::default().text_color);
}

#[test]
fn grabbed_color_is_stored_untouched() {
    let mut k = Kontrast::default();
    let before = (k.text_color, k.background_color, k.font_size);
    k.set_grabbed_color(rgb(9, 8, 7));
    assert_eq!(k.grabbed_color, rgb(9, 8, 7));
    assert_eq!((k.text_color, k.background_color, k.font_size), before);
}
