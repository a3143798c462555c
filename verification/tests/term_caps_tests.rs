use tct::term_caps::{
    indexed_to_rgb, nearest_ansi16, nearest_cube_level, nearest_indexed, BorderType, Color, ColorSupport, TermCaps,
};

#[test]
fn detect_linux_term_is_bottom_tier() {
    let caps = TermCaps::from_env(Some("linux"), None);
    assert_eq!(caps, TermCaps::linux_tty());
    let caps = TermCaps::from_env(Some("linux"), Some("truecolor"));
    assert_eq!(caps, TermCaps::linux_tty());
}

#[test]
fn detect_colorterm_selects_truecolor() {
    for adv in ["truecolor", "24bit"] {
        let caps = TermCaps::from_env(Some("xterm-256color"), Some(adv));
        assert_eq!(caps, TermCaps::full());
    }
}

#[test]
fn detect_without_colorterm_is_middle_tier() {
    let caps = TermCaps::from_env(Some("xterm-256color"), None);
    assert_eq!(caps.color, ColorSupport::Ansi256);
    assert!(caps.rich_glyphs);
}

#[test]
fn ansi16_quantizes_to_nearest_palette_entry() {
    assert_eq!(nearest_ansi16(0, 0, 0), Color::Black);
    assert_eq!(nearest_ansi16(255, 85, 85), Color::LightRed);
    assert_eq!(nearest_ansi16(200, 0, 10), Color::Red);
    assert_eq!(nearest_ansi16(250, 250, 250), Color::White);
}

#[test]
fn selection_bg_stays_visible_on_bottom_tier() {
    assert_eq!(TermCaps::linux_tty().selection_bg(), Color::DarkGray);
    assert_ne!(TermCaps::linux_tty().adapt_color(TermCaps::linux_tty().selection_bg()), Color::Black);
}

#[test]
fn ansi256_quantizes_rgb_to_indexed() {
    assert_eq!(
        TermCaps { color: ColorSupport::Ansi256, rich_glyphs: true }.adapt_color(Color::Rgb(95, 135, 175)),
        Color::Indexed(16 + 36 + 6 * 2 + 3)
    );
    let c = TermCaps { color: ColorSupport::Ansi256, rich_glyphs: true }.adapt_color(Color::Rgb(40, 40, 42));
    match c {
        Color::Indexed(i) => assert!((232..=255).contains(&i), "expected gray ramp, got {i}"),
        other => panic!("expected Indexed, got {other:?}"),
    }
}

#[test]
fn ansi16_reduces_indexed_via_rgb() {
    let caps = TermCaps::linux_tty();
    assert_eq!(caps.adapt_color(Color::Indexed(196)), Color::Red);
    assert_eq!(caps.adapt_color(Color::Indexed(255)), Color::White);
}

#[test]
fn truecolor_passes_rgb_through() {
    let c = Color::Rgb(1, 2, 3);
    assert_eq!(TermCaps::full().adapt_color(c), c);
}

#[test]
fn named_colors_untouched_on_all_tiers() {
    for caps in [TermCaps::full(), TermCaps::linux_tty()] {
        assert_eq!(caps.adapt_color(Color::Cyan), Color::Cyan);
    }
}

#[test]
fn glyph_fallbacks() {
    assert_eq!(TermCaps::full().check_mark(), "✓");
    assert_eq!(TermCaps::linux_tty().check_mark(), "x");
    assert_eq!(TermCaps::full().selected_border_type(), BorderType::Thick);
    assert_eq!(TermCaps::linux_tty().selected_border_type(), BorderType::Double);
}

#[test]
fn cube_levels_and_palette_values() {
    assert_eq!(nearest_cube_level(0), 0);
    assert_eq!(nearest_cube_level(100), 1);
    assert_eq!(nearest_cube_level(115), 1);
    assert_eq!(nearest_cube_level(116), 2);
    assert_eq!(nearest_cube_level(255), 5);
    assert_eq!(indexed_to_rgb(1), (170, 0, 0));
    assert_eq!(indexed_to_rgb(196), (255, 0, 0));
    assert_eq!(indexed_to_rgb(232), (8, 8, 8));
    assert_eq!(nearest_indexed(255, 0, 0), 196);
    assert_eq!(nearest_indexed(128, 128, 128), 244);
}
