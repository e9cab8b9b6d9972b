use curtain_relay::adapter::{
    base_url, effects_url, find_color1_palette_index, find_text_effect_index, palettes_url,
    state_url, win_url, DeviceAdapter,
};

fn names(list: &[&str]) -> Vec<String> {
    list.iter().map(|s| s.to_string()).collect()
}

#[test]
fn effect_prefers_scrolling_text_over_plain_text() {
    let effects = names(&["Blink", "Text Twinkle", "Scrolling Text"]);
    assert_eq!(find_text_effect_index(&effects), Some(2));
}

#[test]
fn effect_falls_back_to_first_text_match() {
    let effects = names(&["Blink", "Text Twinkle", "Noise Text"]);
    assert_eq!(find_text_effect_index(&effects), Some(1));
}

#[test]
fn effect_matching_ignores_case() {
    let effects = names(&["BLINK", "SCROLLING TEXT"]);
    assert_eq!(find_text_effect_index(&effects), Some(1));
}

#[test]
fn effect_not_found() {
    let effects = names(&["Blink", "Marquee", "Rainbow"]);
    assert_eq!(find_text_effect_index(&effects), None);
}

#[test]
fn palette_matches_any_of_the_color1_names() {
    assert_eq!(
        find_color1_palette_index(&names(&["Default", "* Primary color", "Rainbow"])),
        Some(1)
    );
    assert_eq!(
        find_color1_palette_index(&names(&["Rainbow", "Based on Color 1"])),
        Some(1)
    );
    assert_eq!(find_color1_palette_index(&names(&["SOLID glow"])), Some(0));
    assert_eq!(find_color1_palette_index(&names(&["A single hue"])), Some(0));
}

#[test]
fn palette_not_found() {
    assert_eq!(find_color1_palette_index(&names(&["Default", "Rainbow"])), None);
}

#[test]
fn plan_builds_the_full_state_update() {
    let mut a = DeviceAdapter::new(None, Some("TT".to_string()));
    assert!(a.needs_effect_catalog());
    assert!(a.needs_palette_catalog());
    let effects = names(&["Blink", "Scrolling Text"]);
    let palettes = names(&["Default", "* Primary color"]);
    let p = a.plan("Hello world!", Some("#ff00aa"), Some(&effects), Some(&palettes));
    assert_eq!(p.preset, None);
    assert!(p.state.on);
    assert_eq!(p.state.brightness, 128);
    assert_eq!(p.state.segment.name, "Hello world!");
    assert_eq!(p.state.segment.color, (255, 0, 170));
    assert_eq!(p.state.segment.color_mode, 0);
    assert_eq!(p.state.segment.font_size, 255);
    assert_eq!(p.state.segment.effect, Some(1));
    assert_eq!(p.state.segment.palette, Some(1));
    assert_eq!(p.legacy_query.as_deref(), Some("TT=Hello%20world%21"));
}

#[test]
fn plan_memoizes_discovered_indices() {
    let mut a = DeviceAdapter::new(None, None);
    let effects = names(&["Scrolling Text"]);
    let palettes = names(&["* Primary color"]);
    let p1 = a.plan("hi", None, Some(&effects), Some(&palettes));
    assert_eq!(p1.state.segment.effect, Some(0));
    assert_eq!(p1.state.segment.palette, Some(0));
    assert!(!a.needs_effect_catalog());
    assert!(!a.needs_palette_catalog());
    // with the catalogs gone, the cached indices still come out
    let p2 = a.plan("again", None, None, None);
    assert_eq!(p2.state.segment.effect, Some(0));
    assert_eq!(p2.state.segment.palette, Some(0));
}

#[test]
fn plan_skips_selectors_without_catalogs() {
    let mut a = DeviceAdapter::new(None, None);
    let p = a.plan("hi", None, None, None);
    assert_eq!(p.state.segment.effect, None);
    assert_eq!(p.state.segment.palette, None);
    assert_eq!(p.legacy_query, None);
    // a failed discovery is not cached: the catalogs are consulted again
    assert!(a.needs_effect_catalog());
    assert!(a.needs_palette_catalog());
}

#[test]
fn plan_uses_preset_instead_of_effect_discovery() {
    let mut a = DeviceAdapter::new(Some(5), None);
    assert!(!a.needs_effect_catalog());
    let palettes = names(&["* Primary color"]);
    let p = a.plan("hi", None, None, Some(&palettes));
    assert_eq!(p.preset, Some(5));
    assert_eq!(p.state.segment.effect, None);
    assert_eq!(p.state.segment.palette, Some(0));
}

#[test]
fn plan_falls_back_to_gold_for_bad_color() {
    let mut a = DeviceAdapter::new(None, None);
    let p = a.plan("hi", Some("#xyz"), None, None);
    assert_eq!(p.state.segment.color, (255, 215, 0));
}

#[test]
fn legacy_query_percent_encodes_the_text() {
    let mut a = DeviceAdapter::new(None, Some("TT".to_string()));
    let p = a.plan("a b&c=d", None, None, None);
    assert_eq!(p.legacy_query.as_deref(), Some("TT=a%20b%26c%3Dd"));
}

#[test]
fn device_urls() {
    assert_eq!(base_url(18080), "http://127.0.0.1:18080");
    assert_eq!(state_url(18080), "http://127.0.0.1:18080/json/state");
    assert_eq!(effects_url(80), "http://127.0.0.1:80/json/effects");
    assert_eq!(palettes_url(80), "http://127.0.0.1:80/json/palettes");
    assert_eq!(win_url(18080, "TT=Hi"), "http://127.0.0.1:18080/win?TT=Hi");
}
