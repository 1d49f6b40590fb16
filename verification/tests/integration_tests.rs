use blitz_mustang::effect::EffectType;
use blitz_mustang::effect::TransformParams;
use blitz_mustang::region::Region;
use blitz_mustang::ComponentEffects;
use blitz_mustang::SecurityGating;
use blitz_mustang::ThemeCompositor;
use blitz_mustang::ThemeConfig;
use blitz_mustang::theme_has_effects;

#[test]
fn test_theme_compositor_new() {
    let compositor = ThemeCompositor::new();
    assert_eq!(compositor.current_theme().as_str(), "default");
}

#[test]
fn test_theme_compositor_set_theme() {
    let mut compositor = ThemeCompositor::new();
    compositor.set_theme("dark");
    assert_eq!(compositor.current_theme().as_str(), "dark");
}

#[test]
fn test_theme_has_effects() {
    let glass_theme = ThemeConfig::new().name("glass-morphism");
    assert!(theme_has_effects(&glass_theme));

    let plain_theme = ThemeConfig::new().name("plain");
    assert!(!theme_has_effects(&plain_theme));
}

#[test]
fn test_component_effects() {
    let effects = ComponentEffects::new()
        .blur(".glass", 10_000, 800, 600)
        .transform(".card", TransformParams::default(), 800, 600);

    assert_eq!(effects.effects().len(), 2);
}

#[test]
fn test_security_gating() {
    let gating = SecurityGating::new().add_security_region(Region::new(0, 0, 100, 100));

    assert!(gating.is_point_secured(50, 50));
    assert!(!gating.is_point_secured(150, 50));
}

#[test]
fn test_extract_theme_effects() {
    let compositor = ThemeCompositor::new();
    let glass_theme = ThemeConfig::new().name("glass-panel");
    let effects = compositor.extract_theme_effects(&glass_theme, 800, 600);

    assert_eq!(effects.len(), 1);
    assert!(matches!(effects[0].effect_type, EffectType::BackdropBlur));
}

#[test]
fn test_extract_theme_effects_cyberpunk() {
    let compositor = ThemeCompositor::new();
    let theme = ThemeConfig::new().name("cyberpunk-neon");
    let effects = compositor.extract_theme_effects(&theme, 800, 600);

    assert_eq!(effects.len(), 1);
    assert_eq!(effects[0].effect_type, EffectType::ColorAdjust);
    assert_eq!(effects[0].selector, ".cyberpunk-element");
}

#[test]
fn test_extract_theme_effects_both() {
    let compositor = ThemeCompositor::new();
    let theme = ThemeConfig::new().name("frosted-cyberpunk");
    let effects = compositor.extract_theme_effects(&theme, 800, 600);

    assert_eq!(effects.len(), 2);
    assert_eq!(effects[0].effect_type, EffectType::BackdropBlur);
    assert_eq!(effects[1].effect_type, EffectType::ColorAdjust);
}

#[test]
fn test_theme_has_effects_aurora() {
    assert!(theme_has_effects(&ThemeConfig::new().name("aurora-borealis")));
}

#[test]
fn test_composite_frame_passes_buffer_through() {
    let mut compositor = ThemeCompositor::new();
    let theme = ThemeConfig::new().name("glass");
    let buffer = vec![1u8, 2, 3, 4];
    let out = compositor.composite_frame(&buffer, 2, 2, &theme);
    assert_eq!(out, buffer);
}

// One secured region at the origin: an inside point is gated, an outside
// point is not, and a query area overlapping the region's corner reports
// exactly that one region.
#[test]
fn test_security_gating_intersections() {
    let secured = Region::new(0, 0, 100, 100);
    let gating = SecurityGating::new().add_security_region(secured);

    assert!(gating.is_point_secured(50, 50));
    assert!(!gating.is_point_secured(150, 50));

    let hits = gating.get_intersecting_regions(&Region::new(90, 90, 50, 50));
    assert_eq!(hits.len(), 1);
    assert_eq!(hits[0], secured);
}

#[test]
fn test_security_clipping_passthrough() {
    let gating = SecurityGating::new().add_security_region(Region::new(0, 0, 10, 10));
    let buffer = vec![9u8, 8, 7];
    assert_eq!(gating.apply_security_clipping(&buffer, 1, 3), buffer);

    let disabled = SecurityGating::new().enabled(false);
    assert_eq!(disabled.apply_security_clipping(&buffer, 1, 3), buffer);
}

#[test]
fn test_component_effects_into_effects() {
    let effects = ComponentEffects::new()
        .clip(Region::new(0, 0, 5, 5))
        .into_effects();
    assert_eq!(effects.len(), 1);
    assert_eq!(effects[0].effect_type, EffectType::Clip);
}
