use blitz_mustang::effect::ColorAdjustParams;
use blitz_mustang::effect::Effect;
use blitz_mustang::effect::EffectType;
use blitz_mustang::region::Region;
use blitz_mustang::scene::RecordingScene;
use blitz_mustang::scene::SceneOp;
use blitz_mustang::MustangCompositor;
use blitz_mustang::MustangConfig;
use blitz_mustang::MustangMode;
use blitz_mustang::SceneEffectResult;

#[test]
fn test_mustang_compositor_new() {
    let mustang = MustangCompositor::default();
    assert_eq!(mustang.config().mode, MustangMode::GpuAccelerated);
}

#[test]
fn test_mustang_compositor_config() {
    let config = MustangConfig::new().mode(MustangMode::CpuOnly);
    let mustang = MustangCompositor::new(config);
    assert_eq!(mustang.config().mode, MustangMode::CpuOnly);
}

#[test]
fn test_effect_caching() {
    let mut mustang = MustangCompositor::default();
    let effects = vec![Effect::blur(".test", 10_000, 800, 600)];

    mustang.cache_effects("test-component", effects.clone());
    let cached = mustang.get_cached_effects("test-component");

    assert!(cached.is_some());
    assert_eq!(cached.unwrap().len(), 1);
}

#[test]
fn test_scene_effect_result() {
    let result = SceneEffectResult { native_applied: 2, deferred_effects: vec![] };

    assert!(result.is_complete());
    assert_eq!(result.deferred_count(), 0);
}

#[test]
fn test_mustang_stats() {
    let mustang = MustangCompositor::default();
    let stats = mustang.get_stats();

    assert_eq!(stats.cached_components, 0);
    assert_eq!(stats.mode, MustangMode::GpuAccelerated);
}

// One blur effect and one color-adjust effect: one applied natively, one
// deferred, and the deferred entry is the color adjustment.
#[test]
fn test_apply_scene_effects_partition() {
    let mut mustang = MustangCompositor::default();
    let mut scene = RecordingScene::new();
    let effects = vec![
        Effect::blur(".glass", 10_000, 800, 600),
        Effect::color_adjust(".neon", ColorAdjustParams::default()),
    ];

    let result = mustang.apply_scene_effects(&mut scene, &effects, (800, 600));

    assert_eq!(result.native_applied, 1);
    assert_eq!(result.deferred_effects.len(), 1);
    assert_eq!(result.deferred_effects[0].effect_type, EffectType::ColorAdjust);
    assert!(!result.is_complete());
    assert_eq!(scene.op_count(), 1);
}

#[test]
fn test_apply_scene_effects_preserves_order() {
    let mut mustang = MustangCompositor::default();
    let mut scene = RecordingScene::new();
    let clip_region = Region::new(1, 2, 3, 4);
    let effects = vec![
        Effect::blur(".a", 1_000, 10, 10),
        Effect::clip(clip_region),
    ];

    let result = mustang.apply_scene_effects(&mut scene, &effects, (10, 10));

    assert_eq!(result.native_applied, 2);
    assert!(result.is_complete());
    assert_eq!(scene.op_count(), 2);
    assert_eq!(scene.op_at(0), SceneOp::FillRect(Region::new(0, 0, 10_000, 10_000)));
    assert_eq!(scene.op_at(1), SceneOp::PushClipLayer(clip_region));
}

#[test]
fn test_is_effect_native() {
    let mustang = MustangCompositor::default();
    let blur = Effect::blur(".a", 0, 1, 1);
    let color = Effect::color_adjust(".a", ColorAdjustParams::default());
    assert!(mustang.is_effect_native(&blur));
    assert!(!mustang.is_effect_native(&color));
}

#[test]
fn test_cache_replace_and_clear() {
    let mut mustang = MustangCompositor::default();
    mustang.cache_effects("c", vec![Effect::blur(".a", 0, 1, 1)]);
    mustang.cache_effects(
        "c",
        vec![Effect::blur(".a", 0, 1, 1), Effect::clip(Region::new(0, 0, 1, 1))],
    );
    assert_eq!(mustang.get_cached_effects("c").unwrap().len(), 2);
    assert_eq!(mustang.get_stats().cached_components, 1);

    mustang.clear_cache();
    assert!(mustang.get_cached_effects("c").is_none());
    assert_eq!(mustang.get_stats().cached_components, 0);
}

#[test]
fn test_cache_miss() {
    let mustang = MustangCompositor::default();
    assert!(mustang.get_cached_effects("absent").is_none());
}

#[test]
fn test_set_config() {
    let mut mustang = MustangCompositor::default();
    mustang.set_config(MustangConfig::hybrid());
    assert_eq!(mustang.config().mode, MustangMode::Hybrid);
}

#[test]
fn test_cache_cap_evicts_oldest() {
    let mut mustang = MustangCompositor::new(MustangConfig::new().max_cache_size(2));
    mustang.cache_effects("one", vec![Effect::blur(".a", 0, 1, 1)]);
    mustang.cache_effects("two", vec![Effect::blur(".b", 0, 1, 1)]);
    mustang.cache_effects("three", vec![Effect::blur(".c", 0, 1, 1)]);
    assert_eq!(mustang.get_stats().cached_components, 2);
    assert!(mustang.get_cached_effects("one").is_none());
    assert!(mustang.get_cached_effects("two").is_some());
    assert!(mustang.get_cached_effects("three").is_some());
}
