use blitz_mustang::effect::BlurParams;
use blitz_mustang::effect::BlurQuality;
use blitz_mustang::effect::ColorAdjustParams;
use blitz_mustang::effect::Effect;
use blitz_mustang::effect::EffectParams;
use blitz_mustang::effect::EffectType;
use blitz_mustang::effect::TransformParams;
use blitz_mustang::effect::CLIP_Z_INDEX;
use blitz_mustang::region::Region;
use blitz_mustang::scene::PaintTarget;
use blitz_mustang::scene::RecordingScene;
use blitz_mustang::scene::SceneOp;
use blitz_mustang::ApplyEffect;
use blitz_mustang::EffectScene;

#[test]
fn test_effect_blur() {
    let effect = Effect::blur(".test", 10_000, 1280, 800);
    assert!(matches!(effect.effect_type, EffectType::BackdropBlur));
    assert!(effect.is_native());
}

#[test]
fn test_effect_transform() {
    let params = TransformParams::default();
    let effect = Effect::transform(".test", params, 1280, 800);
    assert!(matches!(effect.effect_type, EffectType::Transform2D));
    assert!(effect.is_native());
}

#[test]
fn test_effect_color_adjust_requires_gpu() {
    let params = ColorAdjustParams::default();
    let effect = Effect::color_adjust(".test", params);
    assert!(effect.requires_gpu_compute());
    assert!(!effect.is_native());
}

#[test]
fn test_effect_builder_pattern() {
    let effect = Effect::blur(".glass", 15_000, 1280, 800)
        .with_z_index(10)
        .with_region(Region::new(10, 10, 200, 100));

    assert_eq!(effect.z_index, 10);
    assert_eq!(effect.region.x, 10);
    assert_eq!(effect.region.y, 10);
    assert_eq!(effect.region.width, 200);
    assert_eq!(effect.region.height, 100);
}

#[test]
fn test_blur_params_default() {
    let p = BlurParams::default();
    assert_eq!(p.radius, 10_000);
    assert_eq!(p.passes, 2);
    assert_eq!(p.quality, BlurQuality::High);
}

#[test]
fn test_transform_params_default_is_identity() {
    let p = TransformParams::default();
    assert_eq!(p.scale_x, 1000);
    assert_eq!(p.scale_y, 1000);
    assert_eq!(p.translate_x, 0);
    assert_eq!(p.translate_y, 0);
    assert_eq!(p.rotate_degrees, 0);
    assert_eq!(p.pivot_x, 500);
    assert_eq!(p.pivot_y, 500);
}

#[test]
fn test_color_adjust_params_default_is_identity() {
    let p = ColorAdjustParams::default();
    assert_eq!(p.red_multiplier, 1000);
    assert_eq!(p.green_multiplier, 1000);
    assert_eq!(p.blue_multiplier, 1000);
    assert_eq!(p.red_offset, 0);
    assert_eq!(p.green_offset, 0);
    assert_eq!(p.blue_offset, 0);
}

#[test]
fn test_clip_always_on_top() {
    let clip = Effect::clip(Region::new(0, 0, 100, 100));
    assert_eq!(clip.z_index, CLIP_Z_INDEX);
    assert!(clip.is_native());
    assert!(clip.selector.is_empty());
}

#[test]
fn test_blur_viewport_region_scaled_to_thousandths() {
    let effect = Effect::blur(".test", 10_000, 800, 600);
    assert_eq!(effect.region, Region::new(0, 0, 800_000, 600_000));
}

#[test]
fn test_color_adjust_region_is_zero() {
    let effect = Effect::color_adjust(".x", ColorAdjustParams::default());
    assert_eq!(effect.region, Region::new(0, 0, 0, 0));
}

#[test]
fn test_effect_params_accessors() {
    let blur = Effect::blur(".a", 5_000, 10, 10);
    assert!(blur.blur_params().is_some());
    assert_eq!(blur.blur_params().unwrap().radius, 5_000);
    assert!(blur.transform_params().is_none());
    assert!(blur.color_params().is_none());
}

#[test]
fn test_apply_blur_records_fill() {
    let mut scene = RecordingScene::new();
    let effect = Effect::blur(".a", 5_000, 10, 10);
    effect.apply_to_scene(&mut scene, (10, 10));
    assert_eq!(scene.op_count(), 1);
    assert_eq!(scene.op_at(0), SceneOp::FillRect(Region::new(0, 0, 10_000, 10_000)));
}

#[test]
fn test_apply_transform_pushes_layer() {
    let mut scene = RecordingScene::new();
    let params = TransformParams {
        scale_x: 1100,
        scale_y: 1100,
        translate_x: 0,
        translate_y: 0,
        rotate_degrees: 0,
        pivot_x: 500,
        pivot_y: 500,
    };
    let effect = Effect::transform(".a", params, 10, 10);
    effect.apply_to_scene(&mut scene, (10, 10));
    assert_eq!(scene.op_count(), 1);
    assert_eq!(
        scene.op_at(0),
        SceneOp::PushTransformLayer(params, Region::new(0, 0, 10_000, 10_000))
    );
}

#[test]
fn test_apply_clip_pushes_clip_layer() {
    let mut scene = RecordingScene::new();
    let region = Region::new(5, 5, 20, 20);
    let effect = Effect::clip(region);
    effect.apply_to_scene(&mut scene, (10, 10));
    assert_eq!(scene.op_count(), 1);
    assert_eq!(scene.op_at(0), SceneOp::PushClipLayer(region));
}

#[test]
fn test_apply_color_adjust_is_noop_on_scene() {
    let mut scene = RecordingScene::new();
    let effect = Effect::color_adjust(".a", ColorAdjustParams::default());
    effect.apply_to_scene(&mut scene, (10, 10));
    assert_eq!(scene.op_count(), 0);
}

#[test]
fn test_effect_params_enum_matches_kind() {
    let clip = Effect::clip(Region::new(0, 0, 1, 1));
    assert!(matches!(clip.params, EffectParams::Clip));
    let blur = Effect::blur(".b", 0, 1, 1);
    assert!(matches!(blur.params, EffectParams::Blur(_)));
}

#[test]
fn test_scene_pop_layer_recorded() {
    let mut scene = RecordingScene::new();
    scene.push_clip_layer(Region::new(0, 0, 1, 1));
    scene.pop_layer();
    assert_eq!(scene.op_count(), 2);
    assert_eq!(scene.op_at(1), SceneOp::PopLayer);
}

#[test]
fn test_effect_scene_apply_effects() {
    let mut scene = RecordingScene::new();
    let effects = vec![
        Effect::blur(".a", 1_000, 10, 10),
        Effect::color_adjust(".b", ColorAdjustParams::default()),
        Effect::clip(Region::new(0, 0, 5, 5)),
    ];
    scene.apply_effects(&effects, (10, 10));
    assert_eq!(scene.op_count(), 2);
    assert_eq!(scene.op_at(0), SceneOp::FillRect(Region::new(0, 0, 10_000, 10_000)));
    assert_eq!(scene.op_at(1), SceneOp::PushClipLayer(Region::new(0, 0, 5, 5)));
}
