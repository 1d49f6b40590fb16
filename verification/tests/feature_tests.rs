use blitz_mustang::effect::EffectParams;
use blitz_mustang::effect::EffectType;
use blitz_mustang::features::effect_from_feature;
use blitz_mustang::features::features_to_effects;
use blitz_mustang::features::parse_blur_amount;
use blitz_mustang::features::parse_clip_region;
use blitz_mustang::features::parse_color_adjust;
use blitz_mustang::features::parse_transform;
use blitz_mustang::features::FeatureType;
use blitz_mustang::features::SyntheticFeature;
use blitz_mustang::region::Region;

#[test]
fn test_parse_blur_simple() {
    assert_eq!(parse_blur_amount("backdrop-filter: blur(10px)"), 10_000);
}

#[test]
fn test_parse_blur_fractional() {
    assert_eq!(parse_blur_amount("blur(12.5px)"), 12_500);
    assert_eq!(parse_blur_amount("blur(.5px)"), 500);
}

#[test]
fn test_parse_blur_without_px() {
    assert_eq!(parse_blur_amount("blur(7)"), 7_000);
}

#[test]
fn test_parse_blur_malformed_defaults() {
    assert_eq!(parse_blur_amount("backdrop-filter: blur(bogus)"), 10_000);
    assert_eq!(parse_blur_amount("no blur here"), 10_000);
    assert_eq!(parse_blur_amount("blur(10px"), 10_000);
    assert_eq!(parse_blur_amount(""), 10_000);
}

#[test]
fn test_parse_blur_negative_defaults() {
    // a negative radius is malformed: the documented default applies
    assert_eq!(parse_blur_amount("blur(-5px)"), 10_000);
}

#[test]
fn test_parse_blur_whitespace() {
    assert_eq!(parse_blur_amount("blur( 10px )"), 10_000);
}

#[test]
fn test_parse_transform_scale() {
    let p = parse_transform("scale(1.1)");
    assert_eq!(p.scale_x, 1_100);
    assert_eq!(p.scale_y, 1_100);
    assert_eq!(p.translate_x, 0);
    assert_eq!(p.rotate_degrees, 0);
}

#[test]
fn test_parse_transform_translate_two_axes() {
    let p = parse_transform("translate(10px, 20px)");
    assert_eq!(p.translate_x, 10_000);
    assert_eq!(p.translate_y, 20_000);
    assert_eq!(p.scale_x, 1_000);
}

#[test]
fn test_parse_transform_translate_one_axis() {
    let p = parse_transform("translate(-4.5px)");
    assert_eq!(p.translate_x, -4_500);
    assert_eq!(p.translate_y, 0);
}

#[test]
fn test_parse_transform_rotate() {
    let p = parse_transform("rotate(45deg)");
    assert_eq!(p.rotate_degrees, 45_000);
    let q = parse_transform("rotate(-90deg)");
    assert_eq!(q.rotate_degrees, -90_000);
}

#[test]
fn test_parse_transform_combined() {
    let p = parse_transform("scale(2) translate(1px, 2px) rotate(30deg)");
    assert_eq!(p.scale_x, 2_000);
    assert_eq!(p.scale_y, 2_000);
    assert_eq!(p.translate_x, 1_000);
    assert_eq!(p.translate_y, 2_000);
    assert_eq!(p.rotate_degrees, 30_000);
}

#[test]
fn test_parse_transform_malformed_is_identity() {
    let p = parse_transform("skew(10deg)");
    assert_eq!(p.scale_x, 1_000);
    assert_eq!(p.scale_y, 1_000);
    assert_eq!(p.translate_x, 0);
    assert_eq!(p.translate_y, 0);
    assert_eq!(p.rotate_degrees, 0);
}

#[test]
fn test_parse_transform_scale_failure_leaves_default() {
    // scale takes the raw token: an inner space makes the parse fail
    let p = parse_transform("scale( 1.1 )");
    assert_eq!(p.scale_x, 1_000);
}

#[test]
fn test_parse_color_adjust_brightness() {
    let p = parse_color_adjust("brightness(1.2)");
    assert_eq!(p.red_multiplier, 1_200);
    assert_eq!(p.green_multiplier, 1_200);
    assert_eq!(p.blue_multiplier, 1_200);
    assert_eq!(p.red_offset, 0);
}

#[test]
fn test_parse_color_adjust_other_function_ignored() {
    let p = parse_color_adjust("contrast(0.8)");
    assert_eq!(p.red_multiplier, 1_000);
    assert_eq!(p.green_multiplier, 1_000);
    assert_eq!(p.blue_multiplier, 1_000);
}

#[test]
fn test_parse_clip_region_is_full_viewport() {
    let r = parse_clip_region("circle(50%)", 800, 600);
    assert_eq!(r, Region::new(0, 0, 800_000, 600_000));
}

#[test]
fn test_effect_from_feature_backdrop_filter() {
    let feature = SyntheticFeature {
        feature_type: FeatureType::BackdropFilter,
        selector: ".glass".to_string(),
        original_value: "backdrop-filter: blur(10px)".to_string(),
    };
    let effect = effect_from_feature(&feature, 800, 600).unwrap();
    assert_eq!(effect.effect_type, EffectType::BackdropBlur);
    assert_eq!(effect.selector, ".glass");
    match effect.params {
        EffectParams::Blur(b) => assert_eq!(b.radius, 10_000),
        _ => panic!("expected blur parameters"),
    }
}

#[test]
fn test_effect_from_feature_bogus_blur_defaults() {
    let feature = SyntheticFeature {
        feature_type: FeatureType::BackdropFilter,
        selector: ".glass".to_string(),
        original_value: "backdrop-filter: blur(bogus)".to_string(),
    };
    let effect = effect_from_feature(&feature, 800, 600).unwrap();
    match effect.params {
        EffectParams::Blur(b) => assert_eq!(b.radius, 10_000),
        _ => panic!("expected blur parameters"),
    }
}

#[test]
fn test_effect_from_feature_clip() {
    let feature = SyntheticFeature {
        feature_type: FeatureType::Clip,
        selector: String::new(),
        original_value: "inset(0)".to_string(),
    };
    let effect = effect_from_feature(&feature, 100, 100).unwrap();
    assert_eq!(effect.effect_type, EffectType::Clip);
    assert_eq!(effect.region, Region::new(0, 0, 100_000, 100_000));
}

#[test]
fn test_features_to_effects_in_order() {
    let features = vec![
        SyntheticFeature {
            feature_type: FeatureType::Transform,
            selector: ".card".to_string(),
            original_value: "scale(1.5)".to_string(),
        },
        SyntheticFeature {
            feature_type: FeatureType::ColorAdjust,
            selector: ".neon".to_string(),
            original_value: "brightness(2)".to_string(),
        },
    ];
    let effects = features_to_effects(&features, 640, 480);
    assert_eq!(effects.len(), 2);
    assert_eq!(effects[0].effect_type, EffectType::Transform2D);
    assert_eq!(effects[0].selector, ".card");
    match effects[0].params {
        EffectParams::Transform(t) => assert_eq!(t.scale_x, 1_500),
        _ => panic!("expected transform parameters"),
    }
    assert_eq!(effects[1].effect_type, EffectType::ColorAdjust);
    match effects[1].params {
        EffectParams::Color(c) => assert_eq!(c.green_multiplier, 2_000),
        _ => panic!("expected color parameters"),
    }
}
