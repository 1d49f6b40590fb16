//! Feature extraction: turning `{selector, feature kind, raw value}`
//! descriptors from the style stage into concrete effects.
//!
//! Numeric extraction is substring-based, not a grammar parser, and is
//! best-effort: malformed values fall back to documented defaults, never
//! to a failure.  Numbers are read as fixed-point thousandths.

use crate::effect::BlurParams;
use crate::effect::BlurQuality;
use crate::effect::ColorAdjustParams;
use crate::effect::Effect;
use crate::effect::EffectParams;
use crate::effect::EffectType;
use crate::effect::TransformParams;
use crate::effect::viewport_region;
use crate::effect::CLIP_Z_INDEX;
use crate::region::Region;
use crate::text::find_byte;
use crate::text::find_subslice;
use crate::text::lemma_find_byte_from_some;
use crate::text::lemma_find_from_some;
use crate::text::parse_milli;
use crate::text::spec_find;
use crate::text::spec_find_byte_from;
use crate::text::spec_parse_milli;
use crate::text::strip_suffix_all;
use crate::text::strip_suffix_all_spec;
use crate::text::trim_ascii;
use crate::text::trim_spec;
use crate::text::utf8_bytes;
use vstd::prelude::*;

verus! {

/// Types of synthetic CSS features.
#[derive(Debug, Clone, Copy, PartialEq, Eq, Structural)]
pub enum FeatureType {
    BackdropFilter,
    Transform,
    ColorAdjust,
    Clip,
}

/// Synthetic feature from CSS normalization: a selector, a feature kind,
/// and the raw value string the style stage saw.
#[derive(Debug, Clone)]
pub struct SyntheticFeature {
    pub feature_type: FeatureType,
    pub selector: String,
    pub original_value: String,
}

/// The ASCII bytes of `"blur("`.
pub open spec fn blur_token() -> Seq<u8> {
    seq![98u8, 108u8, 117u8, 114u8, 40u8]
}

/// The ASCII bytes of `"px"`.
pub open spec fn px_token() -> Seq<u8> {
    seq![112u8, 120u8]
}

/// The ASCII bytes of `"scale("`.
pub open spec fn scale_token() -> Seq<u8> {
    seq![115u8, 99u8, 97u8, 108u8, 101u8, 40u8]
}

/// The ASCII bytes of `"translate("`.
pub open spec fn translate_token() -> Seq<u8> {
    seq![116u8, 114u8, 97u8, 110u8, 115u8, 108u8, 97u8, 116u8, 101u8, 40u8]
}

/// The ASCII bytes of `"rotate("`.
pub open spec fn rotate_token() -> Seq<u8> {
    seq![114u8, 111u8, 116u8, 97u8, 116u8, 101u8, 40u8]
}

/// The ASCII bytes of `"deg"`.
pub open spec fn deg_token() -> Seq<u8> {
    seq![100u8, 101u8, 103u8]
}

/// The ASCII bytes of `"brightness("`.
pub open spec fn brightness_token() -> Seq<u8> {
    seq![98u8, 114u8, 105u8, 103u8, 104u8, 116u8, 110u8, 101u8, 115u8, 115u8, 40u8]
}

fn blur_needle() -> (v: Vec<u8>)
    ensures
        v@ == blur_token(),
{
    let mut v: Vec<u8> = Vec::new();
    v.push(98);
    v.push(108);
    v.push(117);
    v.push(114);
    v.push(40);
    proof {
        assert(v@ =~= blur_token());
    }
    v
}

fn px_needle() -> (v: Vec<u8>)
    ensures
        v@ == px_token(),
{
    let mut v: Vec<u8> = Vec::new();
    v.push(112);
    v.push(120);
    proof {
        assert(v@ =~= px_token());
    }
    v
}

fn scale_needle() -> (v: Vec<u8>)
    ensures
        v@ == scale_token(),
{
    let mut v: Vec<u8> = Vec::new();
    v.push(115);
    v.push(99);
    v.push(97);
    v.push(108);
    v.push(101);
    v.push(40);
    proof {
        assert(v@ =~= scale_token());
    }
    v
}

fn translate_needle() -> (v: Vec<u8>)
    ensures
        v@ == translate_token(),
{
    let mut v: Vec<u8> = Vec::new();
    v.push(116);
    v.push(114);
    v.push(97);
    v.push(110);
    v.push(115);
    v.push(108);
    v.push(97);
    v.push(116);
    v.push(101);
    v.push(40);
    proof {
        assert(v@ =~= translate_token());
    }
    v
}

fn rotate_needle() -> (v: Vec<u8>)
    ensures
        v@ == rotate_token(),
{
    let mut v: Vec<u8> = Vec::new();
    v.push(114);
    v.push(111);
    v.push(116);
    v.push(97);
    v.push(116);
    v.push(101);
    v.push(40);
    proof {
        assert(v@ =~= rotate_token());
    }
    v
}

fn deg_needle() -> (v: Vec<u8>)
    ensures
        v@ == deg_token(),
{
    let mut v: Vec<u8> = Vec::new();
    v.push(100);
    v.push(101);
    v.push(103);
    proof {
        assert(v@ =~= deg_token());
    }
    v
}

fn brightness_needle() -> (v: Vec<u8>)
    ensures
        v@ == brightness_token(),
{
    let mut v: Vec<u8> = Vec::new();
    v.push(98);
    v.push(114);
    v.push(105);
    v.push(103);
    v.push(104);
    v.push(116);
    v.push(110);
    v.push(101);
    v.push(115);
    v.push(115);
    v.push(40);
    proof {
        assert(v@ =~= brightness_token());
    }
    v
}

/// The blur radius extracted from a raw value: the token between
/// `"blur("` and the next `")"`, trimmed, a trailing `"px"` stripped,
/// trimmed again, read as a non-negative number in thousandths; `10000`
/// (ten pixels) on any failure.
pub open spec fn spec_blur_amount(v: Seq<u8>) -> i64 {
    let f = spec_find(v, blur_token());
    if f is Some {
        let after = v.skip(f.unwrap() + blur_token().len());
        let close = spec_find_byte_from(after, 41, 0);
        if close is Some {
            let token = after.take(close.unwrap());
            let cleaned = trim_spec(strip_suffix_all_spec(trim_spec(token), px_token()));
            let p = spec_parse_milli(cleaned);
            if p is Some && p.unwrap() >= 0 {
                p.unwrap()
            } else {
                10_000
            }
        } else {
            10_000
        }
    } else {
        10_000
    }
}

/// A translate argument: trimmed, a trailing `"px"` stripped, read as a
/// number in thousandths; `0` on failure.
pub open spec fn spec_translate_value(part: Seq<u8>) -> i64 {
    let q = spec_parse_milli(strip_suffix_all_spec(trim_spec(part), px_token()));
    if q is Some {
        q.unwrap()
    } else {
        0
    }
}

/// `scale(n)` sets both axes to `n` (only the uniform form is read); on
/// parse failure the parameters are left unchanged.
pub open spec fn spec_scale_part(v: Seq<u8>, p: TransformParams) -> TransformParams {
    let f = spec_find(v, scale_token());
    if f is Some {
        let after = v.skip(f.unwrap() + scale_token().len());
        let close = spec_find_byte_from(after, 41, 0);
        if close is Some {
            let n = spec_parse_milli(after.take(close.unwrap()));
            if n is Some {
                TransformParams { scale_x: n.unwrap(), scale_y: n.unwrap(), ..p }
            } else {
                p
            }
        } else {
            p
        }
    } else {
        p
    }
}

/// `translate(a[, b])` sets the X offset from the first comma-separated
/// part and the Y offset from the second part when present, each
/// defaulting to `0` on parse failure independently.
pub open spec fn spec_translate_part(v: Seq<u8>, p: TransformParams) -> TransformParams {
    let f = spec_find(v, translate_token());
    if f is Some {
        let after = v.skip(f.unwrap() + translate_token().len());
        let close = spec_find_byte_from(after, 41, 0);
        if close is Some {
            let inner = after.take(close.unwrap());
            let comma = spec_find_byte_from(inner, 44, 0);
            if comma is Some {
                let part0 = inner.take(comma.unwrap());
                let rest = inner.skip(comma.unwrap() + 1);
                let comma2 = spec_find_byte_from(rest, 44, 0);
                let part1 = if comma2 is Some {
                    rest.take(comma2.unwrap())
                } else {
                    rest
                };
                TransformParams {
                    translate_x: spec_translate_value(part0),
                    translate_y: spec_translate_value(part1),
                    ..p
                }
            } else {
                TransformParams { translate_x: spec_translate_value(inner), ..p }
            }
        } else {
            p
        }
    } else {
        p
    }
}

/// `rotate(d)` with a trailing `"deg"` stripped; `0` on parse failure.
pub open spec fn spec_rotate_part(v: Seq<u8>, p: TransformParams) -> TransformParams {
    let f = spec_find(v, rotate_token());
    if f is Some {
        let after = v.skip(f.unwrap() + rotate_token().len());
        let close = spec_find_byte_from(after, 41, 0);
        if close is Some {
            let token = after.take(close.unwrap());
            let q = spec_parse_milli(strip_suffix_all_spec(trim_spec(token), deg_token()));
            TransformParams {
                rotate_degrees: if q is Some {
                    q.unwrap()
                } else {
                    0
                },
                ..p
            }
        } else {
            p
        }
    } else {
        p
    }
}

/// The transform extracted from a raw value: `scale`, `translate` and
/// `rotate` are looked for independently, starting from the identity.
pub open spec fn spec_transform(v: Seq<u8>) -> TransformParams {
    spec_rotate_part(v, spec_translate_part(v, spec_scale_part(v, TransformParams::identity())))
}

/// The color adjustment extracted from a raw value: only `brightness(n)`
/// is recognized, setting all three multipliers uniformly; anything else
/// leaves the identity adjustment.
pub open spec fn spec_color_adjust(v: Seq<u8>) -> ColorAdjustParams {
    let f = spec_find(v, brightness_token());
    let id = ColorAdjustParams {
        red_multiplier: 1000,
        green_multiplier: 1000,
        blue_multiplier: 1000,
        red_offset: 0,
        green_offset: 0,
        blue_offset: 0,
    };
    if f is Some {
        let after = v.skip(f.unwrap() + brightness_token().len());
        let close = spec_find_byte_from(after, 41, 0);
        if close is Some {
            let q = spec_parse_milli(after.take(close.unwrap()));
            if q is Some {
                ColorAdjustParams {
                    red_multiplier: q.unwrap(),
                    green_multiplier: q.unwrap(),
                    blue_multiplier: q.unwrap(),
                    ..id
                }
            } else {
                id
            }
        } else {
            id
        }
    } else {
        id
    }
}

/// Extract the blur radius (thousandths of a pixel) from a raw value such
/// as `"backdrop-filter: blur(10px)"`.
pub fn parse_blur_amount(value: &str) -> (r: i64)
    ensures
        r == spec_blur_amount(utf8_bytes(value@)),
        r >= 0,
{
    let bytes = value.as_bytes();
    let blen = bytes.len();
    proof {
        assert(bytes@.len() == blen);
    }
    let needle = blur_needle();
    let nlen = needle.len();
    if let Some(start) = find_subslice(bytes, needle.as_slice()) {
        proof {
            lemma_find_from_some(bytes@, blur_token(), 0);
        }
        let after = &bytes[start + nlen..blen];
        proof {
            assert(after@ =~= utf8_bytes(value@).skip(start + blur_token().len()));
        }
        if let Some(close) = find_byte(after, 41) {
            proof {
                lemma_find_byte_from_some(after@, 41, 0);
            }
            let token = &after[0..close];
            proof {
                assert(token@ =~= after@.take(close as int));
            }
            let t1 = trim_ascii(token);
            let px = px_needle();
            let t2 = strip_suffix_all(t1, px.as_slice());
            let t3 = trim_ascii(t2);
            match parse_milli(t3) {
                Some(x) if x >= 0 => x,
                _ => 10_000,
            }
        } else {
            10_000
        }
    } else {
        10_000
    }
}

/// Extract transform parameters from a raw value such as
/// `"transform: scale(1.1) translate(10px, 20px) rotate(45deg)"`.
pub fn parse_transform(value: &str) -> (p: TransformParams)
    ensures
        p == spec_transform(utf8_bytes(value@)),
{
    let ghost v = utf8_bytes(value@);
    let bytes = value.as_bytes();
    let blen = bytes.len();
    proof {
        assert(bytes@.len() == blen);
    }
    let mut params = TransformParams::default();
    let px = px_needle();

    // scale(n): uniform scale only
    let scale = scale_needle();
    let slen = scale.len();
    if let Some(start) = find_subslice(bytes, scale.as_slice()) {
        proof {
            lemma_find_from_some(bytes@, scale_token(), 0);
        }
        let after = &bytes[start + slen..blen];
        proof {
            assert(after@ =~= v.skip(start + scale_token().len()));
        }
        if let Some(close) = find_byte(after, 41) {
            proof {
                lemma_find_byte_from_some(after@, 41, 0);
            }
            let token = &after[0..close];
            proof {
                assert(token@ =~= after@.take(close as int));
            }
            if let Some(n) = parse_milli(token) {
                params.scale_x = n;
                params.scale_y = n;
            }
        }
    }
    proof {
        assert(params == spec_scale_part(v, TransformParams::identity()));
    }
    let ghost p1 = params;

    // translate(a[, b])
    let translate = translate_needle();
    let tlen = translate.len();
    if let Some(start) = find_subslice(bytes, translate.as_slice()) {
        proof {
            lemma_find_from_some(bytes@, translate_token(), 0);
        }
        let after = &bytes[start + tlen..blen];
        proof {
            assert(after@ =~= v.skip(start + translate_token().len()));
        }
        if let Some(close) = find_byte(after, 41) {
            proof {
                lemma_find_byte_from_some(after@, 41, 0);
            }
            let inner = &after[0..close];
            proof {
                assert(inner@ =~= after@.take(close as int));
            }
            if let Some(comma) = find_byte(inner, 44) {
                proof {
                    lemma_find_byte_from_some(inner@, 44, 0);
                }
                let part0 = &inner[0..comma];
                proof {
                    assert(part0@ =~= inner@.take(comma as int));
                }
                let rest = &inner[comma + 1..inner.len()];
                proof {
                    assert(rest@ =~= inner@.skip(comma as int + 1));
                }
                let part1: &[u8] = if let Some(comma2) = find_byte(rest, 44) {
                    proof {
                        lemma_find_byte_from_some(rest@, 44, 0);
                    }
                    &rest[0..comma2]
                } else {
                    rest
                };
                proof {
                    let comma2 = spec_find_byte_from(rest@, 44, 0);
                    if comma2 is Some {
                        assert(part1@ =~= rest@.take(comma2.unwrap()));
                    }
                }
                let x = match parse_milli(strip_suffix_all(trim_ascii(part0), px.as_slice())) {
                    Some(x) => x,
                    None => 0,
                };
                let y = match parse_milli(strip_suffix_all(trim_ascii(part1), px.as_slice())) {
                    Some(y) => y,
                    None => 0,
                };
                params.translate_x = x;
                params.translate_y = y;
            } else {
                let x = match parse_milli(strip_suffix_all(trim_ascii(inner), px.as_slice())) {
                    Some(x) => x,
                    None => 0,
                };
                params.translate_x = x;
            }
        }
    }
    proof {
        assert(params == spec_translate_part(v, p1));
    }
    let ghost p2 = params;

    // rotate(d)
    let rotate = rotate_needle();
    let rlen = rotate.len();
    if let Some(start) = find_subslice(bytes, rotate.as_slice()) {
        proof {
            lemma_find_from_some(bytes@, rotate_token(), 0);
        }
        let after = &bytes[start + rlen..blen];
        proof {
            assert(after@ =~= v.skip(start + rotate_token().len()));
        }
        if let Some(close) = find_byte(after, 41) {
            proof {
                lemma_find_byte_from_some(after@, 41, 0);
            }
            let token = &after[0..close];
            proof {
                assert(token@ =~= after@.take(close as int));
            }
            let deg = deg_needle();
            let rot = match parse_milli(strip_suffix_all(trim_ascii(token), deg.as_slice())) {
                Some(r) => r,
                None => 0,
            };
            params.rotate_degrees = rot;
        }
    }
    proof {
        assert(params == spec_rotate_part(v, p2));
    }
    params
}

/// Extract color adjustment parameters from a raw value such as
/// `"filter: brightness(1.2)"`.
pub fn parse_color_adjust(value: &str) -> (p: ColorAdjustParams)
    ensures
        p == spec_color_adjust(utf8_bytes(value@)),
{
    let ghost v = utf8_bytes(value@);
    let bytes = value.as_bytes();
    let blen = bytes.len();
    proof {
        assert(bytes@.len() == blen);
    }
    let mut params = ColorAdjustParams::default();
    let needle = brightness_needle();
    let nlen = needle.len();
    if let Some(start) = find_subslice(bytes, needle.as_slice()) {
        proof {
            lemma_find_from_some(bytes@, brightness_token(), 0);
        }
        let after = &bytes[start + nlen..blen];
        proof {
            assert(after@ =~= v.skip(start + brightness_token().len()));
        }
        if let Some(close) = find_byte(after, 41) {
            proof {
                lemma_find_byte_from_some(after@, 41, 0);
            }
            let token = &after[0..close];
            proof {
                assert(token@ =~= after@.take(close as int));
            }
            if let Some(b) = parse_milli(token) {
                params.red_multiplier = b;
                params.green_multiplier = b;
                params.blue_multiplier = b;
            }
        }
    }
    params
}

/// Extract a clip region from a raw value.  Clip-path syntax is not yet
/// read: the result is always the full viewport.  This is a documented
/// limitation, not a failure.
pub fn parse_clip_region(_value: &str, viewport_width: u32, viewport_height: u32) -> (r: Region)
    ensures
        r == viewport_region(viewport_width, viewport_height),
        r.wf(),
{
    Region::new(0, 0, (viewport_width as i64) * 1000, (viewport_height as i64) * 1000)
}

/// What the effect extracted from a feature must look like, field by
/// field.
pub open spec fn effect_matches_feature(e: Effect, f: SyntheticFeature, w: u32, h: u32) -> bool {
    match f.feature_type {
        FeatureType::BackdropFilter => {
            &&& e.effect_type == EffectType::BackdropBlur
            &&& e.selector@ == f.selector@
            &&& e.region == viewport_region(w, h)
            &&& e.params == EffectParams::Blur(
                BlurParams {
                    radius: spec_blur_amount(utf8_bytes(f.original_value@)),
                    passes: 2,
                    quality: BlurQuality::High,
                },
            )
            &&& e.z_index == 0
        },
        FeatureType::Transform => {
            &&& e.effect_type == EffectType::Transform2D
            &&& e.selector@ == f.selector@
            &&& e.region == viewport_region(w, h)
            &&& e.params == EffectParams::Transform(spec_transform(utf8_bytes(f.original_value@)))
            &&& e.z_index == 0
        },
        FeatureType::ColorAdjust => {
            &&& e.effect_type == EffectType::ColorAdjust
            &&& e.selector@ == f.selector@
            &&& e.region == (Region { x: 0, y: 0, width: 0, height: 0 })
            &&& e.params == EffectParams::Color(spec_color_adjust(utf8_bytes(f.original_value@)))
            &&& e.z_index == 0
        },
        FeatureType::Clip => {
            &&& e.effect_type == EffectType::Clip
            &&& e.selector@ == Seq::<char>::empty()
            &&& e.region == viewport_region(w, h)
            &&& e.params == EffectParams::Clip
            &&& e.z_index == CLIP_Z_INDEX
        },
    }
}

/// Convert one synthetic feature to an effect.  All four feature kinds
/// are recognized today, so the result is always produced; the `Option`
/// keeps the contract "a producer may legitimately decline".
pub fn effect_from_feature(
    feature: &SyntheticFeature,
    viewport_width: u32,
    viewport_height: u32,
) -> (r: Option<Effect>)
    ensures
        r is Some,
        effect_matches_feature(r.unwrap(), *feature, viewport_width, viewport_height),
        r.unwrap().wf(),
{
    match feature.feature_type {
        FeatureType::BackdropFilter => {
            let blur_amount = parse_blur_amount(feature.original_value.as_str());
            Some(
                Effect::blur(
                    feature.selector.as_str(),
                    blur_amount,
                    viewport_width,
                    viewport_height,
                ),
            )
        },
        FeatureType::Transform => {
            let transform = parse_transform(feature.original_value.as_str());
            Some(
                Effect::transform(
                    feature.selector.as_str(),
                    transform,
                    viewport_width,
                    viewport_height,
                ),
            )
        },
        FeatureType::ColorAdjust => {
            let color_params = parse_color_adjust(feature.original_value.as_str());
            Some(Effect::color_adjust(feature.selector.as_str(), color_params))
        },
        FeatureType::Clip => {
            let region = parse_clip_region(
                feature.original_value.as_str(),
                viewport_width,
                viewport_height,
            );
            Some(Effect::clip(region))
        },
    }
}

/// Convert a list of synthetic features to effects, in order.
pub fn features_to_effects(
    features: &[SyntheticFeature],
    viewport_width: u32,
    viewport_height: u32,
) -> (r: Vec<Effect>)
    ensures
        r@.len() == features@.len(),
        forall|i: int|
            0 <= i < features@.len() ==> effect_matches_feature(
                #[trigger] r@[i],
                features@[i],
                viewport_width,
                viewport_height,
            ),
        forall|i: int| 0 <= i < features@.len() ==> #[trigger] r@[i].wf(),
{
    let mut effects: Vec<Effect> = Vec::new();
    let mut i: usize = 0;
    while i < features.len()
        invariant
            0 <= i <= features@.len(),
            effects@.len() == i,
            forall|j: int|
                0 <= j < i ==> effect_matches_feature(
                    #[trigger] effects@[j],
                    features@[j],
                    viewport_width,
                    viewport_height,
                ),
            forall|j: int| 0 <= j < i ==> #[trigger] effects@[j].wf(),
        decreases features@.len() - i,
    {
        if let Some(effect) = effect_from_feature(&features[i], viewport_width, viewport_height) {
            effects.push(effect);
        }
        i += 1;
    }
    effects
}

} // verus!
