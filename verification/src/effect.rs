//! The effect model: tagged effects over a target selector and screen
//! region, classified into scene-native operations and deferred
//! GPU-compute work.
//!
//! Lengths, scale factors, multipliers and pivots are fixed-point
//! thousandths: `1000` stands for one pixel or a factor of one.

use crate::region::Region;
use crate::scene::PaintTarget;
use crate::scene::SceneOp;
use vstd::prelude::*;

verus! {

/// Clips always composite last, above every other effect.
pub const CLIP_Z_INDEX: i32 = 9999;

/// Types of compositor effects.
#[derive(Debug, Clone, Copy, PartialEq, Eq, Structural)]
pub enum EffectType {
    /// Gaussian blur for backdrop-filter.
    BackdropBlur,
    /// 2D transform (scale, translate, rotate).
    Transform2D,
    /// Color adjustment (multipliers and offsets).
    ColorAdjust,
    /// Clip/mask, used for security gating as well as clip paths.
    Clip,
}

/// Quality levels for blur effects.
#[derive(Debug, Clone, Copy, PartialEq, Eq, Hash, Structural)]
pub enum BlurQuality {
    /// Fast, good for previews.
    Low,
    /// Balanced.
    Medium,
    /// Best quality, slower.
    High,
    /// Maximum quality.
    Ultra,
}

impl Default for BlurQuality {
    fn default() -> (q: BlurQuality)
        ensures
            q == BlurQuality::High,
    {
        BlurQuality::High
    }
}

/// Parameters for color adjustment, in thousandths: a multiplier of `1000`
/// and an offset of `0` leave a channel unchanged.
#[derive(Debug, Clone, Copy, PartialEq, Eq, Structural)]
pub struct ColorAdjustParams {
    pub red_multiplier: i64,
    pub green_multiplier: i64,
    pub blue_multiplier: i64,
    pub red_offset: i64,
    pub green_offset: i64,
    pub blue_offset: i64,
}

impl Default for ColorAdjustParams {
    fn default() -> (p: ColorAdjustParams)
        ensures
            p == (ColorAdjustParams {
                red_multiplier: 1000,
                green_multiplier: 1000,
                blue_multiplier: 1000,
                red_offset: 0,
                green_offset: 0,
                blue_offset: 0,
            }),
    {
        ColorAdjustParams {
            red_multiplier: 1000,
            green_multiplier: 1000,
            blue_multiplier: 1000,
            red_offset: 0,
            green_offset: 0,
            blue_offset: 0,
        }
    }
}

/// Parameters for a blur effect.
#[derive(Debug, Clone, Copy, PartialEq, Eq, Structural)]
pub struct BlurParams {
    /// Blur radius in thousandths of a pixel; never negative.
    pub radius: i64,
    /// Number of blur passes (more is smoother but slower); at least one.
    pub passes: u32,
    /// Quality level for the blur.
    pub quality: BlurQuality,
}

impl BlurParams {
    pub open spec fn wf(self) -> bool {
        self.radius >= 0 && self.passes >= 1
    }
}

impl Default for BlurParams {
    fn default() -> (p: BlurParams)
        ensures
            p == (BlurParams { radius: 10_000, passes: 2, quality: BlurQuality::High }),
            p.wf(),
    {
        BlurParams { radius: 10_000, passes: 2, quality: BlurQuality::High }
    }
}

/// Parameters for a 2D transform, in thousandths: the identity transform
/// is scale `1000`, translation `0`, rotation `0`, pivot `(500, 500)`
/// (the region's center).
#[derive(Debug, Clone, Copy, PartialEq, Eq, Structural)]
pub struct TransformParams {
    /// Scale on the X axis, thousandths of one.
    pub scale_x: i64,
    /// Scale on the Y axis, thousandths of one.
    pub scale_y: i64,
    /// Translation on the X axis, thousandths of a pixel.
    pub translate_x: i64,
    /// Translation on the Y axis, thousandths of a pixel.
    pub translate_y: i64,
    /// Rotation in thousandths of a degree.
    pub rotate_degrees: i64,
    /// Pivot point X: `0` is the left edge, `500` the center, `1000` the
    /// right edge.
    pub pivot_x: i64,
    /// Pivot point Y: `0` is the top edge, `500` the center, `1000` the
    /// bottom edge.
    pub pivot_y: i64,
}

impl TransformParams {
    /// The identity transform.
    pub open spec fn identity() -> TransformParams {
        TransformParams {
            scale_x: 1000,
            scale_y: 1000,
            translate_x: 0,
            translate_y: 0,
            rotate_degrees: 0,
            pivot_x: 500,
            pivot_y: 500,
        }
    }
}

impl Default for TransformParams {
    fn default() -> (p: TransformParams)
        ensures
            p == TransformParams::identity(),
    {
        TransformParams {
            scale_x: 1000,
            scale_y: 1000,
            translate_x: 0,
            translate_y: 0,
            rotate_degrees: 0,
            pivot_x: 500,
            pivot_y: 500,
        }
    }
}

/// The parameter payload of an effect: exactly one per effect, matching
/// its kind.
#[derive(Debug, Clone, Copy, PartialEq, Eq, Structural)]
pub enum EffectParams {
    Blur(BlurParams),
    Transform(TransformParams),
    Color(ColorAdjustParams),
    Clip,
}

/// Scene-native kinds: expressible with the scene's own draw, transform
/// and clip primitives.  Color adjustment is the one kind that needs a
/// separate compute pass over rendered pixels.
pub open spec fn is_native_spec(t: EffectType) -> bool {
    t == EffectType::BackdropBlur || t == EffectType::Transform2D || t == EffectType::Clip
}

/// The full-viewport region for a viewport given in whole pixels.
pub open spec fn viewport_region(w: u32, h: u32) -> Region {
    Region { x: 0, y: 0, width: (w * 1000) as i64, height: (h * 1000) as i64 }
}

/// A compositor effect to be applied to a region.
#[derive(Debug)]
pub struct Effect {
    /// Type of effect.
    pub effect_type: EffectType,
    /// CSS selector that identifies the target element.
    pub selector: String,
    /// Region bounds in screen coordinates (thousandths of a pixel).
    pub region: Region,
    /// The parameters for this effect's kind.
    pub params: EffectParams,
    /// Z-order for layering (higher is on top); advisory metadata for a
    /// consuming compositing stage, not enforced here.
    pub z_index: i32,
}

/// The scene operations an effect contributes on the native path: a blur
/// fills its region translucently, a transform pushes a transformed layer,
/// a clip pushes a clip layer, and a color adjustment contributes nothing
/// (it is always deferred).
pub open spec fn scene_ops_of(e: Effect) -> Seq<SceneOp> {
    match e.effect_type {
        EffectType::BackdropBlur => if e.params is Blur {
            seq![SceneOp::FillRect(e.region)]
        } else {
            Seq::<SceneOp>::empty()
        },
        EffectType::Transform2D => match e.params {
            EffectParams::Transform(tp) => seq![SceneOp::PushTransformLayer(tp, e.region)],
            _ => Seq::<SceneOp>::empty(),
        },
        EffectType::Clip => seq![SceneOp::PushClipLayer(e.region)],
        EffectType::ColorAdjust => Seq::<SceneOp>::empty(),
    }
}

impl Effect {
    /// Kind and payload agree, the region is well-formed, and blur
    /// parameters are valid.  Every constructor establishes this.
    pub open spec fn wf(self) -> bool {
        &&& self.region.wf()
        &&& match self.params {
            EffectParams::Blur(b) => self.effect_type == EffectType::BackdropBlur && b.wf(),
            EffectParams::Transform(_) => self.effect_type == EffectType::Transform2D,
            EffectParams::Color(_) => self.effect_type == EffectType::ColorAdjust,
            EffectParams::Clip => self.effect_type == EffectType::Clip,
        }
    }

    /// Create a blur effect over the full viewport.
    pub fn blur(selector: &str, radius: i64, viewport_width: u32, viewport_height: u32) -> (e:
        Effect)
        requires
            radius >= 0,
        ensures
            e.effect_type == EffectType::BackdropBlur,
            e.selector@ == selector@,
            e.region == viewport_region(viewport_width, viewport_height),
            e.params == EffectParams::Blur(
                BlurParams { radius, passes: 2, quality: BlurQuality::High },
            ),
            e.z_index == 0,
            e.wf(),
    {
        Effect {
            effect_type: EffectType::BackdropBlur,
            selector: selector.to_owned(),
            region: Region::new(
                0,
                0,
                (viewport_width as i64) * 1000,
                (viewport_height as i64) * 1000,
            ),
            params: EffectParams::Blur(
                BlurParams { radius, passes: 2, quality: BlurQuality::High },
            ),
            z_index: 0,
        }
    }

    /// Create a transform effect over the full viewport.
    pub fn transform(
        selector: &str,
        params: TransformParams,
        viewport_width: u32,
        viewport_height: u32,
    ) -> (e: Effect)
        ensures
            e.effect_type == EffectType::Transform2D,
            e.selector@ == selector@,
            e.region == viewport_region(viewport_width, viewport_height),
            e.params == EffectParams::Transform(params),
            e.z_index == 0,
            e.wf(),
    {
        Effect {
            effect_type: EffectType::Transform2D,
            selector: selector.to_owned(),
            region: Region::new(
                0,
                0,
                (viewport_width as i64) * 1000,
                (viewport_height as i64) * 1000,
            ),
            params: EffectParams::Transform(params),
            z_index: 0,
        }
    }

    /// Create a color adjustment effect.  Color adjustment is
    /// selector-driven, not region-driven: the region defaults to a
    /// zero-size rectangle.
    pub fn color_adjust(selector: &str, params: ColorAdjustParams) -> (e: Effect)
        ensures
            e.effect_type == EffectType::ColorAdjust,
            e.selector@ == selector@,
            e.region == (Region { x: 0, y: 0, width: 0, height: 0 }),
            e.params == EffectParams::Color(params),
            e.z_index == 0,
            e.wf(),
    {
        Effect {
            effect_type: EffectType::ColorAdjust,
            selector: selector.to_owned(),
            region: Region::new(0, 0, 0, 0),
            params: EffectParams::Color(params),
            z_index: 0,
        }
    }

    /// Create a clip effect; there is no selector, and clips always sit at
    /// the top of the z-order.
    pub fn clip(region: Region) -> (e: Effect)
        requires
            region.wf(),
        ensures
            e.effect_type == EffectType::Clip,
            e.selector@ == Seq::<char>::empty(),
            e.region == region,
            e.params == EffectParams::Clip,
            e.z_index == CLIP_Z_INDEX,
            e.wf(),
    {
        Effect {
            effect_type: EffectType::Clip,
            selector: String::new(),
            region,
            params: EffectParams::Clip,
            z_index: CLIP_Z_INDEX,
        }
    }

    /// Update the region for this effect.
    pub fn with_region(self, region: Region) -> (e: Effect)
        ensures
            e.effect_type == self.effect_type,
            e.selector == self.selector,
            e.region == region,
            e.params == self.params,
            e.z_index == self.z_index,
    {
        Effect { region, ..self }
    }

    /// Set z-index for layering.
    pub fn with_z_index(self, z_index: i32) -> (e: Effect)
        ensures
            e.effect_type == self.effect_type,
            e.selector == self.selector,
            e.region == self.region,
            e.params == self.params,
            e.z_index == z_index,
    {
        Effect { z_index, ..self }
    }

    /// Returns true if this effect can be applied scene-natively.
    pub fn is_native(&self) -> (r: bool)
        ensures
            r == is_native_spec(self.effect_type),
    {
        match self.effect_type {
            EffectType::BackdropBlur => true,
            EffectType::Transform2D => true,
            EffectType::Clip => true,
            EffectType::ColorAdjust => false,
        }
    }

    /// Returns true if this effect requires a GPU compute pass: exactly
    /// the negation of `is_native`, and true precisely of color
    /// adjustment.
    pub fn requires_gpu_compute(&self) -> (r: bool)
        ensures
            r == !is_native_spec(self.effect_type),
            r == (self.effect_type == EffectType::ColorAdjust),
    {
        match self.effect_type {
            EffectType::ColorAdjust => true,
            _ => false,
        }
    }

    /// Blur parameters, when this is a blur effect.
    pub fn blur_params(&self) -> (p: Option<BlurParams>)
        ensures
            p == match self.params {
                EffectParams::Blur(b) => Some(b),
                _ => None::<BlurParams>,
            },
    {
        match self.params {
            EffectParams::Blur(b) => Some(b),
            _ => None,
        }
    }

    /// Transform parameters, when this is a transform effect.
    pub fn transform_params(&self) -> (p: Option<TransformParams>)
        ensures
            p == match self.params {
                EffectParams::Transform(t) => Some(t),
                _ => None::<TransformParams>,
            },
    {
        match self.params {
            EffectParams::Transform(t) => Some(t),
            _ => None,
        }
    }

    /// Color parameters, when this is a color adjustment effect.
    pub fn color_params(&self) -> (p: Option<ColorAdjustParams>)
        ensures
            p == match self.params {
                EffectParams::Color(c) => Some(c),
                _ => None::<ColorAdjustParams>,
            },
    {
        match self.params {
            EffectParams::Color(c) => Some(c),
            _ => None,
        }
    }
}

impl Clone for Effect {
    fn clone(&self) -> (e: Effect)
        ensures
            e == *self,
    {
        Effect {
            effect_type: self.effect_type,
            selector: self.selector.clone(),
            region: self.region,
            params: self.params,
            z_index: self.z_index,
        }
    }
}

/// Exactly one of `is_native` and `requires_gpu_compute` holds of every
/// effect kind, and the kinds partition three to one.
pub proof fn lemma_native_partition(t: EffectType)
    ensures
        is_native_spec(t) <==> t != EffectType::ColorAdjust,
{
}

/// Trait for applying effects to scenes.  An effect applies itself to any
/// `PaintTarget`, appending exactly its scene operations; it is agnostic
/// to the concrete scene implementation.
pub trait ApplyEffect<S: PaintTarget> {
    /// The operations this effect contributes to a scene.
    spec fn effect_scene_ops(&self) -> Seq<SceneOp>;

    /// Apply this effect to a scene.  For transform and clip effects the
    /// caller must pop the pushed layer after rendering the affected
    /// subtree; the effect only pushes.
    fn apply_to_scene(&self, scene: &mut S, viewport: (u32, u32))
        ensures
            final(scene).ops() == old(scene).ops() + self.effect_scene_ops(),
    ;
}

impl<S: PaintTarget> ApplyEffect<S> for Effect {
    open spec fn effect_scene_ops(&self) -> Seq<SceneOp> {
        scene_ops_of(*self)
    }

    fn apply_to_scene(&self, scene: &mut S, _viewport: (u32, u32)) {
        let ghost pre = scene.ops();
        match self.effect_type {
            EffectType::BackdropBlur => {
                match self.params {
                    EffectParams::Blur(_) => {
                        scene.fill_rect(self.region);
                        proof {
                            assert(scene.ops() =~= pre + scene_ops_of(*self));
                        }
                    },
                    _ => {
                        proof {
                            assert(scene.ops() =~= pre + scene_ops_of(*self));
                        }
                    },
                }
            },
            EffectType::Transform2D => {
                match self.params {
                    EffectParams::Transform(tp) => {
                        scene.push_transform_layer(tp, self.region);
                        proof {
                            assert(scene.ops() =~= pre + scene_ops_of(*self));
                        }
                    },
                    _ => {
                        proof {
                            assert(scene.ops() =~= pre + scene_ops_of(*self));
                        }
                    },
                }
            },
            EffectType::Clip => {
                scene.push_clip_layer(self.region);
                proof {
                    assert(scene.ops() =~= pre + scene_ops_of(*self));
                }
            },
            EffectType::ColorAdjust => {
                proof {
                    assert(scene.ops() =~= pre + scene_ops_of(*self));
                }
            },
        }
    }
}

/// The scene operations contributed by a list of effects, in input order.
pub open spec fn concat_scene_ops(s: Seq<Effect>) -> Seq<SceneOp>
    decreases s.len(),
{
    if s.len() == 0 {
        Seq::<SceneOp>::empty()
    } else {
        concat_scene_ops(s.drop_last()) + scene_ops_of(s.last())
    }
}

/// One step of an effect-application loop: the operations of one more
/// effect are appended.
pub(crate) proof fn lemma_concat_scene_ops_step(s: Seq<Effect>, i: int)
    requires
        0 <= i < s.len(),
    ensures
        concat_scene_ops(s.take(i + 1)) == concat_scene_ops(s.take(i)) + scene_ops_of(s[i]),
{
    assert(s.take(i + 1).drop_last() =~= s.take(i));
    assert(s.take(i + 1).last() == s[i]);
}

/// Extension trait adding effect application to every paint target: any
/// scene can apply a single effect or an ordered effect list directly.
pub trait EffectScene: PaintTarget + Sized {
    /// Apply a single effect to the scene.
    fn apply_effect(&mut self, effect: &Effect, viewport: (u32, u32))
        ensures
            final(self).ops() == old(self).ops() + scene_ops_of(*effect),
    ;

    /// Apply multiple effects to the scene, in input order.
    fn apply_effects(&mut self, effects: &[Effect], viewport: (u32, u32))
        ensures
            final(self).ops() == old(self).ops() + concat_scene_ops(effects@),
    ;
}

impl<S: PaintTarget> EffectScene for S {
    fn apply_effect(&mut self, effect: &Effect, viewport: (u32, u32)) {
        effect.apply_to_scene(self, viewport);
    }

    fn apply_effects(&mut self, effects: &[Effect], viewport: (u32, u32)) {
        let ghost base = self.ops();
        proof {
            assert(concat_scene_ops(effects@.take(0int)) =~= Seq::<SceneOp>::empty());
            assert(base + concat_scene_ops(effects@.take(0int)) =~= base);
        }
        let mut i: usize = 0;
        while i < effects.len()
            invariant
                0 <= i <= effects@.len(),
                self.ops() == base + concat_scene_ops(effects@.take(i as int)),
            decreases effects@.len() - i,
        {
            proof {
                lemma_concat_scene_ops_step(effects@, i as int);
            }
            effects[i].apply_to_scene(self, viewport);
            proof {
                assert(self.ops() =~= base + concat_scene_ops(effects@.take(i as int + 1)));
            }
            i += 1;
        }
        proof {
            assert(effects@.take(effects@.len() as int) =~= effects@);
        }
    }
}

} // verus!
