//! Integration helpers: the theme-aware compositor, per-component effect
//! collections, and region-based security gating.

use crate::MustangCompositor;
use crate::config::MustangConfig;
use crate::config::ThemeConfig;
use crate::effect::BlurParams;
use crate::effect::BlurQuality;
use crate::effect::ColorAdjustParams;
use crate::effect::Effect;
use crate::effect::EffectParams;
use crate::effect::EffectType;
use crate::effect::TransformParams;
use crate::effect::viewport_region;
use crate::effect::CLIP_Z_INDEX;
use crate::region::Region;
use crate::text::find_subslice;
use crate::text::spec_contains;
use crate::text::utf8_bytes;
use vstd::prelude::*;

verus! {

/// The ASCII bytes of `"glass"`.
pub open spec fn glass_token() -> Seq<u8> {
    seq![103u8, 108u8, 97u8, 115u8, 115u8]
}

/// The ASCII bytes of `"frosted"`.
pub open spec fn frosted_token() -> Seq<u8> {
    seq![102u8, 114u8, 111u8, 115u8, 116u8, 101u8, 100u8]
}

/// The ASCII bytes of `"cyberpunk"`.
pub open spec fn cyberpunk_token() -> Seq<u8> {
    seq![99u8, 121u8, 98u8, 101u8, 114u8, 112u8, 117u8, 110u8, 107u8]
}

/// The ASCII bytes of `"aurora"`.
pub open spec fn aurora_token() -> Seq<u8> {
    seq![97u8, 117u8, 114u8, 111u8, 114u8, 97u8]
}

fn glass_needle() -> (v: Vec<u8>)
    ensures
        v@ == glass_token(),
{
    let mut v: Vec<u8> = Vec::new();
    v.push(103);
    v.push(108);
    v.push(97);
    v.push(115);
    v.push(115);
    proof {
        assert(v@ =~= glass_token());
    }
    v
}

fn frosted_needle() -> (v: Vec<u8>)
    ensures
        v@ == frosted_token(),
{
    let mut v: Vec<u8> = Vec::new();
    v.push(102);
    v.push(114);
    v.push(111);
    v.push(115);
    v.push(116);
    v.push(101);
    v.push(100);
    proof {
        assert(v@ =~= frosted_token());
    }
    v
}

fn cyberpunk_needle() -> (v: Vec<u8>)
    ensures
        v@ == cyberpunk_token(),
{
    let mut v: Vec<u8> = Vec::new();
    v.push(99);
    v.push(121);
    v.push(98);
    v.push(101);
    v.push(114);
    v.push(112);
    v.push(117);
    v.push(110);
    v.push(107);
    proof {
        assert(v@ =~= cyberpunk_token());
    }
    v
}

fn aurora_needle() -> (v: Vec<u8>)
    ensures
        v@ == aurora_token(),
{
    let mut v: Vec<u8> = Vec::new();
    v.push(97);
    v.push(117);
    v.push(114);
    v.push(111);
    v.push(114);
    v.push(97);
    proof {
        assert(v@ =~= aurora_token());
    }
    v
}

/// Does a theme name call for glass-morphism effects?
pub open spec fn theme_is_glassy(name: Seq<char>) -> bool {
    spec_contains(utf8_bytes(name), glass_token()) || spec_contains(
        utf8_bytes(name),
        frosted_token(),
    )
}

/// Does a theme name call for cyberpunk color adjustment?
pub open spec fn theme_is_cyberpunk(name: Seq<char>) -> bool {
    spec_contains(utf8_bytes(name), cyberpunk_token())
}

/// Does a theme have effects that need compositing?
pub open spec fn theme_effectful(name: Seq<char>) -> bool {
    theme_is_glassy(name) || theme_is_cyberpunk(name) || spec_contains(
        utf8_bytes(name),
        aurora_token(),
    )
}

/// The color adjustment used for cyberpunk themes, in thousandths.
pub open spec fn cyberpunk_color_params() -> ColorAdjustParams {
    ColorAdjustParams {
        red_multiplier: 1200,
        green_multiplier: 800,
        blue_multiplier: 1500,
        red_offset: 100,
        green_offset: -50i64,
        blue_offset: 200,
    }
}

/// Helper to check if a theme has effects that need compositing.
pub fn theme_has_effects(theme_config: &ThemeConfig) -> (r: bool)
    ensures
        r == theme_effectful(theme_config.name@),
{
    let name = theme_config.name.as_str().as_bytes();
    proof {
        assert(name@ == utf8_bytes(theme_config.name@));
    }
    let glass = glass_needle();
    let frosted = frosted_needle();
    let cyberpunk = cyberpunk_needle();
    let aurora = aurora_needle();
    find_subslice(name, glass.as_slice()).is_some() || find_subslice(
        name,
        frosted.as_slice(),
    ).is_some() || find_subslice(name, cyberpunk.as_slice()).is_some() || find_subslice(
        name,
        aurora.as_slice(),
    ).is_some()
}

/// Theme-aware compositor that derives effects from theme metadata.
pub struct ThemeCompositor {
    compositor: MustangCompositor,
    current_theme: String,
}

impl ThemeCompositor {
    /// The current theme name.
    pub closed spec fn theme(self) -> Seq<char> {
        self.current_theme@
    }

    /// The underlying compositor.
    pub closed spec fn spec_compositor(self) -> MustangCompositor {
        self.compositor
    }

    /// Create a new theme compositor with the default configuration.
    pub fn new() -> (t: ThemeCompositor)
        ensures
            t.theme() == "default"@,
            t.spec_compositor().spec_config().is_default(),
            t.spec_compositor().cache_len() == 0,
            t.spec_compositor().wf(),
    {
        ThemeCompositor {
            compositor: MustangCompositor::new(MustangConfig::new()),
            current_theme: "default".to_owned(),
        }
    }

    /// Create a new theme compositor with a custom configuration.
    pub fn with_config(config: MustangConfig) -> (t: ThemeCompositor)
        ensures
            t.theme() == "default"@,
            t.spec_compositor().spec_config() == config,
            t.spec_compositor().cache_len() == 0,
            t.spec_compositor().wf(),
    {
        ThemeCompositor {
            compositor: MustangCompositor::new(config),
            current_theme: "default".to_owned(),
        }
    }

    /// Update the current theme.
    pub fn set_theme(&mut self, theme: &str)
        ensures
            final(self).theme() == theme@,
            final(self).spec_compositor() == old(self).spec_compositor(),
    {
        self.current_theme = theme.to_owned();
    }

    /// The current theme name.
    pub fn current_theme(&self) -> (r: &String)
        ensures
            r@ == self.theme(),
    {
        &self.current_theme
    }

    /// Apply compositor effects for the current theme to a frame buffer.
    ///
    /// Scene composition happens in the rendering backend; at this layer
    /// the frame passes through unchanged while the theme's effects are
    /// extracted for it.
    pub fn composite_frame(
        &mut self,
        buffer: &[u8],
        width: u32,
        height: u32,
        theme_config: &ThemeConfig,
    ) -> (r: Vec<u8>)
        ensures
            r@ == buffer@,
            *final(self) == *old(self),
    {
        let _effects = self.extract_theme_effects(theme_config, width, height);
        vstd::slice::slice_to_vec(buffer)
    }

    /// Get the underlying compositor for advanced usage.
    pub fn compositor(&mut self) -> &mut MustangCompositor {
        &mut self.compositor
    }

    /// Extract effects from theme configuration: glassy themes get a blur
    /// over `.glass-panel`, cyberpunk themes a color adjustment over
    /// `.cyberpunk-element`, in that order.
    pub fn extract_theme_effects(
        &self,
        theme_config: &ThemeConfig,
        width: u32,
        height: u32,
    ) -> (r: Vec<Effect>)
        ensures
            r@.len() == (if theme_is_glassy(theme_config.name@) {
                1int
            } else {
                0int
            }) + (if theme_is_cyberpunk(theme_config.name@) {
                1int
            } else {
                0int
            }),
            theme_is_glassy(theme_config.name@) ==> {
                &&& r@[0].effect_type == EffectType::BackdropBlur
                &&& r@[0].selector@ == ".glass-panel"@
                &&& r@[0].region == viewport_region(width, height)
                &&& r@[0].params == EffectParams::Blur(
                    BlurParams { radius: 10_000, passes: 2, quality: BlurQuality::High },
                )
            },
            theme_is_cyberpunk(theme_config.name@) ==> {
                let i = if theme_is_glassy(theme_config.name@) {
                    1int
                } else {
                    0int
                };
                &&& r@[i].effect_type == EffectType::ColorAdjust
                &&& r@[i].selector@ == ".cyberpunk-element"@
                &&& r@[i].params == EffectParams::Color(cyberpunk_color_params())
            },
            forall|i: int| 0 <= i < r@.len() ==> (#[trigger] r@[i]).wf(),
    {
        let mut effects: Vec<Effect> = Vec::new();
        let name = theme_config.name.as_str().as_bytes();
        proof {
            assert(name@ == utf8_bytes(theme_config.name@));
        }
        let glass = glass_needle();
        let frosted = frosted_needle();
        if find_subslice(name, glass.as_slice()).is_some() || find_subslice(
            name,
            frosted.as_slice(),
        ).is_some() {
            effects.push(Effect::blur(".glass-panel", 10_000, width, height));
        }
        let cyberpunk = cyberpunk_needle();
        if find_subslice(name, cyberpunk.as_slice()).is_some() {
            effects.push(
                Effect::color_adjust(
                    ".cyberpunk-element",
                    ColorAdjustParams {
                        red_multiplier: 1200,
                        green_multiplier: 800,
                        blue_multiplier: 1500,
                        red_offset: 100,
                        green_offset: -50,
                        blue_offset: 200,
                    },
                ),
            );
        }
        effects
    }
}

impl Default for ThemeCompositor {
    fn default() -> (t: ThemeCompositor)
        ensures
            t.theme() == "default"@,
            t.spec_compositor().spec_config().is_default(),
            t.spec_compositor().cache_len() == 0,
            t.spec_compositor().wf(),
    {
        ThemeCompositor::new()
    }
}

/// Component effect integration: a builder collecting the effects of one
/// component.
pub struct ComponentEffects {
    effects: Vec<Effect>,
}

impl View for ComponentEffects {
    type V = Seq<Effect>;

    closed spec fn view(&self) -> Seq<Effect> {
        self.effects@
    }
}

impl ComponentEffects {
    /// Create a new component effects collection.
    pub fn new() -> (c: ComponentEffects)
        ensures
            c@ == Seq::<Effect>::empty(),
    {
        ComponentEffects { effects: Vec::new() }
    }

    /// Add a blur effect to the component.
    pub fn blur(self, selector: &str, radius: i64, viewport_width: u32, viewport_height: u32) -> (c:
        ComponentEffects)
        requires
            radius >= 0,
        ensures
            c@.len() == self@.len() + 1,
            c@.drop_last() == self@,
            c@.last().effect_type == EffectType::BackdropBlur,
            c@.last().selector@ == selector@,
            c@.last().region == viewport_region(viewport_width, viewport_height),
            c@.last().params == EffectParams::Blur(
                BlurParams { radius, passes: 2, quality: BlurQuality::High },
            ),
            c@.last().z_index == 0,
            c@.last().wf(),
    {
        let mut effects = self.effects;
        effects.push(Effect::blur(selector, radius, viewport_width, viewport_height));
        proof {
            assert(effects@.drop_last() =~= self.effects@);
        }
        ComponentEffects { effects }
    }

    /// Add a transform effect to the component.
    pub fn transform(
        self,
        selector: &str,
        params: TransformParams,
        viewport_width: u32,
        viewport_height: u32,
    ) -> (c: ComponentEffects)
        ensures
            c@.len() == self@.len() + 1,
            c@.drop_last() == self@,
            c@.last().effect_type == EffectType::Transform2D,
            c@.last().selector@ == selector@,
            c@.last().region == viewport_region(viewport_width, viewport_height),
            c@.last().params == EffectParams::Transform(params),
            c@.last().z_index == 0,
            c@.last().wf(),
    {
        let mut effects = self.effects;
        effects.push(Effect::transform(selector, params, viewport_width, viewport_height));
        proof {
            assert(effects@.drop_last() =~= self.effects@);
        }
        ComponentEffects { effects }
    }

    /// Add a color adjustment effect to the component.
    pub fn color_adjust(self, selector: &str, params: ColorAdjustParams) -> (c: ComponentEffects)
        ensures
            c@.len() == self@.len() + 1,
            c@.drop_last() == self@,
            c@.last().effect_type == EffectType::ColorAdjust,
            c@.last().selector@ == selector@,
            c@.last().region == (Region { x: 0, y: 0, width: 0, height: 0 }),
            c@.last().params == EffectParams::Color(params),
            c@.last().z_index == 0,
            c@.last().wf(),
    {
        let mut effects = self.effects;
        effects.push(Effect::color_adjust(selector, params));
        proof {
            assert(effects@.drop_last() =~= self.effects@);
        }
        ComponentEffects { effects }
    }

    /// Add a clip effect to the component.
    pub fn clip(self, region: Region) -> (c: ComponentEffects)
        requires
            region.wf(),
        ensures
            c@.len() == self@.len() + 1,
            c@.drop_last() == self@,
            c@.last().effect_type == EffectType::Clip,
            c@.last().region == region,
            c@.last().params == EffectParams::Clip,
            c@.last().z_index == CLIP_Z_INDEX,
            c@.last().wf(),
    {
        let mut effects = self.effects;
        effects.push(Effect::clip(region));
        proof {
            assert(effects@.drop_last() =~= self.effects@);
        }
        ComponentEffects { effects }
    }

    /// Get all effects.
    pub fn effects(&self) -> (r: &[Effect])
        ensures
            r@ == self@,
    {
        self.effects.as_slice()
    }

    /// Consume into the effects vector.
    pub fn into_effects(self) -> (r: Vec<Effect>)
        ensures
            r@ == self@,
    {
        self.effects
    }
}

impl Default for ComponentEffects {
    fn default() -> (c: ComponentEffects)
        ensures
            c@ == Seq::<Effect>::empty(),
    {
        ComponentEffects::new()
    }
}

/// Security gating: a list of owner-defined secured regions deciding
/// whether a screen point or area falls under a capability restriction.
pub struct SecurityGating {
    enabled: bool,
    security_regions: Vec<Region>,
}

impl SecurityGating {
    /// Is gating enabled?
    pub closed spec fn is_enabled(self) -> bool {
        self.enabled
    }

    /// The secured regions, in the order added.
    pub closed spec fn regions(self) -> Seq<Region> {
        self.security_regions@
    }

    pub open spec fn wf(self) -> bool {
        forall|i: int| 0 <= i < self.regions().len() ==> (#[trigger] self.regions()[i]).wf()
    }

    /// Create a new security gating system: enabled, with no regions.
    pub fn new() -> (g: SecurityGating)
        ensures
            g.is_enabled(),
            g.regions() == Seq::<Region>::empty(),
            g.wf(),
    {
        SecurityGating { enabled: true, security_regions: Vec::new() }
    }

    /// Enable or disable security gating.
    pub fn enabled(self, enabled: bool) -> (g: SecurityGating)
        ensures
            g.is_enabled() == enabled,
            g.regions() == self.regions(),
    {
        SecurityGating { enabled, ..self }
    }

    /// Add a secured region.
    pub fn add_security_region(self, region: Region) -> (g: SecurityGating)
        requires
            region.wf(),
        ensures
            g.is_enabled() == self.is_enabled(),
            g.regions() == self.regions().push(region),
            self.wf() ==> g.wf(),
    {
        let mut security_regions = self.security_regions;
        security_regions.push(region);
        SecurityGating { security_regions, ..self }
    }

    /// Apply security clipping to a frame buffer.
    ///
    /// Evaluating the policy and enforcing it on pixels are distinct:
    /// clipping-mask application is a future extension, so the frame
    /// passes through unchanged whether or not gating is active.
    pub fn apply_security_clipping(&self, buffer: &[u8], _width: u32, _height: u32) -> (r: Vec<u8>)
        ensures
            r@ == buffer@,
    {
        vstd::slice::slice_to_vec(buffer)
    }

    /// Check if a point is within any secured region.
    pub fn is_point_secured(&self, x: i64, y: i64) -> (r: bool)
        requires
            self.wf(),
        ensures
            r == exists|i: int|
                0 <= i < self.regions().len() && (#[trigger] self.regions()[i]).contains_spec(
                    x as int,
                    y as int,
                ),
    {
        let n = self.security_regions.len();
        let mut i: usize = 0;
        while i < n
            invariant
                0 <= i <= n,
                self.wf(),
                n == self.security_regions@.len(),
                forall|j: int|
                    0 <= j < i ==> !(#[trigger] self.regions()[j]).contains_spec(
                        x as int,
                        y as int,
                    ),
            decreases n - i,
        {
            proof {
                assert(self.regions()[i as int].wf());
            }
            if self.security_regions[i].contains(x, y) {
                proof {
                    assert(self.regions()[i as int].contains_spec(x as int, y as int));
                }
                return true;
            }
            i += 1;
        }
        false
    }

    /// The secured regions that intersect a given area.
    pub fn get_intersecting_regions(&self, area: &Region) -> (r: Vec<Region>)
        requires
            self.wf(),
            area.wf(),
        ensures
            r@ == self.regions().filter(|g: Region| g.intersects_spec(*area)),
    {
        let ghost pred = |g: Region| g.intersects_spec(*area);
        let n = self.security_regions.len();
        let mut out: Vec<Region> = Vec::new();
        let mut i: usize = 0;
        proof {
            assert(self.regions().take(0int).filter(pred) =~= Seq::<Region>::empty());
        }
        while i < n
            invariant
                0 <= i <= n,
                self.wf(),
                area.wf(),
                n == self.security_regions@.len(),
                out@ == self.regions().take(i as int).filter(pred),
                pred == (|g: Region| g.intersects_spec(*area)),
            decreases n - i,
        {
            proof {
                crate::lemma_filter_step(self.regions(), pred, i as int);
            }
            if self.security_regions[i].intersects(area) {
                out.push(self.security_regions[i]);
            }
            i += 1;
        }
        proof {
            assert(self.regions().take(n as int) =~= self.regions());
        }
        out
    }
}

impl Default for SecurityGating {
    fn default() -> (g: SecurityGating)
        ensures
            g.is_enabled(),
            g.regions() == Seq::<Region>::empty(),
            g.wf(),
    {
        SecurityGating::new()
    }
}

} // verus!
