//! A post-processing effect compositor for a retained-mode render scene.
//!
//! The library classifies visual effects (backdrop blur, 2D transforms,
//! color-channel adjustment, capability clipping) into scene-native
//! operations and deferred GPU-compute work, extracts effect parameters
//! from raw CSS-like value strings, tracks on-screen element regions in a
//! concurrent registry, and evaluates region-based security gating.
//!
//! All lengths and coordinates are held in thousandths of a pixel, so
//! fractional CSS lengths stay exact in 64-bit integer arithmetic.

pub mod clock;
pub mod config;
pub mod dom_control;
pub mod effect;
pub mod features;
pub mod focus;
pub mod integration;
pub mod region;
pub mod scene;
pub mod script;
pub mod text;
pub mod tracker;

pub use crate::config::ColorScheme;
pub use crate::config::MustangConfig;
pub use crate::config::MustangMode;
pub use crate::config::ThemeConfig;
pub use crate::effect::ApplyEffect;
pub use crate::effect::BlurParams;
pub use crate::effect::BlurQuality;
pub use crate::effect::ColorAdjustParams;
pub use crate::effect::Effect;
pub use crate::effect::EffectParams;
pub use crate::effect::EffectScene;
pub use crate::effect::EffectType;
pub use crate::effect::TransformParams;
pub use crate::features::FeatureType;
pub use crate::features::SyntheticFeature;
pub use crate::features::features_to_effects;
pub use crate::region::Region;
pub use crate::scene::PaintTarget;
pub use crate::scene::RecordingScene;
pub use crate::scene::SceneOp;
pub use crate::integration::ComponentEffects;
pub use crate::integration::SecurityGating;
pub use crate::integration::ThemeCompositor;
pub use crate::integration::theme_has_effects;
pub use crate::tracker::SharedElementTracker;
pub use crate::tracker::TrackedElement;

use crate::effect::concat_scene_ops;
use crate::effect::is_native_spec;
use crate::effect::lemma_concat_scene_ops_step;
use crate::effect::scene_ops_of;
use crate::text::utf8_bytes;
use vstd::prelude::*;

verus! {

/// Result of applying scene effects.
#[derive(Debug, Clone)]
pub struct SceneEffectResult {
    /// Number of native effects applied.
    pub native_applied: usize,
    /// Effects that need GPU compute.
    pub deferred_effects: Vec<Effect>,
}

impl SceneEffectResult {
    /// Returns true if all effects were applied natively.
    pub fn is_complete(&self) -> (r: bool)
        ensures
            r == (self.deferred_effects@.len() == 0),
    {
        self.deferred_effects.is_empty()
    }

    /// Returns the number of deferred effects.
    pub fn deferred_count(&self) -> (n: usize)
        ensures
            n == self.deferred_effects@.len(),
    {
        self.deferred_effects.len()
    }
}

/// Performance statistics for the compositor.
#[derive(Debug, Clone)]
pub struct MustangStats {
    /// Number of cached components.
    pub cached_components: usize,
    /// Current processing mode.
    pub mode: MustangMode,
}

/// Does an effect stay on the scene-native path?
pub open spec fn native_pred() -> spec_fn(Effect) -> bool {
    |e: Effect| is_native_spec(e.effect_type)
}

/// Is an effect deferred to the GPU-compute stage?
pub open spec fn deferred_pred() -> spec_fn(Effect) -> bool {
    |e: Effect| !is_native_spec(e.effect_type)
}

/// One step of a filtering loop: filtering one more element appends it
/// exactly when the predicate holds of it.
pub(crate) proof fn lemma_filter_step<A>(s: Seq<A>, pred: spec_fn(A) -> bool, i: int)
    requires
        0 <= i < s.len(),
    ensures
        s.take(i + 1).filter(pred) == if pred(s[i]) {
            s.take(i).filter(pred).push(s[i])
        } else {
            s.take(i).filter(pred)
        },
{
    reveal(Seq::filter);
    assert(s.take(i + 1).drop_last() =~= s.take(i));
    assert(s.take(i + 1).last() == s[i]);
}

/// The effects cached under a component key (the key's UTF-8 bytes),
/// first match from the front.
pub open spec fn cache_lookup(entries: Seq<(String, Vec<Effect>)>, key: Seq<u8>) -> Option<
    Seq<Effect>,
>
    decreases entries.len(),
{
    if entries.len() == 0 {
        None
    } else if utf8_bytes(entries[0].0@) == key {
        Some(entries[0].1@)
    } else {
        cache_lookup(entries.drop_first(), key)
    }
}

proof fn lemma_cache_lookup_update(
    entries: Seq<(String, Vec<Effect>)>,
    i: int,
    pair: (String, Vec<Effect>),
)
    requires
        0 <= i < entries.len(),
        forall|j: int|
            0 <= j < i ==> utf8_bytes(#[trigger] entries[j].0@) != utf8_bytes(pair.0@),
        utf8_bytes(entries[i].0@) == utf8_bytes(pair.0@),
    ensures
        cache_lookup(entries.update(i, pair), utf8_bytes(pair.0@)) == Some(pair.1@),
        forall|k: Seq<u8>|
            k != utf8_bytes(pair.0@) ==> #[trigger] cache_lookup(entries.update(i, pair), k)
                == cache_lookup(entries, k),
    decreases entries.len(),
{
    let u = entries.update(i, pair);
    let target = utf8_bytes(pair.0@);
    if i == 0 {
        assert(u[0] == pair);
        assert(u.drop_first() =~= entries.drop_first());
        assert forall|k: Seq<u8>| k != target implies #[trigger] cache_lookup(u, k)
            == cache_lookup(entries, k) by {
            assert(cache_lookup(u, k) == cache_lookup(u.drop_first(), k));
            assert(cache_lookup(entries, k) == cache_lookup(entries.drop_first(), k));
        }
    } else {
        assert(u[0] == entries[0]);
        assert(u.drop_first() =~= entries.drop_first().update(i - 1, pair));
        assert(forall|j: int|
            0 <= j < i - 1 ==> utf8_bytes(#[trigger] entries.drop_first()[j].0@) != target);
        lemma_cache_lookup_update(entries.drop_first(), i - 1, pair);
        assert(utf8_bytes(entries[0].0@) != target);
        assert(cache_lookup(u, target) == cache_lookup(u.drop_first(), target));
        assert(cache_lookup(u, target) == Some(pair.1@));
        assert forall|k: Seq<u8>| k != target implies #[trigger] cache_lookup(u, k)
            == cache_lookup(entries, k) by {
            if utf8_bytes(entries[0].0@) != k {
                assert(cache_lookup(u, k) == cache_lookup(u.drop_first(), k));
                assert(cache_lookup(entries, k) == cache_lookup(entries.drop_first(), k));
            }
        }
    }
}

proof fn lemma_cache_lookup_push(entries: Seq<(String, Vec<Effect>)>, pair: (String, Vec<Effect>))
    ensures
        forall|k: Seq<u8>|
            #[trigger] cache_lookup(entries.push(pair), k) == if cache_lookup(entries, k) is Some {
                cache_lookup(entries, k)
            } else if k == utf8_bytes(pair.0@) {
                Some(pair.1@)
            } else {
                None
            },
    decreases entries.len(),
{
    let u = entries.push(pair);
    if entries.len() == 0 {
        assert(u[0] == pair);
        assert(u.drop_first() =~= Seq::<(String, Vec<Effect>)>::empty());
        assert forall|k: Seq<u8>| #[trigger] cache_lookup(u, k) == if cache_lookup(
            entries,
            k,
        ) is Some {
            cache_lookup(entries, k)
        } else if k == utf8_bytes(pair.0@) {
            Some(pair.1@)
        } else {
            None
        } by {
            if k != utf8_bytes(pair.0@) {
                assert(cache_lookup(u, k) == cache_lookup(u.drop_first(), k));
            }
        }
    } else {
        assert(u[0] == entries[0]);
        assert(u.drop_first() =~= entries.drop_first().push(pair));
        lemma_cache_lookup_push(entries.drop_first(), pair);
        assert forall|k: Seq<u8>| #[trigger] cache_lookup(u, k) == if cache_lookup(
            entries,
            k,
        ) is Some {
            cache_lookup(entries, k)
        } else if k == utf8_bytes(pair.0@) {
            Some(pair.1@)
        } else {
            None
        } by {
            if utf8_bytes(entries[0].0@) != k {
                assert(cache_lookup(u, k) == cache_lookup(u.drop_first(), k));
                assert(cache_lookup(entries, k) == cache_lookup(entries.drop_first(), k));
            }
        }
    }
}

/// Whatever a lookup returns sits in the entries under exactly that key.
proof fn lemma_cache_lookup_contains(entries: Seq<(String, Vec<Effect>)>, key: Seq<u8>)
    requires
        cache_lookup(entries, key) is Some,
    ensures
        exists|i: int|
            0 <= i < entries.len() && utf8_bytes(#[trigger] entries[i].0@) == key,
    decreases entries.len(),
{
    if entries.len() > 0 && utf8_bytes(entries[0].0@) != key {
        lemma_cache_lookup_contains(entries.drop_first(), key);
        let i = choose|i: int|
            0 <= i < entries.drop_first().len() && utf8_bytes(
                #[trigger] entries.drop_first()[i].0@,
            ) == key;
        assert(utf8_bytes(entries[i + 1].0@) == key);
    }
}

/// With unique keys, evicting the front entry leaves every surviving
/// lookup unchanged.
proof fn lemma_lookup_drop_first(entries: Seq<(String, Vec<Effect>)>, key: Seq<u8>)
    requires
        entries.len() > 0,
        forall|i: int, j: int|
            0 <= i < j < entries.len() ==> utf8_bytes(#[trigger] entries[i].0@) != utf8_bytes(
                #[trigger] entries[j].0@,
            ),
        cache_lookup(entries.drop_first(), key) is Some,
    ensures
        cache_lookup(entries.drop_first(), key) == cache_lookup(entries, key),
{
    lemma_cache_lookup_contains(entries.drop_first(), key);
    let i = choose|i: int|
        0 <= i < entries.drop_first().len() && utf8_bytes(
            #[trigger] entries.drop_first()[i].0@,
        ) == key;
    assert(utf8_bytes(entries[i + 1].0@) == key);
    assert(utf8_bytes(entries[0].0@) != key);
}

/// The effect compositor.
///
/// Owns its configuration and a per-component effect cache, and applies
/// ordered effect lists to a scene: native effects are applied directly,
/// the rest are collected for an external GPU-compute stage.  Works with
/// any `PaintTarget` implementation.
pub struct MustangCompositor {
    config: MustangConfig,
    effect_cache: Vec<(String, Vec<Effect>)>,
}

impl MustangCompositor {
    /// The current configuration.
    pub closed spec fn spec_config(self) -> MustangConfig {
        self.config
    }

    /// The effects cached under a component key, given as UTF-8 bytes.
    pub closed spec fn cached(self, key: Seq<u8>) -> Option<Seq<Effect>> {
        cache_lookup(self.effect_cache@, key)
    }

    /// How many components have cached effects.
    pub closed spec fn cache_len(self) -> nat {
        self.effect_cache@.len()
    }

    /// Cache keys are unique.
    pub closed spec fn wf(self) -> bool {
        forall|i: int, j: int|
            0 <= i < j < self.effect_cache@.len() ==> utf8_bytes(
                #[trigger] self.effect_cache@[i].0@,
            ) != utf8_bytes(#[trigger] self.effect_cache@[j].0@)
    }

    /// Create a new compositor with the given configuration.
    pub fn new(config: MustangConfig) -> (c: MustangCompositor)
        ensures
            c.spec_config() == config,
            c.cache_len() == 0,
            forall|k: Seq<u8>| #[trigger] c.cached(k) is None,
            c.wf(),
    {
        MustangCompositor { config, effect_cache: Vec::new() }
    }

    /// Apply effects to a scene, in the exact order supplied.
    ///
    /// Every input effect is accounted for exactly once: native effects
    /// are applied to the scene immediately, the rest are cloned into the
    /// deferred list for GPU processing.
    pub fn apply_scene_effects<S: PaintTarget>(
        &mut self,
        scene: &mut S,
        effects: &[Effect],
        viewport: (u32, u32),
    ) -> (r: SceneEffectResult)
        ensures
            *final(self) == *old(self),
            final(scene).ops() == old(scene).ops() + concat_scene_ops(effects@),
            r.native_applied == effects@.filter(native_pred()).len(),
            r.deferred_effects@ == effects@.filter(deferred_pred()),
            r.native_applied + r.deferred_effects@.len() == effects@.len(),
    {
        let ghost base = scene.ops();
        let mut native_applied: usize = 0;
        let mut deferred: Vec<Effect> = Vec::new();
        let mut i: usize = 0;
        proof {
            assert(effects@.take(0int).filter(native_pred()) =~= Seq::<Effect>::empty());
            assert(effects@.take(0int).filter(deferred_pred()) =~= Seq::<Effect>::empty());
            assert(concat_scene_ops(effects@.take(0int)) =~= Seq::<SceneOp>::empty());
            assert(base + concat_scene_ops(effects@.take(0int)) =~= base);
        }
        while i < effects.len()
            invariant
                0 <= i <= effects@.len(),
                *self == *old(self),
                scene.ops() == base + concat_scene_ops(effects@.take(i as int)),
                native_applied == effects@.take(i as int).filter(native_pred()).len(),
                deferred@ == effects@.take(i as int).filter(deferred_pred()),
                native_applied + deferred@.len() == i,
            decreases effects@.len() - i,
        {
            let effect = &effects[i];
            proof {
                lemma_concat_scene_ops_step(effects@, i as int);
                lemma_filter_step(effects@, native_pred(), i as int);
                lemma_filter_step(effects@, deferred_pred(), i as int);
            }
            if effect.is_native() {
                effect.apply_to_scene(scene, viewport);
                native_applied += 1;
                proof {
                    assert(scene_ops_of(effects@[i as int]) == scene_ops_of(*effect));
                    assert(scene.ops() =~= base + concat_scene_ops(
                        effects@.take(i as int + 1),
                    ));
                }
            } else {
                deferred.push(effect.clone());
                proof {
                    assert(scene.ops() =~= base + concat_scene_ops(
                        effects@.take(i as int + 1),
                    ));
                }
            }
            i += 1;
        }
        proof {
            assert(effects@.take(effects@.len() as int) =~= effects@);
        }
        SceneEffectResult { native_applied, deferred_effects: deferred }
    }

    /// Check if an effect can be applied scene-natively.
    pub fn is_effect_native(&self, effect: &Effect) -> (r: bool)
        ensures
            r == is_native_spec(effect.effect_type),
    {
        effect.is_native()
    }

    /// Get the current configuration.
    pub fn config(&self) -> (c: &MustangConfig)
        ensures
            *c == self.spec_config(),
    {
        &self.config
    }

    /// Update the configuration; the cache is untouched.
    pub fn set_config(&mut self, config: MustangConfig)
        ensures
            final(self).spec_config() == config,
            final(self).cache_len() == old(self).cache_len(),
            forall|k: Seq<u8>| #[trigger] final(self).cached(k) == old(self).cached(k),
            old(self).wf() ==> final(self).wf(),
    {
        self.config = config;
    }

    /// Cache effects for a component, replacing any earlier entry for the
    /// same component.  When the cache then exceeds `max_cache_size`, the
    /// oldest components are evicted until it fits, so the configured size
    /// is a hard cap.
    pub fn cache_effects(&mut self, component_id: &str, effects: Vec<Effect>)
        requires
            old(self).wf(),
        ensures
            final(self).wf(),
            final(self).spec_config() == old(self).spec_config(),
            final(self).cache_len() == ({
                let grown = old(self).cache_len() + if old(self).cached(
                    utf8_bytes(component_id@),
                ) is Some {
                    0int
                } else {
                    1int
                };
                if grown <= old(self).spec_config().max_cache_size {
                    grown
                } else {
                    old(self).spec_config().max_cache_size as int
                }
            }),
            old(self).cache_len() + 1 <= old(self).spec_config().max_cache_size ==> {
                &&& final(self).cached(utf8_bytes(component_id@)) == Some(effects@)
                &&& forall|k: Seq<u8>|
                    k != utf8_bytes(component_id@) ==> #[trigger] final(self).cached(k) == old(
                        self,
                    ).cached(k)
            },
            forall|k: Seq<u8>|
                #[trigger] final(self).cached(k) is Some ==> final(self).cached(k) == (if k
                    == utf8_bytes(component_id@) {
                    Some(effects@)
                } else {
                    old(self).cached(k)
                }),
    {
        let key_bytes = component_id.as_bytes();
        let n = self.effect_cache.len();
        let mut i: usize = 0;
        while i < n
            invariant
                0 <= i <= n,
                *self == *old(self),
                old(self).wf(),
                n == self.effect_cache@.len(),
                key_bytes@ == utf8_bytes(component_id@),
                forall|j: int|
                    0 <= j < i ==> utf8_bytes(#[trigger] self.effect_cache@[j].0@) != utf8_bytes(
                        component_id@,
                    ),
            decreases n - i,
        {
            let entry_bytes = self.effect_cache[i].0.as_str().as_bytes();
            proof {
                assert(entry_bytes@ == utf8_bytes(self.effect_cache@[i as int].0@));
            }
            if crate::text::bytes_eq(entry_bytes, key_bytes) {
                let ghost pre = self.effect_cache@;
                let pair = (component_id.to_owned(), effects);
                proof {
                    lemma_cache_lookup_update(pre, i as int, pair);
                    lemma_lookup_at_first_match(pre, i as int);
                }
                self.effect_cache.set(i, pair);
                proof {
                    let now = self.effect_cache@;
                    assert forall|a: int, b: int| 0 <= a < b < now.len() implies utf8_bytes(
                        #[trigger] now[a].0@,
                    ) != utf8_bytes(#[trigger] now[b].0@) by {
                        if a == i as int {
                            assert(now[a] == pair);
                            assert(utf8_bytes(now[a].0@) == utf8_bytes(pre[a].0@));
                        } else {
                            assert(now[a] == pre[a]);
                        }
                        if b == i as int {
                            assert(now[b] == pair);
                            assert(utf8_bytes(now[b].0@) == utf8_bytes(pre[b].0@));
                        } else {
                            assert(now[b] == pre[b]);
                        }
                    }
                }
                self.enforce_cache_cap();
                return ;
            }
            i += 1;
        }
        let ghost pre = self.effect_cache@;
        let pair = (component_id.to_owned(), effects);
        proof {
            lemma_cache_lookup_push(pre, pair);
            lemma_lookup_none_when_no_match(pre, utf8_bytes(component_id@));
        }
        self.effect_cache.push(pair);
        proof {
            let now = self.effect_cache@;
            assert forall|a: int, b: int| 0 <= a < b < now.len() implies utf8_bytes(
                #[trigger] now[a].0@,
            ) != utf8_bytes(#[trigger] now[b].0@) by {
                if b == now.len() - 1 {
                    assert(utf8_bytes(now[a].0@) != utf8_bytes(component_id@));
                } else {
                    assert(now[a] == pre[a]);
                    assert(now[b] == pre[b]);
                }
            }
        }
        self.enforce_cache_cap();
    }

    /// Evict the oldest components until the cache fits the configured
    /// cap; every surviving entry is untouched.
    fn enforce_cache_cap(&mut self)
        requires
            old(self).wf(),
        ensures
            final(self).wf(),
            final(self).spec_config() == old(self).spec_config(),
            final(self).cache_len() == if old(self).cache_len() <= old(
                self,
            ).spec_config().max_cache_size {
                old(self).cache_len() as int
            } else {
                old(self).spec_config().max_cache_size as int
            },
            old(self).cache_len() <= old(self).spec_config().max_cache_size ==> *final(self)
                == *old(self),
            forall|k: Seq<u8>|
                #[trigger] final(self).cached(k) is Some ==> final(self).cached(k) == old(
                    self,
                ).cached(k),
    {
        let cap = self.config.max_cache_size;
        let ghost mut d: int = 0;
        while self.effect_cache.len() > cap
            invariant
                old(self).wf(),
                0 <= d <= old(self).effect_cache@.len(),
                self.config == old(self).config,
                self.effect_cache@ == old(self).effect_cache@.skip(d),
                cap == old(self).spec_config().max_cache_size,
                d > 0 ==> self.effect_cache@.len() >= cap,
                d == 0 ==> *self == *old(self),
                forall|i: int, j: int|
                    0 <= i < j < self.effect_cache@.len() ==> utf8_bytes(
                        #[trigger] self.effect_cache@[i].0@,
                    ) != utf8_bytes(#[trigger] self.effect_cache@[j].0@),
                forall|k: Seq<u8>|
                    #[trigger] cache_lookup(self.effect_cache@, k) is Some ==> cache_lookup(
                        self.effect_cache@,
                        k,
                    ) == cache_lookup(old(self).effect_cache@, k),
            decreases self.effect_cache@.len(),
        {
            let ghost pre = self.effect_cache@;
            self.effect_cache.remove(0);
            proof {
                assert(self.effect_cache@ =~= pre.drop_first());
                assert(self.effect_cache@ =~= old(self).effect_cache@.skip(d + 1));
                assert forall|k: Seq<u8>|
                    #[trigger] cache_lookup(self.effect_cache@, k) is Some implies cache_lookup(
                    self.effect_cache@,
                    k,
                ) == cache_lookup(old(self).effect_cache@, k) by {
                    lemma_lookup_drop_first(pre, k);
                }
                d = d + 1;
            }
        }
    }

    /// Get the cached effects for a component, if any.
    pub fn get_cached_effects(&self, component_id: &str) -> (r: Option<&Vec<Effect>>)
        ensures
            r is Some <==> self.cached(utf8_bytes(component_id@)) is Some,
            r is Some ==> r.unwrap()@ == self.cached(utf8_bytes(component_id@)).unwrap(),
    {
        let key_bytes = component_id.as_bytes();
        let n = self.effect_cache.len();
        let mut i: usize = 0;
        while i < n
            invariant
                0 <= i <= n,
                n == self.effect_cache@.len(),
                key_bytes@ == utf8_bytes(component_id@),
                forall|j: int|
                    0 <= j < i ==> utf8_bytes(#[trigger] self.effect_cache@[j].0@) != utf8_bytes(
                        component_id@,
                    ),
            decreases n - i,
        {
            let entry_bytes = self.effect_cache[i].0.as_str().as_bytes();
            proof {
                assert(entry_bytes@ == utf8_bytes(self.effect_cache@[i as int].0@));
            }
            if crate::text::bytes_eq(entry_bytes, key_bytes) {
                proof {
                    lemma_lookup_at_first_match(self.effect_cache@, i as int);
                }
                return Some(&self.effect_cache[i].1);
            }
            i += 1;
        }
        proof {
            lemma_lookup_none_when_no_match(self.effect_cache@, utf8_bytes(component_id@));
        }
        None
    }

    /// Clear the effect cache.
    pub fn clear_cache(&mut self)
        ensures
            final(self).spec_config() == old(self).spec_config(),
            final(self).cache_len() == 0,
            forall|k: Seq<u8>| #[trigger] final(self).cached(k) is None,
            final(self).wf(),
    {
        self.effect_cache.clear();
    }

    /// Get performance statistics.
    pub fn get_stats(&self) -> (s: MustangStats)
        ensures
            s.cached_components == self.cache_len(),
            s.mode == self.spec_config().mode,
    {
        MustangStats { cached_components: self.effect_cache.len(), mode: self.config.mode }
    }
}

impl Default for MustangCompositor {
    fn default() -> (c: MustangCompositor)
        ensures
            c.spec_config().is_default(),
            c.cache_len() == 0,
            forall|k: Seq<u8>| #[trigger] c.cached(k) is None,
            c.wf(),
    {
        MustangCompositor::new(MustangConfig::new())
    }
}

/// When every entry before `i` misses the key and entry `i` hits it, the
/// lookup lands on entry `i`.
proof fn lemma_lookup_at_first_match(entries: Seq<(String, Vec<Effect>)>, i: int)
    requires
        0 <= i < entries.len(),
        forall|j: int|
            0 <= j < i ==> utf8_bytes(#[trigger] entries[j].0@) != utf8_bytes(entries[i].0@),
    ensures
        cache_lookup(entries, utf8_bytes(entries[i].0@)) == Some(entries[i].1@),
    decreases i,
{
    if i > 0 {
        assert(entries.drop_first()[i - 1] == entries[i]);
        lemma_lookup_at_first_match(entries.drop_first(), i - 1);
    }
}

/// When no entry carries the key, the lookup misses.
proof fn lemma_lookup_none_when_no_match(entries: Seq<(String, Vec<Effect>)>, key: Seq<u8>)
    requires
        forall|j: int| 0 <= j < entries.len() ==> utf8_bytes(#[trigger] entries[j].0@) != key,
    ensures
        cache_lookup(entries, key) is None,
    decreases entries.len(),
{
    if entries.len() > 0 {
        lemma_lookup_none_when_no_match(entries.drop_first(), key);
    }
}

} // verus!
