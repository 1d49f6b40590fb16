//! The drawing-scene boundary.
//!
//! Effects reduce to a short sequence of scene operations: a translucent
//! fill, a transformed layer push, or a clip-layer push.  `PaintTarget`
//! is the capability a concrete scene must offer; its contract models the
//! scene as the sequence of operations issued so far, so callers can state
//! exactly which operations an effect application appends, and in what
//! order.  `RecordingScene` is the library's own implementation, which
//! simply records the operations; a rendering backend implements
//! `PaintTarget` against its real scene type.

use crate::effect::TransformParams;
use crate::region::Region;
use vstd::prelude::*;

verus! {

/// One operation issued to a scene.
#[derive(Debug, Clone, Copy, PartialEq, Eq, Structural)]
pub enum SceneOp {
    /// A translucent filled rectangle (the conformant placeholder for a
    /// backdrop blur over the same region).
    FillRect(Region),
    /// A new drawing layer under an affine transform, bounded by a region.
    /// The caller must pop the layer after rendering the affected subtree.
    PushTransformLayer(TransformParams, Region),
    /// A clip layer bounded by a region; same pop obligation on the caller.
    PushClipLayer(Region),
    /// Close the most recently pushed layer.
    PopLayer,
}

/// Capability set of a drawing scene: fill, layer push with transform and
/// clip, clip-layer push, layer pop.  The scene is modelled as the
/// sequence of operations issued so far.
pub trait PaintTarget {
    /// The operations issued to this scene so far, oldest first.  The
    /// default model is the empty scene; a verified implementation
    /// overrides it (an unverified rendering backend need not).
    open spec fn ops(&self) -> Seq<SceneOp> {
        Seq::<SceneOp>::empty()
    }

    /// Draw a translucent filled rectangle over `region`.
    fn fill_rect(&mut self, region: Region)
        ensures
            final(self).ops() == old(self).ops().push(SceneOp::FillRect(region)),
    ;

    /// Push a drawing layer transformed by `params`, bounded by `region`.
    fn push_transform_layer(&mut self, params: TransformParams, region: Region)
        ensures
            final(self).ops() == old(self).ops().push(
                SceneOp::PushTransformLayer(params, region),
            ),
    ;

    /// Push a clip layer bounded by `region`.
    fn push_clip_layer(&mut self, region: Region)
        ensures
            final(self).ops() == old(self).ops().push(SceneOp::PushClipLayer(region)),
    ;

    /// Close the most recently pushed layer.
    fn pop_layer(&mut self)
        ensures
            final(self).ops() == old(self).ops().push(SceneOp::PopLayer),
    ;
}

/// A scene that records the operations issued to it, in order.
#[derive(Debug)]
pub struct RecordingScene {
    log: Vec<SceneOp>,
}

impl RecordingScene {
    pub fn new() -> (s: RecordingScene)
        ensures
            s.ops() == Seq::<SceneOp>::empty(),
    {
        RecordingScene { log: Vec::new() }
    }

    /// How many operations have been issued.
    pub fn op_count(&self) -> (n: usize)
        ensures
            n == self.ops().len(),
    {
        self.log.len()
    }

    /// The `i`-th operation issued.
    pub fn op_at(&self, i: usize) -> (op: SceneOp)
        requires
            i < self.ops().len(),
        ensures
            op == self.ops()[i as int],
    {
        self.log[i]
    }
}

impl PaintTarget for RecordingScene {
    closed spec fn ops(&self) -> Seq<SceneOp> {
        self.log@
    }

    fn fill_rect(&mut self, region: Region) {
        self.log.push(SceneOp::FillRect(region));
    }

    fn push_transform_layer(&mut self, params: TransformParams, region: Region) {
        self.log.push(SceneOp::PushTransformLayer(params, region));
    }

    fn push_clip_layer(&mut self, region: Region) {
        self.log.push(SceneOp::PushClipLayer(region));
    }

    fn pop_layer(&mut self) {
        self.log.push(SceneOp::PopLayer);
    }
}

} // verus!
