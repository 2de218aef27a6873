//! The passes of a frame.
use crate::render_pipeline::draw::{pixels_handed, TextureId, TextureInfo, TextureProvider};
use crate::render_pipeline::transition::{
    after_capture, capture_name, capture_texture, in_progress, is_in_progress, needs_capture,
    overlay_old_frame, retained_files, since, slot_view, wants_picture, Overlay, TransitionState,
};
use crate::strs::texts;
use vstd::prelude::*;

verus! {

/// The program that draws pictures.
pub const SPRITE_SHADER: &'static str = "sprite";

/// The program that masks.
pub const ALPHA_MASK_SHADER: &'static str = "alpha-mask";

/// The program that lays a group over the rest.
pub const GROUP_COMPOSITE_SHADER: &'static str = "group-composite";

/// The program of transitions by a rule picture.
pub const RULE_TRANS_SHADER: &'static str = "rule-trans";

/// A pass that draws the scene.
#[derive(Clone, Copy, Debug)]
pub struct RenderPass {
    pub name: &'static str,
    pub shader: &'static str,
}

/// A pass behind the scene.
#[derive(Clone, Copy, Debug)]
pub struct PostprocessPass {
    pub name: &'static str,
    pub shader: &'static str,
}

/// What a frame is made of beside the scene.
pub struct RenderPipeline {
    pub transition: Option<TransitionState>,
    pub clock_ms: u64,
}

impl RenderPipeline {
    /// No transition yet.
    pub fn new(clock_ms: u64) -> (out: Self)
        ensures
            out.transition is None,
            out.clock_ms == clock_ms,
    {
        RenderPipeline { transition: None, clock_ms }
    }

    /// The scene is drawn in one pass.
    pub fn scene_passes(&self) -> (out: Vec<RenderPass>)
        ensures
            out@.len() == 1,
            out@[0].name@ == "sprite"@,
            out@[0].shader@ == "sprite"@,
    {
        let mut out: Vec<RenderPass> = Vec::new();
        out.push(RenderPass { name: "sprite", shader: "sprite" });
        out
    }

    /// No pass follows.
    pub fn postprocess_passes(&self) -> (out: Vec<PostprocessPass>)
        ensures
            out@.len() == 0,
    {
        Vec::new()
    }

    /// Whether the picture that a transition leaves is still to be taken.
    pub fn needs_trans_capture(&self) -> (out: bool)
        ensures
            out == wants_picture(slot_view(self.transition)),
    {
        needs_capture(&self.transition)
    }

    /// Whether a transition is on its way.
    pub fn is_transition_in_progress(&self) -> (out: bool)
        ensures
            out == in_progress(slot_view(self.transition), self.clock_ms),
    {
        is_in_progress(&self.transition, self.clock_ms)
    }

    /// Keeps the picture that a transition leaves, where one is wanted.
    pub fn capture_trans_texture<P: TextureProvider>(
        &mut self,
        pixels: &[u8],
        width: u32,
        height: u32,
        provider: &mut P,
    )
        ensures
            final(self).clock_ms == old(self).clock_ms,
            wants_picture(slot_view(old(self).transition)) ==> exists|
                made: Option<(TextureId, TextureInfo)>,
            |
                final(provider).account() == #[trigger] pixels_handed(
                    old(provider).account(),
                    capture_name(),
                    width,
                    height,
                    pixels@,
                    made,
                ) && slot_view(final(self).transition) == after_capture(
                    slot_view(old(self).transition),
                    old(self).clock_ms,
                    made,
                ),
            !wants_picture(slot_view(old(self).transition)) ==> *final(provider) == *old(provider)
                && *final(self) == *old(self),
    {
        capture_texture(&mut self.transition, self.clock_ms, pixels, width, height, provider);
    }

    /// The textures that a transition keeps.
    pub fn retained_files(&self) -> (out: Vec<String>)
        ensures
            texts(out@) == (match slot_view(self.transition) {
                Some(t) => if !t.needs_capture && t.captured is Some {
                    seq![capture_name()]
                } else {
                    Seq::empty()
                },
                None => Seq::empty(),
            }),
    {
        retained_files(&self.transition)
    }

    /// The picture that is laid over the frame.
    pub fn overlay(&self) -> (out: Option<Overlay>)
        ensures
            out == (match slot_view(self.transition) {
                Some(t) => match t.captured {
                    Some((texture, size)) => if !t.needs_capture && t.trans_type == 1 {
                        Some(
                            Overlay {
                                texture,
                                size,
                                elapsed_ms: since(self.clock_ms, t.start_ms) as u64,
                                duration_ms: t.duration_ms,
                            },
                        )
                    } else {
                        None
                    },
                    None => None,
                },
                None => None,
            }),
    {
        overlay_old_frame(&self.transition, self.clock_ms)
    }
}

} // verus!
