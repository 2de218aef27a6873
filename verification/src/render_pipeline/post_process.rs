//! What happens between the drawn scene and the screen.
use crate::strs::copy_text;
use vstd::prelude::*;

verus! {

/// A size in pixels.
#[derive(Clone, Copy, Debug, PartialEq, Eq, Hash, Structural)]
pub struct Extent2D {
    pub width: u32,
    pub height: u32,
}

impl Extent2D {
    pub fn new(width: u32, height: u32) -> (out: Self)
        ensures
            out == (Extent2D { width, height }),
    {
        Extent2D { width, height }
    }

    /// Whether there is no pixel.
    pub fn is_empty(&self) -> (out: bool)
        ensures
            out == (self.width == 0 || self.height == 0),
    {
        self.width == 0 || self.height == 0
    }
}

/// How a texture's pixels are kept.
#[derive(Clone, Copy, Debug, PartialEq, Eq, Hash, Structural)]
pub enum TextureFormat {
    Rgba8Unorm,
    Bgra8Unorm,
}

/// The size at which the scene is drawn and the size at which it is shown.
#[derive(Clone, Copy, Debug, PartialEq, Eq, Hash, Structural)]
pub struct RenderDimensions {
    pub render_size: Extent2D,
    pub output_size: Extent2D,
}

impl RenderDimensions {
    pub fn new(render_size: Extent2D, output_size: Extent2D) -> (out: Self)
        ensures
            out == (RenderDimensions { render_size, output_size }),
    {
        RenderDimensions { render_size, output_size }
    }

    /// The scene is drawn as it is shown.
    pub fn same(size: Extent2D) -> (out: Self)
        ensures
            out == (RenderDimensions { render_size: size, output_size: size }),
    {
        RenderDimensions { render_size: size, output_size: size }
    }
}

/// Where the scene is drawn.
#[derive(Clone, Copy, Debug, PartialEq, Eq, Hash, Structural)]
pub struct SceneTarget {
    pub size: Extent2D,
    pub format: TextureFormat,
}

/// How a drawn scene is made larger.
#[derive(Clone, Copy, Debug, PartialEq, Eq, Structural)]
pub enum UpscaleMode {
    /// By linear sampling.
    Linear,
    /// By what the backend offers.
    Spatial,
}

/// How much work goes into a picture.
#[derive(Clone, Copy, Debug, PartialEq, Eq, Hash, Structural)]
pub enum RenderQualityPreset {
    Native,
    Quality,
    Balanced,
    Performance,
}

/// The preset of a number.
pub open spec fn preset_of(value: i32) -> Option<RenderQualityPreset> {
    if value == 0 {
        Some(RenderQualityPreset::Native)
    } else if value == 1 {
        Some(RenderQualityPreset::Quality)
    } else if value == 2 {
        Some(RenderQualityPreset::Balanced)
    } else if value == 3 {
        Some(RenderQualityPreset::Performance)
    } else {
        None
    }
}

/// How large the scene of a preset is drawn: the numerator and denominator of a
/// fraction of what is shown.
pub open spec fn scale_of(preset: RenderQualityPreset) -> (u32, u32) {
    match preset {
        RenderQualityPreset::Native => (1, 1),
        RenderQualityPreset::Quality => (2, 3),
        RenderQualityPreset::Balanced => (58, 100),
        RenderQualityPreset::Performance => (1, 2),
    }
}

/// The numbers from 0 to 3 have presets, and no others; a preset of a higher
/// number draws a smaller scene.
pub proof fn law_higher_presets_draw_less(a: i32, b: i32)
    ensures
        preset_of(a) is Some <==> 0 <= a <= 3,
        0 <= a < b <= 3 ==> {
            let x = scale_of(preset_of(a)->0);
            let y = scale_of(preset_of(b)->0);
            &&& y.0 * x.1 < x.0 * y.1
            &&& 0 < y.0 <= y.1
        },
{
    if 0 <= a < b <= 3 {
        let (m, n) = scale_of(preset_of(a)->0);
        let (k, l) = scale_of(preset_of(b)->0);
        assert(k * n < m * l) by (nonlinear_arith)
            requires
                (m, n) == (1u32, 1u32) && ((k, l) == (2u32, 3u32) || (k, l) == (58u32, 100u32) || (
                k,
                l,
                ) == (1u32, 2u32)) || (m, n) == (2u32, 3u32) && ((k, l) == (58u32, 100u32) || (k, l)
                    == (1u32, 2u32)) || (m, n) == (58u32, 100u32) && (k, l) == (1u32, 2u32),
        ;
    }
}

impl RenderQualityPreset {
    /// The preset of a host's number.
    pub fn from_ffi(value: i32) -> (out: Option<Self>)
        ensures
            out == preset_of(value),
    {
        match value {
            0 => Some(RenderQualityPreset::Native),
            1 => Some(RenderQualityPreset::Quality),
            2 => Some(RenderQualityPreset::Balanced),
            3 => Some(RenderQualityPreset::Performance),
            _ => None,
        }
    }

    /// How large the scene is drawn, as a fraction of what is shown.
    pub fn scale(self) -> (out: (u32, u32))
        ensures
            out == scale_of(self),
    {
        match self {
            RenderQualityPreset::Native => (1, 1),
            RenderQualityPreset::Quality => (2, 3),
            RenderQualityPreset::Balanced => (58, 100),
            RenderQualityPreset::Performance => (1, 2),
        }
    }

    /// How the scene is made larger. All but the native size ask the backend.
    pub fn upscale_mode(self) -> (out: UpscaleMode)
        ensures
            out == (if self == RenderQualityPreset::Native {
                UpscaleMode::Linear
            } else {
                UpscaleMode::Spatial
            }),
    {
        match self {
            RenderQualityPreset::Native => UpscaleMode::Linear,
            _ => UpscaleMode::Spatial,
        }
    }
}

/// A step behind the scene. Whether its strength is a number from 0 to 1 is
/// kept beside it.
#[derive(Clone, Copy, Debug, PartialEq, Eq, Structural)]
pub enum PostProcessPass {
    /// The scene is made as large as the output.
    Upscale { mode: UpscaleMode, in_range: bool },
    /// Edges are sharpened.
    Sharpen { in_range: bool },
}

/// The steps behind the scene. Whether the scale of the scene is a number from
/// a tenth to one is kept beside them.
pub struct PostProcessPipeline {
    pub scene_format: TextureFormat,
    pub output_format: TextureFormat,
    pub scale_in_range: bool,
    pub passes: Vec<PostProcessPass>,
}

/// What drawing needs to know of the steps.
#[derive(Clone, Copy, Debug, PartialEq, Eq, Hash, Structural)]
pub struct PostProcessContext {
    pub dimensions: RenderDimensions,
    pub scene: SceneTarget,
    pub output_format: TextureFormat,
}

/// What stands against a step.
pub open spec fn pass_fault(pass: PostProcessPass) -> Option<Seq<char>> {
    match pass {
        PostProcessPass::Upscale { in_range, .. } => if in_range {
            None
        } else {
            Some("upscale sharpness must be finite and in [0, 1]"@)
        },
        PostProcessPass::Sharpen { in_range } => if in_range {
            Some("sharpen pass is not implemented yet"@)
        } else {
            Some("sharpen amount must be finite and in [0, 1]"@)
        },
    }
}

/// What stands against the first faulty step.
pub open spec fn first_fault(passes: Seq<PostProcessPass>) -> Option<Seq<char>>
    decreases passes.len(),
{
    if passes.len() == 0 {
        None
    } else {
        match pass_fault(passes[0]) {
            Some(text) => Some(text),
            None => first_fault(passes.skip(1)),
        }
    }
}

/// What stands against a pipeline at given sizes: empty sizes first, then the
/// scale, then the steps in order.
pub open spec fn pipeline_fault(
    pipeline: PostProcessPipeline,
    dimensions: RenderDimensions,
) -> Option<Seq<char>> {
    if dimensions.render_size.width == 0 || dimensions.render_size.height == 0
        || dimensions.output_size.width == 0 || dimensions.output_size.height == 0 {
        Some("post-process dimensions must be non-zero"@)
    } else if !pipeline.scale_in_range {
        Some("render scale must be finite and in [0.1, 1.0]"@)
    } else {
        first_fault(pipeline.passes@)
    }
}

impl PostProcessPipeline {
    /// The scene is drawn as it is shown.
    pub fn new() -> (out: Self)
        ensures
            out.scene_format == TextureFormat::Rgba8Unorm,
            out.output_format == TextureFormat::Rgba8Unorm,
            out.scale_in_range,
            out.passes@ == seq![
                PostProcessPass::Upscale { mode: UpscaleMode::Linear, in_range: true },
            ],
    {
        let mut passes: Vec<PostProcessPass> = Vec::new();
        passes.push(PostProcessPass::Upscale { mode: UpscaleMode::Linear, in_range: true });
        assert(passes@ =~= seq![
            PostProcessPass::Upscale { mode: UpscaleMode::Linear, in_range: true },
        ]);
        PostProcessPipeline {
            scene_format: TextureFormat::Rgba8Unorm,
            output_format: TextureFormat::Rgba8Unorm,
            scale_in_range: true,
            passes,
        }
    }

    /// Whether the steps can be taken at given sizes.
    pub fn validate(&self, dimensions: RenderDimensions) -> (out: Result<(), String>)
        ensures
            match out {
                Ok(()) => pipeline_fault(*self, dimensions) is None,
                Err(message) => pipeline_fault(*self, dimensions) == Some(message@),
            },
    {
        if dimensions.render_size.is_empty() || dimensions.output_size.is_empty() {
            return Err(copy_text("post-process dimensions must be non-zero"));
        }
        if !self.scale_in_range {
            return Err(copy_text("render scale must be finite and in [0.1, 1.0]"));
        }
        let mut i: usize = 0;
        assert(self.passes@.skip(0) =~= self.passes@);
        while i < self.passes.len()
            invariant
                i <= self.passes.len(),
                first_fault(self.passes@) == first_fault(self.passes@.skip(i as int)),
                pipeline_fault(*self, dimensions) == first_fault(self.passes@),
            decreases self.passes.len() - i,
        {
            assert(self.passes@.skip(i as int)[0] == self.passes@[i as int]);
            assert(self.passes@.skip(i as int).skip(1) =~= self.passes@.skip(i + 1));
            match self.passes[i] {
                PostProcessPass::Upscale { in_range, .. } => {
                    if !in_range {
                        return Err(copy_text("upscale sharpness must be finite and in [0, 1]"));
                    }
                },
                PostProcessPass::Sharpen { in_range } => {
                    if !in_range {
                        return Err(copy_text("sharpen amount must be finite and in [0, 1]"));
                    }
                    return Err(copy_text("sharpen pass is not implemented yet"));
                },
            }
            i += 1;
        }
        Ok(())
    }

    /// What drawing needs to know at given sizes: the scene has its own size,
    /// the output its own.
    pub fn context(&self, dimensions: RenderDimensions) -> (out: PostProcessContext)
        ensures
            out == (PostProcessContext {
                dimensions,
                scene: SceneTarget { size: dimensions.render_size, format: self.scene_format },
                output_format: self.output_format,
            }),
    {
        PostProcessContext {
            dimensions,
            scene: SceneTarget { size: dimensions.render_size, format: self.scene_format },
            output_format: self.output_format,
        }
    }
}

/// The presets have their numbers and the part of the output's sides that they draw.
pub proof fn law_presets_have_scales()
    ensures
        preset_of(0) is Some && preset_of(0)->0 is Native && scale_of(preset_of(0)->0) == (1u32, 1u32),
        preset_of(1) is Some && preset_of(1)->0 is Quality && scale_of(preset_of(1)->0) == (
            2u32,
            3u32,
        ),
        preset_of(2) is Some && preset_of(2)->0 is Balanced && scale_of(preset_of(2)->0) == (
            58u32,
            100u32,
        ),
        preset_of(3) is Some && preset_of(3)->0 is Performance && scale_of(preset_of(3)->0) == (
            1u32,
            2u32,
        ),
{
}

/// An upscaling pass is in order where its amount is within bounds; a sharpening one
/// never is, since there is none yet.
pub proof fn law_passes_are_judged(mode: UpscaleMode)
    ensures
        pass_fault(PostProcessPass::Upscale { mode, in_range: true }) is None,
        pass_fault(PostProcessPass::Upscale { mode, in_range: false }) == Some(
            "upscale sharpness must be finite and in [0, 1]"@,
        ),
        pass_fault(PostProcessPass::Sharpen { in_range: true }) == Some(
            "sharpen pass is not implemented yet"@,
        ),
        pass_fault(PostProcessPass::Sharpen { in_range: false }) == Some(
            "sharpen amount must be finite and in [0, 1]"@,
        ),
{
}

/// The fault of a list of passes is that of the first faulty one.
pub proof fn law_the_first_fault_is_told(passes: Seq<PostProcessPass>, i: int)
    ensures
        (forall|j: int| 0 <= j < passes.len() ==> pass_fault(#[trigger] passes[j]) is None)
            ==> first_fault(passes) is None,
        0 <= i < passes.len() && pass_fault(passes[i]) is Some && (forall|j: int|
            0 <= j < i ==> pass_fault(#[trigger] passes[j]) is None) ==> first_fault(passes)
            == pass_fault(passes[i]),
    decreases passes.len(),
{
    if passes.len() > 0 && pass_fault(passes[0]) is None {
        let rest = passes.skip(1);
        assert forall|j: int| 0 <= j < rest.len() implies #[trigger] rest[j] == passes[j + 1] by {}
        law_the_first_fault_is_told(rest, i - 1);
    }
}

/// A pipeline is faulty where a side is 0, where its scale is out of bounds, or where
/// a pass is faulty, and tells the first of these.
pub proof fn law_pipelines_are_judged(pipeline: PostProcessPipeline, dimensions: RenderDimensions)
    ensures
        ({
            let empty = dimensions.render_size.width == 0 || dimensions.render_size.height == 0
                || dimensions.output_size.width == 0 || dimensions.output_size.height == 0;
            let out = pipeline_fault(pipeline, dimensions);
            &&& empty ==> out == Some("post-process dimensions must be non-zero"@)
            &&& !empty && !pipeline.scale_in_range ==> out == Some(
                "render scale must be finite and in [0.1, 1.0]"@,
            )
            &&& !empty && pipeline.scale_in_range ==> out == first_fault(pipeline.passes@)
        }),
{
}

} // verus!
