use art3m1s_core::profiler::{
    window_ms, Aggregator, Answer, FrameProfile, Message, WindowAccumulator,
};
use art3m1s_core::render_pipeline::draw::{
    masked_texture_name, materialize_stencil_groups, solid_texture_name, total_order_key,
    BlendMode, StencilMetadata, TextureId, TextureInfo, TextureProvider,
};
use art3m1s_core::render_pipeline::pipeline::RenderPipeline;
use art3m1s_core::render_pipeline::post_process::{
    Extent2D, PostProcessPass, PostProcessPipeline, RenderDimensions, RenderQualityPreset,
    TextureFormat, UpscaleMode,
};
use art3m1s_core::render_pipeline::transition::{start, TransitionRequest};
use art3m1s_core::runtime::dxt5::decode_dxt5_rgba8;
use art3m1s_core::runtime::emote::{
    astc_cache_path, check_files, eluna_blend, emote_blend, eye_blink_seed, infer_emote_header_key,
    mesh_corners, mesh_side, next_random, pending_time, texture_name, worker_step, EmoteBackend,
    EmoteState, WorkerStep,
};
use art3m1s_core::runtime::render::{
    damaged_parts, frame_requires_render, render_mode, shows_click_wait_icon, FrameFacts,
    PartFacts, RenderMode,
};

#[test]
fn context_keeps_render_and_output_sizes_distinct() {
    let dimensions = RenderDimensions::new(Extent2D::new(1920, 1080), Extent2D::new(2560, 1440));
    let pipeline = PostProcessPipeline::new();
    let context = pipeline.context(dimensions);
    assert_eq!(context.scene.size, Extent2D::new(1920, 1080));
    assert_eq!(context.output_format, TextureFormat::Rgba8Unorm);
    assert!(pipeline.validate(dimensions).is_ok());
}

#[test]
fn spatial_pass_is_backend_capability_checked() {
    let dimensions = RenderDimensions::same(Extent2D::new(16, 16));
    let mut pipeline = PostProcessPipeline::new();
    pipeline.passes[0] = PostProcessPass::Upscale { mode: UpscaleMode::Spatial, in_range: true };
    assert!(pipeline.validate(dimensions).is_ok());
}

#[test]
fn settings_out_of_range_are_refused() {
    let dimensions = RenderDimensions::same(Extent2D::new(16, 16));
    let mut pipeline = PostProcessPipeline::new();
    pipeline.passes[0] = PostProcessPass::Upscale { mode: UpscaleMode::Spatial, in_range: false };
    assert!(pipeline.validate(dimensions).is_err());
    let empty = RenderDimensions::same(Extent2D::new(0, 16));
    assert!(PostProcessPipeline::new().validate(empty).is_err());
    assert!(RenderQualityPreset::from_ffi(77).is_none());
    let native = RenderQualityPreset::from_ffi(0).unwrap();
    assert!(matches!(native.upscale_mode(), UpscaleMode::Linear));
    let scales: Vec<(u32, u32)> =
        (0..4).map(|n| RenderQualityPreset::from_ffi(n).unwrap().scale()).collect();
    assert_eq!(scales, vec![(1, 1), (2, 3), (58, 100), (1, 2)]);
}

fn milliseconds(ns: u128) -> f64 {
    ns as f64 / 1_000_000.0
}

// The interpreter is the fourth timing of a frame, the calls of the host the last.
const INTERPRETER: usize = 3;
const HOST_FFI: usize = 14;

#[test]
fn accumulator_keeps_interpreter_separate_from_host_ffi() {
    let mut accumulator = WindowAccumulator::new();
    accumulator.push(FrameProfile {
        enabled: true,
        interpreter_ns: 2_000_000,
        host_ffi_ns: 500_000,
        host_ffi_calls: 2,
        rendered: true,
        damage_pixels: 25,
        stage_pixels: 100,
        ..FrameProfile::default()
    });
    let frames = accumulator.frames as u128;
    assert_eq!(milliseconds(accumulator.sums[INTERPRETER] / frames), 2.0);
    assert_eq!(milliseconds(accumulator.sums[HOST_FFI] / frames), 0.5);
    assert_eq!(accumulator.host_ffi_calls as f64 / 1.0, 2.0);
    assert_eq!(
        accumulator.damage_pixels as f64 * 100.0 / accumulator.stage_pixels as f64,
        25.0
    );
}

#[test]
fn accumulator_keeps_session_average_and_peak() {
    let mut accumulator = WindowAccumulator::new();
    accumulator.push(FrameProfile {
        enabled: true,
        interpreter_ns: 1_000_000,
        ..FrameProfile::default()
    });
    accumulator.push(FrameProfile {
        enabled: true,
        interpreter_ns: 5_000_000,
        ..FrameProfile::default()
    });

    let frames = accumulator.frames as u128;
    assert_eq!(milliseconds(accumulator.sums[INTERPRETER] / frames), 3.0);
    assert_eq!(milliseconds(accumulator.maxima[INTERPRETER] as u128), 5.0);
    let mut aggregator = Aggregator::new(0);
    aggregator.take(Message::Reset(true), 1_000);
    match aggregator.take(Message::Timeout, 2_000_001_000) {
        Answer::Publish { elapsed_ns, .. } => assert_eq!(window_ms(elapsed_ns), 2_000),
        _ => panic!("nothing is published"),
    }
}

#[test]
fn profiles_are_published_once_a_window() {
    let mut aggregator = Aggregator::new(0);
    assert!(matches!(aggregator.take(Message::Frame(FrameProfile::default()), 1), Answer::Wait));
    aggregator.take(Message::Reset(true), 10);
    assert!(aggregator.enabled);
    let frame = FrameProfile { enabled: true, ..FrameProfile::default() };
    assert!(matches!(aggregator.take(Message::Frame(frame), 20), Answer::Wait));
    assert!(matches!(
        aggregator.take(Message::Timeout, 600_000_000),
        Answer::Publish { enabled: true, .. }
    ));
    assert!(matches!(aggregator.take(Message::Disconnected, 600_000_001), Answer::Stop));
}

#[test]
fn unchanged_draw_list_and_textures_skip_rendering() {
    assert!(frame_requires_render(false, 0, 0));
    assert!(!frame_requires_render(true, 7, 7));
    assert!(frame_requires_render(true, 7, 8));
}

const PLAIN: FrameFacts = FrameFacts { has_shader_groups: false, has_masks: false, has_effects: false };

#[test]
fn only_changed_places_are_drawn_again() {
    let same = PartFacts { same: true, old_texture: Some(1), new_texture: Some(1) };
    let moved = PartFacts { same: false, ..same };
    assert_eq!(damaged_parts(Some(PLAIN), PLAIN, &vec![same, moved], &vec![]), Some(vec![1]));
    assert_eq!(damaged_parts(Some(PLAIN), PLAIN, &vec![same], &vec![1]), Some(vec![0]));
    assert_eq!(damaged_parts(Some(PLAIN), PLAIN, &vec![same], &vec![2]), None);
    assert_eq!(damaged_parts(None, PLAIN, &vec![moved], &vec![]), None);
    let meshed = FrameFacts { has_effects: true, ..PLAIN };
    assert_eq!(damaged_parts(Some(PLAIN), meshed, &vec![moved], &vec![]), None);
    assert_eq!(render_mode(false, true, true), RenderMode::Keep);
    assert_eq!(render_mode(true, true, false), RenderMode::Damage { visualized: false });
    assert_eq!(render_mode(true, false, true), RenderMode::Full { visualized: true });
    assert!(shows_click_wait_icon(true, true));
    assert!(!shows_click_wait_icon(true, false));
}

#[derive(Default)]
struct Uploads {
    names: Vec<String>,
    full: bool,
}

impl TextureProvider for Uploads {
    fn resolve(&mut self, name: &str) -> Option<(TextureId, TextureInfo)> {
        let at = self.names.iter().position(|n| n == name)?;
        Some((TextureId(at as u64), TextureInfo { width: 1, height: 1 }))
    }
    fn upload_rgba(
        &mut self,
        name: &str,
        width: u32,
        height: u32,
        _data: &[u8],
    ) -> Option<(TextureId, TextureInfo)> {
        if self.full {
            return None;
        }
        self.names.push(name.to_string());
        Some((TextureId(self.names.len() as u64), TextureInfo { width, height }))
    }
    fn upload_dxt5_render_only(
        &mut self,
        _name: &str,
        _width: u32,
        _height: u32,
        _data: &[u8],
    ) -> Option<(TextureId, TextureInfo)> {
        None
    }
}

#[test]
fn solid_textures_are_named_by_their_colour() {
    let mut provider = Uploads::default();
    assert!(provider.solid_texture([1, 2, 3, 255]).is_some());
    assert_eq!(provider.names[0], solid_texture_name([1, 2, 3, 255]));
    assert_ne!(solid_texture_name([1, 2, 3, 255]), solid_texture_name([1, 2, 3, 254]));
    assert!(masked_texture_name("a", "b").contains('a'));
    assert!(provider.resolve_with_mask("none", "mask").is_none());
}

#[test]
fn a_transition_lasts_its_time() {
    let mut pipeline = RenderPipeline::new(100);
    let request = TransitionRequest {
        trans_type: 1,
        time: Some(50),
        rule: None,
        vague: None,
        input: 0,
    };
    assert!(!pipeline.needs_trans_capture());
    let mut provider = Uploads::default();
    pipeline.capture_trans_texture(&[0; 4], 1, 1, &mut provider);
    assert!(provider.names.is_empty());
    start(&mut pipeline.transition, 100, &request);
    assert!(pipeline.needs_trans_capture());
    provider.full = true;
    pipeline.capture_trans_texture(&[0; 4], 1, 1, &mut provider);
    assert!(pipeline.needs_trans_capture());
    provider.full = false;
    pipeline.capture_trans_texture(&[0; 4], 1, 1, &mut provider);
    assert!(!pipeline.needs_trans_capture());
    assert_eq!(provider.names, vec!["__trans_capture__".to_string()]);
    assert!(pipeline.is_transition_in_progress());
    pipeline.clock_ms = 120;
    let overlay = pipeline.overlay().unwrap();
    assert_eq!((overlay.elapsed_ms, overlay.duration_ms), (20, 50));
    pipeline.clock_ms = 150;
    assert!(!pipeline.is_transition_in_progress());
    assert!(!pipeline.scene_passes().is_empty());
    assert!(pipeline.postprocess_passes().is_empty());
}

fn stencil(source: &str, masks: &[&str]) -> Option<StencilMetadata> {
    Some(StencilMetadata {
        namespace: 1,
        source_label: source.to_string(),
        mask_labels: masks.iter().map(|m| m.to_string()).collect(),
    })
}

#[test]
fn masked_parts_get_their_masks() {
    let commands = vec![stencil("eye", &[]), stencil("pupil", &["eye"]), None];
    let places = vec![vec![0; 3], vec![0; 3], vec![0; 3]];
    let plan = materialize_stencil_groups(&commands, &places, 0);
    assert_eq!(plan.masks, vec![0]);
    assert_eq!(plan.groups.len(), 1);
    assert_eq!(
        (plan.groups[0].index, plan.groups[0].mask_start, plan.groups[0].mask_end),
        (1, 0, 1)
    );
    let bare = materialize_stencil_groups(&vec![None], &vec![vec![0]], 0);
    assert!(bare.masks.is_empty() && bare.groups.is_empty());
    assert!(total_order_key((-1.0f32).to_bits()) < total_order_key(1.0f32.to_bits()));
    assert!(total_order_key(0.5f32.to_bits()) < total_order_key(0.75f32.to_bits()));
}

#[test]
fn expands_four_by_four_blend_points_into_nine_quads() {
    let mut points: Vec<f32> = Vec::new();
    for y in 0..4 {
        for x in 0..4 {
            points.push(x as f32 / 3.0);
            points.push(y as f32 / 3.0);
        }
    }
    let (width, height) = (300.0f32, 600.0f32);
    let side = mesh_side(points.len()).unwrap();
    let vertices: Vec<[f32; 4]> = mesh_corners(side)
        .into_iter()
        .map(|(x, y)| {
            let index = (y * side + x) * 2;
            [
                points[index] * width,
                points[index + 1] * height,
                x as f32 / (side - 1) as f32,
                y as f32 / (side - 1) as f32,
            ]
        })
        .collect();
    assert_eq!(vertices.len(), 54);
    assert_eq!(vertices[0], [0.0, 0.0, 0.0, 0.0]);
    assert_eq!(vertices[2], [100.0, 200.0, 1.0 / 3.0, 1.0 / 3.0]);
}

#[test]
fn only_squares_are_grids() {
    assert_eq!(mesh_side(0), None);
    assert_eq!(mesh_side(2), None);
    assert_eq!(mesh_side(8), Some(2));
    assert_eq!(mesh_side(9), None);
    assert_eq!(mesh_side(12), None);
    assert_eq!(mesh_side(18), Some(3));
}

#[test]
fn textures_are_decoded_block_by_block() {
    // An opaque red block.
    let mut block = vec![255, 255, 0, 0, 0, 0, 0, 0];
    block.extend_from_slice(&[0x00, 0xf8, 0x00, 0xf8, 0, 0, 0, 0]);
    let pixels = decode_dxt5_rgba8(&block, 4, 4).unwrap();
    assert_eq!(pixels.len(), 64);
    assert_eq!(&pixels[..4], &[255, 0, 0, 255]);
    assert_eq!(decode_dxt5_rgba8(&block, 2, 3).unwrap().len(), 24);
    assert!(decode_dxt5_rgba8(&block, 5, 4).is_err());
}

#[test]
fn a_following_figure_waits_for_its_turn() {
    let mut state: EmoteState<&str> = EmoteState::new();
    assert!(!state.create_layer("1", "first"));
    assert!(state.create_layer("1", "second"));
    assert_eq!(state.command_target("1", false).ok(), Some(&"first"));
    assert_eq!(state.command_target("1", true).ok(), Some(&"second"));
    assert!(matches!(
        state.command_target("2", false),
        Err(message) if message == "unknown E-Mote layer 2"
    ));
    assert_eq!(state.take_scene_attachments(), vec!["1".to_string()]);
    assert!(state.take_scene_attachments().is_empty());
    state.retain_scene_layers(&vec![]);
    assert!(state.command_target("1", false).is_err());
    assert_eq!((state.take_generation() + 1), state.take_generation());
}

#[test]
fn what_is_known_of_figures() {
    assert!(matches!(EmoteBackend::from_int(1), EmoteBackend::ElunaExperimental));
    assert!(matches!(EmoteBackend::from_int(0), EmoteBackend::BuiltIn));
    assert!(check_files("1", 1).is_ok());
    assert!(check_files("1", 0).is_err());
    assert_eq!(emote_blend(2), BlendMode::Multiply);
    assert_eq!(emote_blend(9), BlendMode::Alpha);
    assert_eq!(eluna_blend(0), BlendMode::Alpha);
    assert_eq!(next_random(1), 1_015_568_748);
    assert_ne!(eye_blink_seed(1, 0), eye_blink_seed(1, 1));
    assert_eq!(pending_time(90, 90), 100);
    assert_eq!(pending_time(3, 4), 7);
    assert!(texture_name(3, "tex").ends_with("tex"));
    assert_eq!(
        astc_cache_path(b"", 4, 8).strip_prefix("cache/emote/astc4x4/").map(|p| p.len()),
        Some("cbf29ce484222325-4x8.bin".len())
    );
    assert_eq!(worker_step(0, 0), WorkerStep::Wait);
    assert_eq!(worker_step(2, 0), WorkerStep::Rebuild);
    assert_eq!(worker_step(2, 5), WorkerStep::Progress { delta_ms: 5 });
}

#[test]
fn the_key_of_a_model_is_read_off_its_header() {
    let mut header = vec![b'P', b'S', b'B', 0, 3, 0, 1, 0];
    header.extend_from_slice(&0x1234_5678u32.to_le_bytes());
    let x: u32 = 123456789;
    let t = x ^ (x << 11);
    let rhs = 0x1234_5678u32 ^ 44 ^ t ^ (t >> 8);
    assert_eq!(infer_emote_header_key(&header), Some(rhs ^ (rhs >> 19)));
    header[6] = 0;
    assert_eq!(infer_emote_header_key(&header), None);
    assert_eq!(infer_emote_header_key(b"PSB"), None);
}
