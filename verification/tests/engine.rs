use etib::camera::{
    movement_for_key, movement_key, CameraMode, MovementAxis, MovementKey, MovementState, ARROW_LEFT, KEY_W,
    SHIFT_RIGHT,
};
use etib::config::{default_hdr_mode, default_vsync, HdrMode};
use etib::culling::{groups_for, mip_level_count, mip_size, workgroup_count};
use etib::dynamic::DynamicScene;
use etib::hdr::{tonemap_mode_code, tonemapping_mode_for, TonemappingMode};
use etib::input::InputState;
use etib::model_file::parse_model_records;
use etib::raytracing::{
    light_indices, material_code, MaterialKind, MAT_DIELECTRIC, MAT_EMISSIVE, MAT_LAMBERTIAN, MAT_METAL,
};
use etib::scene::{build_chunks, dynamic_capacity};
use etib::sounds::{SingleCubeStrategy, SoundStrategy};
use etib::surface::{
    choose_surface_format, detect_hdr_support, select_present_mode, select_sdr_format, HdrFormat,
    PresentMode, SurfaceFormat,
};

const KEY_A: u32 = 19;

#[test]
fn test_input_state() {
    let mut state = InputState::default();
    let key = KEY_A;

    assert!(!state.is_key_pressed(key));
    assert!(!state.is_key_just_pressed(key));

    state.process_key_event(true, key);
    assert!(state.is_key_pressed(key));
    assert!(state.is_key_just_pressed(key));
    assert!(!state.is_key_just_released(key));

    state.clear_frame_state();
    state.process_key_event(true, key);
    assert!(state.is_key_pressed(key));
    assert!(!state.is_key_just_pressed(key));
    assert!(!state.is_key_just_released(key));

    state.clear_frame_state();
    state.process_key_event(false, key);
    assert!(!state.is_key_pressed(key));
    assert!(!state.is_key_just_pressed(key));
    assert!(state.is_key_just_released(key));

    state.clear_frame_state();
    assert!(!state.is_key_pressed(key));
    assert!(!state.is_key_just_released(key));
}

#[test]
fn input_keys_are_independent() {
    let mut state = InputState::new();
    state.process_key_event(true, 1);
    state.process_key_event(true, 2);
    state.process_key_event(false, 1);
    assert!(!state.is_key_pressed(1));
    assert!(state.is_key_pressed(2));
    assert!(state.is_key_just_pressed(1));
    assert!(state.is_key_just_released(1));
    assert!(!state.is_key_just_released(2));
}

fn one_cube() -> (f32, f32, f32) {
    (1.0, 0.0, 0.0)
}

#[test]
fn test_dynamic_scene_new_and_buffer() {
    let scene: DynamicScene<(f32, f32, f32)> = DynamicScene::new(100);
    assert_eq!(scene.live_count(), 0);
    assert_eq!(scene.max_instances(), 100);
}

#[test]
fn test_dynamic_scene_add_and_get() {
    let mut scene = DynamicScene::new(100);
    let id = scene.add(one_cube(), 1);
    assert_eq!(id, 0);
    assert!(scene.get(id).is_some());
    assert!(scene.get(999).is_none());
}

#[test]
fn test_dynamic_scene_get_mut() {
    let mut scene = DynamicScene::new(100);
    let id = scene.add((0.0f32, 0.0f32, 0.0f32), 1);
    let m = scene.get_mut(id).unwrap();
    *m = (5.0, 0.0, 0.0);
    assert_eq!(*scene.get(id).unwrap(), (5.0, 0.0, 0.0));
    assert!(scene.get_mut(999).is_none());
}

#[test]
fn test_dynamic_scene_remove() {
    let mut scene = DynamicScene::new(100);
    let id = scene.add(one_cube(), 1);
    scene.remove(id);
    assert!(scene.get(id).is_none());
    scene.remove(id);
    scene.remove(999);
}

#[test]
fn test_dynamic_scene_update_gpu_live_count() {
    let mut scene = DynamicScene::new(100);
    assert_eq!(scene.live_count(), 0);
    scene.add("two cubes", 2);
    assert_eq!(scene.live_count(), 0);
    assert!(scene.update_gpu());
    assert_eq!(scene.live_count(), 2);
    assert!(!scene.update_gpu());
    assert_eq!(scene.live_count(), 2);
}

#[test]
fn test_dynamic_scene_reuses_freed_slots() {
    let mut scene = DynamicScene::new(100);
    let id0 = scene.add(one_cube(), 1);
    let id1 = scene.add(one_cube(), 1);
    assert_eq!(id0, 0);
    assert_eq!(id1, 1);
    scene.remove(id0);
    let id_reused = scene.add(one_cube(), 1);
    assert_eq!(id_reused, 0);
}

#[test]
fn dynamic_scene_counts_live_cubes() {
    let mut scene = DynamicScene::new(10);
    let a = scene.add('a', 3);
    let _b = scene.add('b', 4);
    assert_eq!(scene.used_instances(), 7);
    scene.remove(a);
    assert_eq!(scene.used_instances(), 4);
    assert!(scene.update_gpu());
    assert_eq!(scene.live_count(), 4);
    assert_eq!(scene.slot_count(), 2);
}

#[test]
fn test_add_get_dynamic() {
    let mut scene = DynamicScene::new(10);
    let id = scene.add(one_cube(), 1);
    assert!(scene.get(id).is_some());
    assert!(scene.get(999).is_none());
}

#[test]
fn test_remove_dynamic() {
    let mut scene = DynamicScene::new(10);
    let id = scene.add(one_cube(), 1);
    scene.remove(id);
    assert!(scene.get(id).is_none());
    scene.remove(id);
    scene.remove(999);
}

fn chunk_key(x: f32, z: f32) -> (i32, i32) {
    ((x / 32.0).floor() as i32, (z / 32.0).floor() as i32)
}

#[test]
fn test_scene_new_empty_statics() {
    let layout = build_chunks(&Vec::new());
    assert_eq!(layout.order.len(), 0);
    assert_eq!(layout.chunk_keys.len(), 0);
    let dynamic: DynamicScene<char> = DynamicScene::new(dynamic_capacity(10));
    assert_eq!(dynamic.slot_count(), 0);
    assert_eq!(dynamic.used_instances(), 0);
}

#[test]
fn scene_dynamic_capacity_is_at_least_one() {
    assert_eq!(dynamic_capacity(10), 10);
    assert_eq!(dynamic_capacity(0), 1);
    let mut dynamic = DynamicScene::new(dynamic_capacity(0));
    assert_eq!(dynamic.add('x', 1), 0);
}

#[test]
fn test_scene_new_with_statics() {
    let keys = vec![chunk_key(0.0, 0.0), chunk_key(1.0, 0.0), chunk_key(33.0, 0.0)];
    let layout = build_chunks(&keys);
    assert_eq!(layout.order.len(), 3);
    assert_eq!(layout.chunk_keys, vec![(0, 0), (1, 0)]);
    assert_eq!(layout.counts, vec![2, 1]);
}

#[test]
fn test_static_count() {
    let keys = vec![chunk_key(0.0, 0.0), chunk_key(1.0, 0.0)];
    let layout = build_chunks(&keys);
    assert_eq!(layout.order.len(), 2);
}

#[test]
fn test_scene_multi_chunk() {
    let keys = vec![chunk_key(0.0, 0.0), chunk_key(33.0, 0.0), chunk_key(66.0, 0.0)];
    let layout = build_chunks(&keys);
    assert_eq!(layout.order.len(), 3);
    assert_eq!(layout.chunk_keys.len(), 3);
}

#[test]
fn chunks_are_sorted_and_grouped() {
    let keys = vec![(1, 0), (0, 5), (1, 0), (-1, 2), (0, 5), (0, -3)];
    let layout = build_chunks(&keys);
    assert_eq!(layout.chunk_keys, vec![(-1, 2), (0, -3), (0, 5), (1, 0)]);
    assert_eq!(layout.order, vec![3, 5, 1, 4, 0, 2]);
    assert_eq!(layout.starts, vec![0, 1, 2, 4]);
    assert_eq!(layout.counts, vec![1, 1, 2, 2]);
    assert_eq!(layout.cube_chunk_ids, vec![0, 1, 2, 2, 3, 3]);
}

#[test]
fn empty_cubes_returns_no_emitters() {
    let strategy = SingleCubeStrategy;
    let cubes: [(f32, f32, f32); 0] = [];
    assert!(strategy.compute_emitters(&cubes, (0.0, 0.0, 0.0)).is_empty());
}

#[test]
fn single_cube_emitter_position_and_volume() {
    let strategy = SingleCubeStrategy;
    let cube = (3.0f32, 1.0f32, -2.0f32);
    let emitters = strategy.compute_emitters(&[cube], (0.0, 0.0, 0.0));
    assert_eq!(emitters.len(), 1);
    assert_eq!(emitters[0], cube);
}

#[test]
fn multiple_cubes_uses_only_first() {
    let strategy = SingleCubeStrategy;
    let cubes = [(1.0f32, 0.0f32, 0.0f32), (5.0, 5.0, 5.0), (-3.0, 2.0, 7.0)];
    let emitters = strategy.compute_emitters(&cubes, (0.0, 0.0, 0.0));
    assert_eq!(emitters.len(), 1);
    assert_eq!(emitters[0], cubes[0]);
}

#[test]
fn camera_position_does_not_affect_output() {
    let strategy = SingleCubeStrategy;
    let cube = (1.0f32, 2.0f32, 3.0f32);
    let e1 = strategy.compute_emitters(&[cube], (0.0, 0.0, 0.0));
    let e2 = strategy.compute_emitters(&[cube], (100.0, 200.0, 300.0));
    assert_eq!(e1[0], e2[0]);
}

const RGBA8_UNORM: SurfaceFormat = SurfaceFormat { hdr: HdrFormat::NotHdr, srgb: false };
const RGBA8_UNORM_SRGB: SurfaceFormat = SurfaceFormat { hdr: HdrFormat::NotHdr, srgb: true };
const RGBA16_FLOAT: SurfaceFormat = SurfaceFormat { hdr: HdrFormat::Rgba16Float, srgb: false };
const RGB10A2_UNORM: SurfaceFormat = SurfaceFormat { hdr: HdrFormat::Rgb10a2Unorm, srgb: false };
const BGRA8_UNORM: SurfaceFormat = SurfaceFormat { hdr: HdrFormat::NotHdr, srgb: false };
const BGRA8_UNORM_SRGB: SurfaceFormat = SurfaceFormat { hdr: HdrFormat::NotHdr, srgb: true };

#[test]
fn test_select_sdr_format_prefers_srgb() {
    let formats = [RGBA8_UNORM, RGBA8_UNORM_SRGB];
    assert_eq!(select_sdr_format(&formats), 1, "should prefer sRGB format");
}

#[test]
fn test_select_sdr_format_fallback_to_first() {
    let formats = [RGBA8_UNORM, RGBA16_FLOAT];
    assert_eq!(select_sdr_format(&formats), 0, "should fall back to formats[0]");
}

#[test]
fn test_detect_hdr_support_rgba16float() {
    let formats = [BGRA8_UNORM_SRGB, RGBA16_FLOAT];
    assert_eq!(detect_hdr_support(&formats), Some(1));
}

#[test]
fn hdr_prefers_rgba16float_over_rgb10a2() {
    let formats = [BGRA8_UNORM, RGB10A2_UNORM, RGBA16_FLOAT];
    assert_eq!(detect_hdr_support(&formats), Some(2));
    assert_eq!(choose_surface_format(HdrMode::Auto, &formats), (2, true));
    let fallback = [BGRA8_UNORM, RGB10A2_UNORM];
    assert_eq!(detect_hdr_support(&fallback), Some(1));
}

#[test]
fn test_detect_hdr_support_rgb10a2() {
    let formats = [RGB10A2_UNORM];
    assert_eq!(detect_hdr_support(&formats), Some(0));
}

#[test]
fn test_detect_hdr_support_none() {
    let formats = [BGRA8_UNORM_SRGB];
    assert_eq!(detect_hdr_support(&formats), None);
}

#[test]
fn surface_format_follows_hdr_mode() {
    let formats = [RGBA8_UNORM_SRGB, RGBA16_FLOAT];
    assert_eq!(choose_surface_format(HdrMode::Disabled, &formats), (0, false));
    assert_eq!(choose_surface_format(HdrMode::Enabled, &formats), (1, true));
    assert_eq!(choose_surface_format(HdrMode::Auto, &formats), (1, true));
    let sdr_only = [RGBA8_UNORM, RGBA8_UNORM_SRGB];
    assert_eq!(choose_surface_format(HdrMode::Enabled, &sdr_only), (1, false));
}

#[test]
fn test_present_mode_vsync() {
    let mode = select_present_mode(true, &[PresentMode::Immediate, PresentMode::Mailbox]);
    assert_eq!(mode, PresentMode::Fifo);
}

#[test]
fn test_present_mode_immediate() {
    let mode = select_present_mode(false, &[PresentMode::Immediate, PresentMode::Mailbox]);
    assert_eq!(mode, PresentMode::Immediate);
}

#[test]
fn test_present_mode_mailbox_fallback() {
    let mode = select_present_mode(false, &[PresentMode::Mailbox, PresentMode::Fifo]);
    assert_eq!(mode, PresentMode::Mailbox);
}

#[test]
fn test_present_mode_last_resort_fallback() {
    let mode = select_present_mode(false, &[PresentMode::FifoRelaxed]);
    assert_eq!(mode, PresentMode::FifoRelaxed);
}

#[test]
fn config_defaults() {
    assert!(default_vsync());
    assert_eq!(default_hdr_mode(), HdrMode::Auto);
}

#[test]
fn tonemapping_codes() {
    assert_eq!(tonemapping_mode_for(true), TonemappingMode::Hdr);
    assert_eq!(tonemapping_mode_for(false), TonemappingMode::Sdr);
    assert_eq!(tonemap_mode_code(TonemappingMode::Hdr), 1);
    assert_eq!(tonemap_mode_code(TonemappingMode::Sdr), 0);
    assert_ne!(CameraMode::FirstPerson, CameraMode::Isometric);
}

#[test]
fn workgroups_round_up() {
    assert_eq!(workgroup_count(0), 0);
    assert_eq!(workgroup_count(1), 1);
    assert_eq!(workgroup_count(64), 1);
    assert_eq!(workgroup_count(65), 2);
    assert_eq!(workgroup_count(100), 2);
}

#[test]
fn test_cube_to_uniform() {
    assert_eq!(material_code(MaterialKind::Lambertian), MAT_LAMBERTIAN);
}

#[test]
fn test_material_to_uniform() {
    assert_eq!(material_code(MaterialKind::Metal), MAT_METAL);
    assert_eq!(material_code(MaterialKind::Dielectric), MAT_DIELECTRIC);
    assert_eq!(material_code(MaterialKind::Emissive), MAT_EMISSIVE);
}

#[test]
fn test_world_to_uniform() {
    let kinds = vec![MaterialKind::Dielectric, MaterialKind::Emissive];
    assert_eq!(material_code(kinds[0]), MAT_DIELECTRIC);
    assert_eq!(material_code(kinds[1]), MAT_EMISSIVE);
    assert_eq!(light_indices(&kinds), vec![1]);
}

fn floats(words: &[String]) -> Vec<f32> {
    words.iter().map(|w| w.parse::<f32>().unwrap()).collect()
}

#[test]
fn test_parse_simple_model() {
    let content = "# Test model\n0.0 0.0 0.0\n1.0 2.0 3.0 1.0 0.0 0.0\n\n-1.0 -2.0 -3.0 0.0 1.0 0.0\n";
    let records = parse_model_records(content).unwrap();
    assert_eq!(records.len(), 3);
    assert_eq!(floats(&records[0]), vec![0.0, 0.0, 0.0]);
    assert_eq!(floats(&records[1]), vec![1.0, 2.0, 3.0, 1.0, 0.0, 0.0]);
    assert_eq!(floats(&records[2]), vec![-1.0, -2.0, -3.0, 0.0, 1.0, 0.0]);
}

#[test]
fn model_blank_and_comment_lines_are_skipped() {
    let content = "  1 2 3  \r\n\n   \n#1 2\n# a comment of many words here\n\t4\t5\t6\n";
    let records = parse_model_records(content).unwrap();
    assert_eq!(records.len(), 2);
    assert_eq!(records[0], vec!["1", "2", "3"]);
    assert_eq!(records[1], vec!["4", "5", "6"]);
    assert!(parse_model_records("").unwrap().is_empty());
}

#[test]
fn model_lines_of_other_lengths_are_errors() {
    assert_eq!(parse_model_records("1"), Err(1));
    assert_eq!(parse_model_records("1 2 3\n1 2\n1 2 3 4"), Err(2));
    assert_eq!(parse_model_records("0 0 0 1 0 0 # red"), Err(8));
    assert_eq!(parse_model_records("1 2 3 4 5 6 7\n1 2"), Err(7));
}

#[test]
fn dispatch_sizes() {
    assert_eq!(groups_for(800, 8), 100);
    assert_eq!(groups_for(801, 8), 101);
    assert_eq!(groups_for(17, 16), 2);
    assert_eq!(mip_size(1024, 1), 512);
    assert_eq!(mip_size(1000, 3), 125);
    assert_eq!(mip_size(3, 5), 1);
    assert_eq!(mip_size(0, 0), 1);
    assert_eq!(mip_level_count(800, 600), 10);
    assert_eq!(mip_level_count(1024, 1024), 11);
    assert_eq!(mip_level_count(1, 1), 1);
    assert_eq!(mip_level_count(0, 0), 1);
    assert_eq!(mip_level_count(3, 2), 2);
    assert_eq!(mip_level_count(u32::MAX, 1), 32);
}

#[test]
fn movement_keys() {
    assert_eq!(movement_for_key(MovementKey::KeyW, true), (MovementAxis::Forward, 1));
    assert_eq!(movement_for_key(MovementKey::ArrowDown, true), (MovementAxis::Forward, -1));
    assert_eq!(movement_for_key(MovementKey::KeyA, true), (MovementAxis::Right, -1));
    assert_eq!(movement_for_key(MovementKey::ArrowRight, true), (MovementAxis::Right, 1));
    assert_eq!(movement_for_key(MovementKey::Space, true), (MovementAxis::Up, 1));
    assert_eq!(movement_for_key(MovementKey::ShiftRight, true), (MovementAxis::Up, -1));
    assert_eq!(movement_for_key(MovementKey::KeyS, false), (MovementAxis::Forward, 0));
}

#[test]
fn test_time_state_new() {
    let state = etib::time::FrameCounter::new();
    assert_eq!(state.frame_count, 0);
}

#[test]
fn test_time_state_tick() {
    let mut state = etib::time::FrameCounter::new();
    assert_eq!(state.tick(false), None);
    assert_eq!(state.frame_count, 1);
}

#[test]
fn test_time_state_fps_update() {
    let mut state = etib::time::FrameCounter { frame_count: 30 };
    assert_eq!(state.tick(true), Some(31));
    assert_eq!(state.frame_count, 0);
}

#[test]
fn camera_keys_set_movement_amounts() {
    assert_eq!(movement_key(KEY_W), Some(MovementKey::KeyW));
    assert_eq!(movement_key(ARROW_LEFT), Some(MovementKey::ArrowLeft));
    assert_eq!(movement_key(0), None);
    let mut m = MovementState::new();
    assert!(m.process_keyboard(KEY_W, true));
    assert!(m.process_keyboard(ARROW_LEFT, true));
    assert!(m.process_keyboard(SHIFT_RIGHT, true));
    assert_eq!(m, MovementState { forward_amount: 1, right_amount: -1, up_amount: -1 });
    assert!(m.process_keyboard(KEY_W, false));
    assert!(!m.process_keyboard(0, true));
    assert_eq!(m, MovementState { forward_amount: 0, right_amount: -1, up_amount: -1 });
}
