use radiance_gi::brush::BrushShape;
use radiance_gi::cascades::RadianceCascades;
use radiance_gi::config::RCConfig;
use radiance_gi::gi::CurRenderer;
use radiance_gi::gi::DiffMode;
use radiance_gi::gi::Raymarcher;
use radiance_gi::gi::RenderRoute;
use radiance_gi::gi::Renderer;
use radiance_gi::gi::SelectionError;
use radiance_gi::gi::GI;

#[test]
fn new_registry_selects_first_solver() {
    let gi = GI::new((320, 240));
    assert_eq!(gi.len(), 1);
    assert_eq!(gi.render(), Ok(RenderRoute::Single(0)));
    assert_eq!(gi.renderer(0).label(), "RC 0");
    assert_eq!(gi.cur_renderer(), CurRenderer::Index(0));
}

#[test]
fn out_of_range_selection_is_reported() {
    let mut gi = GI::new((320, 240));
    gi.select(CurRenderer::Index(1));
    assert_eq!(gi.render(), Err(SelectionError::InvalidIndex));
    gi.select(CurRenderer::Index(usize::MAX));
    assert_eq!(gi.render(), Err(SelectionError::InvalidIndex));
    gi.select(CurRenderer::Diff);
    gi.set_diff_indices(0, 1);
    assert_eq!(gi.render(), Err(SelectionError::InvalidDiffIndices));
    gi.add_raymarcher("Raymarcher 1".to_string());
    assert_eq!(gi.render(), Ok(RenderRoute::Diff(0, 1)));
    assert_eq!(gi.diff_indices(), (0, 1));
}

#[test]
fn adding_renderers_keeps_selection() {
    let mut gi = GI::new((320, 240));
    assert_eq!(gi.add_raymarcher("Raymarcher 1".to_string()), 1);
    assert_eq!(gi.add_radiance_cascades("RC 2".to_string()), 2);
    assert_eq!(gi.add_texture_renderer("Texture 3".to_string()), 3);
    assert_eq!(gi.len(), 4);
    assert_eq!(gi.renderer(3).label(), "Texture 3");
    assert_eq!(gi.render(), Ok(RenderRoute::Single(0)));
}

#[test]
fn removal_never_leaves_selection_dangling() {
    let mut gi = GI::new((320, 240));
    gi.add_raymarcher("Raymarcher 1".to_string());
    gi.add_texture_renderer("Texture 2".to_string());
    gi.select(CurRenderer::Index(2));
    assert!(gi.remove(1));
    assert_eq!(gi.render(), Ok(RenderRoute::Single(1)));
    assert_eq!(gi.renderer(1).label(), "Texture 2");
    assert!(gi.remove(1));
    assert_eq!(gi.render(), Ok(RenderRoute::Single(0)));
    assert!(!gi.remove(0));
    assert!(!gi.remove(5));
    assert_eq!(gi.len(), 1);

    let mut gi = GI::new((320, 240));
    gi.add_raymarcher("Raymarcher 1".to_string());
    gi.add_raymarcher("Raymarcher 2".to_string());
    gi.select(CurRenderer::Diff);
    gi.set_diff_indices(2, 1);
    assert!(gi.remove(2));
    assert_eq!(gi.diff_indices(), (0, 1));
    assert_eq!(gi.render(), Ok(RenderRoute::Diff(0, 1)));
}

#[test]
fn replace_keeps_selection() {
    let mut gi = GI::new((320, 240));
    gi.add_raymarcher("Raymarcher 1".to_string());
    gi.select(CurRenderer::Index(1));
    let rc = RadianceCascades::new((320, 240), "RC 1".to_string());
    assert!(gi.replace(1, Renderer::RadianceCascades(rc)));
    assert_eq!(gi.renderer(1).label(), "RC 1");
    assert_eq!(gi.render(), Ok(RenderRoute::Single(1)));
    let rm = Raymarcher::new((320, 240), "late".to_string());
    assert!(!gi.replace(2, Renderer::Raymarcher(rm)));
    assert_eq!(gi.len(), 2);
}

#[test]
fn resize_fans_out() {
    let mut gi = GI::new((64, 64));
    gi.add_raymarcher("Raymarcher 1".to_string());
    gi.add_texture_renderer("Texture 2".to_string());
    assert!(gi.resize((128, 96), u32::MAX));
    match gi.renderer(0) {
        Renderer::RadianceCascades(rc) => {
            assert_eq!(rc.window_size(), (128, 96));
            assert_eq!(
                rc.resources().cascade_buffer_elems,
                RCConfig::default().get_max_cascade_size((128, 96))
            );
            assert!(rc.render((128, 96), (128, 96)).is_ok());
        }
        _ => panic!("first renderer is the cascade solver"),
    }
    match gi.renderer(1) {
        Renderer::Raymarcher(r) => {
            let plan = r.render((128, 96)).unwrap();
            assert_eq!(plan.workgroups, (8, 6));
            assert_eq!(plan.ray_count, 64);
        }
        _ => panic!("second renderer is the raymarcher"),
    }
    assert!(!gi.resize((4096, 4096), 1000));
}

#[test]
fn raymarcher_plan() {
    let mut r = Raymarcher::new((100, 50), "Raymarcher 0".to_string());
    r.set_ray_count(256);
    let plan = r.render((100, 50)).unwrap();
    assert_eq!(plan.ray_count, 256);
    assert_eq!(plan.workgroups, (7, 4));
    assert_eq!(plan.jfa.workgroups, (7, 4));
    assert!(r.render((100, 51)).is_err());
    r.resize((100, 51));
    assert!(r.render((100, 51)).is_ok());
}

#[test]
fn shader_codes() {
    assert_eq!(DiffMode::Abs.code(), 0);
    assert_eq!(DiffMode::FirstMinusSecond.code(), 1);
    assert_eq!(DiffMode::SecondMinusFirst.code(), 2);
    assert_eq!(BrushShape::Square.code(), 0);
    assert_eq!(BrushShape::Circle.code(), 1);
}

#[test]
fn per_renderer_settings_through_registry() {
    let mut gi = GI::new((256, 256));
    gi.add_raymarcher("Raymarcher 1".to_string());
    let staged = RCConfig { num_cascades: 3, ..RCConfig::default() };
    assert!(gi.set_gui_config(0, staged));
    assert!(!gi.set_gui_config(1, staged));
    assert!(!gi.set_gui_config(7, staged));
    assert!(!gi.apply_gui_config(0, 1000));
    assert!(!gi.apply_gui_config(1, u32::MAX));
    match gi.renderer(0) {
        Renderer::RadianceCascades(rc) => {
            assert_eq!(rc.config(), RCConfig::default());
            assert_eq!(rc.gui_config(), staged);
        }
        _ => panic!("first renderer is the cascade solver"),
    }
    assert!(gi.apply_gui_config(0, u32::MAX));
    match gi.renderer(0) {
        Renderer::RadianceCascades(rc) => assert_eq!(rc.config(), staged),
        _ => panic!("first renderer is the cascade solver"),
    }
    assert!(gi.set_ray_count(1, 512));
    assert!(!gi.set_ray_count(0, 512));
    match gi.renderer(1) {
        Renderer::Raymarcher(r) => {
            assert_eq!(r.ray_count(), 512);
            assert_eq!(r.window_size(), (256, 256));
        }
        _ => panic!("second renderer is the raymarcher"),
    }
}

#[test]
fn adding_keeps_existing_entries_and_kinds() {
    let mut gi = GI::new((200, 100));
    assert_eq!(gi.window_size(), (200, 100));
    match gi.renderer(0) {
        Renderer::RadianceCascades(rc) => {
            assert_eq!(rc.label(), "RC 0");
            assert_eq!(rc.config(), RCConfig::default());
            assert_eq!(rc.window_size(), (200, 100));
        }
        _ => panic!("a new registry holds a cascade solver"),
    }
    gi.add_texture_renderer("Texture 1".to_string());
    gi.add_radiance_cascades("RC 2".to_string());
    gi.add_raymarcher("Raymarcher 3".to_string());
    assert!(matches!(gi.renderer(0), Renderer::RadianceCascades(_)));
    assert!(matches!(gi.renderer(1), Renderer::Texture(_)));
    assert!(matches!(gi.renderer(2), Renderer::RadianceCascades(_)));
    assert!(matches!(gi.renderer(3), Renderer::Raymarcher(_)));
    let labels: Vec<String> = (0..gi.len()).map(|i| gi.renderer(i).label()).collect();
    assert_eq!(labels, vec!["RC 0", "Texture 1", "RC 2", "Raymarcher 3"]);
    match gi.renderer(3) {
        Renderer::Raymarcher(r) => assert_eq!(r.window_size(), (200, 100)),
        _ => panic!("fourth renderer is the raymarcher"),
    }
}

#[test]
fn resize_keeps_each_renderers_settings() {
    let mut gi = GI::new((64, 64));
    gi.add_raymarcher("Raymarcher 1".to_string());
    let staged = RCConfig { num_cascades: 3, ..RCConfig::default() };
    assert!(gi.set_gui_config(0, staged));
    assert!(gi.apply_gui_config(0, u32::MAX));
    let other = RCConfig { num_cascades: 5, ..RCConfig::default() };
    assert!(gi.set_gui_config(0, other));
    assert!(gi.set_ray_count(1, 300));
    assert!(gi.resize((96, 80), u32::MAX));
    match gi.renderer(0) {
        Renderer::RadianceCascades(rc) => {
            assert_eq!(rc.config(), staged);
            assert_eq!(rc.gui_config(), other);
            assert_eq!(rc.window_size(), (96, 80));
        }
        _ => panic!("first renderer is the cascade solver"),
    }
    match gi.renderer(1) {
        Renderer::Raymarcher(r) => {
            assert_eq!(r.ray_count(), 300);
            assert_eq!(r.window_size(), (96, 80));
        }
        _ => panic!("second renderer is the raymarcher"),
    }
}
