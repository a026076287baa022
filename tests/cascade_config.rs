use radiance_gi::cascades::RadianceCascades;
use radiance_gi::config::ProbeLayout;
use radiance_gi::config::RCConfig;
use radiance_gi::config::RingingFix;
use radiance_gi::jfa::JfaError;
use radiance_gi::config::FIXED_ONE;
use radiance_gi::resources::admission_limit;
use radiance_gi::resources::RCResources;

fn scenario_config() -> RCConfig {
    RCConfig {
        c0_rays: 4,
        c0_spacing: FIXED_ONE,
        c0_raylength: FIXED_ONE,
        angular_scaling: 4,
        spatial_scaling: 2 * FIXED_ONE,
        probe_layout: ProbeLayout::Offset,
        ringing_fix: RingingFix::Bilinear,
        num_cascades: 3,
    }
}

#[test]
fn scenario_level_sizes_256() {
    let c = scenario_config();
    assert_eq!(c.get_spatial_resolution((256, 256), 0), (257, 257));
    assert_eq!(c.get_spatial_resolution((256, 256), 1), (129, 129));
    assert_eq!(c.get_spatial_resolution((256, 256), 2), (65, 65));
    assert_eq!(c.get_cascade_size((256, 256), 0), 257 * 257);
    assert_eq!(c.get_cascade_size((256, 256), 1), 4 * 129 * 129);
    assert_eq!(c.get_cascade_size((256, 256), 2), 16 * 65 * 65);
    assert_eq!(c.get_max_cascade_size((256, 256)), 67600);
}

#[test]
fn scenario_apply_against_limits() {
    let c = scenario_config();
    let mut rc = RadianceCascades::new((256, 256), "RC".to_string());
    assert!(rc.apply_config(c, 67601));
    assert_eq!(rc.config(), c);
    assert_eq!(rc.resources().cascade_buffer_elems, 67600);
    assert_eq!(rc.resources().cascade_buffer_size, 67600 * 8);

    let mut rc2 = RadianceCascades::new((256, 256), "RC".to_string());
    assert!(rc2.apply_config(c, 67600));
    let mut rc3 = RadianceCascades::new((256, 256), "RC".to_string());
    assert!(!rc3.apply_config(c, 67599));
    assert_eq!(rc3.config(), RCConfig::default());
}

#[test]
fn rejected_config_keeps_committed_geometry() {
    let valid = scenario_config();
    let mut rc = RadianceCascades::new((256, 256), "RC".to_string());
    assert!(rc.apply_config(valid, 1_000_000));
    let oversized = RCConfig { c0_rays: 1024, num_cascades: 6, ..valid };
    assert!(oversized.get_max_cascade_size((256, 256)) > 1_000_000);
    assert!(!rc.apply_config(oversized, 1_000_000));
    assert_eq!(rc.config(), valid);
    let plan = rc.render((256, 256), (256, 256)).unwrap();
    assert_eq!(plan.passes.len(), 3);
    assert_eq!(plan.passes[0].cur_cascade, 2);
    assert_eq!(plan.passes[0].workgroups, (67600 + 127) / 128);
}

#[test]
fn ray_counts() {
    let c = scenario_config();
    assert_eq!(c.ray_count(0), 1);
    assert_eq!(c.ray_count(1), 4);
    assert_eq!(c.ray_count(2), 16);
    assert_eq!(c.ray_count(5), 4 * 4 * 4 * 4 * 4);
    for i in 2..12u32 {
        let prev = c.ray_count(i - 1) as u64;
        let cur = c.ray_count(i) as u64;
        assert_eq!(cur, (prev * 4).min(u32::MAX as u64));
    }
    assert_eq!(c.ray_count(40), u32::MAX);
    let flat = RCConfig { angular_scaling: 1, ..c };
    assert_eq!(flat.ray_count(1_000_000), 4);
    let zero = RCConfig { angular_scaling: 0, ..c };
    assert_eq!(zero.ray_count(1), 4);
    assert_eq!(zero.ray_count(2), 0);
}

#[test]
fn level_size_saturates_instead_of_wrapping() {
    let c = RCConfig {
        c0_rays: u32::MAX,
        angular_scaling: 2,
        num_cascades: 4,
        ..scenario_config()
    };
    assert_eq!(c.get_cascade_size((1920, 1080), 1), u32::MAX);
    assert_eq!(c.get_cascade_size((1920, 1080), 3), u32::MAX);
    assert_eq!(c.get_max_cascade_size((1920, 1080)), u32::MAX);
    let dense = RCConfig { c0_spacing: 1, ..scenario_config() };
    assert_eq!(dense.get_spatial_resolution((u32::MAX, 2), 0).0, u32::MAX);
    assert_eq!(dense.get_num_probes_1d((u32::MAX, 2), 0), u32::MAX);
    assert_eq!(dense.get_cascade_size((u32::MAX, 2), 0), u32::MAX);
}

#[test]
fn probe_grid_shrinks_with_level() {
    let c = RCConfig {
        c0_spacing: FIXED_ONE / 4,
        spatial_scaling: FIXED_ONE + FIXED_ONE / 2,
        num_cascades: 12,
        ..scenario_config()
    };
    assert_eq!(c.get_spatial_resolution((256, 100), 0), (1025, 401));
    assert_eq!(c.get_spatial_resolution((256, 100), 1), (684, 268));
    let mut prev = c.get_spatial_resolution((1920, 1080), 0);
    for i in 1..30u32 {
        let cur = c.get_spatial_resolution((1920, 1080), i);
        assert!(cur.0 <= prev.0 && cur.1 <= prev.1);
        prev = cur;
    }
    assert_eq!(prev, (2, 2));
    assert_eq!(c.get_spatial_resolution((0, 7), 0), (1, 28 + 1));
}

#[test]
fn max_cascade_size_is_max_of_levels() {
    let mut seed: u64 = 0x2545_f491_4f6c_dd1d;
    for _ in 0..200 {
        seed ^= seed << 13;
        seed ^= seed >> 7;
        seed ^= seed << 17;
        let c = RCConfig {
            c0_rays: 1 + (seed % 64) as u32,
            c0_spacing: FIXED_ONE / 4 + ((seed >> 8) % (16 * FIXED_ONE as u64)) as u32,
            c0_raylength: FIXED_ONE,
            angular_scaling: 1 + ((seed >> 20) % 16) as u32,
            spatial_scaling: FIXED_ONE + ((seed >> 28) % (8 * FIXED_ONE as u64)) as u32,
            probe_layout: ProbeLayout::Stacked,
            ringing_fix: RingingFix::Vanilla,
            num_cascades: ((seed >> 40) % 17) as u32,
        };
        let size = (1 + ((seed >> 45) % 2048) as u32, 1 + ((seed >> 52) % 2048) as u32);
        let brute = (0..c.num_cascades).map(|i| c.get_cascade_size(size, i)).max().unwrap_or(0);
        assert_eq!(c.get_max_cascade_size(size), brute);
    }
}

#[test]
fn zero_cascades_has_zero_size_and_is_rejected() {
    let c = RCConfig { num_cascades: 0, ..scenario_config() };
    assert_eq!(c.get_max_cascade_size((256, 256)), 0);
    assert!(!c.is_admissible((256, 256), u32::MAX));
    let mut rc = RadianceCascades::new((256, 256), "RC".to_string());
    assert!(!rc.apply_config(c, u32::MAX));
    assert_eq!(rc.config(), RCConfig::default());
}

#[test]
fn malformed_geometry_is_rejected() {
    let mut rc = RadianceCascades::new((64, 64), "RC".to_string());
    let no_spacing = RCConfig { c0_spacing: 0, ..scenario_config() };
    let shrinking = RCConfig { spatial_scaling: FIXED_ONE - 1, ..scenario_config() };
    assert!(!rc.apply_config(no_spacing, u32::MAX));
    assert!(!rc.apply_config(shrinking, u32::MAX));
    rc.set_gui_config(no_spacing);
    assert_eq!(rc.staged_max_cascade_size(), None);
    assert!(!rc.apply_gui_config(u32::MAX));
    assert_eq!(rc.config(), RCConfig::default());
}

#[test]
fn staged_config_commits_only_on_apply() {
    let mut rc = RadianceCascades::new((256, 256), "RC 3".to_string());
    assert_eq!(rc.label(), "RC 3");
    rc.set_gui_config(scenario_config());
    assert_eq!(rc.config(), RCConfig::default());
    assert_eq!(rc.staged_max_cascade_size(), Some(67600));
    assert!(rc.apply_gui_config(70000));
    assert_eq!(rc.config(), scenario_config());
    assert_eq!(rc.gui_config(), scenario_config());
}

#[test]
fn resize_reports_admission_at_new_size() {
    let mut rc = RadianceCascades::new((256, 256), "RC".to_string());
    assert!(rc.apply_config(scenario_config(), 67600));
    assert!(!rc.resize((512, 512), 67600));
    assert_eq!(rc.window_size(), (512, 512));
    assert_eq!(rc.config(), scenario_config());
    assert_eq!(
        rc.resources().cascade_buffer_elems,
        scenario_config().get_max_cascade_size((512, 512))
    );
    assert_eq!(rc.resources().sdf_width, 512);
    assert!(rc.resize((128, 128), 67600));
}

#[test]
fn default_config_values() {
    let c = RCConfig::default();
    assert_eq!(c.c0_rays, 4);
    assert_eq!(c.c0_spacing, FIXED_ONE);
    assert_eq!(c.c0_raylength, FIXED_ONE);
    assert_eq!(c.angular_scaling, 4);
    assert_eq!(c.spatial_scaling, 2 * FIXED_ONE);
    assert_eq!(c.probe_layout, ProbeLayout::Offset);
    assert_eq!(c.ringing_fix, RingingFix::Bilinear);
    assert_eq!(c.num_cascades, 7);
}

#[test]
fn uniform_codes() {
    let c = RCConfig { probe_layout: ProbeLayout::Stacked, ..RCConfig::default() };
    let u = c.uniform(5);
    assert_eq!(u.cur_cascade, 5);
    assert_eq!(u.probe_layout, 1);
    assert_eq!(u.ringing_fix, 1);
    assert_eq!(u.config, c);
    assert_eq!(ProbeLayout::Offset.code(), 0);
    assert_eq!(RingingFix::Vanilla.code(), 0);
    assert_eq!(RingingFix::Vanilla.name(), "Vanilla");
    assert_eq!(RingingFix::Bilinear.name(), "Bilinear");
}

#[test]
fn admission_limit_takes_smaller_bound() {
    assert_eq!(admission_limit(268_435_456, 65_535), 8_388_480);
    assert_eq!(admission_limit(8 * 1000, 65_535), 1000);
    assert_eq!(admission_limit(u64::MAX, u32::MAX), u32::MAX);
    assert_eq!(admission_limit(0, 10), 0);
}

#[test]
fn ping_pong_bind_groups() {
    assert_eq!(RCResources::temp_bind_group_buffers(0), (1, 0));
    assert_eq!(RCResources::temp_bind_group_buffers(1), (0, 1));
    let r = RCResources::new((256, 256), scenario_config());
    assert_eq!(r.cascade_buffer_elems, 67600);
    assert_eq!((r.sdf_width, r.sdf_height), (256, 256));
}

#[test]
fn cascade_plan_runs_coarse_to_fine() {
    let rc = RadianceCascades::new((64, 48), "RC".to_string());
    let plan = rc.render((64, 48), (64, 48)).unwrap();
    let c = RCConfig::default();
    assert_eq!(plan.passes.len(), 7);
    for (i, p) in plan.passes.iter().enumerate() {
        assert_eq!(p.cur_cascade, 6 - i as u32);
        assert_eq!(p.bind_group, i % 2);
        let size = c.get_cascade_size((64, 48), 6 - i as u32);
        assert_eq!(p.workgroups, (size + 127) / 128);
    }
    assert_eq!(plan.final_buffer, 0);
    assert_eq!(plan.final_workgroups, (4, 3));
    assert_eq!(plan.jfa.workgroups, (4, 3));

    let mut even = RadianceCascades::new((64, 48), "RC".to_string());
    assert!(even.apply_config(RCConfig { num_cascades: 4, ..c }, u32::MAX));
    let plan = even.render((64, 48), (70, 33)).unwrap();
    assert_eq!(plan.passes.len(), 4);
    assert_eq!(plan.passes[3].bind_group, 1);
    assert_eq!(plan.final_buffer, 1);
    assert_eq!(plan.final_workgroups, (5, 3));
}

#[test]
fn cascade_plan_rejects_bad_canvas() {
    let rc = RadianceCascades::new((64, 48), "RC".to_string());
    assert_eq!(rc.render((0, 48), (64, 48)).unwrap_err(), JfaError::EmptyTarget);
    assert_eq!(rc.render((64, 49), (64, 48)).unwrap_err(), JfaError::SizeMismatch);
}
