use radiance_gi::flood::jump_flood;
use radiance_gi::flood::propagate_pass;
use radiance_gi::flood::resolve_pass;
use radiance_gi::flood::seed_pass;
use radiance_gi::jfa::JfaError;

fn single_seed(w: u32, h: u32, x0: u32, y0: u32) -> Vec<bool> {
    let mut occ = vec![false; (w * h) as usize];
    occ[(y0 * w + x0) as usize] = true;
    occ
}

fn check_single_seed(w: u32, h: u32, x0: u32, y0: u32) {
    let d = jump_flood(&single_seed(w, h, x0, y0), w, h).unwrap();
    assert_eq!(d.len(), (w * h) as usize);
    for y in 0..h {
        for x in 0..w {
            let got = d[(y * w + x) as usize].expect("every texel reached");
            assert_exact(got, x, y, x0, y0);
        }
    }
}

fn assert_exact(got: u128, x: u32, y: u32, x0: u32, y0: u32) {
    {
        {
            let dx = x as f64 - x0 as f64;
            let dy = y as f64 - y0 as f64;
            let exact = (dx * dx + dy * dy).sqrt();
            assert!(((got as f64).sqrt() - exact).abs() <= 1.0);
            assert_eq!(got, (dx * dx + dy * dy) as u128);
        }
    }
}

#[test]
fn single_seed_square_corners() {
    for (x0, y0) in [(0, 0), (63, 0), (0, 63), (63, 63), (5, 40)] {
        check_single_seed(64, 64, x0, y0);
    }
}

#[test]
fn single_seed_center_of_64_misses_first_row_and_column() {
    let d = jump_flood(&single_seed(64, 64, 32, 32), 64, 64).unwrap();
    for y in 0..64u32 {
        for x in 0..64u32 {
            match d[(y * 64 + x) as usize] {
                Some(got) => assert_exact(got, x, y, 32, 32),
                None => assert!(x == 0 || y == 0),
            }
        }
    }
    assert_eq!(d[0], None);
    assert_eq!(d[(63 * 64 + 63) as usize], Some(31 * 31 * 2));
}

#[test]
fn single_seed_non_power_of_two() {
    for (x0, y0) in [(0, 0), (99, 59), (99, 0)] {
        check_single_seed(100, 60, x0, y0);
    }
    for (x0, y0) in [(0, 0), (36, 22), (18, 11)] {
        check_single_seed(37, 23, x0, y0);
    }
}

#[test]
fn single_seed_scenario_256() {
    check_single_seed(256, 256, 128, 128);
}

#[test]
fn narrow_strip_leaves_far_edge_unreached() {
    // Steps 7, 3, 1, 1 cover offsets up to 5 from the left edge only.
    let d = jump_flood(&single_seed(7, 1, 0, 0), 7, 1).unwrap();
    assert_eq!(d[5], Some(25));
    assert_eq!(d[6], None);
    let d = jump_flood(&single_seed(7, 1, 3, 0), 7, 1).unwrap();
    assert!(d.iter().enumerate().all(|(x, v)| *v == Some(((x as i64 - 3) * (x as i64 - 3)) as u128)));
}

#[test]
fn empty_canvas_resolves_to_nothing() {
    let d = jump_flood(&vec![false; 12], 4, 3).unwrap();
    assert!(d.iter().all(|v| v.is_none()));
    assert_eq!(jump_flood(&vec![], 0, 5).unwrap_err(), JfaError::EmptyTarget);
    assert_eq!(jump_flood(&vec![], 5, 0).unwrap_err(), JfaError::EmptyTarget);
}

#[test]
fn two_seeds_resolve_to_a_seed_distance() {
    let (w, h) = (48u32, 40u32);
    let seeds = [(3u32, 5u32), (40u32, 33u32)];
    let mut occ = vec![false; (w * h) as usize];
    for (x, y) in seeds {
        occ[(y * w + x) as usize] = true;
    }
    let d = jump_flood(&occ, w, h).unwrap();
    assert_eq!(d[(5 * w + 3) as usize], Some(0));
    assert_eq!(d[(33 * w + 40) as usize], Some(0));
    for y in 0..h {
        for x in 0..w {
            let exact = seeds
                .iter()
                .map(|&(sx, sy)| ((x as f64 - sx as f64).powi(2) + (y as f64 - sy as f64).powi(2)).sqrt())
                .fold(f64::INFINITY, f64::min);
            let got = match d[(y * w + x) as usize] {
                Some(v) => v,
                None => continue,
            };
            assert!(seeds.iter().any(|&(sx, sy)| {
                let dx = x as i64 - sx as i64;
                let dy = y as i64 - sy as i64;
                got == (dx * dx + dy * dy) as u128
            }));
            assert!((got as f64).sqrt() >= exact - 1e-9);
        }
    }
}

#[test]
fn passes_step_by_step() {
    let occ = single_seed(3, 2, 2, 1);
    let g = seed_pass(&occ, 3, 2);
    assert_eq!(g, vec![None, None, None, None, None, Some((2, 1))]);
    let g = propagate_pass(&g, 3, 2, 1);
    assert_eq!(
        g,
        vec![None, Some((2, 1)), Some((2, 1)), None, Some((2, 1)), Some((2, 1))]
    );
    let g = propagate_pass(&g, 3, 2, 1);
    assert!(g.iter().all(|s| *s == Some((2, 1))));
    let r = resolve_pass(&g, 3, 2);
    assert_eq!(r, vec![Some(5), Some(2), Some(1), Some(4), Some(1), Some(0)]);
}

#[test]
fn propagation_prefers_nearer_seed() {
    let mut occ = vec![false; 5];
    occ[0] = true;
    occ[4] = true;
    let g = seed_pass(&occ, 5, 1);
    let g = propagate_pass(&g, 5, 1, 1);
    assert_eq!(g, vec![Some((0, 0)), Some((0, 0)), None, Some((4, 0)), Some((4, 0))]);
    let g = propagate_pass(&g, 5, 1, 1);
    assert_eq!(g[2], Some((0, 0)));
    let g = propagate_pass(&g, 5, 1, 2);
    assert_eq!(g[0], Some((0, 0)));
    assert_eq!(g[4], Some((4, 0)));
}

#[test]
fn single_seed_corners_512() {
    for (x0, y0) in [(0, 0), (511, 0), (0, 511), (511, 511)] {
        let d = jump_flood(&single_seed(512, 512, x0, y0), 512, 512).unwrap();
        assert!(d.iter().all(|v| v.is_some()));
        let far = (if x0 == 0 { 511 } else { 0 }, if y0 == 0 { 511 } else { 0 });
        let got = d[(far.1 * 512 + far.0) as usize].unwrap();
        assert_eq!(got, 511 * 511 * 2);
        assert!(((got as f64).sqrt() - 722.66).abs() <= 1.0);
        assert_eq!(d[(y0 * 512 + x0) as usize], Some(0));
    }
}

#[test]
fn single_seed_center_256_examples() {
    let d = jump_flood(&single_seed(256, 256, 128, 128), 256, 256).unwrap();
    assert!(((d[0].unwrap() as f64).sqrt() - 181.02).abs() <= 1.0);
    assert_eq!(d[128 * 256 + 255], Some(127 * 127));
}
