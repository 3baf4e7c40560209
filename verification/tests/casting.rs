use raycaster::caster::{
    cast_ray, cast_rays, column_x, perp_depth, shade_of, top_y, wall_height, CastConfig,
};
use raycaster::fixed::{cos_fp, FP_ONE};
use raycaster::grid::Grid;
use raycaster::viewer::Viewer;

fn room(side: usize) -> Vec<Vec<i32>> {
    let mut rows = Vec::new();
    for r in 0..side {
        let mut row = Vec::new();
        for c in 0..side {
            let border = r == 0 || c == 0 || r == side - 1 || c == side - 1;
            row.push(if border { 1 } else { 0 });
        }
        rows.push(row);
    }
    rows
}

fn classic_config() -> CastConfig {
    CastConfig {
        screen_width: 1000,
        screen_height: 500,
        fov: 68629, // pi / 3 in fixed point
        n_rays: 250,
        max_dist: 500,
        height_scale: 21000,
        depth_epsilon: 7,
    }
}

#[test]
fn shade_has_exact_values() {
    assert_eq!(shade_of(0), 150);
    assert_eq!(shade_of(50), 120);
    assert_eq!(shade_of(100), 75);
    assert_eq!(shade_of(150), 46);
    assert_eq!(shade_of(200), 30);
    assert_eq!(shade_of(1000), 1);
}

#[test]
fn shade_never_increases_with_distance() {
    let mut prev = shade_of(0);
    for d in 1..600 {
        let s = shade_of(d);
        assert!(s <= prev, "shade rose from {prev} to {s} at distance {d}");
        prev = s;
    }
}

#[test]
fn wall_height_has_exact_values() {
    assert_eq!(wall_height(150 * FP_ONE, 21000, 7, 500), 140);
    assert_eq!(wall_height(50 * FP_ONE, 21000, 7, 500), 420);
}

#[test]
fn wall_height_clamps_to_screen_and_stays_positive() {
    // A wall at the viewer's feet fills the whole column.
    assert_eq!(wall_height(2 * FP_ONE, 21000, 7, 500), 500);
    assert_eq!(wall_height(0, 21000, 7, 500), 500);
    // Even the farthest admissible wall keeps one visible pixel.
    assert_eq!(wall_height(1048576 * FP_ONE, 21000, 7, 500), 1);
}

#[test]
fn top_y_centers_on_horizon() {
    assert_eq!(top_y(140, 500), 180);
    assert_eq!(top_y(420, 500), 40);
    assert_eq!(top_y(500, 500), 0);
}

#[test]
fn columns_fill_the_right_half_screen() {
    let cfg = classic_config();
    assert_eq!(column_x(&cfg, 0), 500);
    assert_eq!(column_x(&cfg, 1), 502);
    assert_eq!(column_x(&cfg, 249), 998);
}

#[test]
fn perpendicular_depth_on_axis_is_raw_distance() {
    let on_axis = cos_fp(0);
    for d in [0i64, 1, 50, 150, 500] {
        assert_eq!(perp_depth(d, on_axis), d * FP_ONE);
    }
}

#[test]
fn ray_count_invariant_holds_with_and_without_hits() {
    let cfg = classic_config();
    let g = Grid::new(&room(10), 500).expect("valid layout");
    let v = Viewer::new(250 * FP_ONE, 250 * FP_ONE, 0);
    let slices = cast_rays(&g, &v, &cfg);
    assert_eq!(slices.len(), cfg.n_rays);
    assert!(slices.iter().all(|s| s.is_some()));

    // An unwalled world with a short trace: every ray misses, the count
    // still holds, and each miss yields no slice.
    let open: Vec<Vec<i32>> = vec![vec![0; 10]; 10];
    let g2 = Grid::new(&open, 500).expect("valid layout");
    let short = CastConfig { max_dist: 4, ..classic_config() };
    let slices2 = cast_rays(&g2, &v, &short);
    assert_eq!(slices2.len(), short.n_rays);
    assert!(slices2.iter().all(|s| s.is_none()));
}

#[test]
fn casting_is_deterministic() {
    let cfg = classic_config();
    let g = Grid::new(&room(10), 500).expect("valid layout");
    let v = Viewer::new(220 * FP_ONE, 260 * FP_ONE, 123456);
    let first = cast_rays(&g, &v, &cfg);
    let second = cast_rays(&g, &v, &cfg);
    assert_eq!(first, second);
}

#[test]
fn slices_arrive_in_ray_order() {
    let cfg = classic_config();
    let g = Grid::new(&room(10), 500).expect("valid layout");
    let v = Viewer::new(250 * FP_ONE, 250 * FP_ONE, 98765);
    let slices = cast_rays(&g, &v, &cfg);
    for (i, s) in slices.iter().enumerate() {
        let s = s.as_ref().expect("closed room: every ray hits");
        assert_eq!(s.ray_index, i);
    }
}

#[test]
fn boundary_rays_terminate_inside_the_grid() {
    let g = Grid::new(&room(10), 500).expect("valid layout");
    assert!(g.check_border_walled());
    let x = 250 * FP_ONE;
    let y = 250 * FP_ONE;
    let dirs = [
        (0, FP_ONE),
        (0, -FP_ONE),
        (FP_ONE, 0),
        (-FP_ONE, 0),
        (FP_ONE, FP_ONE),
        (FP_ONE, -FP_ONE),
        (-FP_ONE, FP_ONE),
        (-FP_ONE, -FP_ONE),
        (FP_ONE / 3, -FP_ONE),
        (-FP_ONE, FP_ONE / 7),
    ];
    for (dx, dy) in dirs {
        let hit = cast_ray(&g, x, y, dx, dy, 1000).expect("walled border stops every ray");
        assert!(hit.row < 10 && hit.col < 10);
        assert!(g.is_wall(hit.row, hit.col));
        // Well under the diagonal of the mapped area.
        assert!(hit.distance <= 708, "distance {}", hit.distance);
    }
}

#[test]
fn shade_and_depth_are_wired_into_slices() {
    // A slice's shade and perpendicular depth must come from its own raw
    // distance, not from a constant or from its neighbours'.
    let cfg = classic_config();
    let g = Grid::new(&room(10), 500).expect("valid layout");
    let v = Viewer::new(150 * FP_ONE, 150 * FP_ONE, 300000);
    let slices = cast_rays(&g, &v, &cfg);
    let mut seen_distances = std::collections::HashSet::new();
    for s in slices.iter() {
        let s = s.as_ref().expect("closed room: every ray hits");
        assert_eq!(s.shade, shade_of(s.raw_distance));
        assert!(s.perp_depth <= s.raw_distance * FP_ONE);
        assert!(1 <= s.height && s.height <= cfg.screen_height);
        assert_eq!(s.top_y, top_y(s.height, cfg.screen_height));
        seen_distances.insert(s.raw_distance);
    }
    assert!(seen_distances.len() > 1, "a sweep across a room sees varied depths");
}
