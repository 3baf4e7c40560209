use raycaster::caster::{cast_ray, cast_rays, perp_depth, wall_height, CastConfig};
use raycaster::fixed::{cos_fp, sin_fp, FP_ONE};
use raycaster::grid::Grid;
use raycaster::viewer::Viewer;

fn room(side: usize) -> Vec<Vec<i32>> {
    let mut rows = Vec::new();
    for r in 0..side {
        let mut row = Vec::new();
        for c in 0..side {
            let border = r == 0 || c == 0 || r == side - 1 || c == side - 1;
            row.push(if border { 1 } else { 0 });
        }
        rows.push(row);
    }
    rows
}

#[test]
fn center_ray_in_tiny_room_hits_adjacent_wall() {
    // A 3-by-3 grid: walls all around, one open cell in the middle. The
    // viewer stands at the exact center and casts straight along its
    // forward axis (heading zero, direction (0, 1)).
    let g = Grid::new(&room(3), 300).expect("valid layout");
    assert_eq!(g.tile_size(), 100);
    let x = 150 * FP_ONE;
    let y = 150 * FP_ONE;
    let dir_x = -sin_fp(0);
    let dir_y = cos_fp(0);
    assert_eq!((dir_x, dir_y), (0, FP_ONE));
    let hit = cast_ray(&g, x, y, dir_x, dir_y, 400).expect("wall one tile over");
    // The wall cell one tile along the axis, entered at the cell boundary
    // half a tile from the center.
    assert_eq!((hit.row, hit.col), (2, 1));
    assert_eq!(hit.distance, 50);
    assert_eq!(hit.world_x, x);
    assert_eq!(hit.world_y, 200 * FP_ONE);
    // On the forward axis the fisheye correction is the identity.
    assert_eq!(perp_depth(hit.distance, cos_fp(0)), hit.distance * FP_ONE);
}

#[test]
fn farther_walls_project_shorter_slices() {
    // The same corridor seen from five tiles away and from two tiles
    // away; all else equal, farther must come out strictly smaller.
    let g = Grid::new(&room(12), 600).expect("valid layout");
    assert_eq!(g.tile_size(), 50);
    let dir_y = cos_fp(0);
    let near = cast_ray(&g, 300 * FP_ONE, 450 * FP_ONE, 0, dir_y, 1000).expect("hit");
    let far = cast_ray(&g, 300 * FP_ONE, 300 * FP_ONE, 0, dir_y, 1000).expect("hit");
    assert_eq!(near.distance, 100);
    assert_eq!(far.distance, 250);
    let h_near = wall_height(perp_depth(near.distance, cos_fp(0)), 21000, 7, 600);
    let h_far = wall_height(perp_depth(far.distance, cos_fp(0)), 21000, 7, 600);
    assert_eq!(h_near, 210);
    assert_eq!(h_far, 84);
    assert!(h_far < h_near);
}

#[test]
fn turning_one_step_shifts_the_sampling_by_one_ray() {
    // After turning by exactly one angle step, ray i aims where ray i+1
    // aimed before: the hits slide along by one column, and the spacing
    // between consecutive sampled angles is unchanged.
    let cfg = CastConfig {
        screen_width: 1000,
        screen_height: 500,
        fov: 68629,
        n_rays: 250,
        max_dist: 500,
        height_scale: 21000,
        depth_epsilon: 7,
    };
    let step = cfg.fov / (cfg.n_rays as i64);
    let g = Grid::new(&room(10), 500).expect("valid layout");
    let v1 = Viewer::new(250 * FP_ONE, 250 * FP_ONE, 0);
    let v2 = Viewer::new(250 * FP_ONE, 250 * FP_ONE, step);
    let before = cast_rays(&g, &v1, &cfg);
    let after = cast_rays(&g, &v2, &cfg);
    for i in 0..cfg.n_rays - 1 {
        let a = after[i].as_ref().expect("closed room: every ray hits");
        let b = before[i + 1].as_ref().expect("closed room: every ray hits");
        assert_eq!(a.raw_distance, b.raw_distance);
        assert_eq!(a.hit_world_x, b.hit_world_x);
        assert_eq!(a.hit_world_y, b.hit_world_y);
        assert_eq!((a.hit_row, a.hit_col), (b.hit_row, b.hit_col));
        assert_eq!(a.shade, b.shade);
    }
}
