//! The ray caster: per-column ray marching and perspective projection.
//!
//! For each of `n_rays` evenly spaced angles across the field of view, a ray
//! steps outward from the viewer in whole world-unit increments along
//! `(-sin θ, cos θ)` until it enters a wall cell or exhausts the trace
//! distance. Cell indices are clamped into the grid on both axes, so a ray
//! that leaves the mapped area degrades to reading the boundary row or
//! column instead of faulting — with a fully walled border that clamp is a
//! guaranteed hit. A hit's distance is projected onto the viewer's forward
//! axis to undo fisheye distortion, then turned into a wall-slice height,
//! vertical placement and shade. A ray that hits nothing within the trace
//! distance yields no slice for its column.

use crate::fixed::{
    cos_fp, sin_fp, spec_cos_fp, spec_sin_fp, FP_ONE, HALF_PI_FP, PI_FP,
};
use crate::grid::{Cell, Grid, MAX_GRID_SIDE, MAX_SCREEN};
use crate::viewer::{Viewer, POS_LIMIT};
use vstd::prelude::*;

verus! {

/// Largest accepted ray count.
pub const MAX_RAYS: usize = 65536;

/// Largest accepted trace distance, in whole world units.
pub const MAX_TRACE: i64 = 1048576;

/// Largest accepted wall-scale constant.
pub const MAX_HEIGHT_SCALE: i64 = 0x1_0000_0000;

/// Screen and projection parameters, fixed for a run.
pub struct CastConfig {
    /// Full window width, in pixels; the right half holds the 3D view.
    pub screen_width: i64,
    /// Window height, in pixels.
    pub screen_height: i64,
    /// Total angular width of the view, in fixed-point radians.
    pub fov: i64,
    /// Number of rays, one per projected column.
    pub n_rays: usize,
    /// Trace distance per ray, in whole world units.
    pub max_dist: i64,
    /// Wall-scale constant: projected height is this over the depth.
    pub height_scale: i64,
    /// Small fixed-point offset added to the depth before dividing.
    pub depth_epsilon: i64,
}

impl CastConfig {
    /// Accepted parameter ranges. The field of view must stay under half a
    /// turn so every ray is less than a quarter turn off the forward axis.
    pub open spec fn wf(self) -> bool {
        &&& 1 <= self.screen_width <= 2 * MAX_SCREEN
        &&& 1 <= self.screen_height <= MAX_SCREEN
        &&& 0 <= self.fov <= PI_FP - 1
        &&& 1 <= self.n_rays <= MAX_RAYS
        &&& 1 <= self.max_dist <= MAX_TRACE
        &&& 1 <= self.height_scale <= MAX_HEIGHT_SCALE
        &&& 1 <= self.depth_epsilon <= FP_ONE
    }

    /// Angular distance between consecutive rays.
    pub open spec fn spec_angle_step(self) -> int {
        self.fov as int / self.n_rays as int
    }

    /// Half the field of view, rounded down.
    pub open spec fn spec_half_fov(self) -> int {
        self.fov as int / 2
    }

    /// Pixel width of one projected column, in fixed point.
    pub open spec fn spec_column_scale(self) -> int {
        self.screen_height * FP_ONE / self.n_rays as int
    }
}

/// The sampled absolute angle of one ray: the heading, swept from half the
/// field of view behind it in steps of `spec_angle_step`.
pub open spec fn spec_ray_angle(viewer_angle: int, cfg: CastConfig, i: int) -> int {
    viewer_angle - cfg.spec_half_fov() + i * cfg.spec_angle_step()
}

/// A ray's angular offset from the viewer's forward axis.
pub open spec fn spec_ray_offset(cfg: CastConfig, i: int) -> int {
    cfg.spec_half_fov() - i * cfg.spec_angle_step()
}

/// Every sampled ray lies strictly within a quarter turn of the forward
/// axis, so the fisheye-correction cosine is nonnegative.
pub proof fn lemma_ray_offset_in_quarter(cfg: CastConfig, i: int)
    requires
        cfg.wf(),
        0 <= i < cfg.n_rays,
    ensures
        -(HALF_PI_FP - 1) <= spec_ray_offset(cfg, i) <= HALF_PI_FP - 1,
{
    let fov = cfg.fov as int;
    let n = cfg.n_rays as int;
    let step = cfg.spec_angle_step();
    vstd::arithmetic::div_mod::lemma_fundamental_div_mod(fov, n);
    vstd::arithmetic::div_mod::lemma_mod_bound(fov, n);
    assert(n * step <= fov);
    vstd::arithmetic::mul::lemma_mul_nonnegative(i, step);
    vstd::arithmetic::mul::lemma_mul_inequality(i, n, step);
    assert(i * step <= n * step);
}

/// The grid row or column holding a fixed-point world coordinate: the
/// coordinate divided by the tile size, clamped into the grid on both ends.
pub open spec fn spec_cell_index(coord: int, tile_fp: int, side: int) -> int
    recommends
        tile_fp >= 1,
        side >= 1,
{
    if coord < 0 {
        0
    } else {
        let idx = coord / tile_fp;
        if idx > side - 1 {
            side - 1
        } else {
            idx
        }
    }
}

/// Evaluates `spec_cell_index`; the result always lies inside the grid.
pub fn cell_index(coord: i64, tile_fp: i64, side: usize) -> (idx: usize)
    requires
        1 <= tile_fp,
        1 <= side <= MAX_GRID_SIDE,
    ensures
        idx == spec_cell_index(coord as int, tile_fp as int, side as int),
        idx < side,
{
    if coord < 0 {
        return 0;
    }
    proof {
        vstd::arithmetic::div_mod::lemma_div_pos_is_pos(coord as int, tile_fp as int);
    }
    let idx = coord / tile_fp;
    if idx > (side - 1) as i64 {
        side - 1
    } else {
        idx as usize
    }
}

/// The grid row sampled at step `d` of a ray.
pub open spec fn spec_hit_row(grid: Grid, y: int, dir_y: int, d: int) -> int {
    spec_cell_index(y + d * dir_y, grid.spec_tile_size() * FP_ONE, grid.spec_side())
}

/// The grid column sampled at step `d` of a ray.
pub open spec fn spec_hit_col(grid: Grid, x: int, dir_x: int, d: int) -> int {
    spec_cell_index(x + d * dir_x, grid.spec_tile_size() * FP_ONE, grid.spec_side())
}

/// Whether step `d` of a ray samples a wall cell.
pub open spec fn spec_hit_at(grid: Grid, x: int, y: int, dir_x: int, dir_y: int, d: int) -> bool {
    grid.cell(spec_hit_row(grid, y, dir_y, d), spec_hit_col(grid, x, dir_x, d)) == Cell::Wall
}

/// The first step at or after `d` that samples a wall, if one exists before
/// the trace distance.
pub open spec fn spec_first_hit_from(
    grid: Grid,
    x: int,
    y: int,
    dir_x: int,
    dir_y: int,
    max_dist: int,
    d: int,
) -> Option<int>
    decreases max_dist - d,
{
    if d < 0 || d >= max_dist {
        None
    } else if spec_hit_at(grid, x, y, dir_x, dir_y, d) {
        Some(d)
    } else {
        spec_first_hit_from(grid, x, y, dir_x, dir_y, max_dist, d + 1)
    }
}

/// The first step of a ray that samples a wall, if any.
pub open spec fn spec_first_hit(
    grid: Grid,
    x: int,
    y: int,
    dir_x: int,
    dir_y: int,
    max_dist: int,
) -> Option<int> {
    spec_first_hit_from(grid, x, y, dir_x, dir_y, max_dist, 0)
}

/// Where one ray stopped: the step count, the sampled world point, and the
/// wall cell it landed in.
#[derive(Clone, Copy, PartialEq, Eq, Structural, Debug)]
pub struct RayHit {
    /// Raw step distance from the viewer, in whole world units.
    pub distance: i64,
    /// Sampled world point, fixed point.
    pub world_x: i64,
    /// Sampled world point, fixed point.
    pub world_y: i64,
    /// Grid position of the wall cell that was hit.
    pub row: usize,
    /// Grid position of the wall cell that was hit.
    pub col: usize,
}

/// Marches one ray from `(x, y)` along `(dir_x, dir_y)` in whole-unit steps
/// and returns its first wall hit, or nothing if the trace distance runs out.
///
/// The result is pinned to `spec_first_hit`: a hit is returned exactly when
/// some step before `max_dist` samples a wall, and then the earliest such
/// step is the one reported.
pub fn cast_ray(grid: &Grid, x: i64, y: i64, dir_x: i64, dir_y: i64, max_dist: i64) -> (r: Option<
    RayHit,
>)
    requires
        grid.wf(),
        -POS_LIMIT <= x <= POS_LIMIT,
        -POS_LIMIT <= y <= POS_LIMIT,
        -FP_ONE <= dir_x <= FP_ONE,
        -FP_ONE <= dir_y <= FP_ONE,
        1 <= max_dist <= MAX_TRACE,
    ensures
        match r {
            Some(h) => {
                &&& spec_first_hit(
                    *grid,
                    x as int,
                    y as int,
                    dir_x as int,
                    dir_y as int,
                    max_dist as int,
                ) == Some(h.distance as int)
                &&& 0 <= h.distance < max_dist
                &&& h.world_x == x + h.distance * dir_x
                &&& h.world_y == y + h.distance * dir_y
                &&& h.row == spec_hit_row(*grid, y as int, dir_y as int, h.distance as int)
                &&& h.col == spec_hit_col(*grid, x as int, dir_x as int, h.distance as int)
                &&& h.row < grid.spec_side()
                &&& h.col < grid.spec_side()
                &&& grid.cell(h.row as int, h.col as int) == Cell::Wall
            },
            None => spec_first_hit(
                *grid,
                x as int,
                y as int,
                dir_x as int,
                dir_y as int,
                max_dist as int,
            ) is None,
        },
{
    let side = grid.side();
    let tile_fp = grid.tile_size() * FP_ONE;
    let mut d: i64 = 0;
    while d < max_dist
        invariant
            grid.wf(),
            -POS_LIMIT <= x <= POS_LIMIT,
            -POS_LIMIT <= y <= POS_LIMIT,
            -FP_ONE <= dir_x <= FP_ONE,
            -FP_ONE <= dir_y <= FP_ONE,
            1 <= max_dist <= MAX_TRACE,
            side == grid.spec_side(),
            tile_fp == grid.spec_tile_size() * FP_ONE,
            1 <= tile_fp,
            0 <= d <= max_dist,
            spec_first_hit(
                *grid,
                x as int,
                y as int,
                dir_x as int,
                dir_y as int,
                max_dist as int,
            ) == spec_first_hit_from(
                *grid,
                x as int,
                y as int,
                dir_x as int,
                dir_y as int,
                max_dist as int,
                d as int,
            ),
        decreases max_dist - d,
    {
        proof {
            assert(-(MAX_TRACE * FP_ONE) <= d * dir_x <= MAX_TRACE * FP_ONE) by (nonlinear_arith)
                requires
                    0 <= d <= MAX_TRACE,
                    -FP_ONE <= dir_x <= FP_ONE,
            ;
            assert(-(MAX_TRACE * FP_ONE) <= d * dir_y <= MAX_TRACE * FP_ONE) by (nonlinear_arith)
                requires
                    0 <= d <= MAX_TRACE,
                    -FP_ONE <= dir_y <= FP_ONE,
            ;
        }
        let tx = x + d * dir_x;
        let ty = y + d * dir_y;
        let row = cell_index(ty, tile_fp, side);
        let col = cell_index(tx, tile_fp, side);
        if grid.is_wall(row, col) {
            return Some(RayHit { distance: d, world_x: tx, world_y: ty, row, col });
        }
        d = d + 1;
    }
    None
}

/// Distance shade: `150 / (1 + d^2 / 10000)` rounded to the nearest
/// integer, a cheap fog approximation that starts at 150 and falls toward
/// zero with the square of the raw distance.
pub open spec fn spec_shade(d: int) -> int
    recommends
        d >= 0,
{
    let q = 10000 + d * d;
    (3000000 + q) / (2 * q)
}

/// The shade always lies in `[0, 150]`.
pub proof fn lemma_shade_bounds(d: int)
    requires
        d >= 0,
    ensures
        0 <= spec_shade(d) <= 150,
{
    let q = 10000 + d * d;
    vstd::arithmetic::mul::lemma_mul_nonnegative(d, d);
    vstd::arithmetic::div_mod::lemma_div_pos_is_pos(3000000 + q, 2 * q);
    assert(3000000 + q <= (2 * q) * 151) by (nonlinear_arith)
        requires
            q >= 10000,
    ;
    vstd::arithmetic::div_mod::lemma_multiply_divide_le(3000000 + q, 2 * q, 151);
    if spec_shade(d) == 151 {
        vstd::arithmetic::div_mod::lemma_fundamental_div_mod(3000000 + q, 2 * q);
        vstd::arithmetic::div_mod::lemma_mod_bound(3000000 + q, 2 * q);
        assert((2 * q) * 151 > 3000000 + q) by (nonlinear_arith)
            requires
                q >= 10000,
        ;
    }
}

/// Shading falls monotonically with raw distance: of two hits, the nearer
/// one is never darker.
pub proof fn lemma_shade_monotone(d1: int, d2: int)
    requires
        0 <= d1 <= d2,
    ensures
        spec_shade(d1) >= spec_shade(d2),
{
    let q1 = 10000 + d1 * d1;
    let q2 = 10000 + d2 * d2;
    vstd::arithmetic::mul::lemma_mul_upper_bound(d1, d2, d1, d2);
    vstd::arithmetic::mul::lemma_mul_nonnegative(d1, d1);
    let k = (3000000 + q2) / (2 * q2);
    vstd::arithmetic::div_mod::lemma_div_pos_is_pos(3000000 + q2, 2 * q2);
    vstd::arithmetic::div_mod::lemma_fundamental_div_mod(3000000 + q2, 2 * q2);
    vstd::arithmetic::div_mod::lemma_mod_bound(3000000 + q2, 2 * q2);
    assert((2 * q2) * k <= 3000000 + q2);
    if k >= 1 {
        assert((2 * q1) * k <= 3000000 + q1) by (nonlinear_arith)
            requires
                (2 * q2) * k <= 3000000 + q2,
                10000 <= q1 <= q2,
                k >= 1,
        ;
        vstd::arithmetic::div_mod::lemma_div_is_ordered((2 * q1) * k, 3000000 + q1, 2 * q1);
        vstd::arithmetic::div_mod::lemma_div_multiples_vanish(k, 2 * q1);
    } else {
        vstd::arithmetic::div_mod::lemma_div_pos_is_pos(3000000 + q1, 2 * q1);
    }
}

/// Evaluates `spec_shade`.
pub fn shade_of(d: i64) -> (s: u8)
    requires
        0 <= d <= MAX_TRACE,
    ensures
        s as int == spec_shade(d as int),
        s <= 150,
{
    proof {
        assert(0 <= d * d <= MAX_TRACE * MAX_TRACE) by (nonlinear_arith)
            requires
                0 <= d <= MAX_TRACE,
        ;
        lemma_shade_bounds(d as int);
    }
    let q: i64 = 10000 + d * d;
    ((3000000 + q) / (2 * q)) as u8
}

/// Perpendicular depth of a hit: the raw slant distance projected onto the
/// viewer's forward axis by the cosine of the ray's angular offset. The
/// result is in fixed point.
pub open spec fn spec_perp_depth(d: int, cos_off: int) -> int {
    d * cos_off
}

/// Evaluates `spec_perp_depth` for a ray within a quarter turn of the
/// forward axis.
pub fn perp_depth(d: i64, cos_off: i64) -> (p: i64)
    requires
        0 <= d <= MAX_TRACE,
        0 <= cos_off <= FP_ONE,
    ensures
        p == spec_perp_depth(d as int, cos_off as int),
        0 <= p <= MAX_TRACE * FP_ONE,
{
    proof {
        assert(0 <= d * cos_off <= MAX_TRACE * FP_ONE) by (nonlinear_arith)
            requires
                0 <= d <= MAX_TRACE,
                0 <= cos_off <= FP_ONE,
        ;
    }
    d * cos_off
}

/// Projected wall-slice height: the scale constant over the perpendicular
/// depth plus a small epsilon, rounded up, and clamped to the screen
/// height. Rounding up keeps every finite hit visible: the height is
/// strictly positive however far the wall is.
pub open spec fn spec_wall_height(perp: int, scale: int, eps: int, screen_h: int) -> int
    recommends
        perp >= 0,
        scale >= 1,
        eps >= 1,
        screen_h >= 1,
{
    let den = perp + eps;
    let h = (scale * FP_ONE + den - 1) / den;
    if h > screen_h {
        screen_h
    } else {
        h
    }
}

/// The projected height never exceeds the screen height and is strictly
/// positive for every depth.
pub proof fn lemma_wall_height_bounds(perp: int, scale: int, eps: int, screen_h: int)
    requires
        perp >= 0,
        scale >= 1,
        eps >= 1,
        screen_h >= 1,
    ensures
        1 <= spec_wall_height(perp, scale, eps, screen_h) <= screen_h,
{
    let den = perp + eps;
    let num = scale * FP_ONE + den - 1;
    assert(num >= den);
    vstd::arithmetic::div_mod::lemma_div_is_ordered(den, num, den);
    vstd::arithmetic::div_mod::lemma_div_by_self(den);
}

/// Evaluates `spec_wall_height`.
pub fn wall_height(perp: i64, scale: i64, eps: i64, screen_h: i64) -> (h: i64)
    requires
        0 <= perp <= MAX_TRACE * FP_ONE,
        1 <= scale <= MAX_HEIGHT_SCALE,
        1 <= eps <= FP_ONE,
        1 <= screen_h <= MAX_SCREEN,
    ensures
        h == spec_wall_height(perp as int, scale as int, eps as int, screen_h as int),
        1 <= h <= screen_h,
{
    proof {
        lemma_wall_height_bounds(perp as int, scale as int, eps as int, screen_h as int);
    }
    let den = perp + eps;
    let h = (scale * FP_ONE + den - 1) / den;
    if h > screen_h {
        screen_h
    } else {
        h
    }
}

/// Top pixel row of a wall slice: vertically centered on the horizon.
pub open spec fn spec_top_y(height: int, screen_h: int) -> int {
    screen_h / 2 - height / 2
}

/// Evaluates `spec_top_y`.
pub fn top_y(height: i64, screen_h: i64) -> (t: i64)
    requires
        1 <= height <= screen_h,
        1 <= screen_h <= MAX_SCREEN,
    ensures
        t == spec_top_y(height as int, screen_h as int),
        0 <= t <= screen_h / 2,
{
    screen_h / 2 - height / 2
}

/// Horizontal pixel position of a ray's projected column: the right half
/// of the window, advanced one fixed-point column width per ray.
pub open spec fn spec_column_x(cfg: CastConfig, i: int) -> int {
    cfg.screen_width as int / 2 + (i * cfg.spec_column_scale()) / (FP_ONE as int)
}

/// Evaluates `spec_column_x`.
pub fn column_x(cfg: &CastConfig, i: usize) -> (x: i64)
    requires
        cfg.wf(),
        i < cfg.n_rays,
    ensures
        x == spec_column_x(*cfg, i as int),
        0 <= x <= 2 * MAX_SCREEN + MAX_SCREEN * FP_ONE,
{
    let scale_fp = (cfg.screen_height * FP_ONE) / (cfg.n_rays as i64);
    proof {
        vstd::arithmetic::div_mod::lemma_div_pos_is_pos(
            cfg.screen_height * FP_ONE,
            cfg.n_rays as int,
        );
        vstd::arithmetic::div_mod::lemma_div_nonincreasing(
            cfg.screen_height * FP_ONE,
            cfg.n_rays as int,
        );
        assert(0 <= i * scale_fp <= MAX_RAYS * (MAX_SCREEN * FP_ONE)) by (nonlinear_arith)
            requires
                0 <= i <= MAX_RAYS,
                0 <= scale_fp <= MAX_SCREEN * FP_ONE,
        ;
        vstd::arithmetic::div_mod::lemma_div_pos_is_pos(i * scale_fp, FP_ONE as int);
        vstd::arithmetic::div_mod::lemma_div_is_ordered(
            i * scale_fp,
            MAX_RAYS * (MAX_SCREEN * FP_ONE),
            FP_ONE as int,
        );
    }
    cfg.screen_width / 2 + ((i as i64) * scale_fp) / FP_ONE
}

/// One projected wall slice: everything the renderer needs to draw the
/// column for one ray, plus the raw hit data behind it.
#[derive(Clone, Copy, PartialEq, Eq, Structural, Debug)]
pub struct WallSlice {
    /// Index of the ray, left to right across the field of view.
    pub ray_index: usize,
    /// Horizontal pixel position of the column.
    pub screen_x: i64,
    /// World point where the ray stopped, fixed point.
    pub hit_world_x: i64,
    /// World point where the ray stopped, fixed point.
    pub hit_world_y: i64,
    /// Grid position of the wall cell that was hit.
    pub hit_row: usize,
    /// Grid position of the wall cell that was hit.
    pub hit_col: usize,
    /// Raw step distance from the viewer, whole world units.
    pub raw_distance: i64,
    /// Fisheye-corrected depth, fixed point.
    pub perp_depth: i64,
    /// Grayscale shade in `[0, 150]`.
    pub shade: u8,
    /// Projected slice height, pixels.
    pub height: i64,
    /// Top pixel row of the slice.
    pub top_y: i64,
}

/// The slice one ray produces, if it hits a wall within the trace distance.
pub open spec fn spec_ray_slice(grid: Grid, v: Viewer, cfg: CastConfig, i: int) -> Option<
    WallSlice,
> {
    let theta = spec_ray_angle(v.angle as int, cfg, i);
    let dx = -spec_sin_fp(theta);
    let dy = spec_cos_fp(theta);
    match spec_first_hit(grid, v.x as int, v.y as int, dx, dy, cfg.max_dist as int) {
        Some(d) => {
            let cos_off = spec_cos_fp(spec_ray_offset(cfg, i));
            let perp = spec_perp_depth(d, cos_off);
            let h = spec_wall_height(
                perp,
                cfg.height_scale as int,
                cfg.depth_epsilon as int,
                cfg.screen_height as int,
            );
            Some(
                WallSlice {
                    ray_index: i as usize,
                    screen_x: spec_column_x(cfg, i) as i64,
                    hit_world_x: (v.x + d * dx) as i64,
                    hit_world_y: (v.y + d * dy) as i64,
                    hit_row: spec_hit_row(grid, v.y as int, dy, d) as usize,
                    hit_col: spec_hit_col(grid, v.x as int, dx, d) as usize,
                    raw_distance: d as i64,
                    perp_depth: perp as i64,
                    shade: spec_shade(d) as u8,
                    height: h as i64,
                    top_y: spec_top_y(h, cfg.screen_height as int) as i64,
                },
            )
        },
        None => None,
    }
}

/// Casts one ray per column and returns the slices in ray order.
///
/// The result has exactly `cfg.n_rays` entries, and entry `i` is pinned to
/// `spec_ray_slice` of ray `i`: a function of the pose, the grid and the
/// configuration alone, so repeated casts from equal inputs are equal.
pub fn cast_rays(grid: &Grid, viewer: &Viewer, cfg: &CastConfig) -> (r: Vec<Option<WallSlice>>)
    requires
        grid.wf(),
        viewer.wf(),
        cfg.wf(),
    ensures
        r@.len() == cfg.n_rays,
        forall|i: int|
            0 <= i < cfg.n_rays ==> r@[i] == spec_ray_slice(*grid, *viewer, *cfg, i),
{
    let mut out: Vec<Option<WallSlice>> = Vec::new();
    let step = cfg.fov / (cfg.n_rays as i64);
    let half_fov = cfg.fov / 2;
    proof {
        vstd::arithmetic::div_mod::lemma_div_pos_is_pos(cfg.fov as int, cfg.n_rays as int);
        vstd::arithmetic::div_mod::lemma_div_nonincreasing(cfg.fov as int, cfg.n_rays as int);
    }
    let mut i: usize = 0;
    while i < cfg.n_rays
        invariant
            grid.wf(),
            viewer.wf(),
            cfg.wf(),
            step == cfg.spec_angle_step(),
            0 <= step <= PI_FP,
            half_fov == cfg.spec_half_fov(),
            0 <= half_fov <= HALF_PI_FP,
            i <= cfg.n_rays,
            out@.len() == i,
            forall|j: int| 0 <= j < i ==> out@[j] == spec_ray_slice(*grid, *viewer, *cfg, j),
        decreases cfg.n_rays - i,
    {
        proof {
            assert(0 <= (i as int) * step <= MAX_RAYS * PI_FP) by (nonlinear_arith)
                requires
                    0 <= i <= MAX_RAYS,
                    0 <= step <= PI_FP,
            ;
        }
        let theta = viewer.angle - half_fov + (i as i64) * step;
        let dir_x = -sin_fp(theta);
        let dir_y = cos_fp(theta);
        let hit = cast_ray(grid, viewer.x, viewer.y, dir_x, dir_y, cfg.max_dist);
        match hit {
            Some(h) => {
                let off = half_fov - (i as i64) * step;
                proof {
                    lemma_ray_offset_in_quarter(*cfg, i as int);
                    crate::fixed::lemma_cos_quarter_nonneg(off as int);
                }
                let cos_off = cos_fp(off);
                let perp = perp_depth(h.distance, cos_off);
                let sh = shade_of(h.distance);
                let hgt = wall_height(perp, cfg.height_scale, cfg.depth_epsilon, cfg.screen_height);
                let ty = top_y(hgt, cfg.screen_height);
                let sx = column_x(cfg, i);
                let slice = WallSlice {
                    ray_index: i,
                    screen_x: sx,
                    hit_world_x: h.world_x,
                    hit_world_y: h.world_y,
                    hit_row: h.row,
                    hit_col: h.col,
                    raw_distance: h.distance,
                    perp_depth: perp,
                    shade: sh,
                    height: hgt,
                    top_y: ty,
                };
                proof {
                    lemma_shade_bounds(h.distance as int);
                    assert(spec_ray_slice(*grid, *viewer, *cfg, i as int) == Some(slice));
                }
                out.push(Some(slice));
            },
            None => {
                proof {
                    assert(spec_ray_slice(*grid, *viewer, *cfg, i as int) is None);
                }
                out.push(None);
            },
        }
        i = i + 1;
    }
    out
}

/// Casting is deterministic: two slice sequences pinned to the same pose,
/// grid and configuration are equal.
pub proof fn lemma_cast_deterministic(
    grid: Grid,
    v: Viewer,
    cfg: CastConfig,
    r1: Seq<Option<WallSlice>>,
    r2: Seq<Option<WallSlice>>,
)
    requires
        r1.len() == cfg.n_rays,
        forall|i: int| 0 <= i < cfg.n_rays ==> r1[i] == spec_ray_slice(grid, v, cfg, i),
        r2.len() == cfg.n_rays,
        forall|i: int| 0 <= i < cfg.n_rays ==> r2[i] == spec_ray_slice(grid, v, cfg, i),
    ensures
        r1 == r2,
{
    assert(r1 =~= r2);
}

/// Fisheye correction vanishes on the forward axis: a ray at zero angular
/// offset keeps its raw distance as perpendicular depth (in fixed point,
/// since the cosine of zero is exactly one).
pub proof fn lemma_fisheye_center(d: int)
    requires
        0 <= d,
    ensures
        spec_perp_depth(d, spec_cos_fp(0)) == d * FP_ONE,
{
    crate::fixed::lemma_cos_zero();
}

/// A wall is found at or before any step whose sample point leaves the
/// grid's open interior, provided the border is fully walled.
proof fn lemma_first_hit_from_bounded(
    grid: Grid,
    x: int,
    y: int,
    dir_x: int,
    dir_y: int,
    max_dist: int,
    j: int,
    d: int,
)
    requires
        0 <= j <= d < max_dist,
        spec_hit_at(grid, x, y, dir_x, dir_y, d),
    ensures
        spec_first_hit_from(grid, x, y, dir_x, dir_y, max_dist, j) is Some,
        spec_first_hit_from(grid, x, y, dir_x, dir_y, max_dist, j)->0 <= d,
    decreases d - j,
{
    if !spec_hit_at(grid, x, y, dir_x, dir_y, j) {
        lemma_first_hit_from_bounded(grid, x, y, dir_x, dir_y, max_dist, j + 1, d);
    }
}

/// The world region over the grid's open interior: every sample point
/// outside it is clamped onto the border row or column.
pub open spec fn spec_point_in_interior(grid: Grid, px: int, py: int) -> bool {
    let tile_fp = grid.spec_tile_size() * FP_ONE;
    let side = grid.spec_side();
    &&& tile_fp <= px < (side - 1) * tile_fp
    &&& tile_fp <= py < (side - 1) * tile_fp
}

/// Boundary safety: on a grid whose border is entirely walls, a ray whose
/// sample point at some step has left the open interior hits a wall at or
/// before that step — the trace terminates and, as `cell_index` shows,
/// no lookup ever leaves the grid.
pub proof fn lemma_boundary_hit(
    grid: Grid,
    x: int,
    y: int,
    dir_x: int,
    dir_y: int,
    max_dist: int,
    d: int,
)
    requires
        grid.wf(),
        grid.border_walled(),
        0 <= d < max_dist,
        !spec_point_in_interior(grid, x + d * dir_x, y + d * dir_y),
    ensures
        spec_first_hit(grid, x, y, dir_x, dir_y, max_dist) is Some,
        spec_first_hit(grid, x, y, dir_x, dir_y, max_dist)->0 <= d,
{
    let tile_fp = grid.spec_tile_size() * FP_ONE;
    let side = grid.spec_side();
    let px = x + d * dir_x;
    let py = y + d * dir_y;
    let row = spec_cell_index(py, tile_fp, side);
    let col = spec_cell_index(px, tile_fp, side);
    lemma_cell_index_range(py, tile_fp, side);
    lemma_cell_index_range(px, tile_fp, side);
    if px < tile_fp {
        if px >= 0 {
            vstd::arithmetic::div_mod::lemma_basic_div(px, tile_fp);
        }
        assert(col == 0);
    } else if px >= (side - 1) * tile_fp {
        lemma_cell_index_clamps_high(px, tile_fp, side);
        assert(col == side - 1);
    } else if py < tile_fp {
        if py >= 0 {
            vstd::arithmetic::div_mod::lemma_basic_div(py, tile_fp);
        }
        assert(row == 0);
    } else {
        lemma_cell_index_clamps_high(py, tile_fp, side);
        assert(row == side - 1);
    }
    assert(spec_hit_at(grid, x, y, dir_x, dir_y, d));
    lemma_first_hit_from_bounded(grid, x, y, dir_x, dir_y, max_dist, 0, d);
}

/// The clamped cell index always lies inside the grid.
pub proof fn lemma_cell_index_range(coord: int, tile_fp: int, side: int)
    requires
        tile_fp >= 1,
        side >= 1,
    ensures
        0 <= spec_cell_index(coord, tile_fp, side) < side,
{
    if coord >= 0 {
        vstd::arithmetic::div_mod::lemma_div_pos_is_pos(coord, tile_fp);
    }
}

/// A coordinate at or past the last tile boundary clamps to the last index.
proof fn lemma_cell_index_clamps_high(coord: int, tile_fp: int, side: int)
    requires
        tile_fp >= 1,
        side >= 1,
        coord >= (side - 1) * tile_fp,
    ensures
        spec_cell_index(coord, tile_fp, side) == side - 1,
{
    vstd::arithmetic::mul::lemma_mul_nonnegative(side - 1, tile_fp);
    vstd::arithmetic::div_mod::lemma_div_is_ordered((side - 1) * tile_fp, coord, tile_fp);
    vstd::arithmetic::div_mod::lemma_div_multiples_vanish(side - 1, tile_fp);
    vstd::arithmetic::mul::lemma_mul_is_commutative(side - 1, tile_fp);
}

/// Turning the viewer by exactly one angle step slides the sampled angles
/// along by one ray: ray `i` after the turn aims where ray `i + 1` aimed
/// before, and the spacing between consecutive rays stays one step.
pub proof fn lemma_rotation_shifts_sampling(viewer_angle: int, cfg: CastConfig, i: int)
    requires
        0 <= i,
    ensures
        spec_ray_angle(viewer_angle + cfg.spec_angle_step(), cfg, i) == spec_ray_angle(
            viewer_angle,
            cfg,
            i + 1,
        ),
        spec_ray_angle(viewer_angle, cfg, i + 1) - spec_ray_angle(viewer_angle, cfg, i)
            == cfg.spec_angle_step(),
{
    let s = cfg.spec_angle_step();
    assert((i + 1) * s == i * s + s) by (nonlinear_arith);
}

} // verus!
