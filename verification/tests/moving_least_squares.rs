//! The deformation and the warpers with single precision arithmetic.

use moving_least_squares_image::{
    bilinear, deform, reverse_dense, reverse_sparse, BilinearWeights, CanLinearInterpolate, Color,
    Corners, Raster, WarpError,
};

type Point = (f32, f32);

#[derive(Clone, Copy)]
struct Mat2 {
    m11: f32,
    m21: f32,
    m12: f32,
    m22: f32,
}

/// One channel of a pixel as a continuous value.
#[derive(Clone, Copy, Debug, PartialEq)]
struct Lane(f32);

type Lanes = (Lane, Lane, Lane);

impl CanLinearInterpolate<Lane, u8> for u8 {
    fn into_vector(self) -> Lane {
        Lane(self as f32)
    }

    fn from_vector(v: Lane) -> u8 {
        v.0.max(0.0).min(u8::MAX as f32).round() as u8
    }
}

fn add(a: Point, b: Point) -> Point {
    (a.0 + b.0, a.1 + b.1)
}

fn sub(a: Point, b: Point) -> Point {
    (a.0 - b.0, a.1 - b.1)
}

fn scale(s: f32, a: Point) -> Point {
    (s * a.0, s * a.1)
}

fn dot(a: Point, b: Point) -> f32 {
    a.0 * b.0 + a.1 * b.1
}

fn sqr_norm(a: Point) -> f32 {
    dot(a, a)
}

fn times_transpose(a: Point, b: Point) -> Mat2 {
    Mat2 { m11: a.0 * b.0, m21: a.1 * b.0, m12: a.0 * b.1, m22: a.1 * b.1 }
}

fn transpose_mul(a: Point, m: Mat2) -> Point {
    (m.m11 * a.0 + m.m21 * a.1, m.m12 * a.0 + m.m22 * a.1)
}

fn mat_zero() -> Mat2 {
    Mat2 { m11: 0.0, m21: 0.0, m12: 0.0, m22: 0.0 }
}

fn mat_add(a: Mat2, b: Mat2) -> Mat2 {
    Mat2 { m11: a.m11 + b.m11, m21: a.m21 + b.m21, m12: a.m12 + b.m12, m22: a.m22 + b.m22 }
}

fn mat_scale(s: f32, a: Mat2) -> Mat2 {
    Mat2 { m11: s * a.m11, m21: s * a.m21, m12: s * a.m12, m22: s * a.m22 }
}

fn mat_mul(a: Mat2, b: Mat2) -> Mat2 {
    Mat2 {
        m11: a.m11 * b.m11 + a.m12 * b.m21,
        m21: a.m21 * b.m11 + a.m22 * b.m21,
        m12: a.m11 * b.m12 + a.m12 * b.m22,
        m22: a.m21 * b.m12 + a.m22 * b.m22,
    }
}

fn mat_inv(a: Mat2) -> Mat2 {
    let det = a.m11 * a.m22 - a.m21 * a.m12;
    mat_scale(1.0 / det, Mat2 { m11: a.m22, m21: -a.m21, m12: -a.m12, m22: a.m11 })
}

fn weight(v: &Point, p: &Point) -> f32 {
    1.0 / sqr_norm(sub(*p, *v))
}

fn sum(w_all: &[f32]) -> f32 {
    w_all.iter().sum()
}

fn is_infinite(w: &f32) -> bool {
    w.is_infinite()
}

fn centroid(w_all: &[f32], points: &[Point], w_sum: f32) -> Point {
    let total = w_all
        .iter()
        .zip(points)
        .map(|(&w, &p)| scale(w, p))
        .fold((0.0, 0.0), add);
    scale(1.0 / w_sum, total)
}

fn centered(points: &[Point], star: Point) -> Vec<Point> {
    points.iter().map(|&p| sub(p, star)).collect()
}

fn rotation_scale(w_all: &[f32], p_hat: &[Point], q_hat: &[Point]) -> Mat2 {
    w_all
        .iter()
        .zip(p_hat)
        .zip(q_hat)
        .map(|((&wi, pi), qi)| {
            let p_mat = Mat2 { m11: pi.0, m12: pi.1, m21: pi.1, m22: -pi.0 };
            let q_mat = Mat2 { m11: qi.0, m21: qi.1, m12: qi.1, m22: -qi.0 };
            mat_mul(mat_scale(wi, p_mat), q_mat)
        })
        .fold(mat_zero(), mat_add)
}

fn affine(p: &[Point], q: &[Point], v: &Point, w_all: &[f32], w_sum: &f32) -> Point {
    let p_star = centroid(w_all, p, *w_sum);
    let q_star = centroid(w_all, q, *w_sum);
    let p_hat = centered(p, p_star);
    let q_hat = centered(q, q_star);
    let mp = w_all
        .iter()
        .zip(&p_hat)
        .map(|(&w, &ph)| mat_scale(w, times_transpose(ph, ph)))
        .fold(mat_zero(), mat_add);
    let mq = w_all
        .iter()
        .zip(&p_hat)
        .zip(&q_hat)
        .map(|((&w, &ph), &qh)| times_transpose(scale(w, ph), qh))
        .fold(mat_zero(), mat_add);
    add(transpose_mul(transpose_mul(sub(*v, p_star), mat_inv(mp)), mq), q_star)
}

fn similarity(p: &[Point], q: &[Point], v: &Point, w_all: &[f32], w_sum: &f32) -> Point {
    let p_star = centroid(w_all, p, *w_sum);
    let q_star = centroid(w_all, q, *w_sum);
    let p_hat = centered(p, p_star);
    let q_hat = centered(q, q_star);
    let mu_s: f32 = w_all.iter().zip(&p_hat).map(|(wi, pi)| wi * sqr_norm(*pi)).sum();
    let m = mat_scale(1.0 / mu_s, rotation_scale(w_all, &p_hat, &q_hat));
    add(transpose_mul(sub(*v, p_star), m), q_star)
}

fn rigid(p: &[Point], q: &[Point], v: &Point, w_all: &[f32], w_sum: &f32) -> Point {
    let p_star = centroid(w_all, p, *w_sum);
    let q_star = centroid(w_all, q, *w_sum);
    let p_hat = centered(p, p_star);
    let q_hat = centered(q, q_star);
    let mu_r_vec = w_all
        .iter()
        .zip(&p_hat)
        .zip(&q_hat)
        .map(|((&wi, pi), qi)| {
            let pi_perp = (-pi.1, pi.0);
            (wi * dot(*qi, *pi), wi * dot(*qi, pi_perp))
        })
        .fold((0.0, 0.0), add);
    let mu_r = sqr_norm(mu_r_vec).sqrt();
    let m = mat_scale(1.0 / mu_r, rotation_scale(w_all, &p_hat, &q_hat));
    add(transpose_mul(sub(*v, p_star), m), q_star)
}

type Finish = fn(&[Point], &[Point], &Point, &[f32], &f32) -> Point;

const KINDS: [(&str, Finish); 3] =
    [("affine", affine), ("similarity", similarity), ("rigid", rigid)];

fn deform_with(finish: Finish, p: &[Point], q: &[Point], v: Point) -> Result<Point, WarpError> {
    deform(p, q, &v, &weight, &sum, &is_infinite, &finish)
}

fn at_pixel(finish: Finish) -> impl Fn(&[Point], &[Point], (u64, u64)) -> Point {
    move |p, q, (x, y)| deform_with(finish, p, q, (x as f32, y as f32)).unwrap()
}

fn floor(at: &Point) -> Option<(i64, i64)> {
    if at.0.is_finite() && at.1.is_finite() {
        Some((at.0.floor() as i64, at.1.floor() as i64))
    } else {
        None
    }
}

fn mix(at: &Point, uv_00: Lanes, uv_10: Lanes, uv_01: Lanes, uv_11: Lanes) -> Lanes {
    let a = at.0 - at.0.floor();
    let b = at.1 - at.1.floor();
    let lane = |v_00: Lane, v_10: Lane, v_01: Lane, v_11: Lane| {
        Lane(
            (1.0 - b) * (1.0 - a) * v_00.0
                + b * (1.0 - a) * v_01.0
                + (1.0 - b) * a * v_10.0
                + b * a * v_11.0,
        )
    };
    (
        lane(uv_00.0, uv_10.0, uv_01.0, uv_11.0),
        lane(uv_00.1, uv_10.1, uv_01.1, uv_11.1),
        lane(uv_00.2, uv_10.2, uv_01.2, uv_11.2),
    )
}

fn blend(w: BilinearWeights, c: Corners<Point>) -> Point {
    let (tl, tr, bl, br) =
        (w.top_left as f32, w.top_right as f32, w.bottom_left as f32, w.bottom_right as f32);
    let area = w.area as f32;
    let x = (tl * c.top_left.0 + tr * c.top_right.0 + bl * c.bottom_left.0 + br * c.bottom_right.0)
        / area;
    let y = (tl * c.top_left.1 + tr * c.top_right.1 + bl * c.bottom_left.1 + br * c.bottom_right.1)
        / area;
    (x, y)
}

fn gradient(width: u32, height: u32) -> Raster {
    Raster::from_fn(width, height, |x, y| ((3 * x) as u8, (5 * y) as u8, (x + y) as u8)).unwrap()
}

fn close(a: Point, b: Point, tolerance: f32) -> bool {
    (a.0 - b.0).abs() <= tolerance && (a.1 - b.1).abs() <= tolerance
}

const BLACK: Color = (0, 0, 0);

#[test]
fn query_at_a_control_point_returns_its_destination_exactly() {
    let p = [(0.0, 0.0), (10.0, 0.0), (0.0, 10.0), (7.5, 3.25)];
    let q = [(1.0, 2.0), (12.0, -1.0), (0.5, 9.0), (8.0, 8.0)];
    for (name, finish) in KINDS {
        for i in 0..p.len() {
            assert_eq!(deform_with(finish, &p, &q, p[i]), Ok(q[i]), "{} at {}", name, i);
        }
    }
}

#[test]
fn first_of_two_coinciding_control_points_wins() {
    let p = [(4.0, 4.0), (1.0, 1.0), (1.0, 1.0), (0.0, 3.0)];
    let q = [(5.0, 5.0), (2.0, 2.0), (9.0, 9.0), (0.0, 4.0)];
    for (name, finish) in KINDS {
        assert_eq!(deform_with(finish, &p, &q, (1.0, 1.0)), Ok((2.0, 2.0)), "{}", name);
    }
}

#[test]
fn single_control_point_is_matched_exactly() {
    for (name, finish) in KINDS {
        let moved = deform_with(finish, &[(3.0, 4.0)], &[(5.0, 6.0)], (3.0, 4.0));
        assert_eq!(moved, Ok((5.0, 6.0)), "{}", name);
    }
}

#[test]
fn deform_refuses_mismatched_control_sets() {
    let p = [(0.0, 0.0), (1.0, 0.0)];
    let q = [(0.0, 0.0)];
    for (_, finish) in KINDS {
        assert_eq!(deform_with(finish, &p, &q, (0.5, 0.5)), Err(WarpError::LengthMismatch));
        assert_eq!(deform_with(finish, &q, &p, (0.5, 0.5)), Err(WarpError::LengthMismatch));
    }
}

#[test]
fn deform_refuses_empty_control_sets() {
    for (_, finish) in KINDS {
        assert_eq!(deform_with(finish, &[], &[], (0.5, 0.5)), Err(WarpError::NoControlPoints));
    }
}

#[test]
fn identical_control_sets_move_nothing() {
    let p = [(0.0, 0.0), (10.0, 0.0), (0.0, 10.0), (9.0, 8.0)];
    let queries = [(0.5, 0.5), (3.0, 4.0), (-2.0, 7.0), (20.0, 15.0), (9.0, 7.5)];
    for (name, finish) in KINDS {
        for v in queries {
            let moved = deform_with(finish, &p, &p, v).unwrap();
            assert!(close(moved, v, 1e-3), "{}: {:?} moved to {:?}", name, v, moved);
        }
    }
}

#[test]
fn affine_scaling_of_the_unit_square() {
    let p = [(0.0, 0.0), (1.0, 0.0), (0.0, 1.0), (1.0, 1.0)];
    let q = [(0.0, 0.0), (2.0, 0.0), (0.0, 2.0), (2.0, 2.0)];
    let moved = deform_with(affine, &p, &q, (0.5, 0.5)).unwrap();
    assert!(close(moved, (1.0, 1.0), 1e-4), "moved to {:?}", moved);
}

#[test]
fn similarity_scaling_of_the_unit_square() {
    let p = [(0.0, 0.0), (1.0, 0.0), (0.0, 1.0), (1.0, 1.0)];
    let q = [(0.0, 0.0), (2.0, 0.0), (0.0, 2.0), (2.0, 2.0)];
    let moved = deform_with(similarity, &p, &q, (0.25, 0.75)).unwrap();
    assert!(close(moved, (0.5, 1.5), 1e-4), "moved to {:?}", moved);
}

#[test]
fn rigid_translation_moves_every_point_alike() {
    let p = [(0.0, 0.0), (4.0, 0.0), (0.0, 4.0)];
    let q = [(3.0, -2.0), (7.0, -2.0), (3.0, 2.0)];
    let moved = deform_with(rigid, &p, &q, (1.0, 2.5)).unwrap();
    assert!(close(moved, (4.0, 0.5), 1e-4), "moved to {:?}", moved);
}

fn corner_angle_cosine(finish: Finish, p: &[Point], q: &[Point]) -> f32 {
    // the corner of the right angle and the two points at the end of its arms
    let corner = deform_with(finish, p, q, (1.0, 1.0)).unwrap();
    let right = deform_with(finish, p, q, (2.0, 1.0)).unwrap();
    let up = deform_with(finish, p, q, (1.0, 2.0)).unwrap();
    let a = sub(right, corner);
    let b = sub(up, corner);
    dot(a, b) / (sqr_norm(a).sqrt() * sqr_norm(b).sqrt())
}

#[test]
fn similarity_and_rigid_keep_a_right_angle() {
    // a right angle rotated by 90 degrees about the origin, then shifted
    let p = [(0.0, 0.0), (3.0, 0.0), (0.0, 3.0)];
    let turned = [(5.0, 1.0), (5.0, 4.0), (2.0, 1.0)];
    for finish in [similarity as Finish, rigid as Finish] {
        let cosine = corner_angle_cosine(finish, &p, &turned);
        assert!(cosine.abs() < 1e-4, "cosine {}", cosine);
    }
    // the same, scaled by two
    let grown = [(5.0, 1.0), (5.0, 7.0), (-1.0, 1.0)];
    let cosine = corner_angle_cosine(similarity, &p, &grown);
    assert!(cosine.abs() < 1e-4, "cosine {}", cosine);
}

#[test]
fn affine_follows_a_shear() {
    let p = [(0.0, 0.0), (3.0, 0.0), (0.0, 3.0)];
    let sheared = [(0.0, 0.0), (3.0, 0.0), (3.0, 3.0)];
    let cosine = corner_angle_cosine(affine, &p, &sheared);
    assert!((cosine - std::f32::consts::FRAC_1_SQRT_2).abs() < 1e-3, "cosine {}", cosine);
}

#[test]
fn pixel_becomes_the_vector_of_its_channels() {
    let pixel: Color = (10, 20, 30);
    let lanes: Lanes = pixel.into_vector();
    assert_eq!(lanes, (Lane(10.0), Lane(20.0), Lane(30.0)));
}

#[test]
fn vector_becomes_the_pixel_of_its_clamped_and_rounded_channels() {
    let pixel: Color = Color::from_vector((Lane(-5.0), Lane(300.0), Lane(99.5)));
    assert_eq!(pixel, (0, 255, 100));
    let pixel: Color = Color::from_vector((Lane(0.49), Lane(254.5), Lane(127.0)));
    assert_eq!(pixel, (0, 255, 127));
}

#[test]
fn bilinear_at_a_pixel_centre_returns_the_pixel() {
    let img = gradient(8, 8);
    assert_eq!(bilinear(&img, &(2.0, 3.0), &floor, &mix), Some((6, 15, 5)));
}

#[test]
fn bilinear_between_pixels_averages_them() {
    let img = Raster::from_fn(4, 4, |x, y| ((100 * x) as u8, (40 * y) as u8, 7)).unwrap();
    // a quarter of the way from column 0 to column 1, halfway from row 1 to row 2
    assert_eq!(bilinear(&img, &(0.25, 1.5), &floor, &mix), Some((25, 60, 7)));
}

#[test]
fn bilinear_gives_nothing_near_the_far_edge_or_outside() {
    let img = gradient(8, 6);
    assert!(bilinear(&img, &(5.5, 3.5), &floor, &mix).is_some());
    assert_eq!(bilinear(&img, &(6.0, 3.5), &floor, &mix), None);
    assert_eq!(bilinear(&img, &(5.5, 4.0), &floor, &mix), None);
    assert_eq!(bilinear(&img, &(-0.5, 2.0), &floor, &mix), None);
    assert_eq!(bilinear(&img, &(2.0, -0.001), &floor, &mix), None);
    assert_eq!(bilinear(&img, &(1e30, 2.0), &floor, &mix), None);
    assert_eq!(bilinear(&img, &(f32::NAN, 2.0), &floor, &mix), None);
    assert_eq!(bilinear(&img, &(2.0, f32::INFINITY), &floor, &mix), None);
}

#[test]
fn dense_warp_with_identical_control_sets_returns_the_raster() {
    let controls = [(0.0, 0.0), (10.0, 0.0), (0.0, 10.0)];
    let img = gradient(16, 12);
    for (name, finish) in KINDS {
        let warped = reverse_dense(&img, &controls, &controls, at_pixel(finish), floor, mix)
            .unwrap();
        assert_eq!(warped.dimensions(), (16, 12));
        for y in 1..10 {
            for x in 1..14 {
                assert_eq!(warped.get_pixel(x, y), img.get_pixel(x, y), "{} at {:?}", name, (x, y));
            }
        }
        // the last column and the last row are never sampled
        for y in 0..12 {
            assert_eq!(warped.get_pixel(15, y), Some(BLACK));
        }
        for x in 0..16 {
            assert_eq!(warped.get_pixel(x, 11), Some(BLACK));
        }
        // the ones before them are sampled only where rounding puts the position below them
        for y in 1..10 {
            let pixel = warped.get_pixel(14, y);
            assert!(pixel == Some(BLACK) || pixel == img.get_pixel(14, y), "{} at {:?}", name, (14, y));
        }
    }
}

#[test]
fn dense_warp_pulls_pixels_against_the_control_displacement() {
    // every control point moves three pixels right and two down
    let src = [(2.0, 2.0), (12.0, 3.0), (4.0, 9.0)];
    let dst = [(5.0, 4.0), (15.0, 5.0), (7.0, 11.0)];
    let img = gradient(20, 16);
    let warped = reverse_dense(&img, &src, &dst, at_pixel(rigid), floor, mix).unwrap();
    assert_eq!(warped.get_pixel(5, 4), img.get_pixel(2, 2));
    assert_eq!(warped.get_pixel(15, 5), img.get_pixel(12, 3));
    assert_eq!(warped.get_pixel(7, 11), img.get_pixel(4, 9));
}

#[test]
fn dense_warp_paints_unreachable_pixels_black() {
    // the image content is pushed 100 pixels to the right, far out of an 8 pixel wide raster
    let src = [(0.0, 0.0), (4.0, 0.0), (0.0, 4.0)];
    let dst = [(100.0, 0.0), (104.0, 0.0), (100.0, 4.0)];
    let img = Raster::from_fn(8, 8, |_, _| (200, 100, 50)).unwrap();
    for (name, finish) in KINDS {
        let warped = reverse_dense(&img, &src, &dst, at_pixel(finish), floor, mix).unwrap();
        assert_eq!(warped.dimensions(), (8, 8));
        for y in 0..8 {
            for x in 0..8 {
                assert_eq!(warped.get_pixel(x, y), Some(BLACK), "{} at {:?}", name, (x, y));
            }
        }
    }
}

#[test]
fn dense_warp_with_a_degenerate_configuration_does_not_panic() {
    // collinear control points: the affine solve is singular and yields no finite position
    let src = [(0.0, 0.0), (1.0, 1.0), (2.0, 2.0)];
    let dst = [(0.0, 0.0), (2.0, 2.0), (4.0, 4.0)];
    let img = Raster::from_fn(6, 6, |_, _| (9, 9, 9)).unwrap();
    let warped = reverse_dense(&img, &src, &dst, at_pixel(affine), floor, mix).unwrap();
    assert_eq!(warped.dimensions(), (6, 6));
    // off the line of the control points every pixel falls back to the background
    assert_eq!(warped.get_pixel(3, 1), Some(BLACK));
    // at a destination control point the match is exact
    assert_eq!(warped.get_pixel(2, 2), Some((9, 9, 9)));
}

#[test]
fn sparse_warp_with_factor_one_equals_dense_warp() {
    let src = [(2.0, 2.0), (12.0, 3.0), (4.0, 9.0), (10.0, 10.0)];
    let dst = [(3.0, 2.5), (11.0, 4.0), (4.0, 8.0), (11.0, 11.0)];
    let img = gradient(18, 14);
    for (name, finish) in KINDS {
        let dense = reverse_dense(&img, &src, &dst, at_pixel(finish), floor, mix).unwrap();
        let sparse =
            reverse_sparse(&img, &src, &dst, 1, at_pixel(finish), blend, floor, mix).unwrap();
        assert_eq!(sparse, dense, "{}", name);
    }
}

#[test]
fn sparse_warp_agrees_with_dense_warp_at_anchor_pixels() {
    let src = [(2.0, 2.0), (12.0, 3.0), (4.0, 9.0), (10.0, 10.0)];
    let dst = [(3.0, 2.5), (11.0, 4.0), (4.0, 8.0), (11.0, 11.0)];
    let img = gradient(18, 14);
    let dense = reverse_dense(&img, &src, &dst, at_pixel(similarity), floor, mix).unwrap();
    let sparse =
        reverse_sparse(&img, &src, &dst, 4, at_pixel(similarity), blend, floor, mix).unwrap();
    assert_eq!(sparse.dimensions(), (18, 14));
    for y in [0, 4, 8, 12] {
        for x in [0, 4, 8, 12, 16] {
            assert_eq!(sparse.get_pixel(x, y), dense.get_pixel(x, y), "at {:?}", (x, y));
        }
    }
}

#[test]
fn sparse_warp_of_a_translation_is_exact_between_anchors() {
    // a translation is linear, so interpolating it between anchors loses nothing
    let src = [(2.0, 2.0), (12.0, 3.0), (4.0, 9.0)];
    let dst = [(5.0, 4.0), (15.0, 5.0), (7.0, 11.0)];
    let img = gradient(20, 16);
    let dense = reverse_dense(&img, &src, &dst, at_pixel(rigid), floor, mix).unwrap();
    let sparse = reverse_sparse(&img, &src, &dst, 3, at_pixel(rigid), blend, floor, mix).unwrap();
    for y in 3..14 {
        for x in 4..18 {
            assert_eq!(sparse.get_pixel(x, y), dense.get_pixel(x, y), "at {:?}", (x, y));
        }
    }
}

#[test]
fn warps_refuse_bad_requests() {
    let img = gradient(4, 4);
    let two = [(0.0, 0.0), (1.0, 0.0)];
    let one = [(0.0, 0.0)];
    let none: [Point; 0] = [];
    assert_eq!(
        reverse_dense(&img, &two, &one, at_pixel(affine), floor, mix),
        Err(WarpError::LengthMismatch)
    );
    assert_eq!(
        reverse_dense(&img, &none, &none, at_pixel(affine), floor, mix),
        Err(WarpError::NoControlPoints)
    );
    assert_eq!(
        reverse_sparse(&img, &two, &one, 2, at_pixel(affine), blend, floor, mix),
        Err(WarpError::LengthMismatch)
    );
    assert_eq!(
        reverse_sparse(&img, &none, &none, 2, at_pixel(affine), blend, floor, mix),
        Err(WarpError::NoControlPoints)
    );
    assert_eq!(
        reverse_sparse(&img, &two, &two, 0, at_pixel(affine), blend, floor, mix),
        Err(WarpError::ZeroSubresolution)
    );
    // the control sets are judged before the factor
    assert_eq!(
        reverse_sparse(&img, &two, &one, 0, at_pixel(affine), blend, floor, mix),
        Err(WarpError::LengthMismatch)
    );
}
