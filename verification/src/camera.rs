//! The pinhole-camera projection model.
//!
//! A camera owns a world-to-camera transform, integer intrinsics (focal
//! length and physical aperture in one unit, near/far planes and world
//! coordinates in another, image resolution in pixels) and a
//! fit-resolution-gate mode. The canvas at the near plane is derived at
//! construction as an exact rational per axis, and the screen window is
//! the rectangle from `-canvas/2` to `+canvas/2` around the optical axis.
//! Projection and rasterization of points are exact integer computations
//! with Euclidean division, and every result is pinned by the contracts.

use vstd::arithmetic::div_mod::lemma_div_multiples_vanish_quotient;
use vstd::prelude::*;

use crate::linear_algebra::{hom_w, hom_x, hom_y, hom_z, vec3_in_range, Matrix44, Vec2, Vec3};

verus! {

/// Largest accepted intrinsic parameter (focal length, aperture sides,
/// image sides, clip distances), chosen so the exact rational canvas
/// computations stay within `i64`.
pub const MAX_INTRINSIC: i64 = 1_000_000;

/// How the film gate is fitted to the resolution gate when their aspect
/// ratios differ.
#[derive(Clone, Copy, Debug, PartialEq, Eq, Structural)]
pub enum FitResolutionGate {
    /// Fit the resolution gate within the film gate: the canvas shrinks
    /// so it fits entirely inside the visible raster.
    Fill,
    /// Fit the film gate within the resolution gate: the canvas grows so
    /// the raster fully covers it.
    Overscan,
}

/// Why a point could not be mapped to a pixel.
#[derive(Clone, Copy, Debug, PartialEq, Eq, Structural)]
pub enum ProjectionError {
    /// The camera-space depth is outside `[near, far]`.
    PointClipped,
    /// The projected point falls outside the visible screen window.
    PointOutsideCanvas,
}

/// A pinhole camera.
///
/// The world-to-camera transform and the intrinsics are public; the
/// canvas size at the near plane is cached at construction as one exact
/// rational per axis and only changes when a camera is reconstructed.
pub struct Camera {
    /// World-to-camera transformation matrix.
    pub transformation_matrix: Matrix44,
    /// Image size in pixels.
    pub image_size: Vec2,
    /// Distance between eye and film plane of the ideal pinhole camera,
    /// in the same unit as the aperture.
    pub focal_length: i64,
    /// Physical dimensions of the film, in the same unit as the focal
    /// length.
    pub camera_aperture: Vec2,
    /// Depth of the near clipping plane; the canvas sits here.
    pub z_near: i64,
    /// Depth of the far clipping plane.
    pub z_far: i64,
    /// How the film gate is fitted to the resolution gate.
    pub fit_resolution_gate: FitResolutionGate,
    /// Numerator of the exact canvas width at the near plane; cached by
    /// `new`, which ties it to `canvas_w_num_spec`.
    pub canvas_w_num: i64,
    /// Denominator of the cached canvas width.
    pub canvas_w_den: i64,
    /// Numerator of the cached canvas height.
    pub canvas_h_num: i64,
    /// Denominator of the cached canvas height.
    pub canvas_h_den: i64,
}

impl Camera {
    /// Is the film gate wider (larger aspect ratio) than the resolution
    /// gate? Compared exactly by cross-multiplication.
    pub open spec fn film_gate_wider(&self) -> bool {
        self.camera_aperture.x * self.image_size.y > self.image_size.x * self.camera_aperture.y
    }

    /// Does the canvas width take the resolution-gate-limited form? That
    /// holds under `Fill` for a wider film gate and under `Overscan` for
    /// a narrower one; in the other cases the film gate itself limits the
    /// width and the height takes the resolution-gate-limited form.
    pub open spec fn width_follows_resolution_gate(&self) -> bool {
        match self.fit_resolution_gate {
            FitResolutionGate::Fill => self.film_gate_wider(),
            FitResolutionGate::Overscan => !self.film_gate_wider(),
        }
    }

    /// Numerator of the exact canvas width at the near plane.
    pub open spec fn canvas_w_num_spec(&self) -> int {
        if self.width_follows_resolution_gate() {
            self.z_near * self.image_size.x * self.camera_aperture.y
        } else {
            self.z_near * self.camera_aperture.x
        }
    }

    /// Denominator of the exact canvas width at the near plane.
    pub open spec fn canvas_w_den_spec(&self) -> int {
        if self.width_follows_resolution_gate() {
            self.focal_length * self.image_size.y * 2
        } else {
            self.focal_length * 2
        }
    }

    /// Numerator of the exact canvas height at the near plane.
    pub open spec fn canvas_h_num_spec(&self) -> int {
        if self.width_follows_resolution_gate() {
            self.z_near * self.camera_aperture.y
        } else {
            self.z_near * self.camera_aperture.x * self.image_size.y
        }
    }

    /// Denominator of the exact canvas height at the near plane.
    pub open spec fn canvas_h_den_spec(&self) -> int {
        if self.width_follows_resolution_gate() {
            self.focal_length * 2
        } else {
            self.focal_length * self.image_size.x * 2
        }
    }

    /// The intrinsics are in the accepted range, and the cached canvas
    /// fractions match the fit-mode formulas.
    pub open spec fn wf(&self) -> bool {
        &&& 1 <= self.focal_length <= MAX_INTRINSIC
        &&& 1 <= self.camera_aperture.x <= MAX_INTRINSIC
        &&& 1 <= self.camera_aperture.y <= MAX_INTRINSIC
        &&& 1 <= self.image_size.x <= MAX_INTRINSIC
        &&& 1 <= self.image_size.y <= MAX_INTRINSIC
        &&& 1 <= self.z_near
        &&& self.z_near < self.z_far
        &&& self.z_far <= MAX_INTRINSIC
        &&& self.transformation_matrix.in_range()
        &&& self.canvas_w_num == self.canvas_w_num_spec()
        &&& self.canvas_w_den == self.canvas_w_den_spec()
        &&& self.canvas_h_num == self.canvas_h_num_spec()
        &&& self.canvas_h_den == self.canvas_h_den_spec()
        &&& 1 <= self.canvas_w_num <= 1_000_000_000_000_000_000
        &&& 1 <= self.canvas_w_den <= 1_000_000_000_000_000_000
        &&& 1 <= self.canvas_h_num <= 1_000_000_000_000_000_000
        &&& 1 <= self.canvas_h_den <= 1_000_000_000_000_000_000
    }

    /// Builds a camera and derives the exact canvas size at the near
    /// plane from the intrinsics and the fit mode.
    pub fn new(
        transformation_matrix: Matrix44,
        image_size: Vec2,
        focal_length: i64,
        camera_aperture: Vec2,
        z_near: i64,
        z_far: i64,
        fit_resolution_gate: FitResolutionGate,
    ) -> (r: Camera)
        requires
            1 <= focal_length <= MAX_INTRINSIC,
            1 <= camera_aperture.x <= MAX_INTRINSIC,
            1 <= camera_aperture.y <= MAX_INTRINSIC,
            1 <= image_size.x <= MAX_INTRINSIC,
            1 <= image_size.y <= MAX_INTRINSIC,
            1 <= z_near < z_far <= MAX_INTRINSIC,
            transformation_matrix.in_range(),
        ensures
            r.wf(),
            r.transformation_matrix == transformation_matrix,
            r.image_size == image_size,
            r.focal_length == focal_length,
            r.camera_aperture == camera_aperture,
            r.z_near == z_near,
            r.z_far == z_far,
            r.fit_resolution_gate == fit_resolution_gate,
    {
        proof {
            crate::linear_algebra::lemma_mul_bound(
                camera_aperture.x as int,
                image_size.y as int,
                MAX_INTRINSIC as int,
                MAX_INTRINSIC as int,
            );
            crate::linear_algebra::lemma_mul_bound(
                image_size.x as int,
                camera_aperture.y as int,
                MAX_INTRINSIC as int,
                MAX_INTRINSIC as int,
            );
        }
        let film_wider = camera_aperture.x * image_size.y > image_size.x * camera_aperture.y;
        let width_follows = match fit_resolution_gate {
            FitResolutionGate::Fill => film_wider,
            FitResolutionGate::Overscan => !film_wider,
        };
        let (canvas_w_num, canvas_w_den, canvas_h_num, canvas_h_den) = if width_follows {
            (
                product3(z_near, image_size.x, camera_aperture.y),
                product3(focal_length, image_size.y, 2),
                product3(z_near, camera_aperture.y, 1),
                product3(focal_length, 2, 1),
            )
        } else {
            (
                product3(z_near, camera_aperture.x, 1),
                product3(focal_length, 2, 1),
                product3(z_near, camera_aperture.x, image_size.y),
                product3(focal_length, image_size.x, 2),
            )
        };
        Camera {
            transformation_matrix,
            image_size,
            focal_length,
            camera_aperture,
            z_near,
            z_far,
            fit_resolution_gate,
            canvas_w_num,
            canvas_w_den,
            canvas_h_num,
            canvas_h_den,
        }
    }

    /// The camera-space x coordinate of a world point (after the
    /// homogeneous transform and its perspective divide).
    pub open spec fn cam_x(&self, p: Vec3) -> int {
        hom_x(p, self.transformation_matrix) / hom_w(p, self.transformation_matrix)
    }

    /// The camera-space y coordinate of a world point.
    pub open spec fn cam_y(&self, p: Vec3) -> int {
        hom_y(p, self.transformation_matrix) / hom_w(p, self.transformation_matrix)
    }

    /// The camera-space depth of a world point.
    pub open spec fn cam_z(&self, p: Vec3) -> int {
        hom_z(p, self.transformation_matrix) / hom_w(p, self.transformation_matrix)
    }

    /// Is the camera-space depth of `p` outside `[near, far]`?
    pub open spec fn clipped(&self, p: Vec3) -> bool {
        self.cam_z(p) < self.z_near || self.cam_z(p) > self.z_far
    }

    /// The screen-space x coordinate of a world point: the camera-space
    /// point projected onto the canvas at the near plane. The sign
    /// asymmetry against `screen_y_of` accounts for the camera looking
    /// down its own negative depth axis while y is not flipped.
    pub open spec fn screen_x_of(&self, p: Vec3) -> int {
        (self.cam_x(p) * self.z_near) / (-self.cam_z(p))
    }

    /// The screen-space y coordinate of a world point.
    pub open spec fn screen_y_of(&self, p: Vec3) -> int {
        (self.cam_y(p) * self.z_near) / self.cam_z(p)
    }

    /// Does the screen-space point `(sx, sy)` lie within the screen
    /// window `[-canvas/2, +canvas/2]` on both axes? Compared exactly by
    /// cross-multiplication.
    pub open spec fn in_canvas(&self, sx: int, sy: int) -> bool {
        &&& -self.canvas_w_num <= 2 * sx * self.canvas_w_den <= self.canvas_w_num
        &&& -self.canvas_h_num <= 2 * sy * self.canvas_h_den <= self.canvas_h_num
    }

    /// The raster x coordinate of a screen-space x coordinate inside the
    /// canvas: its normalized position `sx / canvas_w + 1/2` in `[0, 1]`
    /// scaled by the image width and floored, with the right edge mapped
    /// to the last pixel column.
    pub open spec fn raster_x_spec(&self, sx: int) -> int {
        let q = ((2 * sx * self.canvas_w_den + self.canvas_w_num) * self.image_size.x) / (2
            * self.canvas_w_num);
        if q > self.image_size.x - 1 {
            self.image_size.x - 1
        } else {
            q
        }
    }

    /// The raster y coordinate of a screen-space y coordinate inside the
    /// canvas; the pixel origin is bottom-left.
    pub open spec fn raster_y_spec(&self, sy: int) -> int {
        let q = ((2 * sy * self.canvas_h_den + self.canvas_h_num) * self.image_size.y) / (2
            * self.canvas_h_num);
        if q > self.image_size.y - 1 {
            self.image_size.y - 1
        } else {
            q
        }
    }

    /// Converts a point from world space to screen space, rejecting
    /// points whose camera-space depth lies outside `[near, far]`. The
    /// screen point keeps the camera-space depth in its `z` component.
    pub fn point_to_screen(&self, world_point: &Vec3) -> (r: Result<Vec3, ProjectionError>)
        requires
            self.wf(),
            vec3_in_range(*world_point),
            hom_w(*world_point, self.transformation_matrix) != 0,
        ensures
            r is Ok <==> self.z_near <= self.cam_z(*world_point) <= self.z_far,
            r matches Err(e) ==> e == ProjectionError::PointClipped,
            r matches Ok(s) ==> s.x == self.screen_x_of(*world_point) && s.y == self.screen_y_of(
                *world_point,
            ) && s.z == self.cam_z(*world_point),
    {
        let camera_point = world_point.homogeneous_mult_matrix(&self.transformation_matrix);
        if camera_point.z < self.z_near || camera_point.z > self.z_far {
            return Err(ProjectionError::PointClipped);
        }
        let proj_x = scaled_depth_divide(camera_point.x, self.z_near, -camera_point.z);
        let proj_y = scaled_depth_divide(camera_point.y, self.z_near, camera_point.z);
        Ok(Vec3 { x: proj_x, y: proj_y, z: camera_point.z })
    }

    /// Converts a point from screen space to raster space, rejecting
    /// points outside the screen window. The raster origin is the
    /// bottom-left pixel.
    pub fn screen_to_raster(&self, screen_point: &Vec3) -> (r: Result<Vec2, ProjectionError>)
        requires
            self.wf(),
        ensures
            r is Ok <==> self.in_canvas(screen_point.x as int, screen_point.y as int),
            r matches Err(e) ==> e == ProjectionError::PointOutsideCanvas,
            r matches Ok(q) ==> q.x == self.raster_x_spec(screen_point.x as int) && q.y
                == self.raster_y_spec(screen_point.y as int),
    {
        proof {
            crate::linear_algebra::lemma_mul_bound(
                2 * screen_point.x,
                self.canvas_w_den as int,
                0x1_0000_0000_0000_0000,
                1_000_000_000_000_000_000,
            );
            crate::linear_algebra::lemma_mul_bound(
                2 * screen_point.y,
                self.canvas_h_den as int,
                0x1_0000_0000_0000_0000,
                1_000_000_000_000_000_000,
            );
        }
        let tx = 2 * (screen_point.x as i128) * (self.canvas_w_den as i128);
        let ty = 2 * (screen_point.y as i128) * (self.canvas_h_den as i128);
        if tx > self.canvas_w_num as i128 || tx < -(self.canvas_w_num as i128)
            || ty > self.canvas_h_num as i128 || ty < -(self.canvas_h_num as i128) {
            return Err(ProjectionError::PointOutsideCanvas);
        }
        let raster_x = canvas_to_pixel(tx, self.canvas_w_num, self.image_size.x);
        let raster_y = canvas_to_pixel(ty, self.canvas_h_num, self.image_size.y);
        Ok(Vec2 { x: raster_x, y: raster_y })
    }

    /// Converts a point from world space to raster space, propagating
    /// either rejection unchanged.
    pub fn point_to_raster(&self, world_point: &Vec3) -> (r: Result<Vec2, ProjectionError>)
        requires
            self.wf(),
            vec3_in_range(*world_point),
            hom_w(*world_point, self.transformation_matrix) != 0,
        ensures
            r is Ok <==> !self.clipped(*world_point) && self.in_canvas(
                self.screen_x_of(*world_point),
                self.screen_y_of(*world_point),
            ),
            self.clipped(*world_point) ==> r == Err::<Vec2, ProjectionError>(
                ProjectionError::PointClipped,
            ),
            !self.clipped(*world_point) && !self.in_canvas(
                self.screen_x_of(*world_point),
                self.screen_y_of(*world_point),
            ) ==> r == Err::<Vec2, ProjectionError>(ProjectionError::PointOutsideCanvas),
            r matches Ok(q) ==> q.x == self.raster_x_spec(self.screen_x_of(*world_point)) && q.y
                == self.raster_y_spec(self.screen_y_of(*world_point)),
    {
        let screen_point = match self.point_to_screen(world_point) {
            Ok(screen_point) => screen_point,
            Err(e) => {
                return Err(e);
            },
        };
        self.screen_to_raster(&screen_point)
    }
}

/// Exact product of three bounded positive factors.
fn product3(a: i64, b: i64, c: i64) -> (r: i64)
    requires
        1 <= a <= MAX_INTRINSIC,
        1 <= b <= MAX_INTRINSIC,
        1 <= c <= MAX_INTRINSIC,
    ensures
        r == a * b * c,
        1 <= r <= 1_000_000_000_000_000_000,
{
    proof {
        lemma_product3_bounds(a as int, b as int, c as int, MAX_INTRINSIC as int);
    }
    a * b * c
}

/// Bounds and positivity of a product of three positive factors.
proof fn lemma_product3_bounds(a: int, b: int, c: int, m: int)
    by (nonlinear_arith)
    requires
        1 <= a <= m,
        1 <= b <= m,
        1 <= c <= m,
        0 < m,
    ensures
        1 <= a * b <= m * m,
        1 <= a * b * c <= m * m * m,
{
}

/// Computes `(a * zn) / d` with Euclidean division, for a depth-bounded
/// divisor: `1 <= zn <= |d|`. The result then has magnitude at most
/// `|a|`, so it stays in `i64` range.
fn scaled_depth_divide(a: i64, zn: i64, d: i64) -> (r: i64)
    requires
        1 <= zn <= MAX_INTRINSIC,
        zn <= d || d <= -zn,
        -0x1000_0000_0000_0000 <= a <= 0x1000_0000_0000_0000,
    ensures
        r == (a * zn) / (d as int),
{
    proof {
        crate::linear_algebra::lemma_mul_bound(
            a as int,
            zn as int,
            0x1000_0000_0000_0000,
            MAX_INTRINSIC as int,
        );
        crate::linear_algebra::lemma_scaled_quotient_range(a as int, zn as int, d as int);
    }
    let num = (a as i128) * (zn as i128);
    match num.checked_div_euclid(d as i128) {
        Some(q) => q as i64,
        None => {
            proof {
                assert(false);  // the quotient was proved to be in i64 range
            }
            0
        },
    }
}

/// Maps a cross-multiplied canvas offset `t` (already checked to lie in
/// `[-num, num]`) to a pixel coordinate: `(t + num) * size / (2 * num)`
/// floored, clamped to the last pixel.
fn canvas_to_pixel(t: i128, num: i64, size: i64) -> (r: i64)
    requires
        1 <= num <= 1_000_000_000_000_000_000,
        1 <= size <= MAX_INTRINSIC,
        -num <= t <= num,
    ensures
        r == ({
            let q = ((t + num) * size) / (2 * num);
            if q > size - 1 {
                size - 1
            } else {
                q
            }
        }),
{
    proof {
        crate::linear_algebra::lemma_mul_bound(
            t + num,
            size as int,
            2_000_000_000_000_000_000,
            MAX_INTRINSIC as int,
        );
        lemma_canvas_to_pixel_bounds(t as int, num as int, size as int);
    }
    let q = match ((t + (num as i128)) * (size as i128)).checked_div_euclid(2 * (num as i128)) {
        Some(q) => q,
        None => {
            proof {
                assert(false);  // the quotient was proved to be in range
            }
            0
        },
    };
    let q64 = q as i64;
    if q64 > size - 1 {
        size - 1
    } else {
        q64
    }
}

/// The pixel quotient of an in-window canvas offset lies in `[0, size]`.
proof fn lemma_canvas_to_pixel_bounds(t: int, num: int, size: int)
    requires
        1 <= num,
        1 <= size,
        -num <= t <= num,
    ensures
        0 <= ((t + num) * size) / (2 * num) <= size,
{
    let n = (t + num) * size;
    assert(0 <= n <= (2 * num) * size) by (nonlinear_arith)
        requires
            n == (t + num) * size,
            1 <= num,
            1 <= size,
            -num <= t <= num,
    ;
    vstd::arithmetic::div_mod::lemma_div_pos_is_pos(n, 2 * num);
    vstd::arithmetic::div_mod::lemma_div_is_ordered(n, (2 * num) * size, 2 * num);
    vstd::arithmetic::div_mod::lemma_div_multiples_vanish(size, 2 * num);
    assert((2 * num) * size == size * (2 * num)) by (nonlinear_arith);
}

/// A point at the exact center of the screen window rasters to the
/// center pixel of the image: the screen-window center `(0, 0)` has
/// normalized position `1/2` on both axes, which lands on pixel
/// `(width / 2, height / 2)`.
pub proof fn lemma_center_maps_to_center(cam: Camera)
    requires
        cam.wf(),
    ensures
        cam.in_canvas(0, 0),
        cam.raster_x_spec(0) == cam.image_size.x as int / 2,
        cam.raster_y_spec(0) == cam.image_size.y as int / 2,
{
    let nw = cam.canvas_w_num as int;
    let nh = cam.canvas_h_num as int;
    let iw = cam.image_size.x as int;
    let ih = cam.image_size.y as int;
    lemma_div_multiples_vanish_quotient(nw, iw, 2);
    lemma_div_multiples_vanish_quotient(nh, ih, 2);
    assert((2 * 0 * cam.canvas_w_den + nw) * iw == nw * iw) by (nonlinear_arith);
    assert((2 * 0 * cam.canvas_h_den + nh) * ih == nh * ih) by (nonlinear_arith);
    assert(iw / 2 <= iw - 1);
    assert(ih / 2 <= ih - 1);
    assert(2 * 0 * (cam.canvas_w_den as int) == 0) by (nonlinear_arith);
    assert(2 * 0 * (cam.canvas_h_den as int) == 0) by (nonlinear_arith);
}

/// For one aperture/resolution/focal/near configuration, the canvas of a
/// `Fill` camera is component-wise at most the canvas of an `Overscan`
/// camera: as exact rationals, `fill_w <= over_w` and `fill_h <= over_h`
/// by cross-multiplication.
pub proof fn lemma_fill_canvas_within_overscan(fill: Camera, over: Camera)
    requires
        fill.wf(),
        over.wf(),
        fill.fit_resolution_gate == FitResolutionGate::Fill,
        over.fit_resolution_gate == FitResolutionGate::Overscan,
        fill.camera_aperture == over.camera_aperture,
        fill.image_size == over.image_size,
        fill.focal_length == over.focal_length,
        fill.z_near == over.z_near,
    ensures
        fill.canvas_w_num_spec() * over.canvas_w_den_spec() <= over.canvas_w_num_spec()
            * fill.canvas_w_den_spec(),
        fill.canvas_h_num_spec() * over.canvas_h_den_spec() <= over.canvas_h_num_spec()
            * fill.canvas_h_den_spec(),
{
    let aw = fill.camera_aperture.x as int;
    let ah = fill.camera_aperture.y as int;
    let iw = fill.image_size.x as int;
    let ih = fill.image_size.y as int;
    let f = fill.focal_length as int;
    let zn = fill.z_near as int;
    if fill.film_gate_wider() {
        assert((zn * iw * ah) * (f * 2) <= (zn * aw) * (f * ih * 2)) by (nonlinear_arith)
            requires
                iw * ah <= aw * ih,
                1 <= f && 1 <= zn,
        ;
        assert((zn * ah) * (f * iw * 2) <= (zn * aw * ih) * (f * 2)) by (nonlinear_arith)
            requires
                iw * ah <= aw * ih,
                1 <= f && 1 <= zn,
        ;
    } else {
        assert((zn * aw) * (f * ih * 2) <= (zn * iw * ah) * (f * 2)) by (nonlinear_arith)
            requires
                aw * ih <= iw * ah,
                1 <= f && 1 <= zn,
        ;
        assert((zn * aw * ih) * (f * 2) <= (zn * ah) * (f * iw * 2)) by (nonlinear_arith)
            requires
                aw * ih <= iw * ah,
                1 <= f && 1 <= zn,
        ;
    }
}

} // verus!
