use softrender::camera::{Camera, FitResolutionGate, ProjectionError};
use softrender::linear_algebra::{Matrix44, Vec2, Vec3};

// A camera with a 36x24 aperture and a 50 focal length (micro-units),
// near/far planes at 100 and 100000 milli-units, and an 800x600 image.
fn sample_camera(gate: FitResolutionGate) -> Camera {
    Camera::new(
        Matrix44::identity(),
        Vec2::new(800, 600),
        50_000,
        Vec2::new(36_000, 24_000),
        100,
        100_000,
        gate,
    )
}

#[test]
fn test_canvas_size_fill() {
    let camera = sample_camera(FitResolutionGate::Fill);
    // The film gate (3:2) is wider than the resolution gate (4:3), so
    // under Fill the width follows the resolution gate: the canvas is
    // exactly 32 x 24 milli-units at the near plane.
    assert_eq!(camera.canvas_w_num, 32 * camera.canvas_w_den);
    assert_eq!(camera.canvas_h_num, 24 * camera.canvas_h_den);
}

#[test]
fn test_canvas_size_overscan() {
    let camera = sample_camera(FitResolutionGate::Overscan);
    // Under Overscan the same pair grows the height instead: 36 x 27.
    assert_eq!(camera.canvas_w_num, 36 * camera.canvas_w_den);
    assert_eq!(camera.canvas_h_num, 27 * camera.canvas_h_den);
}

#[test]
fn test_fill_canvas_within_overscan() {
    let fill = sample_camera(FitResolutionGate::Fill);
    let over = sample_camera(FitResolutionGate::Overscan);
    // Component-wise, Fill's canvas is at most Overscan's canvas
    // (compared exactly by cross-multiplication).
    assert!(fill.canvas_w_num * over.canvas_w_den <= over.canvas_w_num * fill.canvas_w_den);
    assert!(fill.canvas_h_num * over.canvas_h_den <= over.canvas_h_num * fill.canvas_h_den);
}

#[test]
fn test_point_to_screen_passes_depth_through() {
    let camera = sample_camera(FitResolutionGate::Fill);
    let screen = camera.point_to_screen(&Vec3::new(-16, 12, 100)).unwrap_or(Vec3::new(0, 0, 0));
    // sx = -16 * 100 / -100 = 16, sy = 12 * 100 / 100 = 12, z kept.
    assert_eq!(screen, Vec3::new(16, 12, 100));
}

#[test]
fn test_point_to_raster_corner() {
    let camera = sample_camera(FitResolutionGate::Fill);
    // A point that projects exactly to the screen-window corner
    // (canvas_w / 2, canvas_h / 2) = (16, 12) lands on the outermost
    // pixel (799, 599); the pixel origin is bottom-left.
    let raster = camera.point_to_raster(&Vec3::new(-16, 12, 100));
    assert_eq!(raster, Ok(Vec2::new(799, 599)));
}

#[test]
fn test_point_to_raster_center() {
    let camera = sample_camera(FitResolutionGate::Fill);
    // A point on the optical axis lands on the centre pixel.
    let raster = camera.point_to_raster(&Vec3::new(0, 0, 200));
    assert_eq!(raster, Ok(Vec2::new(400, 300)));
}

#[test]
fn test_point_clipped_near_and_far() {
    let camera = sample_camera(FitResolutionGate::Fill);
    assert_eq!(camera.point_to_raster(&Vec3::new(0, 0, 50)), Err(ProjectionError::PointClipped));
    assert_eq!(
        camera.point_to_raster(&Vec3::new(0, 0, 200_000)),
        Err(ProjectionError::PointClipped),
    );
}

#[test]
fn test_point_outside_canvas() {
    let camera = sample_camera(FitResolutionGate::Fill);
    // Projects to sx = 1000 >> canvas_w / 2 = 16.
    let raster = camera.point_to_raster(&Vec3::new(-1000, 0, 100));
    assert_eq!(raster, Err(ProjectionError::PointOutsideCanvas));
}

#[test]
fn test_camera_keeps_intrinsics() {
    let camera = sample_camera(FitResolutionGate::Fill);
    assert_eq!(camera.image_size, Vec2::new(800, 600));
    assert_eq!(camera.focal_length, 50_000);
    assert_eq!(camera.camera_aperture, Vec2::new(36_000, 24_000));
    assert_eq!(camera.z_near, 100);
    assert_eq!(camera.z_far, 100_000);
}
