use softrender::colour::Colour;
use softrender::frame_buffer::FrameBuffer;
use softrender::linear_algebra::{Matrix44, Vec3};
use softrender::rasterisation::{
    edge_fn, is_top_left, rasterise_triangle, Triangle, Vertex, VertexAttributes, WindingOrder,
    SUBPIX,
};

fn red() -> Colour {
    Colour::from_channels(255, 0, 0, 255)
}

fn green() -> Colour {
    Colour::from_channels(0, 255, 0, 255)
}

fn blue() -> Colour {
    Colour::from_channels(0, 0, 255, 255)
}

// A vertex at whole-pixel coordinates (positions are in sub-pixel units).
fn vertex_at(x: i64, y: i64, colour: Colour) -> Vertex {
    Vertex::new(Vec3::new(x * SUBPIX, y * SUBPIX, 0), VertexAttributes { colour })
}

fn blank_buffer(width: usize, height: usize) -> FrameBuffer<Vec<Colour>> {
    FrameBuffer::new(width, height, vec![Colour::new(); width * height])
}

#[test]
fn test_solid_triangle_coverage() {
    // Triangle (0,0), (4,0), (0,4) in counter-clockwise order, solid red.
    let triangle = Triangle {
        v0: vertex_at(0, 0, red()),
        v1: vertex_at(4, 0, red()),
        v2: vertex_at(0, 4, red()),
    };
    let mut fb = blank_buffer(8, 8);
    rasterise_triangle(&triangle, &mut fb, &WindingOrder::CCW);
    // A pixel centre well inside gets full-opacity red.
    assert_eq!(fb.read_buf(1, 1), Ok(red()));
    // A pixel beyond the hypotenuse stays at the background.
    assert_eq!(fb.read_buf(4, 4), Ok(Colour::new()));
    // A pixel outside the bounding box entirely stays too.
    assert_eq!(fb.read_buf(7, 7), Ok(Colour::new()));
}

#[test]
fn test_zero_area_triangle_writes_nothing() {
    // All three vertices are collinear: the triangle covers no pixel.
    let triangle = Triangle {
        v0: vertex_at(0, 0, red()),
        v1: vertex_at(2, 2, green()),
        v2: vertex_at(4, 4, blue()),
    };
    let mut fb = blank_buffer(8, 8);
    rasterise_triangle(&triangle, &mut fb, &WindingOrder::CCW);
    for x in 0..8 {
        for y in 0..8 {
            assert_eq!(fb.read_buf(x, y), Ok(Colour::new()));
        }
    }
}

#[test]
fn test_back_facing_triangle_writes_nothing() {
    // The same triangle with the opposite winding setting has negative
    // area and is rejected.
    let triangle = Triangle {
        v0: vertex_at(0, 0, red()),
        v1: vertex_at(4, 0, red()),
        v2: vertex_at(0, 4, red()),
    };
    let mut fb = blank_buffer(8, 8);
    rasterise_triangle(&triangle, &mut fb, &WindingOrder::CW);
    for x in 0..8 {
        for y in 0..8 {
            assert_eq!(fb.read_buf(x, y), Ok(Colour::new()));
        }
    }
}

#[test]
fn test_shared_edge_rasterised_exactly_once() {
    // Two triangles share the diagonal edge from (0,4) to (4,0) with
    // consistent winding. Pixel centres exactly on that edge (x + y == 3
    // in pixel indices, centres on x + y == 4) belong to exactly one of
    // the two triangles.
    let t1 = Triangle {
        v0: vertex_at(0, 0, red()),
        v1: vertex_at(4, 0, red()),
        v2: vertex_at(0, 4, red()),
    };
    let t2 = Triangle {
        v0: vertex_at(0, 4, green()),
        v1: vertex_at(4, 0, green()),
        v2: vertex_at(4, 4, green()),
    };
    let mut fb1 = blank_buffer(8, 8);
    let mut fb2 = blank_buffer(8, 8);
    rasterise_triangle(&t1, &mut fb1, &WindingOrder::CCW);
    rasterise_triangle(&t2, &mut fb2, &WindingOrder::CCW);
    for k in 0..4usize {
        let x: usize = k;
        let y: usize = 3 - k;
        let in_t1 = fb1.read_buf(x, y) == Ok(red());
        let in_t2 = fb2.read_buf(x, y) == Ok(green());
        assert!(in_t1 != in_t2);
    }
}

#[test]
fn test_equal_depth_interpolation_matches_plain() {
    // With all three vertices at the same depth, perspective-correct
    // interpolation degenerates to the plain barycentric one: rendering
    // with any common inverse depth gives identical pixels to rendering
    // with the default unit inverse depth.
    let plain = Triangle {
        v0: vertex_at(0, 0, red()),
        v1: vertex_at(6, 0, green()),
        v2: vertex_at(0, 6, blue()),
    };
    let persp = Triangle {
        v0: Vertex::with_inv_z(Vec3::new(0, 0, 0), 500, VertexAttributes { colour: red() }),
        v1: Vertex::with_inv_z(
            Vec3::new(6 * SUBPIX, 0, 0),
            500,
            VertexAttributes { colour: green() },
        ),
        v2: Vertex::with_inv_z(
            Vec3::new(0, 6 * SUBPIX, 0),
            500,
            VertexAttributes { colour: blue() },
        ),
    };
    let mut fb_plain = blank_buffer(8, 8);
    let mut fb_persp = blank_buffer(8, 8);
    rasterise_triangle(&plain, &mut fb_plain, &WindingOrder::CCW);
    rasterise_triangle(&persp, &mut fb_persp, &WindingOrder::CCW);
    for x in 0..8 {
        for y in 0..8 {
            assert_eq!(fb_plain.read_buf(x, y), fb_persp.read_buf(x, y));
        }
    }
}

#[test]
fn test_edge_function_sum_is_double_area() {
    // At any sample point the three edge functions sum to twice the
    // signed triangle area, so the barycentric weights sum to one.
    let v0 = Vec3::new(0, 0, 0);
    let v1 = Vec3::new(64, 0, 0);
    let v2 = Vec3::new(0, 64, 0);
    let area = edge_fn(&v1, &v2, &v0, &WindingOrder::CCW);
    for &(px, py) in [(8i64, 8i64), (24, 24), (100, -12), (-5, 7)].iter() {
        let p = Vec3::new(px, py, 0);
        let w0 = edge_fn(&v0, &v1, &p, &WindingOrder::CCW);
        let w1 = edge_fn(&v1, &v2, &p, &WindingOrder::CCW);
        let w2 = edge_fn(&v2, &v0, &p, &WindingOrder::CCW);
        assert_eq!(w0 + w1 + w2, area);
    }
}

#[test]
fn test_is_top_left_classification() {
    // Counter-clockwise: a horizontal edge pointing right-to-left is a
    // top edge, a downward edge is a left edge.
    let ccw = WindingOrder::CCW;
    assert!(is_top_left(&Vec3::new(4, 0, 0), &Vec3::new(0, 0, 0), &ccw));
    assert!(is_top_left(&Vec3::new(0, 4, 0), &Vec3::new(0, 0, 0), &ccw));
    assert!(!is_top_left(&Vec3::new(0, 0, 0), &Vec3::new(4, 0, 0), &ccw));
    // Clockwise flips both classifications.
    let cw = WindingOrder::CW;
    assert!(is_top_left(&Vec3::new(0, 0, 0), &Vec3::new(4, 0, 0), &cw));
    assert!(is_top_left(&Vec3::new(0, 0, 0), &Vec3::new(0, 4, 0), &cw));
    assert!(!is_top_left(&Vec3::new(4, 0, 0), &Vec3::new(0, 0, 0), &cw));
}

#[test]
fn test_blank_vertex_attributes() {
    assert_eq!(VertexAttributes::new().colour, Colour::new());
}

#[test]
fn test_bounding_box() {
    let triangle = Triangle {
        v0: vertex_at(2, 7, red()),
        v1: vertex_at(-3, 1, red()),
        v2: vertex_at(5, -4, red()),
    };
    let bbox = triangle.get_bounding_box();
    assert_eq!(bbox.x.min, -3 * SUBPIX);
    assert_eq!(bbox.x.max, 5 * SUBPIX);
    assert_eq!(bbox.y.min, -4 * SUBPIX);
    assert_eq!(bbox.y.max, 7 * SUBPIX);
}

#[test]
fn test_transform_triangle() {
    let triangle = Triangle {
        v0: vertex_at(1, 2, red()),
        v1: vertex_at(3, 4, green()),
        v2: vertex_at(5, 6, blue()),
    };
    // Translate by (10, 20, 30).
    let translation = Matrix44::new([
        [1, 0, 0, 0],
        [0, 1, 0, 0],
        [0, 0, 1, 0],
        [10, 20, 30, 1],
    ]);
    let moved = triangle.transform_triangle(&translation);
    assert_eq!(moved.v0.vertex, Vec3::new(1 * SUBPIX + 10, 2 * SUBPIX + 20, 30));
    assert_eq!(moved.v1.vertex, Vec3::new(3 * SUBPIX + 10, 4 * SUBPIX + 20, 30));
    assert_eq!(moved.v2.vertex, Vec3::new(5 * SUBPIX + 10, 6 * SUBPIX + 20, 30));
    assert_eq!(moved.v0.attributes.colour, red());
    assert_eq!(moved.v1.attributes.colour, green());
    assert_eq!(moved.v2.attributes.colour, blue());

    let mut in_place = triangle;
    in_place.transform_this_triangle(&translation);
    assert_eq!(in_place.v0.vertex, moved.v0.vertex);
    assert_eq!(in_place.v1.vertex, moved.v1.vertex);
    assert_eq!(in_place.v2.vertex, moved.v2.vertex);
}

#[test]
fn test_interpolated_corner_colours() {
    // At a pixel centre essentially on a vertex, the interpolated colour
    // is dominated by that vertex's colour; exactly at the centroid of a
    // symmetric triangle the three weights are equal.
    let triangle = Triangle {
        v0: vertex_at(0, 0, red()),
        v1: vertex_at(6, 0, green()),
        v2: vertex_at(0, 6, blue()),
    };
    let mut fb = blank_buffer(8, 8);
    rasterise_triangle(&triangle, &mut fb, &WindingOrder::CCW);
    // Centroid of (0,0),(6,0),(0,6) is (2,2); the centre of pixel (1,1)
    // lies strictly inside near the red corner.
    let near_red = fb.read_buf(0, 0).unwrap();
    assert!(near_red.red > near_red.green && near_red.red > near_red.blue);
    let inside = fb.read_buf(2, 2).unwrap();
    assert_eq!(inside.alpha, 255);
    // Every covered pixel keeps full opacity: the alpha channel is 255
    // at all three vertices, and a weighted average of equal bytes is
    // that byte, up to the final floor division.
    assert!(inside.red > 0 && inside.green > 0 && inside.blue > 0);
}
