use softrender::linear_algebra::{Matrix44, Vec2, Vec3};

#[test]
fn test_dot() {
    let v1 = Vec3::new(3, 4, 5);
    let v2 = Vec3::new(4, 2, 5);

    let dot = v1.dot(&v2);
    assert_eq!(dot, 45);
}

#[test]
fn test_cross() {
    let v1 = Vec3::new(1, 2, 3);
    let v2 = Vec3::new(4, 5, 6);

    let cross = v1.cross(&v2);
    assert_eq!(cross, Vec3::new(-3, 6, -3));
}

#[test]
fn test_mult_matrix() {
    let vec = Vec3::new(3, 2, 4);

    let transformation = Matrix44::new([
        [0, 1, 0, 0],
        [1, 0, 0, 0],
        [0, 0, 1, 0],
        [0, 0, 0, 0],
    ]);

    let transformed_vec = Vec3::new(2, 3, 4);
    assert_eq!(vec.mult_matrix(&transformation), transformed_vec);
}

#[test]
fn test_homogeneneous_mult_matrix() {
    let vec = Vec3::new(3, 2, 4);

    let transformation = Matrix44::new([
        [1, 0, 0, 0],
        [0, 1, 0, 0],
        [0, 0, 1, 0],
        [10, 3, 5, 1],
    ]);

    let transformed_vec = Vec3::new(13, 5, 9);
    assert_eq!(vec.homogeneous_mult_matrix(&transformation), transformed_vec);
}

#[test]
fn test_matrix_multiplication() {
    let a = Matrix44::new([
        [1, 0, 3, 4],
        [5, 2, 1, 2],
        [2, 1, 5, 6],
        [1, 2, 0, 4],
    ]);

    let b = a.transpose();

    let c = Matrix44::new([
        [26, 16, 41, 17],
        [16, 34, 29, 17],
        [41, 29, 66, 28],
        [17, 17, 28, 21],
    ]);

    assert_eq!(a.multiply(&b), c);
}

#[test]
fn test_identity_transform() {
    let vec = Vec3::new(7, -3, 2);
    let id = Matrix44::identity();
    assert_eq!(vec.homogeneous_mult_matrix(&id), vec);
}

#[test]
fn test_vec_constructors() {
    assert_eq!(Vec2::splat(5), Vec2::new(5, 5));
    assert_eq!(Vec3::splat(7), Vec3::new(7, 7, 7));
    assert_eq!(Vec2::from_vec3(&Vec3::new(1, 2, 3)), Vec2::new(1, 2));
    assert_eq!(Vec3::from_vec2(&Vec2::new(1, 2), 9), Vec3::new(1, 2, 9));
}
