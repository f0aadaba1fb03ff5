//! Camera behavior: rotation identity and inverse, resize effects, and the
//! derived matrices against the math library they rely on.
use nugget::camera::ArcCamera;

const FOV_Y: f32 = 0.785398163f32;

fn vec3_of(bits: [u32; 3]) -> glam::Vec3 {
    glam::Vec3::new(
        f32::from_bits(bits[0]),
        f32::from_bits(bits[1]),
        f32::from_bits(bits[2]),
    )
}

fn mat_of(bits: [u32; 16]) -> glam::Mat4 {
    let mut cols = [0f32; 16];
    for i in 0..16 {
        cols[i] = f32::from_bits(bits[i]);
    }
    glam::Mat4::from_cols_array(&cols)
}

#[test]
fn camera_starts_on_the_x_axis_looking_at_the_origin() {
    let c = ArcCamera::new(800, 600);
    assert_eq!(vec3_of(c.eye), glam::Vec3::new(2.0, 0.0, 0.0));
    assert_eq!(vec3_of(c.target), glam::Vec3::ZERO);
    assert_eq!(vec3_of(c.up), glam::Vec3::Y);
}

#[test]
fn camera_view_matrix_matches_the_math_library() {
    let c = ArcCamera::new(800, 600);
    let expected = glam::Mat4::look_at_lh(
        glam::Vec3::new(2.0, 0.0, 0.0),
        glam::Vec3::ZERO,
        glam::Vec3::Y,
    );
    assert_eq!(mat_of(c.view_matrix()), expected);
    assert_eq!(mat_of(c.uniforms.view_matrix), expected);
}

#[test]
fn camera_projection_matrix_matches_the_math_library() {
    let c = ArcCamera::new(800, 600);
    let expected = glam::Mat4::perspective_lh(FOV_Y, 800.0 / 600.0, 0.1, 100.0);
    assert_eq!(mat_of(c.projection_matrix()), expected);
    assert_eq!(mat_of(c.uniforms.projection_matrix), expected);
}

#[test]
fn camera_rotate_by_zero_leaves_eye_and_up_unchanged() {
    let mut c = ArcCamera::new(800, 600);
    let eye = c.eye;
    let up = c.up;
    c.rotate(0f32.to_bits(), 0f32.to_bits());
    assert_eq!(c.eye, eye);
    assert_eq!(c.up, up);
}

#[test]
fn camera_rotate_and_rotate_back_returns_the_eye() {
    let mut c = ArcCamera::new(800, 600);
    let before = vec3_of(c.eye);
    c.rotate(25f32.to_bits(), 0f32.to_bits());
    assert!(vec3_of(c.eye).distance(before) > 1e-3);
    c.rotate((-25f32).to_bits(), 0f32.to_bits());
    let after = vec3_of(c.eye);
    assert!(after.distance(before) < 1e-5);
}

#[test]
fn camera_rotation_follows_the_documented_composition() {
    let mut c = ArcCamera::new(800, 600);
    let eye = vec3_of(c.eye);
    let target = vec3_of(c.target);
    let up = vec3_of(c.up);
    let (dx, dy) = (3.0f32, -7.0f32);
    c.rotate(dx.to_bits(), dy.to_bits());
    let axis = eye.cross(up).normalize();
    let rotation = glam::Quat::from_axis_angle(axis, dy * 0.01)
        * glam::Quat::from_axis_angle(up, dx * 0.01);
    let expected_eye = rotation * (eye - target) + target;
    let expected_up = (rotation * up).normalize();
    assert_eq!(vec3_of(c.eye), expected_eye);
    assert_eq!(vec3_of(c.up), expected_up);
}

#[test]
fn camera_resize_changes_only_the_aspect_terms() {
    let mut c = ArcCamera::new(800, 600);
    let view_before = c.uniforms.view_matrix;
    let proj_before = c.uniforms.projection_matrix;
    c.resize_viewport(400, 600);
    // the view matrix bytes are untouched
    assert_eq!(c.uniforms.view_matrix, view_before);
    // the projection changes exactly in its aspect-dependent entry
    let proj_after = c.uniforms.projection_matrix;
    assert_ne!(proj_after[0], proj_before[0]);
    for i in 1..16 {
        assert_eq!(proj_after[i], proj_before[i]);
    }
    let expected = glam::Mat4::perspective_lh(FOV_Y, 400.0 / 600.0, 0.1, 100.0);
    assert_eq!(mat_of(proj_after), expected);
}

#[test]
fn camera_rotation_keeps_the_viewport_and_target() {
    let mut c = ArcCamera::new(1024, 768);
    c.rotate(5f32.to_bits(), 9f32.to_bits());
    assert_eq!(c.width, 1024);
    assert_eq!(c.height, 768);
    assert_eq!(vec3_of(c.target), glam::Vec3::ZERO);
}
