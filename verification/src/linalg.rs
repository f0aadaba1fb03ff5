//! Bit-pattern linear algebra.
//!
//! Matrices, vectors and quaternions are stored as arrays of IEEE-754 single
//! bit patterns (`u32` words, column-major for matrices). The arithmetic on
//! them is done by `glam` behind trusted wrappers; each wrapper's result is
//! pinned to an uninterpreted name, so that every verified computation over
//! transforms is exact up to those names.
use vstd::prelude::*;

verus! {

/// A 4x4 transform: 16 single-precision bit patterns, column-major.
pub type Mat = [u32; 16];

/// A 3-component vector of single-precision bit patterns.
pub type Vec3Bits = [u32; 3];

/// A quaternion (x, y, z, w) of single-precision bit patterns.
pub type QuatBits = [u32; 4];

/// Bit pattern of `1.0f32`.
pub const F32_ONE: u32 = 0x3F80_0000;

/// Bit pattern of `-1.0f32`.
pub const F32_NEG_ONE: u32 = 0xBF80_0000;

/// Bit pattern of `2.0f32`.
pub const F32_TWO: u32 = 0x4000_0000;

/// The product `a * b` of two column-major matrices, as glam computes it.
pub uninterp spec fn mat_product(a: Seq<u32>, b: Seq<u32>) -> Seq<u32>;

/// The left-handed view matrix for an eye, a target and an up vector, as glam
/// computes it.
pub uninterp spec fn look_at_matrix(eye: Seq<u32>, target: Seq<u32>, up: Seq<u32>) -> Seq<u32>;

/// The left-handed perspective projection matrix for a vertical field of
/// view, an aspect ratio and two clip distances, as glam computes it.
pub uninterp spec fn perspective_matrix(fov_y: u32, aspect: u32, z_near: u32, z_far: u32) -> Seq<
    u32,
>;

/// The single-precision value of an unsigned integer.
pub uninterp spec fn float_of_int(x: u32) -> u32;

/// The single-precision quotient `a / b`.
pub uninterp spec fn float_quotient(a: u32, b: u32) -> u32;

/// The single-precision product `a * b`.
pub uninterp spec fn float_product(a: u32, b: u32) -> u32;

/// The cross product `a x b`, as glam computes it.
pub uninterp spec fn vec_cross(a: Seq<u32>, b: Seq<u32>) -> Seq<u32>;

/// `v` scaled to unit length, as glam computes it.
pub uninterp spec fn vec_normalized(v: Seq<u32>) -> Seq<u32>;

/// The component-wise sum `a + b`.
pub uninterp spec fn vec_sum(a: Seq<u32>, b: Seq<u32>) -> Seq<u32>;

/// The component-wise difference `a - b`.
pub uninterp spec fn vec_difference(a: Seq<u32>, b: Seq<u32>) -> Seq<u32>;

/// The quaternion for a rotation about `axis` by `angle` radians, as glam
/// computes it.
pub uninterp spec fn axis_angle_quat(axis: Seq<u32>, angle: u32) -> Seq<u32>;

/// The Hamilton product `a * b`, as glam computes it.
pub uninterp spec fn quat_product(a: Seq<u32>, b: Seq<u32>) -> Seq<u32>;

/// The vector `v` rotated by the quaternion `q`, as glam computes it.
pub uninterp spec fn quat_rotated(q: Seq<u32>, v: Seq<u32>) -> Seq<u32>;

/// Relies on glam's `Mat4` multiplication: `a * b` composes the two
/// transforms (`b` applied first).
#[verifier::external_body]
pub(crate) fn mat_mul(a: &Mat, b: &Mat) -> (r: Mat)
    ensures
        r@ == mat_product(a@, b@),
{
    let ma: glam::Mat4 = bytemuck::cast(*a);
    let mb: glam::Mat4 = bytemuck::cast(*b);
    bytemuck::cast(ma * mb)
}

/// Relies on glam's `Mat4::look_at_lh`: the left-handed view matrix.
#[verifier::external_body]
pub(crate) fn mat_look_at_lh(eye: &Vec3Bits, target: &Vec3Bits, up: &Vec3Bits) -> (r: Mat)
    ensures
        r@ == look_at_matrix(eye@, target@, up@),
{
    let e: glam::Vec3 = bytemuck::cast(*eye);
    let t: glam::Vec3 = bytemuck::cast(*target);
    let u: glam::Vec3 = bytemuck::cast(*up);
    bytemuck::cast(glam::Mat4::look_at_lh(e, t, u))
}

/// Relies on glam's `Mat4::perspective_lh`: the left-handed perspective
/// projection matrix.
#[verifier::external_body]
pub(crate) fn mat_perspective_lh(fov_y: u32, aspect: u32, z_near: u32, z_far: u32) -> (r: Mat)
    ensures
        r@ == perspective_matrix(fov_y, aspect, z_near, z_far),
{
    bytemuck::cast(
        glam::Mat4::perspective_lh(
            bytemuck::cast(fov_y),
            bytemuck::cast(aspect),
            bytemuck::cast(z_near),
            bytemuck::cast(z_far),
        ),
    )
}

/// Relies on glam's `UVec2::as_vec2`: each component becomes the
/// single-precision value of the integer.
#[verifier::external_body]
pub(crate) fn ints_to_floats(x: u32, y: u32) -> (r: [u32; 2])
    ensures
        r@[0] == float_of_int(x),
        r@[1] == float_of_int(y),
{
    bytemuck::cast(glam::UVec2::new(x, y).as_vec2())
}

/// Relies on glam's component-wise `Vec2` division.
#[verifier::external_body]
pub(crate) fn floats_div(a: &[u32; 2], b: &[u32; 2]) -> (r: [u32; 2])
    ensures
        r@[0] == float_quotient(a@[0], b@[0]),
        r@[1] == float_quotient(a@[1], b@[1]),
{
    let va: glam::Vec2 = bytemuck::cast(*a);
    let vb: glam::Vec2 = bytemuck::cast(*b);
    bytemuck::cast(va / vb)
}

/// Relies on glam's component-wise `Vec2` multiplication.
#[verifier::external_body]
pub(crate) fn floats_mul(a: &[u32; 2], b: &[u32; 2]) -> (r: [u32; 2])
    ensures
        r@[0] == float_product(a@[0], b@[0]),
        r@[1] == float_product(a@[1], b@[1]),
{
    let va: glam::Vec2 = bytemuck::cast(*a);
    let vb: glam::Vec2 = bytemuck::cast(*b);
    bytemuck::cast(va * vb)
}

/// Relies on glam's `Vec3::cross`.
#[verifier::external_body]
pub(crate) fn vec3_cross(a: &Vec3Bits, b: &Vec3Bits) -> (r: Vec3Bits)
    ensures
        r@ == vec_cross(a@, b@),
{
    let va: glam::Vec3 = bytemuck::cast(*a);
    let vb: glam::Vec3 = bytemuck::cast(*b);
    bytemuck::cast(va.cross(vb))
}

/// Relies on glam's `Vec3::normalize`.
#[verifier::external_body]
pub(crate) fn vec3_normalize(v: &Vec3Bits) -> (r: Vec3Bits)
    ensures
        r@ == vec_normalized(v@),
{
    let vv: glam::Vec3 = bytemuck::cast(*v);
    bytemuck::cast(vv.normalize())
}

/// Relies on glam's `Vec3` addition.
#[verifier::external_body]
pub(crate) fn vec3_add(a: &Vec3Bits, b: &Vec3Bits) -> (r: Vec3Bits)
    ensures
        r@ == vec_sum(a@, b@),
{
    let va: glam::Vec3 = bytemuck::cast(*a);
    let vb: glam::Vec3 = bytemuck::cast(*b);
    bytemuck::cast(va + vb)
}

/// Relies on glam's `Vec3` subtraction.
#[verifier::external_body]
pub(crate) fn vec3_sub(a: &Vec3Bits, b: &Vec3Bits) -> (r: Vec3Bits)
    ensures
        r@ == vec_difference(a@, b@),
{
    let va: glam::Vec3 = bytemuck::cast(*a);
    let vb: glam::Vec3 = bytemuck::cast(*b);
    bytemuck::cast(va - vb)
}

/// Relies on glam's `Quat::from_axis_angle`.
#[verifier::external_body]
pub(crate) fn quat_from_axis_angle(axis: &Vec3Bits, angle: u32) -> (r: QuatBits)
    ensures
        r@ == axis_angle_quat(axis@, angle),
{
    let a: glam::Vec3 = bytemuck::cast(*axis);
    bytemuck::cast(glam::Quat::from_axis_angle(a, bytemuck::cast(angle)))
}

/// Relies on glam's `Quat` multiplication (rotation composition).
#[verifier::external_body]
pub(crate) fn quat_mul(a: &QuatBits, b: &QuatBits) -> (r: QuatBits)
    ensures
        r@ == quat_product(a@, b@),
{
    let qa: glam::Quat = bytemuck::cast(*a);
    let qb: glam::Quat = bytemuck::cast(*b);
    bytemuck::cast(qa * qb)
}

/// Relies on glam's `Quat * Vec3`: rotates the vector by the quaternion.
#[verifier::external_body]
pub(crate) fn quat_rotate_vec3(q: &QuatBits, v: &Vec3Bits) -> (r: Vec3Bits)
    ensures
        r@ == quat_rotated(q@, v@),
{
    let qq: glam::Quat = bytemuck::cast(*q);
    let vv: glam::Vec3 = bytemuck::cast(*v);
    bytemuck::cast(qq * vv)
}

} // verus!
