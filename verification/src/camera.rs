//! The arc-ball camera.
//!
//! The camera orbits a target point: a two-axis input delta rotates the eye
//! about the up vector and about the axis perpendicular to eye and up, and
//! the up vector is re-normalized after each rotation to prevent drift. The
//! view matrix depends only on eye, target and up; the projection matrix
//! only on the viewport and the fixed lens constants. All scalars are
//! IEEE-754 single bit patterns.
use vstd::prelude::*;

use crate::linalg::{
    axis_angle_quat, float_of_int, float_product, float_quotient, floats_div, floats_mul,
    look_at_matrix, mat_look_at_lh, mat_perspective_lh, perspective_matrix, quat_from_axis_angle,
    quat_mul, quat_product, quat_rotate_vec3, quat_rotated, vec3_add, vec3_cross, vec3_normalize,
    vec3_sub, vec_cross, vec_difference, vec_normalized, vec_sum, Mat, Vec3Bits, F32_ONE, F32_TWO,
};
use crate::uniform::CameraBinding;

verus! {

/// Bit pattern of the vertical field of view in radians (45 degrees).
pub const FOV_Y_RADIANS: u32 = 0x3F49_0FDB;

/// Bit pattern of the near clip distance (0.1).
pub const Z_NEAR: u32 = 0x3DCC_CCCD;

/// Bit pattern of the far clip distance (100.0).
pub const Z_FAR: u32 = 0x42C8_0000;

/// Bit pattern of the rotation sensitivity (0.01 radians per input unit).
pub const ROTATE_SENSITIVITY: u32 = 0x3C23_D70A;

/// The view matrix for an eye, a target and an up vector.
pub open spec fn spec_view_matrix(eye: Seq<u32>, target: Seq<u32>, up: Seq<u32>) -> Seq<u32> {
    look_at_matrix(eye, target, up)
}

/// The aspect ratio of a viewport: width over height.
pub open spec fn spec_aspect(width: u32, height: u32) -> u32 {
    float_quotient(float_of_int(width), float_of_int(height))
}

/// The projection matrix for a viewport: the fixed lens constants with the
/// viewport's aspect ratio.
pub open spec fn spec_projection_matrix(width: u32, height: u32) -> Seq<u32> {
    perspective_matrix(FOV_Y_RADIANS, spec_aspect(width, height), Z_NEAR, Z_FAR)
}

/// The combined rotation an input delta applies: about the axis
/// perpendicular to eye and up by the vertical delta, composed with a
/// rotation about up by the horizontal delta, both scaled by the
/// sensitivity.
pub open spec fn spec_rotation_quat(eye: Seq<u32>, up: Seq<u32>, dx: u32, dy: u32) -> Seq<u32> {
    quat_product(
        axis_angle_quat(
            vec_normalized(vec_cross(eye, up)),
            float_product(dy, ROTATE_SENSITIVITY),
        ),
        axis_angle_quat(up, float_product(dx, ROTATE_SENSITIVITY)),
    )
}

/// Where the eye moves under an input delta: the eye-minus-target vector is
/// rotated, then translated back by the target.
pub open spec fn spec_rotated_eye(
    eye: Seq<u32>,
    target: Seq<u32>,
    up: Seq<u32>,
    dx: u32,
    dy: u32,
) -> Seq<u32> {
    vec_sum(
        quat_rotated(spec_rotation_quat(eye, up, dx, dy), vec_difference(eye, target)),
        target,
    )
}

/// Where the up vector moves under an input delta: rotated, then
/// re-normalized.
pub open spec fn spec_rotated_up(eye: Seq<u32>, up: Seq<u32>, dx: u32, dy: u32) -> Seq<u32> {
    vec_normalized(quat_rotated(spec_rotation_quat(eye, up, dx, dy), up))
}

/// An arc-ball camera: its orbit state, its viewport, and its uniform
/// record holding the derived view and projection matrices.
#[derive(Debug)]
pub struct ArcCamera {
    pub eye: Vec3Bits,
    pub target: Vec3Bits,
    pub up: Vec3Bits,
    pub width: u32,
    pub height: u32,
    pub uniforms: CameraBinding,
}

impl ArcCamera {
    /// The uniform record holds exactly the matrices the orbit state and
    /// viewport derive.
    pub open spec fn wf(self) -> bool {
        &&& self.uniforms.view_matrix@ == spec_view_matrix(self.eye@, self.target@, self.up@)
        &&& self.uniforms.projection_matrix@ == spec_projection_matrix(self.width, self.height)
    }

    /// Creates the camera at its initial orbit: the eye two units along the
    /// x axis, looking at the origin with y up.
    pub fn new(width: u32, height: u32) -> (r: ArcCamera)
        ensures
            r.wf(),
            r.eye@ =~= seq![F32_TWO, 0u32, 0u32],
            r.target@ =~= seq![0u32, 0u32, 0u32],
            r.up@ =~= seq![0u32, F32_ONE, 0u32],
            r.width == width,
            r.height == height,
    {
        let eye: Vec3Bits = [F32_TWO, 0u32, 0u32];
        let target: Vec3Bits = [0u32, 0u32, 0u32];
        let up: Vec3Bits = [0u32, F32_ONE, 0u32];
        let view_matrix = mat_look_at_lh(&eye, &target, &up);
        let projection_matrix = ArcCamera::calculate_projection_matrix(width, height);
        ArcCamera {
            eye,
            target,
            up,
            width,
            height,
            uniforms: CameraBinding { view_matrix, projection_matrix },
        }
    }

    fn calculate_projection_matrix(width: u32, height: u32) -> (r: Mat)
        ensures
            r@ == spec_projection_matrix(width, height),
    {
        let wh = crate::linalg::ints_to_floats(width, height);
        let denom: [u32; 2] = [wh[1], wh[1]];
        let q = floats_div(&wh, &denom);
        mat_perspective_lh(FOV_Y_RADIANS, q[0], Z_NEAR, Z_FAR)
    }

    /// The view matrix the current orbit state derives.
    pub fn view_matrix(&self) -> (r: Mat)
        ensures
            r@ == spec_view_matrix(self.eye@, self.target@, self.up@),
    {
        mat_look_at_lh(&self.eye, &self.target, &self.up)
    }

    /// The projection matrix the current viewport derives.
    pub fn projection_matrix(&self) -> (r: Mat)
        ensures
            r@ == spec_projection_matrix(self.width, self.height),
    {
        ArcCamera::calculate_projection_matrix(self.width, self.height)
    }

    fn uniforms_data(&self) -> (r: CameraBinding)
        ensures
            r.view_matrix@ == spec_view_matrix(self.eye@, self.target@, self.up@),
            r.projection_matrix@ == spec_projection_matrix(self.width, self.height),
    {
        CameraBinding {
            view_matrix: self.view_matrix(),
            projection_matrix: self.projection_matrix(),
        }
    }

    /// Adopts a new viewport size. Only the projection matrix depends on
    /// the viewport: the orbit state is untouched, and the recomputed view
    /// matrix equals the old one word for word whenever the record was
    /// consistent.
    pub fn resize_viewport(&mut self, width: u32, height: u32)
        ensures
            final(self).eye == old(self).eye,
            final(self).target == old(self).target,
            final(self).up == old(self).up,
            final(self).width == width,
            final(self).height == height,
            final(self).wf(),
            old(self).wf() ==> final(self).uniforms.view_matrix@
                == old(self).uniforms.view_matrix@,
    {
        self.width = width;
        self.height = height;
        self.uniforms = self.uniforms_data();
    }

    /// Rotates the orbit by an input delta (bit patterns of the two scroll
    /// components): the eye swings around the target under the combined
    /// rotation, and the up vector follows, re-normalized.
    pub fn rotate(&mut self, dx: u32, dy: u32)
        ensures
            final(self).eye@ == spec_rotated_eye(
                old(self).eye@,
                old(self).target@,
                old(self).up@,
                dx,
                dy,
            ),
            final(self).up@ == spec_rotated_up(old(self).eye@, old(self).up@, dx, dy),
            final(self).target == old(self).target,
            final(self).width == old(self).width,
            final(self).height == old(self).height,
            final(self).wf(),
    {
        let cross = vec3_cross(&self.eye, &self.up);
        let axis = vec3_normalize(&cross);
        let delta: [u32; 2] = [dx, dy];
        let sensitivity: [u32; 2] = [ROTATE_SENSITIVITY, ROTATE_SENSITIVITY];
        let angles = floats_mul(&delta, &sensitivity);
        let vertical = quat_from_axis_angle(&axis, angles[1]);
        let horizontal = quat_from_axis_angle(&self.up, angles[0]);
        let rotation = quat_mul(&vertical, &horizontal);
        let relative = vec3_sub(&self.eye, &self.target);
        let rotated = quat_rotate_vec3(&rotation, &relative);
        self.eye = vec3_add(&rotated, &self.target);
        let rotated_up = quat_rotate_vec3(&rotation, &self.up);
        self.up = vec3_normalize(&rotated_up);
        self.uniforms = self.uniforms_data();
    }
}

} // verus!
