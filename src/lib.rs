//! Planar inverse kinematics: chains of joints pulled towards a target by
//! forward and backward reaching, with fixed bone lengths and joint limits.
pub mod chain;
pub mod solve;

pub use chain::{
    Bone, IKConstraint, IKTarget, Joint, JointConstraint, JointRest, Pose, RestPoseError,
    RestState,
};
pub use solve::{iteration_plan, Step};
