//! Product-of-exponentials kinematics for a six-joint serial arm, laid out as
//! straight-line arithmetic programs over exact numbers.
//!
//! Every routine appends instructions to a [`program::Program`] and hands back
//! the wires that carry its results. What a wire is worth is a function of the
//! values read on the program's inputs, and each contract states that worth as
//! a formula of rigid-body algebra. A host runs the finished program on numbers
//! of its choice, one instruction after the other.
pub mod program;
pub mod linalg;
pub mod rigid;
pub mod math_utils;
pub mod kinematics;
pub mod rotation;
pub mod solver;
