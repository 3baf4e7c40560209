//! A first-person raycasting core over a fixed 2D tile grid.
//!
//! All world geometry is carried in signed 16.16 fixed-point integers, so the
//! whole pipeline — trigonometry, ray marching, perspective projection and
//! distance shading — is exact integer arithmetic with proved contracts.
//! Rendering and input polling are left to the host program.

pub mod fixed;
pub mod grid;
pub mod viewer;
pub mod caster;
