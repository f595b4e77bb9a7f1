//! Adaptive embedded Runge-Kutta integration of Hamiltonian dynamical
//! systems over a fixed-point scalar type.
//!
//! The crate is organised in three layers:
//! - [`fixed`]: exact Q32.32 fixed-point arithmetic on `i64`, with every
//!   operation specified down to its floor-rounding behaviour;
//! - [`physics`]: phase-space states and the [`physics::Hamiltonian`]
//!   interface with the two- and three-body gravitational systems;
//! - [`rungekutta`]: the adaptive Runge-Kutta-Fehlberg 4(5) integrator and
//!   its step-size controller.

pub mod fixed;
pub mod physics;
pub mod rungekutta;
