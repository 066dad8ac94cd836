//! A 3x3x3 twisting puzzle modeled as 26 exactly-tracked cubelets, with a
//! verified turn engine, a random move generator that never cancels the
//! previous turn, and a real-time controller that scrambles the solved cube
//! and then reverses its own scramble exactly, forever.

pub mod laws;
pub mod random_source;
pub mod rotation;
pub mod rubik_model;
pub mod solver;
