//! Decoding of captured link-layer frames, the decisions of the bridges that
//! stream them to observers, and discovery of the hosts on an attached /24.
pub mod bridge;
pub mod decode;
pub mod discovery;
pub mod interfaces;
