//! The verified rules of a top-down sonar survival game: the HUD's kill
//! counter and clock text, the keyboard steering direction and the collision
//! layers.

pub mod layer;
pub mod movement;
pub mod stats;
pub mod text;
