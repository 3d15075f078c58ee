//! What the renderer hands back and what it is told per frame, and how the chrome's
//! pixels are laid over the overlay, and a still as PNG bytes.

pub mod blend;
pub mod picture;
pub mod still;
