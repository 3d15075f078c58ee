//! The desktop side of an Osmo Pocket viewfinder: the wire formats, state machines
//! and library rules that decide what the window shows and what goes to the camera.

pub mod camera;
pub mod decode;
pub mod media;
pub mod monitor;
pub mod relay;
pub mod render;
pub mod text;
