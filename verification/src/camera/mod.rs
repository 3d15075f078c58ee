//! The camera link: DUML frames, the records the facade packs them into, the commands
//! the shell sends, pairing, and joining the camera's network.

pub mod command;
pub mod duml;
pub mod pairing;
pub mod session;
pub mod types;
pub mod wifi;
