//! What the window asks of the thread that fetches from the camera.

use vstd::prelude::*;

use crate::media::model::MediaFile;

verus! {

/// A request to the media thread.
#[derive(Debug, Clone)]
pub enum MediaJob {
    /// The `.scr` thumbnail, decoded for the grid. Served from the cache when present.
    Thumb(MediaFile),
    /// The proxy to `play/`, for the player. Falls back to the original.
    Proxy(MediaFile),
    /// The original to `files/`.
    Original(MediaFile),
    /// A still, decoded for the viewer. Served from `files/` when cached.
    Photo(MediaFile),
    /// A body change: which store rule applies.
    SingleSd(bool),
}

} // verus!
