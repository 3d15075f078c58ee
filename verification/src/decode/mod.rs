//! Recorded elementary streams: splitting Annex-B bytes back into access units, and
//! reading which codec wrote them and whether a unit decodes on its own.

pub mod annexb;
pub mod codec;
