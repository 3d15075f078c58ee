//! Turning collected chunks into records.

use vstd::prelude::*;

use crate::media::model::MediaFile;

verus! {

#[derive(Debug, Clone, PartialEq, Eq)]
pub enum CatalogError {
    /// The core refused the blobs.
    Core(i64),
    /// The core's JSON did not read as records.
    Json(String),
}

/// The status a build without the camera core reports for any catalogue.
pub const NO_CORE: i64 = -1;

/// Decodes one page: the counter-1 blob, the counter-2 blob, and every chunk merged.
/// Nothing collected is an empty page, not a call to the decoder.
pub fn decode_page(sd: &[u8], internal: &[u8], merged: &[u8]) -> (res: Result<
    Vec<MediaFile>,
    CatalogError,
>)
    ensures
        sd@.len() == 0 && internal@.len() == 0 && merged@.len() == 0 ==> (res matches Ok(files)
            && files@.len() == 0),
        !(sd@.len() == 0 && internal@.len() == 0 && merged@.len() == 0) ==> res
            == decode_with_core_result(),
{
    if sd.len() == 0 && internal.len() == 0 && merged.len() == 0 {
        return Ok(Vec::new());
    }
    decode_with_core(sd, internal, merged)
}

/// What the catalogue decoder answers in a build that has no camera core beside it.
pub open spec fn decode_with_core_result() -> Result<Vec<MediaFile>, CatalogError> {
    Err(CatalogError::Core(NO_CORE))
}

/// Without the camera core beside the build there is nothing to decode with.
fn decode_with_core(sd: &[u8], internal: &[u8], merged: &[u8]) -> (res: Result<
    Vec<MediaFile>,
    CatalogError,
>)
    ensures
        res == decode_with_core_result(),
{
    Err(CatalogError::Core(NO_CORE))
}

} // verus!
