use vstd::prelude::*;

verus! {

/// A request for a manga's cover image.
pub struct MangaCoverRequest {
    pub manga_id: String,
    pub file_ext: String,
}

/// A request for one page image of a chapter version.
pub struct MangaReaderImageRequest {
    pub manga_id: String,
    pub chapter_id: String,
    pub version_id: String,
    pub page: u32,
    pub file_ext: String,
}

} // verus!
