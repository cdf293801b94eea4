use vstd::prelude::*;

verus! {

/// A request for a font file.
pub struct FontRequest {
    pub file: String,
}

impl FontRequest {
    pub fn new(file: String) -> (r: FontRequest)
        ensures
            r.file == file,
    {
        FontRequest { file }
    }
}

} // verus!
