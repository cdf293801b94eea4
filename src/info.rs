use vstd::prelude::*;

use crate::decimal::Decimal;
use crate::error::{ApiErr, ApiErrorType};
use crate::search::Status;
use std::collections::HashMap;

verus! {

/// A request for the details of a manga.
pub struct MangaInfoRequest {
    pub manga_id: String,
}

/// The details of a manga.
pub struct MangaInfoResponse {
    pub manga_id: String,
    pub titles: HashMap<String, Vec<String>>,
    pub kind: String,
    pub description: Option<String>,
    pub tags: Vec<Tag>,
    pub status: Status,
    pub visibility: Visibility,
    pub uploader: String,
    pub my: bool,
    pub artists: Vec<String>,
    pub authors: Vec<String>,
    pub cover: u32,
    pub cover_ext: String,
    pub chapters: Vec<Chapter>,
    pub sources: Vec<ExternalSite>,
    pub relations: Vec<(String, String)>,
    pub scraper: bool,
    pub favorite: bool,
    /// The manga id of the reading progress.
    pub progress: Option<String>,
}

/// A link to the manga on another site.
pub struct ExternalSite {
    pub url: String,
    pub icon_uri: String,
}

/// A chapter as listed in the details; `chapter` is its number.
pub struct Chapter {
    pub titles: Vec<String>,
    pub chapter: Decimal,
    pub tags: Vec<Tag>,
    pub sources: Vec<String>,
    pub release_date: Option<String>,
}

pub struct Tag {
    pub tag: String,
    pub description: Option<String>,
    pub sex: u64,
}

/// Who may see a manga.
#[derive(Clone, Copy, Debug, PartialEq, Eq, Structural)]
pub enum Visibility {
    /// Everyone
    Visible,
    /// Admins, co-admins, moderators and the author
    Hidden,
    /// Admins, co-admins and moderators
    AdminReview,
}

/// The stored code of a visibility.
pub open spec fn visibility_code(v: Visibility) -> u64 {
    match v {
        Visibility::Visible => 0,
        Visibility::Hidden => 1,
        Visibility::AdminReview => 2,
    }
}

impl Visibility {
    /// The visibility stored under `value`; codes above 2 are an internal
    /// error.
    pub fn from_code(value: u64) -> (r: Result<Visibility, ApiErr>)
        ensures
            value <= 2 <==> r is Ok,
            r matches Ok(v) ==> visibility_code(v) == value,
            r matches Err(e) ==> (e.err_type == ApiErrorType::InternalError && e.cause is None
                && (e.message matches Some(m) && m@ == "unknown visibility"@)),
    {
        match value {
            0 => Ok(Visibility::Visible),
            1 => Ok(Visibility::Hidden),
            2 => Ok(Visibility::AdminReview),
            _ => Err(
                ApiErr {
                    message: Some(String::from_str("unknown visibility")),
                    cause: None,
                    err_type: ApiErrorType::InternalError,
                },
            ),
        }
    }
}

impl TryFrom<u64> for Visibility {
    type Error = ApiErr;

    fn try_from(value: u64) -> (r: Result<Visibility, ApiErr>)
        ensures
            value <= 2 <==> r is Ok,
            r matches Ok(v) ==> visibility_code(v) == value,
            r matches Err(e) ==> (e.err_type == ApiErrorType::InternalError && e.cause is None
                && (e.message matches Some(m) && m@ == "unknown visibility"@)),
    {
        Visibility::from_code(value)
    }
}

/// The error carries a `String`, which no spec value can name, so the
/// trait-level specification is switched off; `try_from` states its own
/// contract instead.
impl vstd::std_specs::convert::TryFromSpecImpl<u64> for Visibility {
    open spec fn obeys_try_from_spec() -> bool {
        false
    }

    open spec fn try_from_spec(v: u64) -> Result<Visibility, ApiErr> {
        Ok(Visibility::Visible)
    }
}

} // verus!
