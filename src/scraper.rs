use vstd::prelude::*;

use crate::error::{ApiErr, ApiErrorType};
use crate::search::{DisplaySearch, Status};
use std::collections::HashMap;

verus! {

/// A search on an outside site.
pub struct ExternalSearchRequest {
    pub data: ExternalSearchData,
    pub uri: String,
}

/// A structured search, or a plain query text with a page number.
pub enum ExternalSearchData {
    Simple(SimpleSearch),
    String((String, u32)),
}

impl ExternalSearchData {
    /// The structured search; a plain query is invalid input.
    pub fn get_simple(self) -> (r: Result<SimpleSearch, ApiErr>)
        ensures
            self matches ExternalSearchData::Simple(s) ==> r == Ok::<SimpleSearch, ApiErr>(s),
            self is String ==> (r matches Err(e) && e.err_type == ApiErrorType::InvalidInput
                && e.cause is None && (e.message matches Some(m) && m@ == "wrong ExternalSearchData type"@)),
    {
        match self {
            ExternalSearchData::Simple(s) => Ok(s),
            _ => Err(
                ApiErr {
                    message: Some(String::from_str("wrong ExternalSearchData type")),
                    cause: None,
                    err_type: ApiErrorType::InvalidInput,
                },
            ),
        }
    }

    /// The query text and page: a structured search gives its search text
    /// (empty when absent) and its page.
    pub fn get_query(self) -> (r: (String, u32))
        ensures
            self matches ExternalSearchData::String(q) ==> r == q,
            self matches ExternalSearchData::Simple(s) ==> r.1 == s.page && (match s.search {
                Some(t) => r.0 == t,
                None => r.0@ == Seq::<char>::empty(),
            }),
    {
        match self {
            ExternalSearchData::Simple(s) => {
                let text = match s.search {
                    Some(t) => t,
                    None => String::new(),
                };
                (text, s.page)
            },
            ExternalSearchData::String(q) => q,
        }
    }
}

/// One hit of a search on an outside site.
#[derive(Debug)]
pub struct ScrapeSearchResult {
    pub title: String,
    pub url: String,
    pub cover: String,
    pub kind: Option<String>,
    pub status: Option<String>,
}

impl DisplaySearch for ScrapeSearchResult {
    fn image_number(&self) -> u32 {
        0
    }

    fn internal(&self) -> bool {
        false
    }

    fn id_url(&self) -> &String {
        &self.url
    }

    fn ext(&self) -> String {
        String::new()
    }

    fn status(&self) -> Status {
        Status::Ongoing
    }

    fn titles(&self) -> HashMap<String, Vec<String>> {
        let mut hm: HashMap<String, Vec<String>> = HashMap::new();
        hm.insert(String::from_str("eng"), vec![self.title.clone()]);
        hm
    }

    fn cover(&self) -> &str {
        self.cover.as_str()
    }
}

/// The sort keys, tags and statuses an outside site accepts.
pub struct ValidSearch {
    pub sorts: Vec<String>,
    pub tags: Vec<String>,
    pub status: Vec<String>,
}

/// Whether `v` is one of `list`.
pub open spec fn listed(list: Seq<String>, v: Seq<char>) -> bool {
    exists|i: int| 0 <= i < list.len() && (#[trigger] list[i])@ == v
}

fn contains(list: &Vec<String>, v: &String) -> (r: bool)
    ensures
        r == listed(list@, v@),
{
    let n = list.len();
    let mut i: usize = 0;
    while i < n
        invariant
            n == list@.len(),
            i <= n,
            forall|j: int| 0 <= j < i ==> (#[trigger] list@[j])@ != v@,
        decreases n - i,
    {
        if list[i] == *v {
            return true;
        }
        i = i + 1;
    }
    false
}

impl ValidSearch {
    /// What AniList accepts.
    pub fn anilist() -> (r: ValidSearch)
        ensures
            r.sorts@.len() == 5,
            r.sorts@[0]@ == "popularity"@,
            r.sorts@[1]@ == "score"@,
            r.sorts@[2]@ == "trending"@,
            r.sorts@[3]@ == "created"@,
            r.sorts@[4]@ == "updated"@,
            r.tags@.len() == 0,
            r.status@.len() == 5,
            r.status@[0]@ == "releasing"@,
            r.status@[1]@ == "finished"@,
            r.status@[2]@ == "hiatus"@,
            r.status@[3]@ == "cancelled"@,
            r.status@[4]@ == "upcoming"@,
    {
        ValidSearch {
            sorts: vec![
                String::from_str("popularity"),
                String::from_str("score"),
                String::from_str("trending"),
                String::from_str("created"),
                String::from_str("updated"),
            ],
            tags: Vec::new(),
            status: vec![
                String::from_str("releasing"),
                String::from_str("finished"),
                String::from_str("hiatus"),
                String::from_str("cancelled"),
                String::from_str("upcoming"),
            ],
        }
    }
}

/// A structured search on an outside site.
pub struct SimpleSearch {
    pub search: Option<String>,
    pub sort: Option<String>,
    pub desc: bool,
    pub status: Option<String>,
    pub tags: Vec<String>,
    pub page: u32,
}

impl SimpleSearch {
    /// Whether the sort key and the status, where given, are accepted by the
    /// site. Tags are not checked.
    pub fn validate(&self, vs: &ValidSearch) -> (r: bool)
        ensures
            r == ((self.sort matches Some(s) ==> listed(vs.sorts@, s@)) && (self.status matches Some(
                s,
            ) ==> listed(vs.status@, s@))),
    {
        if let Some(v) = &self.sort {
            if !contains(&vs.sorts, v) {
                return false;
            }
        }
        if let Some(v) = &self.status {
            if !contains(&vs.status, v) {
                return false;
            }
        }
        true
    }
}

} // verus!
