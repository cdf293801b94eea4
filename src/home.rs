use vstd::prelude::*;

use crate::search::SearchResponse;

verus! {

/// The lists shown on the home page.
#[derive(Debug)]
pub struct HomeResponse {
    pub trending: Vec<SearchResponse>,
    pub newest: Vec<SearchResponse>,
    pub latest_updates: Vec<SearchResponse>,
    pub favorites: Vec<SearchResponse>,
    pub reading: Vec<SearchResponse>,
    pub random: Vec<SearchResponse>,
}

} // verus!
