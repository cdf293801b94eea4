use vstd::prelude::*;

pub mod auth;
pub mod decimal;
pub mod error;
pub mod fonts;
pub mod home;
pub mod image;
pub mod info;
pub mod numeric;
pub mod reader;
pub mod request;
pub mod scrape;
pub mod scraper;
pub mod search;
pub mod text;

verus! {

} // verus!
