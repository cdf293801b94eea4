use manga_api::auth::{Claim, Gender, JwtType, Kind, Role, ACCESS_MILLIS, REFRESH_MILLIS};
use manga_api::decimal::Decimal;
use manga_api::error::{ApiErr, ApiErrorType};
use manga_api::info::Visibility;
use manga_api::reader::{Action, MangaReaderResponse, ReaderChapter, ReaderPage, ReaderPageResponse};
use manga_api::request::RequestImpl;
use manga_api::scrape::ScrapeAccount;
use manga_api::scraper::{ExternalSearchData, SimpleSearch, ValidSearch};
use manga_api::scraper::ScrapeSearchResult;
use manga_api::search::{DisplaySearch, Order, SearchRequest, SearchResponse, Status};
use manga_api::fonts::FontRequest;
use manga_api::auth::ActivateRequest;
use manga_api::auth::LoginRequest;
use std::collections::HashMap;

#[test]
fn status_codes() {
    for code in 0..5u64 {
        let s = Status::from_code(code).unwrap();
        assert_eq!(s.code(), code);
        assert_eq!(u64::from(s), code);
    }
    assert_eq!(Status::from_code(2).unwrap(), Status::Ongoing);
    let e = Status::try_from(5u64).unwrap_err();
    assert_eq!(e.message(), "Couldnt find manga status");
    assert!(matches!(e.err_type, ApiErrorType::InternalError));
}

#[test]
fn visibility_codes() {
    assert_eq!(Visibility::try_from(1u64).unwrap(), Visibility::Hidden);
    assert_eq!(Visibility::from_code(2).unwrap(), Visibility::AdminReview);
    assert_eq!(Visibility::from_code(3).unwrap_err().message(), "unknown visibility");
}

#[test]
fn error_messages() {
    let mut e = ApiErr { message: Some("m".to_string()), cause: Some("c".to_string()), err_type: ApiErrorType::NotFoundError };
    assert_eq!(e.message(), "Page not found");
    e.err_type = ApiErrorType::ReadError;
    assert_eq!(e.message(), "m");
    e.message = None;
    assert_eq!(e.message(), "c");
    e.cause = None;
    assert_eq!(e.message(), "An unexpected error occurred");
}

#[test]
fn roles() {
    assert_eq!(Role::from(3u32), Role::Moderator);
    assert_eq!(Role::from(9u32), Role::NotVerified);
    assert_eq!(Role::CoAdmin.to_string(), "Co-Admin");
    assert_eq!(Role::NotVerified.to_string(), "Undifined");
    assert_eq!("Admin".parse::<Role>().unwrap(), Role::Admin);
    assert_eq!(Role::from_name("admin"), Role::NotVerified);
    assert_eq!(Role::Author.code(), 2);
}

#[test]
fn kinds() {
    let k = Kind::from_code(31);
    assert!(k.single);
    assert_eq!(k.kind, Role::Moderator);
    assert_eq!(k.code(), 31);
    let k = Kind::from_code(1);
    assert!(k.single);
    assert_eq!(k.kind, Role::NotVerified);
    let k = Kind::from_code(50);
    assert!(!k.single);
    assert_eq!(k.kind, Role::Admin);
    assert_eq!(Kind::new(false, Role::User).code(), 10);
    assert_eq!(Kind::new(true, Role::NotVerified).code(), 1);
}

#[test]
fn genders() {
    assert_eq!(Gender::from(0usize), Gender::Female);
    assert_eq!(Gender::from(1usize), Gender::Male);
    assert_eq!(Gender::from(7usize), Gender::Unknown);
}

#[test]
fn claims() {
    let c = Claim::new("u".to_string(), Role::User, JwtType::AccessToken, 1000, 500);
    assert_eq!(c.exp, 1500);
    let a = Claim::new_access("u".to_string(), Role::Admin, 1000);
    assert_eq!(a.exp, 121_000);
    assert_eq!(a.jwt_type, JwtType::AccessToken);
    let r = Claim::new_refresh("u".to_string(), Role::Admin, 0);
    assert_eq!(r.exp, 5_184_000_000);
    assert_eq!(r.jwt_type, JwtType::RefreshToken);
    assert_eq!(ACCESS_MILLIS, 120_000);
    assert_eq!(REFRESH_MILLIS, 5_184_000_000);
}

fn simple(sort: Option<&str>, status: Option<&str>) -> SimpleSearch {
    SimpleSearch {
        search: None,
        sort: sort.map(|s| s.to_string()),
        desc: false,
        status: status.map(|s| s.to_string()),
        tags: vec!["anything".to_string()],
        page: 3,
    }
}

#[test]
fn external_search_data() {
    let s = ExternalSearchData::Simple(simple(None, None));
    assert_eq!(s.get_query(), (String::new(), 3));
    let q = ExternalSearchData::String(("one piece".to_string(), 2));
    assert_eq!(q.get_query(), ("one piece".to_string(), 2));
    assert!(ExternalSearchData::Simple(simple(None, None)).get_simple().is_ok());
    let e = ExternalSearchData::String(("x".to_string(), 1)).get_simple().err().unwrap();
    assert_eq!(e.message(), "wrong ExternalSearchData type");
    assert!(matches!(e.err_type, ApiErrorType::InvalidInput));
}

#[test]
fn valid_search() {
    let vs = ValidSearch::anilist();
    assert_eq!(vs.sorts.len(), 5);
    assert_eq!(vs.status[3], "cancelled");
    assert!(simple(None, None).validate(&vs));
    assert!(simple(Some("score"), Some("hiatus")).validate(&vs));
    assert!(!simple(Some("random"), None).validate(&vs));
    assert!(!simple(None, Some("done")).validate(&vs));
}

fn chapter(id: &str, number: Decimal) -> ReaderChapter {
    ReaderChapter {
        chapter_id: id.to_string(),
        titles: vec![],
        chapter: number,
        sources: vec![],
        release_date: None,
        versions: HashMap::new(),
    }
}

fn reader(chs: Vec<ReaderChapter>) -> MangaReaderResponse {
    MangaReaderResponse {
        manga_id: "m".to_string(),
        titles: HashMap::new(),
        kind: "manga".to_string(),
        description: None,
        chapters: chs,
        favorite: false,
        open_chapter: "a".to_string(),
        progress: Decimal::new(false, 0, 0),
    }
}

#[test]
fn chapter_navigation() {
    let r = reader(vec![
        chapter("a", Decimal::new(false, 1, 0)),
        chapter("b", Decimal::new(false, 2, 0)),
        chapter("c", Decimal::new(false, 25, 1)),
    ]);
    assert_eq!(r.get_chapter("b").unwrap().chapter_id, "b");
    assert!(r.get_chapter("z").is_none());
    assert_eq!(r.get_prev_chapter("b").unwrap().chapter_id, "a");
    assert!(r.get_prev_chapter("a").is_none());
    assert_eq!(r.get_prev_chapter("z").unwrap().chapter_id, "c");
    assert_eq!(r.get_next_chapter("b").unwrap().chapter_id, "c");
    assert!(r.get_next_chapter("c").is_none());
    assert!(r.get_next_chapter("z").is_none());
    assert!(!r.no_chapters());
    assert!(reader(vec![]).no_chapters());
}

#[test]
fn missing_chapter_numbers() {
    let r = reader(vec![
        chapter("a", Decimal::new(false, 1, 0)),
        chapter("b", Decimal::new(false, 35, 1)),
        chapter("c", Decimal::new(false, 60, 1)),
        chapter("d", Decimal::new(false, 4, 0)),
    ]);
    assert_eq!(r.missing_chapters(), vec![2, 3, 5]);
    assert_eq!(reader(vec![]).missing_chapters(), Vec::<u32>::new());
}

#[test]
fn page_lookup() {
    let mut pages = HashMap::new();
    pages.insert(1u32, ReaderPage::new(10, 20));
    let resp = ReaderPageResponse {
        version_id: "v".to_string(),
        hide_top: Decimal::new(false, 0, 0),
        hide_bottom: Decimal::new(false, 0, 0),
        pages,
    };
    assert!(matches!(resp.get_page(0), Action::Prev));
    match resp.get_page(1) {
        Action::Page(p) => {
            assert_eq!(p.width, 10);
            assert_eq!(p.height, 20);
            assert_eq!(p.ext, "gif");
            assert_eq!(p.page_id, "");
        },
        _ => panic!("page 1 exists"),
    }
    assert!(matches!(resp.get_page(2), Action::Next));
}

#[test]
fn requests() {
    let base = url::Url::parse("https://example.org/api/").unwrap();
    let r = ActivateRequest::request(&base).unwrap();
    assert!(r.auth);
    assert_eq!(r.url.as_str(), "https://example.org/api/auth/activate");
    assert_eq!(r.method, "POST");
    assert_eq!(r.headers.get("Content-Type").unwrap(), "application/json");
    assert!(r.req_body.is_empty());
    let l = LoginRequest::request(&base).unwrap();
    assert!(!l.auth);
    let mut s = SearchRequest::request(&base).unwrap();
    assert_eq!(s.url.as_str(), "https://example.org/api/search");
    s.set_content("{}".to_string());
    assert_eq!(s.req_body, b"{}".to_vec());
}

#[test]
fn small_records() {
    let a = ScrapeAccount::new("u".to_string(), "p".to_string());
    assert_eq!(a.username, "u");
    assert_eq!(a.password, "p");
    assert_eq!(FontRequest::new("f.ttf".to_string()).file, "f.ttf");
    assert_eq!(Order::Popularity, Order::Popularity);
}

#[test]
fn error_type_names() {
    assert_eq!(ApiErrorType::NotFoundError.to_string(), "NotFoundError");
    assert_eq!(ApiErrorType::ScrapeErrorJsSandboxError.to_string(), "ScrapeErrorJsSandboxError");
    assert_eq!(ApiErrorType::ScrapeErrorReadError.to_string(), "ScrapeErrorReadError");
}

#[test]
fn display_search_entries() {
    let hit = ScrapeSearchResult {
        title: "Title".to_string(),
        url: "https://example.org/m/1".to_string(),
        cover: "c.png".to_string(),
        kind: None,
        status: None,
    };
    assert_eq!(hit.image_number(), 0);
    assert!(!hit.internal());
    assert_eq!(hit.id_url(), "https://example.org/m/1");
    assert_eq!(hit.ext(), "");
    assert_eq!(hit.status(), Status::Ongoing);
    assert_eq!(hit.titles().get("eng").unwrap(), &vec!["Title".to_string()]);
    let own = SearchResponse {
        manga_id: "id".to_string(),
        titles: HashMap::new(),
        tags: vec![],
        status: Status::Completed,
        ext: "png".to_string(),
        number: 4,
    };
    assert_eq!(own.image_number(), 4);
    assert!(own.internal());
    assert_eq!(own.id_url(), "id");
    assert_eq!(own.ext(), "png");
    assert_eq!(own.status(), Status::Completed);
    assert_eq!(own.cover(), "");
}

#[test]
fn try_from_codes() {
    for code in 0..5u64 {
        assert_eq!(u64::from(Status::try_from(code).unwrap()), code);
    }
    assert!(Status::try_from(9u64).is_err());
    assert_eq!(Visibility::try_from(0u64).unwrap(), Visibility::Visible);
    let e = Visibility::try_from(3u64).unwrap_err();
    assert!(e.cause.is_none());
    assert!(matches!(e.err_type, ApiErrorType::InternalError));
}
