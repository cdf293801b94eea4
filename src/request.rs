use vstd::prelude::*;

use crate::auth::ActivateRequest;
use crate::auth::JWTs;
use crate::auth::LoginRequest;
use crate::auth::NewUserRequest;
use crate::auth::ResetPasswordRequest;
use crate::auth::RequestResetPasswordRequest;
use crate::home::HomeResponse;
use crate::image::MangaCoverRequest;
use crate::image::MangaReaderImageRequest;
use crate::info::MangaInfoRequest;
use crate::reader::MangaReaderRequest;
use crate::reader::ReaderPageRequest;
use crate::scraper::ExternalSearchRequest;
use crate::search::SearchRequest;
use std::collections::HashMap;

verus! {

/// Declares the url crate's parsed URL, which a request carries.
#[verifier::external_type_specification]
#[verifier::external_body]
pub struct ExUrl(url::Url);

/// Declares the url crate's parse error, which joining a route can give.
#[verifier::external_type_specification]
#[verifier::external_body]
pub struct ExParseError(url::ParseError);

/// Relies on url::Url::join: resolves `route` against `base` as a URL
/// reference, or fails with the parse error.
#[verifier::external_body]
fn join_url(base: &url::Url, route: &str) -> (r: Result<url::Url, url::ParseError>) {
    base.join(route)
}

/// An HTTP request, ready to be sent.
pub struct Request {
    pub auth: bool,
    pub url: url::Url,
    pub method: String,
    pub headers: HashMap<String, String>,
    pub req_body: Vec<u8>,
    pub bytes: bool,
}

impl Request {
    /// Sets the body to the UTF-8 bytes of `s`.
    pub fn set_content(&mut self, s: String)
        ensures
            final(self).req_body@ == vstd::utf8::encode_utf8(s@),
            final(self).auth == old(self).auth,
            final(self).url == old(self).url,
            final(self).method == old(self).method,
            final(self).headers == old(self).headers,
            final(self).bytes == old(self).bytes,
    {
        self.req_body = vstd::slice::slice_to_vec(s.as_str().as_bytes());
    }
}

/// A request type of the service: its route, whether it needs a signed-in
/// user, and its HTTP method.
pub trait RequestImpl {
    /// The route of the request type, relative to the service's base URL.
    spec fn route_spec() -> Seq<char>;

    spec fn auth_spec() -> bool;

    /// The route, relative to the service's base URL.
    fn route() -> (r: &'static str)
        ensures
            r@ == Self::route_spec(),
    ;

    /// Whether the request needs a signed-in user.
    fn auth() -> (r: bool)
        ensures
            r == Self::auth_spec(),
    ;

    /// The HTTP method: `POST`.
    fn method() -> (r: &'static str)
        ensures
            r@ == "POST"@,
    {
        proof {
            reveal_strlit("POST");
        }
        "POST"
    }

    /// The headers of the request: a JSON body.
    fn headers() -> (r: HashMap<String, String>) {
        let mut hm: HashMap<String, String> = HashMap::new();
        hm.insert(String::from_str("Content-Type"), String::from_str("application/json"));
        hm
    }

    /// The request at the type's route under `url`, with an empty body; fails
    /// when the route does not resolve against `url`.
    fn request(url: &url::Url) -> (r: Result<Request, url::ParseError>)
        ensures
            r matches Ok(q) ==> (q.auth == Self::auth_spec() && q.method@ == "POST"@ && q.req_body@.len()
                == 0 && !q.bytes),
    {
        let joined = join_url(url, Self::route());
        match joined {
            Ok(u) => {
                let m = Self::method();
                Ok(
                    Request {
                        auth: Self::auth(),
                        url: u,
                        method: String::from_str(m),
                        headers: Self::headers(),
                        req_body: Vec::new(),
                        bytes: false,
                    },
                )
            },
            Err(e) => Err(e),
        }
    }
}

impl RequestImpl for ActivateRequest {
    open spec fn route_spec() -> Seq<char> {
        "auth/activate"@
    }

    open spec fn auth_spec() -> bool {
        true
    }

    fn route() -> (r: &'static str) {
        proof {
            reveal_strlit("auth/activate");
        }
        let r: &'static str = "auth/activate";
        assert(r@ == Self::route_spec());
        r
    }

    fn auth() -> (r: bool) {
        true
    }
}

impl RequestImpl for JWTs {
    open spec fn route_spec() -> Seq<char> {
        "refresh"@
    }

    open spec fn auth_spec() -> bool {
        true
    }

    fn route() -> (r: &'static str) {
        proof {
            reveal_strlit("refresh");
        }
        let r: &'static str = "refresh";
        assert(r@ == Self::route_spec());
        r
    }

    fn auth() -> (r: bool) {
        true
    }
}

impl RequestImpl for LoginRequest {
    open spec fn route_spec() -> Seq<char> {
        "auth/sign_in"@
    }

    open spec fn auth_spec() -> bool {
        false
    }

    fn route() -> (r: &'static str) {
        proof {
            reveal_strlit("auth/sign_in");
        }
        let r: &'static str = "auth/sign_in";
        assert(r@ == Self::route_spec());
        r
    }

    fn auth() -> (r: bool) {
        false
    }
}

impl RequestImpl for NewUserRequest {
    open spec fn route_spec() -> Seq<char> {
        "auth/sign_up"@
    }

    open spec fn auth_spec() -> bool {
        false
    }

    fn route() -> (r: &'static str) {
        proof {
            reveal_strlit("auth/sign_up");
        }
        let r: &'static str = "auth/sign_up";
        assert(r@ == Self::route_spec());
        r
    }

    fn auth() -> (r: bool) {
        false
    }
}

impl RequestImpl for ResetPasswordRequest {
    open spec fn route_spec() -> Seq<char> {
        "auth/reset_password"@
    }

    open spec fn auth_spec() -> bool {
        false
    }

    fn route() -> (r: &'static str) {
        proof {
            reveal_strlit("auth/reset_password");
        }
        let r: &'static str = "auth/reset_password";
        assert(r@ == Self::route_spec());
        r
    }

    fn auth() -> (r: bool) {
        false
    }
}

impl RequestImpl for RequestResetPasswordRequest {
    open spec fn route_spec() -> Seq<char> {
        "auth/request_reset_password"@
    }

    open spec fn auth_spec() -> bool {
        false
    }

    fn route() -> (r: &'static str) {
        proof {
            reveal_strlit("auth/request_reset_password");
        }
        let r: &'static str = "auth/request_reset_password";
        assert(r@ == Self::route_spec());
        r
    }

    fn auth() -> (r: bool) {
        false
    }
}

impl RequestImpl for HomeResponse {
    open spec fn route_spec() -> Seq<char> {
        "home"@
    }

    open spec fn auth_spec() -> bool {
        true
    }

    fn route() -> (r: &'static str) {
        proof {
            reveal_strlit("home");
        }
        let r: &'static str = "home";
        assert(r@ == Self::route_spec());
        r
    }

    fn auth() -> (r: bool) {
        true
    }
}

impl RequestImpl for MangaCoverRequest {
    open spec fn route_spec() -> Seq<char> {
        "cover"@
    }

    open spec fn auth_spec() -> bool {
        true
    }

    fn route() -> (r: &'static str) {
        proof {
            reveal_strlit("cover");
        }
        let r: &'static str = "cover";
        assert(r@ == Self::route_spec());
        r
    }

    fn auth() -> (r: bool) {
        true
    }
}

impl RequestImpl for MangaReaderImageRequest {
    open spec fn route_spec() -> Seq<char> {
        "chapter_page"@
    }

    open spec fn auth_spec() -> bool {
        true
    }

    fn route() -> (r: &'static str) {
        proof {
            reveal_strlit("chapter_page");
        }
        let r: &'static str = "chapter_page";
        assert(r@ == Self::route_spec());
        r
    }

    fn auth() -> (r: bool) {
        true
    }
}

impl RequestImpl for MangaInfoRequest {
    open spec fn route_spec() -> Seq<char> {
        "info"@
    }

    open spec fn auth_spec() -> bool {
        true
    }

    fn route() -> (r: &'static str) {
        proof {
            reveal_strlit("info");
        }
        let r: &'static str = "info";
        assert(r@ == Self::route_spec());
        r
    }

    fn auth() -> (r: bool) {
        true
    }
}

impl RequestImpl for MangaReaderRequest {
    open spec fn route_spec() -> Seq<char> {
        "reader_info"@
    }

    open spec fn auth_spec() -> bool {
        true
    }

    fn route() -> (r: &'static str) {
        proof {
            reveal_strlit("reader_info");
        }
        let r: &'static str = "reader_info";
        assert(r@ == Self::route_spec());
        r
    }

    fn auth() -> (r: bool) {
        true
    }
}

impl RequestImpl for ReaderPageRequest {
    open spec fn route_spec() -> Seq<char> {
        "pages"@
    }

    open spec fn auth_spec() -> bool {
        true
    }

    fn route() -> (r: &'static str) {
        proof {
            reveal_strlit("pages");
        }
        let r: &'static str = "pages";
        assert(r@ == Self::route_spec());
        r
    }

    fn auth() -> (r: bool) {
        true
    }
}

impl RequestImpl for ExternalSearchRequest {
    open spec fn route_spec() -> Seq<char> {
        "external/search"@
    }

    open spec fn auth_spec() -> bool {
        true
    }

    fn route() -> (r: &'static str) {
        proof {
            reveal_strlit("external/search");
        }
        let r: &'static str = "external/search";
        assert(r@ == Self::route_spec());
        r
    }

    fn auth() -> (r: bool) {
        true
    }
}

impl RequestImpl for SearchRequest {
    open spec fn route_spec() -> Seq<char> {
        "search"@
    }

    open spec fn auth_spec() -> bool {
        true
    }

    fn route() -> (r: &'static str) {
        proof {
            reveal_strlit("search");
        }
        let r: &'static str = "search";
        assert(r@ == Self::route_spec());
        r
    }

    fn auth() -> (r: bool) {
        true
    }
}

} // verus!
