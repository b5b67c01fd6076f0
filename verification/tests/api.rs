use rushortner::api::{
    build_url_response, check_shorten_request, parse_redirect_code, redirect_target, ApiError,
    ShortenRequest,
};
use rushortner::{base62_encode, get_base_url};
use rushortner::resolver::RequestContext;

#[test]
fn empty_url_is_rejected() {
    let req = ShortenRequest { url: String::new() };
    assert_eq!(check_shorten_request(&req), Err(ApiError::EmptyUrl));
}

#[test]
fn non_empty_url_is_accepted() {
    let req = ShortenRequest { url: "https://example.com/page".to_owned() };
    assert_eq!(check_shorten_request(&req), Ok(()));
}

#[test]
fn short_link_is_base_slash_code() {
    let resp = build_url_response(&"https://short.example".to_owned(), 123456789);
    let code = base62_encode(123456789);
    assert_eq!(resp.short_url, format!("https://short.example/{code}"));
}

#[test]
fn invalid_code_is_rejected_as_bad_request() {
    assert_eq!(parse_redirect_code("!!"), Err(ApiError::InvalidCode));
    assert_eq!(parse_redirect_code(""), Err(ApiError::InvalidCode));
}

#[test]
fn lookup_miss_is_not_found() {
    assert_eq!(redirect_target(None), Err(ApiError::NotFound));
}

#[test]
fn lookup_hit_redirects_to_stored_url() {
    assert_eq!(
        redirect_target(Some("https://example.com/page".to_owned())),
        Ok("https://example.com/page".to_owned())
    );
}

/// A stand-in for the link store's contract: ids start at 1 and grow by
/// one per insert.
struct VecStore {
    urls: Vec<String>,
}

impl VecStore {
    fn insert(&mut self, url: &str) -> u64 {
        self.urls.push(url.to_owned());
        self.urls.len() as u64
    }

    fn lookup(&self, id: u64) -> Option<String> {
        if id == 0 {
            return None;
        }
        self.urls.get((id - 1) as usize).cloned()
    }
}

#[test]
fn end_to_end_shorten_and_redirect() {
    let mut store = VecStore { urls: Vec::new() };

    let req = ShortenRequest { url: "https://example.com/page".to_owned() };
    assert_eq!(check_shorten_request(&req), Ok(()));
    let id = store.insert(&req.url);
    assert_eq!(id, 1);
    assert_eq!(base62_encode(id), "1");

    let c = RequestContext {
        forwarded_proto: None,
        forwarded_host: None,
        uri_scheme: Some("http".to_owned()),
        uri_host: Some("sho.rt".to_owned()),
        uri_port: None,
    };
    let base = get_base_url(&None, &c);
    let resp = build_url_response(&base, id);
    assert_eq!(resp.short_url, "http://sho.rt/1");

    let back = parse_redirect_code("1").expect("valid code");
    assert_eq!(back, 1);
    let target = redirect_target(store.lookup(back));
    assert_eq!(target, Ok("https://example.com/page".to_owned()));
}

#[test]
fn invalid_code_is_rejected_before_any_lookup() {
    let r = parse_redirect_code("!!");
    assert_eq!(r, Err(ApiError::InvalidCode));
}
