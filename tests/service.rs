use url_shortener::address::ParsedUrl;
use url_shortener::codec::decode;
use url_shortener::engine::{code_of_inserted, url_of_fetched, MemoryShortener, ShortenerError, StoreError};
use url_shortener::liveness::plain_reply;
use url_shortener::service::{Code, GetRealUrlRequest, ShortenRequest, UrlShortenerLive};

fn live() -> UrlShortenerLive<MemoryShortener> {
    UrlShortenerLive { app: MemoryShortener::new() }
}

fn shorten(front: &mut UrlShortenerLive<MemoryShortener>, url: &str) -> Result<String, Code> {
    front
        .shorten(&ShortenRequest { url: url.to_string() })
        .map(|r| r.shortened_url)
        .map_err(|s| s.code)
}

fn resolve(front: &UrlShortenerLive<MemoryShortener>, id: i64) -> Result<String, Code> {
    front.get_real_url(&GetRealUrlRequest { id }).map(|r| r.url).map_err(|s| s.code)
}

#[test]
fn it_can_shorten_url() {
    let mut shortener = MemoryShortener::new();
    let short_path = shortener.shorten(&ParsedUrl::parse("https://gamefaqs.com").unwrap());

    assert!(short_path.is_ok());
}

#[test]
fn shorten_then_resolve() {
    let mut front = live();
    let code = shorten(&mut front, "https://example.com/a").unwrap();
    let id = decode(&code).unwrap();
    assert_eq!(resolve(&front, id as i64).unwrap(), "https://example.com/a");
}

#[test]
fn same_url_twice_gives_two_codes() {
    let mut front = live();
    let a = shorten(&mut front, "https://example.com/a").unwrap();
    let b = shorten(&mut front, "https://example.com/a").unwrap();
    assert_ne!(a, b);
    assert_eq!(resolve(&front, decode(&a).unwrap() as i64).unwrap(), "https://example.com/a");
    assert_eq!(resolve(&front, decode(&b).unwrap() as i64).unwrap(), "https://example.com/a");
}

#[test]
fn malformed_url_is_invalid_argument() {
    let mut front = live();
    let r = front.shorten(&ShortenRequest { url: "not a url".to_string() });
    let status = r.err().unwrap();
    assert_eq!(status.code, Code::InvalidArgument);
    assert_eq!(status.message, "Url is invalid!");
    // nothing was stored: the next URL still gets the first identifier
    let code = shorten(&mut front, "https://example.com/a").unwrap();
    assert_eq!(decode(&code), Some(1));
    assert_eq!(resolve(&front, 2), Err(Code::Internal));
}

#[test]
fn unknown_identifier_is_internal() {
    let mut front = live();
    shorten(&mut front, "https://example.com/a").unwrap();
    let status = front.get_real_url(&GetRealUrlRequest { id: 999999999 }).err().unwrap();
    assert_eq!(status.code, Code::Internal);
    assert_eq!(status.message, "Server is not available!");
    assert_eq!(resolve(&front, 0), Err(Code::Internal));
    assert_eq!(resolve(&front, -1), Err(Code::Internal));
}

#[test]
fn many_calls_get_consecutive_identifiers() {
    let mut front = live();
    let mut ids = Vec::new();
    for k in 0..100 {
        let code = shorten(&mut front, &format!("https://example.com/{k}")).unwrap();
        ids.push(decode(&code).unwrap());
    }
    let expected: Vec<u64> = (1..=100).collect();
    assert_eq!(ids, expected);
    assert_eq!(resolve(&front, 57).unwrap(), "https://example.com/56");
}

#[test]
fn url_is_stored_in_canonical_form() {
    let mut front = live();
    let code = shorten(&mut front, "HTTPS://Example.com").unwrap();
    assert_eq!(resolve(&front, decode(&code).unwrap() as i64).unwrap(), "https://example.com/");
}

#[test]
fn parse_keeps_canonical_text() {
    assert_eq!(ParsedUrl::parse("https://example.com/a").unwrap().as_str(), "https://example.com/a");
    assert!(ParsedUrl::parse("not a url").is_none());
}

#[test]
fn inserted_identifier_becomes_code() {
    assert_eq!(code_of_inserted(Ok(62)), Ok("10".to_string()));
    assert_eq!(code_of_inserted(Ok(0)), Ok("0".to_string()));
    assert_eq!(code_of_inserted(Err(StoreError::Failure)), Err(ShortenerError::StorageFailure));
    assert_eq!(code_of_inserted(Err(StoreError::RowNotFound)), Err(ShortenerError::StorageFailure));
}

#[test]
fn fetched_row_becomes_url() {
    assert_eq!(url_of_fetched(Ok(Some("https://a.b/".to_string()))), Ok("https://a.b/".to_string()));
    assert_eq!(url_of_fetched(Ok(None)), Err(ShortenerError::NotFound));
    assert_eq!(url_of_fetched(Err(StoreError::RowNotFound)), Err(ShortenerError::NotFound));
    assert_eq!(url_of_fetched(Err(StoreError::Failure)), Err(ShortenerError::StorageFailure));
}

#[test]
fn store_assigns_from_one() {
    let mut store = MemoryShortener::new();
    assert_eq!(store.insert_url("x"), Ok(1));
    assert_eq!(store.insert_url("y"), Ok(2));
    assert_eq!(store.select_url(2), Ok(Some("y".to_string())));
    assert_eq!(store.select_url(3), Err(StoreError::RowNotFound));
    assert_eq!(store.get_real_url(1), Ok("x".to_string()));
    assert_eq!(store.get_real_url(5), Err(ShortenerError::NotFound));
}

#[test]
fn engine_failure_maps_to_internal() {
    let front = live();
    let r = front.answer_shorten(Err(ShortenerError::StorageFailure));
    assert_eq!(r.err().unwrap().code, Code::Internal);
    let r = front.answer_get_real_url(Err(ShortenerError::NotFound));
    assert_eq!(r.err().unwrap().code, Code::Internal);
    let r = front.answer_get_real_url(Ok("https://a.b/".to_string()));
    assert_eq!(r.ok().unwrap().url, "https://a.b/");
}

#[test]
fn plain_endpoint_fixed_reply() {
    let r = plain_reply();
    assert_eq!(r.status, 200);
    assert_eq!(r.body, "Hello World!");
}
