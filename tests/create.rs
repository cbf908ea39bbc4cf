use bitly::server::{check_target, create, CreateError, CreateRequest, CreateResponse};
use bitly::store::ShortlinkStore;

fn create_request(name: Option<&str>, target: &str) -> CreateRequest {
    CreateRequest { name: name.map(|s| s.to_owned()), target: target.to_string() }
}

fn send(store: &mut ShortlinkStore, name: Option<&str>, target: &str) -> Result<CreateResponse, CreateError> {
    create(store, create_request(name, target), 1_600_000_000)
}

#[test]
fn create_canonical() {
    let mut store = ShortlinkStore::new();
    let resp = send(&mut store, None, "http://www.google.com");
    assert!(resp.is_ok());
    let response_body = resp.ok().unwrap();
    assert_eq!(response_body.target, "http://www.google.com");
}

#[test]
fn create_custom() {
    let mut store = ShortlinkStore::new();
    let resp = send(&mut store, Some("foo"), "http://www.google.com");
    assert!(resp.is_ok());
    let response_body = resp.ok().unwrap();
    assert_eq!(response_body.name, "foo");
    assert_eq!(response_body.target, "http://www.google.com");
}

#[test]
fn create_canonical_subsequent_returns_first_result() {
    let mut store = ShortlinkStore::new();
    let response_body = send(&mut store, None, "http://www.google.com").ok().unwrap();
    let assigned_name = response_body.name;

    let resp = send(&mut store, None, "http://www.google.com");
    assert!(resp.is_ok());
    let response_body = resp.ok().unwrap();
    assert_eq!(response_body.name, assigned_name);
    assert_eq!(response_body.target, "http://www.google.com");
}

#[test]
fn create_custom_multiple_for_target() {
    let mut store = ShortlinkStore::new();
    let _ = send(&mut store, Some("foo"), "http://www.google.com");
    let resp = send(&mut store, Some("bar"), "http://www.google.com");
    assert!(resp.is_ok());
}

#[test]
fn create_custom_fail_canonical_name() {
    let mut store = ShortlinkStore::new();
    let response_body = send(&mut store, None, "http://www.google.com").ok().unwrap();
    let assigned_name = response_body.name;

    let resp = send(&mut store, Some(&assigned_name), "http://www.google.com");
    assert!(resp.is_err());
}

#[test]
fn create_custom_fail_custom_name() {
    let mut store = ShortlinkStore::new();
    let _ = send(&mut store, Some("foo"), "http://www.google.com");
    let resp = send(&mut store, Some("foo"), "http://www.google.com");
    assert!(resp.is_err());
}

#[test]
fn invalid_target_is_refused_with_bad_request() {
    let mut store = ShortlinkStore::new();
    match send(&mut store, None, "not a url") {
        Err(e) => {
            assert_eq!(e.status_code(), 400);
            assert!(matches!(e, CreateError::InvalidTarget(ref t) if t == "not a url"));
        },
        Ok(_) => panic!("a target that is not a URL was accepted"),
    }
    assert_eq!(store.lookup("not a url"), None);
}

#[test]
fn taken_custom_name_is_a_conflict_naming_it() {
    let mut store = ShortlinkStore::new();
    let first = send(&mut store, Some("news"), "http://b.com").ok().unwrap();
    assert_eq!(first.name, "news");
    assert_eq!(first.target, "http://b.com");
    match send(&mut store, Some("news"), "http://c.com") {
        Err(e) => {
            assert_eq!(e.status_code(), 409);
            assert!(matches!(e, CreateError::ShortlinkAlreadyExists(ref n) if n == "news"));
        },
        Ok(_) => panic!("a taken name was given twice"),
    }
    assert_eq!(store.lookup("news"), Some("http://b.com".to_string()));
}

#[test]
fn canonical_example_is_stable() {
    let mut store = ShortlinkStore::new();
    let first = send(&mut store, None, "http://a.com").ok().unwrap();
    let second = send(&mut store, None, "http://a.com").ok().unwrap();
    assert_eq!(first.name, second.name);
    assert_eq!(first.name.chars().count(), 7);
    assert!(first.name.chars().all(|c| c.is_ascii_alphanumeric()));
    assert_eq!(store.lookup(&first.name), Some("http://a.com".to_string()));
}

#[test]
fn names_exhausted_status_is_internal_error() {
    assert_eq!(CreateError::NamesExhausted.status_code(), 500);
}

#[test]
fn error_messages_quote_their_subject() {
    assert_eq!(
        CreateError::ShortlinkAlreadyExists("news".to_string()).message(),
        "Shortlink already exists: \"news\""
    );
    assert_eq!(CreateError::InvalidTarget("x y".to_string()).message(), "Invalid target: \"x y\"");
    assert_eq!(CreateError::NamesExhausted.message(), "No free name could be found");
}

#[test]
fn check_target_accepts_urls_only() {
    assert!(check_target("http://www.google.com").is_ok());
    assert!(check_target("https://example.org/a?b=c").is_ok());
    match check_target("www.google.com") {
        Err(CreateError::InvalidTarget(t)) => assert_eq!(t, "www.google.com"),
        _ => panic!("a relative reference was accepted"),
    }
    assert!(check_target("").is_err());
}
