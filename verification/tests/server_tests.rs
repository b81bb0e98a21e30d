use std::collections::HashMap;

use screenie_server::recovery::recover_registry;
use screenie_server::router::rejection_response;
use screenie_server::router::FetchResult;
use screenie_server::router::UploadRejection;
use screenie_server::ImageUrl;
use screenie_server::Server;

fn fresh_server(names: Vec<String>) -> Server {
    Server::new(
        String::from("screenies/"),
        String::from("image/png"),
        6,
        &names,
    )
}

#[test]
fn recovery_scan_keeps_only_decodable_names() {
    let names = vec![
        String::from("1A2.png"),
        String::from("bad!name"),
        String::from("000"),
    ];
    let reg = recover_registry(&names, 56800235584);
    assert_eq!(reg.len(), 2);
    assert!(reg.contains(4466)); // the value of "1A2"
    assert!(reg.contains(0)); // the value of "000"
    assert!(!reg.contains(1));
}

#[test]
fn recovery_scan_strips_only_the_first_dot_suffix() {
    let names = vec![String::from("0Az.tar.gz"), String::from("00z.")];
    let reg = recover_registry(&names, 56800235584);
    assert_eq!(reg.len(), 2);
    assert!(reg.contains(681)); // the value of "0Az"
    assert!(reg.contains(61)); // the value of "00z"
}

#[test]
fn server_new_recovers_registry() {
    let server = fresh_server(vec![String::from("1A2.png"), String::from("bad!name")]);
    assert!(server.registry.contains(4466));
    assert_eq!(server.registry.len(), 1);
}

#[test]
fn lookup_path_ignores_extension() {
    let server = fresh_server(Vec::new());
    let with_ext = server.route_get("foo.png");
    let without = server.route_get("foo");
    assert!(with_ext.is_some());
    assert_eq!(with_ext, without);
    assert_eq!(with_ext.unwrap(), "screenies/foo");
}

#[test]
fn lookup_path_strips_leading_slash() {
    let server = fresh_server(Vec::new());
    assert_eq!(server.route_get("/1A2.png").unwrap(), "screenies/1A2");
    assert_eq!(server.route_get("/1A2").unwrap(), "screenies/1A2");
}

#[test]
fn lookup_path_canonicalizes_the_identifier() {
    let server = fresh_server(Vec::new());
    // "0001A2" names the same identifier as "1A2".
    assert_eq!(server.route_get("/0001A2").unwrap(), "screenies/1A2");
}

#[test]
fn undecodable_lookup_is_a_miss() {
    let server = fresh_server(Vec::new());
    assert_eq!(server.route_get("/bad!name"), None);
    assert_eq!(server.route_get("/n\u{e4}me"), None);
}

#[test]
fn missing_content_type_is_400() {
    let server = fresh_server(Vec::new());
    let rejection = server.check_content_type(None).unwrap_err();
    assert!(matches!(rejection, UploadRejection::MissingContentType));
    let resp = rejection_response(&rejection);
    assert_eq!(resp.status, 400);
}

#[test]
fn mismatched_content_type_is_415() {
    let server = fresh_server(Vec::new());
    let header = String::from("text/plain");
    let rejection = server.check_content_type(Some(&header)).unwrap_err();
    assert!(matches!(rejection, UploadRejection::UnsupportedContentType));
    let resp = rejection_response(&rejection);
    assert_eq!(resp.status, 415);
}

#[test]
fn configured_content_type_is_accepted() {
    let server = fresh_server(Vec::new());
    let header = String::from("image/png");
    assert!(server.check_content_type(Some(&header)).is_ok());
}

#[test]
fn get_responses_map_store_outcomes() {
    let server = fresh_server(Vec::new());
    let found = server.get_response(FetchResult::Found(vec![1, 2, 3]));
    assert_eq!(found.status, 200);
    assert_eq!(found.body, vec![1, 2, 3]);
    assert_eq!(found.content_type.as_deref(), Some("image/png"));
    let missing = server.get_response(FetchResult::Missing);
    assert_eq!(missing.status, 404);
    assert_eq!(missing.body, b"404".to_vec());
    assert!(missing.content_type.is_none());
    let failed = server.get_response(FetchResult::Failed);
    assert_eq!(failed.status, 500);
    assert_eq!(failed.body, b"500".to_vec());
}

#[test]
fn failed_store_write_is_500_and_keeps_the_reservation() {
    let mut server = fresh_server(Vec::new());
    let (id, _path) = server.reserve_upload(1_000_000).expect("space is empty");
    let resp = server.upload_response(false, &id);
    assert_eq!(resp.status, 500);
    assert!(server.registry.contains(id.0));
}

#[test]
fn upload_then_download_round_trip() {
    let png_prefix: Vec<u8> = vec![0x89, 0x50, 0x4E, 0x47, 0x0D, 0x0A, 0x1A, 0x0A];
    let mut server = fresh_server(Vec::new());
    let mut store: HashMap<String, Vec<u8>> = HashMap::new();

    // POST with the configured content type.
    let header = String::from("image/png");
    assert!(server.check_content_type(Some(&header)).is_ok());
    let (id, path) = server.reserve_upload(1_000_000).expect("space is empty");
    store.insert(path.clone(), png_prefix.clone());
    let resp = server.upload_response(true, &id);
    assert_eq!(resp.status, 200);

    // The body is the canonical identifier string: alphabet symbols,
    // at least three of them.
    let body = String::from_utf8(resp.body).unwrap();
    assert!(body.len() >= 3);
    assert!(body.bytes().all(|b| b.is_ascii_alphanumeric()));
    assert_eq!(ImageUrl::from_str(&body), Ok(id));

    // GET on the returned identifier serves the same bytes back.
    let req_path = format!("/{}", body);
    let lookup = server.route_get(&req_path).expect("the body decodes");
    assert_eq!(lookup, path);
    let bytes = store.get(&lookup).expect("just stored");
    let ok = server.get_response(FetchResult::Found(bytes.clone()));
    assert_eq!(ok.status, 200);
    assert_eq!(ok.body, png_prefix);
    assert_eq!(ok.content_type.as_deref(), Some("image/png"));

    // GET on an unused identifier misses.
    let other = server.route_get("/zzzzzz").expect("decodable");
    assert!(store.get(&other).is_none());
    let miss = server.get_response(FetchResult::Missing);
    assert_eq!(miss.status, 404);
}

#[test]
fn a_fresh_server_owes_an_upload_reservation() {
    let mut server = fresh_server(Vec::new());
    let (id, path) = server
        .reserve_upload(1)
        .expect("an empty registry owes the first reservation");
    assert!(path.starts_with("screenies/"));
    assert!(server.registry.contains(id.0));
    assert_eq!(server.reserve_upload(0), None);
}
