use docsearch::model::Model;
use docsearch::server::{route, status, top_hits, Failure, Method, Route, Server};

#[test]
fn requests_go_where_method_and_url_say() {
    assert_eq!(route(Method::Post, "/api/search"), Route::Search);
    assert_eq!(route(Method::Get, "/script.js"), Route::Script);
    assert_eq!(route(Method::Get, "/"), Route::Page);
    assert_eq!(route(Method::Get, "/api/search"), Route::Page);
    assert_eq!(route(Method::Post, "/script.js"), Route::Page);
    assert_eq!(route(Method::Other, "/api/search"), Route::Page);
    assert_eq!(route(Method::Other, "/script.js"), Route::Page);
    assert_eq!(route(Method::Post, "/api/search/"), Route::Page);
    assert_eq!(route(Method::Post, "/API/SEARCH"), Route::Page);
    assert_eq!(route(Method::Get, ""), Route::Page);
}

#[test]
fn failures_have_their_status_codes() {
    assert_eq!(status(Failure::BadRequest), 400);
    assert_eq!(status(Failure::Internal), 500);
}

#[test]
fn an_answer_holds_at_most_twenty_hits() {
    let ranking: Vec<u32> = (0..50).collect();
    assert_eq!(top_hits(ranking), (0..20).collect::<Vec<u32>>());
    assert_eq!(top_hits((0..20).collect::<Vec<u32>>()).len(), 20);
    assert_eq!(top_hits((0..21).collect::<Vec<u32>>()).len(), 20);
    assert_eq!(top_hits(vec![7u32, 8, 9]), vec![7, 8, 9]);
    assert_eq!(top_hits(Vec::<u32>::new()), Vec::<u32>::new());
}

#[test]
fn a_search_request_is_answered_with_the_matches_of_its_body() {
    let mut model = Model::new(2);
    model.add_document("A", "the cat sat");
    model.add_document("B", "the cat ran");
    let expected = model.search("sat");
    let server = Server::new(model);
    assert_eq!(server.serve_search(b"sat".to_vec()), Ok(expected));
    assert_eq!(server.serve_search(b"zebra".to_vec()), Ok(Vec::new()));
    assert_eq!(server.serve_search(Vec::new()).map(|m| m.len()), Ok(2));
    let accented = server.serve_search("caf\u{e9} cat".as_bytes().to_vec());
    assert_eq!(accented, Ok(Vec::new()));
}

#[test]
fn a_body_that_is_no_utf8_is_a_bad_request() {
    let server = Server::new(Model::new(0));
    assert_eq!(server.serve_search(vec![0xFF, 0xFE]), Err(Failure::BadRequest));
    assert_eq!(server.serve_search(vec![b'c', b'a', 0xC3]), Err(Failure::BadRequest));
    assert_eq!(server.serve_search(vec![0xED, 0xA0, 0x80]), Err(Failure::BadRequest));
}
