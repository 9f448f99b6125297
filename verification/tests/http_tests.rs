use blockchain_sim::http::{route_request, Request, Response};
use blockchain_sim::query::{parse_route, ApiRoute};

#[test]
fn response_json_and_resolve() {
    let res = Response::json(200, "{\"ok\":true}", None);
    assert_eq!(
        Response::resolve(&res),
        "HTTP/1.1 200 OK\nContent-Type: application/json\nContent-Length: 11\n\r\n{\"ok\":true}"
    );
    let extra = vec![("X-Custom".to_string(), "yes".to_string())];
    let res = Response::json(404, "x", Some(extra));
    assert_eq!(
        Response::resolve(&res),
        "HTTP/1.1 404 Unknown \nContent-Type: application/json\nContent-Length: 1\nX-Custom: yes\n\r\nx"
    );
    let res = Response::json(400, "", None);
    assert!(Response::resolve(&res).starts_with("HTTP/1.1 400 Bad Request\n"));
    let res = Response::json(500, "", None);
    assert!(Response::resolve(&res).starts_with("HTTP/1.1 500 Internal Server Error\n"));
}

#[test]
fn request_parse_full() {
    let text = "GET /hello?name=ada&x=1 HTTP/1.1\r\nHost: localhost:7878\r\nAccept: */*\r\n\r\nbody text";
    let req = Request::parse(text).unwrap();
    assert_eq!(req.method, "GET");
    assert_eq!(req.path, "/hello");
    assert_eq!(req.query.len(), 2);
    assert_eq!(req.query[0], ("name".to_string(), "ada".to_string()));
    assert_eq!(req.query[1], ("x".to_string(), "1".to_string()));
    assert_eq!(req.headers.len(), 2);
    assert_eq!(req.headers[0], ("Host".to_string(), "localhost:7878".to_string()));
    assert_eq!(req.headers[1], ("Accept".to_string(), "*/*".to_string()));
    assert_eq!(req.content, "body text");
}

#[test]
fn request_parse_failures() {
    match Request::parse("") {
        Err(m) => assert_eq!(m, "empty request"),
        Ok(_) => panic!("empty text must not parse"),
    }
    match Request::parse("   \r\n\r\n") {
        Err(m) => assert_eq!(m, "missing request method"),
        Ok(_) => panic!("blank request line must not parse"),
    }
    match Request::parse("GET\r\n\r\n") {
        Err(m) => assert_eq!(m, "missing request path"),
        Ok(_) => panic!("one-token request line must not parse"),
    }
    match Request::parse("GET / HTTP/1.1\r\nHost: x\r\n") {
        Err(m) => assert_eq!(m, "missing blank line"),
        Ok(_) => panic!("request without blank line must not parse"),
    }
}

#[test]
fn request_query_last_key_wins() {
    let text = "GET /hello?name=a&name=b HTTP/1.1\r\n\r\n";
    let req = Request::parse(text).unwrap();
    assert_eq!(req.query_get("name"), Some(&"b".to_string()));
    assert_eq!(req.query_get("other"), None);
}

#[test]
fn route_request_decides() {
    let hello = Request::parse("GET /hello?name=ada HTTP/1.1\r\n\r\n").unwrap();
    let res = route_request(Ok(hello));
    assert_eq!(
        Response::resolve(&res),
        "HTTP/1.1 200 OK\nContent-Type: application/json\nContent-Length: 26\n\r\n{\"message\": \"Hello, ada!\"}"
    );

    let hello_default = Request::parse("GET /hello HTTP/1.1\r\n\r\n").unwrap();
    let res = route_request(Ok(hello_default));
    assert!(Response::resolve(&res).ends_with("{\"message\": \"Hello, Shivraj!\"}"));

    let other = Request::parse("GET /nope HTTP/1.1\r\n\r\n").unwrap();
    let res = route_request(Ok(other));
    assert!(Response::resolve(&res).starts_with("HTTP/1.1 400 Bad Request\n"));
    assert!(Response::resolve(&res).ends_with("{{\"message\": \"Invalid Path\"}}"));

    let res = route_request(Err("boom".to_string()));
    assert!(Response::resolve(&res).starts_with("HTTP/1.1 500 Internal Server Error\n"));
    assert!(Response::resolve(&res).ends_with("{\"message\": \"Error: boom}"));
}

#[test]
fn api_routes_parse() {
    assert_eq!(parse_route("/api/blocks"), ApiRoute::AllBlocks);
    assert_eq!(parse_route("/api/transactions"), ApiRoute::AllTransactions);
    assert_eq!(parse_route("/api/status"), ApiRoute::Status);
    assert_eq!(parse_route("/api/blocks/0"), ApiRoute::BlockByIndex(0));
    assert_eq!(parse_route("/api/blocks/42"), ApiRoute::BlockByIndex(42));
    assert_eq!(
        parse_route("/api/blocks/7/transactions"),
        ApiRoute::BlockTransactions(7)
    );
    assert_eq!(parse_route("/api/blocks/abc"), ApiRoute::NotFound);
    assert_eq!(parse_route("/api/blocks/99999999999"), ApiRoute::NotFound);
    assert_eq!(parse_route("/api"), ApiRoute::NotFound);
    assert_eq!(parse_route("/api/blocks/"), ApiRoute::NotFound);
    assert_eq!(parse_route(""), ApiRoute::NotFound);
}
