use mullvad_rpc::rest::{
    DEFAULT_TIMEOUT_MS, Error, Method, MullvadRestHandle, RequestFactory, Response, RestRequest,
    body_length_hint, collect_body, flatten_result, parse_rest_response, prepare_request,
};

fn factory() -> RequestFactory {
    RequestFactory::new(String::from("api.mullvad.net"), None, None)
}

fn response(status: u16, body: &[u8]) -> Response {
    Response { status, content_length: None, body: body.to_vec() }
}

#[test]
fn get_parses_uri_and_extracts_host() {
    let request = RestRequest::get("https://api.mullvad.net/v1/relays").unwrap();
    assert_eq!(request.uri(), "https://api.mullvad.net/v1/relays");
    assert_eq!(request.method(), Method::Get);
    assert_eq!(request.host().as_deref(), Some("api.mullvad.net"));
    assert_eq!(request.get_timeout(), DEFAULT_TIMEOUT_MS);
    assert!(request.body().is_empty());
    assert!(request.auth().is_none());
}

#[test]
fn get_rejects_unparsable_uri() {
    match RestRequest::get("not a uri") {
        Err(Error::InvalidUri) => (),
        _ => panic!("an unparsable string must be rejected as an invalid URI"),
    }
}

#[test]
fn factory_composes_uri_with_host() {
    let request = factory().get("/v1/relays").unwrap();
    assert_eq!(request.uri(), "https://api.mullvad.net//v1/relays");
    assert_eq!(request.host().as_deref(), Some("api.mullvad.net"));
    assert_eq!(request.method(), Method::Get);
}

#[test]
fn factory_addresses_pinned_ip_but_keeps_host_header() {
    let factory = RequestFactory::new(
        String::from("api.mullvad.net"),
        Some(String::from("193.138.218.78")),
        None,
    );
    let request = factory.get("/v1/relays").unwrap();
    assert_eq!(request.uri(), "https://193.138.218.78//v1/relays");
    assert_eq!(request.host().as_deref(), Some("api.mullvad.net"));
}

#[test]
fn factory_inserts_path_prefix() {
    let factory = RequestFactory::new(
        String::from("api.mullvad.net"),
        None,
        Some(String::from("app/")),
    );
    let request = factory.get("v1/relays").unwrap();
    assert_eq!(request.uri(), "https://api.mullvad.net/app/v1/relays");
}

#[test]
fn factory_builds_each_method() {
    assert_eq!(factory().post("/x").unwrap().method(), Method::Post);
    assert_eq!(factory().delete("/x").unwrap().method(), Method::Delete);
    assert_eq!(factory().request("/x", Method::Put).unwrap().method(), Method::Put);
}

#[test]
fn set_auth_attaches_token_header_value() {
    let mut request = factory().get("/v1/me").unwrap();
    request.set_auth(Some(String::from("1234abcd"))).unwrap();
    assert_eq!(request.auth().as_deref(), Some("Token 1234abcd"));
    request.set_auth(None).unwrap();
    assert!(request.auth().is_none());
}

#[test]
fn set_auth_rejects_illegal_header_value() {
    let mut request = factory().get("/v1/me").unwrap();
    match request.set_auth(Some(String::from("bad\ntoken"))) {
        Err(Error::InvalidHeader) => (),
        _ => panic!("a control character cannot enter a header value"),
    }
    // the request is left unchanged
    assert!(request.auth().is_none());
}

#[test]
fn set_timeout_replaces_deadline() {
    let mut request = factory().get("/v1/relays").unwrap();
    request.set_timeout(50);
    assert_eq!(request.get_timeout(), 50);
}

#[test]
fn post_json_attaches_body_and_content_type() {
    let body = String::from("{\"account\":\"1234\"}");
    let request = factory().post_json("/v1/problem-report", body.clone()).unwrap();
    assert_eq!(request.method(), Method::Post);
    assert!(request.has_json_body());
    assert_eq!(request.body().as_slice(), body.as_bytes());
}

#[test]
fn json_round_trip_through_factory_body() {
    let mut fields = serde_json::Map::new();
    fields.insert(String::from("account"), serde_json::Value::String(String::from("1234")));
    fields.insert(String::from("count"), serde_json::Value::from(7));
    let payload = serde_json::Value::Object(fields);

    let encoded = serde_json::to_string(&payload).unwrap();
    let request = factory().post_json("/v1/submit", encoded).unwrap();
    let decoded: serde_json::Value = serde_json::from_slice(request.body()).unwrap();
    assert_eq!(decoded, payload);
}

#[test]
fn into_request_materializes_headers_once() {
    let mut request = factory().post_json("/v1/x", String::from("{}")).unwrap();
    request.set_auth(Some(String::from("tok"))).unwrap();
    let prepared = request.into_request();
    assert_eq!(
        prepared.headers,
        vec![
            (String::from("accept"), String::from("application/json")),
            (String::from("host"), String::from("api.mullvad.net")),
            (String::from("content-type"), String::from("application/json")),
            (String::from("authorization"), String::from("Token tok")),
        ]
    );
    assert_eq!(prepared.body, b"{}".to_vec());
    assert_eq!(prepared.method, Method::Post);
}

#[test]
fn parse_rest_response_passes_matching_status_through() {
    let body = b"{\"countries\":[]}";
    let r = parse_rest_response(response(200, body), 200).unwrap();
    assert_eq!(r.status, 200);
    assert_eq!(r.body, body.to_vec());
}

#[test]
fn parse_rest_response_maps_not_found_regardless_of_body() {
    for body in [&b""[..], b"garbage", b"{\"code\":\"IGNORED\"}"] {
        match parse_rest_response(response(404, body), 200) {
            Err(Error::ApiError(status, message)) => {
                assert_eq!(status, 404);
                assert_eq!(message, "Not found");
            },
            _ => panic!("a 404 must resolve to the fixed mapping"),
        }
    }
}

#[test]
fn parse_rest_response_maps_method_not_allowed() {
    match parse_rest_response(response(405, b"anything"), 200) {
        Err(Error::ApiError(status, message)) => {
            assert_eq!(status, 405);
            assert_eq!(message, "Method not allowed");
        },
        _ => panic!("a 405 must resolve to the fixed mapping"),
    }
}

#[test]
fn parse_rest_response_decodes_server_error_code() {
    match parse_rest_response(response(400, b"{\"code\":\"INVALID_ACCOUNT\"}"), 200) {
        Err(Error::ApiError(status, code)) => {
            assert_eq!(status, 400);
            assert_eq!(code, "INVALID_ACCOUNT");
        },
        _ => panic!("the server's error code must surface"),
    }
}

#[test]
fn parse_rest_response_reports_undecodable_error_body() {
    match parse_rest_response(response(500, b"not json"), 200) {
        Err(Error::DeserializationError) => (),
        _ => panic!("a bad error body must surface as a deserialization error"),
    }
    match parse_rest_response(response(500, b"{\"other\":1}"), 200) {
        Err(Error::DeserializationError) => (),
        _ => panic!("an error body without a code must surface as a deserialization error"),
    }
}

#[test]
fn body_length_hint_reads_digit_strings() {
    assert_eq!(body_length_hint(&Some(String::from("123"))), 123);
    assert_eq!(body_length_hint(&Some(String::from("0"))), 0);
    assert_eq!(body_length_hint(&None), 0);
    assert_eq!(body_length_hint(&Some(String::from(""))), 0);
    assert_eq!(body_length_hint(&Some(String::from("12a"))), 0);
    assert_eq!(body_length_hint(&Some(String::from("-5"))), 0);
    assert_eq!(body_length_hint(&Some(String::from("99999999999999999999999999"))), 0);
}

#[test]
fn collect_body_concatenates_chunks_in_order() {
    let chunks = vec![b"he".to_vec(), b"".to_vec(), b"llo".to_vec()];
    assert_eq!(collect_body(5, &chunks), b"hello".to_vec());
    let none: Vec<Vec<u8>> = Vec::new();
    assert_eq!(collect_body(0, &none), Vec::<u8>::new());
}

#[test]
fn flatten_result_keeps_inner_outcome() {
    assert_eq!(flatten_result::<u32, u32>(Ok(Ok(1))), Ok(1));
    assert_eq!(flatten_result::<u32, u32>(Ok(Err(2))), Err(2));
    assert_eq!(flatten_result::<u32, u32>(Err(3)), Err(3));
}

#[test]
fn prepare_request_builds_and_authorizes() {
    let factory = factory();
    let request = prepare_request(&factory, "/v1/me", Method::Get, Some(String::from("tok")))
        .unwrap();
    assert_eq!(request.uri(), "https://api.mullvad.net//v1/me");
    assert_eq!(request.auth().as_deref(), Some("Token tok"));

    match prepare_request(&factory, "/v1/me", Method::Get, Some(String::from("a\rb"))) {
        Err(Error::InvalidHeader) => (),
        _ => panic!("a bad token must be rejected before anything is submitted"),
    }
}

#[test]
fn handle_carries_factory() {
    let handle = MullvadRestHandle::new(factory());
    let request = handle.factory().get("/v1/relays").unwrap();
    assert_eq!(request.uri(), "https://api.mullvad.net//v1/relays");
}

#[test]
fn get_accepts_hostless_uri_without_host_header() {
    // a relative URI parses, but carries no host for the header
    let request = RestRequest::get("/hello/world").unwrap();
    assert_eq!(request.uri(), "/hello/world");
    assert!(request.host().is_none());
    let prepared = request.into_request();
    assert_eq!(
        prepared.headers,
        vec![(String::from("accept"), String::from("application/json"))]
    );
}

#[test]
fn post_json_rejects_bad_factory_host() {
    let factory = RequestFactory::new(String::from("bad host"), None, None);
    match factory.post_json("/v1/x", String::from("{}")) {
        Err(Error::InvalidUri) => (),
        _ => panic!("a host that cannot compose a URI must be rejected"),
    }
}
