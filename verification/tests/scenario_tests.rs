//! End-to-end scenarios over the verified pieces: the factory builds the
//! descriptor, the service registers the submission, the race decides the
//! task's outcome, and the response check resolves what the caller sees.

use mullvad_rpc::rest::{Error, Method, RequestFactory, Response, parse_rest_response,
    prepare_request};
use mullvad_rpc::service::{
    Action, RequestCommand, RequestService, TransportOutcome, resolve_request,
};

fn factory() -> RequestFactory {
    RequestFactory::new(String::from("api.mullvad.net"), None, None)
}

#[test]
fn relays_fetch_resolves_to_decoded_success() {
    let request = prepare_request(&factory(), "/v1/relays", Method::Get, None).unwrap();
    let timeout = request.get_timeout();

    let mut service = RequestService::new();
    let id = match service.process_command(RequestCommand::NewRequest(request)) {
        Action::Spawn { id, .. } => id,
        _ => panic!("a submission must ask for a spawned task"),
    };
    assert_eq!(service.num_in_flight(), 1);

    // the server answers 200 with a valid JSON body well within the deadline
    let body = b"{\"locations\":{},\"openvpn\":{},\"wireguard\":{},\"bridge\":{}}".to_vec();
    let served = Response { status: 200, content_length: None, body: body.clone() };
    let outcome = resolve_request(Some((12, TransportOutcome::Reply(served))), None, timeout);
    let response = parse_rest_response(outcome.unwrap(), 200).unwrap();
    assert_eq!(response.body, body);
    let decoded: serde_json::Value = serde_json::from_slice(&response.body).unwrap();
    assert!(decoded.get("locations").is_some());

    // the finished task withdraws its registry entry
    service.process_command(RequestCommand::RequestFinished(id));
    assert_eq!(service.num_in_flight(), 0);
}

#[test]
fn relays_fetch_resolves_to_not_found() {
    let request = prepare_request(&factory(), "/v1/relays", Method::Get, None).unwrap();
    let timeout = request.get_timeout();
    let served = Response { status: 404, content_length: None, body: b"ignored".to_vec() };
    let outcome = resolve_request(Some((12, TransportOutcome::Reply(served))), None, timeout);
    match parse_rest_response(outcome.unwrap(), 200) {
        Err(Error::ApiError(status, message)) => {
            assert_eq!(status, 404);
            assert_eq!(message, "Not found");
        },
        _ => panic!("a 404 must surface as the fixed API error"),
    }
}

#[test]
fn silent_transport_times_out_after_fifty_milliseconds() {
    let mut request = prepare_request(&factory(), "/v1/relays", Method::Get, None).unwrap();
    request.set_timeout(50);
    let outcome = resolve_request(None, None, request.get_timeout());
    assert!(matches!(outcome, Err(Error::TimedOut)));
}

#[test]
fn reset_before_response_cancels_then_fresh_submission_succeeds() {
    let mut service = RequestService::new();
    let request = prepare_request(&factory(), "/v1/relays", Method::Get, None).unwrap();
    let signal = match service.process_command(RequestCommand::NewRequest(request)) {
        Action::Spawn { signal, .. } => signal,
        _ => panic!("a submission must ask for a spawned task"),
    };

    // reset() fires before the transport responds; the runtime owes a fresh
    // client
    match service.process_command(RequestCommand::Reset) {
        Action::RebuildClient => (),
        _ => panic!("a reset owes a rebuilt transport client"),
    }
    assert_eq!(futures::executor::block_on(signal.into_receiver()), Ok(()));
    let outcome = resolve_request(None, Some(0), 10_000);
    assert!(matches!(outcome, Err(Error::Cancelled(_))));

    // a subsequent submission on the same handle works against fresh state
    let request = prepare_request(&factory(), "/v1/relays", Method::Get, None).unwrap();
    match service.process_command(RequestCommand::NewRequest(request)) {
        Action::Spawn { id, .. } => assert_eq!(id, 0),
        _ => panic!("a submission must ask for a spawned task"),
    }
    assert_eq!(service.num_in_flight(), 1);
}
