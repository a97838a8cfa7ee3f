use mullvad_rpc::rest::{Error, Response, RestRequest};
use mullvad_rpc::service::{
    Action, RequestCommand, RequestService, TransportOutcome, new_cancel_pair, resolve_request,
};

fn request() -> RestRequest {
    RestRequest::get("https://api.mullvad.net/v1/relays").unwrap()
}

fn response(status: u16) -> Response {
    Response { status, content_length: None, body: Vec::new() }
}

fn submit(service: &mut RequestService) -> (u64, mullvad_rpc::service::CancelSignal) {
    match service.process_command(RequestCommand::NewRequest(request())) {
        Action::Spawn { id, signal, .. } => (id, signal),
        _ => panic!("a submission must ask for a spawned task"),
    }
}

#[test]
fn registry_size_tracks_submissions() {
    let mut service = RequestService::new();
    assert_eq!(service.num_in_flight(), 0);
    let (id0, _s0) = submit(&mut service);
    let (id1, _s1) = submit(&mut service);
    let (id2, _s2) = submit(&mut service);
    assert_eq!(service.num_in_flight(), 3);

    // a finish of an in-flight identifier shrinks the registry by one
    match service.process_command(RequestCommand::RequestFinished(id1)) {
        Action::Nothing => (),
        _ => panic!("a finish owes no outside work"),
    }
    assert_eq!(service.num_in_flight(), 2);
    assert!(service.is_in_flight(id0));
    assert!(!service.is_in_flight(id1));
    assert!(service.is_in_flight(id2));

    // a finish of an unknown identifier is absorbed without effect
    service.process_command(RequestCommand::RequestFinished(999));
    assert_eq!(service.num_in_flight(), 2);
}

#[test]
fn identifiers_increase_strictly() {
    let mut service = RequestService::new();
    let (id0, _s0) = submit(&mut service);
    let (id1, _s1) = submit(&mut service);
    let (id2, _s2) = submit(&mut service);
    assert_eq!(id0, 0);
    assert_eq!(id1, 1);
    assert_eq!(id2, 2);
    assert!(id0 < id1 && id1 < id2);
}

#[test]
fn reset_empties_registry_and_fires_every_handle() {
    let mut service = RequestService::new();
    let (_id0, signal0) = submit(&mut service);
    let (_id1, signal1) = submit(&mut service);
    assert_eq!(service.num_in_flight(), 2);

    match service.process_command(RequestCommand::Reset) {
        Action::RebuildClient => (),
        _ => panic!("a reset owes a rebuilt transport client"),
    }
    assert_eq!(service.num_in_flight(), 0);

    // both cancellation signals fired: the receivers resolve
    assert_eq!(futures::executor::block_on(signal0.into_receiver()), Ok(()));
    assert_eq!(futures::executor::block_on(signal1.into_receiver()), Ok(()));

    // identifier allocation starts over after the reset
    let (id, _s) = submit(&mut service);
    assert_eq!(id, 0);
}

#[test]
fn unfired_handle_reports_cancellation_to_no_one() {
    let (handle, signal) = new_cancel_pair();
    drop(handle);
    // a dropped handle never fires; the signal reports the loss instead
    assert!(futures::executor::block_on(signal.into_receiver()).is_err());
}

#[test]
fn prompt_completion_is_delivered() {
    // the transport finished before the deadline, and no one cancelled
    let r = resolve_request(Some((10, TransportOutcome::Reply(response(200)))), None, 50);
    assert_eq!(r.unwrap().status, 200);

    let r = resolve_request(
        Some((10, TransportOutcome::Failure(String::from("connection refused")))),
        None,
        50,
    );
    match r {
        Err(Error::TransportError(report)) => assert_eq!(report, "connection refused"),
        _ => panic!("a transport failure must surface as a transport error"),
    }

    // completion before a later cancellation still wins
    let r = resolve_request(Some((10, TransportOutcome::Reply(response(200)))), Some(20), 50);
    assert_eq!(r.unwrap().status, 200);
}

#[test]
fn timeout_before_completion_resolves_timed_out() {
    // a transport that never responds resolves at the 50ms deadline
    let r = resolve_request(None, None, 50);
    assert!(matches!(r, Err(Error::TimedOut)));

    // one that responds too late as well
    let r = resolve_request(Some((60, TransportOutcome::Reply(response(200)))), None, 50);
    assert!(matches!(r, Err(Error::TimedOut)));

    // and its identifier leaves the registry once the task reports back
    let mut service = RequestService::new();
    let (id, _s) = submit(&mut service);
    service.process_command(RequestCommand::RequestFinished(id));
    assert!(!service.is_in_flight(id));
    assert_eq!(service.num_in_flight(), 0);
}

#[test]
fn cancellation_before_completion_resolves_cancelled() {
    // submit, then reset before the transport responds: the signal fired at
    // once, long before the response or the deadline
    let mut service = RequestService::new();
    let (_id, signal) = submit(&mut service);
    service.process_command(RequestCommand::Reset);
    assert_eq!(futures::executor::block_on(signal.into_receiver()), Ok(()));

    let r = resolve_request(Some((40, TransportOutcome::Reply(response(200)))), Some(0), 50);
    assert!(matches!(r, Err(Error::Cancelled(_))));

    // not timed out even when the deadline would also have passed
    let r = resolve_request(None, Some(0), 50);
    assert!(matches!(r, Err(Error::Cancelled(_))));

    // a fresh submission on the same service still works
    let (id, _s) = submit(&mut service);
    assert_eq!(id, 0);
    assert_eq!(service.num_in_flight(), 1);
}

#[test]
fn race_ties_follow_polling_order() {
    // the signal beats the transport on a tie
    let r = resolve_request(Some((50, TransportOutcome::Reply(response(200)))), Some(50), 50);
    assert!(matches!(r, Err(Error::Cancelled(_))));
    // the transport beats the deadline on a tie
    let r = resolve_request(Some((50, TransportOutcome::Reply(response(200)))), None, 50);
    assert_eq!(r.unwrap().status, 200);
    // the signal beats the deadline on a tie
    let r = resolve_request(None, Some(50), 50);
    assert!(matches!(r, Err(Error::Cancelled(_))));
}
