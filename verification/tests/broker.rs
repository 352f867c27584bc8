use fspy_shm::broker::{
    handle_request, new, random_uuid, receive_request, run_broker, send_memfd_now, BrokerEvent, BrokerPhase,
    Datagram, EndpointEvent, EndpointPhase, RequestEvent, RequestPhase, LISTEN_BACKLOG,
    REQUEST_TIMEOUT_SECS,
};
use fspy_shm::error::{Error, ErrorKind, Failure};
use fspy_shm::identifier::decode_id;
use fspy_shm::options::{ReceiveOptions, SendOptions, SocketOptions};
use fspy_shm::wire::{encode_request, PROTOCOL_MAGIC, REQUEST_LEN, RESPONSE, TOKEN_LEN};

const TOKEN: [u8; TOKEN_LEN] = [5; TOKEN_LEN];

fn message(request: [u8; REQUEST_LEN]) -> Datagram {
    Datagram { bytes: REQUEST_LEN, request }
}

fn receive(datagram: Datagram) -> RequestPhase<&'static str> {
    handle_request(RequestPhase::Receiving, &TOKEN, RequestEvent::Received(datagram))
}

fn sending<E>() -> RequestPhase<E> {
    RequestPhase::Sending { response: RESPONSE }
}

#[test]
fn a_valid_request_is_answered() {
    let phase = receive(message(encode_request(&TOKEN)));
    assert!(matches!(phase, RequestPhase::Sending { response } if &response == b"VPSH\x01"));
    let phase = handle_request(phase, &TOKEN, RequestEvent::WouldBlock);
    assert!(matches!(phase, RequestPhase::Sending { response } if &response == b"VPSH\x01"));
    let phase = handle_request(phase, &TOKEN, RequestEvent::Sent(5));
    assert!(matches!(phase, RequestPhase::Finished(Ok(()))));
}

#[test]
fn unknown_requests_end_without_an_answer() {
    let mut bad_version = encode_request(&TOKEN);
    bad_version[PROTOCOL_MAGIC.len()] += 1;
    for request in [bad_version, [0; REQUEST_LEN], encode_request(&[6; TOKEN_LEN])] {
        let phase = receive(message(request));
        assert!(matches!(phase, RequestPhase::Finished(Ok(()))));
        let phase = handle_request(phase, &TOKEN, RequestEvent::Received(message(encode_request(&TOKEN))));
        assert!(matches!(phase, RequestPhase::Finished(Ok(()))));
    }
}

#[test]
fn malformed_requests_are_errors() {
    for bytes in [0, 3, REQUEST_LEN - 1, REQUEST_LEN + 1] {
        let phase = receive(Datagram { bytes, request: encode_request(&TOKEN) });
        assert!(matches!(
            phase,
            RequestPhase::Finished(Err(Failure::Refused(Error::MalformedRequest)))
        ));
    }
    assert_eq!(Error::MalformedRequest.kind(), ErrorKind::InvalidData);
    assert_eq!(Error::MalformedRequest.message(), "malformed broker request");
}

#[test]
fn failures_of_the_connection_are_passed_on() {
    for phase in [RequestPhase::Receiving, sending()] {
        let phase = handle_request(phase, &TOKEN, RequestEvent::Failed("reset"));
        assert!(matches!(phase, RequestPhase::Finished(Err(Failure::Outside("reset")))));
    }
    let waiting: RequestPhase<&str> =
        handle_request(RequestPhase::Receiving, &TOKEN, RequestEvent::WouldBlock);
    assert!(matches!(waiting, RequestPhase::Receiving));
    let waiting = handle_request(waiting, &TOKEN, RequestEvent::Sent(5));
    assert!(matches!(waiting, RequestPhase::Receiving));
}

#[test]
fn the_response_has_to_leave_whole() {
    for bytes in [0, 4, 6] {
        let phase: RequestPhase<()> =
            handle_request(sending(), &TOKEN, RequestEvent::Sent(bytes));
        assert!(matches!(phase, RequestPhase::Finished(Err(Failure::Refused(Error::ShortResponse)))));
    }
    let phase: RequestPhase<()> =
        handle_request(sending(), &TOKEN, RequestEvent::DescriptorNotPushed);
    assert!(matches!(
        phase,
        RequestPhase::Finished(Err(Failure::Refused(Error::ResponseNotConstructed)))
    ));
    assert_eq!(Error::ShortResponse.kind(), ErrorKind::WriteZero);
    assert_eq!(Error::ShortResponse.message(), "short broker response");
    assert_eq!(Error::ResponseNotConstructed.kind(), ErrorKind::Other);
    assert_eq!(
        Error::ResponseNotConstructed.message(),
        "failed to construct SCM_RIGHTS response"
    );
}

#[test]
fn requests_and_responses_are_judged_by_length() {
    let request = encode_request(&TOKEN);
    assert_eq!(receive_request(message(request)), Ok(request));
    assert_eq!(
        receive_request(Datagram { bytes: 3, request }),
        Err(Error::MalformedRequest)
    );
    assert_eq!(send_memfd_now(Some(5)), Ok(()));
    assert_eq!(send_memfd_now(Some(1)), Err(Error::ShortResponse));
    assert_eq!(send_memfd_now(None), Err(Error::ResponseNotConstructed));
}

#[test]
fn the_broker_outlives_its_clients() {
    let mut phase: BrokerPhase<&str> = BrokerPhase::Accepting;
    phase = run_broker(phase, BrokerEvent::WouldBlock);
    assert!(matches!(phase, BrokerPhase::Accepting));
    let outcomes = [
        BrokerEvent::RequestFinished(Ok(())),
        BrokerEvent::RequestFinished(Err(Failure::Refused(Error::MalformedRequest))),
        BrokerEvent::RequestFinished(Err(Failure::Outside("reset"))),
        BrokerEvent::RequestTimedOut,
    ];
    for outcome in outcomes {
        phase = run_broker(phase, BrokerEvent::Accepted);
        assert!(matches!(phase, BrokerPhase::Serving { timeout_secs: 1 }));
        phase = run_broker(phase, outcome);
        assert!(matches!(phase, BrokerPhase::Accepting));
    }
    assert_eq!(REQUEST_TIMEOUT_SECS, 1);
}

#[test]
fn the_broker_stops_with_its_listener() {
    let phase: BrokerPhase<&str> =
        run_broker(BrokerPhase::Accepting, BrokerEvent::ListenerFailed("closed"));
    assert!(matches!(phase, BrokerPhase::Stopped("closed")));
    let phase = run_broker(phase, BrokerEvent::Accepted);
    assert!(matches!(phase, BrokerPhase::Stopped("closed")));
}

#[test]
fn fresh_brokers_have_random_names_and_tokens() {
    let mut seen: Vec<([u8; 16], [u8; TOKEN_LEN])> = Vec::new();
    for _ in 0..16 {
        match new::<(), ()>() {
            EndpointPhase::OpenSocket { abstract_name, token } => {
                for bytes in [abstract_name, token] {
                    assert_eq!(bytes[6] >> 4, 4);
                    assert_eq!(bytes[8] >> 6, 2);
                }
                assert_ne!(abstract_name, token);
                assert!(seen.iter().all(|(name, other)| *name != abstract_name && *other != token));
                seen.push((abstract_name, token));
            }
            _ => panic!("a socket is opened first"),
        }
    }
}

#[test]
fn an_endpoint_is_bound_to_the_name_that_its_identifier_leads_to() {
    assert_eq!(LISTEN_BACKLOG, 16);
    let phase: EndpointPhase<u8, &str> = EndpointPhase::OpenSocket {
        abstract_name: *b"0123456789abcdef",
        token: TOKEN,
    };
    let phase = phase.next(EndpointEvent::Bound);
    assert!(matches!(phase, EndpointPhase::OpenSocket { .. }));
    let phase = phase.next(EndpointEvent::SocketOpened(7));
    match &phase {
        EndpointPhase::Bind { listener, address, .. } => {
            assert_eq!(*listener, 7);
            assert_eq!(address.abstract_name(), Some(b"0123456789abcdef".as_slice()));
        }
        _ => panic!("the socket is bound next"),
    }
    let phase = phase.next(EndpointEvent::Bound);
    assert!(matches!(phase, EndpointPhase::Listen { listener: 7, backlog: 16, .. }));
    let phase = phase.next(EndpointEvent::Listening);
    match &phase {
        EndpointPhase::Ready { listener, id, token } => {
            assert_eq!(*listener, 7);
            assert_eq!(*token, TOKEN);
            assert_eq!(id.len(), 59);
            assert_eq!(decode_id(id).unwrap(), (b"0123456789abcdef".to_vec(), TOKEN));
        }
        _ => panic!("the broker is ready"),
    }
    let phase = phase.next(EndpointEvent::Failed("late"));
    assert!(matches!(phase, EndpointPhase::Ready { .. }));
}

#[test]
fn an_endpoint_fails_with_the_operation_that_failed() {
    let phase: EndpointPhase<u8, &str> = new();
    let phase = phase.next(EndpointEvent::SocketOpened(7)).next(EndpointEvent::Failed("in use"));
    assert!(matches!(phase, EndpointPhase::Failed(Failure::Outside("in use"))));
}

#[test]
fn requests_are_received_with_their_full_length() {
    let receiving: RequestPhase<()> = RequestPhase::Receiving;
    assert_eq!(
        receiving.receive_options(),
        Some(ReceiveOptions { dont_wait: true, full_length: true, close_on_exec: false })
    );
    assert_eq!(receiving.send_options(), None);
    let sending: RequestPhase<()> = sending();
    assert_eq!(sending.receive_options(), None);
    assert_eq!(
        sending.send_options(),
        Some(SendOptions { dont_wait: true, no_signal: true })
    );
    let finished: RequestPhase<()> = RequestPhase::Finished(Ok(()));
    assert_eq!((finished.receive_options(), finished.send_options()), (None, None));
}

#[test]
fn the_sockets_of_a_broker_do_not_wait_and_are_closed_on_exec() {
    let options = Some(SocketOptions { close_on_exec: true, nonblocking: true });
    let endpoint: EndpointPhase<u8, ()> = new();
    assert_eq!(endpoint.socket_options(), options);
    assert_eq!(endpoint.next(EndpointEvent::SocketOpened(7)).socket_options(), None);
    let broker: BrokerPhase<()> = BrokerPhase::Accepting;
    assert_eq!(broker.socket_options(), options);
    assert_eq!(run_broker(broker, BrokerEvent::Accepted).socket_options(), None);
}

#[test]
fn random_uuids_differ() {
    let first = random_uuid();
    let second = random_uuid();
    assert_ne!(first, second);
    for bytes in [first, second] {
        assert_eq!((bytes[6] >> 4, bytes[8] >> 6), (4, 2));
    }
}
