use fspy_shm::address::MAX_NAME_LEN;
use fspy_shm::client::{
    receive_memfd, request_memfd, AncillaryMessage, ClientEvent, ClientPhase, Reply,
};
use fspy_shm::error::{Error, ErrorKind, Failure};
use fspy_shm::identifier::encode_id;
use fspy_shm::options::{ReceiveOptions, SendOptions, SocketOptions};
use fspy_shm::wire::{encode_request, TOKEN_LEN};

const TOKEN: [u8; TOKEN_LEN] = [5; TOKEN_LEN];

fn reply(ancillary: Vec<AncillaryMessage<u8>>) -> Reply<u8> {
    Reply {
        bytes: 5,
        truncated: false,
        control_truncated: false,
        response: *b"VPSH\x01\x00",
        ancillary,
    }
}

#[test]
fn the_one_descriptor_is_taken() {
    assert_eq!(receive_memfd(reply(vec![AncillaryMessage::Rights(vec![9])])), Ok(9));
    assert_eq!(
        receive_memfd(reply(vec![
            AncillaryMessage::Other,
            AncillaryMessage::Rights(vec![]),
            AncillaryMessage::Rights(vec![9]),
            AncillaryMessage::Other,
        ])),
        Ok(9)
    );
}

#[test]
fn anything_but_one_descriptor_is_refused() {
    assert_eq!(receive_memfd(reply(vec![])), Err(Error::NoDescriptor));
    assert_eq!(receive_memfd(reply(vec![AncillaryMessage::Other])), Err(Error::NoDescriptor));
    assert_eq!(
        receive_memfd(reply(vec![AncillaryMessage::Rights(vec![1, 2])])),
        Err(Error::MultipleDescriptors)
    );
    assert_eq!(
        receive_memfd(reply(vec![
            AncillaryMessage::Rights(vec![1]),
            AncillaryMessage::Rights(vec![2]),
        ])),
        Err(Error::MultipleDescriptors)
    );
    assert_eq!(Error::NoDescriptor.kind(), ErrorKind::InvalidData);
    assert_eq!(Error::NoDescriptor.message(), "broker returned no descriptor");
    assert_eq!(Error::MultipleDescriptors.kind(), ErrorKind::InvalidData);
    assert_eq!(Error::MultipleDescriptors.message(), "broker returned multiple descriptors");
}

#[test]
fn anything_but_the_response_is_refused() {
    let descriptor = || vec![AncillaryMessage::Rights(vec![9])];
    let closed = Reply { bytes: 0, ..reply(vec![]) };
    let long = Reply { bytes: 6, ..reply(descriptor()) };
    let truncated = Reply { truncated: true, ..reply(descriptor()) };
    let control_truncated = Reply { control_truncated: true, ..reply(descriptor()) };
    let other = Reply { response: *b"VPSH\x02\x00", ..reply(descriptor()) };
    for reply in [closed, long, truncated, control_truncated, other] {
        assert_eq!(receive_memfd(reply), Err(Error::InvalidResponse));
    }
    assert_eq!(Error::InvalidResponse.kind(), ErrorKind::InvalidData);
    assert_eq!(Error::InvalidResponse.message(), "invalid broker response");
}

#[test]
fn the_exchange_goes_from_the_identifier_to_the_descriptor() {
    let id = encode_id(b"name", &TOKEN);
    let phase: ClientPhase<u8, &str> = request_memfd(&id);
    assert!(matches!(
        &phase,
        ClientPhase::OpenSocket { abstract_name, token } if abstract_name == b"name" && *token == TOKEN
    ));
    let phase = phase.next(ClientEvent::Connected);
    assert!(matches!(phase, ClientPhase::OpenSocket { .. }));
    let phase = phase.next(ClientEvent::SocketOpened);
    assert!(matches!(
        &phase,
        ClientPhase::Connect { address, .. } if address.abstract_name() == Some(b"name".as_slice())
    ));
    let phase = phase.next(ClientEvent::Connected);
    assert!(matches!(&phase, ClientPhase::Send { request } if *request == encode_request(&TOKEN)));
    let phase = phase.next(ClientEvent::Sent(21));
    assert!(matches!(phase, ClientPhase::Receive));
    let phase = phase.next(ClientEvent::Replied(reply(vec![AncillaryMessage::Rights(vec![9])])));
    assert!(matches!(phase, ClientPhase::Finished(Ok(9))));
    let phase = phase.next(ClientEvent::Failed("late"));
    assert!(matches!(phase, ClientPhase::Finished(Ok(9))));
}

#[test]
fn the_exchange_ends_with_what_went_wrong() {
    let malformed: ClientPhase<u8, &str> = request_memfd("not-a-broker-id");
    assert!(matches!(
        malformed,
        ClientPhase::Finished(Err(Failure::Refused(Error::InvalidIdentifier)))
    ));

    let too_long: ClientPhase<u8, &str> =
        request_memfd(&encode_id(&[1; MAX_NAME_LEN + 1], &TOKEN));
    assert!(matches!(&too_long, ClientPhase::OpenSocket { .. }));
    assert!(matches!(
        too_long.next(ClientEvent::SocketOpened),
        ClientPhase::Finished(Err(Failure::Os(libc::ENAMETOOLONG)))
    ));

    let failed: ClientPhase<u8, &str> = request_memfd(&encode_id(b"name", &TOKEN));
    let failed = failed.next(ClientEvent::SocketOpened).next(ClientEvent::Failed("refused"));
    assert!(matches!(failed, ClientPhase::Finished(Err(Failure::Outside("refused")))));

    let short: ClientPhase<u8, &str> = ClientPhase::Send { request: encode_request(&TOKEN) };
    assert!(matches!(
        short.next(ClientEvent::Sent(20)),
        ClientPhase::Finished(Err(Failure::Refused(Error::ShortRequest)))
    ));
    assert_eq!(Error::ShortRequest.kind(), ErrorKind::WriteZero);
    assert_eq!(Error::ShortRequest.message(), "short broker request");

    let refused: ClientPhase<u8, &str> = ClientPhase::Receive;
    assert!(matches!(
        refused.next(ClientEvent::Replied(Reply { bytes: 0, ..reply(vec![]) })),
        ClientPhase::Finished(Err(Failure::Refused(Error::InvalidResponse)))
    ));
}

#[test]
fn a_received_descriptor_is_to_be_closed_on_exec() {
    let opening: ClientPhase<u8, ()> = request_memfd(&encode_id(b"name", &TOKEN));
    assert_eq!(
        opening.socket_options(),
        Some(SocketOptions { close_on_exec: true, nonblocking: false })
    );
    assert_eq!((opening.send_options(), opening.receive_options()), (None, None));
    let sending: ClientPhase<u8, ()> = ClientPhase::Send { request: encode_request(&TOKEN) };
    assert_eq!(
        sending.send_options(),
        Some(SendOptions { dont_wait: false, no_signal: true })
    );
    assert_eq!((sending.socket_options(), sending.receive_options()), (None, None));
    let receiving: ClientPhase<u8, ()> = ClientPhase::Receive;
    assert_eq!(
        receiving.receive_options(),
        Some(ReceiveOptions { dont_wait: false, full_length: false, close_on_exec: true })
    );
    assert_eq!((receiving.socket_options(), receiving.send_options()), (None, None));
}
