//! A broker and its clients over real sockets, one step after the other in one process.
use std::io::{IoSlice, IoSliceMut};
use std::mem::MaybeUninit;

use fspy_shm::broker::{
    handle_request, new, Datagram, EndpointEvent, EndpointPhase, RequestEvent, RequestPhase,
};
use fspy_shm::client::{request_memfd, AncillaryMessage, ClientEvent, ClientPhase, Reply};
use fspy_shm::error::{Error, Failure};
use fspy_shm::identifier::{decode_id, encode_id};
use fspy_shm::options::{ReceiveOptions, SendOptions};
use fspy_shm::shm::{create, created, open, CreateEvent, CreatePhase, OpenEvent, OpenPhase, Seals};
use fspy_shm::wire::{REQUEST_LEN, TOKEN_LEN};
use memmap2::MmapOptions;
use rustix::fd::{AsFd, OwnedFd};
use rustix::fs::{
    fcntl_add_seals, fcntl_get_seals, fstat, ftruncate, memfd_create, MemfdFlags, SealFlags,
};
use rustix::io::{fcntl_getfd, pread, pwrite, Errno, FdFlags};
use rustix::net::{
    accept_with, bind, connect, listen, recvmsg, send, sendmsg, socket_with, AddressFamily,
    RecvAncillaryBuffer, RecvAncillaryMessage, RecvFlags, ReturnFlags, SendAncillaryBuffer,
    SendAncillaryMessage, SendFlags, SocketFlags, SocketType,
};

struct Broker {
    listener: OwnedFd,
    id: String,
    token: [u8; TOKEN_LEN],
    memfd: OwnedFd,
}

fn socket() -> OwnedFd {
    socket_with(AddressFamily::UNIX, SocketType::SEQPACKET, SocketFlags::CLOEXEC, None).unwrap()
}

fn start_broker(memfd: OwnedFd) -> Broker {
    let mut phase: EndpointPhase<OwnedFd, Errno> = new();
    loop {
        let event = match &phase {
            EndpointPhase::OpenSocket { .. } => EndpointEvent::SocketOpened(socket()),
            EndpointPhase::Bind { listener, address, .. } => {
                bind(listener, address).unwrap();
                EndpointEvent::Bound
            }
            EndpointPhase::Listen { listener, backlog, .. } => {
                listen(listener, *backlog).unwrap();
                EndpointEvent::Listening
            }
            EndpointPhase::Ready { .. } | EndpointPhase::Failed(_) => break,
        };
        phase = phase.next(event);
    }
    match phase {
        EndpointPhase::Ready { listener, id, token } => Broker { listener, id, token, memfd },
        _ => panic!("the broker is not ready"),
    }
}

fn receive_flags(options: Option<ReceiveOptions>) -> RecvFlags {
    let options = options.unwrap();
    let mut flags = RecvFlags::empty();
    flags.set(RecvFlags::DONTWAIT, options.dont_wait);
    flags.set(RecvFlags::TRUNC, options.full_length);
    flags.set(RecvFlags::CMSG_CLOEXEC, options.close_on_exec);
    flags
}

fn send_flags(options: Option<SendOptions>) -> SendFlags {
    let options = options.unwrap();
    let mut flags = SendFlags::empty();
    flags.set(SendFlags::DONTWAIT, options.dont_wait);
    flags.set(SendFlags::NOSIGNAL, options.no_signal);
    flags
}

/// Serves the client that waits, and tells how the exchange ended.
fn serve(broker: &Broker) -> Result<(), Failure<Errno>> {
    let client = accept_with(&broker.listener, SocketFlags::CLOEXEC).unwrap();
    let mut phase = RequestPhase::Receiving;
    loop {
        let event = match phase {
            RequestPhase::Receiving => {
                let mut request = [0_u8; REQUEST_LEN];
                let mut ancillary = RecvAncillaryBuffer::default();
                let received = recvmsg(
                    &client,
                    &mut [IoSliceMut::new(&mut request)],
                    &mut ancillary,
                    receive_flags(phase.receive_options()),
                )
                .map(|message| message.bytes);
                match received {
                    Ok(bytes) => RequestEvent::Received(Datagram { bytes, request }),
                    Err(error) => RequestEvent::Failed(error),
                }
            }
            RequestPhase::Sending { response } => {
                let descriptor = [broker.memfd.as_fd()];
                let mut space = [MaybeUninit::uninit(); 64];
                let mut ancillary = SendAncillaryBuffer::new(&mut space);
                assert!(ancillary.push(SendAncillaryMessage::ScmRights(&descriptor)));
                let sent = sendmsg(
                    &client,
                    &[IoSlice::new(&response)],
                    &mut ancillary,
                    send_flags(phase.send_options()),
                );
                match sent {
                    Ok(bytes) => RequestEvent::Sent(bytes),
                    Err(error) => RequestEvent::Failed(error),
                }
            }
            RequestPhase::Finished(outcome) => return outcome,
        };
        phase = handle_request(phase, &broker.token, event);
    }
}

fn receive(socket: &OwnedFd, options: Option<ReceiveOptions>) -> Reply<OwnedFd> {
    let mut response = [0_u8; 6];
    let mut space = [MaybeUninit::uninit(); 64];
    let mut ancillary = RecvAncillaryBuffer::new(&mut space);
    let (bytes, flags) = {
        let message = recvmsg(
            socket,
            &mut [IoSliceMut::new(&mut response)],
            &mut ancillary,
            receive_flags(options),
        )
        .unwrap();
        (message.bytes, message.flags)
    };
    let mut messages = Vec::new();
    for message in ancillary.drain() {
        messages.push(match message {
            RecvAncillaryMessage::ScmRights(descriptors) => {
                AncillaryMessage::Rights(descriptors.collect())
            }
            _ => AncillaryMessage::Other,
        });
    }
    Reply {
        bytes,
        truncated: flags.contains(ReturnFlags::TRUNC),
        control_truncated: flags.contains(ReturnFlags::CTRUNC),
        response,
        ancillary: messages,
    }
}

/// Asks for the descriptor; the broker, if there is one, serves the client in between.
fn ask(id: &str, broker: Option<&Broker>) -> Result<OwnedFd, Failure<Errno>> {
    let mut phase: ClientPhase<OwnedFd, Errno> = request_memfd(id);
    let socket = socket();
    loop {
        let event = match &phase {
            ClientPhase::OpenSocket { .. } => ClientEvent::SocketOpened,
            ClientPhase::Connect { address, .. } => match connect(&socket, address) {
                Ok(()) => ClientEvent::Connected,
                Err(error) => ClientEvent::Failed(error),
            },
            ClientPhase::Send { request } => {
                match send(&socket, request, send_flags(phase.send_options())) {
                    Ok(bytes) => ClientEvent::Sent(bytes),
                    Err(error) => ClientEvent::Failed(error),
                }
            }
            ClientPhase::Receive => {
                if let Some(broker) = broker {
                    serve(broker).unwrap();
                }
                ClientEvent::Replied(receive(&socket, phase.receive_options()))
            }
            ClientPhase::Finished(_) => break,
        };
        phase = phase.next(event);
    }
    match phase {
        ClientPhase::Finished(outcome) => outcome,
        _ => panic!("the exchange is not over"),
    }
}

fn seal_flags(seals: Seals) -> SealFlags {
    let mut flags = SealFlags::empty();
    flags.set(SealFlags::GROW, seals.grow);
    flags.set(SealFlags::SHRINK, seals.shrink);
    flags.set(SealFlags::WRITE, seals.write);
    flags.set(SealFlags::SEAL, seals.seal);
    flags
}

fn create_shm(size: usize) -> fspy_shm::shm::CreatedShm<Broker> {
    let mut phase: CreatePhase<OwnedFd, Errno> = create(size);
    loop {
        let event = match &phase {
            CreatePhase::CreateMemfd { name, close_on_exec, allow_sealing, .. } => {
                let mut flags = MemfdFlags::empty();
                flags.set(MemfdFlags::CLOEXEC, *close_on_exec);
                flags.set(MemfdFlags::ALLOW_SEALING, *allow_sealing);
                CreateEvent::MemfdCreated(memfd_create(*name, flags).unwrap())
            }
            CreatePhase::Truncate { memfd, file_size, .. } => {
                ftruncate(memfd, *file_size).unwrap();
                CreateEvent::Truncated
            }
            CreatePhase::AddSeals { memfd, seals, .. } => {
                fcntl_add_seals(memfd, seal_flags(*seals)).unwrap();
                CreateEvent::Sealed
            }
            CreatePhase::MapMemfd { memfd, size } => {
                CreateEvent::Mapped(MmapOptions::new().len(*size).map_raw(memfd).unwrap())
            }
            CreatePhase::StartBroker { .. } | CreatePhase::Failed(_) => break,
        };
        phase = phase.next(event);
    }
    match phase {
        CreatePhase::StartBroker { memfd, mapping } => {
            let broker = start_broker(memfd);
            created(broker.id.clone(), mapping, broker)
        }
        _ => panic!("there is no mapping"),
    }
}

fn open_shm(id: &str, size: usize, broker: Option<&Broker>) -> Result<fspy_shm::shm::Shm, Failure<Errno>> {
    let mut phase: OpenPhase<OwnedFd, Errno> = open(id, size);
    loop {
        let event = match &phase {
            OpenPhase::RequestMemfd { id, .. } => match ask(id, broker) {
                Ok(memfd) => OpenEvent::MemfdReceived(memfd),
                Err(failure) => OpenEvent::Failed(failure),
            },
            OpenPhase::Inspect { memfd, .. } => OpenEvent::Inspected(fstat(memfd).unwrap().st_size),
            OpenPhase::MapMemfd { memfd, size, .. } => {
                OpenEvent::Mapped(MmapOptions::new().len(*size).map_raw(memfd).unwrap())
            }
            OpenPhase::Finished(_) => break,
        };
        phase = phase.next(event);
    }
    match phase {
        OpenPhase::Finished(outcome) => outcome,
        _ => panic!("the opening is not over"),
    }
}

#[test]
fn a_created_mapping_can_be_opened() {
    let created = create_shm(64 * 1024);
    assert_eq!(created.shm.len(), 64 * 1024);
    let opened = open_shm(created.shm.id(), 64 * 1024, Some(&created.broker)).unwrap();
    assert_eq!(opened.id(), created.shm.id());
    assert_eq!(opened.len(), 64 * 1024);
}

#[test]
fn the_descriptor_is_that_of_the_sealed_file() {
    let created = create_shm(4096);
    let descriptor = ask(created.shm.id(), Some(&created.broker)).unwrap();
    assert_eq!(
        fcntl_get_seals(&descriptor).unwrap(),
        SealFlags::GROW | SealFlags::SHRINK | SealFlags::SEAL
    );
    let received = fstat(&descriptor).unwrap();
    let own = fstat(&created.broker.memfd).unwrap();
    assert_eq!((received.st_dev, received.st_ino), (own.st_dev, own.st_ino));

    let mut bytes = [1_u8; 4096];
    assert_eq!(pread(&descriptor, &mut bytes, 0).unwrap(), 4096);
    assert!(bytes.iter().all(|byte| *byte == 0));
    assert_eq!(pwrite(&created.broker.memfd, &[17], 0).unwrap(), 1);
    assert_eq!(pwrite(&descriptor, &[29], 4095).unwrap(), 1);
    assert_eq!(pread(&descriptor, &mut bytes, 0).unwrap(), 4096);
    assert_eq!((bytes[0], bytes[4095]), (17, 29));
    assert_eq!(pread(&created.broker.memfd, &mut bytes, 0).unwrap(), 4096);
    assert_eq!((bytes[0], bytes[4095]), (17, 29));
    assert!(ftruncate(&descriptor, 8192).is_err());
    assert!(ftruncate(&descriptor, 1024).is_err());
}

#[test]
fn received_descriptor_is_close_on_exec() {
    let created = create_shm(4096);
    let descriptor = ask(created.shm.id(), Some(&created.broker)).unwrap();
    assert!(fcntl_getfd(&descriptor).unwrap().contains(FdFlags::CLOEXEC));
    assert_eq!(
        fcntl_get_seals(&descriptor).unwrap(),
        SealFlags::GROW | SealFlags::SHRINK | SealFlags::SEAL
    );
}

#[test]
fn a_size_mismatch_is_refused_and_the_broker_goes_on() {
    let created = create_shm(4096);
    assert_eq!(
        open_shm(created.shm.id(), 8192, Some(&created.broker)).unwrap_err(),
        Failure::Refused(Error::SizeMismatch)
    );
    assert!(open_shm(created.shm.id(), 4096, Some(&created.broker)).is_ok());
}

#[test]
fn brokers_answer_to_their_own_token_only() {
    let first = create_shm(4096);
    let second = create_shm(4096);
    let (first_name, mut wrong_token) = decode_id(first.shm.id()).unwrap();
    wrong_token[0] ^= u8::MAX;
    let wrong_id = encode_id(&first_name, &wrong_token);
    assert_eq!(
        open_shm(&wrong_id, 4096, Some(&first.broker)).unwrap_err(),
        Failure::Refused(Error::InvalidResponse)
    );
    assert!(open_shm(first.shm.id(), 4096, Some(&first.broker)).is_ok());
    assert!(open_shm(second.shm.id(), 4096, Some(&second.broker)).is_ok());
}

#[test]
fn malformed_requests_are_refused_without_stopping_the_broker() {
    let created = create_shm(4096);
    let (abstract_name, _) = decode_id(created.shm.id()).unwrap();
    for request in [b"bad".as_slice(), &[0_u8; REQUEST_LEN + 1]] {
        let client = socket();
        connect(&client, &fspy_shm::address::socket_address(&abstract_name).unwrap()).unwrap();
        assert_eq!(send(&client, request, SendFlags::NOSIGNAL).unwrap(), request.len());
        assert_eq!(
            serve(&created.broker).unwrap_err(),
            Failure::Refused(Error::MalformedRequest)
        );
        let awaiting: ClientPhase<OwnedFd, Errno> = ClientPhase::Receive;
        let reply = receive(&client, awaiting.receive_options());
        assert_eq!(reply.bytes, 0);
        assert!(reply.ancillary.is_empty());
    }
    assert!(open_shm(created.shm.id(), 4096, Some(&created.broker)).is_ok());
}

#[test]
fn a_broker_that_is_gone_cannot_be_reached() {
    let created = create_shm(4096);
    let id = created.shm.id().to_owned();
    drop(created.broker);
    assert_eq!(
        open_shm(&id, 4096, None).unwrap_err(),
        Failure::Outside(Errno::CONNREFUSED)
    );
}
