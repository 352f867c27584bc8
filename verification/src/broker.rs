//! The broker: the side that holds the descriptor and hands it out.
//!
//! [`EndpointPhase`] follows the setting up of the listening socket, [`BrokerPhase`] the loop that
//! accepts one client after the other, and [`RequestPhase`] the exchange with one client.
use rustix::net::SocketAddrUnix;
use vstd::prelude::*;

use crate::address::address_name;
use crate::address::socket_address;
use crate::error::Error;
use crate::error::Failure;
use crate::identifier::decode_id;
use crate::identifier::encode_id;
use crate::identifier::identifier;
use crate::identifier::law_identifiers_round_trip;
use crate::identifier::leads_to;
use crate::options::ReceiveOptions;
use crate::options::SendOptions;
use crate::options::SocketOptions;
use crate::wire::request_bytes;
use crate::wire::valid_request;
use crate::wire::REQUEST_LEN;
use crate::wire::RESPONSE;
use crate::wire::RESPONSE_LEN;
use crate::wire::TOKEN_LEN;

verus! {

/// How many clients may wait to be accepted.
pub const LISTEN_BACKLOG: i32 = 16;

/// After how many seconds the exchange with a client is given up.
pub const REQUEST_TIMEOUT_SECS: u64 = 1;

// ---------------------------------------------------------------------------------------------
// One client

/// A message that a client sent.
#[derive(Debug)]
pub struct Datagram {
    /// How many bytes the message has, also where not all of them fit into the buffer.
    pub bytes: usize,
    /// What the receive buffer holds: as much of the message as fits.
    pub request: [u8; REQUEST_LEN],
}

/// Where the exchange with one client stands.
#[derive(Debug)]
pub enum RequestPhase<E> {
    /// The client's request is awaited.
    Receiving,
    /// The request was in order; the response is to be sent, with the descriptor beside it.
    Sending {
        /// The response.
        response: [u8; RESPONSE_LEN],
    },
    /// The exchange is over and the connection is to be closed.
    Finished(Result<(), Failure<E>>),
}

/// What happened to the connection with one client.
#[derive(Debug)]
pub enum RequestEvent<E> {
    /// The attempt came too early and has to be repeated once the socket is ready.
    WouldBlock,
    /// An operation on the socket failed.
    Failed(E),
    /// A message arrived.
    Received(Datagram),
    /// The descriptor did not fit into the response's ancillary data.
    DescriptorNotPushed,
    /// This many bytes of the response were sent.
    Sent(usize),
}

impl<E> RequestPhase<E> {
    /// Returns how the request is received, if that is what the phase waits for.  A message that is
    /// longer than a request shows its own length.
    pub fn receive_options(&self) -> (options: Option<ReceiveOptions>)
        ensures
            options == match self {
                RequestPhase::Receiving => Some(
                    ReceiveOptions { dont_wait: true, full_length: true, close_on_exec: false },
                ),
                _ => None,
            },
    {
        match self {
            RequestPhase::Receiving => Some(
                ReceiveOptions { dont_wait: true, full_length: true, close_on_exec: false },
            ),
            _ => None,
        }
    }

    /// Returns how the response is sent, if that is what the phase waits for.  A client that is gone
    /// raises no signal.
    pub fn send_options(&self) -> (options: Option<SendOptions>)
        ensures
            options == match self {
                RequestPhase::Sending { .. } => Some(
                    SendOptions { dont_wait: true, no_signal: true },
                ),
                _ => None,
            },
    {
        match self {
            RequestPhase::Sending { .. } => Some(SendOptions { dont_wait: true, no_signal: true }),
            _ => None,
        }
    }
}

/// Tells that a message is the request that asks the broker with this token for its descriptor.
pub open spec fn asks_for_descriptor(message: Datagram, token: Seq<u8>) -> bool {
    message.bytes == REQUEST_LEN && message.request@ == request_bytes(token)
}

/// What the event makes of the exchange with one client.  A message of the wrong length is an
/// error, a request for another broker or another version ends the exchange without an answer, and
/// a request in order is answered.  An event that the phase does not wait for changes nothing.
pub open spec fn request_step<E>(
    phase: RequestPhase<E>,
    token: Seq<u8>,
    event: RequestEvent<E>,
) -> RequestPhase<E> {
    match (phase, event) {
        (RequestPhase::Receiving, RequestEvent::Received(message)) => {
            if asks_for_descriptor(message, token) {
                RequestPhase::Sending { response: RESPONSE }
            } else if message.bytes == REQUEST_LEN {
                RequestPhase::Finished(Ok(()))
            } else {
                RequestPhase::Finished(Err(Failure::Refused(Error::MalformedRequest)))
            }
        },
        (RequestPhase::Sending { .. }, RequestEvent::Sent(bytes)) => {
            if bytes == RESPONSE_LEN {
                RequestPhase::Finished(Ok(()))
            } else {
                RequestPhase::Finished(Err(Failure::Refused(Error::ShortResponse)))
            }
        },
        (RequestPhase::Sending { .. }, RequestEvent::DescriptorNotPushed) =>
            RequestPhase::Finished(Err(Failure::Refused(Error::ResponseNotConstructed))),
        (RequestPhase::Receiving, RequestEvent::Failed(error)) =>
            RequestPhase::Finished(Err(Failure::Outside(error))),
        (RequestPhase::Sending { .. }, RequestEvent::Failed(error)) =>
            RequestPhase::Finished(Err(Failure::Outside(error))),
        _ => phase,
    }
}

/// The request that a message holds, if the message has the length of one.
pub fn receive_request(message: Datagram) -> (request: Result<[u8; REQUEST_LEN], Error>)
    ensures
        match request {
            Ok(request) => message.bytes == REQUEST_LEN && request@ == message.request@,
            Err(error) => message.bytes != REQUEST_LEN && error == Error::MalformedRequest,
        },
{
    if message.bytes == REQUEST_LEN {
        Ok(message.request)
    } else {
        Err(Error::MalformedRequest)
    }
}

/// What came of sending the response: it has to have left in one piece, with the descriptor.
/// `None` says that the descriptor did not fit, so that nothing was sent.
pub fn send_memfd_now(sent: Option<usize>) -> (outcome: Result<(), Error>)
    ensures
        match outcome {
            Ok(()) => sent == Some(RESPONSE_LEN),
            Err(Error::ResponseNotConstructed) => sent is None,
            Err(Error::ShortResponse) => sent is Some && sent != Some(RESPONSE_LEN),
            Err(_) => false,
        },
{
    match sent {
        None => Err(Error::ResponseNotConstructed),
        Some(bytes) => {
            if bytes != RESPONSE_LEN {
                Err(Error::ShortResponse)
            } else {
                Ok(())
            }
        },
    }
}

/// Takes the exchange with one client from one phase to the next.
pub fn handle_request<E>(
    phase: RequestPhase<E>,
    token: &[u8; TOKEN_LEN],
    event: RequestEvent<E>,
) -> (next: RequestPhase<E>)
    ensures
        next == request_step(phase, token@, event),
{
    match (phase, event) {
        (RequestPhase::Receiving, RequestEvent::Received(message)) => {
            match receive_request(message) {
                Ok(request) => {
                    if valid_request(&request, token) {
                        RequestPhase::Sending { response: RESPONSE }
                    } else {
                        RequestPhase::Finished(Ok(()))
                    }
                },
                Err(error) => RequestPhase::Finished(Err(Failure::Refused(error))),
            }
        },
        (RequestPhase::Sending { .. }, RequestEvent::Sent(bytes)) => {
            match send_memfd_now(Some(bytes)) {
                Ok(()) => RequestPhase::Finished(Ok(())),
                Err(error) => RequestPhase::Finished(Err(Failure::Refused(error))),
            }
        },
        (RequestPhase::Sending { .. }, RequestEvent::DescriptorNotPushed) => {
            match send_memfd_now(None) {
                Ok(()) => RequestPhase::Finished(Ok(())),
                Err(error) => RequestPhase::Finished(Err(Failure::Refused(error))),
            }
        },
        (RequestPhase::Receiving, RequestEvent::Failed(error)) =>
            RequestPhase::Finished(Err(Failure::Outside(error))),
        (RequestPhase::Sending { .. }, RequestEvent::Failed(error)) =>
            RequestPhase::Finished(Err(Failure::Outside(error))),
        (phase, _) => phase,
    }
}

// ---------------------------------------------------------------------------------------------
// One client after the other

/// Where the broker stands.
#[derive(Debug)]
pub enum BrokerPhase<E> {
    /// The next client is awaited.
    Accepting,
    /// A client is being served, and is given up when that takes too long.
    Serving {
        /// After how many seconds the client is given up.
        timeout_secs: u64,
    },
    /// The listening socket is of no more use.
    Stopped(E),
}

impl<E> BrokerPhase<E> {
    /// Returns how the next client is accepted, if that is what the phase waits for.
    pub fn socket_options(&self) -> (options: Option<SocketOptions>)
        ensures
            options == match self {
                BrokerPhase::Accepting => Some(
                    SocketOptions { close_on_exec: true, nonblocking: true },
                ),
                _ => None,
            },
    {
        match self {
            BrokerPhase::Accepting => Some(
                SocketOptions { close_on_exec: true, nonblocking: true },
            ),
            _ => None,
        }
    }
}

/// What happened to the broker.
#[derive(Debug)]
pub enum BrokerEvent<E> {
    /// The attempt to accept came too early and has to be repeated once a client is there.
    WouldBlock,
    /// A client was accepted.
    Accepted,
    /// An operation on the listening socket failed.
    ListenerFailed(E),
    /// The exchange with the client is over, with this outcome.
    RequestFinished(Result<(), Failure<E>>),
    /// The exchange with the client took too long.
    RequestTimedOut,
}

/// What the event makes of the broker.  However the exchange with a client ends, the next client
/// is awaited; only a failure of the listening socket stops the broker.  An event that the phase
/// does not wait for changes nothing.
pub open spec fn broker_step<E>(phase: BrokerPhase<E>, event: BrokerEvent<E>) -> BrokerPhase<E> {
    match (phase, event) {
        (BrokerPhase::Accepting, BrokerEvent::Accepted) => BrokerPhase::Serving {
            timeout_secs: REQUEST_TIMEOUT_SECS,
        },
        (BrokerPhase::Accepting, BrokerEvent::ListenerFailed(error)) => BrokerPhase::Stopped(error),
        (BrokerPhase::Serving { .. }, BrokerEvent::RequestFinished(_)) => BrokerPhase::Accepting,
        (BrokerPhase::Serving { .. }, BrokerEvent::RequestTimedOut) => BrokerPhase::Accepting,
        _ => phase,
    }
}

/// Takes the broker from one phase to the next.
pub fn run_broker<E>(phase: BrokerPhase<E>, event: BrokerEvent<E>) -> (next: BrokerPhase<E>)
    ensures
        next == broker_step(phase, event),
{
    match (phase, event) {
        (BrokerPhase::Accepting, BrokerEvent::Accepted) => BrokerPhase::Serving {
            timeout_secs: REQUEST_TIMEOUT_SECS,
        },
        (BrokerPhase::Accepting, BrokerEvent::ListenerFailed(error)) => BrokerPhase::Stopped(error),
        (BrokerPhase::Serving { .. }, BrokerEvent::RequestFinished(_)) => BrokerPhase::Accepting,
        (BrokerPhase::Serving { .. }, BrokerEvent::RequestTimedOut) => BrokerPhase::Accepting,
        (phase, _) => phase,
    }
}

// ---------------------------------------------------------------------------------------------
// The listening socket

/// Where the setting up of the listening socket stands.
#[derive(Debug)]
pub enum EndpointPhase<L, E> {
    /// A socket is to be opened.
    OpenSocket {
        /// The name that the broker will have.
        abstract_name: [u8; 16],
        /// The token that the broker will ask for.
        token: [u8; TOKEN_LEN],
    },
    /// The socket is to be bound to the address.
    Bind {
        /// The socket.
        listener: L,
        /// The address that belongs to the name.
        address: SocketAddrUnix,
        /// The broker's name.
        abstract_name: [u8; 16],
        /// The broker's token.
        token: [u8; TOKEN_LEN],
    },
    /// The socket is to listen.
    Listen {
        /// The socket.
        listener: L,
        /// How many clients may wait to be accepted.
        backlog: i32,
        /// The broker's name.
        abstract_name: [u8; 16],
        /// The broker's token.
        token: [u8; TOKEN_LEN],
    },
    /// The broker can be started.
    Ready {
        /// The socket that clients connect to.
        listener: L,
        /// The identifier that leads clients to the broker.
        id: String,
        /// The broker's token.
        token: [u8; TOKEN_LEN],
    },
    /// There is no broker.
    Failed(Failure<E>),
}

/// What happened to the listening socket.
#[derive(Debug)]
pub enum EndpointEvent<L, E> {
    /// The socket was opened.
    SocketOpened(L),
    /// The socket was bound.
    Bound,
    /// The socket listens.
    Listening,
    /// An operation failed.
    Failed(E),
}

/// Tells that sixteen bytes are those of a random (version 4) UUID.
pub open spec fn is_random_uuid(bytes: Seq<u8>) -> bool {
    &&& bytes.len() == 16
    &&& bytes[6] / 16 == 4
    &&& bytes[8] / 64 == 2
}

/// Calls `uuid::Uuid::new_v4` and takes the bytes of its result.  Believed: the bytes carry the
/// version and the variant of a random UUID.  What the other bits are is left to chance.  The call
/// takes no input; it panics only on a system that has no random bytes to give.
#[verifier::external_body]
pub fn random_uuid() -> (bytes: [u8; 16])
    ensures
        is_random_uuid(bytes@),
{
    uuid::Uuid::new_v4().into_bytes()
}

/// Starts a broker with a fresh name and a fresh token, both of them drawn at random.
pub fn new<L, E>() -> (phase: EndpointPhase<L, E>)
    ensures
        phase matches EndpointPhase::OpenSocket { abstract_name, token } && {
            &&& call_ensures(random_uuid, (), abstract_name)
            &&& call_ensures(random_uuid, (), token)
            &&& is_random_uuid(abstract_name@)
            &&& is_random_uuid(token@)
        },
{
    let abstract_name: [u8; 16] = random_uuid();
    let token: [u8; TOKEN_LEN] = random_uuid();
    EndpointPhase::OpenSocket { abstract_name, token }
}

impl<L, E> EndpointPhase<L, E> {
    /// Returns how the listening socket is opened, if that is what the phase waits for.
    pub fn socket_options(&self) -> (options: Option<SocketOptions>)
        ensures
            options == match self {
                EndpointPhase::OpenSocket { .. } => Some(
                    SocketOptions { close_on_exec: true, nonblocking: true },
                ),
                _ => None,
            },
    {
        match self {
            EndpointPhase::OpenSocket { .. } => Some(
                SocketOptions { close_on_exec: true, nonblocking: true },
            ),
            _ => None,
        }
    }

    /// What the event makes of the setting up: the steps follow each other in order, a failure ends
    /// them, and an event that the phase does not wait for changes nothing.
    pub open spec fn leads_to(self, event: EndpointEvent<L, E>, next: Self) -> bool {
        match (self, event) {
            (EndpointPhase::Ready { .. }, _) => next == self,
            (EndpointPhase::Failed(_), _) => next == self,
            (_, EndpointEvent::Failed(error)) => next == EndpointPhase::<L, E>::Failed(
                Failure::Outside(error),
            ),
            (
                EndpointPhase::OpenSocket { abstract_name, token },
                EndpointEvent::SocketOpened(socket),
            ) => next matches EndpointPhase::Bind {
                listener,
                address,
                abstract_name: bound_name,
                token: bound_token,
            } && listener == socket && address_name(address) == abstract_name@ && bound_name
                == abstract_name && bound_token == token,
            (
                EndpointPhase::Bind { listener, address, abstract_name, token },
                EndpointEvent::Bound,
            ) => next == (EndpointPhase::<L, E>::Listen {
                listener,
                backlog: LISTEN_BACKLOG,
                abstract_name,
                token,
            }),
            (
                EndpointPhase::Listen { listener, backlog, abstract_name, token },
                EndpointEvent::Listening,
            ) => next matches EndpointPhase::Ready {
                listener: ready_listener,
                id,
                token: ready_token,
            } && ready_listener == listener && id@ == identifier(abstract_name@, token@)
                && ready_token == token,
            _ => next == self,
        }
    }

    /// Takes the setting up of the listening socket from one phase to the next.
    pub fn next(self, event: EndpointEvent<L, E>) -> (next: Self)
        ensures
            self.leads_to(event, next),
    {
        match (self, event) {
            (EndpointPhase::Ready { listener, id, token }, _) =>
                EndpointPhase::Ready { listener, id, token },
            (EndpointPhase::Failed(failure), _) => EndpointPhase::Failed(failure),
            (_, EndpointEvent::Failed(error)) => EndpointPhase::Failed(Failure::Outside(error)),
            (
                EndpointPhase::OpenSocket { abstract_name, token },
                EndpointEvent::SocketOpened(listener),
            ) => match socket_address(abstract_name.as_slice()) {
                Ok(address) => EndpointPhase::Bind { listener, address, abstract_name, token },
                Err(number) => EndpointPhase::Failed(Failure::Os(number)),
            },
            (
                EndpointPhase::Bind { listener, address: _, abstract_name, token },
                EndpointEvent::Bound,
            ) => EndpointPhase::Listen {
                listener,
                backlog: LISTEN_BACKLOG,
                abstract_name,
                token,
            },
            (
                EndpointPhase::Listen { listener, backlog: _, abstract_name, token },
                EndpointEvent::Listening,
            ) => {
                proof {
                    crate::identifier::lemma_broker_identifier_len(abstract_name@, token@);
                }
                let id: String = encode_id(abstract_name.as_slice(), &token);
                EndpointPhase::Ready { listener, id, token }
            },
            (phase, _) => phase,
        }
    }
}

// ---------------------------------------------------------------------------------------------
// Laws

/// Where the exchange with a client stands after these events.
pub open spec fn request_run<E>(
    phase: RequestPhase<E>,
    token: Seq<u8>,
    events: Seq<RequestEvent<E>>,
) -> RequestPhase<E>
    decreases events.len(),
{
    if events.len() == 0 {
        phase
    } else {
        request_step(request_run(phase, token, events.drop_last()), token, events.last())
    }
}

/// Where the broker stands after these events.
pub open spec fn broker_run<E>(phase: BrokerPhase<E>, events: Seq<BrokerEvent<E>>) -> BrokerPhase<E>
    decreases events.len(),
{
    if events.len() == 0 {
        phase
    } else {
        broker_step(broker_run(phase, events.drop_last()), events.last())
    }
}

/// The descriptor is sent to a client only after that client has sent the request that carries the
/// broker's token, whatever else happened on the connection.
pub proof fn law_descriptor_needs_the_token<E>(token: Seq<u8>, events: Seq<RequestEvent<E>>)
    ensures
        request_run(RequestPhase::<E>::Receiving, token, events) is Sending ==> exists|i: int|
            0 <= i < events.len() && (#[trigger] events[i] matches RequestEvent::Received(message)
                && asks_for_descriptor(message, token)),
    decreases events.len(),
{
    if events.len() > 0 && request_run(
        RequestPhase::<E>::Receiving,
        token,
        events,
    ) is Sending {
        let earlier = events.drop_last();
        law_descriptor_needs_the_token(token, earlier);
        if request_run(RequestPhase::<E>::Receiving, token, earlier) is Sending {
            let i = choose|i: int|
                0 <= i < earlier.len() && (#[trigger] earlier[i] matches RequestEvent::Received(
                    message,
                ) && asks_for_descriptor(message, token));
            assert(events[i] == earlier[i]);
        } else {
            assert(events[events.len() - 1] == events.last());
        }
    }
}

/// A finished exchange stays finished.
proof fn lemma_finished_request_stays<E>(
    phase: RequestPhase<E>,
    token: Seq<u8>,
    events: Seq<RequestEvent<E>>,
)
    requires
        phase is Finished,
    ensures
        request_run(phase, token, events) == phase,
    decreases events.len(),
{
    if events.len() > 0 {
        lemma_finished_request_stays(phase, token, events.drop_last());
    }
}

/// A client whose message is not the broker's request is refused: the exchange is over, and nothing
/// that happens later makes the broker send it anything.  A message of the wrong length counts as
/// an error of the exchange, a request with another version or another token does not.
pub proof fn law_refused_request_is_not_answered<E>(
    token: Seq<u8>,
    message: Datagram,
    later: Seq<RequestEvent<E>>,
)
    requires
        !asks_for_descriptor(message, token),
    ensures
        ({
            let refused = request_step(
                RequestPhase::<E>::Receiving,
                token,
                RequestEvent::Received(message),
            );
            &&& request_run(refused, token, later) == refused
            &&& message.bytes == REQUEST_LEN ==> refused == RequestPhase::<E>::Finished(Ok(()))
            &&& message.bytes != REQUEST_LEN ==> refused == RequestPhase::<E>::Finished(
                Err(Failure::Refused(Error::MalformedRequest)),
            )
        }),
{
    let refused = request_step(
        RequestPhase::<E>::Receiving,
        token,
        RequestEvent::Received(message),
    );
    lemma_finished_request_stays(refused, token, later);
}

/// A client that sends the broker's request is answered: however often the attempts to receive and
/// to send came too early, the exchange succeeds once the whole response has left.
pub proof fn law_request_in_order_is_answered<E>(
    token: Seq<u8>,
    message: Datagram,
    early: Seq<RequestEvent<E>>,
)
    requires
        asks_for_descriptor(message, token),
        forall|i: int| 0 <= i < early.len() ==> #[trigger] early[i] is WouldBlock,
    ensures
        request_run(RequestPhase::<E>::Receiving, token, early) is Receiving,
        request_step(RequestPhase::<E>::Receiving, token, RequestEvent::Received(message)) == (
        RequestPhase::<E>::Sending { response: RESPONSE }),
        request_run((RequestPhase::<E>::Sending { response: RESPONSE }), token, early) == (
        RequestPhase::<E>::Sending { response: RESPONSE }),
        request_step(
            (RequestPhase::<E>::Sending { response: RESPONSE }),
            token,
            RequestEvent::Sent(RESPONSE_LEN),
        ) == RequestPhase::<E>::Finished(Ok(())),
    decreases early.len(),
{
    if early.len() > 0 {
        assert(early[early.len() - 1] is WouldBlock);
        let earlier = early.drop_last();
        assert forall|i: int| 0 <= i < earlier.len() implies #[trigger] earlier[i] is WouldBlock by {
            assert(earlier[i] == early[i]);
        }
        law_request_in_order_is_answered(token, message, earlier);
    }
}

/// No client can stop the broker: as long as its listening socket does not fail, the broker goes on
/// accepting, whatever its clients send and however long they take.
pub proof fn law_broker_outlives_its_clients<E>(events: Seq<BrokerEvent<E>>)
    requires
        forall|i: int| 0 <= i < events.len() ==> !(#[trigger] events[i] is ListenerFailed),
    ensures
        !(broker_run(BrokerPhase::<E>::Accepting, events) is Stopped),
        forall|outcome: Result<(), Failure<E>>|
            broker_run(BrokerPhase::<E>::Accepting, events) is Serving ==> #[trigger] broker_step(
                broker_run(BrokerPhase::<E>::Accepting, events),
                BrokerEvent::RequestFinished(outcome),
            ) is Accepting,
        broker_run(BrokerPhase::<E>::Accepting, events) is Serving ==> broker_step(
            broker_run(BrokerPhase::<E>::Accepting, events),
            BrokerEvent::RequestTimedOut,
        ) is Accepting,
    decreases events.len(),
{
    if events.len() > 0 {
        assert(!(events[events.len() - 1] is ListenerFailed));
        let earlier = events.drop_last();
        assert forall|i: int| 0 <= i < earlier.len() implies !(
        #[trigger] earlier[i] is ListenerFailed) by {
            assert(earlier[i] == events[i]);
        }
        law_broker_outlives_its_clients(earlier);
    }
}

/// A broker whose listening socket fails while it accepts ends with that failure, for good.
pub proof fn law_broker_stops_with_its_listener<E>(error: E, later: Seq<BrokerEvent<E>>)
    ensures
        broker_run(
            broker_step(BrokerPhase::Accepting, BrokerEvent::ListenerFailed(error)),
            later,
        ) == BrokerPhase::Stopped(error),
    decreases later.len(),
{
    if later.len() > 0 {
        law_broker_stops_with_its_listener(error, later.drop_last());
    }
}

impl<L, E> EndpointPhase<L, E> {
    /// Tells that everything in the phase belongs to the broker with this name and this token.
    pub open spec fn belongs_to(self, abstract_name: Seq<u8>, token: Seq<u8>) -> bool {
        match self {
            EndpointPhase::OpenSocket { abstract_name: name, token: own } => name@ == abstract_name
                && own@ == token,
            EndpointPhase::Bind { address, abstract_name: name, token: own, .. } => address_name(
                address,
            ) == abstract_name && name@ == abstract_name && own@ == token,
            EndpointPhase::Listen { abstract_name: name, token: own, .. } => name@ == abstract_name
                && own@ == token,
            EndpointPhase::Ready { id, token: own, .. } => id@ == identifier(abstract_name, token)
                && own@ == token,
            EndpointPhase::Failed(_) => true,
        }
    }
}

/// A broker that is ready has the identifier that leads to the address that its socket was bound
/// to, and asks for the token that the identifier carries: whatever happened while the socket was
/// set up, the phases all belong to the name and the token that it started with.
pub proof fn law_endpoint_keeps_its_identity<L, E>(
    phases: Seq<EndpointPhase<L, E>>,
    events: Seq<EndpointEvent<L, E>>,
    abstract_name: Seq<u8>,
    token: Seq<u8>,
)
    requires
        phases.len() == events.len() + 1,
        phases[0].belongs_to(abstract_name, token),
        forall|i: int|
            #![trigger events[i]]
            0 <= i < events.len() ==> phases[i].leads_to(events[i], phases[i + 1]),
    ensures
        forall|i: int| 0 <= i < phases.len() ==> #[trigger] phases[i].belongs_to(abstract_name, token),
    decreases events.len(),
{
    if events.len() > 0 {
        let last = events.len() - 1;
        let earlier_phases = phases.drop_last();
        let earlier_events = events.drop_last();
        assert forall|i: int|
            #![trigger earlier_events[i]]
            0 <= i < earlier_events.len() implies earlier_phases[i].leads_to(
            earlier_events[i],
            earlier_phases[i + 1],
        ) by {
            assert(earlier_events[i] == events[i]);
        }
        law_endpoint_keeps_its_identity(earlier_phases, earlier_events, abstract_name, token);
        assert(earlier_phases[last].belongs_to(abstract_name, token));
        assert(phases[last].leads_to(events[last], phases[last + 1]));
        assert forall|i: int| 0 <= i < phases.len() implies #[trigger] phases[i].belongs_to(
            abstract_name,
            token,
        ) by {
            if i <= last {
                assert(earlier_phases[i].belongs_to(abstract_name, token));
            }
        }
    }
}

/// A client is answered exactly when its message has 21 bytes and each of them is right: `VPSH`, the
/// version 1 and the sixteen bytes of the broker's token.  The answer is `VPSH` and the version 1.  A
/// message of 21 bytes in which any byte is wrong ends the exchange without an answer, and a message
/// of another length is an error.
pub proof fn law_only_the_exact_request_is_answered<E>(
    token: &[u8; TOKEN_LEN],
    message: Datagram,
    next: RequestPhase<E>,
)
    requires
        call_ensures(
            handle_request::<E>,
            (RequestPhase::<E>::Receiving, token, RequestEvent::<E>::Received(message)),
            next,
        ),
    ensures
        next is Sending <==> {
            &&& message.bytes == 21
            &&& message.request@[0] == 86 && message.request@[1] == 80 && message.request@[2] == 83
                && message.request@[3] == 72
            &&& message.request@[4] == 1
            &&& forall|i: int| 0 <= i < 16 ==> #[trigger] token@[i] == message.request@[5 + i]
        },
        next matches RequestPhase::Sending { response } ==> response@ == seq![86u8, 80, 83, 72, 1],
        message.bytes == 21 && message.request@[4] != 1 ==> next == RequestPhase::<E>::Finished(
            Ok(()),
        ),
        message.bytes == 21 && !(next is Sending) ==> next == RequestPhase::<E>::Finished(Ok(())),
        message.bytes != 21 ==> next == RequestPhase::<E>::Finished(
            Err(Failure::Refused(Error::MalformedRequest)),
        ),
{
    let sent = message.request@;
    assert(RESPONSE@ =~= seq![86u8, 80, 83, 72, 1]);
    if sent[0] == 86 && sent[1] == 80 && sent[2] == 83 && sent[3] == 72 && sent[4] == 1 && (forall|
        i: int,
    |
        0 <= i < 16 ==> #[trigger] token@[i] == sent[5 + i]) {
        assert forall|k: int| 5 <= k < 21 implies sent[k] == request_bytes(token@)[k] by {
            assert(token@[k - 5] == sent[5 + (k - 5)]);
        }
        assert(sent =~= request_bytes(token@));
    }
}

/// The exchange with a client succeeds exactly when all five bytes of the response have left.  Fewer
/// or more are an error, and so is a descriptor that does not fit.
pub proof fn law_response_has_to_leave_whole<E>(
    response: [u8; RESPONSE_LEN],
    token: &[u8; TOKEN_LEN],
    bytes: usize,
    sent: RequestPhase<E>,
    not_pushed: RequestPhase<E>,
)
    requires
        call_ensures(
            handle_request::<E>,
            ((RequestPhase::<E>::Sending { response }), token, RequestEvent::<E>::Sent(bytes)),
            sent,
        ),
        call_ensures(
            handle_request::<E>,
            (
                (RequestPhase::<E>::Sending { response }),
                token,
                RequestEvent::<E>::DescriptorNotPushed,
            ),
            not_pushed,
        ),
    ensures
        bytes == 5 ==> sent == RequestPhase::<E>::Finished(Ok(())),
        bytes != 5 ==> sent == RequestPhase::<E>::Finished(
            Err(Failure::Refused(Error::ShortResponse)),
        ),
        not_pushed == RequestPhase::<E>::Finished(
            Err(Failure::Refused(Error::ResponseNotConstructed)),
        ),
{
}

/// What a message and what sending amount to, on their own: a message is a request exactly when it
/// has 21 bytes, and then is taken as it is; sending succeeded exactly when five bytes left.
pub proof fn law_lengths_decide(
    message: Datagram,
    request: Result<[u8; REQUEST_LEN], Error>,
    sent: Option<usize>,
    outcome: Result<(), Error>,
)
    requires
        call_ensures(receive_request, (message,), request),
        call_ensures(send_memfd_now, (sent,), outcome),
    ensures
        request is Ok <==> message.bytes == 21,
        request matches Ok(request) ==> request@ == message.request@,
        request matches Err(error) ==> error == Error::MalformedRequest,
        outcome is Ok <==> sent == Some(5usize),
        sent is None ==> outcome == Result::<(), Error>::Err(Error::ResponseNotConstructed),
        sent is Some && sent != Some(5usize) ==> outcome == Result::<(), Error>::Err(
            Error::ShortResponse,
        ),
{
}

/// An attempt that came too early changes nothing, nor does anything else that the exchange does not
/// wait for, nor anything at all once it is over.  A failure of the connection ends an exchange that
/// is not over with that failure.
pub proof fn law_exchange_waits_and_fails<E>(
    phase: RequestPhase<E>,
    token: &[u8; TOKEN_LEN],
    event: RequestEvent<E>,
    next: RequestPhase<E>,
)
    requires
        call_ensures(handle_request::<E>, (phase, token, event), next),
    ensures
        phase is Finished ==> next == phase,
        event is WouldBlock ==> next == phase,
        phase is Receiving && (event is Sent || event is DescriptorNotPushed) ==> next == phase,
        phase is Sending && event is Received ==> next == phase,
        event matches RequestEvent::Failed(error) ==> !(phase is Finished) ==> next
            == RequestPhase::<E>::Finished(Err(Failure::Outside(error))),
        phase is Receiving && (event is Received || event is Failed) ==> !(next is Receiving),
        phase is Sending && (event is Sent || event is DescriptorNotPushed || event is Failed)
            ==> next is Finished,
{
}

/// A broker accepts, serves the client for one second at most, and accepts again however that ended;
/// only a failure of the listening socket while it accepts stops it, with that failure and for good.
/// Nothing else changes what it does.
pub proof fn law_broker_serves_and_accepts_again<E>(
    phase: BrokerPhase<E>,
    event: BrokerEvent<E>,
    next: BrokerPhase<E>,
)
    requires
        call_ensures(run_broker::<E>, (phase, event), next),
    ensures
        phase is Accepting && event is Accepted ==> next is Serving && next->timeout_secs == 1,
        phase is Serving && (event is RequestFinished || event is RequestTimedOut)
            ==> next is Accepting,
        phase is Accepting ==> (event matches BrokerEvent::ListenerFailed(error) ==> next
            == BrokerPhase::<E>::Stopped(error)),
        next is Stopped ==> phase is Stopped || (phase is Accepting && event is ListenerFailed),
        phase is Stopped ==> next == phase,
        event is WouldBlock ==> next == phase,
        phase is Accepting && (event is RequestFinished || event is RequestTimedOut) ==> next
            == phase,
        phase is Serving && (event is Accepted || event is ListenerFailed) ==> next == phase,
{
}

/// A socket that is opened, bound and listening without a failure makes a broker: the socket is bound
/// to the address that has exactly the bytes of the name, lets 16 clients wait, and the broker asks
/// for the token.  Reading the broker's identifier gives back that name and that token.
pub proof fn law_endpoint_becomes_a_broker<L, E>(
    abstract_name: [u8; 16],
    token: [u8; TOKEN_LEN],
    socket: L,
    opened: EndpointPhase<L, E>,
    bound: EndpointPhase<L, E>,
    ready: EndpointPhase<L, E>,
    text: &str,
    read: Result<(Vec<u8>, [u8; TOKEN_LEN]), Error>,
)
    requires
        call_ensures(
            EndpointPhase::<L, E>::next,
            (
                (EndpointPhase::<L, E>::OpenSocket { abstract_name, token }),
                EndpointEvent::<L, E>::SocketOpened(socket),
            ),
            opened,
        ),
        call_ensures(EndpointPhase::<L, E>::next, (opened, EndpointEvent::<L, E>::Bound), bound),
        call_ensures(EndpointPhase::<L, E>::next, (bound, EndpointEvent::<L, E>::Listening), ready),
        ready matches EndpointPhase::Ready { id, .. } ==> text@ == id@,
        call_ensures(decode_id, (text,), read),
    ensures
        opened matches EndpointPhase::Bind { listener, address, .. } && listener == socket
            && address_name(address) == abstract_name@,
        bound matches EndpointPhase::Listen { listener, backlog, .. } && listener == socket
            && backlog == 16,
        ready matches EndpointPhase::Ready { listener, token: own, .. } && listener == socket && own
            == token,
        read matches Ok((read_name, read_token)) && read_name@ == abstract_name@ && read_token@
            == token@,
{
    law_identifiers_round_trip(abstract_name@, token@, abstract_name@, token@);
    assert(leads_to(text@, abstract_name@, token@));
    if let Ok((read_name, read_token)) = read {
        law_identifiers_round_trip(abstract_name@, token@, read_name@, read_token@);
    }
}

/// What the setting up of a listening socket waits for, and nothing else, takes it on, whatever phase
/// it is in; the socket, the name and the token stay the same.  An operation that fails ends it with
/// that error, and once it is over it stays as it is.
pub proof fn law_endpoint_moves_on_with_what_it_waits_for<L, E>(
    phase: EndpointPhase<L, E>,
    event: EndpointEvent<L, E>,
    next: EndpointPhase<L, E>,
)
    requires
        call_ensures(EndpointPhase::<L, E>::next, (phase, event), next),
    ensures
        phase is Ready || phase is Failed ==> next == phase,
        event matches EndpointEvent::Failed(error) ==> !(phase is Ready) && !(phase is Failed)
            ==> next == EndpointPhase::<L, E>::Failed(Failure::Outside(error)),
        phase is OpenSocket && event is SocketOpened ==> next is Bind && next->Bind_abstract_name
            == phase->OpenSocket_abstract_name && next->Bind_token == phase->OpenSocket_token
            && next->Bind_listener == event->SocketOpened_0 && address_name(next->address)
            == phase->OpenSocket_abstract_name@,
        phase is Bind && event is Bound ==> next is Listen && next->Listen_abstract_name
            == phase->Bind_abstract_name && next->Listen_token == phase->Bind_token
            && next->Listen_listener == phase->Bind_listener && next->backlog == 16,
        phase is Listen && event is Listening ==> next is Ready && next->Ready_token
            == phase->Listen_token && next->Ready_listener == phase->Listen_listener && next->id@
            == identifier(phase->Listen_abstract_name@, phase->Listen_token@),
        !(event is Failed) && !(phase is OpenSocket && event is SocketOpened) && !(phase is Bind
            && event is Bound) && !(phase is Listen && event is Listening) ==> next == phase,
{
}

/// A new broker starts with a name and a token that were drawn, each of them a version 4 UUID.
pub proof fn law_new_broker_draws_its_name_and_token<L, E>(phase: EndpointPhase<L, E>)
    requires
        call_ensures(new::<L, E>, (), phase),
    ensures
        phase is OpenSocket,
        call_ensures(random_uuid, (), phase->OpenSocket_abstract_name),
        call_ensures(random_uuid, (), phase->OpenSocket_token),
        phase->OpenSocket_abstract_name@[6] / 16 == 4 && phase->OpenSocket_abstract_name@[8] / 64
            == 2,
        phase->OpenSocket_token@[6] / 16 == 4 && phase->OpenSocket_token@[8] / 64 == 2,
{
}

/// Whatever the broker waits for on a socket, it does not wait inside the operation.  It sees the full
/// length of a request, is not signalled by a client that is gone, and leaves no socket to the
/// programs that its process runs.
pub proof fn law_broker_uses_its_sockets_safely<L, E>(
    request_phase: RequestPhase<E>,
    broker_phase: BrokerPhase<E>,
    endpoint_phase: EndpointPhase<L, E>,
    receive: Option<ReceiveOptions>,
    send: Option<SendOptions>,
    accept: Option<SocketOptions>,
    listen: Option<SocketOptions>,
)
    requires
        call_ensures(RequestPhase::<E>::receive_options, (&request_phase,), receive),
        call_ensures(RequestPhase::<E>::send_options, (&request_phase,), send),
        call_ensures(BrokerPhase::<E>::socket_options, (&broker_phase,), accept),
        call_ensures(EndpointPhase::<L, E>::socket_options, (&endpoint_phase,), listen),
    ensures
        receive is Some <==> request_phase is Receiving,
        send is Some <==> request_phase is Sending,
        accept is Some <==> broker_phase is Accepting,
        listen is Some <==> endpoint_phase is OpenSocket,
        receive matches Some(options) ==> options.dont_wait && options.full_length
            && !options.close_on_exec,
        send matches Some(options) ==> options.dont_wait && options.no_signal,
        accept matches Some(options) ==> options.close_on_exec && options.nonblocking,
        listen matches Some(options) ==> options.close_on_exec && options.nonblocking,
{
}

} // verus!
