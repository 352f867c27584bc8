//! The client: the side that asks a broker for its descriptor.
use rustix::net::SocketAddrUnix;
use vstd::prelude::*;

use crate::address::address_name;
use crate::address::name_is_refused;
use crate::address::socket_address;
use crate::address::MAX_NAME_LEN;
use crate::broker::asks_for_descriptor;
use crate::broker::handle_request;
use crate::broker::law_refused_request_is_not_answered;
use crate::broker::request_run;
use crate::broker::request_step;
use crate::broker::Datagram;
use crate::broker::RequestEvent;
use crate::broker::RequestPhase;
use crate::error::Error;
use crate::error::Failure;
use crate::identifier::decode_id;
use crate::identifier::encode_id;
use crate::identifier::identifier;
use crate::identifier::law_identifiers_round_trip;
use crate::identifier::leads_nowhere;
use crate::identifier::leads_to;
use crate::options::ReceiveOptions;
use crate::options::SendOptions;
use crate::options::SocketOptions;
use crate::wire::encode_request;
use crate::wire::law_request_carries_its_token;
use crate::wire::request_bytes;
use crate::wire::starts_with_response;
use crate::wire::REQUEST_LEN;
use crate::wire::RESPONSE;
use crate::wire::RESPONSE_LEN;
use crate::wire::TOKEN_LEN;

verus! {

// ---------------------------------------------------------------------------------------------
// The broker's answer

/// Something that travelled beside a message.
#[derive(Debug)]
pub enum AncillaryMessage<T> {
    /// Descriptors that the sender passed on.
    Rights(Vec<T>),
    /// Anything else.
    Other,
}

/// What was received from the broker.
#[derive(Debug)]
pub struct Reply<T> {
    /// How many bytes were received; none if the broker closed the connection.
    pub bytes: usize,
    /// Whether the message was cut off.
    pub truncated: bool,
    /// Whether what travelled beside the message was cut off.
    pub control_truncated: bool,
    /// The receive buffer, which has room for one byte more than the response.
    pub response: [u8; 6],
    /// What travelled beside the message.
    pub ancillary: Vec<AncillaryMessage<T>>,
}

/// The descriptors that travelled beside a message, in order.
pub open spec fn descriptors<T>(ancillary: Seq<AncillaryMessage<T>>) -> Seq<T>
    decreases ancillary.len(),
{
    if ancillary.len() == 0 {
        Seq::empty()
    } else {
        descriptors(ancillary.drop_last()) + match ancillary.last() {
            AncillaryMessage::Rights(passed) => passed@,
            AncillaryMessage::Other => Seq::empty(),
        }
    }
}

impl<T> Reply<T> {
    /// Tells that the message is the broker's response, whole and nothing more.
    pub open spec fn is_response(self) -> bool {
        &&& self.bytes == RESPONSE_LEN
        &&& !self.truncated
        &&& !self.control_truncated
        &&& self.response@.subrange(0, RESPONSE_LEN as int) == RESPONSE@
    }

    /// What the reply amounts to: the one descriptor that came with the broker's response.
    pub open spec fn outcome(self) -> Result<T, Error> {
        let passed = descriptors(self.ancillary@);
        if !self.is_response() {
            Err(Error::InvalidResponse)
        } else if passed.len() == 0 {
            Err(Error::NoDescriptor)
        } else if passed.len() == 1 {
            Ok(passed[0])
        } else {
            Err(Error::MultipleDescriptors)
        }
    }
}

/// Takes the descriptor out of the broker's reply.  The message has to be the broker's response,
/// and exactly one descriptor has to have come with it.
pub fn receive_memfd<T>(reply: Reply<T>) -> (descriptor: Result<T, Error>)
    ensures
        descriptor == reply.outcome(),
{
    if reply.bytes != RESPONSE_LEN || reply.truncated || reply.control_truncated
        || !starts_with_response(&reply.response) {
        return Err(Error::InvalidResponse);
    }
    let mut ancillary: Vec<AncillaryMessage<T>> = reply.ancillary;
    let mut received: Option<T> = None;
    let ghost all = descriptors(ancillary@);
    while ancillary.len() > 0
        invariant
            all == descriptors(ancillary@) + match received {
                Some(descriptor) => seq![descriptor],
                None => Seq::empty(),
            },
            reply.is_response(),
            all == descriptors(reply.ancillary@),
        decreases ancillary.len(),
    {
        if let Some(AncillaryMessage::Rights(mut passed)) = ancillary.pop() {
            while passed.len() > 0
                invariant
                    all == descriptors(ancillary@) + passed@ + match received {
                        Some(descriptor) => seq![descriptor],
                        None => Seq::empty(),
                    },
                    reply.is_response(),
                    all == descriptors(reply.ancillary@),
                decreases passed.len(),
            {
                if received.is_some() {
                    return Err(Error::MultipleDescriptors);
                }
                received = passed.pop();
            }
        }
    }
    match received {
        Some(descriptor) => Ok(descriptor),
        None => Err(Error::NoDescriptor),
    }
}

// ---------------------------------------------------------------------------------------------
// The exchange with the broker

/// Where the exchange with the broker stands.
#[derive(Debug)]
pub enum ClientPhase<T, E> {
    /// A socket is to be opened.
    OpenSocket {
        /// The name of the broker that the identifier leads to.
        abstract_name: Vec<u8>,
        /// The token that the identifier carries.
        token: [u8; TOKEN_LEN],
    },
    /// The socket is to be connected to the address.
    Connect {
        /// The broker's address.
        address: SocketAddrUnix,
        /// The token that the identifier carries.
        token: [u8; TOKEN_LEN],
    },
    /// The request is to be sent.
    Send {
        /// The request.
        request: [u8; REQUEST_LEN],
    },
    /// The broker's reply is awaited.
    Receive,
    /// The exchange is over.
    Finished(Result<T, Failure<E>>),
}

/// What happened on the way to the broker.
#[derive(Debug)]
pub enum ClientEvent<T, E> {
    /// The socket was opened.
    SocketOpened,
    /// The socket was connected.
    Connected,
    /// This many bytes of the request were sent.
    Sent(usize),
    /// Something was received.
    Replied(Reply<T>),
    /// An operation failed.
    Failed(E),
}

/// Starts to ask the broker that the identifier leads to for its descriptor.  A text that leads to
/// no broker is refused before anything else is done.
pub fn request_memfd<T, E>(id: &str) -> (phase: ClientPhase<T, E>)
    ensures
        match phase {
            ClientPhase::OpenSocket { abstract_name, token } => leads_to(
                id@,
                abstract_name@,
                token@,
            ),
            ClientPhase::Finished(outcome) => {
                &&& outcome == Result::<T, Failure<E>>::Err(
                    Failure::Refused(Error::InvalidIdentifier),
                )
                &&& leads_nowhere(id@)
            },
            _ => false,
        },
{
    match decode_id(id) {
        Ok((abstract_name, token)) => ClientPhase::OpenSocket { abstract_name, token },
        Err(error) => ClientPhase::Finished(Err(Failure::Refused(error))),
    }
}

impl<T, E> ClientPhase<T, E> {
    /// Returns how the socket is opened, if that is what the phase waits for.
    pub fn socket_options(&self) -> (options: Option<SocketOptions>)
        ensures
            options == match self {
                ClientPhase::OpenSocket { .. } => Some(
                    SocketOptions { close_on_exec: true, nonblocking: false },
                ),
                _ => None,
            },
    {
        match self {
            ClientPhase::OpenSocket { .. } => Some(
                SocketOptions { close_on_exec: true, nonblocking: false },
            ),
            _ => None,
        }
    }

    /// Returns how the request is sent, if that is what the phase waits for.  A broker that is gone
    /// raises no signal.
    pub fn send_options(&self) -> (options: Option<SendOptions>)
        ensures
            options == match self {
                ClientPhase::Send { .. } => Some(SendOptions { dont_wait: false, no_signal: true }),
                _ => None,
            },
    {
        match self {
            ClientPhase::Send { .. } => Some(SendOptions { dont_wait: false, no_signal: true }),
            _ => None,
        }
    }

    /// Returns how the broker's reply is received, if that is what the phase waits for.  The
    /// descriptor that comes with it is closed on exec.
    pub fn receive_options(&self) -> (options: Option<ReceiveOptions>)
        ensures
            options == match self {
                ClientPhase::Receive => Some(
                    ReceiveOptions { dont_wait: false, full_length: false, close_on_exec: true },
                ),
                _ => None,
            },
    {
        match self {
            ClientPhase::Receive => Some(
                ReceiveOptions { dont_wait: false, full_length: false, close_on_exec: true },
            ),
            _ => None,
        }
    }

    /// What the event makes of the exchange: the steps follow each other in order, a failure ends
    /// them, and an event that the phase does not wait for changes nothing.
    pub open spec fn leads_to(self, event: ClientEvent<T, E>, next: Self) -> bool {
        match (self, event) {
            (ClientPhase::Finished(_), _) => next == self,
            (_, ClientEvent::Failed(error)) => next == ClientPhase::<T, E>::Finished(
                Err(Failure::Outside(error)),
            ),
            (ClientPhase::OpenSocket { abstract_name, token }, ClientEvent::SocketOpened) => {
                if abstract_name@.len() <= MAX_NAME_LEN {
                    next matches ClientPhase::Connect { address, token: kept } && address_name(
                        address,
                    ) == abstract_name@ && kept == token
                } else {
                    next matches ClientPhase::Finished(Err(Failure::Os(number)))
                        && name_is_refused(abstract_name@, number)
                }
            },
            (ClientPhase::Connect { address, token }, ClientEvent::Connected) => {
                next matches ClientPhase::Send { request } && request@ == request_bytes(token@)
            },
            (ClientPhase::Send { request }, ClientEvent::Sent(bytes)) => {
                if bytes == REQUEST_LEN {
                    next is Receive
                } else {
                    next == ClientPhase::<T, E>::Finished(
                        Err(Failure::Refused(Error::ShortRequest)),
                    )
                }
            },
            (ClientPhase::Receive, ClientEvent::Replied(reply)) => next == ClientPhase::<
                T,
                E,
            >::Finished(
                match reply.outcome() {
                    Ok(descriptor) => Ok(descriptor),
                    Err(error) => Err(Failure::Refused(error)),
                },
            ),
            _ => next == self,
        }
    }

    /// Takes the exchange with the broker from one phase to the next.
    pub fn next(self, event: ClientEvent<T, E>) -> (next: Self)
        ensures
            self.leads_to(event, next),
    {
        match (self, event) {
            (ClientPhase::Finished(outcome), _) => ClientPhase::Finished(outcome),
            (_, ClientEvent::Failed(error)) => ClientPhase::Finished(Err(Failure::Outside(error))),
            (ClientPhase::OpenSocket { abstract_name, token }, ClientEvent::SocketOpened) => {
                match socket_address(abstract_name.as_slice()) {
                    Ok(address) => ClientPhase::Connect { address, token },
                    Err(number) => ClientPhase::Finished(Err(Failure::Os(number))),
                }
            },
            (ClientPhase::Connect { address: _, token }, ClientEvent::Connected) =>
                ClientPhase::Send { request: encode_request(&token) },
            (ClientPhase::Send { request: _ }, ClientEvent::Sent(bytes)) if bytes == REQUEST_LEN =>
                ClientPhase::Receive,
            (ClientPhase::Send { request: _ }, ClientEvent::Sent(_)) =>
                ClientPhase::Finished(Err(Failure::Refused(Error::ShortRequest))),
            (ClientPhase::Receive, ClientEvent::Replied(reply)) => match receive_memfd(reply) {
                Ok(descriptor) => ClientPhase::Finished(Ok(descriptor)),
                Err(error) => ClientPhase::Finished(Err(Failure::Refused(error))),
            },
            (phase, _) => phase,
        }
    }
}

// ---------------------------------------------------------------------------------------------
// Laws

impl<T, E> ClientPhase<T, E> {
    /// Tells that the exchange is with the broker of this name and this token.
    pub open spec fn addresses(self, abstract_name: Seq<u8>, token: Seq<u8>) -> bool {
        match self {
            ClientPhase::OpenSocket { abstract_name: name, token: own } => name@ == abstract_name
                && own@ == token,
            ClientPhase::Connect { address, token: own } => address_name(address) == abstract_name
                && own@ == token,
            ClientPhase::Send { request } => request@ == request_bytes(token),
            ClientPhase::Receive => true,
            ClientPhase::Finished(_) => true,
        }
    }
}

/// An identifier leads every client to the broker that it was written for, and the broker accepts
/// what the client sends: the client starts with the broker's name and token, each step keeps to
/// them, and a request that arrives whole asks for the descriptor.
pub proof fn law_identifier_opens_its_broker<T, E>(
    abstract_name: Seq<u8>,
    token: Seq<u8>,
    read_name: Seq<u8>,
    read_token: Seq<u8>,
    phases: Seq<ClientPhase<T, E>>,
    events: Seq<ClientEvent<T, E>>,
)
    requires
        abstract_name.len() > 0,
        token.len() == TOKEN_LEN,
        leads_to(identifier(abstract_name, token), read_name, read_token),
        phases.len() == events.len() + 1,
        phases[0].addresses(read_name, read_token),
        forall|i: int|
            #![trigger events[i]]
            0 <= i < events.len() ==> phases[i].leads_to(events[i], phases[i + 1]),
    ensures
        forall|i: int| 0 <= i < phases.len() ==> #[trigger] phases[i].addresses(abstract_name, token),
        forall|i: int|
            0 <= i < phases.len() ==> (#[trigger] phases[i] matches ClientPhase::Send { request }
                ==> asks_for_descriptor((Datagram { bytes: REQUEST_LEN, request }), token)),
    decreases events.len(),
{
    law_identifiers_round_trip(abstract_name, token, read_name, read_token);
    if events.len() > 0 {
        let last = events.len() - 1;
        let earlier_phases = phases.drop_last();
        let earlier_events = events.drop_last();
        assert forall|i: int|
            #![trigger earlier_events[i]]
            0 <= i < earlier_events.len() implies earlier_phases[i].leads_to(
            earlier_events[i],
            earlier_phases[i + 1],
        ) by {
            assert(earlier_events[i] == events[i]);
        }
        law_identifier_opens_its_broker(
            abstract_name,
            token,
            read_name,
            read_token,
            earlier_phases,
            earlier_events,
        );
        assert(earlier_phases[last].addresses(abstract_name, token));
        assert(phases[last].leads_to(events[last], phases[last + 1]));
        assert forall|i: int| 0 <= i < phases.len() implies #[trigger] phases[i].addresses(
            abstract_name,
            token,
        ) by {
            if i <= last {
                assert(earlier_phases[i].addresses(abstract_name, token));
            }
        }
    }
    assert forall|i: int| 0 <= i < phases.len() implies (
    #[trigger] phases[i] matches ClientPhase::Send { request } ==> asks_for_descriptor(
        (Datagram { bytes: REQUEST_LEN, request }),
        token,
    )) by {
        assert(phases[i].addresses(abstract_name, token));
    }
}

/// What the broker answers reaches the client for what it is.  The broker's response with its one
/// descriptor gives the client exactly that descriptor, and nothing else gives it one; a client
/// whose connection was closed without an answer learns that there was no response.
pub proof fn law_answer_reaches_the_client<T>(reply: Reply<T>, descriptor: T)
    ensures
        reply.is_response() && descriptors(reply.ancillary@) == seq![descriptor]
            <==> reply.outcome() == Result::<T, Error>::Ok(descriptor),
        reply.bytes == 0 ==> reply.outcome() == Result::<T, Error>::Err(Error::InvalidResponse),
{
    if reply.outcome() == Result::<T, Error>::Ok(descriptor) {
        assert(descriptors(reply.ancillary@) =~= seq![descriptor]);
    }
}

/// Brokers are isolated from each other by name and by token: a client that was given one broker's
/// identifier never connects to an address with another name, and a request that is built with
/// another broker's token is refused without an answer, for good.
pub proof fn law_brokers_are_isolated<T, E>(
    abstract_name: Seq<u8>,
    other_name: Seq<u8>,
    token: Seq<u8>,
    other_token: Seq<u8>,
    phases: Seq<ClientPhase<T, E>>,
    events: Seq<ClientEvent<T, E>>,
    message: Datagram,
    later: Seq<RequestEvent<E>>,
)
    requires
        abstract_name.len() > 0,
        token.len() == TOKEN_LEN,
        phases.len() == events.len() + 1,
        phases[0].addresses(abstract_name, token),
        forall|i: int|
            #![trigger events[i]]
            0 <= i < events.len() ==> phases[i].leads_to(events[i], phases[i + 1]),
        message.bytes == REQUEST_LEN,
        message.request@ == request_bytes(other_token),
    ensures
        abstract_name != other_name ==> forall|i: int|
            0 <= i < phases.len() ==> (#[trigger] phases[i] matches ClientPhase::Connect {
                address,
                ..
            } ==> address_name(address) != other_name),
        token != other_token ==> request_run(
            request_step(RequestPhase::<E>::Receiving, token, RequestEvent::Received(message)),
            token,
            later,
        ) == RequestPhase::<E>::Finished(Ok(())),
{
    law_identifiers_round_trip(abstract_name, token, abstract_name, token);
    law_identifier_opens_its_broker(
        abstract_name,
        token,
        abstract_name,
        token,
        phases,
        events,
    );
    assert forall|i: int| 0 <= i < phases.len() implies (
    #[trigger] phases[i] matches ClientPhase::Connect { address, .. } ==> address_name(address)
        == abstract_name) by {
        assert(phases[i].addresses(abstract_name, token));
    }
    if token != other_token {
        law_request_carries_its_token(other_token, token);
        law_refused_request_is_not_answered(token, message, later);
    }
}

/// What one message carries is among all that was carried.
proof fn lemma_carried<T>(ancillary: Seq<AncillaryMessage<T>>, i: int)
    requires
        0 <= i < ancillary.len(),
    ensures
        ancillary[i] matches AncillaryMessage::Rights(passed) ==> {
            &&& passed@.len() <= descriptors(ancillary).len()
            &&& forall|k: int|
                0 <= k < passed@.len() ==> descriptors(ancillary).contains(#[trigger] passed@[k])
        },
    decreases ancillary.len(),
{
    let earlier = descriptors(ancillary.drop_last());
    if let AncillaryMessage::Rights(passed) = ancillary[i] {
        if i == ancillary.len() - 1 {
            assert(descriptors(ancillary) == earlier + passed@);
            assert forall|k: int| 0 <= k < passed@.len() implies descriptors(ancillary).contains(
                #[trigger] passed@[k],
            ) by {
                assert(descriptors(ancillary)[earlier.len() + k] == passed@[k]);
            }
        } else {
            lemma_carried(ancillary.drop_last(), i);
            assert(ancillary.drop_last()[i] == ancillary[i]);
            assert forall|k: int| 0 <= k < passed@.len() implies descriptors(ancillary).contains(
                #[trigger] passed@[k],
            ) by {
                let at = choose|at: int| 0 <= at < earlier.len() && earlier[at] == passed@[k];
                assert(descriptors(ancillary)[at] == passed@[k]);
            }
        }
    }
}

/// What two messages carry is carried together.
proof fn lemma_carried_twice<T>(ancillary: Seq<AncillaryMessage<T>>, i: int, j: int)
    requires
        0 <= i < j < ancillary.len(),
    ensures
        ancillary[i] matches AncillaryMessage::Rights(first) ==> (
        ancillary[j] matches AncillaryMessage::Rights(second) ==> first@.len() + second@.len()
            <= descriptors(ancillary).len()),
    decreases ancillary.len(),
{
    assert(ancillary.drop_last()[i] == ancillary[i]);
    if j == ancillary.len() - 1 {
        lemma_carried(ancillary.drop_last(), i);
    } else {
        assert(ancillary.drop_last()[j] == ancillary[j]);
        lemma_carried_twice(ancillary.drop_last(), i, j);
    }
}

/// What is carried is carried by some message.
proof fn lemma_carrier<T>(ancillary: Seq<AncillaryMessage<T>>) -> (i: int)
    requires
        descriptors(ancillary).len() > 0,
    ensures
        0 <= i < ancillary.len(),
        ancillary[i] matches AncillaryMessage::Rights(passed) && passed@.len() > 0,
    decreases ancillary.len(),
{
    let last = ancillary.len() - 1;
    if let AncillaryMessage::Rights(passed) = ancillary[last] {
        if passed@.len() > 0 {
            last
        } else {
            lemma_carrier(ancillary.drop_last())
        }
    } else {
        lemma_carrier(ancillary.drop_last())
    }
}

/// Where one message alone carries something, that is all that is carried.
proof fn lemma_only_carrier<T>(ancillary: Seq<AncillaryMessage<T>>, i: int)
    requires
        0 <= i < ancillary.len(),
        forall|j: int|
            0 <= j < ancillary.len() && j != i ==> (
            #[trigger] ancillary[j] matches AncillaryMessage::Rights(passed) ==> passed@.len()
                == 0),
    ensures
        ancillary[i] matches AncillaryMessage::Rights(passed) ==> descriptors(ancillary) == passed@,
    decreases ancillary.len(),
{
    let earlier = ancillary.drop_last();
    let last = ancillary.len() - 1;
    if i == last {
        if descriptors(earlier).len() > 0 {
            let j = lemma_carrier(earlier);
            assert(ancillary[j] == earlier[j]);
        }
        if let AncillaryMessage::Rights(passed) = ancillary[i] {
            assert(descriptors(ancillary) =~= passed@);
        }
    } else {
        assert forall|j: int| 0 <= j < earlier.len() && j != i implies (
        #[trigger] earlier[j] matches AncillaryMessage::Rights(passed) ==> passed@.len() == 0) by {
            assert(earlier[j] == ancillary[j]);
        }
        lemma_only_carrier(earlier, i);
        assert(earlier[i] == ancillary[i]);
        assert(ancillary[last] matches AncillaryMessage::Rights(passed) ==> passed@.len() == 0);
        assert(descriptors(ancillary) =~= descriptors(earlier));
    }
}

/// A reply gives its descriptor exactly when it is the response and one descriptor came with it.  It
/// is the response when five bytes were received, neither they nor what travelled beside them were cut
/// off, and they are `VPSH` and the version 1.  Anything else is refused as no response, whatever
/// travelled beside it.
pub proof fn law_only_the_exact_response_is_taken<T>(reply: Reply<T>, taken: Result<T, Error>)
    requires
        call_ensures(receive_memfd::<T>, (reply,), taken),
    ensures
        taken == Result::<T, Error>::Err(Error::InvalidResponse) <==> !(reply.bytes == 5
            && !reply.truncated && !reply.control_truncated && reply.response@[0] == 86
            && reply.response@[1] == 80 && reply.response@[2] == 83 && reply.response@[3] == 72
            && reply.response@[4] == 1),
        taken matches Err(error) ==> error == Error::InvalidResponse || error == Error::NoDescriptor
            || error == Error::MultipleDescriptors,
{
    let first = reply.response@.subrange(0, RESPONSE_LEN as int);
    assert(first.len() == 5);
    assert(RESPONSE@ =~= seq![86u8, 80, 83, 72, 1]);
    assert(first[0] == reply.response@[0] && first[1] == reply.response@[1] && first[2]
        == reply.response@[2] && first[3] == reply.response@[3] && first[4] == reply.response@[4]);
    if first[0] == 86 && first[1] == 80 && first[2] == 83 && first[3] == 72 && first[4] == 1 {
        assert(first =~= RESPONSE@);
    } else {
        assert(RESPONSE@[0] == 86 && RESPONSE@[1] == 80 && RESPONSE@[2] == 83 && RESPONSE@[3] == 72
            && RESPONSE@[4] == 1);
    }
}

/// Of a response, the descriptor is taken that came with it, wherever it travelled, if it is the only
/// one.  A response with which none came and a response with which more came are refused, each with
/// its own error.
pub proof fn law_only_the_one_descriptor_is_taken<T>(reply: Reply<T>, taken: Result<T, Error>)
    requires
        call_ensures(receive_memfd::<T>, (reply,), taken),
        taken != Result::<T, Error>::Err(Error::InvalidResponse),
    ensures
        taken == Result::<T, Error>::Err(Error::NoDescriptor) <==> forall|i: int|
            0 <= i < reply.ancillary@.len() ==> (
            #[trigger] reply.ancillary@[i] matches AncillaryMessage::Rights(passed)
                ==> passed@.len() == 0),
        taken matches Ok(descriptor) ==> exists|i: int|
            0 <= i < reply.ancillary@.len() && (
            #[trigger] reply.ancillary@[i] matches AncillaryMessage::Rights(passed)
                && passed@.len() == 1 && passed@[0] == descriptor),
        forall|i: int|
            0 <= i < reply.ancillary@.len() && (forall|j: int|
                0 <= j < reply.ancillary@.len() && j != i ==> (
                #[trigger] reply.ancillary@[j] matches AncillaryMessage::Rights(passed)
                    ==> passed@.len() == 0)) ==> (
            #[trigger] reply.ancillary@[i] matches AncillaryMessage::Rights(passed)
                ==> passed@.len() == 1 ==> taken == Result::<T, Error>::Ok(passed@[0])),
        forall|i: int|
            0 <= i < reply.ancillary@.len() ==> (
            #[trigger] reply.ancillary@[i] matches AncillaryMessage::Rights(passed)
                ==> passed@.len() > 1 ==> taken == Result::<T, Error>::Err(
                Error::MultipleDescriptors,
            )),
        forall|i: int, j: int|
            0 <= i < j < reply.ancillary@.len() ==> (
            #[trigger] reply.ancillary@[i] matches AncillaryMessage::Rights(first) ==> (
            #[trigger] reply.ancillary@[j] matches AncillaryMessage::Rights(second)
                ==> first@.len() > 0 && second@.len() > 0 ==> taken == Result::<T, Error>::Err(
                Error::MultipleDescriptors,
            ))),
{
    let ancillary = reply.ancillary@;
    let all = descriptors(ancillary);
    assert(reply.is_response());
    assert forall|i: int| 0 <= i < ancillary.len() implies (
    #[trigger] ancillary[i] matches AncillaryMessage::Rights(passed) ==> passed@.len()
        <= all.len()) by {
        lemma_carried(ancillary, i);
    }
    if all.len() > 0 {
        let carrier = lemma_carrier(ancillary);
        lemma_carried(ancillary, carrier);
        if let AncillaryMessage::Rights(passed) = ancillary[carrier] {
            assert(all.contains(passed@[0]));
        }
    }
    assert forall|i: int|
        0 <= i < ancillary.len() && (forall|j: int|
            0 <= j < ancillary.len() && j != i ==> (
            #[trigger] ancillary[j] matches AncillaryMessage::Rights(passed) ==> passed@.len()
                == 0)) implies (#[trigger] ancillary[i] matches AncillaryMessage::Rights(passed)
        ==> passed@.len() == 1 ==> taken == Result::<T, Error>::Ok(passed@[0])) by {
        lemma_only_carrier(ancillary, i);
    }
    assert forall|i: int, j: int| 0 <= i < j < ancillary.len() implies (
    #[trigger] ancillary[i] matches AncillaryMessage::Rights(first) ==> (
    #[trigger] ancillary[j] matches AncillaryMessage::Rights(second) ==> first@.len() > 0
        && second@.len() > 0 ==> taken == Result::<T, Error>::Err(Error::MultipleDescriptors))) by {
        lemma_carried_twice(ancillary, i, j);
    }
}

/// A client starts with what its identifier says: a text that can be read starts an exchange with the
/// broker of the name and the token that reading it gives, and a text that cannot is refused as an
/// invalid identifier before anything else is done.
pub proof fn law_client_starts_with_its_identifier<T, E>(
    id: &str,
    phase: ClientPhase<T, E>,
    read: Result<(Vec<u8>, [u8; TOKEN_LEN]), Error>,
)
    requires
        call_ensures(request_memfd::<T, E>, (id,), phase),
        call_ensures(decode_id, (id,), read),
    ensures
        read matches Ok((read_name, read_token)) ==> (phase matches ClientPhase::OpenSocket {
            abstract_name,
            token,
        } && abstract_name@ == read_name@ && token@ == read_token@),
        read is Err ==> phase == ClientPhase::<T, E>::Finished(
            Err(Failure::Refused(Error::InvalidIdentifier)),
        ),
{
    if let Ok((read_name, read_token)) = read {
        if let ClientPhase::OpenSocket { abstract_name, token } = phase {
            law_identifiers_round_trip(read_name@, read_token@, abstract_name@, token@);
        } else {
            assert(leads_to(id@, read_name@, read_token@));
        }
    } else if let ClientPhase::OpenSocket { abstract_name, token } = phase {
        assert(leads_to(id@, abstract_name@, token@));
    }
}

/// A client connects to the address that has exactly the bytes of its broker's name, if the name has
/// no more than 107 of them, and ends with the operating system's error for long names if it has more.
/// To the broker it sends `VPSH`, the version 1 and the token.  It waits for the reply once all 21
/// bytes have left, and ends with an error if fewer or more have.
pub proof fn law_client_sends_its_token_to_its_broker<T, E>(
    phase: ClientPhase<T, E>,
    event: ClientEvent<T, E>,
    next: ClientPhase<T, E>,
)
    requires
        call_ensures(ClientPhase::<T, E>::next, (phase, event), next),
    ensures
        phase is OpenSocket && event is SocketOpened && phase->abstract_name@.len() <= 107
            ==> next is Connect && address_name(next->address) == phase->abstract_name@
            && next->Connect_token == phase->OpenSocket_token,
        phase is OpenSocket && event is SocketOpened && phase->abstract_name@.len() > 107 ==> (
        next matches ClientPhase::Finished(Err(Failure::Os(number))) && (number == 36 || number
            == 63 || number == 78)),
        phase is Connect && event is Connected ==> next is Send && next->request@[0] == 86
            && next->request@[1] == 80 && next->request@[2] == 83 && next->request@[3] == 72
            && next->request@[4] == 1,
        phase is Connect && event is Connected ==> forall|i: int|
            0 <= i < 16 ==> #[trigger] phase->Connect_token@[i] == next->request@[5 + i],
        phase is Send ==> (event matches ClientEvent::Sent(bytes) ==> if bytes == 21 {
            next is Receive
        } else {
            next == ClientPhase::<T, E>::Finished(Err(Failure::Refused(Error::ShortRequest)))
        }),
{
}

/// A reply ends the exchange with what taking the descriptor out of it gives: the descriptor, or the
/// error.
pub proof fn law_client_ends_with_its_reply<T, E>(
    reply: Reply<T>,
    taken: Result<T, Error>,
    next: ClientPhase<T, E>,
)
    requires
        call_ensures(
            ClientPhase::<T, E>::next,
            (ClientPhase::<T, E>::Receive, ClientEvent::<T, E>::Replied(reply)),
            next,
        ),
        call_ensures(receive_memfd::<T>, (reply,), taken),
    ensures
        taken matches Ok(descriptor) ==> next == ClientPhase::<T, E>::Finished(Ok(descriptor)),
        taken matches Err(error) ==> next == ClientPhase::<T, E>::Finished(
            Err(Failure::Refused(error)),
        ),
{
}

/// What an exchange waits for never leaves it as it was, and anything else does.  An operation that
/// fails ends an exchange that is not over with that error; once it is over it stays as it is.
pub proof fn law_client_moves_on_with_what_it_waits_for<T, E>(
    phase: ClientPhase<T, E>,
    event: ClientEvent<T, E>,
    next: ClientPhase<T, E>,
)
    requires
        call_ensures(ClientPhase::<T, E>::next, (phase, event), next),
    ensures
        phase is Finished ==> next == phase,
        event matches ClientEvent::Failed(error) ==> !(phase is Finished) ==> next == ClientPhase::<
            T,
            E,
        >::Finished(Err(Failure::Outside(error))),
        phase is OpenSocket && event is SocketOpened ==> next is Connect || next is Finished,
        phase is Connect && event is Connected ==> next is Send,
        phase is Send && event is Sent ==> next is Receive || next is Finished,
        phase is Receive && event is Replied ==> next is Finished,
        !(event is Failed) && !(phase is OpenSocket && event is SocketOpened) && !(phase is Connect
            && event is Connected) && !(phase is Send && event is Sent) && !(phase is Receive
            && event is Replied) ==> next == phase,
{
}

/// A client and a broker agree exactly when they have the same token.  The client is given an
/// identifier, opens a socket, connects and sends; what it sends is answered by the broker whose token
/// was written into the identifier, and refused by every other.
pub proof fn law_client_and_broker_agree_on_the_token<T, E>(
    abstract_name: &[u8],
    token: &[u8; TOKEN_LEN],
    broker_token: &[u8; TOKEN_LEN],
    id: String,
    text: &str,
    started: ClientPhase<T, E>,
    opened: ClientPhase<T, E>,
    connected: ClientPhase<T, E>,
    answer: RequestPhase<E>,
)
    requires
        0 < abstract_name@.len() <= 107,
        call_ensures(encode_id, (abstract_name, token), id),
        text@ == id@,
        call_ensures(request_memfd::<T, E>, (text,), started),
        call_ensures(
            ClientPhase::<T, E>::next,
            (started, ClientEvent::<T, E>::SocketOpened),
            opened,
        ),
        call_ensures(
            ClientPhase::<T, E>::next,
            (opened, ClientEvent::<T, E>::Connected),
            connected,
        ),
        connected matches ClientPhase::Send { request } ==> call_ensures(
            handle_request::<E>,
            (
                RequestPhase::<E>::Receiving,
                broker_token,
                RequestEvent::<E>::Received((Datagram { bytes: 21, request })),
            ),
            answer,
        ),
    ensures
        connected is Send,
        answer is Sending <==> broker_token@ == token@,
        broker_token@ != token@ ==> answer == RequestPhase::<E>::Finished(Ok(())),
{
    assert(leads_to(text@, abstract_name@, token@));
    if let ClientPhase::OpenSocket { abstract_name: name, token: own } = started {
        law_identifiers_round_trip(abstract_name@, token@, name@, own@);
    }
    law_request_carries_its_token(token@, broker_token@);
}

/// A client opens a socket that is closed on exec and that waits, is not signalled by a broker that
/// is gone, and receives descriptors that are closed on exec.
pub proof fn law_client_uses_its_socket_safely<T, E>(
    phase: ClientPhase<T, E>,
    socket: Option<SocketOptions>,
    send: Option<SendOptions>,
    receive: Option<ReceiveOptions>,
)
    requires
        call_ensures(ClientPhase::<T, E>::socket_options, (&phase,), socket),
        call_ensures(ClientPhase::<T, E>::send_options, (&phase,), send),
        call_ensures(ClientPhase::<T, E>::receive_options, (&phase,), receive),
    ensures
        socket is Some <==> phase is OpenSocket,
        send is Some <==> phase is Send,
        receive is Some <==> phase is Receive,
        socket matches Some(options) ==> options.close_on_exec && !options.nonblocking,
        send matches Some(options) ==> !options.dont_wait && options.no_signal,
        receive matches Some(options) ==> !options.dont_wait && !options.full_length
            && options.close_on_exec,
{
}

} // verus!
