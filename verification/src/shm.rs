//! Shared-memory mappings: how they are created and how they are opened.
//!
//! [`CreatePhase`] and [`OpenPhase`] follow the system calls that lead to a mapping.  The memory
//! file behind a mapping is sealed before it is mapped, so that its size no longer changes.
use memmap2::MmapRaw;
use vstd::prelude::*;

use crate::broker::asks_for_descriptor;
use crate::broker::broker_step;
use crate::broker::law_descriptor_needs_the_token;
use crate::broker::request_run;
use crate::broker::request_step;
use crate::broker::BrokerEvent;
use crate::broker::BrokerPhase;
use crate::broker::Datagram;
use crate::broker::RequestEvent;
use crate::broker::RequestPhase;
use crate::broker::REQUEST_TIMEOUT_SECS;
use crate::client::descriptors;
use crate::client::law_answer_reaches_the_client;
use crate::client::law_identifier_opens_its_broker;
use crate::client::ClientEvent;
use crate::client::ClientPhase;
use crate::client::Reply;
use crate::error::Error;
use crate::error::Failure;
use crate::identifier::law_identifiers_round_trip;
use crate::wire::law_request_carries_its_token;
use crate::wire::request_bytes;
use crate::wire::REQUEST_LEN;
use crate::wire::RESPONSE;
use crate::wire::TOKEN_LEN;

verus! {

/// The name that memory files are created with.
pub const MEMFD_NAME: &'static str = "vite-task-fspy";

/// `memmap2::MmapRaw`: a mapped range of memory.
#[verifier::external_type_specification]
#[verifier::external_body]
pub struct ExMmapRaw(MmapRaw);

/// How many bytes a mapping has.
pub uninterp spec fn mapping_len(mapping: MmapRaw) -> usize;

/// `MmapRaw::len`.  Believed: the length belongs to the mapping, so that asking twice gives the
/// same answer.
pub assume_specification [ MmapRaw::len ](mapping: &MmapRaw) -> (len: usize)
    ensures
        len == mapping_len(*mapping),
;

/// An owned shared-memory mapping.
#[derive(Debug)]
pub struct Shm {
    id: String,
    mapping: MmapRaw,
}

impl Shm {
    /// The identifier that leads to the mapping's broker.
    pub closed spec fn spec_id(self) -> Seq<char> {
        self.id@
    }

    /// The mapped memory.
    pub closed spec fn spec_mapping(self) -> MmapRaw {
        self.mapping
    }

    /// Names the mapped memory.
    pub fn new(id: String, mapping: MmapRaw) -> (shm: Shm)
        ensures
            shm.spec_id() == id@,
            shm.spec_mapping() == mapping,
    {
        Shm { id, mapping }
    }

    /// Returns this mapping's opaque broker identifier.
    pub fn id(&self) -> (id: &str)
        ensures
            id@ == self.spec_id(),
    {
        self.id.as_str()
    }

    /// Returns the mapped length in bytes.
    pub fn len(&self) -> (len: usize)
        ensures
            len == mapping_len(self.spec_mapping()),
    {
        self.mapping.len()
    }

    /// Returns the mapped memory itself.
    pub fn mapping(&self) -> (mapping: &MmapRaw)
        ensures
            *mapping == self.spec_mapping(),
    {
        &self.mapping
    }
}

/// A newly created shared-memory mapping and its broker.
#[derive(Debug)]
pub struct CreatedShm<B> {
    /// The owned shared-memory mapping.
    pub shm: Shm,
    /// The service that makes this mapping available to other processes.
    pub broker: B,
}

/// The size of a memory file that has room for a mapping of `size` bytes.  No mapping of zero bytes
/// is created or opened.
pub fn valid_size(size: usize) -> (file_size: Result<u64, Error>)
    ensures
        match file_size {
            Ok(file_size) => size > 0 && file_size == size,
            Err(error) => size == 0 && error == Error::ZeroSize,
        },
{
    if size == 0 {
        return Err(Error::ZeroSize);
    }
    Ok(size as u64)
}

// ---------------------------------------------------------------------------------------------
// Creating

/// What a memory file is sealed against.
#[derive(Clone, Copy, Debug, PartialEq, Eq, Structural)]
pub struct Seals {
    /// The file cannot grow.
    pub grow: bool,
    /// The file cannot shrink.
    pub shrink: bool,
    /// The file's bytes cannot be written.
    pub write: bool,
    /// No more seals can be added.
    pub seal: bool,
}

/// The seals of every memory file: its size is fixed, for good, while its bytes can be written.
pub open spec fn file_seals() -> Seals {
    Seals { grow: true, shrink: true, write: false, seal: true }
}

/// Returns the seals of every memory file.
pub fn required_seals() -> (seals: Seals)
    ensures
        seals == file_seals(),
{
    Seals { grow: true, shrink: true, write: false, seal: true }
}

/// Where the creation of a mapping stands.
#[derive(Debug)]
pub enum CreatePhase<F, E> {
    /// A memory file is to be created.
    CreateMemfd {
        /// How many bytes are to be mapped.
        size: usize,
        /// The file's name.
        name: &'static str,
        /// Whether the file is closed on exec.
        close_on_exec: bool,
        /// Whether the file can be sealed.
        allow_sealing: bool,
    },
    /// The memory file is to be given its size.
    Truncate {
        /// The memory file.
        memfd: F,
        /// The size that the file is to have.
        file_size: u64,
        /// How many bytes are to be mapped.
        size: usize,
    },
    /// The memory file is to be sealed.
    AddSeals {
        /// The memory file.
        memfd: F,
        /// The seals that the file is to have.
        seals: Seals,
        /// How many bytes are to be mapped.
        size: usize,
    },
    /// The memory file is to be mapped.
    MapMemfd {
        /// The memory file.
        memfd: F,
        /// How many bytes are to be mapped.
        size: usize,
    },
    /// The memory file is mapped; a broker for it is to be started.
    StartBroker {
        /// The memory file, for the broker.
        memfd: F,
        /// The mapping.
        mapping: MmapRaw,
    },
    /// There is no mapping.
    Failed(Failure<E>),
}

/// What happened on the way to a new mapping.
#[derive(Debug)]
pub enum CreateEvent<F, E> {
    /// The memory file was created.
    MemfdCreated(F),
    /// The memory file has its size.
    Truncated,
    /// The memory file is sealed.
    Sealed,
    /// The memory file is mapped.
    Mapped(MmapRaw),
    /// An operation failed.
    Failed(E),
}

/// Tells that a memory file for a mapping of `size` bytes is to be created: named as all of them
/// are, closed on exec and open to sealing.
pub open spec fn starts_creation<F, E>(phase: CreatePhase<F, E>, size: usize) -> bool {
    phase matches CreatePhase::CreateMemfd { size: asked, name, close_on_exec, allow_sealing }
        && asked == size && name@ == MEMFD_NAME@ && close_on_exec && allow_sealing
}

/// Starts to create a mapping of `size` bytes.  A mapping of zero bytes is refused before anything
/// else is done.
pub fn create<F, E>(size: usize) -> (phase: CreatePhase<F, E>)
    ensures
        size > 0 ==> starts_creation(phase, size),
        size == 0 ==> phase == CreatePhase::<F, E>::Failed(Failure::Refused(Error::ZeroSize)),
{
    match valid_size(size) {
        Ok(_) => CreatePhase::CreateMemfd {
            size,
            name: MEMFD_NAME,
            close_on_exec: true,
            allow_sealing: true,
        },
        Err(error) => CreatePhase::Failed(Failure::Refused(error)),
    }
}

/// What the event makes of the creation: the steps follow each other in order, a failure ends them,
/// and an event that the phase does not wait for changes nothing.
pub open spec fn create_step<F, E>(
    phase: CreatePhase<F, E>,
    event: CreateEvent<F, E>,
) -> CreatePhase<F, E> {
    match (phase, event) {
        (CreatePhase::StartBroker { .. }, _) => phase,
        (CreatePhase::Failed(_), _) => phase,
        (_, CreateEvent::Failed(error)) => CreatePhase::Failed(Failure::Outside(error)),
        (CreatePhase::CreateMemfd { size, .. }, CreateEvent::MemfdCreated(memfd)) =>
            CreatePhase::Truncate { memfd, file_size: size as u64, size },
        (CreatePhase::Truncate { memfd, file_size, size }, CreateEvent::Truncated) =>
            CreatePhase::AddSeals { memfd, seals: file_seals(), size },
        (CreatePhase::AddSeals { memfd, seals, size }, CreateEvent::Sealed) =>
            CreatePhase::MapMemfd { memfd, size },
        (CreatePhase::MapMemfd { memfd, size }, CreateEvent::Mapped(mapping)) =>
            CreatePhase::StartBroker { memfd, mapping },
        _ => phase,
    }
}

impl<F, E> CreatePhase<F, E> {
    /// Takes the creation of a mapping from one phase to the next.
    pub fn next(self, event: CreateEvent<F, E>) -> (next: Self)
        ensures
            next == create_step(self, event),
    {
        match (self, event) {
            (CreatePhase::StartBroker { memfd, mapping }, _) =>
                CreatePhase::StartBroker { memfd, mapping },
            (CreatePhase::Failed(failure), _) => CreatePhase::Failed(failure),
            (_, CreateEvent::Failed(error)) => CreatePhase::Failed(Failure::Outside(error)),
            (CreatePhase::CreateMemfd { size, .. }, CreateEvent::MemfdCreated(memfd)) =>
                CreatePhase::Truncate { memfd, file_size: size as u64, size },
            (CreatePhase::Truncate { memfd, file_size: _, size }, CreateEvent::Truncated) =>
                CreatePhase::AddSeals { memfd, seals: required_seals(), size },
            (CreatePhase::AddSeals { memfd, seals: _, size }, CreateEvent::Sealed) =>
                CreatePhase::MapMemfd { memfd, size },
            (CreatePhase::MapMemfd { memfd, size: _ }, CreateEvent::Mapped(mapping)) =>
                CreatePhase::StartBroker { memfd, mapping },
            (phase, _) => phase,
        }
    }
}

/// Puts together what was created: the mapping, under the identifier of its broker.
pub fn created<B>(id: String, mapping: MmapRaw, broker: B) -> (created: CreatedShm<B>)
    ensures
        created.shm.spec_id() == id@,
        created.shm.spec_mapping() == mapping,
        created.broker == broker,
{
    CreatedShm { shm: Shm::new(id, mapping), broker }
}

// ---------------------------------------------------------------------------------------------
// Opening

/// Where the opening of a mapping stands.
#[derive(Debug)]
pub enum OpenPhase<F, E> {
    /// The memory file is to be asked for from the broker that the identifier leads to.
    RequestMemfd {
        /// The identifier.
        id: String,
        /// How many bytes are to be mapped.
        size: usize,
    },
    /// The size of the memory file is to be looked up.
    Inspect {
        /// The identifier.
        id: String,
        /// The memory file.
        memfd: F,
        /// How many bytes are to be mapped.
        size: usize,
    },
    /// The memory file is to be mapped.
    MapMemfd {
        /// The identifier.
        id: String,
        /// The memory file.
        memfd: F,
        /// How many bytes are to be mapped.
        size: usize,
    },
    /// The opening is over.
    Finished(Result<Shm, Failure<E>>),
}

/// What happened on the way to an opened mapping.
#[derive(Debug)]
pub enum OpenEvent<F, E> {
    /// The broker handed out the memory file.
    MemfdReceived(F),
    /// The memory file has this size.
    Inspected(i64),
    /// The memory file is mapped.
    Mapped(MmapRaw),
    /// An operation failed, or the broker refused.
    Failed(Failure<E>),
}

/// Starts to open the mapping of `size` bytes that the identifier leads to.  A mapping of zero bytes
/// is refused before anything else is done.
pub fn open<F, E>(id: &str, size: usize) -> (phase: OpenPhase<F, E>)
    ensures
        size > 0 ==> (phase matches OpenPhase::RequestMemfd { id: kept, size: kept_size } && kept@
            == id@ && kept_size == size),
        size == 0 ==> phase == OpenPhase::<F, E>::Finished(
            Err(Failure::Refused(Error::ZeroSize)),
        ),
{
    match valid_size(size) {
        Ok(_) => OpenPhase::RequestMemfd { id: id.to_owned(), size },
        Err(error) => OpenPhase::Finished(Err(Failure::Refused(error))),
    }
}

/// Checks that a memory file has the size that was asked for.
pub fn matching_size(file_size: i64, size: usize) -> (outcome: Result<(), Error>)
    ensures
        match outcome {
            Ok(()) => file_size == size,
            Err(error) => file_size != size && error == Error::SizeMismatch,
        },
{
    if file_size >= 0 && file_size as u64 == size as u64 {
        Ok(())
    } else {
        Err(Error::SizeMismatch)
    }
}

impl<F, E> OpenPhase<F, E> {
    /// What the event makes of the opening: the steps follow each other in order, a failure or a
    /// file of another size ends them, and an event that the phase does not wait for changes
    /// nothing.
    pub open spec fn leads_to(self, event: OpenEvent<F, E>, next: Self) -> bool {
        match (self, event) {
            (OpenPhase::Finished(_), _) => next == self,
            (_, OpenEvent::Failed(failure)) => next == OpenPhase::<F, E>::Finished(Err(failure)),
            (OpenPhase::RequestMemfd { id, size }, OpenEvent::MemfdReceived(memfd)) => next == (
            OpenPhase::<F, E>::Inspect { id, memfd, size }),
            (OpenPhase::Inspect { id, memfd, size }, OpenEvent::Inspected(file_size)) => {
                if file_size == size {
                    next == (OpenPhase::<F, E>::MapMemfd { id, memfd, size })
                } else {
                    next == OpenPhase::<F, E>::Finished(
                        Err(Failure::Refused(Error::SizeMismatch)),
                    )
                }
            },
            (OpenPhase::MapMemfd { id, memfd, size }, OpenEvent::Mapped(mapping)) => {
                next matches OpenPhase::Finished(Ok(shm)) && shm.spec_id() == id@
                    && shm.spec_mapping() == mapping
            },
            _ => next == self,
        }
    }

    /// Takes the opening of a mapping from one phase to the next.
    pub fn next(self, event: OpenEvent<F, E>) -> (next: Self)
        ensures
            self.leads_to(event, next),
    {
        match (self, event) {
            (OpenPhase::Finished(outcome), _) => OpenPhase::Finished(outcome),
            (_, OpenEvent::Failed(failure)) => OpenPhase::Finished(Err(failure)),
            (OpenPhase::RequestMemfd { id, size }, OpenEvent::MemfdReceived(memfd)) =>
                OpenPhase::Inspect { id, memfd, size },
            (OpenPhase::Inspect { id, memfd, size }, OpenEvent::Inspected(file_size)) => {
                match matching_size(file_size, size) {
                    Ok(()) => OpenPhase::MapMemfd { id, memfd, size },
                    Err(error) => OpenPhase::Finished(Err(Failure::Refused(error))),
                }
            },
            (OpenPhase::MapMemfd { id, memfd: _, size: _ }, OpenEvent::Mapped(mapping)) =>
                OpenPhase::Finished(Ok(Shm::new(id, mapping))),
            (phase, _) => phase,
        }
    }
}

// ---------------------------------------------------------------------------------------------
// Laws

/// Where the creation of a mapping stands after these events.
pub open spec fn create_run<F, E>(
    phase: CreatePhase<F, E>,
    events: Seq<CreateEvent<F, E>>,
) -> CreatePhase<F, E>
    decreases events.len(),
{
    if events.len() == 0 {
        phase
    } else {
        create_step(create_run(phase, events.drop_last()), events.last())
    }
}

/// Tells that the memory file was created.
pub open spec fn was_created<F, E>(events: Seq<CreateEvent<F, E>>, memfd: F) -> bool {
    exists|i: int|
        0 <= i < events.len() && #[trigger] events[i] == CreateEvent::<F, E>::MemfdCreated(memfd)
}

/// Tells that the memory file was given its size once it had been created.
pub open spec fn was_sized<F, E>(events: Seq<CreateEvent<F, E>>, memfd: F) -> bool {
    exists|i: int|
        0 <= i < events.len() && #[trigger] events[i] is Truncated && was_created(
            events.take(i),
            memfd,
        )
}

/// Tells that the memory file was sealed once it had its size.
pub open spec fn was_sealed<F, E>(events: Seq<CreateEvent<F, E>>, memfd: F) -> bool {
    exists|i: int|
        0 <= i < events.len() && #[trigger] events[i] is Sealed && was_sized(events.take(i), memfd)
}

/// Tells that the memory file was mapped there once it had been sealed.
pub open spec fn was_mapped<F, E>(
    events: Seq<CreateEvent<F, E>>,
    memfd: F,
    mapping: MmapRaw,
) -> bool {
    exists|i: int|
        0 <= i < events.len() && #[trigger] events[i] == CreateEvent::<F, E>::Mapped(mapping)
            && was_sealed(events.take(i), memfd)
}

/// What has happened stays true when more happens.
proof fn lemma_past_is_kept<F, E>(events: Seq<CreateEvent<F, E>>, memfd: F, mapping: MmapRaw)
    requires
        events.len() > 0,
    ensures
        was_created(events.drop_last(), memfd) ==> was_created(events, memfd),
        was_sized(events.drop_last(), memfd) ==> was_sized(events, memfd),
        was_sealed(events.drop_last(), memfd) ==> was_sealed(events, memfd),
        was_mapped(events.drop_last(), memfd, mapping) ==> was_mapped(events, memfd, mapping),
{
    let earlier = events.drop_last();
    assert forall|i: int| 0 <= i < earlier.len() implies #[trigger] earlier[i] == events[i]
        && earlier.take(i) == events.take(i) by {
        assert(earlier.take(i) =~= events.take(i));
    }
    if was_created(earlier, memfd) {
        let i = choose|i: int|
            0 <= i < earlier.len() && #[trigger] earlier[i] == CreateEvent::<F, E>::MemfdCreated(
                memfd,
            );
        assert(events[i] == earlier[i]);
    }
    if was_sized(earlier, memfd) {
        let i = choose|i: int|
            0 <= i < earlier.len() && #[trigger] earlier[i] is Truncated && was_created(
                earlier.take(i),
                memfd,
            );
        assert(events[i] == earlier[i]);
    }
    if was_sealed(earlier, memfd) {
        let i = choose|i: int|
            0 <= i < earlier.len() && #[trigger] earlier[i] is Sealed && was_sized(
                earlier.take(i),
                memfd,
            );
        assert(events[i] == earlier[i]);
    }
    if was_mapped(earlier, memfd, mapping) {
        let i = choose|i: int|
            0 <= i < earlier.len() && #[trigger] earlier[i] == CreateEvent::<F, E>::Mapped(mapping)
                && was_sealed(earlier.take(i), memfd);
        assert(events[i] == earlier[i]);
    }
}

/// A memory file is mapped only after it was given its size and sealed, so that no process can
/// change the size under the mapping.  The file that is sized, sealed, mapped and handed to the
/// broker is the one that was created, its size is the one that was asked for, and so is the length
/// that it is to be mapped with.
pub proof fn law_only_sealed_files_are_mapped<F, E>(
    start: CreatePhase<F, E>,
    size: usize,
    events: Seq<CreateEvent<F, E>>,
)
    requires
        starts_creation(start, size),
    ensures
        match create_run(start, events) {
            CreatePhase::CreateMemfd { .. } => starts_creation(create_run(start, events), size),
            CreatePhase::Truncate { memfd, file_size, size: kept } => {
                &&& was_created(events, memfd)
                &&& file_size == size
                &&& kept == size
            },
            CreatePhase::AddSeals { memfd, seals, size: kept } => {
                &&& was_sized(events, memfd)
                &&& seals == file_seals()
                &&& kept == size
            },
            CreatePhase::MapMemfd { memfd, size: kept } => {
                &&& was_sealed(events, memfd)
                &&& kept == size
            },
            CreatePhase::StartBroker { memfd, mapping } => was_mapped(events, memfd, mapping),
            CreatePhase::Failed(_) => true,
        },
    decreases events.len(),
{
    if events.len() > 0 {
        let earlier = events.drop_last();
        let last = events.len() - 1;
        law_only_sealed_files_are_mapped(start, size, earlier);
        assert(events[last] == events.last());
        assert(events.take(last) =~= earlier);
        match create_run(start, earlier) {
            CreatePhase::Truncate { memfd, .. } => {
                lemma_past_is_kept(events, memfd, arbitrary());
            },
            CreatePhase::AddSeals { memfd, .. } => {
                lemma_past_is_kept(events, memfd, arbitrary());
            },
            CreatePhase::MapMemfd { memfd, .. } => {
                lemma_past_is_kept(events, memfd, arbitrary());
            },
            CreatePhase::StartBroker { memfd, mapping } => {
                lemma_past_is_kept(events, memfd, mapping);
            },
            _ => {},
        }
    }
}

/// A created mapping has the length that was asked for, and is not empty, given that the mappings
/// that were made have the length that they were to be made with.
pub proof fn law_created_mapping_has_its_length<F, E>(
    start: CreatePhase<F, E>,
    size: usize,
    events: Seq<CreateEvent<F, E>>,
    shm: Shm,
)
    requires
        size > 0,
        starts_creation(start, size),
        create_run(start, events) matches CreatePhase::StartBroker { mapping, .. }
            && shm.spec_mapping() == mapping,
        forall|i: int|
            0 <= i < events.len() && create_run(start, events.take(i)) is MapMemfd ==> (
            #[trigger] events[i] matches CreateEvent::Mapped(mapping) ==> mapping_len(mapping)
                == size),
    ensures
        mapping_len(shm.spec_mapping()) == size,
        mapping_len(shm.spec_mapping()) > 0,
    decreases events.len(),
{
    let earlier = events.drop_last();
    let last = events.len() - 1;
    assert(events[last] == events.last());
    assert(events.take(last) =~= earlier);
    if create_run(start, earlier) is StartBroker {
        assert forall|i: int|
            0 <= i < earlier.len() && create_run(start, earlier.take(i)) is MapMemfd implies (
        #[trigger] earlier[i] matches CreateEvent::Mapped(mapping) ==> mapping_len(mapping)
            == size) by {
            assert(earlier[i] == events[i]);
            assert(earlier.take(i) =~= events.take(i));
        }
        law_created_mapping_has_its_length(start, size, earlier, shm);
    }
}

/// Tells that the broker handed out the memory file.
pub open spec fn was_received<F, E>(events: Seq<OpenEvent<F, E>>, memfd: F) -> bool {
    exists|i: int|
        0 <= i < events.len() && #[trigger] events[i] == OpenEvent::<F, E>::MemfdReceived(memfd)
}

/// Tells that the size was looked up and found to be this one once the memory file had been handed
/// out.
pub open spec fn was_found_equal<F, E>(
    events: Seq<OpenEvent<F, E>>,
    memfd: F,
    size: usize,
) -> bool {
    exists|i: int|
        0 <= i < events.len() && (#[trigger] events[i] matches OpenEvent::Inspected(file_size)
            && file_size == size) && was_received(events.take(i), memfd)
}

/// Tells that the memory file was mapped there once its size had been found to be this one.
pub open spec fn was_opened<F, E>(
    events: Seq<OpenEvent<F, E>>,
    memfd: F,
    size: usize,
    mapping: MmapRaw,
) -> bool {
    exists|i: int|
        0 <= i < events.len() && #[trigger] events[i] == OpenEvent::<F, E>::Mapped(mapping)
            && was_found_equal(events.take(i), memfd, size)
}

/// What has happened stays true when more happens.
proof fn lemma_opened_past_is_kept<F, E>(
    events: Seq<OpenEvent<F, E>>,
    memfd: F,
    size: usize,
    mapping: MmapRaw,
)
    requires
        events.len() > 0,
    ensures
        was_received(events.drop_last(), memfd) ==> was_received(events, memfd),
        was_found_equal(events.drop_last(), memfd, size) ==> was_found_equal(events, memfd, size),
        was_opened(events.drop_last(), memfd, size, mapping) ==> was_opened(
            events,
            memfd,
            size,
            mapping,
        ),
{
    let earlier = events.drop_last();
    assert forall|i: int| 0 <= i < earlier.len() implies #[trigger] earlier[i] == events[i]
        && earlier.take(i) == events.take(i) by {
        assert(earlier.take(i) =~= events.take(i));
    }
    if was_received(earlier, memfd) {
        let i = choose|i: int|
            0 <= i < earlier.len() && #[trigger] earlier[i] == OpenEvent::<F, E>::MemfdReceived(
                memfd,
            );
        assert(events[i] == earlier[i]);
    }
    if was_found_equal(earlier, memfd, size) {
        let i = choose|i: int|
            0 <= i < earlier.len() && (#[trigger] earlier[i] matches OpenEvent::Inspected(file_size)
                && file_size == size) && was_received(earlier.take(i), memfd);
        assert(events[i] == earlier[i]);
    }
    if was_opened(earlier, memfd, size, mapping) {
        let i = choose|i: int|
            0 <= i < earlier.len() && #[trigger] earlier[i] == OpenEvent::<F, E>::Mapped(mapping)
                && was_found_equal(earlier.take(i), memfd, size);
        assert(events[i] == earlier[i]);
    }
}

/// Tells that the phases follow from the events, and start with the opening of a mapping of `size`
/// bytes by this identifier.
pub open spec fn is_opening<F, E>(
    phases: Seq<OpenPhase<F, E>>,
    events: Seq<OpenEvent<F, E>>,
    id: Seq<char>,
    size: usize,
) -> bool {
    &&& phases.len() == events.len() + 1
    &&& phases[0] matches OpenPhase::RequestMemfd { id: kept, size: kept_size } && kept@ == id
        && kept_size == size
    &&& forall|i: int|
        #![trigger events[i]]
        0 <= i < events.len() ==> phases[i].leads_to(events[i], phases[i + 1])
}

/// A part of an opening from its start is one too.
proof fn lemma_opening_before<F, E>(
    phases: Seq<OpenPhase<F, E>>,
    events: Seq<OpenEvent<F, E>>,
    id: Seq<char>,
    size: usize,
)
    requires
        is_opening(phases, events, id, size),
        events.len() > 0,
    ensures
        is_opening(phases.drop_last(), events.drop_last(), id, size),
        phases.drop_last().last().leads_to(events.last(), phases.last()),
{
    let earlier_phases = phases.drop_last();
    let earlier_events = events.drop_last();
    assert forall|i: int|
        #![trigger earlier_events[i]]
        0 <= i < earlier_events.len() implies earlier_phases[i].leads_to(
        earlier_events[i],
        earlier_phases[i + 1],
    ) by {
        assert(earlier_events[i] == events[i]);
    }
    let last = events.len() - 1;
    assert(events[last] == events.last());
}

/// A mapping is opened only on a memory file that has the size that was asked for: whatever happens
/// while it is opened, the broker first handed the file out, then its size was looked up and found
/// equal, and only then was it mapped.  What is opened is that mapping, under the identifier that
/// it was opened by.
pub proof fn law_opened_file_has_its_size<F, E>(
    id: Seq<char>,
    size: usize,
    phases: Seq<OpenPhase<F, E>>,
    events: Seq<OpenEvent<F, E>>,
)
    requires
        is_opening(phases, events, id, size),
    ensures
        match phases.last() {
            OpenPhase::RequestMemfd { id: kept, size: kept_size } => kept@ == id && kept_size
                == size,
            OpenPhase::Inspect { id: kept, memfd, size: kept_size } => {
                &&& kept@ == id
                &&& kept_size == size
                &&& was_received(events, memfd)
            },
            OpenPhase::MapMemfd { id: kept, memfd, size: kept_size } => {
                &&& kept@ == id
                &&& kept_size == size
                &&& was_found_equal(events, memfd, size)
            },
            OpenPhase::Finished(Ok(shm)) => {
                &&& shm.spec_id() == id
                &&& exists|memfd: F| #[trigger]
                    was_opened(events, memfd, size, shm.spec_mapping())
            },
            OpenPhase::Finished(Err(_)) => true,
        },
    decreases events.len(),
{
    if events.len() > 0 {
        let last = events.len() - 1;
        let earlier = events.drop_last();
        lemma_opening_before(phases, events, id, size);
        law_opened_file_has_its_size(id, size, phases.drop_last(), earlier);
        assert(events[last] == events.last());
        assert(events.take(last) =~= earlier);
        match phases.drop_last().last() {
            OpenPhase::RequestMemfd { .. } => {},
            OpenPhase::Inspect { memfd, .. } => {
                lemma_opened_past_is_kept(events, memfd, size, arbitrary());
            },
            OpenPhase::MapMemfd { memfd, .. } => {
                lemma_opened_past_is_kept(events, memfd, size, arbitrary());
                if let OpenEvent::Mapped(mapping) = events.last() {
                    assert(was_opened(events, memfd, size, mapping));
                }
            },
            OpenPhase::Finished(Ok(shm)) => {
                let memfd = choose|memfd: F| #[trigger]
                    was_opened(earlier, memfd, size, shm.spec_mapping());
                lemma_opened_past_is_kept(events, memfd, size, shm.spec_mapping());
            },
            OpenPhase::Finished(Err(_)) => {},
        }
    }
}

/// An opened mapping has the length that was asked for, and is not empty, given that the mappings
/// that were made have the length that they were to be made with.
pub proof fn law_opened_mapping_has_its_length<F, E>(
    id: Seq<char>,
    size: usize,
    phases: Seq<OpenPhase<F, E>>,
    events: Seq<OpenEvent<F, E>>,
    shm: Shm,
)
    requires
        size > 0,
        is_opening(phases, events, id, size),
        phases.last() == OpenPhase::<F, E>::Finished(Ok(shm)),
        forall|i: int|
            0 <= i < events.len() && phases[i] is MapMemfd ==> (
            #[trigger] events[i] matches OpenEvent::Mapped(mapping) ==> mapping_len(mapping)
                == size),
    ensures
        mapping_len(shm.spec_mapping()) == size,
        mapping_len(shm.spec_mapping()) > 0,
    decreases events.len(),
{
    if events.len() > 0 {
        let last = events.len() - 1;
        let earlier_phases = phases.drop_last();
        let earlier_events = events.drop_last();
        lemma_opening_before(phases, events, id, size);
        assert(events[last] == events.last());
        assert(phases[last] == earlier_phases.last());
        if earlier_phases.last() is Finished {
            assert forall|i: int|
                0 <= i < earlier_events.len() && earlier_phases[i] is MapMemfd implies (
            #[trigger] earlier_events[i] matches OpenEvent::Mapped(mapping) ==> mapping_len(mapping)
                == size) by {
                assert(earlier_events[i] == events[i]);
            }
            law_opened_mapping_has_its_length(id, size, earlier_phases, earlier_events, shm);
        }
    }
}

/// A client to whom nothing is ever sent does not end with a descriptor.
proof fn lemma_silence_gives_no_descriptor<F, E>(
    phases: Seq<ClientPhase<F, E>>,
    events: Seq<ClientEvent<F, E>>,
    i: int,
)
    requires
        phases.len() == events.len() + 1,
        !(phases[0] is Finished),
        forall|k: int|
            #![trigger events[k]]
            0 <= k < events.len() ==> phases[k].leads_to(events[k], phases[k + 1]),
        forall|k: int|
            0 <= k < events.len() ==> (#[trigger] events[k] matches ClientEvent::Replied(reply)
                ==> reply.bytes == 0),
        0 <= i < phases.len(),
    ensures
        !(phases[i] matches ClientPhase::Finished(Ok(_))),
    decreases i,
{
    if i > 0 {
        lemma_silence_gives_no_descriptor(phases, events, i - 1);
        assert(phases[i - 1].leads_to(events[i - 1], phases[i - 1 + 1]));
    }
}

/// Tells that the client sent this request.
pub open spec fn was_sent<F, E>(phases: Seq<ClientPhase<F, E>>, request: Seq<u8>) -> bool {
    exists|i: int|
        0 <= i < phases.len() && (#[trigger] phases[i] matches ClientPhase::Send { request: sent }
            && sent@ == request)
}

/// Tells that the broker got as far as to answer on the connection.
pub open spec fn has_answered<E>(token: Seq<u8>, connection: Seq<RequestEvent<E>>) -> bool {
    exists|n: int|
        0 <= n <= connection.len() && #[trigger] request_run(
            RequestPhase::<E>::Receiving,
            token,
            connection.take(n),
        ) is Sending
}

/// Tells that the connection, of which these are the broker's events, is between this client and the
/// broker with this token alone: a message of a request's length that arrives at the broker was sent
/// by the client, and bytes that arrive at the client were sent by the broker.
pub open spec fn connects<F, E>(
    phases: Seq<ClientPhase<F, E>>,
    events: Seq<ClientEvent<F, E>>,
    token: Seq<u8>,
    connection: Seq<RequestEvent<E>>,
) -> bool {
    &&& forall|k: int|
        0 <= k < connection.len() ==> (#[trigger] connection[k] matches RequestEvent::Received(
            message,
        ) ==> message.bytes == REQUEST_LEN ==> was_sent(phases, message.request@))
    &&& forall|i: int|
        0 <= i < events.len() ==> (#[trigger] events[i] matches ClientEvent::Replied(reply)
            ==> reply.bytes > 0 ==> has_answered(token, connection))
}

/// Knowing a broker's name without its token opens nothing.  Whatever happens on the connection of a
/// client that was given the name with another token, the request that it sends is refused: the
/// exchange is over, the broker never answers, and it goes on accepting.  The client, which receives
/// no bytes, never ends with a descriptor; it learns that there was no response, and the opening
/// ends with that failure.  A later client that sends the token is still answered.
pub proof fn law_wrong_token_opens_nothing<F, E>(
    abstract_name: Seq<u8>,
    token: Seq<u8>,
    wrong_token: Seq<u8>,
    phases: Seq<ClientPhase<F, E>>,
    events: Seq<ClientEvent<F, E>>,
    connection: Seq<RequestEvent<E>>,
    opening: OpenPhase<F, E>,
    opened: OpenPhase<F, E>,
    later_message: Datagram,
)
    requires
        wrong_token != token,
        abstract_name.len() > 0,
        wrong_token.len() == TOKEN_LEN,
        phases.len() == events.len() + 1,
        phases[0] is OpenSocket,
        phases[0].addresses(abstract_name, wrong_token),
        forall|i: int|
            #![trigger events[i]]
            0 <= i < events.len() ==> phases[i].leads_to(events[i], phases[i + 1]),
        connects(phases, events, token, connection),
        opening is RequestMemfd,
        phases.last() matches ClientPhase::Finished(Err(failure)) ==> opening.leads_to(
            OpenEvent::Failed(failure),
            opened,
        ),
        asks_for_descriptor(later_message, token),
    ensures
        forall|i: int|
            0 <= i < phases.len() ==> (#[trigger] phases[i] matches ClientPhase::Send { request }
                ==> request_step(
                RequestPhase::<E>::Receiving,
                token,
                RequestEvent::Received((Datagram { bytes: REQUEST_LEN, request })),
            ) == RequestPhase::<E>::Finished(Ok(()))),
        !has_answered(token, connection),
        broker_step(
            (BrokerPhase::<E>::Serving { timeout_secs: REQUEST_TIMEOUT_SECS }),
            BrokerEvent::RequestFinished(Ok(())),
        ) is Accepting,
        forall|i: int|
            0 <= i < phases.len() ==> !(#[trigger] phases[i] matches ClientPhase::Finished(Ok(_))),
        forall|i: int|
            #![trigger events[i]]
            0 <= i < events.len() && phases[i] is Receive && events[i] is Replied ==> phases[i + 1]
                == ClientPhase::<F, E>::Finished(Err(Failure::Refused(Error::InvalidResponse))),
        phases.last() matches ClientPhase::Finished(Err(failure)) ==> opened == OpenPhase::<
            F,
            E,
        >::Finished(Err(failure)),
        request_step(RequestPhase::<E>::Receiving, token, RequestEvent::Received(later_message))
            == (RequestPhase::<E>::Sending { response: RESPONSE }),
{
    law_identifiers_round_trip(abstract_name, wrong_token, abstract_name, wrong_token);
    law_identifier_opens_its_broker(
        abstract_name,
        wrong_token,
        abstract_name,
        wrong_token,
        phases,
        events,
    );
    law_request_carries_its_token(wrong_token, token);
    if has_answered(token, connection) {
        let n = choose|n: int|
            0 <= n <= connection.len() && #[trigger] request_run(
                RequestPhase::<E>::Receiving,
                token,
                connection.take(n),
            ) is Sending;
        law_descriptor_needs_the_token(token, connection.take(n));
        let k = choose|k: int|
            0 <= k < n && (#[trigger] connection.take(n)[k] matches RequestEvent::Received(message)
                && asks_for_descriptor(message, token));
        assert(connection[k] == connection.take(n)[k]);
        let i = choose|i: int|
            0 <= i < phases.len() && (#[trigger] phases[i] matches ClientPhase::Send { request }
                && request@ == request_bytes(token));
        assert(phases[i].addresses(abstract_name, wrong_token));
    }
    assert forall|i: int| 0 <= i < phases.len() implies !(
    #[trigger] phases[i] matches ClientPhase::Finished(Ok(_))) by {
        lemma_silence_gives_no_descriptor(phases, events, i);
    }
}

/// Knowing a broker's token opens its mapping.  The request that a client sends by the broker's
/// identifier is answered; the client, which receives the response with the memory file, ends with
/// that file; and the opening, which finds that the file has the size that was asked for, ends with
/// the mapping of that file, under the identifier that it was opened by.
pub proof fn law_right_token_opens_the_mapping<F, E>(
    abstract_name: Seq<u8>,
    token: Seq<u8>,
    sending: ClientPhase<F, E>,
    message: Datagram,
    reply: Reply<F>,
    memfd: F,
    client: ClientPhase<F, E>,
    id: String,
    size: usize,
    received: OpenPhase<F, E>,
    file_size: i64,
    inspected: OpenPhase<F, E>,
    mapping: MmapRaw,
    opened: OpenPhase<F, E>,
)
    requires
        sending.addresses(abstract_name, token),
        sending matches ClientPhase::Send { request } && message.request@ == request@,
        message.bytes == REQUEST_LEN,
        reply.is_response(),
        descriptors(reply.ancillary@) == seq![memfd],
        ClientPhase::<F, E>::Receive.leads_to(ClientEvent::Replied(reply), client),
        (OpenPhase::<F, E>::RequestMemfd { id, size }).leads_to(
            OpenEvent::MemfdReceived(memfd),
            received,
        ),
        file_size == size,
        received.leads_to(OpenEvent::Inspected(file_size), inspected),
        inspected.leads_to(OpenEvent::Mapped(mapping), opened),
    ensures
        request_step(RequestPhase::<E>::Receiving, token, RequestEvent::Received(message)) == (
        RequestPhase::<E>::Sending { response: RESPONSE }),
        client == ClientPhase::<F, E>::Finished(Ok(memfd)),
        inspected == (OpenPhase::<F, E>::MapMemfd { id, memfd, size }),
        opened matches OpenPhase::Finished(Ok(shm)) && shm.spec_id() == id@ && shm.spec_mapping()
            == mapping,
{
    law_answer_reaches_the_client(reply, memfd);
}

/// Every size but zero starts a creation: of a file that is named `vite-task-fspy`, is closed on exec
/// and can be sealed, for a mapping of just that size.  The size zero, and no other, is refused.
pub proof fn law_every_size_but_zero_can_be_created<F, E>(
    size: usize,
    phase: CreatePhase<F, E>,
    file_size: Result<u64, Error>,
)
    requires
        call_ensures(create::<F, E>, (size,), phase),
        call_ensures(valid_size, (size,), file_size),
    ensures
        size > 0 <==> phase is CreateMemfd,
        phase matches CreatePhase::CreateMemfd { size: asked, name, close_on_exec, allow_sealing }
            ==> asked == size && name@ == "vite-task-fspy"@ && close_on_exec && allow_sealing,
        size == 0 <==> phase is Failed,
        phase matches CreatePhase::Failed(failure) ==> failure == Failure::<E>::Refused(
            Error::ZeroSize,
        ),
        size > 0 <==> file_size is Ok,
        file_size matches Ok(file_size) ==> file_size == size,
        file_size matches Err(error) ==> error == Error::ZeroSize,
{
}

/// A creation in which nothing fails reaches the broker, for every size but zero: the file that was
/// created is given exactly that many bytes, is sealed against growing, shrinking and more seals but
/// not against writing, is to be mapped with that length, and is handed to the broker with the
/// mapping that was made of it.
pub proof fn law_creation_reaches_its_broker<F, E>(
    size: usize,
    memfd: F,
    mapping: MmapRaw,
    started: CreatePhase<F, E>,
    made: CreatePhase<F, E>,
    sized: CreatePhase<F, E>,
    sealed: CreatePhase<F, E>,
    mapped: CreatePhase<F, E>,
)
    requires
        size > 0,
        call_ensures(create::<F, E>, (size,), started),
        call_ensures(
            CreatePhase::<F, E>::next,
            (started, CreateEvent::<F, E>::MemfdCreated(memfd)),
            made,
        ),
        call_ensures(CreatePhase::<F, E>::next, (made, CreateEvent::<F, E>::Truncated), sized),
        call_ensures(CreatePhase::<F, E>::next, (sized, CreateEvent::<F, E>::Sealed), sealed),
        call_ensures(
            CreatePhase::<F, E>::next,
            (sealed, CreateEvent::<F, E>::Mapped(mapping)),
            mapped,
        ),
    ensures
        made matches CreatePhase::Truncate { memfd: file, file_size, size: kept } && file == memfd
            && file_size == size && kept == size,
        sized matches CreatePhase::AddSeals { memfd: file, seals, size: kept } && file == memfd
            && seals.grow && seals.shrink && seals.seal && !seals.write && kept == size,
        sealed matches CreatePhase::MapMemfd { memfd: file, size: kept } && file == memfd && kept
            == size,
        mapped matches CreatePhase::StartBroker { memfd: file, mapping: kept } && file == memfd
            && kept == mapping,
{
}

/// What a creation waits for, and nothing else, takes it on, whatever phase it is in: a created file
/// to its size, a sized file to its seals, a sealed file to its mapping, a mapped file to its broker.
/// Each keeps the file and the size.
pub proof fn law_creation_moves_on_with_what_it_waits_for<F, E>(
    phase: CreatePhase<F, E>,
    event: CreateEvent<F, E>,
    next: CreatePhase<F, E>,
)
    requires
        call_ensures(CreatePhase::<F, E>::next, (phase, event), next),
        !(event is Failed),
    ensures
        next != phase ==> {
            ||| phase is CreateMemfd && event is MemfdCreated && next is Truncate
            ||| phase is Truncate && event is Truncated && next is AddSeals
            ||| phase is AddSeals && event is Sealed && next is MapMemfd
            ||| phase is MapMemfd && event is Mapped && next is StartBroker
        },
        phase is CreateMemfd && event is MemfdCreated ==> next is Truncate && next->Truncate_memfd
            == event->MemfdCreated_0 && next->Truncate_size == phase->CreateMemfd_size
            && next->file_size == phase->CreateMemfd_size,
        phase is Truncate && event is Truncated ==> next is AddSeals && next->AddSeals_memfd
            == phase->Truncate_memfd && next->AddSeals_size == phase->Truncate_size
            && next->seals.grow && next->seals.shrink && next->seals.seal && !next->seals.write,
        phase is AddSeals && event is Sealed ==> next is MapMemfd && next->MapMemfd_memfd
            == phase->AddSeals_memfd && next->MapMemfd_size == phase->AddSeals_size,
        phase is MapMemfd && event is Mapped ==> next is StartBroker && next->StartBroker_memfd
            == phase->MapMemfd_memfd && next->mapping == event->Mapped_0,
{
}

/// An operation that fails ends a creation with that error, in every phase that waits for an
/// operation; a creation that is over stays as it is.
pub proof fn law_creation_ends_with_its_failure<F, E>(
    phase: CreatePhase<F, E>,
    error: E,
    next: CreatePhase<F, E>,
)
    requires
        call_ensures(CreatePhase::<F, E>::next, (phase, CreateEvent::<F, E>::Failed(error)), next),
    ensures
        phase is Failed || phase is StartBroker ==> next == phase,
        !(phase is Failed) && !(phase is StartBroker) ==> next == CreatePhase::<F, E>::Failed(
            Failure::Outside(error),
        ),
{
}

/// The seals of a memory file fix its size and themselves, and leave its bytes open.
pub proof fn law_seals_fix_the_size(seals: Seals)
    requires
        call_ensures(required_seals, (), seals),
    ensures
        seals.grow && seals.shrink && seals.seal,
        !seals.write,
{
}

/// Every size but zero starts an opening, by the identifier that was given and for just that size.
/// The size zero, and no other, is refused.
pub proof fn law_every_size_but_zero_can_be_opened<F, E>(
    id: &str,
    size: usize,
    phase: OpenPhase<F, E>,
)
    requires
        call_ensures(open::<F, E>, (id, size), phase),
    ensures
        size > 0 <==> phase is RequestMemfd,
        phase matches OpenPhase::RequestMemfd { id: kept, size: asked } ==> kept@ == id@ && asked
            == size,
        size == 0 <==> phase is Finished,
        phase matches OpenPhase::Finished(outcome) ==> outcome == Result::<Shm, Failure<E>>::Err(
            Failure::Refused(Error::ZeroSize),
        ),
{
}

/// A memory file is opened exactly when it has the size that was asked for.  A file of any other size,
/// larger or smaller, ends the opening at once with the error that the size does not match; a file of
/// that size goes on to be mapped.
pub proof fn law_file_of_another_size_is_refused<F, E>(
    id: String,
    memfd: F,
    size: usize,
    file_size: i64,
    next: OpenPhase<F, E>,
    judged: Result<(), Error>,
)
    requires
        call_ensures(
            OpenPhase::<F, E>::next,
            ((OpenPhase::<F, E>::Inspect { id, memfd, size }), OpenEvent::<F, E>::Inspected(file_size)),
            next,
        ),
        call_ensures(matching_size, (file_size, size), judged),
    ensures
        file_size != size ==> next == OpenPhase::<F, E>::Finished(
            Err(Failure::Refused(Error::SizeMismatch)),
        ),
        file_size == size ==> next == (OpenPhase::<F, E>::MapMemfd { id, memfd, size }),
        file_size != size ==> judged == Result::<(), Error>::Err(Error::SizeMismatch),
        file_size == size ==> judged is Ok,
{
}

/// What an opening waits for never leaves it as it was, and anything else does: a received file goes
/// on to be looked at, a file that was looked at is mapped or refused, and a mapped file ends the
/// opening.  Each keeps the identifier, the file and the size.
pub proof fn law_opening_moves_on_with_what_it_waits_for<F, E>(
    phase: OpenPhase<F, E>,
    event: OpenEvent<F, E>,
    next: OpenPhase<F, E>,
)
    requires
        call_ensures(OpenPhase::<F, E>::next, (phase, event), next),
        !(event is Failed),
    ensures
        phase is RequestMemfd && event is MemfdReceived ==> next is Inspect && next->Inspect_id
            == phase->RequestMemfd_id && next->Inspect_size == phase->RequestMemfd_size
            && next->Inspect_memfd == event->MemfdReceived_0,
        phase is Inspect && event is Inspected ==> next is MapMemfd || next is Finished,
        phase is Inspect && next is Finished ==> next->Finished_0 is Err,
        phase is MapMemfd && event is Mapped ==> next is Finished && (next->Finished_0 matches Ok(
            shm,
        ) && shm.spec_id() == phase->MapMemfd_id@ && shm.spec_mapping() == event->Mapped_0),
        !(phase is RequestMemfd && event is MemfdReceived) && !(phase is Inspect
            && event is Inspected) && !(phase is MapMemfd && event is Mapped) ==> next == phase,
{
}

/// Whatever goes wrong ends an opening with just that failure, in every phase that waits for
/// something; an opening that is over stays as it is.
pub proof fn law_opening_ends_with_its_failure<F, E>(
    phase: OpenPhase<F, E>,
    failure: Failure<E>,
    next: OpenPhase<F, E>,
)
    requires
        call_ensures(OpenPhase::<F, E>::next, (phase, OpenEvent::<F, E>::Failed(failure)), next),
    ensures
        phase is Finished ==> next == phase,
        !(phase is Finished) ==> next == OpenPhase::<F, E>::Finished(Err(failure)),
{
}

/// An opening in which nothing fails ends with the mapping, for every size but zero, exactly when the
/// file that was received has that size; the mapping then answers to the identifier that it was
/// opened by, and has the length of what was mapped.
pub proof fn law_opening_reaches_its_mapping<F, E>(
    id: &str,
    size: usize,
    memfd: F,
    file_size: i64,
    mapping: MmapRaw,
    started: OpenPhase<F, E>,
    received: OpenPhase<F, E>,
    inspected: OpenPhase<F, E>,
    opened: OpenPhase<F, E>,
    len: usize,
    own_id: &str,
)
    requires
        size > 0,
        call_ensures(open::<F, E>, (id, size), started),
        call_ensures(
            OpenPhase::<F, E>::next,
            (started, OpenEvent::<F, E>::MemfdReceived(memfd)),
            received,
        ),
        call_ensures(
            OpenPhase::<F, E>::next,
            (received, OpenEvent::<F, E>::Inspected(file_size)),
            inspected,
        ),
        call_ensures(
            OpenPhase::<F, E>::next,
            (inspected, OpenEvent::<F, E>::Mapped(mapping)),
            opened,
        ),
        opened matches OpenPhase::Finished(Ok(shm)) ==> call_ensures(Shm::len, (&shm,), len)
            && call_ensures(Shm::id, (&shm,), own_id),
    ensures
        opened is Finished,
        opened->Finished_0 is Ok <==> file_size == size,
        file_size == size ==> inspected is MapMemfd && inspected->MapMemfd_memfd == memfd
            && inspected->MapMemfd_size == size,
        file_size == size ==> len == mapping_len(mapping) && own_id@ == id@,
        file_size != size ==> opened->Finished_0 == Result::<Shm, Failure<E>>::Err(
            Failure::Refused(Error::SizeMismatch),
        ),
{
}

/// What was created answers to the identifier of its broker, has the length of its mapping, and comes
/// with that broker; the mapped memory that it gives out is the mapping itself.
pub proof fn law_created_mapping_is_put_together<B>(
    id: String,
    mapping: MmapRaw,
    broker: B,
    created_shm: CreatedShm<B>,
    len: usize,
    own_id: &str,
    own_mapping: &MmapRaw,
)
    requires
        call_ensures(created::<B>, (id, mapping, broker), created_shm),
        call_ensures(Shm::len, (&created_shm.shm,), len),
        call_ensures(Shm::id, (&created_shm.shm,), own_id),
        call_ensures(Shm::mapping, (&created_shm.shm,), own_mapping),
    ensures
        own_id@ == id@,
        len == mapping_len(mapping),
        *own_mapping == mapping,
        created_shm.broker == broker,
{
}

/// A mapping that is named has the identifier and the memory that it was named with.
pub proof fn law_named_mapping_keeps_both(
    id: String,
    mapping: MmapRaw,
    shm: Shm,
    len: usize,
    own_id: &str,
    own_mapping: &MmapRaw,
)
    requires
        call_ensures(Shm::new, (id, mapping), shm),
        call_ensures(Shm::len, (&shm,), len),
        call_ensures(Shm::id, (&shm,), own_id),
        call_ensures(Shm::mapping, (&shm,), own_mapping),
    ensures
        own_id@ == id@,
        len == mapping_len(mapping),
        *own_mapping == mapping,
{
}

} // verus!
