use fspy_shm::error::{Error, ErrorKind, Failure};
use fspy_shm::shm::{
    create, created, matching_size, open, required_seals, valid_size, CreateEvent, CreatePhase,
    OpenEvent, OpenPhase, Seals, Shm, MEMFD_NAME,
};
use memmap2::{MmapOptions, MmapRaw};

fn anonymous(len: usize) -> MmapRaw {
    MmapRaw::from(MmapOptions::new().len(len).map_anon().unwrap())
}

#[test]
fn sizes_are_nonzero() {
    assert_eq!(valid_size(4096), Ok(4096));
    assert_eq!(valid_size(1), Ok(1));
    assert_eq!(valid_size(usize::MAX), Ok(u64::MAX));
    let error = valid_size(0).unwrap_err();
    assert_eq!(error, Error::ZeroSize);
    assert_eq!(error.kind(), ErrorKind::InvalidInput);
    assert_eq!(error.message(), "shared-memory size must be nonzero");
}

#[test]
fn mappings_know_their_identifier_and_their_length() {
    let mapping = anonymous(12345);
    let start = mapping.as_ptr();
    let shm = Shm::new("identifier".to_owned(), mapping);
    assert_eq!(shm.id(), "identifier");
    assert_eq!(shm.len(), 12345);
    assert_eq!(shm.mapping().as_ptr(), start);
}

#[test]
fn a_created_mapping_comes_with_its_broker() {
    let created = created("identifier".to_owned(), anonymous(64), "broker");
    assert_eq!(created.shm.id(), "identifier");
    assert_eq!(created.shm.len(), 64);
    assert_eq!(created.broker, "broker");
}

#[test]
fn a_memory_file_is_sized_and_sealed_before_it_is_mapped() {
    assert_eq!(MEMFD_NAME, "vite-task-fspy");
    let phase: CreatePhase<u8, &str> = create(4096);
    assert!(matches!(
        phase,
        CreatePhase::CreateMemfd {
            size: 4096,
            name: "vite-task-fspy",
            close_on_exec: true,
            allow_sealing: true,
        }
    ));
    let phase = phase.next(CreateEvent::MemfdCreated(7));
    assert!(matches!(phase, CreatePhase::Truncate { memfd: 7, file_size: 4096, size: 4096 }));
    let phase = phase.next(CreateEvent::Sealed);
    assert!(matches!(phase, CreatePhase::Truncate { memfd: 7, file_size: 4096, size: 4096 }));
    let phase = phase.next(CreateEvent::Truncated);
    assert!(matches!(
        phase,
        CreatePhase::AddSeals {
            memfd: 7,
            seals: Seals { grow: true, shrink: true, write: false, seal: true },
            size: 4096,
        }
    ));
    let phase = phase.next(CreateEvent::Sealed);
    assert!(matches!(phase, CreatePhase::MapMemfd { memfd: 7, size: 4096 }));
    let phase = phase.next(CreateEvent::Mapped(anonymous(4096)));
    assert!(matches!(&phase, CreatePhase::StartBroker { memfd: 7, mapping } if mapping.len() == 4096));
    let phase = phase.next(CreateEvent::Failed("late"));
    assert!(matches!(phase, CreatePhase::StartBroker { .. }));
}

#[test]
fn the_size_is_sealed_and_the_bytes_are_not() {
    assert_eq!(
        required_seals(),
        Seals { grow: true, shrink: true, write: false, seal: true }
    );
}

#[test]
fn a_file_is_not_mapped_before_its_size_was_found_equal() {
    let phase: OpenPhase<u8, &str> = open("identifier", 4096);
    let phase = phase.next(OpenEvent::Mapped(anonymous(4096)));
    assert!(matches!(phase, OpenPhase::RequestMemfd { .. }));
    let phase = phase.next(OpenEvent::Inspected(4096));
    assert!(matches!(phase, OpenPhase::RequestMemfd { .. }));
    let phase = phase.next(OpenEvent::MemfdReceived(7));
    assert!(matches!(phase, OpenPhase::Inspect { memfd: 7, .. }));
    let phase = phase.next(OpenEvent::Mapped(anonymous(4096)));
    assert!(matches!(phase, OpenPhase::Inspect { memfd: 7, .. }));
}

#[test]
fn a_creation_fails_with_the_operation_that_failed() {
    let phase: CreatePhase<u8, &str> = create(0);
    assert!(matches!(phase, CreatePhase::Failed(Failure::Refused(Error::ZeroSize))));
    let phase: CreatePhase<u8, &str> = create(1);
    let phase = phase.next(CreateEvent::MemfdCreated(7)).next(CreateEvent::Failed("no space"));
    assert!(matches!(phase, CreatePhase::Failed(Failure::Outside("no space"))));
    let phase = phase.next(CreateEvent::Truncated);
    assert!(matches!(phase, CreatePhase::Failed(Failure::Outside("no space"))));
}

#[test]
fn an_opened_file_has_the_size_that_was_asked_for() {
    let phase: OpenPhase<u8, &str> = open("identifier", 4096);
    assert!(matches!(
        &phase,
        OpenPhase::RequestMemfd { id, size: 4096 } if id == "identifier"
    ));
    let phase = phase.next(OpenEvent::MemfdReceived(7));
    assert!(matches!(phase, OpenPhase::Inspect { memfd: 7, size: 4096, .. }));
    let phase = phase.next(OpenEvent::Inspected(4096));
    assert!(matches!(phase, OpenPhase::MapMemfd { memfd: 7, size: 4096, .. }));
    let phase = phase.next(OpenEvent::Mapped(anonymous(4096)));
    match phase {
        OpenPhase::Finished(Ok(shm)) => {
            assert_eq!(shm.id(), "identifier");
            assert_eq!(shm.len(), 4096);
        }
        _ => panic!("the mapping is open"),
    }
}

#[test]
fn a_file_of_another_size_is_refused() {
    for file_size in [0, 4095, 8192, -1, -4096, i64::MIN, i64::MAX] {
        let phase: OpenPhase<u8, &str> = open("identifier", 4096);
        let phase = phase.next(OpenEvent::MemfdReceived(7)).next(OpenEvent::Inspected(file_size));
        assert!(matches!(
            phase,
            OpenPhase::Finished(Err(Failure::Refused(Error::SizeMismatch)))
        ));
        assert_eq!(matching_size(file_size, 4096), Err(Error::SizeMismatch));
    }
    assert_eq!(matching_size(4096, 4096), Ok(()));
    assert_eq!(matching_size(-1, usize::MAX), Err(Error::SizeMismatch));
    assert_eq!(Error::SizeMismatch.kind(), ErrorKind::InvalidData);
    assert_eq!(
        Error::SizeMismatch.message(),
        "shared-memory size does not match broker descriptor"
    );
}

#[test]
fn an_opening_fails_with_what_went_wrong() {
    let phase: OpenPhase<u8, &str> = open("identifier", 0);
    assert!(matches!(phase, OpenPhase::Finished(Err(Failure::Refused(Error::ZeroSize)))));
    let phase: OpenPhase<u8, &str> = open("identifier", 1);
    let phase = phase.next(OpenEvent::Failed(Failure::Refused(Error::InvalidResponse)));
    assert!(matches!(phase, OpenPhase::Finished(Err(Failure::Refused(Error::InvalidResponse)))));
    let phase: OpenPhase<u8, &str> = open("identifier", 1);
    let phase = phase.next(OpenEvent::MemfdReceived(7)).next(OpenEvent::Failed(Failure::Outside("io")));
    assert!(matches!(phase, OpenPhase::Finished(Err(Failure::Outside("io")))));
}
