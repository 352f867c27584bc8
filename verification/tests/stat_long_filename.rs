use std::path::Path;

use fspy_shm::error::{Error, ErrorKind};
use fspy_shm::stat_long_filename::{
    access_generated_path, c_path, enametoolong, generated_path, judge, judge_call, metadata,
    parse_count, run, AccessError, RunError, STATX_BASIC_STATS, USAGE,
};

fn strings(args: &[&str]) -> Vec<String> {
    args.iter().map(|arg| (*arg).to_owned()).collect()
}

fn os_error(kind: ErrorKind) -> AccessError {
    AccessError::System { kind, raw_os_error: None }
}

#[test]
fn parses_exactly_one_usize_count() {
    assert_eq!(parse_count(&strings(&["1048576"])).unwrap(), 1_048_576);
    assert_eq!(parse_count(&[]).unwrap_err(), USAGE);
    assert_eq!(parse_count(&strings(&["1", "2"])).unwrap_err(), USAGE);
    assert_eq!(parse_count(&strings(&["many"])).unwrap_err(), USAGE);
}

#[test]
fn generates_an_exact_relative_non_nul_ascii_path() {
    let path = generated_path(4096);

    assert_eq!(path.len(), 4096);
    assert!(Path::new(&path).is_relative());
    assert!(path.is_ascii());
    assert!(!path.as_bytes().contains(&0));
}

#[test]
fn makes_one_metadata_access_and_accepts_enametoolong() {
    let mut calls = 0;

    access_generated_path(4096, |path| {
        calls += 1;
        assert_eq!(path.len(), 4096);
        Err(AccessError::System {
            kind: ErrorKind::InvalidFilename,
            raw_os_error: Some(libc::ENAMETOOLONG),
        })
    })
    .unwrap();

    assert_eq!(calls, 1);
}

#[test]
fn accepts_a_missing_path() {
    access_generated_path(8, |_| Err(os_error(ErrorKind::NotFound))).unwrap();
}

#[test]
fn propagates_unexpected_metadata_errors() {
    let error = access_generated_path(8, |_| Err(os_error(ErrorKind::PermissionDenied)))
        .unwrap_err();

    assert_eq!(error.kind(), ErrorKind::PermissionDenied);
}

#[test]
fn the_usage_is_exact() {
    assert_eq!(USAGE, "Usage: vtt stat_long_filename <count>");
    assert_eq!(STATX_BASIC_STATS, 0x07ff);
}

#[test]
fn counts_beyond_usize_are_refused() {
    assert_eq!(parse_count(&strings(&["18446744073709551616"])).unwrap_err(), USAGE);
    assert_eq!(parse_count(&strings(&["-1"])).unwrap_err(), USAGE);
    assert_eq!(parse_count(&strings(&["+12"])).unwrap(), 12);
}

#[test]
fn generates_the_path_itself() {
    assert_eq!(generated_path(0), "");
    assert_eq!(generated_path(5), "xxxxx");
}

#[test]
fn a_found_path_is_accepted() {
    assert_eq!(access_generated_path(3, |_| Ok(())), Ok(()));
}

#[test]
fn other_error_numbers_are_passed_on_unchanged() {
    let error = AccessError::System { kind: ErrorKind::Other, raw_os_error: Some(libc::EIO) };
    assert_eq!(access_generated_path(3, |_| Err(error)), Err(error));
}

#[test]
fn lookups_are_judged_by_class_and_number() {
    let too_long = AccessError::System { kind: ErrorKind::Other, raw_os_error: Some(36) };
    assert_eq!(judge(Ok(()), 36), Ok(()));
    assert_eq!(judge(Err(too_long), 36), Ok(()));
    assert_eq!(judge(Err(too_long), 63), Err(too_long));
    let missing = AccessError::System { kind: ErrorKind::NotFound, raw_os_error: Some(2) };
    assert_eq!(judge(Err(missing), 36), Ok(()));
    assert_eq!(
        judge(Err(os_error(ErrorKind::Other)), 36),
        Err(os_error(ErrorKind::Other))
    );
}

#[test]
fn runs_with_the_count_that_was_asked_for() {
    let mut looked_up = String::new();
    assert!(run(&strings(&["4"]), |path| {
        looked_up.push_str(path);
        Err(os_error(ErrorKind::NotFound))
    })
    .is_ok());
    assert_eq!(looked_up, "xxxx");

    assert!(matches!(
        run(&strings(&["4"]), |_| Err(os_error(ErrorKind::PermissionDenied))),
        Err(RunError::Access(error)) if error.kind() == ErrorKind::PermissionDenied
    ));
}

#[test]
fn a_wrong_call_looks_nothing_up() {
    let mut calls = 0;
    let outcome = run(&[], |_| {
        calls += 1;
        Ok(())
    });
    assert!(matches!(outcome, Err(RunError::Usage(usage)) if usage == USAGE));
    assert_eq!(calls, 0);
}

#[test]
fn paths_are_handed_over_with_a_zero_byte_at_the_end() {
    assert_eq!(c_path("xx").unwrap(), b"xx\0");
    assert_eq!(c_path("").unwrap(), b"\0");
    assert_eq!(c_path("\u{e9}").unwrap(), b"\xc3\xa9\0");
    let error = c_path("a\0b").unwrap_err();
    assert_eq!(error, Error::PathContainsNul);
    assert_eq!(error.kind(), ErrorKind::InvalidInput);
    assert_eq!(error.message(), "path contains NUL");
}

#[test]
fn metadata_passes_on_what_the_system_call_gives() {
    let mut seen = Vec::new();
    let outcome = metadata("xyz", |bytes, flags, mask| {
        seen.extend_from_slice(bytes);
        assert_eq!((flags, mask), (0, 0x07ff));
        (-1, os_error(ErrorKind::NotFound))
    });
    assert_eq!(outcome, Err(os_error(ErrorKind::NotFound)));
    assert_eq!(seen, b"xyz\0");
    for returned in [0, 1, -2] {
        let error = os_error(ErrorKind::Other);
        assert_eq!(metadata("xyz", |_, _, _| (returned, error)), Ok(()));
    }
}

#[test]
fn system_calls_are_judged_by_what_they_return() {
    let error = AccessError::System { kind: ErrorKind::Other, raw_os_error: Some(5) };
    assert_eq!(judge_call(-1, error), Err(error));
    for returned in [0, 1, -2, i64::MIN, i64::MAX] {
        assert_eq!(judge_call(returned, error), Ok(()));
    }
}

#[test]
fn a_path_with_a_zero_byte_is_refused_before_anything_is_called() {
    let mut calls = 0;
    let error = metadata("x\0z", |_, _, _| {
        calls += 1;
        (0, os_error(ErrorKind::Other))
    })
    .unwrap_err();
    assert_eq!(calls, 0);
    assert_eq!(error, AccessError::Refused(Error::PathContainsNul));
    assert_eq!(error.kind(), ErrorKind::InvalidInput);
    assert_eq!(error.raw_os_error(), None);
}

#[test]
fn errors_of_the_system_have_their_class_and_number() {
    let error = AccessError::System {
        kind: ErrorKind::InvalidFilename,
        raw_os_error: Some(enametoolong()),
    };
    assert_eq!(error.kind(), ErrorKind::InvalidFilename);
    assert_eq!(error.raw_os_error(), Some(libc::ENAMETOOLONG));
}
