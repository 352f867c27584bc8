use fspy_shm::error::ErrorKind;
use fspy_shm::small_dev_shm::{
    exit_code, id_map, mount_of, namespaces_of, operation_error, parse_command, procfs_write, run,
    run_platform, setup_error, Event, Launch, Namespaces, Phase, Platform, RunError, Step, DEV_SHM,
    TMPFS, TMPFS_OPTIONS, USAGE,
};

const STEPS: [Step; 6] = [
    Step::Unshare,
    Step::MapUser,
    Step::DenySetgroups,
    Step::MapGroup,
    Step::MakePrivate,
    Step::MountTmpfs,
];

#[test]
fn requires_a_command() {
    assert_eq!(parse_command(&[]).unwrap_err(), USAGE);
}

#[test]
fn parses_command_and_arguments() {
    let args = ["vt".to_owned(), "run".to_owned(), "stress".to_owned()];
    let (program, command_args) = parse_command(&args).unwrap();

    assert_eq!(program, "vt");
    assert_eq!(command_args, ["run", "stress"]);
}

#[test]
fn reports_unsupported_platform() {
    let error = run_platform::<()>(Platform::Other, "vt", &[]).unwrap_err();

    assert_eq!(error.kind(), ErrorKind::Unsupported);
    assert_eq!(error.to_string(), "vtt small_dev_shm is only supported on Linux");
}

#[test]
fn texts_are_exact() {
    assert_eq!(USAGE, "Usage: vtt small_dev_shm <command> [args...]");
    assert_eq!((TMPFS, DEV_SHM, TMPFS_OPTIONS), ("tmpfs", "/dev/shm", "nr_blocks=1,huge=never"));
    let operations: Vec<&str> = STEPS.iter().map(|step| step.operation()).collect();
    assert_eq!(
        operations,
        [
            "unshare user and mount namespaces",
            "write /proc/self/uid_map",
            "write /proc/self/setgroups",
            "write /proc/self/gid_map",
            "make / recursively private",
            "mount one-page tmpfs at /dev/shm",
        ]
    );
}

#[test]
fn steps_follow_each_other() {
    for pair in STEPS.windows(2) {
        assert_eq!(pair[0].following(), Some(pair[1]));
    }
    assert_eq!(Step::MountTmpfs.following(), None);
}

#[test]
fn writes_are_exact() {
    assert_eq!(id_map(1000), "0 1000 1\n");
    assert_eq!(id_map(0), "0 0 1\n");
    let user = procfs_write(Step::MapUser, 1000, 100).unwrap();
    assert_eq!((user.path, user.content.as_str()), ("/proc/self/uid_map", "0 1000 1\n"));
    let groups = procfs_write(Step::DenySetgroups, 1000, 100).unwrap();
    assert_eq!((groups.path, groups.content.as_str()), ("/proc/self/setgroups", "deny"));
    let group = procfs_write(Step::MapGroup, 1000, 100).unwrap();
    assert_eq!((group.path, group.content.as_str()), ("/proc/self/gid_map", "0 100 1\n"));
    for step in [Step::Unshare, Step::MakePrivate, Step::MountTmpfs] {
        assert!(procfs_write(step, 1000, 100).is_none());
    }
}

#[test]
fn namespaces_are_exact() {
    assert_eq!(namespaces_of(Step::Unshare), Some(Namespaces { user: true, mount: true }));
    for step in &STEPS[1..] {
        assert_eq!(namespaces_of(*step), None);
    }
}

#[test]
fn mounts_are_exact() {
    let private = mount_of(Step::MakePrivate).unwrap();
    assert_eq!(private.target, "/");
    assert_eq!((private.source, private.fs_type, private.options), (None, None, None));
    assert_eq!((private.recursive, private.private), (true, true));
    let tmpfs = mount_of(Step::MountTmpfs).unwrap();
    assert_eq!(tmpfs.target, "/dev/shm");
    assert_eq!((tmpfs.source, tmpfs.fs_type), (Some("tmpfs"), Some("tmpfs")));
    assert_eq!(tmpfs.options, Some("nr_blocks=1,huge=never"));
    assert_eq!((tmpfs.recursive, tmpfs.private), (false, false));
    for step in &STEPS[..4] {
        assert!(mount_of(*step).is_none());
    }
}

#[test]
fn exit_codes_are_passed_on() {
    assert_eq!(exit_code(Some(0), None), 0);
    assert_eq!(exit_code(Some(7), None), 7);
    assert_eq!(exit_code(Some(7), Some(9)), 7);
    assert_eq!(exit_code(None, Some(9)), 137);
    assert_eq!(exit_code(None, None), 1);
}

#[test]
fn errors_name_the_operation() {
    let error = operation_error("write /proc/self/uid_map", "EPERM: no");
    assert_eq!(error.kind(), ErrorKind::Other);
    assert_eq!(error.to_string(), "write /proc/self/uid_map: EPERM: no");
    assert_eq!(
        setup_error(Step::MakePrivate, "EINVAL").to_string(),
        "make / recursively private: EINVAL"
    );
}

#[test]
fn a_launch_holds_the_command_and_its_arguments() {
    let args = ["vt".to_owned(), "run".to_owned(), "stress".to_owned()];
    let launch: Launch<()> = run(Platform::Linux, &args).unwrap();
    assert_eq!(launch.program, "vt");
    assert_eq!(launch.command_args, ["run", "stress"]);
    assert!(matches!(launch.phase, Phase::ReadIds));

    assert!(matches!(run::<()>(Platform::Linux, &[]), Err(RunError::Usage(usage)) if usage == USAGE));
    assert!(matches!(run::<()>(Platform::Other, &[]), Err(RunError::Usage(usage)) if usage == USAGE));
    assert!(matches!(
        run::<()>(Platform::Other, &args),
        Err(RunError::Platform(error)) if error.kind() == ErrorKind::Unsupported
    ));
}

#[test]
fn the_command_runs_after_all_steps() {
    let mut phase: Phase<()> = Phase::ReadIds;
    phase = phase.next(Event::Done);
    assert!(matches!(phase, Phase::ReadIds));
    phase = phase.next(Event::Ids { uid: 1000, gid: 100 });
    for expected in STEPS {
        assert!(matches!(
            phase,
            Phase::Setup { step, uid: 1000, gid: 100 } if step == expected
        ));
        phase = phase.next(Event::Done);
    }
    assert!(matches!(phase, Phase::RunCommand));
    phase = phase.next(Event::Exited { code: None, signal: Some(15) });
    assert!(matches!(phase, Phase::Exit(143)));
    phase = phase.next(Event::Done);
    assert!(matches!(phase, Phase::Exit(143)));
}

#[test]
fn a_command_that_cannot_be_run_is_reported() {
    let phase: Phase<&str> = Phase::RunCommand;
    assert!(matches!(phase.next(Event::CommandFailed("ENOENT")), Phase::CommandFailed("ENOENT")));
}

#[test]
fn only_setgroups_may_be_missing() {
    for step in STEPS {
        for kind in [ErrorKind::NotFound, ErrorKind::PermissionDenied] {
            let phase: Phase<()> = Phase::Setup { step, uid: 1, gid: 2 };
            let next = phase.next(Event::StepFailed { kind, error: "reason".to_owned() });
            if step == Step::DenySetgroups && kind == ErrorKind::NotFound {
                assert!(matches!(next, Phase::Setup { step: Step::MapGroup, uid: 1, gid: 2 }));
            } else {
                let next = next.next(Event::Done);
                assert!(matches!(
                    next,
                    Phase::SetupFailed { step: failed, error } if failed == step && error == "reason"
                ));
            }
        }
    }
}
