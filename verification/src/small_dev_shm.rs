//! The `small_dev_shm` command: runs another command where `/dev/shm` has room for one page only.
//!
//! The command moves into a user and a mount namespace of its own, maps its user and group to root
//! there, and mounts a small tmpfs over `/dev/shm` before it runs the other command.
use vstd::prelude::*;

use crate::decimal::notation;
use crate::decimal::write_decimal;
use crate::error::ErrorKind;

verus! {

/// How the command is called.
pub const USAGE: &'static str = "Usage: vtt small_dev_shm <command> [args...]";

/// What is mounted over `/dev/shm`.
pub const TMPFS: &'static str = "tmpfs";

/// Where it is mounted.
pub const DEV_SHM: &'static str = "/dev/shm";

/// The options that limit it to one page.
pub const TMPFS_OPTIONS: &'static str = "nr_blocks=1,huge=never";

/// What the platform is that the command runs on.
#[derive(Clone, Copy, Debug, PartialEq, Eq, Structural)]
pub enum Platform {
    /// Linux, which has the namespaces that the command needs.
    Linux,
    /// Anything else.
    Other,
}

/// An error that the command reports.
#[derive(Debug)]
pub struct PlatformError {
    kind: ErrorKind,
    message: String,
}

impl PlatformError {
    /// The error's class.
    pub closed spec fn spec_kind(self) -> ErrorKind {
        self.kind
    }

    /// The error's text.
    pub closed spec fn spec_message(self) -> Seq<char> {
        self.message@
    }

    /// Returns the error's class.
    pub fn kind(&self) -> (kind: ErrorKind)
        ensures
            kind == self.spec_kind(),
    {
        self.kind
    }

    /// Returns the error's text.
    pub fn to_string(&self) -> (text: String)
        ensures
            text@ == self.spec_message(),
    {
        self.message.clone()
    }
}

/// Why the command cannot start.
#[derive(Debug)]
pub enum RunError {
    /// The command was called in the wrong way; the text says how it is called.
    Usage(&'static str),
    /// The platform does not have what the command needs.
    Platform(PlatformError),
}

/// One thing that is done before the other command runs.
#[derive(Clone, Copy, Debug, PartialEq, Eq, Structural)]
pub enum Step {
    /// Move into new user and mount namespaces.
    Unshare,
    /// Map the user to root.
    MapUser,
    /// Give up the right to set groups.
    DenySetgroups,
    /// Map the group to root.
    MapGroup,
    /// Keep what is mounted from now on to this namespace.
    MakePrivate,
    /// Mount the small tmpfs.
    MountTmpfs,
}

impl Step {
    /// How the step is named in an error.
    pub open spec fn spec_operation(self) -> Seq<char> {
        match self {
            Step::Unshare => "unshare user and mount namespaces"@,
            Step::MapUser => "write /proc/self/uid_map"@,
            Step::DenySetgroups => "write /proc/self/setgroups"@,
            Step::MapGroup => "write /proc/self/gid_map"@,
            Step::MakePrivate => "make / recursively private"@,
            Step::MountTmpfs => "mount one-page tmpfs at /dev/shm"@,
        }
    }

    /// Returns how the step is named in an error.
    pub fn operation(self) -> (operation: &'static str)
        ensures
            operation@ == self.spec_operation(),
    {
        match self {
            Step::Unshare => "unshare user and mount namespaces",
            Step::MapUser => "write /proc/self/uid_map",
            Step::DenySetgroups => "write /proc/self/setgroups",
            Step::MapGroup => "write /proc/self/gid_map",
            Step::MakePrivate => "make / recursively private",
            Step::MountTmpfs => "mount one-page tmpfs at /dev/shm",
        }
    }

    /// The position of the step in the order in which the steps are taken.
    pub open spec fn position(self) -> int {
        match self {
            Step::Unshare => 0,
            Step::MapUser => 1,
            Step::DenySetgroups => 2,
            Step::MapGroup => 3,
            Step::MakePrivate => 4,
            Step::MountTmpfs => 5,
        }
    }

    /// Returns the step that comes after this one; none comes after the last.
    pub fn following(self) -> (following: Option<Step>)
        ensures
            match following {
                Some(step) => step.position() == self.position() + 1,
                None => self == Step::MountTmpfs,
            },
    {
        match self {
            Step::Unshare => Some(Step::MapUser),
            Step::MapUser => Some(Step::DenySetgroups),
            Step::DenySetgroups => Some(Step::MapGroup),
            Step::MapGroup => Some(Step::MakePrivate),
            Step::MakePrivate => Some(Step::MountTmpfs),
            Step::MountTmpfs => None,
        }
    }
}

/// The line that maps root inside a namespace to the user or group with this number outside.
pub open spec fn root_mapping(id: u32) -> Seq<char> {
    "0 "@ + notation(id as nat) + " 1\n"@
}

/// Writes the line that maps root inside a namespace to the user or group with this number outside.
pub fn id_map(id: u32) -> (line: String)
    ensures
        line@ == root_mapping(id),
{
    "0 ".to_owned().concat(write_decimal(id).as_str()).concat(" 1\n")
}

/// The text of the error that a step failed with: the step's name, and what went wrong.
pub open spec fn error_text(operation: Seq<char>, error: Seq<char>) -> Seq<char> {
    operation + ": "@ + error
}

/// Names the step that failed in front of what went wrong.
pub fn operation_error(operation: &str, error: &str) -> (reported: PlatformError)
    ensures
        reported.spec_kind() == ErrorKind::Other,
        reported.spec_message() == error_text(operation@, error@),
{
    PlatformError {
        kind: ErrorKind::Other,
        message: operation.to_owned().concat(": ").concat(error),
    }
}

/// What is to be written into which file of the process's own in `/proc`.
#[derive(Debug)]
pub struct ProcfsWrite {
    /// The file.
    pub path: &'static str,
    /// What is to be written.
    pub content: String,
}

/// Returns what a step writes, if writing is what it does.
pub fn procfs_write(step: Step, uid: u32, gid: u32) -> (write: Option<ProcfsWrite>)
    ensures
        match write {
            Some(write) => match step {
                Step::MapUser => write.path@ == "/proc/self/uid_map"@ && write.content@
                    == root_mapping(uid),
                Step::DenySetgroups => write.path@ == "/proc/self/setgroups"@ && write.content@
                    == "deny"@,
                Step::MapGroup => write.path@ == "/proc/self/gid_map"@ && write.content@
                    == root_mapping(gid),
                _ => false,
            },
            None => step == Step::Unshare || step == Step::MakePrivate || step == Step::MountTmpfs,
        },
{
    match step {
        Step::MapUser => Some(
            ProcfsWrite { path: "/proc/self/uid_map", content: id_map(uid) },
        ),
        Step::DenySetgroups => Some(
            ProcfsWrite { path: "/proc/self/setgroups", content: "deny".to_owned() },
        ),
        Step::MapGroup => Some(
            ProcfsWrite { path: "/proc/self/gid_map", content: id_map(gid) },
        ),
        _ => None,
    }
}

/// The namespaces that the process moves into.
#[derive(Clone, Copy, Debug, PartialEq, Eq, Structural)]
pub struct Namespaces {
    /// A new user namespace.
    pub user: bool,
    /// A new mount namespace.
    pub mount: bool,
}

/// Returns the namespaces that a step moves into, if moving is what it does.
pub fn namespaces_of(step: Step) -> (namespaces: Option<Namespaces>)
    ensures
        namespaces == match step {
            Step::Unshare => Some(Namespaces { user: true, mount: true }),
            _ => None,
        },
{
    match step {
        Step::Unshare => Some(Namespaces { user: true, mount: true }),
        _ => None,
    }
}

/// What the `mount` system call is asked for.
#[derive(Clone, Copy, Debug)]
pub struct Mount {
    /// What is mounted, if anything is.
    pub source: Option<&'static str>,
    /// Where.
    pub target: &'static str,
    /// The type of the file system, if one is mounted.
    pub fs_type: Option<&'static str>,
    /// Whether everything that is mounted below the target is meant too.
    pub recursive: bool,
    /// Whether what is mounted there later is kept to the mount namespace.
    pub private: bool,
    /// The options of the file system, if there are any.
    pub options: Option<&'static str>,
}

/// Returns what a step asks the `mount` system call for, if that is what it does.
pub fn mount_of(step: Step) -> (mount: Option<Mount>)
    ensures
        match step {
            Step::MakePrivate => mount matches Some(mount) && {
                &&& mount.source is None
                &&& mount.target@ == "/"@
                &&& mount.fs_type is None
                &&& mount.recursive
                &&& mount.private
                &&& mount.options is None
            },
            Step::MountTmpfs => mount matches Some(mount) && {
                &&& mount.source matches Some(source) && source@ == TMPFS@
                &&& mount.target@ == DEV_SHM@
                &&& mount.fs_type matches Some(fs_type) && fs_type@ == TMPFS@
                &&& !mount.recursive
                &&& !mount.private
                &&& mount.options matches Some(options) && options@ == TMPFS_OPTIONS@
            },
            _ => mount is None,
        },
{
    match step {
        Step::MakePrivate => Some(
            Mount {
                source: None,
                target: "/",
                fs_type: None,
                recursive: true,
                private: true,
                options: None,
            },
        ),
        Step::MountTmpfs => Some(
            Mount {
                source: Some(TMPFS),
                target: DEV_SHM,
                fs_type: Some(TMPFS),
                recursive: false,
                private: false,
                options: Some(TMPFS_OPTIONS),
            },
        ),
        _ => None,
    }
}

/// The code that the command exits with: the other command's own, or 128 and the number of the
/// signal that ended it, or 1 if it is known neither how it ended nor by what.
pub open spec fn exit_code_of(code: Option<i32>, signal: Option<i32>) -> int {
    match (code, signal) {
        (Some(code), _) => code as int,
        (None, Some(signal)) => 128 + signal,
        (None, None) => 1,
    }
}

/// Returns the code that the command exits with.
pub fn exit_code(code: Option<i32>, signal: Option<i32>) -> (exit: i32)
    requires
        exit_code_of(code, signal) <= i32::MAX,
    ensures
        exit == exit_code_of(code, signal),
{
    match code {
        Some(code) => code,
        None => match signal {
            Some(signal) => 128 + signal,
            None => 1,
        },
    }
}

/// Splits the arguments into the other command and its arguments.
pub fn parse_command(args: &[String]) -> (command: Result<(&str, &[String]), &'static str>)
    ensures
        match command {
            Ok((program, command_args)) => {
                &&& args@.len() > 0
                &&& program@ == args@[0]@
                &&& command_args@ == args@.skip(1)
            },
            Err(usage) => args@.len() == 0 && usage@ == USAGE@,
        },
{
    if args.len() == 0 {
        return Err(USAGE);
    }
    let program: &str = args[0].as_str();
    let command_args: &[String] = vstd::slice::slice_subrange(args, 1, args.len());
    assert(command_args@ =~= args@.skip(1));
    Ok((program, command_args))
}

/// Where the command stands.
#[derive(Debug)]
pub enum Phase<E> {
    /// The numbers of the user and of the group are to be looked up, while they are still those
    /// outside the namespace.
    ReadIds,
    /// A step is to be taken.
    Setup {
        /// The step.
        step: Step,
        /// The user outside the namespace.
        uid: u32,
        /// The group outside the namespace.
        gid: u32,
    },
    /// The other command is to be run.
    RunCommand,
    /// The process is to exit with this code.
    Exit(i32),
    /// A step failed.
    SetupFailed {
        /// The step.
        step: Step,
        /// What went wrong.
        error: String,
    },
    /// The other command could not be run.
    CommandFailed(E),
}

/// What happened.
#[derive(Debug)]
pub enum Event<E> {
    /// The user and the group were looked up.
    Ids {
        /// The user's number.
        uid: u32,
        /// The group's number.
        gid: u32,
    },
    /// The step was taken.
    Done,
    /// The step failed.
    StepFailed {
        /// The class of what went wrong.
        kind: ErrorKind,
        /// What went wrong.
        error: String,
    },
    /// The other command ended.
    Exited {
        /// Its exit code, if it exited.
        code: Option<i32>,
        /// The number of the signal that ended it, if one did.
        signal: Option<i32>,
    },
    /// The other command could not be run.
    CommandFailed(E),
}

/// The step at a position in the order in which the steps are taken.
pub open spec fn step_at(position: int) -> Step {
    if position <= 0 {
        Step::Unshare
    } else if position == 1 {
        Step::MapUser
    } else if position == 2 {
        Step::DenySetgroups
    } else if position == 3 {
        Step::MapGroup
    } else if position == 4 {
        Step::MakePrivate
    } else {
        Step::MountTmpfs
    }
}

/// How many steps are taken.
pub open spec fn step_count() -> int {
    6
}

/// Tells that the event counts as success of the step.  Kernels that have no file for it have no
/// groups to give up either, so that a missing file is no failure of that step.
pub open spec fn passes<E>(step: Step, event: Event<E>) -> bool {
    match event {
        Event::Done => true,
        Event::StepFailed { kind, .. } => step == Step::DenySetgroups && kind
            == ErrorKind::NotFound,
        _ => false,
    }
}

/// What the event makes of the command: after the lookup come the steps, in order, then the other
/// command, then the exit; a step that fails ends it all.  An event that the phase does not wait for
/// changes nothing.
pub open spec fn next_phase<E>(phase: Phase<E>, event: Event<E>) -> Phase<E> {
    match (phase, event) {
        (Phase::ReadIds, Event::Ids { uid, gid }) => Phase::Setup { step: step_at(0), uid, gid },
        (Phase::Setup { step, uid, gid }, event) => {
            if passes(step, event) {
                if step.position() + 1 < step_count() {
                    Phase::Setup { step: step_at(step.position() + 1), uid, gid }
                } else {
                    Phase::RunCommand
                }
            } else {
                match event {
                    Event::StepFailed { kind, error } => Phase::SetupFailed { step, error },
                    _ => phase,
                }
            }
        },
        (Phase::RunCommand, Event::Exited { code, signal }) => Phase::Exit(
            exit_code_of(code, signal) as i32,
        ),
        (Phase::RunCommand, Event::CommandFailed(error)) => Phase::CommandFailed(error),
        _ => phase,
    }
}

/// Tells that the event's numbers make an exit code.
pub open spec fn has_exit_code<E>(event: Event<E>) -> bool {
    event matches Event::Exited { code, signal } ==> exit_code_of(code, signal) <= i32::MAX
}

impl<E> Phase<E> {
    /// Takes the command from one phase to the next.
    pub fn next(self, event: Event<E>) -> (next: Self)
        requires
            has_exit_code(event),
        ensures
            next == next_phase(self, event),
    {
        match (self, event) {
            (Phase::ReadIds, Event::Ids { uid, gid }) =>
                Phase::Setup { step: Step::Unshare, uid, gid },
            (Phase::Setup { step, uid, gid }, Event::Done) => match step.following() {
                Some(step) => Phase::Setup { step, uid, gid },
                None => Phase::RunCommand,
            },
            (Phase::Setup { step, uid, gid }, Event::StepFailed { kind, error }) => {
                if step == Step::DenySetgroups && kind == ErrorKind::NotFound {
                    Phase::Setup { step: Step::MapGroup, uid, gid }
                } else {
                    Phase::SetupFailed { step, error }
                }
            },
            (Phase::RunCommand, Event::Exited { code, signal }) =>
                Phase::Exit(exit_code(code, signal)),
            (Phase::RunCommand, Event::CommandFailed(error)) => Phase::CommandFailed(error),
            (phase, _) => phase,
        }
    }
}

/// Returns the error that a failed step is reported with.
pub fn setup_error(step: Step, error: &str) -> (reported: PlatformError)
    ensures
        reported.spec_kind() == ErrorKind::Other,
        reported.spec_message() == error_text(step.spec_operation(), error@),
{
    operation_error(step.operation(), error)
}

/// The command, ready to be taken from phase to phase.
#[derive(Debug)]
pub struct Launch<E> {
    /// The other command.
    pub program: String,
    /// Its arguments.
    pub command_args: Vec<String>,
    /// Where the command stands.
    pub phase: Phase<E>,
}

impl<E> Launch<E> {
    /// Tells that this is to run the other command with these arguments, from the start.
    pub open spec fn starts(self, program: Seq<char>, command_args: Seq<String>) -> bool {
        &&& self.program@ == program
        &&& self.command_args@ == command_args
        &&& self.phase is ReadIds
    }
}

/// Prepares to run the other command, where the platform has what that takes.
pub fn run_platform<E>(platform: Platform, program: &str, command_args: &[String]) -> (launch: Result<
    Launch<E>,
    PlatformError,
>)
    ensures
        match launch {
            Ok(launch) => platform == Platform::Linux && launch.starts(program@, command_args@),
            Err(error) => {
                &&& platform == Platform::Other
                &&& error.spec_kind() == ErrorKind::Unsupported
                &&& error.spec_message() == "vtt small_dev_shm is only supported on Linux"@
            },
        },
{
    match platform {
        Platform::Linux => {
            let mut copied: Vec<String> = Vec::new();
            for i in 0..command_args.len()
                invariant
                    copied@ == command_args@.take(i as int),
            {
                copied.push(command_args[i].clone());
                assert(copied@ =~= command_args@.take(i + 1));
            }
            assert(command_args@.take(command_args@.len() as int) =~= command_args@);
            Ok(Launch { program: program.to_owned(), command_args: copied, phase: Phase::ReadIds })
        },
        Platform::Other => Err(
            PlatformError {
                kind: ErrorKind::Unsupported,
                message: "vtt small_dev_shm is only supported on Linux".to_owned(),
            },
        ),
    }
}

/// Starts the command: takes the other command and its arguments from the arguments.
pub fn run<E>(platform: Platform, args: &[String]) -> (launch: Result<Launch<E>, RunError>)
    ensures
        match launch {
            Ok(launch) => {
                &&& args@.len() > 0
                &&& platform == Platform::Linux
                &&& launch.starts(args@[0]@, args@.skip(1))
            },
            Err(RunError::Usage(usage)) => args@.len() == 0 && usage@ == USAGE@,
            Err(RunError::Platform(error)) => {
                &&& args@.len() > 0
                &&& platform == Platform::Other
                &&& error.spec_kind() == ErrorKind::Unsupported
                &&& error.spec_message() == "vtt small_dev_shm is only supported on Linux"@
            },
        },
{
    match parse_command(args) {
        Err(usage) => Err(RunError::Usage(usage)),
        Ok((program, command_args)) => match run_platform(platform, program, command_args) {
            Ok(launch) => Ok(launch),
            Err(error) => Err(RunError::Platform(error)),
        },
    }
}

// ---------------------------------------------------------------------------------------------
// Laws

/// Where the command stands after these events.
pub open spec fn phase_after<E>(phase: Phase<E>, events: Seq<Event<E>>) -> Phase<E>
    decreases events.len(),
{
    if events.len() == 0 {
        phase
    } else {
        next_phase(phase_after(phase, events.drop_last()), events.last())
    }
}

/// Tells that the lookup and the first `count` steps came out well, in order, among the events.
pub open spec fn steps_passed<E>(events: Seq<Event<E>>, uid: u32, gid: u32, count: int) -> bool
    decreases count,
{
    if count <= 0 {
        exists|i: int|
            0 <= i < events.len() && #[trigger] events[i] == (Event::<E>::Ids { uid, gid })
    } else {
        exists|i: int|
            0 <= i < events.len() && passes(step_at(count - 1), #[trigger] events[i])
                && steps_passed(events.take(i), uid, gid, count - 1)
    }
}

/// What has happened stays true when more happens.
proof fn lemma_steps_stay_passed<E>(events: Seq<Event<E>>, uid: u32, gid: u32, count: int)
    requires
        events.len() > 0,
        steps_passed(events.drop_last(), uid, gid, count),
    ensures
        steps_passed(events, uid, gid, count),
{
    let earlier = events.drop_last();
    if count <= 0 {
        let i = choose|i: int|
            0 <= i < earlier.len() && #[trigger] earlier[i] == (Event::<E>::Ids { uid, gid });
        assert(events[i] == earlier[i]);
    } else {
        let i = choose|i: int|
            0 <= i < earlier.len() && passes(step_at(count - 1), #[trigger] earlier[i])
                && steps_passed(earlier.take(i), uid, gid, count - 1);
        assert(events[i] == earlier[i]);
        assert(earlier.take(i) =~= events.take(i));
    }
}

/// The other command runs only where `/dev/shm` is small: whatever happens, it is reached only after
/// the user and the group were looked up and all the steps came out well, each after the one before
/// it, and a step is reached only after those before it.
pub proof fn law_command_runs_after_all_steps<E>(events: Seq<Event<E>>)
    ensures
        match phase_after(Phase::<E>::ReadIds, events) {
            Phase::ReadIds => true,
            Phase::Setup { step, uid, gid } => steps_passed(events, uid, gid, step.position()),
            Phase::SetupFailed { .. } => true,
            Phase::RunCommand | Phase::Exit(_) | Phase::CommandFailed(_) => exists|
                uid: u32,
                gid: u32,
            | #[trigger] steps_passed(events, uid, gid, step_count()),
        },
    decreases events.len(),
{
    if events.len() > 0 {
        let earlier = events.drop_last();
        let last = events.len() - 1;
        law_command_runs_after_all_steps(earlier);
        assert(events[last] == events.last());
        assert(events.take(last) =~= earlier);
        match phase_after(Phase::<E>::ReadIds, earlier) {
            Phase::ReadIds => {},
            Phase::Setup { step, uid, gid } => {
                lemma_steps_stay_passed(events, uid, gid, step.position());
                assert(step_at(step.position()) == step);
                if passes(step, events.last()) {
                    assert(steps_passed(events, uid, gid, step.position() + 1));
                }
            },
            Phase::SetupFailed { .. } => {},
            _ => {
                let (uid, gid) = choose|uid: u32, gid: u32|
                    #[trigger] steps_passed(earlier, uid, gid, step_count());
                lemma_steps_stay_passed(events, uid, gid, step_count());
            },
        }
    }
}

/// A failed step is final: the command ends with that failure whatever happens later, and never
/// runs the other command.
pub proof fn law_failed_setup_is_final<E>(step: Step, error: String, later: Seq<Event<E>>)
    ensures
        phase_after((Phase::<E>::SetupFailed { step, error }), later) == (Phase::<
            E,
        >::SetupFailed { step, error }),
    decreases later.len(),
{
    if later.len() > 0 {
        law_failed_setup_is_final(step, error, later.drop_last());
    }
}

/// The other command does run once every step came out well.
pub proof fn law_passed_steps_lead_to_the_command<E>(uid: u32, gid: u32, events: Seq<Event<E>>)
    requires
        events.len() == step_count(),
        forall|i: int| 0 <= i < events.len() ==> passes(step_at(i), #[trigger] events[i]),
    ensures
        phase_after(
            next_phase(Phase::<E>::ReadIds, Event::Ids { uid, gid }),
            events,
        ) is RunCommand,
{
    lemma_passed_steps(uid, gid, events, step_count() - 1);
    assert(events.take(step_count() - 1) =~= events.drop_last());
    assert(events[step_count() - 1] == events.last());
}

/// After the first `count` steps came out well, the next one is due.
proof fn lemma_passed_steps<E>(uid: u32, gid: u32, events: Seq<Event<E>>, count: int)
    requires
        0 <= count < step_count(),
        events.len() == step_count(),
        forall|i: int| 0 <= i < events.len() ==> passes(step_at(i), #[trigger] events[i]),
    ensures
        phase_after(
            next_phase(Phase::<E>::ReadIds, Event::Ids { uid, gid }),
            events.take(count),
        ) == (Phase::<E>::Setup { step: step_at(count), uid, gid }),
    decreases count,
{
    if count > 0 {
        lemma_passed_steps(uid, gid, events, count - 1);
        assert(events.take(count).drop_last() =~= events.take(count - 1));
        assert(events.take(count).last() == events[count - 1]);
        assert(step_at(count - 1).position() == count - 1);
    }
}

/// The command exits as the other command did: with its exit code, whatever that is; if a signal ended
/// it, with 128 and the signal's number; and with 1 if neither is known.  Every exit code, and every
/// signal for which there is such a number, is taken.
pub proof fn law_exit_code_is_passed_on(code: Option<i32>, signal: Option<i32>, exit: i32)
    requires
        call_ensures(exit_code, (code, signal), exit),
    ensures
        code matches Some(code) ==> exit == code,
        code is None ==> (signal matches Some(signal) ==> signal <= i32::MAX - 128 ==> exit == 128
            + signal),
        code is None && signal is None ==> exit == 1,
        code is Some || (signal matches Some(signal) ==> signal <= i32::MAX - 128) ==> call_requires(
            exit_code,
            (code, signal),
        ),
{
}

/// The process exits with the code that belongs to how the other command ended.
pub proof fn law_process_exits_with_the_exit_code<E>(
    code: Option<i32>,
    signal: Option<i32>,
    next: Phase<E>,
)
    requires
        code is None ==> (signal matches Some(signal) ==> signal <= i32::MAX - 128),
        call_ensures(
            Phase::<E>::next,
            (Phase::<E>::RunCommand, (Event::<E>::Exited { code, signal })),
            next,
        ),
    ensures
        next is Exit,
        code matches Some(code) ==> next == Phase::<E>::Exit(code),
        code is None ==> (signal matches Some(signal) ==> next->Exit_0 == 128 + signal),
        code is None && signal is None ==> next == Phase::<E>::Exit(1),
        call_requires(
            Phase::<E>::next,
            (Phase::<E>::RunCommand, (Event::<E>::Exited { code, signal })),
        ),
{
}

/// The user and the group are looked up first, then the steps are taken in their order, all of them for
/// that user and that group, and then the other command is run.
pub proof fn law_steps_are_taken_in_order<E>(
    uid: u32,
    gid: u32,
    step: Step,
    looked_up: Phase<E>,
    done: Phase<E>,
)
    requires
        call_ensures(
            Phase::<E>::next,
            (Phase::<E>::ReadIds, (Event::<E>::Ids { uid, gid })),
            looked_up,
        ),
        call_ensures(
            Phase::<E>::next,
            ((Phase::<E>::Setup { step, uid, gid }), Event::<E>::Done),
            done,
        ),
    ensures
        looked_up == (Phase::<E>::Setup { step: Step::Unshare, uid, gid }),
        step == Step::Unshare ==> done == (Phase::<E>::Setup { step: Step::MapUser, uid, gid }),
        step == Step::MapUser ==> done == (Phase::<E>::Setup {
            step: Step::DenySetgroups,
            uid,
            gid,
        }),
        step == Step::DenySetgroups ==> done == (Phase::<E>::Setup {
            step: Step::MapGroup,
            uid,
            gid,
        }),
        step == Step::MapGroup ==> done == (Phase::<E>::Setup { step: Step::MakePrivate, uid, gid }),
        step == Step::MakePrivate ==> done == (Phase::<E>::Setup {
            step: Step::MountTmpfs,
            uid,
            gid,
        }),
        step == Step::MountTmpfs ==> done is RunCommand,
{
}

/// A step that fails ends the command with that step and what went wrong, except that a missing file
/// to give up the groups in is passed over.
pub proof fn law_failed_step_ends_the_command<E>(
    step: Step,
    uid: u32,
    gid: u32,
    kind: ErrorKind,
    error: String,
    next: Phase<E>,
)
    requires
        call_ensures(
            Phase::<E>::next,
            ((Phase::<E>::Setup { step, uid, gid }), (Event::<E>::StepFailed { kind, error })),
            next,
        ),
    ensures
        step == Step::DenySetgroups && kind == ErrorKind::NotFound ==> next == (Phase::<E>::Setup {
            step: Step::MapGroup,
            uid,
            gid,
        }),
        step != Step::DenySetgroups || kind != ErrorKind::NotFound ==> next == (Phase::<
            E,
        >::SetupFailed { step, error }),
{
}

/// What the command does not wait for changes nothing, and nothing changes how it ended.  A command
/// that cannot be run is reported with what kept it from running.
pub proof fn law_command_waits_for_its_turn<E>(phase: Phase<E>, event: Event<E>, next: Phase<E>)
    requires
        call_ensures(Phase::<E>::next, (phase, event), next),
    ensures
        phase is Exit || phase is SetupFailed || phase is CommandFailed ==> next == phase,
        phase is ReadIds && !(event is Ids) ==> next == phase,
        phase is Setup && !(event is Done) && !(event is StepFailed) ==> next == phase,
        phase is RunCommand && !(event is Exited) && !(event is CommandFailed) ==> next == phase,
        phase is RunCommand ==> (event matches Event::CommandFailed(error) ==> next
            == Phase::<E>::CommandFailed(error)),
{
}

/// A step's successor is the one that the command takes after it.
pub proof fn law_following_step_is_the_next<E>(
    step: Step,
    uid: u32,
    gid: u32,
    following: Option<Step>,
    done: Phase<E>,
)
    requires
        call_ensures(Step::following, (step,), following),
        call_ensures(
            Phase::<E>::next,
            ((Phase::<E>::Setup { step, uid, gid }), Event::<E>::Done),
            done,
        ),
    ensures
        following matches Some(following) ==> done == (Phase::<E>::Setup {
            step: following,
            uid,
            gid,
        }),
        following is None ==> done is RunCommand,
{
}

/// Root inside is mapped to the one user and the one group that were looked up outside: the user's line
/// is written into the user's file and the group's line into the group's, and the groups are given up.
/// No other step writes anything.
pub proof fn law_ids_are_mapped_to_root(
    step: Step,
    uid: u32,
    gid: u32,
    uid_text: String,
    gid_text: String,
    uid_line: String,
    write: Option<ProcfsWrite>,
)
    requires
        call_ensures(write_decimal, (uid,), uid_text),
        call_ensures(write_decimal, (gid,), gid_text),
        call_ensures(id_map, (uid,), uid_line),
        call_ensures(procfs_write, (step, uid, gid), write),
    ensures
        uid_line@ == "0 "@ + uid_text@ + " 1\n"@,
        write is Some <==> step == Step::MapUser || step == Step::DenySetgroups || step
            == Step::MapGroup,
        step == Step::MapUser ==> write->0.path@ == "/proc/self/uid_map"@ && write->0.content@
            == "0 "@ + uid_text@ + " 1\n"@,
        step == Step::MapGroup ==> write->0.path@ == "/proc/self/gid_map"@ && write->0.content@
            == "0 "@ + gid_text@ + " 1\n"@,
        step == Step::DenySetgroups ==> write->0.path@ == "/proc/self/setgroups"@
            && write->0.content@ == "deny"@,
{
}

/// What is mounted, and where: first everything is made private, down from the root, and then a tmpfs of
/// one block is mounted over `/dev/shm`.  No other step mounts anything, and one step alone moves into
/// new namespaces, for users and for mounts.
pub proof fn law_small_tmpfs_is_mounted_privately(
    step: Step,
    mount: Option<Mount>,
    namespaces: Option<Namespaces>,
)
    requires
        call_ensures(mount_of, (step,), mount),
        call_ensures(namespaces_of, (step,), namespaces),
    ensures
        mount is Some <==> step == Step::MakePrivate || step == Step::MountTmpfs,
        step == Step::MakePrivate ==> mount->0.target@ == "/"@ && mount->0.recursive
            && mount->0.private && mount->0.source is None && mount->0.fs_type is None
            && mount->0.options is None,
        step == Step::MountTmpfs ==> mount->0.target@ == "/dev/shm"@ && !mount->0.recursive
            && !mount->0.private,
        step == Step::MountTmpfs ==> (mount->0.source matches Some(source) && source@ == "tmpfs"@),
        step == Step::MountTmpfs ==> (mount->0.fs_type matches Some(fs_type) && fs_type@
            == "tmpfs"@),
        step == Step::MountTmpfs ==> (mount->0.options matches Some(options) && options@
            == "nr_blocks=1,huge=never"@),
        namespaces is Some <==> step == Step::Unshare,
        namespaces matches Some(namespaces) ==> namespaces.user && namespaces.mount,
{
}

/// An error names the operation, then what went wrong, whatever both are; the error of a step names that
/// step.  Both are of no class of their own.
pub proof fn law_errors_name_the_operation(
    operation: &str,
    error: &str,
    step: Step,
    step_name: &str,
    reported: PlatformError,
    step_reported: PlatformError,
    kind: ErrorKind,
    step_kind: ErrorKind,
    text: String,
    step_text: String,
)
    requires
        call_ensures(operation_error, (operation, error), reported),
        call_ensures(setup_error, (step, error), step_reported),
        call_ensures(Step::operation, (step,), step_name),
        call_ensures(PlatformError::kind, (&reported,), kind),
        call_ensures(PlatformError::kind, (&step_reported,), step_kind),
        call_ensures(PlatformError::to_string, (&reported,), text),
        call_ensures(PlatformError::to_string, (&step_reported,), step_text),
    ensures
        kind == ErrorKind::Other && step_kind == ErrorKind::Other,
        text@ == operation@ + ": "@ + error@,
        step_text@ == step_name@ + ": "@ + error@,
        step == Step::Unshare ==> step_name@ == "unshare user and mount namespaces"@,
        step == Step::MapUser ==> step_name@ == "write /proc/self/uid_map"@,
        step == Step::DenySetgroups ==> step_name@ == "write /proc/self/setgroups"@,
        step == Step::MapGroup ==> step_name@ == "write /proc/self/gid_map"@,
        step == Step::MakePrivate ==> step_name@ == "make / recursively private"@,
        step == Step::MountTmpfs ==> step_name@ == "mount one-page tmpfs at /dev/shm"@,
{
}

/// The first argument is the other command, and all that follow are its arguments, in their order.
/// Without a first argument the command says how it is called.
pub proof fn law_arguments_are_split_after_the_first(
    args: &[String],
    command: Result<(&str, &[String]), &'static str>,
)
    requires
        call_ensures(parse_command, (args,), command),
    ensures
        command is Ok <==> args@.len() > 0,
        command matches Ok((program, command_args)) ==> {
            &&& program@ == args@[0]@
            &&& command_args@.len() == args@.len() - 1
            &&& forall|i: int|
                0 <= i < command_args@.len() ==> #[trigger] command_args@[i] == args@[i + 1]
        },
        command matches Err(usage) ==> usage@ == "Usage: vtt small_dev_shm <command> [args...]"@,
{
}

/// On Linux the command starts with the other command and all its arguments, before anything was
/// looked up; elsewhere it is reported as unsupported, once it was called in the right way.
pub proof fn law_command_starts_on_linux<E>(
    platform: Platform,
    args: &[String],
    launch: Result<Launch<E>, RunError>,
)
    requires
        call_ensures(run::<E>, (platform, args), launch),
    ensures
        launch is Ok <==> args@.len() > 0 && platform == Platform::Linux,
        launch matches Ok(launch) ==> {
            &&& launch.phase is ReadIds
            &&& launch.program@ == args@[0]@
            &&& launch.command_args@.len() == args@.len() - 1
            &&& forall|i: int|
                0 <= i < launch.command_args@.len() ==> #[trigger] launch.command_args@[i]
                    == args@[i + 1]
        },
        args@.len() == 0 ==> (launch matches Err(RunError::Usage(usage)) && usage@
            == "Usage: vtt small_dev_shm <command> [args...]"@),
        args@.len() > 0 && platform == Platform::Other ==> launch matches Err(RunError::Platform(_)),
{
}

/// What a platform other than Linux is told, and what Linux makes of a program and its arguments.
pub proof fn law_platform_decides<E>(
    platform: Platform,
    program: &str,
    command_args: &[String],
    launch: Result<Launch<E>, PlatformError>,
    kind: ErrorKind,
    text: String,
)
    requires
        call_ensures(run_platform::<E>, (platform, program, command_args), launch),
        launch matches Err(error) ==> call_ensures(PlatformError::kind, (&error,), kind)
            && call_ensures(PlatformError::to_string, (&error,), text),
    ensures
        launch is Ok <==> platform == Platform::Linux,
        launch matches Ok(launch) ==> launch.phase is ReadIds && launch.program@ == program@
            && launch.command_args@ == command_args@,
        launch is Err ==> kind == ErrorKind::Unsupported && text@
            == "vtt small_dev_shm is only supported on Linux"@,
{
}

/// The error with which the command reports that a platform is not supported is the platform's own.
pub proof fn law_unsupported_platform_is_reported<E>(
    args: &[String],
    launch: Result<Launch<E>, RunError>,
    kind: ErrorKind,
    text: String,
)
    requires
        args@.len() > 0,
        call_ensures(run::<E>, (Platform::Other, args), launch),
        launch matches Err(RunError::Platform(error)) ==> call_ensures(
            PlatformError::kind,
            (&error,),
            kind,
        ) && call_ensures(PlatformError::to_string, (&error,), text),
    ensures
        kind == ErrorKind::Unsupported,
        text@ == "vtt small_dev_shm is only supported on Linux"@,
{
}

} // verus!
