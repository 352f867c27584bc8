//! The `stat_long_filename` command: looks up a file whose name is as long as the caller wishes.
use vstd::prelude::*;
use vstd::utf8::encode_utf8;

use crate::decimal::law_decimal_round_trip;
use crate::decimal::number;
use crate::decimal::parse_usize;
use crate::decimal::write_decimal;
use crate::error::means_name_too_long;
use crate::error::Error;
use crate::error::ErrorKind;

verus! {

/// How the command is called.
pub const USAGE: &'static str = "Usage: vtt stat_long_filename <count>";

/// Why a file could not be looked up.
#[derive(Clone, Copy, Debug, PartialEq, Eq, Structural)]
pub enum AccessError {
    /// The operating system reported an error.
    System {
        /// The error's class.
        kind: ErrorKind,
        /// The error's number, if there is one.
        raw_os_error: Option<i32>,
    },
    /// The operating system was not asked.
    Refused(Error),
}

impl AccessError {
    /// The error's class.
    pub open spec fn spec_kind(self) -> ErrorKind {
        match self {
            AccessError::System { kind, .. } => kind,
            AccessError::Refused(error) => error.spec_kind(),
        }
    }

    /// The operating system's number of the error, if there is one.
    pub open spec fn spec_raw_os_error(self) -> Option<i32> {
        match self {
            AccessError::System { raw_os_error, .. } => raw_os_error,
            AccessError::Refused(_) => None,
        }
    }

    /// Returns the error's class.
    pub fn kind(&self) -> (kind: ErrorKind)
        ensures
            kind == self.spec_kind(),
    {
        match self {
            AccessError::System { kind, .. } => *kind,
            AccessError::Refused(error) => error.kind(),
        }
    }

    /// Returns the operating system's number of the error, if there is one.
    pub fn raw_os_error(&self) -> (number: Option<i32>)
        ensures
            number == self.spec_raw_os_error(),
    {
        match self {
            AccessError::System { raw_os_error, .. } => *raw_os_error,
            AccessError::Refused(_) => None,
        }
    }
}

/// Why the command failed.
#[derive(Debug)]
pub enum RunError {
    /// The command was called in the wrong way; the text says how it is called.
    Usage(String),
    /// The file could not be looked up.
    Access(AccessError),
}

/// The count that the arguments ask for: there is exactly one argument, and it is a number that a
/// `usize` can hold.
pub open spec fn requested_count(args: Seq<String>) -> Option<usize> {
    if args.len() != 1 {
        None
    } else {
        match number(args[0]@) {
            Some(count) if count <= usize::MAX => Some(count as usize),
            _ => None,
        }
    }
}

/// Reads the count that the arguments ask for.
pub fn parse_count(args: &[String]) -> (count: Result<usize, String>)
    ensures
        match count {
            Ok(count) => requested_count(args@) == Some(count),
            Err(usage) => requested_count(args@) is None && usage@ == USAGE@,
        },
{
    if args.len() != 1 {
        return Err(USAGE.to_owned());
    }
    match parse_usize(args[0].as_str()) {
        Some(count) => Ok(count),
        None => Err(USAGE.to_owned()),
    }
}

/// The path that is looked up: as many times `x` as asked for.
pub open spec fn path_of(count: nat) -> Seq<char> {
    Seq::new(count, |i: int| 'x')
}

/// Generates the path that is looked up.
pub fn generated_path(count: usize) -> (path: String)
    requires
        count <= isize::MAX,
    ensures
        path@ == path_of(count as nat),
{
    let mut path: String = String::new();
    proof {
        reveal_strlit("x");
        assert(path@ =~= path_of(0));
    }
    for i in 0..count
        invariant
            path@ == path_of(i as nat),
            "x"@ == seq!['x'],
    {
        path.append("x");
        assert(path@ =~= path_of((i + 1) as nat));
    }
    path
}

/// Reads the constant `libc::ENAMETOOLONG`.  Believed: it is 36, except that it is 63 on SPARC and
/// 78 on MIPS.  Which of them it is depends on the machine, and is left open.
#[verifier::external_body]
pub fn enametoolong() -> (code: i32)
    ensures
        means_name_too_long(code),
{
    libc::ENAMETOOLONG
}

/// What a lookup amounts to if `name_too_long` is the number that the operating system reports for
/// a name that is too long: that there is no such file, or that no file can have the name, is what
/// the command is for, so neither counts as an error.
pub open spec fn outcome(
    looked_up: Result<(), AccessError>,
    name_too_long: i32,
) -> Result<(), AccessError> {
    match looked_up {
        Ok(()) => Ok(()),
        Err(error) => if error.spec_kind() == ErrorKind::NotFound || error.spec_raw_os_error()
            == Some(name_too_long) {
            Ok(())
        } else {
            Err(error)
        },
    }
}

/// Judges a lookup.
pub fn judge(looked_up: Result<(), AccessError>, name_too_long: i32) -> (judged: Result<
    (),
    AccessError,
>)
    ensures
        judged == outcome(looked_up, name_too_long),
{
    match looked_up {
        Ok(()) => Ok(()),
        Err(error) => {
            if error.kind() == ErrorKind::NotFound {
                return Ok(());
            }
            match error.raw_os_error() {
                Some(code) => {
                    if code == name_too_long {
                        Ok(())
                    } else {
                        Err(error)
                    }
                },
                None => Err(error),
            }
        },
    }
}

/// Looks the generated path up, once, and judges what came of it.
pub fn access_generated_path<M: FnOnce(&str) -> Result<(), AccessError>>(
    count: usize,
    metadata: M,
) -> (accessed: Result<(), AccessError>)
    requires
        count <= isize::MAX,
        forall|path: &str|
            path@ == path_of(count as nat) ==> #[trigger] call_requires(metadata, (path,)),
    ensures
        exists|path: &str, looked_up: Result<(), AccessError>, code: i32|
            {
                &&& path@ == path_of(count as nat)
                &&& #[trigger] call_ensures(metadata, (path,), looked_up)
                &&& call_ensures(enametoolong, (), code)
                &&& means_name_too_long(code)
                &&& accessed == #[trigger] outcome(looked_up, code)
            },
{
    let path: String = generated_path(count);
    let looked_up: Result<(), AccessError> = metadata(path.as_str());
    judge(looked_up, enametoolong())
}

/// Runs the command: reads the count, and looks the generated path up with `metadata`.
pub fn run<M: FnOnce(&str) -> Result<(), AccessError>>(args: &[String], metadata: M) -> (ran: Result<
    (),
    RunError,
>)
    requires
        requested_count(args@) matches Some(count) ==> {
            &&& count <= isize::MAX
            &&& forall|path: &str|
                path@ == path_of(count as nat) ==> #[trigger] call_requires(metadata, (path,))
        },
    ensures
        match requested_count(args@) {
            None => ran matches Err(RunError::Usage(usage)) && usage@ == USAGE@,
            Some(count) => exists|path: &str, looked_up: Result<(), AccessError>, code: i32|
                {
                    &&& path@ == path_of(count as nat)
                    &&& #[trigger] call_ensures(metadata, (path,), looked_up)
                    &&& call_ensures(enametoolong, (), code)
                    &&& means_name_too_long(code)
                    &&& ran == match #[trigger] outcome(looked_up, code) {
                        Ok(()) => Ok(()),
                        Err(error) => Err(RunError::Access(error)),
                    }
                },
        },
{
    let count: usize = match parse_count(args) {
        Ok(count) => count,
        Err(usage) => return Err(RunError::Usage(usage)),
    };
    match access_generated_path(count, metadata) {
        Ok(()) => Ok(()),
        Err(error) => Err(RunError::Access(error)),
    }
}

/// The mask that asks the `statx` system call for what `stat` tells.
pub const STATX_BASIC_STATS: u32 = 0x07ff;

/// The bytes that hand a path to the operating system: the path's bytes, and a zero byte at the
/// end.  A path with a zero byte in it cannot be handed over.
pub fn c_path(path: &str) -> (bytes: Result<Vec<u8>, Error>)
    ensures
        match bytes {
            Ok(bytes) => {
                &&& bytes@ == encode_utf8(path@).push(0)
                &&& !encode_utf8(path@).contains(0)
            },
            Err(error) => {
                &&& error == Error::PathContainsNul
                &&& encode_utf8(path@).contains(0)
            },
        },
{
    let source: &[u8] = path.as_bytes();
    let mut bytes: Vec<u8> = Vec::new();
    let mut i: usize = 0;
    while i < source.len()
        invariant
            0 <= i <= source@.len(),
            source@ == encode_utf8(path@),
            bytes@ == source@.take(i as int),
            !bytes@.contains(0),
        decreases source@.len() - i,
    {
        if source[i] == 0 {
            assert(source@[i as int] == 0);
            return Err(Error::PathContainsNul);
        }
        bytes.push(source[i]);
        i += 1;
        proof {
            assert(bytes@ =~= source@.take(i as int));
            assert forall|k: int| 0 <= k < bytes@.len() implies bytes@[k] != 0 by {
                if k < i - 1 {
                    assert(bytes@.drop_last()[k] != 0);
                }
            }
        }
    }
    assert(source@.take(i as int) =~= source@);
    bytes.push(0);
    Ok(bytes)
}

/// What a system call amounts to that returned this number and left this error: -1 says that it
/// failed.
pub open spec fn called(returned: i64, error: AccessError) -> Result<(), AccessError> {
    if returned == -1 {
        Err(error)
    } else {
        Ok(())
    }
}

/// Judges a system call by what it returned and the error that it left.
pub fn judge_call(returned: i64, error: AccessError) -> (judged: Result<(), AccessError>)
    ensures
        judged == called(returned, error),
{
    if returned == -1 {
        Err(error)
    } else {
        Ok(())
    }
}

/// Looks a path up: hands the path's bytes to `statx`, with no flags and the mask that asks for
/// what `stat` tells.  `statx` makes the system call and gives what it returned, together with the
/// error that stood there after it; where it returned -1, that is the error.  A path with a zero
/// byte in it is refused, and `statx` then need not be fit to be called.
pub fn metadata<S: FnOnce(&[u8], u32, u32) -> (i64, AccessError)>(path: &str, statx: S) -> (
    looked_up: Result<(), AccessError>)
    requires
        !encode_utf8(path@).contains(0) ==> forall|bytes: &[u8]|
            bytes@ == encode_utf8(path@).push(0) ==> #[trigger] call_requires(
                statx,
                (bytes, 0u32, STATX_BASIC_STATS),
            ),
    ensures
        encode_utf8(path@).contains(0) ==> looked_up == Result::<(), AccessError>::Err(
            AccessError::Refused(Error::PathContainsNul),
        ),
        !encode_utf8(path@).contains(0) ==> exists|bytes: &[u8], returned: (i64, AccessError)|
            {
                &&& bytes@ == encode_utf8(path@).push(0)
                &&& #[trigger] call_ensures(statx, (bytes, 0u32, STATX_BASIC_STATS), returned)
                &&& looked_up == called(returned.0, returned.1)
            },
{
    match c_path(path) {
        Ok(bytes) => {
            let (returned, error) = statx(bytes.as_slice(), 0, STATX_BASIC_STATS);
            judge_call(returned, error)
        },
        Err(error) => Err(AccessError::Refused(error)),
    }
}

// ---------------------------------------------------------------------------------------------
// Laws

/// Every generated path is a relative path of exactly as many bytes as asked for, all of them
/// ASCII and none of them zero, so that it can always be handed to the operating system.
pub proof fn law_generated_paths_are_plain(count: nat)
    ensures
        path_of(count).len() == count,
        vstd::utf8::is_ascii_chars(path_of(count)),
        encode_utf8(path_of(count)).len() == count,
        !encode_utf8(path_of(count)).contains(0),
        !path_of(count).contains('/'),
{
    vstd::utf8::is_ascii_chars_encode_utf8(path_of(count));
}

/// Exactly one argument is read as the count, and for just the number that it denotes; no argument,
/// more than one, and an argument that is no number or one that a `usize` cannot hold are answered
/// with how the command is called.
pub proof fn law_count_is_the_number_that_was_written(
    args: &[String],
    text: &str,
    parsed: Option<usize>,
    count: Result<usize, String>,
)
    requires
        args@.len() > 0 ==> text@ == args@[0]@,
        call_ensures(parse_usize, (text,), parsed),
        call_ensures(parse_count, (args,), count),
    ensures
        count is Ok <==> args@.len() == 1 && parsed is Some,
        count matches Ok(count) ==> parsed == Some(count),
        forall|denoted: nat|
            args@.len() == 1 && #[trigger] number(args@[0]@) == Some(denoted) && denoted
                <= usize::MAX ==> count == Result::<usize, String>::Ok(denoted as usize),
        count matches Err(usage) ==> usage@ == "Usage: vtt stat_long_filename <count>"@,
{
}

/// The count of every number that a `u32` holds, written in decimal, is that number.
pub proof fn law_written_count_is_read(
    written: u32,
    text: String,
    args: &[String],
    count: Result<usize, String>,
)
    requires
        call_ensures(write_decimal, (written,), text),
        args@.len() == 1,
        args@[0]@ == text@,
        call_ensures(parse_count, (args,), count),
    ensures
        count == Result::<usize, String>::Ok(written as usize),
{
    law_decimal_round_trip(written as nat);
}

/// The generated path has as many characters as asked for, and each of them is `x`.  There is one of
/// every length that a text can have.
pub proof fn law_generated_path_is_exact(count: usize, path: String)
    requires
        call_ensures(generated_path, (count,), path),
    ensures
        path@.len() == count,
        forall|i: int| 0 <= i < count ==> #[trigger] path@[i] == 'x',
        count <= isize::MAX ==> call_requires(generated_path, (count,)),
{
}

/// A lookup counts as a failure exactly when it failed, not because there is no such file and not with
/// the number of a name that is too long; the error is then passed on as it is.
pub proof fn law_lookups_are_judged(
    looked_up: Result<(), AccessError>,
    name_too_long: i32,
    judged: Result<(), AccessError>,
)
    requires
        call_ensures(judge, (looked_up, name_too_long), judged),
    ensures
        looked_up is Ok ==> judged is Ok,
        looked_up matches Err(AccessError::System { kind, raw_os_error }) ==> (judged is Ok <==> kind
            == ErrorKind::NotFound || raw_os_error == Some(name_too_long)),
        looked_up matches Err(AccessError::Refused(error)) ==> judged is Err,
        judged is Err ==> judged == looked_up,
{
}

/// A system call failed exactly when it returned -1, and then with the error that it left.
pub proof fn law_system_calls_are_judged(
    returned: i64,
    error: AccessError,
    judged: Result<(), AccessError>,
)
    requires
        call_ensures(judge_call, (returned, error), judged),
    ensures
        returned == -1 <==> judged is Err,
        judged matches Err(kept) ==> kept == error,
{
}

/// An error of the operating system's has the class and the number that were reported; a refusal has
/// the class of invalid input and no number.
pub proof fn law_errors_keep_their_class_and_number(
    error: AccessError,
    kind: ErrorKind,
    number: Option<i32>,
    refusal: Error,
    refusal_kind: ErrorKind,
)
    requires
        call_ensures(AccessError::kind, (&error,), kind),
        call_ensures(AccessError::raw_os_error, (&error,), number),
        error matches AccessError::Refused(refused) ==> refused == refusal,
        call_ensures(Error::kind, (&refusal,), refusal_kind),
    ensures
        error matches AccessError::System { kind: reported, raw_os_error } ==> kind == reported
            && number == raw_os_error,
        error is Refused ==> kind == refusal_kind && number is None,
{
}

/// The lookup is that of a path of exactly `count` times `x`, and what comes of it is passed on, but
/// for the errors that the command is for.
pub proof fn law_generated_path_is_looked_up<M: FnOnce(&str) -> Result<(), AccessError>>(
    count: usize,
    metadata: M,
    accessed: Result<(), AccessError>,
)
    requires
        call_ensures(access_generated_path::<M>, (count, metadata), accessed),
    ensures
        exists|path: &str, looked_up: Result<(), AccessError>, code: i32|
            {
                &&& path@.len() == count
                &&& forall|i: int| 0 <= i < count ==> path@[i] == 'x'
                &&& #[trigger] call_ensures(metadata, (path,), looked_up)
                &&& #[trigger] call_ensures(enametoolong, (), code)
                &&& looked_up is Ok ==> accessed is Ok
                &&& looked_up matches Err(AccessError::System { kind, raw_os_error }) ==> (
                accessed is Ok <==> kind == ErrorKind::NotFound || raw_os_error == Some(code))
                &&& looked_up matches Err(AccessError::Refused(_)) ==> accessed is Err
                &&& accessed is Err ==> accessed == looked_up
            },
{
    let (path, looked_up, code) = choose|
        path: &str,
        looked_up: Result<(), AccessError>,
        code: i32,
    |
        {
            &&& path@ == path_of(count as nat)
            &&& #[trigger] call_ensures(metadata, (path,), looked_up)
            &&& call_ensures(enametoolong, (), code)
            &&& means_name_too_long(code)
            &&& accessed == #[trigger] outcome(looked_up, code)
        };
    assert(call_ensures(metadata, (path,), looked_up));
    assert(call_ensures(enametoolong, (), code));
}

/// The command looks up a path of exactly as many times `x` as the number that its one argument
/// denotes, and passes on what comes of that, but for the errors that it is for.  Called in any other
/// way it looks up nothing and says how it is called.
pub proof fn law_command_looks_up_what_was_asked_for<M: FnOnce(&str) -> Result<(), AccessError>>(
    args: &[String],
    metadata: M,
    count: Result<usize, String>,
    ran: Result<(), RunError>,
)
    requires
        call_ensures(parse_count, (args,), count),
        call_ensures(run::<M>, (args, metadata), ran),
    ensures
        count is Err ==> (ran matches Err(RunError::Usage(usage)) && usage@
            == "Usage: vtt stat_long_filename <count>"@),
        count matches Ok(count) ==> !(ran matches Err(RunError::Usage(_))),
        count matches Ok(count) ==> exists|
            path: &str,
            looked_up: Result<(), AccessError>,
            code: i32,
        |
            {
                &&& path@.len() == count
                &&& forall|i: int| 0 <= i < count ==> path@[i] == 'x'
                &&& #[trigger] call_ensures(metadata, (path,), looked_up)
                &&& #[trigger] call_ensures(enametoolong, (), code)
                &&& looked_up is Ok ==> ran is Ok
                &&& looked_up matches Err(AccessError::System { kind, raw_os_error }) ==> (
                ran is Ok <==> kind == ErrorKind::NotFound || raw_os_error == Some(code))
                &&& looked_up matches Err(AccessError::Refused(_)) ==> ran is Err
                &&& ran matches Err(RunError::Access(error)) ==> looked_up == Result::<
                    (),
                    AccessError,
                >::Err(error)
            },
{
    if let Ok(count) = count {
        let (path, looked_up, code) = choose|
            path: &str,
            looked_up: Result<(), AccessError>,
            code: i32,
        |
            {
                &&& path@ == path_of(count as nat)
                &&& #[trigger] call_ensures(metadata, (path,), looked_up)
                &&& call_ensures(enametoolong, (), code)
                &&& means_name_too_long(code)
                &&& ran == match #[trigger] outcome(looked_up, code) {
                    Ok(()) => Ok(()),
                    Err(error) => Err(RunError::Access(error)),
                }
            };
        assert(call_ensures(metadata, (path,), looked_up));
        assert(call_ensures(enametoolong, (), code));
    }
}

/// A path is handed over as its own bytes with one zero byte behind them, unless it has a zero byte
/// itself; then, and only then, it is refused.
pub proof fn law_paths_are_handed_over_whole(path: &str, bytes: Result<Vec<u8>, Error>)
    requires
        call_ensures(c_path, (path,), bytes),
    ensures
        bytes is Err <==> exists|i: int|
            0 <= i < encode_utf8(path@).len() && #[trigger] encode_utf8(path@)[i] == 0,
        bytes matches Err(error) ==> error == Error::PathContainsNul,
        bytes matches Ok(bytes) ==> bytes@.len() == encode_utf8(path@).len() + 1 && bytes@.last()
            == 0 && bytes@.drop_last() == encode_utf8(path@),
{
    if let Ok(handed) = bytes {
        assert(handed@.drop_last() =~= encode_utf8(path@));
    } else {
        let i = choose|i: int| 0 <= i < encode_utf8(path@).len() && encode_utf8(path@)[i] == 0;
        assert(encode_utf8(path@)[i] == 0);
    }
}

/// The system call is made with the path's bytes and a zero byte, without flags and with the mask
/// 0x07ff, and its error is passed on exactly when it returned -1.  A path with a zero byte in it is
/// refused instead.
pub proof fn law_path_is_looked_up_by_its_bytes<
    S: FnOnce(&[u8], u32, u32) -> (i64, AccessError),
>(path: &str, statx: S, handed: Result<Vec<u8>, Error>, looked_up: Result<(), AccessError>)
    requires
        call_ensures(c_path, (path,), handed),
        call_ensures(metadata::<S>, (path, statx), looked_up),
    ensures
        handed matches Err(error) ==> looked_up == Result::<(), AccessError>::Err(
            AccessError::Refused(error),
        ),
        handed matches Ok(handed) ==> exists|bytes: &[u8], returned: (i64, AccessError)|
            {
                &&& bytes@ == handed@
                &&& #[trigger] call_ensures(statx, (bytes, 0u32, 0x07ffu32), returned)
                &&& looked_up is Err <==> returned.0 == -1
                &&& looked_up matches Err(error) ==> error == returned.1
            },
{
    if let Ok(bytes) = handed {
        let (given, returned) = choose|given: &[u8], returned: (i64, AccessError)|
            {
                &&& given@ == encode_utf8(path@).push(0)
                &&& #[trigger] call_ensures(statx, (given, 0u32, STATX_BASIC_STATS), returned)
                &&& looked_up == called(returned.0, returned.1)
            };
        assert(call_ensures(statx, (given, 0u32, 0x07ffu32), returned));
    }
}

} // verus!
