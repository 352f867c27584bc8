//! The socket address that a broker listens on.
use rustix::io::Errno;
use rustix::net::SocketAddrUnix;
use vstd::prelude::*;

use crate::error::means_name_too_long;

verus! {

/// How many bytes of a name an abstract socket address has room for.
pub const MAX_NAME_LEN: usize = 107;

/// `rustix::net::SocketAddrUnix`: the address of a Unix-domain socket.
#[verifier::external_type_specification]
#[verifier::external_body]
pub struct ExSocketAddrUnix(SocketAddrUnix);

/// `rustix::io::Errno`: the error number of a failed operation.
#[verifier::external_type_specification]
#[verifier::external_body]
pub struct ExErrno(Errno);

/// The bytes of the name that an abstract socket address holds.
pub uninterp spec fn address_name(address: SocketAddrUnix) -> Seq<u8>;

/// The operating system's number of an error.
pub uninterp spec fn errno_number(errno: Errno) -> i32;

/// `SocketAddrUnix::new_abstract_name`.  Believed: it succeeds exactly when the name leaves room
/// for the zero byte that marks an address of 108 bytes as abstract, and the address then holds
/// the name's bytes, zero bytes among them.  Its only error is that of a name that is too long.
pub assume_specification [ SocketAddrUnix::new_abstract_name ](name: &[u8]) -> (address: Result<SocketAddrUnix, Errno>)
    ensures
        match address {
            Ok(address) => name@.len() <= MAX_NAME_LEN && address_name(address) == name@,
            Err(errno) => name@.len() > MAX_NAME_LEN && means_name_too_long(errno_number(errno)),
        },
;

/// `Errno::raw_os_error`.  Believed: the number belongs to the error.
pub assume_specification [ Errno::raw_os_error ](errno: Errno) -> (raw: i32)
    ensures
        raw == errno_number(errno),
;

/// Tells that a name has no address and that this is the number of the error that says so.
pub open spec fn name_is_refused(name: Seq<u8>, number: i32) -> bool {
    &&& name.len() > MAX_NAME_LEN
    &&& means_name_too_long(number)
    &&& exists|bytes: &[u8], errno: Errno|
        {
            &&& bytes@ == name
            &&& #[trigger] call_ensures(SocketAddrUnix::new_abstract_name, (bytes,), Err(errno))
            &&& number == errno_number(errno)
        }
}

/// The address of the broker with this abstract name.  A name that is too long for an address has
/// none; the error is then the operating system's, by its number.
pub fn socket_address(abstract_name: &[u8]) -> (address: Result<SocketAddrUnix, i32>)
    ensures
        match address {
            Ok(address) => {
                &&& abstract_name@.len() <= MAX_NAME_LEN
                &&& address_name(address) == abstract_name@
            },
            Err(number) => name_is_refused(abstract_name@, number),
        },
{
    match SocketAddrUnix::new_abstract_name(abstract_name) {
        Ok(address) => Ok(address),
        Err(errno) => Err(errno.raw_os_error()),
    }
}

/// A name has an address exactly when it has no more than 107 bytes; the address then holds the
/// name's bytes and no others.  The error of a longer name is the one for names that are too long.
pub proof fn law_names_up_to_the_limit_have_an_address(
    abstract_name: &[u8],
    address: Result<SocketAddrUnix, i32>,
)
    requires
        call_ensures(socket_address, (abstract_name,), address),
    ensures
        address is Ok <==> abstract_name@.len() <= 107,
        address matches Ok(address) ==> address_name(address) == abstract_name@,
        address matches Err(number) ==> number == 36 || number == 63 || number == 78,
{
}

} // verus!
