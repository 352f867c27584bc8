//! The errors that the crate's own rules raise.
use vstd::prelude::*;

verus! {

/// The class of an error.
#[derive(Clone, Copy, Debug, PartialEq, Eq, Structural)]
pub enum ErrorKind {
    /// Something that was looked up does not exist.
    NotFound,
    /// The operating system denied an access.
    PermissionDenied,
    /// A parameter is not acceptable.
    InvalidInput,
    /// Data that was received is not acceptable.
    InvalidData,
    /// A name is not acceptable to the operating system.
    InvalidFilename,
    /// A message was sent only in part.
    WriteZero,
    /// The platform does not offer the operation.
    Unsupported,
    /// Anything else.
    Other,
}

/// Why the crate itself refuses to go on.
#[derive(Clone, Copy, Debug, PartialEq, Eq, Structural)]
pub enum Error {
    /// A mapping of zero bytes was asked for.
    ZeroSize,
    /// The descriptor from the broker does not have the size that was asked for.
    SizeMismatch,
    /// The text is not a broker identifier.
    InvalidIdentifier,
    /// A request to the broker does not have the length of a request.
    MalformedRequest,
    /// A request to the broker was sent only in part.
    ShortRequest,
    /// The descriptor did not fit into the broker's response.
    ResponseNotConstructed,
    /// The broker's response was sent only in part.
    ShortResponse,
    /// The broker answered with something that is not its response.
    InvalidResponse,
    /// The broker's response carried more than one descriptor.
    MultipleDescriptors,
    /// The broker's response carried no descriptor.
    NoDescriptor,
    /// A path that is to be handed to the operating system holds a NUL byte.
    PathContainsNul,
}

impl Error {
    /// The class that each error belongs to.
    pub open spec fn spec_kind(self) -> ErrorKind {
        match self {
            Error::ZeroSize | Error::InvalidIdentifier | Error::PathContainsNul =>
                ErrorKind::InvalidInput,
            Error::ShortRequest | Error::ShortResponse => ErrorKind::WriteZero,
            Error::ResponseNotConstructed => ErrorKind::Other,
            Error::SizeMismatch | Error::MalformedRequest | Error::InvalidResponse
            | Error::MultipleDescriptors | Error::NoDescriptor => ErrorKind::InvalidData,
        }
    }

    /// The text that each error is reported with.
    pub open spec fn spec_message(self) -> Seq<char> {
        match self {
            Error::ZeroSize => "shared-memory size must be nonzero"@,
            Error::SizeMismatch => "shared-memory size does not match broker descriptor"@,
            Error::InvalidIdentifier => "invalid shared-memory broker identifier"@,
            Error::MalformedRequest => "malformed broker request"@,
            Error::ShortRequest => "short broker request"@,
            Error::ResponseNotConstructed => "failed to construct SCM_RIGHTS response"@,
            Error::ShortResponse => "short broker response"@,
            Error::InvalidResponse => "invalid broker response"@,
            Error::MultipleDescriptors => "broker returned multiple descriptors"@,
            Error::NoDescriptor => "broker returned no descriptor"@,
            Error::PathContainsNul => "path contains NUL"@,
        }
    }

    /// Returns the error's class.
    pub fn kind(&self) -> (kind: ErrorKind)
        ensures
            kind == self.spec_kind(),
    {
        match self {
            Error::ZeroSize | Error::InvalidIdentifier | Error::PathContainsNul =>
                ErrorKind::InvalidInput,
            Error::ShortRequest | Error::ShortResponse => ErrorKind::WriteZero,
            Error::ResponseNotConstructed => ErrorKind::Other,
            Error::SizeMismatch | Error::MalformedRequest | Error::InvalidResponse
            | Error::MultipleDescriptors | Error::NoDescriptor => ErrorKind::InvalidData,
        }
    }

    /// Returns the text that the error is reported with.
    pub fn message(&self) -> (message: &'static str)
        ensures
            message@ == self.spec_message(),
    {
        match self {
            Error::ZeroSize => "shared-memory size must be nonzero",
            Error::SizeMismatch => "shared-memory size does not match broker descriptor",
            Error::InvalidIdentifier => "invalid shared-memory broker identifier",
            Error::MalformedRequest => "malformed broker request",
            Error::ShortRequest => "short broker request",
            Error::ResponseNotConstructed => "failed to construct SCM_RIGHTS response",
            Error::ShortResponse => "short broker response",
            Error::InvalidResponse => "invalid broker response",
            Error::MultipleDescriptors => "broker returned multiple descriptors",
            Error::NoDescriptor => "broker returned no descriptor",
            Error::PathContainsNul => "path contains NUL",
        }
    }
}

/// Why an exchange ended without its result: the crate refused to go on, or there is an error of
/// the operating system's with this number, or an outside operation failed with an error of type
/// `E`, which is passed on unchanged.
#[derive(Debug, PartialEq, Eq)]
pub enum Failure<E> {
    /// The crate's own rules were broken.
    Refused(Error),
    /// The operating system's error with this number.  How it reads is up to the operating system.
    Os(i32),
    /// An outside operation failed.
    Outside(E),
}

/// Tells that a number is the one that Linux reports for a name that is too long.  The number
/// depends on the architecture: it is 36, except that it is 63 on SPARC and 78 on MIPS.
pub open spec fn means_name_too_long(number: i32) -> bool {
    number == 36 || number == 63 || number == 78
}

} // verus!
