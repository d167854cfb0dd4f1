//! What the library takes on trust from outside: opaque types that it carries
//! without looking inside, and the one call of the standard library that it
//! makes without a specification of its own.

use coreshift_core::reactor::Fd;
use coreshift_core::unix_socket::UnixStreamFd;
use coreshift_core::CoreError;
use vstd::prelude::*;

verus! {

/// `coreshift_core::reactor::Fd`, an owned file descriptor.
#[verifier::external_type_specification]
#[verifier::external_body]
pub struct ExFd(Fd);

/// `coreshift_core::unix_socket::UnixStreamFd`, one end of a connection.
#[verifier::external_type_specification]
#[verifier::external_body]
pub struct ExUnixStreamFd(UnixStreamFd);

/// `coreshift_core::CoreError`, why a system call failed.
#[verifier::external_type_specification]
#[verifier::external_body]
pub struct ExCoreError(CoreError);

/// `std::io::Error`, why writing to standard output failed.
#[verifier::external_type_specification]
#[verifier::external_body]
pub struct ExIoError(std::io::Error);

/// `std::str::from_utf8`: the text that the bytes encode, where they are valid
/// UTF-8, and nothing where they are not.
#[verifier::external_body]
pub(crate) fn from_utf8(bytes: &[u8]) -> (r: Option<&str>)
    ensures
        match r {
            Some(text) => vstd::utf8::valid_utf8(bytes@) && vstd::utf8::encode_utf8(text@)
                == bytes@,
            None => !vstd::utf8::valid_utf8(bytes@),
        },
{
    std::str::from_utf8(bytes).ok()
}

} // verus!
